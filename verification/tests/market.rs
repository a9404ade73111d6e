use pair_exec::gamma::{
    candidate_slug_times, floor_15m, make_pair, now_15m_epoch, parse_token_ids, TokenField,
};

#[test]
fn floor_to_window_boundary() {
    assert_eq!(floor_15m(0), 0);
    assert_eq!(floor_15m(899), 0);
    assert_eq!(floor_15m(900), 900);
    assert_eq!(floor_15m(1000), 900);
    assert_eq!(floor_15m(1_700_000_123), 1_700_000_100);
}

#[test]
fn current_window_is_aligned() {
    let t = now_15m_epoch();
    assert!(t >= 0);
    assert_eq!(t % 900, 0);
}

#[test]
fn probe_schedule_is_three_windows() {
    assert_eq!(candidate_slug_times(1_700_000_100), vec![
        1_700_000_100,
        1_700_001_000,
        1_700_001_900
    ]);
}

#[test]
fn pair_accepted_with_two_tokens() {
    let tokens = vec!["111".to_string(), "222".to_string()];
    let p = make_pair("BTC", "btc-updown-15m-900", "cond-1", true, &tokens).unwrap();
    assert_eq!(p.symbol, "BTC");
    assert_eq!(p.slug, "btc-updown-15m-900");
    assert_eq!(p.condition_id, "cond-1");
    assert_eq!(p.token_a, "111");
    assert_eq!(p.token_b, "222");
}

#[test]
fn pair_rejected_when_not_accepting_orders() {
    let tokens = vec!["111".to_string(), "222".to_string()];
    assert!(make_pair("BTC", "s", "c", false, &tokens).is_none());
}

#[test]
fn pair_rejected_without_exactly_two_tokens() {
    let one = vec!["111".to_string()];
    let three = vec!["1".to_string(), "2".to_string(), "3".to_string()];
    assert!(make_pair("BTC", "s", "c", true, &one).is_none());
    assert!(make_pair("BTC", "s", "c", true, &three).is_none());
}

#[test]
fn token_ids_from_array_keep_only_strings() {
    let f = TokenField::Items(vec![
        Some("123".to_string()),
        None,
        Some("456".to_string()),
    ]);
    assert_eq!(parse_token_ids(&f), vec!["123".to_string(), "456".to_string()]);
}

#[test]
fn token_ids_from_json_encoded_string() {
    let f = TokenField::Text("[\"123\",\"456\"]".to_string());
    assert_eq!(parse_token_ids(&f), vec!["123".to_string(), "456".to_string()]);
}

#[test]
fn malformed_json_array_falls_back_to_splitting() {
    let f = TokenField::Text("[not json".to_string());
    assert_eq!(parse_token_ids(&f), vec!["[not json".to_string()]);
}

#[test]
fn token_ids_from_comma_separated_string() {
    let f = TokenField::Text(" \"123\" , 456 ,, ".to_string());
    assert_eq!(parse_token_ids(&f), vec!["123".to_string(), "456".to_string()]);
}

#[test]
fn empty_string_yields_no_tokens() {
    assert_eq!(parse_token_ids(&TokenField::Text(String::new())), Vec::<String>::new());
}

#[test]
fn other_shapes_yield_no_tokens() {
    assert_eq!(parse_token_ids(&TokenField::Other), Vec::<String>::new());
}
