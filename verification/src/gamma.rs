//! Market-pair resolution: the verified pieces of the pair-discovery cycle.
//!
//! The surrounding application polls the market-listing service over HTTP
//! for candidate event slugs; this module supplies everything around that
//! I/O: the 15-minute window arithmetic behind the slugs, the probe
//! schedule, the decoding of a market record's token-id field, and the
//! acceptance rule that turns a candidate market into a [`MarketPair`].

use vstd::prelude::*;

verus! {

/// A resolved tradable pair for one symbol and time window: the two token
/// ids are the correlated "up" and "down" outcomes of one timed event.
/// Immutable for the trading cycle that uses it.
#[derive(Clone, Debug)]
pub struct MarketPair {
    pub symbol: String,
    pub slug: String,
    pub condition_id: String,
    pub token_a: String,
    pub token_b: String,
}

/// Relies on std::time::SystemTime::now and duration_since(UNIX_EPOCH) for
/// the current wall clock: whole seconds since the Unix epoch, zero if the
/// clock reads before it. Nothing more is assumed of the value.
#[verifier::external_body]
fn epoch_seconds() -> (r: i64)
    ensures
        r >= 0,
{
    match std::time::SystemTime::now().duration_since(std::time::UNIX_EPOCH) {
        Ok(d) => i64::try_from(d.as_secs()).unwrap_or(0),
        Err(_) => 0,
    }
}

/// Floor `t` to the 15-minute (900-second) boundary at or below it.
pub fn floor_15m(t: i64) -> (r: i64)
    requires
        t >= 0,
    ensures
        r == 900 * ((t as int) / 900),
        0 <= r <= t,
        t - r < 900,
        r % 900 == 0,
{
    proof {
        vstd::arithmetic::div_mod::lemma_fundamental_div_mod(t as int, 900);
        vstd::arithmetic::div_mod::lemma_mod_bound(t as int, 900);
        vstd::arithmetic::div_mod::lemma_mod_multiples_basic((t as int) / 900, 900);
    }
    (t / 900) * 900
}

/// The start of the current 15-minute window: the wall clock floored to a
/// 900-second boundary. Event slugs are keyed by these boundaries.
pub fn now_15m_epoch() -> (r: i64)
    ensures
        r >= 0,
        r % 900 == 0,
{
    let t = epoch_seconds();
    floor_15m(t)
}

/// The probe schedule for one symbol: the window starting at `base` and
/// the two windows after it, in the order they are to be tried.
pub fn candidate_slug_times(base: i64) -> (r: Vec<i64>)
    requires
        0 <= base <= i64::MAX - 1800,
    ensures
        r@.len() == 3,
        r@[0] == base,
        r@[1] == base + 900,
        r@[2] == base + 1800,
{
    let mut v: Vec<i64> = Vec::new();
    v.push(base);
    v.push(base + 900);
    v.push(base + 1800);
    v
}

/// Acceptance rule for a candidate market: it must currently accept orders
/// and expose exactly two token ids. Exactly then a pair is formed, with
/// the tokens aligned in the order the market lists them.
pub fn make_pair(
    symbol: &str,
    slug: &str,
    condition_id: &str,
    accepting_orders: bool,
    tokens: &Vec<String>,
) -> (r: Option<MarketPair>)
    ensures
        r is Some <==> (accepting_orders && tokens@.len() == 2),
        r matches Some(p) ==> p.symbol@ == symbol@ && p.slug@ == slug@ && p.condition_id@
            == condition_id@ && p.token_a@ == tokens@[0]@ && p.token_b@ == tokens@[1]@,
{
    if accepting_orders && tokens.len() == 2 {
        Some(
            MarketPair {
                symbol: symbol.to_owned(),
                slug: slug.to_owned(),
                condition_id: condition_id.to_owned(),
                token_a: tokens[0].clone(),
                token_b: tokens[1].clone(),
            },
        )
    } else {
        None
    }
}

/// The raw token-id field of a market record, reduced to the shapes the
/// decoder distinguishes. The listing service returns the field either as
/// a JSON array (whose elements should be, but need not be, strings), or
/// as one string that itself holds a JSON-encoded array or a
/// comma-separated list.
#[derive(Clone, Debug)]
pub enum TokenField {
    /// A JSON array: `Some` for each string element, `None` for any
    /// element of another type.
    Items(Vec<Option<String>>),
    /// A single string.
    Text(String),
    /// Any other shape.
    Other,
}

/// Mathematical image of a [`TokenField`].
pub enum TokenFieldView {
    Items(Seq<Option<Seq<char>>>),
    Text(Seq<char>),
    Other,
}

impl View for TokenField {
    type V = TokenFieldView;

    open spec fn view(&self) -> TokenFieldView {
        match self {
            TokenField::Items(xs) => TokenFieldView::Items(xs.deep_view()),
            TokenField::Text(s) => TokenFieldView::Text(s@),
            TokenField::Other => TokenFieldView::Other,
        }
    }
}

/// The string elements of a JSON array, in order, non-strings skipped.
pub open spec fn string_items(xs: Seq<Option<Seq<char>>>) -> Seq<Seq<char>>
    decreases xs.len(),
{
    if xs.len() == 0 {
        Seq::empty()
    } else {
        match xs[0] {
            Some(s) => seq![s] + string_items(xs.drop_first()),
            None => string_items(xs.drop_first()),
        }
    }
}

/// Characters stripped from both ends of a comma-separated entry.
pub open spec fn is_space(c: char) -> bool {
    c == ' ' || c == '\t' || c == '\n' || c == '\r'
}

pub open spec fn trim_start_spaces(s: Seq<char>) -> Seq<char>
    decreases s.len(),
{
    if s.len() > 0 && is_space(s[0]) {
        trim_start_spaces(s.drop_first())
    } else {
        s
    }
}

pub open spec fn trim_end_spaces(s: Seq<char>) -> Seq<char>
    decreases s.len(),
{
    if s.len() > 0 && is_space(s.last()) {
        trim_end_spaces(s.drop_last())
    } else {
        s
    }
}

pub open spec fn trim_start_quotes(s: Seq<char>) -> Seq<char>
    decreases s.len(),
{
    if s.len() > 0 && s[0] == '"' {
        trim_start_quotes(s.drop_first())
    } else {
        s
    }
}

pub open spec fn trim_end_quotes(s: Seq<char>) -> Seq<char>
    decreases s.len(),
{
    if s.len() > 0 && s.last() == '"' {
        trim_end_quotes(s.drop_last())
    } else {
        s
    }
}

/// One comma-separated entry, cleaned: surrounding whitespace stripped,
/// then surrounding double quotes.
pub open spec fn clean_token(s: Seq<char>) -> Seq<char> {
    trim_end_quotes(trim_start_quotes(trim_end_spaces(trim_start_spaces(s))))
}

/// The comma-separated segments of `s[from..]`, scanning from position
/// `i`: each segment runs up to the next comma or the end.
pub open spec fn csv_segments(s: Seq<char>, from: int, i: int) -> Seq<Seq<char>>
    recommends
        0 <= from <= i <= s.len(),
    decreases s.len() - i,
{
    if i >= s.len() {
        seq![s.subrange(from, s.len() as int)]
    } else if s[i] == ',' {
        seq![s.subrange(from, i)] + csv_segments(s, i + 1, i + 1)
    } else {
        csv_segments(s, from, i + 1)
    }
}

/// Cleaned segments, empty ones dropped.
pub open spec fn kept_tokens(segs: Seq<Seq<char>>) -> Seq<Seq<char>>
    decreases segs.len(),
{
    if segs.len() == 0 {
        Seq::empty()
    } else {
        let t = clean_token(segs[0]);
        let rest = kept_tokens(segs.drop_first());
        if t.len() > 0 {
            seq![t] + rest
        } else {
            rest
        }
    }
}

/// The token ids carried by a comma-separated string: split at commas,
/// each entry cleaned, empty entries dropped.
pub open spec fn csv_tokens(s: Seq<char>) -> Seq<Seq<char>> {
    kept_tokens(csv_segments(s, 0, 0))
}

/// What `serde_json::from_str::<Vec<String>>` yields on a given text: the
/// decoded list when the text is a JSON array of strings, `None`
/// otherwise.
pub uninterp spec fn json_string_list(s: Seq<char>) -> Option<Seq<Seq<char>>>;

/// Relies on serde_json::from_str with target `Vec<String>`: a
/// deterministic parse of the text alone. The error case carries nothing
/// the decoder reads, so it is folded to `None`.
#[verifier::external_body]
fn parse_json_string_array(s: &str) -> (r: Option<Vec<String>>)
    ensures
        r.deep_view() == json_string_list(s@),
{
    serde_json::from_str::<Vec<String>>(s).ok()
}

/// The token ids named by a market record's token-id field.
pub open spec fn spec_parse_token_ids(f: TokenFieldView) -> Seq<Seq<char>> {
    match f {
        TokenFieldView::Items(xs) => string_items(xs),
        TokenFieldView::Text(s) => {
            if s.len() > 0 && s[0] == '[' && json_string_list(s) is Some {
                match json_string_list(s) {
                    Some(l) => l,
                    None => Seq::empty(),
                }
            } else {
                csv_tokens(s)
            }
        },
        TokenFieldView::Other => Seq::empty(),
    }
}

/// Decode a market record's token-id field into the token ids it names:
/// the string elements of an array; for a single string, the JSON-decoded
/// array when the string is one, else its cleaned comma-separated entries;
/// nothing for any other shape.
pub fn parse_token_ids(v: &TokenField) -> (r: Vec<String>)
    ensures
        r.deep_view() == spec_parse_token_ids(v@),
{
    match v {
        TokenField::Items(xs) => collect_string_items(xs),
        TokenField::Text(s) => {
            let ss = s.as_str();
            let n = ss.unicode_len();
            if n > 0 && ss.get_char(0) == '[' {
                match parse_json_string_array(ss) {
                    Some(arr) => {
                        return arr;
                    },
                    None => {},
                }
            }
            split_csv(ss)
        },
        TokenField::Other => Vec::new(),
    }
}

/// The string elements of a decoded JSON array, in order.
fn collect_string_items(xs: &Vec<Option<String>>) -> (r: Vec<String>)
    ensures
        r.deep_view() == string_items(xs.deep_view()),
{
    let n = xs.len();
    let mut out: Vec<String> = Vec::new();
    let mut i: usize = 0;
    proof {
        assert(xs.deep_view().skip(0) =~= xs.deep_view());
    }
    while i < n
        invariant
            i <= n,
            n == xs@.len(),
            xs.deep_view().len() == n,
            string_items(xs.deep_view()) == out.deep_view() + string_items(
                xs.deep_view().skip(i as int),
            ),
        decreases n - i,
    {
        let ghost pre = out.deep_view();
        let ghost tail = xs.deep_view().skip(i as int);
        proof {
            assert(tail[0] == xs.deep_view()[i as int]);
            assert(tail.drop_first() =~= xs.deep_view().skip(i as int + 1));
        }
        match &xs[i] {
            Some(tok) => {
                out.push(tok.clone());
                proof {
                    assert(out.deep_view() =~= pre.push(tok@));
                    assert(pre + (seq![tok@] + string_items(tail.drop_first())) =~= pre.push(tok@)
                        + string_items(tail.drop_first()));
                }
            },
            None => {},
        }
        i = i + 1;
    }
    proof {
        assert(xs.deep_view().skip(n as int) =~= Seq::<Option<Seq<char>>>::empty());
    }
    out
}

fn is_space_c(c: char) -> (r: bool)
    ensures
        r == is_space(c),
{
    c == ' ' || c == '\t' || c == '\n' || c == '\r'
}

/// Stripping the prefix of space characters that ends at `j` leaves the
/// subrange from `j` on.
proof fn lemma_trim_start_spaces(s: Seq<char>, j: int)
    requires
        0 <= j <= s.len(),
        forall|k: int| 0 <= k < j ==> is_space(s[k]),
        j == s.len() || !is_space(s[j]),
    ensures
        trim_start_spaces(s) == s.subrange(j, s.len() as int),
    decreases j,
{
    if j == 0 {
        assert(s.subrange(0, s.len() as int) =~= s);
    } else {
        lemma_trim_start_spaces(s.drop_first(), j - 1);
        assert(s.drop_first().subrange(j - 1, s.drop_first().len() as int) =~= s.subrange(
            j,
            s.len() as int,
        ));
    }
}

/// Stripping the suffix of space characters that starts at `j` leaves the
/// subrange up to `j`.
proof fn lemma_trim_end_spaces(s: Seq<char>, j: int)
    requires
        0 <= j <= s.len(),
        forall|k: int| j <= k < s.len() ==> is_space(s[k]),
        j == 0 || !is_space(s[j - 1]),
    ensures
        trim_end_spaces(s) == s.subrange(0, j),
    decreases s.len() - j,
{
    if j == s.len() {
        assert(s.subrange(0, s.len() as int) =~= s);
    } else {
        lemma_trim_end_spaces(s.drop_last(), j);
        assert(s.drop_last().subrange(0, j) =~= s.subrange(0, j));
    }
}

/// Stripping the prefix of quote characters that ends at `j` leaves the
/// subrange from `j` on.
proof fn lemma_trim_start_quotes(s: Seq<char>, j: int)
    requires
        0 <= j <= s.len(),
        forall|k: int| 0 <= k < j ==> s[k] == '"',
        j == s.len() || s[j] != '"',
    ensures
        trim_start_quotes(s) == s.subrange(j, s.len() as int),
    decreases j,
{
    if j == 0 {
        assert(s.subrange(0, s.len() as int) =~= s);
    } else {
        lemma_trim_start_quotes(s.drop_first(), j - 1);
        assert(s.drop_first().subrange(j - 1, s.drop_first().len() as int) =~= s.subrange(
            j,
            s.len() as int,
        ));
    }
}

/// Stripping the suffix of quote characters that starts at `j` leaves the
/// subrange up to `j`.
proof fn lemma_trim_end_quotes(s: Seq<char>, j: int)
    requires
        0 <= j <= s.len(),
        forall|k: int| j <= k < s.len() ==> s[k] == '"',
        j == 0 || s[j - 1] != '"',
    ensures
        trim_end_quotes(s) == s.subrange(0, j),
    decreases s.len() - j,
{
    if j == s.len() {
        assert(s.subrange(0, s.len() as int) =~= s);
    } else {
        lemma_trim_end_quotes(s.drop_last(), j);
        assert(s.drop_last().subrange(0, j) =~= s.subrange(0, j));
    }
}

/// Clean the segment `s[start..end]` and append it to `out` unless it
/// cleans to nothing.
fn push_clean(s: &str, start: usize, end: usize, out: &mut Vec<String>)
    requires
        start <= end,
        end <= s@.len(),
    ensures
        final(out).deep_view() == old(out).deep_view() + kept_tokens(
            seq![s@.subrange(start as int, end as int)],
        ),
{
    let ghost seg = s@.subrange(start as int, end as int);
    let ghost pre = out.deep_view();
    let mut lo: usize = start;
    let mut hi: usize = end;
    while lo < hi && is_space_c(s.get_char(lo))
        invariant
            start <= lo <= hi,
            hi == end <= s@.len(),
            forall|k: int| start <= k < lo ==> is_space(s@[k]),
        decreases hi - lo,
    {
        lo = lo + 1;
    }
    let ghost lo1 = lo as int;
    proof {
        lemma_trim_start_spaces(seg, lo1 - start);
        assert(seg.subrange(lo1 - start, seg.len() as int) =~= s@.subrange(lo1, end as int));
    }
    while hi > lo && is_space_c(s.get_char(hi - 1))
        invariant
            start <= lo <= hi <= end,
            end <= s@.len(),
            lo == lo1,
            forall|k: int| hi <= k < end ==> is_space(s@[k]),
        decreases hi,
    {
        hi = hi - 1;
    }
    let ghost hi1 = hi as int;
    proof {
        lemma_trim_end_spaces(s@.subrange(lo1, end as int), hi1 - lo1);
        assert(s@.subrange(lo1, end as int).subrange(0, hi1 - lo1) =~= s@.subrange(lo1, hi1));
    }
    while lo < hi && s.get_char(lo) == '"'
        invariant
            lo1 <= lo <= hi,
            hi == hi1 <= end <= s@.len(),
            forall|k: int| lo1 <= k < lo ==> s@[k] == '"',
        decreases hi - lo,
    {
        lo = lo + 1;
    }
    let ghost lo2 = lo as int;
    proof {
        lemma_trim_start_quotes(s@.subrange(lo1, hi1), lo2 - lo1);
        assert(s@.subrange(lo1, hi1).subrange(lo2 - lo1, hi1 - lo1) =~= s@.subrange(lo2, hi1));
    }
    while hi > lo && s.get_char(hi - 1) == '"'
        invariant
            lo2 <= lo <= hi <= hi1,
            lo == lo2,
            hi1 <= end <= s@.len(),
            forall|k: int| hi <= k < hi1 ==> s@[k] == '"',
        decreases hi,
    {
        hi = hi - 1;
    }
    let ghost hi2 = hi as int;
    proof {
        lemma_trim_end_quotes(s@.subrange(lo2, hi1), hi2 - lo2);
        assert(s@.subrange(lo2, hi1).subrange(0, hi2 - lo2) =~= s@.subrange(lo2, hi2));
        assert(clean_token(seg) == s@.subrange(lo2, hi2));
        assert(seq![seg].drop_first() =~= Seq::<Seq<char>>::empty());
        assert(kept_tokens(Seq::<Seq<char>>::empty()) =~= Seq::<Seq<char>>::empty());
        assert(kept_tokens(seq![seg].drop_first()) =~= Seq::<Seq<char>>::empty());
    }
    if lo < hi {
        let piece = s.substring_char(lo, hi);
        out.push(piece.to_owned());
        proof {
            assert(clean_token(seg).len() > 0);
            assert(kept_tokens(seq![seg]) =~= seq![clean_token(seg)]);
            assert(out.deep_view() =~= pre + kept_tokens(seq![seg]));
        }
    } else {
        proof {
            assert(clean_token(seg).len() == 0);
            assert(kept_tokens(seq![seg]) =~= Seq::<Seq<char>>::empty());
            assert(out.deep_view() =~= pre + kept_tokens(seq![seg]));
        }
    }
}

/// Concatenating segment lists concatenates their kept tokens.
proof fn lemma_kept_tokens_add(a: Seq<Seq<char>>, b: Seq<Seq<char>>)
    ensures
        kept_tokens(a + b) == kept_tokens(a) + kept_tokens(b),
    decreases a.len(),
{
    if a.len() == 0 {
        assert(a + b =~= b);
        assert(kept_tokens(a) + kept_tokens(b) =~= kept_tokens(b));
    } else {
        lemma_kept_tokens_add(a.drop_first(), b);
        assert((a + b).drop_first() =~= a.drop_first() + b);
        assert((a + b)[0] == a[0]);
        let t = clean_token(a[0]);
        if t.len() > 0 {
            assert(seq![t] + (kept_tokens(a.drop_first()) + kept_tokens(b)) =~= (seq![t]
                + kept_tokens(a.drop_first())) + kept_tokens(b));
        }
    }
}

/// Split a comma-separated string into its cleaned, non-empty entries.
fn split_csv(s: &str) -> (r: Vec<String>)
    ensures
        r.deep_view() == csv_tokens(s@),
{
    let n = s.unicode_len();
    let mut out: Vec<String> = Vec::new();
    let mut start: usize = 0;
    let mut i: usize = 0;
    while i < n
        invariant
            start <= i <= n,
            n == s@.len(),
            csv_tokens(s@) == out.deep_view() + kept_tokens(
                csv_segments(s@, start as int, i as int),
            ),
        decreases n - i,
    {
        let c = s.get_char(i);
        if c == ',' {
            let ghost pre = out.deep_view();
            proof {
                assert(csv_segments(s@, start as int, i as int) =~= seq![
                    s@.subrange(start as int, i as int),
                ] + csv_segments(s@, i as int + 1, i as int + 1));
                lemma_kept_tokens_add(
                    seq![s@.subrange(start as int, i as int)],
                    csv_segments(s@, i as int + 1, i as int + 1),
                );
            }
            push_clean(s, start, i, &mut out);
            proof {
                assert(out.deep_view() + kept_tokens(
                    csv_segments(s@, i as int + 1, i as int + 1),
                ) =~= pre + kept_tokens(csv_segments(s@, start as int, i as int)));
            }
            start = i + 1;
        }
        i = i + 1;
    }
    let ghost pre = out.deep_view();
    proof {
        assert(csv_segments(s@, start as int, n as int) =~= seq![
            s@.subrange(start as int, n as int),
        ]);
    }
    push_clean(s, start, n, &mut out);
    proof {
        assert(out.deep_view() =~= pre + kept_tokens(csv_segments(s@, start as int, n as int)));
    }
    out
}

} // verus!
