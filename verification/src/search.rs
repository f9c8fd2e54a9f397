//! The search box of the record list: trimming, `#usn` jumps, `r/…/` patterns and
//! case-insensitive substring search.
use vstd::prelude::*;

use crate::text::{
    contains_chars, contains_seq, dec, digit_char, lower, lower_chars, push_char, signed_dec,
    to_lower_char,
};
use crate::ui::filter_sidebar::{reason_allowed, FilterState};
use crate::reporting::selected_records;
use crate::usn_record::UsnRecord;

verus! {

/// The Unicode `White_Space` characters, which `str::trim` removes.
pub open spec fn is_white_space(c: char) -> bool {
    let u = c as u32;
    ||| 0x09 <= u <= 0x0d
    ||| u == 0x20
    ||| u == 0x85
    ||| u == 0xa0
    ||| u == 0x1680
    ||| 0x2000 <= u <= 0x200a
    ||| u == 0x2028
    ||| u == 0x2029
    ||| u == 0x202f
    ||| u == 0x205f
    ||| u == 0x3000
}

/// Whether `c` is a Unicode white-space character.
pub fn is_white_space_char(c: char) -> (b: bool)
    ensures
        b == is_white_space(c),
{
    let u = c as u32;
    (0x09 <= u && u <= 0x0d) || u == 0x20 || u == 0x85 || u == 0xa0 || u == 0x1680 || (0x2000
        <= u && u <= 0x200a) || u == 0x2028 || u == 0x2029 || u == 0x202f || u == 0x205f || u
        == 0x3000
}

/// Index of the first character at or after `i` that is not white space (or the length).
pub open spec fn first_kept(s: Seq<char>, i: int) -> int
    decreases s.len() - i,
{
    if i < 0 || i >= s.len() || !is_white_space(s[i]) {
        i
    } else {
        first_kept(s, i + 1)
    }
}

/// End of `s[lo..j]` once trailing white space is dropped.
pub open spec fn kept_end(s: Seq<char>, lo: int, j: int) -> int
    decreases j - lo,
{
    if j <= lo || j > s.len() || !is_white_space(s[j - 1]) {
        j
    } else {
        kept_end(s, lo, j - 1)
    }
}

/// `s` without leading and trailing white space.
pub open spec fn trimmed(s: Seq<char>) -> Seq<char> {
    let a = first_kept(s, 0);
    s.subrange(a, kept_end(s, a, s.len() as int))
}

proof fn lemma_first_kept_bounds(s: Seq<char>, i: int)
    requires
        0 <= i <= s.len(),
    ensures
        i <= first_kept(s, i) <= s.len(),
    decreases s.len() - i,
{
    if i < s.len() && is_white_space(s[i]) {
        lemma_first_kept_bounds(s, i + 1);
    }
}

proof fn lemma_kept_end_bounds(s: Seq<char>, lo: int, j: int)
    requires
        0 <= lo <= j <= s.len(),
    ensures
        lo <= kept_end(s, lo, j) <= j,
    decreases j - lo,
{
    if j > lo && is_white_space(s[j - 1]) {
        lemma_kept_end_bounds(s, lo, j - 1);
    }
}

/// The characters of `s[lo..hi]` as a new vector.
pub fn copy_range(s: &[char], lo: usize, hi: usize) -> (r: Vec<char>)
    requires
        lo <= hi <= s@.len(),
    ensures
        r@ == s@.subrange(lo as int, hi as int),
{
    let mut r: Vec<char> = Vec::new();
    let mut i: usize = lo;
    while i < hi
        invariant
            lo <= i <= hi <= s@.len(),
            r@ == s@.subrange(lo as int, i as int),
        decreases hi - i,
    {
        r.push(s[i]);
        i = i + 1;
        assert(r@ =~= s@.subrange(lo as int, i as int));
    }
    r
}

/// `s` without leading and trailing white space (`str::trim`).
pub fn trim_chars(s: &[char]) -> (r: Vec<char>)
    ensures
        r@ == trimmed(s@),
{
    let mut a: usize = 0;
    while a < s.len() && is_white_space_char(s[a])
        invariant
            a <= s@.len(),
            first_kept(s@, 0) == first_kept(s@, a as int),
        decreases s@.len() - a,
    {
        a = a + 1;
    }
    assert(first_kept(s@, a as int) == a);
    let mut b: usize = s.len();
    while b > a && is_white_space_char(s[b - 1])
        invariant
            a <= b <= s@.len(),
            first_kept(s@, 0) == a,
            kept_end(s@, a as int, s@.len() as int) == kept_end(s@, a as int, b as int),
        decreases b,
    {
        b = b - 1;
    }
    assert(kept_end(s@, a as int, b as int) == b);
    copy_range(s, a, b)
}

/// An ASCII decimal digit.
pub open spec fn is_digit(c: char) -> bool {
    '0' <= c && c <= '9'
}

/// Every character of `d` is an ASCII decimal digit.
pub open spec fn all_digits(d: Seq<char>) -> bool {
    forall|k: int| 0 <= k < d.len() ==> #[trigger] is_digit(d[k])
}

/// The number written by the decimal digits `d`.
pub open spec fn digits_value(d: Seq<char>) -> nat
    decreases d.len(),
{
    if d.len() == 0 {
        0
    } else {
        digits_value(d.drop_last()) * 10 + ((d.last() as u32) - 48) as nat
    }
}

/// What `str::parse::<i64>` gives: an optional `+` or `-`, then one or more ASCII
/// digits, whose value fits in an `i64`; anything else is an error (`None`).
pub open spec fn parse_i64(s: Seq<char>) -> Option<int> {
    let signed = s.len() > 0 && (s[0] == '+' || s[0] == '-');
    let digits = if signed {
        s.drop_first()
    } else {
        s
    };
    let v = if s.len() > 0 && s[0] == '-' {
        -(digits_value(digits) as int)
    } else {
        digits_value(digits) as int
    };
    if digits.len() == 0 || !all_digits(digits) || v < i64::MIN || v > i64::MAX {
        None
    } else {
        Some(v)
    }
}

proof fn lemma_digits_value_prefix(d: Seq<char>, k: int)
    requires
        0 <= k <= d.len(),
    ensures
        digits_value(d.take(k)) <= digits_value(d),
    decreases d.len(),
{
    if k < d.len() {
        lemma_digits_value_prefix(d.drop_last(), k);
        assert(d.drop_last().take(k) =~= d.take(k));
    } else {
        assert(d.take(k) =~= d);
    }
}

/// `str::parse::<i64>` on a character sequence.
pub fn parse_i64_chars(s: &[char]) -> (r: Option<i64>)
    ensures
        r matches Some(v) ==> parse_i64(s@) == Some(v as int),
        r is None ==> parse_i64(s@) is None,
{
    if s.len() == 0 {
        return None;
    }
    let start: usize = if s[0] == '+' || s[0] == '-' {
        1
    } else {
        0
    };
    if start >= s.len() {
        return None;
    }
    let ghost digits = s@.subrange(start as int, s@.len() as int);
    assert(digits == if start == 1 { s@.drop_first() } else { s@ });
    let mut acc: u64 = 0;
    let mut i: usize = start;
    while i < s.len()
        invariant
            start <= i <= s@.len(),
            s@.len() > 0,
            start == (if s@[0] == '+' || s@[0] == '-' { 1int } else { 0int }),
            digits == (if start == 1 { s@.drop_first() } else { s@ }),
            digits == s@.subrange(start as int, s@.len() as int),
            acc as nat == digits_value(digits.take(i - start)),
            acc <= 0x8000_0000_0000_0000u64,
            all_digits(digits.take(i - start)),
        decreases s@.len() - i,
    {
        let c = s[i];
        if !('0' <= c && c <= '9') {
            assert(!is_digit(digits[i - start]));
            return None;
        }
        let d: u64 = ((c as u32) - 48) as u64;
        let next: u128 = (acc as u128) * 10 + (d as u128);
        assert(digits.take(i - start + 1).drop_last() =~= digits.take(i - start));
        assert(digits.take(i - start + 1).last() == c);
        if next > 0x8000_0000_0000_0000u128 {
            proof {
                lemma_digits_value_prefix(digits, i - start + 1);
            }
            return None;
        }
        acc = next as u64;
        i = i + 1;
        assert forall|k: int| 0 <= k < digits.take(i - start).len() implies #[trigger] is_digit(
            digits.take(i - start)[k],
        ) by {
            if k < i - 1 - start {
                assert(digits.take(i - start)[k] == digits.take(i - 1 - start)[k]);
            }
        }
    }
    assert(digits.take(i - start) =~= digits);
    if s[0] == '-' {
        if acc == 0x8000_0000_0000_0000u64 {
            Some(i64::MIN)
        } else {
            Some(-(acc as i64))
        }
    } else {
        if acc > 0x7fff_ffff_ffff_ffffu64 {
            None
        } else {
            Some(acc as i64)
        }
    }
}

/// A compiled regular expression (`regex::Regex`); Verus sees nothing inside it.
#[verifier::external_type_specification]
#[verifier::external_body]
pub struct ExRegex(regex::Regex);

/// Whether `regex::Regex::new` accepts `pattern` (a valid pattern within the default
/// size limit).
pub uninterp spec fn regex_compiles(pattern: Seq<char>) -> bool;

/// Whether the regular expression compiled from `pattern` matches somewhere in
/// `haystack` (`regex::Regex::is_match`).
pub uninterp spec fn regex_matches(pattern: Seq<char>, haystack: Seq<char>) -> bool;

/// A search pattern together with the regular expression compiled from it. The
/// fields are private: [`SearchRegex::compile`] is the only way to make one, so the
/// expression is always the one compiled from the pattern.
pub struct SearchRegex {
    pattern: String,
    re: regex::Regex,
}

impl SearchRegex {
    /// The pattern the expression was compiled from.
    pub closed spec fn pattern_view(&self) -> Seq<char> {
        self.pattern@
    }

    /// Compiles `pattern` with `regex::Regex::new`. The contract claims that the
    /// result is present exactly when the pattern compiles, which is a function of
    /// the pattern alone, and that it remembers the pattern.
    #[verifier::external_body]
    pub(crate) fn compile(pattern: &str) -> (r: Option<SearchRegex>)
        ensures
            r is Some <==> regex_compiles(pattern@),
            r matches Some(sr) ==> sr.pattern_view() == pattern@,
    {
        match regex::Regex::new(pattern) {
            Ok(re) => Some(SearchRegex { pattern: pattern.to_string(), re }),
            Err(_) => None,
        }
    }

    /// Whether the expression matches somewhere in `haystack`
    /// (`regex::Regex::is_match`). The contract claims that the answer is a function
    /// of the pattern and the haystack alone.
    #[verifier::external_body]
    pub(crate) fn is_match(&self, haystack: &str) -> (b: bool)
        ensures
            b == regex_matches(self.pattern_view(), haystack@),
    {
        self.re.is_match(haystack)
    }

    /// The pattern the expression was compiled from.
    pub fn as_str(&self) -> (s: &str)
        ensures
            s@ == self.pattern_view(),
    {
        self.pattern.as_str()
    }
}

/// What a search text asks for.
pub enum QueryMode {
    /// An empty search: every record whose reason passes the filter.
    Everything,
    /// `r/pattern/` or `r/pattern`, with a pattern that compiles.
    Pattern(SearchRegex),
    /// `#number`: the record with that update number; `None` when the number does
    /// not parse, which selects nothing.
    UsnJump(Option<i64>),
    /// Any other text: a case-insensitive substring of the path or the name
    /// (held lower-cased).
    Substring(Vec<char>),
}

/// Mathematical model of a [`QueryMode`].
pub enum QueryView {
    Everything,
    Pattern(Seq<char>),
    UsnJump(Option<int>),
    Substring(Seq<char>),
}

impl View for QueryMode {
    type V = QueryView;

    open spec fn view(&self) -> QueryView {
        match self {
            QueryMode::Everything => QueryView::Everything,
            QueryMode::Pattern(sr) => QueryView::Pattern(sr.pattern_view()),
            QueryMode::UsnJump(t) => QueryView::UsnJump(
                match t {
                    Some(v) => Some(*v as int),
                    None => None,
                },
            ),
            QueryMode::Substring(q) => QueryView::Substring(q@),
        }
    }
}

/// The pattern of a trimmed search text of the form `r/pattern/` or `r/pattern`
/// (the closing slash is dropped when something stands between the slashes).
pub open spec fn regex_pattern(q: Seq<char>) -> Option<Seq<char>> {
    if q.len() > 2 && q[0] == 'r' && q[1] == '/' {
        if q.last() == '/' && q.len() > 3 {
            Some(q.subrange(2, q.len() - 1))
        } else {
            Some(q.subrange(2, q.len() as int))
        }
    } else {
        None
    }
}

/// What the search text `raw` asks for, once trimmed: nothing when empty; a regular
/// expression when it has the `r/` form and compiles; an update number after `#`;
/// else its ASCII lower-casing as a substring.
pub open spec fn search_mode(raw: Seq<char>) -> QueryView {
    let q = trimmed(raw);
    if q.len() == 0 {
        QueryView::Everything
    } else if regex_pattern(q) is Some && regex_compiles(regex_pattern(q)->0) {
        QueryView::Pattern(regex_pattern(q)->0)
    } else if lower(q)[0] == '#' {
        QueryView::UsnJump(parse_i64(lower(q).drop_first()))
    } else {
        QueryView::Substring(lower(q))
    }
}

/// ASCII lower-casing of a character vector.
pub fn lower_vec(s: &[char]) -> (r: Vec<char>)
    ensures
        r@ == lower(s@),
{
    let mut r: Vec<char> = Vec::new();
    let mut i: usize = 0;
    while i < s.len()
        invariant
            i <= s@.len(),
            r@ == lower(s@.take(i as int)),
        decreases s@.len() - i,
    {
        assert(s@.take(i + 1) =~= s@.take(i as int).push(s@[i as int]));
        r.push(to_lower_char(s[i]));
        i = i + 1;
        assert(r@ =~= lower(s@.take(i as int)));
    }
    assert(s@.take(i as int) =~= s@);
    r
}

/// A string holding the characters `s[lo..hi]`.
fn string_of_range(s: &[char], lo: usize, hi: usize) -> (r: String)
    requires
        lo <= hi <= s@.len(),
    ensures
        r@ == s@.subrange(lo as int, hi as int),
{
    let mut r = String::new();
    let mut i: usize = lo;
    while i < hi
        invariant
            lo <= i <= hi <= s@.len(),
            r@ == s@.subrange(lo as int, i as int),
        decreases hi - i,
    {
        push_char(&mut r, s[i]);
        i = i + 1;
        assert(r@ =~= s@.subrange(lo as int, i as int));
    }
    r
}

/// Reads the search text as [`search_mode`] says: trims it, compiles an `r/…/`
/// pattern, parses a `#` update number, or keeps the lower-cased text.
pub fn parse_search_query(query: &str) -> (m: QueryMode)
    ensures
        m@ == search_mode(query@),
{
    let raw = crate::text::str_chars(query);
    let q = trim_chars(raw.as_slice());
    let ghost gq = q@;
    assert(gq == trimmed(query@));
    if q.len() == 0 {
        return QueryMode::Everything;
    }
    let n = q.len();
    if n > 2 && q[0] == 'r' && q[1] == '/' {
        let end: usize = if q[n - 1] == '/' && n > 3 {
            n - 1
        } else {
            n
        };
        let pattern = string_of_range(q.as_slice(), 2, end);
        assert(regex_pattern(gq) == Some(pattern@));
        match SearchRegex::compile(pattern.as_str()) {
            Some(sr) => {
                return QueryMode::Pattern(sr);
            },
            None => {},
        }
    }
    let lq = lower_vec(q.as_slice());
    if lq[0] == '#' {
        let digits = copy_range(lq.as_slice(), 1, lq.len());
        assert(digits@ =~= lower(gq).drop_first());
        return QueryMode::UsnJump(parse_i64_chars(digits.as_slice()));
    }
    QueryMode::Substring(lq)
}

/// Whether record `r` answers the search `m`.
pub open spec fn query_matches(m: QueryView, r: UsnRecord) -> bool {
    match m {
        QueryView::Everything => true,
        QueryView::Pattern(p) => regex_matches(p, r.full_path@) || regex_matches(p, r.file_name@),
        QueryView::UsnJump(t) => t == Some(r.usn as int),
        QueryView::Substring(q) => contains_seq(lower(r.full_path@), q) || contains_seq(
            lower(r.file_name@),
            q,
        ),
    }
}

/// Whether record `r` is listed: its reason passes the flag filter and it answers
/// the search.
pub open spec fn record_passes(m: QueryView, enabled: Set<u32>, r: UsnRecord) -> bool {
    reason_allowed(enabled, r.reason) && query_matches(m, r)
}

/// The positions, in increasing order, of the listed records among the first `n`.
pub open spec fn matching_indices(m: QueryView, enabled: Set<u32>, rs: Seq<UsnRecord>, n: int) -> Seq<
    usize,
>
    decreases n,
{
    if n <= 0 {
        Seq::empty()
    } else {
        let prev = matching_indices(m, enabled, rs, n - 1);
        if record_passes(m, enabled, rs[n - 1]) {
            prev.push((n - 1) as usize)
        } else {
            prev
        }
    }
}

/// Whether `record` is listed under the search `mode` and the reason filter.
pub fn record_passes_filter(record: &UsnRecord, mode: &QueryMode, filter_state: &FilterState) -> (b:
    bool)
    ensures
        b == record_passes(mode@, filter_state.enabled_reasons@, *record),
{
    if !filter_state.is_reason_allowed(record.reason) {
        return false;
    }
    match mode {
        QueryMode::Everything => true,
        QueryMode::Pattern(sr) => sr.is_match(record.full_path.as_str()) || sr.is_match(
            record.file_name.as_str(),
        ),
        QueryMode::UsnJump(t) => match t {
            Some(v) => record.usn == *v,
            None => false,
        },
        QueryMode::Substring(q) => {
            let path = lower_chars(record.full_path.as_str());
            if contains_chars(path.as_slice(), q.as_slice()) {
                true
            } else {
                let name = lower_chars(record.file_name.as_str());
                contains_chars(name.as_slice(), q.as_slice())
            }
        },
    }
}

/// The positions of the records listed under `mode` and the reason filter, in
/// increasing order.
pub fn filter_record_indices(records: &Vec<UsnRecord>, mode: &QueryMode, filter_state: &FilterState) -> (r:
    Vec<usize>)
    ensures
        r@ == matching_indices(mode@, filter_state.enabled_reasons@, records@, records@.len() as int),
{
    let mut r: Vec<usize> = Vec::new();
    let mut i: usize = 0;
    while i < records.len()
        invariant
            i <= records@.len(),
            r@ == matching_indices(mode@, filter_state.enabled_reasons@, records@, i as int),
        decreases records@.len() - i,
    {
        if record_passes_filter(&records[i], mode, filter_state) {
            r.push(i);
        }
        i = i + 1;
    }
    r
}

/// Reads the search text and lists the records that pass it and the reason filter:
/// the search as [`search_mode`] reads it, and the positions of the listed records.
pub fn recompute_filter(records: &Vec<UsnRecord>, search_query: &str, filter_state: &FilterState) -> (r:
    (QueryMode, Vec<usize>))
    ensures
        r.0@ == search_mode(search_query@),
        r.1@ == matching_indices(r.0@, filter_state.enabled_reasons@, records@, records@.len() as int),
{
    let mode = parse_search_query(search_query);
    let indices = filter_record_indices(records, &mode, filter_state);
    (mode, indices)
}

proof fn lemma_dec_digits(n: nat)
    ensures
        dec(n).len() >= 1,
        all_digits(dec(n)),
        digits_value(dec(n)) == n,
    decreases n,
{
    let d = dec(n);
    if n >= 10 {
        lemma_dec_digits(n / 10);
        assert(d == dec(n / 10).push(digit_char(n % 10)));
        assert(d.drop_last() =~= dec(n / 10));
        assert((digit_char(n % 10) as u32) == n % 10 + 48);
        assert(d.last() == digit_char(n % 10));
        assert(digits_value(d) == digits_value(dec(n / 10)) * 10 + n % 10);
        assert(n == (n / 10) * 10 + n % 10);
        assert forall|k: int| 0 <= k < d.len() implies #[trigger] is_digit(d[k]) by {
            if k < d.len() - 1 {
                assert(d[k] == dec(n / 10)[k]);
            }
        }
    } else {
        assert(d == seq![digit_char(n)]);
        assert(d.drop_last() =~= Seq::<char>::empty());
        assert(digits_value(d.drop_last()) == 0);
        assert((digit_char(n) as u32) == n + 48);
        assert(digits_value(d) == n);
    }
}

/// A signed decimal reads back as its number.
proof fn lemma_parse_signed_dec(u: i64)
    ensures
        parse_i64(signed_dec(u as int)) == Some(u as int),
        signed_dec(u as int).len() >= 1,
        is_digit(signed_dec(u as int).last()),
        forall|k: int|
            0 <= k < signed_dec(u as int).len() ==> #[trigger] signed_dec(u as int)[k] == '-'
                || is_digit(signed_dec(u as int)[k]),
{
    let t = signed_dec(u as int);
    if u < 0 {
        let m: nat = (-(u as int)) as nat;
        lemma_dec_digits(m);
        let d = dec(m);
        assert(t == seq!['-'] + d);
        assert(t.drop_first() =~= d);
        assert(t[0] == '-');
        assert(t.last() == d.last());
        assert(is_digit(d[d.len() - 1]));
        assert forall|k: int| 0 <= k < t.len() implies #[trigger] t[k] == '-' || is_digit(t[k]) by {
            if k > 0 {
                assert(t[k] == d[k - 1]);
            }
        }
    } else {
        let m: nat = u as nat;
        lemma_dec_digits(m);
        let d = dec(m);
        assert(t == d);
        assert(is_digit(d[0]));
        assert(is_digit(d[d.len() - 1]));
    }
}

/// The text of an update-number jump, "#" and the number, has no white space, no
/// upper-case letter, and reads back as that number.
proof fn lemma_jump_text(u: i64)
    ensures
        ({
            let s = seq!['#'] + signed_dec(u as int);
            &&& s.len() >= 2
            &&& s[0] == '#'
            &&& is_digit(s.last())
            &&& lower(s) == s
            &&& parse_i64(s.drop_first()) == Some(u as int)
        }),
{
    let t = signed_dec(u as int);
    let s = seq!['#'] + t;
    lemma_parse_signed_dec(u);
    assert(s.drop_first() =~= t);
    assert(s.last() == t.last());
    assert forall|k: int| 0 <= k < s.len() implies #[trigger] lower(s)[k] == s[k] by {
        if k > 0 {
            assert(s[k] == t[k - 1]);
            assert(t[k - 1] == '-' || is_digit(t[k - 1]));
        }
    }
    assert(lower(s) =~= s);
}

/// Law: the text that a jump of the audit window puts in the search box,
/// "#" and an update number, selects exactly the records with that update number
/// whose reason passes the filter.
pub proof fn law_jump_query_selects_usn(u: i64, enabled: Set<u32>, r: UsnRecord)
    ensures
        search_mode(seq!['#'] + signed_dec(u as int)) == QueryView::UsnJump(Some(u as int)),
        record_passes(search_mode(seq!['#'] + signed_dec(u as int)), enabled, r) <==> (
        reason_allowed(enabled, r.reason) && r.usn == u),
{
    let s = seq!['#'] + signed_dec(u as int);
    lemma_jump_text(u);
    assert(!is_white_space(s[0]));
    assert(first_kept(s, 0) == 0);
    assert(!is_white_space(s[s.len() - 1]));
    assert(kept_end(s, 0, s.len() as int) == s.len());
    assert(trimmed(s) =~= s);
    assert(regex_pattern(s) is None);
}

/// Law: a search text made only of white space lists every record whose reason
/// passes the filter.
pub proof fn law_blank_query_lists_allowed(raw: Seq<char>, enabled: Set<u32>, r: UsnRecord)
    requires
        forall|k: int| 0 <= k < raw.len() ==> #[trigger] is_white_space(raw[k]),
    ensures
        search_mode(raw) == QueryView::Everything,
        record_passes(search_mode(raw), enabled, r) <==> reason_allowed(enabled, r.reason),
{
    lemma_all_white_first_kept(raw, 0);
    lemma_kept_end_bounds(raw, raw.len() as int, raw.len() as int);
}

proof fn lemma_all_white_first_kept(s: Seq<char>, i: int)
    requires
        0 <= i <= s.len(),
        forall|k: int| 0 <= k < s.len() ==> #[trigger] is_white_space(s[k]),
    ensures
        first_kept(s, i) == s.len(),
    decreases s.len() - i,
{
    if i < s.len() {
        lemma_all_white_first_kept(s, i + 1);
    }
}

proof fn lemma_matching_indices(m: QueryView, enabled: Set<u32>, rs: Seq<UsnRecord>, n: int)
    requires
        0 <= n <= rs.len(),
        rs.len() <= usize::MAX,
    ensures
        ({
            let idx = matching_indices(m, enabled, rs, n);
            &&& forall|k: int| 0 <= k < idx.len() ==> #[trigger] idx[k] < n
            &&& forall|j: int, k: int| 0 <= j < k < idx.len() ==> idx[j] < idx[k]
            &&& forall|k: int|
                0 <= k < idx.len() ==> record_passes(m, enabled, rs[#[trigger] idx[k] as int])
            &&& forall|i: int|
                0 <= i < n && record_passes(m, enabled, #[trigger] rs[i]) ==> idx.contains(
                    i as usize,
                )
            &&& selected_records(rs, idx) == idx.map_values(|i: usize| rs[i as int])
        }),
    decreases n,
{
    if n > 0 {
        lemma_matching_indices(m, enabled, rs, n - 1);
        let prev = matching_indices(m, enabled, rs, n - 1);
        let idx = matching_indices(m, enabled, rs, n);
        if record_passes(m, enabled, rs[n - 1]) {
            assert(idx == prev.push((n - 1) as usize));
            assert(idx.drop_last() =~= prev);
            assert(idx[idx.len() - 1] == (n - 1) as usize);
            assert forall|i: int|
                0 <= i < n && record_passes(m, enabled, #[trigger] rs[i]) implies idx.contains(
                i as usize,
            ) by {
                if i < n - 1 {
                    let k = choose|k: int| 0 <= k < prev.len() && prev[k] == i as usize;
                    assert(idx[k] == i as usize);
                } else {
                    assert(idx[idx.len() - 1] == i as usize);
                }
            }
            assert(selected_records(rs, idx) =~= idx.map_values(|i: usize| rs[i as int]));
        } else {
            assert forall|i: int|
                0 <= i < n && record_passes(m, enabled, #[trigger] rs[i]) implies idx.contains(
                i as usize,
            ) by {
                if i == n - 1 {
                    assert(false);
                }
            }
        }
    }
}

/// Law: the list shows, in increasing order and once each, exactly the positions of
/// the records that pass the search and the reason filter, and exporting that list
/// exports every one of those records, in that order.
pub proof fn law_filtered_list_exports_exactly(m: QueryView, enabled: Set<u32>, rs: Seq<UsnRecord>)
    requires
        rs.len() <= usize::MAX,
    ensures
        ({
            let idx = matching_indices(m, enabled, rs, rs.len() as int);
            &&& forall|j: int, k: int| 0 <= j < k < idx.len() ==> idx[j] < idx[k]
            &&& forall|i: int|
                0 <= i < rs.len() ==> (idx.contains(i as usize) <==> record_passes(
                    m,
                    enabled,
                    #[trigger] rs[i],
                ))
            &&& selected_records(rs, idx).len() == idx.len()
            &&& forall|k: int|
                0 <= k < idx.len() ==> #[trigger] selected_records(rs, idx)[k] == rs[idx[k] as int]
        }),
{
    lemma_matching_indices(m, enabled, rs, rs.len() as int);
    let idx = matching_indices(m, enabled, rs, rs.len() as int);
    assert forall|i: int| 0 <= i < rs.len() && idx.contains(i as usize) implies record_passes(
        m,
        enabled,
        #[trigger] rs[i],
    ) by {
        let k = choose|k: int| 0 <= k < idx.len() && idx[k] == i as usize;
        assert(rs[idx[k] as int] == rs[i]);
    }
}

} // verus!
