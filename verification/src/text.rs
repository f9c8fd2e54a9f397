//! Character-sequence primitives shared by the parsers and the detectors.
use vstd::prelude::*;

verus! {

broadcast use vstd::string::group_string_axioms;

/// ASCII lower-casing of one character (other characters are kept).
pub open spec fn lower_char(c: char) -> char {
    if 'A' <= c && c <= 'Z' {
        ((c as u32) + 32) as char
    } else {
        c
    }
}

/// ASCII lower-casing of a character sequence.
pub open spec fn lower(s: Seq<char>) -> Seq<char> {
    s.map_values(|c: char| lower_char(c))
}

/// Copies the characters of a string into a vector.
pub fn str_chars(s: &str) -> (v: Vec<char>)
    ensures
        v@ == s@,
{
    let mut v: Vec<char> = Vec::new();
    for c in it: s.chars()
        invariant
            v@ == it.seq().take(it.index() as int),
            it.seq() == s@,
    {
        v.push(c);
    }
    v
}


/// ASCII upper-casing of one character (other characters are kept).
pub open spec fn upper_char(c: char) -> char {
    if 'a' <= c && c <= 'z' {
        ((c as u32) - 32) as char
    } else {
        c
    }
}

/// Executable ASCII upper-casing of one character.
pub fn to_upper_char(c: char) -> (r: char)
    ensures
        r == upper_char(c),
{
    if 'a' <= c && c <= 'z' {
        let b: u8 = c as u8;
        assert(b as u32 == c as u32);
        (b - 32) as char
    } else {
        c
    }
}

/// Executable ASCII lower-casing of one character.
pub fn to_lower_char(c: char) -> (r: char)
    ensures
        r == lower_char(c),
{
    if 'A' <= c && c <= 'Z' {
        let b: u8 = c as u8;
        assert(b as u32 == c as u32);
        (b + 32) as char
    } else {
        c
    }
}

/// The characters of a string, ASCII lower-cased.
pub fn lower_chars(s: &str) -> (v: Vec<char>)
    ensures
        v@ == lower(s@),
{
    let mut v: Vec<char> = Vec::new();
    for c in it: s.chars()
        invariant
            v@ == lower(it.seq().take(it.index() as int)),
            it.seq() == s@,
    {
        proof {
            assert(it.seq().take(it.index() + 1) == it.seq().take(it.index() as int).push(c));
        }
        v.push(to_lower_char(c));
    }
    v
}


/// `n` occurs in `h` starting at position `i`.
pub open spec fn occurs_at(h: Seq<char>, n: Seq<char>, i: int) -> bool {
    0 <= i && i + n.len() <= h.len() && h.subrange(i, i + n.len()) == n
}

/// `n` is a contiguous part of `h`.
pub open spec fn contains_seq(h: Seq<char>, n: Seq<char>) -> bool {
    exists|i: int| #[trigger] occurs_at(h, n, i)
}

/// `h` ends with `n`.
pub open spec fn ends_with_seq(h: Seq<char>, n: Seq<char>) -> bool {
    n.len() <= h.len() && h.subrange(h.len() - n.len(), h.len() as int) == n
}

/// `h` starts with `n`.
pub open spec fn starts_with_seq(h: Seq<char>, n: Seq<char>) -> bool {
    n.len() <= h.len() && h.subrange(0, n.len() as int) == n
}

/// The character sequences held by a list of patterns.
pub open spec fn patterns_view(ps: Seq<Vec<char>>) -> Seq<Seq<char>> {
    ps.map_values(|p: Vec<char>| p@)
}

/// Some pattern of `ps` is a contiguous part of `h`.
pub open spec fn contains_any(h: Seq<char>, ps: Seq<Seq<char>>) -> bool {
    exists|k: int| 0 <= k < ps.len() && #[trigger] contains_seq(h, ps[k])
}

/// `h` ends with some pattern of `ps`.
pub open spec fn ends_with_any(h: Seq<char>, ps: Seq<Seq<char>>) -> bool {
    exists|k: int| 0 <= k < ps.len() && #[trigger] ends_with_seq(h, ps[k])
}

/// `h` starts with some pattern of `ps`.
pub open spec fn starts_with_any(h: Seq<char>, ps: Seq<Seq<char>>) -> bool {
    exists|k: int| 0 <= k < ps.len() && #[trigger] starts_with_seq(h, ps[k])
}

/// Whether `n` occurs in `h` at position `i`.
pub fn matches_at(h: &[char], n: &[char], i: usize) -> (b: bool)
    requires
        i <= h@.len(),
    ensures
        b == occurs_at(h@, n@, i as int),
{
    if n.len() > h.len() - i {
        return false;
    }
    let mut j: usize = 0;
    while j < n.len()
        invariant
            j <= n@.len(),
            i + n@.len() <= h@.len(),
            i + n@.len() <= h.len(),
            forall|k: int| 0 <= k < j ==> h@[i + k] == n@[k],
        decreases n@.len() - j,
    {
        if h[i + j] != n[j] {
            proof {
                assert(h@.subrange(i as int, i + n@.len())[j as int] == h@[i + j]);
            }
            return false;
        }
        j = j + 1;
    }
    proof {
        assert(h@.subrange(i as int, i + n@.len()) =~= n@);
    }
    true
}

/// Whether `n` is a contiguous part of `h`.
pub fn contains_chars(h: &[char], n: &[char]) -> (b: bool)
    ensures
        b == contains_seq(h@, n@),
{
    if n.len() > h.len() {
        assert(forall|i: int| !#[trigger] occurs_at(h@, n@, i));
        return false;
    }
    if n.len() == 0 {
        assert(h@.subrange(0, 0) =~= n@);
        assert(occurs_at(h@, n@, 0));
        return true;
    }
    let last = h.len() - n.len();
    let mut i: usize = 0;
    while i <= last
        invariant
            last == h@.len() - n@.len(),
            last < h.len(),
            i <= last + 1,
            forall|k: int| 0 <= k < i ==> !#[trigger] occurs_at(h@, n@, k),
        decreases last + 1 - i,
    {
        if matches_at(h, n, i) {
            return true;
        }
        i = i + 1;
    }
    assert(forall|k: int| !#[trigger] occurs_at(h@, n@, k));
    false
}

/// Whether `h` ends with `n`.
pub fn ends_with_chars(h: &[char], n: &[char]) -> (b: bool)
    ensures
        b == ends_with_seq(h@, n@),
{
    if n.len() > h.len() {
        return false;
    }
    let r = matches_at(h, n, h.len() - n.len());
    r
}

/// Whether `h` starts with `n`.
pub fn starts_with_chars(h: &[char], n: &[char]) -> (b: bool)
    ensures
        b == starts_with_seq(h@, n@),
{
    if n.len() > h.len() {
        return false;
    }
    matches_at(h, n, 0)
}

/// Whether some pattern of `ps` is a contiguous part of `h`.
pub fn contains_any_of(h: &[char], ps: &Vec<Vec<char>>) -> (b: bool)
    ensures
        b == contains_any(h@, patterns_view(ps@)),
{
    let mut k: usize = 0;
    while k < ps.len()
        invariant
            k <= ps@.len(),
            forall|j: int| 0 <= j < k ==> !#[trigger] contains_seq(h@, patterns_view(ps@)[j]),
        decreases ps@.len() - k,
    {
        if contains_chars(h, ps[k].as_slice()) {
            assert(contains_seq(h@, patterns_view(ps@)[k as int]));
            return true;
        }
        k = k + 1;
    }
    false
}

/// Whether `h` ends with some pattern of `ps`.
pub fn ends_with_any_of(h: &[char], ps: &Vec<Vec<char>>) -> (b: bool)
    ensures
        b == ends_with_any(h@, patterns_view(ps@)),
{
    let mut k: usize = 0;
    while k < ps.len()
        invariant
            k <= ps@.len(),
            forall|j: int| 0 <= j < k ==> !#[trigger] ends_with_seq(h@, patterns_view(ps@)[j]),
        decreases ps@.len() - k,
    {
        if ends_with_chars(h, ps[k].as_slice()) {
            assert(ends_with_seq(h@, patterns_view(ps@)[k as int]));
            return true;
        }
        k = k + 1;
    }
    false
}

/// Whether `h` starts with some pattern of `ps`.
pub fn starts_with_any_of(h: &[char], ps: &Vec<Vec<char>>) -> (b: bool)
    ensures
        b == starts_with_any(h@, patterns_view(ps@)),
{
    let mut k: usize = 0;
    while k < ps.len()
        invariant
            k <= ps@.len(),
            forall|j: int| 0 <= j < k ==> !#[trigger] starts_with_seq(h@, patterns_view(ps@)[j]),
        decreases ps@.len() - k,
    {
        if starts_with_chars(h, ps[k].as_slice()) {
            assert(starts_with_seq(h@, patterns_view(ps@)[k as int]));
            return true;
        }
        k = k + 1;
    }
    false
}

/// The character sequences of a list of string slices.
pub open spec fn strs_view(strs: Seq<&str>) -> Seq<Seq<char>> {
    strs.map_values(|s: &str| s@)
}

/// The characters of each string slice of `strs`.
pub fn pattern_list(strs: &[&str]) -> (r: Vec<Vec<char>>)
    ensures
        patterns_view(r@) == strs_view(strs@),
{
    let mut r: Vec<Vec<char>> = Vec::new();
    let mut i: usize = 0;
    while i < strs.len()
        invariant
            i <= strs@.len(),
            r@.len() == i,
            forall|j: int| 0 <= j < i ==> (#[trigger] r@[j])@ == strs@[j]@,
        decreases strs@.len() - i,
    {
        r.push(str_chars(strs[i]));
        i = i + 1;
    }
    assert(patterns_view(r@) =~= strs_view(strs@));
    r
}

/// Appends one character to a string (`String::push`).
#[verifier::external_body]
pub(crate) fn push_char(s: &mut String, c: char)
    ensures
        final(s)@ == old(s)@.push(c),
{
    s.push(c);
}

/// The decimal digit character of `d`.
pub open spec fn digit_char(d: nat) -> char {
    (d + 48) as char
}

/// Decimal notation of a natural number, without leading zeros.
pub open spec fn dec(n: nat) -> Seq<char>
    decreases n,
{
    if n < 10 {
        seq![digit_char(n)]
    } else {
        dec(n / 10).push(digit_char(n % 10))
    }
}

/// Decimal notation of an integer, with a leading `-` when negative.
pub open spec fn signed_dec(i: int) -> Seq<char> {
    if i < 0 {
        seq!['-'].add(dec((-i) as nat))
    } else {
        dec(i as nat)
    }
}

/// Appends the decimal notation of `n`.
pub fn push_decimal(s: &mut String, n: u64)
    ensures
        final(s)@ == old(s)@ + dec(n as nat),
    decreases n,
{
    if n >= 10 {
        push_decimal(s, n / 10);
    }
    let d: u8 = (n % 10) as u8;
    let c: char = (d + 48) as char;
    push_char(s, c);
    assert(c == digit_char((n % 10) as nat));
}

/// Appends the decimal notation of `i`, with a leading `-` when negative.
pub fn push_signed_decimal(s: &mut String, i: i64)
    ensures
        final(s)@ == old(s)@ + signed_dec(i as int),
{
    if i < 0 {
        push_char(s, '-');
        let m: u64 = ((-(i + 1)) as u64) + 1;
        push_decimal(s, m);
    } else {
        push_decimal(s, i as u64);
    }
}

/// A new string holding the decimal notation of `n`.
pub fn decimal_string(n: u64) -> (r: String)
    ensures
        r@ == dec(n as nat),
{
    let mut s = String::new();
    push_decimal(&mut s, n);
    s
}

/// The upper-case hexadecimal digit character of `d` (below 16).
pub open spec fn hex_char(d: nat) -> char {
    if d < 10 {
        (d + 48) as char
    } else {
        (d + 55) as char
    }
}

/// The last `n` upper-case hexadecimal digits of `x`, zero-padded.
pub open spec fn hex_digits(x: nat, n: nat) -> Seq<char>
    decreases n,
{
    if n == 0 {
        Seq::empty()
    } else {
        hex_digits(x / 16, (n - 1) as nat).push(hex_char(x % 16))
    }
}

/// Appends the last `n` upper-case hexadecimal digits of `x`, zero-padded.
pub fn push_hex(s: &mut String, x: u64, n: usize)
    ensures
        final(s)@ == old(s)@ + hex_digits(x as nat, n as nat),
    decreases n,
{
    if n > 0 {
        push_hex(s, x / 16, n - 1);
        let d: u8 = (x % 16) as u8;
        let c: char = if d < 10 {
            (d + 48) as char
        } else {
            (d + 55) as char
        };
        assert(c == hex_char((x % 16) as nat));
        push_char(s, c);
    } else {
        assert(old(s)@ + hex_digits(x as nat, 0) =~= old(s)@);
    }
}

/// `x` as eight upper-case hexadecimal digits (`{:08X}`).
pub fn hex8_string(x: u32) -> (r: String)
    ensures
        r@ == hex_digits(x as nat, 8),
{
    let mut s = String::new();
    push_hex(&mut s, x as u64, 8);
    s
}

/// Appends a string slice.
pub fn push_str_chars(s: &mut String, t: &str)
    ensures
        final(s)@ == old(s)@ + t@,
{
    let ghost start = s@;
    for c in it: t.chars()
        invariant
            s@ == start + it.seq().take(it.index() as int),
            it.seq() == t@,
    {
        proof {
            assert(it.seq().take(it.index() + 1) =~= it.seq().take(it.index() as int).push(c));
        }
        push_char(s, c);
    }
    assert(t@.take(t@.len() as int) =~= t@);
}

} // verus!
