//! Text helpers: decimal rendering of integers, string building and
//! character-level searching, each stated over `Seq<char>`.

use vstd::prelude::*;
use vstd::std_specs::iter::IteratorSpec;

verus! {

/// The character of a decimal digit `d` (0..=9).
pub open spec fn digit_char(d: nat) -> char {
    if d == 0 { '0' }
    else if d == 1 { '1' }
    else if d == 2 { '2' }
    else if d == 3 { '3' }
    else if d == 4 { '4' }
    else if d == 5 { '5' }
    else if d == 6 { '6' }
    else if d == 7 { '7' }
    else if d == 8 { '8' }
    else { '9' }
}

/// The decimal representation of `n`, without leading zeros.
pub open spec fn dec_digits(n: nat) -> Seq<char>
    decreases n,
{
    if n < 10 {
        seq![digit_char(n)]
    } else {
        dec_digits(n / 10).push(digit_char(n % 10))
    }
}

/// The decimal representation of a signed integer, with a leading `-` when negative.
pub open spec fn int_text(i: int) -> Seq<char> {
    if i < 0 {
        seq!['-'] + dec_digits((-i) as nat)
    } else {
        dec_digits(i as nat)
    }
}

fn digit_to_char(d: u64) -> (c: char)
    requires
        d < 10,
    ensures
        c == digit_char(d as nat),
{
    match d {
        0 => '0',
        1 => '1',
        2 => '2',
        3 => '3',
        4 => '4',
        5 => '5',
        6 => '6',
        7 => '7',
        8 => '8',
        _ => '9',
    }
}

/// Appends one character to a string.
/// Trusted: `String::push`, which std documents as appending the given
/// char to the end of the string.
#[verifier::external_body]
pub(crate) fn push_char(s: &mut String, c: char)
    ensures
        final(s)@ == old(s)@.push(c),
{
    s.push(c);
}

/// An owned copy of a string slice.
pub fn owned(s: &str) -> (r: String)
    ensures
        r@ == s@,
{
    String::from_str(s)
}

/// Appends a string slice to a string.
pub fn push_str(s: &mut String, t: &str)
    ensures
        final(s)@ == old(s)@ + t@,
{
    s.append(t);
}

/// A string made of the given characters.
pub fn string_from_chars(cs: &[char]) -> (r: String)
    ensures
        r@ == cs@,
{
    let mut r = String::new();
    let mut i: usize = 0;
    while i < cs.len()
        invariant
            i <= cs@.len(),
            r@ == cs@.subrange(0, i as int),
        decreases cs@.len() - i,
    {
        push_char(&mut r, cs[i]);
        assert(cs@.subrange(0, i + 1) == cs@.subrange(0, i as int).push(cs@[i as int]));
        i = i + 1;
    }
    assert(cs@.subrange(0, cs@.len() as int) == cs@);
    r
}

/// The characters of a string slice.
pub fn chars_of(s: &str) -> (v: Vec<char>)
    ensures
        v@ == s@,
{
    broadcast use vstd::string::group_string_axioms;
    let mut it = s.chars();
    let mut v: Vec<char> = Vec::new();
    loop
        invariant
            v@ + it.remaining() == s@,
            it.decrease() is Some,
        ensures
            v@ == s@,
        decreases it.decrease()->0,
    {
        let ghost before = it.remaining();
        match it.next() {
            Some(c) => {
                v.push(c);
                assert(v@ + it.remaining() =~= s@);
            },
            None => {
                assert(v@ =~= s@);
                break;
            },
        }
    }
    v
}

/// The decimal representation of an unsigned integer.
pub fn u64_to_text(n: u64) -> (r: String)
    ensures
        r@ == dec_digits(n as nat),
{
    let mut digits: Vec<char> = Vec::new();
    let mut m = n;
    while m >= 10
        invariant
            dec_digits(n as nat) == dec_digits(m as nat) + digits@,
        decreases m,
    {
        let d = digit_to_char(m % 10);
        digits.insert(0, d);
        assert(dec_digits(m as nat) == dec_digits((m / 10) as nat).push(d));
        assert(dec_digits(n as nat) == dec_digits((m / 10) as nat) + digits@);
        m = m / 10;
    }
    let d = digit_to_char(m);
    digits.insert(0, d);
    assert(dec_digits(n as nat) == digits@);
    string_from_chars(digits.as_slice())
}

/// The decimal representation of a signed integer.
pub fn i64_to_text(i: i64) -> (r: String)
    ensures
        r@ == int_text(i as int),
{
    if i < 0 {
        let magnitude: u64 = if i == i64::MIN {
            9223372036854775808u64
        } else {
            (-i) as u64
        };
        let mut r = owned("-");
        let digits = u64_to_text(magnitude);
        push_str(&mut r, digits.as_str());
        proof { reveal_strlit("-"); }
        r
    } else {
        u64_to_text(i as u64)
    }
}

/// Character-sequence equality of two string slices.
pub fn str_eq(a: &str, b: &str) -> (r: bool)
    ensures
        r == (a@ == b@),
{
    let x = owned(a);
    let y = owned(b);
    x == y
}


/// `n` occurs in `h` starting at position `i`.
pub open spec fn occurs_at(h: Seq<char>, n: Seq<char>, i: int) -> bool {
    0 <= i && i + n.len() <= h.len() && h.subrange(i, i + n.len()) == n
}

/// `n` occurs somewhere in `h`.
pub open spec fn spec_contains(h: Seq<char>, n: Seq<char>) -> bool {
    exists|i: int| occurs_at(h, n, i)
}

/// Whether `n` occurs in `h` at position `i`.
pub fn matches_at(h: &[char], n: &[char], i: usize) -> (r: bool)
    ensures
        r == occurs_at(h@, n@, i as int),
{
    if i > h.len() || n.len() > h.len() - i {
        return false;
    }
    let mut k: usize = 0;
    while k < n.len()
        invariant
            i + n@.len() <= h@.len(),
            h@.len() == h.len(),
            k <= n@.len(),
            forall|j: int| 0 <= j < k ==> h@[i + j] == n@[j],
        decreases n@.len() - k,
    {
        if h[i + k] != n[k] {
            assert(h@.subrange(i as int, i + n@.len())[k as int] != n@[k as int]);
            return false;
        }
        k = k + 1;
    }
    assert(h@.subrange(i as int, i + n@.len()) =~= n@);
    true
}

/// The first position at which `n` occurs in `h`.
pub fn find_chars(h: &[char], n: &[char]) -> (r: Option<usize>)
    ensures
        match r {
            Some(i) => occurs_at(h@, n@, i as int)
                && forall|j: int| 0 <= j < i ==> !occurs_at(h@, n@, j),
            None => !spec_contains(h@, n@),
        },
{
    if n.len() > h.len() {
        assert forall|j: int| !occurs_at(h@, n@, j) by {}
        return None;
    }
    let last = h.len() - n.len();
    let mut i: usize = 0;
    loop
        invariant
            last == h@.len() - n@.len(),
            i <= last,
            forall|j: int| 0 <= j < i ==> !occurs_at(h@, n@, j),
        ensures
            i == last,
            forall|j: int| 0 <= j <= last ==> !occurs_at(h@, n@, j),
        decreases last - i,
    {
        if matches_at(h, n, i) {
            return Some(i);
        }
        if i == last {
            break;
        }
        i = i + 1;
    }
    assert forall|j: int| !occurs_at(h@, n@, j) by {
        if 0 <= j && j <= i {
        }
    }
    None
}

/// Whether `n` occurs in `h`.
pub fn contains_text(h: &str, n: &str) -> (r: bool)
    ensures
        r == spec_contains(h@, n@),
{
    let hc = chars_of(h);
    let nc = chars_of(n);
    match find_chars(hc.as_slice(), nc.as_slice()) {
        Some(_) => true,
        None => false,
    }
}


/// Appends copies of `src` to `dst`.
pub fn extend_strings(dst: &mut Vec<String>, src: &Vec<String>)
    ensures
        final(dst).deep_view() == old(dst).deep_view() + src.deep_view(),
{
    let ghost start = dst.deep_view();
    let mut i: usize = 0;
    assert(start + src.deep_view().subrange(0, 0) =~= start);
    while i < src.len()
        invariant
            i <= src@.len(),
            dst.deep_view() == start + src.deep_view().subrange(0, i as int),
        decreases src@.len() - i,
    {
        let ghost before = dst.deep_view();
        dst.push(src[i].clone());
        assert(dst.deep_view() =~= before.push(src.deep_view()[i as int]));
        assert(src.deep_view().subrange(0, i + 1) =~= src.deep_view().subrange(0, i as int).push(src.deep_view()[i as int]));
        assert(dst.deep_view() =~= start + src.deep_view().subrange(0, i + 1));
        i = i + 1;
    }
    assert(src.deep_view().subrange(0, src@.len() as int) =~= src.deep_view());
}

/// Unicode white space, as `char::is_whitespace` knows it.
pub open spec fn is_white_space(c: char) -> bool {
    let u = c as u32;
    (0x09 <= u && u <= 0x0D) || u == 0x20 || u == 0x85 || u == 0xA0 || u == 0x1680
        || (0x2000 <= u && u <= 0x200A) || u == 0x2028 || u == 0x2029 || u == 0x202F
        || u == 0x205F || u == 0x3000
}

/// `s` without leading characters that satisfy `p`.
pub open spec fn trim_start_by(s: Seq<char>, p: spec_fn(char) -> bool) -> Seq<char>
    decreases s.len(),
{
    if s.len() > 0 && p(s[0]) { trim_start_by(s.drop_first(), p) } else { s }
}

/// `s` without trailing characters that satisfy `p`.
pub open spec fn trim_end_by(s: Seq<char>, p: spec_fn(char) -> bool) -> Seq<char>
    decreases s.len(),
{
    if s.len() > 0 && p(s.last()) { trim_end_by(s.drop_last(), p) } else { s }
}

/// `s` without white space at either end (`str::trim`).
pub open spec fn trim_ws(s: Seq<char>) -> Seq<char> {
    trim_end_by(trim_start_by(s, |c: char| is_white_space(c)), |c: char| is_white_space(c))
}

/// `s` without double quotes at either end (`str::trim_matches('"')`).
pub open spec fn trim_quotes(s: Seq<char>) -> Seq<char> {
    trim_end_by(trim_start_by(s, |c: char| c == '"'), |c: char| c == '"')
}

/// Unicode white space (`char::is_whitespace`).
pub fn is_white_space_char(c: char) -> (r: bool)
    ensures
        r == is_white_space(c),
{
    let u = c as u32;
    (0x09 <= u && u <= 0x0D) || u == 0x20 || u == 0x85 || u == 0xA0 || u == 0x1680
        || (0x2000 <= u && u <= 0x200A) || u == 0x2028 || u == 0x2029 || u == 0x202F
        || u == 0x205F || u == 0x3000
}

/// Whether `c` is dropped by the trim that `quotes` selects: double quotes,
/// or else white space.
fn trimmed_char(c: char, quotes: bool) -> (r: bool)
    ensures
        r == (if quotes { c == '"' } else { is_white_space(c) }),
{
    if quotes { c == '"' } else { is_white_space_char(c) }
}

/// `s` trimmed at both ends of double quotes (`quotes`) or of white space.
pub fn trim_chars(s: &[char], quotes: bool) -> (r: Vec<char>)
    ensures
        r@ == (if quotes { trim_quotes(s@) } else { trim_ws(s@) }),
{
    let ghost p = if quotes { |c: char| c == '"' } else { |c: char| is_white_space(c) };
    let mut start: usize = 0;
    assert(s@.skip(0) =~= s@);
    while start < s.len() && trimmed_char(s[start], quotes)
        invariant
            start <= s@.len(),
            trim_start_by(s@, p) == trim_start_by(s@.skip(start as int), p),
            p == (if quotes { |c: char| c == '"' } else { |c: char| is_white_space(c) }),
        decreases s@.len() - start,
    {
        assert(s@.skip(start as int)[0] == s@[start as int]);
        assert(s@.skip(start as int).drop_first() =~= s@.skip(start + 1));
        start = start + 1;
    }
    assert(start < s@.len() ==> s@.skip(start as int)[0] == s@[start as int]);
    let ghost t = s@.skip(start as int);
    assert(trim_start_by(s@, p) == t);
    let mut end: usize = s.len();
    assert(t.subrange(0, t.len() as int) =~= t);
    while end > start && trimmed_char(s[end - 1], quotes)
        invariant
            start <= end <= s@.len(),
            t == s@.skip(start as int),
            trim_end_by(t, p) == trim_end_by(t.subrange(0, end - start), p),
            p == (if quotes { |c: char| c == '"' } else { |c: char| is_white_space(c) }),
        decreases end,
    {
        assert(t.subrange(0, end - start).last() == s@[end - 1]);
        assert(t.subrange(0, end - start).drop_last() =~= t.subrange(0, end - 1 - start));
        end = end - 1;
    }
    assert(end > start ==> t.subrange(0, end - start).last() == s@[end - 1]);
    let mut r: Vec<char> = Vec::new();
    let mut k: usize = start;
    while k < end
        invariant
            start <= k <= end,
            end <= s@.len(),
            r@ == s@.subrange(start as int, k as int),
        decreases end - k,
    {
        r.push(s[k]);
        assert(s@.subrange(start as int, k + 1) =~= s@.subrange(start as int, k as int).push(s@[k as int]));
        k = k + 1;
    }
    assert(r@ =~= t.subrange(0, end - start));
    r
}

/// `prefix`, the timestamp and `suffix`.
pub open spec fn stamped(prefix: Seq<char>, timestamp: int, suffix: Seq<char>) -> Seq<char> {
    prefix + int_text(timestamp) + suffix
}

/// A file name made of `prefix`, the decimal timestamp and `suffix`.
pub fn stamped_name(prefix: &str, timestamp: i64, suffix: &str) -> (r: String)
    ensures
        r@ == stamped(prefix@, timestamp as int, suffix@),
{
    let mut r = owned(prefix);
    push_str(&mut r, i64_to_text(timestamp).as_str());
    push_str(&mut r, suffix);
    r
}

} // verus!
