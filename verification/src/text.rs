//! Character-level helpers: whitespace trimming, decimal and hexadecimal
//! rendering, and the few std string operations the library needs.

use vstd::prelude::*;

verus! {

/// `str::chars` collected: the characters of `s` in order.
#[verifier::external_body]
pub(crate) fn chars_of(s: &str) -> (r: Vec<char>)
    ensures
        r@ == s@,
{
    s.chars().collect()
}

/// Collecting characters into a `String`: the string of exactly those characters.
#[verifier::external_body]
pub(crate) fn string_from_chars(v: &Vec<char>) -> (r: String)
    ensures
        r@ == v@,
{
    v.iter().collect()
}

/// What `str::to_uppercase` returns for a string with these characters.
pub uninterp spec fn str_to_uppercase(s: Seq<char>) -> Seq<char>;

/// The ASCII uppercase of one character (other characters unchanged).
pub open spec fn ascii_upper_char(c: char) -> char {
    if 'a' <= c && c <= 'z' {
        ((c as u32) - 32) as char
    } else {
        c
    }
}

/// The ASCII lowercase of one character (other characters unchanged).
pub open spec fn ascii_lower_char(c: char) -> char {
    if 'A' <= c && c <= 'Z' {
        ((c as u32) + 32) as char
    } else {
        c
    }
}

/// Whether every character is ASCII.
pub open spec fn all_ascii(s: Seq<char>) -> bool {
    forall|i: int| 0 <= i < s.len() ==> (#[trigger] s[i] as u32) < 128
}

/// `str::to_uppercase`: Unicode uppercasing. Only this is stated of it: the
/// result is a function of the characters, and on an all-ASCII string it maps
/// `a`..`z` to `A`..`Z` and keeps every other character. What it does to
/// other characters (which may change the length) is left unstated.
#[verifier::external_body]
pub(crate) fn to_uppercase(s: &str) -> (r: String)
    ensures
        r@ == str_to_uppercase(s@),
        all_ascii(s@) ==> r@ == s@.map_values(|c: char| ascii_upper_char(c)),
{
    s.to_uppercase()
}

/// Unicode `White_Space`, the set that `char::is_whitespace` tests.
pub open spec fn is_white(c: char) -> bool {
    let u = c as u32;
    (0x09 <= u && u <= 0x0D) || u == 0x20 || u == 0x85 || u == 0xA0 || u == 0x1680 || (0x2000 <= u
        && u <= 0x200A) || u == 0x2028 || u == 0x2029 || u == 0x202F || u == 0x205F || u == 0x3000
}

/// Tests Unicode whitespace.
pub fn is_whitespace(c: char) -> (r: bool)
    ensures
        r == is_white(c),
{
    let u = c as u32;
    (0x09 <= u && u <= 0x0D) || u == 0x20 || u == 0x85 || u == 0xA0 || u == 0x1680 || (0x2000 <= u
        && u <= 0x200A) || u == 0x2028 || u == 0x2029 || u == 0x202F || u == 0x205F || u == 0x3000
}

/// Number of leading whitespace characters of `s`.
pub open spec fn lead_ws(s: Seq<char>) -> int
    decreases s.len(),
{
    if s.len() > 0 && is_white(s[0]) {
        1 + lead_ws(s.drop_first())
    } else {
        0
    }
}

/// Number of trailing whitespace characters of `s`.
pub open spec fn trail_ws(s: Seq<char>) -> int
    decreases s.len(),
{
    if s.len() > 0 && is_white(s.last()) {
        1 + trail_ws(s.drop_last())
    } else {
        0
    }
}

/// `s` without leading and trailing whitespace (what `str::trim` gives).
pub open spec fn trimmed(s: Seq<char>) -> Seq<char> {
    let a = lead_ws(s);
    let t = s.subrange(a, s.len() as int);
    t.subrange(0, t.len() - trail_ws(t))
}

proof fn lemma_lead_ws_bound(s: Seq<char>)
    ensures
        0 <= lead_ws(s) <= s.len(),
    decreases s.len(),
{
    if s.len() > 0 && is_white(s[0]) {
        lemma_lead_ws_bound(s.drop_first());
    }
}

proof fn lemma_trail_ws_bound(s: Seq<char>)
    ensures
        0 <= trail_ws(s) <= s.len(),
    decreases s.len(),
{
    if s.len() > 0 && is_white(s.last()) {
        lemma_trail_ws_bound(s.drop_last());
    }
}

/// `lead_ws` of a suffix starting at `i`, when everything before `i` is white.
proof fn lemma_lead_ws_step(s: Seq<char>, i: int)
    requires
        0 <= i < s.len(),
        is_white(s[i]),
    ensures
        lead_ws(s.subrange(i, s.len() as int)) == 1 + lead_ws(s.subrange(i + 1, s.len() as int)),
{
    assert(s.subrange(i, s.len() as int).drop_first() =~= s.subrange(i + 1, s.len() as int));
}

proof fn lemma_trail_ws_step(s: Seq<char>, j: int)
    requires
        0 < j <= s.len(),
        is_white(s[j - 1]),
    ensures
        trail_ws(s.subrange(0, j)) == 1 + trail_ws(s.subrange(0, j - 1)),
{
    assert(s.subrange(0, j).drop_last() =~= s.subrange(0, j - 1));
}

/// Whether every character of `s` is whitespace.
pub open spec fn all_white(s: Seq<char>) -> bool {
    forall|i: int| 0 <= i < s.len() ==> is_white(#[trigger] s[i])
}

proof fn lemma_lead_ws_prefix(p: Seq<char>, s: Seq<char>)
    requires
        all_white(p),
    ensures
        lead_ws(p + s) == p.len() + lead_ws(s),
    decreases p.len(),
{
    if p.len() == 0 {
        assert(p + s =~= s);
    } else {
        assert((p + s)[0] == p[0]);
        assert((p + s).drop_first() =~= p.drop_first() + s);
        lemma_lead_ws_prefix(p.drop_first(), s);
    }
}

proof fn lemma_trail_ws_suffix(s: Seq<char>, q: Seq<char>)
    requires
        all_white(q),
    ensures
        trail_ws(s + q) == q.len() + trail_ws(s),
    decreases q.len(),
{
    if q.len() == 0 {
        assert(s + q =~= s);
    } else {
        assert((s + q).last() == q.last());
        assert((s + q).drop_last() =~= s + q.drop_last());
        lemma_trail_ws_suffix(s, q.drop_last());
    }
}

/// Trimming `p + c + q`, where `p` and `q` are whitespace and `c` neither
/// starts nor ends with whitespace, gives `c`.
pub proof fn lemma_trimmed_padded(p: Seq<char>, c: Seq<char>, q: Seq<char>)
    requires
        all_white(p),
        all_white(q),
        c.len() > 0,
        !is_white(c[0]),
        !is_white(c.last()),
    ensures
        trimmed(p + c + q) == c,
{
    let x = p + c + q;
    assert(x =~= p + (c + q));
    lemma_lead_ws_prefix(p, c + q);
    assert((c + q)[0] == c[0]);
    assert(lead_ws(c + q) == 0);
    let t = x.subrange(p.len() as int, x.len() as int);
    assert(t =~= c + q);
    lemma_trail_ws_suffix(c, q);
    assert(trail_ws(c) == 0);
    assert(t.subrange(0, t.len() - trail_ws(t)) =~= c);
}

/// Removes leading and trailing whitespace.
pub fn trim_chars(s: &Vec<char>) -> (r: Vec<char>)
    ensures
        r@ == trimmed(s@),
{
    let n = s.len();
    let mut i: usize = 0;
    assert(s@.subrange(0, n as int) =~= s@);
    while i < n && is_whitespace(s[i])
        invariant
            i <= n == s@.len(),
            lead_ws(s@) == i + lead_ws(s@.subrange(i as int, n as int)),
        decreases n - i,
    {
        proof {
            lemma_lead_ws_step(s@, i as int);
        }
        i = i + 1;
    }
    proof {
        assert(s@.subrange(0, n as int) =~= s@);
        if i < n {
            assert(lead_ws(s@.subrange(i as int, n as int)) == 0);
        } else {
            assert(s@.subrange(i as int, n as int).len() == 0);
        }
    }
    let ghost t = s@.subrange(i as int, n as int);
    let mut j: usize = n;
    assert(t.subrange(0, (n - i) as int) =~= t);
    while j > i && is_whitespace(s[j - 1])
        invariant
            i <= j <= n == s@.len(),
            t == s@.subrange(i as int, n as int),
            trail_ws(t) == (n - j) + trail_ws(t.subrange(0, j - i)),
        decreases j,
    {
        proof {
            assert(t[j - i - 1] == s@[j - 1]);
            lemma_trail_ws_step(t, (j - i) as int);
        }
        j = j - 1;
    }
    proof {
        assert(t.subrange(0, (n - i) as int) =~= t);
        if j > i {
            assert(t.subrange(0, j - i).last() == s@[j - 1]);
            assert(trail_ws(t.subrange(0, j - i)) == 0);
        }
    }
    let mut r: Vec<char> = Vec::new();
    let mut k: usize = i;
    while k < j
        invariant
            i <= k <= j <= n == s@.len(),
            r@ == s@.subrange(i as int, k as int),
        decreases j - k,
    {
        r.push(s[k]);
        k = k + 1;
        assert(r@ =~= s@.subrange(i as int, k as int));
    }
    assert(trimmed(s@) =~= s@.subrange(i as int, j as int));
    r
}

/// The character of a decimal digit.
pub open spec fn digit_char(d: int) -> char {
    if d == 0 { '0' } else if d == 1 { '1' } else if d == 2 { '2' } else if d == 3 { '3' }
    else if d == 4 { '4' } else if d == 5 { '5' } else if d == 6 { '6' } else if d == 7 { '7' }
    else if d == 8 { '8' } else { '9' }
}

/// Decimal rendering of `v` without leading zeros (`"0"` for zero).
pub open spec fn dec(v: nat) -> Seq<char>
    decreases v,
{
    if v < 10 {
        seq![digit_char(v as int)]
    } else {
        dec(v / 10).push(digit_char((v % 10) as int))
    }
}

/// The character of a decimal digit.
pub fn digit_to_char(d: u8) -> (r: char)
    requires
        d < 10,
    ensures
        r == digit_char(d as int),
{
    match d {
        0 => '0',
        1 => '1',
        2 => '2',
        3 => '3',
        4 => '4',
        5 => '5',
        6 => '6',
        7 => '7',
        8 => '8',
        _ => '9',
    }
}

/// Appends the decimal rendering of `v` to `out`.
pub fn push_decimal(out: &mut Vec<char>, v: u64)
    ensures
        final(out)@ == old(out)@ + dec(v as nat),
    decreases v,
{
    if v < 10 {
        out.push(digit_to_char(v as u8));
        assert(dec(v as nat) =~= seq![digit_char(v as int)]);
    } else {
        push_decimal(out, v / 10);
        out.push(digit_to_char((v % 10) as u8));
        assert(dec(v as nat) =~= dec((v / 10) as nat).push(digit_char((v % 10) as int)));
    }
}

/// The lowercase hexadecimal character of a nibble.
pub open spec fn hex_char(d: int) -> char {
    if d < 10 { digit_char(d) } else if d == 10 { 'a' } else if d == 11 { 'b' }
    else if d == 12 { 'c' } else if d == 13 { 'd' } else if d == 14 { 'e' } else { 'f' }
}

/// Two lowercase hexadecimal characters of each byte, in order.
pub open spec fn hex_of(b: Seq<u8>) -> Seq<char>
    decreases b.len(),
{
    if b.len() == 0 {
        Seq::empty()
    } else {
        hex_of(b.drop_last()) + seq![hex_char((b.last() / 16) as int), hex_char((b.last() % 16) as int)]
    }
}

/// The lowercase hexadecimal character of a nibble.
pub fn nibble_to_char(d: u8) -> (r: char)
    requires
        d < 16,
    ensures
        r == hex_char(d as int),
{
    if d < 10 {
        digit_to_char(d)
    } else {
        match d {
            10 => 'a',
            11 => 'b',
            12 => 'c',
            13 => 'd',
            14 => 'e',
            _ => 'f',
        }
    }
}

/// Lowercase hexadecimal rendering of `bytes`, two characters per byte.
pub fn hex_string(bytes: &[u8]) -> (r: String)
    ensures
        r@ == hex_of(bytes@),
{
    let mut out: Vec<char> = Vec::new();
    let mut i: usize = 0;
    while i < bytes.len()
        invariant
            i <= bytes@.len(),
            out@ == hex_of(bytes@.subrange(0, i as int)),
        decreases bytes@.len() - i,
    {
        let b = bytes[i];
        out.push(nibble_to_char(b / 16));
        out.push(nibble_to_char(b % 16));
        i = i + 1;
        proof {
            let p = bytes@.subrange(0, i as int);
            assert(p.drop_last() =~= bytes@.subrange(0, i - 1));
            assert(out@ =~= hex_of(p));
        }
    }
    assert(bytes@.subrange(0, bytes@.len() as int) =~= bytes@);
    string_from_chars(&out)
}

/// Appends the characters of `s` to `out`.
pub fn push_chars(out: &mut Vec<char>, s: &Vec<char>)
    ensures
        final(out)@ == old(out)@ + s@,
{
    let mut i: usize = 0;
    while i < s.len()
        invariant
            i <= s@.len(),
            out@ == old(out)@ + s@.subrange(0, i as int),
        decreases s@.len() - i,
    {
        out.push(s[i]);
        i = i + 1;
        assert(out@ =~= old(out)@ + s@.subrange(0, i as int));
    }
    assert(s@.subrange(0, s@.len() as int) =~= s@);
}

} // verus!
