//! Room codes: a 7-character code that stands for the host's IPv4 address.
//!
//! Encoding: parse the dotted address to a `u32` (big-endian octets), XOR
//! with a first key, shuffle the bytes `[0,1,2,3] -> [2,0,3,1]`, XOR with a
//! second key, and write the result in base 36 over a shuffled alphabet
//! (7 digits). Decoding reverses every step.

use vstd::prelude::*;

use crate::text::{
    chars_of, dec, digit_char, push_decimal, string_from_chars, str_to_uppercase, to_uppercase, trim_chars,
    trimmed, ascii_upper_char, ascii_lower_char, all_ascii, is_white, all_white, lemma_trimmed_padded,
};

verus! {

/// All room codes are exactly 7 characters.
pub const CODE_LEN: usize = 7;

pub const KEY_A: u32 = 0xA3F2_B781;

pub const KEY_B: u32 = 0x4C1A_7F33;

/// Errors of encoding an address or decoding a code.
#[derive(Debug, Clone, Copy, PartialEq, Eq)]
pub enum CodeError {
    /// The text is not a dotted-decimal IPv4 address
    InvalidIp,
    /// The code does not have exactly `CODE_LEN` characters
    InvalidLength { got: usize },
    /// The code holds a character outside the alphabet
    InvalidChar(char),
}

/// The message describing an error.
pub open spec fn code_error_message(e: CodeError) -> Seq<char> {
    match e {
        CodeError::InvalidIp => "Invalid IP address: invalid IPv4 address syntax"@,
        CodeError::InvalidLength { got } => "Code must be exactly 7 characters, got "@ + dec(
            got as nat,
        ),
        CodeError::InvalidChar(c) => "Invalid character in code: '"@ + seq![c, '\''],
    }
}

impl CodeError {
    /// The message describing this error.
    pub fn message(&self) -> (r: String)
        ensures
            r@ == code_error_message(*self),
    {
        match self {
            CodeError::InvalidIp => String::from_str("Invalid IP address: invalid IPv4 address syntax"),
            CodeError::InvalidLength { got } => {
                let mut out = chars_of("Code must be exactly 7 characters, got ");
                push_decimal(&mut out, *got as u64);
                string_from_chars(&out)
            },
            CodeError::InvalidChar(c) => {
                let mut out = chars_of("Invalid character in code: '");
                out.push(*c);
                out.push('\'');
                string_from_chars(&out)
            },
        }
    }
}

// ── The alphabet ─────────────────────────────────────────────

/// The digit characters of the code alphabet, by value.
pub open spec fn alpha(d: int) -> char {
    if d == 0 { '7' } else if d == 1 { 'Z' } else if d == 2 { '3' } else if d == 3 { 'K' }
    else if d == 4 { '9' } else if d == 5 { 'W' } else if d == 6 { 'M' } else if d == 7 { 'R' }
    else if d == 8 { 'B' } else if d == 9 { '4' } else if d == 10 { 'V' } else if d == 11 { 'D' }
    else if d == 12 { 'Y' } else if d == 13 { 'X' } else if d == 14 { '8' } else if d == 15 { 'J' }
    else if d == 16 { 'N' } else if d == 17 { 'T' } else if d == 18 { 'F' } else if d == 19 { 'C' }
    else if d == 20 { '2' } else if d == 21 { 'E' } else if d == 22 { 'P' } else if d == 23 { 'Q' }
    else if d == 24 { 'G' } else if d == 25 { 'A' } else if d == 26 { '1' } else if d == 27 { 'H' }
    else if d == 28 { 'U' } else if d == 29 { 'L' } else if d == 30 { 'S' } else if d == 31 { '6' }
    else if d == 32 { '0' } else if d == 33 { 'O' } else if d == 34 { 'I' } else { '5' }
}

/// The value of an alphabet character; `None` for any other character.
pub open spec fn alpha_pos(c: char) -> Option<u32> {
    if c == '7' { Some(0) } else if c == 'Z' { Some(1) } else if c == '3' { Some(2) }
    else if c == 'K' { Some(3) } else if c == '9' { Some(4) } else if c == 'W' { Some(5) }
    else if c == 'M' { Some(6) } else if c == 'R' { Some(7) } else if c == 'B' { Some(8) }
    else if c == '4' { Some(9) } else if c == 'V' { Some(10) } else if c == 'D' { Some(11) }
    else if c == 'Y' { Some(12) } else if c == 'X' { Some(13) } else if c == '8' { Some(14) }
    else if c == 'J' { Some(15) } else if c == 'N' { Some(16) } else if c == 'T' { Some(17) }
    else if c == 'F' { Some(18) } else if c == 'C' { Some(19) } else if c == '2' { Some(20) }
    else if c == 'E' { Some(21) } else if c == 'P' { Some(22) } else if c == 'Q' { Some(23) }
    else if c == 'G' { Some(24) } else if c == 'A' { Some(25) } else if c == '1' { Some(26) }
    else if c == 'H' { Some(27) } else if c == 'U' { Some(28) } else if c == 'L' { Some(29) }
    else if c == 'S' { Some(30) } else if c == '6' { Some(31) } else if c == '0' { Some(32) }
    else if c == 'O' { Some(33) } else if c == 'I' { Some(34) } else if c == '5' { Some(35) } else { None }
}

fn alpha_exec(d: u32) -> (r: char)
    requires
        d < 36,
    ensures
        r == alpha(d as int),
{
    match d {
        0 => '7', 1 => 'Z', 2 => '3', 3 => 'K', 4 => '9', 5 => 'W', 6 => 'M', 7 => 'R', 8 => 'B',
        9 => '4', 10 => 'V', 11 => 'D', 12 => 'Y', 13 => 'X', 14 => '8', 15 => 'J', 16 => 'N',
        17 => 'T', 18 => 'F', 19 => 'C', 20 => '2', 21 => 'E', 22 => 'P', 23 => 'Q', 24 => 'G',
        25 => 'A', 26 => '1', 27 => 'H', 28 => 'U', 29 => 'L', 30 => 'S', 31 => '6', 32 => '0',
        33 => 'O', 34 => 'I', _ => '5',
    }
}

fn alpha_pos_exec(c: char) -> (r: Option<u32>)
    ensures
        r == alpha_pos(c),
{
    match c {
        '7' => Some(0), 'Z' => Some(1), '3' => Some(2), 'K' => Some(3), '9' => Some(4),
        'W' => Some(5), 'M' => Some(6), 'R' => Some(7), 'B' => Some(8), '4' => Some(9),
        'V' => Some(10), 'D' => Some(11), 'Y' => Some(12), 'X' => Some(13), '8' => Some(14),
        'J' => Some(15), 'N' => Some(16), 'T' => Some(17), 'F' => Some(18), 'C' => Some(19),
        '2' => Some(20), 'E' => Some(21), 'P' => Some(22), 'Q' => Some(23), 'G' => Some(24),
        'A' => Some(25), '1' => Some(26), 'H' => Some(27), 'U' => Some(28), 'L' => Some(29),
        'S' => Some(30), '6' => Some(31), '0' => Some(32), 'O' => Some(33), 'I' => Some(34),
        '5' => Some(35), _ => None,
    }
}

/// Each alphabet character is found back at its own value.
pub proof fn lemma_alpha_pos(d: int)
    requires
        0 <= d < 36,
    ensures
        alpha_pos(alpha(d)) == Some(d as u32),
        is_white(alpha(d)) == false,
        (alpha(d) as u32) < 128,
        ascii_upper_char(alpha(d)) == alpha(d),
{
}

// ── The scrambling layers ────────────────────────────────────

/// Byte shuffle `[0,1,2,3] -> [2,0,3,1]` of the big-endian bytes.
pub open spec fn shuffle(m: u32) -> u32 {
    (((m >> 8) & 0xff) << 24) | (((m >> 24) & 0xff) << 16) | ((m & 0xff) << 8) | ((m >> 16) & 0xff)
}

/// The inverse shuffle `[0,1,2,3] -> [1,3,0,2]`.
pub open spec fn unshuffle(m: u32) -> u32 {
    (((m >> 16) & 0xff) << 24) | ((m & 0xff) << 16) | (((m >> 24) & 0xff) << 8) | ((m >> 8) & 0xff)
}

/// The number a code encodes for address `n`.
pub open spec fn scramble(n: u32) -> u32 {
    shuffle(n ^ KEY_A) ^ KEY_B
}

/// The address a code number stands for.
pub open spec fn unscramble(c: u32) -> u32 {
    unshuffle(c ^ KEY_B) ^ KEY_A
}

fn scramble_exec(n: u32) -> (r: u32)
    ensures
        r == scramble(n),
{
    let m = n ^ KEY_A;
    let s = (((m >> 8) & 0xff) << 24) | (((m >> 24) & 0xff) << 16) | ((m & 0xff) << 8) | ((m
        >> 16) & 0xff);
    s ^ KEY_B
}

fn unscramble_exec(c: u32) -> (r: u32)
    ensures
        r == unscramble(c),
{
    let m = c ^ KEY_B;
    let s = (((m >> 16) & 0xff) << 24) | ((m & 0xff) << 16) | (((m >> 24) & 0xff) << 8) | ((m
        >> 8) & 0xff);
    s ^ KEY_A
}

/// Unscrambling undoes scrambling, and the other way round: the layers are a
/// bijection on 32-bit numbers.
pub proof fn lemma_scramble_bijective(n: u32)
    ensures
        unscramble(scramble(n)) == n,
        scramble(unscramble(n)) == n,
{
    let m = n ^ KEY_A;
    assert(unshuffle(shuffle(m)) == m) by (bit_vector)
        requires
            true,
    ;
    assert((m ^ KEY_A) == n) by (bit_vector)
        requires
            m == n ^ 0xA3F2_B781u32,
    ;
    let k = n ^ KEY_B;
    assert(shuffle(unshuffle(k)) == k) by (bit_vector);
    assert(((unshuffle(k) ^ KEY_A) ^ KEY_A) == unshuffle(k)) by (bit_vector);
    assert(((shuffle(m) ^ KEY_B) ^ KEY_B) == shuffle(m)) by (bit_vector);
    assert((k ^ KEY_B) == n) by (bit_vector)
        requires
            k == n ^ 0x4C1A_7F33u32,
    ;
}

// ── Base 36 ──────────────────────────────────────────────────

/// `n` divided by 36, `k` times.
pub open spec fn q36(n: nat, k: nat) -> nat
    decreases k,
{
    if k == 0 {
        n
    } else {
        q36(n, (k - 1) as nat) / 36
    }
}

/// The 7 characters of `n` in base 36, most significant first.
pub open spec fn code_chars(n: u32) -> Seq<char> {
    Seq::new(7, |i: int| alpha((q36(n as nat, (6 - i) as nat) % 36) as int))
}

/// One Horner step of decoding, with 32-bit wrapping.
pub open spec fn step36(acc: u32, p: u32) -> u32 {
    vstd::wrapping::u32_specs::wrapping_add(vstd::wrapping::u32_specs::wrapping_mul(acc, 36), p)
}

/// Decoding the first `k` characters of `cs`.
pub open spec fn fold36(cs: Seq<char>, k: nat) -> Result<u32, CodeError>
    decreases k,
{
    if k == 0 {
        Ok(0)
    } else {
        match fold36(cs, (k - 1) as nat) {
            Err(e) => Err(e),
            Ok(acc) => match alpha_pos(cs[k - 1]) {
                None => Err(CodeError::InvalidChar(cs[k - 1])),
                Some(p) => Ok(step36(acc, p)),
            },
        }
    }
}

/// What decoding the characters `cs` of a code gives.
pub open spec fn from36(cs: Seq<char>) -> Result<u32, CodeError> {
    if cs.len() != 7 {
        Err(CodeError::InvalidLength { got: cs.len() as usize })
    } else {
        fold36(cs, 7)
    }
}

/// Encode a number as 7 base-36 characters over the code alphabet.
pub fn to_base36(n: u32) -> (r: String)
    ensures
        r@ == code_chars(n),
{
    let d6 = n % 36;
    let n1 = n / 36;
    let d5 = n1 % 36;
    let n2 = n1 / 36;
    let d4 = n2 % 36;
    let n3 = n2 / 36;
    let d3 = n3 % 36;
    let n4 = n3 / 36;
    let d2 = n4 % 36;
    let n5 = n4 / 36;
    let d1 = n5 % 36;
    let n6 = n5 / 36;
    let d0 = n6 % 36;
    let mut v: Vec<char> = Vec::new();
    v.push(alpha_exec(d0));
    v.push(alpha_exec(d1));
    v.push(alpha_exec(d2));
    v.push(alpha_exec(d3));
    v.push(alpha_exec(d4));
    v.push(alpha_exec(d5));
    v.push(alpha_exec(d6));
    proof {
        let m = n as nat;
        assert(q36(m, 0) == n);
        assert(q36(m, 1) == n1);
        assert(q36(m, 2) == n2);
        assert(q36(m, 3) == n3);
        assert(q36(m, 4) == n4);
        assert(q36(m, 5) == n5);
        assert(q36(m, 6) == n6);
        assert(v@ =~= code_chars(n));
    }
    string_from_chars(&v)
}

/// Decode 7 base-36 characters over the code alphabet (with 32-bit wrapping).
pub fn from_base36(s: &str) -> (r: Result<u32, CodeError>)
    ensures
        r == from36(s@),
{
    let cs = chars_of(s);
    let len = cs.len();
    if len != CODE_LEN {
        return Err(CodeError::InvalidLength { got: len });
    }
    let mut n: u32 = 0;
    let mut i: usize = 0;
    while i < len
        invariant
            i <= len == cs@.len() == 7,
            cs@ == s@,
            fold36(cs@, i as nat) == Ok::<u32, CodeError>(n),
        decreases len - i,
    {
        let c = cs[i];
        let pos = match alpha_pos_exec(c) {
            Some(p) => p,
            None => {
                proof {
                    lemma_fold36_err_sticks(cs@, (i + 1) as nat, 7);
                }
                return Err(CodeError::InvalidChar(c));
            },
        };
        n = n.wrapping_mul(36).wrapping_add(pos);
        i = i + 1;
    }
    Ok(n)
}

/// Once decoding fails it stays failed with the same error.
proof fn lemma_fold36_err_sticks(cs: Seq<char>, k: nat, m: nat)
    requires
        k <= m,
        fold36(cs, k) is Err,
    ensures
        fold36(cs, m) == fold36(cs, k),
    decreases m - k,
{
    if k < m {
        lemma_fold36_err_sticks(cs, k, (m - 1) as nat);
    }
}

proof fn lemma_q36_le(m: nat, k: nat)
    ensures
        q36(m, k) <= m,
    decreases k,
{
    if k > 0 {
        lemma_q36_le(m, (k - 1) as nat);
    }
}

proof fn lemma_q36_small(n: u32)
    ensures
        q36(n as nat, 7) == 0,
        forall|k: nat| k <= 7 ==> #[trigger] q36(n as nat, k) <= n,
{
    let m = n as nat;
    assert(q36(m, 0) == m);
    assert(q36(m, 1) == q36(m, 0) / 36);
    assert(q36(m, 2) == q36(m, 1) / 36);
    assert(q36(m, 3) == q36(m, 2) / 36);
    assert(q36(m, 4) == q36(m, 3) / 36);
    assert(q36(m, 5) == q36(m, 4) / 36);
    assert(q36(m, 6) == q36(m, 5) / 36);
    assert(q36(m, 7) == q36(m, 6) / 36);
    assert(q36(m, 1) <= 119304647);
    assert(q36(m, 2) <= 3314017);
    assert(q36(m, 3) <= 92056);
    assert(q36(m, 4) <= 2557);
    assert(q36(m, 5) <= 71);
    assert(q36(m, 6) <= 1);
    assert(q36(m, 7) == 0);
    assert forall|k: nat| k <= 7 implies #[trigger] q36(m, k) <= n by {
        lemma_q36_le(m, k);
    }
}

/// Decoding the code of `n` gives `n` back.
pub proof fn lemma_base36_roundtrip(n: u32)
    ensures
        from36(code_chars(n)) == Ok::<u32, CodeError>(n),
        code_chars(n).len() == CODE_LEN,
{
    let cs = code_chars(n);
    let m = n as nat;
    lemma_q36_small(n);
    assert forall|k: nat| k <= 7 implies #[trigger] fold36(cs, k) == Ok::<u32, CodeError>(
        q36(m, (7 - k) as nat) as u32,
    ) by {
        lemma_fold36_prefix(n, k);
    }
    assert(fold36(cs, 7) == Ok::<u32, CodeError>(q36(m, 0) as u32));
}

proof fn lemma_fold36_prefix(n: u32, k: nat)
    requires
        k <= 7,
    ensures
        fold36(code_chars(n), k) == Ok::<u32, CodeError>(q36(n as nat, (7 - k) as nat) as u32),
    decreases k,
{
    let m = n as nat;
    lemma_q36_small(n);
    if k > 0 {
        lemma_fold36_prefix(n, (k - 1) as nat);
        let acc = q36(m, (8 - k) as nat) as u32;
        let d = q36(m, (7 - k) as nat) % 36;
        lemma_alpha_pos(d as int);
        assert(code_chars(n)[k - 1] == alpha(d as int));
        assert(q36(m, (8 - k) as nat) == q36(m, (7 - k) as nat) / 36);
        assert(q36(m, (7 - k) as nat) <= n);
        assert(acc * 36 + d == q36(m, (7 - k) as nat));
        assert(vstd::wrapping::u32_specs::wrapping_mul(acc, 36) == acc * 36);
    }
}

// ── IPv4 text ────────────────────────────────────────────────

/// Octet `k` (0 = most significant) of an address.
pub open spec fn octet(n: u32, k: int) -> u8 {
    ((n >> ((24 - 8 * k) as u32)) & 0xff) as u8
}

/// The address with octets `a.b.c.d`.
pub open spec fn ipv4_of(a: u8, b: u8, c: u8, d: u8) -> u32 {
    ((a as u32) << 24) | ((b as u32) << 16) | ((c as u32) << 8) | (d as u32)
}

/// Dotted-decimal text of an address (what `Ipv4Addr::to_string` gives).
pub open spec fn ipv4_text(n: u32) -> Seq<char> {
    dec(octet(n, 0) as nat) + seq!['.'] + dec(octet(n, 1) as nat) + seq!['.'] + dec(
        octet(n, 2) as nat,
    ) + seq!['.'] + dec(octet(n, 3) as nat)
}

/// Splitting on dots, left to right: the finished groups and the group being read.
pub open spec fn split_prefix(s: Seq<char>) -> (Seq<Seq<char>>, Seq<char>)
    decreases s.len(),
{
    if s.len() == 0 {
        (Seq::empty(), Seq::empty())
    } else {
        let (gs, cur) = split_prefix(s.drop_last());
        if s.last() == '.' {
            (gs.push(cur), Seq::empty())
        } else {
            (gs, cur.push(s.last()))
        }
    }
}

/// The dot-separated groups of `s`.
pub open spec fn groups(s: Seq<char>) -> Seq<Seq<char>> {
    split_prefix(s).0.push(split_prefix(s).1)
}

/// Whether a character is an ASCII decimal digit.
pub open spec fn is_digit(c: char) -> bool {
    '0' <= c && c <= '9'
}

/// The decimal value of a group of digits.
pub open spec fn group_val(g: Seq<char>) -> nat
    decreases g.len(),
{
    if g.len() == 0 {
        0
    } else {
        group_val(g.drop_last()) * 10 + ((g.last() as u32) - 48) as nat
    }
}

/// A valid octet: one to three digits, no leading zero, at most 255.
pub open spec fn octet_ok(g: Seq<char>) -> bool {
    &&& 1 <= g.len() <= 3
    &&& forall|i: int| 0 <= i < g.len() ==> is_digit(#[trigger] g[i])
    &&& (g.len() == 1 || g[0] != '0')
    &&& group_val(g) <= 255
}

/// The address dotted-decimal text `s` denotes (the grammar of `Ipv4Addr`'s
/// parser: four dot-separated octets, nothing else).
pub open spec fn parse_ipv4(s: Seq<char>) -> Option<u32> {
    let gs = groups(s);
    if gs.len() == 4 && octet_ok(gs[0]) && octet_ok(gs[1]) && octet_ok(gs[2]) && octet_ok(gs[3]) {
        Some(
            ipv4_of(
                group_val(gs[0]) as u8,
                group_val(gs[1]) as u8,
                group_val(gs[2]) as u8,
                group_val(gs[3]) as u8,
            ),
        )
    } else {
        None
    }
}

/// The value of one octet group, if it is a valid octet.
fn check_octet(g: &Vec<char>) -> (r: Option<u8>)
    ensures
        r is Some <==> octet_ok(g@),
        r matches Some(v) ==> v as nat == group_val(g@),
{
    let n = g.len();
    if n < 1 || n > 3 {
        return None;
    }
    if n > 1 && g[0] == '0' {
        return None;
    }
    let mut v: u32 = 0;
    let mut i: usize = 0;
    while i < n
        invariant
            i <= n <= 3,
            n == g@.len(),
            forall|j: int| 0 <= j < i ==> is_digit(#[trigger] g@[j]),
            v as nat == group_val(g@.subrange(0, i as int)),
            v < 1000,
            i == 0 ==> v == 0,
            i == 1 ==> v < 10,
            i == 2 ==> v < 100,
        decreases n - i,
    {
        let c = g[i];
        if !('0' <= c && c <= '9') {
            return None;
        }
        v = v * 10 + ((c as u32) - 48);
        i = i + 1;
        assert(g@.subrange(0, i as int).drop_last() =~= g@.subrange(0, i - 1));
    }
    assert(g@.subrange(0, n as int) =~= g@);
    if v > 255 {
        return None;
    }
    Some(v as u8)
}

/// Parses dotted-decimal IPv4 text.
pub fn parse_ipv4_chars(s: &Vec<char>) -> (r: Option<u32>)
    ensures
        r == parse_ipv4(s@),
{
    let mut done: Vec<Vec<char>> = Vec::new();
    let mut cur: Vec<char> = Vec::new();
    let mut i: usize = 0;
    while i < s.len()
        invariant
            i <= s@.len(),
            split_prefix(s@.subrange(0, i as int)).0 == done@.map_values(|g: Vec<char>| g@),
            split_prefix(s@.subrange(0, i as int)).1 == cur@,
        decreases s@.len() - i,
    {
        let c = s[i];
        proof {
            assert(s@.subrange(0, i + 1).drop_last() =~= s@.subrange(0, i as int));
        }
        if c == '.' {
            let g = cur;
            done.push(g);
            cur = Vec::new();
            proof {
                assert(done@.map_values(|g: Vec<char>| g@) =~= split_prefix(
                    s@.subrange(0, i as int),
                ).0.push(split_prefix(s@.subrange(0, i as int)).1));
            }
        } else {
            cur.push(c);
            proof {
                assert(done@.map_values(|g: Vec<char>| g@) =~= split_prefix(
                    s@.subrange(0, i as int),
                ).0);
            }
        }
        i = i + 1;
    }
    assert(s@.subrange(0, s@.len() as int) =~= s@);
    if done.len() != 3 {
        return None;
    }
    let a = check_octet(&done[0]);
    let b = check_octet(&done[1]);
    let c = check_octet(&done[2]);
    let d = check_octet(&cur);
    match (a, b, c, d) {
        (Some(a), Some(b), Some(c), Some(d)) => {
            let r = ((a as u32) << 24) | ((b as u32) << 16) | ((c as u32) << 8) | (d as u32);
            Some(r)
        },
        _ => None,
    }
}

/// Writes an address as dotted-decimal text.
pub fn ipv4_to_chars(n: u32) -> (r: Vec<char>)
    ensures
        r@ == ipv4_text(n),
{
    let mut out: Vec<char> = Vec::new();
    push_decimal(&mut out, ((n >> 24) & 0xff) as u64);
    out.push('.');
    push_decimal(&mut out, ((n >> 16) & 0xff) as u64);
    out.push('.');
    push_decimal(&mut out, ((n >> 8) & 0xff) as u64);
    out.push('.');
    push_decimal(&mut out, (n & 0xff) as u64);
    proof {
        assert(octet(n, 0) == ((n >> 24) & 0xff) as u8);
        assert(octet(n, 1) == ((n >> 16) & 0xff) as u8);
        assert(octet(n, 2) == ((n >> 8) & 0xff) as u8);
        assert(octet(n, 3) == ((n >> 0u32) & 0xff) as u8);
        assert((n >> 0u32) == n) by (bit_vector);
        assert(((n >> 24) & 0xff) < 256) by (bit_vector);
        assert(((n >> 16) & 0xff) < 256) by (bit_vector);
        assert(((n >> 8) & 0xff) < 256) by (bit_vector);
        assert((n & 0xff) < 256) by (bit_vector);
        assert(out@ =~= ipv4_text(n));
    }
    out
}

// ── Laws of the address text ─────────────────────────────────

/// Whether `s` holds no dot.
pub open spec fn no_dot(s: Seq<char>) -> bool {
    forall|i: int| 0 <= i < s.len() ==> #[trigger] s[i] != '.'
}

proof fn lemma_split_append_plain(s: Seq<char>, t: Seq<char>)
    requires
        no_dot(t),
    ensures
        split_prefix(s + t) == (split_prefix(s).0, split_prefix(s).1 + t),
    decreases t.len(),
{
    if t.len() == 0 {
        assert(s + t =~= s);
        assert(split_prefix(s).1 + t =~= split_prefix(s).1);
    } else {
        let t0 = t.drop_last();
        assert((s + t).drop_last() =~= s + t0);
        assert((s + t).last() == t.last());
        assert(t.last() == t[t.len() - 1]);
        lemma_split_append_plain(s, t0);
        assert(split_prefix(s).1 + t0 + seq![t.last()] =~= split_prefix(s).1 + t);
        assert((split_prefix(s).1 + t0).push(t.last()) =~= split_prefix(s).1 + t);
    }
}

proof fn lemma_split_push_dot(s: Seq<char>)
    ensures
        split_prefix(s + seq!['.']) == (split_prefix(s).0.push(split_prefix(s).1), Seq::<char>::empty()),
{
    assert((s + seq!['.']).drop_last() =~= s);
}

proof fn lemma_dec_digits(v: nat)
    ensures
        forall|i: int| 0 <= i < dec(v).len() ==> is_digit(#[trigger] dec(v)[i]),
        group_val(dec(v)) == v,
        dec(v).len() >= 1,
        v >= 1 ==> dec(v)[0] != '0',
    decreases v,
{
    if v >= 10 {
        lemma_dec_digits(v / 10);
        let p = dec(v / 10);
        assert(dec(v).drop_last() =~= p);
        assert(dec(v)[0] == p[0]);
        let d = (v % 10) as int;
        assert((digit_char(d) as u32) - 48 == d);
        assert(dec(v) == p.push(digit_char(d)));
        assert(dec(v).last() == digit_char(d));
        assert(group_val(dec(v)) == group_val(p) * 10 + (((digit_char(d) as u32) - 48) as nat));
        assert(group_val(p) == v / 10);
    } else {
        assert((digit_char(v as int) as u32) - 48 == v);
        assert(dec(v) == seq![digit_char(v as int)]);
        assert(dec(v).drop_last() =~= Seq::<char>::empty());
        assert(group_val(Seq::<char>::empty()) == 0);
        assert(dec(v).last() == digit_char(v as int));
    }
}

proof fn lemma_dec_octet(v: nat)
    requires
        v <= 255,
    ensures
        octet_ok(dec(v)),
        group_val(dec(v)) == v,
        no_dot(dec(v)),
        dec(v).len() >= 1,
        is_digit(dec(v)[0]),
        is_digit(dec(v).last()),
{
    lemma_dec_digits(v);
    if v >= 10 {
        if v >= 100 {
            assert(dec(v / 10).len() == 2) by {
                assert(dec(v / 100).len() == 1);
                assert((v / 10) / 10 == v / 100);
            }
        } else {
            assert(dec(v / 10).len() == 1);
        }
    }
    assert(is_digit(dec(v)[dec(v).len() - 1]));
}

/// The dotted-decimal text of an address reads back as that address.
pub proof fn lemma_ipv4_text_parses(n: u32)
    ensures
        parse_ipv4(ipv4_text(n)) == Some(n),
        trimmed(ipv4_text(n)) == ipv4_text(n),
{
    let a = dec(octet(n, 0) as nat);
    let b = dec(octet(n, 1) as nat);
    let c = dec(octet(n, 2) as nat);
    let d = dec(octet(n, 3) as nat);
    lemma_dec_octet(octet(n, 0) as nat);
    lemma_dec_octet(octet(n, 1) as nat);
    lemma_dec_octet(octet(n, 2) as nat);
    lemma_dec_octet(octet(n, 3) as nat);
    let dot = seq!['.'];
    let e = Seq::<char>::empty();
    assert(e + a =~= a);
    lemma_split_append_plain(e, a);
    assert(split_prefix(e) == (Seq::<Seq<char>>::empty(), e));
    lemma_split_push_dot(a);
    lemma_split_append_plain(a + dot, b);
    assert(e + b =~= b);
    lemma_split_push_dot(a + dot + b);
    lemma_split_append_plain(a + dot + b + dot, c);
    assert(e + c =~= c);
    lemma_split_push_dot(a + dot + b + dot + c);
    lemma_split_append_plain(a + dot + b + dot + c + dot, d);
    assert(e + d =~= d);
    let t = ipv4_text(n);
    assert(t == a + dot + b + dot + c + dot + d);
    assert(groups(t) =~= seq![a, b, c, d]);
    assert(ipv4_of(octet(n, 0), octet(n, 1), octet(n, 2), octet(n, 3)) == n) by (bit_vector);
    assert(group_val(a) as u8 == octet(n, 0));
    assert(group_val(b) as u8 == octet(n, 1));
    assert(group_val(c) as u8 == octet(n, 2));
    assert(group_val(d) as u8 == octet(n, 3));
    // no whitespace at either end: the text starts and ends with digits
    assert(t[0] == a[0]);
    assert(t.last() == d.last());
    assert(crate::text::lead_ws(t) == 0);
    assert(t.subrange(0, t.len() as int) =~= t);
    assert(crate::text::trail_ws(t) == 0);
}

/// What encoding the text `s` gives.
pub open spec fn encode_spec(s: Seq<char>) -> Result<Seq<char>, CodeError> {
    match parse_ipv4(trimmed(s)) {
        None => Err(CodeError::InvalidIp),
        Some(n) => Ok(code_chars(scramble(n))),
    }
}

/// What decoding the (normalised) characters of a code gives.
pub open spec fn decode_spec(cs: Seq<char>) -> Result<Seq<char>, CodeError> {
    match from36(cs) {
        Err(e) => Err(e),
        Ok(c) => Ok(ipv4_text(unscramble(c))),
    }
}

/// The model of a text result.
pub open spec fn text_result(r: Result<String, CodeError>) -> Result<Seq<char>, CodeError> {
    match r {
        Ok(s) => Ok(s@),
        Err(e) => Err(e),
    }
}

/// Encode an IPv4 address string into a 7-character room code.
pub fn encode_ip(ip_str: &str) -> (r: Result<String, CodeError>)
    ensures
        text_result(r) == encode_spec(ip_str@),
{
    let cs = chars_of(ip_str);
    let t = trim_chars(&cs);
    match parse_ipv4_chars(&t) {
        None => Err(CodeError::InvalidIp),
        Some(n) => Ok(to_base36(scramble_exec(n))),
    }
}

/// Decode the characters of a code, as given (no trimming or case folding).
pub fn decode_code(code: &str) -> (r: Result<String, CodeError>)
    ensures
        text_result(r) == decode_spec(code@),
{
    match from_base36(code) {
        Err(e) => Err(e),
        Ok(c) => {
            let v = ipv4_to_chars(unscramble_exec(c));
            Ok(string_from_chars(&v))
        },
    }
}

/// Decode a room code back to an IPv4 address string. Surrounding
/// whitespace is ignored and the code is uppercased first.
pub fn decode_ip(code: &str) -> (r: Result<String, CodeError>)
    ensures
        text_result(r) == decode_spec(str_to_uppercase(trimmed(code@))),
        all_ascii(trimmed(code@)) ==> text_result(r) == decode_spec(
            trimmed(code@).map_values(|c: char| ascii_upper_char(c)),
        ),
{
    let cs = chars_of(code);
    let t = trim_chars(&cs);
    let ts = string_from_chars(&t);
    let up = to_uppercase(ts.as_str());
    decode_code(up.as_str())
}

/// Codes are made of alphabet characters only: 7 of them, ASCII, no
/// whitespace, unchanged by uppercasing.
pub proof fn lemma_code_is_plain(n: u32)
    ensures
        code_chars(n).len() == CODE_LEN,
        all_ascii(code_chars(n)),
        trimmed(code_chars(n)) == code_chars(n),
        code_chars(n).map_values(|c: char| ascii_upper_char(c)) == code_chars(n),
        forall|i: int| 0 <= i < 7 ==> #[trigger] alpha_pos(code_chars(n)[i]) is Some,
{
    let cs = code_chars(n);
    assert forall|i: int| 0 <= i < 7 implies (#[trigger] cs[i] as u32) < 128 && !is_white(cs[i])
        && ascii_upper_char(cs[i]) == cs[i] && alpha_pos(cs[i]) is Some by {
        lemma_alpha_pos((q36(n as nat, (6 - i) as nat) % 36) as int);
    }
    assert(cs.map_values(|c: char| ascii_upper_char(c)) =~= cs);
    assert(!is_white(cs[0]));
    assert(crate::text::lead_ws(cs) == 0);
    assert(cs.subrange(0, 7) =~= cs);
    assert(!is_white(cs.last()));
    assert(crate::text::trail_ws(cs) == 0);
}

/// The room-code promise: an address that encodes to a code decodes back from
/// that code to the address (in canonical dotted-decimal form); and the code
/// comes back unchanged through the trimming and uppercasing `decode_ip` does.
pub proof fn lemma_room_code_roundtrip(s: Seq<char>)
    requires
        encode_spec(s) is Ok,
    ensures
        decode_spec(encode_spec(s)->Ok_0) == Ok::<Seq<char>, CodeError>(
            ipv4_text(parse_ipv4(trimmed(s))->Some_0),
        ),
        trimmed(encode_spec(s)->Ok_0) == encode_spec(s)->Ok_0,
        all_ascii(encode_spec(s)->Ok_0),
        encode_spec(s)->Ok_0.map_values(|c: char| ascii_upper_char(c)) == encode_spec(s)->Ok_0,
{
    let n = parse_ipv4(trimmed(s))->Some_0;
    lemma_base36_roundtrip(scramble(n));
    lemma_scramble_bijective(n);
    lemma_code_is_plain(scramble(n));
}

/// An address written in canonical dotted-decimal form comes back
/// unchanged: decoding the code of `ipv4_text(n)` gives `ipv4_text(n)`.
pub proof fn lemma_canonical_text_roundtrip(n: u32)
    ensures
        encode_spec(ipv4_text(n)) == Ok::<Seq<char>, CodeError>(code_chars(scramble(n))),
        decode_spec(code_chars(scramble(n))) == Ok::<Seq<char>, CodeError>(ipv4_text(n)),
{
    lemma_ipv4_text_parses(n);
    lemma_room_code_roundtrip(ipv4_text(n));
}

/// Different addresses get different codes.
pub proof fn lemma_codes_distinct(n: u32, m: u32)
    requires
        n != m,
    ensures
        code_chars(scramble(n)) != code_chars(scramble(m)),
{
    lemma_base36_roundtrip(scramble(n));
    lemma_base36_roundtrip(scramble(m));
    lemma_scramble_bijective(n);
    lemma_scramble_bijective(m);
}

/// Decoding ignores the case of ASCII letters: lowercasing a code and then
/// uppercasing it gives what uppercasing it gives.
pub proof fn lemma_case_insensitive(cs: Seq<char>)
    ensures
        cs.map_values(|c: char| ascii_lower_char(c)).map_values(|c: char| ascii_upper_char(c))
            == cs.map_values(|c: char| ascii_upper_char(c)),
        all_ascii(cs) ==> all_ascii(cs.map_values(|c: char| ascii_lower_char(c))),
{
    assert(cs.map_values(|c: char| ascii_lower_char(c)).map_values(|c: char| ascii_upper_char(c))
        =~= cs.map_values(|c: char| ascii_upper_char(c)));
}

/// A room code still decodes to its address when it is written in lowercase
/// or with whitespace around it. For whitespace `p` and `q`, the text
/// `p + code + q`, and the same with the code lowercased, trims to an
/// all-ASCII text whose uppercase decodes to the address.
pub proof fn lemma_decode_variants(n: u32, p: Seq<char>, q: Seq<char>)
    requires
        all_white(p),
        all_white(q),
    ensures
        all_ascii(trimmed(p + code_chars(scramble(n)) + q)),
        decode_spec(trimmed(p + code_chars(scramble(n)) + q).map_values(|c: char| ascii_upper_char(c)))
            == Ok::<Seq<char>, CodeError>(ipv4_text(n)),
        all_ascii(trimmed(p + code_chars(scramble(n)).map_values(|c: char| ascii_lower_char(c)) + q)),
        decode_spec(
            trimmed(p + code_chars(scramble(n)).map_values(|c: char| ascii_lower_char(c)) + q).map_values(
                |c: char| ascii_upper_char(c),
            ),
        ) == Ok::<Seq<char>, CodeError>(ipv4_text(n)),
{
    let c = code_chars(scramble(n));
    let lower = c.map_values(|c: char| ascii_lower_char(c));
    lemma_code_is_plain(scramble(n));
    lemma_canonical_text_roundtrip(n);
    lemma_case_insensitive(c);
    assert forall|i: int| 0 <= i < 7 implies !is_white(#[trigger] c[i]) && !is_white(lower[i]) by {
        lemma_alpha_pos((q36(scramble(n) as nat, (6 - i) as nat) % 36) as int);
    }
    lemma_trimmed_padded(p, c, q);
    lemma_trimmed_padded(p, lower, q);
}

} // verus!
