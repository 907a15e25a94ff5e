//! The local user's profile.

use vstd::prelude::*;

use crate::text::{dec, push_decimal, string_from_chars};
use vstd::utf8::encode_utf8;

verus! {

/// Local user profile stored on the user's machine
#[derive(Debug, Clone)]
pub struct UserProfile {
    pub username: String,
    /// CSS colour for the avatar placeholder
    pub avatar_color: String,
}

/// The 31-multiplier rolling hash of a byte string (wrapping at 32 bits).
pub open spec fn name_hash(b: Seq<u8>) -> u32
    decreases b.len(),
{
    if b.len() == 0 {
        0
    } else {
        vstd::wrapping::u32_specs::wrapping_add(
            vstd::wrapping::u32_specs::wrapping_mul(name_hash(b.drop_last()), 31),
            b.last() as u32,
        )
    }
}

/// The avatar colour of a name whose UTF-8 bytes are `b`:
/// `hsl(<hue>, 70%, 60%)` with the hue `name_hash(b) % 360`.
pub open spec fn avatar_color_of(b: Seq<u8>) -> Seq<char> {
    seq!['h', 's', 'l', '('] + dec((name_hash(b) % 360) as nat) + seq![
        ',',
        ' ',
        '7',
        '0',
        '%',
        ',',
        ' ',
        '6',
        '0',
        '%',
        ')',
    ]
}

impl UserProfile {
    /// A profile whose avatar colour is derived from the username.
    pub fn new(username: String) -> (r: Self)
        ensures
            r.username@ == username@,
            r.avatar_color@ == avatar_color_of(encode_utf8(username@)),
    {
        let bytes = username.as_str().as_bytes();
        let mut hash: u32 = 0;
        let mut i: usize = 0;
        while i < bytes.len()
            invariant
                i <= bytes@.len(),
                bytes@ == encode_utf8(username@),
                hash == name_hash(bytes@.subrange(0, i as int)),
            decreases bytes@.len() - i,
        {
            hash = hash.wrapping_mul(31).wrapping_add(bytes[i] as u32);
            i = i + 1;
            assert(bytes@.subrange(0, i as int).drop_last() =~= bytes@.subrange(0, i - 1));
        }
        assert(bytes@.subrange(0, bytes@.len() as int) =~= bytes@);
        let hue = hash % 360;
        let mut out: Vec<char> = Vec::new();
        out.push('h');
        out.push('s');
        out.push('l');
        out.push('(');
        push_decimal(&mut out, hue as u64);
        out.push(',');
        out.push(' ');
        out.push('7');
        out.push('0');
        out.push('%');
        out.push(',');
        out.push(' ');
        out.push('6');
        out.push('0');
        out.push('%');
        out.push(')');
        assert(out@ =~= avatar_color_of(encode_utf8(username@)));
        let color = string_from_chars(&out);
        Self { username, avatar_color: color }
    }
}

impl Default for UserProfile {
    /// The profile of a user named "User".
    fn default() -> (r: Self)
        ensures
            r.username@ == "User"@,
            r.avatar_color@ == avatar_color_of(encode_utf8(r.username@)),
    {
        Self::new(String::from_str("User"))
    }
}

} // verus!
