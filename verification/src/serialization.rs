//! Size-bounded serialization: the decision on the serialized size.
//! (Encoding values themselves is done with bincode by the caller.)

use vstd::prelude::*;

use crate::text::{dec, push_chars, push_decimal, string_from_chars};

verus! {

/// Error type for serialization operations
#[derive(Debug, Clone)]
pub enum SerializationError {
    SerializeFailed(String),
    DeserializeFailed(String),
}

/// The message of an over-limit size: `Serialized size <size> exceeds limit <max>`.
pub open spec fn over_limit_message(size: u64, max_size: u64) -> Seq<char> {
    seq!['S', 'e', 'r', 'i', 'a', 'l', 'i', 'z', 'e', 'd', ' ', 's', 'i', 'z', 'e', ' '] + dec(
        size as nat,
    ) + seq![' ', 'e', 'x', 'c', 'e', 'e', 'd', 's', ' ', 'l', 'i', 'm', 'i', 't', ' '] + dec(
        max_size as nat,
    )
}

/// Whether a value of serialized size `size` may be serialized under the
/// limit `max_size`: it may unless it is larger.
pub fn check_size(size: u64, max_size: u64) -> (r: Result<(), SerializationError>)
    ensures
        size <= max_size ==> r is Ok,
        size > max_size ==> (r matches Err(SerializationError::SerializeFailed(m)) && m@
            == over_limit_message(size, max_size)),
{
    if size > max_size {
        let mut out: Vec<char> = Vec::new();
        let head = vec!['S', 'e', 'r', 'i', 'a', 'l', 'i', 'z', 'e', 'd', ' ', 's', 'i', 'z', 'e', ' '];
        push_chars(&mut out, &head);
        push_decimal(&mut out, size);
        let mid = vec![' ', 'e', 'x', 'c', 'e', 'e', 'd', 's', ' ', 'l', 'i', 'm', 'i', 't', ' '];
        push_chars(&mut out, &mid);
        push_decimal(&mut out, max_size);
        proof {
            assert(head@ =~= seq!['S', 'e', 'r', 'i', 'a', 'l', 'i', 'z', 'e', 'd', ' ', 's', 'i', 'z', 'e', ' ']);
            assert(mid@ =~= seq![' ', 'e', 'x', 'c', 'e', 'e', 'd', 's', ' ', 'l', 'i', 'm', 'i', 't', ' ']);
            assert(out@ =~= over_limit_message(size, max_size));
        }
        Err(SerializationError::SerializeFailed(string_from_chars(&out)))
    } else {
        Ok(())
    }
}

} // verus!
