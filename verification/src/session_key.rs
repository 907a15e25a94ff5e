//! Session keys derived from the Diffie-Hellman shared secret.
//!
//! Two keys are derived, one per direction: the host sends with the
//! host-to-client key and receives with the client-to-host key, and the
//! client does the opposite, so the send key of one side is the receive key
//! of the other.

use vstd::prelude::*;

use crate::cipher::SessionCipher;

verus! {

/// Session ciphers for one side of a connection.
pub struct SessionKeys {
    /// Cipher for encrypting outgoing data
    pub send_cipher: SessionCipher,
    /// Cipher for decrypting incoming data
    pub recv_cipher: SessionCipher,
}

/// `x * y` on bytes, wrapping.
pub open spec fn bmul(x: u8, y: u8) -> u8 {
    vstd::wrapping::u8_specs::wrapping_mul(x, y)
}

/// `x + y` on bytes, wrapping.
pub open spec fn badd(x: u8, y: u8) -> u8 {
    vstd::wrapping::u8_specs::wrapping_add(x, y)
}

/// `x - y` on bytes, wrapping.
pub open spec fn bsub(x: u8, y: u8) -> u8 {
    vstd::wrapping::u8_specs::wrapping_sub(x, y)
}

/// Context byte `i`, or zero past the end.
pub open spec fn ctx_at(ctx: Seq<u8>, i: int) -> u8 {
    if i < ctx.len() {
        ctx[i]
    } else {
        0
    }
}

/// First pass: byte `i` mixes the secret, the context and the position.
pub open spec fn pass1(ss: Seq<u8>, ctx: Seq<u8>, i: int) -> u8 {
    badd(badd(bmul(ss[i], 251), ctx_at(ctx, i)), bmul(i as u8, 197))
}

/// Second pass: each byte also depends on the one before it.
pub open spec fn pass2(ss: Seq<u8>, ctx: Seq<u8>, i: int) -> u8
    decreases i,
{
    if i <= 0 {
        pass1(ss, ctx, 0)
    } else {
        badd(badd(pass1(ss, ctx, i), bmul(pass2(ss, ctx, i - 1), 131)), ss[(i + 7) % 32])
    }
}

/// Third pass, backwards: each byte also depends on the one after it.
pub open spec fn pass3(ss: Seq<u8>, ctx: Seq<u8>, i: int) -> u8
    decreases 31 - i,
{
    if i >= 31 {
        pass2(ss, ctx, 31)
    } else {
        badd(badd(pass2(ss, ctx, i), bmul(pass3(ss, ctx, i + 1), 173)), ctx[i % (ctx.len() as int)])
    }
}

/// The key derived from a shared secret and a context.
pub open spec fn derived_key(ss: Seq<u8>, ctx: Seq<u8>) -> Seq<u8> {
    Seq::new(32, |i: int| pass3(ss, ctx, i))
}

/// The context of the host-to-client key.
pub open spec fn host_to_client() -> Seq<u8> {
    seq![99u8, 104, 97, 116, 99, 97, 108, 108, 45, 104, 111, 115, 116, 45, 116, 111, 45, 99, 108,
    105, 101, 110, 116, 45, 118, 49]
}

/// The context of the client-to-host key.
pub open spec fn client_to_host() -> Seq<u8> {
    seq![99u8, 104, 97, 116, 99, 97, 108, 108, 45, 99, 108, 105, 101, 110, 116, 45, 116, 111, 45,
    104, 111, 115, 116, 45, 118, 49]
}

/// The key one side sends with.
pub open spec fn send_key(ss: Seq<u8>, is_host: bool) -> Seq<u8> {
    derived_key(ss, if is_host { host_to_client() } else { client_to_host() })
}

/// The key one side receives with.
pub open spec fn recv_key(ss: Seq<u8>, is_host: bool) -> Seq<u8> {
    derived_key(ss, if is_host { client_to_host() } else { host_to_client() })
}

impl SessionKeys {
    /// Derive session keys from a shared secret. The host sends with the
    /// host-to-client key and receives with the client-to-host key; the
    /// client does the opposite.
    pub fn derive(shared_secret: &[u8; 32], is_host: bool) -> (r: Self)
        ensures
            r.send_cipher.counter() == 0,
            r.recv_cipher.counter() == 0,
            r.send_cipher.key() == send_key(shared_secret@, is_host),
            r.recv_cipher.key() == recv_key(shared_secret@, is_host),
            is_host ==> r.send_cipher.key() == derived_key(shared_secret@, host_to_client()),
            is_host ==> r.recv_cipher.key() == derived_key(shared_secret@, client_to_host()),
            !is_host ==> r.send_cipher.key() == derived_key(shared_secret@, client_to_host()),
            !is_host ==> r.recv_cipher.key() == derived_key(shared_secret@, host_to_client()),
    {
        let host_ctx: [u8; 26] = [99, 104, 97, 116, 99, 97, 108, 108, 45, 104, 111, 115, 116, 45,
            116, 111, 45, 99, 108, 105, 101, 110, 116, 45, 118, 49];
        let client_ctx: [u8; 26] = [99, 104, 97, 116, 99, 97, 108, 108, 45, 99, 108, 105, 101,
            110, 116, 45, 116, 111, 45, 104, 111, 115, 116, 45, 118, 49];
        assert(host_ctx@ =~= host_to_client());
        assert(client_ctx@ =~= client_to_host());
        let key_a = Self::derive_key(shared_secret, &host_ctx);
        let key_b = Self::derive_key(shared_secret, &client_ctx);
        if is_host {
            Self { send_cipher: SessionCipher::new(&key_a), recv_cipher: SessionCipher::new(&key_b) }
        } else {
            Self { send_cipher: SessionCipher::new(&key_b), recv_cipher: SessionCipher::new(&key_a) }
        }
    }

    /// Simple key derivation: three mixing passes over the shared secret and
    /// a non-empty context.
    pub fn derive_key(shared_secret: &[u8; 32], context: &[u8]) -> (r: [u8; 32])
        requires
            context@.len() > 0,
        ensures
            r@ == derived_key(shared_secret@, context@),
    {
        let ghost ss = shared_secret@;
        let ghost ctx = context@;
        let mut key = [0u8; 32];
        let mut i: usize = 0;
        while i < 32
            invariant
                i <= 32,
                ss == shared_secret@,
                ctx == context@,
                key@.len() == 32,
                forall|j: int| 0 <= j < i ==> #[trigger] key@[j] == pass1(ss, ctx, j),
            decreases 32 - i,
        {
            let ctx_byte = if i < context.len() {
                context[i]
            } else {
                0
            };
            let mixed = shared_secret[i].wrapping_mul(251).wrapping_add(ctx_byte).wrapping_add(
                (i as u8).wrapping_mul(197),
            );
            key[i] = mixed;
            i = i + 1;
        }
        let mut i: usize = 1;
        while i < 32
            invariant
                1 <= i <= 32,
                ss == shared_secret@,
                ctx == context@,
                key@.len() == 32,
                forall|j: int| 0 <= j < i ==> #[trigger] key@[j] == pass2(ss, ctx, j),
                forall|j: int| i <= j < 32 ==> #[trigger] key@[j] == pass1(ss, ctx, j),
            decreases 32 - i,
        {
            let v = key[i].wrapping_add(key[i - 1].wrapping_mul(131)).wrapping_add(
                shared_secret[(i + 7) % 32],
            );
            key[i] = v;
            i = i + 1;
        }
        let mut i: usize = 31;
        while i > 0
            invariant
                i <= 31,
                ss == shared_secret@,
                ctx == context@,
                ctx.len() > 0,
                key@.len() == 32,
                forall|j: int| i <= j < 32 ==> #[trigger] key@[j] == pass3(ss, ctx, j),
                forall|j: int| 0 <= j < i ==> #[trigger] key@[j] == pass2(ss, ctx, j),
            decreases i,
        {
            let k = i - 1;
            let v = key[k].wrapping_add(key[k + 1].wrapping_mul(173)).wrapping_add(
                context[k % context.len()],
            );
            key[k] = v;
            i = k;
        }
        assert(key@ =~= derived_key(ss, ctx));
        key
    }
}

/// The two sides of a session pair up: the key the host sends with is the key
/// the client receives with, and the other way round.
pub proof fn lemma_directions_pair_up(ss: Seq<u8>)
    ensures
        send_key(ss, true) == recv_key(ss, false),
        send_key(ss, false) == recv_key(ss, true),
{
}

/// Which key each side uses: the host sends with the key derived with the
/// context `chatcall-host-to-client-v1` and receives with the one derived
/// with `chatcall-client-to-host-v1`; the client the other way round. The
/// two contexts are the ASCII bytes of those texts, and they differ.
pub proof fn lemma_key_directions(ss: Seq<u8>)
    ensures
        host_to_client() == "chatcall-host-to-client-v1"@.map_values(|c: char| c as u8),
        client_to_host() == "chatcall-client-to-host-v1"@.map_values(|c: char| c as u8),
        host_to_client() != client_to_host(),
        send_key(ss, true) == derived_key(ss, host_to_client()),
        recv_key(ss, true) == derived_key(ss, client_to_host()),
        send_key(ss, false) == derived_key(ss, client_to_host()),
        recv_key(ss, false) == derived_key(ss, host_to_client()),
{
    reveal_strlit("chatcall-host-to-client-v1");
    reveal_strlit("chatcall-client-to-host-v1");
    assert(host_to_client() =~= "chatcall-host-to-client-v1"@.map_values(|c: char| c as u8));
    assert(client_to_host() =~= "chatcall-client-to-host-v1"@.map_values(|c: char| c as u8));
    assert(host_to_client()[9] != client_to_host()[9]);
}

/// The derived key, read back through its three passes. Undoing the
/// backward pass (byte `i` less 173 times byte `i + 1` less context byte
/// `i mod len`; the last byte as it is) gives the bytes `m` of the forward
/// passes, and those satisfy: `m[0]` is `secret[0] * 251 + ctx[0]`, and
/// each later `m[i]` is `secret[i] * 251 + ctx[i] + i * 197` (context
/// bytes past its end count as zero) plus `131 * m[i - 1]` plus
/// `secret[(i + 7) mod 32]`, all on wrapping bytes.
pub proof fn lemma_derived_key_passes(ss: Seq<u8>, ctx: Seq<u8>)
    requires
        ss.len() == 32,
        ctx.len() > 0,
    ensures
        ({
            let k = derived_key(ss, ctx);
            let m = Seq::new(
                32,
                |i: int|
                    if i == 31 {
                        k[31]
                    } else {
                        bsub(bsub(k[i], bmul(k[i + 1], 173)), ctx[i % (ctx.len() as int)])
                    },
            );
            &&& k.len() == 32
            &&& m[0] == badd(bmul(ss[0], 251), if ctx.len() > 0 { ctx[0] } else { 0 })
            &&& forall|i: int|
                1 <= i < 32 ==> #[trigger] m[i] == badd(
                    badd(
                        badd(badd(bmul(ss[i], 251), if i < ctx.len() { ctx[i] } else { 0 }), bmul(i as u8, 197)),
                        bmul(m[i - 1], 131),
                    ),
                    ss[(i + 7) % 32],
                )
        }),
{
    let k = derived_key(ss, ctx);
    let m = Seq::new(
        32,
        |i: int|
            if i == 31 {
                k[31]
            } else {
                bsub(bsub(k[i], bmul(k[i + 1], 173)), ctx[i % (ctx.len() as int)])
            },
    );
    assert forall|i: int| 0 <= i < 32 implies #[trigger] m[i] == pass2(ss, ctx, i) by {
        if i < 31 {
            let a = pass2(ss, ctx, i);
            let b = bmul(pass3(ss, ctx, i + 1), 173);
            let c = ctx[i % (ctx.len() as int)];
            assert(k[i] == badd(badd(a, b), c));
            assert(k[i + 1] == pass3(ss, ctx, i + 1));
            assert(bsub(bsub(badd(badd(a, b), c), b), c) == a) by {
                lemma_add_sub_bytes(a, b, c);
            }
        }
    }
    assert(bmul(0u8, 197) == 0u8) by (nonlinear_arith);
    assert(m[0] == pass1(ss, ctx, 0));
    assert forall|i: int| 1 <= i < 32 implies #[trigger] m[i] == badd(
        badd(
            badd(badd(bmul(ss[i], 251), if i < ctx.len() { ctx[i] } else { 0 }), bmul(i as u8, 197)),
            bmul(m[i - 1], 131),
        ),
        ss[(i + 7) % 32],
    ) by {
        assert(m[i - 1] == pass2(ss, ctx, i - 1));
        assert(m[i] == pass2(ss, ctx, i));
    }
}

proof fn lemma_add_sub_bytes(a: u8, b: u8, c: u8)
    ensures
        bsub(bsub(badd(badd(a, b), c), b), c) == a,
{
}

} // verus!
