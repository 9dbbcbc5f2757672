//! The onion builder: one layer per hop, innermost first.

use vstd::prelude::*;
use vstd::slice::*;
use crate::crypto::{
    layer_opens, peeled, rsa_accepts, wrap_layer, AES_GCM_MAX_PLAINTEXT, HEADER_LEN,
    HEADER_PLAIN_LEN, TAG_LEN,
};
use crate::error::Error;
use crate::keys::{is_key_pair, PrivateKeyView, PublicKey, PublicKeyView};

verus! {

/// One position on a path, to a specification: the address that the relay
/// at this position forwards to, and the key of that relay.
pub type HopView = (Seq<u8>, PublicKeyView);

/// The views of the positions of a path, in order.
pub open spec fn path_view(path: Seq<([u8; 4], PublicKey)>) -> Seq<HopView> {
    Seq::new(path.len(), |i: int| (path[i].0@, path[i].1@))
}

/// Every key on the path has a modulus of exactly 256 bytes.
pub open spec fn keys_fit_header(path: Seq<HopView>) -> bool {
    forall|i: int| 0 <= i < path.len() ==> (#[trigger] path[i]).1.n.len() == HEADER_LEN
}

/// The length of the onion built over `path` around a payload of
/// `payload_len` bytes: each layer adds its header and a tag.
pub open spec fn onion_len(path: Seq<HopView>, payload_len: nat) -> nat
    decreases path.len(),
{
    if path.len() == 0 {
        payload_len
    } else {
        path[0].1.n.len() + onion_len(path.drop_first(), payload_len) + TAG_LEN as nat
    }
}

/// Whether every layer over `path` can be wrapped: each body is no longer
/// than AES-GCM takes, and each key can seal a header.
pub open spec fn onion_fits(path: Seq<HopView>, payload_len: nat) -> bool
    decreases path.len(),
{
    if path.len() == 0 {
        true
    } else {
        &&& onion_fits(path.drop_first(), payload_len)
        &&& onion_len(path.drop_first(), payload_len) <= AES_GCM_MAX_PLAINTEXT
        &&& rsa_accepts(path[0].1, HEADER_PLAIN_LEN as nat)
    }
}

/// `packet` is an onion over `path` around `payload`: the first relay's
/// key peels it to the first next hop and an inner packet, which is an
/// onion over the rest of the path. Over the empty path the packet is the
/// payload.
pub open spec fn onion_opens(path: Seq<HopView>, packet: Seq<u8>, payload: Seq<u8>) -> bool
    decreases path.len(),
{
    if path.len() == 0 {
        packet == payload
    } else {
        exists|inner: Seq<u8>| #[trigger]
            layer_opens(path[0].1, packet, path[0].0, inner) && onion_opens(
                path.drop_first(),
                inner,
                payload,
            )
    }
}

/// Where an onion fits, so does the onion over any tail of its path.
proof fn lemma_tail_fits(path: Seq<HopView>, payload_len: nat, from: int)
    requires
        0 <= from <= path.len(),
        onion_fits(path, payload_len),
    ensures
        onion_fits(path.subrange(from, path.len() as int), payload_len),
    decreases from,
{
    if from == 0 {
        assert(path.subrange(0, path.len() as int) =~= path);
    } else {
        lemma_tail_fits(path.drop_first(), payload_len, from - 1);
        assert(path.drop_first().subrange(from - 1, path.drop_first().len() as int)
            =~= path.subrange(from, path.len() as int));
    }
}

/// Builds the onion over `path_with_keys` around `payload`.
///
/// Position `i` of the path gives the key of the relay that peels layer
/// `i` and the address that this relay forwards to. Layers are wrapped from
/// the last position to the first, so the outermost header is sealed to the
/// first relay. It fails with `CryptoError` exactly when some layer cannot
/// be wrapped. Where every key has a 256-byte modulus, the result is an
/// onion over the path in the sense of `onion_opens`.
pub fn onion_wrap(path_with_keys: &Vec<([u8; 4], PublicKey)>, payload: &[u8]) -> (r: Result<
    Vec<u8>,
    Error,
>)
    ensures
        r is Ok <==> onion_fits(path_view(path_with_keys@), payload@.len()),
        r matches Ok(packet) ==> {
            &&& packet@.len() == onion_len(path_view(path_with_keys@), payload@.len())
            &&& keys_fit_header(path_view(path_with_keys@)) ==> onion_opens(
                path_view(path_with_keys@),
                packet@,
                payload@,
            )
        },
        r matches Err(e) ==> e == Error::CryptoError,
{
    let ghost path = path_view(path_with_keys@);
    let n = path_with_keys.len();
    let mut current = slice_to_vec(payload);
    let mut i = n;
    proof {
        assert(path.subrange(n as int, n as int) =~= Seq::<HopView>::empty());
    }
    while i > 0
        invariant
            0 <= i <= n == path_with_keys@.len(),
            path == path_view(path_with_keys@),
            onion_fits(path.subrange(i as int, n as int), payload@.len()),
            current@.len() == onion_len(path.subrange(i as int, n as int), payload@.len()),
            keys_fit_header(path) ==> onion_opens(
                path.subrange(i as int, n as int),
                current@,
                payload@,
            ),
        decreases i,
    {
        let ghost tail = path.subrange(i as int, n as int);
        let ghost rest = path.subrange(i - 1, n as int);
        let ghost inner = current@;
        i -= 1;
        let hop = &path_with_keys[i];
        proof {
            assert(rest.drop_first() =~= tail);
            assert(rest[0] == path[i as int]);
            assert(path[i as int] == (hop.0@, hop.1@));
        }
        match wrap_layer(&hop.1, &hop.0, current.as_slice()) {
            Ok(packet) => {
                current = packet;
                proof {
                    if keys_fit_header(path) {
                        assert(layer_opens(rest[0].1, current@, rest[0].0, inner));
                    }
                }
            },
            Err(e) => {
                proof {
                    assert(!onion_fits(rest, payload@.len()));
                    if onion_fits(path, payload@.len()) {
                        lemma_tail_fits(path, payload@.len(), i as int);
                    }
                }
                return Err(e);
            },
        }
    }
    proof {
        assert(path.subrange(0, n as int) =~= path);
    }
    Ok(current)
}

/// What peeling `packet` once with each key of `sks` in turn gives: the
/// next hop that the last key reveals, and what is left.
pub open spec fn peeled_through(sks: Seq<PrivateKeyView>, packet: Seq<u8>) -> Result<
    (Seq<u8>, Seq<u8>),
    Error,
>
    recommends
        sks.len() > 0,
    decreases sks.len(),
{
    if sks.len() == 0 {
        Err(Error::MalformedPacket)
    } else {
        match peeled(sks[0], packet) {
            Err(e) => Err(e),
            Ok((next_hop, inner)) => if sks.len() == 1 {
                Ok((next_hop, inner))
            } else {
                peeled_through(sks.drop_first(), inner)
            },
        }
    }
}

/// The relays along an onion each learn their own next hop: peeling with
/// the keys of the first `sks.len()` relays reveals the next hop of the
/// last of them and leaves an onion over the rest of the path.
pub proof fn lemma_onion_peels(
    path: Seq<HopView>,
    packet: Seq<u8>,
    payload: Seq<u8>,
    sks: Seq<PrivateKeyView>,
)
    requires
        0 < sks.len() <= path.len(),
        forall|i: int| 0 <= i < sks.len() ==> is_key_pair(#[trigger] sks[i], path[i].1),
        onion_opens(path, packet, payload),
    ensures
        peeled_through(sks, packet) matches Ok((next_hop, inner)) && next_hop == path[sks.len()
            - 1].0 && onion_opens(path.skip(sks.len() as int), inner, payload),
    decreases sks.len(),
{
    let inner = choose|inner: Seq<u8>| #[trigger]
        layer_opens(path[0].1, packet, path[0].0, inner) && onion_opens(
            path.drop_first(),
            inner,
            payload,
        );
    assert(is_key_pair(sks[0], path[0].1));
    assert(peeled(sks[0], packet) == Ok::<(Seq<u8>, Seq<u8>), Error>((path[0].0, inner)));
    if sks.len() == 1 {
        assert(path.skip(1) =~= path.drop_first());
    } else {
        let rest = sks.drop_first();
        assert forall|i: int| 0 <= i < rest.len() implies is_key_pair(
            #[trigger] rest[i],
            path.drop_first()[i].1,
        ) by {
            assert(rest[i] == sks[i + 1]);
        }
        lemma_onion_peels(path.drop_first(), inner, payload, rest);
        assert(path.drop_first().skip(rest.len() as int) =~= path.skip(sks.len() as int));
    }
}

/// An onion round-trips: peeling with the key of every relay on the path,
/// in order, reveals the last next hop and gives the payload back.
pub proof fn lemma_onion_round_trip(
    path: Seq<HopView>,
    packet: Seq<u8>,
    payload: Seq<u8>,
    sks: Seq<PrivateKeyView>,
)
    requires
        0 < sks.len() == path.len(),
        forall|i: int| 0 <= i < sks.len() ==> is_key_pair(#[trigger] sks[i], path[i].1),
        onion_opens(path, packet, payload),
    ensures
        peeled_through(sks, packet) == Ok::<(Seq<u8>, Seq<u8>), Error>(
            (path.last().0, payload),
        ),
{
    lemma_onion_peels(path, packet, payload, sks);
    assert(path.skip(sks.len() as int).len() == 0);
}

} // verus!
