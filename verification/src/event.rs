//! Construction of the signed private-message event: the ciphertext as
//! content, the receiver as a tag, an optional reply reference, the
//! canonical serialization whose SHA-256 digest is the event id, and
//! the Schnorr signature over that id. The relay publication itself is
//! left to the caller; everything decided locally is built and signed
//! here.

use vstd::prelude::*;

use crate::hexcode::hex_of;
use crate::keycodec::{decode_key, KeyEncoding, KeyKind};
use crate::primitives::{
    base64_encoding, point_on_curve, public_key_of, schnorr_sig_of, schnorr_sign, sha256_exec,
    sha256_of, valid_secret_bytes,
};
use crate::util::push_all;
use crate::cipher::seal;
use crate::kdf::conversation_key_of;
use crate::{hex64_key, is_hex64, nip44_encrypt, Error};
use vstd::utf8::encode_utf8;

verus! {

/// The protocol kind number of a direct private-message event.
pub open spec fn private_message_kind() -> nat {
    4
}

/// The decimal ASCII image of a number.
pub open spec fn dec_of(n: nat) -> Seq<u8>
    decreases n,
{
    if n < 10 {
        seq![(48 + n) as u8]
    } else {
        dec_of(n / 10).push((48 + n % 10) as u8)
    }
}

/// The serialized tag list: the receiver as a `p` tag and, when a
/// reply reference is present, the replied event id as an `e` tag.
pub open spec fn tags_json(receiver: Seq<u8>, reply: Option<Seq<u8>>) -> Seq<u8> {
    seq![91u8] + seq![91u8, 34u8, 112u8, 34u8, 44u8, 34u8] + hex_of(receiver) + seq![34u8, 93u8]
        + (match reply {
        Option::None => Seq::<u8>::empty(),
        Option::Some(rid) => seq![44u8, 91u8, 34u8, 101u8, 34u8, 44u8, 34u8] + hex_of(rid) + seq![
            34u8,
            93u8,
        ],
    }) + seq![93u8]
}

/// The canonical serialization whose SHA-256 digest is the event id:
/// `[0,"<pubkey>",<created_at>,<kind>,<tags>,"<content>"]`.
pub open spec fn id_preimage(
    pubkey: Seq<u8>,
    created_at: nat,
    tags: Seq<u8>,
    content: Seq<u8>,
) -> Seq<u8> {
    seq![91u8, 48u8, 44u8, 34u8] + hex_of(pubkey) + seq![34u8, 44u8] + dec_of(created_at) + seq![
        44u8,
    ] + dec_of(private_message_kind()) + seq![44u8] + tags + seq![44u8, 34u8] + content + seq![
        34u8,
        93u8,
    ]
}

/// The serialized signed event up to and including the opening quote
/// of the content field.
pub open spec fn event_json_head(
    id: Seq<u8>,
    pubkey: Seq<u8>,
    created_at: nat,
    tags: Seq<u8>,
) -> Seq<u8> {
    seq![123u8, 34u8, 105u8, 100u8, 34u8, 58u8, 34u8] + hex_of(id) + seq![
        34u8,
        44u8,
        34u8,
        112u8,
        117u8,
        98u8,
        107u8,
        101u8,
        121u8,
        34u8,
        58u8,
        34u8,
    ] + hex_of(pubkey) + seq![
        34u8,
        44u8,
        34u8,
        99u8,
        114u8,
        101u8,
        97u8,
        116u8,
        101u8,
        100u8,
        95u8,
        97u8,
        116u8,
        34u8,
        58u8,
    ] + dec_of(created_at) + seq![44u8, 34u8, 107u8, 105u8, 110u8, 100u8, 34u8, 58u8] + dec_of(
        private_message_kind(),
    ) + seq![44u8, 34u8, 116u8, 97u8, 103u8, 115u8, 34u8, 58u8] + tags + seq![
        44u8,
        34u8,
        99u8,
        111u8,
        110u8,
        116u8,
        101u8,
        110u8,
        116u8,
        34u8,
        58u8,
        34u8,
    ]
}

/// The serialized signed event from the closing quote of the content
/// field to the end.
pub open spec fn event_json_tail(sig: Seq<u8>) -> Seq<u8> {
    seq![34u8, 44u8, 34u8, 115u8, 105u8, 103u8, 34u8, 58u8, 34u8] + hex_of(sig) + seq![34u8, 125u8]
}

/// The serialized signed event, ready for the relay wire format.
pub open spec fn event_json(
    id: Seq<u8>,
    pubkey: Seq<u8>,
    created_at: nat,
    tags: Seq<u8>,
    content: Seq<u8>,
    sig: Seq<u8>,
) -> Seq<u8> {
    event_json_head(id, pubkey, created_at, tags) + content + event_json_tail(sig)
}

/// A fully built and signed private-message event.
#[derive(Debug)]
pub struct PrivateMessageEvent {
    /// The 32-byte event id: the SHA-256 digest of the canonical
    /// serialization.
    pub id: Vec<u8>,
    /// The sender's 32-byte x-only public key.
    pub pubkey: Vec<u8>,
    /// The creation timestamp handed in by the caller.
    pub created_at: u64,
    /// The receiver's 32-byte public key, carried as the `p` tag.
    pub receiver: Vec<u8>,
    /// The replied event id, carried as an `e` tag when present.
    pub reply_to: Option<Vec<u8>>,
    /// The base64-framed ciphertext.
    pub content: String,
    /// The 64-byte Schnorr signature over the event id.
    pub sig: Vec<u8>,
    /// The serialized signed event.
    pub json: String,
}

/// Decimal images are ASCII digits.
proof fn lemma_dec_of_ascii(n: nat)
    ensures
        forall|i: int| 0 <= i < dec_of(n).len() ==> 48 <= #[trigger] dec_of(n)[i] <= 57,
    decreases n,
{
    if n < 10 {
        assert(dec_of(n)[0] == (48 + n) as u8);
    } else {
        lemma_dec_of_ascii(n / 10);
        assert forall|i: int| 0 <= i < dec_of(n).len() implies 48 <= #[trigger] dec_of(n)[i]
            <= 57 by {
            if i < dec_of(n / 10).len() {
                assert(dec_of(n)[i] == dec_of(n / 10)[i]);
            } else {
                assert(dec_of(n)[i] == (48 + n % 10) as u8);
            }
        }
    }
}

/// Serialized tag lists are ASCII.
proof fn lemma_tags_ascii(receiver: Seq<u8>, reply: Option<Seq<u8>>)
    ensures
        forall|i: int|
            0 <= i < tags_json(receiver, reply).len() ==> #[trigger] tags_json(receiver, reply)[i]
                < 128,
{
    crate::hexcode::lemma_hex_of_ascii(receiver);
    match reply {
        Option::Some(rid) => {
            crate::hexcode::lemma_hex_of_ascii(rid);
        },
        Option::None => {},
    }
}

/// Append the decimal image of `n`.
fn push_dec(out: &mut Vec<u8>, n: u64)
    ensures
        final(out)@ =~= old(out)@ + dec_of(n as nat),
    decreases n,
{
    if n < 10 {
        out.push(48 + (n as u8));
    } else {
        push_dec(out, n / 10);
        out.push(48 + ((n % 10) as u8));
    }
}

/// Build the serialized tag list.
fn build_tags(receiver: &Vec<u8>, reply: &Option<Vec<u8>>) -> (r: Vec<u8>)
    requires
        receiver@.len() == 32,
        reply matches Some(v) ==> v@.len() == 32,
    ensures
        r@ =~= tags_json(
            receiver@,
            match &reply {
                Option::Some(v) => Option::Some(v@),
                Option::None => Option::None,
            },
        ),
{
    let mut out: Vec<u8> = Vec::new();
    out.push(91);
    out.push(91);
    out.push(34);
    out.push(112);
    out.push(34);
    out.push(44);
    out.push(34);
    let rh = crate::hexcode::hex_encode(receiver.as_slice());
    push_all(&mut out, rh.as_slice());
    out.push(34);
    out.push(93);
    match reply {
        Option::Some(rid) => {
            out.push(44);
            out.push(91);
            out.push(34);
            out.push(101);
            out.push(34);
            out.push(44);
            out.push(34);
            let eh = crate::hexcode::hex_encode(rid.as_slice());
            push_all(&mut out, eh.as_slice());
            out.push(34);
            out.push(93);
        },
        Option::None => {},
    }
    out.push(93);
    out
}

/// Serialize the signed event. The tag list must be ASCII, as the tag
/// builder yields it.
#[verifier::rlimit(100)]
#[verifier::spinoff_prover]
fn build_event_json(
    id: &Vec<u8>,
    pk: &Vec<u8>,
    created_at: u64,
    tags: &Vec<u8>,
    content: &String,
    sig: &Vec<u8>,
) -> (r: String)
    requires
        id@.len() == 32,
        pk@.len() == 32,
        sig@.len() == 64,
        forall|i: int| 0 <= i < tags@.len() ==> tags@[i] < 128,
    ensures
        encode_utf8(r@) == event_json(
            id@,
            pk@,
            created_at as nat,
            tags@,
            encode_utf8(content@),
            sig@,
        ),
{
    let pkh = crate::hexcode::hex_encode(pk.as_slice());
    let idh = crate::hexcode::hex_encode(id.as_slice());
    let sigh = crate::hexcode::hex_encode(sig.as_slice());
    let content_bytes = vstd::string::StrSliceExecFns::as_bytes_vec(content.as_str());
    let mut head: Vec<u8> = Vec::new();
    head.push(123);
    head.push(34);
    head.push(105);
    head.push(100);
    head.push(34);
    head.push(58);
    head.push(34);
    let ghost p1 = seq![123u8, 34u8, 105u8, 100u8, 34u8, 58u8, 34u8];
    proof {
        assert(head@ =~= p1);
    }
    push_all(&mut head, idh.as_slice());
    let ghost p2 = p1 + hex_of(id@);
    head.push(34);
    head.push(44);
    head.push(34);
    head.push(112);
    head.push(117);
    head.push(98);
    head.push(107);
    head.push(101);
    head.push(121);
    head.push(34);
    head.push(58);
    head.push(34);
    let ghost p3 = p2 + seq![34u8, 44u8, 34u8, 112u8, 117u8, 98u8, 107u8, 101u8, 121u8, 34u8, 58u8, 34u8];
    proof {
        assert(head@ =~= p3);
    }
    push_all(&mut head, pkh.as_slice());
    let ghost p4 = p3 + hex_of(pk@);
    head.push(34);
    head.push(44);
    head.push(34);
    head.push(99);
    head.push(114);
    head.push(101);
    head.push(97);
    head.push(116);
    head.push(101);
    head.push(100);
    head.push(95);
    head.push(97);
    head.push(116);
    head.push(34);
    head.push(58);
    let ghost p5 = p4 + seq![34u8, 44u8, 34u8, 99u8, 114u8, 101u8, 97u8, 116u8, 101u8, 100u8, 95u8, 97u8, 116u8, 34u8, 58u8];
    proof {
        assert(head@ =~= p5);
    }
    push_dec(&mut head, created_at);
    let ghost p6 = p5 + dec_of(created_at as nat);
    head.push(44);
    head.push(34);
    head.push(107);
    head.push(105);
    head.push(110);
    head.push(100);
    head.push(34);
    head.push(58);
    head.push(52);
    head.push(44);
    head.push(34);
    head.push(116);
    head.push(97);
    head.push(103);
    head.push(115);
    head.push(34);
    head.push(58);
    let ghost p7 = p6 + seq![44u8, 34u8, 107u8, 105u8, 110u8, 100u8, 34u8, 58u8] + seq![52u8] + seq![44u8, 34u8, 116u8, 97u8, 103u8, 115u8, 34u8, 58u8];
    proof {
        assert(head@ =~= p7);
    }
    push_all(&mut head, tags.as_slice());
    let ghost p8 = p7 + tags@;
    head.push(44);
    head.push(34);
    head.push(99);
    head.push(111);
    head.push(110);
    head.push(116);
    head.push(101);
    head.push(110);
    head.push(116);
    head.push(34);
    head.push(58);
    head.push(34);
    let ghost p9 = p8 + seq![44u8, 34u8, 99u8, 111u8, 110u8, 116u8, 101u8, 110u8, 116u8, 34u8, 58u8, 34u8];
    proof {
        assert(head@ =~= p9);
        assert(dec_of(private_message_kind()) =~= seq![52u8]);
        assert(head@ =~= event_json_head(id@, pk@, created_at as nat, tags@));
    }

    let mut tail: Vec<u8> = Vec::new();
    tail.push(34);
    tail.push(44);
    tail.push(34);
    tail.push(115);
    tail.push(105);
    tail.push(103);
    tail.push(34);
    tail.push(58);
    tail.push(34);
    push_all(&mut tail, sigh.as_slice());
    tail.push(34);
    tail.push(125);
    proof {
        assert(tail@ =~= event_json_tail(sig@));
    }

    let mut ej: Vec<u8> = Vec::new();
    push_all(&mut ej, head.as_slice());
    push_all(&mut ej, content_bytes.as_slice());
    push_all(&mut ej, tail.as_slice());
    proof {
        assert(ej@ =~= head@ + encode_utf8(content@) + tail@);
        assert(ej@ =~= event_json(
            id@,
            pk@,
            created_at as nat,
            tags@,
            encode_utf8(content@),
            sig@,
        ));
        crate::hexcode::lemma_hex_of_ascii(id@);
        crate::hexcode::lemma_hex_of_ascii(pk@);
        crate::hexcode::lemma_hex_of_ascii(sig@);
        lemma_dec_of_ascii(created_at as nat);
        assert forall|i: int| 0 <= i < head@.len() implies head@[i] < 128 by {
            assert(head@[i] == event_json_head(id@, pk@, created_at as nat, tags@)[i]);
        }
        assert forall|i: int| 0 <= i < tail@.len() implies tail@[i] < 128 by {
            assert(tail@[i] == event_json_tail(sig@)[i]);
        }
        crate::util::lemma_ascii_valid_utf8(head@);
        crate::util::lemma_ascii_valid_utf8(tail@);
        vstd::utf8::encode_utf8_valid_utf8(content@);
        vstd::utf8::valid_utf8_concat(encode_utf8(content@), tail@);
        vstd::utf8::valid_utf8_concat(head@, encode_utf8(content@) + tail@);
        assert(ej@ =~= head@ + (encode_utf8(content@) + tail@));
    }
    match crate::primitives::bytes_to_string(ej) {
        Some(s) => s,
        None => {
            proof {
                assert(false);
            }
            String::new()
        },
    }
}

/// Build, encrypt, hash and sign a private-message event from the
/// sender's stored hex secret, the receiver's hex public key, the
/// plaintext, an optional hex id of a replied event, and the creation
/// time. Everything up to and including the signature is decided here;
/// publication is the caller's.
pub fn prepare_private_message(
    sender_secret_key: String,
    receiver_public_key: String,
    plaintext: String,
    reply_to: Option<String>,
    created_at: u64,
) -> (r: Result<PrivateMessageEvent, Error>)
    ensures
        r is Ok <==> (is_hex64(sender_secret_key@) && valid_secret_bytes(
            hex64_key(sender_secret_key@),
        ) && is_hex64(receiver_public_key@) && (match reply_to {
            Option::Some(t) => is_hex64(t@),
            Option::None => true,
        }) && point_on_curve(hex64_key(receiver_public_key@)) && encode_utf8(plaintext@).len()
            <= 65535),
        r matches Ok(ev) ==> {
            let sk = hex64_key(sender_secret_key@);
            let tags = tags_json(
                hex64_key(receiver_public_key@),
                match reply_to {
                    Option::Some(t) => Option::Some(hex64_key(t@)),
                    Option::None => Option::None,
                },
            );
            &&& ev.pubkey@ == public_key_of(sk)
            &&& ev.created_at == created_at
            &&& ev.receiver@ == hex64_key(receiver_public_key@)
            &&& (exists|nonce: Seq<u8>|
                nonce.len() == 32 && encode_utf8(ev.content@) == base64_encoding(
                    #[trigger] seal(
                        conversation_key_of(sk, hex64_key(receiver_public_key@)),
                        nonce,
                        encode_utf8(plaintext@),
                    ),
                ))
            &&& ev.id@ == sha256_of(
                id_preimage(
                    public_key_of(sk),
                    created_at as nat,
                    tags,
                    encode_utf8(ev.content@),
                ),
            )
            &&& ev.sig@ == schnorr_sig_of(sk, ev.id@)
            &&& encode_utf8(ev.json@) == event_json(
                ev.id@,
                public_key_of(sk),
                created_at as nat,
                tags,
                encode_utf8(ev.content@),
                ev.sig@,
            )
        },
        r matches Err(e) ==> (e == Error::InvalidKey || e == Error::Format || e
            == Error::Encryption),
{
    let sk = match decode_key(KeyKind::Secret, KeyEncoding::Hex, sender_secret_key.as_str()) {
        Ok(v) => v,
        Err(_) => {
            return Err(Error::InvalidKey);
        },
    };
    let pk = match crate::keys::recover_keypair(sk.as_slice()) {
        Ok(kp) => kp.public,
        Err(e) => {
            return Err(e);
        },
    };
    let receiver = match decode_key(
        KeyKind::Public,
        KeyEncoding::Hex,
        receiver_public_key.as_str(),
    ) {
        Ok(v) => v,
        Err(_) => {
            return Err(Error::InvalidKey);
        },
    };
    let reply: Option<Vec<u8>> = match reply_to {
        Option::Some(t) => match decode_key(KeyKind::Public, KeyEncoding::Hex, t.as_str()) {
            Ok(v) => Option::Some(v),
            Err(_) => {
                return Err(Error::Format);
            },
        },
        Option::None => Option::None,
    };
    let content = match nip44_encrypt(
        sender_secret_key.clone(),
        receiver_public_key.clone(),
        plaintext,
    ) {
        Ok(c) => c,
        Err(e) => {
            return Err(e);
        },
    };
    let tags = build_tags(&receiver, &reply);
    let content_bytes = vstd::string::StrSliceExecFns::as_bytes_vec(content.as_str());

    let mut pre: Vec<u8> = Vec::new();
    pre.push(91);
    pre.push(48);
    pre.push(44);
    pre.push(34);
    let pkh = crate::hexcode::hex_encode(pk.as_slice());
    push_all(&mut pre, pkh.as_slice());
    pre.push(34);
    pre.push(44);
    push_dec(&mut pre, created_at);
    pre.push(44);
    pre.push(52);
    pre.push(44);
    push_all(&mut pre, tags.as_slice());
    pre.push(44);
    pre.push(34);
    push_all(&mut pre, content_bytes.as_slice());
    pre.push(34);
    pre.push(93);
    proof {
        assert(dec_of(private_message_kind()) =~= seq![52u8]);
        assert(pre@ =~= id_preimage(
            pk@,
            created_at as nat,
            tags@,
            encode_utf8(content@),
        ));
    }
    let id = sha256_exec(pre.as_slice());
    let sig = match schnorr_sign(sk.as_slice(), id.as_slice()) {
        Some(v) => v,
        None => {
            proof {
                assert(false);
            }
            return Err(Error::InvalidKey);
        },
    };

    proof {
        lemma_tags_ascii(
            hex64_key(receiver_public_key@),
            match &reply {
                Option::Some(v) => Option::Some(v@),
                Option::None => Option::None,
            },
        );
    }
    let json = build_event_json(&id, &pk, created_at, &tags, &content, &sig);
    Ok(
        PrivateMessageEvent {
            id,
            pubkey: pk,
            created_at,
            receiver,
            reply_to: reply,
            content,
            sig,
            json,
        },
    )
}

} // verus!
