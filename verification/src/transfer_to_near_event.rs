use vstd::prelude::*;
use vstd::utf8::{encode_utf8, encode_utf8_valid_utf8, valid_utf8};
use crate::bytes_util::{
    append_bytes, append_zeros, be_bytes, lemma_be_bytes_len, min_be_len, pow256,
    u128_to_be_bytes, zeros,
};
use crate::hashing::{keccak256, keccak256_of};
use crate::hexcodec::{hex_bytes, hex_decode, is_lower_hex_string};
use crate::prover::EthAddress;
use crate::rlp_codec::{
    rlp_encode_list_header, rlp_encode_str, rlp_items, rlp_list_header, rlp_log_entry, rlp_str,
};
use crate::strutil::string_to_bytes;

verus! {

/// Data that the remote chain's transfer-initiation event carries: the
/// emitting contract, the remote sender (as lowercase hexadecimal), the
/// transferred amount and the raw local recipient string.
#[derive(Debug, PartialEq, Eq)]
pub struct TransferToNearInitiatedEvent {
    pub e_near_address: EthAddress,
    pub sender: String,
    pub amount: u128,
    pub recipient: String,
}

/// The number of zero bytes that pad an ABI dynamic segment of `n` bytes up
/// to a multiple of the 32-byte word size.
pub open spec fn pad_len(n: nat) -> nat {
    ((32 - n % 32) % 32) as nat
}

/// The ABI data segment of the event's two non-indexed fields: the amount
/// word, the offset word of the dynamic string, then its length word, bytes
/// and padding.
pub open spec fn abi_data(amount: u128, rb: Seq<u8>) -> Seq<u8> {
    be_bytes(amount as nat, 32) + be_bytes(64, 32) + be_bytes(rb.len(), 32) + rb + zeros(
        pad_len(rb.len()),
    )
}

/// The bytes hashed into the event's signature topic: the event name with
/// its canonical parameter type list.
pub open spec fn sig_preimage() -> Seq<u8> {
    encode_utf8("TransferToNearInitiated(address,uint256,string)"@)
}

/// The first topic of every encoded event: the Keccak-256 event signature.
pub open spec fn sig_topic() -> Seq<u8> {
    keccak256_of(sig_preimage())
}

/// The topic of the indexed sender address: its 20 bytes, left-padded with
/// zeros to a 32-byte word.
pub open spec fn sender_topic(sender: Seq<char>) -> Seq<u8> {
    zeros(12) + hex_bytes(sender)
}

/// A well-formed event: a 20-byte origin address, a 40-digit lowercase
/// hexadecimal sender, and a recipient whose byte encoding stays within a
/// machine bound.
pub open spec fn spec_event_valid(e: TransferToNearInitiatedEvent) -> bool {
    &&& e.e_near_address@.len() == 20
    &&& e.sender@.len() == 40
    &&& is_lower_hex_string(e.sender@)
    &&& encode_utf8(e.recipient@).len() <= 0x1000_0000
}

/// The canonical log-entry encoding of an event: the RLP-wrapped list of
/// origin address, topics (signature first, indexed sender second) and ABI
/// data segment.
pub open spec fn spec_log_entry_data(e: TransferToNearInitiatedEvent) -> Seq<u8> {
    rlp_log_entry(
        e.e_near_address@,
        seq![sig_topic(), sender_topic(e.sender@)],
        abi_data(e.amount, encode_utf8(e.recipient@)),
    )
}

impl TransferToNearInitiatedEvent {
    /// Encodes this event as the log entry the remote chain would emit for
    /// it: deterministic, and the inverse of `from_log_entry_data`.
    pub fn to_log_entry_data(&self) -> (r: Vec<u8>)
        requires
            spec_event_valid(*self),
        ensures
            r@ == spec_log_entry_data(*self),
    {
        let ghost rbg = encode_utf8(self.recipient@);
        // ABI data segment
        let rb = string_to_bytes(self.recipient.as_str());
        let mut dataseg = u128_to_be_bytes(self.amount, 32);
        let off = u128_to_be_bytes(64, 32);
        append_bytes(&mut dataseg, &off);
        let lenw = u128_to_be_bytes(rb.len() as u128, 32);
        append_bytes(&mut dataseg, &lenw);
        append_bytes(&mut dataseg, &rb);
        let pad = (32 - rb.len() % 32) % 32;
        append_zeros(&mut dataseg, pad);
        proof {
            assert(dataseg@ =~= abi_data(self.amount, rbg));
        }
        // topics
        let sig_pre = string_to_bytes("TransferToNearInitiated(address,uint256,string)");
        let t0 = keccak256(&sig_pre);
        let mut t1: Vec<u8> = Vec::new();
        append_zeros(&mut t1, 12);
        proof {
            assert forall|i: int| 0 <= i < self.sender@.len() implies crate::hexcodec::is_hex_digit(
                #[trigger] self.sender@[i],
            ) by {
                assert(crate::hexcodec::is_lower_hex_digit(self.sender@[i]));
            };
        }
        let sender_bytes = match hex_decode(self.sender.as_str()) {
            Some(b) => b,
            None => {
                proof {
                    assert(false);
                }
                Vec::new()
            },
        };
        append_bytes(&mut t1, &sender_bytes);
        proof {
            assert(t1@ =~= sender_topic(self.sender@));
        }
        // the topics list
        let mut topics_payload = rlp_encode_str(&t0);
        let rt1 = rlp_encode_str(&t1);
        append_bytes(&mut topics_payload, &rt1);
        proof {
            crate::rlp_codec::lemma_rlp_items_two(t0@, t1@);
            assert(topics_payload@ =~= rlp_items(seq![t0@, t1@]));
        }
        let mut topics_enc = rlp_encode_list_header(topics_payload.len());
        append_bytes(&mut topics_enc, &topics_payload);
        // the outer list
        let mut payload = rlp_encode_str(&self.e_near_address);
        append_bytes(&mut payload, &topics_enc);
        let rdata = rlp_encode_str(&dataseg);
        append_bytes(&mut payload, &rdata);
        let mut out = rlp_encode_list_header(payload.len());
        append_bytes(&mut out, &payload);
        proof {
            assert(out@ =~= spec_log_entry_data(*self));
        }
        out
    }
}

/// The structural part of a parsed log entry: the widths and positions the
/// outer headers pin down, and the two byte regions read out of the topics.
#[derive(Debug)]
struct Envelope {
    addr: Vec<u8>,
    sender_bytes: Vec<u8>,
    l1x: usize,
    l2x: usize,
    p: usize,
    dx: usize,
    ds: usize,
}

impl Envelope {
    /// The structural facts the parser established about `sb`.
    spec fn describes(&self, sb: Seq<u8>) -> bool {
        let s0 = 1 + self.l1x as int;
        &&& 1 <= self.l1x <= 5
        &&& 1 <= self.l2x <= 4
        &&& self.p == 90 + self.l2x + self.dx
        &&& self.dx >= 96
        &&& self.ds == s0 + 90 + self.l2x
        &&& sb.len() == 1 + self.l1x + self.p
        &&& sb[0] == 0xf7 + self.l1x
        &&& sb[1] != 0
        &&& crate::bytes_util::value_of_be(sb.subrange(1, s0)) == self.p
        &&& sb[s0] == 0x94
        &&& self.addr@ == sb.subrange(s0 + 1, s0 + 21)
        &&& sb[s0 + 21] == 0xf8
        &&& sb[s0 + 22] == 0x42
        &&& sb[s0 + 23] == 0xa0
        &&& sb.subrange(s0 + 24, s0 + 56) == sig_topic()
        &&& sb[s0 + 56] == 0xa0
        &&& (forall|i: int| s0 + 57 <= i < s0 + 69 ==> sb[i] == 0)
        &&& self.sender_bytes@ == sb.subrange(s0 + 69, s0 + 89)
        &&& sb[s0 + 89] == 0xb7 + self.l2x
        &&& sb[s0 + 90] != 0
        &&& crate::bytes_util::value_of_be(sb.subrange(s0 + 90, self.ds as int)) == self.dx
    }
}

/// Parses the outer list header, the address item, the topics list and the
/// data string's width field; fails exactly where no well-formed event's
/// encoding could agree with the bytes seen so far.
#[verifier::rlimit(100)]
#[verifier::spinoff_prover]
fn parse_envelope(data: &Vec<u8>, sig: &Vec<u8>) -> (r: Result<Envelope, crate::BridgeError>)
    requires
        sig@ == sig_topic(),
        sig@.len() == 32,
    ensures
        r is Ok ==> r.unwrap().describes(data@),
        r is Err ==> forall|e: TransferToNearInitiatedEvent|
            !(spec_event_valid(e) && data@ == spec_log_entry_data(e)),
        r is Err ==> r.unwrap_err() == crate::BridgeError::CodecError,
{
    let n = data.len();
    // the outer list header
    if n < 2 || data[0] < 0xf8 || data[0] > 0xfc || data[1] == 0 {
        proof {
            assert forall|e: TransferToNearInitiatedEvent| !(spec_event_valid(e) && data@
                == spec_log_entry_data(e)) by {
                if spec_event_valid(e) && data@ == spec_log_entry_data(e) {
                    lemma_parse_unique(e);
                }
            };
        }
        return Err(crate::BridgeError::CodecError);
    }
    let l1x: usize = (data[0] - 0xf7) as usize;
    if n < 1 + l1x {
        proof {
            assert forall|e: TransferToNearInitiatedEvent| !(spec_event_valid(e) && data@
                == spec_log_entry_data(e)) by {
                if spec_event_valid(e) && data@ == spec_log_entry_data(e) {
                    lemma_parse_unique(e);
                }
            };
        }
        return Err(crate::BridgeError::CodecError);
    }
    let p64 = crate::bytes_util::read_be_u64(data, 1, l1x);
    if p64 != ((n - 1 - l1x) as u64) || p64 < 187 {
        proof {
            assert forall|e: TransferToNearInitiatedEvent| !(spec_event_valid(e) && data@
                == spec_log_entry_data(e)) by {
                if spec_event_valid(e) && data@ == spec_log_entry_data(e) {
                    lemma_parse_unique(e);
                }
            };
        }
        return Err(crate::BridgeError::CodecError);
    }
    let p: usize = n - 1 - l1x;
    let s0: usize = 1 + l1x;
    // the fixed bytes of the three payload items
    if data[s0] != 0x94 || data[s0 + 21] != 0xf8 || data[s0 + 22] != 0x42 || data[s0 + 23] != 0xa0
        || data[s0 + 56] != 0xa0 || data[s0 + 89] < 0xb8 || data[s0 + 89] > 0xbb || data[s0 + 90]
        == 0 || !crate::bytes_util::check_zeros(data, s0 + 57, s0 + 69) {
        proof {
            assert forall|e: TransferToNearInitiatedEvent| !(spec_event_valid(e) && data@
                == spec_log_entry_data(e)) by {
                if spec_event_valid(e) && data@ == spec_log_entry_data(e) {
                    lemma_parse_unique(e);
                }
            };
        }
        return Err(crate::BridgeError::CodecError);
    }
    let addr = crate::bytes_util::vec_slice(data, s0 + 1, s0 + 21);
    let t0x = crate::bytes_util::vec_slice(data, s0 + 24, s0 + 56);
    if !crate::bytes_util::bytes_eq(&t0x, sig) {
        proof {
            assert forall|e: TransferToNearInitiatedEvent| !(spec_event_valid(e) && data@
                == spec_log_entry_data(e)) by {
                if spec_event_valid(e) && data@ == spec_log_entry_data(e) {
                    lemma_parse_unique(e);
                }
            };
        }
        return Err(crate::BridgeError::CodecError);
    }
    let sender_bytes = crate::bytes_util::vec_slice(data, s0 + 69, s0 + 89);
    // the data string's width field
    let l2x: usize = (data[s0 + 89] - 0xb7) as usize;
    let d64 = crate::bytes_util::read_be_u64(data, s0 + 90, l2x);
    let dx: usize = p - 90 - l2x;
    let ds: usize = s0 + 90 + l2x;
    if d64 != (dx as u64) || dx < 96 {
        proof {
            assert forall|e: TransferToNearInitiatedEvent| !(spec_event_valid(e) && data@
                == spec_log_entry_data(e)) by {
                if spec_event_valid(e) && data@ == spec_log_entry_data(e) {
                    lemma_parse_unique(e);
                }
            };
        }
        return Err(crate::BridgeError::CodecError);
    }
    Ok(Envelope { addr, sender_bytes, l1x, l2x, p, dx, ds })
}

impl TransferToNearInitiatedEvent {
    /// Decodes a log entry: the inverse of `to_log_entry_data`. It succeeds
    /// exactly on the canonical encoding of a well-formed event and returns
    /// that event — so decoding what `to_log_entry_data` produced gives the
    /// original back; everything else is a `CodecError`, and nothing is
    /// mutated either way.
    #[verifier::rlimit(100)]
    #[verifier::spinoff_prover]
    pub fn from_log_entry_data(data: &Vec<u8>) -> (r: Result<
        TransferToNearInitiatedEvent,
        crate::BridgeError,
    >)
        ensures
            r is Ok ==> spec_event_valid(r.unwrap()) && data@ == spec_log_entry_data(r.unwrap()),
            forall|e: TransferToNearInitiatedEvent|
                spec_event_valid(e) && data@ == spec_log_entry_data(e) ==> r is Ok
                    && r.unwrap().e_near_address@ == e.e_near_address@ && r.unwrap().sender@
                    == e.sender@ && r.unwrap().amount == e.amount && r.unwrap().recipient@
                    == e.recipient@,
            r is Err ==> r.unwrap_err() == crate::BridgeError::CodecError,
    {
        let sig_pre = string_to_bytes("TransferToNearInitiated(address,uint256,string)");
        let sig = keccak256(&sig_pre);
        let env = match parse_envelope(data, &sig) {
            Ok(env) => env,
            Err(err) => {
                return Err(err);
            },
        };
        let n = data.len();
        let ds = env.ds;
        let dx = env.dx;
        proof {
            assert(ds + dx == n);
        }
        // the ABI words: amount, string offset, string length
        if !crate::bytes_util::check_zeros(data, ds, ds + 16) || !crate::bytes_util::check_zeros(
            data,
            ds + 32,
            ds + 63,
        ) || data[ds + 63] != 64 || !crate::bytes_util::check_zeros(data, ds + 64, ds + 88) {
            proof {
                assert forall|e: TransferToNearInitiatedEvent| !(spec_event_valid(e) && data@
                    == spec_log_entry_data(e)) by {
                    if spec_event_valid(e) && data@ == spec_log_entry_data(e) {
                        lemma_parse_unique(e);
                    }
                };
            }
            return Err(crate::BridgeError::CodecError);
        }
        let amount = crate::bytes_util::read_be_u128_16(data, ds + 16);
        let k64 = crate::bytes_util::read_be_u64(data, ds + 88, 8);
        if k64 > 0x1000_0000 {
            proof {
                assert forall|e: TransferToNearInitiatedEvent| !(spec_event_valid(e) && data@
                    == spec_log_entry_data(e)) by {
                    if spec_event_valid(e) && data@ == spec_log_entry_data(e) {
                        lemma_parse_unique(e);
                    }
                };
            }
            return Err(crate::BridgeError::CodecError);
        }
        let kx: usize = k64 as usize;
        let padx: usize = (32 - kx % 32) % 32;
        if 96 + kx + padx != dx || !crate::bytes_util::check_zeros(data, ds + 96 + kx, n) {
            proof {
                assert forall|e: TransferToNearInitiatedEvent| !(spec_event_valid(e) && data@
                    == spec_log_entry_data(e)) by {
                    if spec_event_valid(e) && data@ == spec_log_entry_data(e) {
                        lemma_parse_unique(e);
                    }
                };
            }
            return Err(crate::BridgeError::CodecError);
        }
        let rb = crate::bytes_util::vec_slice(data, ds + 96, ds + 96 + kx);
        let recipient = match crate::strutil::bytes_to_string(rb) {
            Some(s) => s,
            None => {
                proof {
                    assert forall|e: TransferToNearInitiatedEvent| !(spec_event_valid(e) && data@
                        == spec_log_entry_data(e)) by {
                        if spec_event_valid(e) && data@ == spec_log_entry_data(e) {
                            lemma_parse_unique(e);
                        }
                    };
                }
                return Err(crate::BridgeError::CodecError);
            },
        };
        let sender = crate::hexcodec::hex_encode(&env.sender_bytes);
        let result = TransferToNearInitiatedEvent {
            e_near_address: env.addr,
            sender,
            amount,
            recipient,
        };
        proof {
            lemma_decode_sound(
                data@,
                env.l1x as nat,
                env.l2x as nat,
                kx as nat,
                env.p as nat,
                dx as nat,
                amount,
                result.e_near_address@,
                env.sender_bytes@,
                encode_utf8(result.recipient@),
                result.sender@,
                result.recipient@,
            );
            assert(spec_log_entry_data(result) == data@);
            assert(spec_event_valid(result));
            assert forall|e: TransferToNearInitiatedEvent|
                spec_event_valid(e) && data@ == spec_log_entry_data(e)
                    implies result.e_near_address@ == e.e_near_address@ && result.sender@
                    == e.sender@ && result.amount == e.amount && result.recipient@
                    == e.recipient@ by {
                lemma_parse_unique(e);
                crate::hexcodec::lemma_lower_hex_roundtrip(e.sender@);
                vstd::utf8::encode_utf8_decode_utf8(result.recipient@);
                vstd::utf8::encode_utf8_decode_utf8(e.recipient@);
            };
        }
        Ok(result)
    }
}

impl TransferToNearInitiatedEvent {
    /// A one-line description of the event, in the form
    /// `sender: ...; amount: ...; recipient: ...`.
    pub fn display_string(&self) -> (r: String)
        ensures
            r@ == "sender: "@ + self.sender@ + "; amount: "@ + crate::strutil::dec_str_of(
                self.amount as nat,
            ) + "; recipient: "@ + self.recipient@,
    {
        let mut out = <String as vstd::string::StringExecFns>::from_str("sender: ");
        vstd::string::StringExecFns::append(&mut out, self.sender.as_str());
        vstd::string::StringExecFns::append(&mut out, "; amount: ");
        let amount = crate::strutil::u128_to_decimal(self.amount);
        vstd::string::StringExecFns::append(&mut out, amount.as_str());
        vstd::string::StringExecFns::append(&mut out, "; recipient: ");
        vstd::string::StringExecFns::append(&mut out, self.recipient.as_str());
        out
    }
}


/// Round trip, spec side: the canonical encoding pins the event. Two
/// well-formed events with the same log entry agree on every field, so the
/// decoder — whose contract returns the fields of any event that encodes
/// to its input — can only return the event that was encoded. The digest
/// width hypothesis holds of Keccak-256 and is established wherever the
/// digest is computed.
pub proof fn lemma_log_entry_data_injective(
    e1: TransferToNearInitiatedEvent,
    e2: TransferToNearInitiatedEvent,
)
    requires
        sig_topic().len() == 32,
        spec_event_valid(e1),
        spec_event_valid(e2),
        spec_log_entry_data(e1) == spec_log_entry_data(e2),
    ensures
        e1.e_near_address@ == e2.e_near_address@,
        e1.sender@ == e2.sender@,
        e1.amount == e2.amount,
        e1.recipient@ == e2.recipient@,
{
    lemma_parse_unique(e1);
    lemma_parse_unique(e2);
    let ev = spec_log_entry_data(e1);
    let rb1 = encode_utf8(e1.recipient@);
    let rb2 = encode_utf8(e2.recipient@);
    let d1 = abi_data(e1.amount, rb1).len();
    let d2 = abi_data(e2.amount, rb2).len();
    let l21 = min_be_len(d1);
    let l22 = min_be_len(d2);
    let l11 = min_be_len((90 + l21 + d1) as nat);
    let l12 = min_be_len((90 + l22 + d2) as nat);
    // the first byte pins the outer width, the length pins the payload,
    // the data header byte pins the inner width, and its value the rest
    assert(l11 == l12) by {
        assert(ev[0] == 0xf7 + l11 && ev[0] == 0xf7 + l12);
    };
    let s0 = 1 + l11 as int;
    assert(l21 == l22) by {
        assert(ev[s0 + 89] == 0xb7 + l21 && ev[s0 + 89] == 0xb7 + l22);
    };
    assert(d1 == d2);
    let ds = s0 + 90 + l21 as int;
    assert(rb1.len() == rb2.len()) by {
        assert(crate::bytes_util::value_of_be(ev.subrange(ds + 88, ds + 96)) == rb1.len());
        assert(crate::bytes_util::value_of_be(ev.subrange(ds + 88, ds + 96)) == rb2.len());
    };
    assert(e1.e_near_address@ == e2.e_near_address@) by {
        assert(ev.subrange(s0 + 1, s0 + 21) == e1.e_near_address@);
        assert(ev.subrange(s0 + 1, s0 + 21) == e2.e_near_address@);
    };
    assert(e1.amount == e2.amount) by {
        assert(crate::bytes_util::value_of_be(ev.subrange(ds + 16, ds + 32)) == e1.amount);
        assert(crate::bytes_util::value_of_be(ev.subrange(ds + 16, ds + 32)) == e2.amount);
    };
    assert(e1.sender@ == e2.sender@) by {
        assert(hex_bytes(e1.sender@) == ev.subrange(s0 + 69, s0 + 89));
        assert(hex_bytes(e2.sender@) == ev.subrange(s0 + 69, s0 + 89));
        crate::hexcodec::lemma_lower_hex_roundtrip(e1.sender@);
        crate::hexcodec::lemma_lower_hex_roundtrip(e2.sender@);
    };
    assert(e1.recipient@ == e2.recipient@) by {
        assert(rb1 =~= ev.subrange(ds + 96, ds + 96 + rb1.len() as int));
        assert(rb2 =~= ev.subrange(ds + 96, ds + 96 + rb2.len() as int));
        vstd::utf8::encode_utf8_decode_utf8(e1.recipient@);
        vstd::utf8::encode_utf8_decode_utf8(e2.recipient@);
    };
}

/// Whether some well-formed event encodes to `data`.
pub open spec fn spec_decodable(data: Seq<u8>) -> bool {
    exists|e: TransferToNearInitiatedEvent|
        spec_event_valid(e) && data == spec_log_entry_data(e)
}

/// The log-entry encoding written out flat, for parsing: the outer header,
/// then each region at its fixed offset from the payload start.
pub open spec fn flat_log_entry(addr: Seq<u8>, t0: Seq<u8>, t1: Seq<u8>, dataseg: Seq<u8>) -> Seq<
    u8,
> {
    let d = dataseg.len();
    let l2 = min_be_len(d);
    let p = (90 + l2 + d) as nat;
    let l1 = min_be_len(p);
    seq![(0xf7 + l1) as u8] + be_bytes(p, l1) + seq![0x94u8] + addr + seq![0xf8u8, 0x42u8]
        + seq![0xa0u8] + t0 + seq![0xa0u8] + t1 + seq![(0xb7 + l2) as u8] + be_bytes(d, l2)
        + dataseg
}

/// The RLP log-entry encoding of a two-topic event equals its flat form.
pub proof fn lemma_log_entry_flat(addr: Seq<u8>, t0: Seq<u8>, t1: Seq<u8>, dataseg: Seq<u8>)
    requires
        addr.len() == 20,
        t0.len() == 32,
        t1.len() == 32,
        55 < dataseg.len() <= 0xFFFF_FFFF,
    ensures
        rlp_log_entry(addr, seq![t0, t1], dataseg) == flat_log_entry(addr, t0, t1, dataseg),
{
    let d = dataseg.len();
    let l2 = min_be_len(d);
    let p = (90 + l2 + d) as nat;
    let l1 = min_be_len(p);
    crate::rlp_codec::lemma_rlp_items_two(t0, t1);
    assert(rlp_str(t0) =~= seq![0xa0u8] + t0);
    assert(rlp_str(t1) =~= seq![0xa0u8] + t1);
    let items = rlp_items(seq![t0, t1]);
    assert(items.len() == 66);
    assert(rlp_list_header(66) =~= seq![0xf8u8, 0x42u8]) by {
        assert(min_be_len(66) == 1);
        assert(be_bytes(0, 0) =~= Seq::<u8>::empty());
        assert(be_bytes(66, 1) =~= seq![0x42u8]);
    };
    assert(rlp_str(addr) =~= seq![0x94u8] + addr);
    assert(rlp_str(dataseg) == seq![(0xb7 + l2) as u8] + be_bytes(d, l2) + dataseg);
    crate::bytes_util::lemma_be_bytes_len(d, l2);
    let payload = rlp_str(addr) + (rlp_list_header(items.len()) + items) + rlp_str(dataseg);
    assert(payload.len() == 21 + 68 + 1 + l2 + d);
    assert(p > 55);
    assert(rlp_list_header(p) == seq![(0xf7 + l1) as u8] + be_bytes(p, l1));
    crate::bytes_util::lemma_be_bytes_len(p, l1);
    assert(rlp_log_entry(addr, seq![t0, t1], dataseg) =~= flat_log_entry(addr, t0, t1, dataseg));
}

/// Bounds on the width fields of a flat log entry in the supported range.
pub proof fn lemma_flat_widths(dataseg_len: nat)
    requires
        55 < dataseg_len <= 0xFFFF_FFFF,
    ensures
        1 <= min_be_len(dataseg_len) <= 4,
        1 <= min_be_len((90 + min_be_len(dataseg_len) + dataseg_len) as nat) <= 5,
        90 + min_be_len(dataseg_len) + dataseg_len > 55,
    decreases dataseg_len,
{
    let l2 = min_be_len(dataseg_len);
    crate::bytes_util::lemma_min_be_len_bounds(dataseg_len);
    reveal_with_fuel(crate::bytes_util::pow256, 7);
    if l2 > 4 {
        crate::bytes_util::lemma_pow256_increases(4, (l2 - 1) as nat);
    }
    let p = (90 + l2 + dataseg_len) as nat;
    let l1 = min_be_len(p);
    crate::bytes_util::lemma_min_be_len_bounds(p);
    if l1 > 5 {
        crate::bytes_util::lemma_pow256_increases(5, (l1 - 1) as nat);
    }
}

/// Every region of a flat log entry, at its offset.
pub proof fn lemma_flat_parts(addr: Seq<u8>, t0: Seq<u8>, t1: Seq<u8>, dataseg: Seq<u8>)
    requires
        addr.len() == 20,
        t0.len() == 32,
        t1.len() == 32,
        55 < dataseg.len() <= 0xFFFF_FFFF,
    ensures
        ({
            let f = flat_log_entry(addr, t0, t1, dataseg);
            let d = dataseg.len();
            let l2 = min_be_len(d);
            let p = (90 + l2 + d) as nat;
            let l1 = min_be_len(p);
            let s0 = 1 + l1 as int;
            &&& 1 <= l1 <= 5
            &&& 1 <= l2 <= 4
            &&& p > 55
            &&& f.len() == 1 + l1 + p
            &&& f[0] == 0xf7 + l1
            &&& f.subrange(1, s0) == be_bytes(p, l1)
            &&& f[1] != 0
            &&& crate::bytes_util::value_of_be(f.subrange(1, s0)) == p
            &&& f[s0] == 0x94
            &&& f.subrange(s0 + 1, s0 + 21) == addr
            &&& f[s0 + 21] == 0xf8
            &&& f[s0 + 22] == 0x42
            &&& f[s0 + 23] == 0xa0
            &&& f.subrange(s0 + 24, s0 + 56) == t0
            &&& f[s0 + 56] == 0xa0
            &&& f.subrange(s0 + 57, s0 + 89) == t1
            &&& f[s0 + 89] == 0xb7 + l2
            &&& f.subrange(s0 + 90, s0 + 90 + l2 as int) == be_bytes(d, l2)
            &&& f[s0 + 90] != 0
            &&& crate::bytes_util::value_of_be(f.subrange(s0 + 90, s0 + 90 + l2 as int)) == d
            &&& f.subrange(s0 + 90 + l2 as int, f.len() as int) == dataseg
        }),
{
    let f = flat_log_entry(addr, t0, t1, dataseg);
    let d = dataseg.len();
    let l2 = min_be_len(d);
    let p = (90 + l2 + d) as nat;
    let l1 = min_be_len(p);
    let s0 = 1 + l1 as int;
    lemma_flat_widths(d);
    crate::bytes_util::lemma_be_bytes_len(p, l1);
    crate::bytes_util::lemma_be_bytes_len(d, l2);
    crate::bytes_util::lemma_min_be_len_bounds(p);
    crate::bytes_util::lemma_min_be_len_bounds(d);
    crate::bytes_util::lemma_min_be_first_nonzero(p);
    crate::bytes_util::lemma_min_be_first_nonzero(d);
    crate::bytes_util::lemma_value_of_be_bytes(p, l1);
    crate::bytes_util::lemma_value_of_be_bytes(d, l2);
    assert(f.len() == 1 + l1 + p);
    assert(f.subrange(1, s0) =~= be_bytes(p, l1));
    assert(f.subrange(s0 + 1, s0 + 21) =~= addr);
    assert(f.subrange(s0 + 24, s0 + 56) =~= t0);
    assert(f.subrange(s0 + 57, s0 + 89) =~= t1);
    assert(f.subrange(s0 + 90, s0 + 90 + l2 as int) =~= be_bytes(d, l2));
    assert(f.subrange(s0 + 90 + l2 as int, f.len() as int) =~= dataseg);
}

/// Every region of an ABI data segment, at its offset.
pub proof fn lemma_abi_parts(amount: u128, rb: Seq<u8>)
    requires
        rb.len() <= 0x1000_0000,
    ensures
        ({
            let a = abi_data(amount, rb);
            &&& a.len() == 96 + rb.len() + pad_len(rb.len())
            &&& pad_len(rb.len()) < 32
            &&& a.subrange(0, 32) == be_bytes(amount as nat, 32)
            &&& forall|i: int| 0 <= i < 16 ==> a[i] == 0
            &&& crate::bytes_util::value_of_be(a.subrange(16, 32)) == amount
            &&& a.subrange(32, 64) == be_bytes(64, 32)
            &&& forall|i: int| 32 <= i < 63 ==> a[i] == 0
            &&& a[63] == 64
            &&& a.subrange(64, 96) == be_bytes(rb.len(), 32)
            &&& forall|i: int| 64 <= i < 88 ==> a[i] == 0
            &&& crate::bytes_util::value_of_be(a.subrange(88, 96)) == rb.len()
            &&& a.subrange(96, 96 + rb.len() as int) == rb
            &&& forall|i: int| 96 + rb.len() <= i < a.len() ==> a[i] == 0
        }),
{
    let a = abi_data(amount, rb);
    crate::bytes_util::lemma_be_bytes_len(amount as nat, 32);
    crate::bytes_util::lemma_be_bytes_len(64, 32);
    crate::bytes_util::lemma_be_bytes_len(rb.len(), 32);
    assert(a.len() == 96 + rb.len() + pad_len(rb.len()));
    assert(a.subrange(0, 32) =~= be_bytes(amount as nat, 32));
    assert(a.subrange(32, 64) =~= be_bytes(64, 32));
    assert(a.subrange(64, 96) =~= be_bytes(rb.len(), 32));
    assert(a.subrange(96, 96 + rb.len() as int) =~= rb);
    // the amount word: sixteen leading zeros, then the value
    crate::bytes_util::lemma_pow256_u128();
    crate::bytes_util::lemma_be_bytes_leading_zeros(amount as nat, 32, 16);
    assert(be_bytes(amount as nat, 32).subrange(16, 32) == be_bytes(amount as nat, 16));
    assert(a.subrange(16, 32) =~= be_bytes(amount as nat, 32).subrange(16, 32));
    crate::bytes_util::lemma_value_of_be_bytes(amount as nat, 16);
    // the offset word: a constant 64 in the last byte
    assert(64 < crate::bytes_util::pow256(1)) by {
        reveal_with_fuel(crate::bytes_util::pow256, 3);
    };
    crate::bytes_util::lemma_be_bytes_leading_zeros(64, 32, 1);
    assert(be_bytes(64, 32).subrange(31, 32) == be_bytes(64, 1));
    assert(be_bytes(64nat, 1nat) =~= seq![64u8]) by {
        assert(be_bytes(0nat, 0nat) =~= Seq::<u8>::empty());
    };
    assert(a[63] == be_bytes(64, 32)[31]);
    // the length word: twenty-four leading zeros, then the value
    crate::bytes_util::lemma_pow256_u64();
    crate::bytes_util::lemma_pow256_increases(8, 16);
    crate::bytes_util::lemma_be_bytes_leading_zeros(rb.len(), 32, 8);
    assert(be_bytes(rb.len(), 32).subrange(24, 32) == be_bytes(rb.len(), 8));
    assert(a.subrange(88, 96) =~= be_bytes(rb.len(), 32).subrange(24, 32));
    crate::bytes_util::lemma_value_of_be_bytes(rb.len(), 8);
}

/// What an encoded valid event forces on every byte of its log entry: each
/// region sits at the offset the width fields dictate. Parsing rests on
/// this: an input that disagrees anywhere encodes no valid event.
#[verifier::rlimit(100)]
#[verifier::spinoff_prover]
pub proof fn lemma_parse_unique(e: TransferToNearInitiatedEvent)
    requires
        spec_event_valid(e),
        sig_topic().len() == 32,
    ensures
        ({
            let rb = encode_utf8(e.recipient@);
            let a = abi_data(e.amount, rb);
            let d = a.len();
            let l2 = min_be_len(d);
            let p = (90 + l2 + d) as nat;
            let l1 = min_be_len(p);
            let s0 = 1 + l1 as int;
            let ds = s0 + 90 + l2 as int;
            let ev = spec_log_entry_data(e);
            &&& 1 <= l1 <= 5
            &&& 1 <= l2 <= 4
            &&& d == 96 + rb.len() + pad_len(rb.len())
            &&& 96 <= d <= 0xFFFF_FFFF
            &&& rb.len() <= 0x1000_0000
            &&& p == 90 + l2 + d
            &&& ev.len() == 1 + l1 + p
            &&& ev[0] == 0xf7 + l1
            &&& ev[1] != 0
            &&& crate::bytes_util::value_of_be(ev.subrange(1, s0)) == p
            &&& ev[s0] == 0x94
            &&& ev.subrange(s0 + 1, s0 + 21) == e.e_near_address@
            &&& ev[s0 + 21] == 0xf8
            &&& ev[s0 + 22] == 0x42
            &&& ev[s0 + 23] == 0xa0
            &&& ev.subrange(s0 + 24, s0 + 56) == sig_topic()
            &&& ev[s0 + 56] == 0xa0
            &&& (forall|i: int| s0 + 57 <= i < s0 + 69 ==> ev[i] == 0)
            &&& ev.subrange(s0 + 69, s0 + 89) == hex_bytes(e.sender@)
            &&& ev[s0 + 89] == 0xb7 + l2
            &&& ev[s0 + 90] != 0
            &&& crate::bytes_util::value_of_be(ev.subrange(s0 + 90, ds)) == d
            &&& (forall|i: int| ds <= i < ds + 16 ==> ev[i] == 0)
            &&& crate::bytes_util::value_of_be(ev.subrange(ds + 16, ds + 32)) == e.amount
            &&& (forall|i: int| ds + 32 <= i < ds + 63 ==> ev[i] == 0)
            &&& ev[ds + 63] == 64
            &&& (forall|i: int| ds + 64 <= i < ds + 88 ==> ev[i] == 0)
            &&& crate::bytes_util::value_of_be(ev.subrange(ds + 88, ds + 96)) == rb.len()
            &&& ev.subrange(ds + 96, ds + 96 + rb.len()) == rb
            &&& (forall|i: int| ds + 96 + rb.len() <= i < ev.len() ==> ev[i] == 0)
            &&& valid_utf8(rb)
        }),
{
    let rb = encode_utf8(e.recipient@);
    let t1 = sender_topic(e.sender@);
    let a = abi_data(e.amount, rb);
    let d = a.len();
    let l2 = min_be_len(d);
    let p = (90 + l2 + d) as nat;
    let l1 = min_be_len(p);
    let s0 = 1 + l1 as int;
    let ds = s0 + 90 + l2 as int;
    let ev = spec_log_entry_data(e);
    assert(hex_bytes(e.sender@).len() == 20);
    assert(t1.len() == 32);
    lemma_abi_parts(e.amount, rb);
    lemma_flat_widths(d);
    lemma_log_entry_flat(e.e_near_address@, sig_topic(), t1, a);
    lemma_flat_parts(e.e_near_address@, sig_topic(), t1, a);
    encode_utf8_valid_utf8(e.recipient@);
    // relocate the topic regions
    assert(ev.subrange(s0 + 57, s0 + 89) == t1);
    assert forall|i: int| s0 + 57 <= i < s0 + 69 implies ev[i] == 0 by {
        assert(ev[i] == t1[i - (s0 + 57)]);
    };
    assert(ev.subrange(s0 + 69, s0 + 89) =~= hex_bytes(e.sender@)) by {
        assert forall|i: int| 0 <= i < 20 implies ev.subrange(s0 + 69, s0 + 89)[i] == hex_bytes(
            e.sender@,
        )[i] by {
            assert(ev[s0 + 69 + i] == t1[12 + i]);
        };
    };
    // relocate the ABI regions
    assert(ev.subrange(ds, ev.len() as int) == a);
    assert forall|i: int| ds <= i < ds + 16 implies ev[i] == 0 by {
        assert(ev[i] == a[i - ds]);
    };
    assert(ev.subrange(ds + 16, ds + 32) =~= a.subrange(16, 32));
    assert forall|i: int| ds + 32 <= i < ds + 63 implies ev[i] == 0 by {
        assert(ev[i] == a[i - ds]);
    };
    assert(ev[ds + 63] == a[63]);
    assert forall|i: int| ds + 64 <= i < ds + 88 implies ev[i] == 0 by {
        assert(ev[i] == a[i - ds]);
    };
    assert(ev.subrange(ds + 88, ds + 96) =~= a.subrange(88, 96));
    assert(ev.subrange(ds + 96, ds + 96 + rb.len()) =~= a.subrange(96, 96 + rb.len() as int));
    assert forall|i: int| ds + 96 + rb.len() <= i < ev.len() implies ev[i] == 0 by {
        assert(ev[i] == a[i - ds]);
    };
}


/// When every structural check of the parser holds of `sb`, it is exactly
/// the canonical log-entry encoding of the parsed parts.
#[verifier::rlimit(100)]
#[verifier::spinoff_prover]
pub proof fn lemma_decode_sound(
    sb: Seq<u8>,
    l1x: nat,
    l2x: nat,
    kx: nat,
    p: nat,
    dx: nat,
    amount: u128,
    addrv: Seq<u8>,
    senv: Seq<u8>,
    rbv: Seq<u8>,
    sender_chars: Seq<char>,
    rec_chars: Seq<char>,
)
    requires
        sig_topic().len() == 32,
        1 <= l1x <= 5,
        1 <= l2x <= 4,
        kx <= 0x1000_0000,
        dx == 96 + kx + pad_len(kx),
        p == 90 + l2x + dx,
        sb.len() == 1 + l1x + p,
        sb[0] == 0xf7 + l1x,
        sb[1] != 0,
        crate::bytes_util::value_of_be(sb.subrange(1, 1 + l1x as int)) == p,
        sb[1 + l1x as int] == 0x94,
        addrv == sb.subrange(2 + l1x as int, 22 + l1x as int),
        sb[22 + l1x as int] == 0xf8,
        sb[23 + l1x as int] == 0x42,
        sb[24 + l1x as int] == 0xa0,
        sb.subrange(25 + l1x as int, 57 + l1x as int) == sig_topic(),
        sb[57 + l1x as int] == 0xa0,
        forall|i: int| 58 + l1x <= i < 70 + l1x ==> sb[i] == 0,
        senv == sb.subrange(70 + l1x as int, 90 + l1x as int),
        sb[90 + l1x as int] == 0xb7 + l2x,
        sb[91 + l1x as int] != 0,
        crate::bytes_util::value_of_be(sb.subrange(91 + l1x as int, 91 + l1x as int + l2x as int))
            == dx,
        ({
            let ds = 91 + l1x as int + l2x as int;
            &&& (forall|i: int| ds <= i < ds + 16 ==> sb[i] == 0)
            &&& crate::bytes_util::value_of_be(sb.subrange(ds + 16, ds + 32)) == amount
            &&& (forall|i: int| ds + 32 <= i < ds + 63 ==> sb[i] == 0)
            &&& sb[ds + 63] == 64
            &&& (forall|i: int| ds + 64 <= i < ds + 88 ==> sb[i] == 0)
            &&& crate::bytes_util::value_of_be(sb.subrange(ds + 88, ds + 96)) == kx
            &&& rbv == sb.subrange(ds + 96, ds + 96 + kx as int)
            &&& (forall|i: int| ds + 96 + kx <= i < sb.len() ==> sb[i] == 0)
        }),
        sender_chars == crate::hexcodec::hex_str_of(senv),
        encode_utf8(rec_chars) == rbv,
    ensures
        addrv.len() == 20,
        sender_chars.len() == 40,
        is_lower_hex_string(sender_chars),
        rbv.len() <= 0x1000_0000,
        sb == rlp_log_entry(
            addrv,
            seq![sig_topic(), sender_topic(sender_chars)],
            abi_data(amount, rbv),
        ),
{
    let s0 = 1 + l1x as int;
    let ds = s0 + 90 + l2x as int;
    let n = sb.len() as int;
    crate::bytes_util::lemma_be_bytes_len(amount as nat, 32);
    crate::bytes_util::lemma_be_bytes_len(amount as nat, 16);
    crate::bytes_util::lemma_be_bytes_len(64, 32);
    crate::bytes_util::lemma_be_bytes_len(kx, 32);
    crate::bytes_util::lemma_be_bytes_len(kx, 8);
    // the amount word is the canonical encoding of the read value
    let w16 = sb.subrange(ds + 16, ds + 32);
    crate::bytes_util::lemma_be_bytes_of_value(w16);
    crate::bytes_util::lemma_pow256_u128();
    crate::bytes_util::lemma_be_bytes_leading_zeros(amount as nat, 32, 16);
    assert forall|i: int| 0 <= i < 32 implies sb.subrange(ds, ds + 32)[i] == be_bytes(
        amount as nat,
        32,
    )[i] by {
        if i < 16 {
            assert(sb[ds + i] == 0);
        } else {
            assert(be_bytes(amount as nat, 32)[i] == be_bytes(amount as nat, 32).subrange(
                16,
                32,
            )[i - 16]);
            assert(w16[i - 16] == sb[ds + i]);
        }
    };
    assert(sb.subrange(ds, ds + 32) =~= be_bytes(amount as nat, 32));
    // the offset word is the constant 64
    assert(64 < pow256(1)) by {
        reveal_with_fuel(pow256, 3);
    };
    crate::bytes_util::lemma_be_bytes_leading_zeros(64, 32, 1);
    assert(be_bytes(64nat, 1nat) =~= seq![64u8]) by {
        assert(be_bytes(0nat, 0nat) =~= Seq::<u8>::empty());
    };
    assert forall|i: int| 0 <= i < 32 implies sb.subrange(ds + 32, ds + 64)[i] == be_bytes(
        64,
        32,
    )[i] by {
        if i < 31 {
            assert(sb[ds + 32 + i] == 0);
        } else {
            assert(be_bytes(64, 32)[i] == be_bytes(64, 32).subrange(31, 32)[i - 31]);
            assert(sb.subrange(ds + 32, ds + 64)[i] == sb[ds + 63]);
        }
    };
    assert(sb.subrange(ds + 32, ds + 64) =~= be_bytes(64, 32));
    // the length word is the canonical encoding of the string length
    let w8 = sb.subrange(ds + 88, ds + 96);
    crate::bytes_util::lemma_be_bytes_of_value(w8);
    crate::bytes_util::lemma_pow256_u64();
    crate::bytes_util::lemma_pow256_increases(8, 16);
    crate::bytes_util::lemma_be_bytes_leading_zeros(kx, 32, 8);
    assert forall|i: int| 0 <= i < 32 implies sb.subrange(ds + 64, ds + 96)[i] == be_bytes(
        kx,
        32,
    )[i] by {
        if i < 24 {
            assert(sb[ds + 64 + i] == 0);
        } else {
            assert(be_bytes(kx, 32)[i] == be_bytes(kx, 32).subrange(24, 32)[i - 24]);
            assert(w8[i - 24] == sb[ds + 88 + (i - 24)]);
        }
    };
    assert(sb.subrange(ds + 64, ds + 96) =~= be_bytes(kx, 32));
    // the data segment is the abi segment of (amount, recipient bytes)
    let aseg = abi_data(amount, rbv);
    crate::bytes_util::lemma_be_bytes_len(amount as nat, 32);
    crate::bytes_util::lemma_be_bytes_len(64, 32);
    crate::bytes_util::lemma_be_bytes_len(kx, 32);
    assert(aseg.len() == dx);
    assert forall|i: int| 0 <= i < dx implies sb.subrange(ds, n)[i] == aseg[i] by {
        assert(sb.subrange(ds, n)[i] == sb[ds + i]);
        if i < 32 {
            assert(aseg[i] == be_bytes(amount as nat, 32)[i]);
            assert(sb.subrange(ds, ds + 32)[i] == sb[ds + i]);
        } else if i < 64 {
            assert(aseg[i] == be_bytes(64, 32)[i - 32]);
            assert(sb.subrange(ds + 32, ds + 64)[i - 32] == sb[ds + i]);
        } else if i < 96 {
            assert(aseg[i] == be_bytes(kx, 32)[i - 64]);
            assert(sb.subrange(ds + 64, ds + 96)[i - 64] == sb[ds + i]);
        } else if i < 96 + kx {
            assert(aseg[i] == rbv[i - 96]);
            assert(rbv[i - 96] == sb[ds + 96 + (i - 96)]);
        } else {
            assert(aseg[i] == 0);
            assert(sb[ds + i] == 0);
        }
    };
    assert(sb.subrange(ds, n) =~= aseg);
    // both width fields are canonical, so they pin the widths
    let w1 = sb.subrange(1, s0);
    crate::bytes_util::lemma_be_bytes_of_value(w1);
    crate::bytes_util::lemma_value_of_be_first_byte(w1);
    assert(w1[0] * pow256((l1x - 1) as nat) >= pow256((l1x - 1) as nat)) by (nonlinear_arith)
        requires w1[0] >= 1, pow256((l1x - 1) as nat) >= 0;
    crate::bytes_util::lemma_min_be_len_of_range(p, l1x);
    let w2 = sb.subrange(s0 + 90, ds);
    crate::bytes_util::lemma_be_bytes_of_value(w2);
    crate::bytes_util::lemma_value_of_be_first_byte(w2);
    assert(w2[0] * pow256((l2x - 1) as nat) >= pow256((l2x - 1) as nat)) by (nonlinear_arith)
        requires w2[0] >= 1, pow256((l2x - 1) as nat) >= 0;
    crate::bytes_util::lemma_min_be_len_of_range(dx, l2x);
    // the sender topic re-assembles from its zeros and address bytes
    crate::hexcodec::lemma_hex_str_of_spells(senv);
    let t1v = sender_topic(sender_chars);
    assert forall|i: int| 0 <= i < 32 implies t1v[i] == sb.subrange(s0 + 57, s0 + 89)[i] by {
        assert(sb.subrange(s0 + 57, s0 + 89)[i] == sb[s0 + 57 + i]);
        if i < 12 {
            assert(sb[s0 + 57 + i] == 0);
        } else {
            assert(t1v[i] == senv[i - 12]);
            assert(senv[i - 12] == sb[s0 + 69 + (i - 12)]);
        }
    };
    assert(t1v =~= sb.subrange(s0 + 57, s0 + 89));
    // the whole input is the flat encoding of the parsed parts
    let f = flat_log_entry(addrv, sig_topic(), t1v, aseg);
    crate::bytes_util::lemma_be_bytes_len(p, l1x);
    crate::bytes_util::lemma_be_bytes_len(dx, l2x);
    assert forall|i: int| 0 <= i < sb.len() implies sb[i] == f[i] by {
        if 1 <= i < s0 {
            assert(w1[i - 1] == sb[i]);
        } else if s0 + 1 <= i < s0 + 21 {
            assert(addrv[i - (s0 + 1)] == sb[i]);
        } else if s0 + 24 <= i < s0 + 56 {
            assert(sig_topic()[i - (s0 + 24)] == sb.subrange(s0 + 24, s0 + 56)[i - (s0 + 24)]);
            assert(sb.subrange(s0 + 24, s0 + 56)[i - (s0 + 24)] == sb[i]);
        } else if s0 + 57 <= i < s0 + 89 {
            assert(t1v[i - (s0 + 57)] == sb.subrange(s0 + 57, s0 + 89)[i - (s0 + 57)]);
            assert(sb.subrange(s0 + 57, s0 + 89)[i - (s0 + 57)] == sb[i]);
        } else if s0 + 90 <= i < ds {
            assert(w2[i - (s0 + 90)] == sb[i]);
        } else if ds <= i {
            assert(aseg[i - ds] == sb.subrange(ds, n)[i - ds]);
            assert(sb.subrange(ds, n)[i - ds] == sb[i]);
        }
    };
    assert(sb =~= f);
    lemma_log_entry_flat(addrv, sig_topic(), t1v, aseg);
}

} // verus!
