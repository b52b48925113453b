use vstd::prelude::*;
use vstd::string::StringSliceAdditionalSpecFns;
use vstd::utf8::{
    encode_utf8, encode_utf8_valid_utf8, is_char_boundary, length_of_first_scalar,
    pop_first_scalar, valid_utf8_split,
};
use crate::bytes_util::le_bytes;
use crate::hashing::{keccak256, keccak256_of};
use crate::hexcodec::{hex_bytes, hex_decode, is_hex_string};

verus! {

/// A remote-chain address: exactly 20 bytes.
pub type EthAddress = Vec<u8>;

/// True exactly when `address` spells 20 bytes of hexadecimal (either case).
pub fn is_valid_eth_address(address: String) -> (r: bool)
    ensures
        r == (is_hex_string(address@) && address@.len() == 40),
{
    match hex_decode(address.as_str()) {
        Some(bytes) => bytes.len() == 20,
        None => false,
    }
}

/// The 20 bytes a valid 40-digit hexadecimal address string spells.
pub fn get_eth_address(address: String) -> (r: EthAddress)
    requires
        is_hex_string(address@),
        address@.len() == 40,
    ensures
        r@ == hex_bytes(address@),
        r@.len() == 20,
{
    match hex_decode(address.as_str()) {
        Some(bytes) => bytes,
        None => {
            proof {
                assert(false);
            }
            Vec::new()
        },
    }
}

/// A transfer-evidence bundle: the position of a log within a remote-chain
/// block, the raw log, and the trie-inclusion proof anchoring it.
#[derive(Debug)]
pub struct Proof {
    pub log_index: u64,
    pub log_entry_data: Vec<u8>,
    pub receipt_index: u64,
    pub receipt_data: Vec<u8>,
    pub header_data: Vec<u8>,
    pub proof: Vec<Vec<u8>>,
}

/// The replay identity of a proof: a digest of its positional fields and the
/// header bytes, with the index fields in fixed-width little-endian form.
/// The payload fields are deliberately excluded: the identity ties a proof
/// to a log slot in a block, not to the bytes that describe it.
pub open spec fn spec_proof_key(log_index: u64, receipt_index: u64, header_data: Seq<u8>) -> Seq<u8> {
    keccak256_of(le_bytes(log_index as nat, 8) + le_bytes(receipt_index as nat, 8) + header_data)
}

impl Proof {
    pub open spec fn spec_key(&self) -> Seq<u8> {
        spec_proof_key(self.log_index, self.receipt_index, self.header_data@)
    }

    /// Derives the replay identity of this proof.
    pub fn get_key(&self) -> (r: Vec<u8>)
        ensures
            r@ == self.spec_key(),
            r@.len() == 32,
    {
        let mut data = crate::bytes_util::u64_to_le_bytes(self.log_index, 8);
        let ri = crate::bytes_util::u64_to_le_bytes(self.receipt_index, 8);
        crate::bytes_util::append_bytes(&mut data, &ri);
        crate::bytes_util::append_bytes(&mut data, &self.header_data);
        keccak256(&data)
    }
}

/// Two proofs with the same position fields and header bytes share their
/// replay identity, whatever their payload fields hold.
pub proof fn lemma_key_ignores_payload(p1: Proof, p2: Proof)
    requires
        p1.log_index == p2.log_index,
        p1.receipt_index == p2.receipt_index,
        p1.header_data@ == p2.header_data@,
    ensures
        p1.spec_key() == p2.spec_key(),
{
}

/// A local-chain account identifier in byte form: 2 to 64 characters, each a
/// lowercase letter, digit, `-`, `_` or `.`, with no separator first, last,
/// or doubled.
pub open spec fn is_account_byte(b: u8) -> bool {
    (97 <= b <= 122) || (48 <= b <= 57) || b == 45 || b == 95 || b == 46
}

pub open spec fn is_account_separator(b: u8) -> bool {
    b == 45 || b == 95 || b == 46
}

pub open spec fn is_valid_account_id(b: Seq<u8>) -> bool {
    &&& 2 <= b.len() <= 64
    &&& forall|i: int| 0 <= i < b.len() ==> is_account_byte(#[trigger] b[i])
    &&& !is_account_separator(b[0])
    &&& !is_account_separator(b[b.len() - 1])
    &&& forall|i: int|
        0 <= i < b.len() - 1 ==> !(is_account_separator(#[trigger] b[i]) && is_account_separator(
            b[i + 1],
        ))
}

/// Checks the account-identifier grammar on the bytes of `s`.
pub fn is_valid_account_id_str(s: &str) -> (r: bool)
    ensures
        r == is_valid_account_id(s.spec_bytes()),
{
    let b = s.as_bytes();
    let n = b.len();
    if n < 2 || n > 64 {
        return false;
    }
    let mut i: usize = 0;
    let mut last_sep: bool = true;
    while i < n
        invariant
            0 <= i <= n,
            n == b@.len(),
            b@ == s.spec_bytes(),
            2 <= n <= 64,
            forall|j: int| 0 <= j < i ==> is_account_byte(#[trigger] b@[j]),
            i > 0 ==> !is_account_separator(b@[0]),
            forall|j: int|
                0 <= j < i - 1 ==> !(is_account_separator(#[trigger] b@[j])
                    && is_account_separator(b@[j + 1])),
            i > 0 ==> last_sep == is_account_separator(b@[i - 1]),
            i == 0 ==> last_sep,
        decreases n - i,
    {
        let c = b[i];
        let ok = (97 <= c && c <= 122) || (48 <= c && c <= 57) || c == 45 || c == 95 || c == 46;
        if !ok {
            return false;
        }
        let sep = c == 45 || c == 95 || c == 46;
        if sep && last_sep {
            return false;
        }
        last_sep = sep;
        i = i + 1;
    }
    if last_sep {
        return false;
    }
    true
}

/// A parsed recipient: the account to pay, and, where the raw string held a
/// `:`-separated remainder, the message to forward with the payment.
#[derive(Debug, PartialEq, Eq)]
pub struct Recipient {
    pub target: String,
    pub message: Option<String>,
}

/// The index of the first `:` byte, or the length when there is none.
pub open spec fn first_colon(b: Seq<u8>) -> int
    decreases b.len(),
{
    if b.len() == 0 {
        0
    } else if b[0] == 58 {
        0
    } else {
        1 + first_colon(b.drop_first())
    }
}

pub proof fn lemma_first_colon(b: Seq<u8>)
    ensures
        0 <= first_colon(b) <= b.len(),
        first_colon(b) < b.len() ==> b[first_colon(b)] == 58,
        forall|j: int| 0 <= j < first_colon(b) ==> b[j] != 58,
    decreases b.len(),
{
    if b.len() > 0 && b[0] != 58 {
        lemma_first_colon(b.drop_first());
        assert forall|j: int| 0 <= j < first_colon(b) implies b[j] != 58 by {
            if j > 0 {
                assert(b.drop_first()[j - 1] == b[j]);
            }
        };
    }
}

/// The target part of a raw recipient: the bytes before the first `:`, or
/// all of them when there is none.
pub open spec fn spec_target_bytes(b: Seq<u8>) -> Seq<u8> {
    b.subrange(0, first_colon(b))
}

/// The message part of a raw recipient: the bytes after the first `:`, when
/// there is one. A trailing `:` yields an empty message, not none.
pub open spec fn spec_message_bytes(b: Seq<u8>) -> Option<Seq<u8>> {
    if first_colon(b) == b.len() {
        None
    } else {
        Some(b.subrange(first_colon(b) + 1, b.len() as int))
    }
}

/// Splits a raw recipient string on its first `:` and validates the target
/// against the account-identifier grammar; no value comes back otherwise.
pub fn parse_recipient(recipient: &str) -> (r: Option<Recipient>)
    ensures
        r is Some <==> is_valid_account_id(spec_target_bytes(recipient.spec_bytes())),
        r is Some ==> {
            let rec = r.unwrap();
            &&& encode_utf8(rec.target@) == spec_target_bytes(recipient.spec_bytes())
            &&& match rec.message {
                Some(m) => spec_message_bytes(recipient.spec_bytes()) == Some(encode_utf8(m@)),
                None => spec_message_bytes(recipient.spec_bytes()) is None,
            }
        },
{
    let b = recipient.as_bytes();
    let n = b.len();
    let ghost sb = recipient.spec_bytes();
    proof {
        lemma_first_colon(sb);
    }
    let mut i: usize = 0;
    while i < n && b[i] != 58
        invariant
            0 <= i <= n,
            n == sb.len(),
            b@ == sb,
            forall|j: int| 0 <= j < i ==> sb[j] != 58,
        decreases n - i,
    {
        i = i + 1;
    }
    proof {
        // i is exactly the first colon position
        if i < n {
            assert(sb[i as int] == 58);
        }
        assert(first_colon(sb) == i) by {
            if first_colon(sb) < i {
                assert(sb[first_colon(sb)] == 58);
            }
            if first_colon(sb) > i {
                assert(i < sb.len());
            }
        };
    }
    if i == n {
        // no message part
        if is_valid_account_id_str(recipient) {
            proof {
                assert(spec_target_bytes(sb) =~= sb);
            }
            Some(Recipient { target: recipient.to_owned(), message: None })
        } else {
            proof {
                assert(spec_target_bytes(sb) =~= sb);
            }
            None
        }
    } else {
        proof {
            encode_utf8_valid_utf8(recipient@);
            vstd::utf8::is_char_boundary_iff_not_is_continuation_byte(sb, i as int);
        }
        let (target_str, rest) = recipient.split_at(i);
        proof {
            valid_utf8_split(sb, i as int);
            let second = sb.subrange(i as int, sb.len() as int);
            assert(rest.spec_bytes() == second);
            assert(second[0] == 58);
            assert(length_of_first_scalar(second) == 1);
            assert(is_char_boundary(second, 1)) by {
                assert(is_char_boundary(pop_first_scalar(second), 0));
            };
        }
        let (_colon, message_str) = rest.split_at(1);
        if is_valid_account_id_str(target_str) {
            proof {
                assert(message_str.spec_bytes() =~= sb.subrange(i + 1, sb.len() as int));
                assert(target_str.spec_bytes() == spec_target_bytes(sb));
            }
            Some(
                Recipient {
                    target: target_str.to_owned(),
                    message: Some(message_str.to_owned()),
                },
            )
        } else {
            None
        }
    }
}

} // verus!
