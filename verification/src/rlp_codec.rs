use vstd::prelude::*;
use crate::bytes_util::{
    append_bytes, be_bytes, lemma_be_bytes_len, lemma_min_be_len_bounds, min_be_len,
    usize_to_min_be_bytes,
};

verus! {

/// The RLP encoding of a byte string: the bytes themselves for a single
/// byte below 0x80, a one-byte header for up to 55 bytes, and a
/// length-of-length header beyond that.
pub open spec fn rlp_str(payload: Seq<u8>) -> Seq<u8> {
    if payload.len() == 1 && payload[0] < 0x80 {
        payload
    } else if payload.len() <= 55 {
        seq![(0x80 + payload.len()) as u8] + payload
    } else {
        seq![(0xb7 + min_be_len(payload.len())) as u8] + be_bytes(
            payload.len(),
            min_be_len(payload.len()),
        ) + payload
    }
}

/// The RLP header of a list whose item encodings together are
/// `payload_len` bytes long.
pub open spec fn rlp_list_header(payload_len: nat) -> Seq<u8> {
    if payload_len <= 55 {
        seq![(0xc0 + payload_len) as u8]
    } else {
        seq![(0xf7 + min_be_len(payload_len)) as u8] + be_bytes(payload_len, min_be_len(payload_len))
    }
}

/// The concatenated RLP encodings of a list of byte strings.
pub open spec fn rlp_items(items: Seq<Seq<u8>>) -> Seq<u8>
    decreases items.len(),
{
    if items.len() == 0 {
        Seq::empty()
    } else {
        rlp_str(items[0]) + rlp_items(items.drop_first())
    }
}

/// The RLP encoding of a log entry: a list holding the logging contract's
/// address, the list of topics, and the data segment.
pub open spec fn rlp_log_entry(addr: Seq<u8>, topics: Seq<Seq<u8>>, data: Seq<u8>) -> Seq<u8> {
    let topics_enc = rlp_list_header(rlp_items(topics).len()) + rlp_items(topics);
    let payload = rlp_str(addr) + topics_enc + rlp_str(data);
    rlp_list_header(payload.len()) + payload
}

/// The item encoding of a two-string list, unfolded.
pub proof fn lemma_rlp_items_two(t0: Seq<u8>, t1: Seq<u8>)
    ensures
        rlp_items(seq![t0, t1]) == rlp_str(t0) + rlp_str(t1),
{
    let ts = seq![t0, t1];
    let ts1 = seq![t1];
    assert(ts.drop_first() =~= ts1);
    assert(ts1.drop_first() =~= Seq::<Seq<u8>>::empty());
    assert(rlp_items(Seq::<Seq<u8>>::empty()) =~= Seq::<u8>::empty());
    assert(rlp_items(ts1) == rlp_str(t1) + rlp_items(ts1.drop_first()));
    assert(rlp_items(ts1) =~= rlp_str(t1));
    assert(rlp_items(ts) == rlp_str(t0) + rlp_items(ts.drop_first()));
    assert(rlp_items(ts) =~= rlp_str(t0) + rlp_str(t1));
}

/// Encodes one byte string in RLP.
pub fn rlp_encode_str(payload: &Vec<u8>) -> (r: Vec<u8>)
    ensures
        r@ == rlp_str(payload@),
{
    if payload.len() == 1 && payload[0] < 0x80 {
        let mut r: Vec<u8> = Vec::new();
        r.push(payload[0]);
        proof {
            assert(r@ =~= rlp_str(payload@));
        }
        r
    } else if payload.len() <= 55 {
        let mut r: Vec<u8> = Vec::new();
        r.push(0x80 + payload.len() as u8);
        append_bytes(&mut r, payload);
        proof {
            assert(r@ =~= rlp_str(payload@));
        }
        r
    } else {
        let len_bytes = usize_to_min_be_bytes(payload.len());
        proof {
            lemma_min_be_len_usize(payload.len());
        }
        let mut r: Vec<u8> = Vec::new();
        r.push(0xb7 + len_bytes.len() as u8);
        append_bytes(&mut r, &len_bytes);
        append_bytes(&mut r, payload);
        proof {
            assert(r@ =~= rlp_str(payload@));
        }
        r
    }
}

/// `usize` values fit in eight big-endian bytes.
pub proof fn lemma_pow256_64()
    ensures
        crate::bytes_util::pow256(8) == 0x1_0000_0000_0000_0000,
{
    reveal_with_fuel(crate::bytes_util::pow256, 10);
}

/// A `usize` length needs at most eight big-endian bytes.
pub proof fn lemma_min_be_len_usize(v: usize)
    ensures
        1 <= min_be_len(v as nat) <= 8,
{
    lemma_min_be_len_bounds(v as nat);
    lemma_pow256_64();
    if min_be_len(v as nat) > 8 {
        assert(v > 0) by {
            reveal_with_fuel(min_be_len, 2);
        };
        assert(crate::bytes_util::pow256(8) <= crate::bytes_util::pow256(
            (min_be_len(v as nat) - 1) as nat,
        )) by {
            crate::bytes_util::lemma_pow256_increases(8, (min_be_len(v as nat) - 1) as nat);
        };
    }
}

/// Encodes the header of an RLP list with `payload_len` bytes of content.
pub fn rlp_encode_list_header(payload_len: usize) -> (r: Vec<u8>)
    ensures
        r@ == rlp_list_header(payload_len as nat),
{
    if payload_len <= 55 {
        let mut r: Vec<u8> = Vec::new();
        r.push(0xc0 + payload_len as u8);
        proof {
            assert(r@ =~= rlp_list_header(payload_len as nat));
        }
        r
    } else {
        let len_bytes = usize_to_min_be_bytes(payload_len);
        proof {
            lemma_min_be_len_usize(payload_len);
        }
        let mut r: Vec<u8> = Vec::new();
        r.push(0xf7 + len_bytes.len() as u8);
        append_bytes(&mut r, &len_bytes);
        proof {
            assert(r@ =~= rlp_list_header(payload_len as nat));
        }
        r
    }
}

} // verus!
