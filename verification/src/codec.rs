//! The snapshot serializer: a self-contained, whole-map encoding of one
//! shard's state, written wholesale on every flush and read back on
//! recovery. Values are tagged; strings carry their UTF-8 byte length,
//! integers a sign byte and a magnitude, and dictionaries an entry count.

use vstd::bytes::{spec_u64_from_le_bytes, spec_u64_to_le_bytes, u64_from_le_bytes, u64_to_le_bytes};
use vstd::prelude::*;
use vstd::slice::slice_subrange;
use vstd::utf8::{decode_utf8, encode_utf8, valid_utf8};

use crate::mem_store::MemoryStoreSingleThreaded;
use crate::store::{blob_val, dict_val, Blob, BlobVal, Store};

verus! {

/// Encoding of a signed integer: a sign byte, then the magnitude.
pub open spec fn spec_enc_int(i: int) -> Seq<u8> {
    if i >= 0 {
        seq![0u8] + spec_u64_to_le_bytes(i as u64)
    } else {
        seq![1u8] + spec_u64_to_le_bytes((-i) as u64)
    }
}

/// Encoding of a string: its UTF-8 byte length, then the bytes themselves.
pub open spec fn spec_enc_str(s: Seq<char>) -> Seq<u8> {
    spec_u64_to_le_bytes(encode_utf8(s).len() as u64) + encode_utf8(s)
}

/// Encoding of a value.
pub open spec fn spec_enc_blob(b: Blob) -> Seq<u8>
    decreases b,
{
    match b {
        Blob::Null => seq![0u8],
        Blob::Str(s) => seq![1u8] + spec_enc_str(s@),
        Blob::Int(i) => seq![2u8] + spec_enc_int(i as int),
        Blob::Dict(entries) => seq![3u8] + spec_u64_to_le_bytes(entries@.len() as u64)
            + spec_enc_entries(entries@),
    }
}

/// Encoding of an entry list: each key, then its value, in order.
pub open spec fn spec_enc_entries(es: Seq<(String, Blob)>) -> Seq<u8>
    decreases es,
{
    if es.len() == 0 {
        Seq::<u8>::empty()
    } else {
        spec_enc_entries(es.drop_last()) + spec_enc_str(es.last().0@)
            + spec_enc_blob(es.last().1)
    }
}

/// Encoding of a whole-map snapshot: the entry count, then the entries.
pub open spec fn spec_enc_snapshot(es: Seq<(String, Blob)>) -> Seq<u8> {
    spec_u64_to_le_bytes(es.len() as u64) + spec_enc_entries(es)
}

/// Appends the little-endian encoding of `x`.
fn enc_u64(out: &mut Vec<u8>, x: u64)
    ensures
        final(out)@ == old(out)@ + spec_u64_to_le_bytes(x),
{
    let mut b = u64_to_le_bytes(x);
    out.append(&mut b);
}

/// Appends the encoding of a string.
fn enc_str(out: &mut Vec<u8>, s: &str)
    ensures
        final(out)@ == old(out)@ + spec_enc_str(s@),
        encode_utf8(s@).len() <= u64::MAX,
{
    let bytes = s.as_bytes();
    enc_u64(out, bytes.len() as u64);
    out.extend_from_slice(bytes);
    proof {
        assert(out@ =~= old(out)@ + spec_enc_str(s@));
    }
}

/// Appends the encoding of a value.
fn enc_blob(out: &mut Vec<u8>, b: &Blob)
    ensures
        final(out)@ == old(out)@ + spec_enc_blob(*b),
        blob_bounded(*b),
    decreases *b,
{
    match b {
        Blob::Null => {
            out.push(0u8);
            proof {
                assert(out@ =~= old(out)@ + spec_enc_blob(*b));
            }
        },
        Blob::Str(s) => {
            out.push(1u8);
            enc_str(out, s.as_str());
            proof {
                assert(out@ =~= old(out)@ + spec_enc_blob(*b));
            }
        },
        Blob::Int(i) => {
            out.push(2u8);
            if *i >= 0 {
                out.push(0u8);
                enc_u64(out, *i as u64);
            } else {
                out.push(1u8);
                let mag: u64 = ((-(*i + 1)) as u64) + 1;
                proof {
                    assert(mag == -(*i as int));
                }
                enc_u64(out, mag);
            }
            proof {
                assert(out@ =~= old(out)@ + spec_enc_blob(*b));
            }
        },
        Blob::Dict(entries) => {
            out.push(3u8);
            enc_u64(out, entries.len() as u64);
            enc_entries(out, entries);
            proof {
                assert(out@ =~= old(out)@ + spec_enc_blob(*b));
            }
        },
    }
}

/// Appends the encoding of an entry list.
fn enc_entries(out: &mut Vec<u8>, entries: &Vec<(String, Blob)>)
    ensures
        final(out)@ == old(out)@ + spec_enc_entries(entries@),
        entries_bounded(entries@),
    decreases entries@,
{
    let mut i: usize = 0;
    proof {
        assert(entries@.take(0) =~= Seq::<(String, Blob)>::empty());
        assert(out@ =~= out@ + spec_enc_entries(entries@.take(0)));
    }
    while i < entries.len()
        invariant
            i <= entries@.len(),
            out@ == old(out)@ + spec_enc_entries(entries@.take(i as int)),
            entries_bounded(entries@.take(i as int)),
        decreases entries@.len() - i,
    {
        proof {
            assert(entries@.take(i + 1).drop_last() =~= entries@.take(i as int));
            assert(entries@.take(i + 1).last() == entries@[i as int]);
        }
        enc_str(out, entries[i].0.as_str());
        enc_blob(out, &entries[i].1);
        proof {
            lemma_entries_bounded_push(entries@.take(i as int), entries@[i as int]);
            assert(entries@.take(i as int).push(entries@[i as int]) =~= entries@.take(i + 1));
        }
        i = i + 1;
        proof {
            assert(out@ =~= old(out)@ + spec_enc_entries(entries@.take(i as int)));
        }
    }
    proof {
        assert(entries@.take(entries@.len() as int) =~= entries@);
    }
}

/// Encodes a whole-map snapshot of a shard's state.
pub fn encode_snapshot(state: &MemoryStoreSingleThreaded) -> (r: Vec<u8>)
    requires
        state.inv(),
    ensures
        r@ == spec_snapshot_of(*state),
        snapshot_bounded(*state),
{
    let entries = state.entry_list();
    let mut out: Vec<u8> = Vec::new();
    enc_u64(&mut out, entries.len() as u64);
    enc_entries(&mut out, entries);
    proof {
        assert(out@ =~= spec_enc_snapshot(entries@));
    }
    out
}

/// The snapshot bytes of a shard state: the encoding of its entry list.
pub open spec fn spec_snapshot_of(state: MemoryStoreSingleThreaded) -> Seq<u8> {
    spec_enc_snapshot(state.entries_spec())
}

/// Abstract keys and values of an entry list, in entry order.
pub open spec fn pairs_of(es: Seq<(String, Blob)>) -> Seq<(Seq<char>, BlobVal)> {
    es.map_values(|e: (String, Blob)| (e.0@, blob_val(e.1)))
}

/// The map described by abstract entry pairs: later pairs override earlier
/// ones, exactly as [`dict_val`] treats concrete entries.
pub open spec fn pairs_val(ps: Seq<(Seq<char>, BlobVal)>) -> Map<Seq<char>, BlobVal>
    decreases ps,
{
    if ps.len() == 0 {
        Map::empty()
    } else {
        pairs_val(ps.drop_last()).insert(ps.last().0, ps.last().1)
    }
}

/// The two ways of reading off an entry list's map agree.
pub proof fn lemma_dict_val_is_pairs_val(es: Seq<(String, Blob)>)
    ensures
        pairs_val(pairs_of(es)) == dict_val(es),
    decreases es.len(),
{
    if es.len() > 0 {
        lemma_dict_val_is_pairs_val(es.drop_last());
        assert(pairs_of(es).drop_last() =~= pairs_of(es.drop_last()));
        assert(pairs_of(es).last() == (es.last().0@, blob_val(es.last().1)));
    }
}

/// Decoding of a length-prefixed little-endian integer: the first eight
/// bytes, when there are that many.
pub open spec fn spec_dec_u64(bytes: Seq<u8>) -> Option<(u64, Seq<u8>)> {
    if bytes.len() >= 8 {
        Some((spec_u64_from_le_bytes(bytes.take(8)), bytes.skip(8)))
    } else {
        None
    }
}

/// Decoding of a string: a byte length, then that many bytes of valid UTF-8.
pub open spec fn spec_dec_chars(bytes: Seq<u8>) -> Option<(Seq<char>, Seq<u8>)> {
    match spec_dec_u64(bytes) {
        Some((klen, rest)) => {
            if rest.len() >= klen && valid_utf8(rest.take(klen as int)) {
                Some((decode_utf8(rest.take(klen as int)), rest.skip(klen as int)))
            } else {
                None
            }
        },
        None => None,
    }
}

/// Decoding of a sign byte and a magnitude into a machine-sized integer.
pub open spec fn spec_dec_int(sign: u8, mag: u64) -> Option<int> {
    if sign == 0 {
        if mag <= isize::MAX as u64 {
            Some(mag as int)
        } else {
            None
        }
    } else if sign == 1 {
        if 1 <= mag && mag - 1 <= isize::MAX as u64 {
            Some(-((mag - 1) as int) - 1)
        } else {
            None
        }
    } else {
        None
    }
}

/// Decoding of one tagged value; yields its abstract value and the bytes
/// that follow it.
pub open spec fn spec_dec_blob(bytes: Seq<u8>) -> Option<(BlobVal, Seq<u8>)>
    decreases bytes.len(), 1int, 0int,
{
    if bytes.len() == 0 {
        None
    } else {
        let tag = bytes[0];
        let rest = bytes.skip(1);
        if tag == 0 {
            Some((BlobVal::Null, rest))
        } else if tag == 1 {
            match spec_dec_chars(rest) {
                Some((s, r2)) => Some((BlobVal::Str(s), r2)),
                None => None,
            }
        } else if tag == 2 {
            if rest.len() >= 9 {
                match spec_dec_int(rest[0], spec_u64_from_le_bytes(rest.skip(1).take(8))) {
                    Some(v) => Some((BlobVal::Int(v), rest.skip(9))),
                    None => None,
                }
            } else {
                None
            }
        } else if tag == 3 {
            if rest.len() >= 8 {
                match spec_dec_pairs(rest.skip(8), spec_u64_from_le_bytes(rest.take(8)) as nat) {
                    Some((ps, r2)) => Some((BlobVal::Dict(pairs_val(ps)), r2)),
                    None => None,
                }
            } else {
                None
            }
        } else {
            None
        }
    }
}

/// Decoding of `count` key/value pairs; yields the abstract pairs in order
/// and the bytes that follow them. The length tests on the intermediate
/// rests always hold of real decodings, since every field consumes at least
/// one byte; they keep the recursion visibly bounded.
pub open spec fn spec_dec_pairs(bytes: Seq<u8>, count: nat) -> Option<
    (Seq<(Seq<char>, BlobVal)>, Seq<u8>),
>
    decreases bytes.len(), 0int, count,
{
    if count == 0 {
        Some((Seq::<(Seq<char>, BlobVal)>::empty(), bytes))
    } else {
        match spec_dec_chars(bytes) {
            Some((k, r1)) => {
                if r1.len() < bytes.len() {
                    match spec_dec_blob(r1) {
                        Some((v, r2)) => {
                            if r2.len() < bytes.len() {
                                match spec_dec_pairs(r2, (count - 1) as nat) {
                                    Some((ps, r3)) => Some(
                                        (seq![(k, v)] + ps, r3),
                                    ),
                                    None => None,
                                }
                            } else {
                                None
                            }
                        },
                        None => None,
                    }
                } else {
                    None
                }
            },
            None => None,
        }
    }
}

/// Relies on `std::str::from_utf8`: it succeeds exactly on valid UTF-8 and
/// yields the characters that the bytes encode.
#[verifier::external_body]
fn bytes_to_string(bytes: &[u8]) -> (r: Option<String>)
    ensures
        r matches Some(s) ==> valid_utf8(bytes@) && s@ == decode_utf8(bytes@),
        r is None ==> !valid_utf8(bytes@),
{
    match std::str::from_utf8(bytes) {
        Ok(s) => Some(s.to_owned()),
        Err(_) => None,
    }
}

/// Reads a little-endian integer at `pos`.
fn dec_u64(bytes: &Vec<u8>, pos: usize) -> (r: Option<(u64, usize)>)
    requires
        pos <= bytes@.len(),
    ensures
        r matches Some((x, end)) ==> end == pos + 8 && bytes@.len() >= end
            && spec_dec_u64(bytes@.skip(pos as int)) == Some((x, bytes@.skip(end as int))),
        r is None ==> spec_dec_u64(bytes@.skip(pos as int)) is None,
{
    if bytes.len() - pos >= 8 {
        let s = slice_subrange(bytes.as_slice(), pos, pos + 8);
        let x = u64_from_le_bytes(s);
        proof {
            assert(bytes@.skip(pos as int).take(8) =~= bytes@.subrange(
                pos as int,
                pos + 8,
            ));
            assert(bytes@.skip(pos as int).skip(8) =~= bytes@.skip(pos + 8));
        }
        Some((x, pos + 8))
    } else {
        None
    }
}

/// Reads a length-prefixed string at `pos`.
fn dec_chars(bytes: &Vec<u8>, pos: usize) -> (r: Option<(String, usize)>)
    requires
        pos <= bytes@.len(),
    ensures
        r matches Some((s, end)) ==> pos + 8 <= end <= bytes@.len()
            && spec_dec_chars(bytes@.skip(pos as int)) == Some((s@, bytes@.skip(end as int))),
        r is None ==> spec_dec_chars(bytes@.skip(pos as int)) is None,
{
    match dec_u64(bytes, pos) {
        Some((klen, mid)) => {
            if klen <= (bytes.len() - mid) as u64 {
                let klen_usize = klen as usize;
                let seg = slice_subrange(bytes.as_slice(), mid, mid + klen_usize);
                proof {
                    assert(seg@ =~= bytes@.skip(mid as int).take(klen as int));
                }
                match bytes_to_string(seg) {
                    Some(s) => {
                        proof {
                            assert(bytes@.skip(mid as int).skip(klen as int) =~= bytes@.skip(
                                mid + klen_usize,
                            ));
                        }
                        Some((s, mid + klen_usize))
                    },
                    None => None,
                }
            } else {
                None
            }
        },
        None => None,
    }
}

/// Reads one tagged value at `pos`, building the concrete value whose
/// abstract value the bytes describe.
fn dec_blob(bytes: &Vec<u8>, pos: usize) -> (r: Option<(Blob, usize)>)
    requires
        pos <= bytes@.len(),
    ensures
        r matches Some((b, end)) ==> pos < end <= bytes@.len()
            && spec_dec_blob(bytes@.skip(pos as int)) == Some((blob_val(b), bytes@.skip(end as int))),
        r is None ==> spec_dec_blob(bytes@.skip(pos as int)) is None,
    decreases bytes@.len() - pos, 0int,
{
    if pos >= bytes.len() {
        return None;
    }
    let tag = bytes[pos];
    proof {
        assert(bytes@.skip(pos as int)[0] == bytes@[pos as int]);
        assert(bytes@.skip(pos as int).skip(1) =~= bytes@.skip(pos + 1));
    }
    if tag == 0 {
        Some((Blob::Null, pos + 1))
    } else if tag == 1 {
        match dec_chars(bytes, pos + 1) {
            Some((s, end)) => Some((Blob::Str(s), end)),
            None => None,
        }
    } else if tag == 2 {
        if bytes.len() - (pos + 1) >= 9 {
            let sign = bytes[pos + 1];
            let seg = slice_subrange(bytes.as_slice(), pos + 2, pos + 10);
            let mag = u64_from_le_bytes(seg);
            proof {
                assert(bytes@.skip(pos + 1)[0] == bytes@[pos + 1]);
                assert(bytes@.skip(pos + 1).skip(1).take(8) =~= bytes@.subrange(
                    pos + 2,
                    pos + 10,
                ));
                assert(bytes@.skip(pos + 1).skip(9) =~= bytes@.skip(pos + 10));
            }
            if sign == 0 {
                if mag <= isize::MAX as u64 {
                    Some((Blob::Int(mag as isize), pos + 10))
                } else {
                    None
                }
            } else if sign == 1 {
                if 1 <= mag && mag - 1 <= isize::MAX as u64 {
                    let m: isize = (mag - 1) as isize;
                    Some((Blob::Int(-m - 1), pos + 10))
                } else {
                    None
                }
            } else {
                None
            }
        } else {
            None
        }
    } else if tag == 3 {
        match dec_u64(bytes, pos + 1) {
            Some((count, mid)) => {
                proof {
                    assert(bytes@.skip(pos + 1).take(8) =~= bytes@.skip(pos as int).skip(
                        1,
                    ).take(8));
                    assert(bytes@.skip(pos + 1).skip(8) =~= bytes@.skip(mid as int));
                }
                match dec_pairs(bytes, mid, count) {
                    Some((entries, end)) => {
                        proof {
                            lemma_dict_val_is_pairs_val(entries@);
                        }
                        Some((Blob::Dict(entries), end))
                    },
                    None => None,
                }
            },
            None => None,
        }
    } else {
        None
    }
}

/// Reads `count` key/value pairs starting at `pos`, building concrete
/// entries whose abstract pairs the bytes describe.
fn dec_pairs(bytes: &Vec<u8>, pos: usize, count: u64) -> (r: Option<
    (Vec<(String, Blob)>, usize),
>)
    requires
        pos <= bytes@.len(),
    ensures
        r matches Some((es, end)) ==> pos <= end <= bytes@.len()
            && spec_dec_pairs(bytes@.skip(pos as int), count as nat) == Some(
            (pairs_of(es@), bytes@.skip(end as int)),
        ),
        r is None ==> spec_dec_pairs(bytes@.skip(pos as int), count as nat) is None,
    decreases bytes@.len() - pos, 1int,
{
    let mut out: Vec<(String, Blob)> = Vec::new();
    let mut cur: usize = pos;
    let mut i: u64 = 0;
    proof {
        assert(pairs_of(out@) =~= Seq::<(Seq<char>, BlobVal)>::empty());
    }
    while i < count
        invariant
            i <= count,
            pos <= cur <= bytes@.len(),
            out@.len() == i,
            forall|ps: Seq<(Seq<char>, BlobVal)>, rest: Seq<u8>|
                spec_dec_pairs(bytes@.skip(cur as int), (count - i) as nat) == Some::<
                    (Seq<(Seq<char>, BlobVal)>, Seq<u8>),
                >((ps, rest)) ==> spec_dec_pairs(bytes@.skip(pos as int), count as nat)
                    == Some::<(Seq<(Seq<char>, BlobVal)>, Seq<u8>)>((pairs_of(out@) + ps, rest)),
            (spec_dec_pairs(bytes@.skip(cur as int), (count - i) as nat) is None)
                ==> (spec_dec_pairs(bytes@.skip(pos as int), count as nat) is None),
        decreases count - i,
    {
        let ghost pre_pairs = pairs_of(out@);
        match dec_chars(bytes, cur) {
            Some((k, e1)) => {
                match dec_blob(bytes, e1) {
                    Some((v, e2)) => {
                        proof {
                            assert(pairs_of(out@.push((k, v))) =~= pairs_of(out@).push(
                                (k@, blob_val(v)),
                            ));
                        }
                        out.push((k, v));
                        cur = e2;
                        i = i + 1;
                        proof {
                            assert(forall|ps: Seq<(Seq<char>, BlobVal)>|
                                pre_pairs + (seq![(k@, blob_val(v))] + ps) =~= pairs_of(out@)
                                    + ps);
                        }
                    },
                    None => {
                        return None;
                    },
                }
            },
            None => {
                return None;
            },
        }
    }
    proof {
        assert(pairs_of(out@) + Seq::<(Seq<char>, BlobVal)>::empty() =~= pairs_of(out@));
    }
    Some((out, cur))
}

/// Decoding of a whole snapshot: an entry count, the entries, and nothing
/// after them.
pub open spec fn spec_dec_snapshot(bytes: Seq<u8>) -> Option<Map<Seq<char>, BlobVal>> {
    match spec_dec_u64(bytes) {
        Some((count, rest)) => {
            match spec_dec_pairs(rest, count as nat) {
                Some((ps, r2)) => {
                    if r2.len() == 0 {
                        Some(pairs_val(ps))
                    } else {
                        None
                    }
                },
                None => None,
            }
        },
        None => None,
    }
}

/// Decodes a whole-map snapshot back into a shard state. Succeeds exactly
/// when the bytes are one complete, well-formed snapshot.
pub fn decode_snapshot(bytes: &Vec<u8>) -> (r: Option<MemoryStoreSingleThreaded>)
    ensures
        r matches Some(st) ==> st.inv() && spec_dec_snapshot(bytes@) == Some(st@),
        r is None ==> spec_dec_snapshot(bytes@) is None,
{
    proof {
        assert(bytes@.skip(0) =~= bytes@);
    }
    match dec_u64(bytes, 0) {
        Some((count, mid)) => {
            match dec_pairs(bytes, mid, count) {
                Some((entries, end)) => {
                    if end == bytes.len() {
                        proof {
                            assert(bytes@.skip(end as int).len() == 0);
                            lemma_dict_val_is_pairs_val(entries@);
                        }
                        let st = MemoryStoreSingleThreaded::from_entries(entries);
                        Some(st)
                    } else {
                        None
                    }
                },
                None => None,
            }
        },
        None => None,
    }
}

/// String lengths and entry counts in `b` all fit the encoding's length
/// fields. Every value whose strings and entry lists exist in memory is
/// within these bounds.
pub open spec fn blob_bounded(b: Blob) -> bool
    decreases b,
{
    match b {
        Blob::Null => true,
        Blob::Str(s) => encode_utf8(s@).len() <= u64::MAX,
        Blob::Int(_) => true,
        Blob::Dict(es) => es@.len() <= u64::MAX && entries_bounded(es@),
    }
}

/// Every key and value of the entry list is within the encoding bounds.
pub open spec fn entries_bounded(es: Seq<(String, Blob)>) -> bool
    decreases es,
{
    if es.len() == 0 {
        true
    } else {
        encode_utf8(es.first().0@).len() <= u64::MAX && blob_bounded(es.first().1)
            && entries_bounded(es.drop_first())
    }
}

/// A shard state whose entry list is within the encoding bounds.
pub open spec fn snapshot_bounded(state: MemoryStoreSingleThreaded) -> bool {
    state.entries_spec().len() <= u64::MAX && entries_bounded(state.entries_spec())
}

/// Appending an in-bounds entry keeps an entry list within bounds.
pub proof fn lemma_entries_bounded_push(es: Seq<(String, Blob)>, p: (String, Blob))
    requires
        entries_bounded(es),
        encode_utf8(p.0@).len() <= u64::MAX,
        blob_bounded(p.1),
    ensures
        entries_bounded(es.push(p)),
    decreases es.len(),
{
    let e2 = es.push(p);
    if es.len() == 0 {
        assert(e2.first() == p);
        assert(e2.drop_first() =~= Seq::<(String, Blob)>::empty());
        assert(entries_bounded(e2.drop_first()));
        assert(entries_bounded(e2));
    } else {
        assert(e2.first() == es.first());
        assert(e2.drop_first() =~= es.drop_first().push(p));
        lemma_entries_bounded_push(es.drop_first(), p);
        assert(entries_bounded(e2.drop_first()));
        assert(encode_utf8(e2.first().0@).len() <= u64::MAX && blob_bounded(e2.first().1));
        assert(entries_bounded(e2));
    }
}

/// An encoded integer is read back unchanged.
proof fn lemma_dec_u64_enc(x: u64, rest: Seq<u8>)
    ensures
        spec_dec_u64(spec_u64_to_le_bytes(x) + rest) == Some((x, rest)),
{
    vstd::bytes::lemma_auto_spec_u64_to_from_le_bytes();
    let b = spec_u64_to_le_bytes(x);
    assert((b + rest).take(8) =~= b);
    assert((b + rest).skip(8) =~= rest);
}

/// Every value encoding is nonempty, and every string encoding carries at
/// least its length field.
proof fn lemma_enc_lens(b: Blob, s: Seq<char>)
    ensures
        spec_enc_blob(b).len() >= 1,
        spec_enc_str(s).len() >= 8,
{
    vstd::bytes::lemma_auto_spec_u64_to_from_le_bytes();
    match b {
        Blob::Null => {},
        Blob::Str(_) => {},
        Blob::Int(i) => {},
        Blob::Dict(_) => {},
    }
}

/// An encoded string is read back unchanged.
proof fn lemma_dec_chars_enc(s: Seq<char>, rest: Seq<u8>)
    requires
        encode_utf8(s).len() <= u64::MAX,
    ensures
        spec_dec_chars(spec_enc_str(s) + rest) == Some((s, rest)),
{
    let u = encode_utf8(s);
    let lenb = spec_u64_to_le_bytes(u.len() as u64);
    let bytes = spec_enc_str(s) + rest;
    assert(bytes =~= lenb + (u + rest));
    lemma_dec_u64_enc(u.len() as u64, u + rest);
    assert((u + rest).take(u.len() as int) =~= u);
    vstd::utf8::encode_utf8_valid_utf8(s);
    vstd::utf8::encode_utf8_decode_utf8(s);
    assert((u + rest).skip(u.len() as int) =~= rest);
}

/// An encoded value is read back as exactly its abstract value.
proof fn lemma_dec_blob_enc(b: Blob, rest: Seq<u8>)
    requires
        blob_bounded(b),
    ensures
        spec_dec_blob(spec_enc_blob(b) + rest) == Some((blob_val(b), rest)),
    decreases b,
{
    let bytes = spec_enc_blob(b) + rest;
    match b {
        Blob::Null => {
            assert(bytes.skip(1) =~= rest);
            assert(bytes[0] == 0u8);
        },
        Blob::Str(s) => {
            assert(bytes[0] == 1u8);
            assert(bytes.skip(1) =~= spec_enc_str(s@) + rest);
            lemma_dec_chars_enc(s@, rest);
        },
        Blob::Int(i) => {
            vstd::bytes::lemma_auto_spec_u64_to_from_le_bytes();
            assert(bytes[0] == 2u8);
            let r1 = bytes.skip(1);
            if i >= 0 {
                let mag = i as u64;
                assert(r1 =~= seq![0u8] + (spec_u64_to_le_bytes(mag) + rest));
                assert(r1[0] == 0u8);
                assert(r1.skip(1).take(8) =~= spec_u64_to_le_bytes(mag));
                assert(r1.skip(9) =~= rest);
                assert(spec_dec_int(0u8, mag) == Some(i as int));
            } else {
                let mag = (-(i as int)) as u64;
                assert(r1 =~= seq![1u8] + (spec_u64_to_le_bytes(mag) + rest));
                assert(r1[0] == 1u8);
                assert(r1.skip(1).take(8) =~= spec_u64_to_le_bytes(mag));
                assert(r1.skip(9) =~= rest);
                assert(spec_dec_int(1u8, mag) == Some(i as int));
            }
        },
        Blob::Dict(es) => {
            assert(bytes[0] == 3u8);
            let n = es@.len();
            let cnt = spec_u64_to_le_bytes(n as u64);
            let e = spec_enc_entries(es@);
            assert(bytes.skip(1) =~= cnt + (e + rest));
            lemma_dec_u64_enc(n as u64, e + rest);
            assert(bytes.skip(1).take(8) =~= cnt);
            assert(bytes.skip(1).skip(8) =~= e + rest);
            lemma_dec_pairs_enc(es@, rest);
            lemma_dict_val_is_pairs_val(es@);
        },
    }
}

/// An encoded entry list is read back as exactly its abstract pairs.
proof fn lemma_dec_pairs_enc(es: Seq<(String, Blob)>, rest: Seq<u8>)
    requires
        entries_bounded(es),
    ensures
        spec_dec_pairs(spec_enc_entries(es) + rest, es.len() as nat) == Some(
            (pairs_of(es), rest),
        ),
    decreases es,
{
    if es.len() == 0 {
        assert(spec_enc_entries(es) + rest =~= rest);
        assert(pairs_of(es) =~= Seq::<(Seq<char>, BlobVal)>::empty());
    } else {
        let k0 = es.first().0;
        let v0 = es.first().1;
        let tail = es.drop_first();
        let s = spec_enc_str(k0@);
        let b = spec_enc_blob(v0);
        let e = spec_enc_entries(tail);
        lemma_enc_entries_front(es);
        let bytes = spec_enc_entries(es) + rest;
        assert(bytes =~= s + (b + (e + rest)));
        lemma_dec_chars_enc(k0@, b + (e + rest));
        lemma_enc_lens(v0, k0@);
        assert((b + (e + rest)).len() < bytes.len());
        lemma_dec_blob_enc(v0, e + rest);
        assert((e + rest).len() < bytes.len());
        lemma_dec_pairs_enc(tail, rest);
        assert(seq![(k0@, blob_val(v0))] + pairs_of(tail) =~= pairs_of(es));
    }
}

/// The entry list encoding, unfolded at its first entry.
proof fn lemma_enc_entries_front(es: Seq<(String, Blob)>)
    requires
        es.len() > 0,
    ensures
        spec_enc_entries(es) == spec_enc_str(es.first().0@) + spec_enc_blob(es.first().1)
            + spec_enc_entries(es.drop_first()),
    decreases es.len(),
{
    if es.len() == 1 {
        assert(es.drop_last() =~= Seq::<(String, Blob)>::empty());
        assert(es.drop_first() =~= Seq::<(String, Blob)>::empty());
        assert(es.last() == es.first());
        assert(spec_enc_entries(es) =~= spec_enc_str(es.first().0@) + spec_enc_blob(
            es.first().1,
        ) + spec_enc_entries(es.drop_first()));
    } else {
        let dl = es.drop_last();
        lemma_enc_entries_front(dl);
        assert(dl.first() == es.first());
        assert(es.drop_first().drop_last() =~= dl.drop_first());
        assert(es.drop_first().last() == es.last());
        assert(spec_enc_entries(es.drop_first()) == spec_enc_entries(dl.drop_first())
            + spec_enc_str(es.last().0@) + spec_enc_blob(es.last().1));
        assert(spec_enc_entries(es) =~= spec_enc_str(es.first().0@) + spec_enc_blob(
            es.first().1,
        ) + spec_enc_entries(es.drop_first()));
    }
}

/// Law: decoding the snapshot encoding of a shard state reproduces exactly
/// the shard's map. Holds for every state whose entry list fits the
/// encoding's length fields, which every state held in memory does.
pub proof fn lemma_snapshot_roundtrip(state: MemoryStoreSingleThreaded)
    requires
        snapshot_bounded(state),
    ensures
        spec_dec_snapshot(spec_snapshot_of(state)) == Some(state@),
{
    let es = state.entries_spec();
    let bytes = spec_snapshot_of(state);
    lemma_dec_u64_enc(es.len() as u64, spec_enc_entries(es));
    lemma_dec_pairs_enc(es, Seq::<u8>::empty());
    assert(spec_enc_entries(es) + Seq::<u8>::empty() =~= spec_enc_entries(es));
    lemma_dict_val_is_pairs_val(es);
    state.lemma_view_of_entries();
}

} // verus!
