//! The index serializer: the collection's name and checksums laid out
//! in the fixed little-endian binary format a third-party database
//! reader consumes. Every integer is 4 bytes little-endian; every
//! string is its raw UTF-8 bytes prefixed by their count.

use vstd::prelude::*;
use vstd::bytes::{
    lemma_auto_spec_u32_to_from_le_bytes, spec_u32_from_le_bytes, spec_u32_to_le_bytes,
    u32_to_le_bytes,
};
use vstd::utf8::encode_utf8;
use crate::error::IndexError;

verus! {

/// The format revision written by default; the target reader decides
/// the correct value, so the encoder takes it as a parameter.
pub const DB_VERSION: u32 = 20211103;

/// One string field: a 4-byte little-endian byte count followed by
/// the raw UTF-8 bytes, with no terminator.
pub open spec fn enc_str(s: Seq<char>) -> Seq<u8> {
    spec_u32_to_le_bytes(encode_utf8(s).len() as u32) + encode_utf8(s)
}

/// The checksum fields, one after the other.
pub open spec fn enc_hashes(hs: Seq<Seq<char>>) -> Seq<u8>
    decreases hs.len(),
{
    if hs.len() == 0 {
        Seq::empty()
    } else {
        enc_str(hs[0]) + enc_hashes(hs.drop_first())
    }
}

/// The whole file: version, collection count (always one here), then
/// the one collection's name, checksum count and checksums.
pub open spec fn spec_index_bytes(version: u32, name: Seq<char>, hashes: Seq<Seq<char>>) -> Seq<
    u8,
> {
    spec_u32_to_le_bytes(version) + spec_u32_to_le_bytes(1u32) + enc_str(name)
        + spec_u32_to_le_bytes(hashes.len() as u32) + enc_hashes(hashes)
}

proof fn lemma_enc_hashes_push(hs: Seq<Seq<char>>, h: Seq<char>)
    ensures
        enc_hashes(hs.push(h)) == enc_hashes(hs) + enc_str(h),
    decreases hs.len(),
{
    if hs.len() == 0 {
        assert(hs.push(h)[0] == h);
        assert(hs.push(h).drop_first() =~= Seq::<Seq<char>>::empty());
        assert(enc_hashes(Seq::<Seq<char>>::empty()) == Seq::<u8>::empty());
        assert(enc_str(h) + Seq::<u8>::empty() =~= enc_str(h));
        assert(Seq::<u8>::empty() + enc_str(h) =~= enc_str(h));
    } else {
        lemma_enc_hashes_push(hs.drop_first(), h);
        assert(hs.push(h).drop_first() =~= hs.drop_first().push(h));
        assert(hs.push(h)[0] == hs[0]);
        assert(enc_str(hs[0]) + (enc_hashes(hs.drop_first()) + enc_str(h)) =~= (enc_str(hs[0])
            + enc_hashes(hs.drop_first())) + enc_str(h));
    }
}

/// Appends one length-prefixed string field.
fn append_str_field(out: &mut Vec<u8>, s: &str)
    requires
        encode_utf8(s@).len() <= u32::MAX,
    ensures
        final(out)@ == old(out)@ + enc_str(s@),
{
    let mut b = s.as_bytes_vec();
    let len32: u32 = b.len() as u32;
    let mut lenb = u32_to_le_bytes(len32);
    out.append(&mut lenb);
    out.append(&mut b);
    proof {
        assert(final(out)@ =~= old(out)@ + enc_str(s@));
    }
}

/// Encodes the binary index for one collection: its name and the
/// flattened checksum list, under the given format revision. The
/// format requires a name, so an empty one is rejected; nothing else
/// fails.
pub fn encode_collection_db(version: u32, name: &str, hashes: &Vec<String>) -> (r: Result<
    Vec<u8>,
    IndexError,
>)
    requires
        encode_utf8(name@).len() <= u32::MAX,
        hashes@.len() <= u32::MAX,
        forall|i: int|
            0 <= i < hashes@.len() ==> encode_utf8(#[trigger] hashes@[i]@).len() <= u32::MAX,
    ensures
        name@.len() == 0 ==> r == Err::<Vec<u8>, IndexError>(IndexError::EmptyName),
        name@.len() > 0 ==> (r matches Ok(v) && v@ == spec_index_bytes(
            version,
            name@,
            hashes.deep_view(),
        )),
{
    if name.unicode_len() == 0 {
        return Err(IndexError::EmptyName);
    }
    let ghost header = spec_u32_to_le_bytes(version) + spec_u32_to_le_bytes(1u32) + enc_str(name@)
        + spec_u32_to_le_bytes(hashes@.len() as u32);
    let mut out: Vec<u8> = Vec::new();
    let mut vb = u32_to_le_bytes(version);
    out.append(&mut vb);
    let mut cb = u32_to_le_bytes(1);
    out.append(&mut cb);
    append_str_field(&mut out, name);
    let hcount: u32 = hashes.len() as u32;
    let mut hb = u32_to_le_bytes(hcount);
    out.append(&mut hb);
    proof {
        assert(out@ =~= header + enc_hashes(hashes.deep_view().take(0)));
    }
    let n = hashes.len();
    let mut i: usize = 0;
    while i < n
        invariant
            0 <= i <= n,
            n == hashes@.len(),
            forall|k: int|
                0 <= k < hashes@.len() ==> encode_utf8(#[trigger] hashes@[k]@).len() <= u32::MAX,
            out@ == header + enc_hashes(hashes.deep_view().take(i as int)),
        decreases n - i,
    {
        let h = hashes[i].as_str();
        proof {
            assert(hashes.deep_view()[i as int] == hashes@[i as int]@);
        }
        append_str_field(&mut out, h);
        proof {
            let deep = hashes.deep_view();
            lemma_enc_hashes_push(deep.take(i as int), deep[i as int]);
            assert(deep.take(i as int).push(deep[i as int]) =~= deep.take(i + 1));
            assert((header + enc_hashes(deep.take(i as int))) + enc_str(h@) =~= header
                + (enc_hashes(deep.take(i as int)) + enc_str(h@)));
        }
        i = i + 1;
    }
    proof {
        assert(hashes.deep_view().take(n as int) =~= hashes.deep_view());
        assert(header + enc_hashes(hashes.deep_view()) =~= spec_index_bytes(
            version,
            name@,
            hashes.deep_view(),
        ));
    }
    Ok(out)
}

/// One length-prefixed field read back from the front of `b`: the
/// field's bytes and what follows them.
pub open spec fn dec_field(b: Seq<u8>) -> Option<(Seq<u8>, Seq<u8>)> {
    if b.len() < 4 {
        None
    } else {
        let l = spec_u32_from_le_bytes(b.take(4)) as int;
        if b.len() - 4 < l {
            None
        } else {
            Some((b.subrange(4, 4 + l), b.skip(4 + l)))
        }
    }
}

/// `count` length-prefixed fields read back from the front of `b`,
/// and what follows them.
pub open spec fn dec_fields(b: Seq<u8>, count: int) -> Option<(Seq<Seq<u8>>, Seq<u8>)>
    decreases count,
{
    if count <= 0 {
        Some((Seq::empty(), b))
    } else {
        match dec_field(b) {
            None => None,
            Some((h, rest)) => match dec_fields(rest, count - 1) {
                None => None,
                Some((hs, tail)) => Some((seq![h].add(hs), tail)),
            },
        }
    }
}

/// A whole index file read back per the documented layout: the
/// version, the one collection's name bytes, and its checksum fields.
pub open spec fn spec_decode_index(b: Seq<u8>) -> Option<(u32, Seq<u8>, Seq<Seq<u8>>)> {
    if b.len() < 8 {
        None
    } else {
        let version = spec_u32_from_le_bytes(b.take(4));
        let ncol = spec_u32_from_le_bytes(b.subrange(4, 8));
        if ncol != 1 {
            None
        } else {
            match dec_field(b.skip(8)) {
                None => None,
                Some((name, rest)) => if rest.len() < 4 {
                    None
                } else {
                    match dec_fields(rest.skip(4), spec_u32_from_le_bytes(rest.take(4)) as int) {
                        None => None,
                        Some((hs, tail)) => if tail.len() == 0 {
                            Some((version, name, hs))
                        } else {
                            None
                        },
                    }
                },
            }
        }
    }
}

proof fn lemma_dec_enc_field(s: Seq<char>, rest: Seq<u8>)
    requires
        encode_utf8(s).len() <= u32::MAX,
    ensures
        dec_field(enc_str(s) + rest) == Some((encode_utf8(s), rest)),
{
    lemma_auto_spec_u32_to_from_le_bytes();
    let bytes = encode_utf8(s);
    let l = bytes.len() as u32;
    let b = enc_str(s) + rest;
    assert(b.take(4) =~= spec_u32_to_le_bytes(l));
    assert(spec_u32_from_le_bytes(b.take(4)) == l);
    assert(b.subrange(4, 4 + l as int) =~= bytes);
    assert(b.skip(4 + l as int) =~= rest);
}

proof fn lemma_dec_enc_fields(hs: Seq<Seq<char>>, tail: Seq<u8>)
    requires
        forall|i: int| 0 <= i < hs.len() ==> encode_utf8(#[trigger] hs[i]).len() <= u32::MAX,
    ensures
        dec_fields(enc_hashes(hs) + tail, hs.len() as int) == Some(
            (Seq::new(hs.len(), |i: int| encode_utf8(hs[i])), tail),
        ),
    decreases hs.len(),
{
    if hs.len() == 0 {
        assert(enc_hashes(hs) + tail =~= tail);
        assert(Seq::new(0, |i: int| encode_utf8(hs[i])) =~= Seq::<Seq<u8>>::empty());
    } else {
        let b = enc_hashes(hs) + tail;
        assert(b =~= enc_str(hs[0]) + (enc_hashes(hs.drop_first()) + tail));
        lemma_dec_enc_field(hs[0], enc_hashes(hs.drop_first()) + tail);
        lemma_dec_enc_fields(hs.drop_first(), tail);
        assert(seq![encode_utf8(hs[0])].add(
            Seq::new(hs.drop_first().len(), |i: int| encode_utf8(hs.drop_first()[i])),
        ) =~= Seq::new(hs.len(), |i: int| encode_utf8(hs[i])));
    }
}

/// Writing an index and reading the bytes back per the documented
/// layout reproduces the version, the name and the checksum list
/// exactly, for every encodable input.
pub proof fn lemma_index_round_trip(version: u32, name: Seq<char>, hashes: Seq<Seq<char>>)
    requires
        encode_utf8(name).len() <= u32::MAX,
        hashes.len() <= u32::MAX,
        forall|i: int| 0 <= i < hashes.len() ==> encode_utf8(#[trigger] hashes[i]).len()
            <= u32::MAX,
    ensures
        spec_decode_index(spec_index_bytes(version, name, hashes)) == Some(
            (version, encode_utf8(name), Seq::new(hashes.len(), |i: int| encode_utf8(hashes[i]))),
        ),
{
    lemma_auto_spec_u32_to_from_le_bytes();
    let b = spec_index_bytes(version, name, hashes);
    let cnt = spec_u32_to_le_bytes(hashes.len() as u32);
    assert(b.take(4) =~= spec_u32_to_le_bytes(version));
    assert(b.subrange(4, 8) =~= spec_u32_to_le_bytes(1u32));
    assert(spec_u32_from_le_bytes(spec_u32_to_le_bytes(1u32)) == 1u32);
    let after_header = enc_str(name) + (cnt + (enc_hashes(hashes) + Seq::<u8>::empty()));
    assert(b.skip(8) =~= after_header);
    lemma_dec_enc_field(name, cnt + (enc_hashes(hashes) + Seq::<u8>::empty()));
    let rest = cnt + (enc_hashes(hashes) + Seq::<u8>::empty());
    assert(rest.take(4) =~= cnt);
    assert(spec_u32_from_le_bytes(cnt) == hashes.len() as u32);
    assert(rest.skip(4) =~= enc_hashes(hashes) + Seq::<u8>::empty());
    lemma_dec_enc_fields(hashes, Seq::<u8>::empty());
}

} // verus!
