//! The record framer: splits a raw byte buffer into `(tag, len, payload)`
//! triples.
//!
//! Each record is a 2-byte little-endian `tag`, a 2-byte little-endian
//! payload length, and exactly that many payload bytes, with no padding.
//! Framing succeeds exactly when the buffer is a whole number of such
//! records; a trailing partial header or partial payload is
//! `UnexpectedEof`. Tags are not validated here: any 16-bit value is
//! structurally legal.

use crate::bytes::{le_u16_at, read_u16_at};
use crate::records::{DecodeError, RawRecord, RawRecordV};
use vstd::prelude::*;
use vstd::slice::{slice_subrange, slice_to_vec};

verus! {

/// The framing of `bytes`: the sequence of raw records laid back-to-back
/// from its start, or `UnexpectedEof` if the buffer ends mid-header or
/// mid-payload.
pub open spec fn spec_frame(bytes: Seq<u8>) -> Result<Seq<RawRecordV>, DecodeError>
    decreases bytes.len(),
{
    if bytes.len() == 0 {
        Ok(Seq::empty())
    } else if bytes.len() < 4 {
        Err(DecodeError::UnexpectedEof)
    } else {
        let tag = le_u16_at(bytes, 0);
        let len = le_u16_at(bytes, 2);
        if bytes.len() < 4 + len {
            Err(DecodeError::UnexpectedEof)
        } else {
            let head = RawRecordV { tag, len, payload: bytes.subrange(4, 4 + len) };
            match spec_frame(bytes.skip(4 + len)) {
                Ok(rest) => Ok(seq![head] + rest),
                Err(e) => Err(e),
            }
        }
    }
}

/// The views of a sequence of raw records.
pub open spec fn raw_views(s: Seq<RawRecord>) -> Seq<RawRecordV> {
    s.map_values(|r: RawRecord| r@)
}

/// The two bytes of `v`, least significant first.
pub open spec fn le_bytes_u16(v: u16) -> Seq<u8> {
    seq![(v % 0x100) as u8, (v / 0x100) as u8]
}

/// The bytes of one record as it stands in a buffer: 2-byte tag, 2-byte
/// length, then the payload.
pub open spec fn record_bytes(r: RawRecordV) -> Seq<u8> {
    le_bytes_u16(r.tag) + le_bytes_u16(r.len) + r.payload
}

/// The bytes of a sequence of records laid back-to-back.
pub open spec fn stream_bytes(recs: Seq<RawRecordV>) -> Seq<u8>
    decreases recs.len(),
{
    if recs.len() == 0 {
        Seq::empty()
    } else {
        record_bytes(recs[0]) + stream_bytes(recs.drop_first())
    }
}

/// The sum of `4 + len` over the records.
pub open spec fn frame_sizes(recs: Seq<RawRecordV>) -> int
    decreases recs.len(),
{
    if recs.len() == 0 {
        0
    } else {
        4 + recs[0].len + frame_sizes(recs.drop_first())
    }
}

proof fn lemma_le_bytes_roundtrip(v: u16, s: Seq<u8>, off: int)
    requires
        0 <= off,
        off + 2 <= s.len(),
        s[off] == (v % 0x100) as u8,
        s[off + 1] == (v / 0x100) as u8,
    ensures
        le_u16_at(s, off) == v,
{
    vstd::arithmetic::div_mod::lemma_fundamental_div_mod(v as int, 0x100);
}

/// Framing completeness: a buffer that is `N` well-formed records laid
/// back-to-back frames into exactly those `N` records, in original order,
/// and the records' sizes — `4 + len` each — account for every byte of the
/// buffer.
#[verifier::rlimit(50)]
pub proof fn lemma_framing_complete(recs: Seq<RawRecordV>)
    requires
        forall|i: int| 0 <= i < recs.len() ==> (#[trigger] recs[i]).payload.len() == recs[i].len,
    ensures
        spec_frame(stream_bytes(recs)) == Ok::<Seq<RawRecordV>, DecodeError>(recs),
        stream_bytes(recs).len() == frame_sizes(recs),
    decreases recs.len(),
{
    if recs.len() == 0 {
        assert(stream_bytes(recs) =~= Seq::<u8>::empty());
        assert(recs =~= Seq::<RawRecordV>::empty());
    } else {
        let r0 = recs[0];
        let rest = recs.drop_first();
        assert(forall|i: int| 0 <= i < rest.len() ==> (#[trigger] rest[i]) == recs[i + 1]);
        lemma_framing_complete(rest);
        let b = stream_bytes(recs);
        assert(r0.payload.len() == r0.len);
        assert(b.len() == 4 + r0.payload.len() + stream_bytes(rest).len());
        lemma_le_bytes_roundtrip(r0.tag, b, 0);
        lemma_le_bytes_roundtrip(r0.len, b, 2);
        assert(le_u16_at(b, 0) == r0.tag);
        assert(le_u16_at(b, 2) == r0.len);
        assert(b.len() >= 4 + r0.len);
        assert(b.subrange(4, 4 + r0.len) =~= r0.payload);
        assert(b.skip(4 + r0.len) =~= stream_bytes(rest));
        assert(spec_frame(b.skip(4 + r0.len as int)) == Ok::<Seq<RawRecordV>, DecodeError>(rest));
        let head = RawRecordV { tag: le_u16_at(b, 0), len: le_u16_at(b, 2), payload: b.subrange(4, 4 + le_u16_at(b, 2)) };
        assert(head == r0);
        assert(spec_frame(b) == Ok::<Seq<RawRecordV>, DecodeError>(seq![head] + rest));
        assert(seq![head] + rest =~= recs);
    }
}

/// Framing truncation: a buffer of whole records followed by a fragment —
/// a partial header, or a header whose payload is cut short — frames to
/// `UnexpectedEof`, whatever stands before the fragment.
#[verifier::rlimit(50)]
pub proof fn lemma_framing_truncation(recs: Seq<RawRecordV>, tail: Seq<u8>)
    requires
        forall|i: int| 0 <= i < recs.len() ==> (#[trigger] recs[i]).payload.len() == recs[i].len,
        0 < tail.len() < 4 || (4 <= tail.len() && tail.len() < 4 + le_u16_at(tail, 2)),
    ensures
        spec_frame(stream_bytes(recs) + tail) == Err::<Seq<RawRecordV>, DecodeError>(
            DecodeError::UnexpectedEof,
        ),
    decreases recs.len(),
{
    if recs.len() == 0 {
        assert(stream_bytes(recs) + tail =~= tail);
    } else {
        let r0 = recs[0];
        let rest = recs.drop_first();
        assert(forall|i: int| 0 <= i < rest.len() ==> (#[trigger] rest[i]) == recs[i + 1]);
        lemma_framing_truncation(rest, tail);
        let b = stream_bytes(recs) + tail;
        lemma_le_bytes_roundtrip(r0.tag, b, 0);
        lemma_le_bytes_roundtrip(r0.len, b, 2);
        assert(b.len() >= 4 + r0.len);
        assert(b.skip(4 + r0.len) =~= stream_bytes(rest) + tail);
    }
}

/// Splits off the one record that starts at offset `pos` of `input`,
/// returning it together with the offset just past it. No byte is re-read
/// or skipped: the record occupies exactly `[pos, next)`.
pub fn parse_record(input: &[u8], pos: usize) -> (r: Result<(RawRecord, usize), DecodeError>)
    requires
        pos <= input@.len(),
    ensures
        match r {
            Ok(pair) => {
                &&& pair.0.wf()
                &&& pos + 4 <= input@.len()
                &&& pair.0.tag == le_u16_at(input@, pos as int)
                &&& pair.0.len == le_u16_at(input@, pos + 2)
                &&& pair.1 == pos + 4 + pair.0.len
                &&& pair.1 <= input@.len()
                &&& pair.0.payload@ == input@.subrange(pos + 4, pair.1 as int)
            },
            Err(e) => {
                &&& e == DecodeError::UnexpectedEof
                &&& (input@.len() < pos + 4 || input@.len() < pos + 4 + le_u16_at(
                    input@,
                    pos + 2,
                ))
            },
        },
{
    let n = input.len();
    if n - pos < 4 {
        return Err(DecodeError::UnexpectedEof);
    }
    let tag = read_u16_at(input, pos);
    let len = read_u16_at(input, pos + 2);
    if n - (pos + 4) < len as usize {
        return Err(DecodeError::UnexpectedEof);
    }
    let next = pos + 4 + len as usize;
    let payload = slice_to_vec(slice_subrange(input, pos + 4, next));
    Ok((RawRecord { tag, len, payload }, next))
}

/// Frames the whole buffer eagerly. Returns exactly the records that
/// [`spec_frame`] gives, in original order, or the framing error.
pub fn frame_records(input: &[u8]) -> (r: Result<Vec<RawRecord>, DecodeError>)
    ensures
        match r {
            Ok(v) => {
                &&& spec_frame(input@) == Ok::<Seq<RawRecordV>, DecodeError>(raw_views(v@))
                &&& forall|i: int| 0 <= i < v@.len() ==> (#[trigger] v@[i]).wf()
            },
            Err(e) => spec_frame(input@) == Err::<Seq<RawRecordV>, DecodeError>(e),
        },
{
    let mut out: Vec<RawRecord> = Vec::new();
    let mut pos: usize = 0;
    proof {
        assert(input@.skip(0) =~= input@);
        if spec_frame(input@) is Ok {
            assert(raw_views(out@) + spec_frame(input@)->Ok_0 =~= spec_frame(input@)->Ok_0);
        }
    }
    while pos < input.len()
        invariant
            pos <= input@.len(),
            forall|i: int| 0 <= i < out@.len() ==> (#[trigger] out@[i]).wf(),
            spec_frame(input@) == (match spec_frame(input@.skip(pos as int)) {
                Ok(rest) => Ok::<Seq<RawRecordV>, DecodeError>(raw_views(out@) + rest),
                Err(e) => Err::<Seq<RawRecordV>, DecodeError>(e),
            }),
        decreases input@.len() - pos,
    {
        let ghost b = input@.skip(pos as int);
        match parse_record(input, pos) {
            Err(e) => {
                proof {
                    assert(b.len() == input@.len() - pos);
                    if b.len() >= 4 {
                        assert(b[2] == input@[pos + 2]);
                        assert(b[3] == input@[pos + 3]);
                        assert(le_u16_at(b, 2) == le_u16_at(input@, pos + 2));
                        assert(b.len() < 4 + le_u16_at(b, 2));
                    }
                    assert(spec_frame(b) == Err::<Seq<RawRecordV>, DecodeError>(
                        DecodeError::UnexpectedEof,
                    ));
                }
                return Err(e);
            },
            Ok((raw, next)) => {
                proof {
                    assert(b[0] == input@[pos as int]);
                    assert(b[1] == input@[pos + 1]);
                    assert(b[2] == input@[pos + 2]);
                    assert(b[3] == input@[pos + 3]);
                    assert(raw.tag == le_u16_at(b, 0));
                    assert(raw.len == le_u16_at(b, 2));
                    assert(b.len() >= 4 + raw.len);
                    assert(b.subrange(4, 4 + raw.len as int) =~= input@.subrange(
                        pos + 4,
                        next as int,
                    ));
                    assert(b.skip(4 + raw.len as int) =~= input@.skip(next as int));
                    assert(raw@ == RawRecordV {
                        tag: le_u16_at(b, 0),
                        len: le_u16_at(b, 2),
                        payload: b.subrange(4, 4 + le_u16_at(b, 2)),
                    });
                    assert(raw_views(out@.push(raw)) =~= raw_views(out@) + seq![raw@]);
                    assert(forall|rest: Seq<RawRecordV>|
                        (raw_views(out@) + (seq![raw@] + rest)) =~= (raw_views(out@.push(raw))
                            + rest));
                }
                out.push(raw);
                pos = next;
            },
        }
    }
    proof {
        assert(input@.skip(pos as int) =~= Seq::<u8>::empty());
        assert(raw_views(out@) + Seq::<RawRecordV>::empty() =~= raw_views(out@));
    }
    Ok(out)
}

} // verus!
