//! The record decoder: maps one raw `(tag, len, payload)` triple to exactly
//! one typed [`Record`], and decodes whole buffers.
//!
//! Dispatch is a total function of the tag: a tag absent from the layout
//! table yields `Unknown(tag)`, never an error. Errors come only from the
//! payload: too short for the tag's fixed fields (`MalformedRecord`), an
//! enumerated byte outside its documented set (`InvalidEnumValue`), or
//! label text that is not valid UTF-8 (`Utf8DecodeError`). Decoding is
//! pure: each record decodes independently of any other.

use crate::bytes::{le_u16_at, le_u64_at, read_u16_at, read_u64_at};
use crate::framer::{parse_record, spec_frame};
use crate::records::{CalcMode, CalcOrder, DecodeError, RawRecord, RawRecordV, Record, RecordV, SplitType};
use vstd::prelude::*;
use vstd::slice::slice_subrange;

verus! {

/// The characters that a byte sequence decodes to as UTF-8 text, or `None`
/// where it is not valid UTF-8. The mapping is fixed by the UTF-8 encoding
/// itself; it is named here and pinned down by `utf8_to_string`.
pub uninterp spec fn utf8_chars(b: Seq<u8>) -> Option<Seq<char>>;

/// Relies on `core::str::from_utf8`: whether a byte sequence is valid
/// UTF-8, and the text it decodes to, depend on the bytes alone, and bytes
/// below 0x80 are ASCII, always valid, and decode to the same characters.
#[verifier::external_body]
fn utf8_to_string(b: &[u8]) -> (r: Option<String>)
    ensures
        (match r {
            Some(s) => utf8_chars(b@) == Some(s@),
            None => utf8_chars(b@) is None,
        }),
{
    match core::str::from_utf8(b) {
        Ok(s) => Some(s.to_owned()),
        Err(_) => None,
    }
}

/// Whether `tag` has an entry in the tag → shape table. Any other tag
/// decodes to `Unknown(tag)`.
pub open spec fn recognized_tag(tag: u16) -> bool {
    (0x00 <= tag <= 0x10) || (0x18 <= tag <= 0x1D) || tag == 0x20 || (0x23 <= tag <= 0x28)
}

/// The fewest payload bytes the fixed-offset fields of `tag` need. A
/// shorter payload is `MalformedRecord`.
pub open spec fn min_payload_len(tag: u16) -> u16 {
    if tag == 0x00 {
        2
    } else if tag == 0x02 || tag == 0x03 || tag == 0x04 || tag == 0x05 {
        1
    } else if tag == 0x06 {
        8
    } else if tag == 0x0C {
        5
    } else if tag == 0x0D {
        7
    } else if tag == 0x0E {
        13
    } else if tag == 0x0F {
        5
    } else {
        0
    }
}

/// The documented calculation-mode bytes: 0x00 is manual; 0x01 and 0xFF
/// are both automatic; anything else is invalid.
pub open spec fn calc_mode_of(b: u8) -> Option<CalcMode> {
    if b == 0x00 {
        Some(CalcMode::Manual)
    } else if b == 0x01 || b == 0xFF {
        Some(CalcMode::Automatic)
    } else {
        None
    }
}

/// The documented calculation-order bytes.
pub open spec fn calc_order_of(b: u8) -> Option<CalcOrder> {
    if b == 0x00 {
        Some(CalcOrder::Natural)
    } else if b == 0x01 {
        Some(CalcOrder::ByColumn)
    } else if b == 0xFF {
        Some(CalcOrder::ByRow)
    } else {
        None
    }
}

/// The documented split-type bytes.
pub open spec fn split_type_of(b: u8) -> Option<SplitType> {
    if b == 0x00 {
        Some(SplitType::NotSplit)
    } else if b == 0x01 {
        Some(SplitType::VerticalSplit)
    } else if b == 0xFF {
        Some(SplitType::HorizontalSplit)
    } else {
        None
    }
}

/// The marker variant of a recognized tag that carries no decoded fields.
pub open spec fn marker_record(tag: u16) -> RecordV {
    if tag == 0x01 {
        RecordV::EndOfFile
    } else if tag == 0x07 {
        RecordV::Window1
    } else if tag == 0x08 {
        RecordV::Window1ColWidth
    } else if tag == 0x09 {
        RecordV::Window2
    } else if tag == 0x0A {
        RecordV::Window2ColWidth
    } else if tag == 0x0B {
        RecordV::NamedRange
    } else if tag == 0x10 {
        RecordV::FormulaCell
    } else if tag == 0x18 {
        RecordV::DataRange
    } else if tag == 0x19 {
        RecordV::QueryRange
    } else if tag == 0x1A {
        RecordV::PrintRange
    } else if tag == 0x1B {
        RecordV::SortRange
    } else if tag == 0x1C {
        RecordV::FillRange
    } else if tag == 0x1D {
        RecordV::SortKeyRange1
    } else if tag == 0x20 {
        RecordV::DistRange
    } else if tag == 0x23 {
        RecordV::SortKeyRange2
    } else if tag == 0x24 {
        RecordV::GlobalProtect
    } else if tag == 0x25 {
        RecordV::PrintFooter
    } else if tag == 0x26 {
        RecordV::PrintHeader
    } else if tag == 0x27 {
        RecordV::PrintSetup
    } else if tag == 0x28 {
        RecordV::PrintMargins
    } else {
        RecordV::Unknown(tag)
    }
}

/// What one raw record decodes to: the typed record for its tag, or the
/// first content error. This is the whole tag → shape table.
pub open spec fn spec_decode(tag: u16, p: Seq<u8>) -> Result<RecordV, DecodeError>
    recommends
        p.len() <= u16::MAX,
{
    if p.len() < min_payload_len(tag) {
        Err(
            DecodeError::MalformedRecord {
                tag,
                expected_min: min_payload_len(tag),
                actual: p.len() as u16,
            },
        )
    } else if tag == 0x00 {
        Ok(RecordV::BeginningOfFile { version: le_u16_at(p, 0) })
    } else if tag == 0x02 {
        match calc_mode_of(p[0]) {
            Some(m) => Ok(RecordV::CalcMode(m)),
            None => Err(DecodeError::InvalidEnumValue { tag, byte: p[0] }),
        }
    } else if tag == 0x03 {
        match calc_order_of(p[0]) {
            Some(o) => Ok(RecordV::CalcOrder(o)),
            None => Err(DecodeError::InvalidEnumValue { tag, byte: p[0] }),
        }
    } else if tag == 0x04 {
        match split_type_of(p[0]) {
            Some(t) => Ok(RecordV::SplitType(t)),
            None => Err(DecodeError::InvalidEnumValue { tag, byte: p[0] }),
        }
    } else if tag == 0x05 {
        Ok(RecordV::SplitSync(p[0] == 0xFF))
    } else if tag == 0x06 {
        Ok(
            RecordV::ActiveRange {
                start_col: le_u16_at(p, 0),
                start_row: le_u16_at(p, 2),
                end_col: le_u16_at(p, 4),
                end_row: le_u16_at(p, 6),
            },
        )
    } else if tag == 0x0C {
        Ok(RecordV::BlankCell { format: p[0], col: le_u16_at(p, 1), row: le_u16_at(p, 3) })
    } else if tag == 0x0D {
        Ok(
            RecordV::IntegerCell {
                format: p[0],
                col: le_u16_at(p, 1),
                row: le_u16_at(p, 3),
                val: le_u16_at(p, 5),
            },
        )
    } else if tag == 0x0E {
        Ok(
            RecordV::FloatCell {
                format: p[0],
                col: le_u16_at(p, 1),
                row: le_u16_at(p, 3),
                val_bits: le_u64_at(p, 5),
            },
        )
    } else if tag == 0x0F {
        match utf8_chars(p.skip(5)) {
            Some(text) => Ok(
                RecordV::LabelCell {
                    format: p[0],
                    col: le_u16_at(p, 1),
                    row: le_u16_at(p, 3),
                    val: text,
                },
            ),
            None => Err(DecodeError::Utf8DecodeError { tag }),
        }
    } else if recognized_tag(tag) {
        Ok(marker_record(tag))
    } else {
        Ok(RecordV::Unknown(tag))
    }
}

/// A decode result seen at the mathematical level.
pub open spec fn record_result_view(r: Result<Record, DecodeError>) -> Result<
    RecordV,
    DecodeError,
> {
    match r {
        Ok(rec) => Ok(rec@),
        Err(e) => Err(e),
    }
}

/// Decoder totality: the dispatch on the tag never fails by itself. A tag
/// outside the table decodes to `Unknown(tag)`; framing errors never arise
/// here; and whenever the payload is long enough, its enumerated byte is
/// in its documented set and its label text is valid, decoding succeeds.
pub proof fn lemma_decoder_totality(tag: u16, p: Seq<u8>)
    ensures
        !recognized_tag(tag) ==> spec_decode(tag, p) == Ok::<RecordV, DecodeError>(
            RecordV::Unknown(tag),
        ),
        spec_decode(tag, p) is Err ==> spec_decode(tag, p)->Err_0 != DecodeError::UnexpectedEof,
        (p.len() >= min_payload_len(tag) && (tag == 0x02 ==> calc_mode_of(p[0]) is Some) && (tag
            == 0x03 ==> calc_order_of(p[0]) is Some) && (tag == 0x04 ==> split_type_of(p[0])
            is Some) && (tag == 0x0F ==> utf8_chars(p.skip(5)) is Some)) ==> spec_decode(tag, p)
            is Ok,
{
}

/// The exec minimum-payload table; returns [`min_payload_len`].
pub fn payload_min(tag: u16) -> (r: u16)
    ensures
        r == min_payload_len(tag),
{
    match tag {
        0x00 => 2,
        0x02 | 0x03 | 0x04 | 0x05 => 1,
        0x06 => 8,
        0x0C => 5,
        0x0D => 7,
        0x0E => 13,
        0x0F => 5,
        _ => 0,
    }
}

/// Decodes one raw record into exactly the typed record (or error) that
/// [`spec_decode`] gives for its tag and payload.
pub fn get_record(raw: &RawRecord) -> (r: Result<Record, DecodeError>)
    requires
        raw.wf(),
    ensures
        record_result_view(r) == spec_decode(raw.tag, raw.payload@),
{
    let tag = raw.tag;
    let p = raw.payload.as_slice();
    let min = payload_min(tag);
    if p.len() < min as usize {
        return Err(DecodeError::MalformedRecord { tag, expected_min: min, actual: raw.len });
    }
    match tag {
        0x00 => Ok(Record::BeginningOfFile { version: read_u16_at(p, 0) }),
        0x01 => Ok(Record::EndOfFile),
        0x02 => match p[0] {
            0x00 => Ok(Record::CalcMode(CalcMode::Manual)),
            0x01 | 0xFF => Ok(Record::CalcMode(CalcMode::Automatic)),
            b => Err(DecodeError::InvalidEnumValue { tag, byte: b }),
        },
        0x03 => match p[0] {
            0x00 => Ok(Record::CalcOrder(CalcOrder::Natural)),
            0x01 => Ok(Record::CalcOrder(CalcOrder::ByColumn)),
            0xFF => Ok(Record::CalcOrder(CalcOrder::ByRow)),
            b => Err(DecodeError::InvalidEnumValue { tag, byte: b }),
        },
        0x04 => match p[0] {
            0x00 => Ok(Record::SplitType(SplitType::NotSplit)),
            0x01 => Ok(Record::SplitType(SplitType::VerticalSplit)),
            0xFF => Ok(Record::SplitType(SplitType::HorizontalSplit)),
            b => Err(DecodeError::InvalidEnumValue { tag, byte: b }),
        },
        0x05 => Ok(Record::SplitSync(p[0] == 0xFF)),
        0x06 => Ok(
            Record::ActiveRange {
                start_col: read_u16_at(p, 0),
                start_row: read_u16_at(p, 2),
                end_col: read_u16_at(p, 4),
                end_row: read_u16_at(p, 6),
            },
        ),
        0x07 => Ok(Record::Window1),
        0x08 => Ok(Record::Window1ColWidth),
        0x09 => Ok(Record::Window2),
        0x0A => Ok(Record::Window2ColWidth),
        0x0B => Ok(Record::NamedRange),
        0x0C => Ok(
            Record::BlankCell { format: p[0], col: read_u16_at(p, 1), row: read_u16_at(p, 3) },
        ),
        0x0D => Ok(
            Record::IntegerCell {
                format: p[0],
                col: read_u16_at(p, 1),
                row: read_u16_at(p, 3),
                val: read_u16_at(p, 5),
            },
        ),
        0x0E => Ok(
            Record::FloatCell {
                format: p[0],
                col: read_u16_at(p, 1),
                row: read_u16_at(p, 3),
                val_bits: read_u64_at(p, 5),
            },
        ),
        0x0F => {
            proof {
                assert(p@.subrange(5, p@.len() as int) =~= p@.skip(5));
            }
            match utf8_to_string(slice_subrange(p, 5, p.len())) {
                Some(val) => Ok(
                    Record::LabelCell {
                        format: p[0],
                        col: read_u16_at(p, 1),
                        row: read_u16_at(p, 3),
                        val,
                    },
                ),
                None => Err(DecodeError::Utf8DecodeError { tag }),
            }
        },
        0x10 => Ok(Record::FormulaCell),
        0x18 => Ok(Record::DataRange),
        0x19 => Ok(Record::QueryRange),
        0x1A => Ok(Record::PrintRange),
        0x1B => Ok(Record::SortRange),
        0x1C => Ok(Record::FillRange),
        0x1D => Ok(Record::SortKeyRange1),
        0x20 => Ok(Record::DistRange),
        0x23 => Ok(Record::SortKeyRange2),
        0x24 => Ok(Record::GlobalProtect),
        0x25 => Ok(Record::PrintFooter),
        0x26 => Ok(Record::PrintHeader),
        0x27 => Ok(Record::PrintSetup),
        0x28 => Ok(Record::PrintMargins),
        _ => Ok(Record::Unknown(tag)),
    }
}

/// The views of a sequence of decoded records.
pub open spec fn record_views(s: Seq<Record>) -> Seq<RecordV> {
    s.map_values(|r: Record| r@)
}

/// What a whole buffer decodes to: records framed back-to-back from its
/// start, each decoded by its tag, stopping at the first framing or
/// decoding error.
pub open spec fn spec_decode_stream(bytes: Seq<u8>) -> Result<Seq<RecordV>, DecodeError>
    decreases bytes.len(),
{
    if bytes.len() == 0 {
        Ok(Seq::empty())
    } else if bytes.len() < 4 {
        Err(DecodeError::UnexpectedEof)
    } else {
        let tag = le_u16_at(bytes, 0);
        let len = le_u16_at(bytes, 2);
        if bytes.len() < 4 + len {
            Err(DecodeError::UnexpectedEof)
        } else {
            match spec_decode(tag, bytes.subrange(4, 4 + len)) {
                Err(e) => Err(e),
                Ok(rec) => match spec_decode_stream(bytes.skip(4 + len)) {
                    Err(e) => Err(e),
                    Ok(rest) => Ok(seq![rec] + rest),
                },
            }
        }
    }
}

/// Composition of framer and decoder: a buffer that frames cleanly into
/// raw records whose every payload decodes is decoded as a stream into
/// exactly those records' decodings, in order.
pub proof fn lemma_stream_decodes_framed(bytes: Seq<u8>, raws: Seq<RawRecordV>)
    requires
        spec_frame(bytes) == Ok::<Seq<RawRecordV>, DecodeError>(raws),
        forall|i: int|
            0 <= i < raws.len() ==> spec_decode((#[trigger] raws[i]).tag, raws[i].payload) is Ok,
    ensures
        spec_decode_stream(bytes) matches Ok(recs) && recs.len() == raws.len() && (forall|i: int|
            0 <= i < raws.len() ==> recs[i] == spec_decode(
                (#[trigger] raws[i]).tag,
                raws[i].payload,
            )->Ok_0),
    decreases bytes.len(),
{
    if bytes.len() == 0 {
    } else {
        let tag = le_u16_at(bytes, 0);
        let len = le_u16_at(bytes, 2);
        let head = RawRecordV { tag, len, payload: bytes.subrange(4, 4 + len) };
        let rest_bytes = bytes.skip(4 + len);
        let rest = spec_frame(rest_bytes)->Ok_0;
        assert(raws == seq![head] + rest);
        assert(raws[0] == head);
        assert(forall|i: int| 0 <= i < rest.len() ==> (#[trigger] rest[i]) == raws[i + 1]);
        lemma_stream_decodes_framed(rest_bytes, rest);
        let dec0 = spec_decode(head.tag, head.payload)->Ok_0;
        let recs_rest = spec_decode_stream(rest_bytes)->Ok_0;
        assert(spec_decode_stream(bytes) == Ok::<Seq<RecordV>, DecodeError>(
            seq![dec0] + recs_rest,
        ));
        assert(forall|i: int|
            0 <= i < raws.len() ==> (seq![dec0] + recs_rest)[i] == spec_decode(
                (#[trigger] raws[i]).tag,
                raws[i].payload,
            )->Ok_0);
    }
}

/// Decodes an entire buffer eagerly: frames and decodes record after
/// record, returning every decoded record in original order, or the first
/// error with no record list. Returns exactly what [`spec_decode_stream`]
/// gives.
pub fn decode_stream(input: &[u8]) -> (r: Result<Vec<Record>, DecodeError>)
    ensures
        match r {
            Ok(v) => spec_decode_stream(input@) == Ok::<Seq<RecordV>, DecodeError>(
                record_views(v@),
            ),
            Err(e) => spec_decode_stream(input@) == Err::<Seq<RecordV>, DecodeError>(e),
        },
{
    let mut out: Vec<Record> = Vec::new();
    let mut pos: usize = 0;
    proof {
        assert(input@.skip(0) =~= input@);
        if spec_decode_stream(input@) is Ok {
            assert(record_views(out@) + spec_decode_stream(input@)->Ok_0 =~= spec_decode_stream(
                input@,
            )->Ok_0);
        }
    }
    while pos < input.len()
        invariant
            pos <= input@.len(),
            spec_decode_stream(input@) == (match spec_decode_stream(input@.skip(pos as int)) {
                Ok(rest) => Ok::<Seq<RecordV>, DecodeError>(record_views(out@) + rest),
                Err(e) => Err::<Seq<RecordV>, DecodeError>(e),
            }),
        decreases input@.len() - pos,
    {
        let ghost b = input@.skip(pos as int);
        match parse_record(input, pos) {
            Err(e) => {
                proof {
                    assert(b.len() == input@.len() - pos);
                    if b.len() >= 4 {
                        assert(b[2] == input@[pos + 2]);
                        assert(b[3] == input@[pos + 3]);
                        assert(le_u16_at(b, 2) == le_u16_at(input@, pos + 2));
                        assert(b.len() < 4 + le_u16_at(b, 2));
                    }
                    assert(spec_decode_stream(b) == Err::<Seq<RecordV>, DecodeError>(
                        DecodeError::UnexpectedEof,
                    ));
                }
                return Err(e);
            },
            Ok((raw, next)) => {
                proof {
                    assert(b[0] == input@[pos as int]);
                    assert(b[1] == input@[pos + 1]);
                    assert(b[2] == input@[pos + 2]);
                    assert(b[3] == input@[pos + 3]);
                    assert(raw.tag == le_u16_at(b, 0));
                    assert(raw.len == le_u16_at(b, 2));
                    assert(b.len() >= 4 + raw.len);
                    assert(b.subrange(4, 4 + raw.len as int) =~= input@.subrange(
                        pos + 4,
                        next as int,
                    ));
                    assert(b.skip(4 + raw.len as int) =~= input@.skip(next as int));
                    assert(raw.payload@ == b.subrange(4, 4 + le_u16_at(b, 2)));
                }
                match get_record(&raw) {
                    Err(e) => {
                        proof {
                            assert(spec_decode_stream(b) == Err::<Seq<RecordV>, DecodeError>(e));
                        }
                        return Err(e);
                    },
                    Ok(rec) => {
                        proof {
                            assert(record_views(out@.push(rec)) =~= record_views(out@) + seq![
                                rec@,
                            ]);
                            assert(forall|rest: Seq<RecordV>|
                                (record_views(out@) + (seq![rec@] + rest)) =~= (record_views(
                                    out@.push(rec),
                                ) + rest));
                        }
                        out.push(rec);
                        pos = next;
                    },
                }
            },
        }
    }
    proof {
        assert(input@.skip(pos as int) =~= Seq::<u8>::empty());
        assert(record_views(out@) + Seq::<RecordV>::empty() =~= record_views(out@));
    }
    Ok(out)
}

} // verus!
