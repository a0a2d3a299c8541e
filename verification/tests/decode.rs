use wks::decoder::{decode_stream, get_record};
use wks::framer::{frame_records, parse_record};
use wks::records::{CalcMode, CalcOrder, DecodeError, RawRecord, Record, SplitType};

fn raw(tag: u16, payload: Vec<u8>) -> RawRecord {
    RawRecord { tag, len: payload.len() as u16, payload }
}

#[test]
fn framing_complete_back_to_back() {
    // Two well-formed records laid back-to-back frame into exactly two
    // records in original order, and 4 + len summed over them is the
    // buffer length.
    let buf: Vec<u8> = vec![
        0x00, 0x00, 0x02, 0x00, 0x06, 0x04, // BeginningOfFile, version 0x0406
        0x01, 0x00, 0x00, 0x00, // EndOfFile, empty payload
    ];
    let recs = frame_records(&buf).unwrap();
    assert_eq!(recs.len(), 2);
    assert_eq!(recs[0].tag, 0x00);
    assert_eq!(recs[0].len, 2);
    assert_eq!(recs[0].payload, vec![0x06, 0x04]);
    assert_eq!(recs[1].tag, 0x01);
    assert_eq!(recs[1].len, 0);
    assert_eq!(recs[1].payload, Vec::<u8>::new());
    let total: usize = recs.iter().map(|r| 4 + r.len as usize).sum();
    assert_eq!(total, buf.len());
}

#[test]
fn framing_truncated_header() {
    let buf: Vec<u8> = vec![0x00, 0x00, 0x02];
    assert_eq!(frame_records(&buf), Err(DecodeError::UnexpectedEof));
    assert_eq!(decode_stream(&buf), Err(DecodeError::UnexpectedEof));
}

#[test]
fn framing_truncated_payload() {
    // Header promises 5 payload bytes; only 2 follow.
    let buf: Vec<u8> = vec![0x07, 0x00, 0x05, 0x00, 0xAA, 0xBB];
    assert_eq!(frame_records(&buf), Err(DecodeError::UnexpectedEof));
    assert_eq!(decode_stream(&buf), Err(DecodeError::UnexpectedEof));
    // The fragment alone fails the same way after a whole record.
    let buf2: Vec<u8> = vec![0x01, 0x00, 0x00, 0x00, 0x07, 0x00, 0x05, 0x00, 0xAA, 0xBB];
    assert_eq!(frame_records(&buf2), Err(DecodeError::UnexpectedEof));
}

#[test]
fn parse_record_consumes_exactly_one() {
    let buf: Vec<u8> = vec![0x0D, 0x00, 0x01, 0x00, 0x42, 0x01, 0x00, 0x00, 0x00];
    let (r, next) = parse_record(&buf, 0).unwrap();
    assert_eq!(r.tag, 0x0D);
    assert_eq!(r.len, 1);
    assert_eq!(r.payload, vec![0x42]);
    assert_eq!(next, 5);
    let (r2, next2) = parse_record(&buf, next).unwrap();
    assert_eq!(r2.tag, 0x01);
    assert_eq!(r2.len, 0);
    assert_eq!(next2, buf.len());
}

#[test]
fn decoder_totality_unknown_tags() {
    // Every tag decodes to some record; unrecognized tags are Unknown,
    // never an error, whatever the payload.
    assert_eq!(get_record(&raw(0x11, vec![])), Ok(Record::Unknown(0x11)));
    assert_eq!(get_record(&raw(0x1E, vec![1, 2, 3])), Ok(Record::Unknown(0x1E)));
    assert_eq!(get_record(&raw(0x22, vec![])), Ok(Record::Unknown(0x22)));
    assert_eq!(get_record(&raw(0x29, vec![0xFF])), Ok(Record::Unknown(0x29)));
    assert_eq!(get_record(&raw(0xBEEF, vec![])), Ok(Record::Unknown(0xBEEF)));
    assert_eq!(get_record(&raw(0xFFFF, vec![])), Ok(Record::Unknown(0xFFFF)));
}

#[test]
fn decoder_marker_tags() {
    assert_eq!(get_record(&raw(0x01, vec![])), Ok(Record::EndOfFile));
    assert_eq!(get_record(&raw(0x07, vec![])), Ok(Record::Window1));
    assert_eq!(get_record(&raw(0x0B, vec![1, 2])), Ok(Record::NamedRange));
    assert_eq!(get_record(&raw(0x10, vec![])), Ok(Record::FormulaCell));
    assert_eq!(get_record(&raw(0x18, vec![])), Ok(Record::DataRange));
    assert_eq!(get_record(&raw(0x1D, vec![])), Ok(Record::SortKeyRange1));
    assert_eq!(get_record(&raw(0x20, vec![])), Ok(Record::DistRange));
    assert_eq!(get_record(&raw(0x23, vec![])), Ok(Record::SortKeyRange2));
    assert_eq!(get_record(&raw(0x28, vec![])), Ok(Record::PrintMargins));
}

#[test]
fn calc_mode_mapping_exact() {
    assert_eq!(
        get_record(&raw(0x02, vec![0x00])),
        Ok(Record::CalcMode(CalcMode::Manual))
    );
    assert_eq!(
        get_record(&raw(0x02, vec![0x01])),
        Ok(Record::CalcMode(CalcMode::Automatic))
    );
    assert_eq!(
        get_record(&raw(0x02, vec![0xFF])),
        Ok(Record::CalcMode(CalcMode::Automatic))
    );
    assert_eq!(
        get_record(&raw(0x02, vec![0x02])),
        Err(DecodeError::InvalidEnumValue { tag: 0x02, byte: 0x02 })
    );
    assert_eq!(
        get_record(&raw(0x02, vec![0x7F])),
        Err(DecodeError::InvalidEnumValue { tag: 0x02, byte: 0x7F })
    );
}

#[test]
fn calc_order_mapping_exact() {
    assert_eq!(
        get_record(&raw(0x03, vec![0x00])),
        Ok(Record::CalcOrder(CalcOrder::Natural))
    );
    assert_eq!(
        get_record(&raw(0x03, vec![0x01])),
        Ok(Record::CalcOrder(CalcOrder::ByColumn))
    );
    assert_eq!(
        get_record(&raw(0x03, vec![0xFF])),
        Ok(Record::CalcOrder(CalcOrder::ByRow))
    );
    assert_eq!(
        get_record(&raw(0x03, vec![0x05])),
        Err(DecodeError::InvalidEnumValue { tag: 0x03, byte: 0x05 })
    );
}

#[test]
fn split_type_mapping_exact() {
    assert_eq!(
        get_record(&raw(0x04, vec![0x00])),
        Ok(Record::SplitType(SplitType::NotSplit))
    );
    assert_eq!(
        get_record(&raw(0x04, vec![0x01])),
        Ok(Record::SplitType(SplitType::VerticalSplit))
    );
    assert_eq!(
        get_record(&raw(0x04, vec![0xFF])),
        Ok(Record::SplitType(SplitType::HorizontalSplit))
    );
    assert_eq!(
        get_record(&raw(0x04, vec![0x80])),
        Err(DecodeError::InvalidEnumValue { tag: 0x04, byte: 0x80 })
    );
}

#[test]
fn split_sync_true_only_on_ff() {
    assert_eq!(get_record(&raw(0x05, vec![0xFF])), Ok(Record::SplitSync(true)));
    assert_eq!(get_record(&raw(0x05, vec![0x00])), Ok(Record::SplitSync(false)));
    assert_eq!(get_record(&raw(0x05, vec![0x01])), Ok(Record::SplitSync(false)));
}

#[test]
fn beginning_of_file_version() {
    assert_eq!(
        get_record(&raw(0x00, vec![0x06, 0x04])),
        Ok(Record::BeginningOfFile { version: 0x0406 })
    );
}

#[test]
fn active_range_fields() {
    let p = vec![0x01, 0x00, 0x02, 0x00, 0x03, 0x01, 0x04, 0x01];
    assert_eq!(
        get_record(&raw(0x06, p)),
        Ok(Record::ActiveRange {
            start_col: 1,
            start_row: 2,
            end_col: 0x0103,
            end_row: 0x0104,
        })
    );
}

#[test]
fn blank_and_integer_cells() {
    assert_eq!(
        get_record(&raw(0x0C, vec![0x07, 0x03, 0x00, 0x09, 0x00])),
        Ok(Record::BlankCell { format: 7, col: 3, row: 9 })
    );
    assert_eq!(
        get_record(&raw(0x0D, vec![0x00, 0x01, 0x00, 0x02, 0x00, 0x39, 0x30])),
        Ok(Record::IntegerCell { format: 0, col: 1, row: 2, val: 0x3039 })
    );
}

#[test]
fn float_cell_bits_of_one_point_eight() {
    // The 8 bytes of the IEEE-754 double 1.8 at offset 5 decode to exactly
    // that number.
    let mut p = vec![0x00, 0x01, 0x00, 0x02, 0x00];
    p.extend_from_slice(&1.8f64.to_le_bytes());
    match get_record(&raw(0x0E, p)).unwrap() {
        Record::FloatCell { format, col, row, val_bits } => {
            assert_eq!(format, 0);
            assert_eq!(col, 1);
            assert_eq!(row, 2);
            assert_eq!(f64::from_bits(val_bits), 1.8);
        }
        other => panic!("expected a FloatCell, got {:?}", other),
    }
}

#[test]
fn label_cell_text() {
    let mut p = vec![0x00, 0x01, 0x00, 0x02, 0x00];
    p.extend_from_slice("test".as_bytes());
    assert_eq!(
        get_record(&raw(0x0F, p)),
        Ok(Record::LabelCell { format: 0, col: 1, row: 2, val: "test".to_string() })
    );
}

#[test]
fn label_cell_multibyte_text() {
    // Non-ASCII UTF-8: the two bytes 0xC3 0xA9 are the one character 'é'.
    let mut p = vec![0x01, 0x05, 0x00, 0x06, 0x00];
    p.extend_from_slice("élan".as_bytes());
    assert_eq!(
        get_record(&raw(0x0F, p)),
        Ok(Record::LabelCell { format: 1, col: 5, row: 6, val: "élan".to_string() })
    );
}

#[test]
fn label_cell_invalid_utf8() {
    let p = vec![0x00, 0x01, 0x00, 0x02, 0x00, 0xFF, 0xFE];
    assert_eq!(
        get_record(&raw(0x0F, p)),
        Err(DecodeError::Utf8DecodeError { tag: 0x0F })
    );
}

#[test]
fn malformed_too_short_payloads() {
    assert_eq!(
        get_record(&raw(0x00, vec![0x06])),
        Err(DecodeError::MalformedRecord { tag: 0x00, expected_min: 2, actual: 1 })
    );
    assert_eq!(
        get_record(&raw(0x02, vec![])),
        Err(DecodeError::MalformedRecord { tag: 0x02, expected_min: 1, actual: 0 })
    );
    assert_eq!(
        get_record(&raw(0x06, vec![0x01, 0x00, 0x02, 0x00])),
        Err(DecodeError::MalformedRecord { tag: 0x06, expected_min: 8, actual: 4 })
    );
    assert_eq!(
        get_record(&raw(0x0E, vec![0x00, 0x01, 0x00, 0x02, 0x00, 0x01, 0x02])),
        Err(DecodeError::MalformedRecord { tag: 0x0E, expected_min: 13, actual: 7 })
    );
    assert_eq!(
        get_record(&raw(0x0F, vec![0x00, 0x01, 0x00])),
        Err(DecodeError::MalformedRecord { tag: 0x0F, expected_min: 5, actual: 3 })
    );
}

#[test]
fn label_cell_empty_text_is_ok() {
    // Exactly the 5 fixed bytes: the text spans [5..5), the empty string.
    let p = vec![0x00, 0x01, 0x00, 0x02, 0x00];
    assert_eq!(
        get_record(&raw(0x0F, p)),
        Ok(Record::LabelCell { format: 0, col: 1, row: 2, val: String::new() })
    );
}

#[test]
fn end_to_end_label_stream() {
    // tag 0x0F, length L = 9, then format 0x00, col 0x0001, row 0x0002,
    // then the 4 UTF-8 bytes of "test".
    let mut buf: Vec<u8> = vec![0x0F, 0x00, 0x09, 0x00, 0x00, 0x01, 0x00, 0x02, 0x00];
    buf.extend_from_slice("test".as_bytes());
    let recs = decode_stream(&buf).unwrap();
    assert_eq!(recs.len(), 1);
    assert_eq!(
        recs[0],
        Record::LabelCell { format: 0, col: 1, row: 2, val: "test".to_string() }
    );
}

#[test]
fn decode_stream_stops_at_first_error() {
    // A bad CalcMode byte aborts the decode even though a whole record
    // follows it.
    let buf: Vec<u8> = vec![
        0x00, 0x00, 0x02, 0x00, 0x06, 0x04, // BeginningOfFile
        0x02, 0x00, 0x01, 0x00, 0x33, // CalcMode with an invalid byte
        0x01, 0x00, 0x00, 0x00, // EndOfFile
    ];
    assert_eq!(
        decode_stream(&buf),
        Err(DecodeError::InvalidEnumValue { tag: 0x02, byte: 0x33 })
    );
}

#[test]
fn decode_stream_whole_file() {
    let mut buf: Vec<u8> = vec![
        0x00, 0x00, 0x02, 0x00, 0x06, 0x04, // BeginningOfFile, version 0x0406
        0x02, 0x00, 0x01, 0x00, 0xFF, // CalcMode Automatic
        0x0D, 0x00, 0x07, 0x00, 0x00, 0x03, 0x00, 0x04, 0x00, 0x2A, 0x00, // IntegerCell
    ];
    buf.extend_from_slice(&[0x0F, 0x00, 0x07, 0x00, 0x00, 0x01, 0x00, 0x02, 0x00]);
    buf.extend_from_slice("hi".as_bytes());
    buf.extend_from_slice(&[0x01, 0x00, 0x00, 0x00]); // EndOfFile
    let recs = decode_stream(&buf).unwrap();
    assert_eq!(
        recs,
        vec![
            Record::BeginningOfFile { version: 0x0406 },
            Record::CalcMode(CalcMode::Automatic),
            Record::IntegerCell { format: 0, col: 3, row: 4, val: 42 },
            Record::LabelCell { format: 0, col: 1, row: 2, val: "hi".to_string() },
            Record::EndOfFile,
        ]
    );
}

#[test]
fn empty_buffer_decodes_to_nothing() {
    let buf: Vec<u8> = vec![];
    assert_eq!(decode_stream(&buf), Ok(vec![]));
    assert_eq!(frame_records(&buf), Ok(vec![]));
}
