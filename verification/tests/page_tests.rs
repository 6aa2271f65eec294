use primitive_page::column::PrimitiveArray;
use primitive_page::page::{CompressionCodec, Encoding, PageError, PageV1};
use primitive_page::read::{read_values, split_page_buffer};
use primitive_page::write::array_to_page_v1;

/// Encode a column with no compression and hand back the page.
fn page_of_i32(opts: &[Option<i32>], codec: CompressionCodec) -> PageV1 {
    let arr = PrimitiveArray::from_options(&opts.to_vec(), 0i32);
    array_to_page_v1(&arr, codec).unwrap().into_v1()
}

/// Split an uncompressed page buffer into the encoded definition levels and
/// the value payload, checking the 4-byte little-endian length prefix.
fn split_blob(buffer: &[u8]) -> (Vec<u8>, Vec<u8>) {
    let (enc, payload) = split_page_buffer(&buffer.to_vec()).unwrap();
    // the same split, done by hand, must agree
    let len = u32::from_le_bytes([buffer[0], buffer[1], buffer[2], buffer[3]]) as usize;
    assert_eq!(enc, &buffer[4..4 + len]);
    assert_eq!(payload, &buffer[4 + len..]);
    (enc, payload)
}

/// Decode a definition-level stream with parquet2's hybrid-RLE decoder.
fn decode_def_levels(enc: &[u8], num_values: usize) -> Vec<bool> {
    let decoder =
        parquet2::encoding::hybrid_rle::HybridRleDecoder::try_new(enc, 1, num_values).unwrap();
    decoder.map(|v| v.unwrap() == 1).collect()
}

#[test]
fn column_with_nulls_i32() {
    let page = page_of_i32(&[Some(1), None, Some(3)], CompressionCodec::Uncompressed);
    assert_eq!(page.header.num_values, 3);
    assert_eq!(page.header.encoding, Encoding::Plain);
    assert_eq!(page.header.definition_level_encoding, Encoding::Rle);
    assert_eq!(page.header.repetition_level_encoding, Encoding::Rle);
    assert_eq!(page.compression, CompressionCodec::Uncompressed);
    assert_eq!(page.uncompressed_page_size, page.buffer.len());

    let (enc, payload) = split_blob(&page.buffer);
    // value payload: 1 and 3 as 4-byte little-endian words, the null skipped
    assert_eq!(payload, vec![1, 0, 0, 0, 3, 0, 0, 0]);
    // the definition-level stream decodes to the validity flags
    assert_eq!(decode_def_levels(&enc, 3), vec![true, false, true]);
}

#[test]
fn empty_column() {
    let page = page_of_i32(&[], CompressionCodec::Uncompressed);
    assert_eq!(page.header.num_values, 0);
    let (enc, payload) = split_blob(&page.buffer);
    assert!(payload.is_empty());
    assert_eq!(decode_def_levels(&enc, 0), Vec::<bool>::new());
}

#[test]
fn empty_column_no_validity() {
    let arr = PrimitiveArray::<i32>::new(Vec::new(), None).unwrap();
    let page = array_to_page_v1(&arr, CompressionCodec::Uncompressed)
        .unwrap()
        .into_v1();
    assert_eq!(page.header.num_values, 0);
    assert_eq!(page.buffer, vec![0, 0, 0, 0]);
    assert_eq!(page.uncompressed_page_size, 4);
}

#[test]
fn no_validity_indicator() {
    let arr = PrimitiveArray::new(vec![1i32, 2, 3], None).unwrap();
    let page = array_to_page_v1(&arr, CompressionCodec::Uncompressed)
        .unwrap()
        .into_v1();
    assert_eq!(page.header.num_values, 3);
    // the 4-byte length prefix is present and zero; the payload follows it
    let (enc, payload) = split_blob(&page.buffer);
    assert!(enc.is_empty());
    assert_eq!(payload, vec![1, 0, 0, 0, 2, 0, 0, 0, 3, 0, 0, 0]);
}

#[test]
fn payload_length_counts_present_values_only() {
    // 5 slots, 3 present: payload is 3 * 4 bytes
    let page = page_of_i32(
        &[Some(9), None, Some(-2), None, Some(7)],
        CompressionCodec::Uncompressed,
    );
    let (_, payload) = split_blob(&page.buffer);
    assert_eq!(payload.len(), 3 * 4);

    // 4 slots, all present: payload is 4 * 4 bytes
    let page = page_of_i32(
        &[Some(1), Some(2), Some(3), Some(4)],
        CompressionCodec::Uncompressed,
    );
    let (_, payload) = split_blob(&page.buffer);
    assert_eq!(payload.len(), 4 * 4);
}

#[test]
fn length_prefix_is_encoded_stream_length() {
    let page = page_of_i32(&[Some(1), None, Some(3)], CompressionCodec::Uncompressed);
    let len =
        u32::from_le_bytes([page.buffer[0], page.buffer[1], page.buffer[2], page.buffer[3]]);
    // flags [1,0,1] bit-pack into one group: a one-byte header and one byte of bits
    assert_eq!(len, 2);
    assert_eq!(&page.buffer[4..6], &[0b0000_0011, 0b0000_0101]);
}

#[test]
fn uncompressed_size_fixed_before_compression() {
    let opts: Vec<Option<i32>> = (0..200)
        .map(|i| if i % 3 == 0 { None } else { Some(i) })
        .collect();
    let plain = page_of_i32(&opts, CompressionCodec::Uncompressed);
    for codec in [CompressionCodec::Snappy, CompressionCodec::Gzip] {
        let page = page_of_i32(&opts, codec);
        assert_eq!(page.uncompressed_page_size, plain.buffer.len());
        assert_eq!(page.compression, codec);
    }
}

#[test]
fn snappy_round_trip() {
    let opts = vec![Some(7i32), None, None, Some(-1)];
    let plain = page_of_i32(&opts, CompressionCodec::Uncompressed);
    let page = page_of_i32(&opts, CompressionCodec::Snappy);
    // selecting a codec compresses the whole blob as one unit
    assert_ne!(page.buffer, plain.buffer);
    let mut blob = vec![0u8; page.uncompressed_page_size];
    parquet2::compression::decompress(
        parquet2::compression::Compression::Snappy,
        &page.buffer,
        &mut blob,
    )
    .unwrap();
    assert_eq!(blob, plain.buffer);

    // a conforming reader reproduces the column exactly
    let (enc, payload) = split_blob(&blob);
    let flags = decode_def_levels(&enc, 4);
    let got: Vec<Option<i32>> = read_values(&payload, &flags).unwrap();
    assert_eq!(got, opts);
}

#[test]
fn round_trip_no_validity() {
    let arr = PrimitiveArray::new(vec![10i32, -20, 30], None).unwrap();
    let page = array_to_page_v1(&arr, CompressionCodec::Uncompressed)
        .unwrap()
        .into_v1();
    let (_, payload) = split_blob(&page.buffer);
    let flags = vec![true, true, true];
    let got: Vec<Option<i32>> = read_values(&payload, &flags).unwrap();
    assert_eq!(got, vec![Some(10), Some(-20), Some(30)]);
}

#[test]
fn i64_round_trip() {
    let opts = vec![
        Some(i64::MAX),
        None,
        Some(i64::MIN),
        Some(-1),
        Some(0x0102_0304_0506_0708),
    ];
    let arr = PrimitiveArray::from_options(&opts, 0i64);
    let page = array_to_page_v1(&arr, CompressionCodec::Uncompressed)
        .unwrap()
        .into_v1();
    assert_eq!(page.header.num_values, 5);
    let (enc, payload) = split_blob(&page.buffer);
    assert_eq!(payload.len(), 4 * 8);
    assert_eq!(&payload[24..32], &[8, 7, 6, 5, 4, 3, 2, 1]);
    let flags = decode_def_levels(&enc, 5);
    let got: Vec<Option<i64>> = read_values(&payload, &flags).unwrap();
    assert_eq!(got, opts);
}

#[test]
fn unavailable_codec_reports_compression_failure() {
    let opts = vec![Some(1i32), Some(2)];
    let plain = page_of_i32(&opts, CompressionCodec::Uncompressed);
    let arr = PrimitiveArray::from_options(&opts, 0i32);
    let err = array_to_page_v1(&arr, CompressionCodec::Lzo).unwrap_err();
    assert_eq!(
        err,
        PageError::CompressionFailure {
            codec: CompressionCodec::Lzo,
            input_size: plain.buffer.len(),
        }
    );
}

#[test]
fn read_values_rejects_size_mismatch() {
    // payload too short for the flags
    let r: Option<Vec<Option<i32>>> = read_values(&[1, 0, 0], &vec![true]);
    assert!(r.is_none());
    // payload longer than the flags account for
    let r: Option<Vec<Option<i32>>> = read_values(&[1, 0, 0, 0, 9], &vec![true]);
    assert!(r.is_none());
    // exact fit parses
    let r: Option<Vec<Option<i32>>> = read_values(&[1, 0, 0, 0], &vec![true, false]);
    assert_eq!(r.unwrap(), vec![Some(1), None]);
}

#[test]
fn all_present_validity_returns_ok() {
    // a validity indicator with every bit true is not the same input as no
    // indicator: the stream is still encoded, and encoding still succeeds
    let arr = PrimitiveArray::new(vec![1i32, 2], Some(vec![true, true])).unwrap();
    let page = array_to_page_v1(&arr, CompressionCodec::Uncompressed)
        .unwrap()
        .into_v1();
    let (enc, payload) = split_blob(&page.buffer);
    assert!(!enc.is_empty());
    assert_eq!(decode_def_levels(&enc, 2), vec![true, true]);
    assert_eq!(payload, vec![1, 0, 0, 0, 2, 0, 0, 0]);
}

#[test]
fn repeated_calls_are_byte_identical() {
    let opts = [Some(4i32), None, Some(5)];
    for codec in [CompressionCodec::Uncompressed, CompressionCodec::Snappy] {
        let a = page_of_i32(&opts, codec);
        let b = page_of_i32(&opts, codec);
        assert_eq!(a.buffer, b.buffer);
        assert_eq!(a.header, b.header);
        assert_eq!(a.uncompressed_page_size, b.uncompressed_page_size);
    }
}

#[test]
fn split_rejects_truncated_buffers() {
    assert!(split_page_buffer(&vec![0, 0]).is_none());
    // prefix declares 5 bytes, only 2 follow
    assert!(split_page_buffer(&vec![5, 0, 0, 0, 1, 2]).is_none());
    let (enc, payload) = split_page_buffer(&vec![2, 0, 0, 0, 9, 8, 7]).unwrap();
    assert_eq!(enc, vec![9, 8]);
    assert_eq!(payload, vec![7]);
}

#[test]
fn new_rejects_length_mismatch() {
    assert!(PrimitiveArray::new(vec![1i32, 2], Some(vec![true])).is_none());
    assert!(PrimitiveArray::new(vec![1i32, 2], Some(vec![true, false])).is_some());
}
