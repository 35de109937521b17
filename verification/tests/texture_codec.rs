use purpl::texture::{
    cobs_decode, cobs_encode, push_varint, Pixel, RgbPixel, RgbaPixel, Texture, TextureError,
    TextureReader, TEXTURE_VERSION,
};

fn varint_bytes(n: u32) -> Vec<u8> {
    let mut out = Vec::new();
    push_varint(&mut out, n);
    out
}

#[test]
fn varints_match_the_standard_wire_encoding() {
    assert_eq!(varint_bytes(0), vec![0]);
    assert_eq!(varint_bytes(127), vec![127]);
    assert_eq!(varint_bytes(128), vec![128, 1]);
    assert_eq!(varint_bytes(300), vec![0xAC, 0x02]);
    assert_eq!(varint_bytes(u32::MAX), vec![0xFF, 0xFF, 0xFF, 0xFF, 0x0F]);
    // Cross-check against an independent serializer of the same wire format.
    for n in [0u32, 1, 127, 128, 300, 16_383, 16_384, 1 << 21, u32::MAX] {
        assert_eq!(varint_bytes(n), postcard::to_allocvec(&n).unwrap());
    }
}

#[test]
fn framing_matches_the_reference_byte_stuffing() {
    // An independent serializer of the same wire format frames a byte slice
    // as its varint length plus the raw bytes, zero-free with the sentinel.
    for payload in [
        vec![],
        vec![0u8],
        vec![1, 2, 3],
        vec![1, 0, 2, 0, 0, 3],
        vec![0, 0, 0],
        (1..=255u8).cycle().take(300).collect::<Vec<u8>>(),
        vec![7; 253],
        vec![7; 254],
        vec![7; 255],
    ] {
        let mut message = Vec::new();
        push_varint(&mut message, payload.len() as u32);
        message.extend_from_slice(&payload);
        let expected = postcard::to_allocvec_cobs(&payload.as_slice()).unwrap();
        assert_eq!(cobs_encode(&message), expected, "payload {payload:?}");
        assert_eq!(cobs_decode(&cobs_encode(&message)), Some(message.clone()));
    }
}

#[test]
fn framing_handles_the_simple_shapes() {
    // The empty message is one empty block and the sentinel.
    assert_eq!(cobs_encode(&vec![]), vec![1, 0]);
    // A zero splits blocks; trailing non-zero bytes form the final block.
    assert_eq!(cobs_encode(&vec![1, 0, 2]), vec![2, 1, 2, 2, 0]);
    // A trailing zero leaves an empty final block.
    assert_eq!(cobs_encode(&vec![1, 0]), vec![2, 1, 1, 0]);
    assert_eq!(cobs_decode(&vec![1, 0]), Some(vec![]));
}

#[test]
fn malformed_frames_are_rejected() {
    // Too-short block for its header.
    assert_eq!(cobs_decode(&vec![5, 1, 2, 0]), None);
    // A zero inside a block.
    assert_eq!(cobs_decode(&vec![4, 1, 0, 2, 0]), None);
    // Bytes after the sentinel.
    assert_eq!(cobs_decode(&vec![2, 1, 0, 9]), None);
    // Empty input.
    assert_eq!(cobs_decode(&vec![]), None);
}

#[test]
fn a_new_texture_packs_one_compressed_frame_per_pixel() {
    let pixel = Pixel::Rgb(RgbPixel { r: 1, g: 2, b: 3 });
    let t = Texture::new(pixel, 16, 8, vec![pixel]).unwrap();
    assert_eq!(t.version(), TEXTURE_VERSION);
    assert_eq!(t.size(), (16, 8));
    assert!(matches!(t.format(), Pixel::Rgb(_)));
    // The payload is the compressed framed pixel message; decompressing it
    // with the real compressor yields the frame of [tag, r, g, b].
    let decompressed = zstd::bulk::decompress(t.data(), 1 << 20).unwrap();
    assert_eq!(decompressed, vec![1, 4, 1, 2, 3, 0]);

    let reader = TextureReader::new(t);
    assert_eq!(reader.offset, 0);
}

#[test]
fn textures_survive_the_byte_round_trip() {
    // Compose the texture message by hand: version, format pixel, width,
    // height, payload length, payload.
    let mut message = Vec::new();
    push_varint(&mut message, TEXTURE_VERSION);
    message.extend_from_slice(&[1, 10, 20, 30, 40]); // an alpha pixel as format
    push_varint(&mut message, 300); // width
    push_varint(&mut message, 200); // height
    let payload = vec![5u8, 0, 6, 0, 7];
    push_varint(&mut message, payload.len() as u32);
    message.extend_from_slice(&payload);

    let framed = cobs_encode(&message);
    let bytes = zstd::bulk::compress(&framed, zstd::DEFAULT_COMPRESSION_LEVEL).unwrap();
    let t = Texture::from_bytes(bytes).unwrap();
    assert_eq!(t.version(), TEXTURE_VERSION);
    assert_eq!(t.size(), (300, 200));
    match t.format() {
        Pixel::Rgba(RgbaPixel { r, g, b, a }) => {
            assert_eq!((*r, *g, *b, *a), (10, 20, 30, 40));
        }
        other => panic!("wrong format {other:?}"),
    }
    assert_eq!(t.data(), &payload);
}

#[test]
fn bytes_that_do_not_decompress_are_an_io_error() {
    let result = Texture::from_bytes(vec![1, 2, 3, 4]);
    assert!(matches!(result, Err(TextureError::Io(_))));
}

#[test]
fn bytes_that_decompress_to_garbage_are_a_decode_error() {
    // A well-compressed but malformed frame.
    let bytes = zstd::bulk::compress(&[9u8, 9, 9], zstd::DEFAULT_COMPRESSION_LEVEL).unwrap();
    assert!(matches!(Texture::from_bytes(bytes), Err(TextureError::Decode)));

    // A well-formed frame holding a truncated message.
    let framed = cobs_encode(&vec![1u8]);
    let bytes = zstd::bulk::compress(&framed, zstd::DEFAULT_COMPRESSION_LEVEL).unwrap();
    assert!(matches!(Texture::from_bytes(bytes), Err(TextureError::Decode)));
}

#[test]
fn pixels_convert_into_the_format_marker() {
    let p: Pixel = RgbPixel { r: 1, g: 2, b: 3 }.into();
    assert!(matches!(p, Pixel::Rgb(_)));
    let p: Pixel = RgbaPixel { r: 1, g: 2, b: 3, a: 4 }.into();
    assert!(matches!(p, Pixel::Rgba(_)));
}
