use imagecrypt::{
    classify_input, InputKind,
    decrypt, encrypt, frame_offsets, generate, hex_to_key, key_to_hex, offset_for,
    transform_frames, transform_sequence, xor_buffers, xor_image, CryptError, Frame,
    FrameSequence, GIFImageCrypt, PNGImageCrypt,
};

fn frame_of(width: u32, height: u32, channels: u32, seed: u8) -> Frame {
    let n = (width * height * channels) as usize;
    let data: Vec<u8> = (0..n).map(|i| (i as u8).wrapping_mul(7).wrapping_add(seed)).collect();
    Frame::new(width, height, channels, data).unwrap()
}

fn frames_of(seq: &FrameSequence) -> Vec<Vec<u8>> {
    (0..seq.frame_count()).map(|i| seq.frame(i).data.clone()).collect()
}

fn from_hex(s: &str) -> Vec<u8> {
    hex::decode(s).unwrap()
}

const AES256_ZERO_KEY_ZERO_BLOCK: &str = "dc95c078a2408989ad48a21492842087";

#[test]
fn zero_frame_under_zero_key_is_first_block() {
    let frame = Frame::new(2, 2, 4, vec![0u8; 16]).unwrap();
    let seq = FrameSequence::single(frame);
    let out = transform_sequence(&seq, &[0u8; 32]);
    assert_eq!(out.frame(0).data, from_hex(AES256_ZERO_KEY_ZERO_BLOCK));
    assert_eq!(out.frame(0).width, 2);
    assert_eq!(out.frame(0).height, 2);
    assert_eq!(out.frame(0).channels, 4);
}

#[test]
fn keystream_first_block_under_zero_key() {
    let pad = generate(&[0u8; 32], 0, 16);
    assert_eq!(pad, from_hex(AES256_ZERO_KEY_ZERO_BLOCK));
}

#[test]
fn multi_sequence_round_trip() {
    let frames = vec![frame_of(4, 4, 4, 1), frame_of(4, 4, 4, 2), frame_of(4, 4, 4, 3)];
    let originals: Vec<Vec<u8>> = frames.iter().map(|f| f.data.clone()).collect();
    let seq = FrameSequence::multi(frames, vec![10, 20, 30]).unwrap();
    let (enc, key) = encrypt(&seq);
    assert_ne!(frames_of(&enc), originals);
    let dec = decrypt(&enc, &key_to_hex(&key)).unwrap();
    assert_eq!(frames_of(&dec), originals);
    match dec {
        FrameSequence::Multi { delays, .. } => assert_eq!(delays, vec![10, 20, 30]),
        FrameSequence::Single(_) => panic!("kind changed"),
    }
}

#[test]
fn decrypt_refuses_short_key() {
    let seq = FrameSequence::single(frame_of(2, 2, 4, 0));
    let key = "0".repeat(63);
    assert!(matches!(decrypt(&seq, &key), Err(CryptError::InvalidKey)));
}

#[test]
fn single_pixel_round_trip() {
    let seq = FrameSequence::single(Frame::new(1, 1, 4, vec![9, 8, 7, 6]).unwrap());
    let (enc, key) = encrypt(&seq);
    let dec = decrypt(&enc, &key_to_hex(&key)).unwrap();
    assert_eq!(dec.frame(0).data, vec![9, 8, 7, 6]);
    assert_eq!(dec.frame_count(), 1);
}

#[test]
fn two_frames_use_disjoint_offsets() {
    let lengths = vec![16usize, 36];
    let offsets = frame_offsets(&lengths);
    assert_eq!(offsets, vec![0u128, 16, 52]);
    let first: Vec<u128> = (offsets[0]..offsets[0] + 16).collect();
    let second: Vec<u128> = (offsets[1]..offsets[1] + 36).collect();
    assert!(first.iter().all(|o| !second.contains(o)));
    let key = [5u8; 32];
    let frames = vec![
        Frame::new(2, 2, 4, vec![0u8; 16]).unwrap(),
        Frame::new(3, 3, 4, vec![0u8; 36]).unwrap(),
    ];
    let out = transform_frames(&frames, &key);
    let whole = generate(&key, 0, 52);
    assert_eq!(out[0].data, whole[..16].to_vec());
    assert_eq!(out[1].data, whole[16..].to_vec());
    assert_ne!(out[0].data, out[1].data[..16].to_vec());
}

#[test]
fn transform_twice_restores_frame() {
    let key = [0x3cu8; 32];
    let seq = FrameSequence::single(frame_of(3, 2, 3, 11));
    let once = transform_sequence(&seq, &key);
    let twice = transform_sequence(&once, &key);
    assert_ne!(once.frame(0).data, seq.frame(0).data);
    assert_eq!(twice.frame(0).data, seq.frame(0).data);
}

#[test]
fn keystream_is_deterministic() {
    let key = [0xa7u8; 32];
    assert_eq!(generate(&key, 32, 100), generate(&key, 32, 100));
}

#[test]
fn keystream_does_not_depend_on_chunking() {
    let key = [1u8; 32];
    let whole = generate(&key, 0, 70);
    let mut pieces = generate(&key, 0, 5);
    pieces.extend(generate(&key, 5, 30));
    pieces.extend(generate(&key, 35, 35));
    assert_eq!(whole, pieces);
    assert_eq!(generate(&key, 16, 16), whole[16..32].to_vec());
    assert_ne!(generate(&key, 16, 16), whole[..16].to_vec());
}

#[test]
fn keystream_of_length_zero_is_empty() {
    assert!(generate(&[0u8; 32], 0, 0).is_empty());
    assert!(generate(&[0u8; 32], u128::MAX, 1).len() == 1);
}

#[test]
fn key_text_in_either_case_is_accepted() {
    let lower = "00112233445566778899aabbccddeeff00112233445566778899aabbccddeeff";
    let upper = lower.to_uppercase();
    let expected: Vec<u8> = from_hex(lower);
    assert_eq!(hex_to_key(lower).unwrap().to_vec(), expected);
    assert_eq!(hex_to_key(&upper).unwrap().to_vec(), expected);
    let mixed = "00112233445566778899AaBbCcDdEeFf00112233445566778899aabbccddeeff";
    assert_eq!(hex_to_key(mixed).unwrap().to_vec(), expected);
}

#[test]
fn malformed_key_text_is_refused() {
    let good = "ab".repeat(32);
    assert!(hex_to_key(&good).is_ok());
    for bad in [
        String::new(),
        "ab".repeat(31),
        "ab".repeat(33),
        format!("{}a", "ab".repeat(31)),
        format!("{}g", &good[..63]),
        format!("{} ", &good[..63]),
        format!("{}é", &good[..62]),
    ] {
        assert!(matches!(hex_to_key(&bad), Err(CryptError::InvalidKey)), "{}", bad);
    }
}

#[test]
fn key_text_is_lowercase_and_round_trips() {
    let key: [u8; 32] = core::array::from_fn(|i| (i as u8) * 8 + 0xa0u8.wrapping_mul(i as u8));
    let text = key_to_hex(&key);
    assert_eq!(text.len(), 64);
    assert_eq!(text, text.to_lowercase());
    assert_eq!(hex_to_key(&text).unwrap(), key);
    assert_eq!(key_to_hex(&[0xabu8; 32]), "ab".repeat(32));
}

#[test]
fn offsets_are_prefix_sums() {
    let lengths = vec![3usize, 0, 5, 7];
    assert_eq!(offset_for(0, &lengths), 0);
    assert_eq!(offset_for(1, &lengths), 3);
    assert_eq!(offset_for(2, &lengths), 3);
    assert_eq!(offset_for(3, &lengths), 8);
    assert_eq!(offset_for(4, &lengths), 15);
    assert_eq!(frame_offsets(&lengths), vec![0u128, 3, 3, 8, 15]);
    assert_eq!(frame_offsets(&vec![]), vec![0u128]);
    let big = vec![usize::MAX, usize::MAX];
    assert_eq!(offset_for(2, &big), 2 * (usize::MAX as u128));
}

#[test]
fn xor_of_unequal_buffers_is_refused() {
    assert!(matches!(
        xor_buffers(&vec![1, 2, 3], &vec![1, 2]),
        Err(CryptError::BufferLengthMismatch)
    ));
    assert_eq!(xor_buffers(&vec![0xf0, 0x0f, 0xff], &vec![0xff, 0xff, 0x0f]).unwrap(), vec![0x0f, 0xf0, 0xf0]);
    assert_eq!(xor_buffers(&vec![], &vec![]).unwrap(), Vec::<u8>::new());
}

#[test]
fn xor_image_keeps_dimensions() {
    let img = Frame::new(1, 2, 3, vec![1, 2, 3, 4, 5, 6]).unwrap();
    let pad = Frame::new(2, 1, 3, vec![1, 1, 1, 2, 2, 2]).unwrap();
    let out = xor_image(img, pad).unwrap();
    assert_eq!(out.data, vec![0, 3, 2, 6, 7, 4]);
    assert_eq!((out.width, out.height, out.channels), (1, 2, 3));
    let img = Frame::new(1, 1, 3, vec![1, 2, 3]).unwrap();
    let pad = Frame::new(1, 1, 4, vec![1, 2, 3, 4]).unwrap();
    assert!(matches!(xor_image(img, pad), Err(CryptError::BufferLengthMismatch)));
}

#[test]
fn frame_construction_checks_size() {
    assert!(Frame::new(2, 2, 3, vec![0u8; 12]).is_ok());
    assert!(matches!(Frame::new(2, 2, 3, vec![0u8; 11]), Err(CryptError::BufferLengthMismatch)));
    assert!(matches!(Frame::new(2, 2, 2, vec![0u8; 8]), Err(CryptError::UnsupportedInput)));
    assert!(Frame::new(0, 5, 4, vec![]).is_ok());
    assert!(matches!(Frame::new(u32::MAX, u32::MAX, 4, vec![]), Err(CryptError::BufferLengthMismatch)));
}

#[test]
fn multi_sequence_construction_checks_frames() {
    assert!(matches!(FrameSequence::multi(vec![], vec![]), Err(CryptError::UnsupportedInput)));
    assert!(matches!(
        FrameSequence::multi(vec![frame_of(1, 1, 4, 0)], vec![]),
        Err(CryptError::UnsupportedInput)
    ));
    assert!(matches!(
        FrameSequence::multi(vec![frame_of(1, 1, 4, 0), frame_of(1, 1, 3, 0)], vec![1, 1]),
        Err(CryptError::UnsupportedInput)
    ));
    let seq = FrameSequence::multi(vec![frame_of(1, 1, 4, 0), frame_of(2, 1, 4, 0)], vec![1, 1]).unwrap();
    assert_eq!(seq.frame_count(), 2);
    assert_eq!(seq.frame(1).width, 2);
}

#[test]
fn png_crypt_round_trip() {
    let c = PNGImageCrypt::new("in.png".to_string(), "out.png".to_string());
    assert_eq!(c.image_path, "in.png");
    assert_eq!(c.output_path, "out.png");
    let img = frame_of(3, 3, 4, 42);
    let (enc, key) = c.encrypt(&img);
    assert_ne!(enc.data, img.data);
    let dec = c.decrypt(&enc, &key_to_hex(&key)).unwrap();
    assert_eq!(dec.data, img.data);
    assert!(matches!(c.decrypt(&enc, "xyz"), Err(CryptError::InvalidKey)));
    assert_eq!(c.hex_to_key(&"00".repeat(32)).unwrap(), [0u8; 32]);
}

#[test]
fn gif_crypt_round_trip() {
    let frames = vec![frame_of(4, 4, 4, 1), frame_of(4, 4, 4, 2)];
    let c = GIFImageCrypt::new("in.gif".to_string(), "out".to_string(), frames);
    let (enc, key) = c.encrypt();
    assert_eq!(enc.len(), 2);
    let back = GIFImageCrypt::new("out".to_string(), "back.gif".to_string(), enc);
    let dec = back.decrypt(&key_to_hex(&key)).unwrap();
    assert_eq!(dec[0].data, frame_of(4, 4, 4, 1).data);
    assert_eq!(dec[1].data, frame_of(4, 4, 4, 2).data);
    assert!(matches!(back.decrypt(&"0".repeat(65)), Err(CryptError::InvalidKey)));
}

#[test]
fn generated_keys_differ() {
    let c = PNGImageCrypt::new(String::new(), String::new());
    assert_ne!(c.generate_key(), c.generate_key());
}

#[test]
fn inputs_are_classified_by_extension() {
    assert_eq!(classify_input("a.png", false), Ok(InputKind::Still));
    assert_eq!(classify_input("dir/a.jpg", false), Ok(InputKind::Still));
    assert_eq!(classify_input("a.jpeg", true), Ok(InputKind::Still));
    assert_eq!(classify_input("a.gif", false), Ok(InputKind::Animation));
    assert_eq!(classify_input("frames", true), Ok(InputKind::Animation));
    assert_eq!(classify_input("a.bmp", false), Err(CryptError::UnsupportedInput));
    assert_eq!(classify_input("png", false), Err(CryptError::UnsupportedInput));
    assert_eq!(classify_input("", false), Err(CryptError::UnsupportedInput));
}

