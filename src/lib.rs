//! Confidentiality-only encryption of raster images and animated image
//! sequences: every pixel byte is combined by XOR with an AES-256
//! counter-mode keystream byte, and the frames of a sequence draw on
//! disjoint ranges of that keystream.
mod cipher;
mod crypt;
mod error;
mod frame;
mod input;
mod key;
mod keystream;
mod offsets;
mod session;

pub use cipher::{lemma_xor_involution, xor_buffers, xor_bytes};
pub use crypt::{xor_image, xored_frame, GIFImageCrypt, PNGImageCrypt};
pub use error::CryptError;
pub use frame::{frame_models, Frame, FrameModel, FrameSequence, SequenceModel};
pub use input::{classify_input, has_suffix, is_still_path, InputKind};
pub use key::{
    hex_decoded, hex_digit_value, hex_encoded, hex_to_key, is_hex_digit, is_hex_text,
    is_key_text, key_to_hex, lemma_hex_round_trip, lower_hex_digit,
};
pub use keystream::{
    aes256_counter_block, counter_space, generate, keystream, keystream_byte,
    lemma_keystream_split, BLOCK_SIZE,
};
pub use offsets::{frame_offsets, lemma_spans_disjoint_tiling, lens_of, offset_for, span_start};
pub use session::{
    decrypt, encrypt, frame_lengths, lemma_frame_involution, lemma_sequence_involution,
    lemma_session_round_trip, lemma_transformed_wf, transform_frame, transform_frames,
    transform_sequence, transformed, transformed_frame, transformed_frames,
};
