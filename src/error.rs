use vstd::prelude::*;

verus! {

/// What can go wrong in an encryption or decryption session.
#[derive(Debug, PartialEq, Eq)]
pub enum CryptError {
    /// The key text is not exactly 64 hexadecimal digits.
    InvalidKey,
    /// A pixel buffer and its keystream, or a frame and its declared size, disagree in length.
    BufferLengthMismatch,
    /// The input is neither a still raster file nor an animated sequence.
    UnsupportedInput,
    /// The codec could not read the input.
    Decode(String),
    /// The codec could not write the output.
    Encode(String),
}

} // verus!
