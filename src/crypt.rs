use vstd::prelude::*;

use crate::cipher::{xor_buffers, xor_bytes};
use crate::error::CryptError;
use crate::frame::{frame_models, Frame, FrameModel};
use crate::key::{hex_decoded, hex_to_key, is_key_text, random_key};
use crate::session::{transform_frame, transform_frames, transformed_frame, transformed_frames};

verus! {

/// `img` with each byte combined with the byte at the same index of `pad`.
pub open spec fn xored_frame(img: FrameModel, pad: Seq<u8>) -> FrameModel {
    FrameModel { data: xor_bytes(img.data, pad), ..img }
}

/// Combines an image with a pad image of the same byte length, byte `k` with
/// byte `k`, in ascending order whatever the channel count.
pub fn xor_image(img: Frame, xor_key: Frame) -> (r: Result<Frame, CryptError>)
    ensures
        r is Ok <==> img.data@.len() == xor_key.data@.len(),
        r matches Ok(f) ==> f@ == xored_frame(img@, xor_key.data@),
        r matches Err(e) ==> e == CryptError::BufferLengthMismatch,
{
    let data = xor_buffers(&img.data, &xor_key.data)?;
    Ok(Frame { width: img.width, height: img.height, channels: img.channels, data })
}

/// The cipher for a still image read from `image_path` and written to
/// `output_path`.
pub struct PNGImageCrypt {
    pub image_path: String,
    pub output_path: String,
}

impl PNGImageCrypt {
    pub fn new(image_path: String, output_path: String) -> (r: PNGImageCrypt)
        ensures
            r.image_path@ == image_path@,
            r.output_path@ == output_path@,
    {
        PNGImageCrypt { image_path, output_path }
    }

    /// Encrypts the image under a fresh random key, from the start of the
    /// keystream, and returns it with the key.
    pub fn encrypt(&self, img: &Frame) -> (r: (Frame, [u8; 32]))
        ensures
            r.0@ == transformed_frame(img@, r.1@, 0),
    {
        let key = random_key();
        let len: usize = img.data.len();
        assert(len <= u128::MAX);
        (transform_frame(img, &key, 0), key)
    }

    /// Decrypts the image under a key given as 64 hexadecimal digits.
    pub fn decrypt(&self, img: &Frame, key: &str) -> (r: Result<Frame, CryptError>)
        ensures
            r is Ok <==> is_key_text(key@),
            r matches Ok(f) ==> f@ == transformed_frame(img@, hex_decoded(key@), 0),
            r matches Err(e) ==> e == CryptError::InvalidKey,
    {
        let key = self.hex_to_key(key)?;
        let len: usize = img.data.len();
        assert(len <= u128::MAX);
        Ok(transform_frame(img, &key, 0))
    }

    pub fn xor_image(&self, img: Frame, xor_key: Frame) -> (r: Result<Frame, CryptError>)
        ensures
            r is Ok <==> img.data@.len() == xor_key.data@.len(),
            r matches Ok(f) ==> f@ == xored_frame(img@, xor_key.data@),
            r matches Err(e) ==> e == CryptError::BufferLengthMismatch,
    {
        xor_image(img, xor_key)
    }

    /// A fresh random key.
    pub fn generate_key(&self) -> [u8; 32] {
        random_key()
    }

    pub fn hex_to_key(&self, hex_str: &str) -> (r: Result<[u8; 32], CryptError>)
        ensures
            r is Ok <==> is_key_text(hex_str@),
            r matches Ok(k) ==> k@ == hex_decoded(hex_str@),
            r matches Err(e) ==> e == CryptError::InvalidKey,
    {
        hex_to_key(hex_str)
    }
}

/// The cipher for an animation: its frames, in order, read from
/// `image_path` (an animated file or a directory of numbered stills) and
/// written to `output_path`.
pub struct GIFImageCrypt {
    pub image_path: String,
    pub output_path: String,
    pub gif_frames: Vec<Frame>,
}

impl GIFImageCrypt {
    pub fn new(image_path: String, output_path: String, gif_frames: Vec<Frame>) -> (r:
        GIFImageCrypt)
        ensures
            r.image_path@ == image_path@,
            r.output_path@ == output_path@,
            frame_models(r.gif_frames@) == frame_models(gif_frames@),
    {
        GIFImageCrypt { image_path, output_path, gif_frames }
    }

    /// Encrypts the frames under a fresh random key, each on its own range
    /// of the keystream, and returns them in order with the key.
    pub fn encrypt(&self) -> (r: (Vec<Frame>, [u8; 32]))
        ensures
            frame_models(r.0@) == transformed_frames(frame_models(self.gif_frames@), r.1@),
    {
        let key = random_key();
        (transform_frames(&self.gif_frames, &key), key)
    }

    /// Decrypts the frames under a key given as 64 hexadecimal digits.
    pub fn decrypt(&self, key: &str) -> (r: Result<Vec<Frame>, CryptError>)
        ensures
            r is Ok <==> is_key_text(key@),
            r matches Ok(v) ==> frame_models(v@) == transformed_frames(
                frame_models(self.gif_frames@),
                hex_decoded(key@),
            ),
            r matches Err(e) ==> e == CryptError::InvalidKey,
    {
        let key = self.hex_to_key(key)?;
        Ok(transform_frames(&self.gif_frames, &key))
    }

    pub fn xor_image(&self, img: Frame, xor_key: Frame) -> (r: Result<Frame, CryptError>)
        ensures
            r is Ok <==> img.data@.len() == xor_key.data@.len(),
            r matches Ok(f) ==> f@ == xored_frame(img@, xor_key.data@),
            r matches Err(e) ==> e == CryptError::BufferLengthMismatch,
    {
        xor_image(img, xor_key)
    }

    /// A fresh random key.
    pub fn generate_key(&self) -> [u8; 32] {
        random_key()
    }

    pub fn hex_to_key(&self, hex_str: &str) -> (r: Result<[u8; 32], CryptError>)
        ensures
            r is Ok <==> is_key_text(hex_str@),
            r matches Ok(k) ==> k@ == hex_decoded(hex_str@),
            r matches Err(e) ==> e == CryptError::InvalidKey,
    {
        hex_to_key(hex_str)
    }
}

} // verus!
