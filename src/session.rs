use vstd::prelude::*;

use crate::cipher::{lemma_xor_involution, xor_bytes, xor_equal_length};
use crate::error::CryptError;
use crate::frame::{frame_models, Frame, FrameModel, FrameSequence, SequenceModel};
use crate::key::{
    hex_decoded, hex_encoded, hex_to_key, is_key_text, lemma_hex_round_trip, random_key,
};
use crate::keystream::{counter_space, generate, keystream};
use crate::offsets::{frame_offsets, lens_of, span_start};

verus! {

/// The byte lengths of a list of frames.
pub open spec fn frame_lengths(frames: Seq<FrameModel>) -> Seq<nat> {
    frames.map_values(|f: FrameModel| f.data.len())
}

/// A frame whose bytes are combined with the keystream range that starts at
/// absolute offset `offset`.
pub open spec fn transformed_frame(f: FrameModel, key: Seq<u8>, offset: int) -> FrameModel {
    FrameModel { data: xor_bytes(f.data, keystream(key, offset, f.data.len())), ..f }
}

/// Frames of which frame `i` is combined with the keystream range that starts
/// at the total length of the frames before it.
pub open spec fn transformed_frames(frames: Seq<FrameModel>, key: Seq<u8>) -> Seq<FrameModel> {
    Seq::new(
        frames.len(),
        |i: int| transformed_frame(frames[i], key, span_start(frame_lengths(frames), i) as int),
    )
}

/// A sequence with its frames transformed; kind, order, dimensions and delays
/// are kept.
pub open spec fn transformed(m: SequenceModel, key: Seq<u8>) -> SequenceModel {
    SequenceModel { frames: transformed_frames(m.frames, key), ..m }
}

/// Combines one frame with the keystream range of its own length that starts
/// at absolute byte offset `offset`.
pub fn transform_frame(frame: &Frame, key: &[u8; 32], offset: u128) -> (r: Frame)
    requires
        offset + frame.data@.len() <= counter_space(),
    ensures
        r@ == transformed_frame(frame@, key@, offset as int),
{
    let pad = generate(key, offset, frame.data.len());
    let data = xor_equal_length(&frame.data, &pad);
    Frame { width: frame.width, height: frame.height, channels: frame.channels, data }
}

/// Encrypts or decrypts a list of frames under `key`, each frame on its own
/// disjoint range of the keystream, keeping the frames in order.
pub fn transform_frames(frames: &Vec<Frame>, key: &[u8; 32]) -> (r: Vec<Frame>)
    ensures
        frame_models(r@) == transformed_frames(frame_models(frames@), key@),
{
    let ghost models = frame_models(frames@);
    let n: usize = frames.len();
    let mut lengths: Vec<usize> = Vec::new();
    let mut i: usize = 0;
    while i < n
        invariant
            n == frames@.len(),
            models == frame_models(frames@),
            i <= n,
            lengths@.len() == i,
            forall|j: int| 0 <= j < i ==> lengths@[j] == models[j].data.len(),
        decreases n - i,
    {
        lengths.push(frames[i].data.len());
        i = i + 1;
    }
    let offsets = frame_offsets(&lengths);
    let ghost lens = frame_lengths(models);
    assert(lens_of(lengths@) =~= lens);
    let mut out: Vec<Frame> = Vec::new();
    let mut i: usize = 0;
    while i < n
        invariant
            n == frames@.len(),
            models == frame_models(frames@),
            n == lengths@.len(),
            lens == frame_lengths(models),
            lens_of(lengths@) == lens,
            offsets@.len() == n + 1,
            forall|j: int| 0 <= j <= n ==> offsets@[j] == span_start(lens, j),
            i <= n,
            out@.len() == i,
            forall|j: int|
                0 <= j < i ==> (#[trigger] out@[j])@ == transformed_frame(
                    models[j],
                    key@,
                    span_start(lens, j) as int,
                ),
        decreases n - i,
    {
        assert(span_start(lens, i + 1) == span_start(lens, i as int) + lens[i as int]);
        assert(offsets@[i + 1] == span_start(lens, i + 1));
        out.push(transform_frame(&frames[i], key, offsets[i]));
        i = i + 1;
    }
    assert(frame_models(out@) =~= transformed_frames(models, key@));
    out
}

/// Encrypts or decrypts every frame of a sequence under `key`: a still image
/// from the start of the keystream, an animation frame after frame.
pub fn transform_sequence(seq: &FrameSequence, key: &[u8; 32]) -> (r: FrameSequence)
    ensures
        r@ == transformed(seq@, key@),
        seq.wf() ==> r.wf(),
{
    let r = match seq {
        FrameSequence::Single(f) => {
            let len: usize = f.data.len();
            assert(len <= u128::MAX);
            let t = transform_frame(f, key, 0);
            assert(seq![t@] =~= transformed(seq@, key@).frames);
            FrameSequence::Single(t)
        },
        FrameSequence::Multi { frames, delays } => {
            FrameSequence::Multi { frames: transform_frames(frames, key), delays: delays.clone() }
        },
    };
    proof {
        if seq.wf() {
            lemma_transformed_wf(seq@, key@);
        }
    }
    r
}

/// Encrypts a sequence under a freshly drawn random key, and returns the
/// result together with that key, its only copy.
pub fn encrypt(seq: &FrameSequence) -> (r: (FrameSequence, [u8; 32]))
    ensures
        r.0@ == transformed(seq@, r.1@),
        seq.wf() ==> r.0.wf(),
{
    let key = random_key();
    (transform_sequence(seq, &key), key)
}

/// Decrypts a sequence under a key given as 64 hexadecimal digits. A malformed
/// key is refused before any frame is touched.
pub fn decrypt(seq: &FrameSequence, key_hex: &str) -> (r: Result<FrameSequence, CryptError>)
    ensures
        r is Ok <==> is_key_text(key_hex@),
        r matches Ok(s) ==> s@ == transformed(seq@, hex_decoded(key_hex@)),
        r matches Ok(s) ==> (seq.wf() ==> s.wf()),
        r matches Err(e) ==> e == CryptError::InvalidKey,
{
    let key = hex_to_key(key_hex)?;
    Ok(transform_sequence(seq, &key))
}

/// Transforming keeps a sequence well formed.
pub proof fn lemma_transformed_wf(m: SequenceModel, key: Seq<u8>)
    requires
        m.wf(),
    ensures
        transformed(m, key).wf(),
{
    let t = transformed(m, key);
    assert forall|i: int| 0 <= i < t.frames.len() implies (#[trigger] t.frames[i]).wf() by {
        assert(m.frames[i].wf());
    }
    assert forall|i: int| 0 <= i < t.frames.len() implies (#[trigger] t.frames[i]).channels
        == t.frames[0].channels by {
        assert(m.frames[i].channels == m.frames[0].channels);
    }
}

/// Transforming a frame twice with the pad drawn from the same key and offset
/// gives the frame back.
pub proof fn lemma_frame_involution(f: FrameModel, key: Seq<u8>, offset: int)
    ensures
        transformed_frame(transformed_frame(f, key, offset), key, offset) == f,
{
    let pad = keystream(key, offset, f.data.len());
    lemma_xor_involution(f.data, pad);
}

/// Transforming a sequence twice under the same key gives the sequence back:
/// decryption undoes encryption, for single frames and animations alike.
pub proof fn lemma_sequence_involution(m: SequenceModel, key: Seq<u8>)
    ensures
        transformed(transformed(m, key), key) == m,
{
    let t = transformed(m, key);
    assert(frame_lengths(t.frames) =~= frame_lengths(m.frames));
    assert(transformed(t, key).frames == transformed_frames(t.frames, key));
    assert forall|i: int| 0 <= i < m.frames.len() implies #[trigger] transformed(t, key).frames[i]
        == m.frames[i] by {
        lemma_frame_involution(m.frames[i], key, span_start(frame_lengths(m.frames), i) as int);
    }
    assert(transformed(t, key).frames =~= m.frames);
}

/// A session round trip: the key that encryption reports, written as text and
/// handed to decryption, is accepted, and decryption restores the sequence.
pub proof fn lemma_session_round_trip(m: SequenceModel, key: Seq<u8>)
    requires
        key.len() == 32,
    ensures
        is_key_text(hex_encoded(key)),
        transformed(transformed(m, key), hex_decoded(hex_encoded(key))) == m,
{
    lemma_hex_round_trip(key);
    lemma_sequence_involution(m, key);
}

} // verus!
