use vstd::prelude::*;

use crate::error::CryptError;

verus! {

/// One raster image: `width * height` pixels, row-major, with `channels`
/// interleaved bytes per pixel (3 for opaque color, 4 with alpha).
pub struct Frame {
    pub width: u32,
    pub height: u32,
    pub channels: u32,
    pub data: Vec<u8>,
}

/// What a frame holds, as mathematical values.
pub ghost struct FrameModel {
    pub width: u32,
    pub height: u32,
    pub channels: u32,
    pub data: Seq<u8>,
}

impl FrameModel {
    /// The buffer has exactly one byte per channel of every pixel.
    pub open spec fn wf(self) -> bool {
        (self.channels == 3 || self.channels == 4) && self.data.len() == self.width * self.height
            * self.channels
    }
}

impl View for Frame {
    type V = FrameModel;

    open spec fn view(&self) -> FrameModel {
        FrameModel {
            width: self.width,
            height: self.height,
            channels: self.channels,
            data: self.data@,
        }
    }
}

impl Frame {
    pub open spec fn wf(&self) -> bool {
        self@.wf()
    }

    /// Whether the buffer length matches the dimensions and channel count.
    pub fn is_valid(&self) -> (r: bool)
        ensures
            r == self.wf(),
    {
        let w: u128 = self.width as u128;
        let h: u128 = self.height as u128;
        let c: u128 = self.channels as u128;
        assert(w * h <= 0xffff_ffff_ffff_ffff) by (nonlinear_arith)
            requires
                w <= 0xffff_ffff,
                h <= 0xffff_ffff,
        ;
        assert(w * h * c <= 0xffff_ffff_ffff_ffff * 0xffff_ffff) by (nonlinear_arith)
            requires
                w * h <= 0xffff_ffff_ffff_ffff,
                c <= 0xffff_ffff,
        ;
        let expected: u128 = w * h * c;
        (self.channels == 3 || self.channels == 4) && self.data.len() as u128 == expected
    }

    /// Builds a frame; the channel count must be 3 or 4 and the buffer must
    /// hold exactly `width * height * channels` bytes.
    pub fn new(width: u32, height: u32, channels: u32, data: Vec<u8>) -> (r: Result<
        Frame,
        CryptError,
    >)
        ensures
            r is Ok <==> (FrameModel { width, height, channels, data: data@ }).wf(),
            r matches Ok(f) ==> f@ == (FrameModel { width, height, channels, data: data@ }),
            r matches Err(e) ==> (channels != 3 && channels != 4 ==> e
                == CryptError::UnsupportedInput) && (channels == 3 || channels == 4 ==> e
                == CryptError::BufferLengthMismatch),
    {
        let f = Frame { width, height, channels, data };
        if channels != 3 && channels != 4 {
            Err(CryptError::UnsupportedInput)
        } else if !f.is_valid() {
            Err(CryptError::BufferLengthMismatch)
        } else {
            Ok(f)
        }
    }
}

/// An image to encrypt: one still frame, or an ordered animation whose frames
/// each carry a display delay.
pub enum FrameSequence {
    Single(Frame),
    Multi { frames: Vec<Frame>, delays: Vec<u16> },
}

/// What a frame sequence holds, as mathematical values. A single frame has
/// no delays.
pub ghost struct SequenceModel {
    pub multi: bool,
    pub frames: Seq<FrameModel>,
    pub delays: Seq<u16>,
}

impl SequenceModel {
    /// At least one frame, every frame well formed, one channel count for all,
    /// and, for an animation, one delay per frame.
    pub open spec fn wf(self) -> bool {
        &&& self.frames.len() >= 1
        &&& forall|i: int| 0 <= i < self.frames.len() ==> (#[trigger] self.frames[i]).wf()
        &&& forall|i: int|
            0 <= i < self.frames.len() ==> (#[trigger] self.frames[i]).channels
                == self.frames[0].channels
        &&& !self.multi ==> self.frames.len() == 1 && self.delays.len() == 0
        &&& self.multi ==> self.delays.len() == self.frames.len()
    }
}

/// The models of a list of frames.
pub open spec fn frame_models(frames: Seq<Frame>) -> Seq<FrameModel> {
    frames.map_values(|f: Frame| f@)
}

impl View for FrameSequence {
    type V = SequenceModel;

    open spec fn view(&self) -> SequenceModel {
        match self {
            FrameSequence::Single(f) => SequenceModel {
                multi: false,
                frames: seq![f@],
                delays: Seq::empty(),
            },
            FrameSequence::Multi { frames, delays } => SequenceModel {
                multi: true,
                frames: frame_models(frames@),
                delays: delays@,
            },
        }
    }
}

impl FrameSequence {
    pub open spec fn wf(&self) -> bool {
        self@.wf()
    }

    /// A still image.
    pub fn single(frame: Frame) -> (r: FrameSequence)
        requires
            frame.wf(),
        ensures
            r.wf(),
            r@ == (SequenceModel { multi: false, frames: seq![frame@], delays: Seq::empty() }),
    {
        FrameSequence::Single(frame)
    }

    /// An animation. Refused with `UnsupportedInput` when there is no frame,
    /// when the delays are not one per frame, or when the frames differ in
    /// channel count.
    pub fn multi(frames: Vec<Frame>, delays: Vec<u16>) -> (r: Result<FrameSequence, CryptError>)
        requires
            forall|i: int| 0 <= i < frames@.len() ==> (#[trigger] frames@[i]).wf(),
        ensures
            r is Ok <==> (SequenceModel {
                multi: true,
                frames: frame_models(frames@),
                delays: delays@,
            }).wf(),
            r matches Ok(s) ==> s@ == (SequenceModel {
                multi: true,
                frames: frame_models(frames@),
                delays: delays@,
            }),
            r matches Err(e) ==> e == CryptError::UnsupportedInput,
    {
        let ghost m = SequenceModel { multi: true, frames: frame_models(frames@), delays: delays@ };
        if frames.len() == 0 || delays.len() != frames.len() {
            return Err(CryptError::UnsupportedInput);
        }
        let channels: u32 = frames[0].channels;
        let mut i: usize = 1;
        while i < frames.len()
            invariant
                1 <= i <= frames@.len(),
                channels == frames@[0].channels,
                m.frames == frame_models(frames@),
                forall|j: int| 0 <= j < i ==> (#[trigger] frames@[j]).channels == channels,
            decreases frames@.len() - i,
        {
            if frames[i].channels != channels {
                assert(m.frames[i as int].channels != m.frames[0].channels);
                return Err(CryptError::UnsupportedInput);
            }
            i = i + 1;
        }
        assert(m.wf());
        Ok(FrameSequence::Multi { frames, delays })
    }

    /// How many frames the sequence holds.
    pub fn frame_count(&self) -> (r: usize)
        ensures
            r == self@.frames.len(),
    {
        match self {
            FrameSequence::Single(_) => 1,
            FrameSequence::Multi { frames, .. } => frames.len(),
        }
    }

    /// Frame `i`, in sequence order.
    pub fn frame(&self, i: usize) -> (r: &Frame)
        requires
            i < self@.frames.len(),
        ensures
            r@ == self@.frames[i as int],
    {
        match self {
            FrameSequence::Single(f) => f,
            FrameSequence::Multi { frames, .. } => &frames[i],
        }
    }
}

} // verus!
