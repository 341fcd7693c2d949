//! Settings of the RGB conversion and of the HEVC encoder, and the collection
//! of the encoder's output.

use vstd::prelude::*;

verus! {

/// The pixel formats that the conversion and the encoder are set to.
#[derive(Clone, Copy, Debug, PartialEq, Eq, Structural)]
pub enum PixelFormat {
    /// Packed 8-bit red, green, blue.
    Rgb24,
    /// Planar YUV 4:2:0.
    Yuv420p,
}

/// The interpolation of the RGB conversion.
#[derive(Clone, Copy, Debug, PartialEq, Eq, Structural)]
pub enum ScaleFilter {
    /// Bilinear interpolation.
    Bilinear,
}

/// How decoded frames are converted before they are encoded: to RGB, at the
/// size they were decoded at.
#[derive(Clone, Copy, Debug, PartialEq, Eq, Structural)]
pub struct ScalerSettings {
    pub src_width: u32,
    pub src_height: u32,
    pub dst_format: PixelFormat,
    pub dst_width: u32,
    pub dst_height: u32,
    pub filter: ScaleFilter,
}

/// How the HEVC encoder is opened for one frame.
#[derive(Clone, Copy, Debug, PartialEq, Eq, Structural)]
pub struct EncoderSettings {
    pub width: u32,
    pub height: u32,
    pub format: PixelFormat,
}

/// The conversion of frames decoded at `width` x `height`: to RGB24 at the
/// same size, with bilinear interpolation.
pub fn rgb_scaler_settings(width: u32, height: u32) -> (s: ScalerSettings)
    ensures
        s == (ScalerSettings {
            src_width: width,
            src_height: height,
            dst_format: PixelFormat::Rgb24,
            dst_width: width,
            dst_height: height,
            filter: ScaleFilter::Bilinear,
        }),
{
    ScalerSettings {
        src_width: width,
        src_height: height,
        dst_format: PixelFormat::Rgb24,
        dst_width: width,
        dst_height: height,
        filter: ScaleFilter::Bilinear,
    }
}

/// The encoder for a frame of `frame_width` x `frame_height`: that size, in
/// YUV 4:2:0.
pub fn hevc_encoder_settings(frame_width: u32, frame_height: u32) -> (s: EncoderSettings)
    ensures
        s == (EncoderSettings { width: frame_width, height: frame_height, format: PixelFormat::Yuv420p }),
{
    EncoderSettings { width: frame_width, height: frame_height, format: PixelFormat::Yuv420p }
}

/// The bytes of the packets that an encoder produced, in the order it
/// produced them.
pub struct EncodedStream {
    bytes: Vec<u8>,
    received: Ghost<Seq<Seq<u8>>>,
}

impl EncodedStream {
    #[verifier::type_invariant]
    spec fn bytes_are_packets(self) -> bool {
        self.bytes@ == self.received@.flatten()
    }

    /// The payloads of the packets received so far, in order.
    pub closed spec fn packets(self) -> Seq<Seq<u8>> {
        self.received@
    }

    /// No packet yet.
    pub fn new() -> (s: EncodedStream)
        ensures
            s.packets() == Seq::<Seq<u8>>::empty(),
    {
        EncodedStream { bytes: Vec::new(), received: Ghost(Seq::empty()) }
    }

    /// Appends the payload of the next packet.
    pub fn push_packet(&mut self, payload: &[u8])
        ensures
            final(self).packets() == old(self).packets().push(payload@),
    {
        proof {
            use_type_invariant(&*self);
            self.received@.lemma_flatten_push(payload@);
        }
        let mut taken = EncodedStream::new();
        std::mem::swap(self, &mut taken);
        let EncodedStream { mut bytes, received: Ghost(before) } = taken;
        bytes.extend_from_slice(payload);
        let ghost received = before.push(payload@);
        assert(bytes@ =~= received.flatten());
        *self = EncodedStream { bytes, received: Ghost(received) };
    }

    /// The number of bytes received so far.
    pub fn len(&self) -> (n: usize)
        ensures
            n == self.packets().flatten().len(),
    {
        proof { use_type_invariant(self); }
        self.bytes.len()
    }

    /// The payloads of all packets, concatenated in the order they came.
    pub fn into_bytes(self) -> (bytes: Vec<u8>)
        ensures
            bytes@ == self.packets().flatten(),
    {
        proof { use_type_invariant(&self); }
        self.bytes
    }
}

} // verus!
