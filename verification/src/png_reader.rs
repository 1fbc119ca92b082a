//! Frame-by-frame PNG decoding through the `png` crate. The reader carries
//! a model of its progress (the file's bytes, how many frames it delivered,
//! whether a call failed) that only the functions of this module change, so
//! that each result can be stated as a function of the file and that progress.
use vstd::prelude::*;

verus! {

/// Header values of an opened PNG, as plain values.
#[derive(Clone, Copy, Debug)]
pub struct PngInfo {
    pub width: u32,
    pub height: u32,
    /// The frame count declared by an `acTL` chunk, for animated files.
    pub declared_frames: Option<u32>,
    /// The current frame's `fcTL` values, for animated files.
    pub frame_control: Option<FrameControlData>,
}

/// An `fcTL` chunk: the subframe's area and its blend (0 source, 1 over) and
/// dispose (0 none, 1 background, 2 previous) operations.
#[derive(Clone, Copy, Debug)]
pub struct FrameControlData {
    pub x: u32,
    pub y: u32,
    pub w: u32,
    pub h: u32,
    pub blend: u8,
    pub dispose: u8,
}

/// What `next_frame` reports of the frame it wrote: the PNG colour type code
/// (0 gray, 2 RGB, 3 indexed, 4 gray-alpha, 6 RGBA) and how many bytes of the
/// buffer hold the frame.
#[derive(Clone, Copy, Debug)]
pub struct FrameOutput {
    pub color: u8,
    pub buffer_size: usize,
}

/// The `png` crate's reader over a file held in memory.
#[verifier::external_body]
struct PngHandle {
    reader: png::Reader<std::io::Cursor<Vec<u8>>>,
}

/// A PNG file being decoded frame by frame, with the model of its progress.
pub struct PngFrameReader {
    handle: PngHandle,
    data: Ghost<Seq<u8>>,
    frames_read: Ghost<nat>,
    failed: Ghost<bool>,
}

impl PngFrameReader {
    /// The bytes of the file being read.
    pub closed spec fn data(&self) -> Seq<u8> {
        self.data@
    }

    /// How many frames `next_frame` delivered so far.
    pub closed spec fn frames_read(&self) -> nat {
        self.frames_read@
    }

    /// Whether a `next_frame` call failed.
    pub closed spec fn failed(&self) -> bool {
        self.failed@
    }
}

/// The error text of `png::Decoder::new` followed by `read_info` on the file,
/// or none when the header and metadata read without error.
pub uninterp spec fn png_open_error(data: Seq<u8>) -> Option<Seq<char>>;

/// `Reader::info` of a reader opened on the file after it delivered
/// `frames_read` frames.
pub uninterp spec fn png_header_after(data: Seq<u8>, frames_read: nat) -> PngInfo;

/// `Reader::output_buffer_size` of a reader opened on the file after it
/// delivered `frames_read` frames.
pub uninterp spec fn png_buffer_size_after(data: Seq<u8>, frames_read: nat) -> Option<usize>;

/// `Reader::next_frame` of a reader opened on the file after it delivered
/// `frames_read` frames, into a buffer holding `buf`: the frame's output
/// values and the buffer afterwards, or the error's text.
pub uninterp spec fn png_frame_after(data: Seq<u8>, frames_read: nat, buf: Seq<u8>) -> Result<
    (FrameOutput, Seq<u8>),
    Seq<char>,
>;

/// `png::Decoder::new` over the file's bytes, then `png::Decoder::read_info`,
/// which reads the header and metadata up to the first image data; a decoding
/// error is given as its `Display` text. The outcome is a function of the bytes.
#[verifier::external_body]
pub(crate) fn png_open(data: Vec<u8>) -> (r: Result<PngFrameReader, String>)
    ensures
        match png_open_error(data@) {
            None => r matches Ok(p) && p.data() == data@ && p.frames_read() == 0 && !p.failed(),
            Some(m) => r matches Err(e) && e@ == m,
        },
{
    let ghost d = data@;
    match png::Decoder::new(std::io::Cursor::new(data)).read_info() {
        Ok(reader) => Ok(
            PngFrameReader { handle: PngHandle { reader }, data: Ghost(d), frames_read: Ghost(0), failed: Ghost(false) },
        ),
        Err(e) => Err(e.to_string()),
    }
}

/// `png::Reader::info`: the header values and the current `fcTL` chunk, the
/// operation codes being the discriminants of `png::BlendOp` and
/// `png::DisposeOp`. Before any failed frame call, what it reports is a
/// function of the file and of the frames delivered so far.
#[verifier::external_body]
pub(crate) fn png_info(png: &PngFrameReader) -> (r: PngInfo)
    ensures
        !png.failed() ==> r == png_header_after(png.data(), png.frames_read()),
{
    let info = png.handle.reader.info();
    let frame_control = match info.frame_control {
        Some(fc) => Some(FrameControlData { x: fc.x_offset, y: fc.y_offset, w: fc.width, h: fc.height, blend: fc.blend_op as u8, dispose: fc.dispose_op as u8 }),
        None => None,
    };
    let declared_frames = match info.animation_control {
        Some(ac) => Some(ac.num_frames),
        None => None,
    };
    PngInfo { width: info.width, height: info.height, declared_frames, frame_control }
}

/// `png::Reader::output_buffer_size`: bytes needed for a full decoded frame,
/// or `None` when that does not fit the address space; before any failed
/// frame call, a function of the file and of the frames delivered so far.
#[verifier::external_body]
pub(crate) fn png_output_buffer_size(png: &PngFrameReader) -> (r: Option<usize>)
    ensures
        !png.failed() ==> r == png_buffer_size_after(png.data(), png.frames_read()),
{
    png.handle.reader.output_buffer_size()
}

/// `png::Reader::next_frame` into `buf`, with the written byte count from
/// `OutputInfo::buffer_size`. The buffer keeps its length; the frame fits in
/// it (the call fails on a buffer smaller than a full frame, and a subframe
/// never exceeds the image). The colour type code is the discriminant of
/// `png::ColorType`. Before any failed call, the outcome and the buffer
/// afterwards are a function of the file, the frames delivered so far and
/// the buffer's contents; a failed call leaves the reader failed.
#[verifier::external_body]
pub(crate) fn png_next_frame(png: &mut PngFrameReader, buf: &mut Vec<u8>) -> (r: Result<FrameOutput, String>)
    ensures
        final(png).data() == old(png).data(),
        final(buf)@.len() == old(buf)@.len(),
        r matches Ok(fo) ==> fo.buffer_size <= old(buf)@.len(),
        !old(png).failed() ==> match png_frame_after(old(png).data(), old(png).frames_read(), old(buf)@) {
            Ok((fo, after)) => r matches Ok(o) && o == fo && final(buf)@ == after && final(png).frames_read()
                == old(png).frames_read() + 1 && !final(png).failed(),
            Err(m) => r matches Err(e) && e@ == m && final(png).failed(),
        },
        old(png).failed() ==> final(png).failed(),
{
    match png.handle.reader.next_frame(buf.as_mut_slice()) {
        Ok(out) => {
            png.frames_read = Ghost(png.frames_read@ + 1);
            Ok(FrameOutput { color: out.color_type as u8, buffer_size: out.buffer_size() })
        },
        Err(e) => {
            png.failed = Ghost(true);
            Err(e.to_string())
        },
    }
}

} // verus!
