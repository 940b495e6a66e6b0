//! Plain records of the editor's JSON export, as the loader hands them over.
use vstd::prelude::*;

verus! {

/// The whole export: every frame, and the metadata with the frame tags.
#[derive(Clone, Debug)]
pub struct SpritesheetData {
    pub frames: Vec<FrameData>,
    pub meta: MetaData,
}

/// One exported frame.
#[derive(Clone, Debug)]
pub struct FrameData {
    pub filename: String,
    /// Where the trimmed frame lies in the image.
    pub frame: RectData,
    pub rotated: bool,
    pub trimmed: bool,
    /// Where the trimmed frame lies within the untrimmed one.
    pub sprite_source_size: RectData,
    /// The size of the untrimmed frame.
    pub source_size: SizeData,
    /// How long the frame shows, in milliseconds.
    pub duration: u32,
}

/// A named, inclusive range of frames: one animation.
#[derive(Clone, Debug)]
pub struct FrameTagData {
    pub name: String,
    pub from: usize,
    pub to: usize,
    pub direction: String,
}

/// Metadata of the export.
#[derive(Clone, Debug)]
pub struct MetaData {
    pub app: String,
    pub version: String,
    /// The path of the image that holds the frames.
    pub image: String,
    pub format: String,
    pub size: SizeData,
    pub scale: String,
    pub frame_tags: Vec<FrameTagData>,
}

/// A size in pixels.
#[derive(Clone, Copy, Debug, PartialEq, Eq, Structural)]
pub struct SizeData {
    pub w: u16,
    pub h: u16,
}

/// A rectangle in pixels: its top left corner and its size.
#[derive(Clone, Copy, Debug, PartialEq, Eq, Structural)]
pub struct RectData {
    pub x: u16,
    pub y: u16,
    pub w: u16,
    pub h: u16,
}

} // verus!
