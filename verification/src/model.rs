//! The values that the application's state is made of.
//!
//! A path is an identifier that whoever reads the file system gives out, one to
//! a path. Moments are nanoseconds since the start, positions in a clip are
//! nanoseconds from its beginning.

use vstd::prelude::*;

use crate::flex::Aspect;
use crate::grid::Rect;

verus! {

/// The state of a picture of a clip in the atlas.
#[derive(Clone, Copy, PartialEq, Eq, Structural, Debug)]
pub enum Thumb {
    /// Not asked for, or evicted from the atlas.
    Absent,
    Pending,
    /// In an atlas slot, `tw` by `th` pixels of it.
    Ready { slot: usize, at: u64, tw: u32, th: u32 },
    Failed,
}

/// What an atlas slot holds.
#[derive(Clone, Copy, PartialEq, Eq, Structural, Debug)]
pub enum SlotKind {
    Static,
    Anim,
    /// The frame of a playing tile; never evicted.
    Live,
}

/// Whose picture an atlas slot holds.
#[derive(Clone, Copy, PartialEq, Eq, Structural, Debug)]
pub struct SlotOwner {
    pub clip: usize,
    pub kind: SlotKind,
}

/// One clip of the library. `scale`, how large its tile is drawn, and `emph`, how
/// far the tile stands out, are in millionths; they spring from frame to frame and
/// move with the clip.
#[derive(Clone, Copy, PartialEq, Eq, Structural, Debug)]
pub struct Clip {
    pub path: u64,
    pub readable: bool,
    /// A placeholder whose data is not here; reading it would fetch it.
    pub cloud: bool,
    /// The thumbnail is known to be in the disk cache.
    pub cached: bool,
    pub spawned: u64,
    pub scale: u32,
    pub emph: u32,
    pub thumb: Thumb,
    pub anim: Thumb,
    /// The displayed shape, once known; it outlives the thumbnail.
    pub aspect: Option<Aspect>,
    /// When the file was created, in nanoseconds since 1970.
    pub created: Option<i128>,
}

/// The stream of the selected clip, or one kept warm for a likely next move.
#[derive(Clone, Copy, PartialEq, Eq, Structural, Debug)]
pub struct SelLive {
    pub clip: usize,
    pub path: u64,
    pub spawned: u64,
    pub first_frame: Option<u64>,
    pub duration: Option<i64>,
    /// Tells this decoder from every other.
    pub generation: u64,
    pub served: u32,
}

/// The stream of the hovered tile, into an atlas slot.
#[derive(Clone, Copy, PartialEq, Eq, Structural, Debug)]
pub struct LiveState {
    pub clip: usize,
    pub slot: usize,
    pub first_frame: Option<u64>,
    pub generation: u64,
    pub served: u32,
}

/// Where the hovered tile's stream is or was playing.
#[derive(Clone, Copy, PartialEq, Eq, Structural, Debug)]
pub struct Resume {
    pub clip: usize,
    pub pos: i64,
}

/// A chapter of a clip that was gone to.
#[derive(Clone, Copy, PartialEq, Eq, Structural, Debug)]
pub struct GoneTo {
    pub path: u64,
    pub chapter: usize,
}

/// A press on a tile or a chip that may still become a drag.
#[derive(Clone, Copy, PartialEq, Eq, Structural, Debug)]
pub struct Press {
    pub clip: usize,
    /// Letting go without dragging opens the quick view.
    pub open_quickview: bool,
}

/// A tile on its way across a row boundary: where it left, for how long it has
/// been under way, and whether it goes to a later row.
#[derive(Clone, Copy, PartialEq, Eq, Structural, Debug)]
pub struct WrapEvent {
    pub from: Rect,
    pub elapsed: u64,
    pub forward: bool,
}

/// How a tile is shown while the layout changes under it.
#[derive(Clone, Copy, PartialEq, Eq, Structural, Debug)]
pub struct TileReflow {
    pub rect: Rect,
    pub row: usize,
    /// False until the tile has been placed once.
    pub init: bool,
    pub wrap: Option<WrapEvent>,
}

/// A tile that has not been placed.
pub open spec fn unplaced() -> TileReflow {
    TileReflow { rect: Rect { x: 0, y: 0, w: 0, h: 0 }, row: 0, init: false, wrap: None }
}

/// A tile that has not been placed.
pub fn unplaced_tile() -> (r: TileReflow)
    ensures
        r == unplaced(),
{
    TileReflow { rect: Rect { x: 0, y: 0, w: 0, h: 0 }, row: 0, init: false, wrap: None }
}

/// A pinch in progress: the clip that is held, and when the fingers last moved
/// the zoom.
#[derive(Clone, Copy, PartialEq, Eq, Structural, Debug)]
pub struct Held {
    pub clip: usize,
    pub last: u64,
}

/// The size of the window when something was drawn for it.
#[derive(Clone, Copy, PartialEq, Eq, Structural, Debug)]
pub struct Extent {
    pub w: i128,
    pub h: i128,
}

/// A change of zoom that a key asks for.
#[derive(Clone, Copy, PartialEq, Eq, Structural, Debug)]
pub enum ZoomStep {
    In,
    Out,
    Reset,
}

/// What the state machine asks of the world around it.
#[derive(Clone, Copy, PartialEq, Eq, Structural, Debug)]
pub enum Effect {
    Quit,
    ToggleFullscreen { fast: bool },
    /// Bring the selected row towards the middle of the window.
    ScrollToSelected,
    /// Put the filmstrip on the selection at once.
    SnapStrip,
    /// The same, where the selection is further away than a glance.
    SnapStripIfFar,
    Zoom { step: ZoomStep },
    /// Move the selected stream.
    Seek { to: i64, exact: bool },
    /// Move the stream of one decoder.
    SeekLane { generation: u64, to: i64 },
    CopyPath { path: u64 },
    /// Run the program that the key names on the clip.
    Launch { path: u64, cloud: bool },
    /// Start reading the directory of the clip.
    ReadParent { path: u64 },
    /// Start reading the directory that the key names.
    ReadLibrary,
    /// Hand the clip's file to the system's drag and drop; the thumbnail of a
    /// placeholder is not looked up.
    BeginDrag { path: u64, cloud: bool },
    PanChapters,
    PanStrip,
    PanGrid,
    /// Bring a chapter's chip to the middle, at once or gliding.
    CenterChapters { chapter: usize, snap: bool },
    RequestGen { path: u64 },
    RequestThumb { path: u64 },
    RequestAnim { path: u64 },
    RequestChapters { path: u64 },
    RequestReprobe { path: u64 },
    /// More work is waiting: run another frame.
    NextFrame,
    /// The pinch needs a hold on the strip.
    GripRibbon,
    /// The pinch changes the zoom without one.
    PinchZoom,
    /// Let the strip go and work out where it settles.
    ReleaseRibbon,
    /// Take over the rows that the strip was on its way to.
    InstallSettled,
}

} // verus!
