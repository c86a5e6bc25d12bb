//! The metadata model: what a package says about when each frame applies.

use vstd::prelude::*;
use crate::error::{Error, MismatchKind};

verus! {

/// Seconds in a day: the length of the circle on which clock anchors lie.
pub const DAY_SECONDS: u32 = 86400;

/// The two states of the host's appearance.
#[derive(Clone, Copy, Debug, PartialEq, Eq, Structural)]
pub enum Appearance {
    Light,
    Dark,
}

/// One anchor: from position `at` on, frame `frame` applies. For clock
/// metadata `at` counts seconds since midnight; for solar metadata it is the
/// sun's phase on its daily path.
#[derive(Clone, Copy, Debug, PartialEq, Eq, Structural)]
pub struct Anchor {
    pub at: i64,
    pub frame: usize,
}

/// The frames for the light and the dark appearance.
#[derive(Clone, Copy, Debug, PartialEq, Eq, Structural)]
pub struct AppearanceFrames {
    pub light: usize,
    pub dark: usize,
}

/// The timing metadata of one package.
#[derive(Clone, Debug, PartialEq, Eq)]
pub enum Metadata {
    /// Anchors on the 24-hour circle, with an appearance view if the author
    /// declared one.
    H24 { anchors: Vec<Anchor>, appearance: Option<AppearanceFrames> },
    /// Anchors on the sun's daily path, with an appearance view if the author
    /// declared one.
    Solar { anchors: Vec<Anchor>, appearance: Option<AppearanceFrames> },
    /// A light and a dark frame, and nothing else.
    Appearance(AppearanceFrames),
}

/// A package: its frames, in declaration order, and its metadata.
#[derive(Clone, Debug, PartialEq, Eq)]
pub struct Package {
    pub frames: Vec<String>,
    pub metadata: Metadata,
}

/// Every anchor refers to a frame below `count`.
pub open spec fn anchors_within(anchors: Seq<Anchor>, count: int) -> bool {
    forall|i: int| 0 <= i < anchors.len() ==> (#[trigger] anchors[i]).frame < count
}

/// Both frames of an appearance view lie below `count`.
pub open spec fn appearance_within(frames: AppearanceFrames, count: int) -> bool {
    frames.light < count && frames.dark < count
}

/// An appearance view, if there is one, lies below `count`.
pub open spec fn view_within(view: Option<AppearanceFrames>, count: int) -> bool {
    match view {
        Some(frames) => appearance_within(frames, count),
        None => true,
    }
}

/// Seconds since midnight of `hour:minute:second`, where that is a time of day.
pub open spec fn day_seconds_spec(hour: int, minute: int, second: int) -> Option<int> {
    if 0 <= hour < 24 && 0 <= minute < 60 && 0 <= second < 60 {
        Some(hour * 3600 + minute * 60 + second)
    } else {
        None
    }
}

/// Seconds since midnight of `hour:minute:second`; `None` where the three do
/// not name a time of day.
pub fn day_seconds(hour: u32, minute: u32, second: u32) -> (r: Option<u32>)
    ensures
        r.is_some() == day_seconds_spec(hour as int, minute as int, second as int).is_some(),
        r.is_some() ==> r.unwrap() as int == day_seconds_spec(
            hour as int,
            minute as int,
            second as int,
        ).unwrap(),
        r.is_some() ==> r.unwrap() < DAY_SECONDS,
{
    if hour < 24 && minute < 60 && second < 60 {
        Some(hour * 3600 + minute * 60 + second)
    } else {
        None
    }
}

impl Metadata {
    /// The anchors of timed metadata; none for appearance metadata.
    pub open spec fn anchors(self) -> Seq<Anchor> {
        match self {
            Metadata::H24 { anchors, .. } => anchors@,
            Metadata::Solar { anchors, .. } => anchors@,
            Metadata::Appearance(_) => Seq::empty(),
        }
    }

    /// The appearance view that the metadata exposes, if any.
    pub open spec fn appearance_spec(self) -> Option<AppearanceFrames> {
        match self {
            Metadata::H24 { appearance, .. } => appearance,
            Metadata::Solar { appearance, .. } => appearance,
            Metadata::Appearance(frames) => Some(frames),
        }
    }

    /// Every frame that the metadata refers to lies below `count`.
    pub open spec fn within(self, count: int) -> bool {
        anchors_within(self.anchors(), count) && view_within(self.appearance_spec(), count)
    }

    /// Does the metadata expose an appearance view? Appearance metadata always
    /// does; timed metadata only where its author declared one.
    pub fn appearance(&self) -> (r: Option<AppearanceFrames>)
        ensures
            r == self.appearance_spec(),
    {
        match self {
            Metadata::H24 { appearance, .. } => *appearance,
            Metadata::Solar { appearance, .. } => *appearance,
            Metadata::Appearance(frames) => Some(*frames),
        }
    }

    /// Does every frame that the metadata refers to lie below `count`?
    pub fn fits(&self, count: usize) -> (r: bool)
        ensures
            r == self.within(count as int),
    {
        match self {
            Metadata::H24 { anchors, appearance } => {
                all_within(anchors, count) && view_fits(appearance, count)
            },
            Metadata::Solar { anchors, appearance } => {
                all_within(anchors, count) && view_fits(appearance, count)
            },
            Metadata::Appearance(frames) => frames.light < count && frames.dark < count,
        }
    }
}

/// Does the appearance view, if there is one, lie below `count`?
fn view_fits(view: &Option<AppearanceFrames>, count: usize) -> (r: bool)
    ensures
        r == view_within(*view, count as int),
{
    match view {
        Some(frames) => frames.light < count && frames.dark < count,
        None => true,
    }
}

/// Does every anchor refer to a frame below `count`?
fn all_within(anchors: &Vec<Anchor>, count: usize) -> (r: bool)
    ensures
        r == anchors_within(anchors@, count as int),
{
    let mut i: usize = 0;
    while i < anchors.len()
        invariant
            i <= anchors.len(),
            forall|j: int| 0 <= j < i ==> (#[trigger] anchors@[j]).frame < count,
        decreases anchors.len() - i,
    {
        if anchors[i].frame >= count {
            return false;
        }
        i += 1;
    }
    true
}

impl Package {
    /// A package is well formed when its metadata refers only to frames that
    /// it holds.
    pub open spec fn wf(self) -> bool {
        self.metadata.within(self.frames@.len() as int)
    }

    /// Builds a package from frames and metadata. A reference to a frame that
    /// is not there is an error, and the only one.
    pub fn new(frames: Vec<String>, metadata: Metadata) -> (r: Result<Package, Error>)
        ensures
            match r {
                Ok(package) => package.frames == frames && package.metadata == metadata
                    && package.wf(),
                Err(error) => !metadata.within(frames@.len() as int)
                    && error == Error::MetadataMismatch(MismatchKind::FrameOutOfBounds),
            },
    {
        if metadata.fits(frames.len()) {
            Ok(Package { frames, metadata })
        } else {
            Err(Error::MetadataMismatch(MismatchKind::FrameOutOfBounds))
        }
    }
}

} // verus!
