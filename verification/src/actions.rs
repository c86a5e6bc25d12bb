//! The actions that a user asks for, as far as they decide or compute: what
//! a set begins with, what a preview shows, what a clear removes.

use vstd::prelude::*;
use crate::cache::{evictions, survivors, CacheEntry, ExtractionCache, LastWallpaper};
use crate::control::Controller;
use crate::error::{ConfigurationKind, Error, MismatchKind};
use crate::metadata::{Appearance, Metadata, Package};
use crate::order::{display_order, is_display_order, lemma_display_order_within, moment};
use crate::selection::Environment;

verus! {

/// Begins a set: the controller of the loop, before its first cycle. A forced
/// appearance in daemon mode is refused at once.
pub fn set(daemon: bool, user_appearance: Option<Appearance>, coordinates: bool) -> (r: Result<
    Controller,
    Error,
>)
    ensures
        match r {
            Ok(controller) => !(daemon && user_appearance.is_some()) && controller
                == Controller::initial(daemon, user_appearance, coordinates) && controller.wf(),
            Err(error) => daemon && user_appearance.is_some() && error == Error::Configuration(
                ConfigurationKind::AppearanceInDaemon,
            ),
        },
{
    if daemon && user_appearance.is_some() {
        return Err(Error::Configuration(ConfigurationKind::AppearanceInDaemon));
    }
    Ok(
        Controller {
            state: crate::control::State::Resolving,
            daemon,
            forced: user_appearance,
            coordinates,
            previous: None,
            path: None,
            package: None,
            pending: None,
        },
    )
}

/// The moment at which a preview of `metadata` starts: the clock's time for
/// clock metadata, the sun's position for solar metadata where it is known,
/// none otherwise.
pub open spec fn preview_start(metadata: Metadata, environment: Environment) -> Option<i64> {
    match metadata {
        Metadata::H24 { .. } => Some(environment.time as i64),
        Metadata::Solar { .. } => environment.sun,
        Metadata::Appearance(_) => None,
    }
}

/// The files of the frames `frames`, in that order.
pub open spec fn images_along(images: Seq<String>, frames: Seq<usize>) -> Seq<String> {
    Seq::new(frames.len(), |k: int| images[frames[k] as int])
}

/// The frame files that a preview of `package` shows, in display order,
/// starting with the frame that applies in `environment`. A package whose
/// metadata refers to a frame that it does not hold is refused.
pub fn preview(package: &Package, environment: &Environment) -> (r: Result<Vec<String>, Error>)
    ensures
        match r {
            Ok(images) => package.wf() && exists|frames: Seq<usize>|
                #[trigger] is_display_order(
                    package.metadata,
                    moment(preview_start(package.metadata, *environment)),
                    frames,
                ) && images@ == images_along(package.frames@, frames),
            Err(error) => !package.wf() && error == Error::MetadataMismatch(
                MismatchKind::FrameOutOfBounds,
            ),
        },
{
    if !package.metadata.fits(package.frames.len()) {
        return Err(Error::MetadataMismatch(MismatchKind::FrameOutOfBounds));
    }
    let start: Option<i64> = match &package.metadata {
        Metadata::H24 { .. } => Some(environment.time as i64),
        Metadata::Solar { .. } => environment.sun,
        Metadata::Appearance(_) => None,
    };
    let frames: Vec<usize> = display_order(&package.metadata, start);
    proof {
        lemma_display_order_within(
            package.metadata,
            moment(start),
            frames@,
            package.frames@.len() as int,
        );
    }
    let mut images: Vec<String> = Vec::new();
    let mut k: usize = 0;
    while k < frames.len()
        invariant
            k <= frames@.len(),
            images@.len() == k,
            forall|j: int| 0 <= j < frames@.len() ==> (#[trigger] frames@[j]) < package.frames@.len(),
            forall|j: int| 0 <= j < k ==> images@[j] == package.frames@[frames@[j] as int],
        decreases frames@.len() - k,
    {
        images.push(package.frames[frames[k]].clone());
        k += 1;
    }
    proof {
        assert(images@ =~= images_along(package.frames@, frames@));
    }
    Ok(images)
}

/// The package whose extracted frames a clear keeps: none where all is to go,
/// else the wallpaper that was set last, as far as it still resolves.
pub open spec fn package_to_keep(all: bool, last: LastWallpaper, resolves: bool) -> Option<
    Seq<char>,
> {
    if all {
        None
    } else {
        match last.lookup(resolves) {
            Some(path) => Some(path@),
            None => None,
        }
    }
}

/// Clears the extraction cache. Without `all`, the frames of the wallpaper
/// that was set last stay, and so does the memory of it. With `all`, every
/// entry goes and the last wallpaper is forgotten. Returns the entries that
/// were removed.
pub fn clear(
    all: bool,
    last: &mut LastWallpaper,
    resolves: bool,
    cache: &mut ExtractionCache,
) -> (evicted: Vec<CacheEntry>)
    ensures
        final(cache).entries@ == survivors(
            old(cache).entries@,
            package_to_keep(all, *old(last), resolves),
        ),
        evicted@ == evictions(old(cache).entries@, package_to_keep(all, *old(last), resolves)),
        *final(last) == if all {
            old(last).cleared()
        } else {
            *old(last)
        },
        old(cache).wf() ==> final(cache).wf(),
{
    let keep: Option<String> = if all {
        None
    } else {
        last.get(resolves)
    };
    let evicted: Vec<CacheEntry> = match &keep {
        Some(path) => cache.clear(Some(path)),
        None => cache.clear(None),
    };
    if all {
        last.clear();
    }
    evicted
}

} // verus!
