//! The selection engine: from metadata and the present moment to a frame.
//!
//! Anchors lie on a circle, a day or the sun's daily path. At any moment the
//! anchor that was passed most recently applies; before the first anchor of
//! the cycle, the last one of the cycle before still does. Of anchors at the
//! same position, the one declared last wins.

use vstd::prelude::*;
use crate::error::{ConfigurationKind, Error, MismatchKind};
use crate::metadata::{Anchor, Appearance, AppearanceFrames, Metadata};

verus! {

/// Anchor `a` comes before anchor `b` in one cycle: it lies at an earlier
/// position, or at the same position and was declared earlier.
pub open spec fn before(anchors: Seq<Anchor>, a: int, b: int) -> bool {
    anchors[a].at < anchors[b].at || (anchors[a].at == anchors[b].at && a < b)
}

/// Anchor `i` is the one most recently passed at `now`: it lies at or before
/// `now`, and every other anchor at or before `now` comes before it.
pub open spec fn is_passed(anchors: Seq<Anchor>, now: int, i: int) -> bool {
    &&& 0 <= i < anchors.len()
    &&& anchors[i].at <= now
    &&& forall|j: int|
        0 <= j < anchors.len() && anchors[j].at <= now ==> j == i || #[trigger] before(
            anchors,
            j,
            i,
        )
}

/// No anchor lies at or before `now`.
pub open spec fn none_passed(anchors: Seq<Anchor>, now: int) -> bool {
    forall|j: int| 0 <= j < anchors.len() ==> (#[trigger] anchors[j]).at > now
}

/// Anchor `i` is the last of the cycle: every other anchor comes before it.
pub open spec fn is_last(anchors: Seq<Anchor>, i: int) -> bool {
    &&& 0 <= i < anchors.len()
    &&& forall|j: int| 0 <= j < anchors.len() ==> j == i || #[trigger] before(anchors, j, i)
}

/// Anchor `i` applies at `now`: it is the one most recently passed, or nothing
/// was passed yet and it is the last of the cycle.
pub open spec fn is_selected(anchors: Seq<Anchor>, now: int, i: int) -> bool {
    is_passed(anchors, now, i) || (none_passed(anchors, now) && is_last(anchors, i))
}

/// The anchor that applies at `now`. It is the only one (see
/// `lemma_selected_unique`), and there is one unless the set is empty.
pub open spec fn selected(anchors: Seq<Anchor>, now: int) -> int {
    choose|i: int| is_selected(anchors, now, i)
}

/// At most one anchor applies at a given moment.
pub proof fn lemma_selected_unique(anchors: Seq<Anchor>, now: int, i: int, j: int)
    requires
        is_selected(anchors, now, i),
        is_selected(anchors, now, j),
    ensures
        i == j,
{
    if i != j {
        if is_passed(anchors, now, i) {
            assert(is_passed(anchors, now, j));
            assert(before(anchors, j, i));
            assert(before(anchors, i, j));
        } else {
            assert(!is_passed(anchors, now, j));
            assert(before(anchors, j, i));
            assert(before(anchors, i, j));
        }
    }
}

/// Among the first `n` anchors one is the last of the cycle.
proof fn lemma_last_among(anchors: Seq<Anchor>, n: int) -> (i: int)
    requires
        0 < n <= anchors.len(),
    ensures
        0 <= i < n,
        forall|j: int| 0 <= j < n ==> j == i || #[trigger] before(anchors, j, i),
    decreases n,
{
    if n == 1 {
        0
    } else {
        let p = lemma_last_among(anchors, n - 1);
        let i = if anchors[p].at <= anchors[n - 1].at { n - 1 } else { p };
        assert forall|j: int| 0 <= j < n implies j == i || #[trigger] before(anchors, j, i) by {
            if j < n - 1 {
                assert(j == p || before(anchors, j, p));
            }
        }
        i
    }
}

/// Among the first `n` anchors either none lies at or before `now`, or one of
/// them is the one most recently passed.
proof fn lemma_passed_among(anchors: Seq<Anchor>, now: int, n: int) -> (r: Option<int>)
    requires
        0 <= n <= anchors.len(),
    ensures
        r.is_none() ==> forall|j: int| 0 <= j < n ==> (#[trigger] anchors[j]).at > now,
        r.is_some() ==> 0 <= r.unwrap() < n && anchors[r.unwrap()].at <= now,
        r.is_some() ==> forall|j: int|
            0 <= j < n && anchors[j].at <= now ==> j == r.unwrap() || #[trigger] before(
                anchors,
                j,
                r.unwrap(),
            ),
    decreases n,
{
    if n == 0 {
        None
    } else {
        let earlier = lemma_passed_among(anchors, now, n - 1);
        let take = anchors[n - 1].at <= now && (earlier.is_none() || anchors[earlier.unwrap()].at
            <= anchors[n - 1].at);
        let r = if take { Some(n - 1) } else { earlier };
        if r.is_some() {
            assert forall|j: int| 0 <= j < n && anchors[j].at <= now implies j == r.unwrap()
                || #[trigger] before(anchors, j, r.unwrap()) by {
                if j < n - 1 && earlier.is_some() {
                    assert(j == earlier.unwrap() || before(anchors, j, earlier.unwrap()));
                }
            }
        }
        r
    }
}

/// Whatever the moment, one anchor of a set that is not empty applies: the
/// greatest at or before `now`, or the last of the cycle where `now` lies
/// before them all.
pub proof fn lemma_selected_applies(anchors: Seq<Anchor>, now: int)
    requires
        anchors.len() > 0,
    ensures
        is_selected(anchors, now, selected(anchors, now)),
        0 <= selected(anchors, now) < anchors.len(),
{
    let passed = lemma_passed_among(anchors, now, anchors.len() as int);
    let last = lemma_last_among(anchors, anchors.len() as int);
    if passed.is_some() {
        assert(is_passed(anchors, now, passed.unwrap()));
        assert(is_selected(anchors, now, passed.unwrap()));
    } else {
        assert(none_passed(anchors, now));
        assert(is_last(anchors, last));
        assert(is_selected(anchors, now, last));
    }
}

/// A set of one anchor gives that anchor at every moment.
pub proof fn lemma_single_anchor(anchors: Seq<Anchor>, now: int)
    requires
        anchors.len() == 1,
    ensures
        selected(anchors, now) == 0,
{
    lemma_selected_applies(anchors, now);
}

/// What the selection reads of the world at one moment.
#[derive(Clone, Copy, Debug, PartialEq, Eq, Structural)]
pub struct Environment {
    /// The wall-clock time, in seconds since midnight.
    pub time: u32,
    /// The sun's position on its daily path, computed for this moment from
    /// the configured coordinates; `None` where no coordinates are configured.
    pub sun: Option<i64>,
    /// The host's appearance.
    pub host: Appearance,
}

/// The frame of a set of anchors at `now`; an error for the empty set.
pub open spec fn anchored_frame(anchors: Seq<Anchor>, now: int) -> Result<usize, Error> {
    if anchors.len() == 0 {
        Err(Error::Selection)
    } else {
        Ok(anchors[selected(anchors, now)].frame)
    }
}

/// The frame that applies in `environment`. A forced appearance decides
/// through the metadata's appearance view, whatever the metadata's own kind;
/// without one, the metadata's kind says what is read: the host's appearance,
/// the clock, or the sun's position.
pub open spec fn current_index(
    metadata: Metadata,
    environment: Environment,
    forced: Option<Appearance>,
) -> Result<usize, Error> {
    if forced.is_some() {
        match metadata.appearance_spec() {
            Some(frames) => Ok(appearance_frame(frames, forced.unwrap())),
            None => Err(Error::MetadataMismatch(MismatchKind::NoAppearanceView)),
        }
    } else {
        match metadata {
            Metadata::Appearance(frames) => Ok(appearance_frame(frames, environment.host)),
            Metadata::H24 { anchors, .. } => anchored_frame(anchors@, environment.time as int),
            Metadata::Solar { anchors, .. } => match environment.sun {
                Some(position) => anchored_frame(anchors@, position as int),
                None => Err(Error::Configuration(ConfigurationKind::MissingCoordinates)),
            },
        }
    }
}

/// A frame that is selected is one that the metadata refers to, so it lies
/// within every bound that the metadata keeps.
pub proof fn lemma_current_index_within(
    metadata: Metadata,
    environment: Environment,
    forced: Option<Appearance>,
    count: int,
)
    requires
        metadata.within(count),
        current_index(metadata, environment, forced).is_ok(),
    ensures
        current_index(metadata, environment, forced).unwrap() < count,
{
    if forced.is_none() {
        match metadata {
            Metadata::Appearance(frames) => {},
            Metadata::H24 { anchors, .. } => {
                lemma_selected_applies(anchors@, environment.time as int);
            },
            Metadata::Solar { anchors, .. } => {
                lemma_selected_applies(anchors@, environment.sun.unwrap() as int);
            },
        }
    }
}

/// The frame that appearance metadata gives for an appearance.
pub open spec fn appearance_frame(frames: AppearanceFrames, appearance: Appearance) -> usize {
    match appearance {
        Appearance::Light => frames.light,
        Appearance::Dark => frames.dark,
    }
}

/// The anchor that applies at `now`, by its place in the declaration;
/// `None` for an empty set, and only then.
pub fn select_anchor(anchors: &Vec<Anchor>, now: i64) -> (r: Option<usize>)
    ensures
        r.is_none() == (anchors@.len() == 0),
        r.is_some() ==> is_selected(anchors@, now as int, r.unwrap() as int),
        r.is_some() ==> r.unwrap() as int == selected(anchors@, now as int),
{
    let n: usize = anchors.len();
    if n == 0 {
        return None;
    }
    let mut passed: Option<usize> = None;
    let mut last: usize = 0;
    let mut i: usize = 0;
    while i < n
        invariant
            n == anchors@.len(),
            n > 0,
            i <= n,
            i == 0 ==> last == 0 && passed.is_none(),
            i > 0 ==> last < i,
            forall|j: int| 0 <= j < i ==> j == last || #[trigger] before(anchors@, j, last as int),
            passed.is_none() ==> forall|j: int| 0 <= j < i ==> (#[trigger] anchors@[j]).at > now,
            passed.is_some() ==> passed.unwrap() < i && anchors@[passed.unwrap() as int].at <= now,
            passed.is_some() ==> forall|j: int|
                0 <= j < i && anchors@[j].at <= now ==> j == passed.unwrap() || #[trigger] before(
                    anchors@,
                    j,
                    passed.unwrap() as int,
                ),
        decreases n - i,
    {
        let ghost earlier_last = last as int;
        let ghost earlier_passed = passed;
        let at: i64 = anchors[i].at;
        if anchors[last].at <= at {
            last = i;
        }
        if at <= now {
            let replace: bool = match passed {
                Some(p) => anchors[p].at <= at,
                None => true,
            };
            if replace {
                passed = Some(i);
            }
        }
        proof {
            assert forall|j: int| 0 <= j < i + 1 implies j == last || #[trigger] before(
                anchors@,
                j,
                last as int,
            ) by {
                if j < i {
                    assert(j == earlier_last || before(anchors@, j, earlier_last));
                }
            }
            if passed.is_some() {
                assert forall|j: int| 0 <= j < i + 1 && anchors@[j].at <= now implies j
                    == passed.unwrap() || #[trigger] before(anchors@, j, passed.unwrap() as int) by {
                    if j < i && earlier_passed.is_some() {
                        assert(j == earlier_passed.unwrap() || before(
                            anchors@,
                            j,
                            earlier_passed.unwrap() as int,
                        ));
                    }
                }
            }
        }
        i += 1;
    }
    let chosen: usize = match passed {
        Some(p) => p,
        None => last,
    };
    proof {
        assert(is_selected(anchors@, now as int, chosen as int));
        lemma_selected_unique(
            anchors@,
            now as int,
            chosen as int,
            selected(anchors@, now as int),
        );
    }
    Some(chosen)
}

/// The frame of clock metadata at `now_time`, in seconds since midnight: that
/// of the latest anchor at or before `now_time`, or, when the day's first
/// anchor is still ahead, that of the day's last anchor.
pub fn select_h24(anchors: &Vec<Anchor>, now_time: u32) -> (r: Result<usize, Error>)
    ensures
        match r {
            Ok(frame) => anchors@.len() > 0 && is_selected(
                anchors@,
                now_time as int,
                selected(anchors@, now_time as int),
            ) && frame == anchors@[selected(anchors@, now_time as int)].frame,
            Err(error) => anchors@.len() == 0 && error == Error::Selection,
        },
{
    match select_anchor(anchors, now_time as i64) {
        Some(i) => Ok(anchors[i].frame),
        None => Err(Error::Selection),
    }
}

/// The frame of solar metadata when the sun stands at `now_position`: the same
/// rule as for the clock, on the sun's daily path.
pub fn select_solar(anchors: &Vec<Anchor>, now_position: i64) -> (r: Result<usize, Error>)
    ensures
        match r {
            Ok(frame) => anchors@.len() > 0 && is_selected(
                anchors@,
                now_position as int,
                selected(anchors@, now_position as int),
            ) && frame == anchors@[selected(anchors@, now_position as int)].frame,
            Err(error) => anchors@.len() == 0 && error == Error::Selection,
        },
{
    match select_anchor(anchors, now_position) {
        Some(i) => Ok(anchors[i].frame),
        None => Err(Error::Selection),
    }
}

/// The frame of appearance metadata: that of the forced appearance where one
/// is given, else that of the host's appearance.
pub fn select_appearance(
    frames: AppearanceFrames,
    forced: Option<Appearance>,
    host: Appearance,
) -> (r: usize)
    ensures
        r == appearance_frame(
            frames,
            match forced {
                Some(appearance) => appearance,
                None => host,
            },
        ),
{
    let appearance: Appearance = match forced {
        Some(appearance) => appearance,
        None => host,
    };
    match appearance {
        Appearance::Light => frames.light,
        Appearance::Dark => frames.dark,
    }
}

/// The frame that applies in `environment`: see `current_index`. Solar
/// metadata without a sun position is a configuration error, reported before
/// the anchors are looked at.
pub fn current_image_index(
    metadata: &Metadata,
    environment: &Environment,
    forced: Option<Appearance>,
) -> (r: Result<usize, Error>)
    ensures
        r == current_index(*metadata, *environment, forced),
{
    if forced.is_some() {
        return match metadata.appearance() {
            Some(frames) => Ok(select_appearance(frames, forced, environment.host)),
            None => Err(Error::MetadataMismatch(MismatchKind::NoAppearanceView)),
        };
    }
    match metadata {
        Metadata::Appearance(frames) => Ok(select_appearance(*frames, None, environment.host)),
        Metadata::H24 { anchors, .. } => select_h24(anchors, environment.time),
        Metadata::Solar { anchors, .. } => match environment.sun {
            Some(position) => select_solar(anchors, position),
            None => Err(Error::Configuration(ConfigurationKind::MissingCoordinates)),
        },
    }
}

} // verus!
