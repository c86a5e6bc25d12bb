use timewall::actions::preview;
use timewall::clock::now_time;
use timewall::control::{
    validate_wallpaper_file, Action, Candidate, Controller, Event, FileCheck, Outcome, State,
};
use timewall::error::{ConfigurationKind, Error, MismatchKind, ValidationKind};
use timewall::metadata::{Anchor, Appearance, AppearanceFrames, Metadata, Package};
use timewall::selection::Environment;

const GOOD: FileCheck = FileCheck { exists: true, is_file: true, is_container: true };

fn path() -> String {
    "/w/day.heic".to_string()
}

fn images() -> Vec<String> {
    vec!["f0.png".to_string(), "f1.png".to_string(), "f2.png".to_string()]
}

fn anchors() -> Vec<Anchor> {
    vec![
        Anchor { at: 21600, frame: 0 },
        Anchor { at: 43200, frame: 1 },
        Anchor { at: 64800, frame: 2 },
    ]
}

fn clock_package() -> Package {
    Package { frames: images(), metadata: Metadata::H24 { anchors: anchors(), appearance: None } }
}

fn solar_package() -> Package {
    Package { frames: images(), metadata: Metadata::Solar { anchors: anchors(), appearance: None } }
}

fn at_time(time: u32) -> Environment {
    Environment { time, sun: None, host: Appearance::Light }
}

fn given() -> Event {
    Event::Paths { given: Some(Candidate { path: path(), check: GOOD }), last: None }
}

fn loaded(package: Package) -> Event {
    Event::Loaded { check: GOOD, package: Some(package) }
}

fn selecting(daemon: bool, package: Package) -> Controller {
    let mut controller = timewall::actions::set(daemon, None, false).unwrap();
    assert_eq!(controller.step(given()), Action::Load { path: path(), remember: true });
    assert_eq!(controller.step(loaded(package)), Action::Observe);
    assert_eq!(controller.state, State::Selecting);
    controller
}

#[test]
fn set_refuses_forced_appearance_in_daemon_mode() {
    assert_eq!(
        timewall::actions::set(true, Some(Appearance::Dark), true),
        Err(Error::Configuration(ConfigurationKind::AppearanceInDaemon))
    );
}

#[test]
fn set_starts_resolving() {
    let controller = timewall::actions::set(true, None, true).unwrap();
    assert_eq!(controller.state, State::Resolving);
    assert_eq!(controller.previous, None);
    assert!(controller.daemon);
    let forced = timewall::actions::set(false, Some(Appearance::Light), false).unwrap();
    assert_eq!(forced.forced, Some(Appearance::Light));
    assert_eq!(forced.state, State::Resolving);
}

#[test]
fn validation_reports_the_first_failed_check() {
    let missing = FileCheck { exists: false, is_file: false, is_container: false };
    assert_eq!(
        validate_wallpaper_file(&path(), missing),
        Err(Error::Validation { kind: ValidationKind::Inaccessible, path: path() })
    );
    let directory = FileCheck { exists: true, is_file: false, is_container: false };
    assert_eq!(
        validate_wallpaper_file(&path(), directory),
        Err(Error::Validation { kind: ValidationKind::NotAFile, path: path() })
    );
    let text = FileCheck { exists: true, is_file: true, is_container: false };
    assert_eq!(
        validate_wallpaper_file(&path(), text),
        Err(Error::Validation { kind: ValidationKind::Malformed, path: path() })
    );
    assert_eq!(validate_wallpaper_file(&path(), GOOD), Ok(()));
}

#[test]
fn one_shot_runs_to_done() {
    let mut controller = selecting(false, clock_package());
    assert_eq!(
        controller.step(Event::Context(at_time(52200))),
        Action::Apply { index: 1, image: "f1.png".to_string() }
    );
    assert_eq!(controller.state, State::Applying);
    assert_eq!(controller.step(Event::Applied(Outcome::Success)), Action::Finish);
    assert_eq!(controller.state, State::Done);
    assert_eq!(controller.previous, Some(1));
    assert_eq!(controller.step(Event::Woke), Action::Ignore);
    assert_eq!(controller.state, State::Done);
}

#[test]
fn explicit_path_wins_over_remembered() {
    let mut controller = timewall::actions::set(false, None, false).unwrap();
    let event = Event::Paths {
        given: Some(Candidate { path: path(), check: GOOD }),
        last: Some("/w/old.heic".to_string()),
    };
    assert_eq!(controller.step(event), Action::Load { path: path(), remember: true });
    assert_eq!(controller.state, State::Loaded);
    assert_eq!(controller.path, Some(path()));
}

#[test]
fn remembered_path_serves_when_none_is_given() {
    let mut controller = timewall::actions::set(false, None, false).unwrap();
    let event = Event::Paths { given: None, last: Some("/w/old.heic".to_string()) };
    assert_eq!(
        controller.step(event),
        Action::Load { path: "/w/old.heic".to_string(), remember: false }
    );
}

#[test]
fn no_path_at_all_is_fatal() {
    let mut controller = timewall::actions::set(false, None, false).unwrap();
    assert_eq!(
        controller.step(Event::Paths { given: None, last: None }),
        Action::Fail(Error::NoPackage)
    );
    assert_eq!(controller.state, State::Done);
}

#[test]
fn given_path_that_fails_checks_is_fatal() {
    let mut controller = timewall::actions::set(false, None, false).unwrap();
    let bad = FileCheck { exists: true, is_file: false, is_container: false };
    let event = Event::Paths {
        given: Some(Candidate { path: path(), check: bad }),
        last: Some("/w/old.heic".to_string()),
    };
    assert_eq!(
        controller.step(event),
        Action::Fail(Error::Validation { kind: ValidationKind::NotAFile, path: path() })
    );
    assert_eq!(controller.state, State::Done);
}

#[test]
fn package_that_fails_checks_is_fatal() {
    let mut controller = timewall::actions::set(true, None, false).unwrap();
    controller.step(given());
    let gone = FileCheck { exists: false, is_file: false, is_container: false };
    assert_eq!(
        controller.step(Event::Loaded { check: gone, package: None }),
        Action::Fail(Error::Validation { kind: ValidationKind::Inaccessible, path: path() })
    );
    assert_eq!(controller.state, State::Done);
}

#[test]
fn loader_failure_is_a_malformed_package() {
    let mut controller = timewall::actions::set(false, None, false).unwrap();
    controller.step(given());
    assert_eq!(
        controller.step(Event::Loaded { check: GOOD, package: None }),
        Action::Fail(Error::Validation { kind: ValidationKind::Malformed, path: path() })
    );
}

#[test]
fn frame_reference_out_of_bounds_is_a_load_error() {
    let mut controller = timewall::actions::set(false, None, false).unwrap();
    controller.step(given());
    let package = Package {
        frames: vec!["only.png".to_string()],
        metadata: Metadata::H24 { anchors: anchors(), appearance: None },
    };
    assert_eq!(
        controller.step(loaded(package)),
        Action::Fail(Error::MetadataMismatch(MismatchKind::FrameOutOfBounds))
    );
    assert_eq!(controller.state, State::Done);
}

#[test]
fn solar_without_coordinates_fails_before_selection() {
    let mut controller = timewall::actions::set(false, None, false).unwrap();
    controller.step(given());
    assert_eq!(
        controller.step(loaded(solar_package())),
        Action::Fail(Error::Configuration(ConfigurationKind::MissingCoordinates))
    );
    assert_eq!(controller.state, State::Done);
    assert_eq!(controller.package, None);
}

#[test]
fn solar_with_coordinates_selects_by_the_sun() {
    let mut controller = timewall::actions::set(false, None, true).unwrap();
    controller.step(given());
    assert_eq!(controller.step(loaded(solar_package())), Action::Observe);
    let environment = Environment { time: 0, sun: Some(50000), host: Appearance::Light };
    assert_eq!(
        controller.step(Event::Context(environment)),
        Action::Apply { index: 1, image: "f1.png".to_string() }
    );
}

#[test]
fn forced_appearance_on_solar_needs_no_coordinates() {
    let mut controller = timewall::actions::set(false, Some(Appearance::Dark), false).unwrap();
    controller.step(given());
    let package = Package {
        frames: images(),
        metadata: Metadata::Solar {
            anchors: anchors(),
            appearance: Some(AppearanceFrames { light: 0, dark: 2 }),
        },
    };
    assert_eq!(controller.step(loaded(package)), Action::Observe);
    assert_eq!(
        controller.step(Event::Context(at_time(0))),
        Action::Apply { index: 2, image: "f2.png".to_string() }
    );
}

#[test]
fn forced_appearance_without_view_is_a_mismatch() {
    let mut controller = timewall::actions::set(false, Some(Appearance::Dark), false).unwrap();
    controller.step(given());
    assert_eq!(controller.step(loaded(clock_package())), Action::Observe);
    assert_eq!(
        controller.step(Event::Context(at_time(0))),
        Action::Fail(Error::MetadataMismatch(MismatchKind::NoAppearanceView))
    );
    assert_eq!(controller.state, State::Done);
}

#[test]
fn empty_anchor_set_fails_selection() {
    let package = Package {
        frames: images(),
        metadata: Metadata::H24 { anchors: Vec::new(), appearance: None },
    };
    let mut controller = selecting(false, package);
    assert_eq!(controller.step(Event::Context(at_time(0))), Action::Fail(Error::Selection));
}

#[test]
fn second_cycle_at_the_same_moment_applies_nothing() {
    let mut controller = selecting(true, clock_package());
    assert_eq!(
        controller.step(Event::Context(at_time(52200))),
        Action::Apply { index: 1, image: "f1.png".to_string() }
    );
    assert_eq!(controller.step(Event::Applied(Outcome::Success)), Action::Sleep);
    assert_eq!(controller.state, State::Sleeping);
    assert_eq!(controller.step(Event::Woke), Action::Resolve);
    assert_eq!(controller.step(given()), Action::Load { path: path(), remember: true });
    assert_eq!(controller.step(loaded(clock_package())), Action::Observe);
    assert_eq!(controller.step(Event::Context(at_time(52200))), Action::Skip);
    assert_eq!(controller.state, State::Unchanged);
    assert_eq!(controller.step(Event::Skipped), Action::Sleep);
    assert_eq!(controller.state, State::Sleeping);
    assert_eq!(controller.previous, Some(1));
}

#[test]
fn daemon_applies_again_when_the_frame_changes() {
    let mut controller = selecting(true, clock_package());
    controller.step(Event::Context(at_time(52200)));
    controller.step(Event::Applied(Outcome::Success));
    controller.step(Event::Woke);
    controller.step(given());
    controller.step(loaded(clock_package()));
    assert_eq!(
        controller.step(Event::Context(at_time(64800))),
        Action::Apply { index: 2, image: "f2.png".to_string() }
    );
    assert_eq!(controller.step(Event::Applied(Outcome::Success)), Action::Sleep);
    assert_eq!(controller.previous, Some(2));
}

#[test]
fn passing_failure_in_daemon_mode_is_tried_again() {
    let mut controller = selecting(true, clock_package());
    controller.step(Event::Context(at_time(52200)));
    assert_eq!(controller.step(Event::Applied(Outcome::Failure)), Action::Sleep);
    assert_eq!(controller.previous, None);
    controller.step(Event::Woke);
    controller.step(given());
    controller.step(loaded(clock_package()));
    assert_eq!(
        controller.step(Event::Context(at_time(52200))),
        Action::Apply { index: 1, image: "f1.png".to_string() }
    );
}

#[test]
fn setter_failure_outside_daemon_mode_is_fatal() {
    let mut controller = selecting(false, clock_package());
    controller.step(Event::Context(at_time(52200)));
    assert_eq!(
        controller.step(Event::Applied(Outcome::Failure)),
        Action::Fail(Error::Apply { index: 1 })
    );
    assert_eq!(controller.state, State::Done);
}

#[test]
fn structural_failure_ends_the_daemon() {
    let mut controller = selecting(true, clock_package());
    controller.step(Event::Context(at_time(52200)));
    assert_eq!(
        controller.step(Event::Applied(Outcome::StructuralFailure)),
        Action::Fail(Error::Apply { index: 1 })
    );
    assert_eq!(controller.state, State::Done);
}

#[test]
fn unexpected_event_changes_nothing() {
    let mut controller = timewall::actions::set(true, None, false).unwrap();
    let before = controller.clone();
    assert_eq!(controller.step(Event::Woke), Action::Ignore);
    assert_eq!(controller.step(Event::Applied(Outcome::Success)), Action::Ignore);
    assert_eq!(controller.step(Event::Context(at_time(0))), Action::Ignore);
    assert_eq!(controller.step(Event::Skipped), Action::Ignore);
    assert_eq!(controller.step(loaded(clock_package())), Action::Ignore);
    assert_eq!(controller, before);
}

#[test]
fn preview_lists_frame_files_in_display_order() {
    assert_eq!(
        preview(&clock_package(), &at_time(52200)),
        Ok(vec!["f1.png".to_string(), "f2.png".to_string(), "f0.png".to_string()])
    );
    assert_eq!(
        preview(&solar_package(), &at_time(52200)),
        Ok(vec!["f0.png".to_string(), "f1.png".to_string(), "f2.png".to_string()])
    );
    let sunny = Environment { time: 0, sun: Some(70000), host: Appearance::Dark };
    assert_eq!(
        preview(&solar_package(), &sunny),
        Ok(vec!["f2.png".to_string(), "f0.png".to_string(), "f1.png".to_string()])
    );
    let pair = Package {
        frames: images(),
        metadata: Metadata::Appearance(AppearanceFrames { light: 2, dark: 0 }),
    };
    assert_eq!(preview(&pair, &sunny), Ok(vec!["f2.png".to_string(), "f0.png".to_string()]));
}

#[test]
fn preview_refuses_frames_out_of_bounds() {
    let package = Package {
        frames: vec!["only.png".to_string()],
        metadata: Metadata::Appearance(AppearanceFrames { light: 0, dark: 1 }),
    };
    assert_eq!(
        preview(&package, &at_time(0)),
        Err(Error::MetadataMismatch(MismatchKind::FrameOutOfBounds))
    );
}

#[test]
fn clock_time_lies_within_the_day() {
    let now = now_time(None).unwrap();
    assert!(now < 86400);
}

#[test]
fn supplied_time_replaces_the_clock() {
    let first = now_time(Some("2012-12-12T12:12:12+00:00")).unwrap();
    assert!(first < 86400);
    assert_eq!(first % 60, 12);
    let later = now_time(Some("2012-12-12 12:12:42Z")).unwrap();
    assert_eq!((later + 86400 - first) % 86400, 30);
}

#[test]
fn unreadable_supplied_time_gives_nothing() {
    assert_eq!(now_time(Some("half past nine")), None);
    assert_eq!(now_time(Some("")), None);
}
