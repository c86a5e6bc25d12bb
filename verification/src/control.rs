//! The control loop as a state machine. The loop itself, with its waiting and
//! its calls to the outside, belongs to the caller; what it does next is
//! decided here. The caller performs the action that a step returns and hands
//! back the event that the action led to.
//!
//! One cycle runs `Resolving`, `Loaded`, `Selecting`, then `Applying` or, where
//! the frame is the one already shown, `Unchanged`, then `Sleeping` and round
//! again. `Done` ends the loop: after one frame was applied outside daemon
//! mode, or after an error.

use vstd::prelude::*;
use crate::error::{ConfigurationKind, Error, MismatchKind, ValidationKind};
use crate::metadata::{Appearance, Metadata, Package};
use crate::selection::{
    current_image_index,
    current_index,
    lemma_current_index_within,
    Environment,
};

verus! {

/// Where the loop stands.
#[derive(Clone, Copy, Debug, PartialEq, Eq, Structural)]
pub enum State {
    /// The path of the package is to be determined.
    Resolving,
    /// The path is known; the package is being checked and loaded.
    Loaded,
    /// The package passed; the frame is to be selected.
    Selecting,
    /// The selected frame is the one that was applied last.
    Unchanged,
    /// The setter was invoked with the selected frame.
    Applying,
    /// The loop rests until the next cycle.
    Sleeping,
    /// The loop is over.
    Done,
}

/// What the caller found at a path.
#[derive(Clone, Copy, Debug, PartialEq, Eq, Structural)]
pub struct FileCheck {
    /// Something is accessible at the path.
    pub exists: bool,
    /// It is a regular file.
    pub is_file: bool,
    /// It is a well-formed wallpaper container.
    pub is_container: bool,
}

/// How the setter ended.
#[derive(Clone, Copy, Debug, PartialEq, Eq, Structural)]
pub enum Outcome {
    /// The frame is on the desktop.
    Success,
    /// The setter failed, and may succeed on a later cycle.
    Failure,
    /// The setter failed in a way that no later cycle can mend, such as a
    /// frame file that is not there.
    StructuralFailure,
}

/// The path that the caller was given, with what it found there.
#[derive(Clone, Debug, PartialEq, Eq)]
pub struct Candidate {
    pub path: String,
    pub check: FileCheck,
}

/// What the caller reports back.
#[derive(Clone, Debug, PartialEq, Eq)]
pub enum Event {
    /// The paths to choose from: the one given explicitly, if any, and the
    /// one remembered from the last run, if it still resolves.
    Paths { given: Option<Candidate>, last: Option<String> },
    /// The file at the path was checked and, where it passed, loaded; no
    /// package where the loader failed.
    Loaded { check: FileCheck, package: Option<Package> },
    /// The environment was read.
    Context(Environment),
    /// The notice that nothing changed was taken.
    Skipped,
    /// The setter ended.
    Applied(Outcome),
    /// The rest is over.
    Woke,
}

/// What the caller is to do next.
#[derive(Clone, Debug, PartialEq, Eq)]
pub enum Action {
    /// Report the paths to choose from.
    Resolve,
    /// Remember `path` as the last wallpaper if `remember` is set; then check
    /// the file at `path`, load it, and report the package.
    Load { path: String, remember: bool },
    /// Read the environment and report it.
    Observe,
    /// Nothing is to be applied: the frame is the one that is shown. Report
    /// that the notice was taken.
    Skip,
    /// Invoke the setter with the frame `index`, found at `image`, and report
    /// how it ended.
    Apply { index: usize, image: String },
    /// Rest for the configured interval and report the end of it.
    Sleep,
    /// The frame was applied and the loop is over.
    Finish,
    /// The loop is over with this error.
    Fail(Error),
    /// The event is not one that the state waits for; nothing changed.
    Ignore,
}

/// The loop's own state, carried from cycle to cycle.
#[derive(Clone, Debug, PartialEq, Eq)]
pub struct Controller {
    pub state: State,
    /// The loop goes on after a frame was applied.
    pub daemon: bool,
    /// The appearance that the user forced, if any.
    pub forced: Option<Appearance>,
    /// Geographic coordinates are configured.
    pub coordinates: bool,
    /// The frame that was applied last, if any.
    pub previous: Option<usize>,
    /// The path of this cycle's package.
    pub path: Option<String>,
    /// This cycle's package.
    pub package: Option<Package>,
    /// The frame that the setter was invoked with.
    pub pending: Option<usize>,
}

/// What is wrong with a file, by the first check that it fails.
pub open spec fn file_fault(check: FileCheck) -> Option<ValidationKind> {
    if !check.exists {
        Some(ValidationKind::Inaccessible)
    } else if !check.is_file {
        Some(ValidationKind::NotAFile)
    } else if !check.is_container {
        Some(ValidationKind::Malformed)
    } else {
        None
    }
}

/// The result of validating the file at `path`.
pub open spec fn validated(path: String, check: FileCheck) -> Result<(), Error> {
    match file_fault(check) {
        Some(kind) => Err(Error::Validation { kind, path }),
        None => Ok(()),
    }
}

/// Is the file at `path` one that can be loaded? It has to be accessible, a
/// regular file, and a well-formed container; the first of these that fails
/// is reported, with the path.
pub fn validate_wallpaper_file(path: &String, check: FileCheck) -> (r: Result<(), Error>)
    ensures
        r == validated(*path, check),
{
    if !check.exists {
        Err(Error::Validation { kind: ValidationKind::Inaccessible, path: path.clone() })
    } else if !check.is_file {
        Err(Error::Validation { kind: ValidationKind::NotAFile, path: path.clone() })
    } else if !check.is_container {
        Err(Error::Validation { kind: ValidationKind::Malformed, path: path.clone() })
    } else {
        Ok(())
    }
}

/// Solar metadata is to be read by the sun, and no coordinates are there.
pub open spec fn lacks_coordinates(
    metadata: Metadata,
    forced: Option<Appearance>,
    coordinates: bool,
) -> bool {
    metadata is Solar && forced.is_none() && !coordinates
}

impl Controller {
    /// The controller of a loop that has not started.
    pub open spec fn initial(
        daemon: bool,
        forced: Option<Appearance>,
        coordinates: bool,
    ) -> Controller {
        Controller {
            state: State::Resolving,
            daemon,
            forced,
            coordinates,
            previous: None,
            path: None,
            package: None,
            pending: None,
        }
    }

    /// What every state of the loop keeps: a forced appearance never meets
    /// daemon mode; the path is known from `Loaded` on; the package is held
    /// and well formed while a frame is selected; the frame is held while it
    /// is applied.
    pub open spec fn wf(self) -> bool {
        &&& !(self.daemon && self.forced.is_some())
        &&& self.state == State::Loaded ==> self.path.is_some()
        &&& self.state == State::Selecting ==> self.package.is_some() && self.package.unwrap().wf()
        &&& self.state == State::Applying ==> self.pending.is_some()
    }

    /// The same controller in another state.
    pub open spec fn at(self, state: State) -> Controller {
        Controller { state, ..self }
    }

    /// The end of the loop with an error.
    pub open spec fn fail(self, error: Error) -> (Controller, Action) {
        (self.at(State::Done), Action::Fail(error))
    }

    /// The start of a cycle at `path`.
    pub open spec fn load(self, path: String, remember: bool) -> (Controller, Action) {
        (
            Controller {
                state: State::Loaded,
                path: Some(path),
                package: None,
                pending: None,
                ..self
            },
            Action::Load { path, remember },
        )
    }

    /// `Resolving`: a path that was given wins, once its file passed the
    /// checks, and is to be remembered; else the remembered path serves; with
    /// neither the loop ends.
    pub open spec fn on_paths(self, given: Option<Candidate>, last: Option<String>) -> (
        Controller,
        Action,
    ) {
        match given {
            Some(candidate) => match file_fault(candidate.check) {
                Some(kind) => self.fail(Error::Validation { kind, path: candidate.path }),
                None => self.load(candidate.path, true),
            },
            None => match last {
                Some(path) => self.load(path, false),
                None => self.fail(Error::NoPackage),
            },
        }
    }

    /// `Loaded`: the file has to pass the checks, the loader has to give a
    /// package, the package may refer only to frames that it holds, and solar
    /// metadata needs coordinates unless an appearance is forced. Any of
    /// these failing ends the loop; else the frame is selected next.
    pub open spec fn on_loaded(self, check: FileCheck, package: Option<Package>) -> (
        Controller,
        Action,
    ) {
        let path = self.path.unwrap();
        match file_fault(check) {
            Some(kind) => self.fail(Error::Validation { kind, path }),
            None => match package {
                None => self.fail(Error::Validation { kind: ValidationKind::Malformed, path }),
                Some(loaded) => if !loaded.wf() {
                    self.fail(Error::MetadataMismatch(MismatchKind::FrameOutOfBounds))
                } else if lacks_coordinates(loaded.metadata, self.forced, self.coordinates) {
                    self.fail(Error::Configuration(ConfigurationKind::MissingCoordinates))
                } else {
                    (
                        Controller { state: State::Selecting, package: Some(loaded), ..self },
                        Action::Observe,
                    )
                },
            },
        }
    }

    /// `Selecting`: the frame that applies in `environment` is applied,
    /// unless it is the one that was applied last; then nothing is.
    pub open spec fn on_context(self, environment: Environment) -> (Controller, Action) {
        let package = self.package.unwrap();
        match current_index(package.metadata, environment, self.forced) {
            Err(error) => self.fail(error),
            Ok(index) => if self.previous == Some(index) {
                (self.at(State::Unchanged), Action::Skip)
            } else {
                (
                    Controller { state: State::Applying, pending: Some(index), ..self },
                    Action::Apply { index, image: package.frames@[index as int] },
                )
            },
        }
    }

    /// `Applying`: a frame that was applied is remembered, and outside daemon
    /// mode ends the loop. A failure ends the loop too, unless it may pass and
    /// the loop runs in daemon mode: then the next cycle tries again.
    pub open spec fn on_applied(self, outcome: Outcome) -> (Controller, Action) {
        let index = self.pending.unwrap();
        match outcome {
            Outcome::Success => {
                let applied = Controller { previous: Some(index), pending: None, ..self };
                if self.daemon {
                    (applied.at(State::Sleeping), Action::Sleep)
                } else {
                    (applied.at(State::Done), Action::Finish)
                }
            },
            Outcome::Failure => if self.daemon {
                (self.at(State::Sleeping), Action::Sleep)
            } else {
                self.fail(Error::Apply { index })
            },
            Outcome::StructuralFailure => self.fail(Error::Apply { index }),
        }
    }

    /// The step that `event` leads to: the controller after it, and what the
    /// caller is to do. An event that the state does not wait for changes
    /// nothing.
    pub open spec fn next(self, event: Event) -> (Controller, Action) {
        match (self.state, event) {
            (State::Resolving, Event::Paths { given, last }) => self.on_paths(given, last),
            (State::Loaded, Event::Loaded { check, package }) => self.on_loaded(check, package),
            (State::Selecting, Event::Context(environment)) => self.on_context(environment),
            (State::Unchanged, Event::Skipped) => (self.at(State::Sleeping), Action::Sleep),
            (State::Applying, Event::Applied(outcome)) => self.on_applied(outcome),
            (State::Sleeping, Event::Woke) => (self.at(State::Resolving), Action::Resolve),
            _ => (self, Action::Ignore),
        }
    }

    /// Does the controller keep what `wf` asks for? A controller that came
    /// from `set` and went through `step` only always does.
    pub fn is_well_formed(&self) -> (r: bool)
        ensures
            r == self.wf(),
    {
        let holds_package: bool = match &self.package {
            Some(package) => package.metadata.fits(package.frames.len()),
            None => false,
        };
        !(self.daemon && self.forced.is_some()) && (self.state != State::Loaded
            || self.path.is_some()) && (self.state != State::Selecting || holds_package) && (
        self.state != State::Applying || self.pending.is_some())
    }

    /// Ends the loop with `error`.
    fn stop(&mut self, error: Error) -> (action: Action)
        ensures
            (*final(self), action) == old(self).fail(error),
    {
        self.state = State::Done;
        Action::Fail(error)
    }

    /// Starts a cycle at `path`.
    fn begin(&mut self, path: String, remember: bool) -> (action: Action)
        ensures
            (*final(self), action) == old(self).load(path, remember),
    {
        let copy: String = path.clone();
        self.state = State::Loaded;
        self.path = Some(copy);
        self.package = None;
        self.pending = None;
        Action::Load { path, remember }
    }

    fn resolve(&mut self, given: Option<Candidate>, last: Option<String>) -> (action: Action)
        ensures
            (*final(self), action) == old(self).on_paths(given, last),
    {
        match given {
            Some(candidate) => match validate_wallpaper_file(&candidate.path, candidate.check) {
                Err(error) => self.stop(error),
                Ok(()) => self.begin(candidate.path, true),
            },
            None => match last {
                Some(path) => self.begin(path, false),
                None => self.stop(Error::NoPackage),
            },
        }
    }

    fn loaded(&mut self, check: FileCheck, package: Option<Package>) -> (action: Action)
        requires
            old(self).path.is_some(),
        ensures
            (*final(self), action) == old(self).on_loaded(check, package),
    {
        let path: String = self.path.as_ref().unwrap().clone();
        match validate_wallpaper_file(&path, check) {
            Err(error) => self.stop(error),
            Ok(()) => match package {
                None => self.stop(Error::Validation { kind: ValidationKind::Malformed, path }),
                Some(loaded) => {
                    let solar: bool = match &loaded.metadata {
                        Metadata::Solar { .. } => true,
                        _ => false,
                    };
                    if !loaded.metadata.fits(loaded.frames.len()) {
                        self.stop(Error::MetadataMismatch(MismatchKind::FrameOutOfBounds))
                    } else if solar && self.forced.is_none() && !self.coordinates {
                        self.stop(Error::Configuration(ConfigurationKind::MissingCoordinates))
                    } else {
                        self.state = State::Selecting;
                        self.package = Some(loaded);
                        Action::Observe
                    }
                },
            },
        }
    }

    fn select(&mut self, environment: Environment) -> (action: Action)
        requires
            old(self).package.is_some(),
            old(self).package.unwrap().wf(),
        ensures
            (*final(self), action) == old(self).on_context(environment),
    {
        let package: &Package = self.package.as_ref().unwrap();
        let selected: Result<usize, Error> = current_image_index(
            &package.metadata,
            &environment,
            self.forced,
        );
        match selected {
            Err(error) => self.stop(error),
            Ok(index) => {
                proof {
                    lemma_current_index_within(
                        package.metadata,
                        environment,
                        self.forced,
                        package.frames@.len() as int,
                    );
                }
                let image: String = package.frames[index].clone();
                let same: bool = match self.previous {
                    Some(previous) => previous == index,
                    None => false,
                };
                if same {
                    self.state = State::Unchanged;
                    Action::Skip
                } else {
                    self.state = State::Applying;
                    self.pending = Some(index);
                    Action::Apply { index, image }
                }
            },
        }
    }

    fn applied(&mut self, outcome: Outcome) -> (action: Action)
        requires
            old(self).pending.is_some(),
        ensures
            (*final(self), action) == old(self).on_applied(outcome),
    {
        let index: usize = self.pending.unwrap();
        match outcome {
            Outcome::Success => {
                self.previous = Some(index);
                self.pending = None;
                if self.daemon {
                    self.state = State::Sleeping;
                    Action::Sleep
                } else {
                    self.state = State::Done;
                    Action::Finish
                }
            },
            Outcome::Failure => if self.daemon {
                self.state = State::Sleeping;
                Action::Sleep
            } else {
                self.stop(Error::Apply { index })
            },
            Outcome::StructuralFailure => self.stop(Error::Apply { index }),
        }
    }

    /// Takes `event` and says what the caller is to do next: see `next`.
    pub fn step(&mut self, event: Event) -> (action: Action)
        requires
            old(self).wf(),
        ensures
            (*final(self), action) == old(self).next(event),
            final(self).wf(),
    {
        match event {
            Event::Paths { given, last } => {
                if self.state == State::Resolving {
                    self.resolve(given, last)
                } else {
                    Action::Ignore
                }
            },
            Event::Loaded { check, package } => {
                if self.state == State::Loaded {
                    self.loaded(check, package)
                } else {
                    Action::Ignore
                }
            },
            Event::Context(environment) => {
                if self.state == State::Selecting {
                    self.select(environment)
                } else {
                    Action::Ignore
                }
            },
            Event::Skipped => {
                if self.state == State::Unchanged {
                    self.state = State::Sleeping;
                    Action::Sleep
                } else {
                    Action::Ignore
                }
            },
            Event::Applied(outcome) => {
                if self.state == State::Applying {
                    self.applied(outcome)
                } else {
                    Action::Ignore
                }
            },
            Event::Woke => {
                if self.state == State::Sleeping {
                    self.state = State::Resolving;
                    Action::Resolve
                } else {
                    Action::Ignore
                }
            },
        }
    }
}

/// Two cycles in a row at one moment select the same frame, and the setter
/// is invoked for the first only. In daemon mode, let a cycle apply a frame
/// with success; let the next cycle come to select, from the same package and
/// in the same environment. Then it selects the frame that was applied, finds
/// it unchanged, and applies nothing.
pub proof fn lemma_second_cycle_applies_nothing(
    controller: Controller,
    environment: Environment,
    given: Option<Candidate>,
    last: Option<String>,
    check: FileCheck,
)
    requires
        controller.wf(),
        controller.daemon,
        controller.state == State::Selecting,
        controller.next(Event::Context(environment)).1 is Apply,
        ({
            let applied = controller.next(Event::Context(environment)).0.next(
                Event::Applied(Outcome::Success),
            ).0;
            let resolved = applied.next(Event::Woke).0.next(Event::Paths { given, last }).0;
            resolved.next(Event::Loaded { check, package: controller.package }).1 == Action::Observe
        }),
    ensures
        ({
            let metadata = controller.package.unwrap().metadata;
            let (selecting, first) = controller.next(Event::Context(environment));
            let (applied, _) = selecting.next(Event::Applied(Outcome::Success));
            let (woken, _) = applied.next(Event::Woke);
            let (resolved, _) = woken.next(Event::Paths { given, last });
            let (loaded, _) = resolved.next(Event::Loaded { check, package: controller.package });
            let (second, action) = loaded.next(Event::Context(environment));
            &&& current_index(metadata, environment, controller.forced) == Ok::<usize, Error>(
                first->index,
            )
            &&& applied.previous == Some(first->index)
            &&& loaded.state == State::Selecting
            &&& action == Action::Skip
            &&& second.state == State::Unchanged
            &&& second.next(Event::Skipped) == (second.at(State::Sleeping), Action::Sleep)
        }),
{
}

} // verus!
