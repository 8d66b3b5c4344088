//! The live display: one progress indicator for each enabled backend, and
//! the loop that keeps them moving until every backend has ended.
//!
//! The indicators here hold what the display shows; drawing them, and
//! waiting between two rounds of the loop, is left to the caller.

use crate::args::Managers;
use crate::constants::Backend;
use vstd::prelude::*;

verus! {

/// Time between two rounds of the display loop, in milliseconds.
pub const TICK_MILLIS: u64 = 100;

/// The progress indicator of one backend.
#[derive(Clone, Debug)]
pub struct Spinner {
    /// The text next to the indicator.
    pub message: String,
    /// Whether the job of the backend has ended, well or not.
    pub finished: bool,
}

/// The progress indicators of all enabled backends. A backend that is not
/// enabled has none.
#[derive(Clone, Debug)]
pub struct Spinners {
    pub pacman: Option<Spinner>,
    pub aur: Option<Spinner>,
    pub flatpak: Option<Spinner>,
    pub snap: Option<Spinner>,
    pub cargo: Option<Spinner>,
}

/// The text next to the indicator of `backend` for `message`: the name of
/// the backend, a colon and the message.
pub open spec fn caption(backend: Backend, message: Seq<char>) -> Seq<char> {
    backend.spec_label() + ": "@ + message
}

/// What an indicator becomes when it is given the message `message`:
/// nothing, where there is no indicator; else an indicator that shows the
/// caption of `message` in the colour of `backend`, finished if it was or if
/// `finish` asks for it.
pub open spec fn shows(
    backend: Backend,
    before: Option<Spinner>,
    message: Seq<char>,
    finish: bool,
    after: Option<Spinner>,
) -> bool {
    match before {
        None => after is None,
        Some(spinner) => {
            &&& after is Some
            &&& after->0.finished == (spinner.finished || finish)
            &&& backend.paints(caption(backend, message), after->0.message@)
        },
    }
}

fn captioned(backend: Backend, message: &str) -> (r: String)
    ensures
        backend.paints(caption(backend, message@), r@),
{
    let mut text = String::from_str(backend.label());
    text.append(": ");
    text.append(message);
    backend.apply_to(text.as_str())
}

fn show(backend: Backend, spinner: Option<Spinner>, message: &str, finish: bool) -> (r: Option<
    Spinner,
>)
    ensures
        shows(backend, spinner, message@, finish, r),
{
    match spinner {
        None => None,
        Some(spinner) => Some(
            Spinner {
                message: captioned(backend, message),
                finished: spinner.finished || finish,
            },
        ),
    }
}

impl Spinners {
    /// The indicator of a backend.
    pub open spec fn of(self, backend: Backend) -> Option<Spinner> {
        match backend {
            Backend::Pacman => self.pacman,
            Backend::AUR => self.aur,
            Backend::Flatpak => self.flatpak,
            Backend::Snap => self.snap,
            Backend::Cargo => self.cargo,
        }
    }

    /// Whether the indicator of a backend is still running.
    pub open spec fn running(self, backend: Backend) -> bool {
        self.of(backend) matches Some(spinner) && !spinner.finished
    }

    /// The backends whose indicator is still running.
    pub open spec fn spec_running(self) -> Managers {
        Managers {
            pacman: self.running(Backend::Pacman),
            aur: self.running(Backend::AUR),
            flatpak: self.running(Backend::Flatpak),
            snap: self.running(Backend::Snap),
            cargo: self.running(Backend::Cargo),
        }
    }

    /// Every backend that has an indicator has ended.
    pub open spec fn done(self) -> bool {
        forall|backend: Backend| !self.running(backend)
    }

    /// The indicators at the start of a command: a running one, without a
    /// message, for each enabled backend, and none for the others.
    pub fn with_managers(managers: &Managers) -> (r: Spinners)
        ensures
            forall|backend: Backend| #[trigger] r.of(backend) is Some <==> managers.enabled(backend),
            forall|backend: Backend| #[trigger]
                r.of(backend) matches Some(spinner) ==> !spinner.finished && spinner.message@.len()
                    == 0,
            r.spec_running() == *managers,
    {
        Spinners {
            pacman: Spinners::fresh(managers.pacman),
            aur: Spinners::fresh(managers.aur),
            flatpak: Spinners::fresh(managers.flatpak),
            snap: Spinners::fresh(managers.snap),
            cargo: Spinners::fresh(managers.cargo),
        }
    }

    fn fresh(enabled: bool) -> (r: Option<Spinner>)
        ensures
            r is Some <==> enabled,
            r matches Some(spinner) ==> !spinner.finished && spinner.message@.len() == 0,
    {
        if enabled {
            Some(Spinner { message: String::new(), finished: false })
        } else {
            None
        }
    }

    /// The indicator of a backend.
    pub fn get(&self, backend: Backend) -> (r: &Option<Spinner>)
        ensures
            *r == self.of(backend),
    {
        match backend {
            Backend::Pacman => &self.pacman,
            Backend::AUR => &self.aur,
            Backend::Flatpak => &self.flatpak,
            Backend::Snap => &self.snap,
            Backend::Cargo => &self.cargo,
        }
    }

    fn update(&mut self, backend: Backend, message: &str, finish: bool)
        ensures
            shows(backend, old(self).of(backend), message@, finish, final(self).of(backend)),
            forall|other: Backend|
                other != backend ==> #[trigger] final(self).of(other) == old(self).of(other),
    {
        match backend {
            Backend::Pacman => {
                let spinner = self.pacman.take();
                self.pacman = show(backend, spinner, message, finish);
            },
            Backend::AUR => {
                let spinner = self.aur.take();
                self.aur = show(backend, spinner, message, finish);
            },
            Backend::Flatpak => {
                let spinner = self.flatpak.take();
                self.flatpak = show(backend, spinner, message, finish);
            },
            Backend::Snap => {
                let spinner = self.snap.take();
                self.snap = show(backend, spinner, message, finish);
            },
            Backend::Cargo => {
                let spinner = self.cargo.take();
                self.cargo = show(backend, spinner, message, finish);
            },
        }
    }

    /// Shows a progress message of a backend. The indicator goes on running
    /// if it was; the other indicators stay as they are.
    pub fn set_message(&mut self, backend: Backend, message: &str)
        ensures
            shows(backend, old(self).of(backend), message@, false, final(self).of(backend)),
            forall|other: Backend|
                other != backend ==> #[trigger] final(self).of(other) == old(self).of(other),
    {
        self.update(backend, message, false)
    }

    /// Ends the indicator of a backend with a last message.
    pub fn finish_with_message(&mut self, backend: Backend, message: &str)
        ensures
            shows(backend, old(self).of(backend), message@, true, final(self).of(backend)),
            forall|other: Backend|
                other != backend ==> #[trigger] final(self).of(other) == old(self).of(other),
            !final(self).running(backend),
    {
        self.update(backend, message, true)
    }

    /// Ends the indicator of a backend whose job failed.
    pub fn abort(&mut self, backend: Backend)
        ensures
            shows(backend, old(self).of(backend), "x"@, true, final(self).of(backend)),
            forall|other: Backend|
                other != backend ==> #[trigger] final(self).of(other) == old(self).of(other),
            !final(self).running(backend),
    {
        self.update(backend, "x", true)
    }

    /// Ends the indicator of a backend whose job succeeded.
    pub fn finish(&mut self, backend: Backend)
        ensures
            shows(
                backend,
                old(self).of(backend),
                "\u{ef}\u{20ac}\u{152}"@,
                true,
                final(self).of(backend),
            ),
            forall|other: Backend|
                other != backend ==> #[trigger] final(self).of(other) == old(self).of(other),
            !final(self).running(backend),
    {
        self.update(backend, "\u{ef}\u{20ac}\u{152}", true)
    }

    /// Whether the display loop has come to its end: every backend that has
    /// an indicator has ended.
    pub fn is_done(&self) -> (r: bool)
        ensures
            r == self.done(),
            r == (self.spec_running() == Managers::nothing()),
    {
        proof {
            if Spinners::ended(self.pacman) && Spinners::ended(self.aur) && Spinners::ended(
                self.flatpak,
            ) && Spinners::ended(self.snap) && Spinners::ended(self.cargo) {
                assert forall|backend: Backend| !self.running(backend) by {}
            } else {
                assert(self.running(Backend::Pacman) || self.running(Backend::AUR) || self.running(
                    Backend::Flatpak,
                ) || self.running(Backend::Snap) || self.running(Backend::Cargo));
            }
        }
        if !Spinners::has_ended(&self.pacman) {
            return false;
        }
        if !Spinners::has_ended(&self.aur) {
            return false;
        }
        if !Spinners::has_ended(&self.flatpak) {
            return false;
        }
        if !Spinners::has_ended(&self.snap) {
            return false;
        }
        if !Spinners::has_ended(&self.cargo) {
            return false;
        }
        true
    }

    /// There is no indicator, or it has ended.
    pub open spec fn ended(spinner: Option<Spinner>) -> bool {
        match spinner {
            Some(spinner) => spinner.finished,
            None => true,
        }
    }

    fn has_ended(spinner: &Option<Spinner>) -> (r: bool)
        ensures
            r == Spinners::ended(*spinner),
    {
        match spinner {
            Some(spinner) => spinner.finished,
            None => true,
        }
    }

    /// The backends whose indicator is still running.
    pub fn running_backends(&self) -> (r: Managers)
        ensures
            r == self.spec_running(),
    {
        Managers {
            pacman: !Spinners::has_ended(&self.pacman),
            aur: !Spinners::has_ended(&self.aur),
            flatpak: !Spinners::has_ended(&self.flatpak),
            snap: !Spinners::has_ended(&self.snap),
            cargo: !Spinners::has_ended(&self.cargo),
        }
    }

    /// Opens the display: every indicator shows the name of its backend and
    /// three dots. Which indicators run and which have ended stays as it is.
    pub fn start(&mut self)
        ensures
            forall|backend: Backend|
                #![trigger final(self).of(backend)]
                match old(self).of(backend) {
                    None => final(self).of(backend) is None,
                    Some(spinner) => final(self).of(backend) matches Some(shown) && shown.finished
                        == spinner.finished && backend.paints(
                        backend.spec_label() + "..."@,
                        shown.message@,
                    ),
                },
            final(self).spec_running() == old(self).spec_running(),
    {
        self.pacman = Spinners::opened(Backend::Pacman, self.pacman.take());
        self.aur = Spinners::opened(Backend::AUR, self.aur.take());
        self.flatpak = Spinners::opened(Backend::Flatpak, self.flatpak.take());
        self.snap = Spinners::opened(Backend::Snap, self.snap.take());
        self.cargo = Spinners::opened(Backend::Cargo, self.cargo.take());
    }

    fn opened(backend: Backend, spinner: Option<Spinner>) -> (r: Option<Spinner>)
        ensures
            match spinner {
                None => r is None,
                Some(spinner) => r matches Some(shown) && shown.finished == spinner.finished
                    && backend.paints(backend.spec_label() + "..."@, shown.message@),
            },
    {
        match spinner {
            None => None,
            Some(spinner) => {
                let mut text = String::from_str(backend.label());
                text.append("...");
                Some(Spinner { message: backend.apply_to(text.as_str()), finished: spinner.finished })
            },
        }
    }

    /// One round of the display loop: the indicators to move on, in
    /// enumeration order, or `None` when the loop has come to its end. The
    /// indicators to move on are those that still run; the loop ends when
    /// there is none left, and not before.
    pub fn work(&self) -> (r: Option<Vec<Backend>>)
        ensures
            r is None <==> self.done(),
            r matches Some(ticks) ==> ticks@ == self.spec_running().list() && ticks@.len() > 0,
    {
        if self.is_done() {
            None
        } else {
            let ticks = self.running_backends().backends();
            Some(ticks)
        }
    }
}

} // verus!
