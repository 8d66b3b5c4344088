//! The containers that hold the results of one command, one slot for each
//! enabled backend, and the decisions of the commands themselves.

use crate::args::Managers;
use crate::constants::Backend;
use crate::managers::{aur, cargo, flatpak, pacman, snap};
use crate::style::Labels;
use crate::text::{decimal, decimal_string, join2, views};
use crate::utils::tabwriter::{align, aligned, block, block_of, is_line_of, is_shown, lines, options, push_options, Listed};
use crate::utils::tabwriter::{aur_to_string, cargo_to_string, flatpak_to_string, pacman_to_string, snap_to_string};
use vstd::prelude::*;

verus! {

/// The failure of one backend's job, tagged with the backend it came from.
#[derive(Clone, Debug)]
pub enum Error {
    Pacman(pacman::Error),
    AUR(aur::Error),
    Flatpak(flatpak::Error),
    Snap(snap::Error),
    Cargo(cargo::Error),
}

impl Error {
    /// The backend whose job failed.
    pub open spec fn spec_backend(self) -> Backend {
        match self {
            Error::Pacman(_) => Backend::Pacman,
            Error::AUR(_) => Backend::AUR,
            Error::Flatpak(_) => Backend::Flatpak,
            Error::Snap(_) => Backend::Snap,
            Error::Cargo(_) => Backend::Cargo,
        }
    }

    /// The message of the backend's own error.
    pub open spec fn detail(self) -> Seq<char> {
        match self {
            Error::Pacman(err) => err.message(),
            Error::AUR(err) => err.message(),
            Error::Flatpak(err) => err.message(),
            Error::Snap(err) => err.message(),
            Error::Cargo(err) => err@,
        }
    }

    /// The line that reports the failure: the name of the backend, a colon
    /// and the backend's own message.
    pub open spec fn message(self) -> Seq<char> {
        self.spec_backend().spec_label() + ": "@ + self.detail()
    }

    pub fn backend(&self) -> (r: Backend)
        ensures
            r == self.spec_backend(),
    {
        match self {
            Error::Pacman(_) => Backend::Pacman,
            Error::AUR(_) => Backend::AUR,
            Error::Flatpak(_) => Backend::Flatpak,
            Error::Snap(_) => Backend::Snap,
            Error::Cargo(_) => Backend::Cargo,
        }
    }

    pub fn to_string(&self) -> (r: String)
        ensures
            r@ == self.message(),
    {
        let detail = match self {
            Error::Pacman(err) => err.to_string(),
            Error::AUR(err) => err.to_string(),
            Error::Flatpak(err) => err.to_string(),
            Error::Snap(err) => err.to_string(),
            Error::Cargo(err) => err.clone(),
        };
        let mut r = join2(self.backend().label(), ": ");
        r.append(detail.as_str());
        r
    }
}

/// How the jobs of one fan-out ended: for each backend `None` where no job
/// ran, else what the job returned.
pub struct Jobs<P, A, F, S, C> {
    pub pacman: Option<Result<P, pacman::Error>>,
    pub aur: Option<Result<A, aur::Error>>,
    pub flatpak: Option<Result<F, flatpak::Error>>,
    pub snap: Option<Result<S, snap::Error>>,
    pub cargo: Option<Result<C, cargo::Error>>,
}

/// What a job contributes to its slot: its value where the backend is
/// enabled and the job succeeded, else nothing.
pub open spec fn yielded<T, E>(enabled: bool, job: Option<Result<T, E>>) -> Option<T> {
    match job {
        Some(Ok(value)) => if enabled {
            Some(value)
        } else {
            None
        },
        _ => None,
    }
}

/// The error of a job, where the backend is enabled and the job failed.
pub open spec fn failed<T, E>(enabled: bool, job: Option<Result<T, E>>) -> Option<E> {
    match job {
        Some(Err(err)) => if enabled {
            Some(err)
        } else {
            None
        },
        _ => None,
    }
}

/// The sequence of one failure, or of none.
pub open spec fn one_failure(failure: Option<Error>) -> Seq<Error> {
    match failure {
        Some(err) => seq![err],
        None => seq![],
    }
}

impl<P, A, F, S, C> Jobs<P, A, F, S, C> {
    /// The failure of the job of a backend, tagged, where that backend is
    /// enabled and its job failed.
    pub open spec fn failure(self, managers: Managers, backend: Backend) -> Option<Error> {
        match backend {
            Backend::Pacman => match failed(managers.pacman, self.pacman) {
                Some(err) => Some(Error::Pacman(err)),
                None => None,
            },
            Backend::AUR => match failed(managers.aur, self.aur) {
                Some(err) => Some(Error::AUR(err)),
                None => None,
            },
            Backend::Flatpak => match failed(managers.flatpak, self.flatpak) {
                Some(err) => Some(Error::Flatpak(err)),
                None => None,
            },
            Backend::Snap => match failed(managers.snap, self.snap) {
                Some(err) => Some(Error::Snap(err)),
                None => None,
            },
            Backend::Cargo => match failed(managers.cargo, self.cargo) {
                Some(err) => Some(Error::Cargo(err)),
                None => None,
            },
        }
    }

    /// The failures of a fan-out, in enumeration order.
    pub open spec fn failures(self, managers: Managers) -> Seq<Error> {
        one_failure(self.failure(managers, Backend::Pacman)) + one_failure(
            self.failure(managers, Backend::AUR),
        ) + one_failure(self.failure(managers, Backend::Flatpak)) + one_failure(
            self.failure(managers, Backend::Snap),
        ) + one_failure(self.failure(managers, Backend::Cargo))
    }

    /// Whether the job of an enabled backend succeeded.
    pub open spec fn succeeded(self, managers: Managers, backend: Backend) -> bool {
        match backend {
            Backend::Pacman => yielded(managers.pacman, self.pacman) is Some,
            Backend::AUR => yielded(managers.aur, self.aur) is Some,
            Backend::Flatpak => yielded(managers.flatpak, self.flatpak) is Some,
            Backend::Snap => yielded(managers.snap, self.snap) is Some,
            Backend::Cargo => yielded(managers.cargo, self.cargo) is Some,
        }
    }
}

/// Takes one job apart: what it yields for its slot, and its error. A job of
/// a backend that is not enabled counts for nothing.
fn settle<T, E>(enabled: bool, job: Option<Result<T, E>>) -> (r: (Option<T>, Option<E>))
    ensures
        r.0 == yielded(enabled, job),
        r.1 == failed(enabled, job),
{
    if !enabled {
        return (None, None);
    }
    match job {
        Some(Ok(value)) => (Some(value), None),
        Some(Err(err)) => (None, Some(err)),
        None => (None, None),
    }
}

/// Tags the errors of one fan-out and lists them in enumeration order.
fn tagged(
    pacman: Option<pacman::Error>,
    aur: Option<aur::Error>,
    flatpak: Option<flatpak::Error>,
    snap: Option<snap::Error>,
    cargo: Option<cargo::Error>,
) -> (r: Vec<Error>)
    ensures
        r@ == one_failure(
            match pacman {
                Some(err) => Some(Error::Pacman(err)),
                None => None,
            },
        ) + one_failure(
            match aur {
                Some(err) => Some(Error::AUR(err)),
                None => None,
            },
        ) + one_failure(
            match flatpak {
                Some(err) => Some(Error::Flatpak(err)),
                None => None,
            },
        ) + one_failure(
            match snap {
                Some(err) => Some(Error::Snap(err)),
                None => None,
            },
        ) + one_failure(
            match cargo {
                Some(err) => Some(Error::Cargo(err)),
                None => None,
            },
        ),
{
    let mut r: Vec<Error> = Vec::new();
    if let Some(err) = pacman {
        r.push(Error::Pacman(err));
    }
    let ghost r1 = r@;
    if let Some(err) = aur {
        r.push(Error::AUR(err));
    }
    let ghost r2 = r@;
    if let Some(err) = flatpak {
        r.push(Error::Flatpak(err));
    }
    let ghost r3 = r@;
    if let Some(err) = snap {
        r.push(Error::Snap(err));
    }
    let ghost r4 = r@;
    if let Some(err) = cargo {
        r.push(Error::Cargo(err));
    }
    proof {
        assert(r1 =~= one_failure(
            match pacman {
                Some(err) => Some(Error::Pacman(err)),
                None => None,
            },
        ));
        assert(r2 =~= r1 + one_failure(
            match aur {
                Some(err) => Some(Error::AUR(err)),
                None => None,
            },
        ));
        assert(r3 =~= r2 + one_failure(
            match flatpak {
                Some(err) => Some(Error::Flatpak(err)),
                None => None,
            },
        ));
        assert(r4 =~= r3 + one_failure(
            match snap {
                Some(err) => Some(Error::Snap(err)),
                None => None,
            },
        ));
        assert(r@ =~= r4 + one_failure(
            match cargo {
                Some(err) => Some(Error::Cargo(err)),
                None => None,
            },
        ));
    }
    r
}

/// The failures of the jobs that ran an operation without a result, such as
/// an update: one tagged error for each enabled backend whose job failed, in
/// enumeration order.
pub fn execute(managers: &Managers, jobs: Jobs<(), (), (), (), ()>) -> (r: Vec<Error>)
    ensures
        r@ == jobs.failures(*managers),
{
    let pacman = settle(managers.pacman, jobs.pacman);
    let aur = settle(managers.aur, jobs.aur);
    let flatpak = settle(managers.flatpak, jobs.flatpak);
    let snap = settle(managers.snap, jobs.snap);
    let cargo = settle(managers.cargo, jobs.cargo);
    tagged(pacman.1, aur.1, flatpak.1, snap.1, cargo.1)
}

/// The packages of a slot after a fan-out: what the job of the backend
/// returned, where the backend is enabled and the job succeeded; else none.
pub open spec fn listed<T, E>(enabled: bool, job: Option<Result<Vec<T>, E>>) -> Seq<T> {
    match yielded(enabled, job) {
        Some(list) => list@,
        None => Seq::empty(),
    }
}

fn list_or_empty<T>(list: Option<Vec<T>>) -> (r: Vec<T>)
    ensures
        r@ == (match list {
            Some(list) => list@,
            None => Seq::empty(),
        }),
{
    match list {
        Some(list) => list,
        None => Vec::new(),
    }
}

/// The packages that every backend found: one slot, a sequence of packages,
/// for each backend in `managers`. The slot of a backend that is not enabled
/// is absent, and its field stays empty.
pub struct Packages {
    pub managers: Managers,
    pub pacman: Vec<pacman::Package>,
    pub aur: Vec<aur::Package>,
    pub flatpak: Vec<flatpak::Package>,
    pub snap: Vec<snap::Package>,
    pub cargo: Vec<cargo::Package>,
}

/// One entry of the flat list that the user chooses from: the backend, and
/// the position of the package in the slot of that backend.
#[derive(Clone, Copy, Debug, PartialEq, Eq, Structural)]
pub struct Selection {
    pub backend: Backend,
    pub index: usize,
}

/// The entries of one slot of `len` packages: `(backend, 0)` up to
/// `(backend, len - 1)`.
pub open spec fn slot_entries(backend: Backend, len: nat) -> Seq<(Backend, int)> {
    Seq::new(len, |i: int| (backend, i))
}

impl Packages {
    /// Number of packages in the field of a backend.
    pub open spec fn len(self, backend: Backend) -> nat {
        match backend {
            Backend::Pacman => self.pacman@.len(),
            Backend::AUR => self.aur@.len(),
            Backend::Flatpak => self.flatpak@.len(),
            Backend::Snap => self.snap@.len(),
            Backend::Cargo => self.cargo@.len(),
        }
    }

    /// No slot of a backend that is not enabled is populated.
    pub open spec fn wf(self) -> bool {
        forall|backend: Backend|
            !self.managers.enabled(backend) ==> #[trigger] self.len(backend) == 0
    }

    /// The slots: for each enabled backend, and for no other, the size of
    /// its slot.
    pub open spec fn slots(self) -> Map<Backend, nat> {
        Map::new(|backend: Backend| self.managers.enabled(backend), |backend: Backend| self.len(backend))
    }

    /// The sum of the slot sizes, in enumeration order.
    pub open spec fn spec_total(self) -> nat {
        self.len(Backend::Pacman) + self.len(Backend::AUR) + self.len(Backend::Flatpak) + self.len(
            Backend::Snap,
        ) + self.len(Backend::Cargo)
    }

    /// The flat list shown to the user: the slots one after the other in
    /// enumeration order, each in its own order.
    pub open spec fn entries(self) -> Seq<(Backend, int)> {
        slot_entries(Backend::Pacman, self.len(Backend::Pacman)) + slot_entries(
            Backend::AUR,
            self.len(Backend::AUR),
        ) + slot_entries(Backend::Flatpak, self.len(Backend::Flatpak)) + slot_entries(
            Backend::Snap,
            self.len(Backend::Snap),
        ) + slot_entries(Backend::Cargo, self.len(Backend::Cargo))
    }

    /// The entry at position `k` of the flat list, if there is one.
    pub open spec fn spec_resolve(self, k: int) -> Option<Selection> {
        if 0 <= k < self.entries().len() {
            Some(Selection { backend: self.entries()[k].0, index: self.entries()[k].1 as usize })
        } else {
            None
        }
    }

    /// The container with a slot for each of `managers`, all of them empty.
    pub fn new(managers: Managers) -> (r: Packages)
        ensures
            r.managers == managers,
            r.wf(),
            forall|backend: Backend| r.len(backend) == 0,
    {
        Packages {
            managers,
            pacman: Vec::new(),
            aur: Vec::new(),
            flatpak: Vec::new(),
            snap: Vec::new(),
            cargo: Vec::new(),
        }
    }

    /// The container holds the fan-in of `jobs` over `managers`: it has the
    /// slots of `managers`, and each slot holds what the job of its backend
    /// returned, or nothing where that job failed or did not run.
    pub open spec fn gathered_from(
        self,
        managers: Managers,
        jobs: Jobs<
            Vec<pacman::Package>,
            Vec<aur::Package>,
            Vec<flatpak::Package>,
            Vec<snap::Package>,
            Vec<cargo::Package>,
        >,
    ) -> bool {
        &&& self.managers == managers
        &&& self.pacman@ == listed(managers.pacman, jobs.pacman)
        &&& self.aur@ == listed(managers.aur, jobs.aur)
        &&& self.flatpak@ == listed(managers.flatpak, jobs.flatpak)
        &&& self.snap@ == listed(managers.snap, jobs.snap)
        &&& self.cargo@ == listed(managers.cargo, jobs.cargo)
    }

    /// Fan-in of the jobs that list packages. The slot of each enabled
    /// backend whose job succeeded holds what the job returned; the slot of
    /// an enabled backend whose job failed stays empty, and the failure is
    /// reported among the errors; a backend that is not enabled gets no slot,
    /// whatever is handed in for it.
    pub fn gather(
        managers: &Managers,
        jobs: Jobs<
            Vec<pacman::Package>,
            Vec<aur::Package>,
            Vec<flatpak::Package>,
            Vec<snap::Package>,
            Vec<cargo::Package>,
        >,
    ) -> (r: (Packages, Vec<Error>))
        ensures
            r.0.gathered_from(*managers, jobs),
            r.0.wf(),
            r.1@ == jobs.failures(*managers),
    {
        let pacman = settle(managers.pacman, jobs.pacman);
        let aur = settle(managers.aur, jobs.aur);
        let flatpak = settle(managers.flatpak, jobs.flatpak);
        let snap = settle(managers.snap, jobs.snap);
        let cargo = settle(managers.cargo, jobs.cargo);
        let packages = Packages {
            managers: *managers,
            pacman: list_or_empty(pacman.0),
            aur: list_or_empty(aur.0),
            flatpak: list_or_empty(flatpak.0),
            snap: list_or_empty(snap.0),
            cargo: list_or_empty(cargo.0),
        };
        let errors = tagged(pacman.1, aur.1, flatpak.1, snap.1, cargo.1);
        (packages, errors)
    }

    /// Whether every slot is empty.
    pub fn is_empty(&self) -> (r: bool)
        ensures
            r == (self.spec_total() == 0),
    {
        self.pacman.len() == 0 && self.aur.len() == 0 && self.flatpak.len() == 0
            && self.snap.len() == 0 && self.cargo.len() == 0
    }

    /// Number of packages over all backends.
    pub fn total(&self) -> (r: usize)
        requires
            self.spec_total() <= usize::MAX,
        ensures
            r == self.spec_total(),
    {
        let mut total: usize = 0;
        total += self.pacman.len();
        total += self.aur.len();
        total += self.flatpak.len();
        total += self.snap.len();
        total += self.cargo.len();
        total
    }

    /// Number of packages over all backends, or `None` where that number is
    /// more than `usize` holds.
    pub fn checked_total(&self) -> (r: Option<usize>)
        ensures
            self.spec_total() <= usize::MAX ==> r == Some(self.spec_total() as usize),
            self.spec_total() > usize::MAX ==> r is None,
    {
        let total = self.pacman.len().checked_add(self.aur.len())?;
        let total = total.checked_add(self.flatpak.len())?;
        let total = total.checked_add(self.snap.len())?;
        total.checked_add(self.cargo.len())
    }

    /// What the live display shows for a slot that was filled: the number of
    /// packages in it.
    pub fn to_msg<T>(n: &Vec<T>) -> (r: String)
        ensures
            r@ == decimal(n@.len()),
    {
        decimal_string(n.len())
    }

    /// The entry at position `k` of the flat list: walking the backends in
    /// enumeration order with a running offset, the first slot that reaches
    /// past `k` holds it. `None` where the list has no such position.
    pub fn resolve(&self, k: usize) -> (r: Option<Selection>)
        ensures
            r == self.spec_resolve(k as int),
            r matches Some(s) ==> s.index < self.len(s.backend),
    {
        let mut i: usize = 0;
        let len = self.pacman.len();
        if k - i < len {
            return Some(Selection { backend: Backend::Pacman, index: k - i });
        }
        i += len;
        let len = self.aur.len();
        if k - i < len {
            return Some(Selection { backend: Backend::AUR, index: k - i });
        }
        i += len;
        let len = self.flatpak.len();
        if k - i < len {
            return Some(Selection { backend: Backend::Flatpak, index: k - i });
        }
        i += len;
        let len = self.snap.len();
        if k - i < len {
            return Some(Selection { backend: Backend::Snap, index: k - i });
        }
        i += len;
        let len = self.cargo.len();
        if k - i < len {
            return Some(Selection { backend: Backend::Cargo, index: k - i });
        }
        None
    }
}

/// The package that every backend found under one name: one slot, holding
/// at most one package, for each backend in `managers`.
pub struct Package {
    pub managers: Managers,
    pub pacman: Option<pacman::Package>,
    pub aur: Option<aur::Package>,
    pub flatpak: Option<flatpak::Package>,
    pub snap: Option<snap::Package>,
    pub cargo: Option<cargo::Package>,
}

/// What a slot for one package holds after a fan-out: what the job of the
/// backend found, where the backend is enabled and the job succeeded.
pub open spec fn found<T, E>(enabled: bool, job: Option<Result<Option<T>, E>>) -> Option<T> {
    match yielded(enabled, job) {
        Some(found) => found,
        None => None,
    }
}

fn flatten<T>(found: Option<Option<T>>) -> (r: Option<T>)
    ensures
        r == (match found {
            Some(found) => found,
            None => None,
        }),
{
    match found {
        Some(found) => found,
        None => None,
    }
}

impl Package {
    /// Whether the field of a backend holds a package.
    pub open spec fn has(self, backend: Backend) -> bool {
        match backend {
            Backend::Pacman => self.pacman is Some,
            Backend::AUR => self.aur is Some,
            Backend::Flatpak => self.flatpak is Some,
            Backend::Snap => self.snap is Some,
            Backend::Cargo => self.cargo is Some,
        }
    }

    /// Size of the slot of a backend: one where it holds a package.
    pub open spec fn len(self, backend: Backend) -> nat {
        if self.has(backend) {
            1
        } else {
            0
        }
    }

    /// No slot of a backend that is not enabled is populated.
    pub open spec fn wf(self) -> bool {
        forall|backend: Backend| !self.managers.enabled(backend) ==> !#[trigger] self.has(backend)
    }

    /// The slots: for each enabled backend, and for no other, the size of
    /// its slot.
    pub open spec fn slots(self) -> Map<Backend, nat> {
        Map::new(|backend: Backend| self.managers.enabled(backend), |backend: Backend| self.len(backend))
    }

    /// The sum of the slot sizes, in enumeration order.
    pub open spec fn spec_total(self) -> nat {
        self.len(Backend::Pacman) + self.len(Backend::AUR) + self.len(Backend::Flatpak) + self.len(
            Backend::Snap,
        ) + self.len(Backend::Cargo)
    }

    /// The first backend, in enumeration order, whose slot holds a package.
    pub open spec fn spec_first(self) -> Option<Backend> {
        if self.pacman is Some {
            Some(Backend::Pacman)
        } else if self.aur is Some {
            Some(Backend::AUR)
        } else if self.flatpak is Some {
            Some(Backend::Flatpak)
        } else if self.snap is Some {
            Some(Backend::Snap)
        } else if self.cargo is Some {
            Some(Backend::Cargo)
        } else {
            None
        }
    }

    /// The container holds the fan-in of `jobs` over `managers`.
    pub open spec fn gathered_from(
        self,
        managers: Managers,
        jobs: Jobs<
            Option<pacman::Package>,
            Option<aur::Package>,
            Option<flatpak::Package>,
            Option<snap::Package>,
            Option<cargo::Package>,
        >,
    ) -> bool {
        &&& self.managers == managers
        &&& self.pacman == found(managers.pacman, jobs.pacman)
        &&& self.aur == found(managers.aur, jobs.aur)
        &&& self.flatpak == found(managers.flatpak, jobs.flatpak)
        &&& self.snap == found(managers.snap, jobs.snap)
        &&& self.cargo == found(managers.cargo, jobs.cargo)
    }

    /// Fan-in of the jobs that look one package up, slot by slot as for the
    /// lists of packages.
    pub fn gather(
        managers: &Managers,
        jobs: Jobs<
            Option<pacman::Package>,
            Option<aur::Package>,
            Option<flatpak::Package>,
            Option<snap::Package>,
            Option<cargo::Package>,
        >,
    ) -> (r: (Package, Vec<Error>))
        ensures
            r.0.gathered_from(*managers, jobs),
            r.0.wf(),
            r.1@ == jobs.failures(*managers),
    {
        let pacman = settle(managers.pacman, jobs.pacman);
        let aur = settle(managers.aur, jobs.aur);
        let flatpak = settle(managers.flatpak, jobs.flatpak);
        let snap = settle(managers.snap, jobs.snap);
        let cargo = settle(managers.cargo, jobs.cargo);
        let package = Package {
            managers: *managers,
            pacman: flatten(pacman.0),
            aur: flatten(aur.0),
            flatpak: flatten(flatpak.0),
            snap: flatten(snap.0),
            cargo: flatten(cargo.0),
        };
        let errors = tagged(pacman.1, aur.1, flatpak.1, snap.1, cargo.1);
        (package, errors)
    }

    /// Number of packages over all backends.
    pub fn total(&self) -> (r: usize)
        ensures
            r == self.spec_total(),
    {
        let mut total: usize = 0;
        if self.pacman.is_some() {
            total += 1;
        }
        if self.aur.is_some() {
            total += 1;
        }
        if self.flatpak.is_some() {
            total += 1;
        }
        if self.snap.is_some() {
            total += 1;
        }
        if self.cargo.is_some() {
            total += 1;
        }
        total
    }

    /// The first backend, in enumeration order, whose slot holds a package.
    pub fn first(&self) -> (r: Option<Backend>)
        ensures
            r == self.spec_first(),
    {
        if self.pacman.is_some() {
            Some(Backend::Pacman)
        } else if self.aur.is_some() {
            Some(Backend::AUR)
        } else if self.flatpak.is_some() {
            Some(Backend::Flatpak)
        } else if self.snap.is_some() {
            Some(Backend::Snap)
        } else if self.cargo.is_some() {
            Some(Backend::Cargo)
        } else {
            None
        }
    }

    /// What the live display shows for a slot that was filled: nothing.
    pub fn to_msg<T>(_n: &Option<T>) -> (r: String)
        ensures
            r@ == Seq::<char>::empty(),
    {
        String::new()
    }
}

/// The number of pending updates of every backend: one slot, a count, for
/// each backend in `managers`.
#[derive(Clone, Copy, Debug, PartialEq, Eq, Structural)]
pub struct Counts {
    pub managers: Managers,
    pub pacman: usize,
    pub aur: usize,
    pub flatpak: usize,
    pub snap: usize,
    pub cargo: usize,
}

/// What a slot for a count holds after a fan-out: what the job of the
/// backend counted, where the backend is enabled and the job succeeded;
/// else zero.
pub open spec fn counted<E>(enabled: bool, job: Option<Result<usize, E>>) -> usize {
    match yielded(enabled, job) {
        Some(count) => count,
        None => 0,
    }
}

fn count_or_zero(count: Option<usize>) -> (r: usize)
    ensures
        r == (match count {
            Some(count) => count,
            None => 0,
        }),
{
    match count {
        Some(count) => count,
        None => 0,
    }
}

impl Counts {
    /// The count in the field of a backend.
    pub open spec fn len(self, backend: Backend) -> nat {
        match backend {
            Backend::Pacman => self.pacman as nat,
            Backend::AUR => self.aur as nat,
            Backend::Flatpak => self.flatpak as nat,
            Backend::Snap => self.snap as nat,
            Backend::Cargo => self.cargo as nat,
        }
    }

    /// No slot of a backend that is not enabled is populated.
    pub open spec fn wf(self) -> bool {
        forall|backend: Backend|
            !self.managers.enabled(backend) ==> #[trigger] self.len(backend) == 0
    }

    /// The slots: for each enabled backend, and for no other, its count.
    pub open spec fn slots(self) -> Map<Backend, nat> {
        Map::new(|backend: Backend| self.managers.enabled(backend), |backend: Backend| self.len(backend))
    }

    /// The sum of the counts, in enumeration order.
    pub open spec fn spec_total(self) -> nat {
        self.len(Backend::Pacman) + self.len(Backend::AUR) + self.len(Backend::Flatpak) + self.len(
            Backend::Snap,
        ) + self.len(Backend::Cargo)
    }

    /// The fan-in of `jobs` over `managers`.
    pub open spec fn gathered(
        managers: Managers,
        jobs: Jobs<usize, usize, usize, usize, usize>,
    ) -> Counts {
        Counts {
            managers,
            pacman: counted(managers.pacman, jobs.pacman),
            aur: counted(managers.aur, jobs.aur),
            flatpak: counted(managers.flatpak, jobs.flatpak),
            snap: counted(managers.snap, jobs.snap),
            cargo: counted(managers.cargo, jobs.cargo),
        }
    }

    /// Fan-in of the jobs that count, slot by slot as for the lists of
    /// packages.
    pub fn gather(managers: &Managers, jobs: Jobs<usize, usize, usize, usize, usize>) -> (r: (
        Counts,
        Vec<Error>,
    ))
        ensures
            r.0 == Counts::gathered(*managers, jobs),
            r.0.wf(),
            r.1@ == jobs.failures(*managers),
    {
        let pacman = settle(managers.pacman, jobs.pacman);
        let aur = settle(managers.aur, jobs.aur);
        let flatpak = settle(managers.flatpak, jobs.flatpak);
        let snap = settle(managers.snap, jobs.snap);
        let cargo = settle(managers.cargo, jobs.cargo);
        let counts = Counts {
            managers: *managers,
            pacman: count_or_zero(pacman.0),
            aur: count_or_zero(aur.0),
            flatpak: count_or_zero(flatpak.0),
            snap: count_or_zero(snap.0),
            cargo: count_or_zero(cargo.0),
        };
        let errors = tagged(pacman.1, aur.1, flatpak.1, snap.1, cargo.1);
        (counts, errors)
    }

    /// The sum of the counts over all backends.
    pub fn total(&self) -> (r: usize)
        requires
            self.spec_total() <= usize::MAX,
        ensures
            r == self.spec_total(),
    {
        let mut total: usize = 0;
        total += self.pacman;
        total += self.aur;
        total += self.flatpak;
        total += self.snap;
        total += self.cargo;
        total
    }

    /// The sum of the counts over all backends, or `None` where it is more
    /// than `usize` holds.
    pub fn checked_total(&self) -> (r: Option<usize>)
        ensures
            self.spec_total() <= usize::MAX ==> r == Some(self.spec_total() as usize),
            self.spec_total() > usize::MAX ==> r is None,
    {
        let total = self.pacman.checked_add(self.aur)?;
        let total = total.checked_add(self.flatpak)?;
        let total = total.checked_add(self.snap)?;
        total.checked_add(self.cargo)
    }

    /// What the live display shows for a slot that was filled: the count.
    pub fn to_msg(n: &usize) -> (r: String)
        ensures
            r@ == decimal(*n as nat),
    {
        decimal_string(*n)
    }
}

/// The table of the packages of all backends under `labels`: the blocks of
/// the backends in enumeration order.
pub open spec fn table(labels: Labels, packages: Packages) -> Seq<char> {
    block(lines(labels.pacman@, packages.pacman@)) + block(lines(labels.aur@, packages.aur@))
        + block(lines(labels.flatpak@, packages.flatpak@)) + block(
        lines(labels.snap@, packages.snap@),
    ) + block(lines(labels.cargo@, packages.cargo@))
}

/// The options of a choice among the packages of all backends under
/// `labels`: one for each entry of the flat list, in its order.
pub open spec fn choices(labels: Labels, packages: Packages) -> Seq<Seq<char>> {
    options(labels.pacman@, packages.pacman@) + options(labels.aur@, packages.aur@) + options(
        labels.flatpak@,
        packages.flatpak@,
    ) + options(labels.snap@, packages.snap@) + options(labels.cargo@, packages.cargo@)
}

/// `r` is what listing `packages` writes: an empty line, a second one, and
/// the aligned table under headings in the colours of the backends.
pub open spec fn is_listing(packages: Packages, r: Seq<char>) -> bool {
    exists|labels: Labels|
        labels.painted(":"@) && r == "\n\n"@ + aligned(#[trigger] table(labels, packages))
}

/// `r` holds the options to choose among `packages`, under the names of the
/// backends in their colours.
pub open spec fn is_choice(packages: Packages, r: Seq<Seq<char>>) -> bool {
    exists|labels: Labels|
        labels.painted(Seq::empty()) && r == #[trigger] choices(labels, packages)
}

/// The table of the packages of all backends under the given labels.
pub fn table_with(labels: &Labels, packages: &Packages) -> (r: String)
    ensures
        r@ == table(*labels, *packages),
{
    let mut r = block_of(labels.pacman.as_str(), &packages.pacman);
    r.append(block_of(labels.aur.as_str(), &packages.aur).as_str());
    r.append(block_of(labels.flatpak.as_str(), &packages.flatpak).as_str());
    r.append(block_of(labels.snap.as_str(), &packages.snap).as_str());
    r.append(block_of(labels.cargo.as_str(), &packages.cargo).as_str());
    r
}

/// The options of a choice among the packages of all backends under the
/// given labels.
pub fn choices_with(labels: &Labels, packages: &Packages) -> (r: Vec<String>)
    ensures
        views(r@) == choices(*labels, *packages),
{
    let mut r: Vec<String> = Vec::new();
    assert(views(r@) =~= Seq::<Seq<char>>::empty());
    push_options(&mut r, labels.pacman.as_str(), &packages.pacman);
    push_options(&mut r, labels.aur.as_str(), &packages.aur);
    push_options(&mut r, labels.flatpak.as_str(), &packages.flatpak);
    push_options(&mut r, labels.snap.as_str(), &packages.snap);
    push_options(&mut r, labels.cargo.as_str(), &packages.cargo);
    assert(views(r@) =~= choices(*labels, *packages));
    r
}

/// A container without packages has an empty table and no options, whatever
/// the labels: a backend with an empty slot contributes nothing.
pub proof fn lemma_empty_table(labels: Labels, packages: Packages)
    requires
        packages.spec_total() == 0,
    ensures
        table(labels, packages) == Seq::<char>::empty(),
        choices(labels, packages) == Seq::<Seq<char>>::empty(),
{
    assert(table(labels, packages) =~= Seq::<char>::empty());
    assert(choices(labels, packages) =~= Seq::<Seq<char>>::empty());
}

/// A choice has one option for each entry of the flat list.
pub proof fn lemma_one_option_per_entry(labels: Labels, packages: Packages)
    ensures
        choices(labels, packages).len() == packages.entries().len(),
        packages.entries().len() == packages.spec_total(),
{
}

impl Packages {
    /// The words of the option of the package at `index` of the slot of a
    /// backend.
    pub open spec fn words_at(self, backend: Backend, index: int) -> Seq<Seq<char>> {
        match backend {
            Backend::Pacman => self.pacman@[index].words(),
            Backend::AUR => self.aur@[index].words(),
            Backend::Flatpak => self.flatpak@[index].words(),
            Backend::Snap => self.snap@[index].words(),
            Backend::Cargo => self.cargo@[index].words(),
        }
    }
}

/// The options of a choice stand in the order of the flat list: the option
/// at a position is the option of the package that the position resolves
/// to, under the label of its backend.
pub proof fn lemma_option_is_of_its_entry(labels: Labels, packages: Packages, k: int)
    requires
        0 <= k < packages.entries().len(),
    ensures
        choices(labels, packages).len() == packages.entries().len(),
        choices(labels, packages)[k] == crate::utils::tabwriter::choice(
            labels.of(packages.entries()[k].0),
            packages.words_at(packages.entries()[k].0, packages.entries()[k].1),
        ),
{
}

/// What a command does next: the text it writes to standard output now, and
/// the step that follows.
pub struct Step<N> {
    pub print: String,
    pub next: N,
}

/// What listing the packages writes.
pub fn list(packages: &Packages) -> (r: String)
    ensures
        is_listing(*packages, r@),
        packages.spec_total() == 0 ==> r@ == "\n\n"@,
{
    let labels = Labels::styled(":");
    let text = table_with(&labels, packages);
    let mut r = String::from_str("\n\n");
    proof {
        if packages.spec_total() == 0 {
            lemma_empty_table(labels, *packages);
        }
    }
    r.append(align(text.as_str()).as_str());
    assert(r@ == "\n\n"@ + aligned(table(labels, *packages)));
    r
}

/// What a search writes once the backends have answered: the packages
/// found, as a listing.
pub fn search(packages: &Packages) -> (r: String)
    ensures
        is_listing(*packages, r@),
        packages.spec_total() == 0 ==> r@ == "\n\n"@,
{
    list(packages)
}

/// What listing the pending updates writes: that there is none, or the
/// listing of them.
pub fn list_updates(packages: &Packages) -> (r: String)
    ensures
        packages.spec_total() == 0 ==> r@ == "Aucune mise \u{e0} jour disponible.\n"@,
        packages.spec_total() > 0 ==> is_listing(*packages, r@),
{
    if packages.is_empty() {
        return String::from_str("Aucune mise \u{e0} jour disponible.\n");
    }
    list(packages)
}

/// What counting the pending updates writes: the bare total for scripts,
/// else a sentence that holds it.
pub fn count_updates(counts: &Counts, no_interactive: bool) -> (r: String)
    requires
        counts.spec_total() <= usize::MAX,
    ensures
        no_interactive ==> r@ == decimal(counts.spec_total()) + "\n"@,
        !no_interactive ==> r@ == "Vous avez "@ + decimal(counts.spec_total())
            + " mises \u{e0} jour.\n"@,
{
    let total = decimal_string(counts.total());
    if no_interactive {
        join2(total.as_str(), "\n")
    } else {
        let mut r = join2("Vous avez ", total.as_str());
        r.append(" mises \u{e0} jour.\n");
        r
    }
}

/// The steps of an installation after the search.
pub enum Install {
    /// Nothing more to do.
    Stop,
    /// Ask the user which of the options to install; the answer is the
    /// position of an option.
    Choose { prompt: String, options: Vec<String> },
    /// Run the hook of the backend for the package, then install it.
    Run(Selection),
}

/// One step of an installation. `choice` is `None` as long as the user has
/// not been asked, then the position that the user chose.
///
/// Before the choice: without any package the user is told so and the
/// command ends; else the user is offered one option for each package, slot
/// after slot in enumeration order. After the choice: the entry at the chosen
/// position of the flat list is installed; a position beyond the list ends
/// the command with a message.
pub fn install(packages: &Packages, choice: Option<usize>) -> (r: Step<Install>)
    ensures
        match choice {
            None => if packages.spec_total() == 0 {
                r.print@ == "\n\nAucun paquet trouv\u{e9}.\n"@ && r.next is Stop
            } else {
                &&& r.print@ == "\n\n"@
                &&& r.next is Choose
                &&& r.next->prompt@ == "Which package do you want to install?"@
                &&& is_choice(*packages, views(r.next->options@))
            },
            Some(k) => match packages.spec_resolve(k as int) {
                Some(selection) => r.print@.len() == 0 && r.next == Install::Run(selection),
                None => r.print@ == "No packages found.\n"@ && r.next is Stop,
            },
        },
{
    match choice {
        None => {
            if packages.is_empty() {
                Step {
                    print: String::from_str("\n\nAucun paquet trouv\u{e9}.\n"),
                    next: Install::Stop,
                }
            } else {
                let labels = Labels::styled("");
                let options = choices_with(&labels, packages);
                assert("" @ =~= Seq::<char>::empty()) by {
                    reveal_strlit("");
                }
                Step {
                    print: String::from_str("\n\n"),
                    next: Install::Choose {
                        prompt: String::from_str("Which package do you want to install?"),
                        options,
                    },
                }
            }
        },
        Some(k) => match packages.resolve(k) {
            Some(selection) => Step { print: String::new(), next: Install::Run(selection) },
            None => Step { print: String::from_str("No packages found.\n"), next: Install::Stop },
        },
    }
}

/// What is written to standard error when the installation of a package
/// failed.
pub fn install_failed(name: &str, err: &str) -> (r: String)
    ensures
        r@ == "Failed to install "@ + name@ + ": "@ + err@ + "\n"@,
{
    let mut r = join2("Failed to install ", name);
    r.append(": ");
    r.append(err);
    r.append("\n");
    r
}

/// The steps of the removal of a package after the lookup.
pub enum Uninstall {
    /// Nothing more to do.
    Stop,
    /// Ask the user whether the package that `backend` found is to be
    /// removed; the default answer is yes.
    Confirm { backend: Backend, prompt: String },
    /// Run the hook of the backend for its package, then remove it.
    Run(Backend),
}

impl Package {
    /// `r` is what is written to show the package in the slot of `backend`.
    pub open spec fn shows(self, backend: Backend, r: Seq<char>) -> bool {
        match backend {
            Backend::Pacman => self.pacman matches Some(package) && is_shown(backend, &package, r),
            Backend::AUR => self.aur matches Some(package) && is_shown(backend, &package, r),
            Backend::Flatpak => self.flatpak matches Some(package) && is_shown(
                backend,
                &package,
                r,
            ),
            Backend::Snap => self.snap matches Some(package) && is_shown(backend, &package, r),
            Backend::Cargo => self.cargo matches Some(package) && is_shown(backend, &package, r),
        }
    }

    /// The line of the package in the slot of `backend`, or nothing where
    /// that slot is empty.
    fn line(&self, backend: Backend) -> (r: String)
        ensures
            self.has(backend) ==> is_line_of_slot(*self, backend, r@),
    {
        match backend {
            Backend::Pacman => match &self.pacman {
                Some(package) => pacman_to_string(package),
                None => String::new(),
            },
            Backend::AUR => match &self.aur {
                Some(package) => aur_to_string(package),
                None => String::new(),
            },
            Backend::Flatpak => match &self.flatpak {
                Some(package) => flatpak_to_string(package),
                None => String::new(),
            },
            Backend::Snap => match &self.snap {
                Some(package) => snap_to_string(package),
                None => String::new(),
            },
            Backend::Cargo => match &self.cargo {
                Some(package) => cargo_to_string(package),
                None => String::new(),
            },
        }
    }
}

/// `r` is the line of the package in the slot of `backend`.
pub open spec fn is_line_of_slot(found: Package, backend: Backend, r: Seq<char>) -> bool {
    match backend {
        Backend::Pacman => found.pacman matches Some(package) && is_line_of(backend, &package, r),
        Backend::AUR => found.aur matches Some(package) && is_line_of(backend, &package, r),
        Backend::Flatpak => found.flatpak matches Some(package) && is_line_of(
            backend,
            &package,
            r,
        ),
        Backend::Snap => found.snap matches Some(package) && is_line_of(backend, &package, r),
        Backend::Cargo => found.cargo matches Some(package) && is_line_of(backend, &package, r),
    }
}

/// One step of the removal of a package. `confirmed` is `None` as long as
/// the user has not been asked, then the answer.
///
/// The package to remove is that of the first backend, in enumeration order,
/// that found one; where none did, the user is told so and the command ends.
/// Before the answer the package is shown and the user is asked; after it
/// the package is removed, or the command ends where the user declined.
pub fn uninstall(found: &Package, confirmed: Option<bool>) -> (r: Step<Uninstall>)
    ensures
        match found.spec_first() {
            None => r.print@ == "No packages found.\n"@ && r.next is Stop,
            Some(backend) => match confirmed {
                None => {
                    &&& found.shows(backend, r.print@)
                    &&& r.next is Confirm
                    &&& r.next->backend == backend
                    &&& r.next->prompt@ == "Do you want to uninstall this package?"@
                },
                Some(false) => r.print@.len() == 0 && r.next is Stop,
                Some(true) => r.print@.len() == 0 && r.next == Uninstall::Run(backend),
            },
        },
{
    match found.first() {
        None => Step { print: String::from_str("No packages found.\n"), next: Uninstall::Stop },
        Some(backend) => match confirmed {
            None => {
                let mut print = found.line(backend);
                print.append("\n");
                Step {
                    print,
                    next: Uninstall::Confirm {
                        backend,
                        prompt: String::from_str("Do you want to uninstall this package?"),
                    },
                }
            },
            Some(false) => Step { print: String::new(), next: Uninstall::Stop },
            Some(true) => Step { print: String::new(), next: Uninstall::Run(backend) },
        },
    }
}

/// What is written to standard error when the removal of a package failed.
pub fn uninstall_failed(name: &str, err: &str) -> (r: String)
    ensures
        r@ == "Failed to uninstall "@ + name@ + ": "@ + err@ + "\n"@,
{
    let mut r = join2("Failed to uninstall ", name);
    r.append(": ");
    r.append(err);
    r.append("\n");
    r
}

/// The steps of an update after the pending updates were listed.
pub enum Update {
    /// Nothing more to do.
    Stop,
    /// Run the hook of each of `hooks`, in this order, on the pending
    /// updates of that backend, then ask the user whether to install them;
    /// the default answer is yes.
    Confirm { hooks: Vec<Backend>, prompt: String },
    /// Update the backends enabled here, and no other.
    Run(Managers),
}

impl Packages {
    /// The backends whose slot holds at least one package.
    pub open spec fn spec_pending(self) -> Managers {
        Managers {
            pacman: self.pacman@.len() > 0,
            aur: self.aur@.len() > 0,
            flatpak: self.flatpak@.len() > 0,
            snap: self.snap@.len() > 0,
            cargo: self.cargo@.len() > 0,
        }
    }

    /// The backends whose slot holds at least one package.
    pub fn pending(&self) -> (r: Managers)
        ensures
            r == self.spec_pending(),
    {
        Managers {
            pacman: self.pacman.len() > 0,
            aur: self.aur.len() > 0,
            flatpak: self.flatpak.len() > 0,
            snap: self.snap.len() > 0,
            cargo: self.cargo.len() > 0,
        }
    }
}

/// One step of an update. `packages` holds the pending updates as the
/// backends listed them; `confirmed` is `None` as long as the user has not
/// been asked, then the answer.
///
/// Without pending updates the user is told so and the command ends. Before
/// the answer the updates are listed, and the hooks of the backends that
/// have some are due; after a yes exactly those backends are updated. The
/// backends are taken from the listing as it was handed in: nothing is asked
/// of them again.
pub fn update(packages: &Packages, confirmed: Option<bool>) -> (r: Step<Update>)
    ensures
        if packages.spec_total() == 0 {
            r.print@ == "Aucune mise \u{e0} jour disponible.\n"@ && r.next is Stop
        } else {
            match confirmed {
                None => {
                    &&& is_listing(*packages, r.print@)
                    &&& r.next is Confirm
                    &&& r.next->hooks@ == packages.spec_pending().list()
                    &&& r.next->prompt@ == "Do you want to install these packages?"@
                },
                Some(false) => r.print@.len() == 0 && r.next is Stop,
                Some(true) => r.print@.len() == 0 && r.next == Update::Run(packages.spec_pending()),
            }
        },
{
    if packages.is_empty() {
        return Step {
            print: String::from_str("Aucune mise \u{e0} jour disponible.\n"),
            next: Update::Stop,
        };
    }
    match confirmed {
        None => Step {
            print: list(packages),
            next: Update::Confirm {
                hooks: packages.pending().backends(),
                prompt: String::from_str("Do you want to install these packages?"),
            },
        },
        Some(false) => Step { print: String::new(), next: Update::Stop },
        Some(true) => Step { print: String::new(), next: Update::Run(packages.pending()) },
    }
}

impl Packages {
    /// Number of entries of the flat list that stand before the slot of a
    /// backend: the sizes of the slots before it in enumeration order.
    pub open spec fn offset(self, backend: Backend) -> nat {
        match backend {
            Backend::Pacman => 0,
            Backend::AUR => self.len(Backend::Pacman),
            Backend::Flatpak => self.len(Backend::Pacman) + self.len(Backend::AUR),
            Backend::Snap => self.len(Backend::Pacman) + self.len(Backend::AUR) + self.len(
                Backend::Flatpak,
            ),
            Backend::Cargo => self.len(Backend::Pacman) + self.len(Backend::AUR) + self.len(
                Backend::Flatpak,
            ) + self.len(Backend::Snap),
        }
    }

    /// The slot of a backend holds exactly what the job of that backend
    /// returned.
    pub open spec fn holds(
        self,
        jobs: Jobs<
            Vec<pacman::Package>,
            Vec<aur::Package>,
            Vec<flatpak::Package>,
            Vec<snap::Package>,
            Vec<cargo::Package>,
        >,
        backend: Backend,
    ) -> bool {
        match backend {
            Backend::Pacman => jobs.pacman matches Some(Ok(list)) && self.pacman@ == list@,
            Backend::AUR => jobs.aur matches Some(Ok(list)) && self.aur@ == list@,
            Backend::Flatpak => jobs.flatpak matches Some(Ok(list)) && self.flatpak@ == list@,
            Backend::Snap => jobs.snap matches Some(Ok(list)) && self.snap@ == list@,
            Backend::Cargo => jobs.cargo matches Some(Ok(list)) && self.cargo@ == list@,
        }
    }
}

/// The sum of the sizes of the slots of the backends in `order`, taken in
/// that order.
pub open spec fn sum_of_slots(packages: Packages, order: Seq<Backend>) -> nat
    decreases order.len(),
{
    if order.len() == 0 {
        0
    } else {
        sum_of_slots(packages, order.drop_last()) + packages.len(order.last())
    }
}

/// A container that a fan-in produced has exactly one slot for each enabled
/// backend and none for any other backend, whichever backends are enabled
/// and however their jobs ended; the field of a backend without a slot is
/// empty.
pub proof fn lemma_one_slot_per_enabled_backend(
    managers: Managers,
    jobs: Jobs<
        Vec<pacman::Package>,
        Vec<aur::Package>,
        Vec<flatpak::Package>,
        Vec<snap::Package>,
        Vec<cargo::Package>,
    >,
    packages: Packages,
)
    requires
        packages.gathered_from(managers, jobs),
    ensures
        packages.slots().dom() == managers.set(),
        forall|backend: Backend|
            managers.enabled(backend) <==> #[trigger] packages.slots().contains_key(backend),
        forall|backend: Backend| !managers.enabled(backend) ==> #[trigger] packages.len(backend) == 0,
        packages.wf(),
{
    assert(packages.slots().dom() =~= managers.set());
}

/// A container of single packages that a fan-in produced has exactly one
/// slot for each enabled backend and none for any other backend.
pub proof fn lemma_one_found_slot_per_enabled_backend(
    managers: Managers,
    jobs: Jobs<
        Option<pacman::Package>,
        Option<aur::Package>,
        Option<flatpak::Package>,
        Option<snap::Package>,
        Option<cargo::Package>,
    >,
    found: Package,
)
    requires
        found.gathered_from(managers, jobs),
    ensures
        found.slots().dom() == managers.set(),
        forall|backend: Backend| !managers.enabled(backend) ==> !#[trigger] found.has(backend),
        found.wf(),
        found.spec_total() <= 5,
{
    assert(found.slots().dom() =~= managers.set());
}

/// The counts that a fan-in produced have exactly one slot for each enabled
/// backend and none for any other backend.
pub proof fn lemma_one_count_per_enabled_backend(
    managers: Managers,
    jobs: Jobs<usize, usize, usize, usize, usize>,
)
    ensures
        Counts::gathered(managers, jobs).slots().dom() == managers.set(),
        forall|backend: Backend|
            !managers.enabled(backend) ==> #[trigger] Counts::gathered(managers, jobs).len(backend)
                == 0,
        Counts::gathered(managers, jobs).wf(),
{
    assert(Counts::gathered(managers, jobs).slots().dom() =~= managers.set());
}

/// The total of a container is the sum of the sizes of its slots in
/// enumeration order: it depends on what the slots hold and on nothing
/// else, so not on the order in which the jobs that filled them ended.
pub proof fn lemma_total_is_sum_in_order(packages: Packages)
    ensures
        packages.spec_total() == sum_of_slots(packages, Backend::order()),
        packages.spec_total() == packages.entries().len(),
        packages.wf() ==> packages.spec_total() == sum_of_slots(packages, packages.managers.list()),
{
    let o5 = Backend::order();
    let o4 = o5.drop_last();
    let o3 = o4.drop_last();
    let o2 = o3.drop_last();
    let o1 = o2.drop_last();
    let o0 = o1.drop_last();
    assert(sum_of_slots(packages, o0) == 0);
    assert(sum_of_slots(packages, o1) == packages.len(Backend::Pacman));
    assert(sum_of_slots(packages, o2) == sum_of_slots(packages, o1) + packages.len(Backend::AUR));
    assert(sum_of_slots(packages, o3) == sum_of_slots(packages, o2) + packages.len(
        Backend::Flatpak,
    ));
    assert(sum_of_slots(packages, o4) == sum_of_slots(packages, o3) + packages.len(Backend::Snap));
    assert(sum_of_slots(packages, o5) == sum_of_slots(packages, o4) + packages.len(
        Backend::Cargo,
    ));
    if packages.wf() {
        let m = packages.managers;
        let s0 = Seq::<Backend>::empty();
        let s1 = s0 + crate::args::one_if(m.pacman, Backend::Pacman);
        let s2 = s1 + crate::args::one_if(m.aur, Backend::AUR);
        let s3 = s2 + crate::args::one_if(m.flatpak, Backend::Flatpak);
        let s4 = s3 + crate::args::one_if(m.snap, Backend::Snap);
        let s5 = s4 + crate::args::one_if(m.cargo, Backend::Cargo);
        lemma_sum_step(packages, s0, m.pacman, Backend::Pacman);
        lemma_sum_step(packages, s1, m.aur, Backend::AUR);
        lemma_sum_step(packages, s2, m.flatpak, Backend::Flatpak);
        lemma_sum_step(packages, s3, m.snap, Backend::Snap);
        lemma_sum_step(packages, s4, m.cargo, Backend::Cargo);
        assert(s1 =~= crate::args::one_if(m.pacman, Backend::Pacman));
        assert(s5 == m.list());
        assert(!m.enabled(Backend::Pacman) ==> packages.len(Backend::Pacman) == 0);
        assert(!m.enabled(Backend::AUR) ==> packages.len(Backend::AUR) == 0);
        assert(!m.enabled(Backend::Flatpak) ==> packages.len(Backend::Flatpak) == 0);
        assert(!m.enabled(Backend::Snap) ==> packages.len(Backend::Snap) == 0);
        assert(!m.enabled(Backend::Cargo) ==> packages.len(Backend::Cargo) == 0);
    }
}

proof fn lemma_sum_step(packages: Packages, order: Seq<Backend>, enabled: bool, backend: Backend)
    ensures
        sum_of_slots(packages, order + crate::args::one_if(enabled, backend)) == sum_of_slots(
            packages,
            order,
        ) + (if enabled {
            packages.len(backend)
        } else {
            0
        }),
{
    let next = order + crate::args::one_if(enabled, backend);
    if enabled {
        assert(next.drop_last() =~= order);
        assert(next.last() == backend);
    } else {
        assert(next =~= order);
    }
}

/// Resolution of a position of the flat list is total and unambiguous. A
/// position below the total resolves to one backend and one package of its
/// slot, the one that stands at that position when the slots are laid out
/// in enumeration order; a position from the total on resolves to nothing.
pub proof fn lemma_resolution_is_total(packages: Packages, k: int)
    ensures
        0 <= k < packages.spec_total() <==> packages.spec_resolve(k) is Some,
        packages.spec_resolve(k) matches Some(s) ==> 0 <= s.index < packages.len(s.backend)
            && packages.offset(s.backend) + s.index == k,
{
    assert(packages.pacman.len() == packages.len(Backend::Pacman));
    assert(packages.aur.len() == packages.len(Backend::AUR));
    assert(packages.flatpak.len() == packages.len(Backend::Flatpak));
    assert(packages.snap.len() == packages.len(Backend::Snap));
    assert(packages.cargo.len() == packages.len(Backend::Cargo));
}

/// Every package has its position in the flat list, and resolving that
/// position gives the package back: the package at `index` of the slot of
/// `backend` stands after all packages of the slots before it.
pub proof fn lemma_resolution_finds_every_package(packages: Packages, backend: Backend, index: usize)
    requires
        index < packages.len(backend),
    ensures
        packages.offset(backend) + index < packages.spec_total(),
        packages.spec_resolve(packages.offset(backend) + index) == Some(
            Selection { backend, index },
        ),
{
    assert(packages.entries()[packages.offset(backend) + index] == (backend, index as int));
}

/// Failures do not spread. Where, in one fan-out, the job of one enabled
/// backend fails and the job of another succeeds, the slot of the second
/// holds what its job returned, the slot of the first stays empty, and the
/// failure of the first is among the reported errors under its own backend.
pub proof fn lemma_failure_is_isolated(
    managers: Managers,
    jobs: Jobs<
        Vec<pacman::Package>,
        Vec<aur::Package>,
        Vec<flatpak::Package>,
        Vec<snap::Package>,
        Vec<cargo::Package>,
    >,
    packages: Packages,
    failing: Backend,
    other: Backend,
)
    requires
        packages.gathered_from(managers, jobs),
        jobs.failure(managers, failing) is Some,
        jobs.succeeded(managers, other),
    ensures
        packages.holds(jobs, other),
        packages.len(failing) == 0,
        jobs.failures(managers).contains(jobs.failure(managers, failing)->0),
        jobs.failure(managers, failing)->0.spec_backend() == failing,
        jobs.failure(managers, other) is None,
{
    lemma_failures_are_complete(managers, jobs, failing);
}

proof fn lemma_failures_step(before: Seq<Error>, failure: Option<Error>)
    ensures
        forall|err: Error|
            #[trigger] (before + one_failure(failure)).contains(err) <==> before.contains(err)
                || failure == Some(err),
        (before + one_failure(failure)).len() <= before.len() + 1,
{
    let after = before + one_failure(failure);
    assert forall|err: Error| after.contains(err) <==> before.contains(err) || failure == Some(
        err,
    ) by {
        if before.contains(err) {
            let k = choose|k: int| 0 <= k < before.len() && before[k] == err;
            assert(after[k] == err);
        }
        if failure == Some(err) {
            assert(after[before.len() as int] == err);
        }
        if after.contains(err) {
            let k = choose|k: int| 0 <= k < after.len() && after[k] == err;
            if k < before.len() {
                assert(before[k] == err);
            }
        }
    }
}

/// The reported errors are the failures of the enabled backends: each of
/// them, under its own backend, and nothing else.
pub proof fn lemma_failures_are_complete<P, A, F, S, C>(
    managers: Managers,
    jobs: Jobs<P, A, F, S, C>,
    backend: Backend,
)
    ensures
        jobs.failure(managers, backend) matches Some(err) ==> jobs.failures(managers).contains(err)
            && err.spec_backend() == backend,
        forall|err: Error|
            jobs.failures(managers).contains(err) ==> jobs.failure(managers, err.spec_backend())
                == Some(err),
        jobs.failures(managers).len() <= 5,
{
    let f1 = jobs.failure(managers, Backend::Pacman);
    let f2 = jobs.failure(managers, Backend::AUR);
    let f3 = jobs.failure(managers, Backend::Flatpak);
    let f4 = jobs.failure(managers, Backend::Snap);
    let f5 = jobs.failure(managers, Backend::Cargo);
    let s0 = Seq::<Error>::empty();
    let s1 = s0 + one_failure(f1);
    let s2 = s1 + one_failure(f2);
    let s3 = s2 + one_failure(f3);
    let s4 = s3 + one_failure(f4);
    let s5 = s4 + one_failure(f5);
    lemma_failures_step(s0, f1);
    lemma_failures_step(s1, f2);
    lemma_failures_step(s2, f3);
    lemma_failures_step(s3, f4);
    lemma_failures_step(s4, f5);
    assert(s1 =~= one_failure(f1));
    assert(s5 == jobs.failures(managers));
    if jobs.failure(managers, backend) is Some {
        let err = jobs.failure(managers, backend)->0;
        assert(f1 == Some(err) || f2 == Some(err) || f3 == Some(err) || f4 == Some(err) || f5
            == Some(err));
        assert(s1.contains(err) || f2 == Some(err) || f3 == Some(err) || f4 == Some(err) || f5
            == Some(err));
        assert(s2.contains(err) || f3 == Some(err) || f4 == Some(err) || f5 == Some(err));
        assert(s3.contains(err) || f4 == Some(err) || f5 == Some(err));
        assert(s4.contains(err) || f5 == Some(err));
        assert(s5.contains(err));
    }
    assert forall|err: Error| s5.contains(err) implies jobs.failure(managers, err.spec_backend())
        == Some(err) by {
        assert(!s0.contains(err));
        assert(f1 == Some(err) || f2 == Some(err) || f3 == Some(err) || f4 == Some(err) || f5
            == Some(err));
    }
}

/// An update runs on backends that have a slot only: the backends with
/// pending updates are among the enabled ones.
pub proof fn lemma_pending_are_enabled(packages: Packages, backend: Backend)
    requires
        packages.wf(),
        packages.spec_pending().enabled(backend),
    ensures
        packages.managers.enabled(backend),
        packages.len(backend) > 0,
{
    assert(packages.len(backend) > 0);
}

} // verus!
