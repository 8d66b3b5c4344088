//! What the user asked for: the command, and the backends that take part.

use crate::constants::{Backend, MANAGERS_COUNT};
use vstd::prelude::*;

verus! {

/// The arguments of one invocation.
#[derive(Clone, Debug)]
pub struct UnipacArgs {
    /// No live display and no prompts: output for scripts.
    pub no_interactive: bool,
    pub managers: Managers,
    pub command: Option<Command>,
}

/// A command of the front end.
#[derive(Clone, Debug)]
#[allow(inconsistent_fields)]
pub enum Command {
    List { updates: bool },
    Search { query: String },
    Install { query: String },
    Uninstall { query: String },
    Update { query: Option<String>, list: bool, count: bool },
}

/// What is run for a command.
#[derive(Clone, Copy, Debug, PartialEq, Eq, Structural)]
pub enum Operation {
    List,
    ListUpdates,
    Search,
    Install,
    Uninstall,
    CountUpdates,
    Update,
}

impl Command {
    /// The operation a command stands for. Listing with `updates` lists the
    /// updates; updating with `list` lists them too, and with `count` (and
    /// without `list`) counts them.
    pub open spec fn spec_operation(self) -> Operation {
        match self {
            Command::List { updates } => if updates {
                Operation::ListUpdates
            } else {
                Operation::List
            },
            Command::Search { .. } => Operation::Search,
            Command::Install { .. } => Operation::Install,
            Command::Uninstall { .. } => Operation::Uninstall,
            Command::Update { list, count, .. } => if list {
                Operation::ListUpdates
            } else if count {
                Operation::CountUpdates
            } else {
                Operation::Update
            },
        }
    }

    pub fn operation(&self) -> (r: Operation)
        ensures
            r == self.spec_operation(),
    {
        match self {
            Command::List { updates } => if *updates {
                Operation::ListUpdates
            } else {
                Operation::List
            },
            Command::Search { .. } => Operation::Search,
            Command::Install { .. } => Operation::Install,
            Command::Uninstall { .. } => Operation::Uninstall,
            Command::Update { list, count, .. } => if *list {
                Operation::ListUpdates
            } else if *count {
                Operation::CountUpdates
            } else {
                Operation::Update
            },
        }
    }
}

/// The sequence of one backend, or of none.
pub open spec fn one_if(enabled: bool, backend: Backend) -> Seq<Backend> {
    if enabled {
        seq![backend]
    } else {
        seq![]
    }
}

/// The set of enabled backends: one flag for each.
#[derive(Clone, Copy, Debug, PartialEq, Eq, Structural)]
pub struct Managers {
    pub pacman: bool,
    pub aur: bool,
    pub flatpak: bool,
    pub snap: bool,
    pub cargo: bool,
}

impl Managers {
    /// Whether a backend is enabled.
    pub open spec fn enabled(self, backend: Backend) -> bool {
        match backend {
            Backend::Pacman => self.pacman,
            Backend::AUR => self.aur,
            Backend::Flatpak => self.flatpak,
            Backend::Snap => self.snap,
            Backend::Cargo => self.cargo,
        }
    }

    /// The enabled backends as a set.
    pub open spec fn set(self) -> Set<Backend> {
        Set::new(|backend: Backend| self.enabled(backend))
    }

    /// The enabled backends in enumeration order.
    pub open spec fn list(self) -> Seq<Backend> {
        one_if(self.pacman, Backend::Pacman) + one_if(self.aur, Backend::AUR) + one_if(
            self.flatpak,
            Backend::Flatpak,
        ) + one_if(self.snap, Backend::Snap) + one_if(self.cargo, Backend::Cargo)
    }

    /// The flags with every backend enabled.
    pub open spec fn every() -> Managers {
        Managers { pacman: true, aur: true, flatpak: true, snap: true, cargo: true }
    }

    /// The flags with no backend enabled.
    pub open spec fn nothing() -> Managers {
        Managers { pacman: false, aur: false, flatpak: false, snap: false, cargo: false }
    }

    /// Every backend enabled.
    pub fn all() -> (r: Managers)
        ensures
            r == Managers::every(),
    {
        Managers { pacman: true, aur: true, flatpak: true, snap: true, cargo: true }
    }

    /// Whether a backend is enabled.
    pub fn has(&self, backend: Backend) -> (r: bool)
        ensures
            r == self.enabled(backend),
    {
        match backend {
            Backend::Pacman => self.pacman,
            Backend::AUR => self.aur,
            Backend::Flatpak => self.flatpak,
            Backend::Snap => self.snap,
            Backend::Cargo => self.cargo,
        }
    }

    /// Whether at least one backend is enabled.
    pub fn any(&self) -> (r: bool)
        ensures
            r == exists|backend: Backend| self.enabled(backend),
            r == (*self != Managers::nothing()),
    {
        proof {
            if self.pacman {
                assert(self.enabled(Backend::Pacman));
            }
            if self.aur {
                assert(self.enabled(Backend::AUR));
            }
            if self.flatpak {
                assert(self.enabled(Backend::Flatpak));
            }
            if self.snap {
                assert(self.enabled(Backend::Snap));
            }
            if self.cargo {
                assert(self.enabled(Backend::Cargo));
            }
        }
        if self.pacman {
            return true;
        }
        if self.aur {
            return true;
        }
        if self.flatpak {
            return true;
        }
        if self.snap {
            return true;
        }
        if self.cargo {
            return true;
        }
        false
    }

    /// The enabled backends in enumeration order: the jobs of a fan-out.
    pub fn backends(&self) -> (r: Vec<Backend>)
        ensures
            r@ == self.list(),
    {
        let mut r: Vec<Backend> = Vec::new();
        if self.pacman {
            r.push(Backend::Pacman);
        }
        if self.aur {
            r.push(Backend::AUR);
        }
        if self.flatpak {
            r.push(Backend::Flatpak);
        }
        if self.snap {
            r.push(Backend::Snap);
        }
        if self.cargo {
            r.push(Backend::Cargo);
        }
        assert(r@ =~= self.list());
        r
    }
}

/// The ranks in `s` rise strictly and stay below `bound`.
pub open spec fn ascending(s: Seq<Backend>, bound: int) -> bool {
    &&& forall|i: int| 0 <= i < s.len() ==> (#[trigger] s[i]).rank() < bound
    &&& forall|i: int, j: int|
        0 <= i < j < s.len() ==> (#[trigger] s[i]).rank() < (#[trigger] s[j]).rank()
}

proof fn lemma_ascending_step(s: Seq<Backend>, enabled: bool, backend: Backend)
    requires
        ascending(s, backend.rank()),
    ensures
        ascending(s + one_if(enabled, backend), backend.rank() + 1),
        forall|other: Backend|
            #[trigger] (s + one_if(enabled, backend)).contains(other) <==> s.contains(other) || (
            enabled && other == backend),
{
    let t = s + one_if(enabled, backend);
    assert forall|other: Backend|
        t.contains(other) <==> s.contains(other) || (enabled && other == backend) by {
        if s.contains(other) {
            let k = choose|k: int| 0 <= k < s.len() && s[k] == other;
            assert(t[k] == other);
        }
        if enabled && other == backend {
            assert(t[s.len() as int] == other);
        }
        if t.contains(other) {
            let k = choose|k: int| 0 <= k < t.len() && t[k] == other;
            if k < s.len() {
                assert(s[k] == other);
            }
        }
    }
}

/// The list of the enabled backends holds exactly the enabled backends, each
/// once, in enumeration order.
pub proof fn lemma_list_is_enabled_in_order(managers: Managers)
    ensures
        managers.list().to_set() == managers.set(),
        managers.list().no_duplicates(),
        ascending(managers.list(), MANAGERS_COUNT as int),
{
    let s0 = Seq::<Backend>::empty();
    let s1 = s0 + one_if(managers.pacman, Backend::Pacman);
    let s2 = s1 + one_if(managers.aur, Backend::AUR);
    let s3 = s2 + one_if(managers.flatpak, Backend::Flatpak);
    let s4 = s3 + one_if(managers.snap, Backend::Snap);
    let s5 = s4 + one_if(managers.cargo, Backend::Cargo);
    lemma_ascending_step(s0, managers.pacman, Backend::Pacman);
    lemma_ascending_step(s1, managers.aur, Backend::AUR);
    lemma_ascending_step(s2, managers.flatpak, Backend::Flatpak);
    lemma_ascending_step(s3, managers.snap, Backend::Snap);
    lemma_ascending_step(s4, managers.cargo, Backend::Cargo);
    assert(s1 =~= one_if(managers.pacman, Backend::Pacman));
    assert(s5 == managers.list());
    assert forall|backend: Backend| s5.contains(backend) <==> managers.enabled(backend) by {
        assert(!s0.contains(backend));
    }
    assert(s5.to_set() =~= managers.set());
}

impl Default for Managers {
    /// No backend enabled.
    fn default() -> (r: Managers)
        ensures
            r == Managers::nothing(),
    {
        Managers { pacman: false, aur: false, flatpak: false, snap: false, cargo: false }
    }
}

/// The arguments as they take effect: where no backend was selected, all of
/// them are enabled; everything else stays as given.
pub open spec fn spec_parse(args: UnipacArgs) -> UnipacArgs {
    if args.managers == Managers::nothing() {
        UnipacArgs { managers: Managers::every(), ..args }
    } else {
        args
    }
}

/// Completes the arguments read from the command line: a selection of no
/// backend stands for all of them.
pub fn parse(args: UnipacArgs) -> (r: UnipacArgs)
    ensures
        r == spec_parse(args),
        exists|backend: Backend| r.managers.enabled(backend),
{
    let mut args = args;
    if !args.managers.any() {
        args.managers.pacman = true;
        args.managers.aur = true;
        args.managers.flatpak = true;
        args.managers.snap = true;
        args.managers.cargo = true;
    }
    assert(args.managers.pacman ==> args.managers.enabled(Backend::Pacman));
    args
}

} // verus!
