//! The closed set of backends and the order in which they are always walked.

use vstd::prelude::*;

verus! {

/// Number of backends.
pub const MANAGERS_COUNT: usize = 5;

/// One package-management backend. The variants are declared in enumeration
/// order: every total, listing and selection walks them in this order.
#[derive(Clone, Copy, Debug, PartialEq, Eq, Structural)]
pub enum Backend {
    Pacman,
    AUR,
    Flatpak,
    Snap,
    Cargo,
}

impl Backend {
    /// Position of the backend in the enumeration order.
    pub open spec fn rank(self) -> int {
        match self {
            Backend::Pacman => 0,
            Backend::AUR => 1,
            Backend::Flatpak => 2,
            Backend::Snap => 3,
            Backend::Cargo => 4,
        }
    }

    /// All backends, in enumeration order.
    pub open spec fn order() -> Seq<Backend> {
        seq![Backend::Pacman, Backend::AUR, Backend::Flatpak, Backend::Snap, Backend::Cargo]
    }

    /// Lower-case name of the backend, as used for flags and fields.
    pub open spec fn spec_name(self) -> Seq<char> {
        match self {
            Backend::Pacman => "pacman"@,
            Backend::AUR => "aur"@,
            Backend::Flatpak => "flatpak"@,
            Backend::Snap => "snap"@,
            Backend::Cargo => "cargo"@,
        }
    }

    /// Name of the backend as shown to the user.
    pub open spec fn spec_label(self) -> Seq<char> {
        match self {
            Backend::Pacman => "Pacman"@,
            Backend::AUR => "AUR"@,
            Backend::Flatpak => "Flatpak"@,
            Backend::Snap => "Snap"@,
            Backend::Cargo => "Cargo"@,
        }
    }

    pub fn index(self) -> (r: usize)
        ensures
            r == self.rank(),
            r < MANAGERS_COUNT,
    {
        match self {
            Backend::Pacman => 0,
            Backend::AUR => 1,
            Backend::Flatpak => 2,
            Backend::Snap => 3,
            Backend::Cargo => 4,
        }
    }

    /// The backend at a position of the enumeration order, if there is one.
    pub fn from_index(i: usize) -> (r: Option<Backend>)
        ensures
            i < MANAGERS_COUNT ==> r == Some(Backend::order()[i as int]),
            i >= MANAGERS_COUNT ==> r is None,
            r matches Some(b) ==> b.rank() == i,
    {
        match i {
            0 => Some(Backend::Pacman),
            1 => Some(Backend::AUR),
            2 => Some(Backend::Flatpak),
            3 => Some(Backend::Snap),
            4 => Some(Backend::Cargo),
            _ => None,
        }
    }

    /// All backends, in enumeration order.
    pub fn all() -> (r: Vec<Backend>)
        ensures
            r@ == Backend::order(),
    {
        let mut r: Vec<Backend> = Vec::new();
        r.push(Backend::Pacman);
        r.push(Backend::AUR);
        r.push(Backend::Flatpak);
        r.push(Backend::Snap);
        r.push(Backend::Cargo);
        r
    }

    pub fn name(self) -> (r: &'static str)
        ensures
            r@ == self.spec_name(),
    {
        match self {
            Backend::Pacman => "pacman",
            Backend::AUR => "aur",
            Backend::Flatpak => "flatpak",
            Backend::Snap => "snap",
            Backend::Cargo => "cargo",
        }
    }

    pub fn label(self) -> (r: &'static str)
        ensures
            r@ == self.spec_label(),
    {
        match self {
            Backend::Pacman => "Pacman",
            Backend::AUR => "AUR",
            Backend::Flatpak => "Flatpak",
            Backend::Snap => "Snap",
            Backend::Cargo => "Cargo",
        }
    }
}

/// The enumeration order lists every backend exactly once, each at its rank.
pub proof fn lemma_order_is_complete(b: Backend)
    ensures
        Backend::order().len() == MANAGERS_COUNT,
        0 <= b.rank() < MANAGERS_COUNT,
        Backend::order()[b.rank()] == b,
        Backend::order().no_duplicates(),
{
}

} // verus!
