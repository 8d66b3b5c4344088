//! Terminal colours of the backends.
//!
//! Whether colour is written at all is decided by the terminal and the
//! environment of the process, so a painted text is known only up to two
//! shapes: the text itself, or the text between a colour code and a reset.

use crate::constants::Backend;
use vstd::prelude::*;

verus! {

/// The colours in use.
#[derive(Clone, Copy, Debug, PartialEq, Eq, Structural)]
pub enum Color {
    Red,
    Green,
    Yellow,
    Blue,
}

impl Color {
    /// The escape sequence that switches the foreground to this colour.
    pub open spec fn code(self) -> Seq<char> {
        match self {
            Color::Red => "\x1b[31m"@,
            Color::Green => "\x1b[32m"@,
            Color::Yellow => "\x1b[33m"@,
            Color::Blue => "\x1b[34m"@,
        }
    }

    /// The escape sequence that ends a coloured stretch.
    pub open spec fn reset() -> Seq<char> {
        "\x1b[0m"@
    }

    /// `shown` is `text` painted in this colour: either left as it is, or
    /// wrapped in the colour code and the reset.
    pub open spec fn paints(self, text: Seq<char>, shown: Seq<char>) -> bool {
        shown == text || shown == self.code() + text + Color::reset()
    }
}

impl Backend {
    /// The colour a backend is shown in.
    pub open spec fn spec_color(self) -> Color {
        match self {
            Backend::Pacman => Color::Blue,
            Backend::AUR => Color::Red,
            Backend::Flatpak => Color::Green,
            Backend::Snap => Color::Yellow,
            Backend::Cargo => Color::Red,
        }
    }

    pub fn color(self) -> (r: Color)
        ensures
            r == self.spec_color(),
    {
        match self {
            Backend::Pacman => Color::Blue,
            Backend::AUR => Color::Red,
            Backend::Flatpak => Color::Green,
            Backend::Snap => Color::Yellow,
            Backend::Cargo => Color::Red,
        }
    }

    /// `shown` is `text` in the colour of this backend.
    pub open spec fn paints(self, text: Seq<char>, shown: Seq<char>) -> bool {
        self.spec_color().paints(text, shown)
    }
}

/// Calls `console::Style::new().red().apply_to(text)` and formats the styled
/// object. `console` writes the code `ESC[31m` before the text and `ESC[0m`
/// after it when colours are enabled for standard output, and the bare text
/// otherwise; which of the two happens is not known here.
#[verifier::external_body]
fn paint_red(text: &str) -> (r: String)
    ensures
        Color::Red.paints(text@, r@),
{
    console::Style::new().red().apply_to(text).to_string()
}

/// Calls `console::Style::new().green().apply_to(text)` and formats the
/// styled object: the text, bare or between `ESC[32m` and `ESC[0m`.
#[verifier::external_body]
fn paint_green(text: &str) -> (r: String)
    ensures
        Color::Green.paints(text@, r@),
{
    console::Style::new().green().apply_to(text).to_string()
}

/// Calls `console::Style::new().yellow().apply_to(text)` and formats the
/// styled object: the text, bare or between `ESC[33m` and `ESC[0m`.
#[verifier::external_body]
fn paint_yellow(text: &str) -> (r: String)
    ensures
        Color::Yellow.paints(text@, r@),
{
    console::Style::new().yellow().apply_to(text).to_string()
}

/// Calls `console::Style::new().blue().apply_to(text)` and formats the
/// styled object: the text, bare or between `ESC[34m` and `ESC[0m`.
#[verifier::external_body]
fn paint_blue(text: &str) -> (r: String)
    ensures
        Color::Blue.paints(text@, r@),
{
    console::Style::new().blue().apply_to(text).to_string()
}

impl Color {
    /// Paints a text in this colour, as far as the terminal takes colour.
    pub fn apply_to(self, text: &str) -> (r: String)
        ensures
            self.paints(text@, r@),
    {
        match self {
            Color::Red => paint_red(text),
            Color::Green => paint_green(text),
            Color::Yellow => paint_yellow(text),
            Color::Blue => paint_blue(text),
        }
    }
}

impl Backend {
    /// Paints a text in the colour of this backend.
    pub fn apply_to(self, text: &str) -> (r: String)
        ensures
            self.paints(text@, r@),
    {
        self.color().apply_to(text)
    }
}

/// The name of every backend as it is shown in front of its packages.
#[derive(Clone, Debug)]
pub struct Labels {
    pub pacman: String,
    pub aur: String,
    pub flatpak: String,
    pub snap: String,
    pub cargo: String,
}

impl Labels {
    /// The label of a backend.
    pub open spec fn of(self, backend: Backend) -> Seq<char> {
        match backend {
            Backend::Pacman => self.pacman@,
            Backend::AUR => self.aur@,
            Backend::Flatpak => self.flatpak@,
            Backend::Snap => self.snap@,
            Backend::Cargo => self.cargo@,
        }
    }

    /// Every label is the name of its backend followed by `suffix`, in the
    /// colour of the backend.
    pub open spec fn painted(self, suffix: Seq<char>) -> bool {
        forall|backend: Backend|
            backend.paints(backend.spec_label() + suffix, #[trigger] self.of(backend))
    }

    /// Every label is the name of its backend followed by `suffix`, without
    /// colour.
    pub open spec fn bare(self, suffix: Seq<char>) -> bool {
        forall|backend: Backend| #[trigger] self.of(backend) == backend.spec_label() + suffix
    }

    fn label(backend: Backend, suffix: &str) -> (r: String)
        ensures
            r@ == backend.spec_label() + suffix@,
    {
        let mut r = String::from_str(backend.label());
        r.append(suffix);
        r
    }

    /// The labels in the colours of the backends.
    pub fn styled(suffix: &str) -> (r: Labels)
        ensures
            r.painted(suffix@),
    {
        Labels {
            pacman: Backend::Pacman.apply_to(Labels::label(Backend::Pacman, suffix).as_str()),
            aur: Backend::AUR.apply_to(Labels::label(Backend::AUR, suffix).as_str()),
            flatpak: Backend::Flatpak.apply_to(Labels::label(Backend::Flatpak, suffix).as_str()),
            snap: Backend::Snap.apply_to(Labels::label(Backend::Snap, suffix).as_str()),
            cargo: Backend::Cargo.apply_to(Labels::label(Backend::Cargo, suffix).as_str()),
        }
    }

    /// The labels without colour.
    pub fn plain(suffix: &str) -> (r: Labels)
        ensures
            r.bare(suffix@),
            r.painted(suffix@),
    {
        Labels {
            pacman: Labels::label(Backend::Pacman, suffix),
            aur: Labels::label(Backend::AUR, suffix),
            flatpak: Labels::label(Backend::Flatpak, suffix),
            snap: Labels::label(Backend::Snap, suffix),
            cargo: Labels::label(Backend::Cargo, suffix),
        }
    }

    pub fn get(&self, backend: Backend) -> (r: &str)
        ensures
            r@ == self.of(backend),
    {
        match backend {
            Backend::Pacman => self.pacman.as_str(),
            Backend::AUR => self.aur.as_str(),
            Backend::Flatpak => self.flatpak.as_str(),
            Backend::Snap => self.snap.as_str(),
            Backend::Cargo => self.cargo.as_str(),
        }
    }
}

} // verus!
