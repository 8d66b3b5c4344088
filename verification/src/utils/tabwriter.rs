//! How packages are written out: one line of tab-separated cells for each
//! package, headed by the name of its backend, and the table of all of them
//! with its columns aligned.

use crate::constants::Backend;
use crate::managers::{aur, cargo, flatpak, pacman, snap};
use crate::text::{join, joined, views};
use std::io::Write;
use vstd::prelude::*;

verus! {

/// The cells one after the other, each followed by a tab but the last, which
/// is followed by a line feed.
pub open spec fn row(cells: Seq<Seq<char>>) -> Seq<char> {
    joined(cells, "\t"@) + "\n"@
}

/// The label and the words one after the other: a colon and a blank after
/// the label, a blank between the words.
pub open spec fn choice(label: Seq<char>, words: Seq<Seq<char>>) -> Seq<char> {
    label + ": "@ + joined(words, " "@)
}

fn row_of(cells: &Vec<String>) -> (r: String)
    ensures
        r@ == row(views(cells@)),
{
    let mut r = join(cells, "\t");
    r.append("\n");
    r
}

fn choice_of(label: &str, words: &Vec<String>) -> (r: String)
    ensures
        r@ == choice(label@, views(words@)),
{
    let mut r = String::from_str(label);
    r.append(": ");
    r.append(join(words, " ").as_str());
    r
}

/// A package that can be written out as a line of a table and as an option
/// of a choice.
pub trait Listed {
    /// The cells of the line of the package, after the label.
    spec fn cells(&self) -> Seq<Seq<char>>;

    /// The words of the option of the package, after the label.
    spec fn words(&self) -> Seq<Seq<char>>;

    /// The name of the package.
    spec fn title(&self) -> Seq<char>;

    /// The line of the package in a table, headed by `label`.
    fn line(&self, label: &str) -> (r: String)
        ensures
            r@ == row(seq![label@] + self.cells()),
    ;

    /// The package as one of the options of a choice, headed by `label`.
    fn option(&self, label: &str) -> (r: String)
        ensures
            r@ == choice(label@, self.words()),
    ;

    /// The name of the package.
    fn name(&self) -> (r: &str)
        ensures
            r@ == self.title(),
    ;
}

impl Listed for pacman::Package {
    open spec fn cells(&self) -> Seq<Seq<char>> {
        seq![self.database@, self.name@, self.version@]
    }

    open spec fn words(&self) -> Seq<Seq<char>> {
        seq![self.database@, self.name@, self.version@]
    }

    open spec fn title(&self) -> Seq<char> {
        self.name@
    }

    fn line(&self, label: &str) -> (r: String) {
        let mut cells: Vec<String> = Vec::new();
        cells.push(String::from_str(label));
        cells.push(self.database.clone());
        cells.push(self.name.clone());
        cells.push(self.version.clone());
        assert(views(cells@) =~= seq![label@] + self.cells());
        row_of(&cells)
    }

    fn option(&self, label: &str) -> (r: String) {
        let mut words: Vec<String> = Vec::new();
        words.push(self.database.clone());
        words.push(self.name.clone());
        words.push(self.version.clone());
        assert(views(words@) =~= self.words());
        choice_of(label, &words)
    }

    fn name(&self) -> (r: &str) {
        self.name.as_str()
    }
}

impl Listed for aur::Package {
    open spec fn cells(&self) -> Seq<Seq<char>> {
        seq![self.name@, self.version@]
    }

    open spec fn words(&self) -> Seq<Seq<char>> {
        seq![self.name@, self.version@]
    }

    open spec fn title(&self) -> Seq<char> {
        self.name@
    }

    fn line(&self, label: &str) -> (r: String) {
        let mut cells: Vec<String> = Vec::new();
        cells.push(String::from_str(label));
        cells.push(self.name.clone());
        cells.push(self.version.clone());
        assert(views(cells@) =~= seq![label@] + self.cells());
        row_of(&cells)
    }

    fn option(&self, label: &str) -> (r: String) {
        let mut words: Vec<String> = Vec::new();
        words.push(self.name.clone());
        words.push(self.version.clone());
        assert(views(words@) =~= self.words());
        choice_of(label, &words)
    }

    fn name(&self) -> (r: &str) {
        self.name.as_str()
    }
}

impl Listed for flatpak::Package {
    open spec fn cells(&self) -> Seq<Seq<char>> {
        seq![self.id@, self.name@, self.version@, self.description@]
    }

    open spec fn words(&self) -> Seq<Seq<char>> {
        seq![self.name@, self.version@]
    }

    open spec fn title(&self) -> Seq<char> {
        self.name@
    }

    fn line(&self, label: &str) -> (r: String) {
        let mut cells: Vec<String> = Vec::new();
        cells.push(String::from_str(label));
        cells.push(self.id.clone());
        cells.push(self.name.clone());
        cells.push(self.version.clone());
        cells.push(self.description.clone());
        assert(views(cells@) =~= seq![label@] + self.cells());
        row_of(&cells)
    }

    fn option(&self, label: &str) -> (r: String) {
        let mut words: Vec<String> = Vec::new();
        words.push(self.name.clone());
        words.push(self.version.clone());
        assert(views(words@) =~= self.words());
        choice_of(label, &words)
    }

    fn name(&self) -> (r: &str) {
        self.name.as_str()
    }
}

impl Listed for snap::Package {
    open spec fn cells(&self) -> Seq<Seq<char>> {
        seq![self.name@, self.version@, self.publisher@, self.description@]
    }

    open spec fn words(&self) -> Seq<Seq<char>> {
        seq![self.name@, self.version@]
    }

    open spec fn title(&self) -> Seq<char> {
        self.name@
    }

    fn line(&self, label: &str) -> (r: String) {
        let mut cells: Vec<String> = Vec::new();
        cells.push(String::from_str(label));
        cells.push(self.name.clone());
        cells.push(self.version.clone());
        cells.push(self.publisher.clone());
        cells.push(self.description.clone());
        assert(views(cells@) =~= seq![label@] + self.cells());
        row_of(&cells)
    }

    fn option(&self, label: &str) -> (r: String) {
        let mut words: Vec<String> = Vec::new();
        words.push(self.name.clone());
        words.push(self.version.clone());
        assert(views(words@) =~= self.words());
        choice_of(label, &words)
    }

    fn name(&self) -> (r: &str) {
        self.name.as_str()
    }
}

/// The source of a package of the language registry as a cell: its text, or
/// nothing where the source is not known.
pub open spec fn source_cell(repository: Option<cargo::PackageRepository>) -> Seq<char> {
    match repository {
        Some(repository) => repository.text(),
        None => Seq::empty(),
    }
}

impl Listed for cargo::Package {
    open spec fn cells(&self) -> Seq<Seq<char>> {
        seq![
            self.name@,
            self.version@,
            source_cell(self.repository),
            joined(views(self.bins@), ", "@),
        ]
    }

    open spec fn words(&self) -> Seq<Seq<char>> {
        seq![self.name@, self.version@]
    }

    open spec fn title(&self) -> Seq<char> {
        self.name@
    }

    fn line(&self, label: &str) -> (r: String) {
        let mut cells: Vec<String> = Vec::new();
        cells.push(String::from_str(label));
        cells.push(self.name.clone());
        cells.push(self.version.clone());
        cells.push(
            match &self.repository {
                Some(repository) => repository.to_string(),
                None => String::new(),
            },
        );
        cells.push(join(&self.bins, ", "));
        assert(views(cells@) =~= seq![label@] + self.cells());
        row_of(&cells)
    }

    fn option(&self, label: &str) -> (r: String) {
        let mut words: Vec<String> = Vec::new();
        words.push(self.name.clone());
        words.push(self.version.clone());
        assert(views(words@) =~= self.words());
        choice_of(label, &words)
    }

    fn name(&self) -> (r: &str) {
        self.name.as_str()
    }
}

/// The label in front of the lines of a backend: its name and a colon.
pub open spec fn heading(backend: Backend) -> Seq<char> {
    backend.spec_label() + ":"@
}

/// `r` is the line of `package` under a heading in the colour of `backend`.
pub open spec fn is_line_of<T: Listed>(backend: Backend, package: &T, r: Seq<char>) -> bool {
    exists|label: Seq<char>|
        backend.paints(heading(backend), label) && r == #[trigger] row(seq![label] + package.cells())
}

/// `r` is what is written to show `package` on its own: its line under a
/// heading in the colour of `backend`, and the end of that line.
pub open spec fn is_shown<T: Listed>(backend: Backend, package: &T, r: Seq<char>) -> bool {
    exists|label: Seq<char>|
        backend.paints(heading(backend), label) && r == #[trigger] row(seq![label] + package.cells())
            + "\n"@
}

fn styled_line<T: Listed>(backend: Backend, package: &T) -> (r: String)
    ensures
        is_line_of(backend, package, r@),
{
    let mut head = String::from_str(backend.label());
    head.append(":");
    let label = backend.apply_to(head.as_str());
    let r = package.line(label.as_str());
    assert(r@ == row(seq![label@] + package.cells()));
    r
}

/// The line of a package of the system database: `Pacman:` in the colour of
/// the backend, then the database, the name and the version.
pub fn pacman_to_string(package: &pacman::Package) -> (r: String)
    ensures
        is_line_of(Backend::Pacman, package, r@),
{
    styled_line(Backend::Pacman, package)
}

/// The line of a package of the community repository: `AUR:` in the colour
/// of the backend, then the name and the version.
pub fn aur_to_string(package: &aur::Package) -> (r: String)
    ensures
        is_line_of(Backend::AUR, package, r@),
{
    styled_line(Backend::AUR, package)
}

/// The line of a sandboxed application: `Flatpak:` in the colour of the
/// backend, then the identifier, the name, the version and the description.
pub fn flatpak_to_string(package: &flatpak::Package) -> (r: String)
    ensures
        is_line_of(Backend::Flatpak, package, r@),
{
    styled_line(Backend::Flatpak, package)
}

/// The line of a universal package: `Snap:` in the colour of the backend,
/// then the name, the version, the publisher and the description.
pub fn snap_to_string(package: &snap::Package) -> (r: String)
    ensures
        is_line_of(Backend::Snap, package, r@),
{
    styled_line(Backend::Snap, package)
}

/// The line of a package of the language registry: `Cargo:` in the colour of
/// the backend, then the name, the version, the source and the binaries.
pub fn cargo_to_string(package: &cargo::Package) -> (r: String)
    ensures
        is_line_of(Backend::Cargo, package, r@),
{
    styled_line(Backend::Cargo, package)
}

/// The lines of the packages of one backend under `label`.
pub open spec fn lines<T: Listed>(label: Seq<char>, list: Seq<T>) -> Seq<Seq<char>> {
    list.map_values(|package: T| row(seq![label] + package.cells()))
}

/// The lines of one backend as a block of the table: the lines one after the
/// other and an empty line after them; nothing at all for a backend without
/// packages.
pub open spec fn block(lines: Seq<Seq<char>>) -> Seq<char> {
    if lines.len() == 0 {
        Seq::empty()
    } else {
        lines.flatten() + "\n"@
    }
}

/// The block of the packages of one backend under `label`.
pub fn block_of<T: Listed>(label: &str, list: &Vec<T>) -> (r: String)
    ensures
        r@ == block(lines(label@, list@)),
{
    let mut r = String::new();
    let mut i: usize = 0;
    let ghost all = lines(label@, list@);
    assert(all.take(0) =~= Seq::<Seq<char>>::empty());
    assert(Seq::<Seq<char>>::empty().flatten() =~= Seq::<char>::empty());
    while i < list.len()
        invariant
            i <= list.len(),
            all == lines(label@, list@),
            r@ == all.take(i as int).flatten(),
        decreases list.len() - i,
    {
        let line = list[i].line(label);
        proof {
            assert(all.take(i + 1) =~= all.take(i as int).push(all[i as int]));
            all.take(i as int).lemma_flatten_push(all[i as int]);
        }
        r.append(line.as_str());
        i += 1;
    }
    assert(all.take(i as int) =~= all);
    if list.len() > 0 {
        r.append("\n");
    }
    r
}

/// The options of the packages of one backend under `label`.
pub open spec fn options<T: Listed>(label: Seq<char>, list: Seq<T>) -> Seq<Seq<char>> {
    list.map_values(|package: T| choice(label, package.words()))
}

/// Adds the options of the packages of one backend to the options so far.
pub fn push_options<T: Listed>(out: &mut Vec<String>, label: &str, list: &Vec<T>)
    ensures
        views(final(out)@) == views(old(out)@) + options(label@, list@),
{
    let mut i: usize = 0;
    let ghost all = options(label@, list@);
    assert(views(out@) =~= views(old(out)@) + all.take(0));
    while i < list.len()
        invariant
            i <= list.len(),
            all == options(label@, list@),
            views(out@) == views(old(out)@) + all.take(i as int),
        decreases list.len() - i,
    {
        let option = list[i].option(label);
        proof {
            crate::text::lemma_views_push(out@, option);
            assert(all.take(i + 1) =~= all.take(i as int).push(all[i as int]));
            assert(views(old(out)@) + all.take(i + 1) =~= (views(old(out)@) + all.take(
                i as int,
            )).push(all[i as int]));
        }
        out.push(option);
        i += 1;
    }
    assert(all.take(i as int) =~= all);
}

/// What `tabwriter::TabWriter`, with its default settings, writes for a
/// text: the text with each run of tab-separated cells padded into aligned
/// columns.
pub uninterp spec fn aligned(text: Seq<char>) -> Seq<char>;

/// Writes the text through a `tabwriter::TabWriter` over a buffer, flushes
/// it and hands the buffer back: a `TabWriter::new` with `write_all`,
/// `flush` and `into_inner`. The writer cuts the text into cells at tabs and
/// line feeds and writes each cell followed by blanks; an empty text has no
/// cell, and nothing is written for it.
#[verifier::external_body]
pub(crate) fn align(text: &str) -> (r: String)
    ensures
        r@ == aligned(text@),
        text@.len() == 0 ==> r@.len() == 0,
{
    let mut writer = tabwriter::TabWriter::new(Vec::new());
    let _ = writer.write_all(text.as_bytes());
    let bytes = match writer.into_inner() {
        Ok(bytes) => bytes,
        Err(_) => Vec::new(),
    };
    String::from_utf8_lossy(&bytes).into_owned()
}

} // verus!
