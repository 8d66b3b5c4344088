//! The system package database.

use crate::managers::{keep_present, present};
use crate::text::{before_first, byte_len, contains, decimal, decimal_string, has, head, i32_of, join2, lines, lines_of, parse_i32, same, second, second_piece, slice, utf8_len, views};
use vstd::prelude::*;

verus! {

/// A package of the system database.
#[derive(Clone, Debug)]
pub struct Package {
    pub name: String,
    pub version: String,
    pub description: Option<String>,
    pub url: Option<String>,
    pub database: String,
}

/// Why an operation of this backend failed. Each variant carries the text
/// of the underlying failure, where there is one.
#[derive(Clone, Debug)]
pub enum Error {
    Alpm(Option<String>),
    Fs(String),
}

impl Error {
    /// The message of the error.
    pub open spec fn message(self) -> Seq<char> {
        match self {
            Error::Alpm(Some(err)) => "Alpm: "@ + err@,
            Error::Alpm(None) => "Alpm: Unknown error"@,
            Error::Fs(err) => "File system: "@ + err@,
        }
    }

    pub fn to_string(&self) -> (r: String)
        ensures
            r@ == self.message(),
    {
        match self {
            Error::Alpm(Some(err)) => join2("Alpm: ", err.as_str()),
            Error::Alpm(None) => String::from_str("Alpm: Unknown error"),
            Error::Fs(err) => join2("File system: ", err.as_str()),
        }
    }
}

/// Whether `glob_match::glob_match` finds that a name matches a pattern.
pub uninterp spec fn glob_matches(glob: Seq<char>, path: Seq<char>) -> bool;

/// The longest pattern and the longest name, in bytes, that are handed to
/// the matcher: it counts positions in 32 bits.
pub const GLOB_LIMIT: u128 = 0xffff_ffff;

/// Calls `glob_match::glob_match`. The matcher keeps positions in the
/// pattern and in the name as `u32` and adds one to them, so both texts
/// have to be shorter than `u32` reaches.
#[verifier::external_body]
fn glob_match(glob: &str, path: &str) -> (r: bool)
    requires
        utf8_len(glob@) < GLOB_LIMIT,
        utf8_len(path@) < GLOB_LIMIT,
    ensures
        r == glob_matches(glob@, path@),
{
    glob_match::glob_match(glob, path)
}

/// A pattern of the ignore list covers a name: the pattern matches the name
/// as a glob. A pattern or a name too long for the matcher covers, and is
/// covered by, nothing.
pub open spec fn covers(pattern: Seq<char>, name: Seq<char>) -> bool {
    utf8_len(pattern) < GLOB_LIMIT && utf8_len(name) < GLOB_LIMIT && glob_matches(pattern, name)
}

/// One of the patterns of the ignore list covers the name.
pub open spec fn ignored(patterns: Seq<Seq<char>>, name: Seq<char>) -> bool {
    exists|i: int| 0 <= i < patterns.len() && covers(#[trigger] patterns[i], name)
}

/// Whether one of the patterns of the ignore list covers a name.
pub fn is_ignored(patterns: &Vec<String>, name: &str) -> (r: bool)
    ensures
        r == ignored(views(patterns@), name@),
{
    if byte_len(name) >= GLOB_LIMIT {
        return false;
    }
    let mut i: usize = 0;
    while i < patterns.len()
        invariant
            i <= patterns.len(),
            utf8_len(name@) < GLOB_LIMIT,
            forall|k: int| 0 <= k < i ==> !covers(#[trigger] views(patterns@)[k], name@),
        decreases patterns.len() - i,
    {
        let pattern = patterns[i].as_str();
        assert(pattern@ == views(patterns@)[i as int]);
        if byte_len(pattern) < GLOB_LIMIT && glob_match(pattern, name) {
            return true;
        }
        i += 1;
    }
    false
}

/// The name that a line of the list of upgradable packages begins with: the
/// line up to its first blank.
pub open spec fn upgradable_name(line: Seq<char>) -> Seq<char> {
    before_first(line, ' ')
}

/// The names of the packages to upgrade: of the lines that
/// `pacman -Qu` printed, the names that no pattern of the ignore list
/// covers, in the order of the lines.
pub open spec fn upgradable(output: Seq<char>, patterns: Seq<Seq<char>>) -> Seq<Seq<char>> {
    lines_of(output).map_values(|line: Seq<char>| upgradable_name(line)).filter(
        |name: Seq<char>| !ignored(patterns, name),
    )
}

/// The names of the packages for which the package database offers an
/// upgrade and that are not ignored.
pub fn upgradable_names(output: &str, patterns: &Vec<String>) -> (r: Vec<String>)
    ensures
        views(r@) == upgradable(output@, views(patterns@)),
{
    let rows = lines(output);
    let ghost names = views(rows@).map_values(|line: Seq<char>| upgradable_name(line));
    let ghost wanted = |name: Seq<char>| !ignored(views(patterns@), name);
    let mut out: Vec<String> = Vec::new();
    let mut i: usize = 0;
    proof {
        reveal(Seq::filter);
        assert(names.take(0) =~= Seq::<Seq<char>>::empty());
        assert(views(out@) =~= names.take(0).filter(wanted));
    }
    while i < rows.len()
        invariant
            i <= rows.len(),
            names == views(rows@).map_values(|line: Seq<char>| upgradable_name(line)),
            wanted == (|name: Seq<char>| !ignored(views(patterns@), name)),
            views(out@) == names.take(i as int).filter(wanted),
        decreases rows.len() - i,
    {
        let name = head(rows[i].as_str(), ' ');
        proof {
            assert(names[i as int] == name@);
            assert(names.take(i + 1) =~= names.take(i as int).push(names[i as int]));
            names.take(i as int).lemma_filter_push(names[i as int], wanted);
        }
        if !is_ignored(patterns, name.as_str()) {
            proof {
                crate::text::lemma_views_push(out@, name);
            }
            out.push(name);
        }
        i += 1;
    }
    assert(names.take(i as int) =~= names);
    out
}

/// The names under which a package is offered for installation: the query
/// itself, and the query with `-git` and with `-bin` after it.
pub open spec fn install_names(query: Seq<char>) -> Seq<Seq<char>> {
    seq![query, query + "-git"@, query + "-bin"@]
}

/// The names under which a package is looked up for installation.
pub fn install_candidates(query: &str) -> (r: Vec<String>)
    ensures
        views(r@) == install_names(query@),
{
    let mut r: Vec<String> = Vec::new();
    r.push(String::from_str(query));
    r.push(join2(query, "-git"));
    r.push(join2(query, "-bin"));
    assert(views(r@) =~= install_names(query@));
    r
}

/// One of the packages has this name.
pub open spec fn has_name(packages: Seq<Package>, name: Seq<char>) -> bool {
    exists|i: int| 0 <= i < packages.len() && (#[trigger] packages[i]).name@ == name
}

/// The packages without those whose name an earlier one has already.
pub open spec fn first_of_each_name(packages: Seq<Package>) -> Seq<Package>
    decreases packages.len(),
{
    if packages.len() == 0 {
        packages
    } else {
        let before = first_of_each_name(packages.drop_last());
        if has_name(before, packages.last().name@) {
            before
        } else {
            before.push(packages.last())
        }
    }
}

/// The results of the searches in all databases, one after the other.
pub open spec fn all_found(searches: Seq<Result<Vec<Package>, Error>>) -> Seq<Package>
    decreases searches.len(),
{
    if searches.len() == 0 {
        Seq::empty()
    } else {
        all_found(searches.drop_last()) + (match searches.last() {
            Ok(packages) => packages@,
            Err(_) => Seq::empty(),
        })
    }
}

/// The backend itself: it keeps no state.
#[derive(Clone, Copy, Debug)]
pub struct Pacman {}

impl Pacman {
    pub fn new() -> (r: Self)
        ensures
            r == (Pacman {  }),
    {
        Pacman {  }
    }

    /// The installed packages that this backend owns: of the installed
    /// packages, those that a sync database holds, as it holds them.
    /// `installed` tells for each installed package, in order, what the sync
    /// databases hold under its name.
    pub fn list(&self, installed: Vec<Option<Package>>) -> (r: Vec<Package>)
        ensures
            r@ == present(installed@),
    {
        keep_present(installed)
    }

    /// The installed package of a name, if this backend owns it: the
    /// package as it is installed, where a sync database holds one of its
    /// name.
    pub fn find(&self, installed: Option<Package>, synced: bool) -> (r: Option<Package>)
        ensures
            r == (if synced {
                installed
            } else {
                None
            }),
    {
        if synced {
            installed
        } else {
            None
        }
    }

    /// The packages that match a query, given what the search in each
    /// database gave, database by database: all packages found, in the
    /// order of the databases, or the error of the first database whose
    /// search failed.
    pub fn search(&self, searches: Vec<Result<Vec<Package>, Error>>) -> (r: Result<
        Vec<Package>,
        Error,
    >)
        ensures
            match r {
                Ok(packages) => packages@ == all_found(searches@) && forall|i: int|
                    0 <= i < searches@.len() ==> (#[trigger] searches@[i]) is Ok,
                Err(err) => exists|i: int|
                    0 <= i < searches@.len() && #[trigger] searches@[i] == Err::<
                        Vec<Package>,
                        Error,
                    >(err) && forall|k: int| 0 <= k < i ==> (#[trigger] searches@[k]) is Ok,
            },
    {
        let mut packages: Vec<Package> = Vec::new();
        let ghost all = searches@;
        let mut rest = searches;
        let n = rest.len();
        let mut i: usize = 0;
        assert(all.skip(0) =~= all);
        assert(all.take(0) =~= Seq::<Result<Vec<Package>, Error>>::empty());
        while i < n
            invariant
                i <= n,
                n == all.len(),
                all == searches@,
                rest@ == all.skip(i as int),
                packages@ == all_found(all.take(i as int)),
                forall|k: int| 0 <= k < i ==> (#[trigger] all[k]) is Ok,
            decreases n - i,
        {
            assert(rest@[0] == all[i as int]);
            let search = rest.remove(0);
            assert(rest@ =~= all.skip(i + 1));
            proof {
                assert(all.take(i + 1).drop_last() =~= all.take(i as int));
                assert(all.take(i + 1).last() == all[i as int]);
            }
            match search {
                Ok(found) => {
                    let mut found = found;
                    packages.append(&mut found);
                },
                Err(err) => {
                    return Err(err);
                },
            }
            i += 1;
        }
        assert(all.take(i as int) =~= all);
        Ok(packages)
    }

    /// The packages to offer for installation under a name, given the
    /// packages that the databases hold under the names of
    /// `install_candidates`, name by name and database by database: the
    /// first package of each name.
    pub fn search_install(&self, found: Vec<Package>) -> (r: Vec<Package>)
        ensures
            r@ == first_of_each_name(found@),
    {
        let mut kept: Vec<Package> = Vec::new();
        let ghost all = found@;
        let mut rest = found;
        let n = rest.len();
        let mut i: usize = 0;
        assert(all.skip(0) =~= all);
        assert(all.take(0) =~= Seq::<Package>::empty());
        while i < n
            invariant
                i <= n,
                n == all.len(),
                rest@ == all.skip(i as int),
                kept@ == first_of_each_name(all.take(i as int)),
            decreases n - i,
        {
            assert(rest@[0] == all[i as int]);
            let package = rest.remove(0);
            assert(rest@ =~= all.skip(i + 1));
            proof {
                assert(all.take(i + 1).drop_last() =~= all.take(i as int));
                assert(all.take(i + 1).last() == all[i as int]);
            }
            if !Pacman::holds(&kept, package.name.as_str()) {
                kept.push(package);
            }
            i += 1;
        }
        assert(all.take(i as int) =~= all);
        kept
    }

    fn holds(packages: &Vec<Package>, name: &str) -> (r: bool)
        ensures
            r == has_name(packages@, name@),
    {
        let mut i: usize = 0;
        while i < packages.len()
            invariant
                i <= packages.len(),
                forall|k: int| 0 <= k < i ==> (#[trigger] packages@[k]).name@ != name@,
            decreases packages.len() - i,
        {
            if same(packages[i].name.as_str(), name) {
                return true;
            }
            i += 1;
        }
        false
    }

    /// Starts watching an update.
    pub fn update(&self) -> (r: Progress)
        ensures
            r.count == 0,
            r.done == 0,
    {
        Progress { count: 0, done: 0 }
    }
}

/// The character opens or closes a pair of round brackets.
pub open spec fn is_bracket(c: char) -> bool {
    c == '(' || c == ')'
}

/// Position of the first round bracket in `s`, or the length of `s` where
/// there is none.
pub open spec fn first_bracket(s: Seq<char>) -> int
    decreases s.len(),
{
    if s.len() == 0 {
        0
    } else if is_bracket(s[0]) {
        0
    } else {
        1 + first_bracket(s.drop_first())
    }
}

/// The first round bracket of `s` stands at `at`, or, where `at` is the
/// length of `s`, nowhere.
pub proof fn lemma_first_bracket(s: Seq<char>, at: int)
    requires
        0 <= at <= s.len(),
        forall|k: int| 0 <= k < at ==> !is_bracket(s[k]),
        at < s.len() ==> is_bracket(s[at]),
    ensures
        first_bracket(s) == at,
    decreases s.len(),
{
    if s.len() > 0 && at > 0 {
        let rest = s.drop_first();
        assert(!is_bracket(s[0]));
        assert forall|k: int| 0 <= k < at - 1 implies !is_bracket(rest[k]) by {
            assert(rest[k] == s[k + 1]);
        }
        lemma_first_bracket(rest, at - 1);
    }
}

/// What stands between the first round bracket of a line and the next one,
/// or the end of the line; `None` for a line without round brackets.
pub open spec fn bracketed(line: Seq<char>) -> Option<Seq<char>> {
    let open = first_bracket(line);
    if open < line.len() {
        let rest = line.skip(open + 1);
        Some(rest.take(first_bracket(rest)))
    } else {
        None
    }
}

fn bracket_from(cs: &Vec<char>, from: usize) -> (r: usize)
    requires
        from <= cs.len(),
    ensures
        from <= r <= cs.len(),
        r - from == first_bracket(cs@.skip(from as int)),
{
    let ghost rest = cs@.skip(from as int);
    let mut i: usize = from;
    while i < cs.len() && cs[i] != '(' && cs[i] != ')'
        invariant
            from <= i <= cs.len(),
            rest == cs@.skip(from as int),
            forall|k: int| 0 <= k < i - from ==> !is_bracket(rest[k]),
        decreases cs.len() - i,
    {
        i += 1;
    }
    proof {
        lemma_first_bracket(rest, i - from);
    }
    i
}

/// What stands between the first round bracket of a line and the next one.
pub fn in_brackets(line: &str) -> (r: Option<String>)
    ensures
        match r {
            Some(text) => bracketed(line@) == Some(text@),
            None => bracketed(line@) is None,
        },
{
    let cs = crate::text::chars(line);
    assert(cs@.skip(0) =~= line@);
    let open = bracket_from(&cs, 0);
    if open < cs.len() {
        let close = bracket_from(&cs, open + 1);
        assert(line@.skip(open + 1).take(close - (open + 1)) =~= line@.subrange(
            open + 1,
            close as int,
        ));
        Some(slice(line, open + 1, close))
    } else {
        None
    }
}

/// How far an update has come: how many packages the tool announced, and
/// how many of them it has reported as upgraded.
#[derive(Clone, Copy, Debug, PartialEq, Eq, Structural)]
pub struct Progress {
    pub count: i32,
    pub done: i32,
}

/// The number of packages that a line announces: the number in its first
/// pair of round brackets, or zero where there is none.
pub open spec fn announced(line: Seq<char>) -> i32 {
    match bracketed(line) {
        Some(text) => match i32_of(text) {
            Some(count) => count,
            None => 0,
        },
        None => 0,
    }
}

/// The line is to announce a number of packages, but no number can be read
/// from it.
pub open spec fn miscounted(line: Seq<char>) -> bool {
    contains(line, "Packages "@) && !(bracketed(line) matches Some(text) && i32_of(text) is Some)
}

/// Whether a line is to announce a number of packages and no number can be
/// read from it: the number then counts as zero.
pub fn is_miscounted(line: &str) -> (r: bool)
    ensures
        r == miscounted(line@),
        r ==> announced(line@) == 0,
{
    let announces = has(line, "Packages ");
    if !announces {
        return false;
    }
    match in_brackets(line) {
        Some(text) => parse_i32(text.as_str()).is_none(),
        None => true,
    }
}

/// What a line that the tool printed during an update does to the progress.
/// A line that holds `Packages ` announces the number of packages. Any other
/// line that holds `upgrading`, once a number above zero was announced,
/// reports one more package.
pub open spec fn after_line(before: Progress, line: Seq<char>) -> Progress {
    if contains(line, "Packages "@) {
        Progress { count: announced(line), done: before.done }
    } else if contains(line, "upgrading"@) && before.count > 0 {
        Progress { count: before.count, done: (before.done + 1) as i32 }
    } else {
        before
    }
}

/// The progress message for a line: for a line that reports one more
/// package and has a second word, the share of the packages reported before
/// it, in percent, and that word.
pub open spec fn message_of(before: Progress, line: Seq<char>) -> Option<Seq<char>> {
    if !contains(line, "Packages "@) && contains(line, "upgrading"@) && before.count > 0 {
        match second_piece(line, ' ') {
            Some(word) => Some(
                decimal(((before.done * 100) / (before.count as int)) as nat) + "% "@ + word,
            ),
            None => None,
        }
    } else {
        None
    }
}

impl Progress {
    /// Takes one line that the tool printed during the update, and gives
    /// the progress message to show for it, if there is one.
    pub fn line(&mut self, line: &str) -> (r: Option<String>)
        requires
            0 <= old(self).done,
            old(self).done * 100 <= i32::MAX,
        ensures
            *final(self) == after_line(*old(self), line@),
            match r {
                Some(text) => message_of(*old(self), line@) == Some(text@),
                None => message_of(*old(self), line@) is None,
            },
            final(self).done >= 0,
    {
        if has(line, "Packages ") {
            self.count = match in_brackets(line) {
                Some(text) => match parse_i32(text.as_str()) {
                    Some(count) => count,
                    None => 0,
                },
                None => 0,
            };
            None
        } else if has(line, "upgrading") && self.count > 0 {
            let r = match second(line, ' ') {
                Some(word) => {
                    let share = (self.done * 100 / self.count) as usize;
                    let mut text = decimal_string(share);
                    text.append("% ");
                    text.append(word.as_str());
                    Some(text)
                },
                None => None,
            };
            self.done = self.done + 1;
            r
        } else {
            None
        }
    }

    /// The update is complete: at least one package was announced, and as
    /// many packages were reported as were announced.
    pub open spec fn complete(self) -> bool {
        self.count != 0 && self.done >= self.count
    }

    /// How the update ended, once the tool has printed its last line: the
    /// last progress message, or the error of an update that stopped short.
    pub fn finish(&self) -> (r: Result<String, Error>)
        ensures
            match r {
                Ok(text) => self.complete() && text@ == "100%"@,
                Err(err) => !self.complete() && err == Error::Alpm(None),
            },
    {
        if self.done < self.count || self.count == 0 {
            Err(Error::Alpm(None))
        } else {
            Ok(String::from_str("100%"))
        }
    }
}

} // verus!
