//! The community repository of build recipes.

use crate::managers::{keep_marked, marked};
use crate::text::{before_first, head, join2, lines, lines_of, same, views};
use vstd::prelude::*;

verus! {

/// A package of the community repository.
#[derive(Clone, Debug)]
pub struct Package {
    pub name: String,
    pub version: String,
}

/// Why an operation of this backend failed. Each variant carries the text
/// of the underlying failure, where there is one; `Command` names the
/// program that could not be run.
#[derive(Clone, Debug)]
pub enum Error {
    Alpm(Option<String>),
    Raur(Option<String>),
    Fs(Option<String>),
    Command(String, Option<String>),
}

/// The text of a failure, or the words that stand for an unknown one.
pub open spec fn detail(err: Option<String>) -> Seq<char> {
    match err {
        Some(err) => err@,
        None => "Unknown error"@,
    }
}

fn detail_text(err: &Option<String>) -> (r: &str)
    ensures
        r@ == detail(*err),
{
    match err {
        Some(err) => err.as_str(),
        None => "Unknown error",
    }
}

impl Error {
    /// The message of the error.
    pub open spec fn message(self) -> Seq<char> {
        match self {
            Error::Alpm(err) => "Alpm: "@ + detail(err),
            Error::Raur(err) => "Raur: "@ + detail(err),
            Error::Fs(err) => "Fs: "@ + detail(err),
            Error::Command(command, err) => "Command \""@ + command@ + "\": "@ + detail(err),
        }
    }

    pub fn to_string(&self) -> (r: String)
        ensures
            r@ == self.message(),
    {
        match self {
            Error::Alpm(err) => join2("Alpm: ", detail_text(err)),
            Error::Raur(err) => join2("Raur: ", detail_text(err)),
            Error::Fs(err) => join2("Fs: ", detail_text(err)),
            Error::Command(command, err) => {
                let mut r = join2("Command \"", command.as_str());
                r.append("\": ");
                r.append(detail_text(err));
                r
            },
        }
    }
}

/// A package is offered for installation under a query: its name is the
/// query itself, or the query with `-bin` or with `-git` after it.
pub open spec fn offered_for(package: Package, query: Seq<char>) -> bool {
    package.name@ == query || package.name@ == query + "-bin"@ || package.name@ == query + "-git"@
}

/// The name is on the ignore list.
pub open spec fn ignored(names: Seq<Seq<char>>, name: Seq<char>) -> bool {
    names.contains(name)
}

/// The names of the packages to upgrade: of the lines that `pacman -Qum`
/// printed, the names, each the line up to its first blank, that are not on
/// the ignore list, in the order of the lines.
pub open spec fn upgradable(output: Seq<char>, ignore: Seq<Seq<char>>) -> Seq<Seq<char>> {
    lines_of(output).map_values(|line: Seq<char>| before_first(line, ' ')).filter(
        |name: Seq<char>| !ignored(ignore, name),
    )
}

/// The name of the archive that building a package leaves behind.
pub open spec fn archive(name: Seq<char>, version: Seq<char>, arch: Seq<char>) -> Seq<char> {
    name + "-"@ + version + "-"@ + arch + ".tar.zst"@
}

/// The name of the archive that building a package leaves behind: the name
/// of the package, its version and the architecture of the machine.
pub fn archive_name(name: &str, version: &str, arch: &str) -> (r: String)
    ensures
        r@ == archive(name@, version@, arch@),
{
    let mut r = join2(name, "-");
    r.append(version);
    r.append("-");
    r.append(arch);
    r.append(".tar.zst");
    r
}

fn is_listed(names: &Vec<String>, name: &str) -> (r: bool)
    ensures
        r == ignored(views(names@), name@),
{
    let mut i: usize = 0;
    while i < names.len()
        invariant
            i <= names.len(),
            forall|k: int| 0 <= k < i ==> views(names@)[k] != name@,
        decreases names.len() - i,
    {
        if same(names[i].as_str(), name) {
            assert(views(names@)[i as int] == name@);
            return true;
        }
        i += 1;
    }
    false
}

/// The names of the packages for which the package database offers an
/// upgrade and that are not on the ignore list.
pub fn upgradable_names(output: &str, ignore: &Vec<String>) -> (r: Vec<String>)
    ensures
        views(r@) == upgradable(output@, views(ignore@)),
{
    let rows = lines(output);
    let ghost names = views(rows@).map_values(|line: Seq<char>| before_first(line, ' '));
    let ghost wanted = |name: Seq<char>| !ignored(views(ignore@), name);
    let mut out: Vec<String> = Vec::new();
    let mut i: usize = 0;
    proof {
        reveal(Seq::filter);
        assert(names.take(0) =~= Seq::<Seq<char>>::empty());
        assert(views(out@) =~= names.take(0).filter(wanted));
    }
    while i < rows.len()
        invariant
            i <= rows.len(),
            names == views(rows@).map_values(|line: Seq<char>| before_first(line, ' ')),
            wanted == (|name: Seq<char>| !ignored(views(ignore@), name)),
            views(out@) == names.take(i as int).filter(wanted),
        decreases rows.len() - i,
    {
        let name = head(rows[i].as_str(), ' ');
        proof {
            assert(names[i as int] == name@);
            assert(names.take(i + 1) =~= names.take(i as int).push(names[i as int]));
            names.take(i as int).lemma_filter_push(names[i as int], wanted);
        }
        if !is_listed(ignore, name.as_str()) {
            proof {
                crate::text::lemma_views_push(out@, name);
            }
            out.push(name);
        }
        i += 1;
    }
    assert(names.take(i as int) =~= names);
    out
}

/// The backend itself: it keeps no state.
#[derive(Clone, Copy, Debug)]
pub struct AUR {}

impl AUR {
    pub fn new() -> (r: Self)
        ensures
            r == (AUR {  }),
    {
        AUR {  }
    }

    /// The installed packages that this backend owns: those that no sync
    /// database holds. `installed` holds the installed packages, each with
    /// whether a sync database holds one of its name.
    pub fn list(&self, installed: Vec<(Package, bool)>) -> (r: Vec<Package>)
        ensures
            r@ == marked(installed@, false),
    {
        keep_marked(installed, false)
    }

    /// The installed package of a name, if this backend owns it: the
    /// package as it is installed, where no sync database holds one of its
    /// name.
    pub fn find(&self, installed: Option<Package>, synced: bool) -> (r: Option<Package>)
        ensures
            r == (if synced {
                None
            } else {
                installed
            }),
    {
        if synced {
            None
        } else {
            installed
        }
    }

    /// The packages to offer for installation under a name: of the packages
    /// that the repository found by name, those that are offered for the
    /// query.
    pub fn search_install(&self, found: Vec<Package>, query: &str) -> (r: Vec<Package>)
        ensures
            r@ == found@.filter(|package: Package| offered_for(package, query@)),
    {
        let binary = join2(query, "-bin");
        let git = join2(query, "-git");
        let mut offered: Vec<Package> = Vec::new();
        let ghost keep = |package: Package| offered_for(package, query@);
        let ghost all = found@;
        let mut rest = found;
        proof {
            reveal(Seq::filter);
            assert(all.take(0) =~= Seq::<Package>::empty());
            assert(all.skip(0) =~= all);
        }
        let n = rest.len();
        let mut i: usize = 0;
        while i < n
            invariant
                i <= n,
                n == all.len(),
                rest@ == all.skip(i as int),
                binary@ == query@ + "-bin"@,
                git@ == query@ + "-git"@,
                keep == (|package: Package| offered_for(package, query@)),
                offered@ == all.take(i as int).filter(keep),
            decreases n - i,
        {
            proof {
                assert(all.take(i + 1) =~= all.take(i as int).push(all[i as int]));
                all.take(i as int).lemma_filter_push(all[i as int], keep);
                assert(rest@[0] == all[i as int]);
            }
            let package = rest.remove(0);
            assert(rest@ =~= all.skip(i + 1));
            let name = package.name.as_str();
            if same(name, query) || same(name, binary.as_str()) || same(name, git.as_str()) {
                offered.push(package);
            }
            i += 1;
        }
        assert(all.take(i as int) =~= all);
        offered
    }

    /// The progress to show once `done` of `total` pending updates are
    /// installed, in percent.
    pub fn update(&self, done: usize, total: usize) -> (r: u8)
        requires
            done <= total,
            total > 0,
        ensures
            r == crate::managers::percentage(done as nat, total as nat),
            r <= 100,
            done == total ==> r == 100,
    {
        crate::managers::percent(done, total)
    }
}

} // verus!
