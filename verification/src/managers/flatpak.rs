//! The sandboxed application distribution. Its tool prints one line for
//! each application, with a tab between the fields.

use crate::managers::{first_of, holding, keep_holding, lemma_first_where, read_rows, reads_all, take, Row};
use crate::text::{begins, contains, decimal, decimal_string, has, lines, lines_of, lowercase, lowercase_of, same, second, second_piece, split, split_on, starts_with, views};
use vstd::prelude::*;

verus! {

/// Why an operation of this backend failed.
#[derive(Clone, Copy, Debug, PartialEq, Eq, Structural)]
pub enum Error {
    /// A line of the tool's output did not have the expected fields.
    Format,
    /// The tool could not be run.
    Command,
}

impl Error {
    /// The message of the error.
    pub open spec fn message(self) -> Seq<char> {
        match self {
            Error::Format => "Format error"@,
            Error::Command => "Command error"@,
        }
    }

    pub fn to_string(&self) -> (r: String)
        ensures
            r@ == self.message(),
    {
        match self {
            Error::Format => String::from_str("Format error"),
            Error::Command => String::from_str("Command error"),
        }
    }
}

/// The field at `at` of a line, or the error for a line that has too few
/// fields.
pub fn get_next(parts: &Vec<String>, at: usize) -> (r: Result<String, Error>)
    ensures
        match r {
            Ok(part) => at < parts@.len() && part@ == parts@[at as int]@,
            Err(err) => at >= parts@.len() && err == Error::Format,
        },
{
    if at < parts.len() {
        Ok(parts[at].clone())
    } else {
        Err(Error::Format)
    }
}

/// An application of the sandboxed distribution.
#[derive(Clone, Debug)]
pub struct Package {
    pub id: String,
    pub name: String,
    pub version: String,
    pub branch: String,
    pub description: String,
}

/// The fields of a line: the stretches between its tabs. A line holds an
/// application where it has five fields at least.
pub open spec fn fields(line: Seq<char>) -> Option<Seq<Seq<char>>> {
    if split_on(line, '\t').len() >= 5 {
        Some(split_on(line, '\t'))
    } else {
        None
    }
}

impl Package {
    /// The application is made of these fields: name, identifier, version,
    /// branch and description, in this order.
    pub open spec fn is_from(self, parts: Seq<Seq<char>>) -> bool {
        &&& parts.len() >= 5
        &&& self.name@ == parts[0]
        &&& self.id@ == parts[1]
        &&& self.version@ == parts[2]
        &&& self.branch@ == parts[3]
        &&& self.description@ == parts[4]
    }

    /// The application that a line of the tool's output holds.
    pub fn from_str(s: &str) -> (r: Result<Package, Error>)
        ensures
            match r {
                Ok(package) => fields(s@) matches Some(parts) && package.is_from(parts),
                Err(err) => fields(s@) is None && err == Error::Format,
            },
    {
        let parts = split(s, '\t');
        let name = get_next(&parts, 0)?;
        let id = get_next(&parts, 1)?;
        let version = get_next(&parts, 2)?;
        let branch = get_next(&parts, 3)?;
        let description = get_next(&parts, 4)?;
        Ok(Package { id, name, version, branch, description })
    }
}

impl Row for Package {
    open spec fn readable(line: Seq<char>) -> bool {
        fields(line) is Some
    }

    open spec fn reads(line: Seq<char>, row: Package) -> bool {
        fields(line) matches Some(parts) && row.is_from(parts)
    }

    fn read(line: &str) -> (r: Option<Package>) {
        match Package::from_str(line) {
            Ok(package) => Some(package),
            Err(_) => None,
        }
    }
}

/// The lines of the tool's output that list applications: those that hold a
/// tab.
pub open spec fn rows(output: Seq<char>) -> Seq<Seq<char>> {
    holding(lines_of(output), "\t"@)
}

/// `r` is what reading the tool's output gives: the applications of all
/// lines that list one; or the error `Format` where one of those lines has
/// too few fields.
pub open spec fn is_read(output: Seq<char>, r: Result<Vec<Package>, Error>) -> bool {
    match r {
        Ok(packages) => reads_all(rows(output), packages@),
        Err(Error::Format) => exists|i: int|
            0 <= i < rows(output).len() && !Package::readable(#[trigger] rows(output)[i]),
        Err(Error::Command) => false,
    }
}

/// The applications that the tool's output lists; the error `Command` where
/// the tool could not be run and there is no output.
fn read(output: Option<&str>) -> (r: Result<Vec<Package>, Error>)
    ensures
        match output {
            Some(text) => is_read(text@, r),
            None => r matches Err(err) && err == Error::Command,
        },
{
    match output {
        None => Err(Error::Command),
        Some(text) => {
            let listed = keep_holding(lines(text), "\t");
            match read_rows::<Package>(&listed) {
                Some(packages) => Ok(packages),
                None => {
                    proof {
                        let i = choose|i: int|
                            0 <= i < listed@.len() && !Package::readable(
                                #[trigger] views(listed@)[i],
                            );
                        assert(!Package::readable(rows(text@)[i]));
                    }
                    Err(Error::Format)
                },
            }
        },
    }
}

/// The name of the application is `name` but for upper and lower case, or
/// its identifier holds `name` in lower case.
pub open spec fn answers_to(package: Package, name: Seq<char>) -> bool {
    lowercase_of(package.name@) == lowercase_of(name) || contains(
        package.id@,
        lowercase_of(name),
    )
}

/// The name of the application, in lower case, holds `query`.
pub open spec fn matches_query(package: Package, query: Seq<char>) -> bool {
    contains(lowercase_of(package.name@), query)
}

/// The backend, with the pending updates that it listed last and that no
/// update has used yet.
#[derive(Debug)]
pub struct Flatpak {
    pub update_cache: Option<Vec<Package>>,
}

impl Flatpak {
    pub fn new() -> (r: Self)
        ensures
            r.update_cache is None,
    {
        Flatpak { update_cache: None }
    }

    /// The installed applications, read from what `flatpak list` printed.
    pub fn list(&self, output: Option<&str>) -> (r: Result<Vec<Package>, Error>)
        ensures
            match output {
                Some(text) => is_read(text@, r),
                None => r matches Err(err) && err == Error::Command,
            },
    {
        read(output)
    }

    /// The applications of the catalogue that match a query, read from what
    /// `flatpak search` printed.
    pub fn search(&self, output: Option<&str>) -> (r: Result<Vec<Package>, Error>)
        ensures
            match output {
                Some(text) => is_read(text@, r),
                None => r matches Err(err) && err == Error::Command,
            },
    {
        read(output)
    }

    /// The installed application of a name: the first of the listed ones
    /// that answers to the name.
    pub fn find(&self, listed: Result<Vec<Package>, Error>, name: &str) -> (r: Result<
        Option<Package>,
        Error,
    >)
        ensures
            match listed {
                Err(err) => r matches Err(e) && e == err,
                Ok(packages) => r == Ok::<Option<Package>, Error>(
                    first_of(packages@, |package: Package| answers_to(package, name@)),
                ),
            },
    {
        match listed {
            Err(err) => Err(err),
            Ok(packages) => {
                let wanted = lowercase(name);
                let ghost answers = |package: Package| answers_to(package, name@);
                let mut i: usize = 0;
                while i < packages.len()
                    invariant
                        listed == Ok::<Vec<Package>, Error>(packages),
                        i <= packages.len(),
                        wanted@ == lowercase_of(name@),
                        answers == (|package: Package| answers_to(package, name@)),
                        forall|k: int| 0 <= k < i ==> !answers(#[trigger] packages@[k]),
                    decreases packages.len() - i,
                {
                    let lowered = lowercase(packages[i].name.as_str());
                    if same(lowered.as_str(), wanted.as_str()) || has(
                        packages[i].id.as_str(),
                        wanted.as_str(),
                    ) {
                        proof {
                            lemma_first_where(packages@, answers, i as int);
                        }
                        return Ok(Some(take(packages, i)));
                    }
                    i += 1;
                }
                proof {
                    lemma_first_where(packages@, answers, i as int);
                }
                Ok(None)
            },
        }
    }

    /// The applications to offer for installation under a name: of those
    /// that a search found, the ones whose name, in lower case, holds the
    /// query.
    pub fn search_install(&self, found: Result<Vec<Package>, Error>, query: &str) -> (r: Result<
        Vec<Package>,
        Error,
    >)
        ensures
            match found {
                Err(err) => r matches Err(e) && e == err,
                Ok(packages) => r matches Ok(offered) && offered@ == packages@.filter(
                    |package: Package| matches_query(package, query@),
                ),
            },
    {
        match found {
            Err(err) => Err(err),
            Ok(packages) => {
                let mut offered: Vec<Package> = Vec::new();
                let ghost keep = |package: Package| matches_query(package, query@);
                let ghost all = packages@;
                let mut rest = packages;
                proof {
                    reveal(Seq::filter);
                    assert(all.take(0) =~= Seq::<Package>::empty());
                    assert(all.skip(0) =~= all);
                }
                let n = rest.len();
                let mut i: usize = 0;
                while i < n
                    invariant
                        i <= n,
                        n == all.len(),
                        rest@ == all.skip(i as int),
                        keep == (|package: Package| matches_query(package, query@)),
                        offered@ == all.take(i as int).filter(keep),
                    decreases n - i,
                {
                    proof {
                        assert(all.take(i + 1) =~= all.take(i as int).push(all[i as int]));
                        all.take(i as int).lemma_filter_push(all[i as int], keep);
                        assert(rest@[0] == all[i as int]);
                    }
                    let package = rest.remove(0);
                    assert(rest@ =~= all.skip(i + 1));
                    let lowered = lowercase(package.name.as_str());
                    if has(lowered.as_str(), query) {
                        offered.push(package);
                    }
                    i += 1;
                }
                assert(all.take(i as int) =~= all);
                Ok(offered)
            },
        }
    }

    /// The applications with a pending update, read from what
    /// `flatpak remote-ls --updates` printed. A listing that was read is
    /// kept for the next update; a listing that could not be read clears
    /// what was kept.
    pub fn list_updates(&mut self, output: Option<&str>) -> (r: Result<Vec<Package>, Error>)
        ensures
            match output {
                Some(text) => is_read(text@, r),
                None => r matches Err(err) && err == Error::Command,
            },
            match r {
                Ok(packages) => final(self).update_cache matches Some(kept) && kept@ == packages@,
                Err(_) => if output is Some {
                    final(self).update_cache is None
                } else {
                    final(self).update_cache == old(self).update_cache
                },
            },
    {
        match output {
            None => Err(Error::Command),
            Some(text) => {
                let listed = read(Some(text));
                match &listed {
                    Ok(packages) => {
                        self.update_cache = Some(copies(packages));
                    },
                    Err(_) => {
                        self.update_cache = None;
                    },
                }
                listed
            },
        }
    }

    /// The number of applications with a pending update.
    pub fn count_updates(&self, listed: Result<Vec<Package>, Error>) -> (r: Result<usize, Error>)
        ensures
            match listed {
                Ok(list) => r == Ok::<usize, Error>(list@.len() as usize),
                Err(err) => r == Err::<usize, Error>(err),
            },
    {
        crate::managers::count(listed)
    }

    /// Starts an update: hands out the listing that was kept, which is then
    /// no longer kept. `None` where none is kept: the updates have to be
    /// listed first.
    pub fn update(&mut self) -> (r: Option<Progress>)
        ensures
            final(self).update_cache is None,
            match old(self).update_cache {
                Some(kept) => r matches Some(progress) && progress.done == 0 && progress.list
                    == kept,
                None => r is None,
            },
    {
        match self.update_cache.take() {
            Some(list) => Some(Progress { done: 0, list }),
            None => None,
        }
    }
}

/// A copy of an application.
fn copy(package: &Package) -> (r: Package)
    ensures
        r == *package,
{
    Package {
        id: package.id.clone(),
        name: package.name.clone(),
        version: package.version.clone(),
        branch: package.branch.clone(),
        description: package.description.clone(),
    }
}

/// Copies of the applications.
fn copies(packages: &Vec<Package>) -> (r: Vec<Package>)
    ensures
        r@ == packages@,
{
    let mut r: Vec<Package> = Vec::new();
    let mut i: usize = 0;
    while i < packages.len()
        invariant
            i <= packages.len(),
            r@ == packages@.take(i as int),
        decreases packages.len() - i,
    {
        r.push(copy(&packages[i]));
        assert(packages@.take(i + 1) =~= packages@.take(i as int).push(packages@[i as int]));
        i += 1;
    }
    assert(packages@.take(i as int) =~= packages@);
    r
}

/// How far an update has come: the applications to update, and how many
/// lines of the tool have reported one of them.
#[derive(Debug)]
pub struct Progress {
    pub done: usize,
    pub list: Vec<Package>,
}

/// The line names one of the applications.
pub open spec fn names_one(list: Seq<Package>, line: Seq<char>) -> bool {
    exists|i: int| 0 <= i < list.len() && contains(line, #[trigger] list[i].name@)
}

/// The line reports the update of one of the applications: it begins with
/// `Updating ` and names one of them.
pub open spec fn reports(list: Seq<Package>, line: Seq<char>) -> bool {
    starts_with(line, "Updating "@) && names_one(list, line)
}

/// The progress message of a line that reports an update: the share of the
/// applications reported before it, in percent, and the second word of the
/// line.
pub open spec fn message(done: nat, total: nat, word: Seq<char>) -> Seq<char> {
    decimal((done * 100) / total) + "% "@ + word
}

impl Progress {
    /// Whether a line names one of the applications.
    fn names(&self, line: &str) -> (r: bool)
        ensures
            r == names_one(self.list@, line@),
    {
        let mut i: usize = 0;
        while i < self.list.len()
            invariant
                i <= self.list.len(),
                forall|k: int| 0 <= k < i ==> !contains(line@, #[trigger] self.list@[k].name@),
            decreases self.list.len() - i,
        {
            if has(line, self.list[i].name.as_str()) {
                return true;
            }
            i += 1;
        }
        false
    }

    /// Takes one line that the tool printed during the update. A line that
    /// reports an update counts, and gives the progress message to show if
    /// it has a second word; any other line changes nothing.
    pub fn line(&mut self, line: &str) -> (r: Option<String>)
        requires
            old(self).done * 100 <= usize::MAX,
        ensures
            final(self).list == old(self).list,
            reports(old(self).list@, line@) ==> final(self).done == old(self).done + 1,
            !reports(old(self).list@, line@) ==> final(self).done == old(self).done && r is None,
            reports(old(self).list@, line@) ==> match second_piece(line@, ' ') {
                Some(word) => r matches Some(text) && text@ == message(
                    old(self).done as nat,
                    old(self).list@.len(),
                    word,
                ),
                None => r is None,
            },
    {
        if !begins(line, "Updating ") || !self.names(line) {
            return None;
        }
        let total = self.list.len();
        assert(total > 0);
        let r = match second(line, ' ') {
            Some(word) => {
                let mut text = decimal_string(self.done * 100 / total);
                text.append("% ");
                text.append(word.as_str());
                Some(text)
            },
            None => None,
        };
        self.done = self.done + 1;
        r
    }

    /// The message that ends the display of a successful update.
    pub fn finish(&self) -> (r: String)
        ensures
            r@ == "100%"@,
    {
        String::from_str("100%")
    }
}

} // verus!
