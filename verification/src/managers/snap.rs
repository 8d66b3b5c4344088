//! The universal package system. Its tool prints tables whose columns are
//! set apart by two blanks or more.

use crate::managers::{after_header, first_of, holding, keep_holding, lemma_first_where, read_rows, reads_all, skip_header, take, Row};
use crate::text::{lines, lines_of, lowercase, lowercase_of, same, views};
use vstd::prelude::*;

verus! {

/// Why an operation of this backend failed.
#[derive(Clone, Copy, Debug, PartialEq, Eq, Structural)]
pub enum Error {
    /// A line of the tool's output did not have the expected columns.
    Format,
    /// The tool could not be run.
    Command,
}

impl Error {
    /// The message of the error.
    pub open spec fn message(self) -> Seq<char> {
        match self {
            Error::Format => "Format error"@,
            Error::Command => "Command error"@,
        }
    }

    pub fn to_string(&self) -> (r: String)
        ensures
            r@ == self.message(),
    {
        match self {
            Error::Format => String::from_str("Format error"),
            Error::Command => String::from_str("Command error"),
        }
    }
}

/// The field at `at` of a line, or the error for a line that has too few
/// fields.
pub fn get_next(parts: &Vec<String>, at: usize) -> (r: Result<String, Error>)
    ensures
        match r {
            Ok(part) => at < parts@.len() && part@ == parts@[at as int]@,
            Err(err) => at >= parts@.len() && err == Error::Format,
        },
{
    if at < parts.len() {
        Ok(parts[at].clone())
    } else {
        Err(Error::Format)
    }
}

/// What `regex::Regex::split` gives for a text when the regular expression
/// is compiled from `pattern`: the stretches of the text between the matches
/// of the expression, in order. `None` where `regex::Regex::new` does not
/// accept the pattern.
pub uninterp spec fn regex_split(pattern: Seq<char>, text: Seq<char>) -> Option<Seq<Seq<char>>>;

/// Compiles the pattern with `regex::Regex::new` and cuts the text with
/// `regex::Regex::split`, handing each stretch out as an owned string;
/// `None` where the pattern does not compile.
#[verifier::external_body]
fn split_by(pattern: &str, text: &str) -> (r: Option<Vec<String>>)
    ensures
        match r {
            Some(parts) => regex_split(pattern@, text@) == Some(views(parts@)),
            None => regex_split(pattern@, text@) is None,
        },
{
    let regex = regex::Regex::new(pattern).ok()?;
    Some(regex.split(text).map(String::from).collect())
}

/// The regular expression that matches what sets two columns apart: two
/// blanks or more.
pub open spec fn separator() -> Seq<char> {
    "  +"@
}

/// The columns of a line: the stretches between runs of two blanks or more.
/// A line holds a package where it has four columns at least.
pub open spec fn columns(line: Seq<char>) -> Option<Seq<Seq<char>>> {
    match regex_split(separator(), line) {
        Some(parts) => if parts.len() >= 4 {
            Some(parts)
        } else {
            None
        },
        None => None,
    }
}

/// A package of the universal package system.
#[derive(Clone, Debug)]
pub struct Package {
    pub name: String,
    pub version: String,
    pub description: String,
    pub publisher: String,
}

impl Package {
    /// The package is made of these columns: the first is its name, the
    /// second its version and the fourth its description; it has no
    /// publisher.
    pub open spec fn is_from(self, parts: Seq<Seq<char>>) -> bool {
        &&& parts.len() >= 4
        &&& self.name@ == parts[0]
        &&& self.version@ == parts[1]
        &&& self.description@ == parts[3]
        &&& self.publisher@ == Seq::<char>::empty()
    }

    /// The package made of the columns of a line; a line of less than four
    /// columns holds no package.
    pub fn from_parts(parts: &Vec<String>) -> (r: Result<Package, Error>)
        ensures
            match r {
                Ok(package) => package.is_from(views(parts@)),
                Err(err) => parts@.len() < 4 && err == Error::Format,
            },
    {
        let name = get_next(parts, 0)?;
        let version = get_next(parts, 1)?;
        let description = get_next(parts, 3)?;
        Ok(Package { name, version, description, publisher: String::new() })
    }

    /// The package that a line of the tool's tables holds.
    pub fn from_str(s: &str) -> (r: Result<Package, Error>)
        ensures
            match r {
                Ok(package) => columns(s@) matches Some(parts) && package.is_from(parts),
                Err(err) => columns(s@) is None && err == Error::Format,
            },
    {
        match split_by("  +", s) {
            Some(parts) => Package::from_parts(&parts),
            None => Err(Error::Format),
        }
    }
}

impl Row for Package {
    open spec fn readable(line: Seq<char>) -> bool {
        columns(line) is Some
    }

    open spec fn reads(line: Seq<char>, row: Package) -> bool {
        columns(line) matches Some(parts) && row.is_from(parts)
    }

    fn read(line: &str) -> (r: Option<Package>) {
        match Package::from_str(line) {
            Ok(package) => Some(package),
            Err(_) => None,
        }
    }
}

/// The lines of a table that list packages: all lines after the heading.
pub open spec fn listing_rows(output: Seq<char>) -> Seq<Seq<char>> {
    after_header(lines_of(output))
}

/// The lines of a table that list packages, where the tool may add lines of
/// its own: the lines after the heading that hold two blanks in a row.
pub open spec fn table_rows(output: Seq<char>) -> Seq<Seq<char>> {
    holding(after_header(lines_of(output)), "  "@)
}

/// `r` is what reading the lines `rows` of a table gives: the packages of
/// all of them, line by line; or the error `Format` where one of them holds
/// no package.
pub open spec fn is_read(rows: Seq<Seq<char>>, r: Result<Vec<Package>, Error>) -> bool {
    match r {
        Ok(packages) => reads_all(rows, packages@),
        Err(Error::Format) => exists|i: int|
            0 <= i < rows.len() && !Package::readable(#[trigger] rows[i]),
        Err(Error::Command) => false,
    }
}

/// The backend itself: it keeps no state.
#[derive(Clone, Copy, Debug)]
pub struct Snap {}

impl Snap {
    pub fn new() -> (r: Self)
        ensures
            r == (Snap {  }),
    {
        Snap {  }
    }

    /// The installed packages, read from what `snap list` printed.
    pub fn list(&self, output: Option<&str>) -> (r: Result<Vec<Package>, Error>)
        ensures
            match output {
                Some(text) => is_read(listing_rows(text@), r),
                None => r matches Err(err) && err == Error::Command,
            },
    {
        match output {
            None => Err(Error::Command),
            Some(text) => {
                let rows = skip_header(lines(text));
                match read_rows::<Package>(&rows) {
                    Some(packages) => Ok(packages),
                    None => Err(Error::Format),
                }
            },
        }
    }

    /// The packages of a table in which the tool may have put lines of its
    /// own, as `snap find` and `snap refresh --list` print it.
    fn table(output: Option<&str>) -> (r: Result<Vec<Package>, Error>)
        ensures
            match output {
                Some(text) => is_read(table_rows(text@), r),
                None => r matches Err(err) && err == Error::Command,
            },
    {
        match output {
            None => Err(Error::Command),
            Some(text) => {
                let rows = keep_holding(skip_header(lines(text)), "  ");
                match read_rows::<Package>(&rows) {
                    Some(packages) => Ok(packages),
                    None => Err(Error::Format),
                }
            },
        }
    }

    /// The packages of the catalogue that match a query, read from what
    /// `snap find` printed.
    pub fn search(&self, output: Option<&str>) -> (r: Result<Vec<Package>, Error>)
        ensures
            match output {
                Some(text) => is_read(table_rows(text@), r),
                None => r matches Err(err) && err == Error::Command,
            },
    {
        Snap::table(output)
    }

    /// The packages with a pending update, read from what
    /// `snap refresh --list` printed.
    pub fn list_updates(&self, output: Option<&str>) -> (r: Result<Vec<Package>, Error>)
        ensures
            match output {
                Some(text) => is_read(table_rows(text@), r),
                None => r matches Err(err) && err == Error::Command,
            },
    {
        Snap::table(output)
    }

    /// The number of packages with a pending update.
    pub fn count_updates(&self, listed: Result<Vec<Package>, Error>) -> (r: Result<usize, Error>)
        ensures
            match listed {
                Ok(list) => r == Ok::<usize, Error>(list@.len() as usize),
                Err(err) => r == Err::<usize, Error>(err),
            },
    {
        crate::managers::count(listed)
    }

    /// The installed package of a name: the first of the listed packages
    /// whose name is the same but for upper and lower case.
    pub fn find(&self, listed: Result<Vec<Package>, Error>, name: &str) -> (r: Result<
        Option<Package>,
        Error,
    >)
        ensures
            match listed {
                Err(err) => r matches Err(e) && e == err,
                Ok(packages) => r == Ok::<Option<Package>, Error>(
                    first_of(packages@, |package: Package| named_alike(package, name@)),
                ),
            },
    {
        match listed {
            Err(err) => Err(err),
            Ok(packages) => {
                let wanted = lowercase(name);
                let ghost alike = |package: Package| named_alike(package, name@);
                let mut i: usize = 0;
                while i < packages.len()
                    invariant
                        listed == Ok::<Vec<Package>, Error>(packages),
                        i <= packages.len(),
                        wanted@ == lowercase_of(name@),
                        alike == (|package: Package| named_alike(package, name@)),
                        forall|k: int| 0 <= k < i ==> !alike(#[trigger] packages@[k]),
                    decreases packages.len() - i,
                {
                    let lowered = lowercase(packages[i].name.as_str());
                    if same(lowered.as_str(), wanted.as_str()) {
                        proof {
                            lemma_first_where(packages@, alike, i as int);
                        }
                        return Ok(Some(take(packages, i)));
                    }
                    i += 1;
                }
                proof {
                    lemma_first_where(packages@, alike, i as int);
                }
                Ok(None)
            },
        }
    }

    /// The packages to offer for installation under a name: of the packages
    /// that a search found, the first whose name is exactly the query, and
    /// no other.
    pub fn search_install(&self, found: Result<Vec<Package>, Error>, query: &str) -> (r: Result<
        Vec<Package>,
        Error,
    >)
        ensures
            match found {
                Err(err) => r matches Err(e) && e == err,
                Ok(packages) => r matches Ok(offered) && offered@ == one_or_none(
                    first_of(packages@, |package: Package| package.name@ == query@),
                ),
            },
    {
        match found {
            Err(err) => Err(err),
            Ok(packages) => {
                let mut offered: Vec<Package> = Vec::new();
                let ghost exact = |package: Package| package.name@ == query@;
                let mut i: usize = 0;
                while i < packages.len()
                    invariant
                        found == Ok::<Vec<Package>, Error>(packages),
                        i <= packages.len(),
                        offered@.len() == 0,
                        exact == (|package: Package| package.name@ == query@),
                        forall|k: int| 0 <= k < i ==> !exact(#[trigger] packages@[k]),
                    decreases packages.len() - i,
                {
                    if same(packages[i].name.as_str(), query) {
                        proof {
                            lemma_first_where(packages@, exact, i as int);
                        }
                        let ghost all = packages@;
                        offered.push(take(packages, i));
                        assert(offered@ =~= seq![all[i as int]]);
                        return Ok(offered);
                    }
                    i += 1;
                }
                proof {
                    lemma_first_where(packages@, exact, i as int);
                }
                assert(offered@ =~= Seq::<Package>::empty());
                Ok(offered)
            },
        }
    }
}

/// The name of the package is `name` but for upper and lower case.
pub open spec fn named_alike(package: Package, name: Seq<char>) -> bool {
    lowercase_of(package.name@) == lowercase_of(name)
}

/// The list of one package, or of none.
pub open spec fn one_or_none(package: Option<Package>) -> Seq<Package> {
    match package {
        Some(package) => seq![package],
        None => seq![],
    }
}

} // verus!
