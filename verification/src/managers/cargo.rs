//! The language registry. Installed packages are read from the records that
//! the installer keeps; what is on offer is asked of the registry and of its
//! index.

use crate::managers::{first_of, keep_marked, lemma_first_where, marked};
use crate::text::{byte_len, byte_range, byte_slice, join2, lowercase, lowercase_of, same, split, split_on, split_once, split_once_at, utf8_len, views};
use vstd::prelude::*;

verus! {

/// Why an operation of this backend failed: a plain message.
pub type Error = String;

/// Where a package came from. The address is kept in the form that the
/// parser of addresses gives it.
#[derive(Clone, Debug)]
pub enum PackageRepository {
    Registry { url: String },
    Git { url: String, commit: String },
}

/// Where a package came from, as plain text.
pub enum Source {
    Registry { url: Seq<char> },
    Git { url: Seq<char>, commit: Seq<char> },
}

impl View for PackageRepository {
    type V = Source;

    open spec fn view(&self) -> Source {
        match self {
            PackageRepository::Registry { url } => Source::Registry { url: url@ },
            PackageRepository::Git { url, commit } => Source::Git { url: url@, commit: commit@ },
        }
    }
}

/// What `Url::parse` and the formatting of the parsed address give for a
/// text: the address in its normal form, or `None` where the text is no
/// absolute address.
pub uninterp spec fn url_text(text: Seq<char>) -> Option<Seq<char>>;

/// Parses the text with `reqwest::Url::parse` and formats the address with
/// its `Display`; `None` where the parser refuses the text.
#[verifier::external_body]
fn parse_url(text: &str) -> (r: Option<String>)
    ensures
        match r {
            Some(url) => url_text(text@) == Some(url@),
            None => url_text(text@) is None,
        },
{
    reqwest::Url::parse(text).ok().map(|url| url.to_string())
}

/// The source that a text of the install records names. The text is a kind,
/// a plus sign and an address; the kind is `registry`, or `git`, and then
/// the address is followed by a hash sign and a commit.
pub open spec fn source_of(s: Seq<char>) -> Option<Source> {
    match split_once_at(s, '+') {
        None => None,
        Some((kind, rest)) => if kind == "git"@ {
            match split_once_at(rest, '#') {
                None => None,
                Some((address, commit)) => match url_text(address) {
                    Some(url) => Some(Source::Git { url, commit }),
                    None => None,
                },
            }
        } else if kind == "registry"@ {
            match url_text(rest) {
                Some(url) => Some(Source::Registry { url }),
                None => None,
            }
        } else {
            None
        },
    }
}

fn no_repository() -> (r: Error)
    ensures
        r@ == "Failed to parse package repository"@,
{
    String::from_str("Failed to parse package repository")
}

impl PackageRepository {
    /// The source in the notation of the install records: the kind, a plus
    /// sign, the address and, for a git source, a hash sign and the commit.
    pub open spec fn text(self) -> Seq<char> {
        match self {
            PackageRepository::Registry { url } => "registry+"@ + url@,
            PackageRepository::Git { url, commit } => "git+"@ + url@ + "#"@ + commit@,
        }
    }

    pub fn to_string(&self) -> (r: String)
        ensures
            r@ == self.text(),
    {
        match self {
            PackageRepository::Registry { url } => join2("registry+", url.as_str()),
            PackageRepository::Git { url, commit } => {
                let mut r = join2("git+", url.as_str());
                r.append("#");
                r.append(commit.as_str());
                r
            },
        }
    }

    /// The source that a text of the install records names.
    pub fn from_str(s: &str) -> (r: Result<PackageRepository, Error>)
        ensures
            match r {
                Ok(repository) => source_of(s@) == Some(repository@),
                Err(err) => source_of(s@) is None && err@ == "Failed to parse package repository"@,
            },
    {
        let (kind, rest) = match split_once(s, '+') {
            Some(parts) => parts,
            None => {
                return Err(no_repository());
            },
        };
        if same(kind.as_str(), "git") {
            let (address, commit) = match split_once(rest.as_str(), '#') {
                Some(parts) => parts,
                None => {
                    return Err(no_repository());
                },
            };
            match parse_url(address.as_str()) {
                Some(url) => Ok(PackageRepository::Git { url, commit }),
                None => Err(no_repository()),
            }
        } else if same(kind.as_str(), "registry") {
            match parse_url(rest.as_str()) {
                Some(url) => Ok(PackageRepository::Registry { url }),
                None => Err(no_repository()),
            }
        } else {
            Err(no_repository())
        }
    }

    fn copy(&self) -> (r: PackageRepository)
        ensures
            r == *self,
    {
        match self {
            PackageRepository::Registry { url } => PackageRepository::Registry { url: url.clone() },
            PackageRepository::Git { url, commit } => PackageRepository::Git {
                url: url.clone(),
                commit: commit.clone(),
            },
        }
    }
}

/// The source that a text names, if it names one.
fn repository_of(s: &str) -> (r: Option<PackageRepository>)
    ensures
        match r {
            Some(repository) => source_of(s@) == Some(repository@),
            None => source_of(s@) is None,
        },
{
    match PackageRepository::from_str(s) {
        Ok(repository) => Some(repository),
        Err(_) => None,
    }
}

/// A package of the language registry.
#[derive(Clone, Debug)]
pub struct Package {
    pub name: String,
    pub version: String,
    pub repository: Option<PackageRepository>,
    pub bins: Vec<String>,
}

/// A package of the language registry, as plain text.
pub struct PackageView {
    pub name: Seq<char>,
    pub version: Seq<char>,
    pub repository: Option<Source>,
    pub bins: Seq<Seq<char>>,
}

/// The view of a source that may be missing.
pub open spec fn source_view(repository: Option<PackageRepository>) -> Option<Source> {
    match repository {
        Some(repository) => Some(repository@),
        None => None,
    }
}

impl View for Package {
    type V = PackageView;

    open spec fn view(&self) -> PackageView {
        PackageView {
            name: self.name@,
            version: self.version@,
            repository: source_view(self.repository),
            bins: views(self.bins@),
        }
    }
}

/// The text between the first and the last byte of `s`: what is left of a
/// source when the brackets around it are taken off. `None` where `s` has no
/// two bytes to take off.
pub open spec fn unwrapped(s: Seq<char>) -> Option<Seq<char>> {
    if utf8_len(s) >= 1 {
        byte_range(s, 1, (utf8_len(s) - 1) as nat)
    } else {
        None
    }
}

/// The key of an install record can be read: where it has a third word,
/// that word has a first and a last byte to take off.
pub open spec fn well_keyed(key: Seq<char>) -> bool {
    split_on(key, ' ').len() >= 3 ==> unwrapped(split_on(key, ' ')[2]) is Some
}

/// The package that an install record describes. The key of the record is
/// made of the name, the version and, in brackets, the source, with a blank
/// between each two; `bins` are the binaries of the record. A source that
/// cannot be read is left out.
pub open spec fn recorded(key: Seq<char>, bins: Seq<Seq<char>>) -> Result<PackageView, Seq<char>> {
    let words = split_on(key, ' ');
    if words.len() < 2 {
        Err("Failed to parse package version"@)
    } else if words.len() < 3 {
        Err("Failed to parse package repository"@)
    } else {
        Ok(
            PackageView {
                name: words[0],
                version: words[1],
                repository: match unwrapped(words[2]) {
                    Some(text) => source_of(text),
                    None => None,
                },
                bins,
            },
        )
    }
}

fn unwrap_source(s: &str) -> (r: Option<String>)
    ensures
        match r {
            Some(text) => unwrapped(s@) == Some(text@),
            None => unwrapped(s@) is None,
        },
{
    let n = byte_len(s);
    if n >= 1 {
        byte_slice(s, 1, n - 1)
    } else {
        None
    }
}

impl Package {
    /// Whether the key of an install record can be read.
    pub fn is_well_keyed(key: &str) -> (r: bool)
        ensures
            r == well_keyed(key@),
    {
        let words = split(key, ' ');
        if words.len() >= 3 {
            unwrap_source(words[2].as_str()).is_some()
        } else {
            true
        }
    }

    /// The package that an install record describes.
    pub fn try_from_config_install(key: String, bins: Vec<String>) -> (r: Result<Package, Error>)
        requires
            well_keyed(key@),
        ensures
            match r {
                Ok(package) => recorded(key@, views(bins@)) == Ok::<PackageView, Seq<char>>(
                    package@,
                ),
                Err(err) => recorded(key@, views(bins@)) == Err::<PackageView, Seq<char>>(err@),
            },
    {
        let words = split(key.as_str(), ' ');
        if words.len() < 2 {
            return Err(String::from_str("Failed to parse package version"));
        }
        if words.len() < 3 {
            return Err(no_repository());
        }
        let repository = match unwrap_source(words[2].as_str()) {
            Some(text) => repository_of(text.as_str()),
            None => None,
        };
        Ok(Package { name: words[0].clone(), version: words[1].clone(), repository, bins })
    }

    /// A package that the registry offers, as its search describes it: the
    /// name, the newest stable version and, if it can be read, the source.
    pub fn from(name: String, max_stable_version: String, repository: &str) -> (r: Package)
        ensures
            r@ == (PackageView {
                name: name@,
                version: max_stable_version@,
                repository: source_of(repository@),
                bins: Seq::empty(),
            }),
    {
        let r = Package {
            name,
            version: max_stable_version,
            repository: repository_of(repository),
            bins: Vec::new(),
        };
        assert(views(r.bins@) =~= Seq::<Seq<char>>::empty());
        r
    }
}

/// The place of a package in the index of the registry, for its name in
/// lower case: names of one or two bytes lie under their length; names of
/// three bytes under `3` and their first byte; all others under their first
/// two bytes and their next two. `None` where the name cannot be cut so.
pub open spec fn index_place(name: Seq<char>) -> Option<Seq<char>> {
    let n = utf8_len(name);
    if n == 1 {
        Some("1/"@ + name)
    } else if n == 2 {
        Some("2/"@ + name)
    } else if n == 3 {
        match byte_range(name, 0, 1) {
            Some(first) => Some("3/"@ + first + "/"@ + name),
            None => None,
        }
    } else {
        match (byte_range(name, 0, 2), byte_range(name, 2, 4)) {
            (Some(first), Some(second)) => Some(first + "/"@ + second + "/"@ + name),
            _ => None,
        }
    }
}

/// The place of a package in the index of the registry, for its name in
/// lower case.
pub fn index_place_of(name: &str) -> (r: Option<String>)
    ensures
        match r {
            Some(place) => index_place(name@) == Some(place@),
            None => index_place(name@) is None,
        },
{
    let n = byte_len(name);
    match n {
        1 => Some(join2("1/", name)),
        2 => Some(join2("2/", name)),
        3 => match byte_slice(name, 0, 1) {
            Some(first) => {
                let mut r = join2("3/", first.as_str());
                r.append("/");
                r.append(name);
                Some(r)
            },
            None => None,
        },
        _ => match byte_slice(name, 0, 2) {
            Some(first) => match byte_slice(name, 2, 4) {
                Some(second) => {
                    let mut r = join2(first.as_str(), "/");
                    r.append(second.as_str());
                    r.append("/");
                    r.append(name);
                    Some(r)
                },
                None => None,
            },
            None => None,
        },
    }
}

/// The place of a package in the index of the registry: that of its name in
/// lower case.
pub fn index_path(name: &str) -> (r: Option<String>)
    ensures
        match r {
            Some(place) => index_place(lowercase_of(name@)) == Some(place@),
            None => index_place(lowercase_of(name@)) is None,
        },
{
    let lowered = lowercase(name);
    index_place_of(lowered.as_str())
}

/// What formatting the version that `semver::Version::parse` reads from a
/// text gives: the version in its normal form. `None` where the text is no
/// version.
pub uninterp spec fn semver_text(text: Seq<char>) -> Option<Seq<char>>;

/// Whether the version that `semver::Version::parse` reads from a text has
/// no pre-release part. `None` where the text is no version.
pub uninterp spec fn semver_is_release(text: Seq<char>) -> Option<bool>;

/// Whether, of the versions that `semver::Version::parse` reads from two
/// texts, the first comes before the second in the order of
/// `semver::Version`. `None` where one of the texts is no version.
pub uninterp spec fn semver_less(a: Seq<char>, b: Seq<char>) -> Option<bool>;

/// Parses the text with `semver::Version::parse` and formats the version
/// with its `Display`; `None` where the parser refuses the text.
#[verifier::external_body]
fn version_text(text: &str) -> (r: Option<String>)
    ensures
        match r {
            Some(version) => semver_text(text@) == Some(version@),
            None => semver_text(text@) is None,
        },
{
    semver::Version::parse(text).ok().map(|version| version.to_string())
}

/// Parses the text with `semver::Version::parse` and asks the pre-release
/// part of the version whether it `is_empty`; `None` where the parser
/// refuses the text.
#[verifier::external_body]
fn is_release(text: &str) -> (r: Option<bool>)
    ensures
        r == semver_is_release(text@),
{
    semver::Version::parse(text).ok().map(|version| version.pre.is_empty())
}

/// Parses both texts with `semver::Version::parse` and compares the
/// versions with `<`; `None` where the parser refuses one of the texts.
#[verifier::external_body]
fn version_less(a: &str, b: &str) -> (r: Option<bool>)
    ensures
        r == semver_less(a@, b@),
{
    match (semver::Version::parse(a), semver::Version::parse(b)) {
        (Ok(a), Ok(b)) => Some(a < b),
        _ => None,
    }
}

/// A published version counts for a package at version `current`: it is a
/// version, and it is no pre-release unless `current` is one.
pub open spec fn eligible(current: Seq<char>, candidate: Seq<char>) -> bool {
    match semver_is_release(candidate) {
        Some(release) => semver_is_release(current) == Some(true) ==> release,
        None => false,
    }
}

/// The newest of some versions: going through them in order, a version
/// takes the place of the newest so far unless it comes before it.
pub open spec fn newest(candidates: Seq<Seq<char>>) -> Option<Seq<char>>
    decreases candidates.len(),
{
    if candidates.len() == 0 {
        None
    } else {
        match newest(candidates.drop_last()) {
            None => Some(candidates.last()),
            Some(best) => if semver_less(candidates.last(), best) == Some(true) {
                Some(best)
            } else {
                Some(candidates.last())
            },
        }
    }
}

/// The version on offer for a package at version `current`: the newest of the
/// published versions that count.
pub open spec fn on_offer(current: Seq<char>, published: Seq<Seq<char>>) -> Option<Seq<char>> {
    newest(published.filter(|candidate: Seq<char>| eligible(current, candidate)))
}

/// The version on offer for a package at version `current`, among the
/// versions that the index of the registry lists.
pub fn offer(current: &str, published: &Vec<String>) -> (r: Option<String>)
    ensures
        match r {
            Some(version) => on_offer(current@, views(published@)) == Some(version@),
            None => on_offer(current@, views(published@)) is None,
        },
{
    let only_releases = match is_release(current) {
        Some(true) => true,
        _ => false,
    };
    let ghost all = views(published@);
    let ghost counts = |candidate: Seq<char>| eligible(current@, candidate);
    let mut best: Option<String> = None;
    let mut i: usize = 0;
    proof {
        reveal(Seq::filter);
        assert(all.take(0) =~= Seq::<Seq<char>>::empty());
    }
    while i < published.len()
        invariant
            i <= published.len(),
            all == views(published@),
            counts == (|candidate: Seq<char>| eligible(current@, candidate)),
            only_releases == (semver_is_release(current@) == Some(true)),
            match best {
                Some(version) => newest(all.take(i as int).filter(counts)) == Some(version@),
                None => newest(all.take(i as int).filter(counts)) is None,
            },
        decreases published.len() - i,
    {
        let candidate = &published[i];
        proof {
            assert(all.take(i + 1) =~= all.take(i as int).push(all[i as int]));
            all.take(i as int).lemma_filter_push(all[i as int], counts);
            assert(all[i as int] == candidate@);
            let kept = all.take(i as int).filter(counts);
            assert(kept.push(candidate@).drop_last() =~= kept);
        }
        let counted = match is_release(candidate.as_str()) {
            Some(release) => !only_releases || release,
            None => false,
        };
        if counted {
            let older = match &best {
                Some(version) => match version_less(candidate.as_str(), version.as_str()) {
                    Some(true) => true,
                    _ => false,
                },
                None => false,
            };
            if !older {
                best = Some(candidate.clone());
            }
        }
        i += 1;
    }
    assert(all.take(i as int) =~= all);
    best
}

/// What is to be looked up to learn whether a package has an update.
#[derive(Clone, Copy, Debug, PartialEq, Eq, Structural)]
pub enum Lookup {
    /// Nothing: the package has no known source, or its version is none.
    Skip,
    /// The versions that the index of the registry lists for the package.
    Index,
    /// The newest commit of the repository of the package.
    Commit,
}

impl Package {
    /// What is to be looked up for this package.
    pub open spec fn spec_lookup(self) -> Lookup {
        match self.repository {
            None => Lookup::Skip,
            Some(repository) => if semver_text(self.version@) is None {
                Lookup::Skip
            } else {
                match repository {
                    PackageRepository::Registry { .. } => Lookup::Index,
                    PackageRepository::Git { .. } => Lookup::Commit,
                }
            },
        }
    }

    /// What is to be looked up to learn whether this package has an update.
    pub fn lookup(&self) -> (r: Lookup)
        ensures
            r == self.spec_lookup(),
    {
        match &self.repository {
            None => Lookup::Skip,
            Some(repository) => {
                if version_text(self.version.as_str()).is_none() {
                    return Lookup::Skip;
                }
                match repository {
                    PackageRepository::Registry { .. } => Lookup::Index,
                    PackageRepository::Git { .. } => Lookup::Commit,
                }
            },
        }
    }

    /// The version that an update from the index leads to, and whether it
    /// is an update at all. Without an answer of the index, or without a
    /// version that counts, the version stays and there is no update; else
    /// the version is the one on offer, in its normal form, and there is an
    /// update if the present version comes before it.
    pub open spec fn indexed(self, published: Option<Seq<Seq<char>>>) -> (Seq<char>, bool) {
        match published {
            None => (self.version@, false),
            Some(published) => match on_offer(self.version@, published) {
                None => (self.version@, false),
                Some(best) => (
                    match semver_text(best) {
                        Some(text) => text,
                        None => self.version@,
                    },
                    semver_less(self.version@, best) == Some(true),
                ),
            },
        }
    }

    /// The package after its versions were looked up in the index, and
    /// whether there is an update for it. `published` holds the versions
    /// that the index lists, or `None` where the index gave no answer.
    pub fn registry_update(self, published: Option<Vec<String>>) -> (r: (Package, bool))
        ensures
            r.0.name == self.name,
            r.0.repository == self.repository,
            r.0.bins == self.bins,
            (r.0.version@, r.1) == self.indexed(
                match published {
                    Some(published) => Some(views(published@)),
                    None => None,
                },
            ),
    {
        let published = match published {
            Some(published) => published,
            None => {
                return (self, false);
            },
        };
        match offer(self.version.as_str(), &published) {
            None => (self, false),
            Some(best) => {
                let newer = match version_less(self.version.as_str(), best.as_str()) {
                    Some(true) => true,
                    _ => false,
                };
                match version_text(best.as_str()) {
                    Some(version) => (
                        Package {
                            name: self.name,
                            version,
                            repository: self.repository,
                            bins: self.bins,
                        },
                        newer,
                    ),
                    None => (self, newer),
                }
            },
        }
    }

    /// Whether a package from a repository has an update: its commit is not
    /// the newest one. Without an answer of the repository there is none.
    pub open spec fn committed(self, latest: Option<Seq<char>>) -> bool {
        match (self.repository, latest) {
            (Some(PackageRepository::Git { commit, .. }), Some(latest)) => commit@ != latest,
            _ => false,
        }
    }

    /// The package after the newest commit of its repository was looked up,
    /// and whether there is an update for it. `latest` is that commit, or
    /// `None` where the repository gave no answer.
    pub fn git_update(self, latest: Option<&str>) -> (r: (Package, bool))
        ensures
            r.0 == self,
            r.1 == self.committed(
                match latest {
                    Some(latest) => Some(latest@),
                    None => None,
                },
            ),
    {
        let newer = match (&self.repository, latest) {
            (Some(PackageRepository::Git { commit, .. }), Some(latest)) => !same(
                commit.as_str(),
                latest,
            ),
            _ => false,
        };
        (self, newer)
    }

    fn copy(&self) -> (r: Package)
        ensures
            r@ == self@,
    {
        let mut bins: Vec<String> = Vec::new();
        let mut i: usize = 0;
        while i < self.bins.len()
            invariant
                i <= self.bins.len(),
                views(bins@) == views(self.bins@).take(i as int),
            decreases self.bins.len() - i,
        {
            let bin = self.bins[i].clone();
            proof {
                crate::text::lemma_views_push(bins@, bin);
                assert(views(self.bins@).take(i + 1) =~= views(self.bins@).take(i as int).push(
                    self.bins@[i as int]@,
                ));
            }
            bins.push(bin);
            i += 1;
        }
        assert(views(self.bins@).take(i as int) =~= views(self.bins@));
        Package {
            name: self.name.clone(),
            version: self.version.clone(),
            repository: match &self.repository {
                Some(repository) => Some(repository.copy()),
                None => None,
            },
            bins,
        }
    }
}

/// What an install record describes.
pub open spec fn record_of(record: (String, Vec<String>)) -> Result<PackageView, Seq<char>> {
    recorded(record.0@, views(record.1@))
}

/// The install record describes a package of this name.
pub open spec fn records_name(record: (String, Vec<String>), name: Seq<char>) -> bool {
    record_of(record) matches Ok(package) && package.name == name
}

/// The views of some packages.
pub open spec fn package_views(packages: Seq<Package>) -> Seq<PackageView> {
    packages.map_values(|package: Package| package@)
}

/// The backend, with the pending updates that it listed last and that no
/// update has used yet.
#[derive(Debug)]
pub struct Cargo {
    pub update_cache: Option<Vec<Package>>,
}

impl Cargo {
    pub fn new() -> (r: Self)
        ensures
            r.update_cache is None,
    {
        Cargo { update_cache: None }
    }

    /// The installed packages: those that the install records describe, in
    /// the order of the records. The first record that describes none makes
    /// the listing fail with its error.
    pub fn list(&self, records: Vec<(String, Vec<String>)>) -> (r: Result<Vec<Package>, Error>)
        requires
            forall|i: int| 0 <= i < records@.len() ==> well_keyed(#[trigger] records@[i].0@),
        ensures
            match r {
                Ok(packages) => packages@.len() == records@.len() && forall|i: int|
                    0 <= i < records@.len() ==> record_of(#[trigger] records@[i]) == Ok::<
                        PackageView,
                        Seq<char>,
                    >(packages@[i]@),
                Err(err) => exists|i: int|
                    0 <= i < records@.len() && record_of(#[trigger] records@[i]) == Err::<
                        PackageView,
                        Seq<char>,
                    >(err@) && forall|k: int| 0 <= k < i ==> record_of(#[trigger] records@[k]) is Ok,
            },
    {
        let mut packages: Vec<Package> = Vec::new();
        let ghost all = records@;
        let mut rest = records;
        let n = rest.len();
        let mut i: usize = 0;
        assert(all.skip(0) =~= all);
        while i < n
            invariant
                i <= n,
                n == all.len(),
                all == records@,
                rest@ == all.skip(i as int),
                packages@.len() == i,
                forall|k: int| 0 <= k < all.len() ==> well_keyed(#[trigger] all[k].0@),
                forall|k: int|
                    0 <= k < i ==> record_of(#[trigger] all[k]) == Ok::<PackageView, Seq<char>>(
                        packages@[k]@,
                    ),
            decreases n - i,
        {
            assert(rest@[0] == all[i as int]);
            let record = rest.remove(0);
            assert(rest@ =~= all.skip(i + 1));
            match Package::try_from_config_install(record.0, record.1) {
                Ok(package) => {
                    packages.push(package);
                },
                Err(err) => {
                    assert(record_of(all[i as int]) == Err::<PackageView, Seq<char>>(err@));
                    return Err(err);
                },
            }
            i += 1;
        }
        Ok(packages)
    }

    /// The installed package of a name: the first that an install record
    /// describes under exactly this name. Records that describe no package
    /// are passed over.
    pub fn find(&self, records: Vec<(String, Vec<String>)>, name: &str) -> (r: Option<Package>)
        requires
            forall|i: int| 0 <= i < records@.len() ==> well_keyed(#[trigger] records@[i].0@),
        ensures
            match first_of(records@, |record: (String, Vec<String>)| records_name(record, name@)) {
                Some(record) => r matches Some(package) && record_of(record) == Ok::<
                    PackageView,
                    Seq<char>,
                >(package@),
                None => r is None,
            },
    {
        let ghost all = records@;
        let ghost wanted = |record: (String, Vec<String>)| records_name(record, name@);
        let mut rest = records;
        let n = rest.len();
        let mut i: usize = 0;
        assert(all.skip(0) =~= all);
        while i < n
            invariant
                i <= n,
                n == all.len(),
                all == records@,
                rest@ == all.skip(i as int),
                wanted == (|record: (String, Vec<String>)| records_name(record, name@)),
                forall|k: int| 0 <= k < all.len() ==> well_keyed(#[trigger] all[k].0@),
                forall|k: int| 0 <= k < i ==> !wanted(#[trigger] all[k]),
            decreases n - i,
        {
            assert(rest@[0] == all[i as int]);
            let record = rest.remove(0);
            assert(rest@ =~= all.skip(i + 1));
            match Package::try_from_config_install(record.0, record.1) {
                Ok(package) => {
                    if same(package.name.as_str(), name) {
                        proof {
                            lemma_first_where(all, wanted, i as int);
                        }
                        return Some(package);
                    }
                },
                Err(_) => {},
            }
            i += 1;
        }
        proof {
            lemma_first_where(all, wanted, i as int);
        }
        None
    }

    /// The packages to offer for installation under a name: of the packages
    /// that the registry found, those that it marks as exact matches.
    pub fn search_install(&self, found: Vec<(Package, bool)>) -> (r: Vec<Package>)
        ensures
            r@ == marked(found@, true),
    {
        keep_marked(found, true)
    }

    /// The packages with a pending update: of the packages that were looked
    /// up, those for which an update was found. The listing is kept for the
    /// next update.
    pub fn list_updates(&mut self, checked: Vec<(Package, bool)>) -> (r: Vec<Package>)
        ensures
            r@ == marked(checked@, true),
            final(self).update_cache matches Some(kept) && package_views(kept@) == package_views(r@),
    {
        let packages = keep_marked(checked, true);
        let mut kept: Vec<Package> = Vec::new();
        let mut i: usize = 0;
        while i < packages.len()
            invariant
                i <= packages.len(),
                package_views(kept@) == package_views(packages@).take(i as int),
            decreases packages.len() - i,
        {
            let package = packages[i].copy();
            proof {
                assert(package_views(kept@.push(package)) =~= package_views(kept@).push(package@));
                assert(package_views(packages@).take(i + 1) =~= package_views(packages@).take(
                    i as int,
                ).push(packages@[i as int]@));
            }
            kept.push(package);
            i += 1;
        }
        assert(package_views(packages@).take(i as int) =~= package_views(packages@));
        self.update_cache = Some(kept);
        packages
    }

    /// The number of packages with a pending update.
    pub fn count_updates(&self, listed: Result<Vec<Package>, Error>) -> (r: Result<usize, Error>)
        ensures
            match listed {
                Ok(list) => r == Ok::<usize, Error>(list@.len() as usize),
                Err(err) => r == Err::<usize, Error>(err),
            },
    {
        crate::managers::count(listed)
    }

    /// Starts an update: hands out the listing that was kept, which is then
    /// no longer kept. `None` where none is kept: the updates have to be
    /// listed first.
    pub fn update(&mut self) -> (r: Option<Vec<Package>>)
        ensures
            r == old(self).update_cache,
            final(self).update_cache is None,
    {
        self.update_cache.take()
    }
}

} // verus!
