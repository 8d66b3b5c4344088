//! The backends: what each of them offers, and the parts of their work that
//! are plain computation on what their tools print.

pub mod aur;
pub mod cargo;
pub mod flatpak;
pub mod pacman;
pub mod snap;

use crate::text::{contains, has, views};
use vstd::prelude::*;

verus! {

/// The operations that every backend offers. An operation may take as long
/// as the backend needs; its error is the backend's own.
pub trait Manager {
    type Package;

    type Error;

    /// All installed packages that this backend owns.
    fn list(&self) -> Result<Vec<Self::Package>, Self::Error>;

    /// The installed package of exactly this name; that there is none is no
    /// error.
    fn find(&self, name: &str) -> Result<Option<Self::Package>, Self::Error>;

    /// The packages of the catalogue that match a query.
    fn search(&self, query: &str) -> Result<Vec<Self::Package>, Self::Error>;

    /// The packages to offer for installation under a name.
    fn search_install(&self, query: &str) -> Result<Vec<Self::Package>, Self::Error>;

    fn install(&self, package: &Self::Package) -> Result<(), Self::Error>;

    fn uninstall(&self, package: &Self::Package) -> Result<(), Self::Error>;

    /// The installed packages for which a newer version is on offer.
    fn list_updates(&self) -> Result<Vec<Self::Package>, Self::Error>;

    /// The number of installed packages for which a newer version is on
    /// offer: unless a backend knows better, the length of their list.
    fn count_updates(&self) -> Result<usize, Self::Error> {
        count(self.list_updates())
    }

    /// Installs every pending update.
    fn update(&self) -> Result<(), Self::Error>;
}

/// The number of the listed packages, or the error of the listing.
pub fn count<T, E>(listed: Result<Vec<T>, E>) -> (r: Result<usize, E>)
    ensures
        match listed {
            Ok(list) => r == Ok::<usize, E>(list@.len() as usize),
            Err(err) => r == Err::<usize, E>(err),
        },
{
    match listed {
        Ok(list) => Ok(list.len()),
        Err(err) => Err(err),
    }
}

/// Position of the first element of the list that is wanted, or the length
/// of the list where none is.
pub open spec fn first_where<T>(list: Seq<T>, wanted: spec_fn(T) -> bool) -> int
    decreases list.len(),
{
    if list.len() == 0 {
        0
    } else if wanted(list[0]) {
        0
    } else {
        1 + first_where(list.drop_first(), wanted)
    }
}

/// The first wanted element stands at `at`, or, where `at` is the length of
/// the list, nowhere.
pub proof fn lemma_first_where<T>(list: Seq<T>, wanted: spec_fn(T) -> bool, at: int)
    requires
        0 <= at <= list.len(),
        forall|k: int| 0 <= k < at ==> !wanted(#[trigger] list[k]),
        at < list.len() ==> wanted(list[at]),
    ensures
        first_where(list, wanted) == at,
    decreases list.len(),
{
    if list.len() > 0 && at > 0 {
        let rest = list.drop_first();
        assert(!wanted(list[0]));
        assert forall|k: int| 0 <= k < at - 1 implies !wanted(#[trigger] rest[k]) by {
            assert(rest[k] == list[k + 1]);
        }
        lemma_first_where(rest, wanted, at - 1);
    }
}

/// The first wanted element of a list, if there is one.
pub open spec fn first_of<T>(list: Seq<T>, wanted: spec_fn(T) -> bool) -> Option<T> {
    if first_where(list, wanted) < list.len() {
        Some(list[first_where(list, wanted)])
    } else {
        None
    }
}

/// Of some things that are each marked yes or no, those whose mark is
/// `wanted`, in their order.
pub open spec fn marked<T>(pairs: Seq<(T, bool)>, wanted: bool) -> Seq<T> {
    pairs.filter(has_mark(wanted)).map_values(|pair: (T, bool)| pair.0)
}

/// The test whether the mark of a thing is `wanted`.
pub open spec fn has_mark<T>(wanted: bool) -> spec_fn((T, bool)) -> bool {
    |pair: (T, bool)| pair.1 == wanted
}

/// Of some things that are each marked yes or no, those whose mark is
/// `wanted`, in their order.
pub fn keep_marked<T>(pairs: Vec<(T, bool)>, wanted: bool) -> (r: Vec<T>)
    ensures
        r@ == marked(pairs@, wanted),
{
    let mut kept: Vec<T> = Vec::new();
    let ghost all = pairs@;
    let ghost is_marked = has_mark::<T>(wanted);
    let ghost first = |pair: (T, bool)| pair.0;
    let mut rest = pairs;
    let n = rest.len();
    let mut i: usize = 0;
    proof {
        reveal(Seq::filter);
        assert(all.take(0) =~= Seq::<(T, bool)>::empty());
        assert(all.skip(0) =~= all);
        assert(kept@ =~= all.take(0).filter(is_marked).map_values(first));
    }
    while i < n
        invariant
            i <= n,
            n == all.len(),
            rest@ == all.skip(i as int),
            is_marked == has_mark::<T>(wanted),
            first == (|pair: (T, bool)| pair.0),
            kept@ == all.take(i as int).filter(is_marked).map_values(first),
        decreases n - i,
    {
        proof {
            assert(all.take(i + 1) =~= all.take(i as int).push(all[i as int]));
            all.take(i as int).lemma_filter_push(all[i as int], is_marked);
            assert(rest@[0] == all[i as int]);
        }
        let pair = rest.remove(0);
        assert(rest@ =~= all.skip(i + 1));
        if pair.1 == wanted {
            proof {
                let before = all.take(i as int).filter(is_marked);
                assert(before.push(all[i as int]).map_values(first) =~= before.map_values(
                    first,
                ).push(all[i as int].0));
            }
            kept.push(pair.0);
        }
        i += 1;
    }
    assert(all.take(i as int) =~= all);
    kept
}

/// Of some things that may be missing, those that are there, in their
/// order.
pub open spec fn present<T>(list: Seq<Option<T>>) -> Seq<T> {
    list.filter(|item: Option<T>| item is Some).map_values(|item: Option<T>| item->0)
}

/// Of some things that may be missing, those that are there, in their
/// order.
pub fn keep_present<T>(list: Vec<Option<T>>) -> (r: Vec<T>)
    ensures
        r@ == present(list@),
{
    let mut kept: Vec<T> = Vec::new();
    let ghost all = list@;
    let ghost is_there = |item: Option<T>| item is Some;
    let ghost inner = |item: Option<T>| item->0;
    let mut rest = list;
    let n = rest.len();
    let mut i: usize = 0;
    proof {
        reveal(Seq::filter);
        assert(all.take(0) =~= Seq::<Option<T>>::empty());
        assert(all.skip(0) =~= all);
        assert(kept@ =~= all.take(0).filter(is_there).map_values(inner));
    }
    while i < n
        invariant
            i <= n,
            n == all.len(),
            rest@ == all.skip(i as int),
            is_there == (|item: Option<T>| item is Some),
            inner == (|item: Option<T>| item->0),
            kept@ == all.take(i as int).filter(is_there).map_values(inner),
        decreases n - i,
    {
        proof {
            assert(all.take(i + 1) =~= all.take(i as int).push(all[i as int]));
            all.take(i as int).lemma_filter_push(all[i as int], is_there);
            assert(rest@[0] == all[i as int]);
        }
        let item = rest.remove(0);
        assert(rest@ =~= all.skip(i + 1));
        match item {
            Some(item) => {
                proof {
                    let before = all.take(i as int).filter(is_there);
                    assert(before.push(all[i as int]).map_values(inner) =~= before.map_values(
                        inner,
                    ).push(item));
                }
                kept.push(item);
            },
            None => {},
        }
        i += 1;
    }
    assert(all.take(i as int) =~= all);
    kept
}

/// The element at `at`, taken out of its vector.
pub fn take<T>(list: Vec<T>, at: usize) -> (r: T)
    requires
        at < list@.len(),
    ensures
        r == list@[at as int],
{
    let mut list = list;
    list.swap_remove(at)
}

/// How far a job has come, in percent: `done` of `total` steps, rounded
/// down.
pub open spec fn percentage(done: nat, total: nat) -> nat {
    (done * 100) / total
}

/// Progress never goes back, and stays within a hundred percent: a job that
/// has done more steps of the same total is no less far.
pub proof fn lemma_percentage_is_monotonic(earlier: nat, later: nat, total: nat)
    requires
        earlier <= later <= total,
        total > 0,
    ensures
        percentage(earlier, total) <= percentage(later, total) <= 100,
        percentage(total, total) == 100,
{
    assert(earlier * 100 <= later * 100 <= total * 100) by (nonlinear_arith)
        requires
            earlier <= later <= total,
    ;
    assert((earlier * 100) / total <= (later * 100) / total) by (nonlinear_arith)
        requires
            earlier * 100 <= later * 100,
            total > 0,
    ;
    assert((later * 100) / total <= 100) by (nonlinear_arith)
        requires
            later * 100 <= total * 100,
            total > 0,
    ;
    assert((total * 100) / total == 100) by (nonlinear_arith)
        requires
            total > 0,
    ;
}

/// How far a job has come, in percent.
pub fn percent(done: usize, total: usize) -> (r: u8)
    requires
        done <= total,
        total > 0,
    ensures
        r == percentage(done as nat, total as nat),
        r <= 100,
        done == total ==> r == 100,
{
    let scaled: u128 = (done as u128) * 100;
    let r: u128 = scaled / (total as u128);
    proof {
        assert(done * 100 <= total * 100) by (nonlinear_arith)
            requires
                done <= total,
        ;
        assert((done * 100) / (total as int) <= 100) by (nonlinear_arith)
            requires
                done * 100 <= total * 100,
                total > 0,
        ;
        if done == total {
            assert((total * 100) / (total as int) == 100) by (nonlinear_arith)
                requires
                    total > 0,
            ;
        }
    }
    r as u8
}

/// A package that is read from one line of what a tool prints.
pub trait Row: Sized {
    /// The line holds a package.
    spec fn readable(line: Seq<char>) -> bool;

    /// `row` is the package that the line holds.
    spec fn reads(line: Seq<char>, row: Self) -> bool;

    /// The package that a line holds, or `None` where it holds none.
    fn read(line: &str) -> (r: Option<Self>)
        ensures
            match r {
                Some(row) => Self::readable(line@) && Self::reads(line@, row),
                None => !Self::readable(line@),
            },
    ;
}

/// `rows` are the packages of `lines`, line by line.
pub open spec fn reads_all<T: Row>(lines: Seq<Seq<char>>, rows: Seq<T>) -> bool {
    &&& rows.len() == lines.len()
    &&& forall|i: int|
        0 <= i < lines.len() ==> T::readable(#[trigger] lines[i]) && T::reads(lines[i], rows[i])
}

/// The packages of the lines, line by line; `None` as soon as one line holds
/// no package.
pub fn read_rows<T: Row>(lines: &Vec<String>) -> (r: Option<Vec<T>>)
    ensures
        match r {
            Some(rows) => reads_all(views(lines@), rows@),
            None => exists|i: int|
                0 <= i < lines@.len() && !T::readable(#[trigger] views(lines@)[i]),
        },
{
    let mut rows: Vec<T> = Vec::new();
    let mut i: usize = 0;
    while i < lines.len()
        invariant
            i <= lines.len(),
            rows@.len() == i,
            forall|k: int|
                0 <= k < i ==> T::readable(#[trigger] views(lines@)[k]) && T::reads(
                    views(lines@)[k],
                    rows@[k],
                ),
        decreases lines.len() - i,
    {
        match T::read(lines[i].as_str()) {
            Some(row) => {
                rows.push(row);
            },
            None => {
                assert(!T::readable(views(lines@)[i as int]));
                return None;
            },
        }
        i += 1;
    }
    Some(rows)
}

/// The lines after the first.
pub open spec fn after_header(lines: Seq<Seq<char>>) -> Seq<Seq<char>> {
    if lines.len() == 0 {
        lines
    } else {
        lines.skip(1)
    }
}

/// The lines after the first.
pub fn skip_header(lines: Vec<String>) -> (r: Vec<String>)
    ensures
        views(r@) == after_header(views(lines@)),
{
    let mut lines = lines;
    if lines.len() > 0 {
        let ghost before = lines@;
        lines.remove(0);
        assert(views(lines@) =~= views(before).skip(1));
    }
    lines
}

/// The lines that hold `pattern`.
pub open spec fn holding(lines: Seq<Seq<char>>, pattern: Seq<char>) -> Seq<Seq<char>> {
    lines.filter(|line: Seq<char>| contains(line, pattern))
}

/// The lines that hold `pattern`, in their order.
pub fn keep_holding(lines: Vec<String>, pattern: &str) -> (r: Vec<String>)
    ensures
        views(r@) == holding(views(lines@), pattern@),
{
    let mut out: Vec<String> = Vec::new();
    let ghost all = views(lines@);
    let ghost keep = |line: Seq<char>| contains(line, pattern@);
    let mut i: usize = 0;
    proof {
        assert(all.take(0) =~= Seq::<Seq<char>>::empty());
        reveal(Seq::filter);
        assert(views(out@) =~= all.take(0).filter(keep));
    }
    while i < lines.len()
        invariant
            i <= lines.len(),
            all == views(lines@),
            keep == (|line: Seq<char>| contains(line, pattern@)),
            views(out@) == all.take(i as int).filter(keep),
        decreases lines.len() - i,
    {
        proof {
            assert(all.take(i + 1) =~= all.take(i as int).push(all[i as int]));
            all.take(i as int).lemma_filter_push(all[i as int], keep);
        }
        if has(lines[i].as_str(), pattern) {
            let line = lines[i].clone();
            proof {
                crate::text::lemma_views_push(out@, line);
            }
            out.push(line);
        }
        i += 1;
    }
    assert(all.take(i as int) =~= all);
    out
}

} // verus!
