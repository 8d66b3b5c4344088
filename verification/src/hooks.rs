//! What has to happen before a package of the community repository is
//! installed or updated: its build recipe is fetched, and the user may want
//! to see it first. The steps are decided here; fetching, asking and
//! showing are left to the caller, who reports back how each went.

use crate::managers::aur;
use crate::text::join2;
use crate::utils::dirs::get_pkgbuild_path;
use vstd::prelude::*;

verus! {

/// What a question of a hook is about.
#[derive(Clone, Copy, Debug, PartialEq, Eq, Structural)]
pub enum Question {
    /// Whether to see the recipe.
    Show,
    /// Whether to install the package.
    Install,
}

/// What the caller of a hook does next.
#[derive(Clone, Debug)]
pub enum Hook {
    /// The hook is over: go on with the command.
    Proceed,
    /// Fetch and extract the recipes of these packages, one after the other,
    /// and stop at the first that fails.
    Download { names: Vec<String> },
    /// Ask the user a yes-or-no question.
    Ask { question: Question, prompt: String, default: bool },
    /// Run a program on a recipe, given as a path below the cache directory
    /// of the program, and wait for it to end.
    Show { program: String, path: String },
    /// End the process with this code.
    Exit { code: i32 },
}

/// What the caller of a hook does next, as plain text.
pub enum HookView {
    Proceed,
    Download { names: Seq<Seq<char>> },
    Ask { question: Question, prompt: Seq<char>, default: bool },
    Show { program: Seq<char>, path: Seq<char> },
    Exit { code: int },
}

impl View for Hook {
    type V = HookView;

    open spec fn view(&self) -> HookView {
        match self {
            Hook::Proceed => HookView::Proceed,
            Hook::Download { names } => HookView::Download { names: crate::text::views(names@) },
            Hook::Ask { question, prompt, default } => HookView::Ask {
                question: *question,
                prompt: prompt@,
                default: *default,
            },
            Hook::Show { program, path } => HookView::Show { program: program@, path: path@ },
            Hook::Exit { code } => HookView::Exit { code: *code as int },
        }
    }
}

/// One step of a hook: what is written to standard error now, and what the
/// caller does next.
pub struct Step {
    pub complaint: String,
    pub next: Hook,
}

/// How the last thing that a hook asked for went. Failures carry their
/// message.
#[derive(Debug)]
pub enum Reply {
    /// Nothing was asked for yet.
    Start,
    /// The recipes were fetched, or not.
    Downloaded(Result<(), String>),
    /// The user answered a question, or could not be asked.
    Answered(Question, Result<bool, String>),
    /// The program that shows the recipe ended, or could not be run.
    Shown(Result<(), String>),
}

/// The path of the recipe of a package below the cache directory.
pub open spec fn recipe(name: Seq<char>) -> Seq<char> {
    "aur/"@ + name + "/PKGBUILD"@
}

/// The program that shows a recipe before an installation: the editor of
/// the user, or `less` where none is set.
pub open spec fn viewer(editor: Option<&str>) -> Seq<char> {
    match editor {
        Some(editor) => editor@,
        None => "less"@,
    }
}

/// The steps before the installation of a package of the community
/// repository. The recipe is fetched first; a failure ends the process with
/// code 1. Then the user is asked whether to see the recipe (by default,
/// no). After a no the installation goes on. After a yes the recipe is
/// opened in `editor`, or in `less` without one, and the user is asked
/// whether to install (by default, yes): a no ends the process with code 0.
/// A question that cannot be asked ends the process with code 1; a recipe
/// that cannot be opened is complained about, and the question follows all
/// the same.
pub open spec fn spec_aur_pre_install(name: Seq<char>, editor: Option<&str>, reply: Reply) -> (
    Seq<char>,
    HookView,
) {
    match reply {
        Reply::Start => (Seq::empty(), HookView::Download { names: seq![name] }),
        Reply::Downloaded(Err(err)) => (
            "Failed to download and extract package "@ + name + ": "@ + err@ + "\n"@,
            HookView::Exit { code: 1 },
        ),
        Reply::Downloaded(Ok(_)) => (
            Seq::empty(),
            HookView::Ask {
                question: Question::Show,
                prompt: "Do you want to show/edit the PKGBUILD for "@ + name + "?"@,
                default: false,
            },
        ),
        Reply::Answered(Question::Show, Err(err)) => (
            "Failed to read input: "@ + err@ + "\n"@,
            HookView::Exit { code: 1 },
        ),
        Reply::Answered(Question::Show, Ok(false)) => (Seq::empty(), HookView::Proceed),
        Reply::Answered(Question::Show, Ok(true)) => (
            Seq::empty(),
            HookView::Show { program: viewer(editor), path: recipe(name) },
        ),
        Reply::Shown(shown) => (
            match shown {
                Ok(_) => Seq::empty(),
                Err(err) => "Failed to open PKGBUILD: "@ + err@ + "\n"@,
            },
            HookView::Ask {
                question: Question::Install,
                prompt: "Do you want to install "@ + name + "?"@,
                default: true,
            },
        ),
        Reply::Answered(Question::Install, Err(err)) => (
            "Failed to read input: "@ + err@ + "\n"@,
            HookView::Exit { code: 1 },
        ),
        Reply::Answered(Question::Install, Ok(false)) => (Seq::empty(), HookView::Exit { code: 0 }),
        Reply::Answered(Question::Install, Ok(true)) => (Seq::empty(), HookView::Proceed),
    }
}

fn quiet(next: Hook) -> (r: Step)
    ensures
        r.complaint@ == Seq::<char>::empty(),
        r.next == next,
{
    Step { complaint: String::new(), next }
}

fn complaint(before: &str, detail: &str) -> (r: String)
    ensures
        r@ == before@ + detail@ + "\n"@,
{
    let mut r = join2(before, detail);
    r.append("\n");
    r
}

fn question(before: &str, name: &str) -> (r: String)
    ensures
        r@ == before@ + name@ + "?"@,
{
    let mut r = join2(before, name);
    r.append("?");
    r
}

/// One step of the hook before the installation of a package of the
/// community repository. `editor` is the editor that the user has set, if
/// any; `reply` tells how the step before went.
pub fn aur_pre_install(package: &aur::Package, editor: Option<&str>, reply: Reply) -> (r: Step)
    ensures
        (r.complaint@, r.next@) == spec_aur_pre_install(package.name@, editor, reply),
{
    let name = package.name.as_str();
    match reply {
        Reply::Start => {
            let mut names: Vec<String> = Vec::new();
            names.push(package.name.clone());
            assert(crate::text::views(names@) =~= seq![package.name@]);
            quiet(Hook::Download { names })
        },
        Reply::Downloaded(Err(err)) => {
            let mut text = join2("Failed to download and extract package ", name);
            text.append(": ");
            text.append(err.as_str());
            text.append("\n");
            Step { complaint: text, next: Hook::Exit { code: 1 } }
        },
        Reply::Downloaded(Ok(_)) => quiet(
            Hook::Ask {
                question: Question::Show,
                prompt: question("Do you want to show/edit the PKGBUILD for ", name),
                default: false,
            },
        ),
        Reply::Answered(Question::Show, Err(err)) => Step {
            complaint: complaint("Failed to read input: ", err.as_str()),
            next: Hook::Exit { code: 1 },
        },
        Reply::Answered(Question::Show, Ok(false)) => quiet(Hook::Proceed),
        Reply::Answered(Question::Show, Ok(true)) => {
            let program = match editor {
                Some(editor) => String::from_str(editor),
                None => String::from_str("less"),
            };
            quiet(Hook::Show { program, path: get_pkgbuild_path(name) })
        },
        Reply::Shown(shown) => Step {
            complaint: match shown {
                Ok(_) => String::new(),
                Err(err) => complaint("Failed to open PKGBUILD: ", err.as_str()),
            },
            next: Hook::Ask {
                question: Question::Install,
                prompt: question("Do you want to install ", name),
                default: true,
            },
        },
        Reply::Answered(Question::Install, Err(err)) => Step {
            complaint: complaint("Failed to read input: ", err.as_str()),
            next: Hook::Exit { code: 1 },
        },
        Reply::Answered(Question::Install, Ok(false)) => quiet(Hook::Exit { code: 0 }),
        Reply::Answered(Question::Install, Ok(true)) => quiet(Hook::Proceed),
    }
}

/// The names of some packages.
pub open spec fn names_of(packages: Seq<aur::Package>) -> Seq<Seq<char>> {
    packages.map_values(|package: aur::Package| package.name@)
}

/// The question whether to see the recipe of the package at `at`, or the
/// end of the hook where there is no such package.
pub open spec fn ask_or_proceed(packages: Seq<aur::Package>, at: int) -> HookView {
    if 0 <= at < packages.len() {
        HookView::Ask {
            question: Question::Show,
            prompt: "Do you want to show the PKGBUILD for "@ + packages[at].name@ + "?"@,
            default: false,
        }
    } else {
        HookView::Proceed
    }
}

/// The steps before the update of packages of the community repository.
/// Without packages there is nothing to do. Else the recipes of all of them
/// are fetched first; a failure ends the process with code 1. Then, package
/// by package, the user is asked whether to see the recipe (by default,
/// no), and after a yes it is shown in `less`. `at` is the package that the
/// reply is about. A question that cannot be asked ends the process with
/// code 1; a recipe that cannot be shown is complained about, and the next
/// package follows all the same.
pub open spec fn spec_aur_pre_update(packages: Seq<aur::Package>, at: int, reply: Reply) -> (
    Seq<char>,
    HookView,
) {
    if packages.len() == 0 {
        (Seq::empty(), HookView::Proceed)
    } else {
        match reply {
            Reply::Start => (Seq::empty(), HookView::Download { names: names_of(packages) }),
            Reply::Downloaded(Err(err)) => (
                "Failed to download and extract package: "@ + err@ + "\n"@,
                HookView::Exit { code: 1 },
            ),
            Reply::Downloaded(Ok(_)) => (Seq::empty(), ask_or_proceed(packages, 0)),
            Reply::Answered(Question::Show, Err(_)) => ("Failed to read input\n"@, HookView::Exit { code: 1 }),
            Reply::Answered(Question::Show, Ok(false)) => (Seq::empty(), ask_or_proceed(packages, at + 1)),
            Reply::Answered(Question::Show, Ok(true)) => (
                Seq::empty(),
                HookView::Show { program: "less"@, path: recipe(packages[at].name@) },
            ),
            Reply::Shown(shown) => (
                match shown {
                    Ok(_) => Seq::empty(),
                    Err(err) => "Failed to show PKGBUILD: "@ + err@ + "\n"@,
                },
                ask_or_proceed(packages, at + 1),
            ),
            Reply::Answered(Question::Install, _) => (Seq::empty(), HookView::Proceed),
        }
    }
}

fn ask_to_show(packages: &Vec<aur::Package>, at: usize) -> (r: Hook)
    ensures
        r@ == ask_or_proceed(packages@, at as int),
{
    if at < packages.len() {
        Hook::Ask {
            question: Question::Show,
            prompt: question("Do you want to show the PKGBUILD for ", packages[at].name.as_str()),
            default: false,
        }
    } else {
        Hook::Proceed
    }
}

/// One step of the hook before the update of packages of the community
/// repository. `reply` tells how the step before went, and `at` which
/// package it was about.
pub fn aur_pre_update(packages: &Vec<aur::Package>, at: usize, reply: Reply) -> (r: Step)
    requires
        at < packages@.len() || packages@.len() == 0,
    ensures
        (r.complaint@, r.next@) == spec_aur_pre_update(packages@, at as int, reply),
{
    if packages.len() == 0 {
        return quiet(Hook::Proceed);
    }
    match reply {
        Reply::Start => {
            let mut names: Vec<String> = Vec::new();
            let mut i: usize = 0;
            while i < packages.len()
                invariant
                    i <= packages.len(),
                    crate::text::views(names@) == names_of(packages@).take(i as int),
                decreases packages.len() - i,
            {
                let name = packages[i].name.clone();
                proof {
                    crate::text::lemma_views_push(names@, name);
                    assert(names_of(packages@).take(i + 1) =~= names_of(packages@).take(
                        i as int,
                    ).push(packages@[i as int].name@));
                }
                names.push(name);
                i += 1;
            }
            assert(names_of(packages@).take(i as int) =~= names_of(packages@));
            quiet(Hook::Download { names })
        },
        Reply::Downloaded(Err(err)) => Step {
            complaint: complaint("Failed to download and extract package: ", err.as_str()),
            next: Hook::Exit { code: 1 },
        },
        Reply::Downloaded(Ok(_)) => quiet(ask_to_show(packages, 0)),
        Reply::Answered(Question::Show, Err(_)) => Step {
            complaint: String::from_str("Failed to read input\n"),
            next: Hook::Exit { code: 1 },
        },
        Reply::Answered(Question::Show, Ok(false)) => quiet(ask_to_show(packages, at + 1)),
        Reply::Answered(Question::Show, Ok(true)) => quiet(
            Hook::Show {
                program: String::from_str("less"),
                path: get_pkgbuild_path(packages[at].name.as_str()),
            },
        ),
        Reply::Shown(shown) => Step {
            complaint: match shown {
                Ok(_) => String::new(),
                Err(err) => complaint("Failed to show PKGBUILD: ", err.as_str()),
            },
            next: ask_to_show(packages, at + 1),
        },
        Reply::Answered(Question::Install, _) => quiet(Hook::Proceed),
    }
}

} // verus!
