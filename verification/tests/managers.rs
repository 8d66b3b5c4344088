use unipac::managers::cargo::{Lookup, PackageRepository};
use unipac::managers::flatpak::Flatpak;
use unipac::managers::snap::Snap;
use unipac::managers::{aur, cargo, flatpak, pacman, percent, snap};

fn owned(parts: &[&str]) -> Vec<String> {
    parts.iter().map(|part| part.to_string()).collect()
}

#[test]
fn percentages() {
    assert_eq!(percent(0, 3), 0);
    assert_eq!(percent(1, 3), 33);
    assert_eq!(percent(2, 3), 66);
    assert_eq!(percent(3, 3), 100);
    assert_eq!(percent(1, 1), 100);
    assert_eq!(percent(usize::MAX, usize::MAX), 100);
    assert_eq!(percent(usize::MAX / 2, usize::MAX), 49);
    assert_eq!(unipac::managers::count::<u8, ()>(Ok(vec![1, 2, 3])), Ok(3));
    assert_eq!(unipac::managers::count::<u8, &str>(Err("no")), Err("no"));
}

#[test]
fn error_messages() {
    assert_eq!(pacman::Error::Alpm(None).to_string(), "Alpm: Unknown error");
    assert_eq!(pacman::Error::Alpm(Some("db locked".into())).to_string(), "Alpm: db locked");
    assert_eq!(pacman::Error::Fs("denied".into()).to_string(), "File system: denied");
    assert_eq!(aur::Error::Alpm(None).to_string(), "Alpm: Unknown error");
    assert_eq!(aur::Error::Raur(Some("404".into())).to_string(), "Raur: 404");
    assert_eq!(aur::Error::Raur(None).to_string(), "Raur: Unknown error");
    assert_eq!(aur::Error::Fs(Some("full".into())).to_string(), "Fs: full");
    assert_eq!(aur::Error::Fs(None).to_string(), "Fs: Unknown error");
    assert_eq!(
        aur::Error::Command("makepkg".into(), Some("not found".into())).to_string(),
        "Command \"makepkg\": not found"
    );
    assert_eq!(aur::Error::Command("makepkg".into(), None).to_string(), "Command \"makepkg\": Unknown error");
    assert_eq!(flatpak::Error::Format.to_string(), "Format error");
    assert_eq!(flatpak::Error::Command.to_string(), "Command error");
    assert_eq!(snap::Error::Format.to_string(), "Format error");
    assert_eq!(snap::Error::Command.to_string(), "Command error");
}

const SNAP_LIST: &str = "Name     Version   Rev    Tracking  Publisher   Notes\n\
core20   20230801  2015   latest/stable  canonical** base\n\
hello-world  6.4  29  latest/stable  canonical**  -\n";

#[test]
fn snap_reads_lines_by_columns() {
    let package = snap::Package::from_str("core20   20230801  2015   latest/stable  canonical").unwrap();
    assert_eq!(package.name, "core20");
    assert_eq!(package.version, "20230801");
    assert_eq!(package.description, "latest/stable");
    assert_eq!(package.publisher, "");
    assert_eq!(snap::Package::from_str("only  three  columns").unwrap_err(), snap::Error::Format);
    assert_eq!(snap::Package::from_str("single blanks do not split").unwrap_err(), snap::Error::Format);
    assert_eq!(snap::Package::from_str("").unwrap_err(), snap::Error::Format);
    let package = snap::Package::from_parts(&owned(&["a", "b", "c", "d", "e"])).unwrap();
    assert_eq!((package.name.as_str(), package.version.as_str(), package.description.as_str()), ("a", "b", "d"));
    assert_eq!(snap::Package::from_parts(&owned(&["a", "b", "c"])).unwrap_err(), snap::Error::Format);
    assert_eq!(snap::get_next(&owned(&["a"]), 0), Ok("a".to_string()));
    assert_eq!(snap::get_next(&owned(&["a"]), 1), Err(snap::Error::Format));
}

#[test]
fn snap_lists_searches_and_finds() {
    let snap = Snap::new();
    let listed = snap.list(Some(SNAP_LIST)).unwrap();
    assert_eq!(listed.len(), 2);
    assert_eq!(listed[0].name, "core20");
    assert_eq!(listed[1].name, "hello-world");
    assert_eq!(listed[1].version, "6.4");
    assert_eq!(listed[1].description, "latest/stable");
    assert_eq!(snap.list(None).unwrap_err(), snap::Error::Command);
    assert_eq!(snap.list(Some("")).unwrap().len(), 0);
    assert_eq!(snap.list(Some("Name  Version\n")).unwrap().len(), 0);
    assert_eq!(snap.list(Some("Name  Version\nbroken line\n")).unwrap_err(), snap::Error::Format);

    let output = "Name  Version  Publisher  Notes  Summary\n\
hello  2.10  canonical  -  GNU Hello\n\
Provide a search term for more specific results.\n\
Hello  1.0  someone  -  other\n";
    let found = snap.search(Some(output)).unwrap();
    assert_eq!(found.len(), 2);
    assert_eq!(snap.search(None).unwrap_err(), snap::Error::Command);
    assert_eq!(snap.search(Some("h\na  b\n")).unwrap_err(), snap::Error::Format);
    assert_eq!(snap.list_updates(Some(output)).unwrap().len(), 2);
    assert_eq!(snap.list_updates(Some("All snaps up to date.\n")).unwrap().len(), 0);
    assert_eq!(snap.count_updates(snap.list_updates(Some(output))), Ok(2));
    assert_eq!(snap.count_updates(Err(snap::Error::Command)), Err(snap::Error::Command));

    let first = snap.find(snap.search(Some(output)), "HELLO").unwrap().unwrap();
    assert_eq!((first.name.as_str(), first.version.as_str()), ("hello", "2.10"));
    let second = snap.find(snap.search(Some(output)), "Hello").unwrap().unwrap();
    assert_eq!(second.name, "hello");
    assert!(snap.find(snap.search(Some(output)), "hell").unwrap().is_none());
    assert_eq!(snap.find(Err(snap::Error::Format), "x").unwrap_err(), snap::Error::Format);

    let offered = snap.search_install(snap.search(Some(output)), "Hello").unwrap();
    assert_eq!(offered.len(), 1);
    assert_eq!(offered[0].version, "1.0");
    assert!(snap.search_install(snap.search(Some(output)), "HELLO").unwrap().is_empty());
    assert_eq!(snap.search_install(Err(snap::Error::Command), "x").unwrap_err(), snap::Error::Command);
}

const FLATPAK_LIST: &str = "GIMP\torg.gimp.GIMP\t2.10.36\tstable\tsystem\n\
Looking for updates...\n\
Firefox\torg.mozilla.firefox\t120.0\tstable\tuser\n";

#[test]
fn flatpak_reads_lines_by_tabs() {
    let package = flatpak::Package::from_str("GIMP\torg.gimp.GIMP\t2.10\tstable\tImage editor\textra").unwrap();
    assert_eq!(package.name, "GIMP");
    assert_eq!(package.id, "org.gimp.GIMP");
    assert_eq!(package.version, "2.10");
    assert_eq!(package.branch, "stable");
    assert_eq!(package.description, "Image editor");
    assert_eq!(flatpak::Package::from_str("a\tb\tc\td").unwrap_err(), flatpak::Error::Format);
    let empty = flatpak::Package::from_str("\t\t\t\t").unwrap();
    assert_eq!(empty.name, "");
    assert_eq!(flatpak::get_next(&owned(&["a", "b"]), 1), Ok("b".to_string()));
    assert_eq!(flatpak::get_next(&owned(&["a", "b"]), 2), Err(flatpak::Error::Format));
}

#[test]
fn flatpak_lists_finds_and_offers() {
    let flatpak = Flatpak::new();
    let listed = flatpak.list(Some(FLATPAK_LIST)).unwrap();
    assert_eq!(listed.len(), 2);
    assert_eq!(listed[1].id, "org.mozilla.firefox");
    assert_eq!(flatpak.list(None).unwrap_err(), flatpak::Error::Command);
    assert_eq!(flatpak.list(Some("a\tb\n")).unwrap_err(), flatpak::Error::Format);
    assert!(flatpak.list(Some("no tabs at all\n")).unwrap().is_empty());
    assert_eq!(flatpak.search(Some(FLATPAK_LIST)).unwrap().len(), 2);

    let found = flatpak.find(flatpak.list(Some(FLATPAK_LIST)), "gimp").unwrap().unwrap();
    assert_eq!(found.name, "GIMP");
    let found = flatpak.find(flatpak.list(Some(FLATPAK_LIST)), "MOZILLA").unwrap().unwrap();
    assert_eq!(found.name, "Firefox");
    let found = flatpak.find(flatpak.list(Some(FLATPAK_LIST)), "org").unwrap().unwrap();
    assert_eq!(found.name, "GIMP");
    assert!(flatpak.find(flatpak.list(Some(FLATPAK_LIST)), "chrome").unwrap().is_none());
    assert_eq!(flatpak.find(Err(flatpak::Error::Command), "x").unwrap_err(), flatpak::Error::Command);

    let offered = flatpak.search_install(flatpak.search(Some(FLATPAK_LIST)), "fire").unwrap();
    assert_eq!(offered.len(), 1);
    assert_eq!(offered[0].name, "Firefox");
    let offered = flatpak.search_install(flatpak.search(Some(FLATPAK_LIST)), "i").unwrap();
    assert_eq!(offered.len(), 2);
    assert!(flatpak.search_install(flatpak.search(Some(FLATPAK_LIST)), "Fire").unwrap().is_empty());
    assert_eq!(flatpak.count_updates(flatpak.list(Some(FLATPAK_LIST))), Ok(2));
}

#[test]
fn flatpak_keeps_the_listed_updates_for_one_update() {
    let mut flatpak = Flatpak::new();
    assert!(flatpak.update().is_none());
    let listed = flatpak.list_updates(Some(FLATPAK_LIST)).unwrap();
    assert_eq!(listed.len(), 2);
    assert_eq!(flatpak.update_cache.as_ref().unwrap().len(), 2);
    assert_eq!(flatpak.list_updates(None).unwrap_err(), flatpak::Error::Command);
    assert_eq!(flatpak.update_cache.as_ref().unwrap().len(), 2);
    assert_eq!(flatpak.list_updates(Some("a\tb\n")).unwrap_err(), flatpak::Error::Format);
    assert!(flatpak.update_cache.is_none());
    flatpak.list_updates(Some(FLATPAK_LIST)).unwrap();

    let mut progress = flatpak.update().unwrap();
    assert!(flatpak.update_cache.is_none());
    assert!(flatpak.update().is_none());
    assert_eq!(progress.done, 0);
    assert_eq!(progress.list.len(), 2);
    assert_eq!(progress.line("Looking for updates"), None);
    assert_eq!(progress.line("Updating org.example.Other"), None);
    assert_eq!(progress.done, 0);
    assert_eq!(progress.line("Updating org.gimp.GIMP/x86_64 (GIMP)"), Some("0% org.gimp.GIMP/x86_64".to_string()));
    assert_eq!(progress.done, 1);
    assert_eq!(progress.line("Updating Firefox"), Some("50% Firefox".to_string()));
    assert_eq!(progress.done, 2);
    assert_eq!(progress.line("Updating GIMP again"), Some("100% GIMP".to_string()));
    assert_eq!(progress.done, 3);
    assert_eq!(progress.line("updating GIMP"), None);
    assert_eq!(progress.finish(), "100%");
}

#[test]
fn cargo_sources() {
    let registry = PackageRepository::from_str("registry+https://github.com/rust-lang/crates.io-index").unwrap();
    assert!(matches!(&registry, PackageRepository::Registry { url } if url == "https://github.com/rust-lang/crates.io-index"));
    assert_eq!(registry.to_string(), "registry+https://github.com/rust-lang/crates.io-index");
    let normal = PackageRepository::from_str("registry+HTTPS://Example.COM").unwrap();
    assert!(matches!(&normal, PackageRepository::Registry { url } if url == "https://example.com/"));
    let git = PackageRepository::from_str("git+https://github.com/sharkdp/fd#abc#def").unwrap();
    assert!(matches!(&git, PackageRepository::Git { url, commit } if url == "https://github.com/sharkdp/fd" && commit == "abc#def"));
    assert_eq!(git.to_string(), "git+https://github.com/sharkdp/fd#abc#def");
    for bad in ["", "registry", "registry+", "registry+not a url", "git+https://github.com/x/y", "git+#abc", "path+file:///x", "+https://x.org"] {
        assert_eq!(PackageRepository::from_str(bad).unwrap_err(), "Failed to parse package repository", "{bad:?}");
    }
}

#[test]
fn cargo_install_records() {
    let key = "ripgrep 14.0.3 (registry+https://github.com/rust-lang/crates.io-index)";
    assert!(cargo::Package::is_well_keyed(key));
    let package = cargo::Package::try_from_config_install(key.to_string(), owned(&["rg"])).unwrap();
    assert_eq!(package.name, "ripgrep");
    assert_eq!(package.version, "14.0.3");
    assert_eq!(package.repository.unwrap().to_string(), "registry+https://github.com/rust-lang/crates.io-index");
    assert_eq!(package.bins, owned(&["rg"]));
    let package = cargo::Package::try_from_config_install("local 0.1.0 (path+file:///home/u/local)".to_string(), vec![]).unwrap();
    assert!(package.repository.is_none());
    assert_eq!(cargo::Package::try_from_config_install("lonely".to_string(), vec![]).unwrap_err(), "Failed to parse package version");
    assert_eq!(cargo::Package::try_from_config_install("".to_string(), vec![]).unwrap_err(), "Failed to parse package version");
    assert_eq!(cargo::Package::try_from_config_install("name 1.0".to_string(), vec![]).unwrap_err(), "Failed to parse package repository");
    assert!(cargo::Package::is_well_keyed("name 1.0"));
    assert!(cargo::Package::is_well_keyed("name 1.0 ()"));
    assert!(!cargo::Package::is_well_keyed("name 1.0 "));
    assert!(!cargo::Package::is_well_keyed("name 1.0 x"));
    assert!(!cargo::Package::is_well_keyed("name 1.0 \u{e9}x)"));
    assert!(cargo::Package::try_from_config_install("name 1.0 ()".to_string(), vec![]).unwrap().repository.is_none());

    let found = cargo::Package::from("serde".to_string(), "1.0.200".to_string(), "https://github.com/serde-rs/serde");
    assert_eq!(found.name, "serde");
    assert_eq!(found.version, "1.0.200");
    assert!(found.repository.is_none());
    assert!(found.bins.is_empty());

    let backend = cargo::Cargo::new();
    let records = vec![
        ("a 1.0.0 (registry+https://x.org/)".to_string(), owned(&["a"])),
        ("b 2.0.0 (git+https://x.org/b#1234)".to_string(), owned(&["b", "b2"])),
    ];
    let listed = backend.list(records.clone()).unwrap();
    assert_eq!(listed.len(), 2);
    assert_eq!(listed[1].name, "b");
    assert_eq!(listed[1].bins, owned(&["b", "b2"]));
    let mut broken = records.clone();
    broken.insert(1, ("broken".to_string(), vec![]));
    assert_eq!(backend.list(broken.clone()).unwrap_err(), "Failed to parse package version");
    assert_eq!(backend.find(broken.clone(), "b").unwrap().version, "2.0.0");
    assert!(backend.find(broken, "c").is_none());
    assert!(backend.find(vec![], "a").is_none());
}

#[test]
fn cargo_index_places() {
    assert_eq!(cargo::index_path("a"), Some("1/a".to_string()));
    assert_eq!(cargo::index_path("AB"), Some("2/ab".to_string()));
    assert_eq!(cargo::index_path("Syn"), Some("3/s/syn".to_string()));
    assert_eq!(cargo::index_path("Serde"), Some("se/rd/serde".to_string()));
    assert_eq!(cargo::index_path("ripgrep"), Some("ri/pg/ripgrep".to_string()));
    assert_eq!(cargo::index_path("\u{e9}a"), None);
    assert_eq!(cargo::index_path("a\u{e9}"), Some("3/a/a\u{e9}".to_string()));
    assert_eq!(cargo::index_path(""), None);
    assert_eq!(cargo::index_path("\u{e9}\u{e9}x"), Some("\u{e9}/\u{e9}/\u{e9}\u{e9}x".to_string()));
    assert_eq!(cargo::index_path("a\u{e9}bc"), None);
    assert_eq!(cargo::index_place_of("Serde"), Some("Se/rd/Serde".to_string()));
}

fn cargo_package(version: &str, repository: Option<cargo::PackageRepository>) -> cargo::Package {
    cargo::Package { name: "tool".to_string(), version: version.to_string(), repository, bins: owned(&["tool"]) }
}

#[test]
fn cargo_updates() {
    let registry = || Some(PackageRepository::Registry { url: "https://x.org/".into() });
    let git = || Some(PackageRepository::Git { url: "https://x.org/r".into(), commit: "abc".into() });
    assert_eq!(cargo_package("1.0.0", None).lookup(), Lookup::Skip);
    assert_eq!(cargo_package("one", registry()).lookup(), Lookup::Skip);
    assert_eq!(cargo_package("1.0.0", registry()).lookup(), Lookup::Index);
    assert_eq!(cargo_package("1.0.0-rc.1", git()).lookup(), Lookup::Commit);

    assert_eq!(cargo::offer("1.0.0", &owned(&["0.9.0", "1.2.0", "1.10.0", "1.9.9", "2.0.0-beta.1", "junk"])), Some("1.10.0".to_string()));
    assert_eq!(cargo::offer("1.0.0-alpha", &owned(&["0.9.0", "1.2.0", "2.0.0-beta.1", "2.0.0-beta.11", "2.0.0-beta.2"])), Some("2.0.0-beta.11".to_string()));
    assert_eq!(cargo::offer("1.0.0", &owned(&["2.0.0-beta.1", "junk"])), None);
    assert_eq!(cargo::offer("1.0.0", &vec![]), None);
    assert_eq!(cargo::offer("junk", &owned(&["2.0.0-beta.1", "1.0.0"])), Some("2.0.0-beta.1".to_string()));
    assert_eq!(cargo::offer("1.0.0", &owned(&["1.0.0+b", "1.0.0+a"])), Some("1.0.0+b".to_string()));

    let (package, newer) = cargo_package("1.0.0", registry()).registry_update(Some(owned(&["1.0.0", "1.1.0"])));
    assert_eq!((package.version.as_str(), newer), ("1.1.0", true));
    assert_eq!(package.bins, owned(&["tool"]));
    let (package, newer) = cargo_package("1.1.0", registry()).registry_update(Some(owned(&["1.0.0", "1.1.0"])));
    assert_eq!((package.version.as_str(), newer), ("1.1.0", false));
    let (package, newer) = cargo_package("2.0.0", registry()).registry_update(Some(owned(&["1.0.0", "1.1.0"])));
    assert_eq!((package.version.as_str(), newer), ("1.1.0", false));
    let (package, newer) = cargo_package("1.0.0", registry()).registry_update(None);
    assert_eq!((package.version.as_str(), newer), ("1.0.0", false));
    let (package, newer) = cargo_package("1.0.0", registry()).registry_update(Some(owned(&["x"])));
    assert_eq!((package.version.as_str(), newer), ("1.0.0", false));

    assert!(cargo_package("1.0.0", git()).git_update(Some("def")).1);
    assert!(!cargo_package("1.0.0", git()).git_update(Some("abc")).1);
    assert!(!cargo_package("1.0.0", git()).git_update(None).1);
    assert!(!cargo_package("1.0.0", registry()).git_update(Some("def")).1);

    let mut backend = cargo::Cargo::new();
    assert!(backend.update().is_none());
    let checked = vec![
        (cargo_package("1.0.0", registry()), true),
        (cargo_package("2.0.0", git()), false),
        (cargo_package("3.0.0", None), true),
    ];
    let listed = backend.list_updates(checked.clone());
    assert_eq!(listed.iter().map(|p| p.version.as_str()).collect::<Vec<_>>(), ["1.0.0", "3.0.0"]);
    assert_eq!(backend.count_updates(Ok(listed)), Ok(2));
    let kept = backend.update().unwrap();
    assert_eq!(kept.iter().map(|p| p.version.as_str()).collect::<Vec<_>>(), ["1.0.0", "3.0.0"]);
    assert_eq!(kept[0].bins, owned(&["tool"]));
    assert!(backend.update().is_none());
    assert_eq!(backend.search_install(checked).len(), 2);
    assert!(backend.search_install(vec![]).is_empty());
}

fn pacman_package(name: &str, database: &str) -> pacman::Package {
    pacman::Package {
        name: name.to_string(),
        version: "1-1".to_string(),
        description: None,
        url: None,
        database: database.to_string(),
    }
}

#[test]
fn pacman_names_to_upgrade() {
    let output = "linux 6.6.1-1 -> 6.6.2-1\nlinux-lts 6.1-1 -> 6.1-2\nvim 9.0-1 -> 9.1-1\n\nglibc\n";
    assert_eq!(
        pacman::upgradable_names(output, &vec![]),
        owned(&["linux", "linux-lts", "vim", "", "glibc"])
    );
    assert_eq!(pacman::upgradable_names(output, &owned(&["linux*"])), owned(&["vim", "", "glibc"]));
    assert_eq!(pacman::upgradable_names(output, &owned(&["linux", "v?m"])), owned(&["linux-lts", "", "glibc"]));
    assert_eq!(pacman::upgradable_names(output, &owned(&["*"])), Vec::<String>::new());
    assert_eq!(pacman::upgradable_names("", &owned(&["*"])), Vec::<String>::new());
    assert!(pacman::is_ignored(&owned(&["lib*", "{vim,emacs}"]), "emacs"));
    assert!(pacman::is_ignored(&owned(&["lib*", "{vim,emacs}"]), "libfoo"));
    assert!(!pacman::is_ignored(&owned(&["lib*", "{vim,emacs}"]), "nano"));
    assert!(!pacman::is_ignored(&vec![], "nano"));
    for pattern in ["[", "{", "{a,b", "[a-", "\\", "**", "!a", "a{b{c{d{e{f{g{h{i{j{k{l", "}", "]", "[!]", "{,}", "*{*", "?[", ""] {
        for name in ["", "a", "ab", "a/b", "{", "["] {
            let _ = pacman::is_ignored(&owned(&[pattern]), name);
        }
    }
}

#[test]
fn pacman_search_and_offers() {
    let backend = pacman::Pacman::new();
    let found = backend
        .search(vec![
            Ok(vec![pacman_package("a", "core"), pacman_package("b", "core")]),
            Ok(vec![]),
            Ok(vec![pacman_package("a", "extra")]),
        ])
        .unwrap();
    assert_eq!(found.iter().map(|p| (p.name.as_str(), p.database.as_str())).collect::<Vec<_>>(), [("a", "core"), ("b", "core"), ("a", "extra")]);
    let failed = backend.search(vec![
        Ok(vec![pacman_package("a", "core")]),
        Err(pacman::Error::Alpm(Some("first".into()))),
        Err(pacman::Error::Alpm(Some("second".into()))),
    ]);
    assert_eq!(failed.unwrap_err().to_string(), "Alpm: first");
    assert!(backend.search(vec![]).unwrap().is_empty());

    assert_eq!(pacman::install_candidates("foo"), owned(&["foo", "foo-git", "foo-bin"]));
    let offered = backend.search_install(vec![
        pacman_package("foo", "core"),
        pacman_package("foo", "extra"),
        pacman_package("foo-git", "extra"),
        pacman_package("foo", "multilib"),
        pacman_package("foo-bin", "extra"),
        pacman_package("foo-git", "multilib"),
    ]);
    assert_eq!(
        offered.iter().map(|p| (p.name.as_str(), p.database.as_str())).collect::<Vec<_>>(),
        [("foo", "core"), ("foo-git", "extra"), ("foo-bin", "extra")]
    );
    assert!(backend.search_install(vec![]).is_empty());
}

#[test]
fn pacman_update_progress() {
    let backend = pacman::Pacman::new();
    let mut progress = backend.update();
    assert_eq!((progress.count, progress.done), (0, 0));
    assert!(progress.finish().is_err());
    assert_eq!(progress.line(":: Synchronizing package databases..."), None);
    assert_eq!(progress.line("upgrading early..."), None);
    assert_eq!(progress.done, 0);
    assert_eq!(progress.line("Packages (3) linux-6.6  vim-9.1  glibc-2.38"), None);
    assert_eq!(progress.count, 3);
    assert_eq!(progress.finish().unwrap_err().to_string(), "Alpm: Unknown error");
    assert_eq!(progress.line("(1/3) upgrading linux..."), Some("0% upgrading".to_string()));
    assert_eq!(progress.line("upgrading vim..."), Some("33% vim...".to_string()));
    assert_eq!((progress.count, progress.done), (3, 2));
    assert!(progress.finish().is_err());
    assert_eq!(progress.line("upgrading"), None);
    assert_eq!(progress.done, 3);
    assert_eq!(progress.finish().unwrap(), "100%");
    assert_eq!(progress.line("upgrading more..."), Some("100% more...".to_string()));
    assert_eq!(progress.finish().unwrap(), "100%");

    assert_eq!(pacman::in_brackets("Packages (12) a b"), Some("12".to_string()));
    assert_eq!(pacman::in_brackets("Packages 12"), None);
    assert_eq!(pacman::in_brackets("Packages (12"), Some("12".to_string()));
    assert_eq!(pacman::in_brackets(")x(y"), Some("x".to_string()));
    assert_eq!(pacman::in_brackets("()"), Some(String::new()));
    for line in ["Packages (12) a b", "Packages 12", "a(b)c(d)", ")(", "(", ""] {
        assert_eq!(pacman::in_brackets(line), line.split(&['(', ')'][..]).nth(1).map(String::from));
    }

    let mut progress = backend.update();
    progress.line("Packages (many)");
    assert_eq!(progress.count, 0);
    assert_eq!(progress.line("upgrading x"), None);
    assert!(progress.finish().is_err());
    progress.line("Packages (-2)");
    assert_eq!(progress.count, -2);
    assert_eq!(progress.line("upgrading x"), None);
    assert_eq!(progress.finish().unwrap(), "100%");
    progress.line("Packages upgrading (1)");
    assert_eq!((progress.count, progress.done), (1, 0));
}

#[test]
fn aur_offers_names_and_archives() {
    let backend = aur::AUR::new();
    let package = |name: &str| aur::Package { name: name.to_string(), version: "1".to_string() };
    let found = vec![package("foo-git"), package("foobar"), package("foo"), package("libfoo"), package("foo-bin"), package("foo-bin-git")];
    let offered = backend.search_install(found, "foo");
    assert_eq!(offered.iter().map(|p| p.name.as_str()).collect::<Vec<_>>(), ["foo-git", "foo", "foo-bin"]);
    assert!(backend.search_install(vec![], "foo").is_empty());

    let output = "yay 12.0-1 -> 12.1-1\nparu 2.0-1\n";
    assert_eq!(aur::upgradable_names(output, &vec![]), owned(&["yay", "paru"]));
    assert_eq!(aur::upgradable_names(output, &owned(&["paru", "ya*"])), owned(&["yay"]));
    assert_eq!(aur::upgradable_names(output, &owned(&["paru", "yay"])), Vec::<String>::new());

    assert_eq!(aur::archive_name("yay", "12.1-1", "x86_64"), "yay-12.1-1-x86_64.tar.zst");
    assert_eq!(backend.update(1, 4), 25);
    assert_eq!(backend.update(4, 4), 100);
    assert_eq!(backend.update(0, 1), 0);
}

#[test]
fn pacman_counts_that_cannot_be_read() {
    assert!(!pacman::is_miscounted("Packages (12) a b"));
    assert!(!pacman::is_miscounted("Packages (-3)"));
    assert!(pacman::is_miscounted("Packages (many)"));
    assert!(pacman::is_miscounted("Packages 12"));
    assert!(pacman::is_miscounted("Packages ()"));
    assert!(pacman::is_miscounted("Packages (99999999999)"));
    assert!(!pacman::is_miscounted("upgrading (many)"));
    assert!(!pacman::is_miscounted(""));
}

#[test]
fn backends_without_state() {
    let _ = (pacman::Pacman::new(), aur::AUR::new(), Snap::new());
    assert!(Flatpak::new().update_cache.is_none());
    assert!(cargo::Cargo::new().update_cache.is_none());
}

#[test]
fn every_short_pattern_can_be_matched() {
    let alphabet = ['*', '?', '[', ']', '{', '}', ',', '!', '\\', 'a', '/', '-', '^'];
    let names = ["", "a", "aa", "a/a", "-", "{a}", "a,a", "\\", "[a]", "!a"];
    let mut patterns = vec![String::new()];
    let mut last = vec![String::new()];
    for _ in 0..4 {
        let mut next = Vec::new();
        for pattern in &last {
            for c in alphabet {
                next.push(format!("{pattern}{c}"));
            }
        }
        patterns.extend(next.iter().cloned());
        last = next;
    }
    let mut matched = 0usize;
    for pattern in &patterns {
        let list = vec![pattern.clone()];
        for name in names {
            if pacman::is_ignored(&list, name) {
                matched += 1;
            }
        }
    }
    assert!(matched > 0);
    assert!(matched < patterns.len() * names.len());
}

#[test]
fn installed_packages_belong_to_one_of_two_backends() {
    let system = pacman::Pacman::new();
    let listed = system.list(vec![Some(pacman_package("vim", "extra")), None, Some(pacman_package("linux", "core")), None]);
    assert_eq!(listed.iter().map(|p| p.name.as_str()).collect::<Vec<_>>(), ["vim", "linux"]);
    assert!(system.list(vec![]).is_empty());
    assert!(system.list(vec![None, None]).is_empty());
    assert_eq!(system.find(Some(pacman_package("vim", "extra")), true).unwrap().name, "vim");
    assert!(system.find(Some(pacman_package("yay", "unknown")), false).is_none());
    assert!(system.find(None, false).is_none());

    let community = aur::AUR::new();
    let package = |name: &str| aur::Package { name: name.to_string(), version: "1".to_string() };
    let listed = community.list(vec![(package("vim"), true), (package("yay"), false), (package("linux"), true), (package("paru"), false)]);
    assert_eq!(listed.iter().map(|p| p.name.as_str()).collect::<Vec<_>>(), ["yay", "paru"]);
    assert!(community.list(vec![(package("vim"), true)]).is_empty());
    assert_eq!(community.find(Some(package("yay")), false).unwrap().name, "yay");
    assert!(community.find(Some(package("vim")), true).is_none());
    assert!(community.find(None, false).is_none());

    assert_eq!(unipac::managers::keep_marked(vec![(1, true), (2, false), (3, true)], true), [1, 3]);
    assert_eq!(unipac::managers::keep_marked(vec![(1, true), (2, false), (3, true)], false), [2]);
    assert_eq!(unipac::managers::keep_present(vec![None, Some('a'), None, Some('b')]), ['a', 'b']);
}

struct Fixed {
    updates: Result<Vec<&'static str>, &'static str>,
}

impl unipac::managers::Manager for Fixed {
    type Package = &'static str;
    type Error = &'static str;

    fn list(&self) -> Result<Vec<Self::Package>, Self::Error> {
        Ok(vec!["a", "b", "c"])
    }

    fn find(&self, name: &str) -> Result<Option<Self::Package>, Self::Error> {
        Ok(self.list()?.into_iter().find(|package| *package == name))
    }

    fn search(&self, _query: &str) -> Result<Vec<Self::Package>, Self::Error> {
        self.list()
    }

    fn search_install(&self, _query: &str) -> Result<Vec<Self::Package>, Self::Error> {
        self.list()
    }

    fn install(&self, _package: &Self::Package) -> Result<(), Self::Error> {
        Ok(())
    }

    fn uninstall(&self, _package: &Self::Package) -> Result<(), Self::Error> {
        Ok(())
    }

    fn list_updates(&self) -> Result<Vec<Self::Package>, Self::Error> {
        self.updates.clone()
    }

    fn update(&self) -> Result<(), Self::Error> {
        Ok(())
    }
}

#[test]
fn updates_are_counted_by_listing_them_unless_a_backend_knows_better() {
    use_manager(&Fixed { updates: Ok(vec!["a", "b"]) }, Ok(2));
    use_manager(&Fixed { updates: Ok(vec![]) }, Ok(0));
    use_manager(&Fixed { updates: Err("offline") }, Err("offline"));
}

fn use_manager<M: unipac::managers::Manager<Error = &'static str>>(manager: &M, expected: Result<usize, &'static str>) {
    assert_eq!(manager.count_updates(), expected);
}
