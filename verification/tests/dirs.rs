use std::path::Path;
use unipac::macros;
use unipac::constants::Backend;
use unipac::utils::dirs::{aur_directory, get_aur_extracted_path, get_pkgbuild_path, join_path, snapshot_url};

#[test]
fn join_path_is_path_join() {
    let bases = ["", "/", "/home/u/.cache/unipac/aur", "/home/u/.cache/unipac/aur/", "rel", "a/b/"];
    let paths = ["", "yay", "/etc/passwd", "a/b", "./x", "\u{e9}t\u{e9}"];
    for base in bases {
        for path in paths {
            let expected = Path::new(base).join(path);
            assert_eq!(join_path(base, path), expected.to_str().unwrap(), "{base:?} {path:?}");
        }
    }
}

#[test]
fn recipe_paths() {
    assert_eq!(aur_directory(), "aur");
    assert_eq!(get_aur_extracted_path("/home/u/.cache/unipac/aur", "yay"), "/home/u/.cache/unipac/aur/yay");
    assert_eq!(get_pkgbuild_path("yay"), "aur/yay/PKGBUILD");
    assert_eq!(get_pkgbuild_path(""), "aur//PKGBUILD");
    assert_eq!(snapshot_url("yay"), "https://aur.archlinux.org/cgit/aur.git/snapshot/yay.tar.gz");
}

#[test]
fn placeholders_are_replaced_by_the_names_of_a_backend() {
    let input = "pub __manager: Vec<managers::__manager::Package>, __Manager(__MANAGER_STYLE)";
    assert_eq!(
        macros::replace(input.to_string(), ("pacman", "Pacman")),
        "pub pacman: Vec<managers::pacman::Package>, Pacman(PACMAN_STYLE)"
    );
    assert_eq!(
        macros::replace_for(input.to_string(), Backend::AUR),
        "pub aur: Vec<managers::aur::Package>, AUR(AUR_STYLE)"
    );
    assert_eq!(macros::replace("nothing here".to_string(), ("snap", "Snap")), "nothing here");
    assert_eq!(macros::replace_upper("__MANAGER__MANAGER", "X"), "XX");
    assert_eq!(
        macros::replace("__manager".to_string(), ("__Manager", "z")),
        "z"
    );
}
