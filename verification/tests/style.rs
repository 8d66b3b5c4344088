use unipac::constants::Backend;
use unipac::managers::{aur, cargo, flatpak, pacman, snap};
use unipac::style::{Color, Labels};
use unipac::utils::tabwriter::{
    aur_to_string, cargo_to_string, flatpak_to_string, pacman_to_string, snap_to_string, Listed,
};

#[test]
fn colours_are_written_when_enabled_and_left_out_when_not() {
    console::set_colors_enabled(true);
    assert_eq!(Color::Red.apply_to("x"), "\u{1b}[31mx\u{1b}[0m");
    assert_eq!(Color::Green.apply_to("x"), "\u{1b}[32mx\u{1b}[0m");
    assert_eq!(Color::Yellow.apply_to("x"), "\u{1b}[33mx\u{1b}[0m");
    assert_eq!(Color::Blue.apply_to("x"), "\u{1b}[34mx\u{1b}[0m");
    assert_eq!(Backend::Pacman.apply_to("Pacman:"), "\u{1b}[34mPacman:\u{1b}[0m");
    assert_eq!(Backend::AUR.apply_to("AUR:"), "\u{1b}[31mAUR:\u{1b}[0m");
    assert_eq!(Backend::Flatpak.apply_to("Flatpak:"), "\u{1b}[32mFlatpak:\u{1b}[0m");
    assert_eq!(Backend::Snap.apply_to("Snap:"), "\u{1b}[33mSnap:\u{1b}[0m");
    assert_eq!(Backend::Cargo.apply_to("Cargo:"), "\u{1b}[31mCargo:\u{1b}[0m");
    let labels = Labels::styled(":");
    assert_eq!(labels.pacman, "\u{1b}[34mPacman:\u{1b}[0m");
    assert_eq!(labels.get(Backend::Snap), "\u{1b}[33mSnap:\u{1b}[0m");
    let package = aur::Package { name: "yay".into(), version: "12.0-1".into() };
    assert_eq!(aur_to_string(&package), "\u{1b}[31mAUR:\u{1b}[0m\tyay\t12.0-1\n");

    console::set_colors_enabled(false);
    for color in [Color::Red, Color::Green, Color::Yellow, Color::Blue] {
        assert_eq!(color.apply_to("plain"), "plain");
    }
    assert_eq!(Backend::Pacman.color(), Color::Blue);
    assert_eq!(Backend::AUR.color(), Color::Red);
    assert_eq!(Backend::Flatpak.color(), Color::Green);
    assert_eq!(Backend::Snap.color(), Color::Yellow);
    assert_eq!(Backend::Cargo.color(), Color::Red);
    let labels = Labels::styled("");
    assert_eq!(labels.cargo, "Cargo");
    assert_eq!(aur_to_string(&package), "AUR:\tyay\t12.0-1\n");

    let pacman = pacman::Package {
        name: "linux".into(),
        version: "6.6-1".into(),
        description: Some("The kernel".into()),
        url: None,
        database: "core".into(),
    };
    assert_eq!(pacman_to_string(&pacman), "Pacman:\tcore\tlinux\t6.6-1\n");
    let flatpak = flatpak::Package {
        id: "org.gimp.GIMP".into(),
        name: "GIMP".into(),
        version: "2.10".into(),
        branch: "stable".into(),
        description: "Image editor".into(),
    };
    assert_eq!(flatpak_to_string(&flatpak), "Flatpak:\torg.gimp.GIMP\tGIMP\t2.10\tImage editor\n");
    let snap = snap::Package {
        name: "core".into(),
        version: "16".into(),
        description: "base".into(),
        publisher: "canonical".into(),
    };
    assert_eq!(snap_to_string(&snap), "Snap:\tcore\t16\tcanonical\tbase\n");
    let cargo = cargo::Package {
        name: "ripgrep".into(),
        version: "14.0.0".into(),
        repository: Some(cargo::PackageRepository::Registry {
            url: "https://github.com/rust-lang/crates.io-index".into(),
        }),
        bins: vec!["rg".into(), "rg2".into()],
    };
    assert_eq!(
        cargo_to_string(&cargo),
        "Cargo:\tripgrep\t14.0.0\tregistry+https://github.com/rust-lang/crates.io-index\trg, rg2\n"
    );
    let unknown = cargo::Package { repository: None, bins: vec![], ..cargo };
    assert_eq!(cargo_to_string(&unknown), "Cargo:\tripgrep\t14.0.0\t\t\n");
}

#[test]
fn plain_labels_and_lines() {
    let labels = Labels::plain(":");
    assert_eq!(labels.pacman, "Pacman:");
    assert_eq!(labels.aur, "AUR:");
    assert_eq!(labels.flatpak, "Flatpak:");
    assert_eq!(labels.snap, "Snap:");
    assert_eq!(labels.cargo, "Cargo:");
    let package = pacman::Package {
        name: "vim".into(),
        version: "9.1".into(),
        description: None,
        url: None,
        database: "extra".into(),
    };
    assert_eq!(package.line("Pacman:"), "Pacman:\textra\tvim\t9.1\n");
    assert_eq!(package.option("Pacman"), "Pacman: extra vim 9.1");
    assert_eq!(package.name(), "vim");
    let package = aur::Package { name: "paru".into(), version: "2.0".into() };
    assert_eq!(package.option("AUR"), "AUR: paru 2.0");
    let package = flatpak::Package {
        id: "org.x.Y".into(),
        name: "Y".into(),
        version: "1".into(),
        branch: "stable".into(),
        description: "d".into(),
    };
    assert_eq!(package.option("Flatpak"), "Flatpak: Y 1");
    let package = snap::Package {
        name: "hello".into(),
        version: "2.10".into(),
        description: "d".into(),
        publisher: String::new(),
    };
    assert_eq!(package.option("Snap"), "Snap: hello 2.10");
    assert_eq!(package.line("Snap:"), "Snap:\thello\t2.10\t\td\n");
    let package = cargo::Package {
        name: "fd-find".into(),
        version: "9.0.0".into(),
        repository: Some(cargo::PackageRepository::Git {
            url: "https://github.com/sharkdp/fd".into(),
            commit: "abc123".into(),
        }),
        bins: vec!["fd".into()],
    };
    assert_eq!(package.option("Cargo"), "Cargo: fd-find 9.0.0");
    assert_eq!(package.line("Cargo:"), "Cargo:\tfd-find\t9.0.0\tgit+https://github.com/sharkdp/fd#abc123\tfd\n");
}
