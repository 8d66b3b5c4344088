use unipac::args::Managers;
use unipac::constants::Backend;
use unipac::utils::spinners::{Spinners, TICK_MILLIS};

fn flags(pacman: bool, aur: bool, flatpak: bool, snap: bool, cargo: bool) -> Managers {
    Managers { pacman, aur, flatpak, snap, cargo }
}

fn shown(backend: Backend, text: &str) -> String {
    backend.apply_to(text)
}

#[test]
fn one_indicator_for_each_enabled_backend() {
    for bits in 0u8..32 {
        let m = flags(bits & 1 != 0, bits & 2 != 0, bits & 4 != 0, bits & 8 != 0, bits & 16 != 0);
        let spinners = Spinners::with_managers(&m);
        for backend in Backend::all() {
            let spinner = spinners.get(backend);
            assert_eq!(spinner.is_some(), m.has(backend));
            if let Some(spinner) = spinner {
                assert!(!spinner.finished);
                assert_eq!(spinner.message, "");
            }
        }
        assert_eq!(spinners.is_done(), bits == 0);
        assert_eq!(spinners.running_backends(), m);
        assert_eq!(spinners.work(), if bits == 0 { None } else { Some(m.backends()) });
    }
}

#[test]
fn display_ends_when_every_backend_has_ended_and_not_before() {
    assert_eq!(TICK_MILLIS, 100);
    console::set_colors_enabled(false);
    let mut spinners = Spinners::with_managers(&flags(true, false, true, false, true));
    spinners.start();
    assert_eq!(spinners.pacman.as_ref().unwrap().message, "Pacman...");
    assert_eq!(spinners.flatpak.as_ref().unwrap().message, "Flatpak...");
    assert_eq!(spinners.cargo.as_ref().unwrap().message, "Cargo...");
    assert!(spinners.aur.is_none() && spinners.snap.is_none());
    assert_eq!(spinners.work(), Some(vec![Backend::Pacman, Backend::Flatpak, Backend::Cargo]));

    spinners.set_message(Backend::Flatpak, "50% org.gimp.GIMP");
    assert_eq!(spinners.flatpak.as_ref().unwrap().message, "Flatpak: 50% org.gimp.GIMP");
    assert!(!spinners.flatpak.as_ref().unwrap().finished);
    assert_eq!(spinners.pacman.as_ref().unwrap().message, "Pacman...");

    spinners.set_message(Backend::Snap, "ignored");
    assert!(spinners.snap.is_none());

    spinners.finish(Backend::Pacman);
    assert!(spinners.pacman.as_ref().unwrap().finished);
    assert_eq!(spinners.pacman.as_ref().unwrap().message, "Pacman: \u{ef}\u{20ac}\u{152}");
    assert!(!spinners.is_done());
    assert_eq!(spinners.work(), Some(vec![Backend::Flatpak, Backend::Cargo]));

    spinners.abort(Backend::Cargo);
    assert!(spinners.cargo.as_ref().unwrap().finished);
    assert_eq!(spinners.cargo.as_ref().unwrap().message, "Cargo: x");
    assert!(!spinners.is_done());
    assert_eq!(spinners.work(), Some(vec![Backend::Flatpak]));

    spinners.finish_with_message(Backend::Flatpak, "12");
    assert_eq!(spinners.flatpak.as_ref().unwrap().message, "Flatpak: 12");
    assert!(spinners.is_done());
    assert_eq!(spinners.work(), None);

    spinners.set_message(Backend::Flatpak, "late");
    assert!(spinners.flatpak.as_ref().unwrap().finished);
    assert!(spinners.is_done());
}

#[test]
fn messages_are_in_the_colour_of_the_backend() {
    let mut spinners = Spinners::with_managers(&Managers::all());
    spinners.set_message(Backend::AUR, "fetching");
    assert_eq!(spinners.aur.as_ref().unwrap().message, shown(Backend::AUR, "AUR: fetching"));
    spinners.finish_with_message(Backend::Snap, "3");
    assert_eq!(spinners.snap.as_ref().unwrap().message, shown(Backend::Snap, "Snap: 3"));
}
