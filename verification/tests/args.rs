use unipac::args::{parse, Command, Managers, Operation, UnipacArgs};
use unipac::constants::{Backend, MANAGERS_COUNT};

fn flags(pacman: bool, aur: bool, flatpak: bool, snap: bool, cargo: bool) -> Managers {
    Managers { pacman, aur, flatpak, snap, cargo }
}

#[test]
fn backends_are_enumerated_in_order() {
    let all = Backend::all();
    assert_eq!(all.len(), MANAGERS_COUNT);
    assert_eq!(all, vec![Backend::Pacman, Backend::AUR, Backend::Flatpak, Backend::Snap, Backend::Cargo]);
    for (i, backend) in all.iter().enumerate() {
        assert_eq!(backend.index(), i);
        assert_eq!(Backend::from_index(i), Some(*backend));
    }
    assert_eq!(Backend::from_index(5), None);
    let names: Vec<&str> = all.iter().map(|b| b.name()).collect();
    assert_eq!(names, ["pacman", "aur", "flatpak", "snap", "cargo"]);
    let labels: Vec<&str> = all.iter().map(|b| b.label()).collect();
    assert_eq!(labels, ["Pacman", "AUR", "Flatpak", "Snap", "Cargo"]);
}

#[test]
fn any_is_true_as_soon_as_one_backend_is_enabled() {
    assert!(!Managers::default().any());
    assert!(!flags(false, false, false, false, false).any());
    for i in 0..5 {
        let m = flags(i == 0, i == 1, i == 2, i == 3, i == 4);
        assert!(m.any());
        let backend = Backend::from_index(i).unwrap();
        assert!(m.has(backend));
        assert_eq!(m.backends(), vec![backend]);
    }
    assert!(Managers::all().any());
}

#[test]
fn enabled_backends_come_in_enumeration_order_for_every_subset() {
    for bits in 0u8..32 {
        let m = flags(bits & 1 != 0, bits & 2 != 0, bits & 4 != 0, bits & 8 != 0, bits & 16 != 0);
        let expected: Vec<Backend> =
            Backend::all().into_iter().filter(|b| bits & (1 << b.index()) != 0).collect();
        assert_eq!(m.backends(), expected);
        assert_eq!(m.any(), bits != 0);
    }
}

#[test]
fn no_selection_enables_every_backend() {
    let args = UnipacArgs { no_interactive: true, managers: Managers::default(), command: None };
    let parsed = parse(args);
    assert_eq!(parsed.managers, Managers::all());
    assert!(parsed.no_interactive);
    assert!(parsed.command.is_none());
}

#[test]
fn a_selection_is_kept() {
    let chosen = flags(false, true, false, true, false);
    let args = UnipacArgs {
        no_interactive: false,
        managers: chosen,
        command: Some(Command::Search { query: "foo".to_string() }),
    };
    let parsed = parse(args);
    assert_eq!(parsed.managers, chosen);
    assert!(matches!(parsed.command, Some(Command::Search { query }) if query == "foo"));
}

#[test]
fn commands_map_to_operations() {
    assert_eq!(Command::List { updates: false }.operation(), Operation::List);
    assert_eq!(Command::List { updates: true }.operation(), Operation::ListUpdates);
    assert_eq!(Command::Search { query: "q".into() }.operation(), Operation::Search);
    assert_eq!(Command::Install { query: "q".into() }.operation(), Operation::Install);
    assert_eq!(Command::Uninstall { query: "q".into() }.operation(), Operation::Uninstall);
    let update = |list, count| Command::Update { query: None, list, count }.operation();
    assert_eq!(update(false, false), Operation::Update);
    assert_eq!(update(true, false), Operation::ListUpdates);
    assert_eq!(update(false, true), Operation::CountUpdates);
    assert_eq!(update(true, true), Operation::ListUpdates);
}
