use unipac::hooks::{aur_pre_install, aur_pre_update, Hook, Question, Reply};
use unipac::managers::aur::Package;

fn package(name: &str) -> Package {
    Package { name: name.to_string(), version: "1.0-1".to_string() }
}

#[test]
fn steps_before_an_installation() {
    let yay = package("yay");
    let step = aur_pre_install(&yay, None, Reply::Start);
    assert_eq!(step.complaint, "");
    assert!(matches!(step.next, Hook::Download { names } if names == ["yay"]));

    let step = aur_pre_install(&yay, None, Reply::Downloaded(Err("timeout".into())));
    assert_eq!(step.complaint, "Failed to download and extract package yay: timeout\n");
    assert!(matches!(step.next, Hook::Exit { code: 1 }));

    let step = aur_pre_install(&yay, None, Reply::Downloaded(Ok(())));
    assert_eq!(step.complaint, "");
    assert!(matches!(step.next, Hook::Ask { question: Question::Show, prompt, default: false }
        if prompt == "Do you want to show/edit the PKGBUILD for yay?"));

    let step = aur_pre_install(&yay, None, Reply::Answered(Question::Show, Err("not a terminal".into())));
    assert_eq!(step.complaint, "Failed to read input: not a terminal\n");
    assert!(matches!(step.next, Hook::Exit { code: 1 }));

    let step = aur_pre_install(&yay, None, Reply::Answered(Question::Show, Ok(false)));
    assert_eq!(step.complaint, "");
    assert!(matches!(step.next, Hook::Proceed));

    let step = aur_pre_install(&yay, None, Reply::Answered(Question::Show, Ok(true)));
    assert!(matches!(step.next, Hook::Show { program, path } if program == "less" && path == "aur/yay/PKGBUILD"));
    let step = aur_pre_install(&yay, Some("vim"), Reply::Answered(Question::Show, Ok(true)));
    assert!(matches!(step.next, Hook::Show { program, path } if program == "vim" && path == "aur/yay/PKGBUILD"));

    let step = aur_pre_install(&yay, None, Reply::Shown(Ok(())));
    assert_eq!(step.complaint, "");
    assert!(matches!(step.next, Hook::Ask { question: Question::Install, prompt, default: true }
        if prompt == "Do you want to install yay?"));
    let step = aur_pre_install(&yay, None, Reply::Shown(Err("no such file".into())));
    assert_eq!(step.complaint, "Failed to open PKGBUILD: no such file\n");
    assert!(matches!(step.next, Hook::Ask { question: Question::Install, default: true, .. }));

    let step = aur_pre_install(&yay, None, Reply::Answered(Question::Install, Err("eof".into())));
    assert_eq!(step.complaint, "Failed to read input: eof\n");
    assert!(matches!(step.next, Hook::Exit { code: 1 }));
    let step = aur_pre_install(&yay, None, Reply::Answered(Question::Install, Ok(false)));
    assert_eq!(step.complaint, "");
    assert!(matches!(step.next, Hook::Exit { code: 0 }));
    let step = aur_pre_install(&yay, None, Reply::Answered(Question::Install, Ok(true)));
    assert!(matches!(step.next, Hook::Proceed));
}

#[test]
fn steps_before_an_update() {
    let none: Vec<Package> = vec![];
    for reply in [Reply::Start, Reply::Downloaded(Ok(())), Reply::Shown(Ok(()))] {
        let step = aur_pre_update(&none, 0, reply);
        assert_eq!(step.complaint, "");
        assert!(matches!(step.next, Hook::Proceed));
    }

    let packages = vec![package("yay"), package("paru")];
    let step = aur_pre_update(&packages, 0, Reply::Start);
    assert!(matches!(step.next, Hook::Download { names } if names == ["yay", "paru"]));
    let step = aur_pre_update(&packages, 0, Reply::Downloaded(Err("offline".into())));
    assert_eq!(step.complaint, "Failed to download and extract package: offline\n");
    assert!(matches!(step.next, Hook::Exit { code: 1 }));
    let step = aur_pre_update(&packages, 0, Reply::Downloaded(Ok(())));
    assert!(matches!(step.next, Hook::Ask { question: Question::Show, prompt, default: false }
        if prompt == "Do you want to show the PKGBUILD for yay?"));
    let step = aur_pre_update(&packages, 0, Reply::Answered(Question::Show, Ok(true)));
    assert!(matches!(step.next, Hook::Show { program, path } if program == "less" && path == "aur/yay/PKGBUILD"));
    let step = aur_pre_update(&packages, 0, Reply::Shown(Err("gone".into())));
    assert_eq!(step.complaint, "Failed to show PKGBUILD: gone\n");
    assert!(matches!(step.next, Hook::Ask { prompt, .. } if prompt == "Do you want to show the PKGBUILD for paru?"));
    let step = aur_pre_update(&packages, 0, Reply::Answered(Question::Show, Ok(false)));
    assert!(matches!(step.next, Hook::Ask { prompt, .. } if prompt == "Do you want to show the PKGBUILD for paru?"));
    let step = aur_pre_update(&packages, 1, Reply::Answered(Question::Show, Ok(false)));
    assert_eq!(step.complaint, "");
    assert!(matches!(step.next, Hook::Proceed));
    let step = aur_pre_update(&packages, 1, Reply::Shown(Ok(())));
    assert!(matches!(step.next, Hook::Proceed));
    let step = aur_pre_update(&packages, 1, Reply::Answered(Question::Show, Err("eof".into())));
    assert_eq!(step.complaint, "Failed to read input\n");
    assert!(matches!(step.next, Hook::Exit { code: 1 }));
    let step = aur_pre_update(&packages, 1, Reply::Answered(Question::Install, Ok(true)));
    assert!(matches!(step.next, Hook::Proceed));
}
