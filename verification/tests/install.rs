use pdf_translator::install::PackageManager;
use pdf_translator::install::choose_package_manager;
use pdf_translator::install::diagnostic_reports_poppler;

#[test]
fn first_available_package_manager_wins() {
    assert_eq!(
        choose_package_manager(true, true, true),
        Some(PackageManager::Apt)
    );
    assert_eq!(
        choose_package_manager(false, true, true),
        Some(PackageManager::Yum)
    );
    assert_eq!(
        choose_package_manager(false, false, true),
        Some(PackageManager::Pacman)
    );
    assert_eq!(choose_package_manager(false, false, false), None);
}

#[test]
fn package_manager_command_names() {
    assert_eq!(PackageManager::Apt.command_name(), "apt");
    assert_eq!(PackageManager::Yum.command_name(), "yum");
    assert_eq!(PackageManager::Pacman.command_name(), "pacman");
}

#[test]
fn poppler_is_detected_in_the_version_probe_output() {
    assert!(diagnostic_reports_poppler(
        "pdftotext version 22.02.0\nCopyright 2005-2022 The Poppler Developers"
    ));
    assert!(!diagnostic_reports_poppler("pdftotext: command not found"));
    assert!(!diagnostic_reports_poppler(""));
}
