use qga_client::colors::{Colors, Tags};
use qga_client::path::{PathKind, classify, join_child, norm_windows, normalize_for_transport};
use qga_client::qga::QemuGuestAgent;

#[test]
fn classify_is_by_second_character() {
    assert_eq!(classify("C:\\Users"), PathKind::Windows);
    assert_eq!(classify("d:/x"), PathKind::Windows);
    assert_eq!(classify("a:"), PathKind::Windows);
    assert_eq!(classify("/home/u"), PathKind::Posix);
    assert_eq!(classify("relative/path"), PathKind::Posix);
    assert_eq!(classify(""), PathKind::Posix);
    assert_eq!(classify("x"), PathKind::Posix);
    assert_eq!(classify(":"), PathKind::Posix);
    assert_eq!(classify("::"), PathKind::Windows);
}

#[test]
fn is_windows_path_matches_classify() {
    assert!(QemuGuestAgent::is_windows_path("C:\\x"));
    assert!(!QemuGuestAgent::is_windows_path("/tmp"));
    assert!(!QemuGuestAgent::is_windows_path("c"));
}

#[test]
fn windows_normalization_doubles_separators() {
    assert_eq!(QemuGuestAgent::normalize_windows_path("C:/a/b").as_str(), "C:\\\\a\\\\b");
    assert_eq!(norm_windows("C:\\a").as_str(), "C:\\\\a");
    assert_eq!(norm_windows("plain").as_str(), "plain");
}

#[test]
fn transport_normalization_identity_on_posix() {
    let once = normalize_for_transport("/tmp/file");
    assert_eq!(once.as_str(), "/tmp/file");
    let twice = normalize_for_transport(once.as_str());
    assert_eq!(twice.as_str(), "/tmp/file");
}

#[test]
fn transport_normalization_compounds_on_windows() {
    let once = normalize_for_transport("C:/dir/f");
    assert_eq!(once.as_str(), "C:\\\\dir\\\\f");
    let twice = normalize_for_transport(once.as_str());
    assert_ne!(twice.as_str(), once.as_str());
    assert_eq!(twice.as_str(), "C:\\\\\\\\dir\\\\\\\\f");
}

#[test]
fn windows_path_without_separators_is_unchanged() {
    // A drive prefix alone has nothing to rewrite, so here a second
    // application changes nothing either.
    let once = normalize_for_transport("C:");
    assert_eq!(once.as_str(), "C:");
    assert_eq!(normalize_for_transport(once.as_str()).as_str(), "C:");
}

#[test]
fn join_child_uses_parent_classification() {
    assert_eq!(join_child("/dst", "sub").as_str(), "/dst/sub");
    assert_eq!(join_child("C:\\dst", "sub").as_str(), "C:\\dst\\sub");
    assert_eq!(join_child("C:\\dst", "a/b").as_str(), "C:\\dst\\a/b");
}

#[test]
fn tags_and_colors_text() {
    assert_eq!(Tags::ok().as_str(), "\x1b[1;32m[OK]\x1b[0m");
    assert_eq!(Tags::warn().as_str(), "\x1b[1;33m[WARN]\x1b[0m");
    assert_eq!(Tags::skip().as_str(), "\x1b[1;33m[SKIP]\x1b[0m");
    assert_eq!(Tags::detect().as_str(), "\x1b[1;34m[DETECT]\x1b[0m");
    assert_eq!(Tags::interrupt().as_str(), "\x1b[1;33m[INTERRUPT]\x1b[0m");
    assert_eq!(Tags::upload().as_str(), "\x1b[1;32m[UPLOAD]\x1b[0m");
    assert_eq!(Tags::download().as_str(), "\x1b[1;34m[DOWNLOAD]\x1b[0m");
    assert_eq!(Tags::file(), "[FILE]");
    assert_eq!(Tags::folder(), "[FOLD]");
    assert_eq!(Tags::clip(), "[CLIP]");
    assert_eq!(Tags::text(), "[TEXT]");
    assert_eq!(Tags::exec(), "[EXEC]");
    assert_eq!(Colors::RESET, "\x1b[0m");
    assert_eq!(Colors::BOLD_GREEN, "\x1b[1;32m");
    assert_eq!(Colors::BOLD_YELLOW, "\x1b[1;33m");
    assert_eq!(Colors::BOLD_BLUE, "\x1b[1;34m");
}
