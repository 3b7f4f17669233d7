use emacs_reporter::motd::{motd_banner, BORDER};

#[test]
fn banner_frames_trimmed_message() {
    assert_eq!(motd_banner("  hello\n"), Some(format!("{BORDER}\nhello\n{BORDER}")));
    assert_eq!(motd_banner(" \n\t "), None);
    assert_eq!(motd_banner(""), None);
}
