use emacs_reporter::packages::{elpa_candidates, packages_from_dir_names, parse_name_version, stable_id};

#[test]
fn parse_typical() {
    assert_eq!(
        parse_name_version("magit-20240101.123"),
        Some(("magit", "20240101.123"))
    );
    assert_eq!(
        parse_name_version("use-package-2.4.1"),
        Some(("use-package", "2.4.1"))
    );
}

#[test]
fn parse_skip_non_package() {
    assert!(parse_name_version("archives").is_none());
    assert!(parse_name_version("gnupg").is_none());
}

#[test]
fn stable_id_is_deterministic() {
    assert_eq!(
        stable_id("magit", "20240101.123"),
        stable_id("magit", "20240101.123")
    );
}

#[test]
fn parse_uses_last_dash_before_digit() {
    assert_eq!(parse_name_version("org-9-roam-2.1"), Some(("org-9-roam", "2.1")));
    assert_eq!(parse_name_version("-1"), Some(("", "1")));
    assert_eq!(parse_name_version("a-"), None);
    assert_eq!(parse_name_version(""), None);
    assert_eq!(parse_name_version("x-y"), None);
    assert_eq!(parse_name_version("émacs-lisp-3"), Some(("émacs-lisp", "3")));
}

#[test]
fn stable_id_is_uuid_v5_of_name_dash_version() {
    let id = stable_id("magit", "20240101.123");
    let expected = uuid::Uuid::new_v5(&uuid::Uuid::NAMESPACE_OID, b"magit-20240101.123").to_string();
    assert_eq!(id, expected);
    assert_eq!(id.len(), 36);
    assert_eq!(id.as_bytes()[14], b'5');
    assert_ne!(id, stable_id("magit", "20240101.124"));
    assert_ne!(id, stable_id("magit-2024", "0101.123"));
}

#[test]
fn packages_from_directory_names() {
    let names = vec![
        "magit-20240101.123".to_string(),
        "archives".to_string(),
        "use-package-2.4.1".to_string(),
    ];
    let pkgs = packages_from_dir_names(&names);
    assert_eq!(pkgs.len(), 2);
    assert_eq!(pkgs[0].name, "magit");
    assert_eq!(pkgs[0].version, "20240101.123");
    assert_eq!(pkgs[0].id, stable_id("magit", "20240101.123"));
    assert_eq!(pkgs[1].name, "use-package");
    assert_eq!(pkgs[1].version, "2.4.1");
}

#[test]
fn elpa_candidates_in_order() {
    assert_eq!(
        elpa_candidates("/Users/j", None),
        vec!["/Users/j/.emacs.d/elpa".to_string(), "/Users/j/.config/emacs/elpa".to_string()]
    );
    assert_eq!(
        elpa_candidates("/Users/j/", Some("/x/cfg")),
        vec![
            "/Users/j/.emacs.d/elpa".to_string(),
            "/Users/j/.config/emacs/elpa".to_string(),
            "/x/cfg/emacs/elpa".to_string(),
        ]
    );
}
