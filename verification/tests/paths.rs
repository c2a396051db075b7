//! Paths, and what is allowed of them.

use ramp::paths::{validate_critical_path, InstallPaths};
use ramp::winpath::{
    path_goes_up, path_is_absolute, path_join, path_lies_in, path_parent, path_with_extension,
};

#[test]
fn rejects_relative_install_dir() {
    assert!(InstallPaths::from_install_dir("relative/path").is_err());
}

#[test]
fn rejects_traversal() {
    let base = "C:\\ramp";
    let bad = "C:\\ramp\\..\\windows\\system32\\evil.exe";
    assert!(validate_critical_path(bad, base, false, false).is_err());
}

#[test]
fn rejects_path_outside_install_dir() {
    let base = "C:\\ramp";
    let outside = "C:\\windows\\system32\\httpd.exe";
    assert!(validate_critical_path(outside, base, false, false).is_err());
}

#[test]
fn accepts_valid_path() {
    let base = "C:\\ramp";
    let ok = "C:\\ramp\\apache\\bin\\httpd.exe";
    assert!(validate_critical_path(ok, base, true, false).is_ok());
}

#[test]
fn layout_of_an_installation() {
    let paths = InstallPaths::from_install_dir("C:\\ramp").unwrap();
    assert_eq!(paths.root, "C:\\ramp");
    assert_eq!(paths.config, "C:\\ramp\\ramp.toml");
    assert_eq!(paths.state_file, "C:\\ramp\\ramp.state");
    assert_eq!(paths.log_file, "C:\\ramp\\logs\\ramp.log");
    assert_eq!(paths.apache_bin, "C:\\ramp\\apache\\bin\\httpd.exe");
    assert_eq!(paths.apache_conf, "C:\\ramp\\apache\\conf\\httpd.conf");
    assert_eq!(paths.apache_logs, "C:\\ramp\\apache\\logs");
    assert_eq!(paths.mysql_bin, "C:\\ramp\\mysql\\bin\\mysqld.exe");
    assert_eq!(paths.mysql_data, "C:\\ramp\\mysql\\data");
    assert_eq!(paths.mysql_ini, "C:\\ramp\\mysql\\my.ini");
    assert_eq!(paths.php_bin, "C:\\ramp\\php\\php-cgi.exe");
    assert_eq!(paths.php_ini, "C:\\ramp\\php\\php.ini");
    assert_eq!(paths.php_logs, "C:\\ramp\\php\\logs");
}

#[test]
fn installed_paths_are_accepted() {
    for root in ["C:\\ramp", "D:\\", "\\\\server\\share\\ramp", "\\\\?\\C:\\ramp"] {
        let paths = InstallPaths::from_install_dir(root).unwrap();
        for path in [&paths.apache_bin, &paths.mysql_bin, &paths.php_bin] {
            assert_eq!(validate_critical_path(path, root, false, false), Ok(()));
        }
    }
}

#[test]
fn faults_are_told_in_order() {
    let fault = |path: &str, symlink: bool| {
        validate_critical_path(path, "C:\\ramp", false, symlink).unwrap_err()
    };
    assert_eq!(fault("ramp\\..\\x", true), "path must be absolute: ramp\\..\\x");
    assert_eq!(fault("C:\\ramp\\..\\x", true), "path traversal rejected: C:\\ramp\\..\\x");
    assert_eq!(
        fault("C:\\other\\x", true),
        "path C:\\other\\x is outside install_dir C:\\ramp"
    );
    assert_eq!(
        fault("C:\\ramp\\x", true),
        "symlink not allowed for critical path: C:\\ramp\\x"
    );
    assert_eq!(validate_critical_path("C:\\ramp\\x", "C:\\ramp", true, true), Ok(()));
}

#[test]
fn relative_install_dir_is_told() {
    assert_eq!(
        InstallPaths::from_install_dir("C:ramp").err(),
        Some(String::from("install_dir must be absolute, got: C:ramp"))
    );
}

#[test]
fn install_dirs_do_not_go_up() {
    assert_eq!(
        InstallPaths::from_install_dir("C:\\ramp\\..\\windows").err(),
        Some(String::from("path traversal rejected: C:\\ramp\\..\\windows"))
    );
    assert!(InstallPaths::from_install_dir("C:\\ramp..\\x").is_ok());
}

#[test]
fn absolute_paths() {
    for path in ["C:\\", "c:/ramp", "\\\\server\\share", "\\\\?\\C:\\x", "\\\\.\\COM1"] {
        assert!(path_is_absolute(path), "{path}");
    }
    for path in ["", "ramp", "C:", "C:ramp", "\\ramp", "/ramp", "..\\x"] {
        assert!(!path_is_absolute(path), "{path}");
    }
}

#[test]
fn paths_lie_in_directories_part_by_part() {
    assert!(path_lies_in("C:\\ramp\\x", "C:\\ramp"));
    assert!(path_lies_in("C:/ramp//./x", "c:\\ramp\\"));
    assert!(path_lies_in("C:\\ramp", "C:\\ramp"));
    assert!(!path_lies_in("C:\\ramparts\\x", "C:\\ramp"));
    assert!(!path_lies_in("D:\\ramp\\x", "C:\\ramp"));
    assert!(!path_lies_in("C:\\ramp", "C:\\ramp\\x"));
    assert!(path_lies_in("C:\\xyz", "C:"));
    assert!(path_lies_in("C:\\xyz", "C:."));
    assert!(!path_lies_in("xyz", ".\\xyz"));
}

#[test]
fn going_up_is_found_anywhere() {
    assert!(path_goes_up("C:\\a\\..\\b"));
    assert!(path_goes_up("C:/a/.."));
    assert!(!path_goes_up("C:\\a..\\...\\b"));
    assert!(!path_goes_up("C:\\a\\.\\b"));
}

#[test]
fn paths_lie_in_their_parent() {
    let parent = |path: &str| path_parent(path);
    assert_eq!(parent("C:\\ramp\\ramp.toml").as_deref(), Some("C:\\ramp"));
    assert_eq!(parent("C:/ramp//logs/./").as_deref(), Some("C:/ramp"));
    assert_eq!(parent("C:\\ramp").as_deref(), Some("C:\\"));
    assert_eq!(parent("\\\\server\\share\\x").as_deref(), Some("\\\\server\\share\\"));
    assert_eq!(parent("C:x").as_deref(), Some("C:"));
    assert_eq!(parent("x").as_deref(), Some(""));
    assert_eq!(parent(".\\x").as_deref(), Some("."));
    assert_eq!(parent("C:\\"), None);
    assert_eq!(parent(""), None);
}

#[test]
fn extensions_are_replaced() {
    let changed = |path: &str| path_with_extension(path, "tmp");
    assert_eq!(changed("C:\\a.b\\c.d.e"), "C:\\a.b\\c.d.tmp");
    assert_eq!(changed("C:\\a.b\\c"), "C:\\a.b\\c.tmp");
    assert_eq!(changed("C:\\.hidden"), "C:\\.hidden.tmp");
    assert_eq!(changed("C:\\x.y\\"), "C:\\x.tmp");
    assert_eq!(changed("C:\\x."), "C:\\x.tmp");
    assert_eq!(changed("C:\\"), "C:\\");
    assert_eq!(changed("C:\\x\\.."), "C:\\x\\..");
}

#[test]
fn names_are_joined_with_one_separator() {
    assert_eq!(path_join("C:\\ramp", "php"), "C:\\ramp\\php");
    assert_eq!(path_join("C:\\ramp\\", "php"), "C:\\ramp\\php");
    assert_eq!(path_join("C:/ramp/", "php"), "C:/ramp/php");
    assert_eq!(path_join("C:\\", "php"), "C:\\php");
}
