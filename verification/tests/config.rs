//! The configuration file.

use ramp::config::{
    load_config, validate_and_build, write_default_config, ConfigFile, TomlApache, TomlMysql,
    TomlPhp, TomlRoot,
};

const DIR: &str = "C:\\ramp";

fn port(table: &toml::Table, service: &str) -> Option<u16> {
    let port = table.get(service)?.as_table()?.get("port")?.as_integer()?;
    u16::try_from(port).ok()
}

fn read(text: &str) -> TomlRoot {
    let table = text.parse::<toml::Table>().unwrap();
    TomlRoot {
        install_dir: table["install_dir"].as_str().unwrap().to_string(),
        apache: TomlApache { port: port(&table, "apache").unwrap() },
        mysql: TomlMysql { port: port(&table, "mysql").unwrap() },
        php: match table.get("php") {
            Some(_) => TomlPhp { port: port(&table, "php").unwrap() },
            None => TomlPhp::default(),
        },
    }
}

fn doc(apache: u16, mysql: u16, php: u16) -> TomlRoot {
    TomlRoot {
        install_dir: String::from(DIR),
        apache: TomlApache { port: apache },
        mysql: TomlMysql { port: mysql },
        php: TomlPhp { port: php },
    }
}

#[test]
fn load_valid_config() {
    let text = format!(
        r#"install_dir = "{}"
[apache]
port = 8080
[mysql]
port = 3306
[php]
port = 9000
"#,
        DIR.replace('\\', "\\\\")
    );
    let cfg = load_config(DIR, ConfigFile::Read(read(&text))).unwrap();
    assert_eq!(cfg.apache.port, 8080);
    assert_eq!(cfg.mysql.port, 3306);
    assert_eq!(cfg.php.port, 9000);
}

#[test]
fn load_config_defaults_php_port_when_absent() {
    let text = format!(
        r#"install_dir = "{}"
[apache]
port = 8080
[mysql]
port = 3306
"#,
        DIR.replace('\\', "\\\\")
    );
    let cfg = load_config(DIR, ConfigFile::Read(read(&text))).unwrap();
    assert_eq!(cfg.php.port, 9000);
}

#[test]
fn rejects_duplicate_ports() {
    let text = format!(
        r#"install_dir = "{}"
[apache]
port = 80
[mysql]
port = 80
"#,
        DIR.replace('\\', "\\\\")
    );
    assert!(load_config(DIR, ConfigFile::Read(read(&text))).is_err());
}

#[test]
fn rejects_apache_php_port_clash() {
    let text = format!(
        r#"install_dir = "{}"
[apache]
port = 9000
[mysql]
port = 3306
[php]
port = 9000
"#,
        DIR.replace('\\', "\\\\")
    );
    assert!(load_config(DIR, ConfigFile::Read(read(&text))).is_err());
}

#[test]
fn write_default_does_not_overwrite_existing() {
    assert!(write_default_config(DIR, true).unwrap().is_none());
}

#[test]
fn default_config_can_be_loaded() {
    let file = write_default_config(DIR, false).unwrap().unwrap();
    assert_eq!(file.path, "C:\\ramp\\ramp.toml");
    assert_eq!(
        file.contents,
        r#"install_dir = "C:\\ramp"

[apache]
port = 80

[mysql]
port = 3306

[php]
port = 9000
"#
    );
    let doc = read(&file.contents);
    assert_eq!(doc.install_dir, DIR);
    let cfg = validate_and_build(doc, DIR).unwrap();
    assert_eq!((cfg.apache.port, cfg.mysql.port, cfg.php.port), (80, 3306, 9000));
}

#[test]
fn what_is_written_is_what_is_read() {
    for dir in ["D:\\", "\\\\server\\share\\my ramp", "C:\\a=b\\[c]\\d", "C:\\ünï\\'x'"] {
        let file = write_default_config(dir, false).unwrap().unwrap();
        let doc = read(&file.contents);
        assert_eq!(doc.install_dir, dir);
        let cfg = load_config(dir, ConfigFile::Read(doc)).unwrap();
        assert_eq!(cfg.install_dir, dir);
        assert_eq!((cfg.apache.port, cfg.mysql.port, cfg.php.port), (80, 3306, 9000));
    }
}

#[test]
fn config_is_built_for_the_install_dir() {
    let mut doc = doc(80, 3306, 9000);
    doc.install_dir = String::from("E:\\elsewhere");
    let cfg = validate_and_build(doc, DIR).unwrap();
    assert_eq!(cfg.install_dir, "C:\\ramp");
    assert_eq!(cfg.apache.bin, "C:\\ramp\\apache\\bin\\httpd.exe");
    assert_eq!(cfg.apache.conf, "C:\\ramp\\apache\\conf\\httpd.conf");
    assert_eq!(cfg.mysql.bin, "C:\\ramp\\mysql\\bin\\mysqld.exe");
    assert_eq!(cfg.mysql.data_dir, "C:\\ramp\\mysql\\data");
    assert_eq!(cfg.mysql.ini, "C:\\ramp\\mysql\\my.ini");
    assert_eq!(cfg.php.bin, "C:\\ramp\\php\\php-cgi.exe");
    assert_eq!(cfg.php.ini, "C:\\ramp\\php\\php.ini");
}

#[test]
fn every_fault_is_told() {
    let fault = |apache: u16, mysql: u16, php: u16| {
        validate_and_build(doc(apache, mysql, php), DIR).unwrap_err()
    };
    assert_eq!(fault(0, 0, 0), "invalid apache.port: 0");
    assert_eq!(fault(80, 0, 0), "invalid mysql.port: 0");
    assert_eq!(fault(80, 3306, 0), "invalid php.port: 0");
    assert_eq!(fault(7, 7, 7), "apache.port and mysql.port must be different");
    assert_eq!(fault(7, 8, 7), "apache.port and php.port must be different");
    assert_eq!(fault(8, 7, 7), "mysql.port and php.port must be different");
    assert!(validate_and_build(doc(1, 2, 65535), DIR).is_ok());
    assert_eq!(
        validate_and_build(doc(0, 0, 0), "ramp").unwrap_err(),
        "install_dir must be absolute, got: ramp"
    );
}

#[test]
fn files_that_cannot_be_read_are_told() {
    assert_eq!(
        load_config(DIR, ConfigFile::Unreadable(String::from("access denied"))).unwrap_err(),
        "cannot read ramp.toml: access denied"
    );
    assert_eq!(
        load_config("x", ConfigFile::Unreadable(String::from("access denied"))).unwrap_err(),
        "install_dir must be absolute, got: x"
    );
    assert_eq!(
        write_default_config("x", true).unwrap_err(),
        "install_dir must be absolute, got: x"
    );
    assert_eq!(
        write_default_config("C:\\ramp\\..", false).unwrap_err(),
        "path traversal rejected: C:\\ramp\\.."
    );
}

#[test]
fn corrupt_files_fall_back_to_the_defaults() {
    let corrupt = || ConfigFile::Malformed(String::from("missing field"));
    let cfg = load_config(DIR, corrupt()).unwrap();
    assert_eq!((cfg.apache.port, cfg.mysql.port, cfg.php.port), (80, 3306, 9000));
    assert_eq!(cfg.install_dir, DIR);
    assert_eq!(cfg.mysql.data_dir, "C:\\ramp\\mysql\\data");
    assert_eq!(
        load_config("C:\\ramp\\..", corrupt()).unwrap_err(),
        "path traversal rejected: C:\\ramp\\.."
    );
}
