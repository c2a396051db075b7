//! The configuration file: what a valid one is, and the default one.

use crate::paths::{
    install_fault, law_installed_paths_are_accepted, layout, path_fault, InstallPaths,
};
use crate::state::{ApacheConfig, ConfigView, MysqlConfig, PhpConfig, RampConfig};
use crate::text::{decimal, push_decimal};
use crate::winpath::{goes_up, is_absolute, takes_names};
use vstd::prelude::*;
use vstd::string::StringExecFns;

verus! {

/// What stands in `ramp.toml`.
#[derive(Debug)]
pub struct TomlRoot {
    pub install_dir: String,
    pub apache: TomlApache,
    pub mysql: TomlMysql,
    pub php: TomlPhp,
}

#[derive(Debug)]
pub struct TomlApache {
    pub port: u16,
}

#[derive(Debug)]
pub struct TomlMysql {
    pub port: u16,
}

#[derive(Debug)]
pub struct TomlPhp {
    pub port: u16,
}

/// The port of Apache in the default configuration.
pub const DEFAULT_APACHE_PORT: u16 = 80;

/// The port of MySQL in the default configuration.
pub const DEFAULT_MYSQL_PORT: u16 = 3306;

/// The port of PHP in the default configuration, and if the file does not give
/// one.
pub const DEFAULT_PHP_PORT: u16 = 9000;

impl Default for TomlPhp {
    fn default() -> (php: Self)
        ensures
            php.port == DEFAULT_PHP_PORT,
    {
        TomlPhp { port: DEFAULT_PHP_PORT }
    }
}

/// What is wrong with a configuration: the first of these things. The install
/// directory is not absolute or goes up, a port is zero, or two ports are the
/// same.
pub open spec fn config_fault(
    apache: u16,
    mysql: u16,
    php: u16,
    install_dir: Seq<char>,
) -> Option<Seq<char>> {
    if install_fault(install_dir) is Some {
        install_fault(install_dir)
    } else if apache == 0 {
        Some("invalid apache.port: "@ + decimal(apache as nat))
    } else if mysql == 0 {
        Some("invalid mysql.port: "@ + decimal(mysql as nat))
    } else if php == 0 {
        Some("invalid php.port: "@ + decimal(php as nat))
    } else if apache == mysql {
        Some("apache.port and mysql.port must be different"@)
    } else if apache == php {
        Some("apache.port and php.port must be different"@)
    } else if mysql == php {
        Some("mysql.port and php.port must be different"@)
    } else {
        None
    }
}

/// The configuration with these ports, installed in `install_dir`.
pub open spec fn built_config(
    apache: u16,
    mysql: u16,
    php: u16,
    install_dir: Seq<char>,
) -> ConfigView {
    let paths = layout(install_dir);
    ConfigView {
        install_dir,
        apache_port: apache,
        apache_bin: paths.apache_bin,
        apache_conf: paths.apache_conf,
        mysql_port: mysql,
        mysql_bin: paths.mysql_bin,
        mysql_data_dir: paths.mysql_data,
        mysql_ini: paths.mysql_ini,
        php_port: php,
        php_bin: paths.php_bin,
        php_ini: paths.php_ini,
    }
}

/// Checks what stands in the file, and builds the configuration from it. The
/// install directory is where the program really is, whatever the file says.
pub fn validate_and_build(doc: TomlRoot, install_dir: &str) -> (result: Result<RampConfig, String>)
    ensures
        match result {
            Ok(config) => {
                &&& config_fault(
                    doc.apache.port,
                    doc.mysql.port,
                    doc.php.port,
                    install_dir@,
                ) is None
                &&& config@ == built_config(
                    doc.apache.port,
                    doc.mysql.port,
                    doc.php.port,
                    install_dir@,
                )
            },
            Err(error) => config_fault(
                doc.apache.port,
                doc.mysql.port,
                doc.php.port,
                install_dir@,
            ) == Some(error@),
        },
        result matches Ok(config) ==> {
            let paths = layout(install_dir@);
            &&& config.install_dir@ == install_dir@
            &&& config.apache.port == doc.apache.port
            &&& config.apache.bin@ == paths.apache_bin
            &&& config.apache.conf@ == paths.apache_conf
            &&& config.mysql.port == doc.mysql.port
            &&& config.mysql.bin@ == paths.mysql_bin
            &&& config.mysql.data_dir@ == paths.mysql_data
            &&& config.mysql.ini@ == paths.mysql_ini
            &&& config.php.port == doc.php.port
            &&& config.php.bin@ == paths.php_bin
            &&& config.php.ini@ == paths.php_ini
        },
{
    let paths = match InstallPaths::from_install_dir(install_dir) {
        Ok(paths) => paths,
        Err(error) => {
            return Err(error);
        },
    };
    if doc.apache.port == 0 {
        let mut error = "invalid apache.port: ".to_string();
        push_decimal(&mut error, doc.apache.port as u64);
        return Err(error);
    }
    if doc.mysql.port == 0 {
        let mut error = "invalid mysql.port: ".to_string();
        push_decimal(&mut error, doc.mysql.port as u64);
        return Err(error);
    }
    if doc.php.port == 0 {
        let mut error = "invalid php.port: ".to_string();
        push_decimal(&mut error, doc.php.port as u64);
        return Err(error);
    }
    if doc.apache.port == doc.mysql.port {
        return Err("apache.port and mysql.port must be different".to_string());
    }
    if doc.apache.port == doc.php.port {
        return Err("apache.port and php.port must be different".to_string());
    }
    if doc.mysql.port == doc.php.port {
        return Err("mysql.port and php.port must be different".to_string());
    }
    Ok(
        RampConfig {
            install_dir: install_dir.to_string(),
            apache: ApacheConfig {
                port: doc.apache.port,
                bin: paths.apache_bin,
                conf: paths.apache_conf,
            },
            mysql: MysqlConfig {
                port: doc.mysql.port,
                bin: paths.mysql_bin,
                data_dir: paths.mysql_data,
                ini: paths.mysql_ini,
            },
            php: PhpConfig { port: doc.php.port, bin: paths.php_bin, ini: paths.php_ini },
        },
    )
}

/// What came of reading `ramp.toml`.
#[derive(Debug)]
pub enum ConfigFile {
    /// The file could not be read, for this reason.
    Unreadable(String),
    /// What stands in the file is no configuration, for this reason.
    Malformed(String),
    /// This stands in the file.
    Read(TomlRoot),
}

impl ConfigFile {
    /// The ports of Apache, MySQL and PHP that the file gives. A file that is
    /// corrupt gives those of the default configuration.
    pub open spec fn ports(self) -> (u16, u16, u16) {
        match self {
            ConfigFile::Read(doc) => (doc.apache.port, doc.mysql.port, doc.php.port),
            _ => (DEFAULT_APACHE_PORT, DEFAULT_MYSQL_PORT, DEFAULT_PHP_PORT),
        }
    }
}

/// What is wrong with a configuration file: the first of these things. The
/// install directory is not absolute or goes up, the file could not be read, or
/// its ports are not valid. A corrupt file counts as the default one.
pub open spec fn load_fault(install_dir: Seq<char>, file: ConfigFile) -> Option<Seq<char>> {
    if install_fault(install_dir) is Some {
        install_fault(install_dir)
    } else {
        match file {
            ConfigFile::Unreadable(error) => Some("cannot read ramp.toml: "@ + error@),
            _ => config_fault(file.ports().0, file.ports().1, file.ports().2, install_dir),
        }
    }
}

/// The configuration of the program that is installed in `install_dir`, from
/// what came of reading its configuration file. If the file is corrupt, it is
/// the default configuration.
pub fn load_config(install_dir: &str, file: ConfigFile) -> (result: Result<RampConfig, String>)
    ensures
        match result {
            Ok(config) => {
                &&& load_fault(install_dir@, file) is None
                &&& !(file is Unreadable)
                &&& config@ == built_config(
                    file.ports().0,
                    file.ports().1,
                    file.ports().2,
                    install_dir@,
                )
            },
            Err(error) => load_fault(install_dir@, file) == Some(error@),
        },
        result matches Ok(config) ==> {
            &&& config.install_dir@ == install_dir@
            &&& match file {
                ConfigFile::Read(doc) => {
                    &&& config.apache.port == doc.apache.port
                    &&& config.mysql.port == doc.mysql.port
                    &&& config.php.port == doc.php.port
                },
                ConfigFile::Malformed(_) => {
                    &&& config.apache.port == 80
                    &&& config.mysql.port == 3306
                    &&& config.php.port == 9000
                },
                ConfigFile::Unreadable(_) => false,
            }
        },
{
    if let Err(error) = InstallPaths::from_install_dir(install_dir) {
        return Err(error);
    }
    match file {
        ConfigFile::Unreadable(error) => Err(
            "cannot read ramp.toml: ".to_string().concat(error.as_str()),
        ),
        ConfigFile::Malformed(_) => {
            let doc = TomlRoot {
                install_dir: install_dir.to_string(),
                apache: TomlApache { port: DEFAULT_APACHE_PORT },
                mysql: TomlMysql { port: DEFAULT_MYSQL_PORT },
                php: TomlPhp::default(),
            };
            validate_and_build(doc, install_dir)
        },
        ConfigFile::Read(doc) => validate_and_build(doc, install_dir),
    }
}

/// A corrupt file leads to the default configuration, wherever the program may
/// be installed at all.
pub proof fn law_corrupt_files_fall_back(install_dir: Seq<char>, file: ConfigFile)
    requires
        install_fault(install_dir) is None,
        file is Malformed,
    ensures
        load_fault(install_dir, file) is None,
        file.ports() == (DEFAULT_APACHE_PORT, DEFAULT_MYSQL_PORT, DEFAULT_PHP_PORT),
{
}

/// A character as it stands in a quoted string.
pub open spec fn quoted_char(c: char) -> Seq<char> {
    if c == '\\' {
        seq!['\\', '\\']
    } else {
        seq![c]
    }
}

/// A text as it stands in a quoted string: every backslash is doubled.
pub open spec fn quoted(text: Seq<char>) -> Seq<char>
    decreases text.len(),
{
    if text.len() == 0 {
        seq![]
    } else {
        quoted(text.drop_last()) + quoted_char(text.last())
    }
}

/// What a reader of a quoted string makes of it: two backslashes are one.
pub open spec fn unquoted(text: Seq<char>) -> Seq<char>
    decreases text.len(),
{
    if text.len() == 0 {
        seq![]
    } else if text.len() >= 2 && text[0] == '\\' && text[1] == '\\' {
        seq!['\\'] + unquoted(text.skip(2))
    } else {
        seq![text[0]] + unquoted(text.skip(1))
    }
}

/// The text of a configuration file with these ports.
pub open spec fn config_text(
    install_dir: Seq<char>,
    apache: u16,
    mysql: u16,
    php: u16,
) -> Seq<char> {
    "install_dir = \""@ + quoted(install_dir) + "\"\n\n[apache]\nport = "@ + decimal(
        apache as nat,
    ) + "\n\n[mysql]\nport = "@ + decimal(mysql as nat) + "\n\n[php]\nport = "@ + decimal(
        php as nat,
    ) + "\n"@
}

/// The text of the default configuration file.
pub open spec fn default_toml(install_dir: Seq<char>) -> Seq<char> {
    config_text(install_dir, DEFAULT_APACHE_PORT, DEFAULT_MYSQL_PORT, DEFAULT_PHP_PORT)
}

fn push_quoted(out: &mut String, text: &str)
    ensures
        final(out)@ == old(out)@ + quoted(text@),
{
    let ghost before = out@;
    for c in iter: text.chars()
        invariant
            iter.seq() == text@,
            out@ == before + quoted(text@.take(iter.index() as int)),
    {
        let ghost i = iter.index() as int;
        assert(text@.take(i + 1).drop_last() =~= text@.take(i));
        assert(text@.take(i + 1).last() == c);
        if c == '\\' {
            out.push('\\');
        }
        out.push(c);
        assert(out@ =~= before + quoted(text@.take(i + 1)));
    }
    assert(text@.take(text@.len() as int) =~= text@);
}

/// A file that has to be written.
#[derive(Debug)]
pub struct FileWrite {
    pub path: String,
    pub contents: String,
}

/// What has to be written so that there is a configuration file: nothing if
/// there is one already, and the default file if there is none.
pub fn write_default_config(install_dir: &str, config_exists: bool) -> (result: Result<
    Option<FileWrite>,
    String,
>)
    ensures
        match result {
            Ok(Some(file)) => {
                &&& install_fault(install_dir@) is None
                &&& !config_exists
                &&& file.path@ == layout(install_dir@).config
                &&& file.contents@ == default_toml(install_dir@)
            },
            Ok(None) => install_fault(install_dir@) is None && config_exists,
            Err(error) => install_fault(install_dir@) == Some(error@),
        },
{
    let paths = match InstallPaths::from_install_dir(install_dir) {
        Ok(paths) => paths,
        Err(error) => {
            return Err(error);
        },
    };
    if config_exists {
        return Ok(None);
    }
    let mut contents = "install_dir = \"".to_string();
    push_quoted(&mut contents, install_dir);
    contents.append("\"\n\n[apache]\nport = ");
    push_decimal(&mut contents, DEFAULT_APACHE_PORT as u64);
    contents.append("\n\n[mysql]\nport = ");
    push_decimal(&mut contents, DEFAULT_MYSQL_PORT as u64);
    contents.append("\n\n[php]\nport = ");
    push_decimal(&mut contents, DEFAULT_PHP_PORT as u64);
    contents.append("\n");
    Ok(Some(FileWrite { path: paths.config, contents }))
}

/// A configuration is accepted just if it is installed at an absolute path that
/// does not go up, and its three ports are valid and all different.
pub proof fn law_accepted_configs(apache: u16, mysql: u16, php: u16, install_dir: Seq<char>)
    ensures
        config_fault(apache, mysql, php, install_dir) is None <==> {
            &&& is_absolute(install_dir)
            &&& !goes_up(install_dir)
            &&& 1 <= apache && 1 <= mysql && 1 <= php
            &&& apache != mysql && apache != php && mysql != php
        },
{
}

/// The binaries of a configuration lie in the install directory, where they may
/// be started from.
pub proof fn law_configured_binaries_are_accepted(
    apache: u16,
    mysql: u16,
    php: u16,
    install_dir: Seq<char>,
)
    requires
        config_fault(apache, mysql, php, install_dir) is None,
        takes_names(install_dir),
    ensures
        ({
            let config = built_config(apache, mysql, php, install_dir);
            &&& path_fault(config.apache_bin, config.install_dir, false, false) is None
            &&& path_fault(config.mysql_bin, config.install_dir, false, false) is None
            &&& path_fault(config.php_bin, config.install_dir, false, false) is None
        }),
{
    law_installed_paths_are_accepted(install_dir);
}

proof fn lemma_quoted_front(text: Seq<char>)
    requires
        text.len() > 0,
    ensures
        quoted(text) == quoted_char(text[0]) + quoted(text.skip(1)),
    decreases text.len(),
{
    if text.len() == 1 {
        assert(text.drop_last() =~= seq![]);
        assert(text.skip(1) =~= seq![]);
        assert(quoted(text) =~= quoted_char(text[0]) + quoted(text.skip(1)));
    } else {
        lemma_quoted_front(text.drop_last());
        assert(text.drop_last().skip(1) =~= text.skip(1).drop_last());
        assert(text.skip(1).last() == text.last());
        assert(quoted(text) =~= quoted_char(text[0]) + quoted(text.skip(1)));
    }
}

/// Whoever takes two backslashes for one gets a text back as it was before it
/// was quoted.
pub proof fn law_quoting_is_undone(text: Seq<char>)
    ensures
        unquoted(quoted(text)) == text,
    decreases text.len(),
{
    if text.len() > 0 {
        lemma_quoted_front(text);
        let rest = text.skip(1);
        law_quoting_is_undone(rest);
        let q = quoted(text);
        if text[0] == '\\' {
            assert(q.skip(2) =~= quoted(rest));
        } else {
            assert(q.skip(1) =~= quoted(rest));
        }
        assert(unquoted(q) =~= seq![text[0]] + rest);
        assert(text =~= seq![text[0]] + rest);
    }
}

/// A file that was read is loaded just if the program may be installed where it is
/// and the three ports of the file are valid and different; they are the ports of
/// the configuration, whatever they are. A file that could not be read is never
/// loaded.
pub proof fn law_loaded_ports(install_dir: Seq<char>, file: ConfigFile)
    ensures
        match file {
            ConfigFile::Read(doc) => {
                let (a, m, p) = (doc.apache.port, doc.mysql.port, doc.php.port);
                &&& file.ports().0 == a && file.ports().1 == m && file.ports().2 == p
                &&& load_fault(install_dir, file) is None <==> {
                    &&& install_fault(install_dir) is None
                    &&& a > 0 && m > 0 && p > 0
                    &&& a != m && a != p && m != p
                }
            },
            ConfigFile::Malformed(_) => {
                &&& file.ports().0 == 80 && file.ports().1 == 3306 && file.ports().2 == 9000
                &&& load_fault(install_dir, file) is None <==> install_fault(install_dir) is None
            },
            ConfigFile::Unreadable(error) => {
                &&& load_fault(install_dir, file) is Some
                &&& install_fault(install_dir) is None ==> load_fault(install_dir, file) == Some(
                    "cannot read ramp.toml: "@ + error@,
                )
            },
        },
{
}

/// A configuration has the ports and the install directory that it was built
/// with, and every path from the layout of that directory.
pub proof fn law_built_config(apache: u16, mysql: u16, php: u16, install_dir: Seq<char>)
    ensures
        ({
            let config = built_config(apache, mysql, php, install_dir);
            let paths = layout(install_dir);
            &&& config.install_dir == install_dir
            &&& config.apache_port == apache
            &&& config.mysql_port == mysql
            &&& config.php_port == php
            &&& config.apache_bin == paths.apache_bin
            &&& config.apache_conf == paths.apache_conf
            &&& config.mysql_bin == paths.mysql_bin
            &&& config.mysql_data_dir == paths.mysql_data
            &&& config.mysql_ini == paths.mysql_ini
            &&& config.php_bin == paths.php_bin
            &&& config.php_ini == paths.php_ini
        }),
{
}

/// What is told of a configuration that is not accepted: an invalid port, in the
/// order of the services, and then two ports that are the same.
pub proof fn law_config_faults(apache: u16, mysql: u16, php: u16, install_dir: Seq<char>)
    ensures
        ({
            let fault = config_fault(apache, mysql, php, install_dir);
            let valid = apache > 0 && mysql > 0 && php > 0;
            &&& install_fault(install_dir) is Some ==> fault == install_fault(install_dir)
            &&& install_fault(install_dir) is None ==> {
                &&& apache == 0 ==> fault == Some("invalid apache.port: "@ + decimal(0))
                &&& apache > 0 && mysql == 0 ==> fault == Some("invalid mysql.port: "@ + decimal(0))
                &&& apache > 0 && mysql > 0 && php == 0 ==> fault == Some(
                    "invalid php.port: "@ + decimal(0),
                )
                &&& valid && apache == mysql ==> fault == Some(
                    "apache.port and mysql.port must be different"@,
                )
                &&& valid && apache != mysql && apache == php ==> fault == Some(
                    "apache.port and php.port must be different"@,
                )
                &&& valid && apache != mysql && mysql == php ==> fault == Some(
                    "mysql.port and php.port must be different"@,
                )
            }
        }),
{
}

/// Quoting doubles every backslash and leaves every other character.
pub proof fn law_quoted(text: Seq<char>, c: char)
    ensures
        quoted(seq![]) == Seq::<char>::empty(),
        quoted(text.push(c)) == quoted(text) + (if c == '\\' {
            seq!['\\', '\\']
        } else {
            seq![c]
        }),
{
    assert(text.push(c).drop_last() =~= text);
}

} // verus!
