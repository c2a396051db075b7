//! Where things are in the install directory, and which paths may be trusted.

use crate::winpath::{
    body, body_start, goes_up, has_separator_root, head, is_absolute, is_plain_name, is_sep,
    is_verbatim, joined, law_joined_paths_stay_inside, lemma_no_dots, lemma_prefix_fits, lies_in,
    parts, path_goes_up, path_is_absolute, path_join, path_lies_in, takes_names, PartView,
};
use vstd::prelude::*;
use vstd::string::StringExecFns;

verus! {

/// All paths of an installation.
#[derive(Debug)]
pub struct InstallPaths {
    pub root: String,
    pub config: String,
    pub state_file: String,
    pub log_file: String,
    pub apache_bin: String,
    pub apache_conf: String,
    pub apache_logs: String,
    pub mysql_bin: String,
    pub mysql_data: String,
    pub mysql_ini: String,
    pub php_bin: String,
    pub php_ini: String,
    pub php_logs: String,
}

/// The value of an `InstallPaths`.
#[verifier::ext_equal]
pub struct InstallView {
    pub root: Seq<char>,
    pub config: Seq<char>,
    pub state_file: Seq<char>,
    pub log_file: Seq<char>,
    pub apache_bin: Seq<char>,
    pub apache_conf: Seq<char>,
    pub apache_logs: Seq<char>,
    pub mysql_bin: Seq<char>,
    pub mysql_data: Seq<char>,
    pub mysql_ini: Seq<char>,
    pub php_bin: Seq<char>,
    pub php_ini: Seq<char>,
    pub php_logs: Seq<char>,
}

impl View for InstallPaths {
    type V = InstallView;

    open spec fn view(&self) -> InstallView {
        InstallView {
            root: self.root@,
            config: self.config@,
            state_file: self.state_file@,
            log_file: self.log_file@,
            apache_bin: self.apache_bin@,
            apache_conf: self.apache_conf@,
            apache_logs: self.apache_logs@,
            mysql_bin: self.mysql_bin@,
            mysql_data: self.mysql_data@,
            mysql_ini: self.mysql_ini@,
            php_bin: self.php_bin@,
            php_ini: self.php_ini@,
            php_logs: self.php_logs@,
        }
    }
}

/// The layout of an installation in `root`.
pub open spec fn layout(root: Seq<char>) -> InstallView {
    InstallView {
        root,
        config: joined(root, "ramp.toml"@),
        state_file: joined(root, "ramp.state"@),
        log_file: joined(joined(root, "logs"@), "ramp.log"@),
        apache_bin: joined(joined(joined(root, "apache"@), "bin"@), "httpd.exe"@),
        apache_conf: joined(joined(joined(root, "apache"@), "conf"@), "httpd.conf"@),
        apache_logs: joined(joined(root, "apache"@), "logs"@),
        mysql_bin: joined(joined(joined(root, "mysql"@), "bin"@), "mysqld.exe"@),
        mysql_data: joined(joined(root, "mysql"@), "data"@),
        mysql_ini: joined(joined(root, "mysql"@), "my.ini"@),
        php_bin: joined(joined(root, "php"@), "php-cgi.exe"@),
        php_ini: joined(joined(root, "php"@), "php.ini"@),
        php_logs: joined(joined(root, "php"@), "logs"@),
    }
}

/// A text that is long enough to be a name, and in which nothing separates.
proof fn lemma_plain(name: Seq<char>)
    requires
        name.len() > 2,
        name[1] != ':',
        forall|i: int| 0 <= i < name.len() ==> !is_sep(#[trigger] name[i], false),
    ensures
        is_plain_name(name),
{
    assert(seq!['.'].len() == 1 && seq!['.', '.'].len() == 2);
}

/// The names in the layout are plain.
pub proof fn lemma_layout_names_are_plain()
    ensures
        is_plain_name("ramp.toml"@),
        is_plain_name("ramp.state"@),
        is_plain_name("ramp.log"@),
        is_plain_name("logs"@),
        is_plain_name("apache"@),
        is_plain_name("bin"@),
        is_plain_name("conf"@),
        is_plain_name("httpd.exe"@),
        is_plain_name("httpd.conf"@),
        is_plain_name("mysql"@),
        is_plain_name("mysqld.exe"@),
        is_plain_name("data"@),
        is_plain_name("my.ini"@),
        is_plain_name("php"@),
        is_plain_name("php-cgi.exe"@),
        is_plain_name("php.ini"@),
{
    reveal_strlit("ramp.toml");
    lemma_plain("ramp.toml"@);
    reveal_strlit("ramp.state");
    lemma_plain("ramp.state"@);
    reveal_strlit("ramp.log");
    lemma_plain("ramp.log"@);
    reveal_strlit("logs");
    lemma_plain("logs"@);
    reveal_strlit("apache");
    lemma_plain("apache"@);
    reveal_strlit("bin");
    lemma_plain("bin"@);
    reveal_strlit("conf");
    lemma_plain("conf"@);
    reveal_strlit("httpd.exe");
    lemma_plain("httpd.exe"@);
    reveal_strlit("httpd.conf");
    lemma_plain("httpd.conf"@);
    reveal_strlit("mysql");
    lemma_plain("mysql"@);
    reveal_strlit("mysqld.exe");
    lemma_plain("mysqld.exe"@);
    reveal_strlit("data");
    lemma_plain("data"@);
    reveal_strlit("my.ini");
    lemma_plain("my.ini"@);
    reveal_strlit("php");
    lemma_plain("php"@);
    reveal_strlit("php-cgi.exe");
    lemma_plain("php-cgi.exe"@);
    reveal_strlit("php.ini");
    lemma_plain("php.ini"@);
}

/// What is wrong with an install directory that must be absolute and must not go
/// up: the first of these that does not hold.
pub open spec fn install_fault(install_dir: Seq<char>) -> Option<Seq<char>> {
    if !is_absolute(install_dir) {
        Some("install_dir must be absolute, got: "@ + install_dir)
    } else if goes_up(install_dir) {
        Some("path traversal rejected: "@ + install_dir)
    } else {
        None
    }
}

impl InstallPaths {
    /// The paths of an installation. The install directory has to be absolute and
    /// must not go up.
    pub fn from_install_dir(install_dir: &str) -> (result: Result<Self, String>)
        ensures
            match result {
                Ok(paths) => install_fault(install_dir@) is None && paths@ == layout(install_dir@),
                Err(error) => install_fault(install_dir@) == Some(error@),
            },
    {
        if !path_is_absolute(install_dir) {
            let mut error = "install_dir must be absolute, got: ".to_string();
            error.append(install_dir);
            return Err(error);
        }
        if path_goes_up(install_dir) {
            let mut error = "path traversal rejected: ".to_string();
            error.append(install_dir);
            return Err(error);
        }
        proof {
            lemma_layout_names_are_plain();
        }
        let apache = path_join(install_dir, "apache");
        let mysql = path_join(install_dir, "mysql");
        let php = path_join(install_dir, "php");
        Ok(
            InstallPaths {
                root: install_dir.to_string(),
                config: path_join(install_dir, "ramp.toml"),
                state_file: path_join(install_dir, "ramp.state"),
                log_file: path_join(path_join(install_dir, "logs").as_str(), "ramp.log"),
                apache_bin: path_join(path_join(apache.as_str(), "bin").as_str(), "httpd.exe"),
                apache_conf: path_join(path_join(apache.as_str(), "conf").as_str(), "httpd.conf"),
                apache_logs: path_join(apache.as_str(), "logs"),
                mysql_bin: path_join(path_join(mysql.as_str(), "bin").as_str(), "mysqld.exe"),
                mysql_data: path_join(mysql.as_str(), "data"),
                mysql_ini: path_join(mysql.as_str(), "my.ini"),
                php_bin: path_join(php.as_str(), "php-cgi.exe"),
                php_ini: path_join(php.as_str(), "php.ini"),
                php_logs: path_join(php.as_str(), "logs"),
            },
        )
    }
}

/// What is wrong with a path that must be absolute, must not go up, must lie in
/// the install directory and, unless that is allowed, must not be a symbolic
/// link: the first of these that does not hold.
pub open spec fn path_fault(
    path: Seq<char>,
    install_dir: Seq<char>,
    allow_symlink: bool,
    is_symlink: bool,
) -> Option<Seq<char>> {
    if !is_absolute(path) {
        Some("path must be absolute: "@ + path)
    } else if goes_up(path) {
        Some("path traversal rejected: "@ + path)
    } else if !lies_in(path, install_dir) {
        Some("path "@ + path + " is outside install_dir "@ + install_dir)
    } else if is_symlink && !allow_symlink {
        Some("symlink not allowed for critical path: "@ + path)
    } else {
        None
    }
}

/// Checks a path before something is done with what it names. `is_symlink` says
/// what the file system knows: whether the path names a symbolic link.
pub fn validate_critical_path(
    path: &str,
    install_dir: &str,
    allow_symlink: bool,
    is_symlink: bool,
) -> (result: Result<(), String>)
    ensures
        match result {
            Ok(_) => path_fault(path@, install_dir@, allow_symlink, is_symlink) is None,
            Err(error) => path_fault(path@, install_dir@, allow_symlink, is_symlink) == Some(
                error@,
            ),
        },
{
    if !path_is_absolute(path) {
        let mut error = "path must be absolute: ".to_string();
        error.append(path);
        return Err(error);
    }
    if path_goes_up(path) {
        let mut error = "path traversal rejected: ".to_string();
        error.append(path);
        return Err(error);
    }
    if !path_lies_in(path, install_dir) {
        let mut error = "path ".to_string();
        error.append(path);
        error.append(" is outside install_dir ");
        error.append(install_dir);
        return Err(error);
    }
    if !allow_symlink && is_symlink {
        let mut error = "symlink not allowed for critical path: ".to_string();
        error.append(path);
        return Err(error);
    }
    Ok(())
}

/// A path that is accepted is absolute, does not go up, lies in the install
/// directory, and is a symbolic link only where that is allowed.
pub proof fn law_accepted_paths_are_safe(
    path: Seq<char>,
    install_dir: Seq<char>,
    allow_symlink: bool,
    is_symlink: bool,
)
    ensures
        path_fault(path, install_dir, allow_symlink, is_symlink) is None <==> {
            &&& is_absolute(path)
            &&& !goes_up(path)
            &&& lies_in(path, install_dir)
            &&& is_symlink ==> allow_symlink
        },
{
}

/// A path that is accepted is normal: it consists of a prefix, a root and names,
/// and of no steps up and no dots. In a verbatim path a dot is a part like any
/// other.
pub proof fn law_accepted_paths_are_normal(
    path: Seq<char>,
    install_dir: Seq<char>,
    allow_symlink: bool,
    is_symlink: bool,
)
    requires
        path_fault(path, install_dir, allow_symlink, is_symlink) is None,
        !is_verbatim(path),
    ensures
        !parts(path).contains(PartView::Parent),
        !parts(path).contains(PartView::Current),
{
    lemma_prefix_fits(path);
    lemma_no_dots(path, body_start(path));
    vstd::seq_lib::lemma_seq_concat_contains_all_elements(
        head(path),
        body(path, body_start(path), false),
        PartView::Current,
    );
}

/// A path in the install directory.
spec fn belongs(root: Seq<char>, path: Seq<char>) -> bool {
    is_absolute(path) && takes_names(path) && lies_in(path, root) && !goes_up(path)
}

proof fn lemma_belongs(root: Seq<char>, path: Seq<char>, name: Seq<char>)
    requires
        belongs(root, path),
        is_plain_name(name),
    ensures
        belongs(root, joined(path, name)),
{
    law_joined_paths_stay_inside(path, name);
    let r = parts(root);
    let p = parts(path);
    let q = parts(joined(path, name));
    assert(q.subrange(0, r.len() as int) =~= p.subrange(0, r.len() as int));
}

/// An install directory is accepted just if it is absolute and does not go up.
pub proof fn law_accepted_install_dirs(install_dir: Seq<char>)
    ensures
        install_fault(install_dir) is None <==> is_absolute(install_dir) && !goes_up(install_dir),
{
}

/// Every path of an installation lies in the install directory and is accepted
/// as long as it is no symbolic link, and so are the directories of the services
/// and of the configuration of Apache. The install directory must be one to which
/// names can be added.
pub proof fn law_installed_paths_are_accepted(root: Seq<char>)
    requires
        install_fault(root) is None,
        takes_names(root),
    ensures
        path_fault(layout(root).config, root, false, false) is None,
        path_fault(layout(root).state_file, root, false, false) is None,
        path_fault(layout(root).log_file, root, false, false) is None,
        path_fault(layout(root).apache_bin, root, false, false) is None,
        path_fault(layout(root).apache_conf, root, false, false) is None,
        path_fault(layout(root).apache_logs, root, false, false) is None,
        path_fault(layout(root).mysql_bin, root, false, false) is None,
        path_fault(layout(root).mysql_data, root, false, false) is None,
        path_fault(layout(root).mysql_ini, root, false, false) is None,
        path_fault(layout(root).php_bin, root, false, false) is None,
        path_fault(layout(root).php_ini, root, false, false) is None,
        path_fault(layout(root).php_logs, root, false, false) is None,
        path_fault(joined(root, "apache"@), root, false, false) is None,
        path_fault(joined(joined(root, "apache"@), "conf"@), root, false, false) is None,
        path_fault(joined(root, "mysql"@), root, false, false) is None,
        path_fault(joined(root, "php"@), root, false, false) is None,
{
    lemma_layout_names_are_plain();
    assert(parts(root).subrange(0, parts(root).len() as int) =~= parts(root));
    lemma_belongs(root, root, "ramp.toml"@);
    lemma_belongs(root, root, "ramp.state"@);
    lemma_belongs(root, root, "logs"@);
    lemma_belongs(root, joined(root, "logs"@), "ramp.log"@);
    let apache = joined(root, "apache"@);
    lemma_belongs(root, root, "apache"@);
    lemma_belongs(root, apache, "bin"@);
    lemma_belongs(root, joined(apache, "bin"@), "httpd.exe"@);
    lemma_belongs(root, apache, "conf"@);
    lemma_belongs(root, joined(apache, "conf"@), "httpd.conf"@);
    lemma_belongs(root, apache, "logs"@);
    let mysql = joined(root, "mysql"@);
    lemma_belongs(root, root, "mysql"@);
    lemma_belongs(root, mysql, "bin"@);
    lemma_belongs(root, joined(mysql, "bin"@), "mysqld.exe"@);
    lemma_belongs(root, mysql, "data"@);
    lemma_belongs(root, mysql, "my.ini"@);
    let php = joined(root, "php"@);
    lemma_belongs(root, root, "php"@);
    lemma_belongs(root, php, "php-cgi.exe"@);
    lemma_belongs(root, php, "php.ini"@);
    lemma_belongs(root, php, "logs"@);
}

/// A directory whose components can be counted on to stay as they are when names
/// are added to it.
pub open spec fn is_rooted(root: Seq<char>) -> bool {
    is_absolute(root) && takes_names(root) && (has_separator_root(root) || !is_verbatim(root))
}

proof fn lemma_one(root: Seq<char>, a: Seq<char>)
    requires
        is_rooted(root),
        is_plain_name(a),
    ensures
        is_rooted(joined(root, a)),
        parts(joined(root, a)) == parts(root) + seq![PartView::Name(a)],
{
    law_joined_paths_stay_inside(root, a);
    assert(parts(root).push(PartView::Name(a)) =~= parts(root) + seq![PartView::Name(a)]);
}

proof fn lemma_two(root: Seq<char>, a: Seq<char>, b: Seq<char>)
    requires
        is_rooted(root),
        is_plain_name(a),
        is_plain_name(b),
    ensures
        is_rooted(joined(joined(root, a), b)),
        parts(joined(joined(root, a), b)) == parts(root) + seq![
            PartView::Name(a),
            PartView::Name(b),
        ],
{
    lemma_one(root, a);
    lemma_one(joined(root, a), b);
    assert(parts(root) + seq![PartView::Name(a)] + seq![PartView::Name(b)] =~= parts(root) + seq![
        PartView::Name(a),
        PartView::Name(b),
    ]);
}

proof fn lemma_three(root: Seq<char>, a: Seq<char>, b: Seq<char>, c: Seq<char>)
    requires
        is_rooted(root),
        is_plain_name(a),
        is_plain_name(b),
        is_plain_name(c),
    ensures
        parts(joined(joined(joined(root, a), b), c)) == parts(root) + seq![
            PartView::Name(a),
            PartView::Name(b),
            PartView::Name(c),
        ],
{
    lemma_two(root, a, b);
    lemma_one(joined(joined(root, a), b), c);
    assert(parts(root) + seq![PartView::Name(a), PartView::Name(b)] + seq![PartView::Name(c)]
        =~= parts(root) + seq![PartView::Name(a), PartView::Name(b), PartView::Name(c)]);
}

/// Where the files of RAMP itself are, wherever it is installed.
pub proof fn law_layout(root: Seq<char>)
    requires
        is_rooted(root),
    ensures
        layout(root).root == root,
        parts(layout(root).config) == parts(root) + seq![PartView::Name("ramp.toml"@)],
        parts(layout(root).state_file) == parts(root) + seq![PartView::Name("ramp.state"@)],
        parts(layout(root).log_file) == parts(root) + seq![
            PartView::Name("logs"@),
            PartView::Name("ramp.log"@),
        ],
{
    lemma_layout_names_are_plain();
    lemma_one(root, "ramp.toml"@);
    lemma_one(root, "ramp.state"@);
    lemma_two(root, "logs"@, "ramp.log"@);
}

/// Where Apache is, wherever the program is installed.
pub proof fn law_layout_of_apache(root: Seq<char>)
    requires
        is_rooted(root),
    ensures
        parts(layout(root).apache_bin) == parts(root) + seq![
            PartView::Name("apache"@),
            PartView::Name("bin"@),
            PartView::Name("httpd.exe"@),
        ],
        parts(layout(root).apache_conf) == parts(root) + seq![
            PartView::Name("apache"@),
            PartView::Name("conf"@),
            PartView::Name("httpd.conf"@),
        ],
        parts(layout(root).apache_logs) == parts(root) + seq![
            PartView::Name("apache"@),
            PartView::Name("logs"@),
        ],
{
    lemma_layout_names_are_plain();
    lemma_three(root, "apache"@, "bin"@, "httpd.exe"@);
    lemma_three(root, "apache"@, "conf"@, "httpd.conf"@);
    lemma_two(root, "apache"@, "logs"@);
}

/// Where MySQL is, wherever the program is installed.
pub proof fn law_layout_of_mysql(root: Seq<char>)
    requires
        is_rooted(root),
    ensures
        parts(layout(root).mysql_bin) == parts(root) + seq![
            PartView::Name("mysql"@),
            PartView::Name("bin"@),
            PartView::Name("mysqld.exe"@),
        ],
        parts(layout(root).mysql_data) == parts(root) + seq![
            PartView::Name("mysql"@),
            PartView::Name("data"@),
        ],
        parts(layout(root).mysql_ini) == parts(root) + seq![
            PartView::Name("mysql"@),
            PartView::Name("my.ini"@),
        ],
{
    lemma_layout_names_are_plain();
    lemma_three(root, "mysql"@, "bin"@, "mysqld.exe"@);
    lemma_two(root, "mysql"@, "data"@);
    lemma_two(root, "mysql"@, "my.ini"@);
}

/// Where PHP is, wherever the program is installed.
pub proof fn law_layout_of_php(root: Seq<char>)
    requires
        is_rooted(root),
    ensures
        parts(layout(root).php_bin) == parts(root) + seq![
            PartView::Name("php"@),
            PartView::Name("php-cgi.exe"@),
        ],
        parts(layout(root).php_ini) == parts(root) + seq![
            PartView::Name("php"@),
            PartView::Name("php.ini"@),
        ],
        parts(layout(root).php_logs) == parts(root) + seq![
            PartView::Name("php"@),
            PartView::Name("logs"@),
        ],
{
    lemma_layout_names_are_plain();
    lemma_two(root, "php"@, "php-cgi.exe"@);
    lemma_two(root, "php"@, "php.ini"@);
    lemma_two(root, "php"@, "logs"@);
}

/// The directories that services run in, and that Apache has its configuration
/// in, wherever the program is installed.
pub proof fn law_service_directories(root: Seq<char>)
    requires
        is_rooted(root),
    ensures
        parts(joined(root, "apache"@)) == parts(root) + seq![PartView::Name("apache"@)],
        parts(joined(root, "mysql"@)) == parts(root) + seq![PartView::Name("mysql"@)],
        parts(joined(root, "php"@)) == parts(root) + seq![PartView::Name("php"@)],
        parts(joined(joined(root, "apache"@), "conf"@)) == parts(root) + seq![
            PartView::Name("apache"@),
            PartView::Name("conf"@),
        ],
{
    lemma_layout_names_are_plain();
    lemma_one(root, "apache"@);
    lemma_one(root, "mysql"@);
    lemma_one(root, "php"@);
    lemma_two(root, "apache"@, "conf"@);
}

/// What is told of a path that is not accepted: the first thing that is wrong with
/// it.
pub proof fn law_path_faults(
    path: Seq<char>,
    install_dir: Seq<char>,
    allow_symlink: bool,
    is_symlink: bool,
)
    ensures
        ({
            let fault = path_fault(path, install_dir, allow_symlink, is_symlink);
            &&& !is_absolute(path) ==> fault == Some("path must be absolute: "@ + path)
            &&& is_absolute(path) && goes_up(path) ==> fault == Some(
                "path traversal rejected: "@ + path,
            )
            &&& is_absolute(path) && !goes_up(path) && !lies_in(path, install_dir) ==> fault
                == Some("path "@ + path + " is outside install_dir "@ + install_dir)
            &&& is_absolute(path) && !goes_up(path) && lies_in(path, install_dir) && is_symlink
                && !allow_symlink ==> fault == Some(
                "symlink not allowed for critical path: "@ + path,
            )
        }),
        !is_absolute(install_dir) ==> install_fault(install_dir) == Some(
            "install_dir must be absolute, got: "@ + install_dir,
        ),
        is_absolute(install_dir) && goes_up(install_dir) ==> install_fault(install_dir) == Some(
            "path traversal rejected: "@ + install_dir,
        ),
{
}

} // verus!
