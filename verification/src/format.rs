//! What a configuration file says: its entries, by section and key, and the
//! values that they give.

use crate::config::{
    config_text, default_toml, law_quoting_is_undone, load_fault, quoted, quoted_char,
    ConfigFile, DEFAULT_APACHE_PORT, DEFAULT_MYSQL_PORT, DEFAULT_PHP_PORT,
};
use crate::paths::install_fault;
use crate::text::{decimal, lemma_decimal_is_one_line, lemma_decimal_is_unique};
use vstd::prelude::*;

verus! {

// ---------------------------------------------------------------------------
// Entries
// ---------------------------------------------------------------------------
/// Where a character first stands in a text, or the end of the text.
pub open spec fn first_index(s: Seq<char>, c: char) -> int
    decreases s.len(),
{
    if s.len() == 0 || s[0] == c {
        0
    } else {
        1 + first_index(s.skip(1), c)
    }
}

/// The line begins a section.
pub open spec fn is_header(line: Seq<char>) -> bool {
    line.len() >= 2 && line[0] == '[' && line.last() == ']'
}

/// Key and value of a line, if it is an entry.
pub open spec fn key_and_value(line: Seq<char>) -> Option<(Seq<char>, Seq<char>)> {
    let i = first_index(line, '=');
    if 1 <= i && i + 1 < line.len() && line[i - 1] == ' ' && line[i + 1] == ' ' {
        Some((line.take(i - 1), line.skip(i + 2)))
    } else {
        None
    }
}

/// The entries of a text, whose beginning belongs to a section: for section and
/// key, the text of the value.
pub open spec fn entries(s: Seq<char>, section: Seq<char>) -> Map<
    (Seq<char>, Seq<char>),
    Seq<char>,
>
    decreases s.len(),
    via entries_decreases
{
    if s.len() == 0 {
        Map::empty()
    } else {
        let end = first_index(s, '\n');
        let line = s.take(end);
        let rest = if end < s.len() {
            s.skip(end + 1)
        } else {
            seq![]
        };
        if is_header(line) {
            entries(rest, line.subrange(1, line.len() - 1))
        } else {
            match key_and_value(line) {
                Some((key, value)) => entries(rest, section).insert((section, key), value),
                None => entries(rest, section),
            }
        }
    }
}

#[via_fn]
proof fn entries_decreases(s: Seq<char>, section: Seq<char>) {
    lemma_first_index(s, '\n');
}

proof fn lemma_first_index(s: Seq<char>, c: char)
    ensures
        0 <= first_index(s, c) <= s.len(),
    decreases s.len(),
{
    if s.len() > 0 {
        lemma_first_index(s.skip(1), c);
    }
}

/// A character that does not stand in the first part of a text first stands
/// where it follows that part.
proof fn lemma_first_behind(a: Seq<char>, c: char, b: Seq<char>)
    requires
        forall|i: int| 0 <= i < a.len() ==> (#[trigger] a[i]) != c,
    ensures
        first_index(a.push(c) + b, c) == a.len(),
    decreases a.len(),
{
    let s = a.push(c) + b;
    if a.len() > 0 {
        assert(a[0] != c);
        assert forall|i: int| 0 <= i < a.skip(1).len() implies (#[trigger] a.skip(1)[i]) != c by {
            assert(a.skip(1)[i] == a[i + 1]);
        }
        lemma_first_behind(a.skip(1), c, b);
        assert(s.skip(1) =~= a.skip(1).push(c) + b);
    }
}

// ---------------------------------------------------------------------------
// Values
// ---------------------------------------------------------------------------
/// A text that can stand between quotes: it holds no quote and no control
/// character.
pub open spec fn can_be_quoted(text: Seq<char>) -> bool {
    forall|i: int|
        0 <= i < text.len() ==> (#[trigger] text[i]) != '"' && text[i] as u32 >= 0x20 && text[i]
            as u32 != 0x7f
}

/// The value is this text, between quotes.
pub open spec fn is_text(value: Seq<char>, text: Seq<char>) -> bool {
    can_be_quoted(text) && value == seq!['"'] + quoted(text) + seq!['"']
}

/// The text that a value gives.
pub open spec fn text_value(value: Seq<char>) -> Option<Seq<char>> {
    if exists|text: Seq<char>| is_text(value, text) {
        Some(choose|text: Seq<char>| is_text(value, text))
    } else {
        None
    }
}

/// The value is this port.
pub open spec fn is_port(value: Seq<char>, port: u16) -> bool {
    value == decimal(port as nat)
}

/// The port that a value gives.
pub open spec fn port_value(value: Seq<char>) -> Option<u16> {
    if exists|port: u16| is_port(value, port) {
        Some(choose|port: u16| is_port(value, port))
    } else {
        None
    }
}

/// What a configuration file says.
#[verifier::ext_equal]
pub struct Contents {
    pub install_dir: Seq<char>,
    pub apache: u16,
    pub mysql: u16,
    pub php: u16,
}

/// The port in a section of the file.
pub open spec fn port_in(text: Seq<char>, section: Seq<char>) -> Option<u16> {
    if entries(text, seq![]).contains_key((section, "port"@)) {
        port_value(entries(text, seq![])[(section, "port"@)])
    } else {
        None
    }
}

/// What a text says if it is read as a configuration file. The port of PHP may be
/// left out.
pub open spec fn contents(text: Seq<char>) -> Option<Contents> {
    let all = entries(text, seq![]);
    let dir = if all.contains_key((seq![], "install_dir"@)) {
        text_value(all[(seq![], "install_dir"@)])
    } else {
        None
    };
    let php = if all.contains_key(("php"@, "port"@)) {
        port_in(text, "php"@)
    } else {
        Some(DEFAULT_PHP_PORT)
    };
    match (dir, port_in(text, "apache"@), port_in(text, "mysql"@), php) {
        (Some(install_dir), Some(apache), Some(mysql), Some(php)) => Some(
            Contents { install_dir, apache, mysql, php },
        ),
        _ => None,
    }
}

/// What was read is what the text says, if it says anything.
pub open spec fn reads_as(text: Seq<char>, file: ConfigFile) -> bool {
    contents(text) matches Some(said) ==> file matches ConfigFile::Read(doc) && said == (Contents {
        install_dir: doc.install_dir@,
        apache: doc.apache.port,
        mysql: doc.mysql.port,
        php: doc.php.port,
    })
}

proof fn lemma_text_value(text: Seq<char>)
    requires
        can_be_quoted(text),
    ensures
        text_value(seq!['"'] + quoted(text) + seq!['"']) == Some(text),
{
    let value = seq!['"'] + quoted(text) + seq!['"'];
    assert(is_text(value, text));
    let found = choose|t: Seq<char>| is_text(value, t);
    let inner = value.subrange(1, value.len() - 1);
    assert(inner =~= quoted(text));
    assert(inner =~= quoted(found));
    law_quoting_is_undone(text);
    law_quoting_is_undone(found);
}

proof fn lemma_port_value(port: u16)
    ensures
        port_value(decimal(port as nat)) == Some(port),
{
    let value = decimal(port as nat);
    assert(is_port(value, port));
    let found = choose|p: u16| is_port(value, p);
    lemma_decimal_is_unique(found as nat, port as nat);
}

// ---------------------------------------------------------------------------
// What is written is what is read
// ---------------------------------------------------------------------------
/// The entries of a text whose first line is an entry.
proof fn lemma_entry(
    key: Seq<char>,
    value: Seq<char>,
    rest: Seq<char>,
    section: Seq<char>,
)
    requires
        key.len() > 0,
        key[0] != '[',
        forall|i: int| 0 <= i < key.len() ==> (#[trigger] key[i]) != '=' && key[i] != '\n',
        forall|i: int| 0 <= i < value.len() ==> (#[trigger] value[i]) != '\n',
    ensures
        entries(key + seq![' ', '=', ' '] + value + seq!['\n'] + rest, section) == entries(
            rest,
            section,
        ).insert((section, key), value),
{
    let line = key + seq![' ', '=', ' '] + value;
    let s = line + seq!['\n'] + rest;
    assert(key + seq![' ', '=', ' '] + value + seq!['\n'] + rest =~= s);
    assert forall|i: int| 0 <= i < line.len() implies (#[trigger] line[i]) != '\n' by {
        if i < key.len() {
            assert(line[i] == key[i]);
        } else if i >= key.len() + 3 {
            assert(line[i] == value[i - key.len() - 3]);
        }
    }
    assert(s =~= line.push('\n') + rest);
    lemma_first_behind(line, '\n', rest);
    assert(s.take(line.len() as int) =~= line);
    assert(s.skip(line.len() + 1int) =~= rest);
    assert(line[0] == key[0]);
    let before = key.push(' ');
    assert forall|i: int| 0 <= i < before.len() implies (#[trigger] before[i]) != '=' by {
        if i < key.len() {
            assert(before[i] == key[i]);
        }
    }
    assert(line =~= before.push('=') + (seq![' '] + value));
    lemma_first_behind(before, '=', seq![' '] + value);
    assert(line.take(key.len() as int) =~= key);
    assert(line.skip(key.len() + 3int) =~= value);
}

/// The entries of a text that begins with an empty line and the header of a
/// section.
proof fn lemma_section(name: Seq<char>, rest: Seq<char>, section: Seq<char>)
    requires
        forall|i: int| 0 <= i < name.len() ==> (#[trigger] name[i]) != '\n',
    ensures
        entries(seq!['\n', '['] + name + seq![']', '\n'] + rest, section) == entries(rest, name),
{
    let line = seq!['['] + name + seq![']'];
    let t = line + seq!['\n'] + rest;
    let s = seq!['\n', '['] + name + seq![']', '\n'] + rest;
    assert(s[0] == '\n');
    assert(s.take(0) =~= seq![]);
    assert(s.skip(1) =~= t);
    assert(first_index(seq![], '=') == 0);
    assert(entries(s, section) == entries(t, section));
    assert forall|i: int| 0 <= i < line.len() implies (#[trigger] line[i]) != '\n' by {
        if 1 <= i <= name.len() {
            assert(line[i] == name[i - 1]);
        }
    }
    assert(t =~= line.push('\n') + rest);
    lemma_first_behind(line, '\n', rest);
    assert(t.take(line.len() as int) =~= line);
    assert(t.skip(line.len() + 1int) =~= rest);
    assert(line.last() == ']');
    assert(line.subrange(1, line.len() - 1) =~= name);
}

proof fn lemma_quoted_is_one_line(text: Seq<char>)
    requires
        can_be_quoted(text),
    ensures
        forall|i: int| 0 <= i < quoted(text).len() ==> (#[trigger] quoted(text)[i]) != '\n',
    decreases text.len(),
{
    if text.len() > 0 {
        let front = text.drop_last();
        assert forall|i: int| 0 <= i < front.len() implies (#[trigger] front[i]) != '"' && front[i]
            as u32 >= 0x20 && front[i] as u32 != 0x7f by {
            assert(front[i] == text[i]);
        }
        lemma_quoted_is_one_line(front);
        assert(text[text.len() - 1] as u32 >= 0x20);
        let end = quoted_char(text.last());
        assert forall|i: int| 0 <= i < quoted(text).len() implies (#[trigger] quoted(text)[i])
            != '\n' by {
            if i < quoted(front).len() {
                assert(quoted(text)[i] == quoted(front)[i]);
            } else {
                assert(quoted(text)[i] == end[i - quoted(front).len()]);
            }
        }
    }
}

proof fn lemma_grouped_from_the_right(
    a: Seq<char>,
    b: Seq<char>,
    c: Seq<char>,
    d: Seq<char>,
    rest: Seq<char>,
)
    ensures
        a + b + c + d + rest == a + (b + (c + (d + rest))),
{
    assert(a + b + c + d + rest =~= a + (b + (c + (d + rest))));
}

/// A section with a port in it, as it stands in a configuration file behind the
/// end of a line.
spec fn section(name: Seq<char>, port: u16, rest: Seq<char>) -> Seq<char> {
    seq!['\n', '['] + name + seq![']', '\n'] + ("port"@ + seq![' ', '=', ' '] + decimal(port as nat)
        + seq!['\n'] + rest)
}

proof fn lemma_section_text(name: Seq<char>, link: Seq<char>, port: u16, rest: Seq<char>)
    requires
        link == seq!['\n', '\n', '['] + name + seq![']', '\n'] + "port"@ + seq![' ', '=', ' '],
    ensures
        link + (decimal(port as nat) + (seq!['\n'] + rest)) == seq!['\n'] + section(
            name,
            port,
            rest,
        ),
{
    let value = decimal(port as nat);
    assert(link + (value + (seq!['\n'] + rest)) =~= seq!['\n'] + section(name, port, rest));
}

/// The text of a configuration file, line by line.
proof fn lemma_config_text(install_dir: Seq<char>, apache: u16, mysql: u16, php: u16)
    ensures
        config_text(install_dir, apache, mysql, php) == "install_dir"@ + seq![' ', '=', ' '] + (
        seq!['"'] + quoted(install_dir) + seq!['"']) + seq!['\n'] + section(
            "apache"@,
            apache,
            section("mysql"@, mysql, section("php"@, php, seq![])),
        ),
{
    let q = quoted(install_dir);
    let a = decimal(apache as nat);
    let m = decimal(mysql as nat);
    let p = decimal(php as nat);
    let begin = "install_dir = \""@;
    let la = "\"\n\n[apache]\nport = "@;
    let lm = "\n\n[mysql]\nport = "@;
    let lp = "\n\n[php]\nport = "@;
    let end = "\n"@;
    let la2 = seq!['\n', '\n', '['] + "apache"@ + seq![']', '\n'] + "port"@ + seq![' ', '=', ' '];
    let s3 = section("php"@, php, seq![]);
    let s2 = section("mysql"@, mysql, s3);
    let s1 = section("apache"@, apache, s2);
    lemma_links();
    assert(end =~= seq!['\n'] + seq![]);
    lemma_section_text("php"@, lp, php, seq![]);
    lemma_section_text("mysql"@, lm, mysql, s3);
    lemma_section_text("apache"@, la2, apache, s2);
    lemma_grouped_from_the_right(begin + q + la + a, lm, m, lp, p + end);
    assert(begin + q + la + a + lm + m + lp + p + end =~= begin + q + la + a + lm + m + lp + (p
        + end));
    lemma_grouped_from_the_right(begin, q, la, a, seq!['\n'] + s2);
    lemma_quotes(begin, q, la, la2, a + (seq!['\n'] + s2), s1);
}

proof fn lemma_quotes(
    begin: Seq<char>,
    q: Seq<char>,
    link: Seq<char>,
    shorter: Seq<char>,
    rest: Seq<char>,
    following: Seq<char>,
)
    requires
        begin == "install_dir"@ + seq![' ', '=', ' '] + seq!['"'],
        link == seq!['"'] + shorter,
        shorter + rest == seq!['\n'] + following,
    ensures
        begin + (q + (link + rest)) == "install_dir"@ + seq![' ', '=', ' '] + (seq!['"'] + q
            + seq!['"']) + seq!['\n'] + following,
{
    assert(link + rest =~= seq!['"'] + (shorter + rest));
    assert(begin + (q + (seq!['"'] + (seq!['\n'] + following))) =~= "install_dir"@ + seq![
        ' ',
        '=',
        ' ',
    ] + (seq!['"'] + q + seq!['"']) + seq!['\n'] + following);
}

/// What stands between the values in a configuration file.
proof fn lemma_links()
    ensures
        "install_dir = \""@ == "install_dir"@ + seq![' ', '=', ' '] + seq!['"'],
        "\"\n\n[apache]\nport = "@ == seq!['"'] + (seq!['\n', '\n', '['] + "apache"@ + seq![
            ']',
            '\n',
        ] + "port"@ + seq![' ', '=', ' ']),
        "\n\n[mysql]\nport = "@ == seq!['\n', '\n', '['] + "mysql"@ + seq![']', '\n'] + "port"@
            + seq![' ', '=', ' '],
        "\n\n[php]\nport = "@ == seq!['\n', '\n', '['] + "php"@ + seq![']', '\n'] + "port"@ + seq![
            ' ',
            '=',
            ' ',
        ],
        "\n"@ == seq!['\n'],
{
    reveal_strlit("install_dir = \"");
    reveal_strlit("\"\n\n[apache]\nport = ");
    reveal_strlit("\n\n[mysql]\nport = ");
    reveal_strlit("\n\n[php]\nport = ");
    reveal_strlit("\n");
    reveal_strlit("install_dir");
    reveal_strlit("port");
    reveal_strlit("apache");
    reveal_strlit("mysql");
    reveal_strlit("php");
    assert("install_dir = \""@ =~= "install_dir"@ + seq![' ', '=', ' '] + seq!['"']);
    assert("\"\n\n[apache]\nport = "@ =~= seq!['"'] + (seq!['\n', '\n', '['] + "apache"@ + seq![
        ']',
        '\n',
    ] + "port"@ + seq![' ', '=', ' ']));
    assert("\n\n[mysql]\nport = "@ =~= seq!['\n', '\n', '['] + "mysql"@ + seq![']', '\n'] + "port"@
        + seq![' ', '=', ' ']);
    assert("\n\n[php]\nport = "@ =~= seq!['\n', '\n', '['] + "php"@ + seq![']', '\n'] + "port"@
        + seq![' ', '=', ' ']);
    assert("\n"@ =~= seq!['\n']);
}

/// The entries of a section with a port in it.
proof fn lemma_entries_of_section(
    name: Seq<char>,
    port: u16,
    rest: Seq<char>,
    before: Seq<char>,
)
    requires
        forall|i: int| 0 <= i < name.len() ==> (#[trigger] name[i]) != '\n',
    ensures
        entries(section(name, port, rest), before) == entries(rest, name).insert(
            (name, "port"@),
            decimal(port as nat),
        ),
{
    reveal_strlit("port");
    let value = decimal(port as nat);
    lemma_decimal_is_one_line(port as nat);
    lemma_section(
        name,
        "port"@ + seq![' ', '=', ' '] + value + seq!['\n'] + rest,
        before,
    );
    lemma_entry("port"@, value, rest, name);
}

/// The entries of a configuration file as it is written.
proof fn lemma_entries_of_config_text(
    install_dir: Seq<char>,
    apache: u16,
    mysql: u16,
    php: u16,
)
    requires
        can_be_quoted(install_dir),
    ensures
        entries(config_text(install_dir, apache, mysql, php), seq![]) == Map::<
            (Seq<char>, Seq<char>),
            Seq<char>,
        >::empty().insert(("php"@, "port"@), decimal(php as nat)).insert(
            ("mysql"@, "port"@),
            decimal(mysql as nat),
        ).insert(("apache"@, "port"@), decimal(apache as nat)).insert(
            (seq![], "install_dir"@),
            seq!['"'] + quoted(install_dir) + seq!['"'],
        ),
{
    reveal_strlit("install_dir");
    reveal_strlit("apache");
    reveal_strlit("mysql");
    reveal_strlit("php");
    let dir = seq!['"'] + quoted(install_dir) + seq!['"'];
    let s3 = section("php"@, php, seq![]);
    let s2 = section("mysql"@, mysql, s3);
    let s1 = section("apache"@, apache, s2);
    lemma_quoted_is_one_line(install_dir);
    assert forall|i: int| 0 <= i < dir.len() implies (#[trigger] dir[i]) != '\n' by {
        if 1 <= i <= quoted(install_dir).len() {
            assert(dir[i] == quoted(install_dir)[i - 1]);
        }
    }
    lemma_config_text(install_dir, apache, mysql, php);
    lemma_entry("install_dir"@, dir, s1, seq![]);
    lemma_entries_of_section("apache"@, apache, s2, seq![]);
    lemma_entries_of_section("mysql"@, mysql, s3, "apache"@);
    lemma_entries_of_section("php"@, php, seq![], "mysql"@);
}

/// A configuration file says what was written into it: whoever reads it finds the
/// directory and the ports that it was written for. The directory must be one
/// that can stand between quotes.
pub proof fn law_config_text_reads_back(
    install_dir: Seq<char>,
    apache: u16,
    mysql: u16,
    php: u16,
)
    requires
        can_be_quoted(install_dir),
    ensures
        contents(config_text(install_dir, apache, mysql, php)) == Some(
            Contents { install_dir, apache, mysql, php },
        ),
{
    reveal_strlit("install_dir");
    reveal_strlit("port");
    reveal_strlit("apache");
    reveal_strlit("mysql");
    reveal_strlit("php");
    lemma_entries_of_config_text(install_dir, apache, mysql, php);
    lemma_text_value(install_dir);
    lemma_port_value(apache);
    lemma_port_value(mysql);
    lemma_port_value(php);
    assert("apache"@.len() != "mysql"@.len());
    assert("apache"@.len() != "php"@.len());
    assert("mysql"@.len() != "php"@.len());
    assert("port"@.len() != "install_dir"@.len());
}

/// The default file is always a valid one: reading back what was written gives the
/// default configuration of the install directory.
pub proof fn law_default_file_is_valid(install_dir: Seq<char>, file: ConfigFile)
    requires
        install_fault(install_dir) is None,
        can_be_quoted(install_dir),
        reads_as(default_toml(install_dir), file),
    ensures
        load_fault(install_dir, file) is None,
        file.ports() == (DEFAULT_APACHE_PORT, DEFAULT_MYSQL_PORT, DEFAULT_PHP_PORT),
        file matches ConfigFile::Read(doc) && doc.install_dir@ == install_dir,
{
    law_config_text_reads_back(
        install_dir,
        DEFAULT_APACHE_PORT,
        DEFAULT_MYSQL_PORT,
        DEFAULT_PHP_PORT,
    );
}

/// If a file says some ports, and they are valid, then the configuration that is
/// loaded from it has exactly these ports.
pub proof fn law_written_ports_are_loaded(
    install_dir: Seq<char>,
    written_for: Seq<char>,
    apache: u16,
    mysql: u16,
    php: u16,
    file: ConfigFile,
)
    requires
        install_fault(install_dir) is None,
        can_be_quoted(written_for),
        reads_as(config_text(written_for, apache, mysql, php), file),
        apache > 0 && mysql > 0 && php > 0,
        apache != mysql && apache != php && mysql != php,
    ensures
        load_fault(install_dir, file) is None,
        file.ports().0 == apache,
        file.ports().1 == mysql,
        file.ports().2 == php,
{
    law_config_text_reads_back(written_for, apache, mysql, php);
}

/// The default file says the install directory and the ports 80, 3306 and 9000.
pub proof fn law_default_file_says(install_dir: Seq<char>)
    requires
        can_be_quoted(install_dir),
    ensures
        contents(default_toml(install_dir)) matches Some(said) && said.install_dir == install_dir
            && said.apache == 80 && said.mysql == 3306 && said.php == 9000,
{
    law_config_text_reads_back(
        install_dir,
        DEFAULT_APACHE_PORT,
        DEFAULT_MYSQL_PORT,
        DEFAULT_PHP_PORT,
    );
}

} // verus!
