//! The text of Windows paths: prefix, root and components, and how a component
//! is added to a path.

use crate::text::chars_of;
use vstd::prelude::*;
use vstd::string::StringExecFns;

verus! {

// ---------------------------------------------------------------------------
// The grammar
// ---------------------------------------------------------------------------
/// The kinds of prefix that a path can begin with.
#[derive(Debug, Clone, Copy, PartialEq, Eq, Structural)]
pub enum PrefixKind {
    /// `\\?\name`
    Verbatim,
    /// `\\?\UNC\server\share`
    VerbatimUnc,
    /// `\\?\C:`
    VerbatimDisk,
    /// `\\.\device`
    DeviceNs,
    /// `\\server\share`
    Unc,
    /// `C:`
    Disk,
}

/// A prefix: the name, the server or the drive letter in upper case, and the
/// share if there is one.
#[verifier::ext_equal]
pub struct PrefixView {
    pub kind: PrefixKind,
    pub first: Seq<char>,
    pub second: Seq<char>,
}

/// A component of a path.
#[verifier::ext_equal]
pub enum PartView {
    Prefix(PrefixView),
    Root,
    Current,
    Parent,
    Name(Seq<char>),
}

/// Both slashes separate components, but in a verbatim path only the backslash
/// does.
pub open spec fn is_sep(c: char, verbatim: bool) -> bool {
    c == '\\' || (!verbatim && c == '/')
}

/// Where the piece that begins at `i` ends: at the next separator, or at the
/// end of the text.
pub open spec fn piece_end(s: Seq<char>, i: int, verbatim: bool) -> int
    decreases s.len() - i,
{
    if i >= s.len() || is_sep(s[i], verbatim) {
        i
    } else {
        piece_end(s, i + 1, verbatim)
    }
}

/// Where the piece after the one that begins at `i` begins.
pub open spec fn next_piece(s: Seq<char>, i: int, verbatim: bool) -> int {
    let end = piece_end(s, i, verbatim);
    if end < s.len() {
        end + 1
    } else {
        end
    }
}

/// The piece that begins at `i`.
pub open spec fn piece(s: Seq<char>, i: int, verbatim: bool) -> Seq<char> {
    s.subrange(i, piece_end(s, i, verbatim))
}

/// `pattern` stands at `i`, where a slash counts as a backslash.
pub open spec fn stands_at(s: Seq<char>, i: int, pattern: Seq<char>) -> bool {
    &&& i + pattern.len() <= s.len()
    &&& forall|k: int|
        0 <= k < pattern.len() ==> (#[trigger] pattern[k]) == s[i + k] || (pattern[k] == '\\'
            && s[i + k] == '/')
}

/// A letter of the Latin alphabet.
pub open spec fn is_letter(c: char) -> bool {
    'a' <= c <= 'z' || 'A' <= c <= 'Z'
}

/// The upper case of a letter.
pub open spec fn upper(c: char) -> char {
    if 'a' <= c <= 'z' {
        (c as u8 - 32) as u8 as char
    } else {
        c
    }
}

/// A drive letter and a colon stand at `i`.
pub open spec fn drive_at(s: Seq<char>, i: int) -> bool {
    i + 2 <= s.len() && is_letter(s[i]) && s[i + 1] == ':'
}

/// The prefix of a path, if it has one.
pub open spec fn prefix(s: Seq<char>) -> Option<PrefixView> {
    if stands_at(s, 0, seq!['\\', '\\']) {
        if stands_at(s, 2, seq!['?', '\\']) && s[0] == '\\' && s[1] == '\\' && s[3] == '\\' {
            if stands_at(s, 4, seq!['U', 'N', 'C', '\\']) {
                Some(
                    PrefixView {
                        kind: PrefixKind::VerbatimUnc,
                        first: piece(s, 8, true),
                        second: piece(s, next_piece(s, 8, true), true),
                    },
                )
            } else if drive_at(s, 4) && (s.len() == 6 || is_sep(s[6], false)) {
                Some(
                    PrefixView {
                        kind: PrefixKind::VerbatimDisk,
                        first: seq![upper(s[4])],
                        second: seq![],
                    },
                )
            } else {
                Some(
                    PrefixView {
                        kind: PrefixKind::Verbatim,
                        first: piece(s, 4, true),
                        second: seq![],
                    },
                )
            }
        } else if stands_at(s, 2, seq!['.', '\\']) {
            Some(
                PrefixView {
                    kind: PrefixKind::DeviceNs,
                    first: piece(s, 4, false),
                    second: seq![],
                },
            )
        } else {
            let server = piece(s, 2, false);
            let share = piece(s, next_piece(s, 2, false), false);
            if server.len() > 0 && share.len() > 0 {
                Some(PrefixView { kind: PrefixKind::Unc, first: server, second: share })
            } else {
                None
            }
        }
    } else if drive_at(s, 0) {
        Some(PrefixView { kind: PrefixKind::Disk, first: seq![upper(s[0])], second: seq![] })
    } else {
        None
    }
}

impl PrefixView {
    /// How many characters the prefix takes.
    pub open spec fn len(self) -> int {
        let share: int = if self.second.len() > 0 {
            1 + self.second.len() as int
        } else {
            0
        };
        let first: int = self.first.len() as int;
        match self.kind {
            PrefixKind::Verbatim => 4 + first,
            PrefixKind::VerbatimUnc => 8 + first + share,
            PrefixKind::VerbatimDisk => 6,
            PrefixKind::DeviceNs => 4 + first,
            PrefixKind::Unc => 2 + first + share,
            PrefixKind::Disk => 2,
        }
    }

    /// Nothing in the rest of the path has a meaning of its own.
    pub open spec fn verbatim(self) -> bool {
        self.kind is Verbatim || self.kind is VerbatimUnc || self.kind is VerbatimDisk
    }
}

/// How many characters the prefix of a path takes.
pub open spec fn prefix_len(s: Seq<char>) -> int {
    match prefix(s) {
        Some(p) => p.len(),
        None => 0,
    }
}

/// The path is a verbatim one.
pub open spec fn is_verbatim(s: Seq<char>) -> bool {
    prefix(s) matches Some(p) && p.verbatim()
}

/// A separator follows the prefix.
pub open spec fn has_separator_root(s: Seq<char>) -> bool {
    prefix_len(s) < s.len() && is_sep(s[prefix_len(s)], false)
}

/// The path does not depend on a current directory or a current drive.
pub open spec fn is_absolute(s: Seq<char>) -> bool {
    prefix(s) matches Some(p) && (has_separator_root(s) || !(p.kind is Disk))
}

/// The component that a piece stands for. Empty pieces stand for none, and
/// neither do single dots, unless the path is verbatim.
pub open spec fn part_of(text: Seq<char>, verbatim: bool) -> Seq<PartView> {
    if text == seq!['.'] {
        if verbatim {
            seq![PartView::Current]
        } else {
            seq![]
        }
    } else if text == seq!['.', '.'] {
        seq![PartView::Parent]
    } else if text.len() == 0 {
        seq![]
    } else {
        seq![PartView::Name(text)]
    }
}

/// The components from `i` on.
pub open spec fn body(s: Seq<char>, i: int, verbatim: bool) -> Seq<PartView>
    decreases s.len() - i,
    via body_decreases
{
    let end = piece_end(s, i, verbatim);
    let here = part_of(s.subrange(i, end), verbatim);
    if 0 <= i <= end < s.len() {
        here + body(s, end + 1, verbatim)
    } else {
        here
    }
}

#[via_fn]
proof fn body_decreases(s: Seq<char>, i: int, verbatim: bool) {
}

/// Where the components after prefix and root begin.
pub open spec fn body_start(s: Seq<char>) -> int {
    if has_separator_root(s) {
        prefix_len(s) + 1
    } else {
        prefix_len(s)
    }
}

/// Prefix and root of a path, or the dot that a path begins with.
pub open spec fn head(s: Seq<char>) -> Seq<PartView> {
    match prefix(s) {
        Some(p) => {
            let named = seq![PartView::Prefix(p)];
            if has_separator_root(s) || !(p.kind is Disk || p.verbatim()) {
                named.push(PartView::Root)
            } else {
                named
            }
        },
        None => if has_separator_root(s) {
            seq![PartView::Root]
        } else if piece(s, 0, false) == seq!['.'] {
            seq![PartView::Current]
        } else {
            seq![]
        },
    }
}

/// The components of a path.
pub open spec fn parts(s: Seq<char>) -> Seq<PartView> {
    head(s) + body(s, body_start(s), is_verbatim(s))
}

/// Behind prefix and root of a path that is not verbatim, a single dot stands for
/// nothing.
pub proof fn lemma_no_dots(s: Seq<char>, i: int)
    requires
        0 <= i <= s.len(),
    ensures
        !body(s, i, false).contains(PartView::Current),
    decreases s.len() - i,
{
    lemma_piece_end(s, i, false);
    let end = piece_end(s, i, false);
    let here = part_of(s.subrange(i, end), false);
    if end < s.len() {
        lemma_no_dots(s, end + 1);
        vstd::seq_lib::lemma_seq_concat_contains_all_elements(
            here,
            body(s, end + 1, false),
            PartView::Current,
        );
    }
}

/// `base` is the path itself or one of the directories that it lies in.
pub open spec fn lies_in(s: Seq<char>, base: Seq<char>) -> bool {
    parts(base).is_prefix_of(parts(s))
}

/// The path goes up somewhere.
pub open spec fn goes_up(s: Seq<char>) -> bool {
    parts(s).contains(PartView::Parent)
}

// ---------------------------------------------------------------------------
// The last component
// ---------------------------------------------------------------------------
/// Where the last piece from `i` on that stands for a component begins and ends,
/// if there is one.
pub open spec fn last_piece(s: Seq<char>, i: int, verbatim: bool) -> Option<(int, int)>
    decreases s.len() - i,
{
    let end = piece_end(s, i, verbatim);
    let here = if part_of(s.subrange(i, end), verbatim).len() > 0 {
        Some((i, end))
    } else {
        None
    };
    if 0 <= i <= end < s.len() {
        match last_piece(s, end + 1, verbatim) {
            Some(later) => Some(later),
            None => here,
        }
    } else {
        here
    }
}

/// Where the name of what a path names begins and ends. A path that ends with its
/// root or goes up in the end has no such name.
pub open spec fn file_name(s: Seq<char>) -> Option<(int, int)> {
    match last_piece(s, body_start(s), is_verbatim(s)) {
        Some((a, b)) if s.subrange(a, b) != seq!['.'] && s.subrange(a, b) != seq!['.', '.'] => Some(
            (a, b),
        ),
        _ => None,
    }
}

/// Where the last dot of a name is; one before its beginning if it has none.
pub open spec fn last_dot(name: Seq<char>) -> int
    decreases name.len(),
{
    if name.len() == 0 {
        -1
    } else if name.last() == '.' {
        name.len() - 1
    } else {
        last_dot(name.drop_last())
    }
}

/// How many characters of a name stand before its extension. A dot at the
/// beginning begins no extension.
pub open spec fn stem_len(name: Seq<char>) -> int {
    if last_dot(name) > 0 {
        last_dot(name)
    } else {
        name.len() as int
    }
}

/// The path with another extension. What has no name stays as it is.
pub open spec fn with_extension(s: Seq<char>, extension: Seq<char>) -> Seq<char> {
    match file_name(s) {
        Some((a, b)) => s.take(a + stem_len(s.subrange(a, b))).push('.') + extension,
        None => s,
    }
}

/// A relative path that begins with a dot.
pub open spec fn begins_with_dot(s: Seq<char>) -> bool {
    prefix(s) is None && !has_separator_root(s) && piece(s, 0, false) == seq!['.']
}

/// Where the text ends when the last component from `i` on is taken away: behind
/// the component before it, or at `from` if that is the only one.
pub open spec fn end_without_last(s: Seq<char>, i: int, from: int, verbatim: bool) -> Option<int>
    decreases s.len() - i,
{
    let end = piece_end(s, i, verbatim);
    let here = part_of(s.subrange(i, end), verbatim).len() > 0;
    let behind = if here {
        end
    } else {
        from
    };
    let later = if 0 <= i <= end < s.len() {
        end_without_last(s, end + 1, behind, verbatim)
    } else {
        None
    };
    match later {
        Some(k) => Some(k),
        None => if here {
            Some(from)
        } else {
            None
        },
    }
}

/// The directory that a path lies in. A prefix and a root lie in none.
pub open spec fn parent(s: Seq<char>) -> Option<Seq<char>> {
    let from = if begins_with_dot(s) {
        1
    } else {
        body_start(s)
    };
    match end_without_last(s, body_start(s), from, is_verbatim(s)) {
        Some(k) => Some(s.take(k)),
        None => if begins_with_dot(s) {
            Some(seq![])
        } else {
            None
        },
    }
}

// ---------------------------------------------------------------------------
// Joining
// ---------------------------------------------------------------------------
/// A name that stands for one component, wherever it is put.
pub open spec fn is_plain_name(name: Seq<char>) -> bool {
    &&& name.len() > 0
    &&& forall|i: int| 0 <= i < name.len() ==> !is_sep(#[trigger] name[i], false)
    &&& name != seq!['.']
    &&& name != seq!['.', '.']
    &&& !drive_at(name, 0)
}

/// The text of a component of a verbatim path.
pub open spec fn part_text(part: PartView) -> Seq<char> {
    match part {
        PartView::Current => seq!['.'],
        PartView::Parent => seq!['.', '.'],
        PartView::Name(name) => name,
        _ => seq![],
    }
}

/// A prefix followed by components, each after a backslash.
pub open spec fn rendered(start: Seq<char>, names: Seq<PartView>) -> Seq<char>
    decreases names.len(),
{
    if names.len() == 0 {
        start
    } else {
        rendered(start, names.drop_last()).push('\\') + part_text(names.last())
    }
}

/// The path of something named `name` in the directory `base`. The text of a
/// verbatim path is put together anew; behind any other path the name is added,
/// after a backslash where one is needed.
pub open spec fn joined(base: Seq<char>, name: Seq<char>) -> Seq<char> {
    if is_verbatim(base) {
        rendered(base.take(prefix_len(base)), body(base, body_start(base), true)).push('\\') + name
    } else if base.len() == 0 || is_sep(base.last(), false) || (prefix(base) matches Some(p)
        && p.kind is Disk && base.len() == 2) {
        base + name
    } else {
        base.push('\\') + name
    }
}

// ---------------------------------------------------------------------------
// Executable versions
// ---------------------------------------------------------------------------
/// A component of a path.
#[derive(Debug)]
pub enum Part {
    Prefix { kind: PrefixKind, first: Vec<char>, second: Vec<char> },
    Root,
    Current,
    Parent,
    Name(Vec<char>),
}

impl View for Part {
    type V = PartView;

    open spec fn view(&self) -> PartView {
        match self {
            Part::Prefix { kind, first, second } => PartView::Prefix(
                PrefixView { kind: *kind, first: first@, second: second@ },
            ),
            Part::Root => PartView::Root,
            Part::Current => PartView::Current,
            Part::Parent => PartView::Parent,
            Part::Name(name) => PartView::Name(name@),
        }
    }
}

/// The values of a list of components.
pub open spec fn parts_view(list: Seq<Part>) -> Seq<PartView> {
    list.map_values(|part: Part| part@)
}

fn same_chars(a: &Vec<char>, b: &Vec<char>) -> (same: bool)
    ensures
        same == (a@ == b@),
{
    if a.len() != b.len() {
        return false;
    }
    let mut i: usize = 0;
    while i < a.len()
        invariant
            i <= a@.len() == b@.len(),
            forall|k: int| 0 <= k < i ==> a@[k] == b@[k],
        decreases a@.len() - i,
    {
        if a[i] != b[i] {
            return false;
        }
        i = i + 1;
    }
    assert(a@ =~= b@);
    true
}

fn copy_range(s: &Vec<char>, from: usize, to: usize) -> (out: Vec<char>)
    requires
        from <= to <= s@.len(),
    ensures
        out@ == s@.subrange(from as int, to as int),
{
    let mut out: Vec<char> = Vec::new();
    let mut i: usize = from;
    while i < to
        invariant
            from <= i <= to <= s@.len(),
            out@ == s@.subrange(from as int, i as int),
        decreases to - i,
    {
        out.push(s[i]);
        i = i + 1;
        assert(out@ =~= s@.subrange(from as int, i as int));
    }
    out
}

fn sep(c: char, verbatim: bool) -> (b: bool)
    ensures
        b == is_sep(c, verbatim),
{
    c == '\\' || (!verbatim && c == '/')
}

proof fn lemma_piece_end(s: Seq<char>, i: int, verbatim: bool)
    requires
        0 <= i <= s.len(),
    ensures
        i <= piece_end(s, i, verbatim) <= s.len(),
        forall|k: int|
            i <= k < piece_end(s, i, verbatim) ==> !is_sep(#[trigger] s[k], verbatim),
        piece_end(s, i, verbatim) < s.len() ==> is_sep(s[piece_end(s, i, verbatim)], verbatim),
    decreases s.len() - i,
{
    if i < s.len() && !is_sep(s[i], verbatim) {
        lemma_piece_end(s, i + 1, verbatim);
    }
}

fn find_piece_end(s: &Vec<char>, start: usize, verbatim: bool) -> (end: usize)
    requires
        start <= s@.len(),
    ensures
        end == piece_end(s@, start as int, verbatim),
        start <= end <= s@.len(),
{
    let mut end: usize = start;
    while end < s.len() && !sep(s[end], verbatim)
        invariant
            start <= end <= s@.len(),
            piece_end(s@, start as int, verbatim) == piece_end(s@, end as int, verbatim),
        decreases s@.len() - end,
    {
        end = end + 1;
    }
    end
}

fn find_next_piece(s: &Vec<char>, start: usize, verbatim: bool) -> (next: usize)
    requires
        start <= s@.len(),
    ensures
        next == next_piece(s@, start as int, verbatim),
        start <= next <= s@.len(),
{
    let end: usize = find_piece_end(s, start, verbatim);
    if end < s.len() {
        end + 1
    } else {
        end
    }
}

/// A piece of `s`.
fn copy_piece(s: &Vec<char>, start: usize, verbatim: bool) -> (out: Vec<char>)
    requires
        start <= s@.len(),
    ensures
        out@ == piece(s@, start as int, verbatim),
{
    let end: usize = find_piece_end(s, start, verbatim);
    copy_range(s, start, end)
}

/// A character counts as another: it is the same, or a slash for a backslash.
fn counts_as(c: char, pattern: char) -> (b: bool)
    ensures
        b == (pattern == c || (pattern == '\\' && c == '/')),
{
    pattern == c || (pattern == '\\' && c == '/')
}

fn pair_at(s: &Vec<char>, i: usize, a: char, b: char) -> (found: bool)
    requires
        i <= 8,
    ensures
        found == stands_at(s@, i as int, seq![a, b]),
{
    let found = s.len() >= 2 && s.len() - 2 >= i && counts_as(s[i], a) && counts_as(s[i + 1], b);
    proof {
        let pattern = seq![a, b];
        assert(pattern[0] == a && pattern[1] == b);
    }
    found
}

fn unc_at(s: &Vec<char>) -> (found: bool)
    ensures
        found == stands_at(s@, 4, seq!['U', 'N', 'C', '\\']),
{
    let found = s.len() >= 8 && counts_as(s[4], 'U') && counts_as(s[5], 'N') && counts_as(
        s[6],
        'C',
    ) && counts_as(s[7], '\\');
    proof {
        let pattern = seq!['U', 'N', 'C', '\\'];
        assert(pattern[0] == 'U' && pattern[1] == 'N' && pattern[2] == 'C' && pattern[3] == '\\');
    }
    found
}

fn drive_found(s: &Vec<char>, i: usize) -> (found: bool)
    requires
        i <= 8,
    ensures
        found == drive_at(s@, i as int),
{
    s.len() >= 2 && s.len() - 2 >= i && letter(s[i]) && s[i + 1] == ':'
}

fn letter(c: char) -> (b: bool)
    ensures
        b == is_letter(c),
{
    ('a' <= c && c <= 'z') || ('A' <= c && c <= 'Z')
}

fn to_upper(c: char) -> (u: char)
    ensures
        u == upper(c),
{
    if 'a' <= c && c <= 'z' {
        (c as u8 - 32) as char
    } else {
        c
    }
}

/// A prefix as it was found in a text.
struct Prefix {
    kind: PrefixKind,
    first: Vec<char>,
    second: Vec<char>,
}

impl View for Prefix {
    type V = PrefixView;

    closed spec fn view(&self) -> PrefixView {
        PrefixView { kind: self.kind, first: self.first@, second: self.second@ }
    }
}

fn find_prefix(s: &Vec<char>) -> (found: Option<Prefix>)
    ensures
        match found {
            Some(p) => prefix(s@) == Some(p@),
            None => prefix(s@) is None,
        },
{
    if pair_at(s, 0, '\\', '\\') {
        if pair_at(s, 2, '?', '\\') && s[0] == '\\' && s[1] == '\\' && s[3] == '\\' {
            if unc_at(s) {
                let first = copy_piece(s, 8, true);
                let second = copy_piece(s, find_next_piece(s, 8, true), true);
                Some(Prefix { kind: PrefixKind::VerbatimUnc, first, second })
            } else if drive_found(s, 4) && (s.len() == 6 || sep(s[6], false)) {
                let mut first: Vec<char> = Vec::new();
                first.push(to_upper(s[4]));
                assert(first@ =~= seq![upper(s@[4])]);
                let second: Vec<char> = Vec::new();
                assert(second@ =~= seq![]);
                Some(Prefix { kind: PrefixKind::VerbatimDisk, first, second })
            } else {
                let first = copy_piece(s, 4, true);
                let second: Vec<char> = Vec::new();
                assert(second@ =~= seq![]);
                Some(Prefix { kind: PrefixKind::Verbatim, first, second })
            }
        } else if pair_at(s, 2, '.', '\\') {
            let first = copy_piece(s, 4, false);
            let second: Vec<char> = Vec::new();
            assert(second@ =~= seq![]);
            Some(Prefix { kind: PrefixKind::DeviceNs, first, second })
        } else {
            let first = copy_piece(s, 2, false);
            let second = copy_piece(s, find_next_piece(s, 2, false), false);
            if first.len() > 0 && second.len() > 0 {
                Some(Prefix { kind: PrefixKind::Unc, first, second })
            } else {
                None
            }
        }
    } else if drive_found(s, 0) {
        let mut first: Vec<char> = Vec::new();
        first.push(to_upper(s[0]));
        assert(first@ =~= seq![upper(s@[0])]);
        let second: Vec<char> = Vec::new();
        assert(second@ =~= seq![]);
        Some(Prefix { kind: PrefixKind::Disk, first, second })
    } else {
        None
    }
}

/// Prefix and root lie within the path.
pub proof fn lemma_prefix_fits(s: Seq<char>)
    ensures
        0 <= prefix_len(s) <= s.len(),
        0 <= body_start(s) <= s.len(),
{
    if stands_at(s, 0, seq!['\\', '\\']) {
        assert(seq!['\\', '\\'].len() == 2);
        if stands_at(s, 2, seq!['?', '\\']) && s[0] == '\\' && s[1] == '\\' && s[3] == '\\' {
            assert(seq!['?', '\\'].len() == 2);
            if stands_at(s, 4, seq!['U', 'N', 'C', '\\']) {
                assert(seq!['U', 'N', 'C', '\\'].len() == 4);
                lemma_piece_end(s, 8, true);
                lemma_piece_end(s, next_piece(s, 8, true), true);
            } else {
                lemma_piece_end(s, 4, true);
            }
        } else if stands_at(s, 2, seq!['.', '\\']) {
            assert(seq!['.', '\\'].len() == 2);
            lemma_piece_end(s, 4, false);
        } else {
            lemma_piece_end(s, 2, false);
            lemma_piece_end(s, next_piece(s, 2, false), false);
        }
    }
}

impl Prefix {
    fn size(&self, s: &Vec<char>) -> (size: usize)
        requires
            prefix(s@) == Some(self@),
        ensures
            size == self@.len(),
            size == prefix_len(s@),
            size <= s@.len(),
    {
        proof {
            lemma_prefix_fits(s@);
        }
        let len: usize = s.len();
        assert(self@.len() <= len);
        match self.kind {
            PrefixKind::Verbatim | PrefixKind::DeviceNs => 4 + self.first.len(),
            PrefixKind::VerbatimUnc => {
                if self.second.len() > 0 {
                    8 + self.first.len() + 1 + self.second.len()
                } else {
                    8 + self.first.len()
                }
            },
            PrefixKind::VerbatimDisk => 6,
            PrefixKind::Unc => {
                if self.second.len() > 0 {
                    2 + self.first.len() + 1 + self.second.len()
                } else {
                    2 + self.first.len()
                }
            },
            PrefixKind::Disk => 2,
        }
    }

    fn is_verbatim(&self) -> (b: bool)
        ensures
            b == self@.verbatim(),
    {
        match self.kind {
            PrefixKind::Verbatim | PrefixKind::VerbatimUnc | PrefixKind::VerbatimDisk => true,
            _ => false,
        }
    }
}

/// What stands at the beginning of a text.
struct Start {
    prefix: Option<Prefix>,
    prefix_len: usize,
    root: bool,
    verbatim: bool,
    body_start: usize,
}

impl Start {
    spec fn describes(self, s: Seq<char>) -> bool {
        &&& match self.prefix {
            Some(p) => prefix(s) == Some(p@),
            None => prefix(s) is None,
        }
        &&& self.prefix_len == prefix_len(s)
        &&& self.prefix_len <= s.len()
        &&& self.root == has_separator_root(s)
        &&& self.verbatim == is_verbatim(s)
        &&& self.body_start == body_start(s)
        &&& self.body_start <= s.len()
    }
}

fn find_start(s: &Vec<char>) -> (start: Start)
    ensures
        start.describes(s@),
{
    let prefix = find_prefix(s);
    let mut prefix_len: usize = 0;
    let mut verbatim = false;
    if let Some(p) = &prefix {
        prefix_len = p.size(s);
        verbatim = p.is_verbatim();
    }
    let root = prefix_len < s.len() && sep(s[prefix_len], false);
    let body_start: usize = if root {
        prefix_len + 1
    } else {
        prefix_len
    };
    Start { prefix, prefix_len, root, verbatim, body_start }
}

fn push_part(list: &mut Vec<Part>, part: Part)
    ensures
        parts_view(final(list)@) == parts_view(old(list)@).push(part@),
{
    let ghost before = list@;
    list.push(part);
    assert(parts_view(list@) =~= parts_view(before).push(part@));
}

/// Appends the component that a piece stands for.
fn push_piece(list: &mut Vec<Part>, text: Vec<char>, verbatim: bool)
    ensures
        parts_view(final(list)@) == parts_view(old(list)@) + part_of(text@, verbatim),
{
    let ghost before = parts_view(list@);
    if text.len() == 1 && text[0] == '.' {
        assert(text@ =~= seq!['.']);
        if verbatim {
            push_part(list, Part::Current);
        }
    } else if text.len() == 2 && text[0] == '.' && text[1] == '.' {
        assert(text@ =~= seq!['.', '.']);
        assert(seq!['.', '.'].len() != seq!['.'].len());
        push_part(list, Part::Parent);
    } else {
        assert(text@ != seq!['.']);
        assert(text@ != seq!['.', '.']);
        if text.len() > 0 {
            push_part(list, Part::Name(text));
        }
    }
    assert(parts_view(list@) =~= before + part_of(text@, verbatim));
}

fn push_body(list: &mut Vec<Part>, s: &Vec<char>, start: usize, verbatim: bool)
    requires
        start <= s@.len(),
    ensures
        parts_view(final(list)@) == parts_view(old(list)@) + body(s@, start as int, verbatim),
{
    let ghost before = parts_view(list@);
    let mut i: usize = start;
    let mut end: usize = find_piece_end(s, i, verbatim);
    while end < s.len()
        invariant
            i <= end <= s@.len(),
            end == piece_end(s@, i as int, verbatim),
            parts_view(list@) + body(s@, i as int, verbatim) == before + body(
                s@,
                start as int,
                verbatim,
            ),
        decreases s@.len() - end,
    {
        let ghost so_far = parts_view(list@);
        push_piece(list, copy_range(s, i, end), verbatim);
        assert(parts_view(list@) + body(s@, end + 1, verbatim) =~= so_far + body(
            s@,
            i as int,
            verbatim,
        ));
        i = end + 1;
        end = find_piece_end(s, i, verbatim);
    }
    push_piece(list, copy_range(s, i, end), verbatim);
}

/// The piece at `start` is a single dot.
fn dot_at(s: &Vec<char>, start: usize) -> (b: bool)
    requires
        start <= s@.len(),
    ensures
        b == (piece(s@, start as int, false) == seq!['.']),
{
    let text = copy_piece(s, start, false);
    let b = text.len() == 1 && text[0] == '.';
    proof {
        if b {
            assert(text@ =~= seq!['.']);
        }
    }
    b
}

fn find_parts(s: &Vec<char>) -> (list: Vec<Part>)
    ensures
        parts_view(list@) == parts(s@),
{
    let Start { prefix, root, verbatim, body_start, .. } = find_start(s);
    let mut list: Vec<Part> = Vec::new();
    assert(parts_view(list@) =~= seq![]);
    match prefix {
        Some(p) => {
            let kind = p.kind;
            push_part(
                &mut list,
                Part::Prefix { kind: p.kind, first: p.first, second: p.second },
            );
            if root || !(kind == PrefixKind::Disk || verbatim) {
                push_part(&mut list, Part::Root);
            }
        },
        None => {
            if root {
                push_part(&mut list, Part::Root);
            } else if dot_at(s, 0) {
                push_part(&mut list, Part::Current);
            }
        },
    }
    assert(parts_view(list@) =~= head(s@));
    push_body(&mut list, s, body_start, verbatim);
    list
}

/// Whether a path is absolute.
pub fn path_is_absolute(path: &str) -> (b: bool)
    ensures
        b == is_absolute(path@),
{
    let s = chars_of(path);
    let start = find_start(&s);
    match start.prefix {
        Some(p) => start.root || p.kind != PrefixKind::Disk,
        None => false,
    }
}

/// The components of a path.
pub fn path_parts(path: &str) -> (list: Vec<Part>)
    ensures
        parts_view(list@) == parts(path@),
{
    find_parts(&chars_of(path))
}

fn same_part(a: &Part, b: &Part) -> (same: bool)
    ensures
        same == (a@ == b@),
{
    match (a, b) {
        (
            Part::Prefix { kind: k, first: f, second: s },
            Part::Prefix { kind: l, first: g, second: t },
        ) => *k == *l && same_chars(f, g) && same_chars(s, t),
        (Part::Root, Part::Root) => true,
        (Part::Current, Part::Current) => true,
        (Part::Parent, Part::Parent) => true,
        (Part::Name(n), Part::Name(m)) => same_chars(n, m),
        _ => false,
    }
}

/// Whether a path is `base` or lies in it. Only whole components count.
pub fn path_lies_in(path: &str, base: &str) -> (b: bool)
    ensures
        b == lies_in(path@, base@),
{
    let list = path_parts(path);
    let outer = path_parts(base);
    let ghost p = parts(path@);
    let ghost q = parts(base@);
    if outer.len() > list.len() {
        return false;
    }
    let mut i: usize = 0;
    while i < outer.len()
        invariant
            i <= outer@.len() <= list@.len(),
            p == parts_view(list@),
            q == parts_view(outer@),
            p == parts(path@),
            q == parts(base@),
            forall|k: int| 0 <= k < i ==> p[k] == q[k],
        decreases outer@.len() - i,
    {
        if !same_part(&list[i], &outer[i]) {
            assert(p[i as int] != q[i as int]);
            assert(!lies_in(path@, base@)) by {
                if q.is_prefix_of(p) {
                    assert(p.subrange(0, q.len() as int)[i as int] == q[i as int]);
                }
            }
            return false;
        }
        i = i + 1;
    }
    assert(p.subrange(0, q.len() as int) =~= q);
    true
}

/// Whether a path goes up somewhere.
pub fn path_goes_up(path: &str) -> (b: bool)
    ensures
        b == goes_up(path@),
{
    let list = path_parts(path);
    let ghost p = parts(path@);
    let mut i: usize = 0;
    while i < list.len()
        invariant
            i <= list@.len(),
            p == parts_view(list@),
            p == parts(path@),
            forall|k: int| 0 <= k < i ==> p[k] != PartView::Parent,
        decreases list@.len() - i,
    {
        if let Part::Parent = &list[i] {
            assert(p[i as int] == PartView::Parent);
            return true;
        }
        i = i + 1;
    }
    false
}

fn push_chars(out: &mut String, chars: &Vec<char>, from: usize, to: usize)
    requires
        from <= to <= chars@.len(),
    ensures
        final(out)@ == old(out)@ + chars@.subrange(from as int, to as int),
{
    let ghost before = out@;
    let mut i: usize = from;
    while i < to
        invariant
            from <= i <= to <= chars@.len(),
            out@ == before + chars@.subrange(from as int, i as int),
        decreases to - i,
    {
        out.push(chars[i]);
        i = i + 1;
        assert(out@ =~= before + chars@.subrange(from as int, i as int));
    }
    assert(out@ =~= before + chars@.subrange(from as int, to as int));
}

fn push_part_text(out: &mut String, part: &Part)
    requires
        !(part@ is Prefix),
    ensures
        final(out)@ == old(out)@ + part_text(part@),
{
    let ghost before = out@;
    match part {
        Part::Current => out.push('.'),
        Part::Parent => {
            out.push('.');
            out.push('.');
        },
        Part::Name(name) => {
            push_chars(out, name, 0, name.len());
            assert(name@.subrange(0, name@.len() as int) =~= name@);
        },
        _ => {},
    }
    assert(out@ =~= before + part_text(part@));
}

proof fn lemma_body_parts(s: Seq<char>, i: int, verbatim: bool)
    requires
        0 <= i <= s.len(),
    ensures
        forall|k: int|
            0 <= k < body(s, i, verbatim).len() ==> {
                let part = #[trigger] body(s, i, verbatim)[k];
                &&& !(part is Prefix)
                &&& !(part is Root)
                &&& part_of(part_text(part), verbatim) == seq![part]
                &&& forall|j: int|
                    0 <= j < part_text(part).len() ==> !is_sep(
                        #[trigger] part_text(part)[j],
                        verbatim,
                    )
            },
    decreases s.len() - i,
{
    lemma_piece_end(s, i, verbatim);
    let end = piece_end(s, i, verbatim);
    let text = s.subrange(i, end);
    let here = part_of(text, verbatim);
    assert(seq!['.', '.'].len() != seq!['.'].len());
    assert(here.len() > 0 ==> part_text(here[0]) == text);
    if end < s.len() {
        lemma_body_parts(s, end + 1, verbatim);
    }
}

/// The text of a verbatim path, put together anew.
fn render_verbatim(s: &Vec<char>, prefix_len: usize, body_start: usize) -> (path: String)
    requires
        prefix_len <= s@.len(),
        body_start <= s@.len(),
    ensures
        path@ == rendered(s@.take(prefix_len as int), body(s@, body_start as int, true)),
{
    let mut list: Vec<Part> = Vec::new();
    assert(parts_view(list@) =~= seq![]);
    push_body(&mut list, s, body_start, true);
    let ghost names = body(s@, body_start as int, true);
    assert(parts_view(list@) =~= names);
    proof {
        lemma_body_parts(s@, body_start as int, true);
    }
    let mut path = String::new();
    push_chars(&mut path, s, 0, prefix_len);
    let ghost begin = s@.take(prefix_len as int);
    assert(path@ =~= begin);
    let mut i: usize = 0;
    assert(names.take(0) =~= seq![]);
    while i < list.len()
        invariant
            i <= list@.len(),
            parts_view(list@) == names,
            forall|k: int| 0 <= k < names.len() ==> !((#[trigger] names[k]) is Prefix),
            path@ == rendered(begin, names.take(i as int)),
        decreases list@.len() - i,
    {
        assert(names[i as int] == list@[i as int]@);
        path.push('\\');
        push_part_text(&mut path, &list[i]);
        i = i + 1;
        assert(names.take(i as int).drop_last() =~= names.take(i as int - 1));
        assert(names.take(i as int).last() == names[i as int - 1]);
    }
    assert(names.take(names.len() as int) =~= names);
    path
}

/// The path of something with a plain name in a directory.
pub fn path_join(base: &str, name: &str) -> (path: String)
    requires
        is_plain_name(name@),
    ensures
        path@ == joined(base@, name@),
{
    let s = chars_of(base);
    let Start { prefix, prefix_len, verbatim, body_start, .. } = find_start(&s);
    if verbatim {
        let mut path = render_verbatim(&s, prefix_len, body_start);
        path.push('\\');
        path.append(name);
        path
    } else {
        let disk = match &prefix {
            Some(p) => p.kind == PrefixKind::Disk && s.len() == 2,
            None => false,
        };
        let mut path = base.to_string();
        if !(s.len() == 0 || sep(s[s.len() - 1], false) || disk) {
            path.push('\\');
        }
        path.append(name);
        path
    }
}

/// Whether a piece stands for a component.
fn is_part(s: &Vec<char>, start: usize, end: usize, verbatim: bool) -> (b: bool)
    requires
        start <= end <= s@.len(),
    ensures
        b == (part_of(s@.subrange(start as int, end as int), verbatim).len() > 0),
{
    let ghost text = s@.subrange(start as int, end as int);
    proof {
        assert(seq!['.'].len() == 1 && seq!['.', '.'].len() == 2);
        if text.len() == 1 && text[0] == '.' {
            assert(text =~= seq!['.']);
        }
    }
    end > start && !(end - start == 1 && s[start] == '.' && !verbatim)
}

fn find_last_piece(s: &Vec<char>, start: usize, verbatim: bool) -> (found: Option<(usize, usize)>)
    requires
        start <= s@.len(),
    ensures
        match found {
            Some((a, b)) => a <= b <= s@.len() && last_piece(s@, start as int, verbatim) == Some(
                (a as int, b as int),
            ),
            None => last_piece(s@, start as int, verbatim) is None,
        },
    decreases s@.len() - start,
{
    let end: usize = find_piece_end(s, start, verbatim);
    if end < s.len() {
        let later = find_last_piece(s, end + 1, verbatim);
        if later.is_some() {
            return later;
        }
    }
    if is_part(s, start, end, verbatim) {
        Some((start, end))
    } else {
        None
    }
}

fn find_end_without_last(s: &Vec<char>, start: usize, from: usize, verbatim: bool) -> (found: Option<
    usize,
>)
    requires
        from <= s@.len(),
        start <= s@.len(),
    ensures
        match found {
            Some(k) => k <= s@.len() && end_without_last(
                s@,
                start as int,
                from as int,
                verbatim,
            ) == Some(k as int),
            None => end_without_last(s@, start as int, from as int, verbatim) is None,
        },
    decreases s@.len() - start,
{
    let end: usize = find_piece_end(s, start, verbatim);
    let here = is_part(s, start, end, verbatim);
    if end < s.len() {
        let behind: usize = if here {
            end
        } else {
            from
        };
        let later = find_end_without_last(s, end + 1, behind, verbatim);
        if later.is_some() {
            return later;
        }
    }
    if here {
        Some(from)
    } else {
        None
    }
}

/// How many characters stand before the extension of the name from `start` to
/// `end`.
fn find_stem_end(s: &Vec<char>, start: usize, end: usize) -> (stem: usize)
    requires
        start <= end <= s@.len(),
    ensures
        stem <= end,
        stem == start + stem_len(s@.subrange(start as int, end as int)),
{
    let ghost name = s@.subrange(start as int, end as int);
    let mut i: usize = end;
    assert(s@.subrange(start as int, i as int) =~= name);
    while i > start
        invariant
            start <= i <= end <= s@.len(),
            name == s@.subrange(start as int, end as int),
            last_dot(name) == last_dot(s@.subrange(start as int, i as int)),
        decreases i,
    {
        let ghost here = s@.subrange(start as int, i as int);
        assert(here.last() == s@[i - 1]);
        assert(here.drop_last() =~= s@.subrange(start as int, i - 1));
        i = i - 1;
        if s[i] == '.' {
            return if i > start {
                i
            } else {
                end
            };
        }
    }
    assert(s@.subrange(start as int, i as int).len() == 0);
    end
}

fn text_of(s: &Vec<char>, end: usize) -> (text: String)
    requires
        end <= s@.len(),
    ensures
        text@ == s@.take(end as int),
{
    let mut text = "".to_string();
    proof {
        reveal_strlit("");
    }
    let mut i: usize = 0;
    assert(text@ =~= s@.take(0));
    while i < end
        invariant
            i <= end <= s@.len(),
            text@ == s@.take(i as int),
        decreases end - i,
    {
        text.push(s[i]);
        i = i + 1;
        assert(text@ =~= s@.take(i as int));
    }
    text
}

/// A path with another extension.
pub fn path_with_extension(path: &str, extension: &str) -> (changed: String)
    requires
        extension@.len() > 0,
        forall|i: int| 0 <= i < extension@.len() ==> !is_sep(#[trigger] extension@[i], false),
    ensures
        changed@ == with_extension(path@, extension@),
{
    let s = chars_of(path);
    let start = find_start(&s);
    if let Some((a, b)) = find_last_piece(&s, start.body_start, start.verbatim) {
        let name = copy_range(&s, a, b);
        let dots = (name.len() == 1 && name[0] == '.') || (name.len() == 2 && name[0] == '.'
            && name[1] == '.');
        proof {
            let text = s@.subrange(a as int, b as int);
            assert(seq!['.'].len() == 1 && seq!['.', '.'].len() == 2);
            if dots && text.len() == 1 {
                assert(text =~= seq!['.']);
            }
            if dots && text.len() == 2 {
                assert(text =~= seq!['.', '.']);
            }
        }
        if !dots {
            let stem: usize = find_stem_end(&s, a, b);
            let mut changed = text_of(&s, stem);
            changed.push('.');
            changed.append(extension);
            return changed;
        }
    }
    path.to_string()
}

/// The directory that a path lies in, if there is one.
pub fn path_parent(path: &str) -> (dir: Option<String>)
    ensures
        match dir {
            Some(text) => parent(path@) == Some(text@),
            None => parent(path@) is None,
        },
{
    let s = chars_of(path);
    let start = find_start(&s);
    let dot = start.prefix.is_none() && !start.root && dot_at(&s, 0);
    proof {
        if dot {
            lemma_piece_end(s@, 0, false);
            assert(piece(s@, 0, false).len() == seq!['.'].len());
        }
    }
    let from: usize = if dot {
        1
    } else {
        start.body_start
    };
    match find_end_without_last(&s, start.body_start, from, start.verbatim) {
        Some(k) => Some(text_of(&s, k)),
        None => if dot {
            let none = text_of(&s, 0);
            assert(none@ =~= seq![]);
            Some(none)
        } else {
            None
        },
    }
}

proof fn lemma_last_piece(s: Seq<char>, i: int, verbatim: bool)
    requires
        0 <= i <= s.len(),
    ensures
        match last_piece(s, i, verbatim) {
            Some((a, b)) => {
                &&& i <= a < b <= s.len()
                &&& body(s, i, verbatim).len() > 0
                &&& seq![body(s, i, verbatim).last()] == part_of(s.subrange(a, b), verbatim)
            },
            None => body(s, i, verbatim).len() == 0,
        },
    decreases s.len() - i,
{
    lemma_piece_end(s, i, verbatim);
    let end = piece_end(s, i, verbatim);
    let here = part_of(s.subrange(i, end), verbatim);
    assert(seq!['.'].len() == 1 && seq!['.', '.'].len() == 2);
    assert(here.len() > 0 ==> here =~= seq![here.last()]);
    if end < s.len() {
        lemma_last_piece(s, end + 1, verbatim);
        let rest = body(s, end + 1, verbatim);
        assert(rest.len() > 0 ==> (here + rest).last() == rest.last());
        assert(rest.len() == 0 ==> here + rest =~= here);
    }
}

/// A path has a name just if its last component is one, and the name is that
/// component.
pub proof fn lemma_file_name(s: Seq<char>)
    requires
        parts(s).len() > 0,
        parts(s).last() is Name,
    ensures
        file_name(s) matches Some((a, b)) && 0 <= a < b <= s.len() && PartView::Name(
            s.subrange(a, b),
        ) == parts(s).last(),
{
    let v = is_verbatim(s);
    lemma_prefix_fits(s);
    lemma_last_piece(s, body_start(s), v);
    let rest = body(s, body_start(s), v);
    if rest.len() == 0 {
        assert(parts(s) =~= head(s));
    } else {
        assert(parts(s).last() == rest.last());
        let (a, b) = last_piece(s, body_start(s), v)->0;
        assert(seq![rest.last()][0] == part_of(s.subrange(a, b), v)[0]);
    }
}

proof fn lemma_end_without_last(s: Seq<char>, i: int, from: int, verbatim: bool)
    requires
        0 <= from <= i <= s.len(),
    ensures
        match end_without_last(s, i, from, verbatim) {
            Some(k) => {
                &&& from <= k <= s.len()
                &&& body(s, i, verbatim).len() > 0
                &&& if k >= i {
                    body(s.take(k), i, verbatim) == body(s, i, verbatim).drop_last()
                } else {
                    k == from && body(s, i, verbatim).len() == 1
                }
            },
            None => body(s, i, verbatim).len() == 0,
        },
    decreases s.len() - i,
{
    lemma_piece_end(s, i, verbatim);
    let end = piece_end(s, i, verbatim);
    let here = part_of(s.subrange(i, end), verbatim);
    let behind = if here.len() > 0 {
        end
    } else {
        from
    };
    assert(seq!['.'].len() == 1 && seq!['.', '.'].len() == 2);
    if end < s.len() {
        lemma_end_without_last(s, end + 1, behind, verbatim);
        assert(body(s, i, verbatim) == here + body(s, end + 1, verbatim));
    }
    if let Some(k) = end_without_last(s, i, from, verbatim) {
        let t = s.take(k);
        let whole = body(s, i, verbatim);
        if k > end {
            lemma_piece_end_is(t, i, end, verbatim);
            assert(t.subrange(i, end) =~= s.subrange(i, end));
            assert(body(t, i, verbatim) =~= whole.drop_last());
        } else if k == end && here.len() > 0 && k > i {
            lemma_piece_end_is(t, i, end, verbatim);
            assert(t.subrange(i, end) =~= s.subrange(i, end));
            assert(body(t, i, verbatim) =~= whole.drop_last());
        } else if k == i {
            lemma_piece_end(t, i, verbatim);
            assert(t.subrange(i, i) =~= seq![]);
            assert(seq!['.'].len() == 1 && seq!['.', '.'].len() == 2);
            assert(body(t, i, verbatim) =~= seq![]);
            assert(whole.len() == 1);
            assert(whole.drop_last() =~= seq![]);
        }
    }
}

/// The directory that an absolute path lies in has all components of the path but
/// the last one.
pub proof fn law_parent_has_one_component_less(s: Seq<char>)
    requires
        is_absolute(s),
        takes_names(s),
        has_separator_root(s),
    ensures
        match parent(s) {
            Some(dir) => parts(dir) == parts(s).drop_last(),
            None => parts(s) == head(s),
        },
{
    let v = is_verbatim(s);
    let i = body_start(s);
    lemma_prefix_fits(s);
    lemma_end_without_last(s, i, i, v);
    if let Some(dir) = parent(s) {
        lemma_prefix_is_kept(s, dir);
        assert(head(dir) == head(s));
        assert(parts(dir) =~= parts(s).drop_last());
    } else {
        assert(parts(s) =~= head(s));
    }
}

// ---------------------------------------------------------------------------
// What joining means for the components
// ---------------------------------------------------------------------------
proof fn lemma_piece_end_is(s: Seq<char>, i: int, end: int, verbatim: bool)
    requires
        0 <= i <= end <= s.len(),
        forall|k: int| i <= k < end ==> !is_sep(#[trigger] s[k], verbatim),
        end < s.len() ==> is_sep(s[end], verbatim),
    ensures
        piece_end(s, i, verbatim) == end,
    decreases end - i,
{
    if i < end {
        assert(!is_sep(s[i], verbatim));
        lemma_piece_end_is(s, i + 1, end, verbatim);
    }
}

/// A text of one component, behind nothing.
proof fn lemma_body_of_one(s: Seq<char>, i: int, part: PartView, verbatim: bool)
    requires
        0 <= i <= s.len(),
        forall|k: int| i <= k < s.len() ==> !is_sep(#[trigger] s[k], verbatim),
        part_of(s.skip(i), verbatim) == seq![part],
    ensures
        body(s, i, verbatim) == seq![part],
{
    lemma_piece_end_is(s, i, s.len() as int, verbatim);
    assert(s.subrange(i, s.len() as int) =~= s.skip(i));
}

/// A component behind a backslash is one more component.
proof fn lemma_body_after_backslash(
    s: Seq<char>,
    i: int,
    text: Seq<char>,
    part: PartView,
    verbatim: bool,
)
    requires
        0 <= i <= s.len(),
        forall|k: int| 0 <= k < text.len() ==> !is_sep(#[trigger] text[k], verbatim),
        part_of(text, verbatim) == seq![part],
    ensures
        body(s.push('\\') + text, i, verbatim) == body(s, i, verbatim).push(part),
    decreases s.len() - i,
{
    let t = s.push('\\') + text;
    let end = piece_end(s, i, verbatim);
    lemma_piece_end(s, i, verbatim);
    assert(t[s.len() as int] == '\\');
    assert forall|k: int| i <= k < end implies !is_sep(#[trigger] t[k], verbatim) by {
        assert(t[k] == s[k]);
    }
    assert(end < s.len() ==> t[end] == s[end]);
    lemma_piece_end_is(t, i, end, verbatim);
    assert(t.subrange(i, end) =~= s.subrange(i, end));
    if end < s.len() {
        lemma_body_after_backslash(s, end + 1, text, part, verbatim);
        assert(body(t, i, verbatim) =~= body(s, i, verbatim).push(part));
    } else {
        assert(t.skip(end + 1) =~= text);
        assert forall|k: int| end + 1 <= k < t.len() implies !is_sep(
            #[trigger] t[k],
            verbatim,
        ) by {
            assert(t[k] == text[k - end - 1]);
        }
        lemma_body_of_one(t, end + 1, part, verbatim);
        assert(body(t, i, verbatim) =~= body(s, i, verbatim).push(part));
    }
}

/// A component behind a text that ends in a separator is one more component.
proof fn lemma_body_after_separator(
    s: Seq<char>,
    i: int,
    text: Seq<char>,
    part: PartView,
    verbatim: bool,
)
    requires
        0 <= i <= s.len(),
        s.len() > 0,
        is_sep(s.last(), verbatim),
        forall|k: int| 0 <= k < text.len() ==> !is_sep(#[trigger] text[k], verbatim),
        part_of(text, verbatim) == seq![part],
    ensures
        body(s + text, i, verbatim) == body(s, i, verbatim).push(part),
    decreases s.len() - i,
{
    let t = s + text;
    let end = piece_end(s, i, verbatim);
    lemma_piece_end(s, i, verbatim);
    if i == s.len() {
        assert(t.skip(i) =~= text);
        assert forall|k: int| i <= k < t.len() implies !is_sep(#[trigger] t[k], verbatim) by {
            assert(t[k] == text[k - i]);
        }
        lemma_body_of_one(t, i, part, verbatim);
        assert(s.subrange(i, end) =~= seq![]);
        assert(seq!['.'].len() > 0 && seq!['.', '.'].len() > 0);
        assert(body(s, i, verbatim) =~= seq![]);
        assert(body(t, i, verbatim) =~= body(s, i, verbatim).push(part));
    } else {
        assert(end < s.len()) by {
            if end == s.len() {
                assert(!is_sep(s[s.len() - 1], verbatim));
            }
        }
        assert forall|k: int| i <= k < end implies !is_sep(#[trigger] t[k], verbatim) by {
            assert(t[k] == s[k]);
        }
        assert(t[end] == s[end]);
        lemma_piece_end_is(t, i, end, verbatim);
        assert(t.subrange(i, end) =~= s.subrange(i, end));
        lemma_body_after_separator(s, end + 1, text, part, verbatim);
        assert(body(t, i, verbatim) =~= body(s, i, verbatim).push(part));
    }
}

/// Components of a verbatim path that have a text of their own.
spec fn renderable(names: Seq<PartView>) -> bool {
    forall|k: int|
        0 <= k < names.len() ==> {
            let text = part_text(#[trigger] names[k]);
            &&& part_of(text, true) == seq![names[k]]
            &&& forall|j: int| 0 <= j < text.len() ==> !is_sep(#[trigger] text[j], true)
        }
}

proof fn lemma_rendered(begin: Seq<char>, names: Seq<PartView>)
    requires
        renderable(names),
    ensures
        rendered(begin, names).len() >= begin.len(),
        rendered(begin, names).take(begin.len() as int) == begin,
        names.len() > 0 ==> rendered(begin, names).len() > begin.len(),
        names.len() > 0 ==> rendered(begin, names)[begin.len() as int] == '\\',
        names.len() > 0 ==> body(rendered(begin, names), begin.len() + 1int, true) == names,
    decreases names.len(),
{
    let t = rendered(begin, names);
    if names.len() == 0 {
        assert(t.take(begin.len() as int) =~= begin);
    } else {
        let fewer = names.drop_last();
        let u = rendered(begin, fewer);
        let last = names.last();
        let text = part_text(last);
        assert(last == names[names.len() - 1]);
        assert forall|k: int| 0 <= k < fewer.len() implies {
            let text = part_text(#[trigger] fewer[k]);
            &&& part_of(text, true) == seq![fewer[k]]
            &&& forall|j: int| 0 <= j < text.len() ==> !is_sep(#[trigger] text[j], true)
        } by {
            assert(fewer[k] == names[k]);
        }
        lemma_rendered(begin, fewer);
        assert(t == u.push('\\') + text);
        assert(t.take(begin.len() as int) =~= u.take(begin.len() as int));
        if fewer.len() == 0 {
            assert(u == begin);
            assert(t[begin.len() as int] == '\\');
            assert(t.skip(begin.len() + 1int) =~= text);
            assert forall|k: int| begin.len() + 1int <= k < t.len() implies !is_sep(
                #[trigger] t[k],
                true,
            ) by {
                assert(t[k] == text[k - begin.len() - 1]);
            }
            lemma_body_of_one(t, begin.len() + 1int, last, true);
            assert(names =~= seq![last]);
        } else {
            assert(t[begin.len() as int] == u[begin.len() as int]);
            lemma_body_after_backslash(u, begin.len() + 1int, text, last, true);
            assert(names =~= fewer.push(last));
        }
    }
}

/// A directory that keeps its prefix when a name is added to it. The others are
/// `\\.\` and `\\?\UNC`, to which the name would be added as a part of the
/// prefix, and a verbatim server without a share, for which it would become the
/// share.
pub open spec fn takes_names(base: Seq<char>) -> bool {
    prefix(base) matches Some(p) && {
        &&& !(p.kind is DeviceNs && base.len() == 4)
        &&& !(p.kind is VerbatimUnc && p.second.len() == 0)
        &&& !(p.kind is Verbatim && p.first == seq!['U', 'N', 'C'])
    }
}

/// Two texts that agree on the first four characters agree on which kind of
/// double backslash they begin with.
proof fn lemma_same_beginning(s: Seq<char>, t: Seq<char>)
    requires
        s.len() >= 4,
        t.len() >= 4,
        forall|k: int| 0 <= k < 4 ==> s[k] == t[k],
    ensures
        stands_at(s, 0, seq!['\\', '\\']) == stands_at(t, 0, seq!['\\', '\\']),
        stands_at(s, 2, seq!['?', '\\']) == stands_at(t, 2, seq!['?', '\\']),
        stands_at(s, 2, seq!['.', '\\']) == stands_at(t, 2, seq!['.', '\\']),
{
    lemma_pair_at(s, 0, '\\', '\\');
    lemma_pair_at(t, 0, '\\', '\\');
    lemma_pair_at(s, 2, '?', '\\');
    lemma_pair_at(t, 2, '?', '\\');
    lemma_pair_at(s, 2, '.', '\\');
    lemma_pair_at(t, 2, '.', '\\');
}

proof fn lemma_pair_at(s: Seq<char>, i: int, a: char, b: char)
    ensures
        stands_at(s, i, seq![a, b]) == (i + 2 <= s.len() && (a == s[i] || (a == '\\' && s[i]
            == '/')) && (b == s[i + 1] || (b == '\\' && s[i + 1] == '/'))),
{
    let pattern = seq![a, b];
    assert(pattern[0] == a && pattern[1] == b);
}

proof fn lemma_unc_at(s: Seq<char>)
    ensures
        stands_at(s, 4, seq!['U', 'N', 'C', '\\']) == (8 <= s.len() && s[4] == 'U' && s[5] == 'N'
            && s[6] == 'C' && (s[7] == '\\' || s[7] == '/')),
{
    let pattern = seq!['U', 'N', 'C', '\\'];
    assert(pattern[0] == 'U' && pattern[1] == 'N' && pattern[2] == 'C' && pattern[3] == '\\');
}

/// A text that begins with the prefix of another, and goes on with a separator,
/// has the same prefix.
proof fn lemma_prefix_is_kept(s: Seq<char>, t: Seq<char>)
    requires
        takes_names(s),
        t.len() > prefix_len(s),
        forall|k: int| 0 <= k < prefix_len(s) ==> t[k] == s[k],
        t[prefix_len(s)] == '\\' || (prefix_len(s) < s.len() && t[prefix_len(s)]
            == s[prefix_len(s)]),
    ensures
        prefix(t) == prefix(s),
{
    lemma_prefix_fits(s);
    let p = prefix(s)->0;
    let n = p.len();
    lemma_pair_at(s, 0, '\\', '\\');
    lemma_pair_at(t, 0, '\\', '\\');
    lemma_pair_at(s, 2, '?', '\\');
    lemma_pair_at(s, 2, '.', '\\');
    match p.kind {
        PrefixKind::Disk => {
            assert(p.first =~= prefix(t)->0.first);
        },
        PrefixKind::Unc => {
            lemma_piece_end(s, 2, false);
            let e = piece_end(s, 2, false);
            lemma_piece_end(s, next_piece(s, 2, false), false);
            assert(n == e + 1 + p.second.len());
            lemma_same_beginning(s, t);
            lemma_piece_end_is(t, 2, e, false);
            assert(piece_end(s, e + 1, false) == n);
            lemma_piece_end_is(t, e + 1, n, false);
            assert(t.subrange(2, e) =~= s.subrange(2, e));
            assert(t.subrange(e + 1, n) =~= s.subrange(e + 1, n));
        },
        PrefixKind::DeviceNs => {
            lemma_piece_end(s, 4, false);
            lemma_same_beginning(s, t);
            lemma_piece_end_is(t, 4, n, false);
            assert(t.subrange(4, n) =~= s.subrange(4, n));
        },
        PrefixKind::VerbatimDisk => {
            lemma_same_beginning(s, t);
            lemma_unc_at(s);
            lemma_unc_at(t);
        },
        PrefixKind::VerbatimUnc => {
            lemma_unc_at(s);
            lemma_unc_at(t);
            lemma_piece_end(s, 8, true);
            let e = piece_end(s, 8, true);
            lemma_piece_end(s, next_piece(s, 8, true), true);
            assert(n == e + 1 + p.second.len());
            lemma_same_beginning(s, t);
            lemma_piece_end_is(t, 8, e, true);
            assert(piece_end(s, e + 1, true) == n);
            lemma_piece_end_is(t, e + 1, n, true);
            assert(t.subrange(8, e) =~= s.subrange(8, e));
            assert(t.subrange(e + 1, n) =~= s.subrange(e + 1, n));
        },
        PrefixKind::Verbatim => {
            lemma_unc_at(s);
            lemma_unc_at(t);
            lemma_piece_end(s, 4, true);
            lemma_same_beginning(s, t);
            lemma_piece_end_is(t, 4, n, true);
            assert(t.subrange(4, n) =~= s.subrange(4, n));
            if n == 7 {
                assert(p.first[0] == s[4] && p.first[1] == s[5] && p.first[2] == s[6]);
                if s[4] == 'U' && s[5] == 'N' && s[6] == 'C' {
                    assert(p.first =~= seq!['U', 'N', 'C']);
                }
            }
            assert(!stands_at(t, 4, seq!['U', 'N', 'C', '\\']));
            assert(!(drive_at(t, 4) && (t.len() == 6 || is_sep(t[6], false))));
        },
    }
}

proof fn lemma_plain_name_is_a_part(name: Seq<char>, verbatim: bool)
    requires
        is_plain_name(name),
    ensures
        part_of(name, verbatim) == seq![PartView::Name(name)],
        forall|k: int| 0 <= k < name.len() ==> !is_sep(#[trigger] name[k], verbatim),
{
    assert forall|k: int| 0 <= k < name.len() implies !is_sep(#[trigger] name[k], verbatim) by {
        assert(!is_sep(name[k], false));
    }
}

proof fn lemma_contains_parent(a: Seq<PartView>, b: Seq<PartView>)
    ensures
        (a + b).contains(PartView::Parent) <==> a.contains(PartView::Parent) || b.contains(
            PartView::Parent,
        ),
{
    vstd::seq_lib::lemma_seq_concat_contains_all_elements(a, b, PartView::Parent);
}

/// The components of a path that a name has been added to.
spec fn grows(base: Seq<char>, t: Seq<char>, part: PartView) -> bool {
    &&& is_absolute(t)
    &&& takes_names(t)
    &&& has_separator_root(t) || !is_verbatim(t)
    &&& if has_separator_root(base) || !is_verbatim(base) {
        parts(t) == parts(base) + seq![part]
    } else {
        parts(t) == parts(base) + seq![PartView::Root, part]
    }
}

proof fn lemma_joined_verbatim(base: Seq<char>, name: Seq<char>)
    requires
        is_absolute(base),
        takes_names(base),
        is_plain_name(name),
        is_verbatim(base),
    ensures
        grows(base, joined(base, name), PartView::Name(name)),
{
    let t = joined(base, name);
    let n = prefix_len(base);
    let p = prefix(base)->0;
    let part = PartView::Name(name);
    lemma_prefix_fits(base);
    lemma_plain_name_is_a_part(name, true);
    let names = body(base, body_start(base), true);
    let begin = base.take(n);
    lemma_body_parts(base, body_start(base), true);
    let more = names.push(part);
    assert(more.drop_last() =~= names);
    assert(t == rendered(begin, more));
    assert forall|k: int| 0 <= k < more.len() implies {
        let text = part_text(#[trigger] more[k]);
        &&& part_of(text, true) == seq![more[k]]
        &&& forall|j: int| 0 <= j < text.len() ==> !is_sep(#[trigger] text[j], true)
    } by {
        if k < names.len() {
            assert(more[k] == names[k]);
        }
    }
    lemma_rendered(begin, more);
    assert forall|k: int| 0 <= k < n implies t[k] == base[k] by {
        assert(t.take(n)[k] == begin[k]);
    }
    lemma_prefix_is_kept(base, t);
    assert(has_separator_root(t));
    assert(parts(t) =~= seq![PartView::Prefix(p), PartView::Root] + names + seq![part]);
    if has_separator_root(base) {
        assert(parts(base) =~= seq![PartView::Prefix(p), PartView::Root] + names);
        assert(parts(t) =~= parts(base) + seq![part]);
    } else {
        assert(n == base.len()) by {
            lemma_verbatim_end(base);
        }
        lemma_piece_end(base, n, true);
        assert(base.subrange(n, n) =~= seq![]);
        assert(seq!['.'].len() > 0 && seq!['.', '.'].len() > 0);
        assert(names =~= seq![]);
        assert(parts(base) =~= seq![PartView::Prefix(p)]);
        assert(parts(t) =~= parts(base) + seq![PartView::Root, part]);
    }
}

proof fn lemma_joined_plain(base: Seq<char>, name: Seq<char>)
    requires
        is_absolute(base),
        takes_names(base),
        is_plain_name(name),
        !is_verbatim(base),
    ensures
        grows(base, joined(base, name), PartView::Name(name)),
{
    let t = joined(base, name);
    let n = prefix_len(base);
    let part = PartView::Name(name);
    lemma_prefix_fits(base);
    lemma_plain_name_is_a_part(name, false);
    assert forall|k: int| 0 <= k < n implies t[k] == base[k] by {
    }
    if is_sep(base.last(), false) {
        assert(t == base + name);
        assert(n < base.len()) by {
            lemma_prefix_end(base);
        }
        assert(t[n] == base[n]);
        lemma_prefix_is_kept(base, t);
        lemma_body_after_separator(base, body_start(base), name, part, false);
        assert(parts(t) =~= parts(base) + seq![part]);
    } else {
        assert(t == base.push('\\') + name);
        assert(t[base.len() as int] == '\\');
        assert(n < base.len() ==> t[n] == base[n]);
        lemma_prefix_is_kept(base, t);
        if n < base.len() {
            lemma_body_after_backslash(base, body_start(base), name, part, false);
            assert(parts(t) =~= parts(base) + seq![part]);
        } else {
            lemma_piece_end(base, n, false);
            assert(base.subrange(n, n) =~= seq![]);
            assert(seq!['.'].len() > 0 && seq!['.', '.'].len() > 0);
            assert(body(base, body_start(base), false) =~= seq![]);
            assert(t.skip(n + 1) =~= name);
            assert forall|k: int| n + 1 <= k < t.len() implies !is_sep(#[trigger] t[k], false) by {
                assert(t[k] == name[k - n - 1]);
            }
            lemma_body_of_one(t, n + 1, part, false);
            assert(parts(t) =~= parts(base) + seq![part]);
        }
    }
}

/// What is added to an absolute directory stays in it: the components of the
/// directory stand first, the name comes last, and nothing goes up that did not
/// go up before. Nothing comes between, but for a root that a verbatim prefix did
/// not have yet.
pub proof fn law_joined_paths_stay_inside(base: Seq<char>, name: Seq<char>)
    requires
        is_absolute(base),
        takes_names(base),
        is_plain_name(name),
    ensures
        is_absolute(joined(base, name)),
        takes_names(joined(base, name)),
        lies_in(joined(base, name), base),
        parts(joined(base, name)).len() > 0,
        parts(joined(base, name)).last() == PartView::Name(name),
        goes_up(joined(base, name)) <==> goes_up(base),
        has_separator_root(joined(base, name)) || !is_verbatim(joined(base, name)),
        has_separator_root(base) || !is_verbatim(base) ==> parts(joined(base, name)) == parts(
            base,
        ).push(PartView::Name(name)),
{
    let t = joined(base, name);
    let part = PartView::Name(name);
    if is_verbatim(base) {
        lemma_joined_verbatim(base, name);
    } else {
        lemma_joined_plain(base, name);
    }
    lemma_contains_parent(parts(base), seq![part]);
    lemma_contains_parent(parts(base), seq![PartView::Root, part]);
    assert(!seq![part].contains(PartView::Parent)) by {
        assert(seq![part][0] == part);
    }
    assert(!seq![PartView::Root, part].contains(PartView::Parent)) by {
        assert(seq![PartView::Root, part][0] == PartView::Root);
        assert(seq![PartView::Root, part][1] == part);
    }
    assert(parts(t).subrange(0, parts(base).len() as int) =~= parts(base));
    assert(parts(base) + seq![part] =~= parts(base).push(part));
}

/// What follows the prefix of a verbatim path is a separator, or nothing.
proof fn lemma_verbatim_end(s: Seq<char>)
    requires
        is_verbatim(s),
        !has_separator_root(s),
    ensures
        prefix_len(s) == s.len(),
{
    lemma_prefix_fits(s);
    lemma_pair_at(s, 0, '\\', '\\');
    lemma_pair_at(s, 2, '?', '\\');
    match (prefix(s)->0).kind {
        PrefixKind::Verbatim => {
            lemma_piece_end(s, 4, true);
        },
        PrefixKind::VerbatimUnc => {
            lemma_unc_at(s);
            lemma_piece_end(s, 8, true);
            lemma_piece_end(s, next_piece(s, 8, true), true);
        },
        _ => {},
    }
}

/// An absolute path that is not verbatim and ends in a separator does not end
/// with its prefix.
proof fn lemma_prefix_end(s: Seq<char>)
    requires
        is_absolute(s),
        takes_names(s),
        !is_verbatim(s),
        is_sep(s.last(), false),
    ensures
        prefix_len(s) < s.len(),
{
    lemma_prefix_fits(s);
    lemma_pair_at(s, 0, '\\', '\\');
    lemma_pair_at(s, 2, '.', '\\');
    match (prefix(s)->0).kind {
        PrefixKind::DeviceNs => {
            lemma_piece_end(s, 4, false);
            assert(prefix_len(s) == s.len() ==> !is_sep(s[s.len() - 1], false));
        },
        PrefixKind::Unc => {
            lemma_piece_end(s, 2, false);
            lemma_piece_end(s, next_piece(s, 2, false), false);
            assert(prefix_len(s) == s.len() ==> !is_sep(s[s.len() - 1], false));
        },
        _ => {},
    }
}

// ---------------------------------------------------------------------------
// Paths as they are commonly written
// ---------------------------------------------------------------------------
/// A drive letter and a colon stand at the beginning.
pub open spec fn begins_with_drive(s: Seq<char>) -> bool {
    s.len() >= 2 && ('a' <= s[0] <= 'z' || 'A' <= s[0] <= 'Z') && s[1] == ':'
}

/// A slash or a backslash.
pub open spec fn is_slash(c: char) -> bool {
    c == '\\' || c == '/'
}

/// A path on a drive is absolute just if a slash follows the colon. Upper and
/// lower case of the drive letter are the same.
pub proof fn law_drive_paths(s: Seq<char>)
    requires
        begins_with_drive(s),
    ensures
        is_absolute(s) <==> s.len() >= 3 && is_slash(s[2]),
        !is_verbatim(s),
        takes_names(s),
        prefix_len(s) == 2,
        head(s)[0] == PartView::Prefix(
            PrefixView { kind: PrefixKind::Disk, first: seq![upper(s[0])], second: seq![] },
        ),
        'a' <= s[0] <= 'z' ==> upper(s[0]) as int == s[0] as int - ('a' as int - 'A' as int),
        'A' <= s[0] <= 'Z' ==> upper(s[0]) == s[0],
{
    lemma_pair_at(s, 0, '\\', '\\');
}

/// A path that begins with neither a drive nor two slashes is not absolute.
pub proof fn law_relative_paths(s: Seq<char>)
    requires
        !begins_with_drive(s),
        !(s.len() >= 2 && is_slash(s[0]) && is_slash(s[1])),
    ensures
        !is_absolute(s),
{
    lemma_pair_at(s, 0, '\\', '\\');
}

/// A share of a server is absolute, and so is everything on it.
pub proof fn law_server_paths(server: Seq<char>, share: Seq<char>, rest: Seq<char>)
    requires
        server.len() > 0,
        share.len() > 0,
        server != seq!['?'],
        server != seq!['.'],
        forall|i: int| 0 <= i < server.len() ==> !is_slash(#[trigger] server[i]),
        forall|i: int| 0 <= i < share.len() ==> !is_slash(#[trigger] share[i]),
        rest.len() > 0 ==> is_slash(rest[0]),
    ensures
        is_absolute(seq!['\\', '\\'] + server + seq!['\\'] + share + rest),
{
    let s = seq!['\\', '\\'] + server + seq!['\\'] + share + rest;
    let e = 2 + server.len() as int;
    let n = e + 1 + share.len() as int;
    lemma_pair_at(s, 0, '\\', '\\');
    lemma_pair_at(s, 2, '?', '\\');
    lemma_pair_at(s, 2, '.', '\\');
    assert(s[0] == '\\' && s[1] == '\\');
    assert(s[2] == server[0]);
    assert(s[e] == '\\');
    assert forall|k: int| 2 <= k < e implies !is_sep(#[trigger] s[k], false) by {
        assert(s[k] == server[k - 2]);
        assert(!is_slash(server[k - 2]));
    }
    assert forall|k: int| e + 1 <= k < n implies !is_sep(#[trigger] s[k], false) by {
        assert(s[k] == share[k - e - 1]);
        assert(!is_slash(share[k - e - 1]));
    }
    if server.len() == 1 {
        assert(server[0] != '?') by {
            if server[0] == '?' {
                assert(server =~= seq!['?']);
            }
        }
        assert(server[0] != '.') by {
            if server[0] == '.' {
                assert(server =~= seq!['.']);
            }
        }
    } else {
        assert(s[3] == server[1]);
        assert(!is_slash(server[1]));
    }
    lemma_piece_end_is(s, 2, e, false);
    if n < s.len() {
        assert(s[n] == rest[0]);
    }
    lemma_piece_end_is(s, e + 1, n, false);
    assert(s.subrange(2, e) =~= server);
    assert(s.subrange(e + 1, n) =~= share);
}

/// The root of a drive has no names in it.
pub proof fn law_drive_root(c: char)
    requires
        'a' <= c <= 'z' || 'A' <= c <= 'Z',
    ensures
        parts(seq![c, ':', '\\']) == seq![
            PartView::Prefix(
                PrefixView { kind: PrefixKind::Disk, first: seq![upper(c)], second: seq![] },
            ),
            PartView::Root,
        ],
{
    let s = seq![c, ':', '\\'];
    law_drive_paths(s);
    lemma_piece_end(s, 3, false);
    assert(s.subrange(3, 3) =~= seq![]);
    assert(seq!['.'].len() == 1 && seq!['.', '.'].len() == 2);
    assert(body(s, 3, false) =~= seq![]);
}

/// Two dots stand at `k`, from one slash, or from `from`, to the next slash, or
/// to the end.
pub open spec fn two_dots_at(s: Seq<char>, from: int, k: int) -> bool {
    &&& from <= k && k + 2 <= s.len()
    &&& s[k] == '.' && s[k + 1] == '.'
    &&& k == from || is_slash(s[k - 1])
    &&& k + 2 == s.len() || is_slash(s[k + 2])
}

proof fn lemma_goes_up_from(s: Seq<char>, i: int)
    requires
        0 <= i <= s.len(),
    ensures
        body(s, i, false).contains(PartView::Parent) <==> exists|k: int| two_dots_at(s, i, k),
    decreases s.len() - i,
{
    lemma_piece_end(s, i, false);
    let end = piece_end(s, i, false);
    let text = s.subrange(i, end);
    let here = part_of(text, false);
    assert(seq!['.'].len() == 1 && seq!['.', '.'].len() == 2);
    assert(here.contains(PartView::Parent) <==> text == seq!['.', '.']) by {
        if text == seq!['.', '.'] {
            assert(here[0] == PartView::Parent);
        }
    }
    if text == seq!['.', '.'] {
        assert(text[0] == '.' && text[1] == '.');
        assert(s[i] == '.' && s[i + 1] == '.');
        assert(two_dots_at(s, i, i));
    }
    if two_dots_at(s, i, i) {
        assert(end == i + 2) by {
            assert(!is_sep(s[i], false) && !is_sep(s[i + 1], false));
            lemma_piece_end_is(s, i, i + 2, false);
        }
        assert(text =~= seq!['.', '.']);
    }
    let next = end + 1;
    if end < s.len() {
        lemma_goes_up_from(s, next);
        lemma_contains_parent(here, body(s, next, false));
        assert forall|k: int| two_dots_at(s, next, k) implies two_dots_at(s, i, k) by {
        }
        assert forall|k: int| k != i && two_dots_at(s, i, k) implies two_dots_at(s, next, k) by {
            assert(is_slash(s[k - 1]));
            if k - 1 < end {
                assert(!is_sep(s[k - 1], false));
            }
        }
        if exists|k: int| two_dots_at(s, next, k) {
            let k = choose|k: int| two_dots_at(s, next, k);
            assert(two_dots_at(s, i, k));
        }
        if exists|k: int| two_dots_at(s, i, k) {
            let k = choose|k: int| two_dots_at(s, i, k);
            if k != i {
                assert(two_dots_at(s, next, k));
            }
        }
    } else {
        assert forall|k: int| two_dots_at(s, i, k) implies k == i by {
            if k != i {
                assert(is_slash(s[k - 1]));
                assert(!is_sep(s[k - 1], false));
            }
        }
    }
}

/// A path that is not verbatim goes up just if, behind its prefix and root, two
/// dots stand somewhere between slashes, or at the beginning or the end.
pub proof fn law_goes_up(s: Seq<char>)
    requires
        !is_verbatim(s),
    ensures
        goes_up(s) <==> exists|k: int| two_dots_at(s, body_start(s), k),
        begins_with_drive(s) ==> body_start(s) == (if s.len() >= 3 && is_slash(s[2]) {
            3int
        } else {
            2int
        }),
{
    if begins_with_drive(s) {
        law_drive_paths(s);
    }
    lemma_prefix_fits(s);
    lemma_goes_up_from(s, body_start(s));
    lemma_contains_parent(head(s), body(s, body_start(s), false));
    assert(!head(s).contains(PartView::Parent)) by {
        assert forall|i: int| 0 <= i < head(s).len() implies head(s)[i] != PartView::Parent by {
        }
    }
}

/// What begins with two backslashes, a question mark or a dot, and another
/// backslash is absolute; with the question mark it is verbatim.
pub proof fn law_verbatim_and_device_paths(s: Seq<char>)
    requires
        s.len() >= 4,
        s[0] == '\\' && s[1] == '\\' && s[3] == '\\',
        s[2] == '?' || s[2] == '.',
    ensures
        is_absolute(s),
        is_verbatim(s) <==> s[2] == '?',
{
    lemma_pair_at(s, 0, '\\', '\\');
    lemma_pair_at(s, 2, '?', '\\');
    lemma_pair_at(s, 2, '.', '\\');
}

/// Adding a name to a directory puts the name at the end, and keeps the text of a
/// directory that is not verbatim in front of it, with at most one backslash
/// between.
pub proof fn law_joined_text(base: Seq<char>, name: Seq<char>)
    requires
        !is_verbatim(base),
    ensures
        joined(base, name) == base + name || joined(base, name) == base.push('\\') + name,
        base.len() > 0 && is_slash(base.last()) ==> joined(base, name) == base + name,
        base.len() > 2 && !is_slash(base.last()) ==> joined(base, name) == base.push('\\') + name,
{
}

/// A path lies in a directory just if its components begin with all those of the
/// directory.
pub proof fn law_lies_in(s: Seq<char>, base: Seq<char>)
    ensures
        lies_in(s, base) <==> parts(base).len() <= parts(s).len() && forall|i: int|
            0 <= i < parts(base).len() ==> #[trigger] parts(base)[i] == parts(s)[i],
{
    if parts(base).len() <= parts(s).len() && (forall|i: int|
        0 <= i < parts(base).len() ==> #[trigger] parts(base)[i] == parts(s)[i]) {
        assert(parts(base) =~= parts(s).subrange(0, parts(base).len() as int));
    }
    if lies_in(s, base) {
        assert forall|i: int| 0 <= i < parts(base).len() implies #[trigger] parts(base)[i] == parts(
            s,
        )[i] by {
            assert(parts(base)[i] == parts(s).subrange(0, parts(base).len() as int)[i]);
        }
    }
}

} // verus!
