//! Paths as text, in the two styles in which systems write them.
//!
//! A path is a volume, where it names one, then a root, where it starts at one,
//! then steps: names, `.` and `..`. Two paths are the same if these are; which
//! separators are written between the steps, and how many, makes no difference.

use vstd::prelude::*;
use vstd::string::*;

use crate::text::{ascii_upper, chars_of, string_of, texts, to_ascii_upper};

verus! {

/// How a system writes paths.
#[derive(Debug, Clone, Copy, PartialEq, Eq, Structural)]
pub enum PathStyle {
    /// Names are separated by `/`.
    Unix,
    /// Names are separated by `\` or `/`, and a path may start with a volume: a
    /// drive (`C:`), a share (`\\server\share`), a device (`\\.\name`), or one of
    /// the verbatim forms `\\?\C:`, `\\?\UNC\server\share` and `\\?\name`.
    Windows,
}

/// How the names behind the volume of a path are written.
#[derive(Debug, Clone, Copy, PartialEq, Eq, Structural)]
pub enum NameStyle {
    /// Separated by `/`.
    Unix,
    /// Separated by `\` or `/`.
    Windows,
    /// Separated by `\` alone, and with `.` as a step wherever it stands.
    Verbatim,
}

/// Whether `c` is one of the two characters that separate names.
pub open spec fn is_slash(c: char) -> bool {
    c == '/' || c == '\\'
}

/// Whether `c` is one of the letters that name drives.
pub open spec fn is_drive_letter(c: char) -> bool {
    'a' <= c <= 'z' || 'A' <= c <= 'Z'
}

impl NameStyle {
    /// Whether `c` separates names.
    pub open spec fn separates(self, c: char) -> bool {
        match self {
            NameStyle::Unix => c == '/',
            NameStyle::Windows => is_slash(c),
            NameStyle::Verbatim => c == '\\',
        }
    }

    /// Whether the character at `i` separates names. The root of a verbatim path
    /// may be written either way.
    pub open spec fn splits(self, names: Seq<char>, i: int) -> bool {
        self.separates(names[i]) || (self == NameStyle::Verbatim && i == 0 && names[i] == '/')
    }

    /// Whether `c` separates names.
    fn is_separator(self, c: char) -> (separates: bool)
        ensures
            separates == self.separates(c),
    {
        match self {
            NameStyle::Unix => c == '/',
            NameStyle::Windows => c == '/' || c == '\\',
            NameStyle::Verbatim => c == '\\',
        }
    }

    /// Whether the character at `i` separates names.
    fn is_split(self, names: &Vec<char>, i: usize) -> (splits: bool)
        requires
            i < names@.len(),
        ensures
            splits == self.splits(names@, i as int),
    {
        self.is_separator(names[i]) || (self == NameStyle::Verbatim && i == 0 && names[i] == '/')
    }
}

/// Where the name that starts at `from` ends: at the next separator, or with the
/// path.
pub open spec fn name_end(kind: NameStyle, path: Seq<char>, from: nat) -> nat
    decreases path.len() - from,
{
    if from >= path.len() || kind.separates(path[from as int]) {
        from
    } else {
        name_end(kind, path, from + 1)
    }
}

proof fn lemma_name_end(kind: NameStyle, path: Seq<char>, from: nat)
    requires
        from <= path.len(),
    ensures
        from <= name_end(kind, path, from) <= path.len(),
        forall|i: int| from <= i < name_end(kind, path, from) ==> !kind.separates(path[i]),
        name_end(kind, path, from) < path.len() ==> kind.separates(
            path[name_end(kind, path, from) as int],
        ),
    decreases path.len() - from,
{
    if from < path.len() && !kind.separates(path[from as int]) {
        lemma_name_end(kind, path, from + 1);
    }
}

proof fn lemma_name_ends_at(kind: NameStyle, path: Seq<char>, from: nat, end: nat)
    requires
        from <= end <= path.len(),
        forall|i: int| from <= i < end ==> !kind.separates(path[i]),
        end < path.len() ==> kind.separates(path[end as int]),
    ensures
        name_end(kind, path, from) == end,
    decreases end - from,
{
    if from < end {
        lemma_name_ends_at(kind, path, from + 1, end);
    }
}

/// Whether a drive stands at `i`.
pub open spec fn has_drive_at(path: Seq<char>, i: int) -> bool {
    path.len() >= i + 2 && is_drive_letter(path[i]) && path[i + 1] == ':'
}

/// Whether the volume of `path` is a drive.
pub open spec fn has_drive(style: PathStyle, path: Seq<char>) -> bool {
    style == PathStyle::Windows && has_drive_at(path, 0)
}

/// Whether `path` starts with two separators, as all volumes but drives do.
pub open spec fn starts_double(style: PathStyle, path: Seq<char>) -> bool {
    style == PathStyle::Windows && path.len() >= 2 && is_slash(path[0]) && is_slash(path[1])
}

/// Whether `path` is verbatim: it starts with `\\?\`, written just so.
pub open spec fn is_verbatim(style: PathStyle, path: Seq<char>) -> bool {
    style == PathStyle::Windows && path.len() >= 4 && path[0] == '\\' && path[1] == '\\' && path[2]
        == '?' && path[3] == '\\'
}

/// Whether a verbatim path names a share.
pub open spec fn names_share(path: Seq<char>) -> bool {
    path.len() >= 8 && path[4] == 'U' && path[5] == 'N' && path[6] == 'C' && is_slash(path[7])
}

/// Whether a verbatim path names a drive.
pub open spec fn names_drive(path: Seq<char>) -> bool {
    has_drive_at(path, 4) && (path.len() == 6 || is_slash(path[6]))
}

/// Whether `path` names a device.
pub open spec fn is_device(style: PathStyle, path: Seq<char>) -> bool {
    starts_double(style, path) && path.len() >= 4 && path[2] == '.' && is_slash(path[3])
}

/// Where the volume of a verbatim path that names a share ends; the share itself
/// may be missing.
pub open spec fn verbatim_share_end(path: Seq<char>) -> nat {
    let server = name_end(NameStyle::Verbatim, path, 8);
    if server < path.len() && name_end(NameStyle::Verbatim, path, server + 1) > server + 1 {
        name_end(NameStyle::Verbatim, path, server + 1)
    } else {
        server
    }
}

/// The length of the volume that `path` starts with; 0 where there is none.
pub open spec fn volume_len(style: PathStyle, path: Seq<char>) -> nat {
    if has_drive(style, path) {
        2
    } else if is_verbatim(style, path) {
        if names_share(path) {
            verbatim_share_end(path)
        } else if names_drive(path) {
            6
        } else {
            name_end(NameStyle::Verbatim, path, 4)
        }
    } else if is_device(style, path) {
        name_end(NameStyle::Windows, path, 4)
    } else if starts_double(style, path) {
        let server = name_end(NameStyle::Windows, path, 2);
        if server == 2 || server >= path.len() || name_end(NameStyle::Windows, path, server + 1)
            == server + 1 {
            0
        } else {
            name_end(NameStyle::Windows, path, server + 1)
        }
    } else {
        0
    }
}

/// How the names behind the volume of `path` are written.
pub open spec fn name_style(style: PathStyle, path: Seq<char>) -> NameStyle {
    if style == PathStyle::Unix {
        NameStyle::Unix
    } else if is_verbatim(style, path) {
        NameStyle::Verbatim
    } else {
        NameStyle::Windows
    }
}

/// A volume ends within its path and, unless it is a drive, at its end or at a
/// separator.
proof fn lemma_volume_len(style: PathStyle, path: Seq<char>)
    ensures
        volume_len(style, path) <= path.len(),
        volume_len(style, path) > 0 ==> volume_len(style, path) >= 2,
        is_verbatim(style, path) ==> volume_len(style, path) >= 4,
        volume_len(style, path) > 0 && !has_drive(style, path) && volume_len(style, path)
            < path.len() ==> name_style(style, path).splits(
            names_of(style, path),
            0,
        ),
{
    if has_drive(style, path) {
    } else if is_verbatim(style, path) {
        if names_share(path) {
            lemma_name_end(NameStyle::Verbatim, path, 8);
            let server = name_end(NameStyle::Verbatim, path, 8);
            if server < path.len() {
                lemma_name_end(NameStyle::Verbatim, path, server + 1);
            }
        } else if !names_drive(path) {
            lemma_name_end(NameStyle::Verbatim, path, 4);
        }
    } else if is_device(style, path) {
        lemma_name_end(NameStyle::Windows, path, 4);
    } else if starts_double(style, path) {
        lemma_name_end(NameStyle::Windows, path, 2);
        let server = name_end(NameStyle::Windows, path, 2);
        if server < path.len() {
            lemma_name_end(NameStyle::Windows, path, server + 1);
        }
    }
}

/// `path` without its volume.
pub open spec fn names_of(style: PathStyle, path: Seq<char>) -> Seq<char> {
    path.skip(volume_len(style, path) as int)
}

/// Whether a separator stands right behind the volume of `path`.
pub open spec fn is_rooted(style: PathStyle, path: Seq<char>) -> bool {
    let names = names_of(style, path);
    names.len() > 0 && name_style(style, path).splits(names, 0)
}

/// Whether `path` starts at a root: it is written, or goes without saying, as
/// with a share or a device.
pub open spec fn has_root(style: PathStyle, path: Seq<char>) -> bool {
    is_rooted(style, path) || (volume_len(style, path) > 0 && !has_drive(style, path)
        && !is_verbatim(style, path))
}

/// Where the last name starts: after the last separator.
pub open spec fn name_start(kind: NameStyle, names: Seq<char>) -> nat
    decreases names.len(),
{
    if names.len() == 0 || kind.splits(names, names.len() - 1) {
        names.len()
    } else {
        name_start(kind, names.drop_last())
    }
}

/// The last name lies after the last separator.
pub proof fn lemma_name_start(kind: NameStyle, names: Seq<char>)
    ensures
        name_start(kind, names) <= names.len(),
        names.len() > 0 && !kind.splits(names, names.len() - 1) ==> name_start(kind, names)
            < names.len(),
        name_start(kind, names) > 0 ==> kind.splits(names, name_start(kind, names) - 1),
        forall|i: int| name_start(kind, names) <= i < names.len() ==> !kind.splits(names, i),
    decreases names.len(),
{
    if names.len() > 0 && !kind.splits(names, names.len() - 1) {
        let shorter = names.drop_last();
        lemma_name_start(kind, shorter);
        assert forall|i: int| name_start(kind, names) <= i < names.len() implies !kind.splits(
            names,
            i,
        ) by {
            if i < shorter.len() {
                assert(shorter[i] == names[i]);
                assert(!kind.splits(shorter, i));
            }
        }
    }
}

proof fn lemma_name_starts_at(kind: NameStyle, names: Seq<char>, start: nat)
    requires
        start <= names.len(),
        start > 0 ==> kind.splits(names, start - 1),
        forall|i: int| start <= i < names.len() ==> !kind.splits(names, i),
    ensures
        name_start(kind, names) == start,
    decreases names.len(),
{
    if start < names.len() {
        let shorter = names.drop_last();
        assert forall|i: int| start <= i < shorter.len() implies !kind.splits(shorter, i) by {
            assert(!kind.splits(names, i));
        }
        lemma_name_starts_at(kind, shorter, start);
    }
}

/// Whether the name from `start` on is no step: a `.` that is not the first of
/// its path.
pub open spec fn is_idle(kind: NameStyle, names: Seq<char>, start: int) -> bool {
    kind != NameStyle::Verbatim && start > 0 && names.skip(start) == seq!['.']
}

/// The steps of `names`, in their order.
pub open spec fn steps_of(kind: NameStyle, names: Seq<char>) -> Seq<Seq<char>>
    decreases names.len(),
{
    if names.len() == 0 {
        Seq::empty()
    } else if kind.splits(names, names.len() - 1) {
        steps_of(kind, names.drop_last())
    } else {
        proof {
            lemma_name_start(kind, names);
        }
        let start = name_start(kind, names) as int;
        if is_idle(kind, names, start) {
            steps_of(kind, names.take(start))
        } else {
            steps_of(kind, names.take(start)).push(names.skip(start))
        }
    }
}

/// Whether `step` can be a step: it holds no separator and is not empty.
pub open spec fn is_step(kind: NameStyle, step: Seq<char>) -> bool {
    &&& step.len() > 0
    &&& forall|i: int| 0 <= i < step.len() ==> !kind.separates(#[trigger] step[i])
}

/// Whether `steps` can be the steps of a path: a `.` comes first, in a path
/// without a root, or not at all.
pub open spec fn are_steps(kind: NameStyle, rooted: bool, steps: Seq<Seq<char>>) -> bool {
    &&& forall|i: int| 0 <= i < steps.len() ==> is_step(kind, #[trigger] steps[i])
    &&& kind != NameStyle::Verbatim ==> forall|i: int|
        0 <= i < steps.len() && #[trigger] steps[i] == seq!['.'] ==> i == 0 && !rooted
}

proof fn lemma_steps_of(kind: NameStyle, names: Seq<char>)
    ensures
        are_steps(kind, names.len() > 0 && kind.splits(names, 0), steps_of(kind, names)),
        steps_of(kind, names).len() <= names.len(),
        steps_of(kind, names).len() == names.len() ==> names.len() == 0 || !kind.splits(names, 0),
    decreases names.len(),
{
    if names.len() > 0 {
        let steps = steps_of(kind, names);
        let rooted = kind.splits(names, 0);
        if kind.splits(names, names.len() - 1) {
            let shorter = names.drop_last();
            lemma_steps_of(kind, shorter);
            if shorter.len() > 0 {
                assert(kind.splits(shorter, 0) == rooted);
            }
        } else {
            lemma_name_start(kind, names);
            let start = name_start(kind, names) as int;
            let head = names.take(start);
            let name = names.skip(start);
            lemma_steps_of(kind, head);
            if head.len() > 0 {
                assert(kind.splits(head, 0) == rooted);
            }
            if !is_idle(kind, names, start) {
                let before = steps_of(kind, head);
                assert forall|i: int| 0 <= i < name.len() implies !kind.separates(
                    #[trigger] name[i],
                ) by {
                    assert(!kind.splits(names, start + i));
                }
                assert(is_step(kind, name));
                assert forall|i: int| 0 <= i < steps.len() implies is_step(
                    kind,
                    #[trigger] steps[i],
                ) by {
                    if i < before.len() {
                        assert(steps[i] == before[i]);
                    }
                }
                if kind != NameStyle::Verbatim {
                    assert forall|i: int|
                        0 <= i < steps.len() && #[trigger] steps[i] == seq!['.'] implies i == 0
                        && !rooted by {
                        if i < before.len() {
                            assert(steps[i] == before[i]);
                        }
                    }
                }
            }
        }
    }
}

/// Steps written out: behind `root`, with `separator` between them.
pub open spec fn written(root: Seq<char>, separator: char, steps: Seq<Seq<char>>) -> Seq<char>
    decreases steps.len(),
{
    if steps.len() == 0 {
        root
    } else if steps.len() == 1 {
        root + steps[0]
    } else {
        written(root, separator, steps.drop_last()).push(separator) + steps.last()
    }
}

/// Whether `root` is how a root is written, or nothing.
pub open spec fn is_root_text(kind: NameStyle, root: Seq<char>) -> bool {
    &&& forall|i: int| 0 <= i < root.len() ==> kind.separates(#[trigger] root[i])
    &&& kind == NameStyle::Verbatim ==> root.len() > 0
}

/// Whether `step` stands at `from` in `text`, up to its end or a separator.
spec fn starts_with_step(text: Seq<char>, from: nat, step: Seq<char>, separator: char) -> bool {
    &&& text.len() >= from + step.len()
    &&& forall|i: int| 0 <= i < step.len() ==> #[trigger] text[from + i] == step[i]
    &&& text.len() > from + step.len() ==> text[(from + step.len()) as int] == separator
}

/// Steps that are written out are read again.
proof fn lemma_written_steps(
    kind: NameStyle,
    root: Seq<char>,
    separator: char,
    steps: Seq<Seq<char>>,
)
    requires
        kind.separates(separator),
        is_root_text(kind, root) || (steps.len() == 0 && root.len() == 0),
        are_steps(kind, root.len() > 0, steps),
    ensures
        steps_of(kind, written(root, separator, steps)) == steps,
        written(root, separator, steps).len() >= root.len(),
        written(root, separator, steps).take(root.len() as int) == root,
        steps.len() > 0 ==> starts_with_step(
            written(root, separator, steps),
            root.len(),
            steps[0],
            separator,
        ),
    decreases steps.len(),
{
    let text = written(root, separator, steps);
    if steps.len() == 0 {
        lemma_only_separators(kind, root);
        assert(text.take(root.len() as int) =~= root);
    } else {
        let last = steps.last();
        assert(is_step(kind, steps[steps.len() - 1]));
        let head = if steps.len() == 1 {
            root
        } else {
            written(root, separator, steps.drop_last()).push(separator)
        };
        assert(text =~= head + last);
        let start = head.len() as int;
        assert forall|i: int| start <= i < text.len() implies !kind.splits(text, i) by {
            assert(text[i] == last[i - start]);
            assert(!kind.separates(last[i - start]));
        }
        if start > 0 {
            assert(text[start - 1] == head[start - 1]);
            assert(kind.splits(text, start - 1));
        }
        lemma_name_starts_at(kind, text, start as nat);
        assert(text.take(start) =~= head);
        assert(text.skip(start) =~= last);
        assert(is_step(kind, steps[0]));
        if steps.len() == 1 {
            lemma_only_separators(kind, root);
            assert(!is_idle(kind, text, start)) by {
                if kind != NameStyle::Verbatim && start > 0 {
                    assert(steps[0] != seq!['.']);
                }
            }
            assert(steps_of(kind, text) =~= steps);
            assert(text.take(root.len() as int) =~= root);
        } else {
            let before = steps.drop_last();
            assert forall|i: int| 0 <= i < before.len() implies is_step(
                kind,
                #[trigger] before[i],
            ) by {
                assert(before[i] == steps[i]);
            }
            if kind != NameStyle::Verbatim {
                assert forall|i: int|
                    0 <= i < before.len() && #[trigger] before[i] == seq!['.'] implies i == 0
                    && root.len() == 0 by {
                    assert(before[i] == steps[i]);
                }
            }
            lemma_written_steps(kind, root, separator, before);
            let shorter = written(root, separator, before);
            assert(head.drop_last() =~= shorter);
            assert(kind.splits(head, head.len() - 1));
            assert(steps_of(kind, head) == before);
            assert(steps[steps.len() - 1] == last);
            assert(!is_idle(kind, text, start));
            assert(steps_of(kind, text) =~= steps);
            assert(text.take(root.len() as int) =~= shorter.take(root.len() as int));
            assert(before[0] == steps[0]);
            assert forall|i: int| 0 <= i < steps[0].len() implies #[trigger] text[root.len() + i]
                == steps[0][i] by {
                assert(text[root.len() + i] == shorter[root.len() + i]);
            }
        }
    }
}

proof fn lemma_only_separators(kind: NameStyle, names: Seq<char>)
    requires
        forall|i: int| 0 <= i < names.len() ==> kind.separates(#[trigger] names[i]),
    ensures
        steps_of(kind, names) == Seq::<Seq<char>>::empty(),
    decreases names.len(),
{
    if names.len() > 0 {
        assert(kind.separates(names[names.len() - 1]));
        lemma_only_separators(kind, names.drop_last());
    }
}

/// `names` without what stands behind the last name: trailing separators, and
/// `.` as a name that is no step. The root has no name, and nothing is left of
/// it.
pub open spec fn trimmed_names(kind: NameStyle, names: Seq<char>) -> Seq<char>
    decreases names.len(),
{
    if names.len() == 0 {
        names
    } else if kind.splits(names, names.len() - 1) {
        trimmed_names(kind, names.drop_last())
    } else {
        proof {
            lemma_name_start(kind, names);
        }
        if is_idle(kind, names, name_start(kind, names) as int) {
            trimmed_names(kind, names.take(name_start(kind, names) as int))
        } else {
            names
        }
    }
}

/// What is left after trimming is a beginning that ends in a name.
proof fn lemma_trimmed_names(kind: NameStyle, names: Seq<char>)
    ensures
        trimmed_names(kind, names).len() <= names.len(),
        trimmed_names(kind, names) == names.take(trimmed_names(kind, names).len() as int),
        trimmed_names(kind, names).len() > 0 ==> !kind.splits(
            trimmed_names(kind, names),
            trimmed_names(kind, names).len() - 1,
        ) && !is_idle(
            kind,
            trimmed_names(kind, names),
            name_start(kind, trimmed_names(kind, names)) as int,
        ),
        steps_of(kind, trimmed_names(kind, names)) == steps_of(kind, names),
    decreases names.len(),
{
    let kept = trimmed_names(kind, names);
    if names.len() > 0 {
        if kind.splits(names, names.len() - 1) {
            lemma_trimmed_names(kind, names.drop_last());
            assert(names.drop_last().take(kept.len() as int) =~= names.take(kept.len() as int));
        } else {
            lemma_name_start(kind, names);
            let start = name_start(kind, names) as int;
            if is_idle(kind, names, start) {
                lemma_trimmed_names(kind, names.take(start));
                assert(names.take(start).take(kept.len() as int) =~= names.take(
                    kept.len() as int,
                ));
            } else {
                assert(names.take(names.len() as int) =~= names);
            }
        }
    } else {
        assert(names.take(0) =~= names);
    }
}

/// `steps` with further steps taken from there: `.` stays, and `..` goes back
/// over a name.
pub open spec fn resolved(steps: Seq<Seq<char>>, further: Seq<Seq<char>>) -> Seq<Seq<char>>
    decreases further.len(),
{
    if further.len() == 0 {
        steps
    } else {
        let before = resolved(steps, further.drop_last());
        if further.last() == seq!['.'] {
            before
        } else if further.last() == seq!['.', '.'] {
            if before.len() > 0 && before.last() != seq!['.'] && before.last() != seq!['.', '.'] {
                before.drop_last()
            } else {
                before
            }
        } else {
            before.push(further.last())
        }
    }
}

/// Where the extension of a file name starts, dot included: at its last dot,
/// unless that dot is the first character; at its end if it has none.
pub open spec fn extension_start(name: Seq<char>, n: nat) -> nat
    decreases n,
{
    if n <= 1 {
        name.len()
    } else if name[n - 1] == '.' {
        (n - 1) as nat
    } else {
        extension_start(name, (n - 1) as nat)
    }
}

/// A character of the volume of `path`, as it counts: drive letters are capital,
/// and separators are written one way.
pub open spec fn volume_char(style: PathStyle, path: Seq<char>, i: int) -> char {
    if has_drive(style, path) {
        if i == 0 {
            ascii_upper(path[i])
        } else {
            path[i]
        }
    } else if is_verbatim(style, path) {
        if i == 4 && names_drive(path) {
            ascii_upper(path[i])
        } else if i == 7 && names_share(path) {
            '\\'
        } else {
            path[i]
        }
    } else if is_slash(path[i]) {
        // A server that is named `?` is told from a verbatim path.
        if path[2] == '?' && is_slash(path[3]) {
            '/'
        } else {
            '\\'
        }
    } else {
        path[i]
    }
}

/// The volume of `path`, as it counts.
pub open spec fn volume_of(style: PathStyle, path: Seq<char>) -> Seq<char> {
    Seq::new(volume_len(style, path), |i: int| volume_char(style, path, i))
}

/// Whether `volume` is verbatim and names a server without a share.
pub open spec fn lacks_share(volume: Seq<char>) -> bool {
    is_verbatim(PathStyle::Windows, volume) && names_share(volume) && name_end(
        NameStyle::Verbatim,
        volume,
        8,
    ) == volume.len()
}

/// What a path consists of: two paths are the same if these are.
pub struct PathParts {
    pub volume: Seq<char>,
    pub has_root: bool,
    pub steps: Seq<Seq<char>>,
}

impl PathParts {
    /// How the root is written, if there is one. A second separator keeps a first
    /// step from being read as a share that is missing.
    pub open spec fn root_text(self, style: PathStyle) -> Seq<char> {
        if !self.has_root {
            Seq::empty()
        } else if lacks_share(self.volume) {
            seq![style.separator(), style.separator()]
        } else {
            seq![style.separator()]
        }
    }

    /// The path that consists of these parts, written in one way.
    pub open spec fn text(self, style: PathStyle) -> Seq<char> {
        self.volume + written(self.root_text(style), style.separator(), self.steps)
    }
}

impl PathStyle {
    /// The separator that is written between names.
    pub open spec fn separator(self) -> char {
        match self {
            PathStyle::Unix => '/',
            PathStyle::Windows => '\\',
        }
    }

    /// The steps of `path` behind its volume and its root.
    pub open spec fn steps(self, path: Seq<char>) -> Seq<Seq<char>> {
        steps_of(name_style(self, path), names_of(self, path))
    }

    /// What `path` consists of.
    pub open spec fn parts_of(self, path: Seq<char>) -> PathParts {
        PathParts {
            volume: volume_of(self, path),
            has_root: has_root(self, path),
            steps: self.steps(path),
        }
    }

    /// The one way in which paths that are the same as `path` are written.
    pub open spec fn canonical(self, path: Seq<char>) -> Seq<char> {
        self.parts_of(path).text(self)
    }

    /// Whether `base` ends where a name can follow without a separator.
    pub open spec fn is_open_ended(self, base: Seq<char>) -> bool {
        base.len() == 0 || base.last() == '/' || (self == PathStyle::Windows && base.last()
            == '\\') || (has_drive(self, base) && base.len() == 2)
    }

    /// `tail` taken relative to `base`: a volume in `tail` replaces all of
    /// `base`, a root in it all but the volume of `base`. Behind a verbatim `base`
    /// the steps of `tail` are resolved.
    pub open spec fn joined(self, base: Seq<char>, tail: Seq<char>) -> Seq<char> {
        if volume_len(self, tail) > 0 {
            tail
        } else if is_verbatim(self, base) && tail.len() > 0 {
            let rooted = is_rooted(self, base) || is_rooted(self, tail);
            let from = if is_rooted(self, tail) {
                Seq::empty()
            } else {
                self.steps(base)
            };
            let steps = resolved(from, self.steps(tail));
            base.take(volume_len(self, base) as int) + written(
                if rooted || steps.len() > 0 {
                    seq!['\\']
                } else {
                    Seq::empty()
                },
                '\\',
                steps,
            )
        } else if is_rooted(self, tail) {
            base.take(volume_len(self, base) as int) + tail
        } else if self.is_open_ended(base) {
            base + tail
        } else {
            base.push(self.separator()) + tail
        }
    }

    /// The last name of `path`, if it has one: trailing separators and `.` do
    /// not count, and a path that ends in `..` has none.
    pub open spec fn file_name_of(self, path: Seq<char>) -> Option<Seq<char>> {
        let kind = name_style(self, path);
        let kept = trimmed_names(kind, names_of(self, path));
        let name = kept.skip(name_start(kind, kept) as int);
        if kept.len() == 0 || name == seq!['.'] || name == seq!['.', '.'] {
            None
        } else {
            Some(name)
        }
    }

    /// The directory that holds the last name of `path`: empty where `path` is
    /// that name alone, none for a root, a volume and the empty path.
    pub open spec fn parent_of(self, path: Seq<char>) -> Option<Seq<char>> {
        let volume = volume_len(self, path) as int;
        let kind = name_style(self, path);
        let kept = trimmed_names(kind, names_of(self, path));
        if kept.len() == 0 {
            None
        } else {
            let dir = kept.take(name_start(kind, kept) as int);
            if dir.len() > 0 && trimmed_names(kind, dir).len() == 0 {
                Some(path.take(volume + 1))
            } else {
                Some(path.take(volume) + trimmed_names(kind, dir))
            }
        }
    }

    /// The number of parts of `path`: its steps, and one each for a volume and a
    /// root.
    pub open spec fn depth_of(self, path: Seq<char>) -> nat {
        self.steps(path).len() + (if volume_len(self, path) > 0 {
            1nat
        } else {
            0nat
        }) + (if has_root(self, path) {
            1nat
        } else {
            0nat
        })
    }

    /// The path under which a file is written until it is complete: in the same
    /// directory, with its last name extended.
    pub open spec fn partial_of(self, dest: Seq<char>) -> Seq<char> {
        self.joined(self.parent_of(dest)->0, self.file_name_of(dest)->0 + ".partial"@)
    }

    /// `path` with the extension of its last name replaced, or taken away where
    /// `extension` is empty; a path without a last name stays as it is.
    pub open spec fn with_extension_of(self, path: Seq<char>, extension: Seq<char>) -> Seq<char> {
        let kind = name_style(self, path);
        let kept = trimmed_names(kind, names_of(self, path));
        let start = name_start(kind, kept);
        let name = kept.skip(start as int);
        let cut = volume_len(self, path) + start + extension_start(name, name.len());
        if self.file_name_of(path) is None {
            path
        } else if extension.len() == 0 {
            path.take(cut as int)
        } else {
            path.take(cut as int) + "."@ + extension
        }
    }

    /// The one way in which paths that are the same as `path` are written.
    pub fn canonical_path(self, path: &str) -> (canonical: String)
        ensures
            canonical@ == self.canonical(path@),
    {
        let chars = chars_of(path);
        let volume: usize = volume_end(self, &chars);
        let mut front: Vec<char> = Vec::new();
        let mut i: usize = 0;
        while i < volume
            invariant
                i <= volume == volume_len(self, chars@) <= chars@.len(),
                volume > 0 && !has_drive(self, chars@) ==> chars@.len() >= 4,
                front@ == volume_of(self, chars@).take(i as int),
            decreases volume - i,
        {
            front.push(volume_char_at(self, &chars, i));
            i = i + 1;
            assert(front@ =~= volume_of(self, chars@).take(i as int));
        }
        assert(front@ =~= volume_of(self, chars@));
        let names = rest_of(&chars, volume);
        let kind = kind_of(self, &chars);
        let rooted: bool = names.len() > 0 && kind.is_split(&names, 0);
        let mut root = String::new();
        if rooted || (volume > 0 && !is_drive(self, &chars) && kind != NameStyle::Verbatim) {
            root.push(self.main_separator());
            assert(root@ =~= seq![self.separator()]);
            if is_lacking_share(&front) {
                root.push(self.main_separator());
                assert(root@ =~= seq![self.separator(), self.separator()]);
            }
        }
        assert(root@ =~= self.parts_of(path@).root_text(self));
        let steps = split_steps(kind, &names);
        let mut canonical = string_of(&front, 0, front.len());
        assert(canonical@ =~= front@);
        canonical.append(write_steps(root, self.main_separator(), &steps).as_str());
        canonical
    }

    /// The separator that is written between names.
    fn main_separator(self) -> (separator: char)
        ensures
            separator == self.separator(),
    {
        match self {
            PathStyle::Unix => '/',
            PathStyle::Windows => '\\',
        }
    }

    /// Joins two paths.
    pub fn join(self, base: &str, tail: &str) -> (path: String)
        ensures
            path@ == self.joined(base@, tail@),
    {
        let base_chars = chars_of(base);
        let tail_chars = chars_of(tail);
        let base_len: usize = base_chars.len();
        let volume: usize = volume_end(self, &base_chars);
        if volume_end(self, &tail_chars) > 0 {
            return tail.to_owned();
        }
        assert(names_of(self, tail@) =~= tail@);
        assert(base@.subrange(0, volume as int) =~= base@.take(volume as int));
        let tail_kind = kind_of(self, &tail_chars);
        let tail_rooted: bool = tail_chars.len() > 0 && tail_kind.is_split(&tail_chars, 0);
        if kind_of(self, &base_chars) == NameStyle::Verbatim && tail_chars.len() > 0 {
            let names = rest_of(&base_chars, volume);
            let rooted: bool = tail_rooted || (names.len() > 0 && NameStyle::Verbatim.is_split(
                &names,
                0,
            ));
            let from = if tail_rooted {
                let none: Vec<String> = Vec::new();
                assert(texts(none@) =~= Seq::<Seq<char>>::empty());
                none
            } else {
                split_steps(NameStyle::Verbatim, &names)
            };
            let steps = resolve(from, &split_steps(tail_kind, &tail_chars));
            let mut root = String::new();
            if rooted || steps.len() > 0 {
                root.push('\\');
                assert(root@ =~= seq!['\\']);
            }
            let mut path = string_of(&base_chars, 0, volume);
            path.append(write_steps(root, '\\', &steps).as_str());
            return path;
        }
        if tail_rooted {
            let mut path = string_of(&base_chars, 0, volume);
            path.append(tail);
            return path;
        }
        let mut path = base.to_owned();
        let open_ended: bool = base_len == 0 || base_chars[base_len - 1] == '/' || (self
            == PathStyle::Windows && base_chars[base_len - 1] == '\\') || (is_drive(
            self,
            &base_chars,
        ) && base_len == 2);
        if !open_ended {
            path.push(self.main_separator());
        }
        path.append(tail);
        path
    }

    /// The last name of `path`, if it has one.
    pub fn file_name(self, path: &str) -> (name: Option<String>)
        ensures
            match name {
                Some(text) => self.file_name_of(path@) == Some(text@),
                None => self.file_name_of(path@) is None,
            },
    {
        let chars = chars_of(path);
        let kind = kind_of(self, &chars);
        let names = rest_of(&chars, volume_end(self, &chars));
        assert(names@.take(names@.len() as int) =~= names@);
        let end: usize = trimmed_end(kind, &names, names.len());
        if end == 0 {
            return None;
        }
        let start: usize = find_name_start(kind, &names, end);
        let ghost name = trimmed_names(kind, names@).skip(start as int);
        assert(name =~= names@.subrange(start as int, end as int));
        let dot: bool = end - start == 1 && names[start] == '.';
        let dots: bool = end - start == 2 && names[start] == '.' && names[start + 1] == '.';
        proof {
            assert(name[0] == names@[start as int]);
            if name.len() == 2 {
                assert(name[1] == names@[start + 1]);
            }
            if dot {
                assert(name =~= seq!['.']);
            }
            if dots {
                assert(name =~= seq!['.', '.']);
            }
        }
        if dot || dots {
            None
        } else {
            Some(string_of(&names, start, end))
        }
    }

    /// The directory that holds the last name of `path`.
    pub fn parent(self, path: &str) -> (dir: Option<String>)
        ensures
            match dir {
                Some(text) => self.parent_of(path@) == Some(text@),
                None => self.parent_of(path@) is None,
            },
    {
        let chars = chars_of(path);
        let kind = kind_of(self, &chars);
        let volume: usize = volume_end(self, &chars);
        let names = rest_of(&chars, volume);
        assert(names@.take(names@.len() as int) =~= names@);
        let end: usize = trimmed_end(kind, &names, names.len());
        if end == 0 {
            return None;
        }
        let start: usize = find_name_start(kind, &names, end);
        assert(trimmed_names(kind, names@).take(start as int) =~= names@.take(start as int));
        let cut: usize = trimmed_end(kind, &names, start);
        let length: usize = chars.len();
        assert(volume + end <= length);
        if start > 0 && cut == 0 {
            assert(chars@.subrange(0, volume + 1) =~= path@.take(volume + 1));
            return Some(string_of(&chars, 0, volume + 1));
        }
        assert(chars@.subrange(0, volume + cut) =~= path@.take(volume as int) + names@.take(
            cut as int,
        ));
        Some(string_of(&chars, 0, volume + cut))
    }

    /// Counts the parts of `path`.
    pub fn depth(self, path: &str) -> (parts: usize)
        ensures
            parts == self.depth_of(path@),
    {
        let chars = chars_of(path);
        let kind = kind_of(self, &chars);
        let volume: usize = volume_end(self, &chars);
        let names = rest_of(&chars, volume);
        let steps = split_steps(kind, &names);
        let mut parts: usize = steps.len();
        let length: usize = chars.len();
        proof {
            assert(texts(steps@).len() == steps@.len());
            lemma_steps_of(kind, names@);
            lemma_volume_len(self, path@);
            assert(volume + names@.len() == length);
        }
        if volume > 0 {
            parts = parts + 1;
        }
        if (names.len() > 0 && kind.is_split(&names, 0)) || (volume > 0 && !is_drive(self, &chars)
            && kind != NameStyle::Verbatim) {
            parts = parts + 1;
        }
        parts
    }

    /// The path under which `dest` is written until it is complete.
    pub fn partial_path(self, dest: &str) -> (partial: String)
        requires
            self.file_name_of(dest@) is Some,
        ensures
            partial@ == self.partial_of(dest@),
    {
        let dir = self.parent(dest).unwrap();
        let mut name = self.file_name(dest).unwrap();
        name.append(".partial");
        self.join(dir.as_str(), name.as_str())
    }

    /// Replaces the extension of the last name of `path`, or takes it away where
    /// `extension` is empty. An extension holds no separator.
    pub fn with_extension(self, path: &str, extension: &str) -> (replaced: String)
        requires
            forall|i: int|
                0 <= i < extension@.len() ==> extension@[i] != '/' && (self == PathStyle::Windows
                    ==> extension@[i] != '\\'),
        ensures
            replaced@ == self.with_extension_of(path@, extension@),
    {
        if self.file_name(path).is_none() {
            return path.to_owned();
        }
        let chars = chars_of(path);
        let kind = kind_of(self, &chars);
        let volume: usize = volume_end(self, &chars);
        let names = rest_of(&chars, volume);
        assert(names@.take(names@.len() as int) =~= names@);
        let end: usize = trimmed_end(kind, &names, names.len());
        let start: usize = find_name_start(kind, &names, end);
        let ghost name = trimmed_names(kind, names@).skip(start as int);
        assert(name =~= names@.subrange(start as int, end as int));
        let cut: usize = find_extension(&names, start, end);
        let length: usize = chars.len();
        assert(volume + cut <= length);
        assert(chars@.subrange(0, volume + cut) =~= path@.take(volume + cut));
        let mut replaced = string_of(&chars, 0, volume + cut);
        if extension.unicode_len() > 0 {
            replaced.append(".");
            replaced.append(extension);
        }
        replaced
    }
}

/// Whether the volume of `path` is a drive.
fn is_drive(style: PathStyle, path: &Vec<char>) -> (drive: bool)
    ensures
        drive == has_drive(style, path@),
{
    style == PathStyle::Windows && is_drive_at(path, 0)
}

fn is_drive_at(path: &Vec<char>, i: usize) -> (drive: bool)
    requires
        i <= 4,
    ensures
        drive == has_drive_at(path@, i as int),
{
    path.len() >= i + 2 && (('a' <= path[i] && path[i] <= 'z') || ('A' <= path[i] && path[i]
        <= 'Z')) && path[i + 1] == ':'
}

fn slash_at(path: &Vec<char>, i: usize) -> (slash: bool)
    requires
        i < path@.len(),
    ensures
        slash == is_slash(path@[i as int]),
{
    path[i] == '/' || path[i] == '\\'
}

fn is_naming_share(path: &Vec<char>) -> (share: bool)
    ensures
        share == names_share(path@),
{
    path.len() >= 8 && path[4] == 'U' && path[5] == 'N' && path[6] == 'C' && slash_at(path, 7)
}

fn is_naming_drive(path: &Vec<char>) -> (drive: bool)
    ensures
        drive == names_drive(path@),
{
    is_drive_at(path, 4) && (path.len() == 6 || slash_at(path, 6))
}

/// How the names behind the volume of `path` are written.
fn kind_of(style: PathStyle, path: &Vec<char>) -> (kind: NameStyle)
    ensures
        kind == name_style(style, path@),
{
    if style == PathStyle::Unix {
        NameStyle::Unix
    } else if path.len() >= 4 && path[0] == '\\' && path[1] == '\\' && path[2] == '?' && path[3]
        == '\\' {
        NameStyle::Verbatim
    } else {
        NameStyle::Windows
    }
}

fn find_name_end(kind: NameStyle, path: &Vec<char>, from: usize) -> (end: usize)
    requires
        from <= path@.len(),
    ensures
        end == name_end(kind, path@, from as nat),
        from <= end <= path@.len(),
{
    let mut end: usize = from;
    while end < path.len() && !kind.is_separator(path[end])
        invariant
            from <= end <= path@.len(),
            name_end(kind, path@, end as nat) == name_end(kind, path@, from as nat),
        decreases path@.len() - end,
    {
        end = end + 1;
    }
    end
}

/// Where the volume of a verbatim path that names a share ends.
fn find_verbatim_share_end(path: &Vec<char>) -> (end: usize)
    requires
        path@.len() >= 8,
    ensures
        end == verbatim_share_end(path@),
        end <= path@.len(),
{
    let server: usize = find_name_end(NameStyle::Verbatim, path, 8);
    if server < path.len() {
        let share: usize = find_name_end(NameStyle::Verbatim, path, server + 1);
        if share > server + 1 {
            return share;
        }
    }
    server
}

/// Whether `volume` is verbatim and names a server without a share.
fn is_lacking_share(volume: &Vec<char>) -> (lacking: bool)
    ensures
        lacking == lacks_share(volume@),
{
    kind_of(PathStyle::Windows, volume) == NameStyle::Verbatim && is_naming_share(volume)
        && find_name_end(NameStyle::Verbatim, volume, 8) == volume.len()
}

/// Where the volume of `path` ends.
fn volume_end(style: PathStyle, path: &Vec<char>) -> (end: usize)
    ensures
        end == volume_len(style, path@),
        end <= path@.len(),
        end > 0 && !has_drive(style, path@) ==> path@.len() >= 4,
{
    if is_drive(style, path) {
        return 2;
    }
    if kind_of(style, path) == NameStyle::Verbatim {
        if is_naming_share(path) {
            return find_verbatim_share_end(path);
        }
        if is_naming_drive(path) {
            return 6;
        }
        return find_name_end(NameStyle::Verbatim, path, 4);
    }
    if style == PathStyle::Windows && path.len() >= 2 && slash_at(path, 0) && slash_at(path, 1) {
        if path.len() >= 4 && path[2] == '.' && slash_at(path, 3) {
            return find_name_end(NameStyle::Windows, path, 4);
        }
        let server: usize = find_name_end(NameStyle::Windows, path, 2);
        if server == 2 || server >= path.len() {
            return 0;
        }
        let share: usize = find_name_end(NameStyle::Windows, path, server + 1);
        if share == server + 1 {
            return 0;
        }
        return share;
    }
    0
}

fn volume_char_at(style: PathStyle, path: &Vec<char>, i: usize) -> (c: char)
    requires
        i < path@.len(),
        has_drive(style, path@) || path@.len() >= 4,
    ensures
        c == volume_char(style, path@, i as int),
{
    if is_drive(style, path) {
        return if i == 0 {
            to_ascii_upper(path[i])
        } else {
            path[i]
        };
    }
    if kind_of(style, path) == NameStyle::Verbatim {
        return if i == 4 && is_naming_drive(path) {
            to_ascii_upper(path[i])
        } else if i == 7 && is_naming_share(path) {
            '\\'
        } else {
            path[i]
        };
    }
    if slash_at(path, i) {
        if path[2] == '?' && slash_at(path, 3) {
            '/'
        } else {
            '\\'
        }
    } else {
        path[i]
    }
}

/// What follows the first `from` characters.
fn rest_of(path: &Vec<char>, from: usize) -> (rest: Vec<char>)
    requires
        from <= path@.len(),
    ensures
        rest@ == path@.skip(from as int),
{
    let mut rest: Vec<char> = Vec::new();
    let mut i: usize = from;
    while i < path.len()
        invariant
            from <= i <= path@.len(),
            rest@ == path@.subrange(from as int, i as int),
        decreases path@.len() - i,
    {
        rest.push(path[i]);
        i = i + 1;
        assert(rest@ =~= path@.subrange(from as int, i as int));
    }
    assert(rest@ =~= path@.skip(from as int));
    rest
}

fn find_name_start(kind: NameStyle, names: &Vec<char>, end: usize) -> (start: usize)
    requires
        end <= names@.len(),
    ensures
        start == name_start(kind, names@.take(end as int)),
        start <= end,
        end > 0 && !kind.splits(names@, end - 1) ==> start < end,
{
    let mut start: usize = end;
    while start > 0 && !kind.is_split(names, start - 1)
        invariant
            start <= end <= names@.len(),
            name_start(kind, names@.take(start as int)) == name_start(
                kind,
                names@.take(end as int),
            ),
        decreases start,
    {
        assert(names@.take(start as int).drop_last() =~= names@.take(start - 1));
        start = start - 1;
    }
    proof {
        lemma_name_start(kind, names@.take(end as int));
    }
    start
}

/// Where the extension of the name from `start` to `end` starts.
fn find_extension(names: &Vec<char>, start: usize, end: usize) -> (cut: usize)
    requires
        start <= end <= names@.len(),
    ensures
        start <= cut <= end,
        cut - start == extension_start(
            names@.subrange(start as int, end as int),
            (end - start) as nat,
        ),
{
    let ghost name = names@.subrange(start as int, end as int);
    let mut n: usize = end - start;
    while n > 1
        invariant
            n <= end - start,
            start <= end <= names@.len(),
            name == names@.subrange(start as int, end as int),
            extension_start(name, n as nat) == extension_start(name, name.len()),
        decreases n,
    {
        assert(name[n - 1] == names@[start + n - 1]);
        if names[start + n - 1] == '.' {
            return start + (n - 1);
        }
        n = n - 1;
    }
    end
}

/// Whether the name from `start` to `end` is no step.
fn is_idle_name(kind: NameStyle, names: &Vec<char>, start: usize, end: usize) -> (idle: bool)
    requires
        start < end <= names@.len(),
    ensures
        idle == is_idle(kind, names@.take(end as int), start as int),
{
    let ghost name = names@.take(end as int).skip(start as int);
    proof {
        assert(name[0] == names@[start as int]);
        if name.len() == 1 && names@[start as int] == '.' {
            assert(name =~= seq!['.']);
        }
    }
    kind != NameStyle::Verbatim && start > 0 && end - start == 1 && names[start] == '.'
}

/// The steps of `names`.
fn split_steps(kind: NameStyle, names: &Vec<char>) -> (steps: Vec<String>)
    ensures
        texts(steps@) == steps_of(kind, names@),
{
    let mut reversed: Vec<String> = Vec::new();
    let mut end: usize = names.len();
    assert(names@.take(end as int) =~= names@);
    assert(steps_of(kind, names@) + texts(reversed@).reverse() =~= steps_of(kind, names@));
    while end > 0
        invariant
            end <= names@.len(),
            steps_of(kind, names@.take(end as int)) + texts(reversed@).reverse() == steps_of(
                kind,
                names@,
            ),
        decreases end,
    {
        let ghost head = names@.take(end as int);
        if kind.is_split(names, end - 1) {
            assert(head.drop_last() =~= names@.take(end - 1));
            end = end - 1;
        } else {
            let start: usize = find_name_start(kind, names, end);
            assert(head.take(start as int) =~= names@.take(start as int));
            if !is_idle_name(kind, names, start, end) {
                let ghost before = texts(reversed@);
                let step = string_of(names, start, end);
                assert(step@ =~= head.skip(start as int));
                reversed.push(step);
                assert(texts(reversed@) =~= before.push(step@));
                assert(texts(reversed@).reverse() =~= seq![step@] + before.reverse());
                assert(steps_of(kind, head.take(start as int)).push(step@) + before.reverse()
                    =~= steps_of(kind, head.take(start as int)) + (seq![step@]
                    + before.reverse()));
            }
            end = start;
        }
    }
    assert(names@.take(0) =~= Seq::<char>::empty());
    assert(texts(reversed@).reverse() =~= steps_of(kind, names@));
    let ghost back = reversed@;
    let mut steps: Vec<String> = Vec::new();
    while reversed.len() > 0
        invariant
            reversed@.len() <= back.len(),
            reversed@ == back.take(reversed@.len() as int),
            steps@ == back.reverse().take(back.len() - reversed@.len()),
        decreases reversed@.len(),
    {
        let ghost n = reversed@.len();
        if let Some(step) = reversed.pop() {
            steps.push(step);
        }
        assert(reversed@ =~= back.take(n - 1));
        assert(steps@ =~= back.reverse().take(back.len() - (n - 1)));
    }
    assert(steps@ =~= back.reverse());
    assert(texts(steps@) =~= texts(back).reverse());
    steps
}

/// Writes steps out behind `root`.
fn write_steps(root: String, separator: char, steps: &Vec<String>) -> (text: String)
    ensures
        text@ == written(root@, separator, texts(steps@)),
{
    let ghost all = texts(steps@);
    let mut text = root;
    let mut i: usize = 0;
    assert(all.take(0) =~= Seq::<Seq<char>>::empty());
    while i < steps.len()
        invariant
            i <= steps@.len(),
            all == texts(steps@),
            text@ == written(root@, separator, all.take(i as int)),
        decreases steps@.len() - i,
    {
        let ghost next = all.take(i + 1);
        assert(next.drop_last() =~= all.take(i as int));
        assert(next.last() == steps@[i as int]@);
        if i > 0 {
            text.push(separator);
        }
        text.append(steps[i].as_str());
        assert(text@ =~= written(root@, separator, next));
        i = i + 1;
    }
    assert(all.take(i as int) =~= all);
    text
}

fn is_dots(step: &String, count: usize) -> (dots: bool)
    requires
        1 <= count <= 2,
    ensures
        dots == (step@ == (if count == 1 {
            seq!['.']
        } else {
            seq!['.', '.']
        })),
{
    let dots: bool = step.as_str().unicode_len() == count && step.as_str().get_char(0) == '.'
        && step.as_str().get_char(count - 1) == '.';
    assert(dots && count == 1 ==> step@ =~= seq!['.']);
    assert(dots && count == 2 ==> step@ =~= seq!['.', '.']);
    dots
}

/// Takes further steps from `steps` on.
fn resolve(steps: Vec<String>, further: &Vec<String>) -> (all: Vec<String>)
    ensures
        texts(all@) == resolved(texts(steps@), texts(further@)),
{
    let ghost taken = texts(further@);
    let mut all = steps;
    let mut i: usize = 0;
    assert(taken.take(0) =~= Seq::<Seq<char>>::empty());
    while i < further.len()
        invariant
            i <= further@.len(),
            taken == texts(further@),
            texts(all@) == resolved(texts(steps@), taken.take(i as int)),
        decreases further@.len() - i,
    {
        let ghost before = texts(all@);
        assert(taken.take(i + 1).drop_last() =~= taken.take(i as int));
        assert(taken.take(i + 1).last() == further@[i as int]@);
        if is_dots(&further[i], 1) {
        } else if is_dots(&further[i], 2) {
            let n: usize = all.len();
            if n > 0 && !is_dots(&all[n - 1], 1) && !is_dots(&all[n - 1], 2) {
                assert(before.last() == all@[n - 1]@);
                let _last = all.pop();
                assert(texts(all@) =~= before.drop_last());
            } else if n > 0 {
                assert(before.last() == all@[n - 1]@);
            }
        } else {
            all.push(further[i].clone());
            assert(texts(all@) =~= before.push(further@[i as int]@));
        }
        i = i + 1;
    }
    assert(taken.take(i as int) =~= taken);
    all
}

/// Where `trimmed_names` cuts the first `end` characters.
fn trimmed_end(kind: NameStyle, names: &Vec<char>, end: usize) -> (cut: usize)
    requires
        end <= names@.len(),
    ensures
        cut <= end,
        names@.take(cut as int) == trimmed_names(kind, names@.take(end as int)),
        cut > 0 ==> !kind.splits(names@, cut - 1),
{
    let mut cut: usize = end;
    while cut > 0
        invariant
            cut <= end <= names@.len(),
            trimmed_names(kind, names@.take(cut as int)) == trimmed_names(
                kind,
                names@.take(end as int),
            ),
        decreases cut,
    {
        let ghost prefix = names@.take(cut as int);
        if kind.is_split(names, cut - 1) {
            assert(prefix.drop_last() =~= names@.take(cut - 1));
            cut = cut - 1;
        } else {
            let start: usize = find_name_start(kind, names, cut);
            assert(prefix.take(start as int) =~= names@.take(start as int));
            if is_idle_name(kind, names, start, cut) {
                cut = start;
            } else {
                return cut;
            }
        }
    }
    cut
}

/// The first step of a path without a root starts it.
proof fn lemma_first_step(kind: NameStyle, names: Seq<char>)
    requires
        names.len() > 0,
        !kind.splits(names, 0),
    ensures
        steps_of(kind, names).len() > 0,
        steps_of(kind, names)[0].len() <= names.len(),
        steps_of(kind, names)[0] == names.take(steps_of(kind, names)[0].len() as int),
        steps_of(kind, names)[0].len() < names.len() ==> kind.splits(
            names,
            steps_of(kind, names)[0].len() as int,
        ),
    decreases names.len(),
{
    let first = steps_of(kind, names)[0];
    if kind.splits(names, names.len() - 1) {
        let shorter = names.drop_last();
        lemma_first_step(kind, shorter);
        assert(first == steps_of(kind, shorter)[0]);
        assert(names.take(first.len() as int) =~= shorter.take(first.len() as int));
        if first.len() < shorter.len() {
            assert(shorter[first.len() as int] == names[first.len() as int]);
        }
    } else {
        lemma_name_start(kind, names);
        let start = name_start(kind, names) as int;
        if start == 0 {
            assert(names.skip(0) =~= names);
            assert(names.take(0) =~= Seq::<char>::empty());
            assert(steps_of(kind, names.take(0)) =~= Seq::<Seq<char>>::empty());
            assert(steps_of(kind, names) == Seq::<Seq<char>>::empty().push(names));
            assert(names.take(names.len() as int) =~= names);
        } else {
            let head = names.take(start);
            lemma_first_step(kind, head);
            assert(first == steps_of(kind, head)[0]);
            assert(names.take(first.len() as int) =~= head.take(first.len() as int));
            if first.len() < head.len() {
                assert(head[first.len() as int] == names[first.len() as int]);
            }
            if first.len() == head.len() {
                assert(head =~= first);
                lemma_steps_of(kind, head);
                assert(is_step(kind, steps_of(kind, head)[0]));
                assert(first[start - 1] == names[start - 1]);
            }
        }
    }
}

/// The steps and the root of `path`, written out, and what is read of them.
proof fn lemma_written_parts(style: PathStyle, path: Seq<char>)
    ensures
        ({
            let parts = style.parts_of(path);
            let root = parts.root_text(style);
            let rest = written(root, style.separator(), parts.steps);
            let kind = name_style(style, path);
            &&& steps_of(kind, rest) == parts.steps
            &&& rest.len() >= root.len()
            &&& forall|i: int| 0 <= i < root.len() ==> #[trigger] rest[i] == style.separator()
            &&& rest.len() == 0 <==> root.len() == 0 && parts.steps.len() == 0
            &&& parts.steps.len() > 0 ==> starts_with_step(
                rest,
                root.len(),
                parts.steps[0],
                style.separator(),
            )
            &&& parts.steps.len() > 0 ==> is_step(kind, parts.steps[0])
            &&& volume_len(style, path) > 0 && !has_drive(style, path) && rest.len() > 0
                ==> root.len() > 0
            &&& is_verbatim(style, path) && !parts.has_root ==> rest.len() == 0
        }),
{
    let parts = style.parts_of(path);
    let root = parts.root_text(style);
    let names = names_of(style, path);
    let kind = name_style(style, path);
    lemma_volume_len(style, path);
    lemma_steps_of(kind, names);
    lemma_written_steps(kind, root, style.separator(), parts.steps);
    let rest = written(root, style.separator(), parts.steps);
    assert forall|i: int| 0 <= i < root.len() implies #[trigger] rest[i] == style.separator() by {
        assert(rest.take(root.len() as int)[i] == rest[i]);
    }
    if parts.steps.len() > 0 {
        assert(is_step(kind, parts.steps[0]));
    }
}

/// A path written in one way is on the volume on which it was.
#[verifier::spinoff_prover]
proof fn lemma_canonical_volume(style: PathStyle, path: Seq<char>)
    ensures
        volume_len(style, style.canonical(path)) == volume_len(style, path),
        name_style(style, style.canonical(path)) == name_style(style, path),
        has_drive(style, style.canonical(path)) == has_drive(style, path),
        volume_of(style, style.canonical(path)) == volume_of(style, path),
{
    let parts = style.parts_of(path);
    let rest = written(parts.root_text(style), style.separator(), parts.steps);
    let canonical = style.canonical(path);
    let volume = volume_len(style, path);
    lemma_volume_len(style, path);
    lemma_written_parts(style, path);
    assert forall|i: int| 0 <= i < volume implies #[trigger] canonical[i] == volume_char(
        style,
        path,
        i,
    ) by {
        assert(canonical[i] == parts.volume[i]);
    }
    assert forall|i: int| 0 <= i < rest.len() implies #[trigger] canonical[volume + i]
        == rest[i] by {}
    if style == PathStyle::Unix {
    } else if volume == 0 {
        lemma_canonical_without_volume(path);
    } else if has_drive(style, path) {
    } else if is_verbatim(style, path) {
        lemma_canonical_verbatim(path);
    } else {
        lemma_canonical_share(path);
    }
    assert forall|i: int| 0 <= i < volume implies volume_char(style, canonical, i) == volume_char(
        style,
        path,
        i,
    ) by {
        assert(canonical[i] == volume_char(style, path, i));
        if !has_drive(style, path) && !is_verbatim(style, path) {
            assert(canonical[2] == volume_char(style, path, 2));
            assert(canonical[3] == volume_char(style, path, 3));
        }
    }
    assert(volume_of(style, canonical) =~= volume_of(style, path));
}

proof fn lemma_canonical_without_volume(path: Seq<char>)
    requires
        volume_len(PathStyle::Windows, path) == 0,
    ensures
        volume_len(PathStyle::Windows, PathStyle::Windows.canonical(path)) == 0,
        !is_verbatim(PathStyle::Windows, PathStyle::Windows.canonical(path)),
{
    let style = PathStyle::Windows;
    let parts = style.parts_of(path);
    let root = parts.root_text(style);
    let canonical = style.canonical(path);
    let names = names_of(style, path);
    lemma_volume_len(style, path);
    lemma_written_parts(style, path);
    assert(names =~= path);
    assert(canonical =~= written(root, style.separator(), parts.steps));
    if parts.steps.len() > 0 {
        let first = parts.steps[0];
        assert(canonical[root.len() + 0int] == first[0]);
        assert(!is_slash(first[0]));
        if root.len() == 0 {
            assert(path.len() > 0) by {
                if path.len() == 0 {
                    lemma_steps_of(NameStyle::Windows, path);
                }
            }
            lemma_first_step(NameStyle::Windows, path);
            assert(first[0] == path[0]);
            if first.len() > 1 {
                assert(canonical[root.len() + 1int] == first[1]);
                assert(first[1] == path[1]);
            }
        }
    }
    if root.len() > 0 {
        assert(canonical[0] == '\\');
    }
}

#[verifier::spinoff_prover]
proof fn lemma_canonical_verbatim(path: Seq<char>)
    requires
        is_verbatim(PathStyle::Windows, path),
    ensures
        ({
            let canonical = PathStyle::Windows.canonical(path);
            &&& volume_len(PathStyle::Windows, canonical) == volume_len(PathStyle::Windows, path)
            &&& is_verbatim(PathStyle::Windows, canonical)
            &&& names_share(canonical) == names_share(path)
            &&& names_drive(canonical) == names_drive(path)
        }),
{
    let style = PathStyle::Windows;
    let kind = NameStyle::Verbatim;
    let parts = style.parts_of(path);
    let root = parts.root_text(style);
    let rest = written(root, style.separator(), parts.steps);
    let canonical = style.canonical(path);
    let volume = volume_len(style, path);
    lemma_volume_len(style, path);
    lemma_written_parts(style, path);
    assert forall|i: int| 0 <= i < volume implies #[trigger] canonical[i] == volume_char(
        style,
        path,
        i,
    ) by {
        assert(canonical[i] == parts.volume[i]);
    }
    if rest.len() > 0 {
        assert(canonical[volume + 0int] == rest[0]);
        assert(rest[0] == '\\');
    }
    assert(canonical[0] == '\\' && canonical[1] == '\\' && canonical[2] == '?' && canonical[3]
        == '\\');
    if names_share(path) {
        let server = name_end(kind, path, 8);
        lemma_name_end(kind, path, 8);
        if server < path.len() {
            lemma_name_end(kind, path, server + 1);
        }
        assert(canonical[4] == 'U' && canonical[5] == 'N' && canonical[6] == 'C' && canonical[7]
            == '\\');
        assert forall|i: int| 8 <= i < server implies !kind.separates(canonical[i]) by {
            assert(canonical[i] == path[i]);
        }
        assert forall|i: int| 0 <= i < volume implies parts.volume[i] == canonical[i] by {}
        if server < volume {
            assert(canonical[server as int] == path[server as int]);
            lemma_name_ends_at(kind, canonical, 8, server);
            assert forall|i: int| server + 1 <= i < volume implies !kind.separates(
                canonical[i],
            ) by {
                assert(canonical[i] == path[i]);
            }
            lemma_name_ends_at(kind, canonical, server + 1, volume);
        } else {
            assert(names_share(parts.volume));
            lemma_name_ends_at(kind, parts.volume, 8, server);
            assert(lacks_share(parts.volume));
            lemma_name_ends_at(kind, canonical, 8, server);
            if rest.len() > 0 {
                assert(root.len() == 2);
                assert(rest[1] == '\\');
                assert(canonical[volume + 1int] == rest[1]);
                lemma_name_ends_at(kind, canonical, server + 1, server + 1);
            }
        }
    } else if names_drive(path) {
        assert(canonical[4] == ascii_upper(path[4]));
        assert(canonical[5] == ':');
    } else {
        lemma_name_end(kind, path, 4);
        assert forall|i: int| 4 <= i < volume implies canonical[i] == path[i] by {
            assert(canonical[i] == volume_char(style, path, i));
        }
        lemma_name_ends_at(kind, canonical, 4, volume);
    }
}

#[verifier::spinoff_prover]
proof fn lemma_canonical_share(path: Seq<char>)
    requires
        volume_len(PathStyle::Windows, path) > 0,
        !has_drive(PathStyle::Windows, path),
        !is_verbatim(PathStyle::Windows, path),
    ensures
        ({
            let canonical = PathStyle::Windows.canonical(path);
            &&& volume_len(PathStyle::Windows, canonical) == volume_len(PathStyle::Windows, path)
            &&& !is_verbatim(PathStyle::Windows, canonical)
            &&& !has_drive(PathStyle::Windows, canonical)
        }),
        volume_len(PathStyle::Windows, path) >= 4,
{
    let style = PathStyle::Windows;
    let kind = NameStyle::Windows;
    let parts = style.parts_of(path);
    let root = parts.root_text(style);
    let rest = written(root, style.separator(), parts.steps);
    let canonical = style.canonical(path);
    let volume = volume_len(style, path);
    lemma_volume_len(style, path);
    lemma_written_parts(style, path);
    if is_device(style, path) {
        lemma_name_end(kind, path, 4);
    } else {
        let server = name_end(kind, path, 2);
        lemma_name_end(kind, path, 2);
        lemma_name_end(kind, path, server + 1);
    }
    assert forall|i: int| 0 <= i < volume implies is_slash(#[trigger] canonical[i]) == is_slash(
        path[i],
    ) && (!is_slash(path[i]) ==> canonical[i] == path[i]) by {
        assert(canonical[i] == parts.volume[i]);
        assert(parts.volume[i] == volume_char(style, path, i));
    }
    if rest.len() > 0 {
        assert(canonical[volume + 0int] == rest[0]);
        assert(rest[0] == '\\');
    }
    assert(canonical[0] == volume_char(style, path, 0));
    assert(is_slash(canonical[1]));
    assert(is_slash(canonical[2]) == is_slash(path[2]));
    assert(is_slash(canonical[3]) == is_slash(path[3]));
    if is_device(style, path) {
        assert forall|i: int| 4 <= i < volume implies !kind.separates(canonical[i]) by {
            assert(is_slash(canonical[i]) == is_slash(path[i]));
        }
        lemma_name_ends_at(kind, canonical, 4, volume);
    } else {
        let server = name_end(kind, path, 2);
        assert(!is_slash(path[2]));
        assert forall|i: int| 2 <= i < server implies !kind.separates(canonical[i]) by {
            assert(is_slash(canonical[i]) == is_slash(path[i]));
        }
        assert(is_slash(canonical[server as int]));
        lemma_name_ends_at(kind, canonical, 2, server);
        assert forall|i: int| server + 1 <= i < volume implies !kind.separates(canonical[i]) by {
            assert(is_slash(canonical[i]) == is_slash(path[i]));
        }
        lemma_name_ends_at(kind, canonical, server + 1, volume);
    }
}

/// A path written in one way is the same path, and is written so already.
pub proof fn law_canonical(style: PathStyle, path: Seq<char>)
    ensures
        style.parts_of(style.canonical(path)) == style.parts_of(path),
        style.canonical(style.canonical(path)) == style.canonical(path),
{
    let parts = style.parts_of(path);
    let root = parts.root_text(style);
    let rest = written(root, style.separator(), parts.steps);
    let canonical = style.canonical(path);
    lemma_volume_len(style, path);
    lemma_canonical_volume(style, path);
    lemma_written_parts(style, path);
    assert(names_of(style, canonical) =~= rest);
    assert(is_rooted(style, canonical) == (root.len() > 0)) by {
        if root.len() > 0 {
            assert(rest[0] == style.separator());
        } else if parts.steps.len() > 0 {
            assert(rest[root.len() + 0int] == parts.steps[0][0]);
        }
    }
    assert(has_root(style, canonical) == parts.has_root);
}

/// Two paths are written in the same one way if and only if they are the same:
/// they name the same volume, both start at a root or neither does, and they
/// take the same steps.
pub proof fn law_canonical_decides(style: PathStyle, path: Seq<char>, other: Seq<char>)
    ensures
        style.canonical(path) == style.canonical(other) <==> style.parts_of(path)
            == style.parts_of(other),
{
    law_canonical(style, path);
    law_canonical(style, other);
}

/// Whether `name` can be the name of a directory entry.
pub open spec fn is_entry_name(style: PathStyle, name: Seq<char>) -> bool {
    &&& is_step(name_style(style, name), name)
    &&& volume_len(style, name) == 0
    &&& name != seq!['.']
    &&& name != seq!['.', '.']
}

/// Whether a name put behind `dir` leaves the volume of `dir` what it is: not
/// where `dir` is the beginning of a volume that goes on with that name, such as
/// a server without a share.
pub open spec fn has_whole_volume(style: PathStyle, dir: Seq<char>) -> bool {
    let server = name_end(NameStyle::Windows, dir, 2);
    if is_verbatim(style, dir) {
        !lacks_share(volume_of(style, dir)) && !(dir.len() == 7 && dir[4] == 'U' && dir[5] == 'N'
            && dir[6] == 'C')
    } else if is_device(style, dir) {
        dir.len() > 4
    } else {
        starts_double(style, dir) ==> server == 2 || server + 1 < dir.len()
    }
}

/// A directory entry is reached from its directory by one step more. A directory
/// that names a part of a volume is left out: an entry of it is a volume of its
/// own.
pub proof fn law_parts_of_child(style: PathStyle, dir: Seq<char>, name: Seq<char>)
    requires
        has_whole_volume(style, dir),
        is_entry_name(style, name),
    ensures
        style.parts_of(style.joined(dir, name)) == (PathParts {
            volume: volume_of(style, dir),
            has_root: has_root(style, dir) || is_verbatim(style, dir),
            steps: style.steps(dir).push(name),
        }),
        volume_len(style, style.joined(dir, name)) == volume_len(style, dir),
{
    let path = style.joined(dir, name);
    let volume = volume_len(style, dir) as int;
    let inner = names_of(style, dir);
    let kind = name_style(style, dir);
    assert(names_of(style, name) =~= name);
    lemma_volume_len(style, dir);
    if is_verbatim(style, dir) {
        let steps = style.steps(dir);
        lemma_single_step(NameStyle::Windows, name);
        assert(seq![name].drop_last() =~= Seq::<Seq<char>>::empty());
        assert(resolved(steps, seq![name]) == steps.push(name)) by {
            reveal_with_fuel(resolved, 2);
        }
        let root = seq!['\\'];
        let rest = written(root, '\\', steps.push(name));
        assert(path =~= dir.take(volume) + rest);
        lemma_steps_of(kind, inner);
        assert(are_steps(kind, true, steps.push(name)));
        lemma_written_steps(kind, root, '\\', steps.push(name));
        assert(rest.take(1)[0] == rest[0]);
        assert(path[volume] == rest[0]);
        lemma_verbatim_volume(dir, path);
        assert(names_of(style, path) =~= rest);
    } else {
        lemma_volume_of_child(style, dir, name);
        let base = if style.is_open_ended(dir) {
            inner
        } else {
            inner.push(style.separator())
        };
        let names = names_of(style, path);
        assert(names =~= base + name);
        if inner.len() > 0 {
            assert(inner.last() == dir.last());
            assert(names[0] == inner[0]);
        } else {
            assert(names[0] == name[0] || names[0] == style.separator());
        }
        assert(steps_of(kind, base) == steps_of(kind, inner)) by {
            if base.len() > inner.len() {
                assert(base.drop_last() =~= inner);
            }
        }
        lemma_pushed_step(kind, base, name);
    }
    assert forall|i: int| 0 <= i < volume implies volume_char(style, path, i) == volume_char(
        style,
        dir,
        i,
    ) by {
        assert(path[i] == dir[i]);
        if !has_drive(style, dir) && !is_verbatim(style, dir) {
            lemma_volume_has_marks(style, dir);
            assert(path[2] == dir[2] && path[3] == dir[3]);
        }
    }
    assert(volume_of(style, path) =~= volume_of(style, dir));
}

/// A directory entry lies one step deeper than its directory, or two where a
/// root has to be written between them: behind a verbatim volume alone.
pub proof fn law_child_is_deeper(style: PathStyle, dir: Seq<char>, name: Seq<char>)
    requires
        has_whole_volume(style, dir),
        is_entry_name(style, name),
    ensures
        style.depth_of(style.joined(dir, name)) == style.depth_of(dir) + if is_verbatim(style, dir)
            && !has_root(style, dir) {
            2nat
        } else {
            1nat
        },
{
    let parts = style.parts_of(style.joined(dir, name));
    law_parts_of_child(style, dir, name);
    assert(style.steps(style.joined(dir, name)) == parts.steps);
}

/// A share or a device is named behind four characters at least.
proof fn lemma_volume_has_marks(style: PathStyle, path: Seq<char>)
    requires
        volume_len(style, path) > 0,
        !has_drive(style, path),
    ensures
        volume_len(style, path) >= 4,
{
    lemma_volume_len(style, path);
    if !is_verbatim(style, path) {
        lemma_canonical_share(path);
    }
}

/// The steps that lead to the directory of a path, and how much of the path names
/// that directory.
proof fn lemma_steps_before_name(kind: NameStyle, names: Seq<char>)
    requires
        trimmed_names(kind, names).len() > 0,
    ensures
        ({
            let kept = trimmed_names(kind, names);
            let start = name_start(kind, kept) as int;
            let before = kept.take(start);
            let inner = names.take(
                if start > 0 && trimmed_names(kind, before).len() == 0 {
                    1
                } else {
                    trimmed_names(kind, before).len() as int
                },
            );
            &&& start < kept.len()
            &&& steps_of(kind, names) == steps_of(kind, inner).push(kept.skip(start))
            &&& inner.len() < names.len()
            &&& inner == if start > 0 && trimmed_names(kind, before).len() == 0 {
                names.take(1)
            } else {
                trimmed_names(kind, before)
            }
            &&& kind.splits(names, 0) == (inner.len() > 0 && kind.splits(inner, 0))
        }),
{
    let kept = trimmed_names(kind, names);
    lemma_trimmed_names(kind, names);
    lemma_name_start(kind, kept);
    let start = name_start(kind, kept) as int;
    let before = kept.take(start);
    assert(steps_of(kind, kept) == steps_of(kind, before).push(kept.skip(start)));
    lemma_trimmed_names(kind, before);
    let shorter = trimmed_names(kind, before);
    assert(before =~= names.take(start));
    assert(shorter =~= names.take(shorter.len() as int));
    assert(kept[0] == names[0]);
    if start > 0 && shorter.len() == 0 {
        let inner = names.take(1);
        assert(before[0] == names[0]);
        assert(kind.splits(before, 0)) by {
            if !kind.splits(before, 0) {
                lemma_first_step(kind, before);
                assert(steps_of(kind, shorter) =~= Seq::<Seq<char>>::empty());
            }
        }
        assert(inner[0] == names[0]);
        assert(inner.drop_last() =~= Seq::<char>::empty());
        assert(steps_of(kind, inner) == steps_of(kind, inner.drop_last()));
        assert(shorter =~= Seq::<char>::empty());
    } else if start > 0 {
        assert(shorter[0] == names[0]);
    } else {
        assert(!kind.splits(kept, 0));
    }
}

/// A path is reached from its directory by its last name.
pub proof fn law_parent_and_name(style: PathStyle, path: Seq<char>)
    requires
        style.file_name_of(path) is Some,
    ensures
        style.parent_of(path) is Some,
        ({
            let dir = style.parent_of(path)->0;
            style.parts_of(path) == (PathParts {
                volume: volume_of(style, dir),
                has_root: has_root(style, dir),
                steps: style.steps(dir).push(style.file_name_of(path)->0),
            })
        }),
        is_verbatim(style, style.parent_of(path)->0) ==> has_root(style, style.parent_of(path)->0),
{
    let volume = volume_len(style, path) as int;
    let kind = name_style(style, path);
    let names = names_of(style, path);
    let kept = trimmed_names(kind, names);
    lemma_volume_len(style, path);
    lemma_steps_before_name(kind, names);
    let start = name_start(kind, kept) as int;
    let shorter = trimmed_names(kind, kept.take(start));
    let dir = style.parent_of(path)->0;
    let m = if start > 0 && shorter.len() == 0 {
        volume + 1
    } else {
        volume + shorter.len() as int
    };
    assert(dir =~= path.take(m));
    lemma_volume_of_prefix(style, path, m);
    assert(names_of(style, dir) =~= names.take(m - volume));
}

/// The beginning of a path that holds all of its volume is on that volume.
#[verifier::spinoff_prover]
proof fn lemma_volume_of_prefix(style: PathStyle, path: Seq<char>, m: int)
    requires
        volume_len(style, path) <= m <= path.len(),
    ensures
        volume_len(style, path.take(m)) == volume_len(style, path),
        volume_of(style, path.take(m)) == volume_of(style, path),
        name_style(style, path.take(m)) == name_style(style, path),
        has_drive(style, path.take(m)) == has_drive(style, path),
{
    let other = path.take(m);
    let volume = volume_len(style, path);
    lemma_volume_len(style, path);
    assert(forall|i: int| 0 <= i < m ==> other[i] == path[i]);
    if style == PathStyle::Unix || has_drive(style, path) {
    } else if is_verbatim(style, path) {
        let kind = NameStyle::Verbatim;
        if names_share(path) {
            let server = name_end(kind, path, 8);
            lemma_name_end(kind, path, 8);
            lemma_name_ends_at(kind, other, 8, server);
            if server < path.len() {
                lemma_name_end(kind, path, server + 1);
            }
            if server < volume {
                lemma_name_ends_at(kind, other, server + 1, volume);
            } else if server < m {
                lemma_name_ends_at(kind, other, server + 1, server + 1);
            }
        } else if !names_drive(path) {
            lemma_name_end(kind, path, 4);
            lemma_name_ends_at(kind, other, 4, volume);
        }
    } else if is_device(style, path) {
        lemma_name_end(NameStyle::Windows, path, 4);
        lemma_name_ends_at(NameStyle::Windows, other, 4, volume);
    } else if starts_double(style, path) {
        let kind = NameStyle::Windows;
        let server = name_end(kind, path, 2);
        lemma_name_end(kind, path, 2);
        if server < path.len() {
            lemma_name_end(kind, path, server + 1);
        }
        if m >= 2 {
            if server < m {
                lemma_name_ends_at(kind, other, 2, server);
                let share = name_end(kind, path, server + 1);
                if share <= m {
                    lemma_name_ends_at(kind, other, server + 1, share);
                }
            } else {
                lemma_name_ends_at(kind, other, 2, m as nat);
            }
        }
    }
    if volume > 0 && !has_drive(style, path) {
        lemma_volume_has_marks(style, path);
    }
    assert(volume_of(style, other) =~= volume_of(style, path));
}

proof fn lemma_pushed_step(kind: NameStyle, base: Seq<char>, name: Seq<char>)
    requires
        base.len() > 0 ==> kind.splits(base, base.len() - 1),
        is_step(kind, name),
        kind != NameStyle::Verbatim,
        name != seq!['.'] || base.len() == 0,
    ensures
        steps_of(kind, base + name) == steps_of(kind, base).push(name),
{
    let names = base + name;
    let start = base.len() as int;
    assert forall|i: int| start <= i < names.len() implies !kind.splits(names, i) by {
        assert(names[i] == name[i - start]);
    }
    if start > 0 {
        assert(names[start - 1] == base[start - 1]);
    }
    lemma_name_starts_at(kind, names, start as nat);
    assert(names.take(start) =~= base);
    assert(names.skip(start) =~= name);
}

proof fn lemma_single_step(kind: NameStyle, name: Seq<char>)
    requires
        is_step(kind, name),
        kind != NameStyle::Verbatim,
    ensures
        steps_of(kind, name) == seq![name],
{
    lemma_pushed_step(kind, Seq::empty(), name);
    assert(Seq::<char>::empty() + name =~= name);
    assert(steps_of(kind, Seq::<char>::empty()) =~= Seq::<Seq<char>>::empty());
}

/// A verbatim volume stays what it is where a separator follows it.
proof fn lemma_verbatim_volume(path: Seq<char>, other: Seq<char>)
    requires
        is_verbatim(PathStyle::Windows, path),
        has_whole_volume(PathStyle::Windows, path),
        other.len() > volume_len(PathStyle::Windows, path),
        forall|i: int| 0 <= i < volume_len(PathStyle::Windows, path) ==> other[i] == path[i],
        other[volume_len(PathStyle::Windows, path) as int] == '\\',
    ensures
        volume_len(PathStyle::Windows, other) == volume_len(PathStyle::Windows, path),
        is_verbatim(PathStyle::Windows, other),
        names_share(other) == names_share(path),
        names_drive(other) == names_drive(path),
{
    let style = PathStyle::Windows;
    let kind = NameStyle::Verbatim;
    let volume = volume_len(style, path);
    lemma_volume_len(style, path);
    assert(other[0] == path[0] && other[1] == path[1] && other[2] == path[2] && other[3]
        == path[3]);
    if names_share(path) {
        let server = name_end(kind, path, 8);
        lemma_name_end(kind, path, 8);
        if server < path.len() {
            lemma_name_end(kind, path, server + 1);
        }
        if server == volume {
            let front = volume_of(style, path);
            assert(names_share(front));
            assert forall|i: int| 8 <= i < server implies !kind.separates(front[i]) by {
                assert(front[i] == path[i]);
            }
            lemma_name_ends_at(kind, front, 8, server);
        }
        assert(other[4] == path[4] && other[5] == path[5] && other[6] == path[6] && other[7]
            == path[7]);
        lemma_name_ends_at(kind, other, 8, server);
        lemma_name_ends_at(kind, other, server + 1, volume);
    } else if names_drive(path) {
        assert(other[4] == path[4] && other[5] == path[5]);
    } else {
        lemma_name_end(kind, path, 4);
        lemma_name_ends_at(kind, other, 4, volume);
        assert(forall|i: int| 4 <= i < volume ==> other[i] == path[i]);
    }
}

/// The volume of a directory entry is that of its directory.
proof fn lemma_volume_of_child(style: PathStyle, dir: Seq<char>, name: Seq<char>)
    requires
        has_whole_volume(style, dir),
        !is_verbatim(style, dir),
        is_entry_name(style, name),
    ensures
        volume_len(style, style.joined(dir, name)) == volume_len(style, dir),
        has_drive(style, style.joined(dir, name)) == has_drive(style, dir),
        !is_verbatim(style, style.joined(dir, name)),
{
    let kind = NameStyle::Windows;
    assert(names_of(style, name) =~= name);
    let path = style.joined(dir, name);
    assert(path.len() > dir.len());
    assert forall|i: int| 0 <= i < dir.len() implies path[i] == dir[i] by {}
    let end = dir.len() as int;
    assert(path[end] == name[0] || path[end] == style.separator());
    if style == PathStyle::Unix || end < 2 {
    } else if is_device(style, dir) {
        lemma_name_end(kind, dir, 4);
        lemma_name_ends_at(kind, path, 4, name_end(kind, dir, 4));
    } else if starts_double(style, dir) {
        let server = name_end(kind, dir, 2);
        lemma_name_end(kind, dir, 2);
        if end == 2 {
            assert(path =~= dir + name);
            assert forall|i: int| 2 <= i < path.len() implies !kind.separates(path[i]) by {
                assert(path[i] == name[i - 2]);
            }
            lemma_name_ends_at(kind, path, 2, path.len());
        } else {
            lemma_name_ends_at(kind, path, 2, server);
        }
        if server > 2 {
            let share = name_end(kind, dir, server + 1);
            lemma_name_end(kind, dir, server + 1);
            assert forall|i: int| server + 1 <= i < share implies !kind.separates(path[i]) by {
                assert(path[i] == dir[i]);
            }
            lemma_name_ends_at(kind, path, server + 1, share);
        }
    }
}

/// Whether `s` ends in `suffix`.
pub open spec fn has_suffix(s: Seq<char>, suffix: Seq<char>) -> bool {
    s.len() >= suffix.len() && s.skip(s.len() - suffix.len()) == suffix
}

/// Whether `name` is the name of an incomplete file.
pub fn is_partial_name(name: &str) -> (partial: bool)
    ensures
        partial == has_suffix(name@, ".partial"@),
{
    let len: usize = name.unicode_len();
    let suffix = ".partial";
    let suffix_len: usize = suffix.unicode_len();
    if len < suffix_len {
        return false;
    }
    let tail = name.substring_char(len - suffix_len, len).to_owned();
    assert(name@.subrange(len - suffix_len, len as int) =~= name@.skip(len - suffix_len));
    tail == suffix.to_owned()
}

/// Whether a file can be named otherwise in the directory where it lies: its name
/// is read as one step and not as a volume, and its directory is no part of one.
/// On Unix it always can.
pub open spec fn can_be_renamed(style: PathStyle, dest: Seq<char>) -> bool {
    &&& style.file_name_of(dest) is Some
    &&& is_entry_name(style, style.file_name_of(dest)->0)
    &&& has_whole_volume(style, style.parent_of(dest)->0)
}

/// A partial path is recognised as such, lies where the file does, never names
/// the file itself, and two files never share one.
pub proof fn law_partial_path(style: PathStyle, dest: Seq<char>, other: Seq<char>)
    requires
        can_be_renamed(style, dest),
        can_be_renamed(style, other),
    ensures
        has_suffix(style.partial_of(dest), ".partial"@),
        style.parts_of(style.partial_of(dest)) == (PathParts {
            steps: style.steps(dest).drop_last().push(
                style.file_name_of(dest)->0 + ".partial"@,
            ),
            ..style.parts_of(dest)
        }),
        style.parts_of(style.partial_of(dest)) != style.parts_of(dest),
        style.parts_of(style.partial_of(dest)) == style.parts_of(style.partial_of(other))
            ==> style.parts_of(dest) == style.parts_of(other),
{
    reveal_strlit(".partial");
    let tail = ".partial"@;
    let name = style.file_name_of(dest)->0;
    let named = style.file_name_of(other)->0;
    lemma_partial_parts(style, dest);
    lemma_partial_parts(style, other);
    law_parent_and_name(style, dest);
    law_parent_and_name(style, other);
    assert(style.steps(dest).last() == name);
    assert(style.steps(style.partial_of(dest)).last() == name + tail);
    if style.parts_of(style.partial_of(dest)) == style.parts_of(style.partial_of(other)) {
        let steps = style.steps(style.partial_of(dest));
        assert(steps.drop_last() =~= style.steps(dest).drop_last());
        assert(steps.drop_last() =~= style.steps(other).drop_last());
        assert(steps.last() == name + tail && steps.last() == named + tail);
        assert(name =~= (name + tail).take((name + tail).len() - tail.len()));
        assert(named =~= (named + tail).take((named + tail).len() - tail.len()));
        assert(style.steps(dest) =~= style.steps(dest).drop_last().push(name));
        assert(style.steps(other) =~= style.steps(other).drop_last().push(named));
    }
}

proof fn lemma_partial_parts(style: PathStyle, dest: Seq<char>)
    requires
        can_be_renamed(style, dest),
    ensures
        has_suffix(style.partial_of(dest), ".partial"@),
        style.parts_of(style.partial_of(dest)) == (PathParts {
            steps: style.steps(dest).drop_last().push(
                style.file_name_of(dest)->0 + ".partial"@,
            ),
            ..style.parts_of(dest)
        }),
{
    reveal_strlit(".partial");
    let tail = ".partial"@;
    let name = style.file_name_of(dest)->0;
    let dir = style.parent_of(dest)->0;
    let full = name + tail;
    law_parent_and_name(style, dest);
    lemma_extended_name(style, name);
    law_parts_of_child(style, dir, full);
    assert(style.steps(dir) =~= style.steps(dest).drop_last());
    let partial = style.partial_of(dest);
    assert(has_suffix(partial, full)) by {
        lemma_joined_ends_in_name(style, dir, full);
    }
    assert(partial.skip(partial.len() - tail.len()) =~= tail) by {
        assert(full.skip(full.len() - tail.len()) =~= tail);
        assert(partial.skip(partial.len() - full.len()).skip(full.len() - tail.len())
            =~= partial.skip(partial.len() - tail.len()));
    }
}

/// A name, extended, is a name.
proof fn lemma_extended_name(style: PathStyle, name: Seq<char>)
    requires
        is_entry_name(style, name),
    ensures
        is_entry_name(style, name + ".partial"@),
{
    reveal_strlit(".partial");
    let tail = ".partial"@;
    let full = name + tail;
    assert(full.len() > 2);
    assert(name_style(style, name) != NameStyle::Verbatim) by {
        if is_verbatim(style, name) {
            lemma_volume_len(style, name);
        }
    }
    assert forall|i: int| 0 <= i < full.len() implies !name_style(style, name).separates(
        #[trigger] full[i],
    ) by {
        if i < name.len() {
            assert(full[i] == name[i]);
        } else {
            assert(full[i] == tail[i - name.len()]);
        }
    }
    assert(full[0] == name[0]);
    assert(full[1] == if name.len() > 1 {
        name[1]
    } else {
        '.'
    });
}

/// A joined path ends in the name that was joined.
proof fn lemma_joined_ends_in_name(style: PathStyle, dir: Seq<char>, name: Seq<char>)
    requires
        is_entry_name(style, name),
    ensures
        has_suffix(style.joined(dir, name), name),
{
    let path = style.joined(dir, name);
    assert(names_of(style, name) =~= name);
    if is_verbatim(style, dir) {
        let steps = style.steps(dir);
        lemma_single_step(NameStyle::Windows, name);
        assert(seq![name].drop_last() =~= Seq::<Seq<char>>::empty());
        assert(resolved(steps, seq![name]) == steps.push(name)) by {
            reveal_with_fuel(resolved, 2);
        }
        let rest = written(seq!['\\'], '\\', steps.push(name));
        assert(steps.push(name).drop_last() =~= steps);
        assert(rest.skip(rest.len() - name.len()) =~= name);
    }
    assert(path.skip(path.len() - name.len()) =~= name);
}

/// Whether `tail` goes on from where a path ends: it names no volume and no root,
/// and its first step is not `.`.
pub open spec fn goes_on(style: PathStyle, tail: Seq<char>) -> bool {
    &&& tail.len() > 0
    &&& volume_len(style, tail) == 0
    &&& !name_style(style, tail).separates(tail[0])
    &&& tail[0] == '.' ==> tail.len() > 1 && !name_style(style, tail).separates(tail[1])
}

/// Whether the volume of `base` is complete and not verbatim: whatever goes on
/// behind it lies on the same volume.
pub open spec fn is_plain_base(style: PathStyle, base: Seq<char>) -> bool {
    &&& has_whole_volume(style, base)
    &&& !is_verbatim(style, base)
    &&& starts_double(style, base) ==> base.len() > 2
}

/// What is joined to a directory lies below it: the steps of the directory come
/// first, then those of what was joined, on the same volume and from the same
/// root. On Unix this holds of every directory.
pub proof fn law_joined_path_lies_below(style: PathStyle, base: Seq<char>, tail: Seq<char>)
    requires
        is_plain_base(style, base),
        goes_on(style, tail),
    ensures
        style.steps(style.joined(base, tail)) == style.steps(base) + style.steps(tail),
        volume_of(style, style.joined(base, tail)) == volume_of(style, base),
        has_root(style, style.joined(base, tail)) == has_root(style, base),
{
    let path = style.joined(base, tail);
    let volume = volume_len(style, base) as int;
    let inner = names_of(style, base);
    let kind = name_style(style, base);
    assert(names_of(style, tail) =~= tail);
    lemma_volume_len(style, base);
    lemma_volume_len(style, tail);
    lemma_volume_of_joined(style, base, tail);
    let front = if style.is_open_ended(base) {
        inner
    } else {
        inner.push(style.separator())
    };
    let names = names_of(style, path);
    assert(names =~= front + tail);
    if inner.len() > 0 {
        assert(inner.last() == base.last());
        assert(names[0] == inner[0]);
    } else {
        assert(names[0] == tail[0] || names[0] == style.separator());
    }
    assert(steps_of(kind, front) == steps_of(kind, inner)) by {
        if front.len() > inner.len() {
            assert(front.drop_last() =~= inner);
        }
    }
    lemma_steps_go_on(kind, front, tail);
    assert forall|i: int| 0 <= i < volume implies volume_char(style, path, i) == volume_char(
        style,
        base,
        i,
    ) by {
        assert(path[i] == base[i]);
        if !has_drive(style, base) {
            lemma_volume_has_marks(style, base);
            assert(path[2] == base[2] && path[3] == base[3]);
        }
    }
    assert(volume_of(style, path) =~= volume_of(style, base));
}

proof fn lemma_steps_go_on(kind: NameStyle, front: Seq<char>, tail: Seq<char>)
    requires
        kind != NameStyle::Verbatim,
        front.len() > 0 ==> kind.splits(front, front.len() - 1),
        tail.len() > 0,
        !kind.separates(tail[0]),
        tail[0] == '.' ==> tail.len() > 1 && !kind.separates(tail[1]),
    ensures
        steps_of(kind, front + tail) == steps_of(kind, front) + steps_of(kind, tail),
    decreases tail.len(),
{
    let names = front + tail;
    if kind.splits(tail, tail.len() - 1) {
        assert(names.drop_last() =~= front + tail.drop_last());
        lemma_steps_go_on(kind, front, tail.drop_last());
        assert(kind.splits(names, names.len() - 1));
    } else {
        lemma_name_start(kind, tail);
        let start = name_start(kind, tail) as int;
        if start == 0 {
            assert forall|i: int| 0 <= i < tail.len() implies !kind.separates(
                #[trigger] tail[i],
            ) by {
                assert(!kind.splits(tail, i));
            }
            lemma_pushed_step(kind, front, tail);
            lemma_single_step(kind, tail);
            assert(steps_of(kind, front).push(tail) =~= steps_of(kind, front) + seq![tail]);
        } else {
            let at = front.len() + start;
            assert forall|i: int| at <= i < names.len() implies !kind.splits(names, i) by {
                assert(names[i] == tail[i - front.len()]);
                assert(!kind.splits(tail, i - front.len()));
            }
            assert(names[at - 1] == tail[start - 1]);
            lemma_name_starts_at(kind, names, at as nat);
            assert(names.take(at) =~= front + tail.take(start));
            assert(names.skip(at) =~= tail.skip(start));
            lemma_steps_go_on(kind, front, tail.take(start));
            assert(steps_of(kind, names) =~= steps_of(kind, front) + steps_of(kind, tail));
        }
    }
}

/// What goes on behind a directory lies on its volume.
proof fn lemma_volume_of_joined(style: PathStyle, base: Seq<char>, tail: Seq<char>)
    requires
        is_plain_base(style, base),
        goes_on(style, tail),
    ensures
        volume_len(style, style.joined(base, tail)) == volume_len(style, base),
        has_drive(style, style.joined(base, tail)) == has_drive(style, base),
        !is_verbatim(style, style.joined(base, tail)),
        forall|i: int| 0 <= i < base.len() ==> #[trigger] style.joined(base, tail)[i] == base[i],
{
    let kind = NameStyle::Windows;
    assert(names_of(style, tail) =~= tail);
    lemma_volume_len(style, tail);
    let path = style.joined(base, tail);
    assert(path.len() > base.len());
    assert forall|i: int| 0 <= i < base.len() implies path[i] == base[i] by {}
    let end = base.len() as int;
    assert(path[end] == tail[0] || path[end] == style.separator());
    if style == PathStyle::Unix || end < 2 {
        if end == 0 {
            assert(path =~= tail);
        }
    } else if is_device(style, base) {
        lemma_name_end(kind, base, 4);
        lemma_name_ends_at(kind, path, 4, name_end(kind, base, 4));
    } else if starts_double(style, base) {
        let server = name_end(kind, base, 2);
        lemma_name_end(kind, base, 2);
        lemma_name_ends_at(kind, path, 2, server);
        if server > 2 {
            let share = name_end(kind, base, server + 1);
            lemma_name_end(kind, base, server + 1);
            assert forall|i: int| server + 1 <= i < share implies !kind.separates(path[i]) by {
                assert(path[i] == base[i]);
            }
            lemma_name_ends_at(kind, path, server + 1, share);
        }
    }
}

/// A path that starts at a root takes the place of any other; one that does not is
/// put behind, with one separator between.
pub proof fn law_rooted_path_stands_alone(base: &str, tail: &str, joined: String)
    requires
        call_ensures(PathStyle::join, (PathStyle::Unix, base, tail), joined),
        tail@.len() > 0,
    ensures
        tail@[0] == '/' ==> joined@ == tail@,
        tail@[0] != '/' && base@.len() == 0 ==> joined@ == tail@,
        tail@[0] != '/' && base@.len() > 0 && base@.last() == '/' ==> joined@ == base@ + tail@,
        tail@[0] != '/' && base@.len() > 0 && base@.last() != '/' ==> joined@ == base@ + seq!['/']
            + tail@,
{
    let style = PathStyle::Unix;
    assert(names_of(style, tail@) =~= tail@);
    assert(base@.take(0) + tail@ =~= tail@);
    assert(base@.push('/') + tail@ =~= base@ + seq!['/'] + tail@);
}

/// A file name is a part of its path that holds no separator and stands last: only
/// separators and `.` follow it.
pub proof fn law_file_name_stands_last(path: &str, name: Option<String>, dir: Option<String>)
    requires
        call_ensures(PathStyle::file_name, (PathStyle::Unix, path), name),
        call_ensures(PathStyle::parent, (PathStyle::Unix, path), dir),
    ensures
        name is Some ==> {
            &&& name->0@.len() > 0
            &&& !name->0@.contains('/')
            &&& name->0@ != seq!['.'] && name->0@ != seq!['.', '.']
            &&& dir is Some
            &&& PathStyle::Unix.steps(path@) == PathStyle::Unix.steps(dir->0@).push(name->0@)
        },
        path@.len() > 0 && path@.last() != '/' && path@.last() != '.' ==> name is Some,
{
    let style = PathStyle::Unix;
    let kind = NameStyle::Unix;
    let names = names_of(style, path@);
    assert(names =~= path@);
    let kept = trimmed_names(kind, names);
    lemma_trimmed_names(kind, names);
    lemma_name_start(kind, kept);
    let start = name_start(kind, kept) as int;
    if name is Some {
        law_parent_and_name(style, path@);
        assert forall|i: int| 0 <= i < name->0@.len() implies name->0@[i] != '/' by {
            assert(name->0@[i] == kept[start + i]);
            assert(!kind.splits(kept, start + i));
        }
    }
    if path@.len() > 0 && path@.last() != '/' && path@.last() != '.' {
        lemma_name_start(kind, names);
        let tail = names.skip(name_start(kind, names) as int);
        assert(tail.last() == names.last());
        assert(kept == names);
        assert(kept.skip(start).last() == names.last());
        assert(seq!['.'].last() == '.' && seq!['.', '.'].last() == '.');
    }
}

/// The extension of a file is replaced and nothing else of its path: what comes
/// before its last dot stays, and the new extension ends the path. A name without
/// an extension gets one.
pub proof fn law_extension_is_replaced(path: &str, extension: &str, replaced: String)
    requires
        call_ensures(PathStyle::with_extension, (PathStyle::Unix, path, extension), replaced),
        extension@.len() > 0,
        PathStyle::Unix.file_name_of(path@) is Some,
    ensures
        has_suffix(replaced@, "."@ + extension@),
        replaced@.len() - extension@.len() - 1 <= path@.len(),
        replaced@.take(replaced@.len() - extension@.len() - 1) == path@.take(
            replaced@.len() - extension@.len() - 1,
        ),
        !path@.contains('.') && path@.last() != '/' ==> replaced@ == path@ + "."@ + extension@,
{
    reveal_strlit(".");
    let style = PathStyle::Unix;
    let kind = NameStyle::Unix;
    let names = names_of(style, path@);
    assert(names =~= path@);
    let kept = trimmed_names(kind, names);
    lemma_trimmed_names(kind, names);
    lemma_name_start(kind, kept);
    let start = name_start(kind, kept);
    let name = kept.skip(start as int);
    lemma_extension_start(name, name.len());
    let cut = start + extension_start(name, name.len());
    assert(replaced@ =~= path@.take(cut as int) + ("."@ + extension@));
    assert(replaced@.skip(replaced@.len() - ("."@ + extension@).len()) =~= "."@ + extension@);
    assert(replaced@.take(cut as int) =~= path@.take(cut as int));
    if !path@.contains('.') && path@.last() != '/' {
        assert(kept == names) by {
            lemma_name_start(kind, names);
            let tail = names.skip(name_start(kind, names) as int);
            assert(tail.last() == names.last());
            assert(path@[path@.len() - 1] != '.');
        }
        assert forall|i: int| 0 <= i < name.len() implies name[i] != '.' by {
            assert(name[i] == path@[start + i]);
        }
        assert(path@.take(path@.len() as int) =~= path@);
    }
}

proof fn lemma_extension_start(name: Seq<char>, n: nat)
    requires
        n <= name.len(),
    ensures
        extension_start(name, n) <= name.len(),
        extension_start(name, n) < name.len() ==> name[extension_start(name, n) as int] == '.',
    decreases n,
{
    if n > 1 && name[n - 1] != '.' {
        lemma_extension_start(name, (n - 1) as nat);
    }
}

/// Whether `c` stands between names: a slash does, and on Windows a backslash too.
pub open spec fn stands_between(style: PathStyle, c: char) -> bool {
    c == '/' || (style == PathStyle::Windows && c == '\\')
}

/// Whether `path` is a Unix path, or a Windows path that starts with a drive.
pub open spec fn is_common(style: PathStyle, path: Seq<char>) -> bool {
    style == PathStyle::Unix || (path.len() >= 2 && path[1] == ':' && ('a' <= path[0] <= 'z' || 'A'
        <= path[0] <= 'Z'))
}

proof fn lemma_common(style: PathStyle, path: Seq<char>)
    requires
        is_common(style, path),
    ensures
        volume_len(style, path) == if style == PathStyle::Windows {
            2nat
        } else {
            0nat
        },
        name_style(style, path) == if style == PathStyle::Windows {
            NameStyle::Windows
        } else {
            NameStyle::Unix
        },
        !is_verbatim(style, path),
        has_drive(style, path) == (style == PathStyle::Windows),
        forall|c: char| #[trigger]
            name_style(style, path).separates(c) == stands_between(style, c),
{
}

/// A path is read step by step: a name behind a separator is one step more, `..`
/// included; a `.` and a separator at the end are none. The volume stays.
pub proof fn law_path_is_read_step_by_step(
    style: PathStyle,
    dir: Seq<char>,
    slash: char,
    name: Seq<char>,
)
    requires
        is_common(style, dir),
        stands_between(style, slash),
        name.len() > 0,
        forall|i: int| 0 <= i < name.len() ==> !stands_between(style, #[trigger] name[i]),
    ensures
        ({
            let path = dir.push(slash) + name;
            &&& name != seq!['.'] ==> style.steps(path) == style.steps(dir).push(name)
            &&& name == seq!['.'] ==> style.steps(path) == style.steps(dir)
            &&& style.steps(dir.push(slash)) == style.steps(dir)
            &&& style.steps(path.push(slash)) == style.steps(path)
            &&& volume_of(style, path) == volume_of(style, dir)
            &&& volume_of(style, dir.push(slash)) == volume_of(style, dir)
        }),
{
    let path = dir.push(slash) + name;
    let begun = dir.push(slash);
    assert(is_common(style, begun) && is_common(style, path) && is_common(style, path.push(slash)));
    lemma_common(style, dir);
    lemma_common(style, begun);
    lemma_common(style, path);
    lemma_common(style, path.push(slash));
    let kind = name_style(style, dir);
    let inner = names_of(style, dir);
    let front = names_of(style, begun);
    assert(front =~= inner.push(slash));
    assert(front.drop_last() =~= inner);
    assert(steps_of(kind, front) == steps_of(kind, inner));
    assert(names_of(style, path) =~= front + name);
    assert(forall|i: int| 0 <= i < name.len() ==> !kind.separates(#[trigger] name[i]));
    if name != seq!['.'] {
        lemma_pushed_step(kind, front, name);
    } else {
        let names = front + name;
        let start = front.len();
        assert(names.skip(start as int) =~= seq!['.']);
        assert(names.take(start as int) =~= front);
        assert(!kind.splits(names, start as int));
        lemma_name_starts_at(kind, names, start);
    }
    let ended = names_of(style, path.push(slash));
    assert(ended =~= names_of(style, path).push(slash));
    assert(ended.drop_last() =~= names_of(style, path));
    assert(volume_of(style, path) =~= volume_of(style, dir));
    assert(volume_of(style, begun) =~= volume_of(style, dir));
}

/// A name alone is one step, nothing is none.
pub proof fn law_name_is_one_step(name: Seq<char>)
    requires
        name.len() > 0,
        !name.contains('/'),
    ensures
        PathStyle::Unix.steps(name) == seq![name],
        PathStyle::Unix.steps(Seq::<char>::empty()).len() == 0,
{
    lemma_common(PathStyle::Unix, name);
    assert(names_of(PathStyle::Unix, name) =~= name);
    lemma_single_step(NameStyle::Unix, name);
    assert(names_of(PathStyle::Unix, Seq::<char>::empty()) =~= Seq::<char>::empty());
}

/// A path starts at a root if and only if a separator stands first, or right behind the
/// drive. The volume is the drive, in capital; a Unix path has none.
pub proof fn law_root_stands_first(style: PathStyle, path: Seq<char>)
    requires
        is_common(style, path),
    ensures
        style == PathStyle::Unix ==> (has_root(style, path) <==> path.len() > 0 && path[0] == '/')
            && volume_of(style, path).len() == 0,
        style == PathStyle::Windows ==> (has_root(style, path) <==> path.len() > 2 && (path[2]
            == '/' || path[2] == '\\')) && volume_of(style, path) == seq![
            ascii_upper(path[0]),
            ':',
        ],
{
    lemma_common(style, path);
    if style == PathStyle::Windows {
        assert(volume_of(style, path) =~= seq![ascii_upper(path[0]), ':']);
        if path.len() > 2 {
            assert(names_of(style, path)[0] == path[2]);
        }
    } else {
        assert(names_of(style, path) =~= path);
    }
}

/// The depth of a path is the number of its steps, with one more for its root and one
/// for its drive.
pub proof fn law_depth_counts_the_steps(style: PathStyle, path: &str, parts: usize)
    requires
        call_ensures(PathStyle::depth, (style, path), parts),
        is_common(style, path@),
    ensures
        ({
            let root = if has_root(style, path@) {
                1nat
            } else {
                0nat
            };
            let drive = if style == PathStyle::Windows {
                1nat
            } else {
                0nat
            };
            parts == style.steps(path@).len() + root + drive
        }),
{
    lemma_common(style, path@);
}

/// A path in canonical form has one separator between its steps, the one of its
/// style, however it was written before.
pub proof fn law_canonical_path_has_single_separators(
    style: PathStyle,
    dir: Seq<char>,
    slash: char,
    name: Seq<char>,
    path: &str,
    canonical: String,
)
    requires
        call_ensures(PathStyle::canonical_path, (style, path), canonical),
        path@ == dir.push(slash) + name,
        is_common(style, dir),
        stands_between(style, slash),
        name.len() > 0,
        forall|i: int| 0 <= i < name.len() ==> !stands_between(style, #[trigger] name[i]),
    ensures
        name == seq!['.'] && style.steps(dir).len() > 0 ==> canonical@ == style.canonical(dir),
        name != seq!['.'] && style.steps(dir).len() > 0 ==> canonical@ == style.canonical(
            dir,
        ).push(style.separator()) + name,
        style.steps(dir).len() > 0 ==> style.canonical(dir.push(slash)) == style.canonical(dir),
{
    let begun = dir.push(slash);
    law_path_is_read_step_by_step(style, dir, slash, name);
    assert(is_common(style, begun) && is_common(style, path@));
    law_root_stands_first(style, dir);
    law_root_stands_first(style, begun);
    law_root_stands_first(style, path@);
    lemma_common(style, dir);
    let parts = style.parts_of(dir);
    let root = parts.root_text(style);
    let separator = style.separator();
    if style.steps(dir).len() > 0 {
        assert(names_of(style, dir).len() > 0);
        assert(begun.take(dir.len() as int) =~= dir);
        assert(path@.take(dir.len() as int) =~= dir);
        assert(has_root(style, begun) == has_root(style, dir)) by {
            if style == PathStyle::Windows {
                assert(dir.len() > 2);
                assert(begun[2] == dir[2]);
            } else {
                assert(begun[0] == dir[0]);
            }
        }
        assert(has_root(style, path@) == has_root(style, dir)) by {
            if style == PathStyle::Windows {
                assert(dir.len() > 2);
                assert(path@[2] == dir[2]);
            } else {
                assert(path@[0] == dir[0]);
            }
        }
        if name != seq!['.'] {
            let steps = style.steps(dir).push(name);
            assert(steps.drop_last() =~= style.steps(dir));
            assert(canonical@ =~= style.canonical(dir).push(separator) + name);
        }
    }
}

/// The short paths in canonical form: a name is written as it is, and so is one at the
/// root.
pub proof fn law_short_paths_are_written_as_they_are(name: Seq<char>)
    requires
        name.len() > 0,
        !name.contains('/'),
    ensures
        PathStyle::Unix.canonical(name) == name,
        PathStyle::Unix.canonical(seq!['/']) == seq!['/'],
        name != seq!['.'] ==> PathStyle::Unix.canonical(seq!['/'] + name) == seq!['/'] + name,
{
    let style = PathStyle::Unix;
    let root = seq!['/'];
    let none = Seq::<char>::empty();
    law_name_is_one_step(name);
    law_root_stands_first(style, name);
    law_root_stands_first(style, root);
    law_root_stands_first(style, root + name);
    law_path_is_read_step_by_step(style, none, '/', name);
    assert(none.push('/') =~= root);
    assert(style.steps(none) =~= Seq::<Seq<char>>::empty());
    assert(name[0] != '/');
    assert(volume_of(style, name) =~= none);
    assert(volume_of(style, root) =~= none);
    assert(volume_of(style, root + name) =~= none);
    assert(style.canonical(name) =~= name);
    assert(style.canonical(root) =~= root);
    if name != seq!['.'] {
        assert(style.steps(root + name) =~= seq![name]);
        assert(style.canonical(root + name) =~= root + name);
    }
}

/// What stands behind the last dot of a file name is its extension: it is replaced
/// by the new one, or taken away with the dot where there is no new one; a dot that
/// the name starts with does not count.
pub proof fn law_extension_stands_behind_the_last_dot(
    path: &str,
    extension: &str,
    replaced: String,
    stem: Seq<char>,
    ending: Seq<char>,
)
    requires
        call_ensures(PathStyle::with_extension, (PathStyle::Unix, path, extension), replaced),
        path@ == stem + seq!['.'] + ending,
        ending.len() > 0,
        !ending.contains('.'),
        !ending.contains('/'),
    ensures
        stem.len() > 0 && stem.last() != '/' && extension@.len() > 0 ==> replaced@ == stem + seq![
            '.',
        ] + extension@,
        stem.len() > 0 && stem.last() != '/' && extension@.len() == 0 ==> replaced@ == stem,
        (stem.len() == 0 || stem.last() == '/') && extension@.len() > 0 ==> replaced@ == path@
            + seq!['.'] + extension@,
        (stem.len() == 0 || stem.last() == '/') && extension@.len() == 0 ==> replaced@ == path@,
{
    reveal_strlit(".");
    assert("."@ =~= seq!['.']);
    let style = PathStyle::Unix;
    let kind = NameStyle::Unix;
    let names = names_of(style, path@);
    assert(names =~= path@);
    let dot = stem.len();
    assert(path@[dot as int] == '.');
    let last = path@.len() - 1;
    assert(path@[last] == ending[ending.len() - 1]);
    lemma_name_start(kind, names);
    let start = name_start(kind, names);
    assert forall|i: int| dot <= i <= last implies path@[i] != '/' by {
        if i > dot {
            assert(path@[i] == ending[i - dot - 1]);
        }
    }
    assert(start <= dot) by {
        if start > dot {
            assert(kind.splits(names, start - 1));
            assert(path@[start - 1] != '/');
        }
    }
    let name = names.skip(start as int);
    assert(name.last() == path@[last]);
    assert(path@[last] != '.' && path@[last] != '/');
    assert(seq!['.'].last() == '.' && seq!['.', '.'].last() == '.');
    assert(trimmed_names(kind, names) == names);
    assert forall|i: int| dot - start < i < name.len() implies name[i] != '.' by {
        assert(name[i] == ending[i + start - dot - 1]);
    }
    assert(name[dot - start] == '.');
    if stem.len() > 0 && stem.last() != '/' {
        assert(start < dot) by {
            if start == dot {
                assert(kind.splits(names, start - 1));
                assert(path@[start - 1] == stem.last());
            }
        }
        lemma_last_dot(name, name.len(), (dot - start) as nat);
        assert(path@.take(dot as int) =~= stem);
    } else {
        assert(start == dot) by {
            if start < dot {
                assert(path@[dot - 1] == stem.last());
                assert(!kind.splits(names, dot - 1));
            }
        }
        lemma_last_dot(name, name.len(), 0);
        assert(path@.take(path@.len() as int) =~= path@);
    }
    assert(replaced@ =~= if extension@.len() == 0 {
        path@.take((start + extension_start(name, name.len())) as int)
    } else {
        path@.take((start + extension_start(name, name.len())) as int) + "."@ + extension@
    });
}

proof fn lemma_last_dot(name: Seq<char>, n: nat, dot: nat)
    requires
        dot < n <= name.len(),
        name[dot as int] == '.',
        forall|i: int| dot < i < n ==> #[trigger] name[i] != '.',
    ensures
        extension_start(name, n) == if dot > 0 {
            dot
        } else {
            name.len()
        },
    decreases n,
{
    if n > dot + 1 {
        assert(name[n - 1] != '.');
        lemma_last_dot(name, (n - 1) as nat, dot);
    }
}

/// An incomplete file is known by the end of its name.
pub proof fn law_incomplete_file_is_known_by_its_name(
    name: &str,
    partial: bool,
    stem: Seq<char>,
)
    requires
        call_ensures(is_partial_name, (name,), partial),
    ensures
        name@ == stem + ".partial"@ ==> partial,
        partial ==> exists|front: Seq<char>| name@ == #[trigger] (front + ".partial"@),
{
    let tail = ".partial"@;
    if name@ == stem + tail {
        assert(name@.skip(name@.len() - tail.len()) =~= tail);
    }
    if partial {
        let front = name@.take(name@.len() - tail.len());
        assert(name@ =~= front + tail);
    }
}

/// Steps are resolved one after the other: a `.` stays where it is, a `..` goes back over
/// the last name and no further than the start, and any other step goes on.
pub proof fn law_steps_are_resolved_in_order(
    steps: Seq<Seq<char>>,
    further: Seq<Seq<char>>,
    step: Seq<char>,
)
    ensures
        resolved(steps, Seq::empty()) == steps,
        ({
            let before = resolved(steps, further);
            let after = resolved(steps, further.push(step));
            &&& step == seq!['.'] ==> after == before
            &&& step == seq!['.', '.'] && before.len() == 0 ==> after == before
            &&& step == seq!['.', '.'] && before.len() > 0 && before.last() != seq!['.']
                && before.last() != seq!['.', '.'] ==> after == before.drop_last()
            &&& step != seq!['.'] && step != seq!['.', '.'] ==> after == before.push(step)
        }),
{
    assert(further.push(step).drop_last() =~= further);
    assert(seq!['.'].len() == 1 && seq!['.', '.'].len() == 2);
}

} // verus!
