//! Which kind of storage device holds a path.
//!
//! On Linux the mount table names the device that holds a path, and the kernel
//! says of each block device whether it spins. On Windows the drive letter names
//! the volume, and the volume says what it is.

use vstd::prelude::*;
use vstd::string::*;

use crate::os::traits::DriveKind;
use crate::path::PathStyle;
use crate::text::{
    ascii_upper, chars_of, find, find_from, lemma_find_from, lemma_found_first, string_of,
    to_ascii_upper,
};

verus! {

/// What was found out about the device that holds a path.
pub enum DriveProbe {
    /// On Windows: the root of the drive (`None` for a network path), its type
    /// as the system gives it, and whether seeking costs time, where that could
    /// be asked.
    Windows { root: Option<String>, drive_type: u32, seek_penalty: Option<bool> },
    /// On Linux: what the kernel says of the block device, `None` where no
    /// device was found or it says nothing.
    Linux { rotational: Option<String> },
    /// On other systems nothing is asked.
    Other,
}

/// The kind of a Windows drive.
pub open spec fn windows_kind(has_root: bool, drive_type: u32, seek_penalty: Option<bool>) -> DriveKind {
    if !has_root {
        DriveKind::Network
    } else if drive_type == 4 {
        DriveKind::Network
    } else if drive_type == 3 {
        if seek_penalty == Some(false) {
            DriveKind::Ssd
        } else {
            DriveKind::Hdd
        }
    } else if drive_type == 2 {
        DriveKind::Hdd
    } else {
        DriveKind::Unknown
    }
}

/// The kind of a Linux block device, by the contents of its `rotational` file.
pub open spec fn rotational_kind(content: Option<Seq<char>>) -> DriveKind {
    match content {
        Some(text) => if trimmed(text) == "0"@ {
            DriveKind::Ssd
        } else if trimmed(text) == "1"@ {
            DriveKind::Hdd
        } else {
            DriveKind::Unknown
        },
        None => DriveKind::Unknown,
    }
}

/// The kind of device that holds a path.
pub fn detect_drive_kind(probe: &DriveProbe) -> (kind: DriveKind)
    ensures
        kind == match *probe {
            DriveProbe::Windows { root, drive_type, seek_penalty } => windows_kind(
                root is Some,
                drive_type,
                seek_penalty,
            ),
            DriveProbe::Linux { rotational } => rotational_kind(
                match rotational {
                    Some(text) => Some(text@),
                    None => None,
                },
            ),
            DriveProbe::Other => DriveKind::Unknown,
        },
{
    match probe {
        DriveProbe::Windows { root, drive_type, seek_penalty } => windows_detect(
            root.is_some(),
            *drive_type,
            *seek_penalty,
        ),
        DriveProbe::Linux { rotational } => match rotational {
            Some(text) => read_rotational(text.as_str()),
            None => DriveKind::Unknown,
        },
        DriveProbe::Other => DriveKind::Unknown,
    }
}

fn windows_detect(has_root: bool, drive_type: u32, seek_penalty: Option<bool>) -> (kind: DriveKind)
    ensures
        kind == windows_kind(has_root, drive_type, seek_penalty),
{
    if !has_root {
        return DriveKind::Network;
    }
    if drive_type == 4 {
        DriveKind::Network
    } else if drive_type == 3 {
        match seek_penalty {
            Some(false) => DriveKind::Ssd,
            _ => DriveKind::Hdd,
        }
    } else if drive_type == 2 {
        DriveKind::Hdd
    } else {
        DriveKind::Unknown
    }
}

/// Whether a Windows path starts like that of a network share.
pub open spec fn is_unc(path: Seq<char>) -> bool {
    path.len() >= 2 && ((path[0] == '\\' && path[1] == '\\') || (path[0] == '/' && path[1] == '/'))
}

/// Whether `c` is an ASCII letter.
pub open spec fn is_ascii_letter(c: char) -> bool {
    'a' <= c <= 'z' || 'A' <= c <= 'Z'
}

/// The root of the drive that a Windows path names.
pub open spec fn drive_root(path: Seq<char>) -> Option<Seq<char>> {
    if is_unc(path) {
        None
    } else if path.len() >= 2 && path[1] == ':' && is_ascii_letter(path[0]) {
        Some(seq![ascii_upper(path[0]), ':', '\\'])
    } else {
        None
    }
}

/// The root of the drive that a Windows path names, such as `C:\`.
pub fn extract_drive_root(path: &str) -> (root: Option<String>)
    ensures
        match root {
            Some(text) => drive_root(path@) == Some(text@),
            None => drive_root(path@) is None,
        },
{
    let chars = chars_of(path);
    if chars.len() >= 2 && ((chars[0] == '\\' && chars[1] == '\\') || (chars[0] == '/' && chars[1]
        == '/')) {
        return None;
    }
    if chars.len() >= 2 && chars[1] == ':' {
        let letter: char = chars[0];
        if ('a' <= letter && letter <= 'z') || ('A' <= letter && letter <= 'Z') {
            let mut root = String::new();
            root.push(to_ascii_upper(letter));
            root.push(':');
            root.push('\\');
            assert(root@ =~= seq![ascii_upper(path@[0]), ':', '\\']);
            return Some(root);
        }
    }
    None
}

/// Whether `c` separates words: the characters with the Unicode property
/// `White_Space`.
pub open spec fn is_space(c: char) -> bool {
    let code = c as u32;
    ||| 0x09 <= code <= 0x0d
    ||| code == 0x20
    ||| code == 0x85
    ||| code == 0xa0
    ||| code == 0x1680
    ||| 0x2000 <= code <= 0x200a
    ||| code == 0x2028
    ||| code == 0x2029
    ||| code == 0x202f
    ||| code == 0x205f
    ||| code == 0x3000
}

fn space(c: char) -> (yes: bool)
    ensures
        yes == is_space(c),
{
    let code: u32 = c as u32;
    (0x09 <= code && code <= 0x0d) || code == 0x20 || code == 0x85 || code == 0xa0 || code
        == 0x1680 || (0x2000 <= code && code <= 0x200a) || code == 0x2028 || code == 0x2029 || code
        == 0x202f || code == 0x205f || code == 0x3000
}

/// The first position in `from..end` that holds a space (`want`) or none
/// (`!want`), or `end`.
pub open spec fn seek(s: Seq<char>, want: bool, from: nat, end: nat) -> nat
    decreases end - from,
{
    if from >= end || is_space(s[from as int]) == want {
        from
    } else {
        seek(s, want, from + 1, end)
    }
}

fn seek_space(chars: &Vec<char>, want: bool, from: usize, end: usize) -> (at: usize)
    requires
        from <= end <= chars@.len(),
    ensures
        at == seek(chars@, want, from as nat, end as nat),
        from <= at <= end,
{
    let mut at: usize = from;
    while at < end && space(chars[at]) != want
        invariant
            from <= at <= end <= chars@.len(),
            seek(chars@, want, at as nat, end as nat) == seek(chars@, want, from as nat, end as nat),
        decreases end - at,
    {
        at = at + 1;
    }
    at
}

/// `s` without the spaces at its ends.
pub open spec fn trimmed(s: Seq<char>) -> Seq<char>
    decreases s.len(),
{
    if s.len() > 0 && is_space(s[0]) {
        trimmed(s.drop_first())
    } else if s.len() > 0 && is_space(s.last()) {
        trimmed(s.drop_last())
    } else {
        s
    }
}

/// Removes the spaces at the ends of a text.
pub fn trim(s: &str) -> (text: String)
    ensures
        text@ == trimmed(s@),
{
    let chars = chars_of(s);
    let mut start: usize = 0;
    let mut end: usize = chars.len();
    assert(chars@.subrange(0, end as int) =~= s@);
    while start < end && space(chars[start])
        invariant
            start <= end == chars@.len(),
            trimmed(chars@.subrange(start as int, end as int)) == trimmed(s@),
        decreases end - start,
    {
        assert(chars@.subrange(start as int, end as int).drop_first() =~= chars@.subrange(
            start + 1,
            end as int,
        ));
        start = start + 1;
    }
    while start < end && space(chars[end - 1])
        invariant
            start <= end <= chars@.len(),
            start < end ==> !is_space(chars@[start as int]),
            trimmed(chars@.subrange(start as int, end as int)) == trimmed(s@),
        decreases end - start,
    {
        assert(chars@.subrange(start as int, end as int).drop_last() =~= chars@.subrange(
            start as int,
            end - 1,
        ));
        end = end - 1;
    }
    string_of(&chars, start, end)
}

/// The kind of a Linux block device, by the contents of its `rotational` file.
fn read_rotational(content: &str) -> (kind: DriveKind)
    ensures
        kind == rotational_kind(Some(content@)),
{
    let text = trim(content);
    if text == "0".to_owned() {
        DriveKind::Ssd
    } else if text == "1".to_owned() {
        DriveKind::Hdd
    } else {
        DriveKind::Unknown
    }
}

/// The first two words of `text[from..end]`, if there are two.
pub open spec fn two_words(text: Seq<char>, from: nat, end: nat) -> Option<(Seq<char>, Seq<char>)> {
    let first = seek(text, false, from, end);
    let first_end = seek(text, true, first, end);
    let second = seek(text, false, first_end, end);
    let second_end = seek(text, true, second, end);
    if first < end && second < end {
        Some(
            (
                text.subrange(first as int, first_end as int),
                text.subrange(second as int, second_end as int),
            ),
        )
    } else {
        None
    }
}

/// Whether `s` starts with `prefix`.
pub open spec fn has_prefix(s: Seq<char>, prefix: Seq<char>) -> bool {
    s.len() >= prefix.len() && s.take(prefix.len() as int) == prefix
}

/// The device whose mount point is the longest that `path` starts with, among
/// the lines of a mount table from position `from`, `best` being the mount point
/// and device found before. `None` where a line has not two words.
pub open spec fn best_mount(
    table: Seq<char>,
    from: nat,
    path: Seq<char>,
    best: (Seq<char>, Seq<char>),
) -> Option<(Seq<char>, Seq<char>)>
    decreases table.len() - from,
{
    if from >= table.len() {
        Some(best)
    } else {
        proof {
            lemma_find_from(table, '\n', from);
        }
        let end = find_from(table, '\n', from);
        match two_words(table, from, end) {
            None => None,
            Some((device, mount)) => best_mount(
                table,
                if end < table.len() {
                    end + 1
                } else {
                    end
                },
                path,
                if has_prefix(path, mount) && mount.len() > best.0.len() {
                    (mount, device)
                } else {
                    best
                },
            ),
        }
    }
}

/// The name of the block device that holds a path, by the mount table.
pub open spec fn block_device(table: Seq<char>, path: Seq<char>) -> Option<Seq<char>> {
    match best_mount(table, 0, path, (Seq::empty(), Seq::empty())) {
        None => None,
        Some((_, device)) => if device.len() == 0 {
            None
        } else {
            match PathStyle::Unix.file_name_of(device) {
                None => None,
                Some(name) => Some(without_partition(name)),
            }
        },
    }
}

fn starts_with(path: &Vec<char>, table: &Vec<char>, from: usize, end: usize) -> (yes: bool)
    requires
        from <= end <= table@.len(),
    ensures
        yes == has_prefix(path@, table@.subrange(from as int, end as int)),
{
    let ghost prefix = table@.subrange(from as int, end as int);
    if path.len() < end - from {
        return false;
    }
    let mut i: usize = 0;
    while i < end - from
        invariant
            i <= end - from <= path@.len(),
            from <= end <= table@.len(),
            prefix == table@.subrange(from as int, end as int),
            forall|j: int| 0 <= j < i ==> path@[j] == prefix[j],
        decreases end - from - i,
    {
        if path[i] != table[from + i] {
            assert(path@.take(prefix.len() as int)[i as int] != prefix[i as int]);
            return false;
        }
        i = i + 1;
    }
    assert(path@.take(prefix.len() as int) =~= prefix);
    true
}

/// The name of the block device that holds `path`, a path from the root, by the
/// contents of the mount table.
pub fn find_block_device(mounts: &str, path: &str) -> (device: Option<String>)
    ensures
        match device {
            Some(name) => block_device(mounts@, path@) == Some(name@),
            None => block_device(mounts@, path@) is None,
        },
{
    let table = chars_of(mounts);
    let path_chars = chars_of(path);
    let mut mount_len: usize = 0;
    let mut device_start: usize = 0;
    let mut device_end: usize = 0;
    let ghost mut best = (Seq::<char>::empty(), Seq::<char>::empty());
    let mut from: usize = 0;
    assert(table@.subrange(0, 0) =~= Seq::<char>::empty());
    while from < table.len()
        invariant
            from <= table@.len(),
            table@ == mounts@,
            path_chars@ == path@,
            mount_len == best.0.len(),
            device_start <= device_end <= table@.len(),
            best.1 == table@.subrange(device_start as int, device_end as int),
            best_mount(table@, from as nat, path@, best) == best_mount(
                table@,
                0,
                path@,
                (Seq::empty(), Seq::empty()),
            ),
        decreases table@.len() - from,
    {
        let end: usize = find(&table, '\n', from);
        let first: usize = seek_space(&table, false, from, end);
        let first_end: usize = seek_space(&table, true, first, end);
        let second: usize = seek_space(&table, false, first_end, end);
        let second_end: usize = seek_space(&table, true, second, end);
        if first >= end || second >= end {
            return None;
        }
        if second_end - second > mount_len && starts_with(&path_chars, &table, second, second_end) {
            mount_len = second_end - second;
            device_start = first;
            device_end = first_end;
            proof {
                best = (
                    table@.subrange(second as int, second_end as int),
                    table@.subrange(first as int, first_end as int),
                );
            }
        }
        if end < table.len() {
            from = end + 1;
        } else {
            from = end;
        }
    }
    if device_start == device_end {
        return None;
    }
    let device = string_of(&table, device_start, device_end);
    match PathStyle::Unix.file_name(device.as_str()) {
        Some(name) => Some(strip_partition_number(name.as_str())),
        None => None,
    }
}

/// Whether `c` is one of `0` to `9`.
pub open spec fn is_digit(c: char) -> bool {
    '0' <= c <= '9'
}

/// `s` without the digits at its end.
pub open spec fn without_digits(s: Seq<char>) -> Seq<char>
    decreases s.len(),
{
    if s.len() > 0 && is_digit(s.last()) {
        without_digits(s.drop_last())
    } else {
        s
    }
}

/// The disk that a partition belongs to. A `p` before the number is dropped with
/// it, as in `nvme0n1p2`. Without one the number is dropped, as in `sda1`,
/// except from the name of an NVMe disk, which ends in a digit itself.
pub open spec fn without_partition(name: Seq<char>) -> Seq<char> {
    let stem = without_digits(name);
    if stem.len() > 0 && stem.last() == 'p' {
        stem.drop_last()
    } else if has_prefix(name, nvme_prefix()) {
        name
    } else {
        stem
    }
}

fn is_nvme(name: &Vec<char>) -> (nvme: bool)
    ensures
        nvme == has_prefix(name@, nvme_prefix()),
{
    if name.len() < 4 {
        return false;
    }
    let ghost front = name@.take(4);
    if name[0] == 'n' && name[1] == 'v' && name[2] == 'm' && name[3] == 'e' {
        assert(front =~= nvme_prefix());
        true
    } else {
        assert(front[0] == name@[0] && front[1] == name@[1] && front[2] == name@[2] && front[3]
            == name@[3]);
        false
    }
}

/// What the names of NVMe disks start with.
pub open spec fn nvme_prefix() -> Seq<char> {
    seq!['n', 'v', 'm', 'e']
}

/// The disk that the partition `dev` belongs to.
pub fn strip_partition_number(dev: &str) -> (disk: String)
    ensures
        disk@ == without_partition(dev@),
{
    let chars = chars_of(dev);
    let mut end: usize = chars.len();
    assert(chars@.take(end as int) =~= dev@);
    while end > 0 && '0' <= chars[end - 1] && chars[end - 1] <= '9'
        invariant
            end <= chars@.len(),
            without_digits(chars@.take(end as int)) == without_digits(dev@),
        decreases end,
    {
        assert(chars@.take(end as int).drop_last() =~= chars@.take(end - 1));
        end = end - 1;
    }
    let ghost stem = chars@.take(end as int);
    assert(stem == without_digits(dev@));
    if end > 0 && chars[end - 1] == 'p' {
        assert(stem.drop_last() =~= chars@.subrange(0, end - 1));
        return string_of(&chars, 0, end - 1);
    }
    if is_nvme(&chars) {
        return dev.to_owned();
    }
    assert(stem =~= chars@.subrange(0, end as int));
    string_of(&chars, 0, end)
}

/// A Windows drive is taken for solid state only where it is fixed and says that
/// seeking costs nothing; for a network drive where it has no letter or says so; and
/// where it cannot be asked, a fixed or removable drive is taken for a spinning disk.
pub proof fn law_windows_drive_is_judged_with_caution(probe: DriveProbe, kind: DriveKind)
    requires
        call_ensures(detect_drive_kind, (&probe,), kind),
        probe is Windows,
    ensures
        kind is Ssd <==> probe->root is Some && probe->drive_type == 3 && probe->seek_penalty
            == Some(false),
        kind is Network <==> probe->root is None || probe->drive_type == 4,
        kind is Hdd <==> probe->root is Some && (probe->drive_type == 2 || (probe->drive_type == 3
            && probe->seek_penalty != Some(false))),
        kind is Unknown <==> probe->root is Some && probe->drive_type != 2 && probe->drive_type
            != 3 && probe->drive_type != 4,
{
}

/// A Linux device is what the kernel says: `0` is solid state and `1` a spinning disk,
/// with any spaces around; without an answer, or with another, it is not known.
pub proof fn law_linux_drive_is_what_the_kernel_says(
    probe: DriveProbe,
    kind: DriveKind,
    before: Seq<char>,
    answer: char,
    after: Seq<char>,
)
    requires
        call_ensures(detect_drive_kind, (&probe,), kind),
        probe is Linux,
        probe->rotational is Some ==> probe->rotational->0@ == before + seq![answer] + after,
        forall|i: int| 0 <= i < before.len() ==> is_space(#[trigger] before[i]),
        forall|i: int| 0 <= i < after.len() ==> is_space(#[trigger] after[i]),
        !is_space(answer),
    ensures
        probe->rotational is None ==> kind is Unknown,
        probe->rotational is Some ==> {
            &&& answer == '0' <==> kind is Ssd
            &&& answer == '1' <==> kind is Hdd
            &&& answer != '0' && answer != '1' <==> kind is Unknown
        },
{
    if probe->rotational is Some {
        lemma_trimmed_core(before, seq![answer], after);
        reveal_strlit("0");
        reveal_strlit("1");
        assert("0"@ =~= seq!['0']);
        assert("1"@ =~= seq!['1']);
        assert(seq![answer][0] == answer);
        assert("0"@[0] == '0' && "1"@[0] == '1');
    }
}

/// On other systems nothing is known of a device.
pub proof fn law_other_systems_tell_nothing(probe: DriveProbe, kind: DriveKind)
    requires
        call_ensures(detect_drive_kind, (&probe,), kind),
        probe is Other,
    ensures
        kind is Unknown,
{
}

proof fn lemma_trimmed_core(before: Seq<char>, core: Seq<char>, after: Seq<char>)
    requires
        forall|i: int| 0 <= i < before.len() ==> is_space(#[trigger] before[i]),
        forall|i: int| 0 <= i < after.len() ==> is_space(#[trigger] after[i]),
        core.len() > 0,
        !is_space(core[0]),
        !is_space(core.last()),
    ensures
        trimmed(before + core + after) == core,
    decreases before.len() + after.len(),
{
    let whole = before + core + after;
    if before.len() > 0 {
        assert(whole[0] == before[0]);
        assert(whole.drop_first() =~= before.drop_first() + core + after);
        assert forall|i: int| 0 <= i < before.drop_first().len() implies is_space(
            #[trigger] before.drop_first()[i],
        ) by {
            assert(before.drop_first()[i] == before[i + 1]);
        }
        lemma_trimmed_core(before.drop_first(), core, after);
    } else {
        assert(whole[0] == core[0]);
        if after.len() > 0 {
            assert(whole.last() == after.last());
            assert(is_space(after[after.len() - 1]));
            assert(whole.drop_last() =~= before + core + after.drop_last());
            lemma_trimmed_core(before, core, after.drop_last());
        } else {
            assert(whole.last() == core.last());
            assert(whole =~= core);
        }
    }
}

/// Trimming takes away the spaces before and after, all of them and nothing else.
pub proof fn law_trim_takes_only_spaces(
    s: &str,
    text: String,
    before: Seq<char>,
    core: Seq<char>,
    after: Seq<char>,
)
    requires
        call_ensures(trim, (s,), text),
        s@ == before + core + after,
        forall|i: int| 0 <= i < before.len() ==> is_space(#[trigger] before[i]),
        forall|i: int| 0 <= i < after.len() ==> is_space(#[trigger] after[i]),
        core.len() > 0,
        !is_space(core[0]),
        !is_space(core.last()),
    ensures
        text@ == core,
{
    lemma_trimmed_core(before, core, after);
}

/// Nothing is left of a text of spaces.
pub proof fn law_nothing_is_left_of_spaces(s: &str, text: String)
    requires
        call_ensures(trim, (s,), text),
        forall|i: int| 0 <= i < s@.len() ==> is_space(#[trigger] s@[i]),
    ensures
        text@.len() == 0,
{
    lemma_spaces_are_trimmed(s@);
}

proof fn lemma_spaces_are_trimmed(s: Seq<char>)
    requires
        forall|i: int| 0 <= i < s.len() ==> is_space(#[trigger] s[i]),
    ensures
        trimmed(s).len() == 0,
    decreases s.len(),
{
    if s.len() > 0 {
        assert forall|i: int| 0 <= i < s.drop_first().len() implies is_space(
            #[trigger] s.drop_first()[i],
        ) by {
            assert(s.drop_first()[i] == s[i + 1]);
        }
        lemma_spaces_are_trimmed(s.drop_first());
    }
}

/// Blanks, tabs and line ends are spaces, and no other ASCII character is.
pub proof fn law_ascii_spaces(c: char)
    requires
        (c as u32) < 128,
    ensures
        is_space(c) <==> c == ' ' || 0x09 <= c as u32 <= 0x0d,
{
}

/// A path has a drive if and only if it starts with a letter and a colon; the root of
/// the drive is that letter in capital, a colon and a backslash.
pub proof fn law_drive_root_is_capital(path: &str, root: Option<String>)
    requires
        call_ensures(extract_drive_root, (path,), root),
    ensures
        root is Some <==> path@.len() >= 2 && path@[1] == ':' && ('a' <= path@[0] <= 'z' || 'A'
            <= path@[0] <= 'Z'),
        root is Some ==> {
            &&& root->0@.len() == 3
            &&& 'A' <= root->0@[0] <= 'Z'
            &&& root->0@[0] == path@[0] || root->0@[0] as u32 + 32 == path@[0] as u32
            &&& root->0@[1] == ':'
            &&& root->0@[2] == '\\'
        },
{
}

/// Whether `text[i..j]` and `text[k..l]` are the first two words of `text[from..end]`.
pub open spec fn words_at(
    text: Seq<char>,
    from: int,
    end: int,
    i: int,
    j: int,
    k: int,
    l: int,
) -> bool {
    &&& from <= i < j < k < l <= end
    &&& forall|x: int|
        from <= x < l ==> (is_space(#[trigger] text[x]) <==> x < i || j <= x < k)
    &&& l < end ==> is_space(text[l])
}

/// Words are separated by spaces, and hold none.
pub proof fn law_words_hold_no_spaces(text: Seq<char>, from: nat, end: nat)
    requires
        from <= end <= text.len(),
        two_words(text, from, end) is Some,
    ensures
        exists|i: int, j: int, k: int, l: int| #[trigger]
            words_at(text, from as int, end as int, i, j, k, l) && two_words(text, from, end)
                == Some((text.subrange(i, j), text.subrange(k, l))),
{
    let i = seek(text, false, from, end);
    let j = seek(text, true, i, end);
    let k = seek(text, false, j, end);
    let l = seek(text, true, k, end);
    lemma_seek(text, false, from, end);
    lemma_seek(text, true, i, end);
    lemma_seek(text, false, j, end);
    lemma_seek(text, true, k, end);
    assert(words_at(text, from as int, end as int, i as int, j as int, k as int, l as int));
}

proof fn lemma_seek(s: Seq<char>, want: bool, from: nat, end: nat)
    requires
        from <= end,
    ensures
        from <= seek(s, want, from, end) <= end,
        forall|i: int| from <= i < seek(s, want, from, end) ==> is_space(#[trigger] s[i]) != want,
        seek(s, want, from, end) < end ==> is_space(s[seek(s, want, from, end) as int]) == want,
    decreases end - from,
{
    if from < end && is_space(s[from as int]) != want {
        lemma_seek(s, want, from + 1, end);
    }
}

/// Whether a line of `table` starts at `at`.
pub open spec fn is_line_start(table: Seq<char>, at: nat) -> bool {
    at < table.len() && (at == 0 || table[at - 1] == '\n')
}

/// The device and mount point of the line that starts at `at`.
pub open spec fn mount_line(table: Seq<char>, at: nat) -> Option<(Seq<char>, Seq<char>)> {
    two_words(table, at, find_from(table, '\n', at))
}

/// The mount point of the line that starts at `at`.
pub open spec fn mount_point(table: Seq<char>, at: nat) -> Seq<char> {
    (mount_line(table, at)->0).1
}

/// The block device that holds a path is that of the longest mount point which the path
/// starts with: some line names it, and no line that the path starts with names a
/// longer one; of two that are equally long, the first counts. It is the disk, not the
/// partition.
pub proof fn law_path_lies_on_its_longest_mount(
    mounts: &str,
    path: &str,
    device: Option<String>,
    other: nat,
)
    requires
        call_ensures(find_block_device, (mounts, path), device),
        device is Some,
        is_line_start(mounts@, other),
    ensures
        mount_line(mounts@, other) is Some,
        exists|at: nat| #[trigger]
            is_line_start(mounts@, at) && {
                let (name, mount) = mount_line(mounts@, at)->0;
                &&& mount_line(mounts@, at) is Some
                &&& mount.len() <= path@.len()
                &&& mount == path@.take(mount.len() as int)
                &&& has_prefix(path@, mount_point(mounts@, other)) ==> mount_point(
                    mounts@,
                    other,
                ).len() <= mount.len()
                &&& has_prefix(path@, mount_point(mounts@, other)) && other < at ==> mount_point(
                    mounts@,
                    other,
                ).len() < mount.len()
                &&& PathStyle::Unix.file_name_of(name) is Some
                &&& device->0@ == without_partition(PathStyle::Unix.file_name_of(name)->0)
            },
{
    let none = (Seq::<char>::empty(), Seq::<char>::empty());
    lemma_best_mount(mounts@, 0, path@, none, other);
    let best = best_mount(mounts@, 0, path@, none)->0;
    assert(best != none);
    let at = choose|at: nat| #[trigger]
        is_line_start(mounts@, at) && mount_line(mounts@, at) == Some((best.1, best.0))
            && has_prefix(path@, best.0) && (other < at && has_prefix(
            path@,
            mount_point(mounts@, other),
        ) ==> mount_point(mounts@, other).len() < best.0.len());
    assert(is_line_start(mounts@, at));
}

proof fn lemma_best_mount(
    table: Seq<char>,
    from: nat,
    path: Seq<char>,
    best: (Seq<char>, Seq<char>),
    other: nat,
)
    requires
        from == table.len() || is_line_start(table, from),
        best_mount(table, from, path, best) is Some,
    ensures
        ({
            let found = best_mount(table, from, path, best)->0;
            &&& best.0.len() <= found.0.len()
            &&& is_line_start(table, other) && from <= other ==> mount_line(table, other) is Some
                && (has_prefix(path, mount_point(table, other)) ==> mount_point(
                table,
                other,
            ).len() <= found.0.len())
            &&& found != best ==> best.0.len() < found.0.len()
            &&& found == best || exists|at: nat| #[trigger]
                is_line_start(table, at) && from <= at && mount_line(table, at) == Some(
                    (found.1, found.0),
                ) && has_prefix(path, found.0) && (is_line_start(table, other) && from <= other
                    && other < at && has_prefix(path, mount_point(table, other)) ==> mount_point(
                    table,
                    other,
                ).len() < found.0.len())
        }),
    decreases table.len() - from,
{
    if from < table.len() {
        lemma_found_first(table, '\n', from);
        let end = find_from(table, '\n', from);
        let (device, mount) = two_words(table, from, end)->0;
        let next = if end < table.len() {
            end + 1
        } else {
            end
        };
        let better = if has_prefix(path, mount) && mount.len() > best.0.len() {
            (mount, device)
        } else {
            best
        };
        assert(best_mount(table, from, path, best) == best_mount(table, next, path, better));
        lemma_best_mount(table, next, path, better, other);
        let found = best_mount(table, next, path, better)->0;
        if is_line_start(table, other) && from < other {
            assert(table[other - 1] == '\n');
            assert(other >= next);
        }
        if found == better && better != best {
            assert(is_line_start(table, from));
            assert(mount_line(table, from) == Some((found.1, found.0)));
        } else if found != better {
            let at = choose|at: nat| #[trigger]
                is_line_start(table, at) && next <= at && mount_line(table, at) == Some(
                    (found.1, found.0),
                ) && has_prefix(path, found.0) && (is_line_start(table, other) && next <= other
                    && other < at && has_prefix(path, mount_point(table, other)) ==> mount_point(
                    table,
                    other,
                ).len() < found.0.len());
            assert(is_line_start(table, at));
            assert(mount_line(table, from) == Some((device, mount)));
        }
    }
}

/// The number of a partition is taken off, and so is a `p` before it: what is left is
/// the disk.
pub proof fn law_partition_is_taken_off(
    dev: &str,
    disk: String,
    stem: Seq<char>,
    number: Seq<char>,
)
    requires
        call_ensures(strip_partition_number, (dev,), disk),
        dev@ == stem + number,
        forall|i: int| 0 <= i < number.len() ==> '0' <= #[trigger] number[i] <= '9',
        stem.len() > 0,
        !('0' <= stem.last() <= '9'),
    ensures
        stem.last() == 'p' ==> disk@ == stem.drop_last(),
        stem.last() != 'p' && !(dev@.len() >= 4 && dev@[0] == 'n' && dev@[1] == 'v' && dev@[2]
            == 'm' && dev@[3] == 'e') ==> disk@ == stem,
        stem.last() != 'p' && dev@.len() >= 4 && dev@[0] == 'n' && dev@[1] == 'v' && dev@[2] == 'm'
            && dev@[3] == 'e' ==> disk@ == dev@,
{
    lemma_digits_are_dropped(stem, number);
    let front = dev@.take(4);
    if dev@.len() >= 4 {
        assert(front[0] == dev@[0] && front[1] == dev@[1] && front[2] == dev@[2] && front[3]
            == dev@[3]);
        if dev@[0] == 'n' && dev@[1] == 'v' && dev@[2] == 'm' && dev@[3] == 'e' {
            assert(front =~= nvme_prefix());
        }
    }
}

proof fn lemma_digits_are_dropped(stem: Seq<char>, number: Seq<char>)
    requires
        forall|i: int| 0 <= i < number.len() ==> '0' <= #[trigger] number[i] <= '9',
        stem.len() > 0,
        !('0' <= stem.last() <= '9'),
    ensures
        without_digits(stem + number) == stem,
    decreases number.len(),
{
    let whole = stem + number;
    if number.len() > 0 {
        assert(whole.last() == number[number.len() - 1]);
        assert(whole.drop_last() =~= stem + number.drop_last());
        lemma_digits_are_dropped(stem, number.drop_last());
    } else {
        assert(whole =~= stem);
    }
}

} // verus!
