//! Moving files: copy, verify, then delete the source.
//!
//! A source is deleted only once its copy was found right at its destination: it
//! has the size that was transferred and, where copies are verified, the digest
//! of the source. Directories that a move leaves empty are removed from the leaves
//! to the root.

use vstd::prelude::*;
use vstd::string::*;

use crate::path::{has_whole_volume, is_entry_name, law_child_is_deeper, PathStyle};
use crate::pipeline::writer::text_of;
use crate::seqs::{lemma_filter_holds, lemma_filter_next, lemma_filter_stronger, lemma_filter_twice};
use crate::text::{
    ascii_lower, ascii_upper, chars_of, eq_ignore_ascii_case, find, find_from, lemma_found_at,
    lemma_skipped_to, lowercase, same_but_ascii_case, skip, skip_from, string_of, to_ascii_upper,
};

verus! {

/// What became of a file that was moved.
#[derive(Debug)]
pub struct MoveResult {
    pub source: String,
    pub dest: String,
    pub bytes_moved: u64,
    pub hash: Option<String>,
    /// The copy is complete, but the source could not be deleted.
    pub delete_failed: bool,
    pub delete_error: Option<String>,
}

/// What became of the directories that a move left behind.
#[derive(Debug, Clone, Copy, PartialEq, Eq, Structural)]
pub struct CleanupResult {
    /// Directories that were removed.
    pub removed: usize,
    /// Directories that were not: they hold something, or permissions forbid it.
    pub skipped: usize,
}

/// What the copy of a file transferred.
#[derive(Debug)]
pub struct Transfer {
    /// How many bytes were read from the source and written.
    pub bytes: u64,
    /// The digest of the source, if one was asked for.
    pub hash: Option<String>,
    /// The digest of the copy, if one was asked for.
    pub dest_hash: Option<String>,
}

/// What was found at the destination of a copy.
#[derive(Debug)]
pub struct FoundFile {
    /// The size of the file under its final name; `None` where there is none.
    pub size: Option<u64>,
    /// The digest of its contents, if one was computed.
    pub digest: Option<String>,
}

/// Whether what was found is a copy of a source of `bytes` bytes whose digest is
/// `hash`; digests count where copies are verified.
pub open spec fn found_right(
    verify: bool,
    bytes: u64,
    hash: Option<String>,
    found: FoundFile,
) -> bool {
    &&& found.size == Some(bytes)
    &&& verify ==> hash is Some && text_of(found.digest) == text_of(hash)
}

/// Why a source is kept whose copy was not found right.
pub open spec fn not_right_text() -> Seq<char> {
    "el destino no coincide con lo copiado"@
}

/// Why a source is kept whose copy was not found right.
pub fn not_right() -> (text: String)
    ensures
        text@ == not_right_text(),
{
    "el destino no coincide con lo copiado".to_owned()
}

/// Whether what was found is a copy of a source of `bytes` bytes whose digest is
/// `hash`.
pub fn is_found_right(verify: bool, bytes: u64, hash: &Option<String>, found: &FoundFile) -> (
    right: bool)
    ensures
        right == found_right(verify, bytes, *hash, *found),
{
    let sized: bool = match found.size {
        Some(size) => size == bytes,
        None => false,
    };
    if !sized {
        return false;
    }
    if !verify {
        return true;
    }
    match (hash, &found.digest) {
        (Some(expected), Some(actual)) => *expected == *actual,
        _ => false,
    }
}

/// Deletes a source by calling `delete`, once its copy was found right; a source
/// whose copy was not is kept. `delete` need not be callable in that case.
pub fn delete_source_after_copy<F: FnOnce(String) -> std::result::Result<(), String>>(
    source: String,
    dest: String,
    source_hash: Option<String>,
    bytes: u64,
    verify: bool,
    found: &FoundFile,
    delete: F,
) -> (moved: MoveResult)
    requires
        found_right(verify, bytes, source_hash, *found) ==> call_requires(delete, (source,)),
    ensures
        moved.source == source,
        moved.dest == dest,
        moved.bytes_moved == bytes,
        moved.hash == source_hash,
        moved.delete_failed == (moved.delete_error is Some),
        if found_right(verify, bytes, source_hash, *found) {
            exists|deleted: std::result::Result<(), String>| #[trigger]
                call_ensures(delete, (source,), deleted) && moved.delete_error == (match deleted {
                    Ok(()) => None,
                    Err(message) => Some(message),
                })
        } else {
            moved.delete_error is Some && moved.delete_error->0@ == not_right_text()
        },
{
    let deleted = if is_found_right(verify, bytes, &source_hash, found) {
        delete(source.clone())
    } else {
        Err(not_right())
    };
    let (delete_failed, delete_error) = match deleted {
        Ok(()) => (false, None),
        Err(message) => (true, Some(message)),
    };
    MoveResult { source, dest, bytes_moved: bytes, hash: source_hash, delete_failed, delete_error }
}

/// The result of an attempt to move by renaming: `parent_ready` says whether the
/// directory of `dest` exists or could be made; `renamed` is the size of the
/// file at `dest` if the rename succeeded (0 where it could not be had).
pub fn try_atomic_move(
    source: String,
    dest: String,
    parent_ready: bool,
    renamed: Option<u64>,
) -> (moved: Option<MoveResult>)
    ensures
        match moved {
            Some(m) => {
                &&& parent_ready && renamed is Some
                &&& m == MoveResult {
                    source,
                    dest,
                    bytes_moved: renamed->0,
                    hash: None,
                    delete_failed: false,
                    delete_error: None,
                }
            },
            None => !parent_ready || renamed is None,
        },
{
    if !parent_ready {
        return None;
    }
    match renamed {
        Some(bytes) => Some(
            MoveResult {
                source,
                dest,
                bytes_moved: bytes,
                hash: None,
                delete_failed: false,
                delete_error: None,
            },
        ),
        None => None,
    }
}

/// Whether two files lie on one file system, given the device of each where it
/// is known.
pub fn same_filesystem(a: Option<u64>, b: Option<u64>) -> (same: bool)
    ensures
        same == (a is Some && a == b),
{
    match (a, b) {
        (Some(a), Some(b)) => a == b,
        _ => false,
    }
}

/// The volume that a Windows path names: `\\server\share` in small letters, or
/// a drive letter in capital with its colon.
pub open spec fn windows_root(path: Seq<char>) -> Option<Seq<char>> {
    if path.len() >= 2 && ((path[0] == '\\' && path[1] == '\\') || (path[0] == '/' && path[1]
        == '/')) {
        let start = skip_from(path, '\\', 0);
        let server_end = find_from(path, '\\', start);
        if server_end < path.len() {
            let share_end = find_from(path, '\\', server_end + 1);
            Some(
                lowercase(
                    "\\\\"@ + path.subrange(start as int, server_end as int) + "\\"@
                        + path.subrange(server_end as int + 1, share_end as int),
                ),
            )
        } else {
            None
        }
    } else if path.len() >= 2 && path[1] == ':' && (path[0] as u32) < 128 {
        Some(seq![ascii_upper(path[0]), ':'])
    } else {
        None
    }
}

/// The volume that a Windows path names, if it names one.
pub fn get_windows_root(path: &str) -> (root: Option<String>)
    ensures
        match root {
            Some(text) => windows_root(path@) == Some(text@),
            None => windows_root(path@) is None,
        },
{
    let chars = chars_of(path);
    if chars.len() >= 2 && ((chars[0] == '\\' && chars[1] == '\\') || (chars[0] == '/' && chars[1]
        == '/')) {
        let start: usize = skip(&chars, '\\', 0);
        let server_end: usize = find(&chars, '\\', start);
        if server_end < chars.len() {
            let share_end: usize = find(&chars, '\\', server_end + 1);
            let mut root = "\\\\".to_owned();
            root.append(string_of(&chars, start, server_end).as_str());
            root.append("\\");
            root.append(string_of(&chars, server_end + 1, share_end).as_str());
            return Some(root.as_str().to_lowercase());
        }
        return None;
    }
    if chars.len() >= 2 && chars[1] == ':' && (chars[0] as u32) < 128 {
        let mut root = String::new();
        root.push(to_ascii_upper(chars[0]));
        root.push(':');
        assert(root@ =~= seq![ascii_upper(path@[0]), ':']);
        return Some(root);
    }
    None
}

/// Whether two Windows paths lie on one volume.
pub fn same_windows_volume(a: &str, b: &str) -> (same: bool)
    ensures
        same == (windows_root(a@) is Some && windows_root(b@) is Some && same_but_ascii_case(
            windows_root(a@)->0,
            windows_root(b@)->0,
        )),
{
    match (get_windows_root(a), get_windows_root(b)) {
        (Some(root_a), Some(root_b)) => eq_ignore_ascii_case(root_a.as_str(), root_b.as_str()),
        _ => false,
    }
}

/// The directories of the given depth, in their order.
pub open spec fn level(style: PathStyle, dirs: Seq<String>, steps: nat) -> Seq<String> {
    dirs.filter(|dir: String| style.depth_of(dir@) == steps)
}

/// The directories of depth `top` and less, the deepest first and otherwise in
/// their order.
pub open spec fn levels(style: PathStyle, dirs: Seq<String>, top: nat) -> Seq<String>
    decreases top,
{
    if top == 0 {
        level(style, dirs, 0)
    } else {
        level(style, dirs, top) + levels(style, dirs, (top - 1) as nat)
    }
}

/// Whether no directory is deeper than `top`.
pub open spec fn within(style: PathStyle, dirs: Seq<String>, top: nat) -> bool {
    forall|i: int| 0 <= i < dirs.len() ==> style.depth_of(#[trigger] dirs[i]@) <= top
}

/// The order in which directories are to be removed: the deepest first, and
/// otherwise in the order given.
pub fn removal_order(style: PathStyle, dirs: &Vec<String>) -> (ordered: Vec<String>)
    ensures
        forall|steps: nat| #[trigger] level(style, ordered@, steps) == level(style, dirs@, steps),
        forall|i: int, j: int|
            0 <= i <= j < ordered@.len() ==> style.depth_of(#[trigger] ordered@[i]@)
                >= style.depth_of(#[trigger] ordered@[j]@),
{
    let mut depths: Vec<usize> = Vec::new();
    let mut top: usize = 0;
    let mut i: usize = 0;
    while i < dirs.len()
        invariant
            i <= dirs@.len(),
            depths@.len() == i,
            forall|j: int| 0 <= j < i ==> depths@[j] == style.depth_of(#[trigger] dirs@[j]@),
            forall|j: int| 0 <= j < i ==> #[trigger] depths@[j] <= top,
        decreases dirs@.len() - i,
    {
        let steps: usize = style.depth(dirs[i].as_str());
        if steps > top {
            top = steps;
        }
        depths.push(steps);
        i = i + 1;
    }
    let mut ordered: Vec<String> = Vec::new();
    let mut left: u128 = top as u128 + 1;
    proof {
        assert forall|j: int| 0 <= j < dirs@.len() implies style.depth_of(#[trigger] dirs@[j]@)
            <= top by {
            assert(depths@[j] <= top);
        }
        assert(ordered@ + levels(style, dirs@, top as nat) =~= levels(style, dirs@, top as nat));
    }
    while left > 0
        invariant
            left <= top + 1,
            depths@.len() == dirs@.len(),
            forall|j: int|
                0 <= j < dirs@.len() ==> depths@[j] == style.depth_of(#[trigger] dirs@[j]@),
            left > 0 ==> ordered@ + levels(style, dirs@, (left - 1) as nat) == levels(
                style,
                dirs@,
                top as nat,
            ),
            left == 0 ==> ordered@ == levels(style, dirs@, top as nat),
        decreases left,
    {
        left = left - 1;
        let ghost before = ordered@;
        let ghost here = |dir: String| style.depth_of(dir@) == left as nat;
        let mut k: usize = 0;
        assert(dirs@.take(0).filter(here) =~= Seq::<String>::empty()) by {
            reveal(Seq::filter);
        }
        while k < dirs.len()
            invariant
                k <= dirs@.len(),
                depths@.len() == dirs@.len(),
                forall|j: int|
                    0 <= j < dirs@.len() ==> depths@[j] == style.depth_of(#[trigger] dirs@[j]@),
                here == (|dir: String| style.depth_of(dir@) == left as nat),
                ordered@ == before + dirs@.take(k as int).filter(here),
            decreases dirs@.len() - k,
        {
            proof {
                lemma_filter_next(dirs@, k as int, here);
            }
            if depths[k] as u128 == left {
                ordered.push(dirs[k].clone());
            }
            k = k + 1;
        }
        proof {
            assert(dirs@.take(k as int) =~= dirs@);
            assert(dirs@.filter(here) == level(style, dirs@, left as nat));
            if left > 0 {
                let lower = levels(style, dirs@, (left - 1) as nat);
                assert(before + (level(style, dirs@, left as nat) + lower) =~= ordered@ + lower);
            }
        }
    }
    proof {
        lemma_levels_descend(style, dirs@, top as nat);
        assert forall|steps: nat| #[trigger]
            level(style, ordered@, steps) == level(style, dirs@, steps) by {
            lemma_levels_keep_each_level(style, dirs@, top as nat, steps);
            if steps > top {
                lemma_no_level_below(style, dirs@, top as nat, steps);
            }
        }
    }
    ordered
}

proof fn lemma_no_level_below(style: PathStyle, dirs: Seq<String>, top: nat, steps: nat)
    requires
        within(style, dirs, top),
        steps > top,
    ensures
        level(style, dirs, steps) == Seq::<String>::empty(),
    decreases dirs.len(),
{
    reveal(Seq::filter);
    if dirs.len() > 0 {
        assert forall|i: int| 0 <= i < dirs.drop_last().len() implies style.depth_of(
            #[trigger] dirs.drop_last()[i]@,
        ) <= top by {
            assert(dirs.drop_last()[i] == dirs[i]);
        }
        lemma_no_level_below(style, dirs.drop_last(), top, steps);
        assert(style.depth_of(dirs[dirs.len() - 1]@) <= top);
    }
}

proof fn lemma_levels_descend(style: PathStyle, dirs: Seq<String>, top: nat)
    ensures
        forall|i: int|
            0 <= i < levels(style, dirs, top).len() ==> style.depth_of(
                #[trigger] levels(style, dirs, top)[i]@,
            ) <= top,
        forall|i: int, j: int|
            0 <= i <= j < levels(style, dirs, top).len() ==> style.depth_of(
                #[trigger] levels(style, dirs, top)[i]@,
            ) >= style.depth_of(#[trigger] levels(style, dirs, top)[j]@),
    decreases top,
{
    let here = |dir: String| style.depth_of(dir@) == top;
    let these = level(style, dirs, top);
    assert forall|i: int| 0 <= i < these.len() implies style.depth_of(#[trigger] these[i]@)
        == top by {
        dirs.lemma_filter_pred(here, i);
    }
    if top > 0 {
        let rest = levels(style, dirs, (top - 1) as nat);
        lemma_levels_descend(style, dirs, (top - 1) as nat);
        let all = levels(style, dirs, top);
        assert forall|i: int| 0 <= i < all.len() implies style.depth_of(#[trigger] all[i]@)
            <= top by {
            if i >= these.len() {
                assert(all[i] == rest[i - these.len()]);
            }
        }
        assert forall|i: int, j: int| 0 <= i <= j < all.len() implies style.depth_of(
            #[trigger] all[i]@,
        ) >= style.depth_of(#[trigger] all[j]@) by {
            if i >= these.len() {
                assert(all[i] == rest[i - these.len()]);
                assert(all[j] == rest[j - these.len()]);
            } else {
                assert(all[i] == these[i]);
            }
        }
    }
}

proof fn lemma_levels_keep_each_level(style: PathStyle, dirs: Seq<String>, top: nat, steps: nat)
    ensures
        level(style, levels(style, dirs, top), steps) == if steps <= top {
            level(style, dirs, steps)
        } else {
            Seq::empty()
        },
    decreases top,
{
    let wanted = |dir: String| style.depth_of(dir@) == steps;
    let here = |dir: String| style.depth_of(dir@) == top;
    lemma_filter_twice(dirs, here, wanted);
    if top > 0 {
        let rest = levels(style, dirs, (top - 1) as nat);
        lemma_levels_keep_each_level(style, dirs, (top - 1) as nat, steps);
        Seq::filter_distributes_over_add(level(style, dirs, top), rest, wanted);
        assert(level(style, dirs, top).filter(wanted) + rest.filter(wanted) =~= level(
            style,
            levels(style, dirs, top),
            steps,
        ));
    }
}

/// Whatever order directories are given in, one comes to be removed before the
/// directory that holds it.
pub proof fn law_children_before_parents(
    style: PathStyle,
    ordered: Seq<String>,
    parent: int,
    child: int,
    name: Seq<char>,
)
    requires
        forall|i: int, j: int|
            0 <= i <= j < ordered.len() ==> style.depth_of(#[trigger] ordered[i]@)
                >= style.depth_of(#[trigger] ordered[j]@),
        0 <= parent < ordered.len(),
        0 <= child < ordered.len(),
        ordered[child]@ == style.joined(ordered[parent]@, name),
        has_whole_volume(style, ordered[parent]@),
        is_entry_name(style, name),
    ensures
        child < parent,
{
    law_child_is_deeper(style, ordered[parent]@, name);
}

impl CleanupResult {
    /// Nothing has been tried yet.
    pub fn new() -> (result: Self)
        ensures
            result.removed == 0,
            result.skipped == 0,
    {
        CleanupResult { removed: 0, skipped: 0 }
    }

    /// Counts one directory that was tried. A failure is no error: the rest of
    /// the tree is still cleaned.
    pub fn record(&mut self, removed: bool)
        requires
            old(self).removed + old(self).skipped < usize::MAX,
        ensures
            removed ==> final(self).removed == old(self).removed + 1 && final(self).skipped == old(
                self,
            ).skipped,
            !removed ==> final(self).skipped == old(self).skipped + 1 && final(self).removed == old(
                self,
            ).removed,
    {
        if removed {
            self.removed = self.removed + 1;
        } else {
            self.skipped = self.skipped + 1;
        }
    }
}

/// A copy is right only if a file of just the size that was transferred lies at the
/// destination, and, where copies are verified, only if its digest is known and is
/// that of the source; then it always is.
pub proof fn law_only_a_true_copy_is_right(
    verify: bool,
    bytes: u64,
    hash: Option<String>,
    found: FoundFile,
    right: bool,
)
    requires
        call_ensures(is_found_right, (verify, bytes, &hash, &found), right),
    ensures
        right ==> found.size == Some(bytes),
        right && verify ==> hash is Some && found.digest is Some && hash->0@ == found.digest->0@,
        found.size == Some(bytes) && !verify ==> right,
        found.size == Some(bytes) && verify && hash is Some && found.digest is Some && hash->0@
            == found.digest->0@ ==> right,
{
}

/// A source is gone only where its copy was found right and deleting it succeeded; in
/// every other case the result says that it is still there. Where the copy is right,
/// what deleting gave is what is told.
pub proof fn law_source_outlives_a_bad_copy<F: FnOnce(String) -> std::result::Result<(), String>>(
    source: String,
    dest: String,
    source_hash: Option<String>,
    bytes: u64,
    verify: bool,
    found: FoundFile,
    delete: F,
    moved: MoveResult,
)
    requires
        call_ensures(
            delete_source_after_copy::<F>,
            (source, dest, source_hash, bytes, verify, &found, delete),
            moved,
        ),
    ensures
        !moved.delete_failed ==> found.size == Some(bytes) && (verify ==> source_hash is Some
            && found.digest is Some && source_hash->0@ == found.digest->0@) && call_ensures(
            delete,
            (source,),
            Ok::<(), String>(()),
        ),
        moved.delete_failed <==> moved.delete_error is Some,
        found.size == Some(bytes) && (verify ==> source_hash is Some && found.digest is Some
            && source_hash->0@ == found.digest->0@) && (forall|deleted: std::result::Result<
            (),
            String,
        >| #[trigger] call_ensures(delete, (source,), deleted) ==> deleted is Ok)
            ==> !moved.delete_failed,
        moved.source@ == source@,
        moved.dest@ == dest@,
        moved.bytes_moved == bytes,
{
    if !moved.delete_failed {
        let deleted = choose|deleted: std::result::Result<(), String>| #[trigger]
            call_ensures(delete, (source,), deleted) && deleted is Ok;
        assert(deleted->Ok_0 == ());
    }
}

/// A file is moved by renaming if and only if its new directory is ready and the
/// rename succeeded; then the source is gone without any more to do, and the size of
/// the file is told.
pub proof fn law_rename_moves_at_once(
    source: String,
    dest: String,
    parent_ready: bool,
    renamed: Option<u64>,
    moved: Option<MoveResult>,
)
    requires
        call_ensures(try_atomic_move, (source, dest, parent_ready, renamed), moved),
    ensures
        moved is Some <==> parent_ready && renamed is Some,
        moved is Some ==> moved->0.source@ == source@ && moved->0.dest@ == dest@
            && Some(moved->0.bytes_moved) == renamed && !moved->0.delete_failed
            && moved->0.delete_error is None && moved->0.hash is None,
{
}

/// Two files lie on one file system only if both devices are known and equal.
pub proof fn law_unknown_devices_are_never_the_same(a: Option<u64>, b: Option<u64>, same: bool)
    requires
        call_ensures(same_filesystem, (a, b), same),
    ensures
        same ==> a is Some && b is Some,
        a is Some && b is Some ==> (same <==> a->0 == b->0),
{
}

proof fn lemma_ascii_letters(a: char, b: char)
    ensures
        ascii_lower(ascii_upper(a)) == ascii_lower(a),
        (ascii_upper(a) == ascii_upper(b)) == (ascii_lower(a) == ascii_lower(b)),
{
}

/// Two paths that start with drive letters lie on one volume if and only if the
/// letters are the same, capital or small, whatever follows.
pub proof fn law_drive_letters_name_the_volume(
    a: &str,
    b: &str,
    rest_a: Seq<char>,
    rest_b: Seq<char>,
    letter_a: char,
    letter_b: char,
    same: bool,
)
    requires
        call_ensures(same_windows_volume, (a, b), same),
        a@ == seq![letter_a, ':'] + rest_a,
        b@ == seq![letter_b, ':'] + rest_b,
        (letter_a as u32) < 128,
        (letter_b as u32) < 128,
    ensures
        same <==> ascii_lower(letter_a) == ascii_lower(letter_b),
{
    let root_a = seq![ascii_upper(letter_a), ':'];
    let root_b = seq![ascii_upper(letter_b), ':'];
    assert(a@[0] == letter_a && a@[1] == ':');
    assert(b@[0] == letter_b && b@[1] == ':');
    assert(windows_root(a@) == Some(root_a));
    assert(windows_root(b@) == Some(root_b));
    lemma_ascii_letters(letter_a, letter_b);
    lemma_ascii_letters(letter_b, letter_a);
    let low_a = root_a.map_values(|c: char| ascii_lower(c));
    let low_b = root_b.map_values(|c: char| ascii_lower(c));
    assert(low_a[0] == ascii_lower(letter_a));
    assert(low_b[0] == ascii_lower(letter_b));
    if ascii_lower(letter_a) == ascii_lower(letter_b) {
        assert(low_a =~= low_b);
    }
}

/// A path below a network share names that share as its volume, whatever follows; so
/// two paths below one share always lie on one volume.
pub proof fn law_shares_name_the_volume(
    a: &str,
    b: &str,
    server: Seq<char>,
    share: Seq<char>,
    rest_a: Seq<char>,
    rest_b: Seq<char>,
    same: bool,
)
    requires
        call_ensures(same_windows_volume, (a, b), same),
        server.len() > 0,
        !server.contains('\\'),
        !share.contains('\\'),
        a@ == seq!['\\', '\\'] + server + seq!['\\'] + share + rest_a,
        b@ == seq!['\\', '\\'] + server + seq!['\\'] + share + rest_b,
        rest_a.len() > 0 ==> rest_a[0] == '\\',
        rest_b.len() > 0 ==> rest_b[0] == '\\',
    ensures
        same,
{
    lemma_share_root(a@, server, share, rest_a);
    lemma_share_root(b@, server, share, rest_b);
}

proof fn lemma_share_root(path: Seq<char>, server: Seq<char>, share: Seq<char>, rest: Seq<char>)
    requires
        server.len() > 0,
        !server.contains('\\'),
        !share.contains('\\'),
        path == seq!['\\', '\\'] + server + seq!['\\'] + share + rest,
        rest.len() > 0 ==> rest[0] == '\\',
    ensures
        windows_root(path) == Some(lowercase("\\\\"@ + server + "\\"@ + share)),
{
    let server_end = 2 + server.len();
    let share_end = server_end + 1 + share.len();
    assert(path[0] == '\\' && path[1] == '\\');
    assert(path[2] == server[0]);
    lemma_skipped_to(path, '\\', 0, 2);
    assert forall|i: int| 2 <= i < server_end implies #[trigger] path[i] != '\\' by {
        assert(path[i] == server[i - 2]);
    }
    assert(path[server_end as int] == '\\');
    lemma_found_at(path, '\\', 2, server_end);
    assert forall|i: int| server_end < i < share_end implies #[trigger] path[i] != '\\' by {
        assert(path[i] == share[i - server_end - 1]);
    }
    if share_end < path.len() {
        assert(path[share_end as int] == rest[0]);
    }
    lemma_found_at(path, '\\', server_end + 1, share_end);
    assert(path.subrange(2, server_end as int) =~= server);
    assert(path.subrange((server_end + 1) as int, share_end as int) =~= share);
}

/// A path that names neither a drive nor a share lies on no volume that is known, so
/// it shares none.
pub proof fn law_relative_paths_share_no_volume(a: &str, b: &str, same: bool)
    requires
        call_ensures(same_windows_volume, (a, b), same),
        a@.len() < 2 || (a@[1] != ':' && a@[0] != '\\' && a@[0] != '/'),
    ensures
        !same,
{
}

/// Every directory is removed as often as it was given, the deepest first; none is
/// forgotten and none is added. Those of one depth keep their order.
pub proof fn law_every_directory_is_removed_once(
    style: PathStyle,
    dirs: Vec<String>,
    ordered: Vec<String>,
    dir: String,
    deep: nat,
)
    requires
        call_ensures(removal_order, (style, &dirs), ordered),
    ensures
        ordered@.contains(dir) <==> dirs@.contains(dir),
        ordered@.filter(|d: String| d == dir) == dirs@.filter(|d: String| d == dir),
        forall|i: int, j: int|
            0 <= i <= j < ordered@.len() ==> style.depth_of(#[trigger] ordered@[i]@)
                >= style.depth_of(#[trigger] ordered@[j]@),
        ordered@.filter(|d: String| style.depth_of(d@) == deep) == dirs@.filter(
            |d: String| style.depth_of(d@) == deep,
        ),
{
    let steps = style.depth_of(dir@);
    let as_deep = |d: String| style.depth_of(d@) == steps;
    let same = |d: String| d == dir;
    assert(level(style, ordered@, steps) == level(style, dirs@, steps));
    lemma_filter_holds(ordered@, as_deep, dir);
    lemma_filter_holds(dirs@, as_deep, dir);
    lemma_filter_stronger(ordered@, as_deep, same);
    lemma_filter_stronger(dirs@, as_deep, same);
    assert(level(style, ordered@, deep) == level(style, dirs@, deep));
}

/// A directory that was tried counts once: as removed or as skipped.
pub proof fn law_each_directory_counts_once(result: &mut CleanupResult, removed: bool)
    requires
        call_ensures(CleanupResult::record, (result, removed), ()),
    ensures
        final(result).removed + final(result).skipped == old(result).removed + old(result).skipped
            + 1,
        removed <==> final(result).removed == old(result).removed + 1,
        !removed <==> final(result).skipped == old(result).skipped + 1,
{
}

} // verus!
