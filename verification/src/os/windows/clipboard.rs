//! The Windows clipboard, polled.

use vstd::prelude::*;
use vstd::string::*;

use crate::seqs::lemma_filter_holds;

verus! {

/// What the user asked for.
#[derive(Debug, Clone, Copy, PartialEq, Eq, Structural)]
pub enum ClipboardOperation {
    Copy,
    Move,
}

impl ClipboardOperation {
    /// The operation as it is shown to users.
    pub fn to_string(&self) -> (text: String)
        ensures
            text@ == match self {
                ClipboardOperation::Copy => "COPIAR"@,
                ClipboardOperation::Move => "MOVER"@,
            },
    {
        match self {
            ClipboardOperation::Copy => "COPIAR".to_owned(),
            ClipboardOperation::Move => "MOVER".to_owned(),
        }
    }
}

/// Files that were put on the clipboard.
#[derive(Debug)]
pub struct ClipboardEvent {
    pub paths: Vec<String>,
    pub operation: ClipboardOperation,
}

/// The operation that a drop effect asks for: 2 is a move, anything else, or
/// none, a copy.
pub open spec fn effect_operation(effect: Option<u32>) -> ClipboardOperation {
    if effect == Some(2u32) {
        ClipboardOperation::Move
    } else {
        ClipboardOperation::Copy
    }
}

/// The operation that a drop effect asks for.
pub fn read_drop_effect(effect: Option<u32>) -> (operation: ClipboardOperation)
    ensures
        operation == effect_operation(effect),
{
    match effect {
        Some(2) => ClipboardOperation::Move,
        _ => ClipboardOperation::Copy,
    }
}

/// The paths that are not empty, in their order.
pub open spec fn named(paths: Seq<String>) -> Seq<String> {
    paths.filter(|path: String| path@.len() > 0)
}

/// Keeps the paths that are not empty.
pub fn keep_named(paths: &Vec<String>) -> (kept: Vec<String>)
    ensures
        kept@ == named(paths@),
{
    let ghost has_name = |path: String| path@.len() > 0;
    let mut kept: Vec<String> = Vec::new();
    let mut i: usize = 0;
    proof {
        reveal(Seq::filter);
    }
    while i < paths.len()
        invariant
            i <= paths@.len(),
            has_name == (|path: String| path@.len() > 0),
            kept@ == paths@.take(i as int).filter(has_name),
        decreases paths@.len() - i,
    {
        proof {
            crate::seqs::lemma_filter_next(paths@, i as int, has_name);
        }
        if !paths[i].as_str().is_empty() {
            kept.push(paths[i].clone());
        }
        i = i + 1;
    }
    assert(paths@.take(i as int) =~= paths@);
    kept
}

/// What a look at the clipboard found.
pub struct ClipboardLook {
    /// The number of the clipboard's contents, which changes with them.
    pub sequence: u32,
    /// Whether the clipboard holds files.
    pub has_files: bool,
    /// Whether the clipboard could be opened, or why not.
    pub opened: std::result::Result<(), String>,
    /// The paths on the clipboard, where they could be read.
    pub paths: Option<Vec<String>>,
    /// The drop effect, where there is one.
    pub effect: Option<u32>,
}

/// Watches the clipboard.
pub struct ClipboardWatcher {
    last_sequence: u32,
}

impl ClipboardWatcher {
    /// The number of the contents that were seen last.
    pub closed spec fn last_sequence(self) -> u32 {
        self.last_sequence
    }

    pub fn new() -> (watcher: Self)
        ensures
            watcher.last_sequence() == 0,
    {
        ClipboardWatcher { last_sequence: 0 }
    }

    /// Takes in a look at the clipboard: an event where it holds files that it
    /// did not hold before. A clipboard that could not be opened is looked at
    /// again.
    pub fn poll(&mut self, look: &ClipboardLook) -> (event: std::result::Result<
        Option<ClipboardEvent>,
        String,
    >)
        ensures
            if look.sequence == old(self).last_sequence() {
                &&& event == Ok::<Option<ClipboardEvent>, String>(None)
                &&& final(self).last_sequence() == old(self).last_sequence()
            } else if !look.has_files {
                &&& event == Ok::<Option<ClipboardEvent>, String>(None)
                &&& final(self).last_sequence() == look.sequence
            } else if look.opened is Err {
                &&& event is Err
                &&& event->Err_0 == look.opened->Err_0
                &&& final(self).last_sequence() == old(self).last_sequence()
            } else {
                &&& final(self).last_sequence() == look.sequence
                &&& event is Ok
                &&& if look.paths is Some && named(look.paths->0@).len() > 0 {
                    &&& event->Ok_0 is Some
                    &&& event->Ok_0->0.paths@ == named(look.paths->0@)
                    &&& event->Ok_0->0.operation == effect_operation(look.effect)
                } else {
                    event->Ok_0 is None
                }
            },
    {
        if look.sequence == self.last_sequence {
            return Ok(None);
        }
        if !look.has_files {
            self.last_sequence = look.sequence;
            return Ok(None);
        }
        if let Err(message) = &look.opened {
            return Err(message.clone());
        }
        self.last_sequence = look.sequence;
        match &look.paths {
            None => Ok(None),
            Some(paths) => {
                let kept = keep_named(paths);
                if kept.len() == 0 {
                    Ok(None)
                } else {
                    Ok(
                        Some(
                            ClipboardEvent {
                                paths: kept,
                                operation: read_drop_effect(look.effect),
                            },
                        ),
                    )
                }
            },
        }
    }
}

impl Default for ClipboardWatcher {
    fn default() -> (watcher: Self)
        ensures
            watcher.last_sequence() == 0,
    {
        ClipboardWatcher::new()
    }
}

/// What a watch does after an event was handled.
#[derive(Debug, Clone, Copy, PartialEq, Eq, Structural)]
pub enum WatchStep {
    /// Clear the clipboard, so that the event does not come again, and go on.
    ClearAndContinue,
    /// Leave the clipboard and go on: there was no destination.
    Continue,
    /// End the watch.
    Stop,
}

/// Decides how a watch goes on after an event; `keep_going` is what the handler
/// said, `None` where there was no destination to handle it with.
pub fn after_event(keep_going: Option<bool>) -> (step: WatchStep)
    ensures
        step == match keep_going {
            None => WatchStep::Continue,
            Some(true) => WatchStep::ClearAndContinue,
            Some(false) => WatchStep::Stop,
        },
{
    match keep_going {
        None => WatchStep::Continue,
        Some(keep) => if keep {
            WatchStep::ClearAndContinue
        } else {
            WatchStep::Stop
        },
    }
}

/// Files are moved only where the clipboard says that they were cut; without a word on
/// it, or with any other, they are copied.
pub proof fn law_only_a_cut_moves(effect: Option<u32>, operation: ClipboardOperation)
    requires
        call_ensures(read_drop_effect, (effect,), operation),
    ensures
        operation is Move <==> effect is Some && effect->0 == 2,
        operation is Copy <==> effect is None || effect->0 != 2,
{
}

/// A path is kept if and only if it is not empty.
pub proof fn law_only_named_paths_are_kept(paths: Vec<String>, kept: Vec<String>, path: String)
    requires
        call_ensures(keep_named, (&paths,), kept),
    ensures
        kept@.contains(path) <==> paths@.contains(path) && path@.len() > 0,
        kept@.len() <= paths@.len(),
        (forall|i: int| 0 <= i < paths@.len() ==> (#[trigger] paths@[i])@.len() > 0) ==> kept@
            == paths@,
{
    let has_name = |path: String| path@.len() > 0;
    lemma_filter_holds(paths@, has_name, path);
    paths@.lemma_filter_len(has_name);
    if forall|i: int| 0 <= i < paths@.len() ==> (#[trigger] paths@[i])@.len() > 0 {
        lemma_all_kept(paths@, has_name);
    }
}

proof fn lemma_all_kept(paths: Seq<String>, keep: spec_fn(String) -> bool)
    requires
        forall|i: int| 0 <= i < paths.len() ==> keep(#[trigger] paths[i]),
    ensures
        paths.filter(keep) == paths,
    decreases paths.len(),
{
    reveal(Seq::filter);
    if paths.len() > 0 {
        let front = paths.drop_last();
        assert forall|i: int| 0 <= i < front.len() implies keep(#[trigger] front[i]) by {
            assert(front[i] == paths[i]);
        }
        lemma_all_kept(front, keep);
        assert(keep(paths[paths.len() - 1]));
        assert(front.push(paths.last()) =~= paths);
    }
}

/// What lies on the clipboard gives one event at most: a look that finds the contents
/// of the last one gives none. An event comes only of files, at least one, and tells
/// what to do with them. A clipboard that could not be opened is reported, and counts
/// as not seen.
pub proof fn law_clipboard_is_reported_once(
    watcher: &mut ClipboardWatcher,
    look: ClipboardLook,
    event: std::result::Result<Option<ClipboardEvent>, String>,
)
    requires
        call_ensures(ClipboardWatcher::poll, (watcher, &look), event),
    ensures
        look.sequence == old(watcher).last_sequence() ==> event is Ok && event->Ok_0 is None,
        event is Err <==> look.sequence != old(watcher).last_sequence() && look.has_files
            && look.opened is Err,
        event is Err ==> final(watcher).last_sequence() == old(watcher).last_sequence()
            && event->Err_0@ == look.opened->Err_0@,
        event is Ok ==> final(watcher).last_sequence() == look.sequence,
        event is Ok && event->Ok_0 is Some ==> {
            &&& look.has_files
            &&& look.sequence != old(watcher).last_sequence()
            &&& look.paths is Some
            &&& event->Ok_0->0.paths@.len() > 0
            &&& event->Ok_0->0.operation is Move <==> look.effect == Some(2u32)
        },
        look.sequence != old(watcher).last_sequence() && look.has_files && look.opened is Ok
            && look.paths is Some && (exists|i: int|
            0 <= i < look.paths->0@.len() && (#[trigger] look.paths->0@[i])@.len() > 0)
            ==> event->Ok_0 is Some,
{
    if look.paths is Some && exists|i: int|
        0 <= i < look.paths->0@.len() && (#[trigger] look.paths->0@[i])@.len() > 0 {
        let all = look.paths->0@;
        let i = choose|i: int| 0 <= i < all.len() && (#[trigger] all[i])@.len() > 0;
        lemma_filter_holds(all, |path: String| path@.len() > 0, all[i]);
        assert(named(all).contains(all[i]));
    }
}

/// The clipboard is cleared if and only if the event was handled and the watch goes on;
/// the watch ends only where the handler says so.
pub proof fn law_watch_ends_only_when_told(keep_going: Option<bool>, step: WatchStep)
    requires
        call_ensures(after_event, (keep_going,), step),
    ensures
        step is Stop <==> keep_going is Some && !keep_going->0,
        step is ClearAndContinue <==> keep_going is Some && keep_going->0,
        step is Continue <==> keep_going is None,
{
}

} // verus!
