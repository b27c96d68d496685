//! The clipboard daemon: files that are copied or cut wait in a queue until the
//! user pastes them.

use vstd::prelude::*;
use vstd::string::*;

use crate::config::{default_config, EngineConfig, OperationMode};
use crate::os::windows::clipboard::{keep_named, named};
use crate::seqs::lemma_filter_next;
use crate::text::MB;

verus! {

/// What will be done with the files in the queue.
#[derive(Debug, Clone, Copy, PartialEq, Eq, Structural)]
pub enum PendingOperation {
    Copy,
    Move,
}

impl PendingOperation {
    /// The operation as it is shown to users.
    pub fn to_string(&self) -> (text: String)
        ensures
            text@ == match self {
                PendingOperation::Copy => "COPIAR"@,
                PendingOperation::Move => "MOVER"@,
            },
    {
        match self {
            PendingOperation::Copy => "COPIAR".to_owned(),
            PendingOperation::Move => "MOVER".to_owned(),
        }
    }

    /// The operation that a drop effect asks for: 2 is a move, anything else, or
    /// none, a copy.
    pub fn from_effect(effect: Option<u32>) -> (operation: Self)
        ensures
            operation == if effect == Some(2u32) {
                PendingOperation::Move
            } else {
                PendingOperation::Copy
            },
    {
        match effect {
            Some(2) => PendingOperation::Move,
            _ => PendingOperation::Copy,
        }
    }
}

/// Files that wait to be pasted.
#[derive(Debug)]
pub struct PendingItem {
    pub paths: Vec<String>,
    pub operation: PendingOperation,
    /// The number of the clipboard's contents when the files were taken in.
    pub sequence: u32,
}

impl PendingItem {
    /// What the clipboard holds: the paths that are not empty, if there are any.
    pub fn read(paths: &Vec<String>, effect: Option<u32>, sequence: u32) -> (item: Option<Self>)
        ensures
            match item {
                Some(it) => {
                    &&& named(paths@).len() > 0
                    &&& it.paths@ == named(paths@)
                    &&& it.operation == (if effect == Some(2u32) {
                        PendingOperation::Move
                    } else {
                        PendingOperation::Copy
                    })
                    &&& it.sequence == sequence
                },
                None => named(paths@).len() == 0,
            },
    {
        let kept = keep_named(paths);
        if kept.len() == 0 {
            return None;
        }
        Some(
            PendingItem { paths: kept, operation: PendingOperation::from_effect(effect), sequence },
        )
    }
}

/// The configuration of the daemon.
#[derive(Debug)]
pub struct DaemonConfig {
    /// Where everything goes; where there is none, it is found out at each paste.
    pub fixed_dest: Option<String>,
    /// Whether to ask the user where nothing else names a folder.
    pub fallback_dialog: bool,
    pub verify: bool,
    pub block_size_mb: u64,
    pub threshold_mb: u64,
    pub channel_cap: usize,
}

impl Default for DaemonConfig {
    fn default() -> (config: Self)
        ensures
            config == (DaemonConfig {
                fixed_dest: None,
                fallback_dialog: true,
                verify: false,
                block_size_mb: 4,
                threshold_mb: 16,
                channel_cap: 8,
            }),
    {
        DaemonConfig {
            fixed_dest: None,
            fallback_dialog: true,
            verify: false,
            block_size_mb: 4,
            threshold_mb: 16,
            channel_cap: 8,
        }
    }
}

impl DaemonConfig {
    /// Where a paste goes: the fixed destination, else the folder that is open in
    /// Explorer, else the one that the user chose, if asking is allowed.
    pub fn resolve_dest(&self, explorer: Option<String>, chosen: Option<String>) -> (
        dest: Option<String>)
        ensures
            dest == if self.fixed_dest is Some {
                self.fixed_dest
            } else if explorer is Some {
                explorer
            } else if self.fallback_dialog {
                chosen
            } else {
                None
            },
    {
        if let Some(fixed) = &self.fixed_dest {
            return Some(fixed.clone());
        }
        if explorer.is_some() {
            return explorer;
        }
        if self.fallback_dialog {
            return chosen;
        }
        None
    }

    /// The configuration of the engine for one operation.
    pub fn engine_config(&self, operation: PendingOperation) -> (config: EngineConfig)
        requires
            self.threshold_mb * MB <= u64::MAX,
            self.block_size_mb * MB <= usize::MAX,
        ensures
            config == (EngineConfig {
                triage_threshold_bytes: (self.threshold_mb * MB) as u64,
                block_size_bytes: (self.block_size_mb * MB) as usize,
                channel_capacity: self.channel_cap,
                swarm_concurrency: 64,
                verify: self.verify,
                operation_mode: match operation {
                    PendingOperation::Copy => OperationMode::Copy,
                    PendingOperation::Move => OperationMode::Move,
                },
                dry_run: false,
                ..default_config()
            }),
    {
        let mut config = EngineConfig::default();
        config.triage_threshold_bytes = self.threshold_mb * MB;
        config.block_size_bytes = self.block_size_mb as usize * 1_048_576;
        config.channel_capacity = self.channel_cap;
        config.swarm_concurrency = 64;
        config.verify = self.verify;
        config.operation_mode = match operation {
            PendingOperation::Copy => OperationMode::Copy,
            PendingOperation::Move => OperationMode::Move,
        };
        config.dry_run = false;
        config
    }
}

/// What follows when the user pastes.
pub enum PasteOutcome {
    /// The key goes on to Explorer: nothing is queued, or there is nowhere to put
    /// it.
    PassOn,
    /// The key goes on to Explorer: the queued files are gone.
    Gone,
    /// The key is kept from Explorer, and the operation runs.
    Run { paths: Vec<String>, dest: String, operation: PendingOperation },
}

/// The paths that exist, in their order.
pub open spec fn existing(paths: Seq<String>, exists: Seq<bool>) -> Seq<String>
    decreases paths.len(),
{
    if paths.len() == 0 {
        Seq::empty()
    } else {
        let rest = existing(paths.drop_last(), exists.drop_last());
        if exists.last() {
            rest.push(paths.last())
        } else {
            rest
        }
    }
}

fn keep_existing(paths: &Vec<String>, exists: &Vec<bool>) -> (kept: Vec<String>)
    requires
        exists@.len() == paths@.len(),
    ensures
        kept@ == existing(paths@, exists@),
{
    let mut kept: Vec<String> = Vec::new();
    let mut i: usize = 0;
    while i < paths.len()
        invariant
            i <= paths@.len() == exists@.len(),
            kept@ == existing(paths@.take(i as int), exists@.take(i as int)),
        decreases paths@.len() - i,
    {
        assert(paths@.take(i + 1).drop_last() =~= paths@.take(i as int));
        assert(exists@.take(i + 1).drop_last() =~= exists@.take(i as int));
        if exists[i] {
            kept.push(paths[i].clone());
        }
        i = i + 1;
    }
    assert(paths@.take(i as int) =~= paths@);
    assert(exists@.take(i as int) =~= exists@);
    kept
}

/// The virtual key code of V.
pub const VK_V: u32 = 0x56;

/// Whether a key event is a paste: V pressed while Ctrl is down.
pub fn is_paste(is_action: bool, key_down: bool, key_code: u32, ctrl_down: bool) -> (paste: bool)
    ensures
        paste == (is_action && key_down && key_code == VK_V && ctrl_down),
{
    is_action && key_down && key_code == VK_V && ctrl_down
}

/// The queue of the daemon.
pub struct PasteQueue {
    queue: Option<PendingItem>,
}

impl PasteQueue {
    /// What waits to be pasted.
    pub closed spec fn item(self) -> Option<PendingItem> {
        self.queue
    }

    /// An empty queue.
    pub fn new() -> (queue: Self)
        ensures
            queue.item() is None,
    {
        PasteQueue { queue: None }
    }

    /// What waits to be pasted.
    pub fn pending(&self) -> (item: Option<&PendingItem>)
        ensures
            match item {
                Some(it) => self.item() == Some(*it),
                None => self.item() is None,
            },
    {
        match &self.queue {
            Some(item) => Some(item),
            None => None,
        }
    }

    /// Takes in a change of the clipboard. Files replace what is queued; anything
    /// else leaves the queue: it is pasting that empties it. Returns what was
    /// queued and how many files it has.
    pub fn on_clipboard_update(&mut self, has_files: bool, read: Option<PendingItem>) -> (
        queued: Option<(PendingOperation, usize)>)
        ensures
            if has_files && read is Some {
                &&& final(self).item() == read
                &&& queued == Some((read->0.operation, read->0.paths.len()))
            } else {
                &&& final(self).item() == old(self).item()
                &&& queued is None
            },
    {
        if !has_files {
            return None;
        }
        match read {
            Some(item) => {
                let queued = (item.operation, item.paths.len());
                self.queue = Some(item);
                Some(queued)
            },
            None => None,
        }
    }

    /// Takes in a paste. `exists[i]` says whether the queued path `i` is still
    /// there; `dest` is where the paste goes, if that could be found out.
    pub fn on_paste(&mut self, exists: &Vec<bool>, dest: Option<String>) -> (
        outcome: PasteOutcome)
        requires
            old(self).item() matches Some(item) ==> exists@.len() == item.paths@.len(),
        ensures
            match old(self).item() {
                None => outcome is PassOn && final(self).item() is None,
                Some(item) => {
                    let there = existing(item.paths@, exists@);
                    if there.len() == 0 {
                        outcome is Gone && final(self).item() is None
                    } else if dest is None {
                        outcome is PassOn && final(self).item() == old(self).item()
                    } else {
                        &&& final(self).item() is None
                        &&& outcome is Run
                        &&& outcome->paths@ == there
                        &&& outcome->dest == dest->0
                        &&& outcome->operation == item.operation
                    }
                },
            },
    {
        match self.queue.take() {
            None => PasteOutcome::PassOn,
            Some(item) => {
                let paths = keep_existing(&item.paths, exists);
                if paths.len() == 0 {
                    return PasteOutcome::Gone;
                }
                match dest {
                    Some(dest) => PasteOutcome::Run { paths, dest, operation: item.operation },
                    None => {
                        self.queue = Some(item);
                        PasteOutcome::PassOn
                    },
                }
            },
        }
    }
}

/// Files are moved only where the clipboard says that they were cut.
pub proof fn law_only_cut_files_are_moved(effect: Option<u32>, operation: PendingOperation)
    requires
        call_ensures(PendingOperation::from_effect, (effect,), operation),
    ensures
        operation is Move <==> effect is Some && effect->0 == 2,
{
}

/// Where a paste goes: a fixed destination wins over everything, an open folder over
/// asking, and asking counts only where it is allowed. A paste has nowhere to go only
/// if none of these names a folder.
pub proof fn law_destination_is_the_first_that_is_known(
    config: DaemonConfig,
    explorer: Option<String>,
    chosen: Option<String>,
    dest: Option<String>,
)
    requires
        call_ensures(DaemonConfig::resolve_dest, (&config, explorer, chosen), dest),
    ensures
        config.fixed_dest is Some ==> dest == config.fixed_dest,
        config.fixed_dest is None && explorer is Some ==> dest == explorer,
        config.fixed_dest is None && explorer is None && config.fallback_dialog ==> dest == chosen,
        dest is None <==> config.fixed_dest is None && explorer is None && (
        !config.fallback_dialog || chosen is None),
{
}

/// What the daemon is configured with reaches the engine, each thing by itself, and
/// nothing is only simulated.
pub proof fn law_daemon_configures_the_engine(
    daemon: DaemonConfig,
    operation: PendingOperation,
    config: EngineConfig,
)
    requires
        call_ensures(DaemonConfig::engine_config, (&daemon, operation), config),
        daemon.threshold_mb * 1_048_576 <= u64::MAX,
        daemon.block_size_mb * 1_048_576 <= usize::MAX,
    ensures
        config.verify == daemon.verify,
        config.triage_threshold_bytes == daemon.threshold_mb * 1_048_576,
        config.block_size_bytes == daemon.block_size_mb * 1_048_576,
        config.channel_capacity == daemon.channel_cap,
        config.operation_mode is Move <==> operation is Move,
        !config.dry_run,
        config.swarm_concurrency == 64,
{
}

/// What is taken in are the named paths of the clipboard, with what to do with them;
/// nothing is taken in where there are none.
pub proof fn law_queue_takes_in_named_paths(
    paths: Vec<String>,
    effect: Option<u32>,
    sequence: u32,
    item: Option<PendingItem>,
)
    requires
        call_ensures(PendingItem::read, (&paths, effect, sequence), item),
    ensures
        item is Some <==> named(paths@).len() > 0,
        item is Some ==> item->0.paths@ == paths@.filter(|path: String| path@.len() > 0)
            && item->0.sequence == sequence && (item->0.operation is Move <==> effect
            == Some(2u32)),
{
}

/// A key event is a paste only if all of it is: V, pressed, while Ctrl is down.
pub proof fn law_paste_is_ctrl_v(
    is_action: bool,
    key_down: bool,
    key_code: u32,
    ctrl_down: bool,
    paste: bool,
)
    requires
        call_ensures(is_paste, (is_action, key_down, key_code, ctrl_down), paste),
    ensures
        paste ==> is_action && key_down && ctrl_down && key_code == 'V' as u32,
        is_action && key_down && ctrl_down && key_code == 'V' as u32 ==> paste,
{
}

/// Only files replace what is queued; nothing else that is copied empties the queue.
pub proof fn law_only_files_replace_the_queue(
    queue: &mut PasteQueue,
    has_files: bool,
    read: Option<PendingItem>,
    queued: Option<(PendingOperation, usize)>,
)
    requires
        call_ensures(PasteQueue::on_clipboard_update, (queue, has_files, read), queued),
    ensures
        queued is Some <==> has_files && read is Some,
        queued is Some ==> final(queue).item() == read && (queued->0).0 == read->0.operation
            && (queued->0).1 == read->0.paths@.len(),
        queued is None ==> final(queue).item() == old(queue).item(),
{
}

/// A paste that runs takes the queued files that are still there, all of them and in
/// their order, to the destination, and empties the queue. It runs if and only if
/// something that is queued is still there and the destination is known; where only the
/// destination is missing, the queue stays.
pub proof fn law_paste_takes_what_is_there(
    queue: &mut PasteQueue,
    exists: Vec<bool>,
    dest: Option<String>,
    outcome: PasteOutcome,
    i: int,
)
    requires
        call_ensures(PasteQueue::on_paste, (queue, &exists, dest), outcome),
        old(queue).item() is Some,
        exists@.len() == old(queue).item()->0.paths@.len(),
        0 <= i < exists@.len(),
    ensures
        ({
            let item = old(queue).item()->0;
            let there = exists@.filter(|e: bool| e).len();
            &&& outcome is Run <==> there > 0 && dest is Some
            &&& outcome is Gone <==> there == 0
            &&& outcome is PassOn <==> there > 0 && dest is None
            &&& outcome is PassOn <==> final(queue).item() is Some
            &&& outcome is PassOn ==> final(queue).item() == old(queue).item()
            &&& outcome is Run ==> {
                &&& outcome->paths@.len() == there
                &&& exists@[i] ==> ({
                    let place = exists@.take(i).filter(|e: bool| e).len();
                    place < there && outcome->paths@[place as int] == item.paths@[i]
                })
                &&& outcome->dest@ == dest->0@
                &&& outcome->operation == item.operation
            }
        }),
{
    lemma_existing_in_order(old(queue).item()->0.paths@, exists@, i);
}

proof fn lemma_existing_in_order(paths: Seq<String>, exists: Seq<bool>, i: int)
    requires
        exists.len() == paths.len(),
        0 <= i < paths.len(),
    ensures
        existing(paths, exists).len() == exists.filter(|e: bool| e).len(),
        exists[i] ==> ({
            let place = exists.take(i).filter(|e: bool| e).len();
            place < existing(paths, exists).len() && existing(paths, exists)[place as int]
                == paths[i]
        }),
    decreases paths.len(),
{
    let yes = |e: bool| e;
    let last = paths.len() - 1;
    let front = exists.drop_last();
    lemma_filter_next(exists, last, yes);
    assert(exists.take(last) =~= front);
    assert(exists.take(last + 1) =~= exists);
    if last > 0 {
        let at = if i < last {
            i
        } else {
            0
        };
        lemma_existing_in_order(paths.drop_last(), front, at);
        if i < last {
            assert(front.take(i) =~= exists.take(i));
            assert(front[i] == exists[i]);
        }
    } else {
        assert(existing(paths.drop_last(), front).len() == 0);
        assert(exists.take(0).filter(yes).len() == 0) by {
            reveal(Seq::filter);
        }
    }
}

/// Where nothing is queued, a paste goes on to Explorer.
pub proof fn law_empty_queue_lets_a_paste_pass(
    queue: &mut PasteQueue,
    exists: Vec<bool>,
    dest: Option<String>,
    outcome: PasteOutcome,
)
    requires
        call_ensures(PasteQueue::on_paste, (queue, &exists, dest), outcome),
        old(queue).item() is None,
    ensures
        outcome is PassOn,
        final(queue).item() is None,
{
}

} // verus!
