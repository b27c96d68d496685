//! What is particular to Windows.

use filecopier::config::{EngineConfig, OperationMode};
use filecopier::engine::move_op::{get_windows_root, same_windows_volume};
use filecopier::os::windows::clipboard::{
    after_event, keep_named, read_drop_effect, ClipboardLook, ClipboardOperation, ClipboardWatcher,
    WatchStep,
};
use filecopier::os::windows::clipboard_daemon::{
    is_paste, DaemonConfig, PasteOutcome, PasteQueue, PendingItem, PendingOperation, VK_V,
};
use filecopier::os::windows::explorer_path::{
    chosen_folder, folder_dialog_script, get_active_explorer_path, is_address_bar,
    is_explorer_window, title_bases,
};
use filecopier::os::windows::fs::WindowsAdapter;
use filecopier::os::windows::vss::{
    get_drive_letter, read_file_via_vss, FirstComponent, VssContext,
};

fn strings(texts: &[&str]) -> Vec<String> {
    texts.iter().map(|t| t.to_string()).collect()
}

#[test]
fn volumes() {
    assert_eq!(get_windows_root("c:\\x"), Some("C:".to_string()));
    assert_eq!(get_windows_root("D:"), Some("D:".to_string()));
    assert_eq!(get_windows_root("\\\\Server\\Share\\x"), Some("\\\\server\\share".to_string()));
    assert_eq!(get_windows_root("\\\\Server\\Share"), Some("\\\\server\\share".to_string()));
    assert_eq!(get_windows_root("\\\\Server"), None);
    assert_eq!(get_windows_root("//server/share"), None);
    assert_eq!(get_windows_root("relative\\x"), None);
    assert_eq!(get_windows_root(""), None);
    assert!(same_windows_volume("c:\\a", "C:\\b"));
    assert!(same_windows_volume("\\\\S\\T\\a", "\\\\s\\t\\b"));
    assert!(!same_windows_volume("C:\\a", "D:\\a"));
    assert!(!same_windows_volume("a", "a"));
}

#[test]
fn attributes_that_copies_take_over() {
    let adapter = WindowsAdapter::default();
    assert_eq!(adapter.platform_name(), "windows");
    assert_eq!(adapter.attributes_to_set(0x01 | 0x10 | 0x800), Some(0x01));
    assert_eq!(adapter.attributes_to_set(0xff), Some(0xa7));
    assert_eq!(adapter.attributes_to_set(0x10), None);
}

fn look(sequence: u32, paths: &[&str]) -> ClipboardLook {
    ClipboardLook {
        sequence,
        has_files: true,
        opened: Ok(()),
        paths: Some(strings(paths)),
        effect: Some(2),
    }
}

#[test]
fn the_watcher_reports_each_change_once() {
    let mut watcher = ClipboardWatcher::default();
    let event = watcher.poll(&look(1, &["C:\\a", ""])).unwrap().unwrap();
    assert_eq!(event.paths, strings(&["C:\\a"]));
    assert_eq!(event.operation, ClipboardOperation::Move);
    assert!(watcher.poll(&look(1, &["C:\\a"])).unwrap().is_none());
    assert!(watcher.poll(&look(2, &[""])).unwrap().is_none());
    let text = ClipboardLook { has_files: false, ..look(3, &["C:\\b"]) };
    assert!(watcher.poll(&text).unwrap().is_none());
    let unreadable = ClipboardLook { paths: None, ..look(4, &[]) };
    assert!(watcher.poll(&unreadable).unwrap().is_none());
    let busy = ClipboardLook { opened: Err("busy".to_string()), ..look(5, &["C:\\c"]) };
    assert_eq!(watcher.poll(&busy).unwrap_err(), "busy");
    let copied = ClipboardLook { effect: None, ..look(5, &["C:\\c"]) };
    let event = watcher.poll(&copied).unwrap().unwrap();
    assert_eq!(event.operation, ClipboardOperation::Copy);
}

#[test]
fn drop_effects() {
    assert_eq!(read_drop_effect(Some(1)), ClipboardOperation::Copy);
    assert_eq!(read_drop_effect(Some(2)), ClipboardOperation::Move);
    assert_eq!(read_drop_effect(Some(5)), ClipboardOperation::Copy);
    assert_eq!(read_drop_effect(None), ClipboardOperation::Copy);
    assert_eq!(ClipboardOperation::Copy.to_string(), "COPIAR");
    assert_eq!(ClipboardOperation::Move.to_string(), "MOVER");
    assert_eq!(PendingOperation::from_effect(Some(2)), PendingOperation::Move);
    assert_eq!(PendingOperation::from_effect(None).to_string(), "COPIAR");
    assert_eq!(PendingOperation::Move.to_string(), "MOVER");
    assert_eq!(keep_named(&strings(&["", "a", "", "b"])), strings(&["a", "b"]));
}

#[test]
fn a_watch_goes_on_until_it_is_told_to_stop() {
    assert_eq!(after_event(None), WatchStep::Continue);
    assert_eq!(after_event(Some(true)), WatchStep::ClearAndContinue);
    assert_eq!(after_event(Some(false)), WatchStep::Stop);
}

#[test]
fn pasting_runs_what_is_queued() {
    let mut queue = PasteQueue::new();
    assert!(matches!(queue.on_paste(&vec![], None), PasteOutcome::PassOn));
    let item = PendingItem::read(&strings(&["C:\\a", "C:\\b"]), Some(2), 9);
    assert_eq!(queue.on_clipboard_update(true, item), Some((PendingOperation::Move, 2)));
    assert_eq!(queue.pending().unwrap().sequence, 9);
    // Other contents of the clipboard leave the queue alone.
    assert_eq!(queue.on_clipboard_update(false, None), None);
    assert_eq!(queue.on_clipboard_update(true, None), None);
    assert!(matches!(queue.on_paste(&vec![true, true], None), PasteOutcome::PassOn));
    assert!(queue.pending().is_some());
    match queue.on_paste(&vec![false, true], Some("D:\\t".to_string())) {
        PasteOutcome::Run { paths, dest, operation } => {
            assert_eq!(paths, strings(&["C:\\b"]));
            assert_eq!(dest, "D:\\t");
            assert_eq!(operation, PendingOperation::Move);
        }
        _ => panic!("the paste should run"),
    }
    assert!(queue.pending().is_none());
    let item = PendingItem::read(&strings(&["C:\\a"]), None, 10);
    queue.on_clipboard_update(true, item);
    let gone = queue.on_paste(&vec![false], Some("D:\\t".to_string()));
    assert!(matches!(gone, PasteOutcome::Gone));
    assert!(queue.pending().is_none());
    assert!(PendingItem::read(&strings(&[""]), Some(2), 1).is_none());
}

#[test]
fn only_control_v_is_a_paste() {
    assert!(is_paste(true, true, VK_V, true));
    assert!(!is_paste(false, true, VK_V, true));
    assert!(!is_paste(true, false, VK_V, true));
    assert!(!is_paste(true, true, VK_V + 1, true));
    assert!(!is_paste(true, true, VK_V, false));
}

#[test]
fn destinations_of_a_paste() {
    let some = |t: &str| Some(t.to_string());
    let config = DaemonConfig::default();
    assert_eq!(config.resolve_dest(some("E"), some("D")), some("E"));
    assert_eq!(config.resolve_dest(None, some("D")), some("D"));
    assert_eq!(config.resolve_dest(None, None), None);
    let fixed = DaemonConfig { fixed_dest: some("F"), ..DaemonConfig::default() };
    assert_eq!(fixed.resolve_dest(some("E"), some("D")), some("F"));
    let silent = DaemonConfig { fallback_dialog: false, ..DaemonConfig::default() };
    assert_eq!(silent.resolve_dest(None, some("D")), None);
}

#[test]
fn the_engine_of_the_daemon() {
    let config = DaemonConfig::default().engine_config(PendingOperation::Move);
    assert_eq!(
        config,
        EngineConfig {
            swarm_concurrency: 64,
            operation_mode: OperationMode::Move,
            ..EngineConfig::default()
        }
    );
}

#[test]
fn explorer_windows_and_folders() {
    let some = |t: &str| Some(t.to_string());
    assert_eq!(get_active_explorer_path(some("a"), some("b"), some("c")), some("a"));
    assert_eq!(get_active_explorer_path(None, some("b"), some("c")), some("b"));
    assert_eq!(get_active_explorer_path(None, None, some("c")), some("c"));
    assert_eq!(get_active_explorer_path(None, None, None), None);
    assert!(is_explorer_window("CabinetWClass"));
    assert!(is_explorer_window("ExploreWClass"));
    assert!(!is_explorer_window("Notepad"));
    assert!(is_address_bar("Address bar"));
    assert!(is_address_bar("Barra de Dirección"));
    assert!(!is_address_bar("Search"));
    assert!(!is_address_bar("Addres"));
    assert_eq!(title_bases("P".to_string()), strings(&["P", "C:\\Users", "C:\\"]));
    assert_eq!(title_bases(String::new()), strings(&["C:\\Users", "C:\\"]));
}

#[test]
fn the_folder_dialog() {
    let script = folder_dialog_script("it's");
    assert!(script.contains("$d.Description = 'it\\'s';"));
    assert!(script.ends_with("{ Write-Output $d.SelectedPath }"));
    assert_eq!(chosen_folder("  C:\\x y \r\n"), Some("C:\\x y".to_string()));
    assert_eq!(chosen_folder("\r\n"), None);
}

#[test]
fn shadow_copies_are_not_made_yet() {
    assert_eq!(
        VssContext::new(false).err().unwrap(),
        "Failed to initialize COM library for VSS"
    );
    let context = VssContext::new(true).unwrap();
    assert!(context.holds_com());
    let drive = FirstComponent::Prefix("C:".to_string());
    let error = context.create_shadow_copy(&drive).unwrap_err();
    assert!(error.contains("Drive detected: C:. To complete this"));
    assert_eq!(
        context.create_shadow_copy(&FirstComponent::Missing).unwrap_err(),
        "Ruta vacía o inválida"
    );
    assert!(context.delete_shadow_copy("x").is_ok());
    assert_eq!(get_drive_letter(&drive).unwrap(), "C:");
    assert_eq!(
        get_drive_letter(&FirstComponent::Other).unwrap_err(),
        "No se pudo determinar la letra de la unidad"
    );
    assert_eq!(read_file_via_vss(true, &drive).unwrap_err(), error);
    assert!(read_file_via_vss(false, &drive).unwrap_err().starts_with("Failed"));
}
