use sc4_setup::labels::{download_label, install_label, ram_label, version_note};
use sc4_setup::plugins_check::{FolderAction, FolderCheck, FolderEvent, PluginsVerdict};
use sc4_setup::progress::{checkbox_locked, next_checkbox_id, record_filled, step_locked, step_shown};

#[test]
fn labels() {
    assert_eq!(ram_label(""), "At least 8 GB of RAM");
    assert_eq!(ram_label("16"), "16 GB of RAM");
    assert_eq!(version_note(""), None);
    assert_eq!(version_note("1.1.641.0"), Some(" (version: 1.1.641.0)".to_string()));
    assert_eq!(download_label("4GB Patch"), "Download 4GB Patch");
    assert_eq!(install_label("4GB Patch"), "Unzip & Install 4GB Patch");
}

#[test]
fn steps_unlock_in_order() {
    let mut ids = vec![];
    let mut id = 0u8;
    for _ in 0..3 {
        ids.push(id);
        id = next_checkbox_id(id);
    }
    assert_eq!(ids, vec![0, 1, 2]);
    assert_eq!(next_checkbox_id(255), 0);
    let mut checked = 0u8;
    assert!(!step_locked(checked, 0) && step_shown(checked, 0));
    assert!(step_locked(checked, 1) && !step_shown(checked, 1));
    checked = record_filled(checked);
    assert!(!step_locked(checked, 1) && step_locked(checked, 2));
    assert!(!step_locked(checked, 0));
    assert!(checkbox_locked(""));
    assert!(!checkbox_locked("true"));
}

fn run(events: Vec<FolderEvent>) -> (FolderCheck, Vec<Option<FolderAction>>) {
    let mut state = FolderCheck::Picking;
    let mut actions = vec![];
    for e in events {
        let (s, a) = state.step(e);
        state = s;
        actions.push(a);
    }
    (state, actions)
}

fn entry(n: &str) -> FolderEvent {
    FolderEvent::Entry(Some(n.to_string()))
}

#[test]
fn empty_plugins_folder_passes() {
    let (state, actions) = run(vec![
        FolderEvent::Picked("SimCity 4".to_string()),
        entry("Regions"),
        entry("Plugins"),
        FolderEvent::EntriesEnd,
        FolderEvent::EntriesEnd,
    ]);
    assert!(matches!(state, FolderCheck::Done(PluginsVerdict::Empty)));
    assert_eq!(
        actions,
        vec![
            Some(FolderAction::ReadFolderEntry),
            Some(FolderAction::ReadFolderEntry),
            Some(FolderAction::ReadFolderEntry),
            Some(FolderAction::OpenPlugins),
            Some(FolderAction::Report(PluginsVerdict::Empty)),
        ]
    );
}

#[test]
fn plugins_folder_with_files_fails() {
    let (state, _) = run(vec![
        FolderEvent::Picked("SimCity 4".to_string()),
        entry("Plugins"),
        FolderEvent::EntriesEnd,
        entry("mod.dat"),
        FolderEvent::EntriesEnd,
    ]);
    assert!(matches!(state, FolderCheck::Done(PluginsVerdict::NotEmpty)));
}

#[test]
fn missing_plugins_and_wrong_folder() {
    let (state, _) = run(vec![
        FolderEvent::Picked("SimCity 4".to_string()),
        entry("Regions"),
        FolderEvent::Entry(None),
        FolderEvent::EntriesEnd,
    ]);
    assert!(matches!(state, FolderCheck::Done(PluginsVerdict::Missing)));
    let (state, actions) = run(vec![FolderEvent::Picked("Documents".to_string()), entry("Plugins")]);
    assert!(matches!(state, FolderCheck::Done(PluginsVerdict::WrongFolder)));
    assert_eq!(actions, vec![Some(FolderAction::Report(PluginsVerdict::WrongFolder)), None]);
}

#[test]
fn failure_ends_the_check() {
    let (state, actions) = run(vec![
        FolderEvent::Picked("SimCity 4".to_string()),
        FolderEvent::Failed,
        FolderEvent::EntriesEnd,
    ]);
    assert!(matches!(state, FolderCheck::Done(PluginsVerdict::Failed)));
    assert_eq!(actions[1], Some(FolderAction::Report(PluginsVerdict::Failed)));
    assert_eq!(actions[2], None);
}

#[test]
fn successive_ids_are_distinct_and_wrap() {
    let mut id = 250u8;
    let mut seen = vec![];
    for _ in 0..256 {
        seen.push(id);
        id = next_checkbox_id(id);
    }
    assert_eq!(&seen[..7], &[250, 251, 252, 253, 254, 255, 0]);
    let mut sorted = seen.clone();
    sorted.sort();
    sorted.dedup();
    assert_eq!(sorted.len(), 256);
    assert_eq!(id, 250);
}

#[test]
fn count_grows_by_one_per_fill() {
    let mut count = 250u8;
    for _ in 0..5 {
        count = record_filled(count);
    }
    assert_eq!(count, 255);
}
