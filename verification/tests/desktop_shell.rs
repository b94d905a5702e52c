use mosaic::desktop::{build_shell_snapshot, greet, ChatSection, StageTab};

#[test]
fn greeting_names_the_caller() {
    assert_eq!(greet("Ada"), "Hello, Ada! You've been greeted from Rust!");
}

#[test]
fn snapshot_opens_on_the_configured_tab() {
    let s = build_shell_snapshot(false);
    assert_eq!(s.default_stage_tab, StageTab::Unstaged);
    assert_eq!(build_shell_snapshot(true).default_stage_tab, StageTab::Staged);
    assert_eq!(s.active_thread_id, "thread-topedu-1");
    assert_eq!(s.workspaces.len(), 2);
    assert_eq!(s.workspaces[1].threads[1].title, "Send friendly greeting reply");
    assert_eq!(s.chat_blocks.len(), 3);
    assert!(matches!(&s.chat_blocks[0].sections[2], ChatSection::List { items } if items.len() == 3));
    assert_eq!((s.unstaged_count, s.staged_count), (0, 0));
}
