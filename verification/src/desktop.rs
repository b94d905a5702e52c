//! What the desktop shell shows before it is connected: a greeting and the
//! snapshot of its sidebar, chat and staging panel.
use vstd::prelude::*;
use crate::text::{cat3, owned};

verus! {

/// The greeting for `name`.
pub fn greet(name: &str) -> (out: String)
    ensures
        out@ == "Hello, "@ + name@ + "! You've been greeted from Rust!"@,
{
    cat3("Hello, ", name, "! You've been greeted from Rust!")
}

/// A thread in the sidebar.
#[derive(Debug, Clone)]
pub struct SidebarThread {
    pub id: String,
    pub title: String,
    pub updated_at: String,
}

/// A workspace and its threads.
#[derive(Debug, Clone)]
pub struct WorkspaceGroup {
    pub id: String,
    pub name: String,
    pub threads: Vec<SidebarThread>,
}

/// A part of a chat message.
#[derive(Debug, Clone)]
pub enum ChatSection {
    Heading { text: String },
    Paragraph { text: String },
    List { items: Vec<String> },
    Code { code: String },
}

/// A chat message: its id, who wrote it and its parts.
#[derive(Debug, Clone)]
pub struct ChatBlock {
    pub id: String,
    pub role: String,
    pub sections: Vec<ChatSection>,
}

/// The tab the staging panel opens on.
#[derive(Debug, Clone, Copy, PartialEq, Eq, Structural)]
pub enum StageTab {
    Unstaged,
    Staged,
}

/// Everything the shell shows at start.
#[derive(Debug, Clone)]
pub struct ShellSnapshot {
    pub shell_title: String,
    pub active_thread_id: String,
    pub workspaces: Vec<WorkspaceGroup>,
    pub chat_blocks: Vec<ChatBlock>,
    pub branch: String,
    pub runtime_label: String,
    pub default_stage_tab: StageTab,
    pub unstaged_count: u8,
    pub staged_count: u8,
}

fn thread(id: &str, title: &str) -> (t: SidebarThread)
    ensures
        t.id@ == id@,
        t.title@ == title@,
        t.updated_at@ == "2h"@,
{
    SidebarThread { id: owned(id), title: owned(title), updated_at: owned("2h") }
}

fn paragraph(text: &str) -> (s: ChatSection)
    ensures
        s matches ChatSection::Paragraph { text: t } && t@ == text@,
{
    ChatSection::Paragraph { text: owned(text) }
}

fn heading(text: &str) -> (s: ChatSection)
    ensures
        s matches ChatSection::Heading { text: t } && t@ == text@,
{
    ChatSection::Heading { text: owned(text) }
}

/// A chat section as plain values: its kind (`heading`, `paragraph`,
/// `list` or `code`) and its texts.
pub open spec fn section_view(s: ChatSection) -> (Seq<char>, Seq<Seq<char>>) {
    match s {
        ChatSection::Heading { text } => ("heading"@, seq![text@]),
        ChatSection::Paragraph { text } => ("paragraph"@, seq![text@]),
        ChatSection::List { items } => ("list"@, items@.map_values(|i: String| i@)),
        ChatSection::Code { code } => ("code"@, seq![code@]),
    }
}

/// The sections of a chat block as plain values.
pub open spec fn sections_view(s: Seq<ChatSection>) -> Seq<(Seq<char>, Seq<Seq<char>>)> {
    s.map_values(|c: ChatSection| section_view(c))
}

/// The sections of the report the snapshot opens with.
pub open spec fn report_sections() -> Seq<(Seq<char>, Seq<Seq<char>>)> {
    seq![
        ("paragraph"@, seq!["The duplicate slide action is fixed and verified with local typecheck."@]),
        ("heading"@, seq!["What changed"@]),
        ("list"@, seq![
            "Added a safe active-slide update path to avoid stale references during quick navigation."@,
            "Replaced direct active slide writes with a synchronized helper in editor flow."@,
            "Kept existing behavior unchanged for normal edit workflows."@,
        ]),
        ("heading"@, seq!["Validation steps"@]),
        ("list"@, seq![
            "Create a new page and type text in it."@,
            "Click next page and immediately go back to previous page."@,
            "Confirm text remains stable and is not overwritten."@,
        ]),
        ("code"@, seq!["pnpm -C /Users/jerrychir/Desktop/dev/coding/topeduction/topedu/frontend --filter @edublocks/core typecheck"@]),
    ]
}

/// A thread as plain values: its id, title and age.
pub open spec fn thread_view(t: SidebarThread) -> (Seq<char>, Seq<char>, Seq<char>) {
    (t.id@, t.title@, t.updated_at@)
}

/// The snapshot the shell starts with; the staging panel opens on the
/// staged tab when `staged_by_default` (the `MOSAIC_DEFAULT_STAGED`
/// variable is set).
pub fn build_shell_snapshot(staged_by_default: bool) -> (s: ShellSnapshot)
    ensures
        s.shell_title@ == "Fix SlideStrip duplicate action"@,
        s.active_thread_id@ == "thread-topedu-1"@,
        s.branch@ == "main"@,
        s.runtime_label@ == "Desktop runtime via Rust snapshot"@,
        s.default_stage_tab == (if staged_by_default {
            StageTab::Staged
        } else {
            StageTab::Unstaged
        }),
        s.unstaged_count == 0,
        s.staged_count == 0,
        s.workspaces@.len() == 2,
        s.workspaces@[0].id@ == "ws-topedu"@ && s.workspaces@[0].name@ == "topedu"@,
        s.workspaces@[0].threads@.map_values(|t: SidebarThread| thread_view(t)) == seq![
            ("thread-topedu-1"@, "Fix SlideStrip duplicate action"@, "2h"@),
            ("thread-topedu-2"@, "Install skill-installer"@, "2h"@),
        ],
        s.workspaces@[1].id@ == "ws-mosaic"@ && s.workspaces@[1].name@ == "mosaic"@,
        s.workspaces@[1].threads@.map_values(|t: SidebarThread| thread_view(t)) == seq![
            ("thread-mosaic-1"@, "Build Phase 1 UI framework"@, "2h"@),
            ("thread-mosaic-2"@, "Send friendly greeting reply"@, "2h"@),
        ],
        s.chat_blocks@.len() == 3,
        s.chat_blocks@[0].id@ == "assistant-report"@ && s.chat_blocks@[0].role@ == "assistant"@,
        sections_view(s.chat_blocks@[0].sections@) == report_sections(),
        s.chat_blocks@[1].id@ == "user-followup"@ && s.chat_blocks@[1].role@ == "user"@,
        sections_view(s.chat_blocks@[1].sections@) == seq![("paragraph"@, seq!["Create a new page, switch quickly, then return. The previous page content should never be replaced."@])],
        s.chat_blocks@[2].id@ == "assistant-next"@ && s.chat_blocks@[2].role@ == "assistant"@,
        sections_view(s.chat_blocks@[2].sections@) == seq![("paragraph"@, seq!["I can continue with the next UI phase and wire the component editing workflow."@])],
{
    let mut topedu_threads: Vec<SidebarThread> = Vec::new();
    topedu_threads.push(thread("thread-topedu-1", "Fix SlideStrip duplicate action"));
    topedu_threads.push(thread("thread-topedu-2", "Install skill-installer"));
    let mut mosaic_threads: Vec<SidebarThread> = Vec::new();
    mosaic_threads.push(thread("thread-mosaic-1", "Build Phase 1 UI framework"));
    mosaic_threads.push(thread("thread-mosaic-2", "Send friendly greeting reply"));
    assert(topedu_threads@.map_values(|t: SidebarThread| thread_view(t)) =~= seq![
        ("thread-topedu-1"@, "Fix SlideStrip duplicate action"@, "2h"@),
        ("thread-topedu-2"@, "Install skill-installer"@, "2h"@),
    ]);
    assert(mosaic_threads@.map_values(|t: SidebarThread| thread_view(t)) =~= seq![
        ("thread-mosaic-1"@, "Build Phase 1 UI framework"@, "2h"@),
        ("thread-mosaic-2"@, "Send friendly greeting reply"@, "2h"@),
    ]);
    let mut workspaces: Vec<WorkspaceGroup> = Vec::new();
    workspaces.push(
        WorkspaceGroup { id: owned("ws-topedu"), name: owned("topedu"), threads: topedu_threads },
    );
    workspaces.push(
        WorkspaceGroup { id: owned("ws-mosaic"), name: owned("mosaic"), threads: mosaic_threads },
    );

    let mut changed: Vec<String> = Vec::new();
    changed.push(
        owned(
            "Added a safe active-slide update path to avoid stale references during quick navigation.",
        ),
    );
    changed.push(
        owned("Replaced direct active slide writes with a synchronized helper in editor flow."),
    );
    changed.push(owned("Kept existing behavior unchanged for normal edit workflows."));
    let mut steps: Vec<String> = Vec::new();
    steps.push(owned("Create a new page and type text in it."));
    steps.push(owned("Click next page and immediately go back to previous page."));
    steps.push(owned("Confirm text remains stable and is not overwritten."));
    assert(changed@.map_values(|i: String| i@) =~= seq![
        "Added a safe active-slide update path to avoid stale references during quick navigation."@,
        "Replaced direct active slide writes with a synchronized helper in editor flow."@,
        "Kept existing behavior unchanged for normal edit workflows."@,
    ]);
    assert(steps@.map_values(|i: String| i@) =~= seq![
        "Create a new page and type text in it."@,
        "Click next page and immediately go back to previous page."@,
        "Confirm text remains stable and is not overwritten."@,
    ]);
    let mut report: Vec<ChatSection> = Vec::new();
    report.push(
        paragraph("The duplicate slide action is fixed and verified with local typecheck."),
    );
    report.push(heading("What changed"));
    report.push(ChatSection::List { items: changed });
    report.push(heading("Validation steps"));
    report.push(ChatSection::List { items: steps });
    report.push(
        ChatSection::Code {
            code: owned(
                "pnpm -C /Users/jerrychir/Desktop/dev/coding/topeduction/topedu/frontend --filter @edublocks/core typecheck",
            ),
        },
    );
    let mut followup: Vec<ChatSection> = Vec::new();
    followup.push(
        paragraph(
            "Create a new page, switch quickly, then return. The previous page content should never be replaced.",
        ),
    );
    let mut next: Vec<ChatSection> = Vec::new();
    next.push(
        paragraph(
            "I can continue with the next UI phase and wire the component editing workflow.",
        ),
    );
    assert(section_view(report@[2]) == report_sections()[2]);
    assert(section_view(report@[4]) == report_sections()[4]);
    assert(sections_view(report@) =~= report_sections());
    assert(sections_view(followup@) =~= seq![("paragraph"@, seq!["Create a new page, switch quickly, then return. The previous page content should never be replaced."@])]);
    assert(sections_view(next@) =~= seq![("paragraph"@, seq!["I can continue with the next UI phase and wire the component editing workflow."@])]);
    let mut chat_blocks: Vec<ChatBlock> = Vec::new();
    chat_blocks.push(
        ChatBlock { id: owned("assistant-report"), role: owned("assistant"), sections: report },
    );
    chat_blocks.push(
        ChatBlock { id: owned("user-followup"), role: owned("user"), sections: followup },
    );
    chat_blocks.push(
        ChatBlock { id: owned("assistant-next"), role: owned("assistant"), sections: next },
    );
    ShellSnapshot {
        shell_title: owned("Fix SlideStrip duplicate action"),
        active_thread_id: owned("thread-topedu-1"),
        workspaces,
        chat_blocks,
        branch: owned("main"),
        runtime_label: owned("Desktop runtime via Rust snapshot"),
        default_stage_tab: if staged_by_default {
            StageTab::Staged
        } else {
            StageTab::Unstaged
        },
        unstaged_count: 0,
        staged_count: 0,
    }
}

} // verus!
