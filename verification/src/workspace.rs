//! What a workspace tells about its windows and panes.
use crate::session::SessionState;
use vstd::prelude::*;

verus! {

/// Globally stable number of a pane.
pub type PaneId = u32;

/// Where the tab strip of a workspace stands.
#[derive(Clone, Copy, Debug, PartialEq, Eq, Structural)]
pub enum TabPosition {
    Top,
    Bottom,
}

impl TabPosition {
    /// The word for the position.
    pub open spec fn word(self) -> Seq<char> {
        match self {
            TabPosition::Top => "top"@,
            TabPosition::Bottom => "bottom"@,
        }
    }

    /// The word for the position.
    pub fn as_str(self) -> (word: &'static str)
        ensures
            word@ == self.word(),
    {
        match self {
            TabPosition::Top => "top",
            TabPosition::Bottom => "bottom",
        }
    }
}

/// Side of a pane.
#[derive(Clone, Copy, Debug, PartialEq, Eq, Structural)]
pub enum Direction {
    Left,
    Right,
    Up,
    Down,
}

/// What happened in a window since it was last seen.
#[derive(Clone, Copy, Debug, PartialEq, Eq, Structural)]
pub enum ActivityKind {
    Output,
    Bell,
    Exit,
}

impl ActivityKind {
    /// The word for the activity.
    pub open spec fn word(self) -> Seq<char> {
        match self {
            ActivityKind::Output => "output"@,
            ActivityKind::Bell => "bell"@,
            ActivityKind::Exit => "exit"@,
        }
    }

    /// The word for the activity.
    pub fn as_str(self) -> (word: &'static str)
        ensures
            word@ == self.word(),
    {
        match self {
            ActivityKind::Output => "output",
            ActivityKind::Bell => "bell",
            ActivityKind::Exit => "exit",
        }
    }
}

/// One pane of a workspace.
#[derive(Debug)]
pub struct PaneStatus {
    pub id: PaneId,
    pub active: bool,
    pub visible: bool,
    pub state: SessionState,
    pub x: u16,
    pub y: u16,
    pub cols: u16,
    pub rows: u16,
    pub title: String,
    pub command: Vec<String>,
    pub cwd: String,
}

/// One window of a workspace.
#[derive(Debug)]
pub struct WindowStatus {
    pub index: usize,
    pub name: String,
    pub active: bool,
    pub pane_count: usize,
    pub active_pane: Option<PaneId>,
    pub zoomed_pane: Option<PaneId>,
    pub activity: bool,
    pub activity_kinds: Vec<ActivityKind>,
    pub cols: u16,
    pub rows: u16,
}

/// Where a pane stands in its workspace.
#[derive(Debug)]
pub struct WorkspaceContext {
    pub session: String,
    pub workspace: String,
    pub window_id: u32,
    pub window: String,
    pub window_index: usize,
    pub pane: PaneId,
    pub window_active: bool,
    pub pane_active: bool,
    pub tab_position: TabPosition,
}

/// Positions and activities have their own words.
pub proof fn lemma_workspace_words()
    ensures
        TabPosition::Top.word() == "top"@,
        TabPosition::Bottom.word() == "bottom"@,
        ActivityKind::Output.word() == "output"@,
        ActivityKind::Bell.word() == "bell"@,
        ActivityKind::Exit.word() == "exit"@,
{
}

} // verus!
