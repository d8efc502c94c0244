use vstd::prelude::*;

verus! {

/// The kind a client declares for its window. `Dock` and `Desktop` windows
/// never take part in tiling placement.
#[derive(Clone, Copy, Debug, PartialEq, Eq, Structural)]
pub enum WindowType {
    Desktop,
    Dock,
    Toolbar,
    Menu,
    Utility,
    Splash,
    Dialog,
    Normal,
}

/// The focus policy the manager runs under.
#[derive(Clone, Copy, Debug, PartialEq, Eq, Structural)]
pub enum FocusBehaviour {
    Sloppy,
    ClickTo,
    Driven,
}

/// The placement algorithm active on a workspace.
#[derive(Clone, Copy, Debug, PartialEq, Eq, Structural)]
pub enum Layout {
    MainAndVertStack,
    MainAndDeck,
    Monocle,
}

/// Manager-wide interaction state; it gates which windows are re-rendered.
#[derive(Clone, Copy, Debug, PartialEq, Eq, Structural)]
pub enum Mode {
    Normal,
    ResizingWindow(u64),
    MovingWindow(u64),
}

/// A queued instruction for the display-protocol collaborator, executed in
/// FIFO order after each event batch.
#[derive(Clone, Copy, Debug, PartialEq, Eq, Structural)]
pub enum DisplayAction {
    /// Mark the window managed; the flag asks the server to warp focus to it.
    AddedWindow(u64, bool),
    /// Tell the server which tag (desktop) the window belongs to.
    SetWindowTags(u64, u64),
    /// Make the window fullscreen (`true`) or plain (`false`).
    SetFullScreen(u64, bool),
    /// Ask the server to focus whatever window is under the cursor.
    FocusWindowUnderCursor,
    /// Leave a resize or move interaction.
    NormalMode,
}

/// A physical output: the root window handle and the screen rectangle.
#[derive(Clone, Copy, Debug, PartialEq, Eq, Structural)]
pub struct Screen {
    pub root: u64,
    pub xyhw: crate::geometry::Xyhw,
}

/// A label grouping windows; the first tag is the fallback destination for
/// windows that match no workspace.
#[derive(Clone, Debug)]
pub struct Tag {
    pub id: u64,
    pub label: String,
}

/// The tag reserved for scratchpad windows hidden from normal tag listings.
pub const NSP_TAG: u64 = 0;

} // verus!
