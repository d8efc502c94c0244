use vstd::prelude::*;
use crate::models::FocusBehaviour;

verus! {

/// One key binding the configuration maps to a command name.
#[derive(Clone, Debug)]
pub struct Keybind {
    pub command: String,
    pub value: Option<String>,
    pub modifier: Vec<String>,
    pub key: String,
}

/// A named, on-demand floating window bound to a command the manager spawns.
#[derive(Clone, Debug)]
pub struct ScratchPad {
    pub name: String,
    pub value: String,
}

/// A workspace rectangle as the configuration declares it.
#[derive(Clone, Copy, Debug, PartialEq, Eq, Structural)]
pub struct WorkspaceConfig {
    pub x: i32,
    pub y: i32,
    pub h: i32,
    pub w: i32,
}

/// The capability set the manager consumes from its configuration
/// collaborator. The manager is generic over any implementer; the embedding
/// program supplies one backed by its configuration files.
pub trait Config: Sized {
    /// The key bindings with the mod key already substituted.
    fn mapped_bindings(&self) -> Vec<Keybind>;

    /// The display names of the tags, in order; the first is the fallback
    /// destination for windows that match no workspace.
    fn get_list_of_tags(&self) -> Vec<String>;

    fn get_list_of_scratchpads(&self) -> Vec<ScratchPad>;

    fn workspaces(&self) -> Option<Vec<WorkspaceConfig>>;

    fn focus_behaviour(&self) -> FocusBehaviour;

    fn mousekey(&self) -> String;

    /// Whether going to the tag already shown swaps back to the previous tag.
    fn disable_current_tag_swap(&self) -> bool;

    /// An optional shell command the embedding program runs when a window is
    /// created.
    fn on_new_window_cmd(&self) -> Option<String>;
}

} // verus!
