//! What the interface remembers of a project between runs.
use vstd::prelude::*;

verus! {

#[derive(Debug, Clone)]
pub struct UiState {
    pub active_project_id: String,
    pub sidebar_width: u16,
}

impl UiState {
    pub fn new(active_project_id: String, sidebar_width: u16) -> (s: UiState)
        ensures
            s.active_project_id == active_project_id,
            s.sidebar_width == sidebar_width,
    {
        UiState { active_project_id, sidebar_width }
    }
}

} // verus!
