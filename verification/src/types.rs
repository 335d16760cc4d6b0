//! The records the service exchanges with the client, held as plain values,
//! and the locally stored configuration.

use vstd::prelude::*;

verus! {

/// An account as the service reports it.
#[derive(Clone, Debug)]
pub struct User {
    pub id: u32,
    pub username: String,
    pub email: String,
    pub created_at: String,
}

/// A project as the service reports it.
#[derive(Clone, Debug)]
pub struct Project {
    pub id: u32,
    pub name: String,
    pub user_id: u32,
    pub created_at: String,
}

/// The three priorities a task can carry.
#[derive(Clone, Copy, PartialEq, Eq, Structural, Debug)]
pub enum PriorityType {
    High,
    Medium,
    Low,
}

/// A task as the service reports it.
#[derive(Clone, Debug)]
pub struct Task {
    pub id: u32,
    pub title: String,
    pub description: Option<String>,
    pub due: Option<String>,
    pub priority: Option<PriorityType>,
    pub project_id: u32,
    pub is_done: bool,
    pub created_at: String,
}

/// The locally stored configuration: the active project and the access
/// token's expiry stamp.
#[derive(Clone, Debug)]
pub struct Config {
    pub current_project: String,
    pub current_project_id: u32,
    pub expires_at: String,
}

impl Config {
    /// An active project has been chosen; the identifier zero is the
    /// stand-in for "none set yet".
    pub fn has_active_project(&self) -> (b: bool)
        ensures
            b == (self.current_project_id != 0),
    {
        self.current_project_id != 0
    }
}

} // verus!
