//! The command-line surface as plain data: every command the client accepts,
//! with its arguments. The argument parser in the binary builds these.

use vstd::prelude::*;
use crate::types::PriorityType;

verus! {

/// A parsed invocation of the client.
#[derive(Clone, Debug)]
pub struct Cli {
    pub command: Commands,
}

/// Every command the client accepts.
#[derive(Clone, Debug)]
pub enum Commands {
    Projects,
    Use { pid: u32 },
    Cwp,
    New { kind: NewProject },
    Add { title: String, priority: Option<Priority>, desc: Option<String>, due: Option<String> },
    Tasks { all: bool },
    Done { task_id: u32 },
    Edit {
        task_id: u32,
        title: Option<String>,
        priority: Option<Priority>,
        desc: Option<String>,
        due: Option<String>,
        done: Option<bool>,
    },
    Delete { task_id: u32 },
    Login,
    Logout,
    Whoami,
}

/// What can be created with the "new" command.
#[derive(Clone, Debug)]
pub enum NewProject {
    Project { name: String },
}

/// A task priority as given on the command line.
#[derive(Clone, Copy, PartialEq, Eq, Structural, Debug)]
pub enum Priority {
    High,
    Medium,
    Low,
}

impl Priority {
    /// The service-side priority this argument names.
    pub fn to_priority_type(&self) -> (p: PriorityType)
        ensures
            p == match *self {
                Priority::High => PriorityType::High,
                Priority::Medium => PriorityType::Medium,
                Priority::Low => PriorityType::Low,
            },
    {
        match self {
            Priority::High => PriorityType::High,
            Priority::Medium => PriorityType::Medium,
            Priority::Low => PriorityType::Low,
        }
    }
}

} // verus!
