//! The projects that Paper publishes.

use vstd::prelude::*;

verus! {

/// A project of the Paper API.
#[derive(Debug, Clone, Copy, PartialEq, Eq, Structural)]
pub enum Project {
    Folia,
    Paper,
    Travertine,
    Velocity,
    Waterfall,
}

/// The identifier of a project, as the Paper API writes it.
pub open spec fn project_id(project: Project) -> Seq<char> {
    match project {
        Project::Folia => "folia"@,
        Project::Paper => "paper"@,
        Project::Travertine => "travertine"@,
        Project::Velocity => "velocity"@,
        Project::Waterfall => "waterfall"@,
    }
}

impl Project {
    #[must_use]
    pub fn as_str(&self) -> (id: &'static str)
        ensures
            id@ == project_id(*self),
    {
        match *self {
            Self::Folia => "folia",
            Self::Paper => "paper",
            Self::Travertine => "travertine",
            Self::Velocity => "velocity",
            Self::Waterfall => "waterfall",
        }
    }
}

} // verus!
