//! What is given to change teams, their sessions and their tasks.
use vstd::prelude::*;

verus! {

/// What to change of a team; what is not given stays.
#[derive(Debug, Clone, PartialEq, Eq)]
pub struct UpdateTeamParams {
    pub name: Option<String>,
    pub workspace: Option<String>,
    pub agents: Option<String>,
    pub lead_agent_id: Option<String>,
    pub session_mode: Option<String>,
    pub project_id: Option<String>,
    pub folder_id: Option<String>,
    pub active_session_id: Option<String>,
}

impl Default for UpdateTeamParams {
    fn default() -> (params: Self)
        ensures
            params == (UpdateTeamParams {
                name: None,
                workspace: None,
                agents: None,
                lead_agent_id: None,
                session_mode: None,
                project_id: None,
                folder_id: None,
                active_session_id: None,
            }),
    {
        UpdateTeamParams {
            name: None,
            workspace: None,
            agents: None,
            lead_agent_id: None,
            session_mode: None,
            project_id: None,
            folder_id: None,
            active_session_id: None,
        }
    }
}

/// What to change of a session of a team; what is not given stays.
#[derive(Debug, Clone, PartialEq, Eq)]
pub struct UpdateTeamSessionParams {
    pub name: Option<String>,
}

impl Default for UpdateTeamSessionParams {
    fn default() -> (params: Self)
        ensures
            params == (UpdateTeamSessionParams {
                name: None,
            }),
    {
        UpdateTeamSessionParams {
            name: None,
        }
    }
}

/// What to change of a task; what is not given stays.
#[derive(Debug, Clone, PartialEq, Eq)]
pub struct UpdateTaskParams {
    pub status: Option<String>,
    pub description: Option<String>,
    pub owner: Option<String>,
    pub blocked_by: Option<String>,
    pub metadata: Option<String>,
}

impl Default for UpdateTaskParams {
    fn default() -> (params: Self)
        ensures
            params == (UpdateTaskParams {
                status: None,
                description: None,
                owner: None,
                blocked_by: None,
                metadata: None,
            }),
    {
        UpdateTaskParams {
            status: None,
            description: None,
            owner: None,
            blocked_by: None,
            metadata: None,
        }
    }
}

} // verus!
