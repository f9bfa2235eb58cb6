use vstd::prelude::*;

verus! {

/// A registered project directory.
#[derive(Debug, Clone)]
pub struct Project {
    pub id: String,
    pub name: String,
    pub path: String,
    pub description: Option<String>,
    pub github_repo: Option<String>,
    pub group_id: Option<String>,
    pub created_at: i64,
}

/// A project together with what its working tree reports.
#[derive(Debug)]
pub struct ProjectWithGit {
    pub project: Project,
    pub branch: Option<String>,
    pub last_commit: Option<String>,
    pub has_spawn_md: bool,
}

/// A session's durable record: the fallback the scrollback query reads
/// after the live entry is gone.
#[derive(Debug, Clone)]
pub struct AgentSession {
    pub id: String,
    pub project_id: String,
    pub name: Option<String>,
    pub status: String,
    pub scrollback: Option<String>,
    pub created_at: i64,
    pub updated_at: i64,
}

/// One tracked piece of work inside a project.
#[derive(Debug, Clone)]
pub struct Task {
    pub id: String,
    pub project_id: String,
    pub source: String,
    pub title: String,
    pub description: Option<String>,
    pub status: String,
    pub github_issue_number: Option<i64>,
    pub session_id: Option<String>,
    pub created_at: i64,
    pub updated_at: i64,
}

/// A named group that projects can be filed under.
#[derive(Debug, Clone)]
pub struct ProjectGroup {
    pub id: String,
    pub name: String,
    pub created_at: i64,
    pub updated_at: i64,
}

/// A launchable agent command, with its arguments held as a JSON array
/// in text form.
#[derive(Debug, Clone)]
pub struct AgentConfig {
    pub id: String,
    pub name: String,
    pub command: String,
    pub args: String,
    pub is_default: bool,
    pub created_at: i64,
}

} // verus!
