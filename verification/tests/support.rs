use spawn_core::errors::PtyError;
use spawn_core::git_status::{count_file_stats, GitStatus};
use spawn_core::session::SessionStatus;
use spawn_core::text::str_eq;
use spawn_core::validate::{group_name_valid, markdown_filename_is_safe};

#[test]
fn test_count_file_stats_masks() {
    // 1 = new in index, 2 = modified in index, 256 = modified in the
    // worktree, 129 = new in index and new in the worktree.
    let statuses: Vec<u32> = vec![1, 2, 256, 129, 0];
    let (staged, changed) = count_file_stats(&statuses);
    assert_eq!(staged, 3);
    assert_eq!(changed, 2);
}

#[test]
fn test_git_status_absent() {
    let s = GitStatus::absent();
    assert!(!s.is_git_repo);
    assert_eq!(s.branch, None);
    assert!(!s.has_upstream);
    assert_eq!((s.ahead, s.behind), (0, 0));
    assert_eq!((s.changed_files, s.staged_files), (0, 0));
    assert_eq!(s.last_commit, None);
    assert!(s.local_branches.is_empty());
}

#[test]
fn test_git_status_assemble() {
    let statuses: Vec<u32> = vec![1, 256];
    let s = GitStatus::assemble(
        Some("main".to_string()),
        Some("fix things".to_string()),
        &statuses,
        Some((2, 1)),
        vec!["main".to_string(), "dev".to_string()],
    );
    assert!(s.is_git_repo);
    assert_eq!(s.branch.as_deref(), Some("main"));
    assert!(s.has_upstream);
    assert_eq!((s.ahead, s.behind), (2, 1));
    assert_eq!((s.staged_files, s.changed_files), (1, 1));
    assert_eq!(s.local_branches.len(), 2);
}

#[test]
fn test_git_status_assemble_without_upstream() {
    let s = GitStatus::assemble(None, None, &Vec::new(), None, Vec::new());
    assert!(s.is_git_repo);
    assert!(!s.has_upstream);
    assert_eq!((s.ahead, s.behind), (0, 0));
}

#[test]
fn test_group_name_validation() {
    assert!(group_name_valid("Work"));
    assert!(group_name_valid("  W  "));
    assert!(!group_name_valid("  "));
    assert!(!group_name_valid(""));
    assert!(!group_name_valid("\t\n\u{a0}"));
}

#[test]
fn test_markdown_filename_validation() {
    assert!(markdown_filename_is_safe("notes.md"));
    assert!(markdown_filename_is_safe("a.b.md"));
    assert!(!markdown_filename_is_safe("../secrets.md"));
    assert!(!markdown_filename_is_safe("a/b.md"));
    assert!(!markdown_filename_is_safe("a\\b.md"));
    assert!(!markdown_filename_is_safe("a..b"));
}

#[test]
fn test_str_eq_by_characters() {
    assert!(str_eq("shell-1", "shell-1"));
    assert!(!str_eq("shell-1", "shell-2"));
    assert!(!str_eq("shell", "shell-1"));
    assert!(str_eq("", ""));
}

#[test]
fn test_status_labels() {
    assert_eq!(SessionStatus::Running.label(), "running");
    assert_eq!(SessionStatus::Idle.label(), "idle");
    assert_eq!(SessionStatus::Stopped.label(), "stopped");
    assert!(SessionStatus::Stopped.is_stopped());
    assert!(!SessionStatus::Running.is_stopped());
}

#[test]
fn test_error_messages() {
    assert_eq!(PtyError::NotFound.message(), "session not found");
    assert_ne!(PtyError::SpawnFailed.message(), PtyError::Io.message());
}
