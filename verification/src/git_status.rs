use vstd::prelude::*;

verus! {

// Per-file status bits, as libgit2 reports them.
pub const INDEX_NEW: u32 = 1;
pub const INDEX_MODIFIED: u32 = 2;
pub const INDEX_DELETED: u32 = 4;
pub const INDEX_RENAMED: u32 = 8;
pub const INDEX_TYPECHANGE: u32 = 16;
pub const WT_NEW: u32 = 128;
pub const WT_MODIFIED: u32 = 256;
pub const WT_DELETED: u32 = 512;
pub const WT_TYPECHANGE: u32 = 1024;
pub const WT_RENAMED: u32 = 2048;

/// A file counts as staged when any index-side bit is set.
pub const STAGED_MASK: u32 = INDEX_NEW | INDEX_MODIFIED | INDEX_DELETED | INDEX_RENAMED
    | INDEX_TYPECHANGE;

/// A file counts as changed when any worktree-side bit is set.
pub const CHANGED_MASK: u32 = WT_NEW | WT_MODIFIED | WT_DELETED | WT_TYPECHANGE | WT_RENAMED;

pub open spec fn spec_is_flagged(bits: u32, mask: u32) -> bool {
    bits & mask != 0
}

/// How many entries have a bit of `mask` set.
pub open spec fn spec_count_flagged(s: Seq<u32>, mask: u32) -> nat
    decreases s.len(),
{
    if s.len() == 0 {
        0
    } else {
        spec_count_flagged(s.drop_last(), mask) + if spec_is_flagged(s.last(), mask) {
            1nat
        } else {
            0nat
        }
    }
}

/// A project's working-tree summary.
#[derive(Debug)]
pub struct GitStatus {
    pub is_git_repo: bool,
    pub branch: Option<String>,
    pub has_upstream: bool,
    pub ahead: usize,
    pub behind: usize,
    pub changed_files: usize,
    pub staged_files: usize,
    pub last_commit: Option<String>,
    pub local_branches: Vec<String>,
}

/// Counts the staged and changed files among the per-file status bits.
pub fn count_file_stats(statuses: &Vec<u32>) -> (r: (usize, usize))
    ensures
        r.0 == spec_count_flagged(statuses@, STAGED_MASK),
        r.1 == spec_count_flagged(statuses@, CHANGED_MASK),
{
    let n = statuses.len();
    let mut staged: usize = 0;
    let mut changed: usize = 0;
    let mut i: usize = 0;
    proof {
        assert(statuses@.take(0) =~= Seq::<u32>::empty());
    }
    while i < n
        invariant
            i <= n,
            n == statuses@.len(),
            staged <= i,
            changed <= i,
            staged == spec_count_flagged(statuses@.take(i as int), STAGED_MASK),
            changed == spec_count_flagged(statuses@.take(i as int), CHANGED_MASK),
        decreases n - i,
    {
        let bits = statuses[i];
        proof {
            assert(statuses@.take(i + 1 as int).drop_last() =~= statuses@.take(i as int));
            assert(statuses@.take(i + 1 as int).last() == statuses@[i as int]);
        }
        if bits & STAGED_MASK != 0 {
            staged = staged + 1;
        }
        if bits & CHANGED_MASK != 0 {
            changed = changed + 1;
        }
        i = i + 1;
    }
    proof {
        assert(statuses@.take(n as int) =~= statuses@);
    }
    (staged, changed)
}

impl GitStatus {
    /// The summary of a path that is not a git repository.
    pub fn absent() -> (r: GitStatus)
        ensures
            !r.is_git_repo,
            r.branch is None,
            !r.has_upstream,
            r.ahead == 0,
            r.behind == 0,
            r.changed_files == 0,
            r.staged_files == 0,
            r.last_commit is None,
            r.local_branches@.len() == 0,
    {
        GitStatus {
            is_git_repo: false,
            branch: None,
            has_upstream: false,
            ahead: 0,
            behind: 0,
            changed_files: 0,
            staged_files: 0,
            last_commit: None,
            local_branches: Vec::new(),
        }
    }

    /// Assembles a repository's summary from what the repository
    /// reports: head and last-commit labels, the per-file status bits,
    /// the ahead/behind pair when an upstream exists, and the local
    /// branch names.
    pub fn assemble(
        branch: Option<String>,
        last_commit: Option<String>,
        statuses: &Vec<u32>,
        upstream: Option<(usize, usize)>,
        local_branches: Vec<String>,
    ) -> (r: GitStatus)
        ensures
            r.is_git_repo,
            r.branch == branch,
            r.last_commit == last_commit,
            r.staged_files == spec_count_flagged(statuses@, STAGED_MASK),
            r.changed_files == spec_count_flagged(statuses@, CHANGED_MASK),
            match upstream {
                Some(ab) => r.has_upstream && r.ahead == ab.0 && r.behind == ab.1,
                None => !r.has_upstream && r.ahead == 0 && r.behind == 0,
            },
            r.local_branches == local_branches,
    {
        let (staged_files, changed_files) = count_file_stats(statuses);
        let (ahead, behind, has_upstream) = match upstream {
            Some((a, b)) => (a, b, true),
            None => (0, 0, false),
        };
        GitStatus {
            is_git_repo: true,
            branch,
            has_upstream,
            ahead,
            behind,
            changed_files,
            staged_files,
            last_commit,
            local_branches,
        }
    }
}

} // verus!
