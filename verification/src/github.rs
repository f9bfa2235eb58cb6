use vstd::prelude::*;
use vstd::seq_lib::*;
use vstd::string::StrSliceExecFns;

verus! {

/// One issue as the tracker reports it.
#[derive(Debug, Clone)]
pub struct GithubIssue {
    pub number: u64,
    pub title: String,
    pub body: Option<String>,
    pub state: String,
    pub html_url: String,
}

/// Whether the string ends in `.git`.
pub open spec fn spec_has_git_suffix(s: Seq<char>) -> bool {
    &&& s.len() >= 4
    &&& s[s.len() - 4] == '.'
    &&& s[s.len() - 3] == 'g'
    &&& s[s.len() - 2] == 'i'
    &&& s[s.len() - 1] == 't'
}

/// The string with every trailing `.git` removed.
pub open spec fn spec_trim_git(s: Seq<char>) -> Seq<char>
    decreases s.len(),
{
    if spec_has_git_suffix(s) {
        spec_trim_git(s.take(s.len() - 4))
    } else {
        s
    }
}

/// Splits `owner/rest` at the first slash; both halves must be
/// non-empty.
pub open spec fn spec_split_owner_repo(c: Seq<char>) -> Option<(Seq<char>, Seq<char>)> {
    match c.index_of_first('/') {
        Some(i) => {
            let owner = c.take(i);
            let repo = c.skip(i + 1);
            if owner.len() > 0 && repo.len() > 0 {
                Some((owner, repo))
            } else {
                None
            }
        },
        None => None,
    }
}

/// What follows a recognised host prefix: trailing `.git` trimmed, then
/// split into owner and repository at the first slash.
pub open spec fn spec_parse_tail(rest: Seq<char>) -> Option<(Seq<char>, Seq<char>)> {
    spec_split_owner_repo(spec_trim_git(rest))
}

/// The owner and repository named by a remote URL, accepting the
/// `https://github.com/owner/repo[.git]` and
/// `git@github.com:owner/repo[.git]` shapes and nothing else.
pub open spec fn spec_parse_repo(url: Seq<char>) -> Option<(Seq<char>, Seq<char>)> {
    let https = "https://github.com/"@;
    let ssh = "git@github.com:"@;
    if https.is_prefix_of(url) && spec_parse_tail(url.skip(https.len() as int)) is Some {
        spec_parse_tail(url.skip(https.len() as int))
    } else if ssh.is_prefix_of(url) && spec_parse_tail(url.skip(ssh.len() as int)) is Some {
        spec_parse_tail(url.skip(ssh.len() as int))
    } else {
        None
    }
}

/// Strips `p` off the front of `s`, if it is a prefix.
fn strip_prefix_checked<'a>(s: &'a str, p: &str) -> (r: Option<&'a str>)
    ensures
        match r {
            Some(rest) => p@.is_prefix_of(s@) && rest@ == s@.skip(p@.len() as int),
            None => !p@.is_prefix_of(s@),
        },
{
    let np = p.unicode_len();
    let ns = s.unicode_len();
    if np > ns {
        return None;
    }
    let mut i: usize = 0;
    while i < np
        invariant
            i <= np,
            np == p@.len(),
            ns == s@.len(),
            np <= ns,
            forall|k: int| 0 <= k < i ==> p@[k] == s@[k],
        decreases np - i,
    {
        if s.get_char(i) != p.get_char(i) {
            proof {
                if p@.is_prefix_of(s@) {
                    assert(p@[i as int] == s@.subrange(0, np as int)[i as int]);
                }
            }
            return None;
        }
        i = i + 1;
    }
    let rest = s.substring_char(np, ns);
    proof {
        assert(p@ =~= s@.subrange(0, np as int));
        assert(s@.skip(np as int) =~= s@.subrange(np as int, ns as int));
    }
    Some(rest)
}

/// Removes trailing `.git` suffixes, repeatedly, as remote-URL
/// conventions tolerate.
fn trim_git_suffix<'a>(s: &'a str) -> (r: &'a str)
    ensures
        r@ == spec_trim_git(s@),
{
    let mut t = s;
    loop
        invariant
            spec_trim_git(t@) == spec_trim_git(s@),
        decreases t@.len(),
    {
        let n = t.unicode_len();
        if n >= 4 && t.get_char(n - 4) == '.' && t.get_char(n - 3) == 'g' && t.get_char(n - 2)
            == 'i' && t.get_char(n - 1) == 't' {
            proof {
                assert(spec_has_git_suffix(t@));
            }
            t = t.substring_char(0, n - 4);
        } else {
            proof {
                assert(!spec_has_git_suffix(t@));
            }
            return t;
        }
    }
}

/// The position of the first slash, if any.
fn find_slash(s: &str) -> (r: Option<usize>)
    ensures
        match r {
            Some(i) => s@.index_of_first('/') == Some(i as int),
            None => s@.index_of_first('/') is None,
        },
{
    let n = s.unicode_len();
    let mut i: usize = 0;
    while i < n
        invariant
            i <= n,
            n == s@.len(),
            forall|k: int| 0 <= k < i ==> s@[k] != '/',
        decreases n - i,
    {
        if s.get_char(i) == '/' {
            proof {
                s@.index_of_first_ensures('/');
                assert(s@.contains('/')) by {
                    assert(s@[i as int] == '/');
                }
                let w = s@.index_of_first('/').unwrap();
                if w < i {
                    assert(s@[w] != '/');
                }
                if w > i {
                    assert(s@[i as int] != '/');
                }
            }
            return Some(i);
        }
        i = i + 1;
    }
    proof {
        s@.index_of_first_ensures('/');
        if s@.index_of_first('/') is Some {
            let w = s@.index_of_first('/').unwrap();
            assert(s@[w] != '/');
        }
    }
    None
}

/// Parses `owner/repo` out of what follows a recognised host prefix.
fn parse_tail(rest: &str) -> (r: Option<(String, String)>)
    ensures
        match r {
            Some(p) => spec_parse_tail(rest@) == Some((p.0@, p.1@)),
            None => spec_parse_tail(rest@) is None,
        },
{
    let clean = trim_git_suffix(rest);
    match find_slash(clean) {
        Some(i) => {
            proof {
                clean@.index_of_first_ensures('/');
            }
            let n = clean.unicode_len();
            if i > 0 && i + 1 < n {
                let owner = clean.substring_char(0, i).to_owned();
                let repo = clean.substring_char(i + 1, n).to_owned();
                proof {
                    assert(clean@.take(i as int) =~= clean@.subrange(0, i as int));
                    assert(clean@.skip(i + 1 as int) =~= clean@.subrange(
                        i + 1 as int,
                        n as int,
                    ));
                }
                Some((owner, repo))
            } else {
                None
            }
        },
        None => None,
    }
}

/// The owner and repository named by a git remote URL, in the two
/// shapes the issue tracker integration accepts; anything else is
/// rejected.
pub fn parse_repo_from_url(url: &str) -> (r: Option<(String, String)>)
    ensures
        match r {
            Some(p) => spec_parse_repo(url@) == Some((p.0@, p.1@)),
            None => spec_parse_repo(url@) is None,
        },
{
    if let Some(rest) = strip_prefix_checked(url, "https://github.com/") {
        let r = parse_tail(rest);
        if r.is_some() {
            return r;
        }
    }
    if let Some(rest) = strip_prefix_checked(url, "git@github.com:") {
        let r = parse_tail(rest);
        if r.is_some() {
            return r;
        }
    }
    None
}

} // verus!
