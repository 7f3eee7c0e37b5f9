use vstd::prelude::*;

verus! {

/// What follows the last `/` of `s`; all of `s` where it has none.
pub open spec fn last_segment(s: Seq<char>) -> Seq<char>
    decreases s.len(),
{
    if s.len() == 0 {
        s
    } else if s.last() == '/' {
        Seq::empty()
    } else {
        last_segment(s.drop_last()).push(s.last())
    }
}

/// Whether `s` ends with `suffix`.
pub open spec fn ends_with(s: Seq<char>, suffix: Seq<char>) -> bool {
    suffix.len() <= s.len() && s.skip(s.len() - suffix.len()) == suffix
}

/// The repository name in a remote URL: its last path segment, which must
/// end in `.git`, without that ending.
pub open spec fn repo_name_of(url: Seq<char>) -> Option<Seq<char>> {
    let seg = last_segment(url);
    if ends_with(seg, ".git"@) {
        Some(seg.take(seg.len() - 4))
    } else {
        None
    }
}

/// Reads the repository name from a remote URL: the last `/`-separated
/// segment without its `.git` ending; `None` where that segment does not
/// end in `.git`.
pub fn extract_repo_name(remote_url: &str) -> (r: Option<String>)
    ensures
        match r {
            Some(n) => repo_name_of(remote_url@) == Some(n@),
            None => repo_name_of(remote_url@) is None,
        },
{
    let ghost s = remote_url@;
    let n = remote_url.unicode_len();
    let mut start: usize = 0;
    let mut i: usize = 0;
    while i < n
        invariant
            s == remote_url@,
            n == s.len(),
            start <= i <= n,
            last_segment(s.take(i as int)) == s.subrange(start as int, i as int),
        decreases n - i,
    {
        assert(s.take(i + 1).drop_last() =~= s.take(i as int));
        assert(s.take(i + 1).last() == s[i as int]);
        if remote_url.get_char(i) == '/' {
            start = i + 1;
            assert(s.subrange(start as int, i + 1) =~= Seq::<char>::empty());
        } else {
            assert(s.subrange(start as int, i + 1) =~= s.subrange(start as int, i as int).push(
                s[i as int],
            ));
        }
        i = i + 1;
    }
    assert(s.take(n as int) =~= s);
    let seg = remote_url.substring_char(start, n);
    let m = seg.unicode_len();
    proof {
        reveal_strlit(".git");
    }
    if m < 4 {
        return None;
    }
    let tail = seg.substring_char(m - 4, m);
    assert(tail@ =~= seg@.skip(m - 4));
    if tail.get_char(0) == '.' && tail.get_char(1) == 'g' && tail.get_char(2) == 'i'
        && tail.get_char(3) == 't' {
        assert(tail@ =~= ".git"@);
        Some(seg.substring_char(0, m - 4).to_owned())
    } else {
        assert(tail@ != ".git"@) by {
            if tail@ == ".git"@ {
                assert(tail@[0] == '.' && tail@[1] == 'g' && tail@[2] == 'i' && tail@[3] == 't');
            }
        }
        None
    }
}

/// The git context of a request, from what the probes found: whether git
/// runs, whether the working directory is inside a work tree, the remote
/// URL of `origin` and the current branch (each `None` where git gave
/// none). The context is the remote URL, the repository name read from it
/// and the branch; there is none unless every part is there.
pub fn get_git_repo_info(
    git_installed: bool,
    inside_work_tree: bool,
    remote_url: Option<String>,
    branch: Option<String>,
) -> (r: Option<(String, String, String)>)
    ensures
        match r {
            Some((u, n, b)) => {
                &&& git_installed && inside_work_tree
                &&& remote_url == Some(u)
                &&& repo_name_of(u@) == Some(n@)
                &&& branch == Some(b)
            },
            None => !git_installed || !inside_work_tree || remote_url is None || repo_name_of(
                remote_url->0@,
            ) is None || branch is None,
        },
{
    if !git_installed || !inside_work_tree {
        return None;
    }
    let url = match remote_url {
        Some(u) => u,
        None => return None,
    };
    let name = match extract_repo_name(url.as_str()) {
        Some(n) => n,
        None => return None,
    };
    match branch {
        Some(b) => Some((url, name, b)),
        None => None,
    }
}

} // verus!
