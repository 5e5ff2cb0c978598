//! Pull-request metadata: the shapes the review tool reports, the
//! normalized shape observers read, and the normalization rules.
//!
//! Fetching and caching live in the embedding; the rules that turn raw
//! check and review fields into the normalized statuses are here.

use vstd::prelude::*;
use vstd::string::*;
use crate::record::opt_str_view;
use crate::text::{
    ascii_eq_ic, contains_at, first_index_of, first_match, index_of_char, find_first_match,
    spec_contains, str_eq, str_eq_ignore_ascii_case, str_has_suffix,
};

verus! {

/// The author of a pull request, as the review tool reports it.
pub struct Author {
    pub login: String,
}

/// A label on a pull request.
pub struct Label {
    pub name: String,
}

/// One entry of a pull request's check rollup.
pub struct StatusCheck {
    pub state: Option<String>,
    pub status: Option<String>,
    pub conclusion: Option<String>,
}

/// The mathematical image of a check entry.
pub ghost struct StatusCheckView {
    pub state: Option<Seq<char>>,
    pub status: Option<Seq<char>>,
    pub conclusion: Option<Seq<char>>,
}

impl View for StatusCheck {
    type V = StatusCheckView;

    open spec fn view(&self) -> StatusCheckView {
        StatusCheckView {
            state: opt_str_view(self.state),
            status: opt_str_view(self.status),
            conclusion: opt_str_view(self.conclusion),
        }
    }
}

/// A pull request as the review tool reports it.
pub struct GitHubPR {
    pub number: i32,
    pub title: String,
    pub url: String,
    pub state: String,
    pub is_draft: bool,
    pub author: Author,
    pub head_ref_name: String,
    pub base_ref_name: String,
    pub labels: Vec<Label>,
    pub review_decision: Option<String>,
    pub status_check_rollup: Option<Vec<StatusCheck>>,
    pub mergeable: Option<String>,
    pub created_at: String,
    pub updated_at: String,
}

/// A pull request in the normalized shape observers read.
pub struct PR {
    pub id: String,
    pub number: i32,
    pub title: String,
    pub url: String,
    pub author: String,
    pub repo: String,
    pub state: String,
    pub is_draft: bool,
    pub ci_status: Option<String>,
    pub ci_url: Option<String>,
    pub review_status: String,
    pub reviewers: Vec<String>,
    pub comments_count: i32,
    pub unresolved_threads: i32,
    pub labels: Vec<String>,
    pub branch: String,
    pub base_branch: String,
    pub created_at: String,
    pub updated_at: String,
    pub category: String,
}

/// One review-thread comment on a pull request.
pub struct PRComment {
    pub id: String,
    pub thread_id: String,
    pub pr_id: String,
    pub comment_type: String,
    pub is_resolved: bool,
    pub author: String,
    pub body: String,
    pub path: Option<String>,
    pub line: Option<i32>,
    pub created_at: String,
    pub updated_at: String,
}

/// A check that concluded in failure, whichever letter case the tool
/// reported the word in.
pub open spec fn check_is_failure(c: StatusCheckView) -> bool {
    match c.conclusion {
        Option::Some(s) => ascii_eq_ic(s, "FAILURE"@),
        Option::None => false,
    }
}

/// A check still queued, in progress or pending, or one whose
/// conclusion is still the empty placeholder.
pub open spec fn check_is_pending(c: StatusCheckView) -> bool {
    ||| match c.status {
        Option::Some(s) => ascii_eq_ic(s, "QUEUED"@) || ascii_eq_ic(s, "IN_PROGRESS"@),
        Option::None => false,
    }
    ||| match c.state {
        Option::Some(s) => ascii_eq_ic(s, "PENDING"@),
        Option::None => false,
    }
    ||| match c.conclusion {
        Option::Some(s) => s.len() == 0,
        Option::None => false,
    }
}

/// The views of a sequence of checks.
pub open spec fn check_views(s: Seq<StatusCheck>) -> Seq<StatusCheckView> {
    s.map_values(|c: StatusCheck| c@)
}

/// The normalized CI status of a check rollup: nothing without checks;
/// `failing` as soon as one check failed; else `pending` while one is
/// still on its way; else `passing`.
pub open spec fn spec_ci_status(checks: Option<Seq<StatusCheckView>>) -> Option<Seq<char>> {
    match checks {
        Option::None => Option::None,
        Option::Some(cs) => if cs.len() == 0 {
            Option::None
        } else if exists|i: int| 0 <= i < cs.len() && check_is_failure(#[trigger] cs[i]) {
            Option::Some("failing"@)
        } else if exists|i: int| 0 <= i < cs.len() && check_is_pending(#[trigger] cs[i]) {
            Option::Some("pending"@)
        } else {
            Option::Some("passing"@)
        },
    }
}

fn check_failure_exec(c: &StatusCheck) -> (r: bool)
    ensures
        r == check_is_failure(c@),
{
    match &c.conclusion {
        Option::Some(s) => str_eq_ignore_ascii_case(s.as_str(), "FAILURE"),
        Option::None => false,
    }
}

fn check_pending_exec(c: &StatusCheck) -> (r: bool)
    ensures
        r == check_is_pending(c@),
{
    let by_status = match &c.status {
        Option::Some(s) => str_eq_ignore_ascii_case(s.as_str(), "QUEUED")
            || str_eq_ignore_ascii_case(s.as_str(), "IN_PROGRESS"),
        Option::None => false,
    };
    let by_state = match &c.state {
        Option::Some(s) => str_eq_ignore_ascii_case(s.as_str(), "PENDING"),
        Option::None => false,
    };
    let by_conclusion = match &c.conclusion {
        Option::Some(s) => s.as_str().unicode_len() == 0,
        Option::None => false,
    };
    by_status || by_state || by_conclusion
}

/// Normalize a check rollup to a CI status.
pub fn determine_ci_status(status_checks: &Option<Vec<StatusCheck>>) -> (r: Option<String>)
    ensures
        opt_str_view(r) == spec_ci_status(
            match *status_checks {
                Option::Some(v) => Option::Some(check_views(v@)),
                Option::None => Option::None,
            },
        ),
{
    proof {
        reveal_strlit("failing");
        reveal_strlit("pending");
        reveal_strlit("passing");
    }
    match status_checks {
        Option::None => Option::None,
        Option::Some(checks) => {
            let n = checks.len();
            if n == 0 {
                return Option::None;
            }
            let ghost cs = check_views(checks@);
            let mut has_failure: bool = false;
            let mut has_pending: bool = false;
            let mut i: usize = 0;
            while i < n
                invariant
                    n == checks@.len(),
                    cs == check_views(checks@),
                    cs.len() == n,
                    i <= n,
                    has_failure == exists|j: int|
                        0 <= j < i && check_is_failure(#[trigger] cs[j]),
                    has_pending == exists|j: int|
                        0 <= j < i && check_is_pending(#[trigger] cs[j]),
                decreases n - i,
            {
                proof {
                    assert(cs[i as int] == checks@[i as int]@);
                }
                if check_failure_exec(&checks[i]) {
                    has_failure = true;
                    proof {
                        assert(check_is_failure(cs[i as int]));
                    }
                }
                if check_pending_exec(&checks[i]) {
                    has_pending = true;
                    proof {
                        assert(check_is_pending(cs[i as int]));
                    }
                }
                i += 1;
            }
            if has_failure {
                Option::Some(String::from_str("failing"))
            } else if has_pending {
                Option::Some(String::from_str("pending"))
            } else {
                Option::Some(String::from_str("passing"))
            }
        },
    }
}

/// The normalized review status: merge conflicts outrank everything;
/// then the review decision, with anything unrecognized read as
/// `pending`.
pub open spec fn spec_review_status(
    review_decision: Option<Seq<char>>,
    mergeable: Option<Seq<char>>,
) -> Seq<char> {
    if mergeable == Option::Some("CONFLICTING"@) {
        "conflicts"@
    } else {
        match review_decision {
            Option::Some(s) => if s == "APPROVED"@ {
                "approved"@
            } else if s == "CHANGES_REQUESTED"@ {
                "changes_requested"@
            } else {
                "pending"@
            },
            Option::None => "pending"@,
        }
    }
}

/// Normalize the review decision and mergeability to a review status.
pub fn determine_review_status(
    review_decision: &Option<String>,
    mergeable: &Option<String>,
) -> (r: String)
    ensures
        r@ == spec_review_status(opt_str_view(*review_decision), opt_str_view(*mergeable)),
{
    proof {
        reveal_strlit("conflicts");
        reveal_strlit("approved");
        reveal_strlit("changes_requested");
        reveal_strlit("pending");
    }
    let conflicting = match mergeable {
        Option::Some(s) => str_eq(s.as_str(), "CONFLICTING"),
        Option::None => false,
    };
    if conflicting {
        return String::from_str("conflicts");
    }
    match review_decision {
        Option::Some(s) => {
            if str_eq(s.as_str(), "APPROVED") {
                String::from_str("approved")
            } else if str_eq(s.as_str(), "CHANGES_REQUESTED") {
                String::from_str("changes_requested")
            } else {
                String::from_str("pending")
            }
        },
        Option::None => String::from_str("pending"),
    }
}

/// The dashboard category of a pull request: monitored ones aside, an
/// open one is still to do, a merged or closed one is done, and
/// anything else is read as still to do. Letter case does not matter.
pub open spec fn spec_category(state: Seq<char>, is_monitoring: bool) -> Seq<char> {
    if is_monitoring {
        "monitoring"@
    } else if ascii_eq_ic(state, "open"@) {
        "todo"@
    } else if ascii_eq_ic(state, "merged"@) || ascii_eq_ic(state, "closed"@) {
        "done"@
    } else {
        "todo"@
    }
}

/// Place a pull request in its dashboard category.
pub fn determine_category(state: &str, is_monitoring: bool) -> (r: String)
    ensures
        r@ == spec_category(state@, is_monitoring),
{
    proof {
        reveal_strlit("monitoring");
        reveal_strlit("todo");
        reveal_strlit("done");
    }
    if is_monitoring {
        String::from_str("monitoring")
    } else if str_eq_ignore_ascii_case(state, "open") {
        String::from_str("todo")
    } else if str_eq_ignore_ascii_case(state, "merged") || str_eq_ignore_ascii_case(
        state,
        "closed",
    ) {
        String::from_str("done")
    } else {
        String::from_str("todo")
    }
}

/// `s` with every trailing `.git` removed.
pub open spec fn trim_git(s: Seq<char>) -> Seq<char>
    decreases s.len(),
{
    if s.len() >= 4 && s.subrange(s.len() - 4, s.len() as int) == ".git"@ {
        trim_git(s.subrange(0, s.len() - 4))
    } else {
        s
    }
}

/// What `parse_repo_path` returns: for an address that carries
/// `github.com/` followed by at least two `/`-separated segments, the
/// first two segments as `owner/repo`, with any trailing `.git` cut
/// off the second; anything else is handed back unchanged.
pub open spec fn spec_repo_path(input: Seq<char>) -> Seq<char> {
    let g = "github.com/"@;
    if spec_contains(input, g) {
        let m = first_match(input, g);
        let path = input.subrange(m + g.len(), input.len() as int);
        let k1 = first_index_of(path, '/');
        if k1 >= 0 {
            let part1 = path.subrange(0, k1);
            let rest = path.subrange(k1 + 1, path.len() as int);
            let k2 = first_index_of(rest, '/');
            let part2 = if k2 >= 0 {
                rest.subrange(0, k2)
            } else {
                rest
            };
            part1 + "/"@ + trim_git(part2)
        } else {
            input
        }
    } else {
        input
    }
}

/// Read an `owner/repo` pair out of a repository address.
pub fn parse_repo_path(input: &str) -> (r: String)
    ensures
        r@ == spec_repo_path(input@),
{
    proof {
        reveal_strlit("github.com/");
        reveal_strlit(".git");
        reveal_strlit("/");
    }
    let n = input.unicode_len();
    match find_first_match(input, "github.com/") {
        Option::None => String::from_str(input),
        Option::Some(m) => {
            let path = input.substring_char(m + 11, n);
            let path_len = n - m - 11;
            proof {
                assert(path@ == input@.subrange(m + 11, input@.len() as int));
                assert(path@.len() == path_len);
            }
            match index_of_char(path, '/') {
                Option::None => String::from_str(input),
                Option::Some(k1) => {
                    let part1 = path.substring_char(0, k1);
                    let rest = path.substring_char(k1 + 1, path_len);
                    let rest_len = path_len - k1 - 1;
                    proof {
                        assert(rest@.len() == rest_len);
                    }
                    let part2 = match index_of_char(rest, '/') {
                        Option::Some(k2) => rest.substring_char(0, k2),
                        Option::None => rest,
                    };
                    let mut tail = part2;
                    let mut tail_len = tail.unicode_len();
                    while tail_len >= 4 && str_has_suffix(tail, ".git")
                        invariant
                            tail_len == tail@.len(),
                            trim_git(tail@) == trim_git(part2@),
                        decreases tail_len,
                    {
                        proof {
                            reveal_strlit(".git");
                            assert(tail@.subrange(tail@.len() - 4, tail@.len() as int) =~= ".git"@);
                        }
                        tail = tail.substring_char(0, tail_len - 4);
                        tail_len = tail_len - 4;
                    }
                    proof {
                        if tail@.len() >= 4 {
                            assert(!contains_at(tail@, ".git"@, tail@.len() - 4));
                            if tail@.subrange(tail@.len() - 4, tail@.len() as int) == ".git"@ {
                                assert(contains_at(tail@, ".git"@, tail@.len() - 4));
                            }
                        }
                        assert(trim_git(tail@) == tail@);
                    }
                    let mut out = String::from_str(part1);
                    out.append("/");
                    out.append(tail);
                    out
                },
            }
        },
    }
}

} // verus!
