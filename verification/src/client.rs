//! The Azure DevOps client: its credentials, the request paths it uses, and
//! its retry policy. The program around the library sends the requests.
use vstd::prelude::*;

use base64::Engine;

use crate::text::{
    chars_of, decimal, lowercase, push_decimal, push_str, to_lowercase, trim_end_char,
    trim_end_matching,
};

verus! {

// ---------------------------------------------------------------------------
// Base64
// ---------------------------------------------------------------------------

/// The character of the standard Base64 alphabet for a six-bit value.
pub open spec fn base64_digit(v: int) -> char {
    if v < 26 {
        ((65 + v) as u32) as char
    } else if v < 52 {
        ((97 + v - 26) as u32) as char
    } else if v < 62 {
        ((48 + v - 52) as u32) as char
    } else if v == 62 {
        '+'
    } else {
        '/'
    }
}

/// Standard Base64 (RFC 4648, with padding) of a byte sequence.
pub open spec fn base64_standard(b: Seq<u8>) -> Seq<char>
    decreases b.len(),
{
    if b.len() == 0 {
        seq![]
    } else {
        let b0 = b[0] as int;
        if b.len() == 1 {
            seq![base64_digit(b0 / 4), base64_digit((b0 % 4) * 16), '=', '=']
        } else {
            let b1 = b[1] as int;
            if b.len() == 2 {
                seq![
                    base64_digit(b0 / 4),
                    base64_digit((b0 % 4) * 16 + b1 / 16),
                    base64_digit((b1 % 16) * 4),
                    '=',
                ]
            } else {
                let b2 = b[2] as int;
                seq![
                    base64_digit(b0 / 4),
                    base64_digit((b0 % 4) * 16 + b1 / 16),
                    base64_digit((b1 % 16) * 4 + b2 / 64),
                    base64_digit(b2 % 64),
                ] + base64_standard(b.subrange(3, b.len() as int))
            }
        }
    }
}

/// `base64::engine::general_purpose::STANDARD.encode`: the standard alphabet
/// with padding, as RFC 4648 defines it.
#[verifier::external_body]
pub(crate) fn base64_encode(data: &[u8]) -> (r: String)
    ensures
        r@ == base64_standard(data@),
{
    base64::engine::general_purpose::STANDARD.encode(data)
}

// ---------------------------------------------------------------------------
// The client
// ---------------------------------------------------------------------------

/// The value of the Authorization header for a personal access token:
/// "Basic " and the Base64 of the UTF-8 of ":token".
pub open spec fn auth_header_text(pat: Seq<char>) -> Seq<char> {
    "Basic "@ + base64_standard(vstd::utf8::encode_utf8(":"@ + pat))
}

/// Where and how to reach one Azure DevOps organization.
#[derive(Debug)]
pub struct AzureDevOpsClient {
    base_url: String,
    auth_header: String,
}

impl Clone for AzureDevOpsClient {
    fn clone(&self) -> (r: Self)
        ensures
            r == *self,
    {
        AzureDevOpsClient { base_url: self.base_url.clone(), auth_header: self.auth_header.clone() }
    }
}


impl AzureDevOpsClient {
    pub closed spec fn base_url_text(&self) -> Seq<char> {
        self.base_url@
    }

    pub closed spec fn auth_header_value(&self) -> Seq<char> {
        self.auth_header@
    }

    /// A client for the organization at `base_url` (trailing slashes dropped),
    /// authenticating with the personal access token `pat`.
    pub fn new(base_url: &str, pat: &str) -> (r: Self)
        ensures
            r.base_url_text() == trim_end_char(base_url@, '/'),
            r.auth_header_value() == auth_header_text(pat@),
    {
        let mut credentials = String::from_str(":");
        push_str(&mut credentials, pat);
        let encoded = base64_encode(credentials.as_str().as_bytes());
        let mut auth_header = String::from_str("Basic ");
        push_str(&mut auth_header, encoded.as_str());
        AzureDevOpsClient { base_url: trim_end_matching(base_url, '/'), auth_header }
    }

    /// The organization's address, without trailing slashes.
    pub fn base_url(&self) -> (r: &str)
        ensures
            r@ == self.base_url_text(),
    {
        self.base_url.as_str()
    }

    /// The value of the Authorization header.
    pub fn auth_header(&self) -> (r: &str)
        ensures
            r@ == self.auth_header_value(),
    {
        self.auth_header.as_str()
    }

    /// The full address of a request path.
    pub fn url_for(&self, path: &str) -> (r: String)
        ensures
            r@ == self.base_url_text() + path@,
    {
        let mut r = self.base_url.clone();
        push_str(&mut r, path);
        r
    }
}

// ---------------------------------------------------------------------------
// Request paths
// ---------------------------------------------------------------------------

pub open spec fn api_version_text() -> Seq<char> {
    "api-version=7.1-preview"@
}

/// The optional voter and creator conditions of a pull request query.
pub open spec fn search_filters_text(reviewer_id: Option<Seq<char>>, creator_id: Option<Seq<char>>) -> Seq<char> {
    (match reviewer_id {
        Some(r) => "&searchCriteria.reviewerId="@ + r,
        None => seq![],
    }) + (match creator_id {
        Some(c) => "&searchCriteria.creatorId="@ + c,
        None => seq![],
    })
}

pub open spec fn opt_view(o: Option<&str>) -> Option<Seq<char>> {
    match o {
        Some(s) => Some(s@),
        None => None,
    }
}

fn push_search_filters(q: &mut String, reviewer_id: Option<&str>, creator_id: Option<&str>)
    ensures
        final(q)@ == old(q)@ + search_filters_text(opt_view(reviewer_id), opt_view(creator_id)),
{
    let ghost start = q@;
    match reviewer_id {
        Some(rid) => {
            push_str(q, "&searchCriteria.reviewerId=");
            push_str(q, rid);
        },
        None => {},
    }
    let ghost mid = q@;
    match creator_id {
        Some(cid) => {
            push_str(q, "&searchCriteria.creatorId=");
            push_str(q, cid);
        },
        None => {},
    }
    assert(q@ =~= start + search_filters_text(opt_view(reviewer_id), opt_view(creator_id)));
}

/// The current user's identity.
pub open spec fn connection_data_path_text() -> Seq<char> {
    "/_apis/connectionData?"@ + api_version_text()
}

pub fn connection_data_path() -> (r: String)
    ensures
        r@ == connection_data_path_text(),
{
    let mut r = String::from_str("/_apis/connectionData?");
    push_str(&mut r, "api-version=7.1-preview");
    r
}

/// Active pull requests of the whole organization (at most 200).
pub open spec fn pull_requests_org_path_text(reviewer_id: Option<Seq<char>>, creator_id: Option<Seq<char>>) -> Seq<char> {
    "/_apis/git/pullrequests?searchCriteria.status=active&$top=200&"@ + api_version_text()
        + search_filters_text(reviewer_id, creator_id)
}

pub fn pull_requests_org_path(reviewer_id: Option<&str>, creator_id: Option<&str>) -> (r: String)
    ensures
        r@ == pull_requests_org_path_text(opt_view(reviewer_id), opt_view(creator_id)),
{
    let mut r = String::from_str("/_apis/git/pullrequests?searchCriteria.status=active&$top=200&");
    push_str(&mut r, "api-version=7.1-preview");
    push_search_filters(&mut r, reviewer_id, creator_id);
    r
}

/// Active pull requests of one project (at most 100).
pub open spec fn pull_requests_by_project_path_text(
    project: Seq<char>,
    reviewer_id: Option<Seq<char>>,
    creator_id: Option<Seq<char>>,
) -> Seq<char> {
    "/"@ + project + "/_apis/git/pullrequests?searchCriteria.status=active&$top=100&"@
        + api_version_text() + search_filters_text(reviewer_id, creator_id)
}

pub fn pull_requests_by_project_path(
    project: &str,
    reviewer_id: Option<&str>,
    creator_id: Option<&str>,
) -> (r: String)
    ensures
        r@ == pull_requests_by_project_path_text(project@, opt_view(reviewer_id), opt_view(creator_id)),
{
    let mut r = String::from_str("/");
    push_str(&mut r, project);
    push_str(&mut r, "/_apis/git/pullrequests?searchCriteria.status=active&$top=100&");
    push_str(&mut r, "api-version=7.1-preview");
    push_search_filters(&mut r, reviewer_id, creator_id);
    r
}

/// Active pull requests of one repository (at most 100).
pub open spec fn pull_requests_by_repo_path_text(
    project: Seq<char>,
    repo: Seq<char>,
    reviewer_id: Option<Seq<char>>,
    creator_id: Option<Seq<char>>,
) -> Seq<char> {
    "/"@ + project + "/_apis/git/repositories/"@ + repo
        + "/pullrequests?searchCriteria.status=active&$top=100&"@ + api_version_text()
        + search_filters_text(reviewer_id, creator_id)
}

pub fn pull_requests_by_repo_path(
    project: &str,
    repo: &str,
    reviewer_id: Option<&str>,
    creator_id: Option<&str>,
) -> (r: String)
    ensures
        r@ == pull_requests_by_repo_path_text(
            project@,
            repo@,
            opt_view(reviewer_id),
            opt_view(creator_id),
        ),
{
    let mut r = String::from_str("/");
    push_str(&mut r, project);
    push_str(&mut r, "/_apis/git/repositories/");
    push_str(&mut r, repo);
    push_str(&mut r, "/pullrequests?searchCriteria.status=active&$top=100&");
    push_str(&mut r, "api-version=7.1-preview");
    push_search_filters(&mut r, reviewer_id, creator_id);
    r
}

/// The organization's well-formed projects (at most 1000).
pub open spec fn projects_path_text() -> Seq<char> {
    "/_apis/projects?"@ + api_version_text() + "&$top=1000&stateFilter=wellFormed"@
}

pub fn projects_path() -> (r: String)
    ensures
        r@ == projects_path_text(),
{
    let mut r = String::from_str("/_apis/projects?");
    push_str(&mut r, "api-version=7.1-preview");
    push_str(&mut r, "&$top=1000&stateFilter=wellFormed");
    r
}

/// One pull request, with its full description.
pub open spec fn pull_request_path_text(project: Seq<char>, repo: Seq<char>, pr_id: u64) -> Seq<char> {
    "/"@ + project + "/_apis/git/repositories/"@ + repo + "/pullrequests/"@ + decimal(pr_id as nat)
        + "?"@ + api_version_text()
}

pub fn pull_request_path(project: &str, repo: &str, pr_id: u64) -> (r: String)
    ensures
        r@ == pull_request_path_text(project@, repo@, pr_id),
{
    let mut r = String::from_str("/");
    push_str(&mut r, project);
    push_str(&mut r, "/_apis/git/repositories/");
    push_str(&mut r, repo);
    push_str(&mut r, "/pullrequests/");
    push_decimal(&mut r, pr_id);
    push_str(&mut r, "?");
    push_str(&mut r, "api-version=7.1-preview");
    r
}

/// The policy evaluations of a pull request.
pub open spec fn policy_evaluations_path_text(project: Seq<char>, pr_id: u64) -> Seq<char> {
    "/"@ + project + "/_apis/policy/evaluations?artifactId=vstfs:///CodeReview/CodeReviewId/"@
        + project + "/"@ + decimal(pr_id as nat) + "&"@ + api_version_text()
}

pub fn policy_evaluations_path(project: &str, pr_id: u64) -> (r: String)
    ensures
        r@ == policy_evaluations_path_text(project@, pr_id),
{
    let mut r = String::from_str("/");
    push_str(&mut r, project);
    push_str(&mut r, "/_apis/policy/evaluations?artifactId=vstfs:///CodeReview/CodeReviewId/");
    push_str(&mut r, project);
    push_str(&mut r, "/");
    push_decimal(&mut r, pr_id);
    push_str(&mut r, "&");
    push_str(&mut r, "api-version=7.1-preview");
    r
}

/// The comment threads of a pull request.
pub open spec fn threads_path_text(project: Seq<char>, repo_id: Seq<char>, pr_id: u64) -> Seq<char> {
    "/"@ + project + "/_apis/git/repositories/"@ + repo_id + "/pullrequests/"@ + decimal(
        pr_id as nat,
    ) + "/threads?"@ + api_version_text()
}

pub fn threads_path(project: &str, repo_id: &str, pr_id: u64) -> (r: String)
    ensures
        r@ == threads_path_text(project@, repo_id@, pr_id),
{
    let mut r = String::from_str("/");
    push_str(&mut r, project);
    push_str(&mut r, "/_apis/git/repositories/");
    push_str(&mut r, repo_id);
    push_str(&mut r, "/pullrequests/");
    push_decimal(&mut r, pr_id);
    push_str(&mut r, "/threads?");
    push_str(&mut r, "api-version=7.1-preview");
    r
}

// ---------------------------------------------------------------------------
// Project names, sorted without regard to case
// ---------------------------------------------------------------------------

/// `a` comes strictly before `b` in the order of `str::cmp` (by code points).
pub open spec fn text_lt(a: Seq<char>, b: Seq<char>) -> bool
    decreases a.len(),
{
    if a.len() == 0 {
        b.len() > 0
    } else if b.len() == 0 {
        false
    } else if a[0] != b[0] {
        (a[0] as u32) < (b[0] as u32)
    } else {
        text_lt(a.drop_first(), b.drop_first())
    }
}

fn chars_lt(a: &Vec<char>, b: &Vec<char>) -> (r: bool)
    ensures
        r == text_lt(a@, b@),
{
    let mut i: usize = 0;
    assert(a@.subrange(0, a@.len() as int) =~= a@);
    assert(b@.subrange(0, b@.len() as int) =~= b@);
    while i < a.len() && i < b.len() && a[i] == b[i]
        invariant
            i <= a@.len(),
            i <= b@.len(),
            forall|k: int| 0 <= k < i ==> a@[k] == b@[k],
            text_lt(a@, b@) == text_lt(a@.subrange(i as int, a@.len() as int), b@.subrange(i as int, b@.len() as int)),
        decreases a@.len() - i,
    {
        proof {
            let x = a@.subrange(i as int, a@.len() as int);
            let y = b@.subrange(i as int, b@.len() as int);
            assert(x.drop_first() =~= a@.subrange(i + 1, a@.len() as int));
            assert(y.drop_first() =~= b@.subrange(i + 1, b@.len() as int));
        }
        i = i + 1;
    }
    proof {
        let x = a@.subrange(i as int, a@.len() as int);
        let y = b@.subrange(i as int, b@.len() as int);
        if i < a@.len() && i < b@.len() {
            assert(x[0] == a@[i as int] && y[0] == b@[i as int]);
        }
    }
    if i == a.len() {
        i < b.len()
    } else if i == b.len() {
        false
    } else {
        (a[i] as u32) < (b[i] as u32)
    }
}

/// The lower-case sort key of each name.
pub open spec fn name_key(s: Seq<char>) -> Seq<char> {
    lowercase(s)
}

/// Inserts `x` after every element whose key is not above its own (so equal
/// keys keep their order).
pub open spec fn insert_sorted(sorted: Seq<Seq<char>>, x: Seq<char>) -> Seq<Seq<char>>
    decreases sorted.len(),
{
    if sorted.len() == 0 {
        seq![x]
    } else if text_lt(name_key(x), name_key(sorted.last())) {
        insert_sorted(sorted.drop_last(), x).push(sorted.last())
    } else {
        sorted.push(x)
    }
}

/// The names in the order of a stable sort by lower-cased name.
pub open spec fn sort_by_lowercase(names: Seq<Seq<char>>) -> Seq<Seq<char>>
    decreases names.len(),
{
    if names.len() == 0 {
        seq![]
    } else {
        insert_sorted(sort_by_lowercase(names.drop_last()), names.last())
    }
}

pub open spec fn names_view(v: Seq<String>) -> Seq<Seq<char>> {
    v.map_values(|s: String| s@)
}

fn insert_sorted_exec(sorted: &mut Vec<String>, keys: &mut Vec<Vec<char>>, x: String)
    requires
        old(keys)@.len() == old(sorted)@.len(),
        forall|i: int| 0 <= i < old(keys)@.len() ==> #[trigger] old(keys)@[i]@ == name_key(old(sorted)@[i]@),
    ensures
        final(keys)@.len() == final(sorted)@.len(),
        forall|i: int| 0 <= i < final(keys)@.len() ==> #[trigger] final(keys)@[i]@ == name_key(final(sorted)@[i]@),
        names_view(final(sorted)@) == insert_sorted(names_view(old(sorted)@), x@),
{
    let key_string = to_lowercase(x.as_str());
    let key = chars_of(key_string.as_str());
    // Find the insertion point from the back: after the last element whose key
    // is not above the new one.
    let mut pos: usize = sorted.len();
    let ghost s0 = names_view(sorted@);
    assert(s0.subrange(0, s0.len() as int) =~= s0);
    assert(s0.subrange(s0.len() as int, s0.len() as int) =~= Seq::<Seq<char>>::empty());
    assert(insert_sorted(s0, x@) =~= insert_sorted(s0.subrange(0, s0.len() as int), x@) + s0.subrange(s0.len() as int, s0.len() as int));
    while pos > 0 && chars_lt(&key, &keys[pos - 1])
        invariant
            pos <= sorted@.len(),
            keys@.len() == sorted@.len(),
            sorted@ == old(sorted)@,
            keys@ == old(keys)@,
            s0 == names_view(sorted@),
            key@ == name_key(x@),
            forall|i: int| 0 <= i < keys@.len() ==> #[trigger] keys@[i]@ == name_key(sorted@[i]@),
            insert_sorted(s0, x@) == insert_sorted(s0.subrange(0, pos as int), x@) + s0.subrange(
                pos as int,
                s0.len() as int,
            ),
        decreases pos,
    {
        proof {
            let pre = s0.subrange(0, pos as int);
            assert(pre.drop_last() =~= s0.subrange(0, pos - 1));
            assert(pre.last() == s0[pos - 1]);
            assert(s0.subrange(pos - 1, s0.len() as int) =~= seq![s0[pos - 1]] + s0.subrange(
                pos as int,
                s0.len() as int,
            ));
            assert(insert_sorted(s0.subrange(0, pos - 1), x@).push(s0[pos - 1]) + s0.subrange(
                pos as int,
                s0.len() as int,
            ) =~= insert_sorted(s0.subrange(0, pos - 1), x@) + s0.subrange(pos - 1, s0.len() as int));
        }
        pos = pos - 1;
    }
    proof {
        let pre = s0.subrange(0, pos as int);
        assert(insert_sorted(pre, x@) =~= pre.push(x@));
        assert(s0.subrange(0, s0.len() as int) =~= s0);
    }
    let ghost before = sorted@;
    sorted.insert(pos, x);
    keys.insert(pos, key);
    proof {
        assert(names_view(sorted@) =~= s0.subrange(0, pos as int).push(x@) + s0.subrange(
            pos as int,
            s0.len() as int,
        ));
        assert forall|i: int| 0 <= i < keys@.len() implies #[trigger] keys@[i]@ == name_key(
            sorted@[i]@,
        ) by {
            if i < pos {
                assert(keys@[i] == old(keys)@[i]);
                assert(sorted@[i] == before[i]);
            } else if i > pos {
                assert(keys@[i] == old(keys)@[i - 1]);
                assert(sorted@[i] == before[i - 1]);
            }
        }
    }
}

/// Project names in the order the setup screens list them: sorted by their
/// lower-case form, names with equal lower-case forms in the order they were given.
pub fn sort_project_names(names: Vec<String>) -> (r: Vec<String>)
    ensures
        names_view(r@) == sort_by_lowercase(names_view(names@)),
{
    let mut sorted: Vec<String> = Vec::new();
    let mut keys: Vec<Vec<char>> = Vec::new();
    let mut i: usize = 0;
    while i < names.len()
        invariant
            i <= names@.len(),
            keys@.len() == sorted@.len(),
            forall|j: int| 0 <= j < keys@.len() ==> #[trigger] keys@[j]@ == name_key(sorted@[j]@),
            names_view(sorted@) == sort_by_lowercase(names_view(names@.subrange(0, i as int))),
        decreases names@.len() - i,
    {
        proof {
            let pre = names_view(names@.subrange(0, i + 1));
            assert(pre.drop_last() =~= names_view(names@.subrange(0, i as int)));
            assert(pre.last() == names@[i as int]@);
        }
        insert_sorted_exec(&mut sorted, &mut keys, names[i].clone());
        i = i + 1;
    }
    assert(names@.subrange(0, names@.len() as int) =~= names@);
    sorted
}

} // verus!
