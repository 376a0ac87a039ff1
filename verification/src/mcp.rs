//! The decisions behind the MCP tools: which providers a request addresses
//! and which pull requests it returns.
use vstd::prelude::*;

use crate::model::{PrId, PullRequest};
use crate::text::{eq_ignore_ascii_case, eq_ignore_ascii_case_text, push_str};

verus! {

/// Parameters of the `list_pull_requests` tool.
#[derive(Debug)]
pub struct ListPrParams {
    /// Provider/tenant name; all providers when absent.
    pub provider: Option<String>,
    /// Project name; all projects when absent.
    pub project: Option<String>,
}

/// Parameters of the `get_pull_request_detail` tool.
#[derive(Debug)]
pub struct GetPrDetailParams {
    pub provider: String,
    pub project: String,
    pub repository: String,
    pub number: u64,
}

impl GetPrDetailParams {
    /// The pull request the parameters name.
    pub fn pr_id(&self) -> (r: PrId)
        ensures
            r.provider@ == self.provider@,
            r.project@ == self.project@,
            r.repository@ == self.repository@,
            r.number == self.number,
    {
        PrId {
            provider: self.provider.clone(),
            project: self.project.clone(),
            repository: self.repository.clone(),
            number: self.number,
        }
    }
}

/// "provider 'name' not found"
pub open spec fn provider_not_found_text(name: Seq<char>) -> Seq<char> {
    "provider '"@ + name + "' not found"@
}

pub fn provider_not_found(name: &str) -> (r: String)
    ensures
        r@ == provider_not_found_text(name@),
{
    let mut r = String::from_str("provider '");
    push_str(&mut r, name);
    push_str(&mut r, "' not found");
    r
}

/// The providers a listing addresses: all of them without a filter, else
/// those whose name equals the filter up to ASCII case.
pub open spec fn provider_selected(name: Seq<char>, filter: Option<Seq<char>>) -> bool {
    match filter {
        Some(f) => eq_ignore_ascii_case_text(name, f),
        None => true,
    }
}

pub open spec fn selected_indices(names: Seq<Seq<char>>, filter: Option<Seq<char>>, n: int) -> Seq<usize>
    decreases n,
{
    if n <= 0 {
        seq![]
    } else {
        let rest = selected_indices(names, filter, n - 1);
        if provider_selected(names[n - 1], filter) {
            rest.push((n - 1) as usize)
        } else {
            rest
        }
    }
}

pub open spec fn opt_text(o: Option<String>) -> Option<Seq<char>> {
    match o {
        Some(s) => Some(s@),
        None => None,
    }
}

/// The positions of the providers a listing addresses, in order; a filter
/// that matches no provider is an error naming it.
pub fn select_providers(names: &Vec<String>, filter: &Option<String>) -> (r: Result<Vec<usize>, String>)
    ensures
        ({
            let sel = selected_indices(names@.map_values(|s: String| s@), opt_text(*filter), names@.len() as int);
            match r {
                Ok(v) => v@ == sel && (sel.len() == 0 ==> filter is None),
                Err(m) => sel.len() == 0 && filter is Some && m@ == provider_not_found_text(filter.unwrap()@),
            }
        }),
{
    let ghost views = names@.map_values(|s: String| s@);
    let mut out: Vec<usize> = Vec::new();
    let mut i: usize = 0;
    while i < names.len()
        invariant
            i <= names@.len(),
            views == names@.map_values(|s: String| s@),
            out@ == selected_indices(views, opt_text(*filter), i as int),
        decreases names@.len() - i,
    {
        let keep = match filter {
            Some(f) => eq_ignore_ascii_case(names[i].as_str(), f.as_str()),
            None => true,
        };
        if keep {
            out.push(i);
        }
        i = i + 1;
    }
    if out.len() == 0 {
        match filter {
            Some(f) => {
                return Err(provider_not_found(f.as_str()));
            },
            None => {},
        }
    }
    Ok(out)
}

/// The position of the first provider named exactly `name`, or the error
/// naming it.
pub fn find_provider(names: &Vec<String>, name: &str) -> (r: Result<usize, String>)
    ensures
        match r {
            Ok(i) => i < names@.len() && names@[i as int]@ == name@ && forall|j: int| 0 <= j < i ==> names@[j]@ != name@,
            Err(m) => (forall|j: int| 0 <= j < names@.len() ==> names@[j]@ != name@) && m@ == provider_not_found_text(name@),
        },
{
    let target = String::from_str(name);
    let mut i: usize = 0;
    while i < names.len()
        invariant
            i <= names@.len(),
            target@ == name@,
            forall|j: int| 0 <= j < i ==> names@[j]@ != name@,
        decreases names@.len() - i,
    {
        if names[i] == target {
            return Ok(i);
        }
        i = i + 1;
    }
    Err(provider_not_found(name))
}

/// The pull requests of a listing that belong to the requested project (up to
/// ASCII case), or all of them without a project filter.
pub open spec fn in_project(pr: PullRequest, project: Option<Seq<char>>) -> bool {
    match project {
        Some(p) => eq_ignore_ascii_case_text(pr.id.project@, p),
        None => true,
    }
}

pub fn filter_by_project(prs: Vec<PullRequest>, project: &Option<String>) -> (r: Vec<PullRequest>)
    ensures
        r@ == prs@.filter(|pr: PullRequest| in_project(pr, opt_text(*project))),
{
    let ghost all = prs@;
    let ghost pred = |pr: PullRequest| in_project(pr, opt_text(*project));
    let mut rest = prs;
    let mut out: Vec<PullRequest> = Vec::new();
    let mut i: usize = 0;
    let _n = rest.len();
    while rest.len() > 0
        invariant
            all.len() <= usize::MAX,
            i + rest@.len() == all.len(),
            rest@ == all.subrange(i as int, all.len() as int),
            pred == (|pr: PullRequest| in_project(pr, opt_text(*project))),
            out@ == all.subrange(0, i as int).filter(pred),
        decreases rest@.len(),
    {
        let pr = rest.remove(0);
        proof {
            let pre = all.subrange(0, i + 1);
            assert(pre.drop_last() =~= all.subrange(0, i as int));
            assert(pre.last() == pr);
            reveal_with_fuel(Seq::<_>::filter, 1);
        }
        let keep = match project {
            Some(p) => eq_ignore_ascii_case(pr.id.project.as_str(), p.as_str()),
            None => true,
        };
        if keep {
            out.push(pr);
        }
        i = i + 1;
        assert(rest@ =~= all.subrange(i as int, all.len() as int));
    }
    assert(all.subrange(0, all.len() as int) =~= all);
    out
}

} // verus!
