//! The Azure DevOps provider: which requests a listing makes, how their
//! answers are combined, and the user and detail built from answers.
use vstd::prelude::*;

use crate::ado::{
    AdoConnectionData, AdoPolicyEvaluation, AdoPullRequest, evaluation_of, map_policy_evaluation,
    map_pull_request, pr_mapped, pr_web_url, pr_web_url_text,
};
use crate::client::{AzureDevOpsClient, pull_requests_by_project_path, pull_requests_by_project_path_text,
    pull_requests_by_repo_path, pull_requests_by_repo_path_text,
};
use crate::config::{AzureDevOpsConfig, ProjectFilter};
use crate::fetch::ProviderError;
use crate::model::{PrDetail, PrId, PolicyStatus, ProviderType, PullRequest, UserId};
use crate::text::{decimal, eq_ignore_ascii_case, eq_ignore_ascii_case_text, push_decimal, trim_end_char};

verus! {

/// One configured Azure DevOps organization.
#[derive(Debug)]
pub struct AzureDevOpsProvider {
    name: String,
    client: AzureDevOpsClient,
    projects: Vec<ProjectFilter>,
}

/// A copy of the project filters.
fn clone_projects(v: &Vec<ProjectFilter>) -> (r: Vec<ProjectFilter>)
    ensures
        r@.len() == v@.len(),
        forall|i: int| 0 <= i < v@.len() ==> #[trigger] r@[i].name == v@[i].name && r@[i].repos@ == v@[i].repos@,
{
    let mut r: Vec<ProjectFilter> = Vec::new();
    let mut i: usize = 0;
    while i < v.len()
        invariant
            i <= v@.len(),
            r@.len() == i,
            forall|j: int| 0 <= j < i ==> #[trigger] r@[j].name == v@[j].name && r@[j].repos@ == v@[j].repos@,
        decreases v@.len() - i,
    {
        r.push(v[i].clone());
        i = i + 1;
    }
    r
}

/// Where a listing looks: the whole organization, as voter or as creator.
pub open spec fn project_names(projects: Seq<ProjectFilter>) -> Seq<Seq<char>> {
    projects.map_values(|p: ProjectFilter| p.name@)
}

impl AzureDevOpsProvider {
    pub closed spec fn name_text(&self) -> Seq<char> {
        self.name@
    }

    pub closed spec fn client_spec(&self) -> AzureDevOpsClient {
        self.client
    }

    pub closed spec fn projects_spec(&self) -> Seq<ProjectFilter> {
        self.projects@
    }

    /// A provider for a configured organization and its token.
    pub fn new(config: &AzureDevOpsConfig, pat: &str) -> (r: Self)
        ensures
            r.name_text() == config.name@,
            r.client_spec().base_url_text() == trim_end_char(config.url@, '/'),
            r.client_spec().auth_header_value() == crate::client::auth_header_text(pat@),
            r.projects_spec().len() == config.projects@.len(),
            forall|i: int|
                0 <= i < config.projects@.len() ==> #[trigger] r.projects_spec()[i].name
                    == config.projects@[i].name && r.projects_spec()[i].repos@
                    == config.projects@[i].repos@,
    {
        AzureDevOpsProvider {
            name: config.name.clone(),
            client: AzureDevOpsClient::new(config.url.as_str(), pat),
            projects: clone_projects(&config.projects),
        }
    }

    /// A provider from a name, an address and a token, watching no extra projects.
    pub fn new_from_params(name: &str, url: &str, token: &str) -> (r: Self)
        ensures
            r.name_text() == name@,
            r.client_spec().base_url_text() == trim_end_char(url@, '/'),
            r.client_spec().auth_header_value() == crate::client::auth_header_text(token@),
            r.projects_spec().len() == 0,
    {
        AzureDevOpsProvider {
            name: String::from_str(name),
            client: AzureDevOpsClient::new(url, token),
            projects: Vec::new(),
        }
    }

    /// The provider's display name (e.g. "contoso").
    pub fn name(&self) -> (r: &str)
        ensures
            r@ == self.name_text(),
    {
        self.name.as_str()
    }

    pub fn provider_type(&self) -> (r: ProviderType)
        ensures
            r == ProviderType::AzureDevOps,
    {
        ProviderType::AzureDevOps
    }

    pub fn client(&self) -> (r: &AzureDevOpsClient)
        ensures
            *r == self.client_spec(),
    {
        &self.client
    }

    pub fn projects(&self) -> (r: &Vec<ProjectFilter>)
        ensures
            r@ == self.projects_spec(),
    {
        &self.projects
    }

    /// The configured projects that the organization does not have, compared
    /// without regard to ASCII case, in configuration order.
    pub fn validate_projects(&self, available: &Vec<String>) -> (r: Vec<String>)
        ensures
            r@.map_values(|s: String| s@) == project_names(self.projects_spec()).filter(absent_from(available@)),
    {
        let ghost names = project_names(self.projects@);
        let ghost keep = absent_from(available@);
        let mut out: Vec<String> = Vec::new();
        let mut i: usize = 0;
        while i < self.projects.len()
            invariant
                i <= self.projects@.len(),
                names == project_names(self.projects@),
                keep == absent_from(available@),
                out@.map_values(|s: String| s@) == names.subrange(0, i as int).filter(keep),
            decreases self.projects@.len() - i,
        {
            let name = &self.projects[i].name;
            let mut found = false;
            let mut j: usize = 0;
            while j < available.len()
                invariant
                    j <= available@.len(),
                    found == exists|k: int| 0 <= k < j && eq_ignore_ascii_case_text(available@[k]@, name@),
                decreases available@.len() - j,
            {
                if eq_ignore_ascii_case(available[j].as_str(), name.as_str()) {
                    found = true;
                }
                j = j + 1;
            }
            proof {
                let pre = names.subrange(0, i + 1);
                assert(pre.drop_last() =~= names.subrange(0, i as int));
                assert(pre.last() == name@);
                assert(keep(name@) == !found);
                reveal_with_fuel(Seq::<_>::filter, 1);
            }
            let ghost before = out@;
            if !found {
                out.push(name.clone());
                assert(out@.map_values(|s: String| s@) =~= before.map_values(|s: String| s@).push(name@));
            }
            i = i + 1;
        }
        assert(names.subrange(0, names.len() as int) =~= names);
        out
    }

    /// The requests a voter listing adds for the configured projects, in
    /// order: a whole project where no repositories are named, else each named
    /// repository.
    pub fn extra_request_paths(&self) -> (r: Vec<String>)
        ensures
            r@.map_values(|s: String| s@) == extra_paths_text(self.projects_spec()),
    {
        let mut out: Vec<String> = Vec::new();
        let mut i: usize = 0;
        while i < self.projects.len()
            invariant
                i <= self.projects@.len(),
                out@.map_values(|s: String| s@) == extra_paths_text(self.projects@.subrange(0, i as int)),
            decreases self.projects@.len() - i,
        {
            let project = &self.projects[i];
            proof {
                let pre = self.projects@.subrange(0, i + 1);
                assert(pre.drop_last() =~= self.projects@.subrange(0, i as int));
                assert(pre.last() == *project);
            }
            let ghost before = out@.map_values(|s: String| s@);
            if project.repos.len() == 0 {
                out.push(pull_requests_by_project_path(project.name.as_str(), None, None));
                assert(out@.map_values(|s: String| s@) =~= before + project_paths_text(*project));
            } else {
                let mut k: usize = 0;
                while k < project.repos.len()
                    invariant
                        k <= project.repos@.len(),
                        project.repos@.len() > 0,
                        out@.map_values(|s: String| s@) == before + repo_paths_text(project.name@, project.repos@.subrange(0, k as int)),
                    decreases project.repos@.len() - k,
                {
                    let ghost b2 = out@.map_values(|s: String| s@);
                    out.push(pull_requests_by_repo_path(project.name.as_str(), project.repos[k].as_str(), None, None));
                    proof {
                        let rs = project.repos@.subrange(0, k + 1);
                        assert(rs.drop_last() =~= project.repos@.subrange(0, k as int));
                        assert(rs.last() == project.repos@[k as int]);
                        assert(out@.map_values(|s: String| s@) =~= b2.push(pull_requests_by_repo_path_text(project.name@, project.repos@[k as int]@, None, None)));
                    }
                    k = k + 1;
                }
                assert(project.repos@.subrange(0, project.repos@.len() as int) =~= project.repos@);
            }
            i = i + 1;
        }
        assert(self.projects@.subrange(0, self.projects@.len() as int) =~= self.projects@);
        out
    }

    /// The current user, from the identity the service returned: the account
    /// name where it has one, else the user id.
    pub fn user_from_connection(&self, conn: &AdoConnectionData) -> (r: UserId)
        ensures
            r.provider@ == self.name_text(),
            r.id@ == conn.authenticated_user.id@,
            r.display_name@ == connection_display_name(*conn),
    {
        let display_name = match &conn.authenticated_user.properties {
            Some(p) => match &p.account {
                Some(a) => match &a.value {
                    Some(v) => v.clone(),
                    None => conn.authenticated_user.id.clone(),
                },
                None => conn.authenticated_user.id.clone(),
            },
            None => conn.authenticated_user.id.clone(),
        };
        UserId { provider: self.name.clone(), id: conn.authenticated_user.id.clone(), display_name }
    }

    /// Combines the answers of a listing: every pull request of the
    /// organization query, then, for a voter listing, those of the project
    /// queries whose number was not seen yet.
    pub fn combine_listing(
        &self,
        org_prs: &Vec<AdoPullRequest>,
        extra_prs: &Vec<AdoPullRequest>,
        reviewer_query: bool,
    ) -> (r: Vec<PullRequest>)
        ensures
            r@.len() == listing_selection(org_prs@, extra_prs@, reviewer_query).len(),
            forall|i: int|
                0 <= i < r@.len() ==> pr_mapped(
                    #[trigger] listing_selection(org_prs@, extra_prs@, reviewer_query)[i],
                    self.name_text(),
                    self.client_spec().base_url_text(),
                    r@[i],
                ),
    {
        let ghost sel = listing_selection(org_prs@, extra_prs@, reviewer_query);
        let mut out: Vec<PullRequest> = Vec::new();
        let mut seen: Vec<u64> = Vec::new();
        let mut i: usize = 0;
        while i < org_prs.len()
            invariant
                i <= org_prs@.len(),
                out@.len() == i,
                seen@ == org_prs@.subrange(0, i as int).map_values(|p: AdoPullRequest| p.pull_request_id),
                forall|j: int| 0 <= j < i ==> pr_mapped(#[trigger] org_prs@[j], self.name@, self.client.base_url_text(), out@[j]),
            decreases org_prs@.len() - i,
        {
            seen.push(org_prs[i].pull_request_id);
            out.push(map_pull_request(&org_prs[i], self.name.as_str(), self.client.base_url()));
            i = i + 1;
            assert(seen@ =~= org_prs@.subrange(0, i as int).map_values(|p: AdoPullRequest| p.pull_request_id));
        }
        assert(org_prs@.subrange(0, org_prs@.len() as int) =~= org_prs@);
        if reviewer_query {
            let ghost org_ids = ids_of(org_prs@);
            assert(seen@.to_set() =~= org_ids);
            let mut k: usize = 0;
            assert(extra_prs@.subrange(0, extra_prs@.len() as int) =~= extra_prs@);
            while k < extra_prs.len()
                invariant
                    k <= extra_prs@.len(),
                    sel == org_prs@ + new_extras(org_ids, extra_prs@),
                    out@.len() + new_extras(seen@.to_set(), extra_prs@.subrange(k as int, extra_prs@.len() as int)).len() == sel.len(),
                    forall|j: int| 0 <= j < out@.len() ==> pr_mapped(#[trigger] sel[j], self.name@, self.client.base_url_text(), out@[j]),
                    sel.subrange(out@.len() as int, sel.len() as int) == new_extras(seen@.to_set(), extra_prs@.subrange(k as int, extra_prs@.len() as int)),
                decreases extra_prs@.len() - k,
            {
                let id = extra_prs[k].pull_request_id;
                let mut already = false;
                let mut m: usize = 0;
                while m < seen.len()
                    invariant
                        m <= seen@.len(),
                        already == exists|q: int| 0 <= q < m && seen@[q] == id,
                    decreases seen@.len() - m,
                {
                    if seen[m] == id {
                        already = true;
                    }
                    m = m + 1;
                }
                let ghost rest = extra_prs@.subrange(k as int, extra_prs@.len() as int);
                assert(rest[0] == extra_prs@[k as int]);
                assert(rest.drop_first() =~= extra_prs@.subrange(k + 1, extra_prs@.len() as int));
                assert(already == seen@.to_set().contains(id)) by {
                    if already {
                        let q = choose|q: int| 0 <= q < m && seen@[q] == id;
                        assert(seen@.contains(id));
                    }
                }
                let ghost old_set = seen@.to_set();
                let ghost old_seen = seen@;
                if !already {
                    assert(new_extras(old_set, rest) == seq![rest[0]] + new_extras(old_set.insert(id), rest.drop_first()));
                    let ghost n = out@.len();
                    out.push(map_pull_request(&extra_prs[k], self.name.as_str(), self.client.base_url()));
                    seen.push(id);
                    proof {
                        Seq::lemma_to_set_insert_commutes(old_seen, id);
                        assert(old_seen + seq![id] =~= seen@);
                    }
                    assert(sel.subrange(n as int, sel.len() as int)[0] == rest[0]);
                    assert(sel[n as int] == extra_prs@[k as int]);
                    assert(sel.subrange(out@.len() as int, sel.len() as int) =~= sel.subrange(n as int, sel.len() as int).drop_first());
                } else {
                    assert(new_extras(old_set, rest) == new_extras(old_set, rest.drop_first()));
                }
                k = k + 1;
            }
        } else {
            assert(listing_selection(org_prs@, extra_prs@, reviewer_query) =~= org_prs@);
        }
        out
    }

    /// The detail of `pr_id`, from the repository's pull requests and, where
    /// they could be fetched, its policy evaluations.
    pub fn detail_from(
        &self,
        pr_id: &PrId,
        repo_prs: &Vec<AdoPullRequest>,
        evaluations: Option<&Vec<AdoPolicyEvaluation>>,
    ) -> (r: Result<PrDetail, ProviderError>)
        ensures
            match first_with_number(repo_prs@, pr_id.number) {
                Some(i) => r matches Ok(d) && pr_mapped(repo_prs@[i], self.name_text(), self.client_spec().base_url_text(), d.pr)
                    && d.diff_stats is None && d.build_status is None
                    && d.policies@.len() == (match evaluations { Some(e) => e@.len(), None => 0 })
                    && (forall|j: int| 0 <= j < d.policies@.len() ==> #[trigger] policy_matches(evaluations.unwrap()@[j], d.policies@[j])),
                None => r matches Err(ProviderError::Other(m)) && m@ == "PR "@ + decimal(pr_id.number as nat) + " not found"@,
            },
    {
        let mut i: usize = 0;
        while i < repo_prs.len() && repo_prs[i].pull_request_id != pr_id.number
            invariant
                i <= repo_prs@.len(),
                first_with_number(repo_prs@, pr_id.number) == first_with_number_from(repo_prs@, pr_id.number, i as int),
            decreases repo_prs@.len() - i,
        {
            i = i + 1;
        }
        if i == repo_prs.len() {
            let mut m = String::from_str("PR ");
            push_decimal(&mut m, pr_id.number);
            crate::text::push_str(&mut m, " not found");
            return Err(ProviderError::Other(m));
        }
        let pr = map_pull_request(&repo_prs[i], self.name.as_str(), self.client.base_url());
        let mut policies: Vec<PolicyStatus> = Vec::new();
        match evaluations {
            Some(evals) => {
                let mut k: usize = 0;
                while k < evals.len()
                    invariant
                        k <= evals@.len(),
                        policies@.len() == k,
                        forall|j: int| 0 <= j < k ==> #[trigger] policy_matches(evals@[j], policies@[j]),
                    decreases evals@.len() - k,
                {
                    policies.push(map_policy_evaluation(&evals[k]));
                    k = k + 1;
                }
            },
            None => {},
        }
        Ok(PrDetail { pr, diff_stats: None, build_status: None, policies })
    }

    /// The web page of a pull request of this organization.
    pub fn web_url(&self, pr_id: &PrId) -> (r: String)
        ensures
            r@ == pr_web_url_text(self.client_spec().base_url_text(), pr_id.project@, pr_id.repository@, pr_id.number),
    {
        pr_web_url(self.client.base_url(), pr_id.project.as_str(), pr_id.repository.as_str(), pr_id.number)
    }
}

/// How a connected provider is listed: "name (display name)".
pub open spec fn provider_label_text(name: Seq<char>, display_name: Seq<char>) -> Seq<char> {
    name + " ("@ + display_name + ")"@
}

pub fn provider_label(name: &str, display_name: &str) -> (r: String)
    ensures
        r@ == provider_label_text(name@, display_name@),
{
    let mut r = String::from_str(name);
    crate::text::push_str(&mut r, " (");
    crate::text::push_str(&mut r, display_name);
    crate::text::push_str(&mut r, ")");
    r
}

/// The identity's account name where present, else its id.
pub open spec fn connection_display_name(conn: AdoConnectionData) -> Seq<char> {
    match conn.authenticated_user.properties {
        Some(p) => match p.account {
            Some(a) => match a.value {
                Some(v) => v@,
                None => conn.authenticated_user.id@,
            },
            None => conn.authenticated_user.id@,
        },
        None => conn.authenticated_user.id@,
    }
}

pub open spec fn repo_paths_text(project: Seq<char>, repos: Seq<String>) -> Seq<Seq<char>>
    decreases repos.len(),
{
    if repos.len() == 0 {
        seq![]
    } else {
        repo_paths_text(project, repos.drop_last()).push(
            pull_requests_by_repo_path_text(project, repos.last()@, None, None),
        )
    }
}

pub open spec fn project_paths_text(p: ProjectFilter) -> Seq<Seq<char>> {
    if p.repos@.len() == 0 {
        seq![pull_requests_by_project_path_text(p.name@, None, None)]
    } else {
        repo_paths_text(p.name@, p.repos@)
    }
}

/// The extra requests of a voter listing, project by project.
pub open spec fn extra_paths_text(projects: Seq<ProjectFilter>) -> Seq<Seq<char>>
    decreases projects.len(),
{
    if projects.len() == 0 {
        seq![]
    } else {
        extra_paths_text(projects.drop_last()) + project_paths_text(projects.last())
    }
}

pub open spec fn ids_of(prs: Seq<AdoPullRequest>) -> Set<u64> {
    prs.map_values(|p: AdoPullRequest| p.pull_request_id).to_set()
}

/// The pull requests of `extra` whose numbers are not in `seen` nor earlier
/// in `extra`, in order.
pub open spec fn new_extras(seen: Set<u64>, extra: Seq<AdoPullRequest>) -> Seq<AdoPullRequest>
    decreases extra.len(),
{
    if extra.len() == 0 {
        seq![]
    } else if seen.contains(extra[0].pull_request_id) {
        new_extras(seen, extra.drop_first())
    } else {
        seq![extra[0]] + new_extras(seen.insert(extra[0].pull_request_id), extra.drop_first())
    }
}

/// The answers a listing keeps, in order.
pub open spec fn listing_selection(org: Seq<AdoPullRequest>, extra: Seq<AdoPullRequest>, reviewer_query: bool) -> Seq<AdoPullRequest> {
    if reviewer_query {
        org + new_extras(ids_of(org), extra)
    } else {
        org
    }
}

/// The position of the first pull request numbered `n` at or after `from`.
pub open spec fn first_with_number_from(prs: Seq<AdoPullRequest>, n: u64, from: int) -> Option<int>
    decreases prs.len() - from,
{
    if from < 0 || from >= prs.len() {
        None
    } else if prs[from].pull_request_id == n {
        Some(from)
    } else {
        first_with_number_from(prs, n, from + 1)
    }
}

pub open spec fn first_with_number(prs: Seq<AdoPullRequest>, n: u64) -> Option<int> {
    first_with_number_from(prs, n, 0)
}

pub open spec fn policy_matches(e: AdoPolicyEvaluation, p: PolicyStatus) -> bool {
    &&& p.name@ == e.configuration.policy_type.display_name@
    &&& p.is_blocking == e.configuration.is_blocking
    &&& p.status == evaluation_of(e.status@)
}

/// The names that no available project matches, without regard to ASCII case.
pub open spec fn absent_from(available: Seq<String>) -> spec_fn(Seq<char>) -> bool {
    |n: Seq<char>| !exists|j: int| 0 <= j < available.len() && eq_ignore_ascii_case_text(available[j]@, n)
}

} // verus!
