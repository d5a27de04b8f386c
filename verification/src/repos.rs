//! The repository picker's data: every repository the operator can reach,
//! grouped by owner and led by whatever was pushed to most recently.
//!
//! GitHub is asked once and the answer is cached, because the list changes on
//! the timescale of a working day and the new-session form is opened often.

use vstd::prelude::*;

use crate::order;
use crate::protocol::{RepoChoice, RepoList, RepoOwner, Timestamp};
use crate::text;

verus! {

/// How long an answer is kept: five minutes, in nanoseconds.
pub const CACHE_TTL_NANOS: u128 = 300_000_000_000;

/// How many repositories a page holds.
pub const PER_PAGE: usize = 100;

/// How many pages are asked for at most.
pub const MAX_PAGES: usize = 5;

/// The owner of a repository, as GitHub names it.
#[derive(Debug)]
pub struct GhOwner {
    pub login: String,
}

/// A repository, as GitHub lists it.
#[derive(Debug)]
pub struct GhRepo {
    pub full_name: String,
    pub name: String,
    pub owner: GhOwner,
    pub private: bool,
    pub clone_url: String,
    pub pushed_at: Option<Timestamp>,
    pub archived: bool,
}

/// The view of a repository in the picker.
pub struct RepoView {
    pub full_name: Seq<char>,
    pub owner: Seq<char>,
    pub name: Seq<char>,
    pub private: bool,
    pub url: Seq<char>,
    pub pushed_at: Option<Timestamp>,
}

impl View for RepoChoice {
    type V = RepoView;

    open spec fn view(&self) -> RepoView {
        RepoView {
            full_name: self.full_name@,
            owner: self.owner@,
            name: self.name@,
            private: self.private,
            url: self.url@,
            pushed_at: self.pushed_at,
        }
    }
}

impl Clone for RepoChoice {
    fn clone(&self) -> (copy: Self)
        ensures
            copy@ == self@,
    {
        RepoChoice {
            full_name: self.full_name.clone(),
            owner: self.owner.clone(),
            name: self.name.clone(),
            private: self.private,
            url: self.url.clone(),
            pushed_at: self.pushed_at,
        }
    }
}

/// The views of a list of repositories.
pub open spec fn repo_rows(repos: Seq<RepoChoice>) -> Seq<RepoView> {
    repos.map_values(|repo: RepoChoice| repo@)
}

/// The view of an owner in the picker.
#[verifier::ext_equal]
pub struct OwnerView {
    pub login: Seq<char>,
    pub repos: Seq<RepoView>,
}

impl View for RepoOwner {
    type V = OwnerView;

    open spec fn view(&self) -> OwnerView {
        OwnerView { login: self.login@, repos: repo_rows(self.repos@) }
    }
}

/// A copy of a list of repositories.
fn copy_repos(repos: &Vec<RepoChoice>) -> (copy: Vec<RepoChoice>)
    ensures
        repo_rows(copy@) == repo_rows(repos@),
{
    let mut copy: Vec<RepoChoice> = Vec::new();
    let mut i: usize = 0;
    while i < repos.len()
        invariant
            i <= repos@.len(),
            repo_rows(copy@) == repo_rows(repos@).take(i as int),
        decreases repos@.len() - i,
    {
        let ghost before = copy@;
        copy.push(repos[i].clone());
        proof {
            let all = repo_rows(repos@);
            assert(repo_rows(copy@) =~= repo_rows(before).push(all[i as int]));
            assert(all.take(i + 1) =~= all.take(i as int).push(all[i as int]));
        }
        i += 1;
    }
    proof {
        assert(repo_rows(repos@).take(i as int) =~= repo_rows(repos@));
    }
    copy
}

impl Clone for RepoOwner {
    fn clone(&self) -> (copy: Self)
        ensures
            copy@ == self@,
    {
        RepoOwner { login: self.login.clone(), repos: copy_repos(&self.repos) }
    }
}

/// The views of a list of owners.
pub open spec fn owner_rows(owners: Seq<RepoOwner>) -> Seq<OwnerView> {
    owners.map_values(|owner: RepoOwner| owner@)
}

/// What the picker offers of a repository.
pub open spec fn choice_of(repo: GhRepo) -> RepoView {
    RepoView {
        full_name: repo.full_name@,
        owner: repo.owner.login@,
        name: repo.name@,
        private: repo.private,
        url: repo.clone_url@,
        pushed_at: repo.pushed_at,
    }
}

/// What the picker offers: the repositories that are not archived.
pub open spec fn live(repos: Seq<GhRepo>) -> Seq<RepoView> {
    repos.filter(|repo: GhRepo| !repo.archived).map_values(|repo: GhRepo| choice_of(repo))
}

/// The owners of some repositories, each once, in the order in which they
/// first occur.
pub open spec fn logins(repos: Seq<RepoView>) -> Seq<Seq<char>>
    decreases repos.len(),
{
    if repos.len() == 0 {
        Seq::empty()
    } else {
        let rest = logins(repos.drop_last());
        if rest.contains(repos.last().owner) {
            rest
        } else {
            rest.push(repos.last().owner)
        }
    }
}

/// The repositories of one owner.
pub open spec fn owned_by(repos: Seq<RepoView>, login: Seq<char>) -> Seq<RepoView> {
    repos.filter(|repo: RepoView| repo.owner == login)
}

/// When a repository was last pushed to.
pub open spec fn pushed() -> spec_fn(RepoView) -> Option<Timestamp> {
    |repo: RepoView| repo.pushed_at
}

/// When the repository that leads an owner's list was last pushed to.
pub open spec fn latest() -> spec_fn(OwnerView) -> Option<Timestamp> {
    |owner: OwnerView|
        if owner.repos.len() > 0 {
            owner.repos[0].pushed_at
        } else {
            None
        }
}

/// One entry for each owner, with its repositories, the most recently pushed
/// first.
pub open spec fn is_grouped(repos: Seq<RepoView>, groups: Seq<OwnerView>) -> bool {
    &&& groups.len() == logins(repos).len()
    &&& forall|k: int|
        0 <= k < groups.len() ==> (#[trigger] groups[k]).login == logins(repos)[k]
            && order::is_by_newest(owned_by(repos, logins(repos)[k]), pushed(), groups[k].repos)
}

/// The picker: owners lead with whoever was pushed to most recently, and so
/// do their repositories.
pub open spec fn is_picker(repos: Seq<RepoView>, owners: Seq<OwnerView>) -> bool {
    exists|groups: Seq<OwnerView>| #[trigger]
        is_grouped(repos, groups) && order::is_by_newest(groups, latest(), owners)
}

/// What the picker offers: the repositories that are not archived.
fn live_choices(repos: &Vec<GhRepo>) -> (choices: Vec<RepoChoice>)
    ensures
        repo_rows(choices@) == live(repos@),
{
    let ghost test = |repo: GhRepo| !repo.archived;
    let ghost view = |repo: GhRepo| choice_of(repo);
    let mut choices: Vec<RepoChoice> = Vec::new();
    let mut i: usize = 0;
    proof {
        reveal(Seq::filter);
        assert(repo_rows(choices@) =~= repos@.take(0).filter(test).map_values(view));
    }
    while i < repos.len()
        invariant
            i <= repos@.len(),
            test == (|repo: GhRepo| !repo.archived),
            view == (|repo: GhRepo| choice_of(repo)),
            repo_rows(choices@) == repos@.take(i as int).filter(test).map_values(view),
        decreases repos@.len() - i,
    {
        proof {
            order::lemma_filter_take(repos@, test, i as int);
        }
        if !repos[i].archived {
            let ghost before = choices@;
            let repo: &GhRepo = &repos[i];
            choices.push(
                RepoChoice {
                    full_name: repo.full_name.clone(),
                    owner: repo.owner.login.clone(),
                    name: repo.name.clone(),
                    private: repo.private,
                    url: repo.clone_url.clone(),
                    pushed_at: repo.pushed_at,
                },
            );
            proof {
                assert(repo_rows(choices@) =~= repo_rows(before).push(choice_of(*repo)));
                assert(repos@.take(i + 1).filter(test).map_values(view) =~= repos@.take(
                    i as int,
                ).filter(test).map_values(view).push(choice_of(*repo)));
            }
        }
        i += 1;
    }
    proof {
        assert(repos@.take(i as int) =~= repos@);
    }
    choices
}

/// Whether the list holds the text.
fn has_text(list: &Vec<String>, wanted: &str) -> (yes: bool)
    ensures
        yes == text::texts(list@).contains(wanted@),
{
    let mut i: usize = 0;
    while i < list.len()
        invariant
            i <= list@.len(),
            forall|k: int| 0 <= k < i ==> text::texts(list@)[k] != wanted@,
        decreases list@.len() - i,
    {
        if text::same_text(&list[i], wanted) {
            assert(text::texts(list@)[i as int] == wanted@);
            return true;
        }
        i += 1;
    }
    false
}

/// The owners of some repositories, each once.
fn collect_logins(repos: &Vec<RepoChoice>) -> (found: Vec<String>)
    ensures
        text::texts(found@) == logins(repo_rows(repos@)),
{
    let ghost rows = repo_rows(repos@);
    let mut found: Vec<String> = Vec::new();
    let mut i: usize = 0;
    proof {
        assert(text::texts(found@) =~= logins(rows.take(0)));
    }
    while i < repos.len()
        invariant
            i <= repos@.len(),
            rows == repo_rows(repos@),
            text::texts(found@) == logins(rows.take(i as int)),
        decreases repos@.len() - i,
    {
        proof {
            assert(rows.take(i + 1).drop_last() =~= rows.take(i as int));
            assert(rows.take(i + 1).last() == repos@[i as int]@);
        }
        if !has_text(&found, &repos[i].owner) {
            let ghost before = found@;
            found.push(repos[i].owner.clone());
            assert(text::texts(found@) =~= text::texts(before).push(repos@[i as int].owner@));
        }
        i += 1;
    }
    proof {
        assert(rows.take(i as int) =~= rows);
    }
    found
}

/// The repositories of one owner, the most recently pushed first.
fn repos_of(repos: &Vec<RepoChoice>, login: &str) -> (sorted: Vec<RepoChoice>)
    ensures
        order::is_by_newest(
            owned_by(repo_rows(repos@), login@),
            pushed(),
            repo_rows(sorted@),
        ),
{
    let ghost rows = repo_rows(repos@);
    let ghost test = |repo: RepoView| repo.owner == login@;
    let mut mine: Vec<RepoChoice> = Vec::new();
    let mut times: Vec<Option<Timestamp>> = Vec::new();
    let mut i: usize = 0;
    proof {
        reveal(Seq::filter);
        assert(repo_rows(mine@) =~= rows.take(0).filter(test));
        assert(times@ =~= repo_rows(mine@).map_values(pushed()));
    }
    while i < repos.len()
        invariant
            i <= repos@.len(),
            rows == repo_rows(repos@),
            test == (|repo: RepoView| repo.owner == login@),
            repo_rows(mine@) == rows.take(i as int).filter(test),
            times@ == repo_rows(mine@).map_values(pushed()),
        decreases repos@.len() - i,
    {
        proof {
            order::lemma_filter_take(rows, test, i as int);
            assert(rows[i as int] == repos@[i as int]@);
        }
        if text::same_text(&repos[i].owner, login) {
            let ghost before = mine@;
            mine.push(repos[i].clone());
            times.push(repos[i].pushed_at);
            proof {
                assert(repo_rows(mine@) =~= repo_rows(before).push(rows[i as int]));
                assert(times@ =~= repo_rows(mine@).map_values(pushed()));
            }
        }
        i += 1;
    }
    proof {
        assert(rows.take(i as int) =~= rows);
    }
    let order: Vec<usize> = order::newest_first(&times);
    let mut sorted: Vec<RepoChoice> = Vec::new();
    let mut k: usize = 0;
    while k < order.len()
        invariant
            k <= order@.len(),
            times@.len() == mine@.len(),
            order::is_newest_first(times@, order::places(order@)),
            repo_rows(sorted@) == order::arranged(
                repo_rows(mine@),
                order::places(order@),
            ).take(k as int),
        decreases order@.len() - k,
    {
        let ghost before = sorted@;
        assert(order::places(order@)[k as int] == order@[k as int] as int);
        sorted.push(mine[order[k]].clone());
        proof {
            let all = order::arranged(repo_rows(mine@), order::places(order@));
            assert(repo_rows(sorted@) =~= repo_rows(before).push(all[k as int]));
            assert(all.take(k + 1) =~= all.take(k as int).push(all[k as int]));
        }
        k += 1;
    }
    proof {
        let all = order::arranged(repo_rows(mine@), order::places(order@));
        assert(all.take(k as int) =~= all);
        assert(order::is_newest_first(
            repo_rows(mine@).map_values(pushed()),
            order::places(order@),
        ));
    }
    sorted
}

/// One entry for each owner, with its repositories.
fn groups_of(repos: &Vec<RepoChoice>) -> (groups: Vec<RepoOwner>)
    ensures
        is_grouped(repo_rows(repos@), owner_rows(groups@)),
{
    let ghost rows = repo_rows(repos@);
    let names: Vec<String> = collect_logins(repos);
    let mut groups: Vec<RepoOwner> = Vec::new();
    let mut i: usize = 0;
    while i < names.len()
        invariant
            i <= names@.len(),
            rows == repo_rows(repos@),
            text::texts(names@) == logins(rows),
            groups@.len() == i,
            forall|k: int|
                0 <= k < i ==> (#[trigger] groups@[k])@.login == logins(rows)[k]
                    && order::is_by_newest(
                    owned_by(rows, logins(rows)[k]),
                    pushed(),
                    groups@[k]@.repos,
                ),
        decreases names@.len() - i,
    {
        assert(text::texts(names@)[i as int] == names@[i as int]@);
        let mine: Vec<RepoChoice> = repos_of(repos, &names[i]);
        groups.push(RepoOwner { login: names[i].clone(), repos: mine });
        i += 1;
    }
    proof {
        assert(text::texts(names@).len() == names@.len());
        let all = owner_rows(groups@);
        assert forall|k: int| 0 <= k < all.len() implies (#[trigger] all[k]).login
            == logins(rows)[k] && order::is_by_newest(
            owned_by(rows, logins(rows)[k]),
            pushed(),
            all[k].repos,
        ) by {
            assert(all[k] == groups@[k]@);
        }
    }
    groups
}

/// Groups repositories by owner. Owners lead with whoever was pushed to most
/// recently, and so do their repositories: the thing you touched last is the
/// thing you want next. Archived repositories are left out.
pub fn group_by_owner(repos: Vec<GhRepo>) -> (owners: Vec<RepoOwner>)
    ensures
        is_picker(live(repos@), owner_rows(owners@)),
{
    let choices: Vec<RepoChoice> = live_choices(&repos);
    let groups: Vec<RepoOwner> = groups_of(&choices);
    let ghost rows = owner_rows(groups@);
    let mut times: Vec<Option<Timestamp>> = Vec::new();
    let mut i: usize = 0;
    while i < groups.len()
        invariant
            i <= groups@.len(),
            rows == owner_rows(groups@),
            times@ == rows.map_values(latest()).take(i as int),
        decreases groups@.len() - i,
    {
        let lead: Option<Timestamp> = if groups[i].repos.len() > 0 {
            groups[i].repos[0].pushed_at
        } else {
            None
        };
        proof {
            let all = rows.map_values(latest());
            assert(rows[i as int] == groups@[i as int]@);
            if groups@[i as int].repos@.len() > 0 {
                assert(rows[i as int].repos[0] == groups@[i as int].repos@[0]@);
            }
            assert(all[i as int] == lead);
            assert(all.take(i + 1) =~= all.take(i as int).push(all[i as int]));
        }
        times.push(lead);
        i += 1;
    }
    proof {
        assert(times@ =~= rows.map_values(latest()));
    }
    let order: Vec<usize> = order::newest_first(&times);
    let mut owners: Vec<RepoOwner> = Vec::new();
    let mut k: usize = 0;
    while k < order.len()
        invariant
            k <= order@.len(),
            rows == owner_rows(groups@),
            times@.len() == groups@.len(),
            order::is_newest_first(times@, order::places(order@)),
            owner_rows(owners@) == order::arranged(rows, order::places(order@)).take(k as int),
        decreases order@.len() - k,
    {
        let ghost before = owners@;
        assert(order::places(order@)[k as int] == order@[k as int] as int);
        owners.push(groups[order[k]].clone());
        proof {
            let all = order::arranged(rows, order::places(order@));
            assert(owner_rows(owners@) =~= owner_rows(before).push(all[k as int]));
            assert(all.take(k + 1) =~= all.take(k as int).push(all[k as int]));
        }
        k += 1;
    }
    proof {
        let all = order::arranged(rows, order::places(order@));
        assert(all.take(k as int) =~= all);
        assert(order::is_newest_first(rows.map_values(latest()), order::places(order@)));
        assert(is_grouped(live(repos@), rows));
    }
    owners
}

// ---------------------------------------------------------------------------
// Asking GitHub
// ---------------------------------------------------------------------------

/// The tokens of a comma-separated list, without the empty ones.
pub open spec fn token_list(list: Seq<char>) -> Seq<Seq<char>>
    decreases list.len(),
{
    proof {
        text::lemma_place_of(list, ',');
    }
    let p = text::place_of(list, ',');
    let first = text::trimmed(list.take(p));
    let rest = if p < list.len() {
        token_list(list.skip(p + 1))
    } else {
        Seq::empty()
    };
    if first.len() > 0 {
        seq![first] + rest
    } else {
        rest
    }
}

/// The tokens that the operator configured: none, one as it stands, or those
/// of a comma-separated list.
pub open spec fn tokens_of(value: Option<Seq<char>>) -> Seq<Seq<char>> {
    match value {
        Some(list) => if list.contains(',') {
            token_list(list)
        } else if text::is_blank(list) {
            Seq::empty()
        } else {
            seq![list]
        },
        None => Seq::empty(),
    }
}

/// The tokens that the operator configured.
pub fn github_tokens(value: &Option<String>) -> (tokens: Vec<String>)
    ensures
        text::texts(tokens@) == tokens_of(text::opt_text(*value)),
{
    let mut tokens: Vec<String> = Vec::new();
    match value {
        Some(list) => {
            let chars: Vec<char> = text::chars_of(list);
            let n: usize = chars.len();
            let comma: usize = text::find_in(&chars, 0, n, ',');
            proof {
                assert(chars@.subrange(0, n as int) =~= list@);
                text::lemma_place_of(list@, ',');
            }
            if comma >= n {
                assert(!list@.contains(','));
                if !text::blank(list) {
                    tokens.push(list.clone());
                }
                assert(text::texts(tokens@) =~= tokens_of(Some(list@)));
                return tokens;
            }
            assert(list@[comma as int] == ',');
            let mut from: usize = 0;
            proof {
                assert(chars@.subrange(0, n as int) =~= list@);
                assert(text::texts(tokens@) + token_list(list@) =~= token_list(list@));
            }
            loop
                invariant_except_break
                    from <= n == chars@.len(),
                    text::texts(tokens@) + token_list(chars@.subrange(from as int, n as int))
                        == token_list(list@),
                ensures
                    text::texts(tokens@) == token_list(list@),
                decreases n - from,
            {
                let ghost rest = chars@.subrange(from as int, n as int);
                let p: usize = text::find_in(&chars, from, n, ',');
                let part: String = text::text_range(&chars, from, p);
                assert(part@ =~= rest.take(p - from));
                let token: String = text::trim(&part);
                let ghost before = text::texts(tokens@);
                if !token.as_str().is_empty() {
                    let ghost old_tokens = tokens@;
                    tokens.push(token);
                    assert(text::texts(tokens@) =~= text::texts(old_tokens).push(
                        text::trimmed(part@),
                    ));
                }
                if p >= n {
                    proof {
                        assert(text::texts(tokens@) =~= before + token_list(rest));
                    }
                    break;
                }
                proof {
                    assert(rest.skip(p - from + 1) =~= chars@.subrange(p + 1, n as int));
                    assert(text::texts(tokens@) + token_list(chars@.subrange(p + 1, n as int))
                        =~= before + token_list(rest));
                }
                from = p + 1;
            }
        },
        None => {
            assert(text::texts(tokens@) =~= Seq::empty());
        },
    }
    tokens
}

/// The address of a page of the operator's repositories.
pub open spec fn page_address(page: nat) -> Seq<char> {
    "https://api.github.com/user/repos?affiliation=owner,organization_member&sort=pushed&direction=desc&per_page="@
        + text::decimal(PER_PAGE as nat) + "&page="@ + text::decimal(page)
}

/// The address of a page of the operator's repositories.
pub fn page_url(page: usize) -> (url: String)
    ensures
        url@ == page_address(page as nat),
{
    let mut url: String =
        "https://api.github.com/user/repos?affiliation=owner,organization_member&sort=pushed&direction=desc&per_page=".to_string();
    url.append(&text::decimal_text(PER_PAGE as u64));
    url.append("&page=");
    url.append(&text::decimal_text(page as u64));
    url
}

/// The page that follows one that held so many repositories, if one is asked
/// for.
pub open spec fn next_page(page: usize, count: usize) -> Option<usize> {
    if count < PER_PAGE || page >= MAX_PAGES {
        None
    } else {
        Some((page + 1) as usize)
    }
}

/// The page to ask for after one that held so many repositories: none after
/// a short one, and none after the last that is asked for.
pub fn page_after(page: usize, count: usize) -> (next: Option<usize>)
    ensures
        next == next_page(page, count),
{
    if count < PER_PAGE || page >= MAX_PAGES {
        None
    } else {
        Some(page + 1)
    }
}

/// What to do when the list is asked for.
#[derive(Debug, Clone, Copy, PartialEq, Eq, Structural)]
pub enum ListStep {
    /// No token is configured: the picker is simply unavailable.
    Unavailable,
    /// The last answer is recent enough.
    Cached,
    /// GitHub has to be asked.
    Fetch,
}

/// What is done with so many tokens and a last answer of that age.
pub open spec fn step_for(tokens: usize, age_nanos: Option<u128>) -> ListStep {
    if tokens == 0 {
        ListStep::Unavailable
    } else if age_nanos is Some && age_nanos->0 < CACHE_TTL_NANOS {
        ListStep::Cached
    } else {
        ListStep::Fetch
    }
}

/// What to do when the list is asked for, given how many tokens there are and
/// how old the last answer is.
pub fn list_step(tokens: usize, age_nanos: Option<u128>) -> (step: ListStep)
    ensures
        step == step_for(tokens, age_nanos),
{
    if tokens == 0 {
        return ListStep::Unavailable;
    }
    match age_nanos {
        Some(age) => if age < CACHE_TTL_NANOS {
            ListStep::Cached
        } else {
            ListStep::Fetch
        },
        None => ListStep::Fetch,
    }
}

/// The answer where there is no list to show, with the reason if there is one.
pub fn no_list(error: Option<String>) -> (list: RepoList)
    ensures
        list.owners@ =~= Seq::empty(),
        !list.available,
        text::opt_text(list.error) == text::opt_text(error),
{
    RepoList { owners: Vec::new(), available: false, error }
}

/// The answer to a list that was asked for: what GitHub returned, or why it
/// did not. Only an answer that is available is worth keeping.
pub fn fetched(answer: Result<Vec<GhRepo>, String>) -> (list: RepoList)
    ensures
        match answer {
            Ok(repos) => {
                &&& list.available
                &&& list.error is None
                &&& is_picker(live(repos@), owner_rows(list.owners@))
            },
            Err(error) => {
                &&& !list.available
                &&& text::opt_text(list.error) == Some(error@)
                &&& list.owners@.len() == 0
            },
        },
{
    match answer {
        Ok(repos) => RepoList { owners: group_by_owner(repos), available: true, error: None },
        Err(error) => no_list(Some(error)),
    }
}

// ---------------------------------------------------------------------------
// The answers to several tokens
// ---------------------------------------------------------------------------

/// Two records of the same repository that say the same of it.
pub open spec fn same_repo(a: GhRepo, b: GhRepo) -> bool {
    choice_of(a) == choice_of(b) && a.archived == b.archived
}

/// The repository is among those that were found.
pub open spec fn listed(found: Seq<GhRepo>, repo: GhRepo) -> bool {
    exists|i: int| 0 <= i < found.len() && same_repo(#[trigger] found[i], repo)
}

/// What was found, and behind it what another token reaches besides.
pub open spec fn joined(found: Seq<GhRepo>, answer: Seq<GhRepo>) -> Seq<GhRepo> {
    found + answer.filter(|repo: GhRepo| !listed(found, repo))
}

/// What several tokens reach together, one answer after the other.
pub open spec fn merged(answers: Seq<Seq<GhRepo>>) -> Seq<GhRepo>
    decreases answers.len(),
{
    if answers.len() == 0 {
        Seq::empty()
    } else {
        joined(merged(answers.drop_last()), answers.last())
    }
}

/// The repositories of each answer.
pub open spec fn answer_rows(answers: Seq<Vec<GhRepo>>) -> Seq<Seq<GhRepo>> {
    answers.map_values(|answer: Vec<GhRepo>| answer@)
}

/// Whether two records say the same of the same repository.
fn is_same_repo(a: &GhRepo, b: &GhRepo) -> (yes: bool)
    ensures
        yes == same_repo(*a, *b),
{
    text::same_text(&a.full_name, &b.full_name) && text::same_text(&a.name, &b.name)
        && text::same_text(&a.owner.login, &b.owner.login) && a.private == b.private
        && text::same_text(&a.clone_url, &b.clone_url) && a.archived == b.archived && (match (
        a.pushed_at,
        b.pushed_at,
    ) {
        (Some(a), Some(b)) => a == b,
        (None, None) => true,
        _ => false,
    })
}

/// Whether the repository is among the first `n` that were found.
fn is_listed(found: &Vec<GhRepo>, n: usize, repo: &GhRepo) -> (yes: bool)
    requires
        n <= found@.len(),
    ensures
        yes == listed(found@.take(n as int), *repo),
{
    let ghost few = found@.take(n as int);
    let mut i: usize = 0;
    while i < n
        invariant
            i <= n <= found@.len(),
            few == found@.take(n as int),
            forall|k: int| 0 <= k < i ==> !same_repo(#[trigger] few[k], *repo),
        decreases n - i,
    {
        assert(few[i as int] == found@[i as int]);
        if is_same_repo(&found[i], repo) {
            return true;
        }
        i += 1;
    }
    false
}

/// A copy of a repository's record.
fn copy_repo(repo: &GhRepo) -> (copy: GhRepo)
    ensures
        copy == *repo,
{
    GhRepo {
        full_name: repo.full_name.clone(),
        name: repo.name.clone(),
        owner: GhOwner { login: repo.owner.login.clone() },
        private: repo.private,
        clone_url: repo.clone_url.clone(),
        pushed_at: repo.pushed_at,
        archived: repo.archived,
    }
}

/// What was found, and behind it what another token reaches besides.
fn join_answer(found: Vec<GhRepo>, answer: &Vec<GhRepo>) -> (all: Vec<GhRepo>)
    ensures
        all@ == joined(found@, answer@),
{
    let ghost start = found@;
    let ghost test = |repo: GhRepo| !listed(start, repo);
    let n: usize = found.len();
    let mut all: Vec<GhRepo> = found;
    let mut i: usize = 0;
    proof {
        reveal(Seq::filter);
        assert(all@ =~= start + answer@.take(0).filter(test));
    }
    while i < answer.len()
        invariant
            i <= answer@.len(),
            n == start.len() <= all@.len(),
            test == (|repo: GhRepo| !listed(start, repo)),
            all@ == start + answer@.take(i as int).filter(test),
        decreases answer@.len() - i,
    {
        proof {
            order::lemma_filter_take(answer@, test, i as int);
            assert(all@.take(n as int) =~= start);
        }
        if !is_listed(&all, n, &answer[i]) {
            all.push(copy_repo(&answer[i]));
            assert(all@ =~= start + answer@.take(i + 1).filter(test));
        }
        i += 1;
    }
    proof {
        assert(answer@.take(i as int) =~= answer@);
    }
    all
}

/// What several tokens reach together. A repository that more than one of them
/// reaches is taken once.
pub fn merge_answers(answers: &Vec<Vec<GhRepo>>) -> (found: Vec<GhRepo>)
    ensures
        found@ == merged(answer_rows(answers@)),
{
    let ghost rows = answer_rows(answers@);
    let mut found: Vec<GhRepo> = Vec::new();
    let mut i: usize = 0;
    assert(found@ =~= merged(rows.take(0)));
    while i < answers.len()
        invariant
            i <= answers@.len(),
            rows == answer_rows(answers@),
            found@ == merged(rows.take(i as int)),
        decreases answers@.len() - i,
    {
        proof {
            assert(rows.take(i + 1).drop_last() =~= rows.take(i as int));
            assert(rows.take(i + 1).last() == answers@[i as int]@);
        }
        found = join_answer(found, &answers[i]);
        i += 1;
    }
    proof {
        assert(rows.take(i as int) =~= rows);
    }
    found
}

// ---------------------------------------------------------------------------
// The catalog
// ---------------------------------------------------------------------------

/// The view of the picker's list.
#[verifier::ext_equal]
pub struct ListView {
    pub owners: Seq<OwnerView>,
    pub available: bool,
    pub error: Option<Seq<char>>,
}

impl View for RepoList {
    type V = ListView;

    open spec fn view(&self) -> ListView {
        ListView {
            owners: owner_rows(self.owners@),
            available: self.available,
            error: text::opt_text(self.error),
        }
    }
}

impl Clone for RepoList {
    fn clone(&self) -> (copy: Self)
        ensures
            copy@ == self@,
    {
        let mut owners: Vec<RepoOwner> = Vec::new();
        let mut i: usize = 0;
        while i < self.owners.len()
            invariant
                i <= self.owners@.len(),
                owner_rows(owners@) == owner_rows(self.owners@).take(i as int),
            decreases self.owners@.len() - i,
        {
            let ghost before = owners@;
            owners.push(self.owners[i].clone());
            proof {
                let all = owner_rows(self.owners@);
                assert(owner_rows(owners@) =~= owner_rows(before).push(all[i as int]));
                assert(all.take(i + 1) =~= all.take(i as int).push(all[i as int]));
            }
            i += 1;
        }
        proof {
            assert(owner_rows(self.owners@).take(i as int) =~= owner_rows(self.owners@));
        }
        RepoList { owners, available: self.available, error: text::clone_opt(&self.error) }
    }
}

/// The list where there is none to show.
pub open spec fn empty_list(error: Option<Seq<char>>) -> ListView {
    ListView { owners: Seq::empty(), available: false, error }
}

/// The tokens that GitHub is asked with, and the last list that it gave, with
/// the instant at which it came. Instants are nanoseconds of a clock that does
/// not go back.
#[derive(Debug)]
pub struct RepoCatalog {
    pub tokens: Vec<String>,
    pub kept: Option<(u128, RepoList)>,
}

/// The view of a catalog.
#[verifier::ext_equal]
pub struct CatalogView {
    pub tokens: Seq<Seq<char>>,
    pub kept: Option<(u128, ListView)>,
}

impl View for RepoCatalog {
    type V = CatalogView;

    open spec fn view(&self) -> CatalogView {
        CatalogView {
            tokens: text::texts(self.tokens@),
            kept: match self.kept {
                Some((at, list)) => Some((at, list@)),
                None => None,
            },
        }
    }
}

/// A list that came at `at` is recent enough at `now`.
pub open spec fn recent(at: u128, now: u128) -> bool {
    now - at < CACHE_TTL_NANOS
}

/// What is answered without asking GitHub: without a token that there is no
/// picker, and with a recent list that list. None where GitHub has to be
/// asked.
pub open spec fn at_hand(catalog: CatalogView, now: u128) -> Option<ListView> {
    if catalog.tokens.len() == 0 {
        Some(empty_list(None))
    } else {
        match catalog.kept {
            Some((at, list)) => if recent(at, now) {
                Some(list)
            } else {
                None
            },
            None => None,
        }
    }
}

/// What is answered once GitHub was asked with every token, and what the
/// catalog is then: a list is kept, a failure is not.
pub open spec fn answer_settled(
    before: CatalogView,
    answers: Result<Seq<Seq<GhRepo>>, Seq<char>>,
    now: u128,
    after: CatalogView,
    list: ListView,
) -> bool {
    match answers {
        Ok(answers) => {
            &&& list.available
            &&& list.error is None
            &&& is_picker(live(merged(answers)), list.owners)
            &&& after == CatalogView { kept: Some((now, list)), ..before }
        },
        Err(error) => list == empty_list(Some(error)) && after == before,
    }
}

/// The answers of the tokens, or why there is none.
pub open spec fn answers_view(answers: Result<Vec<Vec<GhRepo>>, String>) -> Result<
    Seq<Seq<GhRepo>>,
    Seq<char>,
> {
    match answers {
        Ok(answers) => Ok(answer_rows(answers@)),
        Err(error) => Err(error@),
    }
}

/// What a catalog says when it is asked for the list.
#[derive(Debug)]
pub enum Asked {
    /// The list.
    Answer { list: RepoList },
    /// GitHub has to be asked first, with each token.
    Fetch,
}

impl RepoCatalog {
    /// The catalog of the tokens that the operator configured.
    pub fn new(token: &Option<String>) -> (catalog: Self)
        ensures
            catalog@ == (CatalogView {
                tokens: tokens_of(text::opt_text(*token)),
                kept: None,
            }),
    {
        RepoCatalog { tokens: github_tokens(token), kept: None }
    }

    /// The list, where it is at hand.
    pub fn list(&self, now: u128) -> (asked: Asked)
        ensures
            match asked {
                Asked::Answer { list } => at_hand(self@, now) == Some(list@),
                Asked::Fetch => at_hand(self@, now) is None,
            },
    {
        let age: Option<u128> = match &self.kept {
            Some((at, _)) => Some(
                if now < *at {
                    0
                } else {
                    now - *at
                },
            ),
            None => None,
        };
        match list_step(self.tokens.len(), age) {
            ListStep::Unavailable => {
                let list: RepoList = no_list(None);
                assert(list@ =~= empty_list(None));
                Asked::Answer { list }
            },
            ListStep::Cached => match &self.kept {
                Some((_, list)) => Asked::Answer { list: list.clone() },
                None => Asked::Fetch,
            },
            ListStep::Fetch => Asked::Fetch,
        }
    }

    /// Takes what GitHub answered to each token, and gives the list.
    pub fn answered(&mut self, answers: Result<Vec<Vec<GhRepo>>, String>, now: u128) -> (list:
        RepoList)
        ensures
            answer_settled(old(self)@, answers_view(answers), now, final(self)@, list@),
    {
        let ghost start = self@;
        match answers {
            Ok(answers) => {
                let list: RepoList = fetched(Ok(merge_answers(&answers)));
                self.kept = Some((now, list.clone()));
                assert(self@ =~= CatalogView { kept: Some((now, list@)), ..start });
                list
            },
            Err(error) => {
                let list: RepoList = fetched(Err(error));
                assert(list@ =~= empty_list(Some(error@)));
                list
            },
        }
    }
}

/// A list that came is given again for five minutes, without asking GitHub.
pub proof fn lists_are_kept(
    before: CatalogView,
    answers: Seq<Seq<GhRepo>>,
    now: u128,
    after: CatalogView,
    list: ListView,
    later: u128,
)
    requires
        before.tokens.len() > 0,
        answer_settled(before, Ok(answers), now, after, list),
        later - now < CACHE_TTL_NANOS,
    ensures
        at_hand(after, later) == Some(list),
{
}

/// A failure takes away nothing: what was at hand before stays at hand.
pub proof fn failures_take_nothing_away(
    before: CatalogView,
    error: Seq<char>,
    now: u128,
    after: CatalogView,
    list: ListView,
    later: u128,
)
    requires
        answer_settled(before, Err(error), now, after, list),
    ensures
        at_hand(after, later) == at_hand(before, later),
{
}

// ---------------------------------------------------------------------------
// What the picker holds
// ---------------------------------------------------------------------------

/// Every repository that is offered stands under its owner.
pub proof fn every_repo_is_offered(
    repos: Seq<RepoView>,
    owners: Seq<OwnerView>,
    i: int,
)
    requires
        is_picker(repos, owners),
        0 <= i < repos.len(),
    ensures
        exists|k: int, m: int|
            0 <= k < owners.len() && 0 <= m < (#[trigger] owners[k]).repos.len()
                && owners[k].login == repos[i].owner && #[trigger] owners[k].repos[m] == repos[i],
{
    let groups = choose|groups: Seq<OwnerView>| #[trigger]
        is_grouped(repos, groups) && order::is_by_newest(groups, latest(), owners);
    lemma_owner_listed(repos, i);
    let g = logins(repos).index_of(repos[i].owner);
    assert(groups[g].login == repos[i].owner);
    let mine = owned_by(repos, repos[i].owner);
    let test = |repo: RepoView| repo.owner == repos[i].owner;
    order::lemma_filter_kept(repos, test);
    assert(test(repos[i]));
    let at = order::kept(repos, test).index_of(i);
    assert(mine[at] == repos[i]);
    let inner = choose|o: Seq<int>| #[trigger]
        order::is_newest_first(mine.map_values(pushed()), o) && groups[g].repos
            == order::arranged(mine, o);
    assert(inner.contains(at));
    let m = inner.index_of(at);
    assert(groups[g].repos[m] == repos[i]);
    let outer = choose|o: Seq<int>| #[trigger]
        order::is_newest_first(groups.map_values(latest()), o) && owners == order::arranged(
            groups,
            o,
        );
    assert(outer.contains(g));
    let k = outer.index_of(g);
    assert(owners[k] == groups[g]);
    assert(owners[k].repos[m] == repos[i]);
}

/// Nothing is offered but what was given, and each under its own owner.
pub proof fn nothing_else_is_offered(
    repos: Seq<RepoView>,
    owners: Seq<OwnerView>,
    k: int,
    m: int,
)
    requires
        is_picker(repos, owners),
        0 <= k < owners.len(),
        0 <= m < owners[k].repos.len(),
    ensures
        repos.contains(owners[k].repos[m]),
        owners[k].repos[m].owner == owners[k].login,
{
    let groups = choose|groups: Seq<OwnerView>| #[trigger]
        is_grouped(repos, groups) && order::is_by_newest(groups, latest(), owners);
    let outer = choose|o: Seq<int>| #[trigger]
        order::is_newest_first(groups.map_values(latest()), o) && owners == order::arranged(
            groups,
            o,
        );
    let g = outer[k];
    assert(owners[k] == groups[g]);
    let login = logins(repos)[g];
    assert(groups[g].login == login);
    let mine = owned_by(repos, login);
    let test = |repo: RepoView| repo.owner == login;
    order::lemma_filter_kept(repos, test);
    let inner = choose|o: Seq<int>| #[trigger]
        order::is_newest_first(mine.map_values(pushed()), o) && groups[g].repos
            == order::arranged(mine, o);
    assert(0 <= inner[m] < mine.len());
    assert(groups[g].repos[m] == mine[inner[m]]);
    let at = order::kept(repos, test)[inner[m]];
    assert(mine[inner[m]] == repos[at]);
}

proof fn lemma_owner_listed(repos: Seq<RepoView>, i: int)
    requires
        0 <= i < repos.len(),
    ensures
        logins(repos).contains(repos[i].owner),
    decreases repos.len(),
{
    let rest = logins(repos.drop_last());
    if i < repos.len() - 1 {
        lemma_owner_listed(repos.drop_last(), i);
        assert(rest.contains(repos[i].owner));
        let k = rest.index_of(repos[i].owner);
        assert(logins(repos)[k] == repos[i].owner);
    } else if !rest.contains(repos[i].owner) {
        assert(logins(repos)[rest.len() as int] == repos[i].owner);
    }
}

/// What the picker offers is never archived at GitHub.
pub proof fn archived_repos_are_left_out(repos: Seq<GhRepo>, i: int)
    requires
        0 <= i < live(repos).len(),
    ensures
        exists|k: int|
            0 <= k < repos.len() && !(#[trigger] repos[k]).archived && live(repos)[i] == choice_of(
                repos[k],
            ),
{
    let test = |repo: GhRepo| !repo.archived;
    order::lemma_filter_kept(repos, test);
    let k = order::kept(repos, test)[i];
    assert(!repos[k].archived);
}

/// Some owner's list offers the repository.
pub open spec fn is_choice(owners: Seq<OwnerView>, repo: RepoView) -> bool {
    exists|k: int, m: int|
        0 <= k < owners.len() && 0 <= m < (#[trigger] owners[k]).repos.len() && owners[k].login
            == repo.owner && #[trigger] owners[k].repos[m] == repo
}

/// Every repository that is not archived is offered, under its owner.
pub proof fn every_live_repo_is_offered(repos: Seq<GhRepo>, owners: Seq<OwnerView>, i: int)
    requires
        is_picker(live(repos), owners),
        0 <= i < repos.len(),
        !repos[i].archived,
    ensures
        is_choice(owners, choice_of(repos[i])),
{
    let test = |repo: GhRepo| !repo.archived;
    order::lemma_filter_kept(repos, test);
    assert(test(repos[i]));
    let q = order::kept(repos, test).index_of(i);
    assert(live(repos)[q] == choice_of(repos[i]));
    every_repo_is_offered(live(repos), owners, q);
}

/// What is joined holds what was found, and a record of everything in the
/// answer.
proof fn lemma_joined_holds(found: Seq<GhRepo>, answer: Seq<GhRepo>, i: int)
    requires
        0 <= i < answer.len(),
    ensures
        listed(joined(found, answer), answer[i]),
{
    let test = |repo: GhRepo| !listed(found, repo);
    let all = joined(found, answer);
    if listed(found, answer[i]) {
        let k = choose|k: int| 0 <= k < found.len() && same_repo(#[trigger] found[k], answer[i]);
        assert(all[k] == found[k]);
    } else {
        order::lemma_filter_kept(answer, test);
        assert(test(answer[i]));
        let q = order::kept(answer, test).index_of(i);
        assert(all[found.len() + q] == answer[i]);
    }
}

proof fn lemma_merged_holds(answers: Seq<Seq<GhRepo>>, j: int, i: int)
    requires
        0 <= j < answers.len(),
        0 <= i < answers[j].len(),
    ensures
        listed(merged(answers), answers[j][i]),
    decreases answers.len(),
{
    let rest = merged(answers.drop_last());
    if j < answers.len() - 1 {
        lemma_merged_holds(answers.drop_last(), j, i);
        let k = choose|k: int|
            0 <= k < rest.len() && same_repo(#[trigger] rest[k], answers[j][i]);
        assert(merged(answers)[k] == rest[k]);
    } else {
        lemma_joined_holds(rest, answers.last(), i);
    }
}

/// The picker offers every live repository of every token's answer.
pub proof fn every_answer_is_offered(
    answers: Seq<Seq<GhRepo>>,
    owners: Seq<OwnerView>,
    j: int,
    i: int,
)
    requires
        is_picker(live(merged(answers)), owners),
        0 <= j < answers.len(),
        0 <= i < answers[j].len(),
        !answers[j][i].archived,
    ensures
        is_choice(owners, choice_of(answers[j][i])),
{
    lemma_merged_holds(answers, j, i);
    let all = merged(answers);
    let p = choose|p: int| 0 <= p < all.len() && same_repo(#[trigger] all[p], answers[j][i]);
    every_live_repo_is_offered(all, owners, p);
}

/// What several tokens reach together is of some token's answer.
pub proof fn nothing_is_merged_in(answers: Seq<Seq<GhRepo>>, p: int)
    requires
        0 <= p < merged(answers).len(),
    ensures
        exists|j: int, i: int|
            0 <= j < answers.len() && 0 <= i < (#[trigger] answers[j]).len()
                && #[trigger] answers[j][i] == merged(answers)[p],
    decreases answers.len(),
{
    let less = answers.drop_last();
    let rest = merged(less);
    if p < rest.len() {
        nothing_is_merged_in(less, p);
        let (j, i) = choose|j: int, i: int|
            0 <= j < less.len() && 0 <= i < (#[trigger] less[j]).len() && #[trigger] less[j][i]
                == rest[p];
        assert(answers[j] == less[j]);
        assert(answers[j][i] == merged(answers)[p]);
    } else {
        let test = |repo: GhRepo| !listed(rest, repo);
        order::lemma_filter_kept(answers.last(), test);
        let i = order::kept(answers.last(), test)[p - rest.len()];
        assert(answers[answers.len() - 1][i] == merged(answers)[p]);
    }
}

/// No repository is there twice.
pub open spec fn no_repeats(repos: Seq<GhRepo>) -> bool {
    forall|a: int, b: int|
        0 <= a < b < repos.len() ==> !same_repo(#[trigger] repos[a], #[trigger] repos[b])
}

/// A repository that several tokens reach is there once.
pub proof fn merging_repeats_nothing(answers: Seq<Seq<GhRepo>>)
    requires
        forall|j: int| 0 <= j < answers.len() ==> no_repeats(#[trigger] answers[j]),
    ensures
        no_repeats(merged(answers)),
    decreases answers.len(),
{
    if answers.len() > 0 {
        let less = answers.drop_last();
        let rest = merged(less);
        assert forall|j: int| 0 <= j < less.len() implies no_repeats(#[trigger] less[j]) by {
            assert(less[j] == answers[j]);
        }
        merging_repeats_nothing(less);
        let last = answers.last();
        assert(no_repeats(answers[answers.len() - 1]));
        let test = |repo: GhRepo| !listed(rest, repo);
        order::lemma_filter_kept(last, test);
        let places = order::kept(last, test);
        let all = merged(answers);
        let n = rest.len() as int;
        assert forall|a: int, b: int| 0 <= a < b < all.len() implies !same_repo(
            #[trigger] all[a],
            #[trigger] all[b],
        ) by {
            if b < n {
                assert(all[a] == rest[a] && all[b] == rest[b]);
            } else {
                assert(all[b] == last[places[b - n]]);
                assert(test(last[places[b - n]]));
                if a < n {
                    assert(all[a] == rest[a]);
                } else {
                    assert(all[a] == last[places[a - n]]);
                    assert(places[a - n] < places[b - n]);
                }
            }
        }
    }
}

} // verus!
