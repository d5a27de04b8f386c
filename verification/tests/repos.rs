use ceilidh::protocol::Timestamp;
use ceilidh::repos::{
    fetched, github_tokens, group_by_owner, list_step, merge_answers, no_list, page_after,
    page_url, Asked, GhOwner, GhRepo, ListStep, RepoCatalog,
};

fn repo(owner: &str, name: &str, pushed: i64, archived: bool) -> GhRepo {
    GhRepo {
        full_name: format!("{owner}/{name}"),
        name: name.to_string(),
        owner: GhOwner { login: owner.to_string() },
        private: true,
        clone_url: format!("https://github.com/{owner}/{name}.git"),
        pushed_at: Some(pushed as Timestamp * 1_000_000_000),
        archived,
    }
}

#[test]
fn owners_and_repos_lead_with_the_most_recent_push() {
    let owners = group_by_owner(vec![
        repo("someone", "old-thing", 100, false),
        repo("org", "fresh", 900, false),
        repo("someone", "newer", 500, false),
        repo("org", "stale", 200, false),
    ]);
    assert_eq!(
        owners.iter().map(|o| o.login.as_str()).collect::<Vec<_>>(),
        vec!["org", "someone"]
    );
    assert_eq!(
        owners[0].repos.iter().map(|r| r.name.as_str()).collect::<Vec<_>>(),
        vec!["fresh", "stale"]
    );
    assert_eq!(owners[1].repos[0].name, "newer");
}

#[test]
fn archived_repositories_are_left_out() {
    let owners = group_by_owner(vec![
        repo("someone", "live", 100, false),
        repo("someone", "archived", 900, true),
    ]);
    assert_eq!(owners.len(), 1);
    assert_eq!(owners[0].repos.len(), 1);
    assert_eq!(owners[0].repos[0].name, "live");
}

#[test]
fn no_token_means_the_picker_is_simply_unavailable() {
    let list = match RepoCatalog::new(&None).list(0) {
        Asked::Answer { list } => list,
        Asked::Fetch => panic!("there is no token to ask with"),
    };
    assert!(!list.available);
    assert!(list.owners.is_empty());
    assert!(list.error.is_none());
    assert_eq!(list_step(github_tokens(&None).len(), None), ListStep::Unavailable);
    assert_eq!(no_list(None), list);
}

#[test]
fn the_answers_of_several_tokens_are_one_list() {
    let mut catalog = RepoCatalog::new(&Some("t1,t2".to_string()));
    assert_eq!(catalog.tokens, vec!["t1", "t2"]);
    assert!(matches!(catalog.list(7), Asked::Fetch));
    let answers = vec![
        vec![repo("org", "shared", 300, false), repo("someone", "mine", 100, false)],
        vec![
            repo("org", "shared", 300, false),
            repo("org", "fresh", 900, false),
            repo("other", "gone", 950, true),
        ],
    ];
    assert_eq!(merge_answers(&answers).len(), 4);
    let list = catalog.answered(Ok(answers), 7);
    assert!(list.available);
    assert_eq!(list.error, None);
    let offered: Vec<&str> =
        list.owners.iter().flat_map(|o| o.repos.iter().map(|r| r.full_name.as_str())).collect();
    assert_eq!(offered, vec!["org/fresh", "org/shared", "someone/mine"]);

    // The list is given again for five minutes, and a failure does not take it away.
    let failed = catalog.answered(Err("boom".to_string()), 8);
    assert_eq!(failed.error.as_deref(), Some("boom"));
    match catalog.list(300_000_000_006) {
        Asked::Answer { list: again } => assert_eq!(again, list),
        Asked::Fetch => panic!("the list is recent"),
    }
    assert!(matches!(catalog.list(300_000_000_007), Asked::Fetch));
}

#[test]
fn tokens_are_separated_by_commas() {
    assert_eq!(github_tokens(&Some(" a, ,b ".to_string())), vec!["a", "b"]);
    assert!(github_tokens(&Some(" , ".to_string())).is_empty());
    // A token that stands alone is handed on as it is, unless it is blank.
    assert_eq!(github_tokens(&Some(" a ".to_string())), vec![" a "]);
    assert!(github_tokens(&Some("  ".to_string())).is_empty());
}

#[test]
fn lists_are_kept_for_five_minutes() {
    assert_eq!(list_step(1, None), ListStep::Fetch);
    assert_eq!(list_step(1, Some(299_999_999_999)), ListStep::Cached);
    assert_eq!(list_step(1, Some(300_000_000_000)), ListStep::Fetch);
}

#[test]
fn pages_follow_until_one_is_short() {
    assert!(page_url(2).contains("page=2"));
    assert!(page_url(2).contains("per_page=100"));
    assert_eq!(page_after(1, 100), Some(2));
    assert_eq!(page_after(1, 99), None);
    assert_eq!(page_after(5, 100), None);
}

#[test]
fn failures_are_told() {
    let list = fetched(Err("boom".to_string()));
    assert!(list.owners.is_empty());
    assert_eq!(list.error.as_deref(), Some("boom"));
    let list = fetched(Ok(vec![repo("o", "r", 1, false)]));
    assert!(list.available);
    assert_eq!(list.owners[0].repos[0].full_name, "o/r");
    assert_eq!(list.error, None);
}

#[test]
fn repositories_that_were_never_pushed_come_last() {
    let mut never = repo("o", "never", 0, false);
    never.pushed_at = None;
    let owners = group_by_owner(vec![never, repo("o", "once", -5, false)]);
    assert_eq!(owners[0].repos[0].name, "once");
    assert_eq!(owners[0].repos[1].name, "never");
}
