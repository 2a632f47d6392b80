use pulls_since::repo_set::text_less;
use pulls_since::{
    org_repos_url, pulls_url, repo_names, repos_for_owner, user_repos_url, Advance, Date,
    FetchError, OwnerRepos, PaginatedIter, Predicate, Pull, RepoReport, RepoSet, Reply, Repo, Step,
    Timestamp, User,
};

fn d(year: i32, month: u32, day: u32) -> Date {
    Date { year, month, day }
}

fn pull(login: &str, title: &str, n: u32, closed: Date) -> Pull {
    Pull {
        html_url: format!("https://github.com/o/r/pull/{}", n),
        title: title.to_string(),
        user: User { login: login.to_string(), id: n },
        closed_at: Timestamp { date: closed, seconds: 3600 },
    }
}

fn window(since: Option<Date>, until: Option<Date>) -> Predicate {
    Predicate { since, until, exclude_login: None }
}

#[test]
fn since_date_itself_is_rejected() {
    let p = window(Some(d(2017, 7, 14)), None);
    assert!(!p.test(&pull("a", "t", 1, d(2017, 7, 14))));
    assert!(p.test(&pull("a", "t", 1, d(2017, 7, 15))));
}

#[test]
fn until_date_itself_is_rejected() {
    let p = window(None, Some(d(2017, 7, 20)));
    assert!(!p.test(&pull("a", "t", 1, d(2017, 7, 20))));
    assert!(p.test(&pull("a", "t", 1, d(2017, 7, 19))));
}

#[test]
fn strictly_between_is_accepted() {
    let p = window(Some(d(2017, 7, 14)), Some(d(2017, 7, 20)));
    assert!(p.test(&pull("a", "t", 1, d(2017, 7, 17))));
    assert!(!p.test(&pull("a", "t", 1, d(2017, 7, 21))));
    assert!(!p.test(&pull("a", "t", 1, d(2016, 7, 17))));
}

#[test]
fn excluded_author_is_rejected() {
    let p = Predicate { since: None, until: None, exclude_login: Some("bot".to_string()) };
    assert!(!p.test(&pull("bot", "t", 1, d(2017, 7, 17))));
    assert!(p.test(&pull("human", "t", 1, d(2017, 7, 17))));
    assert!(window(None, None).test(&pull("bot", "t", 1, d(2017, 7, 17))));
}

#[test]
fn bullet_line() {
    let p = pull("alice", "Fix the parser", 42, d(2017, 7, 17));
    assert_eq!(p.to_line(), "- @alice [Fix the parser](https://github.com/o/r/pull/42)");
}

#[test]
fn endpoint_addresses() {
    assert_eq!(pulls_url("o/r"), "https://api.github.com/repos/o/r/pulls?state=closed");
    assert_eq!(org_repos_url("rust-lang"), "https://api.github.com/orgs/rust-lang/repos");
    assert_eq!(user_repos_url("alice"), "https://api.github.com/users/alice/repos");
}

#[test]
fn organization_listing_is_used_when_it_succeeds() {
    let repos = vec![Repo { full_name: "o/a".to_string() }, Repo { full_name: "o/b".to_string() }];
    assert_eq!(repo_names(&repos), vec!["o/a".to_string(), "o/b".to_string()]);
    match repos_for_owner("o", Ok(repos)) {
        OwnerRepos::Found(names) => assert_eq!(names, vec!["o/a".to_string(), "o/b".to_string()]),
        other => panic!("unexpected {:?}", other),
    }
}

#[test]
fn any_organization_failure_falls_back_to_user() {
    match repos_for_owner("alice", Err(FetchError::Status(404))) {
        OwnerRepos::TryUser(url) => assert_eq!(url, "https://api.github.com/users/alice/repos"),
        other => panic!("unexpected {:?}", other),
    }
    assert!(matches!(
        repos_for_owner("alice", Err(FetchError::Transport("dns".to_string()))),
        OwnerRepos::TryUser(_)
    ));
}

#[test]
fn repositories_are_listed_once_in_order() {
    let mut repos = RepoSet::new();
    repos.insert("o/b");
    repos.insert("o/a");
    repos.insert("o/b");
    repos.insert("O/c");
    repos.insert("o/ab");
    assert_eq!(
        repos.names(),
        &vec!["O/c".to_string(), "o/a".to_string(), "o/ab".to_string(), "o/b".to_string()]
    );
}

#[test]
fn text_order_is_by_code_point() {
    assert!(text_less("a", "b"));
    assert!(text_less("", "a"));
    assert!(text_less("ab", "abc"));
    assert!(!text_less("abc", "ab"));
    assert!(!text_less("same", "same"));
    assert!(text_less("Z", "a"));
    assert!(text_less("z", "\u{e9}"));
}

/// Runs one repository's report against pages served by URL, as the program
/// does against the network.
fn render(repo: &str, pred: &Predicate, pages: &[(String, Vec<Pull>, Vec<String>)]) -> Result<Vec<String>, FetchError> {
    let mut out = Vec::new();
    render_into(repo, pred, pages, &mut out).map(|()| out)
}

/// As `render`, keeping what was written before a failure.
fn render_into(
    repo: &str,
    pred: &Predicate,
    pages: &[(String, Vec<Pull>, Vec<String>)],
    out: &mut Vec<String>,
) -> Result<(), FetchError> {
    let mut it = PaginatedIter::for_addr(&pulls_url(repo), None);
    let mut report = RepoReport::new(repo);
    loop {
        let next = match it.try_next() {
            Step::Item(p) => Advance::Item(p),
            Step::End => Advance::End,
            Step::Fetch(req) => {
                let found = pages.iter().position(|(u, _, _)| *u == req.url);
                let reply = match found {
                    Some(i) => Reply::Received {
                        status: 200,
                        body: Ok(pages[i].1.iter().map(copy_pull).collect()),
                        links: pages[i].2.clone(),
                    },
                    None => Reply::Failed("no such page".to_string()),
                };
                it.on_reply(reply)
            }
        };
        match next {
            Advance::Item(p) => out.extend(report.accept(pred, &p)),
            Advance::End => return Ok(()),
            Advance::Error(e) => return Err(e),
        }
    }
}

fn copy_pull(p: &Pull) -> Pull {
    Pull {
        html_url: p.html_url.clone(),
        title: p.title.clone(),
        user: User { login: p.user.login.clone(), id: p.user.id },
        closed_at: p.closed_at,
    }
}

#[test]
fn two_pages_one_accepted_record() {
    let first = pulls_url("o/r");
    let second = "https://api.github.com/repos/o/r/pulls?state=closed&page=2".to_string();
    let pages = vec![
        (
            first,
            vec![pull("alice", "Old change", 1, d(2017, 7, 1)), pull("bob", "Also old", 2, d(2017, 7, 5))],
            vec![format!("<{}>; rel=\"next\"", second)],
        ),
        (second, vec![pull("carol", "New change", 3, d(2017, 7, 20))], vec![]),
    ];
    let pred = window(Some(d(2017, 7, 10)), Some(d(2017, 12, 31)));
    let out = render("o/r", &pred, &pages).expect("no failure");
    assert_eq!(
        out,
        vec![
            "\n#### o/r\n".to_string(),
            "- @carol [New change](https://github.com/o/r/pull/3)".to_string(),
        ]
    );
}

#[test]
fn nothing_accepted_prints_nothing() {
    let pages = vec![(pulls_url("o/r"), vec![pull("alice", "Old", 1, d(2017, 7, 1))], vec![])];
    let pred = window(Some(d(2017, 7, 10)), None);
    let out = render("o/r", &pred, &pages).expect("no failure");
    assert!(out.is_empty());
    let report = RepoReport::new("o/r");
    assert!(!report.started());
}

#[test]
fn first_failure_stops_the_report() {
    let first = pulls_url("o/r");
    let missing = "https://api.github.com/repos/o/r/pulls?state=closed&page=2".to_string();
    let pages = vec![(
        first,
        vec![pull("alice", "Kept", 1, d(2017, 7, 20))],
        vec![format!("<{}>; rel=\"next\"", missing)],
    )];
    let pred = window(None, None);
    let mut out = Vec::new();
    let r = render_into("o/r", &pred, &pages, &mut out);
    assert!(matches!(r, Err(FetchError::Transport(_))));
    assert_eq!(
        out,
        vec!["\n#### o/r\n".to_string(), "- @alice [Kept](https://github.com/o/r/pull/1)".to_string()]
    );
}
