use vstd::prelude::*;
use crate::link::texts_view;
use crate::paging::FetchError;
use crate::pulls::{markdown_line, Predicate, Pull, Repo};

verus! {

pub open spec fn pulls_url_of(repo: Seq<char>) -> Seq<char> {
    "https://api.github.com/repos/"@ + repo + "/pulls?state=closed"@
}

pub open spec fn org_repos_url_of(owner: Seq<char>) -> Seq<char> {
    "https://api.github.com/orgs/"@ + owner + "/repos"@
}

pub open spec fn user_repos_url_of(owner: Seq<char>) -> Seq<char> {
    "https://api.github.com/users/"@ + owner + "/repos"@
}

/// The address of the first page of a repository's closed pull requests.
pub fn pulls_url(repo: &str) -> (r: String)
    ensures
        r@ == pulls_url_of(repo@),
{
    let mut s = String::from_str("https://api.github.com/repos/");
    s.append(repo);
    s.append("/pulls?state=closed");
    s
}

/// The address of the first page of an organization's repositories.
pub fn org_repos_url(owner: &str) -> (r: String)
    ensures
        r@ == org_repos_url_of(owner@),
{
    let mut s = String::from_str("https://api.github.com/orgs/");
    s.append(owner);
    s.append("/repos");
    s
}

/// The address of the first page of a user's repositories.
pub fn user_repos_url(owner: &str) -> (r: String)
    ensures
        r@ == user_repos_url_of(owner@),
{
    let mut s = String::from_str("https://api.github.com/users/");
    s.append(owner);
    s.append("/repos");
    s
}

pub open spec fn full_names(repos: Seq<Repo>) -> Seq<Seq<char>> {
    repos.map_values(|r: Repo| r.full_name@)
}

/// The full names of the repositories, in order.
pub fn repo_names(repos: &Vec<Repo>) -> (r: Vec<String>)
    ensures
        texts_view(r@) == full_names(repos@),
{
    let mut names: Vec<String> = Vec::new();
    let mut i: usize = 0;
    assert(texts_view(names@) =~= full_names(repos@).subrange(0, 0));
    while i < repos.len()
        invariant
            i <= repos@.len(),
            texts_view(names@) == full_names(repos@).subrange(0, i as int),
        decreases repos@.len() - i,
    {
        let name = repos[i].full_name.clone();
        let ghost before = names@;
        names.push(name);
        assert(texts_view(names@) =~= texts_view(before).push(repos@[i as int].full_name@));
        assert(full_names(repos@).subrange(0, i + 1) =~= full_names(repos@).subrange(
            0,
            i as int,
        ).push(repos@[i as int].full_name@));
        i += 1;
    }
    assert(full_names(repos@).subrange(0, i as int) =~= full_names(repos@));
    names
}

/// Where an owner's repositories come from.
#[derive(Debug)]
pub enum OwnerRepos {
    /// The owner is an organization with these repositories.
    Found(Vec<String>),
    /// The organization listing failed: list the owner's repositories as a
    /// user's, from this address.
    TryUser(String),
}

/// The repositories of an owner, given how listing it as an organization went:
/// any failure there falls back to the user listing.
pub fn repos_for_owner(owner: &str, org_listing: Result<Vec<Repo>, FetchError>) -> (r: OwnerRepos)
    ensures
        match org_listing {
            Ok(repos) => r matches OwnerRepos::Found(names) && texts_view(names@) == full_names(
                repos@,
            ),
            Err(_) => r matches OwnerRepos::TryUser(url) && url@ == user_repos_url_of(owner@),
        },
{
    match org_listing {
        Ok(repos) => OwnerRepos::Found(repo_names(&repos)),
        Err(_) => OwnerRepos::TryUser(user_repos_url(owner)),
    }
}

/// The heading printed above a repository's bullets.
pub open spec fn heading_of(repo: Seq<char>) -> Seq<char> {
    "\n#### "@ + repo + "\n"@
}

pub open spec fn bullet_of(pull: Pull) -> Seq<char> {
    markdown_line(pull.user.login@, pull.title@, pull.html_url@)
}

/// The lines that one record adds to a report whose heading is written or not.
pub open spec fn lines_for(started: bool, repo: Seq<char>, pred: Predicate, pull: Pull) -> Seq<
    Seq<char>,
> {
    if !pred.accepts(&pull) {
        Seq::empty()
    } else if started {
        seq![bullet_of(pull)]
    } else {
        seq![heading_of(repo), bullet_of(pull)]
    }
}

/// The lines written while records arrive one by one.
pub open spec fn lines_while_feeding(
    started: bool,
    repo: Seq<char>,
    pred: Predicate,
    pulls: Seq<Pull>,
) -> Seq<Seq<char>>
    decreases pulls.len(),
{
    if pulls.len() == 0 {
        Seq::empty()
    } else {
        lines_for(started, repo, pred, pulls[0]) + lines_while_feeding(
            started || pred.accepts(&pulls[0]),
            repo,
            pred,
            pulls.drop_first(),
        )
    }
}

/// The bullets of the accepted records, in arrival order.
pub open spec fn accepted_bullets(pred: Predicate, pulls: Seq<Pull>) -> Seq<Seq<char>>
    decreases pulls.len(),
{
    if pulls.len() == 0 {
        Seq::empty()
    } else if pred.accepts(&pulls[0]) {
        seq![bullet_of(pulls[0])] + accepted_bullets(pred, pulls.drop_first())
    } else {
        accepted_bullets(pred, pulls.drop_first())
    }
}

proof fn lemma_feeding_started(repo: Seq<char>, pred: Predicate, pulls: Seq<Pull>)
    ensures
        lines_while_feeding(true, repo, pred, pulls) == accepted_bullets(pred, pulls),
    decreases pulls.len(),
{
    if pulls.len() > 0 {
        lemma_feeding_started(repo, pred, pulls.drop_first());
        if !pred.accepts(&pulls[0]) {
            assert(lines_for(true, repo, pred, pulls[0]) + accepted_bullets(
                pred,
                pulls.drop_first(),
            ) =~= accepted_bullets(pred, pulls.drop_first()));
        }
    }
}

/// A repository's report over a whole sequence of records: nothing at all
/// when no record is accepted, else its heading followed by one bullet per
/// accepted record, in arrival order.
pub proof fn lemma_report_of_sequence(repo: Seq<char>, pred: Predicate, pulls: Seq<Pull>)
    ensures
        lines_while_feeding(false, repo, pred, pulls) == if accepted_bullets(pred, pulls).len()
            == 0 {
            Seq::<Seq<char>>::empty()
        } else {
            seq![heading_of(repo)] + accepted_bullets(pred, pulls)
        },
    decreases pulls.len(),
{
    if pulls.len() > 0 {
        let rest = pulls.drop_first();
        if pred.accepts(&pulls[0]) {
            lemma_feeding_started(repo, pred, rest);
            assert(seq![heading_of(repo), bullet_of(pulls[0])] + accepted_bullets(pred, rest)
                =~= seq![heading_of(repo)] + accepted_bullets(pred, pulls));
        } else {
            lemma_report_of_sequence(repo, pred, rest);
            assert(lines_for(false, repo, pred, pulls[0]) + lines_while_feeding(
                false,
                repo,
                pred,
                rest,
            ) =~= lines_while_feeding(false, repo, pred, rest));
        }
    }
}

/// The report for one repository, written as its records arrive: the heading
/// comes right before the first accepted record, so a repository without one
/// prints nothing.
pub struct RepoReport {
    repo: String,
    started: bool,
}

impl RepoReport {
    pub closed spec fn repo_name(&self) -> Seq<char> {
        self.repo@
    }

    /// Whether the heading has been written.
    pub closed spec fn is_started(&self) -> bool {
        self.started
    }

    pub fn new(repo: &str) -> (r: RepoReport)
        ensures
            r.repo_name() == repo@,
            !r.is_started(),
    {
        RepoReport { repo: String::from_str(repo), started: false }
    }

    /// Whether anything has been written for the repository.
    pub fn started(&self) -> (r: bool)
        ensures
            r == self.is_started(),
    {
        self.started
    }

    /// The lines to print for the next record: none when the predicate rejects
    /// it, else its bullet, preceded by the heading the first time.
    pub fn accept(&mut self, pred: &Predicate, pull: &Pull) -> (lines: Vec<String>)
        ensures
            final(self).repo_name() == old(self).repo_name(),
            final(self).is_started() == (old(self).is_started() || pred.accepts(pull)),
            texts_view(lines@) == lines_for(
                old(self).is_started(),
                old(self).repo_name(),
                *pred,
                *pull,
            ),
    {
        let mut lines: Vec<String> = Vec::new();
        if !pred.test(pull) {
            assert(texts_view(lines@) =~= Seq::<Seq<char>>::empty());
            return lines;
        }
        if !self.started {
            let mut h = String::from_str("\n#### ");
            h.append(self.repo.as_str());
            h.append("\n");
            lines.push(h);
            self.started = true;
        }
        lines.push(pull.to_line());
        proof {
            if old(self).is_started() {
                assert(texts_view(lines@) =~= seq![
                    markdown_line(pull.user.login@, pull.title@, pull.html_url@),
                ]);
            } else {
                assert(texts_view(lines@) =~= seq![
                    heading_of(old(self).repo_name()),
                    markdown_line(pull.user.login@, pull.title@, pull.html_url@),
                ]);
            }
        }
        lines
    }
}

} // verus!
