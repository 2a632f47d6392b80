use vstd::prelude::*;
use crate::date::{has_full_date, parse_date, read_in_some_year, Date};

verus! {

/// The author of a pull request.
#[derive(Debug)]
pub struct User {
    pub login: String,
    pub id: u32,
}

/// A moment in UTC: its date and the seconds since midnight.
#[derive(Clone, Copy, Debug, PartialEq, Eq, Structural)]
pub struct Timestamp {
    pub date: Date,
    pub seconds: u32,
}

/// A closed pull request.
#[derive(Debug)]
pub struct Pull {
    pub html_url: String,
    pub title: String,
    pub user: User,
    pub closed_at: Timestamp,
}

/// A repository, named `owner/name`.
#[derive(Debug)]
pub struct Repo {
    pub full_name: String,
}

/// Which pull requests make it into the report.
#[derive(Debug)]
pub struct Predicate {
    pub since: Option<Date>,
    pub until: Option<Date>,
    pub exclude_login: Option<String>,
}

/// A command-line value that could not be read.
#[derive(Debug, PartialEq, Eq)]
pub enum InputError {
    /// The text is a date in none of the accepted forms.
    BadDate(String),
}

/// `- @<login> [<title>](<link>)`
pub open spec fn markdown_line(login: Seq<char>, title: Seq<char>, link: Seq<char>) -> Seq<char> {
    seq!['-', ' ', '@'] + login + seq![' ', '['] + title + seq![']', '('] + link + seq![')']
}

impl Pull {
    /// The Markdown bullet for this pull request.
    pub fn to_line(&self) -> (r: String)
        ensures
            r@ == markdown_line(self.user.login@, self.title@, self.html_url@),
    {
        proof {
            reveal_strlit("- @");
            reveal_strlit(" [");
            reveal_strlit("](");
            reveal_strlit(")");
        }
        let mut s = String::from_str("- @");
        s.append(self.user.login.as_str());
        s.append(" [");
        s.append(self.title.as_str());
        s.append("](");
        s.append(self.html_url.as_str());
        s.append(")");
        assert(s@ =~= markdown_line(self.user.login@, self.title@, self.html_url@));
        s
    }
}

impl Predicate {
    /// The record's closing date lies strictly after `since` and strictly
    /// before `until`, and its author is not the excluded one; an absent
    /// clause holds.
    pub open spec fn accepts(&self, pull: &Pull) -> bool {
        let closed = pull.closed_at.date;
        &&& (self.since matches Some(d) ==> d.before(closed))
        &&& (self.until matches Some(d) ==> closed.before(d))
        &&& (self.exclude_login matches Some(l) ==> l@ != pull.user.login@)
    }

    pub fn test(&self, pull: &Pull) -> (r: bool)
        ensures
            r == self.accepts(pull),
    {
        let closed = pull.closed_at.date;
        let after_since = match &self.since {
            Some(d) => d.is_before(&closed),
            None => true,
        };
        let before_until = match &self.until {
            Some(d) => closed.is_before(d),
            None => true,
        };
        let other_author = match &self.exclude_login {
            Some(l) => !(*l == pull.user.login),
            None => true,
        };
        after_since && before_until && other_author
    }

    /// A predicate from the optional `since`, `until` and excluded-login
    /// arguments, with the dates in any accepted form. A bad `since` is
    /// reported before a bad `until`.
    pub fn from_args(since: Option<&str>, until: Option<&str>, exclude_login: Option<&str>) -> (r:
        Result<Predicate, InputError>)
        ensures
            date_arg_fine(since) && date_arg_fine(until) ==> r is Ok,
            r matches Ok(p) ==> {
                &&& date_arg_gives(since, p.since)
                &&& date_arg_gives(until, p.until)
                &&& match exclude_login {
                    Some(l) => p.exclude_login matches Some(e) && e@ == l@,
                    None => p.exclude_login is None,
                }
            },
            r matches Err(e) ==> date_arg_fails(since, e) || (date_arg_reads(since)
                && date_arg_fails(until, e)),
    {
        let ghost old_since = since;
        let since = match date_arg(since) {
            Ok(d) => d,
            Err(e) => return Err(e),
        };
        assert(date_arg_gives(old_since, since));
        let until = match date_arg(until) {
            Ok(d) => d,
            Err(e) => return Err(e),
        };
        let exclude_login = match exclude_login {
            Some(l) => Some(String::from_str(l)),
            None => None,
        };
        Ok(Predicate { since, until, exclude_login })
    }
}

/// Both date bounds are exclusive: a record closed on the since-date, or on
/// the until-date, is rejected, whatever its time of day; a record closed
/// strictly between the two, by an author who is not excluded, is accepted.
pub proof fn lemma_date_bounds_exclusive(p: &Predicate, pull: &Pull)
    ensures
        p.since == Some(pull.closed_at.date) ==> !p.accepts(pull),
        p.until == Some(pull.closed_at.date) ==> !p.accepts(pull),
        ({
            &&& p.since matches Some(s) && s.before(pull.closed_at.date)
            &&& p.until matches Some(u) && pull.closed_at.date.before(u)
            &&& p.exclude_login matches Some(l) ==> l@ != pull.user.login@
        }) ==> p.accepts(pull),
{
}

/// An absent argument, or one that reads as a date whatever the year.
pub open spec fn date_arg_fine(text: Option<&str>) -> bool {
    text matches Some(t) ==> has_full_date(t@)
}

/// The argument is absent and `d` too, or `d` is what it reads as in some year.
pub open spec fn date_arg_gives(text: Option<&str>, d: Option<Date>) -> bool {
    match text {
        None => d is None,
        Some(t) => d matches Some(x) && x.wf() && read_in_some_year(t@, d),
    }
}

/// The argument is absent or reads as a date.
pub open spec fn date_arg_reads(text: Option<&str>) -> bool {
    exists|d: Option<Date>| date_arg_gives(text, d)
}

/// The argument is present, is no date in some year, and `e` names it.
pub open spec fn date_arg_fails(text: Option<&str>, e: InputError) -> bool {
    &&& text matches Some(t)
    &&& e matches InputError::BadDate(b) && b@ == t@
    &&& !has_full_date(t@)
    &&& read_in_some_year(t@, None)
}

/// An optional date argument: absent stays absent, present must read as a date.
pub fn date_arg(text: Option<&str>) -> (r: Result<Option<Date>, InputError>)
    ensures
        date_arg_fine(text) ==> r is Ok,
        r matches Ok(d) ==> date_arg_gives(text, d),
        r matches Err(e) ==> date_arg_fails(text, e),
{
    match text {
        None => Ok(None),
        Some(t) => match parse_date(t) {
            Some(d) => Ok(Some(d)),
            None => Err(InputError::BadDate(String::from_str(t))),
        },
    }
}

} // verus!
