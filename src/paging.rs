use vstd::prelude::*;
use crate::link::{next_cursor, next_link, texts_view};

verus! {

/// Why one advance of the iterator failed.
#[derive(Debug)]
pub enum FetchError {
    /// The request did not complete (connection, name resolution, TLS).
    Transport(String),
    /// The server answered with a status outside 2xx.
    Status(u16),
    /// The body did not decode into a list of records.
    Decode(String),
}

/// An HTTP GET the caller must perform for the iterator.
#[derive(Debug)]
pub struct Request {
    pub url: String,
    /// The value of the `Authorization` header, when a credential is configured.
    pub authorization: Option<String>,
}

/// What the caller got back for a `Request`.
pub enum Reply<T> {
    /// The request failed before a response arrived.
    Failed(String),
    /// A response: its status, its body decoded (or why it did not decode),
    /// and the raw values of its `Link` headers.
    Received { status: u16, body: Result<Vec<T>, String>, links: Vec<String> },
}

/// The result of one pull on the iterator when no request is outstanding.
pub enum Step<T> {
    Item(T),
    End,
    /// The buffer is exhausted: perform this request and hand the reply to `on_reply`.
    Fetch(Request),
}

/// The three-way result of one advance.
#[derive(Debug)]
pub enum Advance<T> {
    Item(T),
    End,
    Error(FetchError),
}

/// The abstract state of a paginated iterator.
pub struct PageState<T> {
    /// The unconsumed tail of the last fetched page.
    pub buffer: Seq<T>,
    /// The address of the next page to fetch.
    pub cursor: Option<Seq<char>>,
    pub token: Option<Seq<char>>,
}

pub enum Demand<T> {
    Item(T),
    End,
    Fetch(Seq<char>),
}

/// A reply, with the body's decoding and the next-page address already read.
pub enum Answer<T> {
    Failed(Seq<char>),
    Received { status: u16, body: Result<Seq<T>, Seq<char>>, next: Option<Seq<char>> },
}

pub enum Outcome<T> {
    Item(T),
    End,
    Transport(Seq<char>),
    Status(u16),
    Decode(Seq<char>),
}

pub open spec fn is_success(status: u16) -> bool {
    200 <= status < 300
}

pub open spec fn token_prefix() -> Seq<char> {
    seq!['t', 'o', 'k', 'e', 'n', ' ']
}

/// The `Authorization` header sent with every request when a credential is set.
pub open spec fn authorization_for(token: Option<Seq<char>>) -> Option<Seq<char>> {
    match token {
        Some(t) => Some(token_prefix() + t),
        None => None,
    }
}

pub open spec fn start<T>(url: Seq<char>, token: Option<Seq<char>>) -> PageState<T> {
    PageState { buffer: Seq::empty(), cursor: Some(url), token }
}

/// One pull without network access: the head of the buffer, the end, or the
/// page that must be fetched. Only the head removal changes the state.
pub open spec fn poll<T>(s: PageState<T>) -> (PageState<T>, Demand<T>) {
    if s.buffer.len() > 0 {
        (PageState { buffer: s.buffer.drop_first(), ..s }, Demand::Item(s.buffer[0]))
    } else {
        match s.cursor {
            None => (s, Demand::End),
            Some(url) => (s, Demand::Fetch(url)),
        }
    }
}

/// Taking in the reply to a fetch. A failure of any kind leaves the state as it
/// was; a decoded page replaces the buffer and the cursor, and its first record
/// (if any) is yielded.
pub open spec fn receive<T>(s: PageState<T>, a: Answer<T>) -> (PageState<T>, Outcome<T>) {
    match a {
        Answer::Failed(m) => (s, Outcome::Transport(m)),
        Answer::Received { status, body, next } => if !is_success(status) {
            (s, Outcome::Status(status))
        } else {
            match body {
                Err(m) => (s, Outcome::Decode(m)),
                Ok(items) => if items.len() > 0 {
                    (
                        PageState { buffer: items.drop_first(), cursor: next, token: s.token },
                        Outcome::Item(items[0]),
                    )
                } else {
                    (PageState { buffer: items, cursor: next, token: s.token }, Outcome::End)
                },
            }
        },
    }
}

impl<T> Reply<T> {
    pub open spec fn answer(self) -> Answer<T> {
        match self {
            Reply::Failed(m) => Answer::Failed(m@),
            Reply::Received { status, body, links } => Answer::Received {
                status,
                body: match body {
                    Ok(v) => Ok(v@),
                    Err(m) => Err(m@),
                },
                next: next_cursor(texts_view(links@)),
            },
        }
    }
}

impl<T> Step<T> {
    pub open spec fn demand(self) -> Demand<T> {
        match self {
            Step::Item(x) => Demand::Item(x),
            Step::End => Demand::End,
            Step::Fetch(req) => Demand::Fetch(req.url@),
        }
    }
}

impl<T> Advance<T> {
    pub open spec fn outcome(self) -> Outcome<T> {
        match self {
            Advance::Item(x) => Outcome::Item(x),
            Advance::End => Outcome::End,
            Advance::Error(FetchError::Transport(m)) => Outcome::Transport(m@),
            Advance::Error(FetchError::Status(c)) => Outcome::Status(c),
            Advance::Error(FetchError::Decode(m)) => Outcome::Decode(m@),
        }
    }
}

pub open spec fn text_opt(o: Option<String>) -> Option<Seq<char>> {
    match o {
        Some(s) => Some(s@),
        None => None,
    }
}

/// Records of a page, buffered in reverse so that the head is at the end.
pub open spec fn reversed<T>(v: Seq<T>) -> Seq<T> {
    Seq::new(v.len(), |i: int| v[v.len() - 1 - i])
}

/// A lazily fetched sequence of records from a paginated endpoint.
pub struct PaginatedIter<T> {
    items: Vec<T>,
    next_link: Option<String>,
    github_token: Option<String>,
}

impl<T> PaginatedIter<T> {
    pub closed spec fn model(&self) -> PageState<T> {
        PageState {
            buffer: reversed(self.items@),
            cursor: text_opt(self.next_link),
            token: text_opt(self.github_token),
        }
    }

    /// An iterator whose first page is at `url`; `github_token`, when given,
    /// authenticates every request.
    pub fn for_addr(url: &str, github_token: Option<String>) -> (r: Self)
        ensures
            r.model() == start::<T>(url@, text_opt(github_token)),
    {
        let r = PaginatedIter { items: Vec::new(), next_link: Some(url.to_owned()), github_token };
        assert(r.model().buffer =~= Seq::<T>::empty());
        r
    }

    /// The iterator waits for the reply to the request `try_next` asked for.
    pub fn awaiting_reply(&self) -> (r: bool)
        ensures
            r == (self.model().buffer.len() == 0 && self.model().cursor is Some),
    {
        self.items.len() == 0 && self.next_link.is_some()
    }

    fn request_for(&self, url: &String) -> (r: Request)
        ensures
            r.url@ == url@,
            text_opt(r.authorization) == authorization_for(self.model().token),
    {
        let authorization = match &self.github_token {
            Some(token) => {
                let mut h = String::from_str("token ");
                proof {
                    reveal_strlit("token ");
                }
                h.append(token.as_str());
                assert(h@ =~= token_prefix() + token@);
                Some(h)
            },
            None => None,
        };
        Request { url: url.clone(), authorization }
    }

    /// Pulls the next record from the buffer, or says that the sequence ended
    /// or which page must be fetched first. Makes no request itself.
    pub fn try_next(&mut self) -> (r: Step<T>)
        ensures
            (final(self).model(), r.demand()) == poll(old(self).model()),
            r matches Step::Fetch(req) ==> text_opt(req.authorization) == authorization_for(
                old(self).model().token,
            ),
    {
        let ghost before = self.items@;
        match self.items.pop() {
            Some(x) => {
                assert(reversed(self.items@) =~= reversed(before).drop_first());
                Step::Item(x)
            },
            None => match &self.next_link {
                None => Step::End,
                Some(url) => Step::Fetch(self.request_for(url)),
            },
        }
    }

    /// Takes in the reply to the request that `try_next` asked for and finishes
    /// the advance: a record, the end (an empty page), or the error.
    pub fn on_reply(&mut self, reply: Reply<T>) -> (r: Advance<T>)
        requires
            old(self).model().buffer.len() == 0,
            old(self).model().cursor is Some,
        ensures
            (final(self).model(), r.outcome()) == receive(old(self).model(), reply.answer()),
    {
        let ghost answer = reply.answer();
        match reply {
            Reply::Failed(m) => Advance::Error(FetchError::Transport(m)),
            Reply::Received { status, body, links } => {
                if status < 200 || status >= 300 {
                    return Advance::Error(FetchError::Status(status));
                }
                match body {
                    Err(m) => Advance::Error(FetchError::Decode(m)),
                    Ok(page) => {
                        let ghost records = page@;
                        self.next_link = next_link(&links);
                        self.fill(page);
                        assert(reversed(self.items@) =~= records);
                        match self.items.pop() {
                            Some(x) => {
                                assert(reversed(self.items@) =~= records.drop_first());
                                Advance::Item(x)
                            },
                            None => Advance::End,
                        }
                    },
                }
            },
        }
    }

    fn fill(&mut self, page: Vec<T>)
        requires
            old(self).items@.len() == 0,
        ensures
            final(self).items@ == reversed(page@),
            final(self).next_link == old(self).next_link,
            final(self).github_token == old(self).github_token,
    {
        let ghost whole = page@;
        let mut page = page;
        while page.len() > 0
            invariant
                page@ == whole.subrange(0, page@.len() as int),
                self.items@.len() + page@.len() == whole.len(),
                forall|j: int|
                    0 <= j < self.items@.len() ==> #[trigger] self.items@[j] == whole[whole.len()
                        - 1 - j],
                self.next_link == old(self).next_link,
                self.github_token == old(self).github_token,
            decreases page@.len(),
        {
            let x = page.pop().unwrap();
            self.items.push(x);
        }
        assert(self.items@ =~= reversed(whole));
    }
}

} // verus!
