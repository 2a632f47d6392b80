use vstd::prelude::*;
use crate::paging::{
    authorization_for, is_success, poll, receive, start, Answer, Demand, Outcome, PageState,
};

verus! {

/// One advance against a server that answers fetches with `server`, in order.
/// The server running out of answers is reported as a transport failure.
pub open spec fn advance<T>(s: PageState<T>, server: Seq<Answer<T>>) -> (
    PageState<T>,
    Seq<Answer<T>>,
    Outcome<T>,
) {
    let (s1, d) = poll(s);
    match d {
        Demand::Item(x) => (s1, server, Outcome::Item(x)),
        Demand::End => (s1, server, Outcome::End),
        Demand::Fetch(_) => if server.len() == 0 {
            (s1, server, Outcome::Transport(Seq::empty()))
        } else {
            let (s2, o) = receive(s1, server[0]);
            (s2, server.drop_first(), o)
        },
    }
}

/// The outcomes of `n` successive advances.
pub open spec fn advance_n<T>(s: PageState<T>, server: Seq<Answer<T>>, n: nat) -> Seq<Outcome<T>>
    decreases n,
{
    if n == 0 {
        Seq::empty()
    } else {
        let (s1, rest, o) = advance(s, server);
        seq![o] + advance_n(s1, rest, (n - 1) as nat)
    }
}

pub open spec fn page_records<T>(a: Answer<T>) -> Seq<T> {
    match a {
        Answer::Received { body: Ok(items), .. } => items,
        _ => Seq::empty(),
    }
}

pub open spec fn page_next<T>(a: Answer<T>) -> Option<Seq<char>> {
    match a {
        Answer::Received { next, .. } => next,
        _ => None,
    }
}

/// All records of the pages, in page order and then in-page order.
pub open spec fn all_records<T>(pages: Seq<Answer<T>>) -> Seq<T>
    decreases pages.len(),
{
    if pages.len() == 0 {
        Seq::empty()
    } else {
        page_records(pages[0]) + all_records(pages.drop_first())
    }
}

/// A well-formed chain of pages: each decodes with a success status, every page
/// but the last links to a following page and holds at least one record, and
/// the last links nowhere.
pub open spec fn page_chain<T>(pages: Seq<Answer<T>>) -> bool {
    &&& forall|i: int|
        0 <= i < pages.len() ==> {
            &&& (#[trigger] pages[i]) matches Answer::Received { status, body: Ok(_), .. }
                && is_success(status)
            &&& (i + 1 < pages.len()) == (page_next(pages[i]) is Some)
            &&& i + 1 < pages.len() ==> page_records(pages[i]).len() > 0
        }
}

pub open spec fn yields_all<T>(records: Seq<T>) -> Seq<Outcome<T>> {
    records.map_values(|x: T| Outcome::Item(x)) + seq![Outcome::End]
}

proof fn lemma_drain<T>(s: PageState<T>, pages: Seq<Answer<T>>, n: nat)
    requires
        page_chain(pages),
        (s.cursor is Some) == (pages.len() > 0),
        n == s.buffer.len() + all_records(pages).len(),
    ensures
        advance_n(s, pages, n + 1) == yields_all(s.buffer + all_records(pages)),
    decreases n,
{
    let (s1, rest, o) = advance(s, pages);
    if s.buffer.len() > 0 {
        lemma_drain(s1, rest, (n - 1) as nat);
        assert(s1.buffer + all_records(pages) =~= (s.buffer + all_records(pages)).drop_first());
        assert(yields_all(s.buffer + all_records(pages)) =~= seq![o] + yields_all(
            s1.buffer + all_records(pages),
        ));
    } else if pages.len() == 0 {
        assert(advance_n(s1, rest, 0) =~= Seq::<Outcome<T>>::empty());
        assert(yields_all(s.buffer + all_records(pages)) =~= seq![Outcome::<T>::End]);
    } else {
        let p = pages[0];
        assert(p matches Answer::Received { status, body: Ok(_), .. } && is_success(status));
        let items = page_records(p);
        assert(all_records(pages) == items + all_records(pages.drop_first()));
        assert(s.buffer + all_records(pages) =~= all_records(pages));
        if items.len() > 0 {
            assert(s1.buffer == items.drop_first());
            assert(page_chain(rest)) by {
                assert forall|i: int| 0 <= i < rest.len() implies #[trigger] rest[i] == pages[i
                    + 1] by {}
            }
            lemma_drain(s1, rest, (n - 1) as nat);
            assert(s1.buffer + all_records(rest) =~= (s.buffer + all_records(pages)).drop_first());
            assert(yields_all(s.buffer + all_records(pages)) =~= seq![o] + yields_all(
                s1.buffer + all_records(rest),
            ));
        } else {
            assert(pages.len() == 1);
            assert(all_records(rest) =~= Seq::<T>::empty());
            assert(advance_n(s1, rest, 0) =~= Seq::<Outcome<T>>::empty());
            assert(yields_all(s.buffer + all_records(pages)) =~= seq![Outcome::<T>::End]);
        }
    }
}

/// Draining: over a chain of pages holding N records in all, N advances yield
/// every record exactly once, in page order and then in-page order, and the
/// advance after them signals the end of the sequence.
pub proof fn lemma_yields_each_record_once<T>(
    url: Seq<char>,
    token: Option<Seq<char>>,
    pages: Seq<Answer<T>>,
)
    requires
        pages.len() > 0,
        page_chain(pages),
    ensures
        advance_n(start::<T>(url, token), pages, all_records(pages).len() + 1) == yields_all(
            all_records(pages),
        ),
{
    let s = start::<T>(url, token);
    lemma_drain(s, pages, all_records(pages).len());
    assert(s.buffer + all_records(pages) =~= all_records(pages));
}

/// A body that fails to decode yields a decode error, and no record of that
/// page is buffered or yielded: the state stays as it was.
pub proof fn lemma_decode_failure_yields_nothing<T>(
    s: PageState<T>,
    status: u16,
    message: Seq<char>,
    next: Option<Seq<char>>,
)
    requires
        is_success(status),
    ensures
        receive(s, Answer::Received { status, body: Err(message), next }) == (
            s,
            Outcome::<T>::Decode(message),
        ),
{
}

/// A non-success status yields a status error and changes neither cursor nor
/// buffer, so the next pull asks for the very same page again.
pub proof fn lemma_status_failure_keeps_state<T>(
    s: PageState<T>,
    status: u16,
    body: Result<Seq<T>, Seq<char>>,
    next: Option<Seq<char>>,
)
    requires
        !is_success(status),
    ensures
        receive(s, Answer::Received { status, body, next }) == (s, Outcome::<T>::Status(status)),
        poll(receive(s, Answer::Received { status, body, next }).0) == poll(s),
{
}

/// No request is ever asked for while the buffer still holds a record.
pub proof fn lemma_no_fetch_while_buffered<T>(s: PageState<T>)
    requires
        s.buffer.len() > 0,
    ensures
        !(poll(s).1 is Fetch),
        poll(s).0.cursor == s.cursor,
{
}

/// The credential is fixed for the iterator's lifetime: no advance changes it,
/// so every request carries the same `Authorization` header, and none at all
/// when no credential was given.
pub proof fn lemma_credential_kept<T>(s: PageState<T>, server: Seq<Answer<T>>)
    ensures
        advance(s, server).0.token == s.token,
        s.token is None <==> authorization_for(s.token) is None,
{
}

} // verus!
