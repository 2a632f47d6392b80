use vstd::prelude::*;
use vstd::utf8::is_ascii_chars;
use hyper::header::{Header, Link};

verus! {

/// One link-value of a `Link` response header: its target address and its
/// `rel` relation types, each written as text.
pub struct LinkEntry {
    pub target: String,
    pub rels: Vec<String>,
}

impl LinkEntry {
    pub open spec fn entry_view(self) -> (Seq<char>, Seq<Seq<char>>) {
        (self.target@, self.rels@.map_values(|r: String| r@))
    }
}

pub open spec fn entries_view(es: Seq<LinkEntry>) -> Seq<(Seq<char>, Seq<Seq<char>>)> {
    es.map_values(|e: LinkEntry| e.entry_view())
}

pub open spec fn texts_view(v: Seq<String>) -> Seq<Seq<char>> {
    v.map_values(|s: String| s@)
}

/// The link-values that hyper reads from the given `Link` header values, or
/// `None` where they do not parse.
pub uninterp spec fn link_header_entries(raw: Seq<Seq<char>>) -> Option<
    Seq<(Seq<char>, Seq<Seq<char>>)>,
>;

/// Every header value is plain ASCII, as HTTP header values are.
pub open spec fn all_ascii(raw: Seq<Seq<char>>) -> bool {
    forall|i: int| 0 <= i < raw.len() ==> is_ascii_chars(#[trigger] raw[i])
}

/// Relies on hyper's `Link` header parser (`Header::parse_header`): the
/// link-values of all the given header values, in order, each with its target
/// and its relation types; an error (here `None`) when no header value is given.
/// On ASCII text only: the media-type parameters that hyper hands to `mime`
/// are sliced there by character counts taken as byte offsets.
#[verifier::external_body]
fn parse_link_header(raw: &Vec<String>) -> (r: Option<Vec<LinkEntry>>)
    requires
        all_ascii(texts_view(raw@)),
    ensures
        match r {
            Some(es) => link_header_entries(texts_view(raw@)) == Some(entries_view(es@)),
            None => link_header_entries(texts_view(raw@)) is None,
        },
        raw@.len() == 0 ==> r is None,
{
    let lines: Vec<Vec<u8>> = raw.iter().map(|s| s.as_bytes().to_vec()).collect();
    <Link as Header>::parse_header(&lines).ok().map(|link| {
        link.values().iter().map(|v| LinkEntry {
            target: v.link().to_owned(),
            rels: v.rel().unwrap_or(&[]).iter().map(|t| t.to_string()).collect(),
        }).collect()
    })
}

/// The relation type that marks the following page.
pub open spec fn next_rel() -> Seq<char> {
    seq!['n', 'e', 'x', 't']
}

/// The target of the first link-value tagged with the `next` relation.
pub open spec fn first_next(es: Seq<(Seq<char>, Seq<Seq<char>>)>) -> Option<Seq<char>>
    decreases es.len(),
{
    if es.len() == 0 {
        None
    } else if es[0].1.contains(next_rel()) {
        Some(es[0].0)
    } else {
        first_next(es.drop_first())
    }
}

/// The next page's address announced by a response's `Link` headers, if any;
/// header values that are not plain ASCII announce none.
pub open spec fn next_cursor(raw: Seq<Seq<char>>) -> Option<Seq<char>> {
    if !all_ascii(raw) {
        None
    } else {
        match link_header_entries(raw) {
            Some(es) => first_next(es),
            None => None,
        }
    }
}

proof fn lemma_first_next_skip(es: Seq<(Seq<char>, Seq<Seq<char>>)>, i: int)
    requires
        0 <= i <= es.len(),
        forall|j: int| 0 <= j < i ==> !(#[trigger] es[j]).1.contains(next_rel()),
    ensures
        first_next(es) == first_next(es.subrange(i, es.len() as int)),
    decreases i,
{
    if i > 0 {
        lemma_first_next_skip(es.drop_first(), i - 1);
        assert(es.drop_first().subrange(i - 1, es.drop_first().len() as int) =~= es.subrange(
            i,
            es.len() as int,
        ));
    } else {
        assert(es.subrange(0, es.len() as int) =~= es);
    }
}

fn has_next_rel(rels: &Vec<String>) -> (r: bool)
    ensures
        r == texts_view(rels@).contains(next_rel()),
{
    let word = String::from_str("next");
    proof {
        reveal_strlit("next");
    }
    assert(word@ =~= next_rel());
    let mut k: usize = 0;
    while k < rels.len()
        invariant
            k <= rels@.len(),
            word@ == next_rel(),
            forall|j: int| 0 <= j < k ==> texts_view(rels@)[j] != next_rel(),
        decreases rels@.len() - k,
    {
        if rels[k] == word {
            assert(texts_view(rels@)[k as int] == next_rel());
            return true;
        }
        k += 1;
    }
    proof {
        if texts_view(rels@).contains(next_rel()) {
            let j = choose|j: int| 0 <= j < texts_view(rels@).len() && texts_view(rels@)[j] == next_rel();
            assert(texts_view(rels@)[j] != next_rel());
        }
    }
    false
}

/// The target of the first entry tagged with the `next` relation.
pub fn next_link_in(entries: &Vec<LinkEntry>) -> (r: Option<String>)
    ensures
        match r {
            Some(s) => first_next(entries_view(entries@)) == Some(s@),
            None => first_next(entries_view(entries@)) is None,
        },
{
    let ghost view = entries_view(entries@);
    let mut i: usize = 0;
    while i < entries.len()
        invariant
            i <= entries@.len(),
            view == entries_view(entries@),
            forall|j: int| 0 <= j < i ==> !(#[trigger] view[j]).1.contains(next_rel()),
        decreases entries@.len() - i,
    {
        if has_next_rel(&entries[i].rels) {
            proof {
                lemma_first_next_skip(view, i as int);
                assert(view.subrange(i as int, view.len() as int)[0] == view[i as int]);
            }
            return Some(entries[i].target.clone());
        }
        i += 1;
    }
    proof {
        lemma_first_next_skip(view, i as int);
    }
    None
}

/// Whether every header value is plain ASCII.
pub fn headers_are_ascii(raw: &Vec<String>) -> (r: bool)
    ensures
        r == all_ascii(texts_view(raw@)),
{
    let mut i: usize = 0;
    while i < raw.len()
        invariant
            i <= raw@.len(),
            forall|j: int| 0 <= j < i ==> is_ascii_chars(#[trigger] texts_view(raw@)[j]),
        decreases raw@.len() - i,
    {
        if !raw[i].as_str().is_ascii() {
            assert(!is_ascii_chars(texts_view(raw@)[i as int]));
            return false;
        }
        i += 1;
    }
    true
}

/// The next page's address from a response's raw `Link` header values; a
/// value that is not plain ASCII is no valid header, and announces no page.
pub fn next_link(raw: &Vec<String>) -> (r: Option<String>)
    ensures
        !all_ascii(texts_view(raw@)) ==> r is None,
        match r {
            Some(s) => next_cursor(texts_view(raw@)) == Some(s@),
            None => next_cursor(texts_view(raw@)) is None,
        },
{
    if !headers_are_ascii(raw) {
        return None;
    }
    match parse_link_header(raw) {
        Some(entries) => next_link_in(&entries),
        None => None,
    }
}

} // verus!
