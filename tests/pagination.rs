use pulls_since::link::headers_are_ascii;
use pulls_since::{next_link, Advance, FetchError, PaginatedIter, Reply, Request, Step};

struct Page {
    url: &'static str,
    status: u16,
    body: Result<Vec<u32>, String>,
    links: Vec<String>,
}

struct Server {
    pages: Vec<Page>,
    requests: Vec<Request>,
}

impl Server {
    fn reply(&mut self, req: Request) -> Reply<u32> {
        let found = self.pages.iter().find(|p| p.url == req.url).map(|p| Reply::Received {
            status: p.status,
            body: p.body.clone(),
            links: p.links.clone(),
        });
        self.requests.push(req);
        found.unwrap_or(Reply::Failed("connection refused".to_string()))
    }
}

fn advance(it: &mut PaginatedIter<u32>, server: &mut Server) -> Advance<u32> {
    match it.try_next() {
        Step::Item(x) => Advance::Item(x),
        Step::End => Advance::End,
        Step::Fetch(req) => {
            assert!(it.awaiting_reply());
            let reply = server.reply(req);
            it.on_reply(reply)
        }
    }
}

fn next_to(url: &str) -> Vec<String> {
    vec![format!("<{}>; rel=\"next\", <https://h/last>; rel=\"last\"", url)]
}

fn item(a: Advance<u32>) -> Option<u32> {
    match a {
        Advance::Item(x) => Some(x),
        _ => None,
    }
}

fn two_pages() -> Server {
    Server {
        pages: vec![
            Page { url: "https://h/p1", status: 200, body: Ok(vec![1, 2]), links: next_to("https://h/p2") },
            Page { url: "https://h/p2", status: 200, body: Ok(vec![3]), links: vec![] },
        ],
        requests: vec![],
    }
}

#[test]
fn drains_every_record_once_in_order() {
    let mut server = two_pages();
    let mut it = PaginatedIter::for_addr("https://h/p1", None);
    let mut seen = vec![];
    for _ in 0..3 {
        seen.push(item(advance(&mut it, &mut server)).expect("a record"));
    }
    assert_eq!(seen, vec![1, 2, 3]);
    assert!(matches!(advance(&mut it, &mut server), Advance::End));
    assert!(matches!(advance(&mut it, &mut server), Advance::End));
    assert_eq!(server.requests.len(), 2);
}

#[test]
fn no_request_while_buffer_holds_records() {
    let mut server = two_pages();
    let mut it = PaginatedIter::for_addr("https://h/p1", None);
    assert_eq!(item(advance(&mut it, &mut server)), Some(1));
    assert_eq!(server.requests.len(), 1);
    assert!(matches!(it.try_next(), Step::Item(2)));
    assert_eq!(server.requests.len(), 1);
    assert!(matches!(it.try_next(), Step::Fetch(ref r) if r.url == "https://h/p2"));
}

#[test]
fn decode_failure_yields_no_record_of_the_page() {
    let mut server = Server {
        pages: vec![Page { url: "https://h/p1", status: 200, body: Err("expected array".to_string()), links: vec![] }],
        requests: vec![],
    };
    let mut it = PaginatedIter::for_addr("https://h/p1", None);
    match advance(&mut it, &mut server) {
        Advance::Error(FetchError::Decode(m)) => assert_eq!(m, "expected array"),
        other => panic!("unexpected {:?}", other),
    }
    assert!(it.awaiting_reply());
}

#[test]
fn status_failure_leaves_the_iterator_where_it_was() {
    let mut server = Server {
        pages: vec![Page { url: "https://h/p1", status: 404, body: Ok(vec![7]), links: vec![] }],
        requests: vec![],
    };
    let mut it = PaginatedIter::for_addr("https://h/p1", None);
    assert!(matches!(advance(&mut it, &mut server), Advance::Error(FetchError::Status(404))));
    assert!(matches!(advance(&mut it, &mut server), Advance::Error(FetchError::Status(404))));
    assert_eq!(server.requests.len(), 2);
    assert_eq!(server.requests[0].url, "https://h/p1");
    assert_eq!(server.requests[1].url, "https://h/p1");
}

#[test]
fn transport_failure_is_reported() {
    let mut server = Server { pages: vec![], requests: vec![] };
    let mut it = PaginatedIter::for_addr("https://h/p1", None);
    assert!(matches!(advance(&mut it, &mut server), Advance::Error(FetchError::Transport(_))));
}

#[test]
fn empty_page_ends_the_call_without_skipping() {
    let mut server = Server {
        pages: vec![
            Page { url: "https://h/p1", status: 200, body: Ok(vec![]), links: next_to("https://h/p2") },
            Page { url: "https://h/p2", status: 200, body: Ok(vec![9]), links: vec![] },
        ],
        requests: vec![],
    };
    let mut it = PaginatedIter::for_addr("https://h/p1", None);
    assert!(matches!(advance(&mut it, &mut server), Advance::End));
    assert_eq!(item(advance(&mut it, &mut server)), Some(9));
    assert!(matches!(advance(&mut it, &mut server), Advance::End));
}

#[test]
fn credential_goes_on_every_request() {
    let mut server = two_pages();
    let mut it = PaginatedIter::for_addr("https://h/p1", Some("abc".to_string()));
    while let Advance::Item(_) = advance(&mut it, &mut server) {}
    assert_eq!(server.requests.len(), 2);
    for r in &server.requests {
        assert_eq!(r.authorization.as_deref(), Some("token abc"));
    }
}

#[test]
fn no_credential_no_header() {
    let mut server = two_pages();
    let mut it = PaginatedIter::for_addr("https://h/p1", None);
    while let Advance::Item(_) = advance(&mut it, &mut server) {}
    assert_eq!(server.requests.len(), 2);
    assert!(server.requests.iter().all(|r| r.authorization.is_none()));
}

#[test]
fn link_header_next_relation() {
    let raw = vec![
        "<https://api.github.com/x?page=1>; rel=\"prev\", <https://api.github.com/x?page=3>; rel=\"next\", <https://api.github.com/x?page=9>; rel=\"last\"".to_string(),
    ];
    assert_eq!(next_link(&raw).as_deref(), Some("https://api.github.com/x?page=3"));
}

#[test]
fn link_header_without_next() {
    let raw = vec!["<https://api.github.com/x?page=1>; rel=\"first\"".to_string()];
    assert_eq!(next_link(&raw), None);
    assert_eq!(next_link(&vec![]), None);
    assert_eq!(next_link(&vec!["not a link".to_string()]), None);
}

#[test]
fn non_ascii_link_header_announces_no_page() {
    let raw = vec![
        "<https://h/p2>; rel=\"next\"; type=\"text/plain;foo=\\\"a\u{e9}\\\";bar=x\"".to_string(),
    ];
    assert!(!headers_are_ascii(&raw));
    assert_eq!(next_link(&raw), None);
    let raw = vec!["<https://h/p\u{e9}>; rel=\"next\"".to_string()];
    assert_eq!(next_link(&raw), None);
    assert!(headers_are_ascii(&vec!["<https://h/p2>; rel=\"next\"".to_string()]));
}
