use std::collections::HashSet;

use bookdata::coordinator::{EdgeError, IdGenerator, Term, Triple};
use bookdata::hashing::{blank_namespace_root, file_namespace, fresh, id_text, URL_NAMESPACE};
use bookdata::pgcode::write_pgencoded;
use bookdata::sink::{NodePlumber, SaveRequest, SinkAction, SinkPhase, BATCH_SIZE};

fn text(id: u128) -> String {
    String::from_utf8(id_text(id)).unwrap()
}

#[test]
fn url_namespace_is_uuid_crate_constant() {
    assert_eq!(URL_NAMESPACE, uuid::Uuid::NAMESPACE_URL.as_u128());
}

#[test]
fn derive_known_vector() {
    let id = bookdata::hashing::derive(URL_NAMESPACE, b"example.org");
    assert_eq!(text(id), "54a35416-963c-5dd6-a1e2-5ab7bb5bafc7");
}

#[test]
fn derive_is_deterministic() {
    let a = bookdata::hashing::derive(URL_NAMESPACE, b"https://x/a");
    let b = bookdata::hashing::derive(URL_NAMESPACE, b"https://x/a");
    assert_eq!(a, b);
    let ns = blank_namespace_root();
    assert_eq!(ns, blank_namespace_root());
}

#[test]
fn derive_distinct_contents_do_not_collide() {
    let mut seen = HashSet::new();
    for i in 0..20000u32 {
        let content = format!("https://example.org/item/{}", i);
        assert!(seen.insert(bookdata::hashing::derive(URL_NAMESPACE, content.as_bytes())));
    }
}

#[test]
fn derive_namespace_scopes_content() {
    let root = blank_namespace_root();
    let f1 = file_namespace(root, "one.nt");
    let f2 = file_namespace(root, "two.nt");
    assert_ne!(f1, f2);
    assert_ne!(
        bookdata::hashing::derive(f1, b"b0"),
        bookdata::hashing::derive(f2, b"b0")
    );
}

#[test]
fn fresh_ids_are_random_version_four() {
    let a = fresh();
    let b = fresh();
    assert_ne!(a, b);
    assert_eq!((a >> 76) & 0xf, 4);
    assert_eq!(uuid::Uuid::from_u128(b).get_version_num(), 4);
}

#[test]
fn id_text_is_hyphenated_lower_hex() {
    assert_eq!(text(URL_NAMESPACE), "6ba7b811-9dad-11d1-80b4-00c04fd430c8");
    assert_eq!(text(0), "00000000-0000-0000-0000-000000000000");
}

#[test]
fn pgencoded_escapes_separators() {
    let mut out = b"x".to_vec();
    write_pgencoded(&mut out, b"a\tb\\c\nd\re");
    assert_eq!(out, b"xa\\tb\\\\c\\nd\\re".to_vec());
    let mut plain = Vec::new();
    write_pgencoded(&mut plain, "caf\u{e9}".as_bytes());
    assert_eq!(plain, "caf\u{e9}".as_bytes().to_vec());
}

fn save(id: u128, iri: &str) -> SaveRequest {
    SaveRequest::SaveNode(id, iri.to_owned())
}

/// Feed all requests, then Close; collect every flushed row and the count.
fn run_requests(batch_size: usize, reqs: Vec<SaveRequest>) -> (Vec<(u128, String)>, u64) {
    let mut plumber = NodePlumber::create(batch_size);
    let mut rows = Vec::new();
    for r in reqs.into_iter().chain(std::iter::once(SaveRequest::Close)) {
        if let SinkAction::Flush(batch) = plumber.receive(r) {
            rows.extend(batch);
        }
    }
    assert_eq!(plumber.phase(), SinkPhase::Draining);
    let count = plumber.finish().expect("draining");
    assert_eq!(plumber.phase(), SinkPhase::Closed);
    (rows, count)
}

#[test]
fn sink_commits_each_distinct_id_once() {
    let mut reqs = Vec::new();
    for round in 0..5u128 {
        for i in 0..7u128 {
            reqs.push(save((i * 31 + round) % 7, "iri"));
        }
    }
    let (rows, count) = run_requests(3, reqs);
    assert_eq!(rows.len(), 7);
    assert_eq!(count, 7);
    let ids: HashSet<u128> = rows.iter().map(|r| r.0).collect();
    assert_eq!(ids.len(), 7);
}

#[test]
fn sink_flushes_full_batches() {
    let mut plumber = NodePlumber::create(2);
    assert!(matches!(plumber.receive(save(1, "a")), SinkAction::Idle));
    assert!(matches!(plumber.receive(save(1, "a")), SinkAction::Idle));
    match plumber.receive(save(2, "b")) {
        SinkAction::Flush(rows) => assert_eq!(rows, vec![(1, "a".to_owned()), (2, "b".to_owned())]),
        SinkAction::Idle => panic!("expected a full batch"),
    }
    assert!(matches!(plumber.receive(save(3, "c")), SinkAction::Idle));
    match plumber.receive(SaveRequest::Close) {
        SinkAction::Flush(rows) => assert_eq!(rows, vec![(3, "c".to_owned())]),
        SinkAction::Idle => panic!("expected the last batch"),
    }
    assert_eq!(plumber.finish(), Some(3));
}

#[test]
fn sink_ignores_requests_after_close() {
    let mut plumber = NodePlumber::create(BATCH_SIZE);
    plumber.receive(save(1, "a"));
    assert!(matches!(plumber.receive(SaveRequest::Close), SinkAction::Flush(_)));
    assert!(matches!(plumber.receive(save(2, "b")), SinkAction::Idle));
    assert!(matches!(plumber.receive(SaveRequest::Close), SinkAction::Idle));
    assert_eq!(plumber.finish(), Some(1));
    assert!(matches!(plumber.receive(save(3, "c")), SinkAction::Idle));
    assert_eq!(plumber.finish(), None);
}

#[test]
fn sink_finish_refused_while_running() {
    let mut plumber = NodePlumber::create(BATCH_SIZE);
    assert_eq!(plumber.finish(), None);
    assert_eq!(plumber.phase(), SinkPhase::Running);
}

#[test]
fn sink_close_with_nothing_sent() {
    let (rows, count) = run_requests(BATCH_SIZE, Vec::new());
    assert!(rows.is_empty());
    assert_eq!(count, 0);
}

fn iri(s: &str) -> Term {
    Term::Iri(s.to_owned())
}

fn edge(s: Term, p: Term, o: Term) -> Triple {
    Triple { subject: s, predicate: p, object: o }
}

#[test]
fn edge_processed_twice_saves_each_node_once() {
    let mut idg = IdGenerator::create("member.nt");
    let first = idg
        .process_triple(&edge(iri("https://x/a"), iri("https://x/p"), iri("https://x/b")))
        .unwrap();
    let second = idg
        .process_triple(&edge(iri("https://x/a"), iri("https://x/p"), iri("https://x/b")))
        .unwrap();
    assert_eq!(first, second);
    let out = idg.drain();
    assert!(out.literals.is_empty());
    let lines: Vec<&[u8]> = out.edges.split(|b| *b == b'\n').filter(|l| !l.is_empty()).collect();
    assert_eq!(lines.len(), 2);
    assert_eq!(lines[0], lines[1]);
    let expected = format!("{}\t{}\t{}", text(first.0), text(first.1), text(first.2));
    assert_eq!(lines[0], expected.as_bytes());

    let (rows, count) = run_requests(BATCH_SIZE, out.saves);
    let iris: Vec<&str> = rows.iter().map(|r| r.1.as_str()).collect();
    assert_eq!(iris.iter().filter(|i| **i == "https://x/a").count(), 1);
    assert_eq!(iris.iter().filter(|i| **i == "https://x/b").count(), 1);
    assert_eq!(rows.len(), 3);
    assert_eq!(count, 3);
    assert_eq!(first.0, bookdata::hashing::derive(URL_NAMESPACE, b"https://x/a"));
}

#[test]
fn literal_objects_are_never_deduplicated() {
    let mut idg = IdGenerator::create("member.nt");
    let e = edge(iri("https://x/a"), iri("https://x/p"), Term::Literal("Some\ttitle".to_owned()));
    let first = idg.process_triple(&e).unwrap();
    let second = idg.process_triple(&e).unwrap();
    assert_ne!(first.2, second.2);
    let out = idg.drain();
    let lines: Vec<&[u8]> = out.literals.split(|b| *b == b'\n').filter(|l| !l.is_empty()).collect();
    assert_eq!(lines.len(), 2);
    assert_eq!(lines[0], format!("{}\tSome\\ttitle", text(first.2)).as_bytes());
    assert_eq!(lines[1], format!("{}\tSome\\ttitle", text(second.2)).as_bytes());
    assert_eq!(out.saves.len(), 4);
}

#[test]
fn predicate_must_be_named() {
    let mut idg = IdGenerator::create("member.nt");
    let e = edge(iri("https://x/a"), Term::Blank("b0".to_owned()), iri("https://x/b"));
    assert_eq!(idg.process_triple(&e), Err(EdgeError::PredicateNotNamed));
    let e = edge(iri("https://x/a"), Term::Literal("p".to_owned()), iri("https://x/b"));
    assert_eq!(idg.process_triple(&e), Err(EdgeError::PredicateNotNamed));
    let out = idg.drain();
    assert!(out.saves.is_empty());
    assert!(out.literals.is_empty());
    assert!(out.edges.is_empty());
}

#[test]
fn blank_nodes_are_scoped_to_their_file_and_not_saved() {
    let mut one = IdGenerator::create("one.nt");
    let mut two = IdGenerator::create("two.nt");
    let e = edge(Term::Blank("b0".to_owned()), iri("https://x/p"), Term::Blank("b1".to_owned()));
    let a = one.process_triple(&e).unwrap();
    let a2 = one.process_triple(&e).unwrap();
    let b = two.process_triple(&e).unwrap();
    assert_eq!(a, a2);
    assert_ne!(a.0, b.0);
    assert_eq!(a.1, b.1);
    let ns = file_namespace(blank_namespace_root(), "one.nt");
    assert_eq!(a.0, bookdata::hashing::derive(ns, b"b0"));
    let out = one.drain();
    assert_eq!(out.saves.len(), 2);
}
