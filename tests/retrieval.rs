use puzzles::{
    encode_content, encode_id, id_to_url, CacheReply, Command, Event, PuzzleDate, PuzzleId, PuzzlesContent,
    PuzzlesContentType, Retrieval, SourceId, CACHE_TTL_SECS,
};

fn id() -> PuzzleId {
    PuzzleId { source_id: SourceId::LaTimes, date: PuzzleDate { year: 2019, month: 1, day: 2 } }
}

fn content(text: &str) -> PuzzlesContent {
    PuzzlesContent { content: String::from(text), content_type: PuzzlesContentType::Xml }
}

fn expect_respond(c: Command) -> Option<PuzzlesContent> {
    match c {
        Command::Respond(r) => r,
        _ => panic!("expected a response"),
    }
}

#[test]
fn starts_with_cache_lookup() {
    let (_, cmd) = Retrieval::start(id());
    match cmd {
        Command::Lookup { key } => assert_eq!(key, encode_id(&id())),
        _ => panic!("expected a lookup"),
    }
}

#[test]
fn cache_hit_answers_without_fetch() {
    let (r, _) = Retrieval::start(id());
    let cached = encode_content(&content("<cached/>"));
    let (r, cmd) = r.step(Event::Cache(CacheReply::Hit(cached)));
    let got = expect_respond(cmd).unwrap();
    assert_eq!(got.content, "<cached/>");
    let (_, cmd) = r.step(Event::Fetched(Some(String::from("other"))));
    assert!(expect_respond(cmd).is_none());
}

fn run_miss(reply: CacheReply, stored: bool) -> (String, Vec<u8>, Vec<u8>, u64, PuzzlesContent) {
    let (r, _) = Retrieval::start(id());
    let (r, cmd) = r.step(Event::Cache(reply));
    let url = match cmd {
        Command::Fetch { url } => url,
        _ => panic!("expected a fetch"),
    };
    let (r, cmd) = r.step(Event::Fetched(Some(String::from("<fresh/>"))));
    let (key, value, ttl) = match cmd {
        Command::Store { key, value, ttl_secs } => (key, value, ttl_secs),
        _ => panic!("expected a store"),
    };
    let (_, cmd) = r.step(Event::Stored(stored));
    (url, key, value, ttl, expect_respond(cmd).unwrap())
}

#[test]
fn miss_fetches_stores_and_returns() {
    let (url, key, value, ttl, got) = run_miss(CacheReply::Miss, true);
    assert_eq!(url, id_to_url(&id()).0);
    assert_eq!(key, encode_id(&id()));
    assert_eq!(value, encode_content(&content("<fresh/>")));
    assert_eq!(ttl, 172800);
    assert_eq!(CACHE_TTL_SECS, 172800);
    assert_eq!(got.content, "<fresh/>");
    assert_eq!(got.content_type, PuzzlesContentType::Xml);
}

#[test]
fn failed_store_keeps_result() {
    let (_, _, _, _, ok) = run_miss(CacheReply::Miss, true);
    let (_, _, _, _, failed) = run_miss(CacheReply::Miss, false);
    assert_eq!(ok.content, failed.content);
}

#[test]
fn failed_fetch_returns_nothing_and_stores_nothing() {
    let (r, _) = Retrieval::start(id());
    let (r, _) = r.step(Event::Cache(CacheReply::Miss));
    let (r, cmd) = r.step(Event::Fetched(None));
    assert!(expect_respond(cmd).is_none());
    let (_, cmd) = r.step(Event::Stored(true));
    assert!(expect_respond(cmd).is_none());
}

#[test]
fn unavailable_cache_acts_as_miss() {
    let miss = run_miss(CacheReply::Miss, true);
    let down = run_miss(CacheReply::Unavailable, true);
    assert_eq!(miss.0, down.0);
    assert_eq!(miss.1, down.1);
    assert_eq!(miss.2, down.2);
    assert_eq!(miss.3, down.3);
    assert_eq!(miss.4.content, down.4.content);
}

#[test]
fn undecodable_entry_acts_as_miss() {
    let (r, _) = Retrieval::start(id());
    let (_, cmd) = r.step(Event::Cache(CacheReply::Hit(vec![1, 2, 3])));
    assert!(matches!(cmd, Command::Fetch { .. }));
}
