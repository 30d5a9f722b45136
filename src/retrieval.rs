//! Cache-aside retrieval of one puzzle, as a state machine. The caller performs
//! each command it is given (a cache lookup, a fetch from the origin, a cache
//! write, or the response) and feeds back what came of it as an event.
use vstd::prelude::*;

use crate::codec::{
    decode_content, encode_content, encode_id, spec_decode_content, spec_encode_content,
    spec_encode_id,
};
use crate::types::{PuzzleId, PuzzlesContent, PuzzlesContentView};
use crate::url::{id_to_url, spec_content_type, spec_url};

verus! {

/// How long a cached puzzle is kept: two days.
pub const CACHE_TTL_SECS: u64 = 60 * 60 * 24 * 2;

/// What the cache answered to a lookup.
pub enum CacheReply {
    /// The cache holds these bytes under the key.
    Hit(Vec<u8>),
    /// The cache holds nothing under the key.
    Miss,
    /// The cache could not be reached or failed.
    Unavailable,
}

/// What came of the last command.
pub enum Event {
    /// The cache answered a lookup.
    Cache(CacheReply),
    /// The origin answered a fetch: the text, or `None` where it failed.
    Fetched(Option<String>),
    /// The cache write finished, successfully or not.
    Stored(bool),
}

/// What the caller is to do next.
pub enum Command {
    /// Look the key up in the cache.
    Lookup { key: Vec<u8> },
    /// Fetch the text at this URL from the origin.
    Fetch { url: String },
    /// Write the value under the key, to expire after `ttl_secs` seconds.
    Store { key: Vec<u8>, value: Vec<u8>, ttl_secs: u64 },
    /// Answer the request: the puzzle, or `None` where it could not be had.
    Respond(Option<PuzzlesContent>),
}

/// Where a retrieval stands.
pub enum Stage {
    AwaitCache,
    AwaitFetch,
    AwaitStore(PuzzlesContent),
    Finished,
}

/// The retrieval of the puzzle `id`.
pub struct Retrieval {
    pub id: PuzzleId,
    pub stage: Stage,
}

pub enum CacheReplyView {
    Hit(Seq<u8>),
    Miss,
    Unavailable,
}

pub enum EventView {
    Cache(CacheReplyView),
    Fetched(Option<Seq<char>>),
    Stored(bool),
}

pub enum CommandView {
    Lookup { key: Seq<u8> },
    Fetch { url: Seq<char> },
    Store { key: Seq<u8>, value: Seq<u8>, ttl_secs: u64 },
    Respond(Option<PuzzlesContentView>),
}

pub enum StageView {
    AwaitCache,
    AwaitFetch,
    AwaitStore(PuzzlesContentView),
    Finished,
}

pub struct RetrievalView {
    pub id: PuzzleId,
    pub stage: StageView,
}

impl View for CacheReply {
    type V = CacheReplyView;

    open spec fn view(&self) -> CacheReplyView {
        match self {
            CacheReply::Hit(b) => CacheReplyView::Hit(b@),
            CacheReply::Miss => CacheReplyView::Miss,
            CacheReply::Unavailable => CacheReplyView::Unavailable,
        }
    }
}

impl View for Event {
    type V = EventView;

    open spec fn view(&self) -> EventView {
        match self {
            Event::Cache(r) => EventView::Cache(r@),
            Event::Fetched(t) => EventView::Fetched(
                match t {
                    Some(s) => Some(s@),
                    None => None,
                },
            ),
            Event::Stored(ok) => EventView::Stored(*ok),
        }
    }
}

impl View for Command {
    type V = CommandView;

    open spec fn view(&self) -> CommandView {
        match self {
            Command::Lookup { key } => CommandView::Lookup { key: key@ },
            Command::Fetch { url } => CommandView::Fetch { url: url@ },
            Command::Store { key, value, ttl_secs } => CommandView::Store {
                key: key@,
                value: value@,
                ttl_secs: *ttl_secs,
            },
            Command::Respond(c) => CommandView::Respond(
                match c {
                    Some(c) => Some(c@),
                    None => None,
                },
            ),
        }
    }
}

impl View for Stage {
    type V = StageView;

    open spec fn view(&self) -> StageView {
        match self {
            Stage::AwaitCache => StageView::AwaitCache,
            Stage::AwaitFetch => StageView::AwaitFetch,
            Stage::AwaitStore(c) => StageView::AwaitStore(c@),
            Stage::Finished => StageView::Finished,
        }
    }
}

impl View for Retrieval {
    type V = RetrievalView;

    open spec fn view(&self) -> RetrievalView {
        RetrievalView { id: self.id, stage: self.stage@ }
    }
}

/// A retrieval begins by looking the identifier's key up in the cache.
pub open spec fn spec_start(id: PuzzleId) -> (RetrievalView, CommandView) {
    (
        RetrievalView { id, stage: StageView::AwaitCache },
        CommandView::Lookup { key: spec_encode_id(id) },
    )
}

/// One transition: a cached entry that decodes is the answer; a miss, an
/// unusable entry or an unavailable cache leads to the origin; fetched text
/// is written to the cache and then returned whatever the write gave; a failed
/// fetch is answered with nothing. An event that the stage does not wait for
/// ends the retrieval with nothing.
pub open spec fn spec_step(s: RetrievalView, e: EventView) -> (RetrievalView, CommandView) {
    let id = s.id;
    let finished = RetrievalView { id, stage: StageView::Finished };
    match (s.stage, e) {
        (StageView::AwaitCache, EventView::Cache(reply)) => {
            let cached = match reply {
                CacheReplyView::Hit(b) => spec_decode_content(b),
                _ => None,
            };
            match cached {
                Some(c) => (finished, CommandView::Respond(Some(c))),
                None => (
                    RetrievalView { id, stage: StageView::AwaitFetch },
                    CommandView::Fetch { url: spec_url(id) },
                ),
            }
        },
        (StageView::AwaitFetch, EventView::Fetched(Some(text))) => {
            let c = PuzzlesContentView { content: text, content_type: spec_content_type(id) };
            (
                RetrievalView { id, stage: StageView::AwaitStore(c) },
                CommandView::Store {
                    key: spec_encode_id(id),
                    value: spec_encode_content(c),
                    ttl_secs: CACHE_TTL_SECS,
                },
            )
        },
        (StageView::AwaitStore(c), EventView::Stored(_)) => (
            finished,
            CommandView::Respond(Some(c)),
        ),
        _ => (finished, CommandView::Respond(None)),
    }
}

/// The commands that a retrieval in state `s` issues on the events `es`.
pub open spec fn spec_run(s: RetrievalView, es: Seq<EventView>) -> Seq<CommandView>
    decreases es.len(),
{
    if es.len() == 0 {
        Seq::empty()
    } else {
        let (next, c) = spec_step(s, es[0]);
        seq![c] + spec_run(next, es.drop_first())
    }
}

impl Retrieval {
    /// Begins the retrieval of `id`.
    pub fn start(id: PuzzleId) -> (r: (Retrieval, Command))
        ensures
            (r.0@, r.1@) == spec_start(id),
    {
        let key = encode_id(&id);
        (Retrieval { id, stage: Stage::AwaitCache }, Command::Lookup { key })
    }

    /// Takes what came of the last command and says what to do next.
    pub fn step(self, event: Event) -> (r: (Retrieval, Command))
        ensures
            (r.0@, r.1@) == spec_step(self@, event@),
    {
        let id = self.id;
        match (self.stage, event) {
            (Stage::AwaitCache, Event::Cache(reply)) => {
                let cached = match reply {
                    CacheReply::Hit(b) => decode_content(b.as_slice()),
                    _ => None,
                };
                match cached {
                    Some(c) => (Retrieval { id, stage: Stage::Finished }, Command::Respond(Some(c))),
                    None => {
                        let (url, _) = id_to_url(&id);
                        (Retrieval { id, stage: Stage::AwaitFetch }, Command::Fetch { url })
                    },
                }
            },
            (Stage::AwaitFetch, Event::Fetched(Some(text))) => {
                let (_, content_type) = id_to_url(&id);
                let c = PuzzlesContent { content: text, content_type };
                let key = encode_id(&id);
                let value = encode_content(&c);
                (
                    Retrieval { id, stage: Stage::AwaitStore(c) },
                    Command::Store { key, value, ttl_secs: CACHE_TTL_SECS },
                )
            },
            (Stage::AwaitStore(c), Event::Stored(_)) => (
                Retrieval { id, stage: Stage::Finished },
                Command::Respond(Some(c)),
            ),
            _ => (Retrieval { id, stage: Stage::Finished }, Command::Respond(None)),
        }
    }
}

proof fn lemma_run_unfold(s: RetrievalView, e: EventView, rest: Seq<EventView>)
    ensures
        spec_run(s, seq![e] + rest) == seq![spec_step(s, e).1] + spec_run(spec_step(s, e).0, rest),
{
    assert((seq![e] + rest).drop_first() =~= rest);
    assert((seq![e] + rest)[0] == e);
}

/// A finished retrieval issues no further work: whatever comes, it answers
/// with nothing and stays finished.
pub proof fn lemma_finished_is_inert(s: RetrievalView, es: Seq<EventView>)
    requires
        s.stage is Finished,
    ensures
        spec_run(s, es).len() == es.len(),
        forall|i: int|
            0 <= i < es.len() ==> #[trigger] spec_run(s, es)[i] == CommandView::Respond(None),
    decreases es.len(),
{
    if es.len() > 0 {
        lemma_run_unfold(s, es[0], es.drop_first());
        assert(seq![es[0]] + es.drop_first() =~= es);
        lemma_finished_is_inert(spec_step(s, es[0]).0, es.drop_first());
        assert forall|i: int| 0 <= i < es.len() implies #[trigger] spec_run(s, es)[i]
            == CommandView::Respond(None) by {
            if i > 0 {
                assert(spec_run(s, es)[i] == spec_run(spec_step(s, es[0]).0, es.drop_first())[i
                    - 1]);
            }
        }
    }
}

/// On a cache hit whose entry decodes, the cached content is the answer and
/// the origin is never asked.
pub proof fn lemma_cache_hit_skips_origin(id: PuzzleId, b: Seq<u8>, rest: Seq<EventView>)
    requires
        spec_decode_content(b) is Some,
    ensures
        ({
            let cmds = spec_run(spec_start(id).0, seq![EventView::Cache(CacheReplyView::Hit(b))] + rest);
            &&& cmds[0] == CommandView::Respond(spec_decode_content(b))
            &&& forall|i: int| 0 <= i < cmds.len() ==> !(#[trigger] cmds[i] is Fetch)
        }),
{
    let s = spec_start(id).0;
    let e = EventView::Cache(CacheReplyView::Hit(b));
    lemma_run_unfold(s, e, rest);
    let next = spec_step(s, e).0;
    lemma_finished_is_inert(next, rest);
    let cmds = spec_run(s, seq![e] + rest);
    assert forall|i: int| 0 <= i < cmds.len() implies !(#[trigger] cmds[i] is Fetch) by {
        if i > 0 {
            assert(cmds[i] == spec_run(next, rest)[i - 1]);
        }
    }
}

/// On a miss and a successful fetch, the fetched text is written to the cache
/// once, with the two-day lifetime, and then returned, whether the write
/// succeeded or not.
pub proof fn lemma_fetch_success_stores_once(
    id: PuzzleId,
    text: Seq<char>,
    stored: bool,
    rest: Seq<EventView>,
)
    ensures
        ({
            let c = PuzzlesContentView { content: text, content_type: spec_content_type(id) };
            let es = seq![
                EventView::Cache(CacheReplyView::Miss),
                EventView::Fetched(Some(text)),
                EventView::Stored(stored),
            ] + rest;
            let cmds = spec_run(spec_start(id).0, es);
            &&& cmds.take(3) == seq![
                CommandView::Fetch { url: spec_url(id) },
                CommandView::Store {
                    key: spec_encode_id(id),
                    value: spec_encode_content(c),
                    ttl_secs: CACHE_TTL_SECS,
                },
                CommandView::Respond(Some(c)),
            ]
            &&& forall|i: int| 3 <= i < cmds.len() ==> #[trigger] cmds[i] == CommandView::Respond(None)
            &&& CACHE_TTL_SECS == 172800
        }),
{
    let s0 = spec_start(id).0;
    let e0 = EventView::Cache(CacheReplyView::Miss);
    let e1 = EventView::Fetched(Some(text));
    let e2 = EventView::Stored(stored);
    let es = seq![e0, e1, e2] + rest;
    let s1 = spec_step(s0, e0).0;
    let s2 = spec_step(s1, e1).0;
    let s3 = spec_step(s2, e2).0;
    assert(es =~= seq![e0] + (seq![e1] + (seq![e2] + rest)));
    lemma_run_unfold(s0, e0, seq![e1] + (seq![e2] + rest));
    lemma_run_unfold(s1, e1, seq![e2] + rest);
    lemma_run_unfold(s2, e2, rest);
    lemma_finished_is_inert(s3, rest);
    let cmds = spec_run(s0, es);
    assert(cmds =~= seq![spec_step(s0, e0).1, spec_step(s1, e1).1, spec_step(s2, e2).1] + spec_run(
        s3,
        rest,
    ));
    assert(cmds.take(3) =~= seq![spec_step(s0, e0).1, spec_step(s1, e1).1, spec_step(s2, e2).1]);
    assert forall|i: int| 3 <= i < cmds.len() implies #[trigger] cmds[i] == CommandView::Respond(
        None,
    ) by {
        assert(cmds[i] == spec_run(s3, rest)[i - 3]);
    }
}

/// On a miss and a failed fetch, the answer is nothing and nothing is written
/// to the cache.
pub proof fn lemma_fetch_failure_stores_nothing(id: PuzzleId, rest: Seq<EventView>)
    ensures
        ({
            let es = seq![EventView::Cache(CacheReplyView::Miss), EventView::Fetched(None)] + rest;
            let cmds = spec_run(spec_start(id).0, es);
            &&& cmds.take(2) == seq![
                CommandView::Fetch { url: spec_url(id) },
                CommandView::Respond(None),
            ]
            &&& forall|i: int| 0 <= i < cmds.len() ==> !(#[trigger] cmds[i] is Store)
        }),
{
    let s0 = spec_start(id).0;
    let e0 = EventView::Cache(CacheReplyView::Miss);
    let e1 = EventView::Fetched(None);
    let es = seq![e0, e1] + rest;
    let s1 = spec_step(s0, e0).0;
    let s2 = spec_step(s1, e1).0;
    assert(es =~= seq![e0] + (seq![e1] + rest));
    lemma_run_unfold(s0, e0, seq![e1] + rest);
    lemma_run_unfold(s1, e1, rest);
    lemma_finished_is_inert(s2, rest);
    let cmds = spec_run(s0, es);
    assert(cmds =~= seq![spec_step(s0, e0).1, spec_step(s1, e1).1] + spec_run(s2, rest));
    assert(cmds.take(2) =~= seq![spec_step(s0, e0).1, spec_step(s1, e1).1]);
    assert forall|i: int| 0 <= i < cmds.len() implies !(#[trigger] cmds[i] is Store) by {
        if i >= 2 {
            assert(cmds[i] == spec_run(s2, rest)[i - 2]);
        }
    }
}

/// An unavailable cache is treated exactly as a miss, whatever follows.
pub proof fn lemma_unavailable_is_miss(s: RetrievalView, rest: Seq<EventView>)
    ensures
        spec_step(s, EventView::Cache(CacheReplyView::Unavailable)) == spec_step(
            s,
            EventView::Cache(CacheReplyView::Miss),
        ),
        spec_run(s, seq![EventView::Cache(CacheReplyView::Unavailable)] + rest) == spec_run(
            s,
            seq![EventView::Cache(CacheReplyView::Miss)] + rest,
        ),
{
    lemma_run_unfold(s, EventView::Cache(CacheReplyView::Unavailable), rest);
    lemma_run_unfold(s, EventView::Cache(CacheReplyView::Miss), rest);
}

} // verus!
