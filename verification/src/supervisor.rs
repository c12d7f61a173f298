//! The supervisor: from what the source reports to what the indicator does.
//!
//! The supervisor remembers whether it has the indicator blinking and decides,
//! for each report, whether a blink is to start or to stop. It waits for
//! nothing itself: the caller carries a decision out and says whether that
//! went well.

use crate::poll::PollError;
use crate::stream::{
    events_view, step, EventStreamParser, ParserStateView, StreamEvent, StreamEventView,
};
use crate::tracker::{apply, item_matches, NotificationTracker, NotificationView, TrackerOp};
use std::collections::hash_map::DefaultHasher;
use std::hash::Hasher;
use vstd::prelude::*;
use vstd::std_specs::hash::DefaultHasherAdditionalSpecFns;
use vstd::utf8::encode_utf8;

verus! {

/// The seconds to wait before a source that is unavailable is asked again.
/// The wait does not grow: the source is expected to be brought back by hand.
pub const SOURCE_RETRY_SECS: u64 = 10;

/// The seconds to wait before a line source that has ended is opened again.
pub const STREAM_RESTART_SECS: u64 = 5;

/// The number of identifiers that are made up for items that come without one.
pub const SYNTHETIC_IDS: u32 = 1_000_000;

/// The identifier made up from `digest`: the low 32 bits, reduced to the
/// range of made-up identifiers.
pub open spec fn synthetic_id(digest: u64) -> u32 {
    ((digest % 0x1_0000_0000) % (SYNTHETIC_IDS as u64)) as u32
}

/// Makes up an identifier from a digest. Two digests may give the same
/// identifier.
pub fn synthesize_id(digest: u64) -> (id: u32)
    ensures
        id == synthetic_id(digest),
        id < SYNTHETIC_IDS,
{
    let low: u32 = (digest % 0x1_0000_0000) as u32;
    low % SYNTHETIC_IDS
}

/// The `count` low bytes of `value`, the least significant first.
pub open spec fn low_bytes(value: u128, count: nat) -> Seq<u8>
    decreases count,
{
    if count == 0 {
        Seq::empty()
    } else {
        seq![(value % 256) as u8] + low_bytes(value / 256, (count - 1) as nat)
    }
}

/// What is hashed for an item: each of its texts as UTF-8 followed by a byte
/// that no text holds, then the sixteen bytes of the time it arrived, in
/// microseconds.
pub open spec fn digest_input(
    origin: Seq<char>,
    title: Seq<char>,
    body: Seq<char>,
    arrival_micros: u128,
) -> Seq<Seq<u8>> {
    seq![
        encode_utf8(origin),
        seq![0xffu8],
        encode_utf8(title),
        seq![0xffu8],
        encode_utf8(body),
        seq![0xffu8],
        low_bytes(arrival_micros, 16),
    ]
}

/// The digest of an item that arrived at `arrival_micros`: what the
/// standard hasher makes of [`digest_input`].
pub open spec fn content_digest(
    origin: Seq<char>,
    title: Seq<char>,
    body: Seq<char>,
    arrival_micros: u128,
) -> u64 {
    DefaultHasher::spec_finish(digest_input(origin, title, body, arrival_micros))
}

/// The sixteen bytes of `value`, the least significant first.
fn bytes_of(value: u128) -> (bytes: Vec<u8>)
    ensures
        bytes@ == low_bytes(value, 16),
{
    let mut bytes: Vec<u8> = Vec::new();
    let mut rest: u128 = value;
    let mut i: usize = 0;
    while i < 16
        invariant
            i <= 16,
            low_bytes(value, 16) == bytes@ + low_bytes(rest, (16 - i) as nat),
        decreases 16 - i,
    {
        assert(low_bytes(rest, (16 - i) as nat) == seq![(rest % 256) as u8] + low_bytes(
            rest / 256,
            (16 - i - 1) as nat,
        ));
        bytes.push((rest % 256) as u8);
        rest = rest / 256;
        i += 1;
        assert(low_bytes(value, 16) =~= bytes@ + low_bytes(rest, (16 - i) as nat));
    }
    assert(low_bytes(rest, 0) =~= Seq::<u8>::empty());
    assert(bytes@ + Seq::<u8>::empty() =~= bytes@);
    bytes
}

/// Computes the digest of an item from its texts and the time it arrived.
pub fn digest_item(origin: &str, title: &str, body: &str, arrival_micros: u128) -> (digest: u64)
    ensures
        digest == content_digest(origin@, title@, body@, arrival_micros),
{
    let mut end: Vec<u8> = Vec::new();
    end.push(0xff);
    let stamp = bytes_of(arrival_micros);
    let mut hasher = DefaultHasher::new();
    hasher.write(origin.as_bytes());
    hasher.write(end.as_slice());
    hasher.write(title.as_bytes());
    hasher.write(end.as_slice());
    hasher.write(body.as_bytes());
    hasher.write(end.as_slice());
    hasher.write(stamp.as_slice());
    assert(hasher@ =~= digest_input(origin@, title@, body@, arrival_micros));
    hasher.finish()
}

/// What is to happen to the blink.
#[derive(Clone, Copy, Debug, PartialEq, Eq, Structural)]
pub enum BlinkDecision {
    /// Nothing: the indicator is as it should be, or must be left as it is.
    Keep,
    /// The blink is to start.
    Start,
    /// The blink is to stop.
    Stop,
}

/// What a source that is being waited for calls for.
#[derive(Clone, Copy, Debug, PartialEq, Eq, Structural)]
pub enum WaitDecision {
    /// The source is there: go on.
    Proceed,
    /// The source is not there: wait this many seconds and ask again.
    RetryAfter { secs: u64 },
}

/// Decides what is to be done while a source is waited for.
pub fn wait_for_source(available: bool) -> (decision: WaitDecision)
    ensures
        decision == if available {
            WaitDecision::Proceed
        } else {
            WaitDecision::RetryAfter { secs: SOURCE_RETRY_SECS }
        },
{
    if available {
        WaitDecision::Proceed
    } else {
        WaitDecision::RetryAfter { secs: SOURCE_RETRY_SECS }
    }
}

/// What a report did to the items of a stream source.
#[derive(Clone, Copy, Debug, PartialEq, Eq, Structural)]
pub enum StreamChange {
    /// Nothing.
    Unchanged,
    /// An item was inserted under `id`; `matched` tells whether it matches.
    Added { id: u32, matched: bool },
    /// All items were removed.
    Cleared,
}

/// The supervisor's memory: whether it has the indicator blinking.
#[derive(Clone, Copy, Debug, PartialEq, Eq, Structural)]
pub struct Supervisor {
    /// Whether the last start was carried out and no stop since.
    pub currently_blinking: bool,
}

impl Supervisor {
    /// What the condition calls for: a start where it holds and nothing
    /// blinks, a stop where it does not hold and something blinks.
    pub open spec fn for_condition(self, condition: bool) -> BlinkDecision {
        if condition && !self.currently_blinking {
            BlinkDecision::Start
        } else if !condition && self.currently_blinking {
            BlinkDecision::Stop
        } else {
            BlinkDecision::Keep
        }
    }

    /// What a change to the items of a stream source calls for: a start for a
    /// new item that matches, a stop when the items were cleared.
    pub open spec fn for_change(self, change: StreamChange) -> BlinkDecision {
        match change {
            StreamChange::Added { matched: true, .. } => self.for_condition(true),
            StreamChange::Cleared => self.for_condition(false),
            _ => BlinkDecision::Keep,
        }
    }

    /// What the outcome of a probe calls for: what its condition calls for,
    /// and nothing where the probe failed.
    pub open spec fn for_probe(self, outcome: Result<usize, PollError>) -> BlinkDecision {
        match outcome {
            Ok(count) => self.for_condition(count > 0),
            Err(_) => BlinkDecision::Keep,
        }
    }

    /// The supervisor after `decision` was attempted.
    pub open spec fn confirmed(self, decision: BlinkDecision, carried_out: bool) -> Supervisor {
        if !carried_out {
            self
        } else {
            match decision {
                BlinkDecision::Keep => self,
                BlinkDecision::Start => Supervisor { currently_blinking: true },
                BlinkDecision::Stop => Supervisor { currently_blinking: false },
            }
        }
    }

    /// A supervisor that has nothing blinking.
    pub fn new() -> (supervisor: Self)
        ensures
            !supervisor.currently_blinking,
    {
        Supervisor { currently_blinking: false }
    }

    /// Decides for a condition that was computed anew.
    pub fn on_condition(&self, condition: bool) -> (decision: BlinkDecision)
        ensures
            decision == self.for_condition(condition),
    {
        if condition && !self.currently_blinking {
            BlinkDecision::Start
        } else if !condition && self.currently_blinking {
            BlinkDecision::Stop
        } else {
            BlinkDecision::Keep
        }
    }

    /// Decides for a change to the items of a stream source.
    pub fn on_change(&self, change: StreamChange) -> (decision: BlinkDecision)
        ensures
            decision == self.for_change(change),
    {
        match change {
            StreamChange::Added { matched, .. } => {
                if matched {
                    self.on_condition(true)
                } else {
                    BlinkDecision::Keep
                }
            },
            StreamChange::Cleared => self.on_condition(false),
            StreamChange::Unchanged => BlinkDecision::Keep,
        }
    }

    /// Decides for the outcome of a probe of a polled source.
    pub fn on_probe(&self, outcome: &Result<usize, PollError>) -> (decision: BlinkDecision)
        ensures
            decision == self.for_probe(*outcome),
    {
        match outcome {
            Ok(count) => self.on_condition(*count > 0),
            Err(_) => BlinkDecision::Keep,
        }
    }

    /// Decides for a source that has become unavailable: the blink stops.
    pub fn on_source_unavailable(&self) -> (decision: BlinkDecision)
        ensures
            decision == self.for_condition(false),
    {
        self.on_condition(false)
    }

    /// Takes note of a decision that was attempted. One that was not carried
    /// out leaves the supervisor as it was, so that it is decided again.
    pub fn confirm(&mut self, decision: BlinkDecision, carried_out: bool)
        ensures
            *final(self) == old(self).confirmed(decision, carried_out),
    {
        if carried_out {
            match decision {
                BlinkDecision::Keep => {},
                BlinkDecision::Start => {
                    self.currently_blinking = true;
                },
                BlinkDecision::Stop => {
                    self.currently_blinking = false;
                },
            }
        }
    }
}

/// A stream source: a parse session and the items it has given so far.
pub struct StreamSource {
    parser: EventStreamParser,
    tracker: NotificationTracker,
}

impl StreamSource {
    /// The state of the parse session.
    pub closed spec fn session(&self) -> ParserStateView {
        self.parser@
    }

    /// The items, by identifier.
    pub closed spec fn items(&self) -> Map<u32, NotificationView> {
        self.tracker.items()
    }

    /// The filter patterns.
    pub closed spec fn patterns(&self) -> Seq<Seq<char>> {
        self.tracker.patterns()
    }

    /// The number of items that match.
    pub closed spec fn match_count(&self) -> nat {
        self.tracker.match_count()
    }

    /// The items after `event`, which arrived at `arrival_micros`, was
    /// recorded, and the change.
    pub open spec fn recorded(
        items: Map<u32, NotificationView>,
        patterns: Seq<Seq<char>>,
        event: StreamEventView,
        arrival_micros: u128,
    ) -> (Map<u32, NotificationView>, StreamChange) {
        match event {
            StreamEventView::ItemComplete { origin, title, body } => {
                let item = NotificationView { app_name: origin, summary: title, body };
                let id = synthetic_id(content_digest(origin, title, body, arrival_micros));
                (
                    apply(items, TrackerOp::Upsert { id, item }),
                    StreamChange::Added { id, matched: item_matches(patterns, item) },
                )
            },
            StreamEventView::ItemClosed { .. } => (
                apply(items, TrackerOp::Clear),
                StreamChange::Cleared,
            ),
            _ => (items, StreamChange::Unchanged),
        }
    }

    /// A source with a new parse session over the items of `tracker`.
    pub fn new(tracker: NotificationTracker) -> (source: Self)
        ensures
            source.session() == ParserStateView::Idle,
            source.items() == tracker.items(),
            source.patterns() == tracker.patterns(),
    {
        StreamSource { parser: EventStreamParser::new(), tracker }
    }

    /// Begins a new parse session, as when the line source was opened again.
    /// What had been read of an unfinished frame is dropped; the items stay.
    pub fn restart(&mut self)
        ensures
            final(self).session() == ParserStateView::Idle,
            final(self).items() == old(self).items(),
            final(self).patterns() == old(self).patterns(),
    {
        self.parser = EventStreamParser::new();
    }

    /// Feeds the next line to the parse session.
    pub fn feed_line(&mut self, line: &str) -> (events: Vec<StreamEvent>)
        ensures
            (final(self).session(), events_view(events@)) == step(old(self).session(), line@),
            final(self).items() == old(self).items(),
            final(self).patterns() == old(self).patterns(),
    {
        self.parser.feed_line(line)
    }

    /// Records an event of the parse session that arrived at
    /// `arrival_micros`, in microseconds since some fixed moment. The stream
    /// does not say under which identifier an item is known elsewhere, so a
    /// complete item is inserted under an identifier made up from its texts
    /// and the time it arrived, and a closed item, which cannot be told from
    /// the others by the identifier it carries, has all items removed. Any
    /// other event changes nothing.
    pub fn record(&mut self, event: &StreamEvent, arrival_micros: u128) -> (change: StreamChange)
        ensures
            final(self).session() == old(self).session(),
            final(self).patterns() == old(self).patterns(),
            (final(self).items(), change) == Self::recorded(
                old(self).items(),
                old(self).patterns(),
                event@,
                arrival_micros,
            ),
    {
        match event {
            StreamEvent::ItemComplete { origin, title, body } => {
                let id = synthesize_id(
                    digest_item(origin.as_str(), title.as_str(), body.as_str(), arrival_micros),
                );
                let matched = self.tracker.add_notification(
                    id,
                    origin.clone(),
                    title.clone(),
                    body.clone(),
                );
                StreamChange::Added { id, matched }
            },
            StreamEvent::ItemClosed { .. } => {
                self.tracker.clear();
                StreamChange::Cleared
            },
            _ => StreamChange::Unchanged,
        }
    }

    /// Whether at least one item matches.
    pub fn has_match(&self) -> (any: bool)
        ensures
            any == (self.match_count() > 0),
    {
        self.tracker.has_matching_notifications()
    }

    /// The number of items that match.
    pub fn count_matches(&self) -> (count: usize)
        ensures
            count == self.match_count(),
    {
        self.tracker.count_matching_notifications()
    }

    /// The items and the filters.
    pub fn tracker(&self) -> (tracker: &NotificationTracker)
        ensures
            tracker.items() == self.items(),
            tracker.patterns() == self.patterns(),
    {
        &self.tracker
    }
}

/// Once a decision for a condition has been carried out, the supervisor has
/// the indicator blinking exactly when the condition holds; deciding again
/// for the same condition then calls for nothing.
pub proof fn lemma_supervisor_follows_condition(supervisor: Supervisor, condition: bool)
    ensures
        supervisor.confirmed(supervisor.for_condition(condition), true).currently_blinking
            == condition,
        supervisor.confirmed(supervisor.for_condition(condition), true).for_condition(condition)
            == BlinkDecision::Keep,
{
}

/// A decision that could not be carried out is decided again the same way.
pub proof fn lemma_supervisor_retries(supervisor: Supervisor, condition: bool)
    ensures
        supervisor.confirmed(supervisor.for_condition(condition), false).for_condition(condition)
            == supervisor.for_condition(condition),
{
}

} // verus!
