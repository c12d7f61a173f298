//! Reassembly of notification events from a line-oriented protocol trace.
//!
//! A trace is a sequence of text lines. A header line opens a frame; the
//! indented lines after it carry the frame's arguments, one per line, as
//! `string "..."` or `uint32 N`. [`EventStreamParser`] turns the lines, fed one
//! at a time, into [`StreamEvent`]s. A line that fits nothing is ignored: the
//! parser never fails.

use crate::text::{
    chars_of, contains, contains_text, find, find_class, find_in, first_index, lemma_find_from,
    lemma_first_index, parse_u32, parse_u32_in, starts_with_trimmed, trimmed_starts_with,
    CharClass,
};
use vstd::prelude::*;
use vstd::string::StrSliceExecFns;

verus! {

/// The text between the first two double quotes that follow the first
/// occurrence of `prefix` in `line`.
pub open spec fn quoted_after(line: Seq<char>, prefix: Seq<char>) -> Option<Seq<char>> {
    match find(line, prefix) {
        None => None,
        Some(idx) => match first_index(line, CharClass::Exactly('"'), idx + prefix.len()) {
            None => None,
            Some(open) => match first_index(line, CharClass::Exactly('"'), open + 1) {
                None => None,
                Some(close) => Some(line.subrange(open + 1, close)),
            },
        },
    }
}

/// The run of non-whitespace characters that follows the first occurrence of
/// `prefix` in `line`, whitespace between them skipped, read as an unsigned
/// decimal number.
pub open spec fn uint32_after(line: Seq<char>, prefix: Seq<char>) -> Option<u32> {
    match find(line, prefix) {
        None => None,
        Some(idx) => match first_index(line, CharClass::NotWhitespace, idx + prefix.len()) {
            None => None,
            Some(lo) => match first_index(line, CharClass::Whitespace, lo) {
                Some(stop) => parse_u32(line.subrange(lo, stop)),
                None => parse_u32(line.subrange(lo, line.len() as int)),
            },
        },
    }
}

/// The characters of an optional string.
pub open spec fn text_view(r: Option<String>) -> Option<Seq<char>> {
    match r {
        Some(s) => Some(s@),
        None => None,
    }
}

/// The bounds of [`quoted_after`] in `line`: the index after the opening quote
/// and the index of the closing one.
fn quoted_range(line: &Vec<char>, prefix: &Vec<char>) -> (r: Option<(usize, usize)>)
    ensures
        match r {
            Some((from, to)) => from <= to <= line.len() && quoted_after(line@, prefix@) == Some(
                line@.subrange(from as int, to as int),
            ),
            None => quoted_after(line@, prefix@) is None,
        },
{
    if prefix.len() > line.len() {
        return None;
    }
    let idx = match find_in(line, prefix, 0) {
        Some(idx) => idx,
        None => { return None; },
    };
    proof {
        lemma_find_from(line@, prefix@, 0);
    }
    let open = match find_class(line, CharClass::Exactly('"'), idx + prefix.len()) {
        Some(open) => open,
        None => { return None; },
    };
    proof {
        lemma_first_index(line@, CharClass::Exactly('"'), idx + prefix.len());
    }
    let close = match find_class(line, CharClass::Exactly('"'), open + 1) {
        Some(close) => close,
        None => { return None; },
    };
    proof {
        lemma_first_index(line@, CharClass::Exactly('"'), open + 1);
    }
    Some((open + 1, close))
}

/// Extracts the quoted string that follows `prefix` in `line`.
pub fn parse_dbus_string(line: &str, prefix: &str) -> (r: Option<String>)
    ensures
        text_view(r) == quoted_after(line@, prefix@),
{
    let chars = chars_of(line);
    let wanted = chars_of(prefix);
    match quoted_range(&chars, &wanted) {
        Some((from, to)) => Some(line.substring_char(from, to).to_owned()),
        None => None,
    }
}

/// [`uint32_after`] on a line already split into characters.
fn uint32_in(line: &Vec<char>, prefix: &Vec<char>) -> (r: Option<u32>)
    ensures
        r == uint32_after(line@, prefix@),
{
    if prefix.len() > line.len() {
        return None;
    }
    let idx = match find_in(line, prefix, 0) {
        Some(idx) => idx,
        None => { return None; },
    };
    proof {
        lemma_find_from(line@, prefix@, 0);
    }
    let lo = match find_class(line, CharClass::NotWhitespace, idx + prefix.len()) {
        Some(lo) => lo,
        None => { return None; },
    };
    proof {
        lemma_first_index(line@, CharClass::NotWhitespace, idx + prefix.len());
    }
    match find_class(line, CharClass::Whitespace, lo) {
        Some(stop) => {
            proof {
                lemma_first_index(line@, CharClass::Whitespace, lo as int);
            }
            parse_u32_in(line, lo, stop)
        },
        None => parse_u32_in(line, lo, line.len()),
    }
}

/// Extracts the unsigned number that follows `prefix` in `line`.
pub fn parse_dbus_uint32(line: &str, prefix: &str) -> (r: Option<u32>)
    ensures
        r == uint32_after(line@, prefix@),
{
    let chars = chars_of(line);
    let wanted = chars_of(prefix);
    uint32_in(&chars, &wanted)
}

/// A position in the argument list of a new-item frame. The positions are
/// taken by the frame's string arguments in this order; the icon is read past
/// and not kept.
#[derive(Clone, Copy, Debug, PartialEq, Eq, Structural)]
pub enum Slot {
    /// The name of the application that sent the item.
    Origin,
    /// The icon name: reserved, discarded.
    Icon,
    /// The short title.
    Title,
    /// The body text.
    Body,
}

/// What the parser reports.
#[derive(Clone, Debug)]
pub enum StreamEvent {
    /// A new-item frame has begun.
    NewItemStarted,
    /// A kept argument of the current new-item frame was read.
    FieldExtracted { slot: Slot, value: String },
    /// The last argument of a new-item frame was read: the item is whole.
    ItemComplete { origin: String, title: String, body: String },
    /// A closed frame was read, with the identifier it carried.
    ItemClosed { raw_id: u32 },
}

/// The mathematical value of a [`StreamEvent`].
pub enum StreamEventView {
    NewItemStarted,
    FieldExtracted { slot: Slot, value: Seq<char> },
    ItemComplete { origin: Seq<char>, title: Seq<char>, body: Seq<char> },
    ItemClosed { raw_id: u32 },
}

impl View for StreamEvent {
    type V = StreamEventView;

    open spec fn view(&self) -> StreamEventView {
        match *self {
            StreamEvent::NewItemStarted => StreamEventView::NewItemStarted,
            StreamEvent::FieldExtracted { slot, value } => StreamEventView::FieldExtracted {
                slot,
                value: value@,
            },
            StreamEvent::ItemComplete { origin, title, body } => StreamEventView::ItemComplete {
                origin: origin@,
                title: title@,
                body: body@,
            },
            StreamEvent::ItemClosed { raw_id } => StreamEventView::ItemClosed { raw_id },
        }
    }
}

/// The arguments of a new-item frame that have been read so far.
#[derive(Clone, Debug)]
pub enum Collected {
    /// The origin; the icon comes next.
    Origin { origin: String },
    /// The origin and, discarded, the icon; the title comes next.
    Icon { origin: String },
    /// The origin, the icon and the title; the body comes next.
    Title { origin: String, title: String },
}

/// The mathematical value of a [`Collected`].
pub enum CollectedView {
    Origin { origin: Seq<char> },
    Icon { origin: Seq<char> },
    Title { origin: Seq<char>, title: Seq<char> },
}

impl View for Collected {
    type V = CollectedView;

    open spec fn view(&self) -> CollectedView {
        match *self {
            Collected::Origin { origin } => CollectedView::Origin { origin: origin@ },
            Collected::Icon { origin } => CollectedView::Icon { origin: origin@ },
            Collected::Title { origin, title } => CollectedView::Title {
                origin: origin@,
                title: title@,
            },
        }
    }
}

impl CollectedView {
    /// The number of kept arguments read so far.
    pub open spec fn slots_filled(self) -> nat {
        match self {
            CollectedView::Origin { .. } => 1,
            CollectedView::Icon { .. } => 1,
            CollectedView::Title { .. } => 2,
        }
    }
}

/// Where the parser stands between two lines.
#[derive(Clone, Debug)]
pub enum ParserState {
    /// Outside any frame.
    Idle,
    /// After the header of a new-item frame, before its first argument.
    InNewItemHeader,
    /// Inside a new-item frame, with some arguments read.
    CollectingFields(Collected),
    /// After the header of a closed frame, before its identifier.
    InCloseHeader,
}

/// The mathematical value of a [`ParserState`].
pub enum ParserStateView {
    Idle,
    InNewItemHeader,
    CollectingFields(CollectedView),
    InCloseHeader,
}

impl View for ParserState {
    type V = ParserStateView;

    open spec fn view(&self) -> ParserStateView {
        match *self {
            ParserState::Idle => ParserStateView::Idle,
            ParserState::InNewItemHeader => ParserStateView::InNewItemHeader,
            ParserState::CollectingFields(c) => ParserStateView::CollectingFields(c@),
            ParserState::InCloseHeader => ParserStateView::InCloseHeader,
        }
    }
}

/// The mathematical value of a list of events.
pub open spec fn events_view(events: Seq<StreamEvent>) -> Seq<StreamEventView> {
    events.map_values(|e: StreamEvent| e@)
}

/// Whether `line` opens a new-item frame.
pub open spec fn is_new_item_header(line: Seq<char>) -> bool {
    contains(line, "method call"@) && contains(line, "member=Notify"@)
}

/// Whether `line` opens a closed frame. A line that opens a new-item frame
/// is taken as that.
pub open spec fn is_close_header(line: Seq<char>) -> bool {
    contains(line, "signal"@) && contains(line, "member=NotificationClosed"@)
}

/// The value of the string argument that `line` carries, where `line` is a
/// string argument line: one that begins, after its indentation, with the
/// word `string`.
pub open spec fn string_argument(line: Seq<char>) -> Option<Seq<char>> {
    if trimmed_starts_with(line, "string "@) {
        quoted_after(line, "string "@)
    } else {
        None
    }
}

/// The parser's transition: the state after `line` was fed in `state`, and the
/// events that the line gives rise to, in order.
///
/// A header line opens its frame from any state, and what had been read of an
/// unfinished frame is dropped. Any other line is held against what the state
/// waits for:
/// - the origin is the first quoted string after the header, whatever the
///   line begins with, and may be empty;
/// - the icon is the next string argument line, whatever it holds;
/// - the title is the next string argument line that holds a non-empty value;
/// - the body is the next string argument line, and may be empty; it
///   completes the item;
/// - the identifier of a closed frame is the first `uint32` argument.
pub open spec fn step(state: ParserStateView, line: Seq<char>) -> (
    ParserStateView,
    Seq<StreamEventView>,
) {
    if is_new_item_header(line) {
        (ParserStateView::InNewItemHeader, seq![StreamEventView::NewItemStarted])
    } else if is_close_header(line) {
        (ParserStateView::InCloseHeader, Seq::empty())
    } else {
        match state {
            ParserStateView::Idle => (state, Seq::empty()),
            ParserStateView::InNewItemHeader => match quoted_after(line, "string "@) {
                Some(value) => (
                    ParserStateView::CollectingFields(CollectedView::Origin { origin: value }),
                    seq![StreamEventView::FieldExtracted { slot: Slot::Origin, value }],
                ),
                None => (state, Seq::empty()),
            },
            ParserStateView::CollectingFields(CollectedView::Origin { origin }) => {
                match string_argument(line) {
                    Some(_) => (
                        ParserStateView::CollectingFields(CollectedView::Icon { origin }),
                        Seq::empty(),
                    ),
                    None => (state, Seq::empty()),
                }
            },
            ParserStateView::CollectingFields(CollectedView::Icon { origin }) => {
                match string_argument(line) {
                    Some(value) if value.len() > 0 => (
                        ParserStateView::CollectingFields(
                            CollectedView::Title { origin, title: value },
                        ),
                        seq![StreamEventView::FieldExtracted { slot: Slot::Title, value }],
                    ),
                    _ => (state, Seq::empty()),
                }
            },
            ParserStateView::CollectingFields(CollectedView::Title { origin, title }) => {
                match string_argument(line) {
                    Some(value) => (
                        ParserStateView::Idle,
                        seq![
                            StreamEventView::FieldExtracted { slot: Slot::Body, value },
                            StreamEventView::ItemComplete { origin, title, body: value },
                        ],
                    ),
                    None => (state, Seq::empty()),
                }
            },
            ParserStateView::InCloseHeader => match uint32_after(line, "uint32 "@) {
                Some(raw_id) => (
                    ParserStateView::Idle,
                    seq![StreamEventView::ItemClosed { raw_id }],
                ),
                None => (state, Seq::empty()),
            },
        }
    }
}

/// The parser's run over `lines` from `state`: the state after the last line
/// and all the events, in order.
pub open spec fn run(state: ParserStateView, lines: Seq<Seq<char>>) -> (
    ParserStateView,
    Seq<StreamEventView>,
)
    decreases lines.len(),
{
    if lines.len() == 0 {
        (state, Seq::empty())
    } else {
        let before = run(state, lines.drop_last());
        let last = step(before.0, lines.last());
        (last.0, before.1 + last.1)
    }
}

/// Whether `line` opens a frame.
pub open spec fn is_header(line: Seq<char>) -> bool {
    is_new_item_header(line) || is_close_header(line)
}

/// A run over one more line is the run over the lines before, then one step.
pub proof fn lemma_run_push(state: ParserStateView, lines: Seq<Seq<char>>, line: Seq<char>)
    ensures
        run(state, lines.push(line)) == (
            step(run(state, lines).0, line).0,
            run(state, lines).1 + step(run(state, lines).0, line).1,
        ),
{
    assert(lines.push(line).drop_last() =~= lines);
}

/// A new-item frame gives exactly one complete item, whatever state the
/// parser was in before: the header, then a line with the origin, a string
/// argument for the icon, one with a title that is not empty and one with the
/// body bring the parser back to idle, with the events of the frame in order
/// and the item made of the origin, the title and the body. The icon is not
/// reported and is no part of the item.
pub proof fn lemma_new_item_frame(
    state: ParserStateView,
    header: Seq<char>,
    lines: Seq<Seq<char>>,
    origin: Seq<char>,
    title: Seq<char>,
    body: Seq<char>,
)
    requires
        is_new_item_header(header),
        lines.len() == 4,
        forall|i: int| 0 <= i < 4 ==> !is_header(#[trigger] lines[i]),
        quoted_after(lines[0], "string "@) == Some(origin),
        string_argument(lines[1]) is Some,
        string_argument(lines[2]) == Some(title),
        title.len() > 0,
        string_argument(lines[3]) == Some(body),
    ensures
        run(state, seq![header] + lines) == (
            ParserStateView::Idle,
            seq![
                StreamEventView::NewItemStarted,
                StreamEventView::FieldExtracted { slot: Slot::Origin, value: origin },
                StreamEventView::FieldExtracted { slot: Slot::Title, value: title },
                StreamEventView::FieldExtracted { slot: Slot::Body, value: body },
                StreamEventView::ItemComplete { origin, title, body },
            ],
        ),
{
    let fed0 = Seq::<Seq<char>>::empty();
    let fed1 = fed0.push(header);
    let fed2 = fed1.push(lines[0]);
    let fed3 = fed2.push(lines[1]);
    let fed4 = fed3.push(lines[2]);
    let fed5 = fed4.push(lines[3]);
    assert(!is_header(lines[0]) && !is_header(lines[1]) && !is_header(lines[2]) && !is_header(
        lines[3],
    ));
    lemma_run_push(state, fed0, header);
    lemma_run_push(state, fed1, lines[0]);
    lemma_run_push(state, fed2, lines[1]);
    lemma_run_push(state, fed3, lines[2]);
    lemma_run_push(state, fed4, lines[3]);
    assert(fed5 =~= seq![header] + lines);
    assert(run(state, fed1).1 =~= seq![StreamEventView::NewItemStarted]);
    assert(run(state, fed2).1 =~= seq![
        StreamEventView::NewItemStarted,
        StreamEventView::FieldExtracted { slot: Slot::Origin, value: origin },
    ]);
    assert(run(state, fed3).1 =~= run(state, fed2).1);
    assert(run(state, fed4).1 =~= seq![
        StreamEventView::NewItemStarted,
        StreamEventView::FieldExtracted { slot: Slot::Origin, value: origin },
        StreamEventView::FieldExtracted { slot: Slot::Title, value: title },
    ]);
    assert(run(state, fed5).1 =~= seq![
        StreamEventView::NewItemStarted,
        StreamEventView::FieldExtracted { slot: Slot::Origin, value: origin },
        StreamEventView::FieldExtracted { slot: Slot::Title, value: title },
        StreamEventView::FieldExtracted { slot: Slot::Body, value: body },
        StreamEventView::ItemComplete { origin, title, body },
    ]);
}

/// A closed frame gives exactly one closed item, whatever state the parser
/// was in before: the header, then a line with an unsigned number, bring the
/// parser back to idle with the one event that carries the number.
pub proof fn lemma_close_frame(
    state: ParserStateView,
    header: Seq<char>,
    line: Seq<char>,
    raw_id: u32,
)
    requires
        !is_new_item_header(header),
        is_close_header(header),
        !is_header(line),
        uint32_after(line, "uint32 "@) == Some(raw_id),
    ensures
        run(state, seq![header, line]) == (
            ParserStateView::Idle,
            seq![StreamEventView::ItemClosed { raw_id }],
        ),
{
    let fed0 = Seq::<Seq<char>>::empty();
    let fed1 = fed0.push(header);
    let fed2 = fed1.push(line);
    lemma_run_push(state, fed0, header);
    lemma_run_push(state, fed1, line);
    assert(fed2 =~= seq![header, line]);
    assert(run(state, fed1).1 =~= Seq::<StreamEventView>::empty());
    assert(run(state, fed2).1 =~= seq![StreamEventView::ItemClosed { raw_id }]);
}

/// Outside a frame, a line that opens none is ignored; inside one, a line
/// that neither opens a frame nor carries what the frame waits for is.
pub proof fn lemma_silence(state: ParserStateView, line: Seq<char>)
    requires
        !is_header(line),
        state is Idle || (quoted_after(line, "string "@) is None && uint32_after(
            line,
            "uint32 "@,
        ) is None),
    ensures
        step(state, line) == (state, Seq::<StreamEventView>::empty()),
{
}

/// A line that opens no frame and carries neither a quoted string nor an
/// unsigned number changes nothing, wherever it stands in a trace: the trace
/// with the line and the trace without it give the same events and end in
/// the same state.
pub proof fn lemma_unrecognized_line_is_ignored(
    state: ParserStateView,
    before: Seq<Seq<char>>,
    line: Seq<char>,
    after: Seq<Seq<char>>,
)
    requires
        !is_header(line),
        quoted_after(line, "string "@) is None,
        uint32_after(line, "uint32 "@) is None,
    ensures
        run(state, before + seq![line] + after) == run(state, before + after),
    decreases after.len(),
{
    if after.len() == 0 {
        assert(before + seq![line] + after =~= before.push(line));
        assert(before + after =~= before);
        lemma_run_push(state, before, line);
        lemma_silence(run(state, before).0, line);
        assert(run(state, before).1 + Seq::<StreamEventView>::empty() =~= run(state, before).1);
    } else {
        let shorter = after.drop_last();
        lemma_unrecognized_line_is_ignored(state, before, line, shorter);
        assert(before + seq![line] + after =~= (before + seq![line] + shorter).push(after.last()));
        assert(before + after =~= (before + shorter).push(after.last()));
        lemma_run_push(state, before + seq![line] + shorter, after.last());
        lemma_run_push(state, before + shorter, after.last());
    }
}

/// One parse session over a line source. A session does not outlive its
/// source: when the source is opened again, a new session starts.
#[derive(Clone, Debug)]
pub struct EventStreamParser {
    state: ParserState,
}

impl View for EventStreamParser {
    type V = ParserStateView;

    closed spec fn view(&self) -> ParserStateView {
        self.state@
    }
}

/// Reads the string argument of `line`, whose characters are `chars`.
fn read_string_argument(line: &str, chars: &Vec<char>, keyword: &Vec<char>) -> (r: Option<String>)
    requires
        chars@ == line@,
        keyword@ == "string "@,
    ensures
        text_view(r) == string_argument(line@),
{
    if !starts_with_trimmed(chars, keyword) {
        return None;
    }
    match quoted_range(chars, keyword) {
        Some((from, to)) => Some(line.substring_char(from, to).to_owned()),
        None => None,
    }
}

impl EventStreamParser {
    /// A session that has seen no line.
    pub fn new() -> (parser: Self)
        ensures
            parser@ == ParserStateView::Idle,
    {
        EventStreamParser { state: ParserState::Idle }
    }

    /// The state the session is in.
    pub fn state(&self) -> (state: &ParserState)
        ensures
            state@ == self@,
    {
        &self.state
    }

    /// The number of kept arguments read of an unfinished new-item frame.
    pub fn slots_filled(&self) -> (n: usize)
        ensures
            n == match self@ {
                ParserStateView::CollectingFields(c) => c.slots_filled(),
                _ => 0,
            },
    {
        match &self.state {
            ParserState::CollectingFields(Collected::Origin { .. }) => 1,
            ParserState::CollectingFields(Collected::Icon { .. }) => 1,
            ParserState::CollectingFields(Collected::Title { .. }) => 2,
            _ => 0,
        }
    }

    /// Feeds the next line of the trace and returns the events it gives rise to.
    pub fn feed_line(&mut self, line: &str) -> (events: Vec<StreamEvent>)
        ensures
            (final(self)@, events_view(events@)) == step(old(self)@, line@),
    {
        let chars = chars_of(line);
        let mut events: Vec<StreamEvent> = Vec::new();
        let mut state = ParserState::Idle;
        core::mem::swap(&mut self.state, &mut state);
        assert(events_view(events@) =~= Seq::empty());
        if contains_text(&chars, &chars_of("method call")) && contains_text(
            &chars,
            &chars_of("member=Notify"),
        ) {
            events.push(StreamEvent::NewItemStarted);
            assert(events_view(events@) =~= seq![StreamEventView::NewItemStarted]);
            self.state = ParserState::InNewItemHeader;
            return events;
        }
        if contains_text(&chars, &chars_of("signal")) && contains_text(
            &chars,
            &chars_of("member=NotificationClosed"),
        ) {
            self.state = ParserState::InCloseHeader;
            return events;
        }
        let keyword = chars_of("string ");
        match state {
            ParserState::Idle => {},
            ParserState::InNewItemHeader => {
                match quoted_range(&chars, &keyword) {
                    Some((from, to)) => {
                        let value = line.substring_char(from, to).to_owned();
                        events.push(
                            StreamEvent::FieldExtracted { slot: Slot::Origin, value: value.clone() },
                        );
                        assert(events_view(events@) =~= seq![
                            StreamEventView::FieldExtracted { slot: Slot::Origin, value: value@ },
                        ]);
                        self.state = ParserState::CollectingFields(
                            Collected::Origin { origin: value },
                        );
                    },
                    None => {
                        self.state = ParserState::InNewItemHeader;
                    },
                }
            },
            ParserState::CollectingFields(Collected::Origin { origin }) => {
                match read_string_argument(line, &chars, &keyword) {
                    Some(_) => {
                        self.state = ParserState::CollectingFields(Collected::Icon { origin });
                    },
                    None => {
                        self.state = ParserState::CollectingFields(Collected::Origin { origin });
                    },
                }
            },
            ParserState::CollectingFields(Collected::Icon { origin }) => {
                match read_string_argument(line, &chars, &keyword) {
                    Some(value) => {
                        if !value.as_str().is_empty() {
                            events.push(
                                StreamEvent::FieldExtracted {
                                    slot: Slot::Title,
                                    value: value.clone(),
                                },
                            );
                            assert(events_view(events@) =~= seq![
                                StreamEventView::FieldExtracted {
                                    slot: Slot::Title,
                                    value: value@,
                                },
                            ]);
                            self.state = ParserState::CollectingFields(
                                Collected::Title { origin, title: value },
                            );
                        } else {
                            self.state = ParserState::CollectingFields(Collected::Icon { origin });
                        }
                    },
                    None => {
                        self.state = ParserState::CollectingFields(Collected::Icon { origin });
                    },
                }
            },
            ParserState::CollectingFields(Collected::Title { origin, title }) => {
                match read_string_argument(line, &chars, &keyword) {
                    Some(value) => {
                        let ghost whole = StreamEventView::ItemComplete {
                            origin: origin@,
                            title: title@,
                            body: value@,
                        };
                        events.push(
                            StreamEvent::FieldExtracted { slot: Slot::Body, value: value.clone() },
                        );
                        events.push(StreamEvent::ItemComplete { origin, title, body: value });
                        assert(events_view(events@) =~= seq![
                            StreamEventView::FieldExtracted { slot: Slot::Body, value: whole->body },
                            whole,
                        ]);
                        self.state = ParserState::Idle;
                    },
                    None => {
                        self.state = ParserState::CollectingFields(
                            Collected::Title { origin, title },
                        );
                    },
                }
            },
            ParserState::InCloseHeader => {
                match uint32_in(&chars, &chars_of("uint32 ")) {
                    Some(raw_id) => {
                        events.push(StreamEvent::ItemClosed { raw_id });
                        assert(events_view(events@) =~= seq![
                            StreamEventView::ItemClosed { raw_id },
                        ]);
                        self.state = ParserState::Idle;
                    },
                    None => {
                        self.state = ParserState::InCloseHeader;
                    },
                }
            },
        }
        events
    }
}

} // verus!
