//! The polled source: what to ask the inbox service, and how to read its answer.
//!
//! The request itself is made elsewhere. This module says which query goes
//! out and what an answer amounts to: whether the service is available, and
//! how many messages call for attention.

use vstd::prelude::*;
use vstd::string::StringExecFns;

verus! {

/// The number of seconds in a day.
pub const SECONDS_PER_DAY: i64 = 86_400;

/// The largest number of messages asked for in one snapshot.
pub const SNAPSHOT_LIMIT: &'static str = "500";

/// A message of a snapshot.
#[derive(Clone, Debug)]
pub struct Message {
    /// The identifier that the service gave the message.
    pub id: String,
    /// The conversation that the message belongs to.
    pub chat_id: String,
    /// When the message was sent, in seconds since 1970-01-01 00:00:00 UTC.
    pub timestamp: i64,
    /// Whether the message has not been read.
    pub is_unread: bool,
    /// Whether the conversation is archived.
    pub is_archived: bool,
    /// Whether the conversation is muted.
    pub is_muted: bool,
}

/// The mathematical value of a [`Message`].
pub struct MessageView {
    pub id: Seq<char>,
    pub chat_id: Seq<char>,
    pub timestamp: i64,
    pub is_unread: bool,
    pub is_archived: bool,
    pub is_muted: bool,
}

impl View for Message {
    type V = MessageView;

    open spec fn view(&self) -> MessageView {
        MessageView {
            id: self.id@,
            chat_id: self.chat_id@,
            timestamp: self.timestamp,
            is_unread: self.is_unread,
            is_archived: self.is_archived,
            is_muted: self.is_muted,
        }
    }
}

/// Which messages a probe leaves out.
#[derive(Clone, Copy, Debug, PartialEq, Eq, Structural)]
pub struct ProbeOptions {
    /// Messages older than this many days are left out; zero or less: none is.
    pub max_age_days: i64,
    /// Whether messages of archived conversations are left out.
    pub exclude_archived: bool,
    /// Whether messages of muted conversations are left out.
    pub exclude_muted: bool,
}

/// One `name=value` pair of a query.
#[derive(Clone, Debug)]
pub struct QueryParam {
    pub name: String,
    pub value: String,
}

impl View for QueryParam {
    type V = (Seq<char>, Seq<char>);

    open spec fn view(&self) -> (Seq<char>, Seq<char>) {
        (self.name@, self.value@)
    }
}

/// The mathematical value of a query.
pub open spec fn query_view(query: Seq<QueryParam>) -> Seq<(Seq<char>, Seq<char>)> {
    query.map_values(|p: QueryParam| p@)
}

/// The characters of an optional string.
pub open spec fn optional_text(text: Option<String>) -> Option<Seq<char>> {
    match text {
        Some(s) => Some(s@),
        None => None,
    }
}

/// The layout in which the service expects a moment in time.
pub open spec fn moment_layout() -> Seq<char> {
    "%Y-%m-%dT%H:%M:%SZ"@
}

/// The text that `chrono` gives for the moment `secs` seconds after
/// 1970-01-01 00:00:00 UTC, formatted in `layout`; `None` where `chrono`
/// cannot represent the moment.
pub uninterp spec fn utc_text(secs: i64, layout: Seq<char>) -> Option<Seq<char>>;

/// `chrono::DateTime::from_timestamp` makes a moment in UTC from `secs`
/// whole seconds, or nothing where that is out of its range;
/// `DateTime::format` with `to_string` writes it in `layout`. Believed: the
/// text is determined by `secs` and `layout`. The layout is the one of
/// [`moment_layout`], which `chrono` accepts.
#[verifier::external_body]
fn format_utc(secs: i64, layout: &str) -> (text: Option<String>)
    requires
        layout@ == moment_layout(),
    ensures
        optional_text(text) == utc_text(secs, layout@),
{
    match chrono::DateTime::from_timestamp(secs, 0) {
        Some(moment) => Some(moment.format(layout).to_string()),
        None => None,
    }
}

/// The moment before which a message is too old to count, in seconds since
/// 1970-01-01 00:00:00 UTC; `None` where no message is too old.
pub open spec fn cutoff(now: i64, options: ProbeOptions) -> Option<int> {
    if options.max_age_days > 0 {
        Some(now - options.max_age_days * SECONDS_PER_DAY)
    } else {
        None
    }
}

/// The cutoff as the service is told it: `None` where there is no cutoff, or
/// where it lies before every moment that can be written down.
pub open spec fn cutoff_text(now: i64, options: ProbeOptions) -> Option<Seq<char>> {
    match cutoff(now, options) {
        Some(moment) if i64::MIN <= moment => utc_text(moment as i64, moment_layout()),
        _ => None,
    }
}

/// The query of a snapshot request: unread messages only, up to the limit,
/// after the cutoff where there is one, and without the conversations that
/// the options leave out.
pub open spec fn snapshot_query(after: Option<Seq<char>>, options: ProbeOptions) -> Seq<
    (Seq<char>, Seq<char>),
> {
    seq![("unreadOnly"@, "true"@), ("limit"@, SNAPSHOT_LIMIT@)] + (match after {
        Some(moment) => seq![("after"@, moment)],
        None => Seq::empty(),
    }) + (if options.exclude_archived {
        seq![("excludeArchived"@, "true"@)]
    } else {
        Seq::empty()
    }) + (if options.exclude_muted {
        seq![("excludeMuted"@, "true"@)]
    } else {
        Seq::empty()
    })
}

/// The query of an availability check: the smallest request there is.
pub open spec fn availability_query() -> Seq<(Seq<char>, Seq<char>)> {
    seq![("limit"@, "1"@)]
}

/// Whether an HTTP status reports success: the codes 200 to 299.
pub open spec fn is_success(status: u16) -> bool {
    200 <= status < 300
}

/// Whether `message` counts at the moment `now`: it is unread, it is not
/// left out by the options, and it is not older than the cutoff.
pub open spec fn counts(message: MessageView, now: i64, options: ProbeOptions) -> bool {
    &&& message.is_unread
    &&& !(options.exclude_archived && message.is_archived)
    &&& !(options.exclude_muted && message.is_muted)
    &&& (cutoff(now, options) matches Some(moment) ==> message.timestamp >= moment)
}

/// The number of messages of a snapshot that count.
pub open spec fn unread_count(messages: Seq<Message>, now: i64, options: ProbeOptions) -> nat {
    messages.filter(|m: Message| counts(m@, now, options)).len()
}

/// What came of a request to the service.
#[derive(Debug)]
pub enum PollReply {
    /// The request could not be sent, or no answer came.
    Unreachable,
    /// The service answered with this status. `snapshot` holds the messages
    /// of the answer, or `None` where the answer could not be read.
    Answer { status: u16, snapshot: Option<Vec<Message>> },
}

/// Why a probe gave no count.
#[derive(Clone, Copy, Debug, PartialEq, Eq, Structural)]
pub enum PollError {
    /// The service could not be reached.
    Unavailable,
    /// The service answered with a status that does not report success.
    RequestFailed { status: u16 },
    /// The service reported success, but its answer could not be read.
    Malformed,
}

/// What a probe gives for a reply.
pub open spec fn probe(reply: PollReply, now: i64, options: ProbeOptions) -> Result<
    nat,
    PollError,
> {
    match reply {
        PollReply::Unreachable => Err(PollError::Unavailable),
        PollReply::Answer { status, snapshot } => if !is_success(status) {
            Err(PollError::RequestFailed { status })
        } else {
            match snapshot {
                None => Err(PollError::Malformed),
                Some(messages) => Ok(unread_count(messages@, now, options)),
            }
        },
    }
}

/// The count or the error that `r` holds, the count as a mathematical number.
pub open spec fn probe_view(r: Result<usize, PollError>) -> Result<nat, PollError> {
    match r {
        Ok(count) => Ok(count as nat),
        Err(e) => Err(e),
    }
}

/// Tells whether an HTTP status reports success.
pub fn status_is_success(status: u16) -> (b: bool)
    ensures
        b == is_success(status),
{
    200 <= status && status < 300
}

/// The cutoff for a positive number of days.
fn cutoff_moment(now: i64, max_age_days: i64) -> (moment: i128)
    requires
        max_age_days > 0,
    ensures
        moment == now - max_age_days * SECONDS_PER_DAY,
{
    let age: i128 = max_age_days as i128 * 86_400;
    now as i128 - age
}

/// Tells whether `message` counts at the moment `now`.
pub fn message_counts(message: &Message, now: i64, options: &ProbeOptions) -> (b: bool)
    ensures
        b == counts(message@, now, *options),
{
    if !message.is_unread {
        return false;
    }
    if options.exclude_archived && message.is_archived {
        return false;
    }
    if options.exclude_muted && message.is_muted {
        return false;
    }
    if options.max_age_days > 0 {
        message.timestamp as i128 >= cutoff_moment(now, options.max_age_days)
    } else {
        true
    }
}

/// Counts the messages of a snapshot that count at the moment `now`.
pub fn count_recent_unread(messages: &Vec<Message>, now: i64, options: &ProbeOptions) -> (count:
    usize)
    ensures
        count == unread_count(messages@, now, *options),
{
    let ghost pred = |m: Message| counts(m@, now, *options);
    let mut count: usize = 0;
    let mut i: usize = 0;
    assert(messages@.take(0) =~= Seq::<Message>::empty());
    while i < messages.len()
        invariant
            i <= messages@.len(),
            pred == (|m: Message| counts(m@, now, *options)),
            count <= i,
            count == messages@.take(i as int).filter(pred).len(),
        decreases messages@.len() - i,
    {
        proof {
            assert(messages@.take(i + 1) =~= messages@.take(i as int).push(messages@[i as int]));
            messages@.take(i as int).lemma_filter_len_push(pred, messages@[i as int]);
        }
        if message_counts(&messages[i], now, options) {
            count += 1;
        }
        i += 1;
    }
    assert(messages@.take(messages@.len() as int) =~= messages@);
    count
}

/// The address of the inbox service, and what is needed to ask it.
pub struct BeeperClient {
    api_url: String,
    token: String,
}

impl BeeperClient {
    /// The base address of the service.
    pub closed spec fn base(&self) -> Seq<char> {
        self.api_url@
    }

    /// The token that a request carries.
    pub closed spec fn bearer(&self) -> Seq<char> {
        self.token@
    }

    /// A client for the service at `api_url`, which accepts `token`.
    pub fn new(api_url: String, token: String) -> (client: Self)
        ensures
            client.base() == api_url@,
            client.bearer() == token@,
    {
        BeeperClient { api_url, token }
    }

    /// The base address of the service.
    pub fn api_url(&self) -> (url: &str)
        ensures
            url@ == self.base(),
    {
        self.api_url.as_str()
    }

    /// The token that a request carries.
    pub fn token(&self) -> (token: &str)
        ensures
            token@ == self.bearer(),
    {
        self.token.as_str()
    }

    /// The address that both requests go to.
    pub fn search_url(&self) -> (url: String)
        ensures
            url@ == self.base() + "/v0/search-messages"@,
    {
        self.api_url.clone().concat("/v0/search-messages")
    }

    /// The query of an availability check.
    pub fn availability_query(&self) -> (query: Vec<QueryParam>)
        ensures
            query_view(query@) == availability_query(),
    {
        let mut query: Vec<QueryParam> = Vec::new();
        query.push(QueryParam { name: String::from_str("limit"), value: String::from_str("1") });
        assert(query_view(query@) =~= availability_query());
        query
    }

    /// Whether a reply to an availability check shows the service available:
    /// it answered, and with success.
    pub fn is_api_available(&self, reply: &PollReply) -> (available: bool)
        ensures
            available == (*reply matches PollReply::Answer { status, .. } && is_success(status)),
    {
        match reply {
            PollReply::Unreachable => false,
            PollReply::Answer { status, .. } => status_is_success(*status),
        }
    }

    /// The query of a snapshot request, given the cutoff as the service is
    /// to be told it.
    pub fn snapshot_query_with(&self, after: Option<String>, options: &ProbeOptions) -> (query: Vec<
        QueryParam,
    >)
        ensures
            query_view(query@) == snapshot_query(optional_text(after), *options),
    {
        let mut query: Vec<QueryParam> = Vec::new();
        query.push(
            QueryParam { name: String::from_str("unreadOnly"), value: String::from_str("true") },
        );
        query.push(
            QueryParam { name: String::from_str("limit"), value: String::from_str(SNAPSHOT_LIMIT) },
        );
        match after {
            Some(moment) => {
                query.push(QueryParam { name: String::from_str("after"), value: moment });
            },
            None => {},
        }
        if options.exclude_archived {
            query.push(
                QueryParam {
                    name: String::from_str("excludeArchived"),
                    value: String::from_str("true"),
                },
            );
        }
        if options.exclude_muted {
            query.push(
                QueryParam {
                    name: String::from_str("excludeMuted"),
                    value: String::from_str("true"),
                },
            );
        }
        assert(query_view(query@) =~= snapshot_query(optional_text(after), *options));
        query
    }

    /// The cutoff at the moment `now`, as the service is to be told it.
    pub fn cutoff_parameter(&self, now: i64, options: &ProbeOptions) -> (after: Option<String>)
        ensures
            optional_text(after) == cutoff_text(now, *options),
    {
        if options.max_age_days <= 0 {
            return None;
        }
        let moment = cutoff_moment(now, options.max_age_days);
        if moment < i64::MIN as i128 {
            return None;
        }
        proof {
            reveal_strlit("%Y-%m-%dT%H:%M:%SZ");
        }
        format_utc(moment as i64, "%Y-%m-%dT%H:%M:%SZ")
    }

    /// The query of a snapshot request made at the moment `now`.
    pub fn snapshot_query(&self, now: i64, options: &ProbeOptions) -> (query: Vec<QueryParam>)
        ensures
            query_view(query@) == snapshot_query(cutoff_text(now, *options), *options),
    {
        let after = self.cutoff_parameter(now, options);
        self.snapshot_query_with(after, options)
    }

    /// Reads the reply to a snapshot request made at the moment `now`: the
    /// number of messages that count, or why there is none.
    pub fn get_recent_unread_count(
        &self,
        reply: &PollReply,
        now: i64,
        options: &ProbeOptions,
    ) -> (r: Result<usize, PollError>)
        ensures
            probe_view(r) == probe(*reply, now, *options),
    {
        match reply {
            PollReply::Unreachable => Err(PollError::Unavailable),
            PollReply::Answer { status, snapshot } => {
                if !status_is_success(*status) {
                    return Err(PollError::RequestFailed { status: *status });
                }
                match snapshot {
                    None => Err(PollError::Malformed),
                    Some(messages) => Ok(count_recent_unread(messages, now, options)),
                }
            },
        }
    }
}

/// A message older than the window does not count, whatever its flags; and
/// without a window no message is too old.
pub proof fn lemma_stale_never_counts(message: MessageView, now: i64, options: ProbeOptions)
    ensures
        options.max_age_days > 0 && message.timestamp < now - options.max_age_days
            * SECONDS_PER_DAY ==> !counts(message, now, options),
        options.max_age_days <= 0 ==> counts(message, now, options) == (message.is_unread && !(
        options.exclude_archived && message.is_archived) && !(options.exclude_muted
            && message.is_muted)),
{
}

} // verus!
