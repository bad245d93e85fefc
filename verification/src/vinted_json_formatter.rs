//! Writing a record as one JSON object.
//!
//! The keys stand in a fixed order: `@timestamp`, `level` and `facility`
//! first, then the environment, the message and the additional fields, then
//! what says where the event came from: `target`, the context chain, `file`,
//! `module`, `line` and `host`. A part that the record lacks is left out.

use vstd::prelude::*;
use vstd::string::{StrSliceExecFns, StringSliceAdditionalSpecFns};
use vstd::utf8::{decode_utf8, valid_utf8};
use crate::context::{
    chain_refused, chain_texts, find_fault, first_fault, write_chain, FaultPolicy, Frame,
    MalformedContext,
};
use crate::event::{record_event, with_event, Event};
use crate::json::{
    array_text, decimal_nat, decimal_string, lemma_object_list, members_view,
    object_entries, object_text, quote, quoted, render_array, render_object, Member,
};
use crate::level::Level;
use crate::order::{key_order, members_list};
use crate::vinted_udp_logger::{
    blank_record, is_additional_key, optional_view, written_message, LogRecord, RecordView,
};

verus! {

/// One member with a string for its value, or none where the value is
/// absent.
pub open spec fn optional_member(key: Seq<char>, value: Option<Seq<char>>) -> Seq<
    (Seq<char>, Seq<char>),
> {
    match value {
        Some(v) => seq![(key, quoted(v))],
        None => Seq::empty(),
    }
}

/// The member `line`, a number, or none where the line is not known.
pub open spec fn line_member(line: Option<u32>) -> Seq<(Seq<char>, Seq<char>)> {
    match line {
        Some(n) => seq![("line"@, decimal_nat(n as nat))],
        None => Seq::empty(),
    }
}

/// The members for the context chain: `spans`, the array of all frames,
/// and `span`, the innermost of them. An empty chain gives none.
pub open spec fn context_members(frames: Seq<Seq<char>>) -> Seq<(Seq<char>, Seq<char>)> {
    if frames.len() == 0 {
        Seq::empty()
    } else {
        seq![("spans"@, array_text(frames)), ("span"@, frames.last())]
    }
}

/// The members that open every record.
pub open spec fn heading_members(record: RecordView, timestamp: Seq<char>) -> Seq<
    (Seq<char>, Seq<char>),
> {
    seq![
        ("@timestamp"@, quoted(timestamp)),
        ("level"@, quoted(record.level.name())),
        ("facility"@, quoted(record.facility)),
    ] + optional_member("environment"@, record.environment) + seq![
        ("message"@, quoted(written_message(record.message))),
    ]
}

/// The members that close a record: where the event came from.
pub open spec fn origin_members(record: RecordView, frames: Seq<Seq<char>>) -> Seq<
    (Seq<char>, Seq<char>),
> {
    optional_member("target"@, record.target) + context_members(frames) + optional_member(
        "file"@,
        record.file,
    ) + optional_member("module"@, record.module) + line_member(record.line) + optional_member(
        "host"@,
        record.host,
    )
}

/// The members of a written record, in their order. `frames` holds the
/// JSON texts of the frames of the context chain.
pub open spec fn record_members(
    record: RecordView,
    timestamp: Seq<char>,
    frames: Seq<Seq<char>>,
) -> Seq<(Seq<char>, Seq<char>)> {
    heading_members(record, timestamp) + members_list(record.additional) + origin_members(
        record,
        frames,
    )
}

/// The JSON text of a record.
pub open spec fn record_text(record: RecordView, timestamp: Seq<char>, frames: Seq<Seq<char>>) -> Seq<
    char,
> {
    object_text(record_members(record, timestamp, frames))
}

/// Appends a member whose value is the given JSON text.
fn push_member(members: &mut Vec<Member>, key: &str, text: String)
    ensures
        members_view(final(members)@) == members_view(old(members)@).push((key@, text@)),
{
    members.push(Member { key: String::from_str(key), text });
    assert(members_view(members@) =~= members_view(old(members)@).push((key@, text@)));
}

/// Appends a member with a string for its value, if there is a value.
fn push_optional(members: &mut Vec<Member>, key: &str, value: &Option<String>)
    ensures
        members_view(final(members)@) == members_view(old(members)@) + optional_member(
            key@,
            optional_view(*value),
        ),
{
    match value {
        Some(v) => {
            push_member(members, key, quote(v.as_str()));
            assert(members_view(members@) =~= members_view(old(members)@) + optional_member(
                key@,
                optional_view(*value),
            ));
        },
        None => {
            assert(members_view(members@) =~= members_view(old(members)@) + optional_member(
                key@,
                optional_view(*value),
            ));
        },
    }
}

/// The members that open a record.
fn heading(record: &LogRecord, timestamp: &str) -> (members: Vec<Member>)
    ensures
        members_view(members@) == heading_members(record@, timestamp@),
{
    let mut members: Vec<Member> = Vec::new();
    assert(members_view(members@) =~= Seq::empty());
    push_member(&mut members, "@timestamp", quote(timestamp));
    push_member(&mut members, "level", quote(record.level.as_str()));
    push_member(&mut members, "facility", quote(record.facility.as_str()));
    push_optional(&mut members, "environment", &record.environment);
    let message = match &record.message {
        Some(m) => quote(m.as_str()),
        None => {
            proof {
                reveal_strlit("");
                assert(""@ =~= Seq::<char>::empty());
            }
            quote("")
        },
    };
    push_member(&mut members, "message", message);
    assert(members_view(members@) =~= heading_members(record@, timestamp@));
    members
}

/// Appends the members for the context chain.
fn push_context(members: &mut Vec<Member>, frames: &Vec<String>)
    ensures
        members_view(final(members)@) == members_view(old(members)@) + context_members(
            frames@.map_values(|s: String| s@),
        ),
{
    let ghost texts = frames@.map_values(|s: String| s@);
    if frames.len() > 0 {
        push_member(members, "spans", render_array(frames));
        push_member(members, "span", frames[frames.len() - 1].clone());
    }
    assert(members_view(members@) =~= members_view(old(members)@) + context_members(texts));
}

/// Appends the member `line`, if the line is known.
fn push_line(members: &mut Vec<Member>, line: Option<u32>)
    ensures
        members_view(final(members)@) == members_view(old(members)@) + line_member(line),
{
    match line {
        Some(n) => {
            push_member(members, "line", decimal_string(n as u64));
        },
        None => {},
    }
    assert(members_view(members@) =~= members_view(old(members)@) + line_member(line));
}

/// Appends the members of `more`.
fn push_all(members: &mut Vec<Member>, more: Vec<Member>)
    ensures
        members_view(final(members)@) == members_view(old(members)@) + members_view(more@),
{
    let ghost added = more@;
    let mut more = more;
    members.append(&mut more);
    assert(members_view(members@) =~= members_view(old(members)@) + members_view(added));
}

/// The members that close a record.
fn origin(record: &LogRecord, frames: &Vec<String>) -> (members: Vec<Member>)
    ensures
        members_view(members@) == origin_members(record@, frames@.map_values(|s: String| s@)),
{
    let mut members: Vec<Member> = Vec::new();
    assert(members_view(members@) =~= Seq::empty());
    push_optional(&mut members, "target", &record.target);
    assert(members_view(members@) =~= optional_member("target"@, record@.target));
    push_context(&mut members, frames);
    push_optional(&mut members, "file", &record.file);
    push_optional(&mut members, "module", &record.module);
    push_line(&mut members, record.line);
    push_optional(&mut members, "host", &record.host);
    members
}

/// Writes a record as one JSON object. `frames` holds the JSON texts of
/// the frames of the context chain, the innermost last.
pub fn encode_record(record: &LogRecord, timestamp: &str, frames: &Vec<String>) -> (text: String)
    ensures
        text@ == record_text(record@, timestamp@, frames@.map_values(|s: String| s@)),
{
    proof {
        use_type_invariant(record);
        lemma_object_list(record.fields);
    }
    let mut members = heading(record, timestamp);
    push_all(&mut members, object_entries(&record.fields));
    push_all(&mut members, origin(record, frames));
    render_object(&members)
}

/// The line that is written for an event: the JSON text of its record and
/// a line feed.
pub open spec fn event_line(
    facility: Seq<char>,
    host: Option<Seq<char>>,
    event: Event,
    timestamp: Seq<char>,
    chain: Seq<Frame>,
) -> Seq<char> {
    record_text(
        with_event(blank_record(facility, None, host, crate::order::no_members()), event),
        timestamp,
        chain_texts(chain),
    ) + "\n"@
}

/// The character is a decimal digit.
pub open spec fn is_digit(c: char) -> bool {
    '0' <= c && c <= '9'
}

/// The characters from `from` up to `to` are decimal digits.
pub open spec fn digits(text: Seq<char>, from: int, to: int) -> bool {
    forall|i: int| from <= i < to ==> is_digit(#[trigger] text[i])
}

/// The text is a time in RFC 3339 at the offset of UTC, in a year of four
/// digits: `YYYY-MM-DDThh:mm:ss`, then nothing or a point and up to nine
/// digits of a fraction, then `+00:00`. It has at least twenty-five and at
/// most thirty-five characters.
pub open spec fn is_utc_stamp(text: Seq<char>) -> bool {
    let end = text.len() - 6;
    &&& 25 <= text.len() <= 35
    &&& digits(text, 0, 4) && text[4] == '-'
    &&& digits(text, 5, 7) && text[7] == '-'
    &&& digits(text, 8, 10) && text[10] == 'T'
    &&& digits(text, 11, 13) && text[13] == ':'
    &&& digits(text, 14, 16) && text[16] == ':'
    &&& digits(text, 17, 19)
    &&& text.len() == 25 || (text.len() >= 27 && text[19] == '.' && digits(text, 20, end))
    &&& text[end] == '+' && text[end + 1] == '0' && text[end + 2] == '0'
    &&& text[end + 3] == ':' && text[end + 4] == '0' && text[end + 5] == '0'
}

/// The stamp of the start of 1970.
pub open spec fn epoch_stamp() -> Seq<char> {
    "1970-01-01T00:00:00+00:00"@
}

/// What `chrono` writes for the time that many seconds and nanoseconds
/// after the start of 1970 in UTC, where it can hold that time.
pub uninterp spec fn rfc3339(seconds: int, nanos: int) -> Option<Seq<char>>;

/// The time stamp for that many seconds and nanoseconds after the start of
/// 1970: what `chrono` writes for that time where that is a stamp, and the
/// stamp of the start of 1970 where it is none: for a time that `chrono`
/// cannot hold, or in a year of more than four digits.
pub open spec fn stamp_text(seconds: int, nanos: int) -> Seq<char> {
    match rfc3339(seconds, nanos) {
        Some(text) => if seconds <= i64::MAX && is_utc_stamp(text) {
            text
        } else {
            epoch_stamp()
        },
        None => epoch_stamp(),
    }
}

/// Calls `SystemTime::elapsed` on `UNIX_EPOCH`: the time that has passed
/// since the start of 1970, in seconds and nanoseconds; nothing where the
/// clock stands before that. Nothing is assumed of the time.
#[verifier::external_body]
pub(crate) fn since_epoch() -> Option<(u64, u32)> {
    match std::time::UNIX_EPOCH.elapsed() {
        Ok(passed) => Some((passed.as_secs(), passed.subsec_nanos())),
        Err(_) => None,
    }
}

/// Calls `chrono::DateTime::to_rfc3339` on the time in UTC that
/// `DateTime::from_timestamp` makes of the seconds and nanoseconds; nothing
/// where that gives none. Assumed: the text is a function of the two
/// numbers alone.
#[verifier::external_body]
pub(crate) fn rfc3339_text(seconds: i64, nanos: u32) -> (r: Option<String>)
    ensures
        optional_view(r) == rfc3339(seconds as int, nanos as int),
{
    chrono::DateTime::<chrono::Utc>::from_timestamp(seconds, nanos).map(|time| time.to_rfc3339())
}

/// Whether the characters from `from` up to `to` are decimal digits.
fn all_digits(text: &str, from: usize, to: usize) -> (r: bool)
    requires
        from <= to <= text@.len(),
    ensures
        r == digits(text@, from as int, to as int),
{
    let mut i: usize = from;
    while i < to
        invariant
            from <= i <= to <= text@.len(),
            digits(text@, from as int, i as int),
        decreases to - i,
    {
        let c = text.get_char(i);
        if !('0' <= c && c <= '9') {
            return false;
        }
        i = i + 1;
    }
    true
}

/// Whether the text is a time stamp.
pub fn is_stamp(text: &str) -> (r: bool)
    ensures
        r == is_utc_stamp(text@),
{
    let len: usize = text.unicode_len();
    if len < 25 || len > 35 {
        return false;
    }
    let end: usize = len - 6;
    let head = all_digits(text, 0, 4) && text.get_char(4) == '-' && all_digits(text, 5, 7)
        && text.get_char(7) == '-' && all_digits(text, 8, 10) && text.get_char(10) == 'T'
        && all_digits(text, 11, 13) && text.get_char(13) == ':' && all_digits(text, 14, 16)
        && text.get_char(16) == ':' && all_digits(text, 17, 19);
    let fraction = len == 25 || (len >= 27 && text.get_char(19) == '.' && all_digits(
        text,
        20,
        end,
    ));
    let offset = text.get_char(end) == '+' && text.get_char(end + 1) == '0' && text.get_char(
        end + 2,
    ) == '0' && text.get_char(end + 3) == ':' && text.get_char(end + 4) == '0' && text.get_char(
        end + 5,
    ) == '0';
    head && fraction && offset
}

/// The stamp of the start of 1970 is a time stamp.
pub proof fn lemma_epoch_is_a_stamp()
    ensures
        is_utc_stamp(epoch_stamp()),
{
    reveal_strlit("1970-01-01T00:00:00+00:00");
    let text = "1970-01-01T00:00:00+00:00"@;
    assert(text.len() == 25);
    assert(digits(text, 0, 4));
    assert(digits(text, 5, 7));
    assert(digits(text, 8, 10));
    assert(digits(text, 11, 13));
    assert(digits(text, 14, 16));
    assert(digits(text, 17, 19));
}

/// The time stamp for that many seconds and nanoseconds after the start of
/// 1970.
pub fn stamp_of(seconds: u64, nanos: u32) -> (text: String)
    ensures
        text@ == stamp_text(seconds as int, nanos as int),
        is_utc_stamp(text@),
{
    proof {
        lemma_epoch_is_a_stamp();
    }
    if seconds <= 0x7fff_ffff_ffff_ffff {
        match rfc3339_text(seconds as i64, nanos) {
            Some(text) => {
                if is_stamp(text.as_str()) {
                    return text;
                }
            },
            None => {},
        }
    }
    String::from_str("1970-01-01T00:00:00+00:00")
}

/// The time stamp for a record that is written now. Where the clock stands
/// before 1970, the stamp is that of the start of 1970.
pub fn stamp() -> (text: String)
    ensures
        is_utc_stamp(text@),
{
    match since_epoch() {
        Some((seconds, nanos)) => stamp_of(seconds, nanos),
        None => {
            proof {
                lemma_epoch_is_a_stamp();
            }
            String::from_str("1970-01-01T00:00:00+00:00")
        },
    }
}

/// Calls `gethostname::gethostname`; a name that is not UTF-8 gives `None`.
/// Nothing is assumed of the name.
#[verifier::external_body]
pub(crate) fn local_host() -> Option<String> {
    gethostname::gethostname().into_string().ok()
}

/// Writes events as JSON lines for one facility.
#[derive(Debug)]
pub struct VintedJson {
    facility: &'static str,
}

impl View for VintedJson {
    type V = Seq<char>;

    /// The facility.
    closed spec fn view(&self) -> Seq<char> {
        self.facility@
    }
}

impl VintedJson {
    /// A formatter for the given facility.
    pub fn new(facility: &'static str) -> (r: Self)
        ensures
            r@ == facility@,
    {
        Self { facility }
    }

    /// Writes the event as it would be written at the given time on the
    /// given host.
    ///
    /// Under the strict policy a faulty frame of the chain is fatal: a
    /// chain that holds one is not to be handed in. `format_event_at` tests
    /// for it first.
    pub fn write_event_at(
        &self,
        event: &Event,
        chain: &Vec<Frame>,
        policy: FaultPolicy,
        timestamp: &str,
        host: Option<String>,
    ) -> (line: String)
        requires
            !chain_refused(chain@, policy),
        ensures
            line@ == event_line(self@, optional_view(host), *event, timestamp@, chain@),
    {
        let frames = write_chain(chain, policy);
        let record = record_event(LogRecord::new(self.facility, None, host), event);
        let mut line = encode_record(&record, timestamp, &frames);
        line.append("\n");
        line
    }

    /// Writes the event as it would be written at the given time on the
    /// given host.
    ///
    /// Fails where the policy is strict and a frame of the chain is
    /// faulty, and then names the first such frame.
    pub fn format_event_at(
        &self,
        event: &Event,
        chain: &Vec<Frame>,
        policy: FaultPolicy,
        timestamp: &str,
        host: Option<String>,
    ) -> (r: Result<String, MalformedContext>)
        ensures
            r is Err <==> chain_refused(chain@, policy),
            r matches Ok(line) ==> line@ == event_line(
                self@,
                optional_view(host),
                *event,
                timestamp@,
                chain@,
            ),
            r matches Err(e) ==> first_fault(chain@, e.frame as int),
    {
        if policy == FaultPolicy::Strict {
            match find_fault(chain) {
                Some(at) => {
                    return Err(MalformedContext { frame: at });
                },
                None => {},
            }
        }
        Ok(self.write_event_at(event, chain, policy, timestamp, host))
    }

    /// Writes the event, stamped with the time of the call and the name of
    /// this host.
    pub fn format_event(&self, event: &Event, chain: &Vec<Frame>, policy: FaultPolicy) -> (r:
        Result<String, MalformedContext>)
        ensures
            r is Err <==> chain_refused(chain@, policy),
            r matches Ok(line) ==> exists|timestamp: Seq<char>, host: Option<Seq<char>>|
                is_utc_stamp(timestamp) && line@ == #[trigger] event_line(
                    self@,
                    host,
                    *event,
                    timestamp,
                    chain@,
                ),
            r matches Err(e) ==> first_fault(chain@, e.frame as int),
    {
        let timestamp = stamp();
        let host = local_host();
        let ghost host_name = optional_view(host);
        let r = self.format_event_at(event, chain, policy, timestamp.as_str(), host);
        assert(r matches Ok(line) ==> line@ == event_line(
            self@,
            host_name,
            *event,
            timestamp@,
            chain@,
        ));
        r
    }
}

/// The place of a key in a written record: the keys of the record itself
/// in their order, the additional fields between `message` and `target`.
/// A key that no record holds has no place.
pub open spec fn key_place(key: Seq<char>) -> int {
    if is_additional_key(key) {
        5
    } else if key == "@timestamp"@ {
        0
    } else if key == "level"@ {
        1
    } else if key == "facility"@ {
        2
    } else if key == "environment"@ {
        3
    } else if key == "message"@ {
        4
    } else if key == "target"@ {
        6
    } else if key == "spans"@ {
        7
    } else if key == "span"@ {
        8
    } else if key == "file"@ {
        9
    } else if key == "module"@ {
        10
    } else if key == "line"@ {
        11
    } else if key == "host"@ {
        12
    } else {
        -1
    }
}

/// The members stand in the order of their places, which lie between `low`
/// and `high`, and no key stands twice.
pub open spec fn in_place(members: Seq<(Seq<char>, Seq<char>)>, low: int, high: int) -> bool {
    &&& forall|i: int|
        0 <= i < members.len() ==> low <= key_place(#[trigger] members[i].0) <= high
    &&& forall|i: int, j: int|
        0 <= i < j < members.len() ==> key_place(#[trigger] members[i].0) < key_place(
            #[trigger] members[j].0,
        ) || (key_place(members[i].0) == 5 && key_place(members[j].0) == 5 && members[i].0
            != members[j].0)
}

/// The places of the keys of the record itself.
proof fn lemma_key_places()
    ensures
        key_place("@timestamp"@) == 0,
        key_place("level"@) == 1,
        key_place("facility"@) == 2,
        key_place("environment"@) == 3,
        key_place("message"@) == 4,
        key_place("target"@) == 6,
        key_place("spans"@) == 7,
        key_place("span"@) == 8,
        key_place("file"@) == 9,
        key_place("module"@) == 10,
        key_place("line"@) == 11,
        key_place("host"@) == 12,
{
    reveal_strlit("@timestamp");
    reveal_strlit("level");
    reveal_strlit("facility");
    reveal_strlit("environment");
    reveal_strlit("message");
    reveal_strlit("target");
    reveal_strlit("spans");
    reveal_strlit("span");
    reveal_strlit("file");
    reveal_strlit("module");
    reveal_strlit("line");
    reveal_strlit("host");
    assert("@timestamp"@.len() == 10 && "@timestamp"@[0] == '@');
    assert("level"@.len() == 5 && "level"@[0] == 'l');
    assert("facility"@.len() == 8 && "facility"@[0] == 'f');
    assert("environment"@.len() == 11 && "environment"@[0] == 'e');
    assert("message"@.len() == 7 && "message"@[0] == 'm');
    assert("target"@.len() == 6 && "target"@[0] == 't');
    assert("spans"@.len() == 5 && "spans"@[0] == 's');
    assert("span"@.len() == 4 && "span"@[0] == 's');
    assert("file"@.len() == 4 && "file"@[0] == 'f');
    assert("module"@.len() == 6 && "module"@[0] == 'm');
    assert("line"@.len() == 4 && "line"@[0] == 'l');
    assert("host"@.len() == 4 && "host"@[0] == 'h');
}

/// Members in place, followed by members in place behind them, are in
/// place.
proof fn lemma_in_place_joined(
    first: Seq<(Seq<char>, Seq<char>)>,
    second: Seq<(Seq<char>, Seq<char>)>,
    low: int,
    middle: int,
    high: int,
)
    requires
        low <= middle < high,
        in_place(first, low, middle),
        in_place(second, middle + 1, high),
    ensures
        in_place(first + second, low, high),
{
    let all = first + second;
    assert forall|i: int| 0 <= i < all.len() implies low <= key_place(#[trigger] all[i].0)
        <= high by {
        if i < first.len() {
            assert(all[i] == first[i]);
        } else {
            assert(all[i] == second[i - first.len()]);
        }
    }
    assert forall|i: int, j: int| 0 <= i < j < all.len() implies key_place(#[trigger] all[i].0)
        < key_place(#[trigger] all[j].0) || (key_place(all[i].0) == 5 && key_place(all[j].0) == 5
        && all[i].0 != all[j].0) by {
        if j < first.len() {
            assert(all[i] == first[i] && all[j] == first[j]);
        } else if i < first.len() {
            assert(all[i] == first[i] && all[j] == second[j - first.len()]);
        } else {
            assert(all[i] == second[i - first.len()] && all[j] == second[j - first.len()]);
        }
    }
}

/// One member, or none, is in its place.
proof fn lemma_optional_in_place(key: Seq<char>, value: Option<Seq<char>>)
    ensures
        in_place(optional_member(key, value), key_place(key), key_place(key)),
{
}

/// The members that open a record are in place.
proof fn lemma_heading_in_place(record: RecordView, timestamp: Seq<char>)
    ensures
        in_place(heading_members(record, timestamp), 0, 4),
{
    lemma_key_places();
    let start = seq![
        ("@timestamp"@, quoted(timestamp)),
        ("level"@, quoted(record.level.name())),
        ("facility"@, quoted(record.facility)),
    ];
    assert(in_place(start, 0, 2));
    lemma_optional_in_place("environment"@, record.environment);
    lemma_in_place_joined(start, optional_member("environment"@, record.environment), 0, 2, 3);
    let message = seq![("message"@, quoted(written_message(record.message)))];
    assert(in_place(message, 4, 4));
    lemma_in_place_joined(
        start + optional_member("environment"@, record.environment),
        message,
        0,
        3,
        4,
    );
}

/// The members that close a record are in place.
proof fn lemma_origin_in_place(record: RecordView, frames: Seq<Seq<char>>)
    ensures
        in_place(origin_members(record, frames), 6, 12),
{
    lemma_key_places();
    let target = optional_member("target"@, record.target);
    let context = context_members(frames);
    let file = optional_member("file"@, record.file);
    let module = optional_member("module"@, record.module);
    let line = line_member(record.line);
    let host = optional_member("host"@, record.host);
    lemma_optional_in_place("target"@, record.target);
    lemma_optional_in_place("file"@, record.file);
    lemma_optional_in_place("module"@, record.module);
    lemma_optional_in_place("host"@, record.host);
    assert(in_place(context, 7, 8));
    assert(in_place(line, 11, 11));
    lemma_in_place_joined(target, context, 6, 6, 8);
    lemma_in_place_joined(target + context, file, 6, 8, 9);
    lemma_in_place_joined(target + context + file, module, 6, 9, 10);
    lemma_in_place_joined(target + context + file + module, line, 6, 10, 11);
    lemma_in_place_joined(target + context + file + module + line, host, 6, 11, 12);
}

/// The additional fields of a well-formed record are in place.
proof fn lemma_additional_in_place(record: RecordView)
    requires
        record.wf(),
    ensures
        in_place(members_list(record.additional), 5, 5),
{
    let keys = key_order(record.additional);
    let list = members_list(record.additional);
    assert forall|i: int| 0 <= i < list.len() implies key_place(#[trigger] list[i].0) == 5 by {
        assert(keys.contains(keys[i]));
        assert(record.additional.contains_key(keys[i]));
    }
}

/// Every key of a written record stands once, and the keys stand in the
/// order of their places: `@timestamp`, `level` and `facility` first, then
/// the environment, the message and the additional fields, then `target`,
/// the context, `file`, `module`, `line` and `host`.
pub proof fn lemma_keys_stand_once(
    record: RecordView,
    timestamp: Seq<char>,
    frames: Seq<Seq<char>>,
)
    requires
        record.wf(),
    ensures
        in_place(record_members(record, timestamp, frames), 0, 12),
        forall|i: int, j: int|
            0 <= i < j < record_members(record, timestamp, frames).len() ==> (
            #[trigger] record_members(record, timestamp, frames)[i]).0 != (#[trigger] record_members(
                record,
                timestamp,
                frames,
            )[j]).0,
{
    lemma_heading_in_place(record, timestamp);
    lemma_additional_in_place(record);
    lemma_origin_in_place(record, frames);
    lemma_in_place_joined(
        heading_members(record, timestamp),
        members_list(record.additional),
        0,
        4,
        5,
    );
    lemma_in_place_joined(
        heading_members(record, timestamp) + members_list(record.additional),
        origin_members(record, frames),
        0,
        5,
        12,
    );
}

/// No field overrides a key of the record itself. A member of a written
/// record under one of the keys `@timestamp`, `level`, `facility`,
/// `environment`, `message`, `target` and `host` holds what the record
/// itself holds for it, whatever additional fields there are.
pub proof fn lemma_own_keys_win(
    record: RecordView,
    timestamp: Seq<char>,
    frames: Seq<Seq<char>>,
    i: int,
)
    requires
        record.wf(),
        0 <= i < record_members(record, timestamp, frames).len(),
    ensures
        ({
            let member = record_members(record, timestamp, frames)[i];
            &&& member.0 == "@timestamp"@ ==> member.1 == quoted(timestamp)
            &&& member.0 == "level"@ ==> member.1 == quoted(record.level.name()) && i == 1
            &&& member.0 == "facility"@ ==> member.1 == quoted(record.facility)
            &&& member.0 == "environment"@ ==> record.environment is Some && member.1 == quoted(
                record.environment->0,
            )
            &&& member.0 == "message"@ ==> member.1 == quoted(written_message(record.message))
            &&& member.0 == "target"@ ==> record.target is Some && member.1 == quoted(
                record.target->0,
            )
            &&& member.0 == "host"@ ==> record.host is Some && member.1 == quoted(record.host->0)
        }),
{
    lemma_key_places();
    lemma_keys_stand_once(record, timestamp, frames);
    let all = record_members(record, timestamp, frames);
    let heading = heading_members(record, timestamp);
    let additional = members_list(record.additional);
    let origin = origin_members(record, frames);
    lemma_heading_in_place(record, timestamp);
    lemma_additional_in_place(record);
    lemma_origin_in_place(record, frames);
    if i < heading.len() {
        assert(all[i] == heading[i]);
    } else if i < heading.len() + additional.len() {
        assert(all[i] == additional[i - heading.len()]);
    } else {
        assert(all[i] == origin[i - heading.len() - additional.len()]);
        let target = optional_member("target"@, record.target);
        let context = context_members(frames);
        let file = optional_member("file"@, record.file);
        let module = optional_member("module"@, record.module);
        let line = line_member(record.line);
        let host = optional_member("host"@, record.host);
        let k = i - heading.len() - additional.len();
        assert(origin == target + context + file + module + line + host);
    }
}

/// Every additional field of a record is written, under its key and with
/// its value.
pub proof fn lemma_additional_is_written(
    record: RecordView,
    timestamp: Seq<char>,
    frames: Seq<Seq<char>>,
    key: Seq<char>,
)
    requires
        record.wf(),
        record.additional.contains_key(key),
    ensures
        exists|i: int|
            0 <= i < record_members(record, timestamp, frames).len() && #[trigger] record_members(
                record,
                timestamp,
                frames,
            )[i] == (key, record.additional[key]),
{
    let keys = key_order(record.additional);
    assert(keys.contains(key));
    let k = choose|k: int| 0 <= k < keys.len() && keys[k] == key;
    let heading = heading_members(record, timestamp);
    let list = members_list(record.additional);
    assert(list[k] == (key, record.additional[key]));
    assert(record_members(record, timestamp, frames)[heading.len() + k] == list[k]);
}

/// Why bytes were not written.
#[derive(Clone, Copy, Debug, PartialEq, Eq, Structural)]
pub enum WriteError {
    /// The bytes are not UTF-8.
    InvalidData,
}

/// Calls `std::str::from_utf8`. Assumed, as its documentation says: it
/// succeeds on the byte sequences that are UTF-8 and on no others, and the
/// text it gives has just these bytes.
#[verifier::external_body]
fn utf8_text(bytes: &[u8]) -> (r: Option<&str>)
    ensures
        r is Some <==> valid_utf8(bytes@),
        r matches Some(text) ==> text.spec_bytes() == bytes@,
{
    std::str::from_utf8(bytes).ok()
}

/// A bridge from a writer of bytes to a writer of text: bytes that are
/// written to it are appended to its text, provided they are UTF-8.
#[derive(Debug)]
pub struct WriteAdaptor {
    fmt_write: String,
}

impl View for WriteAdaptor {
    type V = Seq<char>;

    /// The text written so far.
    closed spec fn view(&self) -> Seq<char> {
        self.fmt_write@
    }
}

impl WriteAdaptor {
    /// An adaptor that appends to the given text.
    pub fn new(fmt_write: String) -> (r: Self)
        ensures
            r@ == fmt_write@,
    {
        Self { fmt_write }
    }

    /// Appends the bytes as text and says how many bytes were written: all
    /// of them. Bytes that are not UTF-8 are refused, and nothing is
    /// written.
    pub fn write(&mut self, buf: &[u8]) -> (r: Result<usize, WriteError>)
        ensures
            r is Ok <==> valid_utf8(buf@),
            r matches Ok(n) ==> n == buf@.len() && final(self)@ == old(self)@ + decode_utf8(buf@),
            r matches Err(e) ==> e == WriteError::InvalidData && final(self)@ == old(self)@,
    {
        broadcast use vstd::utf8::encode_utf8_decode_utf8;

        match utf8_text(buf) {
            Some(text) => {
                assert(decode_utf8(vstd::utf8::encode_utf8(text@)) == text@);
                self.fmt_write.append(text);
                Ok(buf.len())
            },
            None => Err(WriteError::InvalidData),
        }
    }

    /// Does nothing: what was written is in the text already.
    pub fn flush(&mut self) -> (r: Result<(), WriteError>)
        ensures
            r is Ok,
            final(self)@ == old(self)@,
    {
        Ok(())
    }

    /// The text, with all that was written.
    pub fn into_inner(self) -> (r: String)
        ensures
            r@ == self@,
    {
        self.fmt_write
    }
}

} // verus!
