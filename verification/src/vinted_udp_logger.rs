//! The record of one event and the logger that ships records.

use vstd::prelude::*;
use vstd::string::StrSliceExecFns;
use crate::context::{
    chain_refused, chain_texts, find_fault, first_fault, write_chain, FaultPolicy, Frame,
    MalformedContext,
};
use crate::event::{
    copy_text, record_event, record_fields, with_additionals, with_event, Event, Field,
};
use crate::json::{
    bool_text, decimal, lemma_object_list, object_insert, object_members,
    object_wf, quoted, same_text, FieldValue,
};
use crate::level::Level;
use crate::mailbox::{Mailbox, MailboxView, SendOutcome};
use crate::order::{key_order, keys_wf};
use crate::shipper::{
    action_view, polled, Action, Phase, Shipper, ShipperView, DEFAULT_TIMEOUT, MAX_DATAGRAM,
};
use crate::vinted_json_formatter::{
    encode_record, is_utc_stamp, local_host, record_text, stamp,
};

pub mod visitor;

verus! {

/// The view of an optional text.
pub open spec fn optional_view(text: Option<String>) -> Option<Seq<char>> {
    match text {
        Some(t) => Some(t@),
        None => None,
    }
}

/// The key under which an additional field is written: the name of the
/// field behind an underscore.
pub open spec fn additional_key(name: Seq<char>) -> Seq<char> {
    "_"@ + name
}

/// The key starts with the underscore that marks an additional field.
pub open spec fn is_additional_key(key: Seq<char>) -> bool {
    key.len() > 0 && key[0] == '_'
}

/// The model of a record.
pub struct RecordView {
    pub level: Level,
    /// The message, where the event had one.
    pub message: Option<Seq<char>>,
    pub facility: Seq<char>,
    pub environment: Option<Seq<char>>,
    pub host: Option<Seq<char>>,
    pub target: Option<Seq<char>>,
    pub module: Option<Seq<char>>,
    pub file: Option<Seq<char>>,
    pub line: Option<u32>,
    /// The additional fields: for each key, the JSON text of its value.
    pub additional: Map<Seq<char>, Seq<char>>,
}

impl RecordView {
    /// The additional fields can be written in ascending order of their
    /// keys, and every one of the keys starts with an underscore.
    pub open spec fn wf(self) -> bool {
        &&& keys_wf(key_order(self.additional), self.additional)
        &&& forall|k: Seq<char>| #[trigger]
            self.additional.contains_key(k) ==> is_additional_key(k)
    }
}

/// One log event with the identity of the pipeline that emits it.
///
/// A record is made on the caller's stack, written at once and dropped. It
/// carries no time: the time stamp is taken when the record is written.
#[derive(Debug)]
pub struct LogRecord {
    pub(crate) environment: Option<String>,
    pub(crate) facility: String,
    pub(crate) host: Option<String>,
    pub(crate) target: Option<String>,
    pub(crate) module: Option<String>,
    pub(crate) file: Option<String>,
    pub(crate) line: Option<u32>,
    pub(crate) level: Level,
    pub(crate) message: Option<String>,
    pub(crate) fields: serde_json::Map<String, serde_json::Value>,
}

impl View for LogRecord {
    type V = RecordView;

    open(crate) spec fn view(&self) -> RecordView {
        RecordView {
            level: self.level,
            message: optional_view(self.message),
            facility: self.facility@,
            environment: optional_view(self.environment),
            host: optional_view(self.host),
            target: optional_view(self.target),
            module: optional_view(self.module),
            file: optional_view(self.file),
            line: self.line,
            additional: object_members(self.fields),
        }
    }
}

/// The message as it is written: the empty text where there is none.
pub open spec fn written_message(message: Option<Seq<char>>) -> Seq<char> {
    match message {
        Some(m) => m,
        None => Seq::empty(),
    }
}

/// A record that holds an identity and additional fields and nothing else:
/// the level is the lowest, there is no message, and the source location is
/// unknown.
pub open spec fn blank_record(
    facility: Seq<char>,
    environment: Option<Seq<char>>,
    host: Option<Seq<char>>,
    additional: Map<Seq<char>, Seq<char>>,
) -> RecordView {
    RecordView {
        level: Level::Trace,
        message: None,
        facility,
        environment,
        host,
        target: None,
        module: None,
        file: None,
        line: None,
        additional,
    }
}

/// What is left of a record that is too long to ship: its level, its
/// identity and where it came from. The message is gone, and the one
/// additional field `_truncated` says that something is missing.
pub open spec fn truncated(record: RecordView) -> RecordView {
    RecordView {
        message: None,
        additional: crate::order::no_members().insert("_truncated"@, bool_text(true)),
        ..record
    }
}

impl LogRecord {
    #[verifier::type_invariant]
    pub open(crate) spec fn inv(self) -> bool {
        object_wf(self.fields) && self@.wf()
    }

    /// A record that holds the given identity and nothing else.
    pub fn new(facility: &str, environment: Option<String>, host: Option<String>) -> (r: LogRecord)
        ensures
            r@ == blank_record(
                facility@,
                optional_view(environment),
                optional_view(host),
                crate::order::no_members(),
            ),
            r@.wf(),
    {
        let fields = crate::json::object_new();
        proof {
            lemma_object_list(fields);
        }
        LogRecord {
            environment,
            facility: String::from_str(facility),
            host,
            target: None,
            module: None,
            file: None,
            line: None,
            level: Level::Trace,
            message: None,
            fields,
        }
    }

    /// A record that holds the given identity and the given additional
    /// fields.
    pub(crate) fn with_fields(
        facility: &str,
        environment: Option<String>,
        host: Option<String>,
        fields: serde_json::Map<String, serde_json::Value>,
    ) -> (r: LogRecord)
        requires
            object_wf(fields),
            forall|k: Seq<char>| #[trigger]
                object_members(fields).contains_key(k) ==> is_additional_key(k),
        ensures
            r@ == blank_record(
                facility@,
                optional_view(environment),
                optional_view(host),
                object_members(fields),
            ),
            r@.wf(),
    {
        proof {
            lemma_object_list(fields);
        }
        LogRecord {
            environment,
            facility: String::from_str(facility),
            host,
            target: None,
            module: None,
            file: None,
            line: None,
            level: Level::Trace,
            message: None,
            fields,
        }
    }

    /// Sets the level and the place in the source that the record came
    /// from.
    pub fn set_origin(
        &mut self,
        level: Level,
        target: Option<String>,
        module: Option<String>,
        file: Option<String>,
        line: Option<u32>,
    )
        ensures
            final(self)@ == (RecordView {
                level,
                target: optional_view(target),
                module: optional_view(module),
                file: optional_view(file),
                line,
                ..old(self)@
            }),
    {
        proof {
            use_type_invariant(&*self);
        }
        self.level = level;
        self.target = target;
        self.module = module;
        self.file = file;
        self.line = line;
    }

    /// The record without its message and its additional fields, marked
    /// as truncated.
    pub fn truncated(&self) -> (r: LogRecord)
        ensures
            r@ == truncated(self@),
    {
        let mut fields = crate::json::object_new();
        object_insert(&mut fields, String::from_str("_truncated"), FieldValue::Bool(true));
        proof {
            reveal_strlit("_truncated");
            assert("_truncated"@[0] == '_');
            lemma_object_list(fields);
        }
        LogRecord {
            environment: copy_text(&self.environment),
            facility: self.facility.clone(),
            host: copy_text(&self.host),
            target: copy_text(&self.target),
            module: copy_text(&self.module),
            file: copy_text(&self.file),
            line: self.line,
            level: self.level,
            message: None,
            fields,
        }
    }

    /// Sets the message.
    pub fn set_message(&mut self, message: &str)
        ensures
            final(self)@ == (RecordView { message: Some(message@), ..old(self)@ }),
    {
        proof {
            use_type_invariant(&*self);
        }
        self.message = Some(String::from_str(message));
    }
}

/// The number of payloads that a mailbox holds unless the builder is told
/// otherwise.
pub const DEFAULT_BUFFER: usize = 512;

/// Why a logger could not be built or installed.
#[derive(Clone, Copy, Debug, PartialEq, Eq, Structural)]
#[non_exhaustive]
pub enum BuilderError {
    /// The host name could not be resolved.
    HostnameResolution,
    /// The name of this host is not text.
    OsString,
    /// A global dispatcher was installed already.
    Global,
}

/// The JSON text under which the builder keeps the value of an additional
/// field: a whole number and a string stay what they are, any other value
/// becomes the string of its JSON text.
pub open spec fn coerced_text(value: FieldValue) -> Seq<char> {
    match value {
        FieldValue::Number(n) => decimal(n as int),
        FieldValue::Text(s) => quoted(s@),
        FieldValue::Bool(b) => quoted(bool_text(b)),
        FieldValue::Null => quoted("null"@),
        FieldValue::Other(s) => quoted(s@),
    }
}

/// The model of a builder, and of the settings of a logger.
pub struct Settings {
    pub facility: Seq<char>,
    pub environment: Option<Seq<char>>,
    pub host: Option<Seq<char>>,
    /// The additional fields that every record carries.
    pub additional: Map<Seq<char>, Seq<char>>,
    /// The capacity of the mailbox.
    pub buffer: nat,
    pub policy: FaultPolicy,
}

impl Settings {
    /// The additional fields stand under keys that start with an
    /// underscore, and the capacity of the mailbox is at least one.
    pub open spec fn wf(self) -> bool {
        &&& keys_wf(key_order(self.additional), self.additional)
        &&& forall|k: Seq<char>| #[trigger]
            self.additional.contains_key(k) ==> is_additional_key(k)
        &&& 1 <= self.buffer
    }

    /// The settings with the host set.
    pub open spec fn with_host(self, name: Seq<char>) -> Settings {
        Settings { host: Some(name), ..self }
    }

    /// The record that every event of this pipeline starts from.
    pub open spec fn record(self) -> RecordView {
        blank_record(self.facility, self.environment, self.host, self.additional)
    }
}

/// The settings that a builder starts with: facility `new_facility`,
/// environment `dev`, no host, no additional fields, a mailbox of
/// `DEFAULT_BUFFER` payloads, and the lenient policy.
pub open spec fn default_settings() -> Settings {
    Settings {
        facility: "new_facility"@,
        environment: Some("dev"@),
        host: None,
        additional: crate::order::no_members(),
        buffer: DEFAULT_BUFFER as nat,
        policy: FaultPolicy::Lenient,
    }
}

/// A builder for a [`Logger`].
#[derive(Debug)]
pub struct Builder {
    additional_fields: serde_json::Map<String, serde_json::Value>,
    facility: String,
    host: Option<String>,
    environment: Option<String>,
    buffer: usize,
    policy: FaultPolicy,
}

impl View for Builder {
    type V = Settings;

    closed spec fn view(&self) -> Settings {
        Settings {
            facility: self.facility@,
            environment: optional_view(self.environment),
            host: optional_view(self.host),
            additional: object_members(self.additional_fields),
            buffer: self.buffer as nat,
            policy: self.policy,
        }
    }
}

impl Default for Builder {
    fn default() -> (r: Self)
        ensures
            r@ == default_settings(),
            r@.wf(),
    {
        let additional_fields = crate::json::object_new();
        proof {
            lemma_object_list(additional_fields);
        }
        Builder {
            additional_fields,
            environment: Some(String::from_str("dev")),
            facility: String::from_str("new_facility"),
            host: None,
            buffer: DEFAULT_BUFFER,
            policy: FaultPolicy::Lenient,
        }
    }
}

impl Builder {
    #[verifier::type_invariant]
    closed spec fn inv(self) -> bool {
        object_wf(self.additional_fields) && self@.wf()
    }

    /// Adds an additional field that every record will carry, under the
    /// key behind an underscore. A field that is added again replaces the
    /// one before.
    pub fn additional_field(self, key: &str, value: FieldValue) -> (r: Self)
        ensures
            r@ == (Settings {
                additional: self@.additional.insert(additional_key(key@), coerced_text(value)),
                ..self@
            }),
            r@.wf(),
    {
        proof {
            use_type_invariant(&self);
            reveal_strlit("_");
        }
        let coerced_value = match value {
            FieldValue::Number(n) => FieldValue::Number(n),
            FieldValue::Text(x) => FieldValue::Text(x),
            FieldValue::Bool(b) => FieldValue::Text(
                String::from_str(if b {
                    "true"
                } else {
                    "false"
                }),
            ),
            FieldValue::Null => FieldValue::Text(String::from_str("null")),
            FieldValue::Other(x) => FieldValue::Text(x),
        };
        let Builder { additional_fields, facility, host, environment, buffer, policy } = self;
        let mut additional_fields = additional_fields;
        let new_key = String::from_str("_").concat(key);
        assert(new_key@[0] == '_');
        object_insert(&mut additional_fields, new_key, coerced_value);
        proof {
            lemma_object_list(additional_fields);
        }
        Builder { additional_fields, facility, host, environment, buffer, policy }
    }

    /// Sets the environment.
    pub fn environment(self, environment: &str) -> (r: Self)
        ensures
            r@ == (Settings { environment: Some(environment@), ..self@ }),
            r@.wf(),
    {
        proof {
            use_type_invariant(&self);
        }
        let mut r = self;
        r.environment = Some(String::from_str(environment));
        r
    }

    /// Sets the facility.
    pub fn facility(self, facility: &str) -> (r: Self)
        ensures
            r@ == (Settings { facility: facility@, ..self@ }),
            r@.wf(),
    {
        proof {
            use_type_invariant(&self);
        }
        let mut r = self;
        r.facility = String::from_str(facility);
        r
    }

    /// Sets the host.
    pub fn host(self, host: &str) -> (r: Self)
        ensures
            r@ == self@.with_host(host@),
            r@.wf(),
    {
        proof {
            use_type_invariant(&self);
        }
        let mut r = self;
        r.host = Some(String::from_str(host));
        r
    }

    /// Sets the host to the name of this machine. Fails, and says
    /// `OsString`, where that name is not text.
    pub fn local_host(self) -> (r: Result<Self, BuilderError>)
        ensures
            r matches Ok(b) ==> b@.wf() && exists|name: Seq<char>|
                b@ == #[trigger] self@.with_host(name),
            r matches Err(e) ==> e == BuilderError::OsString,
    {
        proof {
            use_type_invariant(&self);
        }
        match local_host() {
            Some(name) => {
                let mut b = self;
                b.host = Some(name);
                assert(b@ == self@.with_host(name@));
                Ok(b)
            },
            None => Err(BuilderError::OsString),
        }
    }

    /// Sets the capacity of the mailbox.
    pub fn buffer(self, capacity: usize) -> (r: Self)
        requires
            1 <= capacity,
        ensures
            r@ == (Settings { buffer: capacity as nat, ..self@ }),
            r@.wf(),
    {
        proof {
            use_type_invariant(&self);
        }
        let mut r = self;
        r.buffer = capacity;
        r
    }

    /// Sets what is done with a faulty frame of the context chain.
    pub fn policy(self, policy: FaultPolicy) -> (r: Self)
        ensures
            r@ == (Settings { policy, ..self@ }),
            r@.wf(),
    {
        proof {
            use_type_invariant(&self);
        }
        let mut r = self;
        r.policy = policy;
        r
    }

    /// The logger and the background task of a pipeline that ships to the
    /// given address over UDP. The mailbox is empty and open; the task is
    /// about to resolve the address. The caller runs the task, once.
    pub fn connect_udp(self, addr: String) -> (r: Result<(Logger, BackgroundTask), BuilderError>)
        ensures
            r matches Ok(pair) && pair.0@ == (LoggerView {
                settings: self@,
                mailbox: MailboxView {
                    capacity: self@.buffer,
                    queue: Seq::empty(),
                    closed: false,
                },
            }) && pair.0@.wf() && pair.1.address@ == addr@ && pair.1.shipper@ == (ShipperView {
                phase: Phase::Resolving,
                families: Seq::empty(),
                current: 0,
                backoff: DEFAULT_TIMEOUT as u64,
                limit: MAX_DATAGRAM as nat,
            }),
    {
        proof {
            use_type_invariant(&self);
        }
        let Builder { additional_fields, facility, host, environment, buffer, policy } = self;
        let logger = Logger {
            base_object: additional_fields,
            facility,
            host,
            environment,
            policy,
            sender: Mailbox::new(buffer),
        };
        let task = BackgroundTask {
            address: addr,
            shipper: Shipper::new(DEFAULT_TIMEOUT as u64, MAX_DATAGRAM),
        };
        Ok((logger, task))
    }
}

/// What the caller runs in the background: the address to ship to and the
/// shipper that decides what to do next.
#[derive(Debug)]
pub struct BackgroundTask {
    pub address: String,
    pub shipper: Shipper,
}

/// The model of a logger.
pub struct LoggerView {
    pub settings: Settings,
    pub mailbox: MailboxView,
}

impl LoggerView {
    /// The settings and the mailbox are well formed, and no payload that
    /// waits is too long to ship.
    pub open spec fn wf(self) -> bool {
        &&& self.settings.wf()
        &&& self.mailbox.wf()
        &&& self.mailbox.capacity == self.settings.buffer
        &&& forall|i: int|
            0 <= i < self.mailbox.queue.len() ==> (#[trigger] self.mailbox.queue[i]).len()
                <= MAX_DATAGRAM
    }

    /// The logger after a payload has been handed to its mailbox, or after
    /// there was none to hand over.
    pub open spec fn sent(self, payload: Option<Seq<u8>>) -> LoggerView {
        match payload {
            Some(p) => LoggerView { mailbox: self.mailbox.sent(p), ..self },
            None => self,
        }
    }

    /// A payload that is handed over now is accepted.
    pub open spec fn accepts(self, payload: Option<Seq<u8>>) -> bool {
        payload is Some && self.mailbox.accepts()
    }
}

/// The payload that is shipped for a record: its JSON text in UTF-8 and a
/// zero byte that ends it.
pub open spec fn payload_of(text: Seq<char>) -> Seq<u8> {
    vstd::utf8::encode_utf8(text).push(0u8)
}

/// The payload fits one datagram.
pub open spec fn fits(payload: Seq<u8>) -> bool {
    payload.len() <= MAX_DATAGRAM
}

/// The payload that is shipped for a record at the given time, with the
/// given frames of context.
///
/// It is the payload of the whole record where that fits one datagram.
/// Where it does not, it is the payload of the truncated record without
/// context; and where not even that fits, there is none.
pub open spec fn fitted(record: RecordView, timestamp: Seq<char>, frames: Seq<Seq<char>>) -> Option<
    Seq<u8>,
> {
    let whole = payload_of(record_text(record, timestamp, frames));
    let short = payload_of(record_text(truncated(record), timestamp, Seq::empty()));
    if fits(whole) {
        Some(whole)
    } else if fits(short) {
        Some(short)
    } else {
        None
    }
}

/// The payload of an event.
pub open spec fn event_payload(
    settings: Settings,
    event: Event,
    timestamp: Seq<char>,
    chain: Seq<Frame>,
) -> Option<Seq<u8>> {
    fitted(with_event(settings.record(), event), timestamp, chain_texts(chain))
}

/// The payload of a message that is logged with typed fields.
pub open spec fn message_payload(
    settings: Settings,
    level: Level,
    message: Seq<char>,
    fields: Seq<Field>,
    timestamp: Seq<char>,
) -> Option<Seq<u8>> {
    fitted(
        with_additionals(
            RecordView { level, message: Some(message), ..settings.record() },
            fields,
        ),
        timestamp,
        Seq::empty(),
    )
}

/// The view of a payload that may be absent.
pub open spec fn payload_view(payload: Option<Vec<u8>>) -> Option<Seq<u8>> {
    match payload {
        Some(p) => Some(p@),
        None => None,
    }
}

/// The text of a record as a payload: in UTF-8, with a zero byte at its
/// end.
pub fn to_payload(text: &str) -> (r: Vec<u8>)
    ensures
        r@ == payload_of(text@),
{
    let mut raw = text.as_bytes_vec();
    raw.push(0);
    raw
}

/// Writes a record as a payload that fits one datagram: the whole record,
/// or the truncated record where the whole is too long, or nothing where
/// even that is too long.
pub fn fit_record(record: &LogRecord, timestamp: &str, frames: &Vec<String>) -> (r: Option<Vec<u8>>)
    ensures
        payload_view(r) == fitted(record@, timestamp@, frames@.map_values(|s: String| s@)),
        r matches Some(p) ==> fits(p@),
{
    let whole = to_payload(encode_record(record, timestamp, frames).as_str());
    if whole.len() <= MAX_DATAGRAM {
        return Some(whole);
    }
    let none: Vec<String> = Vec::new();
    assert(none@.map_values(|s: String| s@) =~= Seq::<Seq<char>>::empty());
    let short = to_payload(encode_record(&record.truncated(), timestamp, &none).as_str());
    if short.len() <= MAX_DATAGRAM {
        Some(short)
    } else {
        None
    }
}

/// The handle through which events enter the pipeline.
#[derive(Debug)]
pub struct Logger {
    base_object: serde_json::Map<String, serde_json::Value>,
    facility: String,
    host: Option<String>,
    environment: Option<String>,
    policy: FaultPolicy,
    sender: Mailbox,
}

impl View for Logger {
    type V = LoggerView;

    closed spec fn view(&self) -> LoggerView {
        LoggerView {
            settings: Settings {
                facility: self.facility@,
                environment: optional_view(self.environment),
                host: optional_view(self.host),
                additional: object_members(self.base_object),
                buffer: self.sender@.capacity,
                policy: self.policy,
            },
            mailbox: self.sender@,
        }
    }
}

impl Logger {
    #[verifier::type_invariant]
    closed spec fn inv(self) -> bool {
        object_wf(self.base_object) && self@.wf()
    }

    /// A builder with the default settings.
    pub fn builder() -> (r: Builder)
        ensures
            r@ == default_settings(),
            r@.wf(),
    {
        Builder::default()
    }

    /// The record that every event starts from: the identity and the
    /// additional fields of the pipeline.
    fn record(&self) -> (r: LogRecord)
        ensures
            r@ == self@.settings.record(),
    {
        proof {
            use_type_invariant(self);
        }
        LogRecord::with_fields(
            self.facility.as_str(),
            copy_text(&self.environment),
            copy_text(&self.host),
            self.base_object.clone(),
        )
    }

    /// Hands a payload to the mailbox; where there is none, nothing is
    /// handed over and the outcome is that of a dropped payload.
    fn send(&mut self, payload: Option<Vec<u8>>) -> (r: SendOutcome)
        requires
            payload matches Some(p) ==> fits(p@),
        ensures
            final(self)@ == old(self)@.sent(payload_view(payload)),
            final(self)@.wf(),
            r == SendOutcome::Accepted <==> old(self)@.accepts(payload_view(payload)),
    {
        proof {
            use_type_invariant(&*self);
        }
        match payload {
            Some(raw) => {
                let mut sender = Mailbox::vacant();
                std::mem::swap(&mut self.sender, &mut sender);
                let outcome = sender.try_send(raw);
                std::mem::swap(&mut self.sender, &mut sender);
                outcome
            },
            None => SendOutcome::Dropped,
        }
    }

    /// Writes the event as it would be written at the given time and hands
    /// it to the mailbox, which accepts or drops it.
    ///
    /// Under the strict policy a faulty frame of the chain is fatal: a
    /// chain that holds one is not to be handed in. `on_event_at` tests for
    /// it first.
    pub fn send_event_at(&mut self, event: &Event, chain: &Vec<Frame>, timestamp: &str) -> (outcome:
        SendOutcome)
        requires
            !chain_refused(chain@, old(self)@.settings.policy),
        ensures
            final(self)@ == old(self)@.sent(
                event_payload(old(self)@.settings, *event, timestamp@, chain@),
            ),
            outcome == SendOutcome::Accepted <==> old(self)@.accepts(
                event_payload(old(self)@.settings, *event, timestamp@, chain@),
            ),
    {
        let frames = write_chain(chain, self.policy);
        let record = record_event(self.record(), event);
        self.send(fit_record(&record, timestamp, &frames))
    }

    /// Writes the event as it would be written at the given time and hands
    /// it to the mailbox, which accepts or drops it.
    ///
    /// Fails where the policy is strict and a frame of the chain is faulty;
    /// nothing is sent then.
    pub fn on_event_at(&mut self, event: &Event, chain: &Vec<Frame>, timestamp: &str) -> (r: Result<
        SendOutcome,
        MalformedContext,
    >)
        ensures
            r is Err <==> chain_refused(chain@, old(self)@.settings.policy),
            r matches Err(e) ==> first_fault(chain@, e.frame as int) && final(self)@ == old(self)@,
            r matches Ok(outcome) ==> {
                &&& final(self)@ == old(self)@.sent(
                    event_payload(old(self)@.settings, *event, timestamp@, chain@),
                )
                &&& outcome == SendOutcome::Accepted <==> old(self)@.accepts(
                    event_payload(old(self)@.settings, *event, timestamp@, chain@),
                )
            },
    {
        if self.policy == FaultPolicy::Strict {
            match find_fault(chain) {
                Some(at) => {
                    return Err(MalformedContext { frame: at });
                },
                None => {},
            }
        }
        Ok(self.send_event_at(event, chain, timestamp))
    }

    /// Takes an event: writes it with the time of the call and hands it to
    /// the mailbox. The caller never waits, and learns of a dropped event
    /// only from the outcome.
    pub fn on_event(&mut self, event: &Event, chain: &Vec<Frame>) -> (r: Result<
        SendOutcome,
        MalformedContext,
    >)
        ensures
            r is Err <==> chain_refused(chain@, old(self)@.settings.policy),
            r matches Err(e) ==> first_fault(chain@, e.frame as int) && final(self)@ == old(self)@,
            r matches Ok(outcome) ==> {
                exists|timestamp: Seq<char>|
                    {
                        &&& is_utc_stamp(timestamp)
                        &&& final(self)@ == old(self)@.sent(
                            #[trigger] event_payload(
                                old(self)@.settings,
                                *event,
                                timestamp,
                                chain@,
                            ),
                        )
                        &&& outcome == SendOutcome::Accepted <==> old(self)@.accepts(
                            event_payload(old(self)@.settings, *event, timestamp, chain@),
                        )
                    }
            },
    {
        let now = stamp();
        let r = self.on_event_at(event, chain, now.as_str());
        assert(r is Ok ==> self@ == old(self)@.sent(
            event_payload(old(self)@.settings, *event, now@, chain@),
        ));
        r
    }

    /// Logs a message with additional fields as it would be written at the
    /// given time. Every field is kept under its name behind an
    /// underscore, whatever its name.
    pub fn log_at(&mut self, level: Level, message: &str, fields: &Vec<Field>, timestamp: &str) -> (r:
        SendOutcome)
        ensures
            final(self)@ == old(self)@.sent(
                message_payload(old(self)@.settings, level, message@, fields@, timestamp@),
            ),
            r == SendOutcome::Accepted <==> old(self)@.accepts(
                message_payload(old(self)@.settings, level, message@, fields@, timestamp@),
            ),
    {
        let mut record = self.record();
        record.set_origin(level, None, None, None, None);
        record.set_message(message);
        let record = record_fields(record, fields);
        let frames: Vec<String> = Vec::new();
        assert(frames@.map_values(|s: String| s@) =~= Seq::<Seq<char>>::empty());
        self.send(fit_record(&record, timestamp, &frames))
    }

    /// Logs a message with additional fields. The caller never waits and
    /// is told nothing: a message that finds the mailbox full is lost.
    pub fn log(&mut self, level: Level, message: &str, fields: &Vec<Field>)
        ensures
            exists|timestamp: Seq<char>|
                is_utc_stamp(timestamp) && final(self)@ == old(self)@.sent(
                    #[trigger] message_payload(
                        old(self)@.settings,
                        level,
                        message@,
                        fields@,
                        timestamp,
                    ),
                ),
    {
        let now = stamp();
        let _ = self.log_at(level, message, fields, now.as_str());
        assert(self@ == old(self)@.sent(
            message_payload(old(self)@.settings, level, message@, fields@, now@),
        ));
    }

    /// The number of payloads that wait in the mailbox; never more than
    /// its capacity.
    pub fn queued(&self) -> (r: usize)
        ensures
            r == self@.mailbox.queue.len(),
            r <= self@.mailbox.capacity,
    {
        self.sender.len()
    }

    /// Lets the shipper look into the mailbox for the payload to send next.
    pub fn ship(&mut self, shipper: &mut Shipper) -> (action: Option<Action>)
        ensures
            final(self)@.settings == old(self)@.settings,
            (final(shipper)@, final(self)@.mailbox, action_view(action)) == polled(
                old(shipper)@,
                old(self)@.mailbox,
            ),
    {
        proof {
            use_type_invariant(&*self);
        }
        let mut sender = Mailbox::vacant();
        std::mem::swap(&mut self.sender, &mut sender);
        let action = shipper.poll(&mut sender);
        std::mem::swap(&mut self.sender, &mut sender);
        action
    }

    /// Shuts the pipeline down: from now on every event is dropped, and the
    /// shipper stops once it has sent what waits.
    pub fn close(&mut self)
        ensures
            final(self)@ == (LoggerView { mailbox: old(self)@.mailbox.shut(), ..old(self)@ }),
    {
        proof {
            use_type_invariant(&*self);
        }
        let mut sender = Mailbox::vacant();
        std::mem::swap(&mut self.sender, &mut sender);
        sender.close();
        proof {
            use_type_invariant(&sender);
        }
        std::mem::swap(&mut self.sender, &mut sender);
    }
}

/// The pipeline for the given environment: in `production` a logger for
/// the facility that ships to `127.0.0.1:5005`, with its background task;
/// anywhere else none.
pub fn from_config(environment: &str, facility: &str) -> (r: Option<(Logger, BackgroundTask)>)
    ensures
        r is Some <==> environment@ == "production"@,
        r matches Some(pair) ==> {
            &&& pair.0@.settings == (Settings {
                facility: facility@,
                environment: Some(environment@),
                ..default_settings()
            })
            &&& pair.0@.mailbox == (MailboxView {
                capacity: DEFAULT_BUFFER as nat,
                queue: Seq::empty(),
                closed: false,
            })
            &&& pair.1.address@ == "127.0.0.1:5005"@
            &&& pair.1.shipper@.phase == Phase::Resolving
        },
{
    if same_text(environment, "production") {
        let built = Logger::builder().facility(facility).environment(environment).connect_udp(
            String::from_str("127.0.0.1:5005"),
        );
        match built {
            Ok(pair) => Some(pair),
            Err(_) => None,
        }
    } else {
        None
    }
}

} // verus!
