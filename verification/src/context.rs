//! The context chain of an event: the frames that were active when it
//! fired, each with a name and a stored buffer of fields.
//!
//! A buffer is meant to hold one JSON object. One that does not is a fault:
//! under the strict policy the chain is refused, under the lenient policy the
//! frame is written with a `field_error` marker and the buffer itself.

use vstd::prelude::*;
use crate::json::{
    object_entries, object_list, object_text, quote, quoted, render_object, Member, members_view,
};

verus! {

/// What to do with a frame whose stored fields are not a JSON object.
#[derive(Clone, Copy, Debug, PartialEq, Eq, Structural)]
pub enum FaultPolicy {
    /// The fault is fatal: the frame is not written, and the caller aborts.
    Strict,
    /// Write the frame with a `field_error` marker and go on.
    Lenient,
}

/// One frame of the context chain.
#[derive(Clone, Debug)]
pub struct Frame {
    /// The name of the unit of work.
    pub name: String,
    /// The fields that were recorded for it, as stored text.
    pub fields: String,
}

/// A stored buffer after parsing.
#[derive(Clone, Debug)]
pub enum Decoded {
    /// The buffer holds one JSON object.
    Object(serde_json::Map<String, serde_json::Value>),
    /// The buffer holds JSON, but not an object; the text is that value,
    /// written compactly.
    Other(String),
    /// The buffer does not hold JSON; the text is the parser's message.
    Invalid(String),
}

/// The model of a parsed buffer.
pub enum DecodedView {
    /// The members of the object, in the order in which it is walked.
    Object(Seq<(Seq<char>, Seq<char>)>),
    Other(Seq<char>),
    Invalid(Seq<char>),
}

impl View for Decoded {
    type V = DecodedView;

    open spec fn view(&self) -> DecodedView {
        match *self {
            Decoded::Object(object) => DecodedView::Object(object_list(object)),
            Decoded::Other(text) => DecodedView::Other(text@),
            Decoded::Invalid(message) => DecodedView::Invalid(message@),
        }
    }
}

/// What parsing makes of a buffer: `serde_json::from_str` on its text.
pub uninterp spec fn decoded(buffer: Seq<char>) -> DecodedView;

/// The buffer is a fault: it does not hold one JSON object.
pub open spec fn is_fault(d: DecodedView) -> bool {
    !(d is Object)
}

/// The marker text for a buffer that is JSON but no object.
pub open spec fn not_an_object() -> Seq<char> {
    "field was no a valid object"@
}

/// The members of the object written for a frame.
///
/// A frame without fault has the members of its buffer, then its name. A
/// faulty frame has `field`, the offending value (for a buffer that is not
/// JSON at all, the buffer as a string), then `field_error` with the reason,
/// then its name.
pub open spec fn frame_members(name: Seq<char>, buffer: Seq<char>, d: DecodedView) -> Seq<
    (Seq<char>, Seq<char>),
> {
    match d {
        DecodedView::Object(members) => members.push(("name"@, quoted(name))),
        DecodedView::Other(text) => seq![
            ("field"@, text),
            ("field_error"@, quoted(not_an_object())),
            ("name"@, quoted(name)),
        ],
        DecodedView::Invalid(message) => seq![
            ("field"@, quoted(buffer)),
            ("field_error"@, quoted(message)),
            ("name"@, quoted(name)),
        ],
    }
}

/// The JSON text of a frame.
pub open spec fn frame_text(name: Seq<char>, buffer: Seq<char>, d: DecodedView) -> Seq<char> {
    object_text(frame_members(name, buffer, d))
}

/// The JSON text of a frame, its buffer parsed.
pub open spec fn frame_json(frame: Frame) -> Seq<char> {
    frame_text(frame.name@, frame.fields@, decoded(frame.fields@))
}

/// The JSON texts of the frames of a chain, in their order.
pub open spec fn chain_texts(chain: Seq<Frame>) -> Seq<Seq<char>> {
    chain.map_values(|f: Frame| frame_json(f))
}

/// Some frame of the chain is faulty.
pub open spec fn chain_has_fault(chain: Seq<Frame>) -> bool {
    exists|i: int| 0 <= i < chain.len() && is_fault(decoded(#[trigger] chain[i].fields@))
}

/// The chain is refused: the policy is strict and a frame is faulty.
pub open spec fn chain_refused(chain: Seq<Frame>, policy: FaultPolicy) -> bool {
    policy == FaultPolicy::Strict && chain_has_fault(chain)
}

/// The frame at `at` is faulty and none before it is.
pub open spec fn first_fault(chain: Seq<Frame>, at: int) -> bool {
    &&& 0 <= at < chain.len()
    &&& is_fault(decoded(chain[at].fields@))
    &&& forall|j: int| 0 <= j < at ==> !is_fault(decoded(#[trigger] chain[j].fields@))
}

/// Why a chain was refused.
#[derive(Clone, Copy, Debug, PartialEq, Eq, Structural)]
pub struct MalformedContext {
    /// The position of the first faulty frame in the chain.
    pub frame: usize,
}

/// Calls `serde_json::from_str` for a `Value` and tells the three outcomes
/// apart. Assumed: the outcome is a function of the text alone; an object
/// comes back as it is, another value and the parser's error as
/// `serde_json`'s `Display` writes them.
#[verifier::external_body]
pub(crate) fn decode(buffer: &str) -> (r: Decoded)
    ensures
        r@ == decoded(buffer@),
{
    match serde_json::from_str::<serde_json::Value>(buffer) {
        Ok(serde_json::Value::Object(object)) => Decoded::Object(object),
        Ok(other) => Decoded::Other(other.to_string()),
        Err(error) => Decoded::Invalid(error.to_string()),
    }
}

/// Whether a parsed buffer is a fault.
pub fn faulty(d: &Decoded) -> (r: bool)
    ensures
        r == is_fault(d@),
{
    match d {
        Decoded::Object(_) => false,
        _ => true,
    }
}

/// Writes a frame whose buffer has been parsed to `d`.
pub fn render_frame(name: &str, buffer: &str, d: &Decoded) -> (r: String)
    ensures
        r@ == frame_text(name@, buffer@, d@),
{
    let mut members: Vec<Member> = match d {
        Decoded::Object(object) => object_entries(object),
        Decoded::Other(text) => {
            let mut members: Vec<Member> = Vec::new();
            members.push(Member { key: String::from_str("field"), text: text.clone() });
            members.push(
                Member {
                    key: String::from_str("field_error"),
                    text: quote("field was no a valid object"),
                },
            );
            members
        },
        Decoded::Invalid(message) => {
            let mut members: Vec<Member> = Vec::new();
            members.push(Member { key: String::from_str("field"), text: quote(buffer) });
            members.push(
                Member { key: String::from_str("field_error"), text: quote(message.as_str()) },
            );
            members
        },
    };
    members.push(Member { key: String::from_str("name"), text: quote(name) });
    proof {
        assert(members_view(members@) =~= frame_members(name@, buffer@, d@));
    }
    render_object(&members)
}

/// The frame is refused: the policy is strict and its buffer is a fault.
pub open spec fn frame_refused(frame: Frame, policy: FaultPolicy) -> bool {
    policy == FaultPolicy::Strict && is_fault(decoded(frame.fields@))
}

/// Parses the buffer of a frame and writes the frame.
///
/// Under the strict policy a faulty buffer is fatal: such a frame is not
/// to be handed in. `encode_frame` tests for it first.
pub fn write_frame(frame: &Frame, policy: FaultPolicy) -> (text: String)
    requires
        !frame_refused(*frame, policy),
    ensures
        text@ == frame_json(*frame),
{
    let d = decode(frame.fields.as_str());
    render_frame(frame.name.as_str(), frame.fields.as_str(), &d)
}

/// Writes every frame of a chain, in order.
///
/// Under the strict policy a faulty buffer is fatal: a chain that holds
/// one is not to be handed in. `encode_chain` tests for it first.
pub fn write_chain(chain: &Vec<Frame>, policy: FaultPolicy) -> (texts: Vec<String>)
    requires
        !chain_refused(chain@, policy),
    ensures
        texts@.map_values(|s: String| s@) == chain_texts(chain@),
{
    let mut texts: Vec<String> = Vec::new();
    let mut i: usize = 0;
    while i < chain.len()
        invariant
            i <= chain.len(),
            !chain_refused(chain@, policy),
            texts@.len() == i,
            forall|j: int| 0 <= j < i ==> (#[trigger] texts@[j])@ == frame_json(chain@[j]),
        decreases chain.len() - i,
    {
        assert(!is_fault(decoded(chain@[i as int].fields@)) || policy != FaultPolicy::Strict);
        texts.push(write_frame(&chain[i], policy));
        i = i + 1;
    }
    proof {
        assert(texts@.map_values(|s: String| s@) =~= chain_texts(chain@));
    }
    texts
}

/// Whether the buffer of a frame is a fault.
pub fn frame_is_faulty(frame: &Frame) -> (r: bool)
    ensures
        r == is_fault(decoded(frame.fields@)),
{
    faulty(&decode(frame.fields.as_str()))
}

/// Writes a frame, unless the policy is strict and its buffer is a fault.
pub fn encode_frame(frame: &Frame, policy: FaultPolicy) -> (r: Option<String>)
    ensures
        r is None <==> frame_refused(*frame, policy),
        r matches Some(text) ==> text@ == frame_json(*frame),
{
    if policy == FaultPolicy::Strict && frame_is_faulty(frame) {
        None
    } else {
        Some(write_frame(frame, policy))
    }
}

/// The position of the first faulty frame of a chain, if there is one.
pub fn find_fault(chain: &Vec<Frame>) -> (r: Option<usize>)
    ensures
        r is Some <==> chain_has_fault(chain@),
        r matches Some(at) ==> first_fault(chain@, at as int),
{
    let mut i: usize = 0;
    while i < chain.len()
        invariant
            i <= chain.len(),
            forall|j: int| 0 <= j < i ==> !is_fault(decoded(#[trigger] chain@[j].fields@)),
        decreases chain.len() - i,
    {
        if frame_is_faulty(&chain[i]) {
            return Some(i);
        }
        i = i + 1;
    }
    None
}

/// Writes every frame of a chain, in order.
///
/// Under the lenient policy this always succeeds. Under the strict policy
/// it fails where a frame is faulty and names the first such frame.
pub fn encode_chain(chain: &Vec<Frame>, policy: FaultPolicy) -> (r: Result<
    Vec<String>,
    MalformedContext,
>)
    ensures
        r is Err <==> chain_refused(chain@, policy),
        r matches Ok(texts) ==> texts@.map_values(|s: String| s@) == chain_texts(chain@),
        r matches Err(e) ==> first_fault(chain@, e.frame as int),
{
    if policy == FaultPolicy::Strict {
        match find_fault(chain) {
            Some(at) => {
                return Err(MalformedContext { frame: at });
            },
            None => {},
        }
    }
    Ok(write_chain(chain, policy))
}

/// A faulty frame is written with a `field_error` member, whatever the
/// fault: it stands second, after the offending value and before the name.
pub proof fn lemma_fault_is_marked(name: Seq<char>, buffer: Seq<char>, d: DecodedView)
    requires
        is_fault(d),
    ensures
        frame_members(name, buffer, d).len() == 3,
        frame_members(name, buffer, d)[0].0 == "field"@,
        frame_members(name, buffer, d)[1].0 == "field_error"@,
        frame_members(name, buffer, d)[2] == ("name"@, quoted(name)),
{
}

/// A chain with a faulty frame is refused under the strict policy. Under
/// the lenient policy it is written, and the text of the faulty frame is an
/// object whose second member is the marker `field_error`.
pub proof fn lemma_faulty_frame_is_written(chain: Seq<Frame>, at: int)
    requires
        0 <= at < chain.len(),
        is_fault(decoded(chain[at].fields@)),
    ensures
        chain_refused(chain, FaultPolicy::Strict),
        !chain_refused(chain, FaultPolicy::Lenient),
        chain_texts(chain)[at] == object_text(
            frame_members(chain[at].name@, chain[at].fields@, decoded(chain[at].fields@)),
        ),
        frame_members(chain[at].name@, chain[at].fields@, decoded(chain[at].fields@))[1].0
            == "field_error"@,
{
}

/// Under the lenient policy no chain is refused.
pub proof fn lemma_lenient_never_refuses(chain: Seq<Frame>)
    ensures
        !chain_refused(chain, FaultPolicy::Lenient),
{
}

} // verus!
