//! An event as the layer that emits it hands it over: its level, where it
//! came from, and its fields in the order in which they were given.

use vstd::prelude::*;
use crate::json::FieldValue;
use crate::level::Level;
use crate::vinted_udp_logger::visitor::{
    lemma_with_additional_wf, lemma_with_value_wf, with_additional, with_value,
    AdditionalFieldVisitor,
};
use crate::vinted_udp_logger::{additional_key, optional_view, LogRecord, RecordView};

verus! {

/// One field with a typed value.
#[derive(Clone, Debug)]
pub struct Field {
    pub name: String,
    pub value: FieldValue,
}

/// An event.
#[derive(Clone, Debug)]
pub struct Event {
    pub level: Level,
    pub target: Option<String>,
    pub module: Option<String>,
    pub file: Option<String>,
    pub line: Option<u32>,
    /// The fields, in the order in which they are to be recorded. A field
    /// called `message` whose value is a string is the event's message.
    pub fields: Vec<Field>,
}

/// The record after the fields have been recorded one after the other.
pub open spec fn with_fields(record: RecordView, fields: Seq<Field>) -> RecordView
    decreases fields.len(),
{
    if fields.len() == 0 {
        record
    } else {
        with_value(with_fields(record, fields.drop_last()), fields.last().name@, fields.last().value)
    }
}

/// The record after the typed fields have been recorded one after the
/// other, each of them as an additional field.
pub open spec fn with_additionals(record: RecordView, fields: Seq<Field>) -> RecordView
    decreases fields.len(),
{
    if fields.len() == 0 {
        record
    } else {
        with_additional(
            with_additionals(record, fields.drop_last()),
            fields.last().name@,
            crate::json::value_text(fields.last().value),
        )
    }
}

/// The record of an event: level and source location are the event's, then
/// its fields are recorded in order. Identity and the additional fields
/// that `record` holds already stay, unless a field of the event takes the
/// key of one.
pub open spec fn with_event(record: RecordView, event: Event) -> RecordView {
    with_fields(
        RecordView {
            level: event.level,
            target: optional_view(event.target),
            module: optional_view(event.module),
            file: optional_view(event.file),
            line: event.line,
            ..record
        },
        event.fields@,
    )
}

/// A copy of an optional text.
pub fn copy_text(text: &Option<String>) -> (r: Option<String>)
    ensures
        optional_view(r) == optional_view(*text),
{
    match text {
        Some(t) => Some(t.clone()),
        None => None,
    }
}

/// A copy of a field value.
pub fn copy_value(value: &FieldValue) -> (r: FieldValue)
    ensures
        crate::json::value_text(r) == crate::json::value_text(*value),
        r == *value,
{
    match value {
        FieldValue::Text(s) => FieldValue::Text(s.clone()),
        FieldValue::Number(n) => FieldValue::Number(*n),
        FieldValue::Bool(b) => FieldValue::Bool(*b),
        FieldValue::Null => FieldValue::Null,
        FieldValue::Other(s) => FieldValue::Other(s.clone()),
    }
}

/// Makes the record of an event out of a record that holds the identity.
pub fn record_event(record: LogRecord, event: &Event) -> (r: LogRecord)
    ensures
        r@ == with_event(record@, *event),
{
    let mut record = record;
    record.set_origin(
        event.level,
        copy_text(&event.target),
        copy_text(&event.module),
        copy_text(&event.file),
        event.line,
    );
    let mut visitor = AdditionalFieldVisitor::new(record);
    let mut i: usize = 0;
    while i < event.fields.len()
        invariant
            i <= event.fields.len(),
            visitor@ == with_fields(
                RecordView {
                    level: event.level,
                    target: optional_view(event.target),
                    module: optional_view(event.module),
                    file: optional_view(event.file),
                    line: event.line,
                    ..record@
                },
                event.fields@.take(i as int),
            ),
        decreases event.fields.len() - i,
    {
        proof {
            assert(event.fields@.take(i + 1).drop_last() == event.fields@.take(i as int));
        }
        visitor.record(event.fields[i].name.as_str(), copy_value(&event.fields[i].value));
        i = i + 1;
    }
    proof {
        assert(event.fields@.take(i as int) == event.fields@);
    }
    visitor.finish()
}

/// Records typed fields into a record, each of them as an additional
/// field.
pub fn record_fields(record: LogRecord, fields: &Vec<Field>) -> (r: LogRecord)
    ensures
        r@ == with_additionals(record@, fields@),
{
    let mut visitor = AdditionalFieldVisitor::new(record);
    let mut i: usize = 0;
    while i < fields.len()
        invariant
            i <= fields.len(),
            visitor@ == with_additionals(record@, fields@.take(i as int)),
        decreases fields.len() - i,
    {
        proof {
            assert(fields@.take(i + 1).drop_last() == fields@.take(i as int));
        }
        visitor.record_additional_value(fields[i].name.as_str(), copy_value(&fields[i].value));
        i = i + 1;
    }
    proof {
        assert(fields@.take(i as int) == fields@);
    }
    visitor.finish()
}

/// A record stays well formed when fields are recorded.
pub proof fn lemma_with_fields_wf(record: RecordView, fields: Seq<Field>)
    requires
        record.wf(),
    ensures
        with_fields(record, fields).wf(),
    decreases fields.len(),
{
    if fields.len() > 0 {
        lemma_with_fields_wf(record, fields.drop_last());
        lemma_with_value_wf(
            with_fields(record, fields.drop_last()),
            fields.last().name@,
            fields.last().value,
        );
    }
}

/// A record stays well formed when typed fields are recorded, and its own
/// parts stay what they are: typed fields are additional fields, whatever
/// their names.
pub proof fn lemma_with_additionals(record: RecordView, fields: Seq<Field>)
    requires
        record.wf(),
    ensures
        with_additionals(record, fields).wf(),
        with_additionals(record, fields) == (RecordView {
            additional: with_additionals(record, fields).additional,
            ..record
        }),
    decreases fields.len(),
{
    if fields.len() > 0 {
        lemma_with_additionals(record, fields.drop_last());
        lemma_with_additional_wf(
            with_additionals(record, fields.drop_last()),
            fields.last().name@,
            crate::json::value_text(fields.last().value),
        );
    }
}

/// The record of an event is well formed.
pub proof fn lemma_with_event_wf(record: RecordView, event: Event)
    requires
        record.wf(),
    ensures
        with_event(record, event).wf(),
{
    lemma_with_fields_wf(
        RecordView {
            level: event.level,
            target: optional_view(event.target),
            module: optional_view(event.module),
            file: optional_view(event.file),
            line: event.line,
            ..record
        },
        event.fields@,
    );
}

/// Two names that give the same key are the same name.
pub proof fn lemma_additional_key_is_one_to_one(first: Seq<char>, second: Seq<char>)
    requires
        additional_key(first) == additional_key(second),
    ensures
        first == second,
{
    reveal_strlit("_");
    assert(first =~= additional_key(first).skip(1));
    assert(second =~= additional_key(second).skip(1));
}

/// A typed field that is recorded is found under its name behind an
/// underscore, with its value, unless a later field of the same name has
/// taken its place.
pub proof fn lemma_logged_field_is_found(record: RecordView, fields: Seq<Field>, at: int)
    requires
        0 <= at < fields.len(),
        forall|j: int| at < j < fields.len() ==> (#[trigger] fields[j]).name@ != fields[at].name@,
    ensures
        with_additionals(record, fields).additional.contains_key(additional_key(fields[at].name@)),
        with_additionals(record, fields).additional[additional_key(fields[at].name@)]
            == crate::json::value_text(fields[at].value),
    decreases fields.len(),
{
    if at < fields.len() - 1 {
        let front = fields.drop_last();
        assert forall|j: int| at < j < front.len() implies (#[trigger] front[j]).name@
            != front[at].name@ by {
            assert(front[j] == fields[j]);
        }
        lemma_logged_field_is_found(record, front, at);
        assert(fields.last() == fields[fields.len() - 1]);
        if additional_key(fields.last().name@) == additional_key(fields[at].name@) {
            lemma_additional_key_is_one_to_one(fields.last().name@, fields[at].name@);
        }
    }
}

} // verus!
