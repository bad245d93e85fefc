//! Recording the fields of an event into a record.
//!
//! Four names are the record's own: a field called `target`, `module`,
//! `file` or `message` fills that part of the record, if the part is still
//! empty. Every other field is an additional field and is kept under its
//! name behind an underscore, so that it never stands where a key of the
//! record stands. That holds also of a field whose part is filled already:
//! what the record holds is not overridden.

use vstd::prelude::*;
use crate::json::{
    lemma_object_list, object_insert, object_new, quoted, same_text, value_text, FieldValue,
};
use crate::order::lemma_insert_keeps_order;
use crate::vinted_udp_logger::{additional_key, LogRecord, RecordView};

verus! {

/// The name is one of the four that name a part of the record itself.
pub open spec fn is_record_part(name: Seq<char>) -> bool {
    name == "target"@ || name == "module"@ || name == "file"@ || name == "message"@
}

/// The name is that of a part of the record which is still empty.
pub open spec fn fills_part(record: RecordView, name: Seq<char>) -> bool {
    if name == "target"@ {
        record.target is None
    } else if name == "module"@ {
        record.module is None
    } else if name == "file"@ {
        record.file is None
    } else if name == "message"@ {
        record.message is None
    } else {
        false
    }
}

/// The record after the part called `name` has been filled with `value`;
/// the record itself where the name is that of no part, or of a part that
/// is filled already.
pub open spec fn with_part(record: RecordView, name: Seq<char>, value: Seq<char>) -> RecordView {
    if !fills_part(record, name) {
        record
    } else if name == "target"@ {
        RecordView { target: Some(value), ..record }
    } else if name == "module"@ {
        RecordView { module: Some(value), ..record }
    } else if name == "file"@ {
        RecordView { file: Some(value), ..record }
    } else {
        RecordView { message: Some(value), ..record }
    }
}

/// The record with one more additional field: the key of `name` holds
/// `text`, whatever it held before.
pub open spec fn with_additional(record: RecordView, name: Seq<char>, text: Seq<char>) -> RecordView {
    RecordView { additional: record.additional.insert(additional_key(name), text), ..record }
}

/// The record after the field `name` has been recorded with the string
/// `value`: the field fills the part that it names, if that is empty, and
/// is an additional field otherwise.
pub open spec fn with_field(record: RecordView, name: Seq<char>, value: Seq<char>) -> RecordView {
    if fills_part(record, name) {
        with_part(record, name, value)
    } else {
        with_additional(record, name, quoted(value))
    }
}

/// The record after the field `name` has been recorded with a typed
/// value: a string fills the part that the field names, if that is empty;
/// anything else is an additional field and keeps its type.
pub open spec fn with_value(record: RecordView, name: Seq<char>, value: FieldValue) -> RecordView {
    match value {
        FieldValue::Text(text) => with_field(record, name, text@),
        _ => with_additional(record, name, value_text(value)),
    }
}

/// A record stays well formed when an additional field is recorded.
pub proof fn lemma_with_additional_wf(record: RecordView, name: Seq<char>, text: Seq<char>)
    requires
        record.wf(),
    ensures
        with_additional(record, name, text).wf(),
{
    reveal_strlit("_");
    assert(additional_key(name)[0] == '_');
    lemma_insert_keeps_order(record.additional, additional_key(name), text);
}

/// A record stays well formed when a field is recorded.
pub proof fn lemma_with_field_wf(record: RecordView, name: Seq<char>, value: Seq<char>)
    requires
        record.wf(),
    ensures
        with_field(record, name, value).wf(),
{
    if !fills_part(record, name) {
        lemma_with_additional_wf(record, name, quoted(value));
    }
}

/// A record stays well formed when a typed field is recorded.
pub proof fn lemma_with_value_wf(record: RecordView, name: Seq<char>, value: FieldValue)
    requires
        record.wf(),
    ensures
        with_value(record, name, value).wf(),
{
    match value {
        FieldValue::Text(text) => lemma_with_field_wf(record, name, text@),
        _ => lemma_with_additional_wf(record, name, value_text(value)),
    }
}

/// The names `level`, `timestamp`, `@timestamp`, `host`, `facility` and
/// `environment` are none of the four that name a part of the record: a
/// field of such a name is an additional field, whatever the record
/// holds.
pub proof fn lemma_identity_names_are_additional()
    ensures
        !is_record_part("level"@),
        !is_record_part("timestamp"@),
        !is_record_part("@timestamp"@),
        !is_record_part("host"@),
        !is_record_part("facility"@),
        !is_record_part("environment"@),
{
    reveal_strlit("target");
    reveal_strlit("module");
    reveal_strlit("file");
    reveal_strlit("message");
    reveal_strlit("level");
    reveal_strlit("timestamp");
    reveal_strlit("@timestamp");
    reveal_strlit("host");
    reveal_strlit("facility");
    reveal_strlit("environment");
    assert("target"@.len() == 6 && "module"@.len() == 6 && "file"@.len() == 4 && "message"@.len()
        == 7);
    assert("level"@.len() == 5);
    assert("timestamp"@.len() == 9);
    assert("@timestamp"@.len() == 10);
    assert("facility"@.len() == 8);
    assert("environment"@.len() == 11);
    assert("host"@[0] == 'h' && "file"@[0] == 'f');
}

/// Only a field of one of the four names fills a part of the record.
pub proof fn lemma_only_parts_are_filled(record: RecordView, name: Seq<char>)
    requires
        fills_part(record, name),
    ensures
        is_record_part(name),
{
}

/// A field does not override what the record holds. Unless it fills a part
/// that was empty, it leaves the record's own parts as they are, whatever
/// its name, and is found among the additional fields, under its name
/// behind an underscore.
pub proof fn lemma_field_is_kept_apart(record: RecordView, name: Seq<char>, value: Seq<char>)
    requires
        !fills_part(record, name),
    ensures
        ({
            let after = with_field(record, name, value);
            &&& after.additional.contains_key(additional_key(name))
            &&& after.additional[additional_key(name)] == quoted(value)
            &&& after.level == record.level
            &&& after.message == record.message
            &&& after.facility == record.facility
            &&& after.environment == record.environment
            &&& after.host == record.host
            &&& after.target == record.target
            &&& after.module == record.module
            &&& after.file == record.file
            &&& after.line == record.line
        }),
{
}

/// Fills a record from the fields of an event, one call for each field.
#[derive(Debug)]
pub struct AdditionalFieldVisitor {
    object: LogRecord,
}

impl View for AdditionalFieldVisitor {
    type V = RecordView;

    closed spec fn view(&self) -> RecordView {
        self.object@
    }
}

impl AdditionalFieldVisitor {
    /// A visitor that records into `object`.
    pub fn new(object: LogRecord) -> (r: Self)
        ensures
            r@ == object@,
    {
        AdditionalFieldVisitor { object }
    }

    /// The record, with what has been recorded.
    pub fn finish(self) -> (r: LogRecord)
        ensures
            r@ == self@,
    {
        self.object
    }

    /// Records an additional field under its name behind an underscore.
    pub fn record_additional_value(&mut self, field: &str, value: FieldValue)
        ensures
            final(self)@ == with_additional(old(self)@, field@, value_text(value)),
    {
        proof {
            use_type_invariant(&self.object);
            reveal_strlit("_");
        }
        let new_key = String::from_str("_").concat(field);
        assert(new_key@[0] == '_');
        let mut fields = object_new();
        proof {
            lemma_object_list(fields);
        }
        std::mem::swap(&mut self.object.fields, &mut fields);
        object_insert(&mut fields, new_key, value);
        proof {
            lemma_object_list(fields);
        }
        std::mem::swap(&mut self.object.fields, &mut fields);
    }

    /// Fills the part of the record that `field` names, if it names one
    /// and the part is empty, and says whether it did. Otherwise the record
    /// stays as it is.
    pub fn record_value(&mut self, field: &str, value: &str) -> (filled: bool)
        ensures
            filled == fills_part(old(self)@, field@),
            final(self)@ == with_part(old(self)@, field@, value@),
    {
        proof {
            use_type_invariant(&self.object);
        }
        if same_text(field, "target") {
            if self.object.target.is_none() {
                self.object.target = Some(String::from_str(value));
                return true;
            }
        } else if same_text(field, "module") {
            if self.object.module.is_none() {
                self.object.module = Some(String::from_str(value));
                return true;
            }
        } else if same_text(field, "file") {
            if self.object.file.is_none() {
                self.object.file = Some(String::from_str(value));
                return true;
            }
        } else if same_text(field, "message") {
            if self.object.message.is_none() {
                self.object.message = Some(String::from_str(value));
                return true;
            }
        }
        false
    }

    /// Records a field whose value is a string.
    pub fn record_str(&mut self, field: &str, value: &str)
        ensures
            final(self)@ == with_field(old(self)@, field@, value@),
    {
        if !self.record_value(field, value) {
            self.record_additional_value(field, FieldValue::Text(String::from_str(value)));
        }
    }

    /// Records a field with a typed value.
    pub fn record(&mut self, field: &str, value: FieldValue)
        ensures
            final(self)@ == with_value(old(self)@, field@, value),
    {
        match value {
            FieldValue::Text(text) => self.record_str(field, text.as_str()),
            other => self.record_additional_value(field, other),
        }
    }

    /// Records a field whose value is known only by how it prints: `text`
    /// is what the caller's formatting of the value gave, and the field is
    /// recorded as that string.
    pub fn record_debug(&mut self, field: &str, text: &str)
        ensures
            final(self)@ == with_field(old(self)@, field@, text@),
    {
        self.record_str(field, text);
    }
}

} // verus!
