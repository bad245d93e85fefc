//! How long a written record can be: bounds on the length of JSON text by
//! the lengths of what it is made of, from which it follows that a small
//! record fits one datagram.

use vstd::prelude::*;
use vstd::utf8::encode_utf8;
use crate::context::{chain_texts, Frame};
use crate::event::{
    lemma_with_additionals, lemma_with_fields_wf, with_additionals, with_event, with_fields, Event,
    Field,
};
use crate::json::{
    array_text, decimal, decimal_nat, escaped, escaped_text, items_text, members_text,
    object_text, quoted, value_text, FieldValue,
};
use crate::level::Level;
use crate::shipper::MAX_DATAGRAM;
use crate::vinted_json_formatter::{
    context_members, heading_members, is_utc_stamp, line_member, optional_member,
    origin_members, record_members, record_text,
};
use crate::vinted_udp_logger::visitor::{fills_part, with_additional, with_value};
use crate::vinted_udp_logger::{
    additional_key, event_payload, fitted, message_payload, optional_view, payload_of,
    written_message, LoggerView, RecordView, Settings,
};
use crate::order::{
    ascending, key_order, keys_wf, keys_with, lemma_ascending_is_distinct,
    lemma_insert_keeps_order, lemma_keys_with, members_list,
};

verus! {

/// A text has at least one byte and at most four bytes for each character.
pub proof fn lemma_utf8_len(text: Seq<char>)
    ensures
        text.len() <= encode_utf8(text).len() <= 4 * text.len(),
    decreases text.len(),
{
    if text.len() > 0 {
        lemma_utf8_len(text.drop_first());
    }
}

/// An escaped character has at least one and at most six characters.
pub proof fn lemma_escaped_len(c: char)
    ensures
        1 <= escaped(c).len() <= 6,
{
}

/// An escaped text has at least as many characters as the text and at most
/// six times as many.
pub proof fn lemma_escaped_text_len(text: Seq<char>)
    ensures
        text.len() <= escaped_text(text).len() <= 6 * text.len(),
    decreases text.len(),
{
    if text.len() > 0 {
        lemma_escaped_text_len(text.drop_last());
        lemma_escaped_len(text.last());
    }
}

/// A quoted text has the two quotes and, for each character of the text,
/// at least one and at most six characters.
pub proof fn lemma_quoted_len(text: Seq<char>)
    ensures
        text.len() + 2 <= quoted(text).len() <= 6 * text.len() + 2,
{
    lemma_escaped_text_len(text);
}

/// A bound on the length of one member with its comma: six characters for
/// each character of the key, the text of the value, and four for the
/// quotes, the colon and the comma.
pub open spec fn entry_len(member: (Seq<char>, Seq<char>)) -> nat {
    6 * member.0.len() + member.1.len() + 4
}

/// The sum of the bounds of the members.
pub open spec fn list_len(members: Seq<(Seq<char>, Seq<char>)>) -> nat
    decreases members.len(),
{
    if members.len() == 0 {
        0
    } else {
        list_len(members.drop_last()) + entry_len(members.last())
    }
}

/// The bound of members that follow one another is the sum of their
/// bounds.
pub proof fn lemma_list_len_joined(
    first: Seq<(Seq<char>, Seq<char>)>,
    second: Seq<(Seq<char>, Seq<char>)>,
)
    ensures
        list_len(first + second) == list_len(first) + list_len(second),
    decreases second.len(),
{
    if second.len() == 0 {
        assert(first + second =~= first);
    } else {
        lemma_list_len_joined(first, second.drop_last());
        assert((first + second).drop_last() =~= first + second.drop_last());
        assert((first + second).last() == second.last());
    }
}

/// The bound of one member.
pub proof fn lemma_list_len_one(member: (Seq<char>, Seq<char>))
    ensures
        list_len(seq![member]) == entry_len(member),
{
    assert(seq![member].drop_last() =~= Seq::<(Seq<char>, Seq<char>)>::empty());
    assert(list_len(seq![member].drop_last()) == 0);
}

/// The text of members is no longer than their bound.
pub proof fn lemma_members_text_len(members: Seq<(Seq<char>, Seq<char>)>)
    ensures
        members_text(members).len() <= list_len(members),
    decreases members.len(),
{
    reveal_strlit(":");
    reveal_strlit(",");
    if members.len() == 1 {
        lemma_quoted_len(members[0].0);
        assert(members.last() == members[0]);
    } else if members.len() > 1 {
        lemma_members_text_len(members.drop_last());
        lemma_quoted_len(members.last().0);
    }
}

/// The text of an object is no longer than the bound of its members and
/// the two braces.
pub proof fn lemma_object_text_len(members: Seq<(Seq<char>, Seq<char>)>)
    ensures
        object_text(members).len() <= list_len(members) + 2,
{
    reveal_strlit("{");
    reveal_strlit("}");
    lemma_members_text_len(members);
}

/// The sum of the lengths of the items, with one more for each item.
pub open spec fn items_len(items: Seq<Seq<char>>) -> nat
    decreases items.len(),
{
    if items.len() == 0 {
        0
    } else {
        items_len(items.drop_last()) + items.last().len() + 1
    }
}

/// The text of an array is no longer than its items, a comma for each, and
/// the two brackets; and no item is longer than all of them.
pub proof fn lemma_array_text_len(items: Seq<Seq<char>>)
    ensures
        items_text(items).len() <= items_len(items),
        array_text(items).len() <= items_len(items) + 2,
        items.len() > 0 ==> items.last().len() <= items_len(items),
    decreases items.len(),
{
    reveal_strlit(",");
    reveal_strlit("[");
    reveal_strlit("]");
    if items.len() == 1 {
        assert(items.last() == items[0]);
    } else if items.len() > 1 {
        lemma_array_text_len(items.drop_last());
    }
}

/// The members of a map under the given keys, in the order of the keys.
pub open spec fn entries(keys: Seq<Seq<char>>, members: Map<Seq<char>, Seq<char>>) -> Seq<
    (Seq<char>, Seq<char>),
> {
    Seq::new(keys.len(), |i: int| (keys[i], members[keys[i]]))
}

/// The bound of the members of a map as they are written.
pub open spec fn map_len(members: Map<Seq<char>, Seq<char>>) -> nat {
    list_len(members_list(members))
}

/// A member that is put into a map adds no more than its own bound to the
/// bound of the members under the given keys.
proof fn lemma_entries_with(
    keys: Seq<Seq<char>>,
    members: Map<Seq<char>, Seq<char>>,
    key: Seq<char>,
    text: Seq<char>,
)
    requires
        ascending(keys),
    ensures
        list_len(entries(keys_with(keys, key), members.insert(key, text))) <= list_len(
            entries(keys, members),
        ) + entry_len((key, text)),
    decreases keys.len(),
{
    let after = members.insert(key, text);
    let with = keys_with(keys, key);
    lemma_keys_with(keys, key);
    lemma_ascending_is_distinct(with);
    lemma_ascending_is_distinct(keys);
    if keys.len() == 0 {
        assert(entries(with, after) =~= seq![(key, text)]);
        lemma_list_len_one((key, text));
        assert(entries(keys, members) =~= Seq::<(Seq<char>, Seq<char>)>::empty());
    } else {
        let front = keys.drop_last();
        let last = keys.last();
        assert(ascending(front)) by {
            assert forall|i: int, j: int| 0 <= i < j < front.len() implies crate::order::text_before(
                #[trigger] front[i],
                #[trigger] front[j],
            ) by {
                assert(front[i] == keys[i] && front[j] == keys[j]);
            }
        }
        assert(entries(keys, members).drop_last() =~= entries(front, members));
        assert(entries(keys, members).last() == (last, members[last]));
        if last == key {
            assert(with == keys);
            lemma_entries_same(front, members, key, text);
            assert(entries(keys, after).drop_last() =~= entries(front, after));
            assert(entries(keys, after).last() == (key, text));
            assert(!front.contains(key)) by {
                if front.contains(key) {
                    let i = choose|i: int| 0 <= i < front.len() && front[i] == key;
                    assert(keys[i] == keys[keys.len() - 1]);
                }
            }
        } else if crate::order::text_before(last, key) {
            assert(with == keys.push(key));
            assert(!keys.contains(key)) by {
                if keys.contains(key) {
                    let i = choose|i: int| 0 <= i < keys.len() && keys[i] == key;
                    assert(with[i] == with[keys.len() as int]);
                }
            }
            lemma_entries_same(keys, members, key, text);
            assert(entries(with, after).drop_last() =~= entries(keys, after));
            assert(entries(with, after).last() == (key, text));
        } else {
            let inner = keys_with(front, key);
            assert(with == inner.push(last));
            lemma_entries_with(front, members, key, text);
            assert(entries(with, after).drop_last() =~= entries(inner, after));
            assert(entries(with, after).last() == (last, members[last]));
        }
    }
}

/// Members under keys that do not hold the key stay what they are when the
/// key is given a value.
proof fn lemma_entries_same(
    keys: Seq<Seq<char>>,
    members: Map<Seq<char>, Seq<char>>,
    key: Seq<char>,
    text: Seq<char>,
)
    requires
        !keys.contains(key),
    ensures
        entries(keys, members.insert(key, text)) == entries(keys, members),
{
    assert forall|i: int| 0 <= i < keys.len() implies keys[i] != key by {
        assert(keys.contains(keys[i]));
    }
    assert(entries(keys, members.insert(key, text)) =~= entries(keys, members));
}

/// A member that is put into a map adds no more than its own bound to the
/// bound of the map.
pub proof fn lemma_map_len_with(members: Map<Seq<char>, Seq<char>>, key: Seq<char>, text: Seq<char>)
    requires
        keys_wf(key_order(members), members),
    ensures
        map_len(members.insert(key, text)) <= map_len(members) + entry_len((key, text)),
{
    lemma_insert_keeps_order(members, key, text);
    lemma_entries_with(key_order(members), members, key, text);
    assert(members_list(members) =~= entries(key_order(members), members));
    assert(members_list(members.insert(key, text)) =~= entries(
        key_order(members.insert(key, text)),
        members.insert(key, text),
    ));
}

/// A map that holds nothing has the bound nought.
pub proof fn lemma_map_len_of_none()
    ensures
        map_len(crate::order::no_members()) == 0,
{
    crate::order::lemma_no_members_order();
    assert(members_list(crate::order::no_members()) =~= Seq::<(Seq<char>, Seq<char>)>::empty());
}

/// Ten to the power of `k`.
pub open spec fn power_of_ten(k: nat) -> nat
    decreases k,
{
    if k == 0 {
        1
    } else {
        10 * power_of_ten((k - 1) as nat)
    }
}

/// A number below ten to the power of `k` has at most `k` digits.
pub proof fn lemma_decimal_nat_len(n: nat, k: nat)
    requires
        k >= 1,
        n < power_of_ten(k),
    ensures
        1 <= decimal_nat(n).len() <= k,
    decreases k,
{
    reveal_strlit("0");
    reveal_strlit("1");
    reveal_strlit("2");
    reveal_strlit("3");
    reveal_strlit("4");
    reveal_strlit("5");
    reveal_strlit("6");
    reveal_strlit("7");
    reveal_strlit("8");
    reveal_strlit("9");
    assert(power_of_ten(1) == 10) by {
        reveal_with_fuel(power_of_ten, 2);
    }
    if n >= 10 {
        if k == 1 {
            assert(false);
        }
        lemma_decimal_nat_len(n / 10, (k - 1) as nat);
    }
}

/// A whole number of sixty-four bits has at most twenty characters, and a
/// line number at most ten.
pub proof fn lemma_decimal_len(n: int)
    requires
        -0x8000_0000_0000_0000 <= n <= 0xffff_ffff_ffff_ffff,
    ensures
        1 <= decimal(n).len() <= 20,
        0 <= n <= 0xffff_ffff ==> decimal_nat(n as nat).len() <= 10,
{
    reveal_strlit("-");
    assert(power_of_ten(10) == 10_000_000_000 && power_of_ten(19) == 10_000_000_000_000_000_000
        && power_of_ten(20) == 100_000_000_000_000_000_000) by {
        reveal_with_fuel(power_of_ten, 21);
    }
    if n < 0 {
        lemma_decimal_nat_len((-n) as nat, 19);
    } else {
        lemma_decimal_nat_len(n as nat, 20);
        if n <= 0xffff_ffff {
            lemma_decimal_nat_len(n as nat, 10);
        }
    }
}

/// The length of a text that may be absent.
pub open spec fn optional_len(text: Option<Seq<char>>) -> nat {
    match text {
        Some(t) => t.len(),
        None => 0,
    }
}

/// The lengths of the texts that a record itself holds.
pub open spec fn parts_len(record: RecordView) -> nat {
    record.facility.len() + optional_len(record.environment) + optional_len(record.message)
        + optional_len(record.target) + optional_len(record.module) + optional_len(record.file)
        + optional_len(record.host)
}

/// The weight of a record: six for each character of its own texts, and
/// the bound of its additional fields.
pub open spec fn record_weight(record: RecordView) -> nat {
    6 * parts_len(record) + map_len(record.additional)
}

/// The weight of the frames of a context chain, which are written twice
/// at most: all of them in `spans`, the last of them in `span`.
pub open spec fn frames_weight(frames: Seq<Seq<char>>) -> nat {
    2 * items_len(frames) + 2
}

/// One member that may be absent is no longer than its key and value
/// allow.
proof fn lemma_optional_member_len(key: Seq<char>, value: Option<Seq<char>>)
    ensures
        list_len(optional_member(key, value)) <= 6 * key.len() + 6 * optional_len(value) + 6,
{
    match value {
        Some(v) => {
            lemma_quoted_len(v);
            lemma_list_len_one((key, quoted(v)));
        },
        None => {},
    }
}

/// The members that open a record are no longer than their texts allow.
proof fn lemma_heading_len(record: RecordView, timestamp: Seq<char>)
    ensures
        list_len(heading_members(record, timestamp)) <= 310 + 6 * timestamp.len() + 6 * (
        record.facility.len() + optional_len(record.environment) + optional_len(record.message)),
{
    reveal_strlit("@timestamp");
    reveal_strlit("level");
    reveal_strlit("facility");
    reveal_strlit("environment");
    reveal_strlit("message");
    reveal_strlit("Trace");
    reveal_strlit("Debug");
    reveal_strlit("Info");
    reveal_strlit("Warn");
    reveal_strlit("Error");
    let stamp = ("@timestamp"@, quoted(timestamp));
    let level = ("level"@, quoted(record.level.name()));
    let facility = ("facility"@, quoted(record.facility));
    let environment = optional_member("environment"@, record.environment);
    let message = ("message"@, quoted(written_message(record.message)));
    lemma_quoted_len(timestamp);
    lemma_quoted_len(record.level.name());
    lemma_quoted_len(record.facility);
    lemma_quoted_len(written_message(record.message));
    lemma_optional_member_len("environment"@, record.environment);
    lemma_list_len_one(stamp);
    lemma_list_len_one(level);
    lemma_list_len_one(facility);
    lemma_list_len_one(message);
    assert(seq![stamp, level, facility] =~= seq![stamp] + seq![level] + seq![facility]);
    lemma_list_len_joined(seq![stamp], seq![level]);
    lemma_list_len_joined(seq![stamp] + seq![level], seq![facility]);
    lemma_list_len_joined(seq![stamp, level, facility], environment);
    lemma_list_len_joined(seq![stamp, level, facility] + environment, seq![message]);
}

/// The members that close a record are no longer than their texts allow.
proof fn lemma_origin_len(record: RecordView, frames: Seq<Seq<char>>)
    ensures
        list_len(origin_members(record, frames)) <= 250 + frames_weight(frames) + 6 * (optional_len(
            record.target,
        ) + optional_len(record.module) + optional_len(record.file) + optional_len(record.host)),
{
    reveal_strlit("target");
    reveal_strlit("spans");
    reveal_strlit("span");
    reveal_strlit("file");
    reveal_strlit("module");
    reveal_strlit("line");
    reveal_strlit("host");
    let target = optional_member("target"@, record.target);
    let context = context_members(frames);
    let file = optional_member("file"@, record.file);
    let module = optional_member("module"@, record.module);
    let line = line_member(record.line);
    let host = optional_member("host"@, record.host);
    lemma_optional_member_len("target"@, record.target);
    lemma_optional_member_len("file"@, record.file);
    lemma_optional_member_len("module"@, record.module);
    lemma_optional_member_len("host"@, record.host);
    assert(list_len(context) <= 64 + frames_weight(frames)) by {
        if frames.len() > 0 {
            lemma_array_text_len(frames);
            let spans = ("spans"@, array_text(frames));
            let span = ("span"@, frames.last());
            lemma_list_len_one(spans);
            lemma_list_len_one(span);
            assert(context =~= seq![spans] + seq![span]);
            lemma_list_len_joined(seq![spans], seq![span]);
        }
    }
    assert(list_len(line) <= 38) by {
        match record.line {
            Some(n) => {
                lemma_decimal_len(n as int);
                lemma_list_len_one(("line"@, decimal_nat(n as nat)));
            },
            None => {},
        }
    }
    lemma_list_len_joined(target, context);
    lemma_list_len_joined(target + context, file);
    lemma_list_len_joined(target + context + file, module);
    lemma_list_len_joined(target + context + file + module, line);
    lemma_list_len_joined(target + context + file + module + line, host);
}

/// A written record is no longer than its weight, six for each character
/// of the time stamp, the weight of its frames, and what the keys and the
/// marks between them take.
pub proof fn lemma_record_text_len(record: RecordView, timestamp: Seq<char>, frames: Seq<Seq<char>>)
    ensures
        record_text(record, timestamp, frames).len() <= 562 + 6 * timestamp.len() + record_weight(
            record,
        ) + frames_weight(frames),
{
    lemma_heading_len(record, timestamp);
    lemma_origin_len(record, frames);
    let heading = heading_members(record, timestamp);
    let additional = members_list(record.additional);
    let origin = origin_members(record, frames);
    lemma_list_len_joined(heading, additional);
    lemma_list_len_joined(heading + additional, origin);
    lemma_object_text_len(record_members(record, timestamp, frames));
}

/// A record whose weight is small fits one datagram whole, whatever the
/// time stamp: four bytes for each character of its text, and the byte
/// that ends the payload, are no more than a datagram holds.
pub proof fn lemma_small_record_fits(
    record: RecordView,
    timestamp: Seq<char>,
    frames: Seq<Seq<char>>,
)
    requires
        is_utc_stamp(timestamp),
        4 * (772 + record_weight(record) + frames_weight(frames)) + 1 <= MAX_DATAGRAM,
    ensures
        fitted(record, timestamp, frames) == Some(
            payload_of(record_text(record, timestamp, frames)),
        ),
{
    lemma_record_text_len(record, timestamp, frames);
    lemma_utf8_len(record_text(record, timestamp, frames));
}

/// The weight that a value adds to a record.
pub open spec fn value_weight(value: FieldValue) -> nat {
    match value {
        FieldValue::Text(s) => 6 * s@.len() + 2,
        FieldValue::Other(s) => 6 * s@.len() + 2,
        FieldValue::Number(_) => 20,
        FieldValue::Bool(_) => 5,
        FieldValue::Null => 4,
    }
}

/// The weight that a field adds to a record.
pub open spec fn field_weight(field: Field) -> nat {
    6 * field.name@.len() + value_weight(field.value) + 10
}

/// The weight that fields add to a record.
pub open spec fn fields_weight(fields: Seq<Field>) -> nat
    decreases fields.len(),
{
    if fields.len() == 0 {
        0
    } else {
        fields_weight(fields.drop_last()) + field_weight(fields.last())
    }
}

/// The text of a value is no longer than the weight of the value.
pub proof fn lemma_value_text_len(value: FieldValue)
    ensures
        value_text(value).len() <= value_weight(value),
{
    reveal_strlit("true");
    reveal_strlit("false");
    reveal_strlit("null");
    match value {
        FieldValue::Text(s) => lemma_quoted_len(s@),
        FieldValue::Other(s) => lemma_quoted_len(s@),
        FieldValue::Number(n) => lemma_decimal_len(n as int),
        _ => {},
    }
}

/// An additional field adds to the weight of a record no more than six
/// for each character of its key, the length of its text, and four.
pub proof fn lemma_with_additional_weight(record: RecordView, name: Seq<char>, text: Seq<char>)
    requires
        record.wf(),
    ensures
        record_weight(with_additional(record, name, text)) <= record_weight(record) + 6 * name.len()
            + text.len() + 10,
{
    reveal_strlit("_");
    lemma_map_len_with(record.additional, additional_key(name), text);
}

/// A field with a typed value adds no more than its weight to the weight
/// of a record.
pub proof fn lemma_with_value_weight(record: RecordView, name: Seq<char>, value: FieldValue)
    requires
        record.wf(),
    ensures
        record_weight(with_value(record, name, value)) <= record_weight(record) + 6 * name.len()
            + value_weight(value) + 10,
{
    lemma_value_text_len(value);
    match value {
        FieldValue::Text(s) => {
            if !fills_part(record, name) {
                lemma_with_additional_weight(record, name, quoted(s@));
            }
        },
        _ => lemma_with_additional_weight(record, name, value_text(value)),
    }
}

/// The fields of an event add no more than their weight to the weight of a
/// record.
pub proof fn lemma_with_fields_weight(record: RecordView, fields: Seq<Field>)
    requires
        record.wf(),
    ensures
        record_weight(with_fields(record, fields)) <= record_weight(record) + fields_weight(fields),
    decreases fields.len(),
{
    if fields.len() > 0 {
        lemma_with_fields_weight(record, fields.drop_last());
        lemma_with_fields_wf(record, fields.drop_last());
        lemma_with_value_weight(
            with_fields(record, fields.drop_last()),
            fields.last().name@,
            fields.last().value,
        );
    }
}

/// Fields that are logged with a message add no more than their weight to
/// the weight of a record.
pub proof fn lemma_with_additionals_weight(record: RecordView, fields: Seq<Field>)
    requires
        record.wf(),
    ensures
        record_weight(with_additionals(record, fields)) <= record_weight(record) + fields_weight(
            fields,
        ),
    decreases fields.len(),
{
    if fields.len() > 0 {
        lemma_with_additionals_weight(record, fields.drop_last());
        lemma_with_additionals(record, fields.drop_last());
        lemma_value_text_len(fields.last().value);
        lemma_with_additional_weight(
            with_additionals(record, fields.drop_last()),
            fields.last().name@,
            value_text(fields.last().value),
        );
    }
}

/// The weight of the settings of a pipeline: that of the record that every
/// event starts from.
pub open spec fn settings_weight(settings: Settings) -> nat {
    record_weight(settings.record())
}

/// The weight of an event: six for each character of where it came from,
/// and the weight of its fields.
pub open spec fn event_weight(event: Event) -> nat {
    6 * (optional_len(optional_view(event.target)) + optional_len(optional_view(event.module))
        + optional_len(optional_view(event.file))) + fields_weight(event.fields@)
}

/// A small event is shipped whole, whatever the time stamp: where the
/// settings, the event and its context weigh little enough, the payload of
/// the event is that of its whole record. So the mailbox of a logger that
/// has room accepts it.
pub proof fn lemma_small_event_fits(
    settings: Settings,
    event: Event,
    timestamp: Seq<char>,
    chain: Seq<Frame>,
)
    requires
        settings.wf(),
        is_utc_stamp(timestamp),
        4 * (772 + settings_weight(settings) + event_weight(event) + frames_weight(
            chain_texts(chain),
        )) + 1 <= MAX_DATAGRAM,
    ensures
        event_payload(settings, event, timestamp, chain) == Some(
            payload_of(
                record_text(with_event(settings.record(), event), timestamp, chain_texts(chain)),
            ),
        ),
{
    let base = RecordView {
        level: event.level,
        target: optional_view(event.target),
        module: optional_view(event.module),
        file: optional_view(event.file),
        line: event.line,
        ..settings.record()
    };
    lemma_with_fields_weight(base, event.fields@);
    lemma_small_record_fits(with_event(settings.record(), event), timestamp, chain_texts(chain));
}

/// A small message is shipped whole, whatever the time stamp: where the
/// settings, the message and its fields weigh little enough, the payload
/// is that of the whole record. So the mailbox of a logger that has room
/// accepts it.
pub proof fn lemma_small_message_fits(
    settings: Settings,
    level: Level,
    message: Seq<char>,
    fields: Seq<Field>,
    timestamp: Seq<char>,
)
    requires
        settings.wf(),
        is_utc_stamp(timestamp),
        4 * (774 + settings_weight(settings) + 6 * message.len() + fields_weight(fields)) + 1
            <= MAX_DATAGRAM,
    ensures
        message_payload(settings, level, message, fields, timestamp) == Some(
            payload_of(
                record_text(
                    with_additionals(
                        RecordView { level, message: Some(message), ..settings.record() },
                        fields,
                    ),
                    timestamp,
                    Seq::empty(),
                ),
            ),
        ),
{
    let base = RecordView { level, message: Some(message), ..settings.record() };
    lemma_with_additionals_weight(base, fields);
    assert(items_len(Seq::<Seq<char>>::empty()) == 0);
    lemma_small_record_fits(with_additionals(base, fields), timestamp, Seq::empty());
}

/// A small event that is handed to a logger whose mailbox has room is
/// queued: the mailbox holds one payload more, behind those that waited,
/// and it is the payload of the whole record.
pub proof fn lemma_small_event_is_queued(
    logger: LoggerView,
    event: Event,
    timestamp: Seq<char>,
    chain: Seq<Frame>,
)
    requires
        logger.wf(),
        logger.mailbox.accepts(),
        is_utc_stamp(timestamp),
        4 * (772 + settings_weight(logger.settings) + event_weight(event) + frames_weight(
            chain_texts(chain),
        )) + 1 <= MAX_DATAGRAM,
    ensures
        logger.accepts(event_payload(logger.settings, event, timestamp, chain)),
        logger.sent(event_payload(logger.settings, event, timestamp, chain)).mailbox.queue
            == logger.mailbox.queue.push(
            payload_of(
                record_text(
                    with_event(logger.settings.record(), event),
                    timestamp,
                    chain_texts(chain),
                ),
            ),
        ),
{
    lemma_small_event_fits(logger.settings, event, timestamp, chain);
}

/// A small message that is logged on a logger whose mailbox has room is
/// queued: the mailbox holds one payload more, behind those that waited,
/// and it is the payload of the whole record.
pub proof fn lemma_small_message_is_queued(
    logger: LoggerView,
    level: Level,
    message: Seq<char>,
    fields: Seq<Field>,
    timestamp: Seq<char>,
)
    requires
        logger.wf(),
        logger.mailbox.accepts(),
        is_utc_stamp(timestamp),
        4 * (774 + settings_weight(logger.settings) + 6 * message.len() + fields_weight(fields)) + 1
            <= MAX_DATAGRAM,
    ensures
        logger.accepts(message_payload(logger.settings, level, message, fields, timestamp)),
        logger.sent(
            message_payload(logger.settings, level, message, fields, timestamp),
        ).mailbox.queue == logger.mailbox.queue.push(
            payload_of(
                record_text(
                    with_additionals(
                        RecordView { level, message: Some(message), ..logger.settings.record() },
                        fields,
                    ),
                    timestamp,
                    Seq::empty(),
                ),
            ),
        ),
{
    lemma_small_message_fits(logger.settings, level, message, fields, timestamp);
}

/// Two small events that one caller hands over one after the other, to a
/// logger whose mailbox is open and has room for two, are both queued, the
/// first before the second, behind what waited.
pub proof fn lemma_small_events_are_queued_in_order(
    logger: LoggerView,
    first: Event,
    first_stamp: Seq<char>,
    first_chain: Seq<Frame>,
    second: Event,
    second_stamp: Seq<char>,
    second_chain: Seq<Frame>,
)
    requires
        logger.wf(),
        !logger.mailbox.closed,
        logger.mailbox.queue.len() + 2 <= logger.mailbox.capacity,
        is_utc_stamp(first_stamp),
        is_utc_stamp(second_stamp),
        4 * (772 + settings_weight(logger.settings) + event_weight(first) + frames_weight(
            chain_texts(first_chain),
        )) + 1 <= MAX_DATAGRAM,
        4 * (772 + settings_weight(logger.settings) + event_weight(second) + frames_weight(
            chain_texts(second_chain),
        )) + 1 <= MAX_DATAGRAM,
    ensures
        logger.sent(event_payload(logger.settings, first, first_stamp, first_chain)).sent(
            event_payload(logger.settings, second, second_stamp, second_chain),
        ).mailbox.queue == logger.mailbox.queue + seq![
            payload_of(
                record_text(
                    with_event(logger.settings.record(), first),
                    first_stamp,
                    chain_texts(first_chain),
                ),
            ),
            payload_of(
                record_text(
                    with_event(logger.settings.record(), second),
                    second_stamp,
                    chain_texts(second_chain),
                ),
            ),
        ],
{
    lemma_small_event_fits(logger.settings, first, first_stamp, first_chain);
    lemma_small_event_fits(logger.settings, second, second_stamp, second_chain);
    let after = logger.sent(event_payload(logger.settings, first, first_stamp, first_chain));
    assert(after.sent(
        event_payload(logger.settings, second, second_stamp, second_chain),
    ).mailbox.queue =~= logger.mailbox.queue + seq![
        payload_of(
            record_text(
                with_event(logger.settings.record(), first),
                first_stamp,
                chain_texts(first_chain),
            ),
        ),
        payload_of(
            record_text(
                with_event(logger.settings.record(), second),
                second_stamp,
                chain_texts(second_chain),
            ),
        ),
    ]);
}

} // verus!
