//! The shape in which a message travels: a mapping of named fields, built
//! from the message and the time of sending.

use crate::message::{
    opt_entries, opt_text, opt_value, Alias, Batch, BatchMessage, BatchView, Detail, EventView,
    Group, Identify, Kind, Message, MessageView, Page, Screen, Track,
};
use crate::validation::{has_reserved_key, is_reserved, is_reserved_key, validation};
use crate::value::{
    distinct_keys, entries_view, has_key, lemma_object_of_distinct, Entries, Object, Value,
    ValueView,
};
use vstd::prelude::*;

verus! {

/// The field `name` with the text `text`.
pub open spec fn text_field(name: Seq<char>, text: Seq<char>) -> Entries {
    seq![(name, ValueView::String(text))]
}

/// The field `name` with the text `text`, or nothing where there is no text.
pub open spec fn opt_text_field(name: Seq<char>, text: Option<Seq<char>>) -> Entries {
    match text {
        Some(t) => text_field(name, t),
        None => Seq::empty(),
    }
}

/// The field `name` with the value `value`, or nothing where there is no
/// value.
pub open spec fn opt_value_field(name: Seq<char>, value: Option<ValueView>) -> Entries {
    match value {
        Some(v) => seq![(name, v)],
        None => Seq::empty(),
    }
}

/// The field `name` with the mapping `entries`, or nothing where there is no
/// mapping.
pub open spec fn opt_object_field(name: Seq<char>, entries: Option<Entries>) -> Entries {
    match entries {
        Some(e) => seq![(name, ValueView::Object(e))],
        None => Seq::empty(),
    }
}

/// The word by which a message of kind `kind` says what it is.
pub open spec fn kind_name(kind: Kind) -> Seq<char> {
    match kind {
        Kind::Identify => "identify"@,
        Kind::Track => "track"@,
        Kind::Page => "page"@,
        Kind::Screen => "screen"@,
        Kind::Group => "group"@,
        Kind::Alias => "alias"@,
        Kind::Batch => "batch"@,
    }
}

/// What the library says of itself in every context that it sends.
pub open spec fn library_info() -> Entries {
    seq![
        ("name"@, ValueView::String("RudderStack Rust SDK"@)),
        ("version"@, ValueView::String("0.1.0"@)),
    ]
}

/// The entries that the library itself writes into a context. Their keys are
/// the reserved ones.
pub open spec fn own_context() -> Entries {
    seq![("library"@, ValueView::Object(library_info()))]
}

/// Those of `entries` whose key is not reserved, in their order.
pub open spec fn unreserved(entries: Entries) -> Entries
    decreases entries.len(),
{
    if entries.len() == 0 {
        Seq::empty()
    } else if is_reserved(entries.last().0) {
        unreserved(entries.drop_last())
    } else {
        unreserved(entries.drop_last()).push(entries.last())
    }
}

/// The context that is sent for a message whose own context is `context`:
/// the library's entries, then the caller's. A caller's entry under a
/// reserved key is not taken over.
pub open spec fn wire_context(context: Option<Entries>) -> Entries {
    match context {
        Some(entries) => own_context() + unreserved(entries),
        None => own_context(),
    }
}

/// The fields that are particular to the kind of an event.
pub open spec fn detail_fields(detail: Detail) -> Entries {
    match detail {
        Detail::Identify { traits } => opt_value_field("traits"@, traits),
        Detail::Track { event, properties } => text_field("event"@, event) + opt_value_field(
            "properties"@,
            properties,
        ),
        Detail::Page { name, properties } => text_field("name"@, name) + opt_value_field(
            "properties"@,
            properties,
        ),
        Detail::Screen { name, properties } => text_field("name"@, name) + opt_value_field(
            "properties"@,
            properties,
        ),
        Detail::Group { group_id, traits } => text_field("groupId"@, group_id) + opt_value_field(
            "traits"@,
            traits,
        ),
        Detail::Alias { previous_id, traits } => text_field("previousId"@, previous_id)
            + opt_value_field("traits"@, traits),
    }
}

/// The fields that end every message: the time at which the event happened,
/// which is the time of sending where the caller gave none, the time of
/// sending, the integrations if the caller gave any, the context, and the
/// channel.
pub open spec fn common_fields(
    original_timestamp: Option<Seq<char>>,
    integrations: Option<Entries>,
    context: Option<Entries>,
    sent_at: Seq<char>,
) -> Entries {
    text_field(
        "originalTimestamp"@,
        match original_timestamp {
            Some(t) => t,
            None => sent_at,
        },
    ) + text_field("sentAt"@, sent_at) + opt_object_field("integrations"@, integrations)
        + seq![("context"@, ValueView::Object(wire_context(context)))] + text_field(
        "channel"@,
        "server"@,
    )
}

/// The fields of a single event that is sent at `sent_at`.
pub open spec fn event_fields(event: EventView, sent_at: Seq<char>) -> Entries {
    opt_text_field("userId"@, event.user_id) + opt_text_field("anonymousId"@, event.anonymous_id)
        + text_field("type"@, kind_name(event.kind())) + detail_fields(event.detail)
        + common_fields(event.original_timestamp, event.integrations, event.context, sent_at)
}

/// The events of a batch that is sent at `sent_at`, each in the shape that it
/// would have alone.
pub open spec fn batch_items(events: Seq<EventView>, sent_at: Seq<char>) -> Seq<ValueView> {
    Seq::new(events.len(), |i: int| ValueView::Object(event_fields(events[i], sent_at)))
}

/// The fields of a batch that is sent at `sent_at`.
pub open spec fn batch_fields(batch: BatchView, sent_at: Seq<char>) -> Entries {
    text_field("type"@, kind_name(Kind::Batch)) + seq![
        ("batch"@, ValueView::Array(batch_items(batch.batch, sent_at))),
    ] + common_fields(batch.original_timestamp, batch.integrations, batch.context, sent_at)
}

/// The fields of a message that is sent at `sent_at`.
pub open spec fn envelope_of(message: MessageView, sent_at: Seq<char>) -> Entries {
    match message {
        MessageView::Event(event) => event_fields(event, sent_at),
        MessageView::Batch(batch) => batch_fields(batch, sent_at),
    }
}

/// The place of a field among the fields of a message.
spec fn rank(name: Seq<char>) -> int {
    if name == "userId"@ {
        0
    } else if name == "anonymousId"@ {
        1
    } else if name == "type"@ {
        2
    } else if name == "batch"@ {
        3
    } else if name == "event"@ {
        4
    } else if name == "name"@ {
        5
    } else if name == "groupId"@ {
        6
    } else if name == "previousId"@ {
        7
    } else if name == "traits"@ {
        8
    } else if name == "properties"@ {
        9
    } else if name == "originalTimestamp"@ {
        10
    } else if name == "sentAt"@ {
        11
    } else if name == "integrations"@ {
        12
    } else if name == "context"@ {
        13
    } else if name == "channel"@ {
        14
    } else {
        15
    }
}

/// Whether the fields stand in the order of their ranks, all of which lie
/// from `low` up to, not including, `high`.
spec fn ranked(fields: Entries, low: int, high: int) -> bool {
    &&& forall|i: int| 0 <= i < fields.len() ==> low <= rank((#[trigger] fields[i]).0) < high
    &&& forall|i: int, j: int|
        0 <= i < j < fields.len() ==> rank((#[trigger] fields[i]).0) < rank(
            (#[trigger] fields[j]).0,
        )
}

proof fn lemma_ranks()
    ensures
        rank("userId"@) == 0,
        rank("anonymousId"@) == 1,
        rank("type"@) == 2,
        rank("batch"@) == 3,
        rank("event"@) == 4,
        rank("name"@) == 5,
        rank("groupId"@) == 6,
        rank("previousId"@) == 7,
        rank("traits"@) == 8,
        rank("properties"@) == 9,
        rank("originalTimestamp"@) == 10,
        rank("sentAt"@) == 11,
        rank("integrations"@) == 12,
        rank("context"@) == 13,
        rank("channel"@) == 14,
{
    reveal_strlit("userId");
    reveal_strlit("anonymousId");
    reveal_strlit("type");
    reveal_strlit("batch");
    reveal_strlit("event");
    reveal_strlit("name");
    reveal_strlit("groupId");
    reveal_strlit("previousId");
    reveal_strlit("traits");
    reveal_strlit("properties");
    reveal_strlit("originalTimestamp");
    reveal_strlit("sentAt");
    reveal_strlit("integrations");
    reveal_strlit("context");
    reveal_strlit("channel");
    assert("userId"@.len() == 6 && "userId"@[0] == 'u' && "userId"@[2] == 'e');
    assert("anonymousId"@.len() == 11);
    assert("type"@.len() == 4 && "type"@[0] == 't');
    assert("batch"@.len() == 5 && "batch"@[0] == 'b');
    assert("event"@.len() == 5 && "event"@[0] == 'e');
    assert("name"@.len() == 4 && "name"@[0] == 'n');
    assert("groupId"@.len() == 7 && "groupId"@[0] == 'g' && "groupId"@[1] == 'r');
    assert("previousId"@.len() == 10 && "previousId"@[2] == 'e');
    assert("traits"@.len() == 6 && "traits"@[0] == 't' && "traits"@[2] == 'a');
    assert("properties"@.len() == 10 && "properties"@[2] == 'o');
    assert("originalTimestamp"@.len() == 17);
    assert("sentAt"@.len() == 6 && "sentAt"@[0] == 's' && "sentAt"@[2] == 'n');
    assert("integrations"@.len() == 12);
    assert("context"@.len() == 7 && "context"@[0] == 'c' && "context"@[1] == 'o');
    assert("channel"@.len() == 7 && "channel"@[0] == 'c' && "channel"@[1] == 'h');
}

proof fn lemma_ranked_concat(a: Entries, b: Entries, low: int, mid: int, high: int)
    requires
        ranked(a, low, mid),
        ranked(b, mid, high),
        low <= mid <= high,
    ensures
        ranked(a + b, low, high),
{
    let c = a + b;
    assert forall|i: int| 0 <= i < c.len() implies low <= rank((#[trigger] c[i]).0) < high by {
        if i < a.len() {
            assert(c[i] == a[i]);
        } else {
            assert(c[i] == b[i - a.len()]);
        }
    }
    assert forall|i: int, j: int| 0 <= i < j < c.len() implies rank((#[trigger] c[i]).0) < rank(
        (#[trigger] c[j]).0,
    ) by {
        if j < a.len() {
            assert(c[i] == a[i] && c[j] == a[j]);
        } else if i < a.len() {
            assert(c[i] == a[i] && c[j] == b[j - a.len()]);
        } else {
            assert(c[i] == b[i - a.len()] && c[j] == b[j - a.len()]);
        }
    }
}

proof fn lemma_ranked_distinct(fields: Entries, low: int, high: int)
    requires
        ranked(fields, low, high),
    ensures
        distinct_keys(fields),
{
    assert forall|i: int, j: int| 0 <= i < j < fields.len() implies (#[trigger] fields[i]).0
        != (#[trigger] fields[j]).0 by {
        assert(rank(fields[i].0) < rank(fields[j].0));
    }
}

proof fn lemma_ranked_one(name: Seq<char>, value: ValueView, r: int)
    requires
        rank(name) == r,
    ensures
        ranked(seq![(name, value)], r, r + 1),
        ranked(Seq::<(Seq<char>, ValueView)>::empty(), r, r + 1),
{
}

proof fn lemma_detail_ranked(detail: Detail)
    ensures
        ranked(detail_fields(detail), 4, 10),
{
    lemma_ranks();
    match detail {
        Detail::Identify { traits } => {},
        Detail::Track { event, properties } => {
            lemma_ranked_one("event"@, ValueView::String(event), 4);
            lemma_ranked_concat(
                text_field("event"@, event),
                opt_value_field("properties"@, properties),
                4,
                9,
                10,
            );
        },
        Detail::Page { name, properties } => {
            lemma_ranked_one("name"@, ValueView::String(name), 5);
            lemma_ranked_concat(
                text_field("name"@, name),
                opt_value_field("properties"@, properties),
                4,
                9,
                10,
            );
        },
        Detail::Screen { name, properties } => {
            lemma_ranked_one("name"@, ValueView::String(name), 5);
            lemma_ranked_concat(
                text_field("name"@, name),
                opt_value_field("properties"@, properties),
                4,
                9,
                10,
            );
        },
        Detail::Group { group_id, traits } => {
            lemma_ranked_one("groupId"@, ValueView::String(group_id), 6);
            lemma_ranked_concat(
                text_field("groupId"@, group_id),
                opt_value_field("traits"@, traits),
                4,
                8,
                10,
            );
        },
        Detail::Alias { previous_id, traits } => {
            lemma_ranked_one("previousId"@, ValueView::String(previous_id), 7);
            lemma_ranked_concat(
                text_field("previousId"@, previous_id),
                opt_value_field("traits"@, traits),
                4,
                8,
                10,
            );
        },
    }
}

proof fn lemma_common_ranked(
    original_timestamp: Option<Seq<char>>,
    integrations: Option<Entries>,
    context: Option<Entries>,
    sent_at: Seq<char>,
)
    ensures
        ranked(common_fields(original_timestamp, integrations, context, sent_at), 10, 15),
{
    lemma_ranks();
    let happened = match original_timestamp {
        Some(t) => t,
        None => sent_at,
    };
    let a = text_field("originalTimestamp"@, happened);
    let b = text_field("sentAt"@, sent_at);
    let c = opt_object_field("integrations"@, integrations);
    let d = seq![("context"@, ValueView::Object(wire_context(context)))];
    let e = text_field("channel"@, "server"@);
    lemma_ranked_concat(a, b, 10, 11, 12);
    lemma_ranked_concat(a + b, c, 10, 12, 13);
    lemma_ranked_concat(a + b + c, d, 10, 13, 14);
    lemma_ranked_concat(a + b + c + d, e, 10, 14, 15);
}

/// No two fields of a message share a name.
pub proof fn lemma_envelope_keys_distinct(message: MessageView, sent_at: Seq<char>)
    ensures
        distinct_keys(envelope_of(message, sent_at)),
{
    lemma_ranks();
    match message {
        MessageView::Event(event) => {
            let a = opt_text_field("userId"@, event.user_id);
            let b = opt_text_field("anonymousId"@, event.anonymous_id);
            let c = text_field("type"@, kind_name(event.kind()));
            let d = detail_fields(event.detail);
            let e = common_fields(
                event.original_timestamp,
                event.integrations,
                event.context,
                sent_at,
            );
            lemma_detail_ranked(event.detail);
            lemma_common_ranked(
                event.original_timestamp,
                event.integrations,
                event.context,
                sent_at,
            );
            lemma_ranked_concat(a, b, 0, 1, 2);
            lemma_ranked_concat(a + b, c, 0, 2, 3);
            lemma_ranked_concat(a + b + c, d, 0, 4, 10);
            lemma_ranked_concat(a + b + c + d, e, 0, 10, 15);
            lemma_ranked_distinct(a + b + c + d + e, 0, 15);
        },
        MessageView::Batch(batch) => {
            let a = text_field("type"@, kind_name(Kind::Batch));
            let b = seq![("batch"@, ValueView::Array(batch_items(batch.batch, sent_at)))];
            let c = common_fields(
                batch.original_timestamp,
                batch.integrations,
                batch.context,
                sent_at,
            );
            lemma_common_ranked(
                batch.original_timestamp,
                batch.integrations,
                batch.context,
                sent_at,
            );
            lemma_ranked_concat(a, b, 2, 3, 4);
            lemma_ranked_concat(a + b, c, 2, 10, 15);
            lemma_ranked_distinct(a + b + c, 2, 15);
        },
    }
}

/// What is left of a caller's context holds no reserved key, and only
/// entries of that context. Where the context had distinct keys, so has what
/// is left of it; where it held no reserved key, all of it is left.
pub proof fn lemma_unreserved(entries: Entries)
    ensures
        !has_reserved_key(unreserved(entries)),
        forall|i: int|
            0 <= i < unreserved(entries).len() ==> has_key(
                entries,
                (#[trigger] unreserved(entries)[i]).0,
            ),
        distinct_keys(entries) ==> distinct_keys(unreserved(entries)),
        !has_reserved_key(entries) ==> unreserved(entries) == entries,
    decreases entries.len(),
{
    let kept = unreserved(entries);
    if entries.len() == 0 {
        assert(kept =~= entries);
    } else {
        let rest = entries.drop_last();
        let last = entries.last();
        let before = unreserved(rest);
        lemma_unreserved(rest);
        assert forall|i: int| 0 <= i < kept.len() implies has_key(
            entries,
            (#[trigger] kept[i]).0,
        ) by {
            if i < before.len() {
                assert(kept[i] == before[i]);
                assert(has_key(rest, before[i].0));
                let j = choose|j: int| 0 <= j < rest.len() && (#[trigger] rest[j]).0 == before[i].0;
                assert(entries[j].0 == kept[i].0);
            } else {
                assert(entries[entries.len() - 1].0 == kept[i].0);
            }
        }
        assert(!has_reserved_key(kept)) by {
            assert forall|i: int| 0 <= i < kept.len() implies !is_reserved(
                (#[trigger] kept[i]).0,
            ) by {
                if i < before.len() {
                    assert(kept[i] == before[i]);
                }
            }
        }
        if distinct_keys(entries) {
            assert forall|i: int, j: int| 0 <= i < j < rest.len() implies (#[trigger] rest[i]).0
                != (#[trigger] rest[j]).0 by {
                assert(entries[i].0 != entries[j].0);
            }
            assert forall|i: int, j: int| 0 <= i < j < kept.len() implies (#[trigger] kept[i]).0
                != (#[trigger] kept[j]).0 by {
                if j < before.len() {
                    assert(kept[i] == before[i] && kept[j] == before[j]);
                } else {
                    assert(kept[i] == before[i]);
                    assert(has_key(rest, before[i].0));
                    let k = choose|k: int|
                        0 <= k < rest.len() && (#[trigger] rest[k]).0 == before[i].0;
                    assert(entries[k].0 != entries[entries.len() - 1].0);
                }
            }
        }
        if !has_reserved_key(entries) {
            assert(!is_reserved(entries[entries.len() - 1].0));
            assert forall|i: int| 0 <= i < rest.len() implies !is_reserved(
                (#[trigger] rest[i]).0,
            ) by {
                assert(!is_reserved(entries[i].0));
            }
            assert(kept =~= entries);
        }
    }
}

/// The context that is sent begins with the library's own entries, and its
/// keys are distinct where those of the caller's context are.
pub proof fn lemma_wire_context(context: Option<Entries>)
    ensures
        wire_context(context).len() >= 1,
        wire_context(context)[0] == own_context()[0],
        (context matches Some(entries) ==> distinct_keys(entries)) ==> distinct_keys(
            wire_context(context),
        ),
        context matches Some(entries) ==> (!has_reserved_key(entries) ==> wire_context(context)
            == own_context() + entries),
{
    let sent = wire_context(context);
    match context {
        Some(entries) => {
            lemma_unreserved(entries);
            let kept = unreserved(entries);
            if distinct_keys(entries) {
                assert forall|i: int, j: int| 0 <= i < j < sent.len() implies (
                #[trigger] sent[i]).0 != (#[trigger] sent[j]).0 by {
                    assert(sent[j] == kept[j - 1]);
                    assert(!is_reserved(kept[j - 1].0));
                    if i == 0 {
                        assert(is_reserved(sent[0].0));
                    } else {
                        assert(sent[i] == kept[i - 1]);
                        assert(kept[i - 1].0 != kept[j - 1].0);
                    }
                }
            }
        },
        None => {},
    }
}

/// A message that validation lets pass is sent with the whole of its
/// context, after the library's own entries.
pub proof fn lemma_valid_context_is_kept(message: MessageView)
    requires
        validation(message) is Ok,
        message.context() is Some,
    ensures
        wire_context(message.context()) == own_context() + message.context()->Some_0,
{
    lemma_wire_context(message.context());
}

/// Adds the field `name` with the value `value`.
fn push_field(fields: &mut Vec<(String, Value)>, name: &str, value: Value)
    ensures
        entries_view(final(fields)@) == entries_view(old(fields)@) + seq![(name@, value@)],
{
    fields.push((name.to_owned(), value));
    assert(entries_view(fields@) =~= entries_view(old(fields)@) + seq![(name@, value@)]);
}

/// Adds the field `name` with the text `text`.
fn push_text(fields: &mut Vec<(String, Value)>, name: &str, text: &str)
    ensures
        entries_view(final(fields)@) == entries_view(old(fields)@) + text_field(name@, text@),
{
    push_field(fields, name, Value::String(text.to_owned()));
}

/// Adds the field `name` with the text `text`, if there is a text.
fn push_opt_text(fields: &mut Vec<(String, Value)>, name: &str, text: &Option<String>)
    ensures
        entries_view(final(fields)@) == entries_view(old(fields)@) + opt_text_field(
            name@,
            opt_text(*text),
        ),
{
    match text {
        Some(t) => push_text(fields, name, t.as_str()),
        None => {
            assert(entries_view(fields@) =~= entries_view(fields@) + Seq::empty());
        },
    }
}

/// Adds the field `name` with a copy of `value`, if there is a value.
fn push_opt_value(fields: &mut Vec<(String, Value)>, name: &str, value: &Option<Value>)
    ensures
        entries_view(final(fields)@) == entries_view(old(fields)@) + opt_value_field(
            name@,
            opt_value(*value),
        ),
{
    match value {
        Some(v) => push_field(fields, name, v.clone()),
        None => {
            assert(entries_view(fields@) =~= entries_view(fields@) + Seq::empty());
        },
    }
}

/// Adds the field `name` with a copy of `object`, if there is one.
fn push_opt_object(fields: &mut Vec<(String, Value)>, name: &str, object: &Option<Object>)
    ensures
        entries_view(final(fields)@) == entries_view(old(fields)@) + opt_object_field(
            name@,
            opt_entries(*object),
        ),
{
    match object {
        Some(o) => push_field(fields, name, Value::Object(o.clone())),
        None => {
            assert(entries_view(fields@) =~= entries_view(fields@) + Seq::empty());
        },
    }
}

/// The context that is sent for a message whose own context is `context`:
/// what the library says of itself, then the caller's entries but those
/// under a reserved key.
pub fn merged_context(context: &Option<Object>) -> (merged: Object)
    ensures
        merged@ == wire_context(opt_entries(*context)),
{
    let mut info: Vec<(String, Value)> = Vec::new();
    push_text(&mut info, "name", "RudderStack Rust SDK");
    push_text(&mut info, "version", "0.1.0");
    proof {
        reveal_strlit("name");
        reveal_strlit("version");
        assert("name"@.len() != "version"@.len());
        assert(entries_view(info@) =~= library_info());
        lemma_object_of_distinct(library_info());
    }
    let library = Object::from_entries(info);
    let mut fields: Vec<(String, Value)> = Vec::new();
    push_field(&mut fields, "library", Value::Object(library));
    assert(entries_view(fields@) =~= own_context());
    match context {
        Some(object) => {
            let n = object.len();
            let mut i: usize = 0;
            assert(object@.take(0) =~= Seq::empty());
            while i < n
                invariant
                    i <= n,
                    n == object@.len(),
                    entries_view(fields@) =~= own_context() + unreserved(object@.take(i as int)),
                decreases n - i,
            {
                assert(object@.take(i + 1).drop_last() =~= object@.take(i as int));
                assert(object@.take(i + 1).last() == object@[i as int]);
                match object.entry(i) {
                    Some((key, value)) => {
                        if !is_reserved_key(key.as_str()) {
                            push_field(&mut fields, key.as_str(), value.clone());
                        }
                    },
                    None => {},
                }
                i += 1;
            }
            assert(object@.take(n as int) =~= object@);
        },
        None => {},
    }
    proof {
        lemma_wire_context(opt_entries(*context));
        lemma_object_of_distinct(wire_context(opt_entries(*context)));
    }
    Object::from_entries(fields)
}

/// Adds the fields that end every message.
fn push_common(
    fields: &mut Vec<(String, Value)>,
    original_timestamp: &Option<String>,
    integrations: &Option<Object>,
    context: &Option<Object>,
    sent_at: &str,
)
    ensures
        entries_view(final(fields)@) == entries_view(old(fields)@) + common_fields(
            opt_text(*original_timestamp),
            opt_entries(*integrations),
            opt_entries(*context),
            sent_at@,
        ),
{
    match original_timestamp {
        Some(t) => push_text(fields, "originalTimestamp", t.as_str()),
        None => push_text(fields, "originalTimestamp", sent_at),
    }
    push_text(fields, "sentAt", sent_at);
    push_opt_object(fields, "integrations", integrations);
    push_field(fields, "context", Value::Object(merged_context(context)));
    push_text(fields, "channel", "server");
    assert(entries_view(fields@) =~= entries_view(old(fields)@) + common_fields(
        opt_text(*original_timestamp),
        opt_entries(*integrations),
        opt_entries(*context),
        sent_at@,
    ));
}

/// Adds the fields that begin every single event.
fn push_head(
    fields: &mut Vec<(String, Value)>,
    user_id: &Option<String>,
    anonymous_id: &Option<String>,
    kind: Kind,
)
    ensures
        entries_view(final(fields)@) == entries_view(old(fields)@) + (opt_text_field(
            "userId"@,
            opt_text(*user_id),
        ) + opt_text_field("anonymousId"@, opt_text(*anonymous_id)) + text_field(
            "type"@,
            kind_name(kind),
        )),
{
    push_opt_text(fields, "userId", user_id);
    push_opt_text(fields, "anonymousId", anonymous_id);
    push_text(fields, "type", type_word(kind));
    assert(entries_view(fields@) =~= entries_view(old(fields)@) + (opt_text_field(
        "userId"@,
        opt_text(*user_id),
    ) + opt_text_field("anonymousId"@, opt_text(*anonymous_id)) + text_field(
        "type"@,
        kind_name(kind),
    )));
}

/// The word by which a message of kind `kind` says what it is.
pub fn type_word(kind: Kind) -> (word: &'static str)
    ensures
        word@ == kind_name(kind),
{
    match kind {
        Kind::Identify => "identify",
        Kind::Track => "track",
        Kind::Page => "page",
        Kind::Screen => "screen",
        Kind::Group => "group",
        Kind::Alias => "alias",
        Kind::Batch => "batch",
    }
}

/// The mapping of the fields of a single event, which are `fields`.
fn event_object(
    fields: Vec<(String, Value)>,
    Ghost(event): Ghost<EventView>,
    Ghost(sent_at): Ghost<Seq<char>>,
) -> (envelope: Object)
    requires
        entries_view(fields@) =~= event_fields(event, sent_at),
    ensures
        envelope@ == event_fields(event, sent_at),
{
    proof {
        lemma_envelope_keys_distinct(MessageView::Event(event), sent_at);
        lemma_object_of_distinct(event_fields(event, sent_at));
    }
    Object::from_entries(fields)
}

/// The shape in which an identify event travels when it is sent at
/// `sent_at`.
pub fn parse_identify(msg: &Identify, sent_at: &str) -> (envelope: Object)
    ensures
        envelope@ == event_fields(msg@, sent_at@),
{
    let mut fields: Vec<(String, Value)> = Vec::new();
    push_head(&mut fields, &msg.user_id, &msg.anonymous_id, Kind::Identify);
    push_opt_value(&mut fields, "traits", &msg.traits);
    push_common(&mut fields, &msg.original_timestamp, &msg.integrations, &msg.context, sent_at);
    event_object(fields, Ghost(msg@), Ghost(sent_at@))
}

/// The shape in which a track event travels when it is sent at `sent_at`.
pub fn parse_track(msg: &Track, sent_at: &str) -> (envelope: Object)
    ensures
        envelope@ == event_fields(msg@, sent_at@),
{
    let mut fields: Vec<(String, Value)> = Vec::new();
    push_head(&mut fields, &msg.user_id, &msg.anonymous_id, Kind::Track);
    push_text(&mut fields, "event", msg.event.as_str());
    push_opt_value(&mut fields, "properties", &msg.properties);
    push_common(&mut fields, &msg.original_timestamp, &msg.integrations, &msg.context, sent_at);
    event_object(fields, Ghost(msg@), Ghost(sent_at@))
}

/// The shape in which a page event travels when it is sent at `sent_at`.
pub fn parse_page(msg: &Page, sent_at: &str) -> (envelope: Object)
    ensures
        envelope@ == event_fields(msg@, sent_at@),
{
    let mut fields: Vec<(String, Value)> = Vec::new();
    push_head(&mut fields, &msg.user_id, &msg.anonymous_id, Kind::Page);
    push_text(&mut fields, "name", msg.name.as_str());
    push_opt_value(&mut fields, "properties", &msg.properties);
    push_common(&mut fields, &msg.original_timestamp, &msg.integrations, &msg.context, sent_at);
    event_object(fields, Ghost(msg@), Ghost(sent_at@))
}

/// The shape in which a screen event travels when it is sent at `sent_at`.
pub fn parse_screen(msg: &Screen, sent_at: &str) -> (envelope: Object)
    ensures
        envelope@ == event_fields(msg@, sent_at@),
{
    let mut fields: Vec<(String, Value)> = Vec::new();
    push_head(&mut fields, &msg.user_id, &msg.anonymous_id, Kind::Screen);
    push_text(&mut fields, "name", msg.name.as_str());
    push_opt_value(&mut fields, "properties", &msg.properties);
    push_common(&mut fields, &msg.original_timestamp, &msg.integrations, &msg.context, sent_at);
    event_object(fields, Ghost(msg@), Ghost(sent_at@))
}

/// The shape in which a group event travels when it is sent at `sent_at`.
pub fn parse_group(msg: &Group, sent_at: &str) -> (envelope: Object)
    ensures
        envelope@ == event_fields(msg@, sent_at@),
{
    let mut fields: Vec<(String, Value)> = Vec::new();
    push_head(&mut fields, &msg.user_id, &msg.anonymous_id, Kind::Group);
    push_text(&mut fields, "groupId", msg.group_id.as_str());
    push_opt_value(&mut fields, "traits", &msg.traits);
    push_common(&mut fields, &msg.original_timestamp, &msg.integrations, &msg.context, sent_at);
    event_object(fields, Ghost(msg@), Ghost(sent_at@))
}

/// The shape in which an alias event travels when it is sent at `sent_at`.
pub fn parse_alias(msg: &Alias, sent_at: &str) -> (envelope: Object)
    ensures
        envelope@ == event_fields(msg@, sent_at@),
{
    let mut fields: Vec<(String, Value)> = Vec::new();
    push_head(&mut fields, &msg.user_id, &msg.anonymous_id, Kind::Alias);
    push_text(&mut fields, "previousId", msg.previous_id.as_str());
    push_opt_value(&mut fields, "traits", &msg.traits);
    push_common(&mut fields, &msg.original_timestamp, &msg.integrations, &msg.context, sent_at);
    event_object(fields, Ghost(msg@), Ghost(sent_at@))
}

/// The shape in which an event of a batch travels when the batch is sent at
/// `sent_at`: the one that it would have alone.
pub fn parse_batch_message(msg: &BatchMessage, sent_at: &str) -> (envelope: Object)
    ensures
        envelope@ == event_fields(msg@, sent_at@),
{
    match msg {
        BatchMessage::Identify(e) => parse_identify(e, sent_at),
        BatchMessage::Track(e) => parse_track(e, sent_at),
        BatchMessage::Page(e) => parse_page(e, sent_at),
        BatchMessage::Screen(e) => parse_screen(e, sent_at),
        BatchMessage::Group(e) => parse_group(e, sent_at),
        BatchMessage::Alias(e) => parse_alias(e, sent_at),
    }
}

/// The shape in which a batch travels when it is sent at `sent_at`.
pub fn parse_batch(msg: &Batch, sent_at: &str) -> (envelope: Object)
    ensures
        envelope@ == batch_fields(msg@, sent_at@),
{
    let mut items: Vec<Value> = Vec::new();
    let mut i: usize = 0;
    while i < msg.batch.len()
        invariant
            i <= msg.batch.len(),
            items.len() == i,
            forall|j: int|
                0 <= j < i ==> (#[trigger] items@[j])@ == ValueView::Object(
                    event_fields(msg.batch@[j]@, sent_at@),
                ),
        decreases msg.batch.len() - i,
    {
        items.push(Value::Object(parse_batch_message(&msg.batch[i], sent_at)));
        i += 1;
    }
    let array = Value::Array(items);
    assert(array@->Array_0 =~= batch_items(msg@.batch, sent_at@));
    let mut fields: Vec<(String, Value)> = Vec::new();
    push_text(&mut fields, "type", type_word(Kind::Batch));
    push_field(&mut fields, "batch", array);
    push_common(&mut fields, &msg.original_timestamp, &msg.integrations, &msg.context, sent_at);
    proof {
        assert(entries_view(fields@) =~= batch_fields(msg@, sent_at@));
        lemma_envelope_keys_distinct(MessageView::Batch(msg@), sent_at@);
        lemma_object_of_distinct(batch_fields(msg@, sent_at@));
    }
    Object::from_entries(fields)
}

/// The shape in which `message` travels when it is sent at `sent_at`.
pub fn envelope(message: &Message, sent_at: &str) -> (envelope: Object)
    ensures
        envelope@ == envelope_of(message@, sent_at@),
{
    match message {
        Message::Identify(e) => parse_identify(e, sent_at),
        Message::Track(e) => parse_track(e, sent_at),
        Message::Page(e) => parse_page(e, sent_at),
        Message::Screen(e) => parse_screen(e, sent_at),
        Message::Group(e) => parse_group(e, sent_at),
        Message::Alias(e) => parse_alias(e, sent_at),
        Message::Batch(b) => parse_batch(b, sent_at),
    }
}

} // verus!
