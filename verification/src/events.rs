//! Project events as streamed to clients over server-sent events and
//! WebSockets.
use vstd::prelude::*;
use crate::json::{insert_entry, json_clone, json_same, object_lookup, JsonNumber, JsonValue};
use crate::text::copy_string;

verus! {

/// An event of the daemon's event stream.
#[derive(Debug)]
pub struct AppEvent {
    pub sequence: u64,
    pub kind: String,
    pub data: JsonValue,
    /// When the event occurred, as RFC 3339 text.
    pub occurred_at: String,
}

/// The payload entries of an event: its data when that is an object, else
/// the data under `data`.
pub open spec fn payload_lookup(data: JsonValue, k: Seq<char>) -> Option<JsonValue> {
    match data {
        JsonValue::Object(entries) => object_lookup(entries@, k),
        _ => if k == "data"@ {
            Some(data)
        } else {
            None
        },
    }
}

impl AppEvent {
    /// The event as sent on the wire: the payload with `type`, `sequence` and
    /// `occurredAt` set from the event.
    pub fn as_wire_value(&self) -> (r: JsonValue)
        ensures
            r is Object,
            r.field_str("type"@) == Some(self.kind@),
            r.field("sequence"@) == Some(JsonValue::Number(JsonNumber::PosInt(self.sequence))),
            r.field_str("occurredAt"@) == Some(self.occurred_at@),
            forall|k: Seq<char>|
                #![trigger r.field(k)]
                k != "type"@ && k != "sequence"@ && k != "occurredAt"@ ==> match (
                    r.field(k),
                    payload_lookup(self.data, k),
                ) {
                    (Some(a), Some(b)) => json_same(a, b),
                    (None, None) => true,
                    _ => false,
                },
    {
        let data = json_clone(&self.data);
        let mut entries: Vec<(String, JsonValue)> = match data {
            JsonValue::Object(object) => object,
            other => vec![(copy_string("data"), other)],
        };
        proof {
            reveal_strlit("data");
            assert forall|k: Seq<char>|
                #![trigger object_lookup(entries@, k)]
                k != "type"@ && k != "sequence"@ && k != "occurredAt"@
                implies match (object_lookup(entries@, k), payload_lookup(self.data, k)) {
                (Some(a), Some(b)) => json_same(a, b),
                (None, None) => true,
                _ => false,
            } by {
                lemma_clone_lookup(self.data, data, entries@, k);
            }
        }
        let ghost start = entries@;
        insert_entry(&mut entries, "type", JsonValue::Str(copy_string(self.kind.as_str())));
        insert_entry(&mut entries, "sequence", JsonValue::Number(JsonNumber::PosInt(self.sequence)));
        insert_entry(&mut entries, "occurredAt", JsonValue::Str(copy_string(self.occurred_at.as_str())));
        proof {
            reveal_strlit("type");
            reveal_strlit("sequence");
            reveal_strlit("occurredAt");
            assert("type"@.len() != "sequence"@.len());
            assert("type"@.len() != "occurredAt"@.len());
            assert("sequence"@.len() != "occurredAt"@.len());
        }
        JsonValue::Object(entries)
    }
}

proof fn lemma_entries_same_lookup(
    x: Seq<(String, JsonValue)>,
    y: Seq<(String, JsonValue)>,
    k: Seq<char>,
)
    requires
        crate::json::entries_same(x, y),
    ensures
        match (object_lookup(x, k), object_lookup(y, k)) {
            (Some(a), Some(b)) => json_same(a, b),
            (None, None) => true,
            _ => false,
        },
    decreases x.len(),
{
    if x.len() > 0 {
        lemma_entries_same_lookup(x.drop_first(), y.drop_first(), k);
    }
}

proof fn lemma_clone_lookup(
    orig: JsonValue,
    copy: JsonValue,
    entries: Seq<(String, JsonValue)>,
    k: Seq<char>,
)
    requires
        json_same(copy, orig),
        match copy {
            JsonValue::Object(o) => entries == o@,
            _ => entries.len() == 1 && entries[0].0@ == "data"@ && entries[0].1 == copy,
        },
        k != "type"@ && k != "sequence"@ && k != "occurredAt"@,
    ensures
        match (object_lookup(entries, k), payload_lookup(orig, k)) {
            (Some(a), Some(b)) => json_same(a, b),
            (None, None) => true,
            _ => false,
        },
{
    match copy {
        JsonValue::Object(o) => {
            match orig {
                JsonValue::Object(p) => {
                    assert(crate::json::entries_same(o@, p@));
                    lemma_entries_same_lookup(o@, p@, k);
                    assert(payload_lookup(orig, k) == object_lookup(p@, k));
                    assert(object_lookup(entries, k) == object_lookup(o@, k));
                },
                _ => {
                    assert(!json_same(copy, orig));
                },
            }
        },
        _ => {
            assert(entries.drop_first().len() == 0);
            assert(!(orig is Object));
            if k == "data"@ {
                assert(object_lookup(entries, k) == Some(copy));
                assert(payload_lookup(orig, k) == Some(orig));
            } else {
                assert(object_lookup(entries, k) == object_lookup(entries.drop_first(), k));
                assert(object_lookup(entries, k) is None);
                assert(payload_lookup(orig, k) is None);
            }
        },
    }
}

} // verus!
