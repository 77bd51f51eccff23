//! The boundary to the tool's JSON event texts, and their classification.
//!
//! Each stdout line of the tracing tool is one JSON value.  A single
//! trusted call parses a line and converts what the protocol reads into
//! plain values (`RawLine`); what it returns is a function of the text
//! and the two protocol keys alone, so that parse outcome carries a name
//! (`json_event_of`) that contracts can speak about.  Every decision —
//! which type tags are informational, what ends the query, which
//! key/value shapes are acceptable — is made in verified code and stated
//! exactly by `classify_model`.

use vstd::prelude::*;

verus! {

#[verifier::external_type_specification]
#[verifier::external_body]
pub struct ExJsonValue(serde_json::Value);

/// The facts of one `[key, value]` pair that the protocol reads: the
/// key's shape (and its value when it is an unsigned integer), the
/// value as an unsigned integer when it is one, and the value's compact
/// JSON text.
pub struct RawEntry {
    pub key_is_number: bool,
    pub key_u64: Option<u64>,
    pub key_is_string: bool,
    pub value_u64: Option<u64>,
    pub value_text: String,
}

/// What one line of text parses to, reduced to plain values: `NotJson`
/// when the text is not one JSON value; otherwise the string content of
/// the type field (when that field is a string) and, when the data field
/// is an array, the facts of each of its elements.
pub enum RawLine {
    NotJson,
    Json { ty: Option<String>, entries: Option<Vec<RawEntry>> },
}

/// The mathematical content of one entry's facts.
pub struct EntryFacts {
    pub key_is_number: bool,
    pub key_u64: Option<u64>,
    pub key_is_string: bool,
    pub value_u64: Option<u64>,
    pub value_text: Seq<char>,
}

/// The mathematical content of a parse outcome.
pub enum LineFacts {
    NotJson,
    Json { ty: Option<Seq<char>>, entries: Option<Seq<EntryFacts>> },
}

impl RawEntry {
    /// The entry's facts, with the value text as a character sequence.
    pub open spec fn facts(self) -> EntryFacts {
        EntryFacts {
            key_is_number: self.key_is_number,
            key_u64: self.key_u64,
            key_is_string: self.key_is_string,
            value_u64: self.value_u64,
            value_text: self.value_text@,
        }
    }
}

/// The facts of a whole entry list.
pub open spec fn facts_of(entries: Seq<RawEntry>) -> Seq<EntryFacts> {
    entries.map_values(|e: RawEntry| e.facts())
}

impl RawLine {
    /// The parse outcome's facts.
    pub open spec fn facts(self) -> LineFacts {
        match self {
            RawLine::NotJson => LineFacts::NotJson,
            RawLine::Json { ty, entries } => LineFacts::Json {
                ty: match ty {
                    Option::Some(t) => Option::Some(t@),
                    Option::None => Option::None,
                },
                entries: match entries {
                    Option::Some(v) => Option::Some(facts_of(v@)),
                    Option::None => Option::None,
                },
            },
        }
    }
}

/// What a text parses to, given the names of the type and data fields.
/// The outcome depends on the text and the two keys alone: the same
/// arguments give the same facts, in every process and on every machine.
pub uninterp spec fn json_event_of(s: Seq<char>, type_key: Seq<char>, data_key: Seq<char>) -> LineFacts;

/// Relies on `Value`'s `Index<usize>` and `Value::is_number` on the
/// pair's first element.  Out-of-range indexing yields `Null`.
#[verifier::external_body]
fn json_key_is_number(kv: &serde_json::Value) -> bool {
    kv[0].is_number()
}

/// Relies on `Value`'s `Index<usize>` and `Value::is_string` on the
/// pair's first element.
#[verifier::external_body]
fn json_key_is_string(kv: &serde_json::Value) -> bool {
    kv[0].is_string()
}

/// Relies on `Value`'s `Index<usize>` and `Value::as_u64` on the pair's
/// first element.
#[verifier::external_body]
fn json_key_u64(kv: &serde_json::Value) -> Option<u64> {
    kv[0].as_u64()
}

/// Relies on `Value`'s `Index<usize>` and `Value::as_u64` on the pair's
/// second element.
#[verifier::external_body]
fn json_value_u64(kv: &serde_json::Value) -> Option<u64> {
    kv[1].as_u64()
}

/// Relies on `Value`'s `Index<usize>` and `ToString` (via `Display`): the
/// compact JSON rendering of the pair's second element.
#[verifier::external_body]
fn json_value_text(kv: &serde_json::Value) -> String {
    kv[1].to_string()
}

/// The facts of one key/value pair, read through the trusted calls above.
fn raw_entry(kv: &serde_json::Value) -> RawEntry {
    RawEntry {
        key_is_number: json_key_is_number(kv),
        key_u64: json_key_u64(kv),
        key_is_string: json_key_is_string(kv),
        value_u64: json_value_u64(kv),
        value_text: json_value_text(kv),
    }
}

/// The facts of every element of the data array, in order.
fn raw_entries(a: &Vec<serde_json::Value>) -> Vec<RawEntry> {
    let mut out: Vec<RawEntry> = Vec::new();
    let mut i: usize = 0;
    while i < a.len()
        decreases a.len() - i,
    {
        out.push(raw_entry(&a[i]));
        i = i + 1;
    }
    out
}

fn owned(t: &str) -> String {
    t.to_owned()
}

/// Relies on `serde_json::from_str` (parsing one JSON value, returning an
/// error on anything else), `Value`'s `Index<&str>` (which yields `Null`
/// for a missing field or a non-object and never panics), `Value::as_str`
/// and `Value::as_array`: parses `s` and converts what the protocol reads
/// to plain values.  The parse and the renderings are deterministic, so
/// the facts of the result are a function of the three texts alone.
#[verifier::external_body]
fn parse_event_line(s: &str, type_key: &str, data_key: &str) -> (r: RawLine)
    ensures
        r.facts() == json_event_of(s@, type_key@, data_key@),
{
    match serde_json::from_str::<serde_json::Value>(s) {
        Err(_) => RawLine::NotJson,
        Ok(v) => RawLine::Json {
            ty: v[type_key].as_str().map(owned),
            entries: v[data_key].as_array().map(raw_entries),
        },
    }
}

/// One classified stdout line of the tool's event protocol.
pub enum ParsedLine {
    /// `attached_probes`, `lost_events`: informational, ignored.
    Informational,
    /// A `map` aggregation dump: the query is complete.
    MapDump,
    /// A normal per-firing print event with its key/value entries.
    Event(Vec<RawEntry>),
    /// A line that does not parse as the expected event shape.
    Malformed,
}

/// The mathematical content of a classified line.
pub enum EventModel {
    Informational,
    MapDump,
    Event(Seq<EntryFacts>),
    Malformed,
}

impl ParsedLine {
    /// The classified line's facts.
    pub open spec fn model(self) -> EventModel {
        match self {
            ParsedLine::Informational => EventModel::Informational,
            ParsedLine::MapDump => EventModel::MapDump,
            ParsedLine::Event(entries) => EventModel::Event(facts_of(entries@)),
            ParsedLine::Malformed => EventModel::Malformed,
        }
    }
}

/// A number-shaped key whose value is not an unsigned integer; such an
/// entry cannot name a column position, so its line is malformed.
pub open spec fn has_bad_number_key(entries: Seq<EntryFacts>) -> bool {
    exists|i: int|
        0 <= i < entries.len() && (#[trigger] entries[i]).key_is_number && entries[i].key_u64
            is None
}

/// The event a parse outcome means, by the protocol's rules: not JSON is
/// malformed; a `lost_events` or `attached_probes` type tag is
/// informational; a `map` type tag completes the query; anything else
/// must carry a data array whose number-shaped keys are unsigned
/// integers, and is a normal event.
pub open spec fn classify_model(lf: LineFacts) -> EventModel {
    match lf {
        LineFacts::NotJson => EventModel::Malformed,
        LineFacts::Json { ty, entries } => {
            if ty is Some && (ty->0 == "lost_events"@ || ty->0 == "attached_probes"@) {
                EventModel::Informational
            } else if ty is Some && ty->0 == "map"@ {
                EventModel::MapDump
            } else {
                match entries {
                    Option::None => EventModel::Malformed,
                    Option::Some(list) => if has_bad_number_key(list) {
                        EventModel::Malformed
                    } else {
                        EventModel::Event(list)
                    },
                }
            }
        },
    }
}

/// Classifies one stdout line: exactly `classify_model` of what the line
/// parses to under the protocol's `type` and `data` keys.
pub fn classify_line(line: &str) -> (r: ParsedLine)
    ensures
        r.model() == classify_model(json_event_of(line@, "type"@, "data"@)),
{
    let raw = parse_event_line(line, "type", "data");
    let ghost lf = json_event_of(line@, "type"@, "data"@);
    match raw {
        RawLine::NotJson => ParsedLine::Malformed,
        RawLine::Json { ty, entries } => {
            let informational = match &ty {
                Option::Some(t) => crate::textutil::str_eq(t.as_str(), "lost_events")
                    || crate::textutil::str_eq(t.as_str(), "attached_probes"),
                Option::None => false,
            };
            if informational {
                return ParsedLine::Informational;
            }
            let map_dump = match &ty {
                Option::Some(t) => crate::textutil::str_eq(t.as_str(), "map"),
                Option::None => false,
            };
            if map_dump {
                return ParsedLine::MapDump;
            }
            match entries {
                Option::None => ParsedLine::Malformed,
                Option::Some(list) => {
                    proof {
                        assert(has_bad_number_key(facts_of(list@)) ==> classify_model(lf)
                            == EventModel::Malformed);
                        assert(!has_bad_number_key(facts_of(list@)) ==> classify_model(lf)
                            == EventModel::Event(facts_of(list@)));
                    }
                    let mut i: usize = 0;
                    while i < list.len()
                        invariant
                            i <= list.len(),
                            lf == json_event_of(line@, "type"@, "data"@),
                            has_bad_number_key(facts_of(list@)) ==> classify_model(lf)
                                == EventModel::Malformed,
                            !has_bad_number_key(facts_of(list@)) ==> classify_model(lf)
                                == EventModel::Event(facts_of(list@)),
                            forall|j: int|
                                0 <= j < i ==> !((#[trigger] facts_of(list@)[j]).key_is_number
                                    && facts_of(list@)[j].key_u64 is None),
                        decreases list.len() - i,
                    {
                        proof {
                            assert(facts_of(list@)[i as int] == list@[i as int].facts());
                        }
                        if list[i].key_is_number && list[i].key_u64.is_none() {
                            proof {
                                assert((#[trigger] facts_of(list@)[i as int]).key_is_number
                                    && facts_of(list@)[i as int].key_u64 is None);
                                assert(has_bad_number_key(facts_of(list@)));
                            }
                            return ParsedLine::Malformed;
                        }
                        i = i + 1;
                    }
                    proof {
                        assert(!has_bad_number_key(facts_of(list@)));
                    }
                    ParsedLine::Event(list)
                },
            }
        },
    }
}

} // verus!
