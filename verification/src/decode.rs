//! Decoding of a history message: from JSON text to a snapshot.
//!
//! A message is an object with `Count`, an optional `GrandTotal` and an
//! optional list `ListEntries`. Each entry holds exactly one of the
//! aliases `Info`, `Service`, `Warning`, `Error` and `State` (an object
//! with `ID` and `Text`), a `DateTime` object (with `DateTime` and
//! `Timestamp`) and the integer `Unknown`. A member that is absent and one
//! that is `null` count alike as not given. Other members are ignored.

use crate::dtc::{
    entries_view, Category, DecodeError, EntryDateTime, EntryView, ListEntryDtc, ResponseDtc,
    SnapshotView, State,
};
use crate::json::{
    json_document, json_model, parse_document, value_i64, value_is_null, value_items,
    value_member, value_text, value_u64, Json,
};
use vstd::prelude::*;

verus! {

/// The member under `key` where it is given: present and not `null`.
pub open spec fn given_member(value: Json, key: Seq<char>) -> Option<Json> {
    match value.member(key) {
        Some(found) => if found is Null {
            None
        } else {
            Some(found)
        },
        None => None,
    }
}

/// Code and text of a diagnostic identity, where `value` holds both.
pub open spec fn json_state(value: Json) -> Option<(i64, Seq<char>)> {
    match (value.member("ID"@), value.member("Text"@)) {
        (Some(id), Some(description)) => match (id.as_i64(), description.text()) {
            (Some(id), Some(description)) => Some((id, description)),
            _ => None,
        },
        _ => None,
    }
}

/// Display text and milliseconds of a time, where `value` holds both.
pub open spec fn json_date_time(value: Json) -> Option<(Seq<char>, i64)> {
    match (value.member("DateTime"@), value.member("Timestamp"@)) {
        (Some(display), Some(millis)) => match (display.text(), millis.as_i64()) {
            (Some(display), Some(millis)) => Some((display, millis)),
            _ => None,
        },
        _ => None,
    }
}

/// What stands under one alias of an entry: nothing, a diagnostic
/// identity, or something else (`Err`).
pub open spec fn json_alias(entry: Json, category: Category) -> Result<
    Option<(i64, Seq<char>)>,
    (),
> {
    match given_member(entry, category.alias()) {
        None => Ok(None),
        Some(found) => match json_state(found) {
            Some(state) => Ok(Some(state)),
            None => Err(()),
        },
    }
}

/// Whether the alias of `category` is well formed on `entry`.
pub open spec fn alias_well_formed(entry: Json, category: Category) -> bool {
    json_alias(entry, category) is Ok
}

/// Whether `entry` holds a diagnostic identity under the alias of
/// `category`.
pub open spec fn alias_given(entry: Json, category: Category) -> bool {
    json_alias(entry, category) matches Ok(Some(_))
}

/// The number of aliases under which `entry` holds a diagnostic identity.
pub open spec fn aliases_given(entry: Json) -> nat {
    (if alias_given(entry, Category::Info) {
        1nat
    } else {
        0nat
    }) + (if alias_given(entry, Category::Service) {
        1nat
    } else {
        0nat
    }) + (if alias_given(entry, Category::Warning) {
        1nat
    } else {
        0nat
    }) + (if alias_given(entry, Category::Error) {
        1nat
    } else {
        0nat
    }) + (if alias_given(entry, Category::State) {
        1nat
    } else {
        0nat
    })
}

/// The class of the first alias, in the order `Info`, `Service`,
/// `Warning`, `Error`, `State`, under which `entry` holds a diagnostic
/// identity.
pub open spec fn first_alias_given(entry: Json) -> Category {
    if alias_given(entry, Category::Info) {
        Category::Info
    } else if alias_given(entry, Category::Service) {
        Category::Service
    } else if alias_given(entry, Category::Warning) {
        Category::Warning
    } else if alias_given(entry, Category::Error) {
        Category::Error
    } else {
        Category::State
    }
}

/// The time and the opaque number of an entry, where both are well
/// formed.
pub open spec fn json_entry_tail(entry: Json) -> Option<(Seq<char>, i64, i64)> {
    match (entry.member("DateTime"@), entry.member("Unknown"@)) {
        (Some(time), Some(number)) => match (json_date_time(time), number.as_i64()) {
            (Some((display, millis)), Some(number)) => Some((display, millis, number)),
            _ => None,
        },
        _ => None,
    }
}

/// The entry that a JSON value denotes. It is malformed where an alias, the
/// time or the opaque number is not well formed; otherwise it must hold
/// exactly one alias.
pub open spec fn json_entry(entry: Json) -> Result<EntryView, DecodeError> {
    if !alias_well_formed(entry, Category::Info) || !alias_well_formed(entry, Category::Service)
        || !alias_well_formed(entry, Category::Warning) || !alias_well_formed(
        entry,
        Category::Error,
    ) || !alias_well_formed(entry, Category::State) || json_entry_tail(entry) is None {
        Err(DecodeError::Malformed)
    } else if aliases_given(entry) == 0 {
        Err(DecodeError::MissingVariant)
    } else if aliases_given(entry) > 1 {
        Err(DecodeError::AmbiguousVariant)
    } else {
        let category = first_alias_given(entry);
        let state = json_alias(entry, category)->Ok_0->0;
        let tail = json_entry_tail(entry)->0;
        Ok(
            EntryView {
                state_type: category.alias(),
                id: state.0 as int,
                text: state.1,
                date_time: tail.0,
                timestamp: tail.1 as int,
                unknown: tail.2 as int,
            },
        )
    }
}

/// The entries that a list of JSON values denotes, or the error of the
/// first value that denotes none.
pub open spec fn json_entries(list: Seq<Json>) -> Result<Seq<EntryView>, DecodeError>
    decreases list.len(),
{
    if list.len() == 0 {
        Ok(Seq::empty())
    } else {
        match json_entries(list.drop_last()) {
            Err(e) => Err(e),
            Ok(front) => match json_entry(list.last()) {
                Err(e) => Err(e),
                Ok(entry) => Ok(front.push(entry)),
            },
        }
    }
}

/// An integer within `u32`; `None` for everything else.
pub open spec fn json_u32(value: Json) -> Option<u32> {
    match value.as_u64() {
        Some(n) => if n <= u32::MAX {
            Some(n as u32)
        } else {
            None
        },
        None => None,
    }
}

/// The declared count of a message, where it is an integer within `u32`.
pub open spec fn json_count(message: Json) -> Option<u32> {
    match message.member("Count"@) {
        Some(count) => json_u32(count),
        None => None,
    }
}

/// The grand total of a message: not given, an integer within `u32`, or
/// something else (`Err`).
pub open spec fn json_grand_total(message: Json) -> Result<Option<u32>, ()> {
    match given_member(message, "GrandTotal"@) {
        None => Ok(None),
        Some(total) => match json_u32(total) {
            Some(n) => Ok(Some(n)),
            None => Err(()),
        },
    }
}

/// The list of entries of a message: empty where the member is absent,
/// the elements where it is an array, or something else (`Err`).
pub open spec fn json_list(message: Json) -> Result<Seq<Json>, ()> {
    match message.member("ListEntries"@) {
        None => Ok(Seq::empty()),
        Some(list) => match list.items() {
            Some(elements) => Ok(elements),
            None => Err(()),
        },
    }
}

/// The snapshot that a JSON value denotes.
pub open spec fn json_snapshot(message: Json) -> Result<SnapshotView, DecodeError> {
    match (json_count(message), json_grand_total(message), json_list(message)) {
        (Some(count), Ok(grand_total), Ok(list)) => match json_entries(list) {
            Ok(entries) => Ok(
                SnapshotView {
                    count: count as int,
                    grand_total: match grand_total {
                        Some(n) => Some(n as int),
                        None => None,
                    },
                    entries,
                },
            ),
            Err(e) => Err(e),
        },
        _ => Err(DecodeError::Malformed),
    }
}

/// The snapshot that a text denotes.
pub open spec fn decoded(payload: Seq<char>) -> Result<SnapshotView, DecodeError> {
    match json_document(payload) {
        Some(message) => json_snapshot(message),
        None => Err(DecodeError::Malformed),
    }
}

/// The content of a decoded entry, or the error.
pub open spec fn entry_outcome(r: Result<ListEntryDtc, DecodeError>) -> Result<
    EntryView,
    DecodeError,
> {
    match r {
        Ok(entry) => Ok(entry@),
        Err(e) => Err(e),
    }
}

/// The content of a decoded snapshot, or the error.
pub open spec fn snapshot_outcome(r: Result<ResponseDtc, DecodeError>) -> Result<
    SnapshotView,
    DecodeError,
> {
    match r {
        Ok(snapshot) => Ok(snapshot@),
        Err(e) => Err(e),
    }
}

/// `1` for a value that is there, `0` for none.
pub open spec fn one_if_some(value: Option<State>) -> nat {
    if value is Some {
        1
    } else {
        0
    }
}

impl ListEntryDtc {
    /// Builds an entry from what stood under each of the five aliases.
    /// Exactly one alias must be given; its name is recorded as the kind
    /// of the entry.
    pub fn from_aliases(
        info: Option<State>,
        service: Option<State>,
        warning: Option<State>,
        error: Option<State>,
        state: Option<State>,
        date_time: EntryDateTime,
        unknown: i64,
    ) -> (r: Result<ListEntryDtc, DecodeError>)
        ensures
            ({
                let given = one_if_some(info) + one_if_some(service) + one_if_some(warning)
                    + one_if_some(error) + one_if_some(state);
                let category = if info is Some {
                    Category::Info
                } else if service is Some {
                    Category::Service
                } else if warning is Some {
                    Category::Warning
                } else if error is Some {
                    Category::Error
                } else {
                    Category::State
                };
                let chosen = if info is Some {
                    info
                } else if service is Some {
                    service
                } else if warning is Some {
                    warning
                } else if error is Some {
                    error
                } else {
                    state
                };
                match r {
                    Ok(entry) => {
                        &&& given == 1
                        &&& entry.state_type@ == category.alias()
                        &&& Some(entry.state) == chosen
                        &&& entry.date_time == date_time
                        &&& entry.unknown == unknown
                    },
                    Err(DecodeError::MissingVariant) => given == 0,
                    Err(DecodeError::AmbiguousVariant) => given > 1,
                    Err(DecodeError::Malformed) => false,
                }
            }),
    {
        let mut which: Option<(Category, State)> = None;
        if let Some(s) = info {
            which = Some((Category::Info, s));
        }
        if let Some(s) = service {
            if which.is_some() {
                return Err(DecodeError::AmbiguousVariant);
            }
            which = Some((Category::Service, s));
        }
        if let Some(s) = warning {
            if which.is_some() {
                return Err(DecodeError::AmbiguousVariant);
            }
            which = Some((Category::Warning, s));
        }
        if let Some(s) = error {
            if which.is_some() {
                return Err(DecodeError::AmbiguousVariant);
            }
            which = Some((Category::Error, s));
        }
        if let Some(s) = state {
            if which.is_some() {
                return Err(DecodeError::AmbiguousVariant);
            }
            which = Some((Category::State, s));
        }
        match which {
            Some((category, s)) => Ok(
                ListEntryDtc {
                    state_type: category.alias_name().to_owned(),
                    state: s,
                    date_time,
                    unknown,
                },
            ),
            None => Err(DecodeError::MissingVariant),
        }
    }
}

/// Reads a diagnostic identity from an object with `ID` and `Text`.
fn state_from_json(value: &serde_json::Value) -> (r: Option<State>)
    ensures
        match r {
            Some(s) => json_state(json_model(*value)) == Some((s.id, s.text@)),
            None => json_state(json_model(*value)) is None,
        },
{
    let id = match value_member(value, "ID") {
        Some(found) => value_i64(found),
        None => None,
    };
    let description = match value_member(value, "Text") {
        Some(found) => value_text(found),
        None => None,
    };
    match (id, description) {
        (Some(id), Some(description)) => Some(State { id, text: description.to_owned() }),
        _ => None,
    }
}

/// Reads a time from an object with `DateTime` and `Timestamp`.
fn date_time_from_json(value: &serde_json::Value) -> (r: Option<EntryDateTime>)
    ensures
        match r {
            Some(t) => json_date_time(json_model(*value)) == Some((t.date_time@, t.timestamp)),
            None => json_date_time(json_model(*value)) is None,
        },
{
    let display = match value_member(value, "DateTime") {
        Some(found) => value_text(found),
        None => None,
    };
    let millis = match value_member(value, "Timestamp") {
        Some(found) => value_i64(found),
        None => None,
    };
    match (display, millis) {
        (Some(display), Some(millis)) => Some(
            EntryDateTime { date_time: display.to_owned(), timestamp: millis },
        ),
        _ => None,
    }
}

/// Reads what stands under the alias of `category`.
fn alias_from_json(entry: &serde_json::Value, category: Category) -> (r: Result<
    Option<State>,
    DecodeError,
>)
    ensures
        match r {
            Ok(Some(s)) => json_alias(json_model(*entry), category) == Ok::<
                Option<(i64, Seq<char>)>,
                (),
            >(Some((s.id, s.text@))),
            Ok(None) => json_alias(json_model(*entry), category) == Ok::<
                Option<(i64, Seq<char>)>,
                (),
            >(None),
            Err(e) => e == DecodeError::Malformed && json_alias(json_model(*entry), category)
                is Err,
        },
{
    match value_member(entry, category.alias_name()) {
        None => Ok(None),
        Some(found) => {
            if value_is_null(found) {
                Ok(None)
            } else {
                match state_from_json(found) {
                    Some(s) => Ok(Some(s)),
                    None => Err(DecodeError::Malformed),
                }
            }
        },
    }
}

/// Decodes one entry of a message.
pub fn entry_from_json(entry: &serde_json::Value) -> (r: Result<ListEntryDtc, DecodeError>)
    ensures
        entry_outcome(r) == json_entry(json_model(*entry)),
{
    let info = alias_from_json(entry, Category::Info);
    let service = alias_from_json(entry, Category::Service);
    let warning = alias_from_json(entry, Category::Warning);
    let error = alias_from_json(entry, Category::Error);
    let state = alias_from_json(entry, Category::State);
    let date_time = match value_member(entry, "DateTime") {
        Some(found) => date_time_from_json(found),
        None => None,
    };
    let unknown = match value_member(entry, "Unknown") {
        Some(found) => value_i64(found),
        None => None,
    };
    match (info, service, warning, error, state, date_time, unknown) {
        (
            Ok(info),
            Ok(service),
            Ok(warning),
            Ok(error),
            Ok(state),
            Some(date_time),
            Some(unknown),
        ) => ListEntryDtc::from_aliases(info, service, warning, error, state, date_time, unknown),
        _ => Err(DecodeError::Malformed),
    }
}

/// Reads an integer within `u32`.
fn u32_from_json(value: &serde_json::Value) -> (r: Option<u32>)
    ensures
        r == json_u32(json_model(*value)),
{
    match value_u64(value) {
        Some(n) => {
            if n <= u32::MAX as u64 {
                Some(n as u32)
            } else {
                None
            }
        },
        None => None,
    }
}

/// Decodes a message that has been parsed as JSON.
pub fn snapshot_from_json(message: &serde_json::Value) -> (r: Result<ResponseDtc, DecodeError>)
    ensures
        snapshot_outcome(r) == json_snapshot(json_model(*message)),
{
    let count: u32 = match value_member(message, "Count") {
        Some(found) => match u32_from_json(found) {
            Some(n) => n,
            None => {
                return Err(DecodeError::Malformed);
            },
        },
        None => {
            return Err(DecodeError::Malformed);
        },
    };
    let grand_total: Option<u32> = match value_member(message, "GrandTotal") {
        None => None,
        Some(found) => {
            if value_is_null(found) {
                None
            } else {
                match u32_from_json(found) {
                    Some(n) => Some(n),
                    None => {
                        return Err(DecodeError::Malformed);
                    },
                }
            }
        },
    };
    let mut list_entries: Vec<ListEntryDtc> = Vec::new();
    match value_member(message, "ListEntries") {
        None => {
            assert(json_entries(Seq::<Json>::empty()) == Ok::<
                Seq<EntryView>,
                DecodeError,
            >(Seq::empty()));
            assert(entries_view(list_entries@) == Seq::<EntryView>::empty());
        },
        Some(found) => match value_items(found) {
            None => {
                return Err(DecodeError::Malformed);
            },
            Some(elements) => {
                let ghost models = elements@.map_values(
                    |element: serde_json::Value| json_model(element),
                );
                let mut i: usize = 0;
                assert(models.take(0) == Seq::<Json>::empty());
                assert(entries_view(list_entries@) == Seq::<EntryView>::empty());
                while i < elements.len()
                    invariant
                        i <= elements.len(),
                        models == elements@.map_values(
                            |element: serde_json::Value| json_model(element),
                        ),
                        json_count(json_model(*message)) == Some(count),
                        json_grand_total(json_model(*message)) == Ok::<Option<u32>, ()>(
                            grand_total,
                        ),
                        json_list(json_model(*message)) == Ok::<Seq<Json>, ()>(models),
                        json_entries(models.take(i as int)) == Ok::<
                            Seq<EntryView>,
                            DecodeError,
                        >(entries_view(list_entries@)),
                    decreases elements.len() - i,
                {
                    let ghost before = entries_view(list_entries@);
                    proof {
                        assert(models.take(i + 1).drop_last() == models.take(i as int));
                        assert(models.take(i + 1).last() == json_model(elements@[i as int]));
                    }
                    match entry_from_json(&elements[i]) {
                        Ok(entry) => {
                            list_entries.push(entry);
                            assert(entries_view(list_entries@) == before.push(
                                entry@,
                            ));
                        },
                        Err(e) => {
                            proof {
                                lemma_entries_error_stays(models, i as int + 1);
                            }
                            return Err(e);
                        },
                    }
                    i += 1;
                }
                assert(models.take(i as int) == models);
            },
        },
    }
    Ok(ResponseDtc { count, grand_total, list_entries })
}

/// Once a front part of a list fails to decode, the whole list fails with
/// the same error.
proof fn lemma_entries_error_stays(list: Seq<Json>, n: int)
    requires
        0 <= n <= list.len(),
        json_entries(list.take(n)) is Err,
    ensures
        json_entries(list) == json_entries(list.take(n)),
    decreases list.len() - n,
{
    if n < list.len() {
        assert(list.take(n + 1).drop_last() == list.take(n));
        lemma_entries_error_stays(list, n + 1);
    } else {
        assert(list.take(n) == list);
    }
}

/// Decodes a message from its JSON text.
pub fn decode(payload: &str) -> (r: Result<ResponseDtc, DecodeError>)
    ensures
        snapshot_outcome(r) == decoded(payload@),
{
    match parse_document(payload) {
        Ok(message) => snapshot_from_json(&message),
        Err(_) => Err(DecodeError::Malformed),
    }
}

} // verus!
