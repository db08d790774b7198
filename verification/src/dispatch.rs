//! The decisions of the dispatch loop: what one received message does to
//! the stored snapshots and what has to be forwarded for it.

use crate::config::{InfluxResolved, TopicsResolved};
use crate::decode::{decode, decoded};
use crate::dtc::{
    list_entries_new_not_in_old, new_entries, sort_entries_by_timestamp, stably_sorted, Category,
    DecodeError, ListEntryDtc, ResponseDtc, SnapshotView,
};
use crate::influxdb::{encode, line_records, log_lines, log_record, Tags, TagsView};
use vstd::prelude::*;
use vstd::string::StringSliceAdditionalSpecFns;
use vstd::utf8::{decode_utf8, valid_utf8};

verus! {

/// The snapshot last seen for each class of messages.
#[derive(Debug)]
pub struct DtcStore {
    pub info: ResponseDtc,
    pub status: ResponseDtc,
    pub service: ResponseDtc,
    pub warning: ResponseDtc,
    pub error: ResponseDtc,
}

/// What has to be handed on for the new entries of one message.
#[derive(Debug)]
pub struct Forwarding {
    /// The class of the message.
    pub category: Category,
    /// The new entries, ascending by timestamp.
    pub entries: Vec<ListEntryDtc>,
    /// The text to write to the metrics store, where the store is on.
    pub body: Option<String>,
    /// One line to log per new entry, in the order of `entries`.
    pub log_lines: Vec<String>,
}

/// What one received message leads to.
#[derive(Debug)]
pub enum Action {
    /// The payload is no snapshot; nothing was stored.
    Rejected(DecodeError),
    /// The topic is not tracked; nothing was stored.
    Ignored,
    /// The snapshot was stored and holds nothing new.
    Unchanged(Category),
    /// The snapshot was stored and holds new entries.
    Forward(Forwarding),
}

impl DtcStore {
    /// The snapshot held for `category`.
    pub open spec fn slot(&self, category: Category) -> ResponseDtc {
        match category {
            Category::Info => self.info,
            Category::State => self.status,
            Category::Service => self.service,
            Category::Warning => self.warning,
            Category::Error => self.error,
        }
    }

    /// A store that holds the empty snapshot for every class.
    pub fn new() -> (r: Self)
        ensures
            forall|category: Category|
                (#[trigger] r.slot(category))@ == (SnapshotView {
                    count: 0,
                    grand_total: None,
                    entries: Seq::empty(),
                }),
            forall|category: Category| (#[trigger] r.slot(category)).list_entries@.len() == 0,
    {
        DtcStore {
            info: ResponseDtc::new_empty(),
            status: ResponseDtc::new_empty(),
            service: ResponseDtc::new_empty(),
            warning: ResponseDtc::new_empty(),
            error: ResponseDtc::new_empty(),
        }
    }

    /// The snapshot held for `category`.
    pub fn get(&self, category: Category) -> (r: &ResponseDtc)
        ensures
            *r == self.slot(category),
    {
        match category {
            Category::Info => &self.info,
            Category::State => &self.status,
            Category::Service => &self.service,
            Category::Warning => &self.warning,
            Category::Error => &self.error,
        }
    }

    /// Replaces the snapshot held for `category`; the others stay.
    pub fn replace(&mut self, category: Category, snapshot: ResponseDtc)
        ensures
            final(self).slot(category) == snapshot,
            forall|other: Category|
                other != category ==> #[trigger] final(self).slot(other) == old(self).slot(other),
    {
        match category {
            Category::Info => {
                self.info = snapshot;
            },
            Category::State => {
                self.status = snapshot;
            },
            Category::Service => {
                self.service = snapshot;
            },
            Category::Warning => {
                self.warning = snapshot;
            },
            Category::Error => {
                self.error = snapshot;
            },
        }
    }
}

/// The tags of the records written for messages of `category`.
pub open spec fn tags_for(topics: TopicsResolved, category: Category) -> TagsView {
    TagsView { system_id: topics.systemid@, ecu_id: topics.ecuid@, severity: category.severity() }
}

/// Whether `forwarding` is what has to be handed on for the entries
/// `found`, which are new in a message of `category`.
pub open spec fn forwards(
    forwarding: Forwarding,
    found: Seq<ListEntryDtc>,
    category: Category,
    topics: TopicsResolved,
    influx: InfluxResolved,
) -> bool {
    &&& forwarding.category == category
    &&& stably_sorted(forwarding.entries@, found)
    &&& match forwarding.body {
        Some(body) => influx.enabled && body@ == line_records(
            forwarding.entries@,
            tags_for(topics, category),
            influx.measurement@,
        ),
        None => !influx.enabled,
    }
    &&& forwarding.log_lines@.len() == forwarding.entries@.len()
    &&& forall|i: int|
        0 <= i < forwarding.entries@.len() ==> (#[trigger] forwarding.log_lines@[i])@
            == log_record(forwarding.entries@[i], tags_for(topics, category))
}

/// Whether `action` and the store `after` are what the message with the
/// given topic and payload leads to from the store `before`.
///
/// A payload that is no snapshot is rejected and a topic that is not
/// tracked is ignored; neither changes the store. Otherwise the snapshot
/// replaces the one held for its class, whether or not it holds anything
/// new, and the entries that the replaced snapshot did not know are
/// handed on.
pub open spec fn handles(
    before: DtcStore,
    after: DtcStore,
    topics: TopicsResolved,
    influx: InfluxResolved,
    topic: Seq<char>,
    payload: Seq<char>,
    action: Action,
) -> bool {
    match decoded(payload) {
        Err(e) => action == Action::Rejected(e) && after == before,
        Ok(snapshot) => match topics.category_of(topic) {
            None => action is Ignored && after == before,
            Some(category) => {
                let found = new_entries(
                    before.slot(category).list_entries@,
                    after.slot(category).list_entries@,
                );
                &&& after.slot(category)@ == snapshot
                &&& forall|other: Category|
                    other != category ==> #[trigger] after.slot(other) == before.slot(other)
                &&& if found.len() == 0 {
                    action == Action::Unchanged(category)
                } else {
                    action matches Action::Forward(forwarding) && forwards(
                        forwarding,
                        found,
                        category,
                        topics,
                        influx,
                    )
                }
            },
        },
    }
}

/// Handles one received message, given as text.
///
/// The new entries are handed on ascending by timestamp: as the text for
/// the metrics store, where that is on, and as one line to log per entry.
pub fn handle_message(
    store: &mut DtcStore,
    topics: &TopicsResolved,
    influx: &InfluxResolved,
    topic: &str,
    payload: &str,
) -> (action: Action)
    ensures
        handles(*old(store), *final(store), *topics, *influx, topic@, payload@, action),
{
    let new_message = match decode(payload) {
        Ok(message) => message,
        Err(e) => {
            return Action::Rejected(e);
        },
    };
    let category = match topics.classify(topic) {
        Some(category) => category,
        None => {
            return Action::Ignored;
        },
    };
    let mut entries = list_entries_new_not_in_old(store.get(category), &new_message);
    store.replace(category, new_message);
    sort_entries_by_timestamp(&mut entries);
    if entries.len() == 0 {
        return Action::Unchanged(category);
    }
    let tags = Tags {
        system_id: topics.systemid.as_str(),
        ecu_id: topics.ecuid.as_str(),
        severity: category.severity_label(),
    };
    let body = if influx.enabled {
        Some(encode(&entries, &tags, influx.measurement.as_str()))
    } else {
        None
    };
    let log_lines = log_lines(&entries, &tags);
    Action::Forward(Forwarding { category, entries, body, log_lines })
}

/// The text that bytes stand for: their characters where the bytes are
/// UTF-8, and the empty text where they are not.
pub open spec fn bytes_text(bytes: Seq<u8>) -> Seq<char> {
    if valid_utf8(bytes) {
        decode_utf8(bytes)
    } else {
        Seq::empty()
    }
}

/// Reads bytes as UTF-8 text.
///
/// Trusted: `core::str::from_utf8` of the standard library returns the
/// bytes as a string slice where they are valid UTF-8, and an error where
/// they are not.
#[verifier::external_body]
fn utf8_text(bytes: &[u8]) -> (r: Option<&str>)
    ensures
        match r {
            Some(s) => valid_utf8(bytes@) && s.spec_bytes() == bytes@,
            None => !valid_utf8(bytes@),
        },
{
    core::str::from_utf8(bytes).ok()
}

/// The text that bytes stand for, empty where they are not UTF-8.
pub fn text_or_empty(bytes: &[u8]) -> (r: &str)
    ensures
        r@ == bytes_text(bytes@),
{
    match utf8_text(bytes) {
        Some(s) => {
            proof {
                vstd::utf8::encode_utf8_decode_utf8(s@);
            }
            s
        },
        None => {
            proof {
                reveal_strlit("");
            }
            ""
        },
    }
}

/// Handles one received message, given as the bytes of its topic and of
/// its payload. Bytes that are not UTF-8 count as the empty text.
pub fn handle_publish(
    store: &mut DtcStore,
    topics: &TopicsResolved,
    influx: &InfluxResolved,
    topic: &[u8],
    payload: &[u8],
) -> (action: Action)
    ensures
        handles(
            *old(store),
            *final(store),
            *topics,
            *influx,
            bytes_text(topic@),
            bytes_text(payload@),
            action,
        ),
{
    handle_message(store, topics, influx, text_or_empty(topic), text_or_empty(payload))
}

} // verus!
