//! Snapshot model of a diagnostic trouble code history, the equality of
//! its entries, the snapshot-to-snapshot diff and the timestamp sort.

use crate::text::{decimal, push_char, push_decimal, str_eq};
use crate::timestamp::{format_millis, iso8601_of_millis};
use vstd::prelude::*;

verus! {

/// Diagnostic identity of an entry: numeric code and description.
#[derive(Debug)]
pub struct State {
    pub id: i64,
    pub text: String,
}

/// Time of occurrence, as display text and as milliseconds since the epoch.
#[derive(Debug)]
pub struct EntryDateTime {
    pub date_time: String,
    pub timestamp: i64,
}

/// One diagnostic record of a snapshot.
#[derive(Debug)]
pub struct ListEntryDtc {
    /// Name of the alias under which the record arrived
    /// (`Info`, `State`, `Service`, `Warning` or `Error`).
    pub state_type: String,
    pub state: State,
    pub date_time: EntryDateTime,
    pub unknown: i64,
}

/// One decoded history message.
#[derive(Debug)]
pub struct ResponseDtc {
    pub count: u32,
    pub grand_total: Option<u32>,
    pub list_entries: Vec<ListEntryDtc>,
}

/// The five classes of diagnostic messages.
#[derive(Debug, Clone, Copy, PartialEq, Eq, Structural)]
pub enum Category {
    Info,
    Service,
    State,
    Warning,
    Error,
}

/// Why a message is no snapshot.
#[derive(Debug, Clone, Copy, PartialEq, Eq, Structural)]
pub enum DecodeError {
    /// An entry carries none of the five aliases.
    MissingVariant,
    /// An entry carries more than one of the five aliases.
    AmbiguousVariant,
    /// The text is no JSON document, or a part of it is absent or of the
    /// wrong type.
    Malformed,
}

/// Mathematical content of a [`ListEntryDtc`].
pub struct EntryView {
    pub state_type: Seq<char>,
    pub id: int,
    pub text: Seq<char>,
    pub date_time: Seq<char>,
    pub timestamp: int,
    pub unknown: int,
}

/// Mathematical content of a [`ResponseDtc`].
pub struct SnapshotView {
    pub count: int,
    pub grand_total: Option<int>,
    pub entries: Seq<EntryView>,
}

impl View for ListEntryDtc {
    type V = EntryView;

    open spec fn view(&self) -> EntryView {
        EntryView {
            state_type: self.state_type@,
            id: self.state.id as int,
            text: self.state.text@,
            date_time: self.date_time.date_time@,
            timestamp: self.date_time.timestamp as int,
            unknown: self.unknown as int,
        }
    }
}

/// The views of a sequence of entries, in order.
pub open spec fn entries_view(entries: Seq<ListEntryDtc>) -> Seq<EntryView> {
    entries.map_values(|e: ListEntryDtc| e@)
}

impl View for ResponseDtc {
    type V = SnapshotView;

    open spec fn view(&self) -> SnapshotView {
        SnapshotView {
            count: self.count as int,
            grand_total: match self.grand_total {
                Some(n) => Some(n as int),
                None => None,
            },
            entries: entries_view(self.list_entries@),
        }
    }
}

/// Two entries are the same record when code, text, both forms of the
/// time and the opaque number agree. The alias is not compared.
pub open spec fn same_entry(a: EntryView, b: EntryView) -> bool {
    &&& a.id == b.id
    &&& a.text == b.text
    &&& a.date_time == b.date_time
    &&& a.timestamp == b.timestamp
    &&& a.unknown == b.unknown
}

impl Clone for State {
    fn clone(&self) -> (r: Self)
        ensures
            r == *self,
    {
        State { id: self.id, text: self.text.clone() }
    }
}

impl Clone for EntryDateTime {
    fn clone(&self) -> (r: Self)
        ensures
            r == *self,
    {
        EntryDateTime { date_time: self.date_time.clone(), timestamp: self.timestamp }
    }
}

impl Clone for ListEntryDtc {
    fn clone(&self) -> (r: Self)
        ensures
            r == *self,
    {
        ListEntryDtc {
            state_type: self.state_type.clone(),
            state: self.state.clone(),
            date_time: self.date_time.clone(),
            unknown: self.unknown,
        }
    }
}

impl PartialEq for State {
    fn eq(&self, other: &Self) -> (r: bool) {
        self.id == other.id && self.text == other.text
    }
}

impl vstd::std_specs::cmp::PartialEqSpecImpl for State {
    open spec fn obeys_eq_spec() -> bool {
        true
    }

    open spec fn eq_spec(&self, other: &Self) -> bool {
        self.id == other.id && self.text@ == other.text@
    }
}

impl Eq for State {}

impl PartialEq for EntryDateTime {
    fn eq(&self, other: &Self) -> (r: bool) {
        self.date_time == other.date_time && self.timestamp == other.timestamp
    }
}

impl vstd::std_specs::cmp::PartialEqSpecImpl for EntryDateTime {
    open spec fn obeys_eq_spec() -> bool {
        true
    }

    open spec fn eq_spec(&self, other: &Self) -> bool {
        self.date_time@ == other.date_time@ && self.timestamp == other.timestamp
    }
}

impl Eq for EntryDateTime {}

impl PartialEq for ListEntryDtc {
    fn eq(&self, other: &Self) -> (r: bool) {
        self.state == other.state && self.date_time == other.date_time && self.unknown
            == other.unknown
    }
}

impl vstd::std_specs::cmp::PartialEqSpecImpl for ListEntryDtc {
    open spec fn obeys_eq_spec() -> bool {
        true
    }

    open spec fn eq_spec(&self, other: &Self) -> bool {
        same_entry(self@, other@)
    }
}

impl Eq for ListEntryDtc {}

impl ResponseDtc {
    /// A snapshot without entries, as held before the first message.
    pub fn new_empty() -> (r: Self)
        ensures
            r.count == 0,
            r.grand_total is None,
            r.list_entries@.len() == 0,
            r@ == (SnapshotView { count: 0, grand_total: None, entries: Seq::empty() }),
    {
        let r = ResponseDtc { count: 0, grand_total: None, list_entries: Vec::new() };
        assert(entries_view(r.list_entries@) =~= Seq::empty());
        r
    }
}

/// Whether some entry of `known` is the same record as `entry`.
pub open spec fn is_known(known: Seq<ListEntryDtc>, entry: ListEntryDtc) -> bool {
    exists|j: int| 0 <= j < known.len() && same_entry(#[trigger] known[j]@, entry@)
}

/// The entries of `new` that are not known in `old`, in the order of `new`.
pub open spec fn new_entries(old: Seq<ListEntryDtc>, new: Seq<ListEntryDtc>) -> Seq<
    ListEntryDtc,
> {
    new.filter(|e: ListEntryDtc| !is_known(old, e))
}

/// Whether `list` holds an entry that is the same record as `entry`.
fn contains_entry(list: &Vec<ListEntryDtc>, entry: &ListEntryDtc) -> (r: bool)
    ensures
        r == is_known(list@, *entry),
{
    let mut i: usize = 0;
    while i < list.len()
        invariant
            i <= list.len(),
            forall|j: int| 0 <= j < i ==> !same_entry(#[trigger] list@[j]@, entry@),
        decreases list.len() - i,
    {
        if list[i] == *entry {
            return true;
        }
        i += 1;
    }
    false
}

/// Returns all `list_entries` that are contained in `new_message` but not
/// in `old_message`, in the order in which `new_message` holds them.
pub fn list_entries_new_not_in_old(old_message: &ResponseDtc, new_message: &ResponseDtc) -> (r:
    Vec<ListEntryDtc>)
    ensures
        r@ == new_entries(old_message.list_entries@, new_message.list_entries@),
{
    let ghost unseen = |e: ListEntryDtc| !is_known(old_message.list_entries@, e);
    let mut out: Vec<ListEntryDtc> = Vec::new();
    let mut i: usize = 0;
    while i < new_message.list_entries.len()
        invariant
            i <= new_message.list_entries.len(),
            unseen == |e: ListEntryDtc| !is_known(old_message.list_entries@, e),
            out@ == new_message.list_entries@.take(i as int).filter(unseen),
        decreases new_message.list_entries.len() - i,
    {
        let entry = &new_message.list_entries[i];
        proof {
            let before = new_message.list_entries@.take(i as int);
            assert(new_message.list_entries@.take(i + 1) == before.push(*entry));
            before.lemma_filter_push(*entry, unseen);
        }
        if !contains_entry(&old_message.list_entries, entry) {
            out.push(entry.clone());
        }
        i += 1;
    }
    assert(new_message.list_entries@.take(i as int) == new_message.list_entries@);
    out
}

/// Filtering by a predicate and then forgetting the order gives the same
/// as forgetting the order and then filtering.
proof fn lemma_filter_to_multiset(s: Seq<ListEntryDtc>, keep: spec_fn(ListEntryDtc) -> bool)
    ensures
        s.filter(keep).to_multiset() == s.to_multiset().filter(keep),
    decreases s.len(),
{
    broadcast use vstd::multiset::group_multiset_axioms;
    broadcast use vstd::seq_lib::group_to_multiset_ensures;

    if s.len() == 0 {
        reveal(Seq::filter);
        assert(s.filter(keep).to_multiset() =~= s.to_multiset().filter(keep));
    } else {
        let front = s.drop_last();
        let last = s.last();
        lemma_filter_to_multiset(front, keep);
        front.lemma_filter_push(last, keep);
        assert(s == front.push(last));
        assert(s.to_multiset() =~= front.to_multiset().insert(last));
        assert(s.filter(keep).to_multiset() =~= s.to_multiset().filter(keep));
    }
}

/// Two lists with the same entries, in whatever order, know the same entries.
proof fn lemma_known_ignores_order(a: Seq<ListEntryDtc>, b: Seq<ListEntryDtc>, e: ListEntryDtc)
    requires
        a.to_multiset() == b.to_multiset(),
    ensures
        is_known(a, e) == is_known(b, e),
{
    broadcast use vstd::seq_lib::group_to_multiset_ensures;

    if is_known(a, e) {
        let j = choose|j: int| 0 <= j < a.len() && same_entry(#[trigger] a[j]@, e@);
        assert(a.contains(a[j]));
        assert(b.to_multiset().count(a[j]) > 0);
        assert(b.contains(a[j]));
        let k = choose|k: int| 0 <= k < b.len() && b[k] == a[j];
        assert(same_entry(b[k]@, e@));
    }
    if is_known(b, e) {
        let j = choose|j: int| 0 <= j < b.len() && same_entry(#[trigger] b[j]@, e@);
        assert(b.contains(b[j]));
        assert(a.to_multiset().count(b[j]) > 0);
        assert(a.contains(b[j]));
        let k = choose|k: int| 0 <= k < a.len() && a[k] == b[j];
        assert(same_entry(a[k]@, e@));
    }
}

/// Against itself a snapshot has no new entry.
pub proof fn lemma_diff_with_self_is_empty(a: Seq<ListEntryDtc>)
    ensures
        new_entries(a, a) == Seq::<ListEntryDtc>::empty(),
{
    let unseen = |e: ListEntryDtc| !is_known(a, e);
    assert forall|i: int| 0 <= i < a.len() implies !unseen(#[trigger] a[i]) by {
        assert(same_entry(a[i]@, a[i]@));
    }
    assert(a.all(|e: ListEntryDtc| !unseen(e)));
    a.lemma_all_neg_filter_empty(unseen);
    assert(a.filter(unseen) =~= Seq::<ListEntryDtc>::empty());
}

/// Against the empty snapshot every entry is new: the diff is the whole
/// list, in its order.
pub proof fn lemma_diff_with_empty_is_all(a: Seq<ListEntryDtc>)
    ensures
        new_entries(Seq::<ListEntryDtc>::empty(), a) == a,
    decreases a.len(),
{
    let unseen = |e: ListEntryDtc| !is_known(Seq::<ListEntryDtc>::empty(), e);
    if a.len() == 0 {
        reveal(Seq::filter);
    } else {
        lemma_diff_with_empty_is_all(a.drop_last());
        a.drop_last().lemma_filter_push(a.last(), unseen);
        assert(a == a.drop_last().push(a.last()));
    }
}

/// The diff does not depend on the order of the entries within either
/// snapshot: reordering the old one changes nothing, and reordering the
/// new one reorders the result and nothing else.
pub proof fn lemma_diff_ignores_order(
    old1: Seq<ListEntryDtc>,
    old2: Seq<ListEntryDtc>,
    new1: Seq<ListEntryDtc>,
    new2: Seq<ListEntryDtc>,
)
    requires
        old1.to_multiset() == old2.to_multiset(),
        new1.to_multiset() == new2.to_multiset(),
    ensures
        new_entries(old1, new1) == new_entries(old2, new1),
        new_entries(old1, new1).to_multiset() == new_entries(old2, new2).to_multiset(),
{
    let unseen1 = |e: ListEntryDtc| !is_known(old1, e);
    let unseen2 = |e: ListEntryDtc| !is_known(old2, e);
    assert forall|e: ListEntryDtc| #[trigger] unseen1(e) == unseen2(e) by {
        lemma_known_ignores_order(old1, old2, e);
    }
    assert(unseen1 =~= unseen2);
    lemma_filter_to_multiset(new1, unseen1);
    lemma_filter_to_multiset(new2, unseen1);
}

/// Ascending by millisecond timestamp.
pub open spec fn sorted_by_timestamp(s: Seq<ListEntryDtc>) -> bool {
    forall|i: int, j: int|
        0 <= i <= j < s.len() ==> s[i].date_time.timestamp <= s[j].date_time.timestamp
}

/// The entries of `s` whose millisecond timestamp is `t`, in the order of `s`.
pub open spec fn with_timestamp(s: Seq<ListEntryDtc>, t: i64) -> Seq<ListEntryDtc> {
    s.filter(|e: ListEntryDtc| e.date_time.timestamp == t)
}

/// Whether `result` holds the entries of `input` ascending by timestamp,
/// those that share a timestamp in the order in which `input` holds them.
pub open spec fn stably_sorted(result: Seq<ListEntryDtc>, input: Seq<ListEntryDtc>) -> bool {
    &&& result.len() == input.len()
    &&& sorted_by_timestamp(result)
    &&& forall|t: i64| #[trigger] with_timestamp(result, t) == with_timestamp(input, t)
}

/// The first entry of a sorted list is not later than the first entry of
/// another list that holds, for each timestamp, the same entries.
proof fn lemma_first_is_earliest(a: Seq<ListEntryDtc>, b: Seq<ListEntryDtc>)
    requires
        a.len() > 0,
        sorted_by_timestamp(a),
        forall|t: i64| #[trigger] with_timestamp(a, t) == with_timestamp(b, t),
        b.len() > 0,
    ensures
        a[0].date_time.timestamp <= b[0].date_time.timestamp,
{
    let t = b[0].date_time.timestamp;
    let at = |e: ListEntryDtc| e.date_time.timestamp == t;
    b.lemma_filter_contains(at, 0);
    assert(with_timestamp(a, t) == with_timestamp(b, t));
    a.lemma_filter_contains_rev(at, b[0]);
    let k = choose|k: int| 0 <= k < a.len() && a[k] == b[0];
    assert(a[0].date_time.timestamp <= a[k].date_time.timestamp);
}

/// Two sorted lists that hold, for each timestamp, the same entries in the
/// same order, are one list.
proof fn lemma_sorted_groups_decide(a: Seq<ListEntryDtc>, b: Seq<ListEntryDtc>)
    requires
        a.len() == b.len(),
        sorted_by_timestamp(a),
        sorted_by_timestamp(b),
        forall|t: i64| #[trigger] with_timestamp(a, t) == with_timestamp(b, t),
    ensures
        a == b,
    decreases a.len(),
{
    if a.len() == 0 {
        assert(a =~= b);
    } else {
        lemma_first_is_earliest(a, b);
        lemma_first_is_earliest(b, a);
        let first = a[0].date_time.timestamp;
        let rest_a = a.skip(1);
        let rest_b = b.skip(1);
        assert(a == seq![a[0]] + rest_a);
        assert(b == seq![b[0]] + rest_b);
        assert forall|t: i64| #[trigger]
            with_timestamp(rest_a, t) == with_timestamp(rest_b, t) && (t == first ==> a[0]
                == b[0]) by {
            let at = |e: ListEntryDtc| e.date_time.timestamp == t;
            rest_a.lemma_filter_prepend(a[0], at);
            rest_b.lemma_filter_prepend(b[0], at);
            assert(with_timestamp(a, t) == with_timestamp(b, t));
            let group_a = rest_a.filter(at);
            let group_b = rest_b.filter(at);
            if t == first {
                assert(seq![a[0]] + group_a == seq![b[0]] + group_b);
                assert((seq![a[0]] + group_a)[0] == a[0]);
                assert((seq![b[0]] + group_b)[0] == b[0]);
                assert((seq![a[0]] + group_a).skip(1) == group_a);
                assert((seq![b[0]] + group_b).skip(1) == group_b);
            } else {
                assert(Seq::<ListEntryDtc>::empty() + group_a == group_a);
                assert(Seq::<ListEntryDtc>::empty() + group_b == group_b);
            }
        }
        assert(with_timestamp(rest_a, first) == with_timestamp(rest_b, first));
        assert(a[0] == b[0]);
        assert forall|i: int, j: int| 0 <= i <= j < rest_a.len() implies rest_a[i].date_time.timestamp
            <= rest_a[j].date_time.timestamp by {
            assert(rest_a[i] == a[i + 1] && rest_a[j] == a[j + 1]);
        }
        assert forall|i: int, j: int| 0 <= i <= j < rest_b.len() implies rest_b[i].date_time.timestamp
            <= rest_b[j].date_time.timestamp by {
            assert(rest_b[i] == b[i + 1] && rest_b[j] == b[j + 1]);
        }
        lemma_sorted_groups_decide(rest_a, rest_b);
    }
}

/// There is one stable sort of a list: two lists that both hold the
/// entries of `input` stably sorted are equal.
pub proof fn lemma_stable_sort_is_unique(
    a: Seq<ListEntryDtc>,
    b: Seq<ListEntryDtc>,
    input: Seq<ListEntryDtc>,
)
    requires
        stably_sorted(a, input),
        stably_sorted(b, input),
    ensures
        a == b,
{
    assert forall|t: i64| #[trigger] with_timestamp(a, t) == with_timestamp(b, t) by {
        assert(with_timestamp(a, t) == with_timestamp(input, t));
        assert(with_timestamp(b, t) == with_timestamp(input, t));
    }
    lemma_sorted_groups_decide(a, b);
}

/// Placing `e` in front of every entry that is not earlier than it keeps,
/// for each timestamp, the entries that carry it in order, with `e` first
/// among those of its own timestamp.
proof fn lemma_insert_with_timestamp(s: Seq<ListEntryDtc>, p: int, e: ListEntryDtc, t: i64)
    requires
        0 <= p <= s.len(),
        forall|i: int| 0 <= i < p ==> s[i].date_time.timestamp < e.date_time.timestamp,
    ensures
        with_timestamp(s.insert(p, e), t) == if e.date_time.timestamp == t {
            seq![e] + with_timestamp(s, t)
        } else {
            with_timestamp(s, t)
        },
{
    let at = |x: ListEntryDtc| x.date_time.timestamp == t;
    let head = s.subrange(0, p);
    let tail = s.subrange(p, s.len() as int);
    assert(s == head + tail);
    Seq::filter_distributes_over_add(head, tail, at);
    Seq::filter_distributes_over_add(head.push(e), tail, at);
    head.lemma_filter_push(e, at);
    if e.date_time.timestamp == t {
        assert(head.all(|x: ListEntryDtc| !at(x)));
        head.lemma_all_neg_filter_empty(at);
        assert(head.filter(at) == Seq::<ListEntryDtc>::empty());
        assert(head.filter(at).push(e) == seq![e]);
        assert(Seq::<ListEntryDtc>::empty() + tail.filter(at) == tail.filter(at));
    }
}

/// Inserting `e` between the earlier entries and the others keeps the order.
proof fn lemma_insert_sorted(s: Seq<ListEntryDtc>, p: int, e: ListEntryDtc)
    requires
        0 <= p <= s.len(),
        sorted_by_timestamp(s),
        forall|i: int| 0 <= i < p ==> s[i].date_time.timestamp < e.date_time.timestamp,
        p < s.len() ==> e.date_time.timestamp <= s[p].date_time.timestamp,
    ensures
        sorted_by_timestamp(s.insert(p, e)),
{
    let r = s.insert(p, e);
    assert forall|i: int, j: int| 0 <= i <= j < r.len() implies r[i].date_time.timestamp
        <= r[j].date_time.timestamp by {
        let a = if i < p {
            s[i]
        } else if i == p {
            e
        } else {
            s[i - 1]
        };
        let b = if j < p {
            s[j]
        } else if j == p {
            e
        } else {
            s[j - 1]
        };
        assert(r[i] == a);
        assert(r[j] == b);
        if j > p {
            assert(s[p].date_time.timestamp <= s[j - 1].date_time.timestamp);
        }
    }
}

/// Sorts the entries by their millisecond timestamp, ascending and in place.
/// The sort is stable: the entries that share a timestamp stay in the
/// order in which they stood.
pub fn sort_entries_by_timestamp(entries: &mut Vec<ListEntryDtc>)
    ensures
        stably_sorted(final(entries)@, old(entries)@),
        final(entries)@.to_multiset() == old(entries)@.to_multiset(),
{
    broadcast use vstd::seq_lib::group_to_multiset_ensures;

    let ghost given = entries@;
    let mut sorted: Vec<ListEntryDtc> = Vec::new();
    proof {
        assert(given.take(given.len() as int) == given);
        assert(sorted@.to_multiset().add(entries@.to_multiset()) =~= given.to_multiset());
        assert forall|t: i64| #[trigger]
            with_timestamp(sorted@, t) == with_timestamp(
                given.skip(given.len() as int),
                t,
            ) by {
            assert(given.skip(given.len() as int) == sorted@);
        }
    }
    while entries.len() > 0
        invariant
            entries@ == given.take(entries@.len() as int),
            entries@.len() + sorted@.len() == given.len(),
            sorted_by_timestamp(sorted@),
            forall|t: i64| #[trigger]
                with_timestamp(sorted@, t) == with_timestamp(
                    given.skip(entries@.len() as int),
                    t,
                ),
            sorted@.to_multiset().add(entries@.to_multiset()) == given.to_multiset(),
        decreases entries@.len(),
    {
        let ghost rest = given.skip(entries@.len() as int);
        let ghost before = sorted@;
        let ghost pending = entries@;
        let e = entries.pop().unwrap();
        let mut p: usize = 0;
        while p < sorted.len() && sorted[p].date_time.timestamp < e.date_time.timestamp
            invariant
                p <= sorted.len(),
                forall|i: int|
                    0 <= i < p ==> sorted@[i].date_time.timestamp < e.date_time.timestamp,
            decreases sorted.len() - p,
        {
            p += 1;
        }
        sorted.insert(p, e);
        proof {
            assert(pending == entries@.push(e));
            assert(sorted@.to_multiset().add(entries@.to_multiset()) =~= before.to_multiset().add(
                pending.to_multiset(),
            )) by {
                broadcast use vstd::multiset::group_multiset_axioms;

                vstd::seq_lib::to_multiset_insert(before, p as int, e);
                vstd::seq_lib::to_multiset_build(entries@, e);
            }
            lemma_insert_sorted(before, p as int, e);
            let now = given.skip(entries@.len() as int);
            assert(now == seq![e] + rest);
            assert forall|t: i64| #[trigger]
                with_timestamp(sorted@, t) == with_timestamp(now, t) by {
                let at = |x: ListEntryDtc| x.date_time.timestamp == t;
                lemma_insert_with_timestamp(before, p as int, e, t);
                Seq::filter_distributes_over_add(seq![e], rest, at);
                Seq::<ListEntryDtc>::empty().lemma_filter_push(e, at);
                assert(Seq::<ListEntryDtc>::empty().push(e) == seq![e]);
                assert(Seq::<ListEntryDtc>::empty().filter(at) == Seq::<ListEntryDtc>::empty())
                    by {
                    reveal(Seq::filter);
                }
                assert(with_timestamp(before, t) == with_timestamp(rest, t));
                if e.date_time.timestamp != t {
                    assert(Seq::<ListEntryDtc>::empty() + rest.filter(at) == rest.filter(at));
                }
            }
        }
    }
    assert(given.skip(0) == given);
    assert(sorted@.to_multiset() =~= given.to_multiset());
    *entries = sorted;
}

impl DecodeError {
    /// The sentence that describes the error.
    pub open spec fn sentence(self) -> Seq<char> {
        match self {
            DecodeError::MissingVariant => "No one of (Info/Service/Warning/Error/State) found"@,
            DecodeError::AmbiguousVariant => "More then one of (Info/Service/Warning/Error/State) found"@,
            DecodeError::Malformed => "The payload is not a message"@,
        }
    }

    /// The sentence that describes the error.
    pub fn message(self) -> (r: &'static str)
        ensures
            r@ == self.sentence(),
    {
        match self {
            DecodeError::MissingVariant => "No one of (Info/Service/Warning/Error/State) found",
            DecodeError::AmbiguousVariant => "More then one of (Info/Service/Warning/Error/State) found",
            DecodeError::Malformed => "The payload is not a message",
        }
    }
}

impl Category {
    /// The name of the field under which entries of this class arrive.
    pub open spec fn alias(self) -> Seq<char> {
        match self {
            Category::Info => "Info"@,
            Category::Service => "Service"@,
            Category::State => "State"@,
            Category::Warning => "Warning"@,
            Category::Error => "Error"@,
        }
    }

    /// The severity label of this class.
    pub open spec fn severity(self) -> Seq<char> {
        match self {
            Category::Info => "info"@,
            Category::Service => "notice"@,
            Category::State => "debug"@,
            Category::Warning => "warning"@,
            Category::Error => "err"@,
        }
    }

    /// The letter that stands for this class in a message code.
    pub open spec fn letter(self) -> char {
        match self {
            Category::Info => 'I',
            Category::Service => 'P',
            Category::State => 'S',
            Category::Warning => 'A',
            Category::Error => 'F',
        }
    }

    /// The class that arrives under the field `name`, if there is one.
    pub open spec fn of_alias(name: Seq<char>) -> Option<Category> {
        if name == "Info"@ {
            Some(Category::Info)
        } else if name == "Service"@ {
            Some(Category::Service)
        } else if name == "State"@ {
            Some(Category::State)
        } else if name == "Warning"@ {
            Some(Category::Warning)
        } else if name == "Error"@ {
            Some(Category::Error)
        } else {
            None
        }
    }

    /// The name of the field under which entries of this class arrive.
    pub fn alias_name(self) -> (r: &'static str)
        ensures
            r@ == self.alias(),
    {
        match self {
            Category::Info => "Info",
            Category::Service => "Service",
            Category::State => "State",
            Category::Warning => "Warning",
            Category::Error => "Error",
        }
    }

    /// The severity label: `info`, `notice`, `debug`, `warning` or `err`.
    pub fn severity_label(self) -> (r: &'static str)
        ensures
            r@ == self.severity(),
    {
        match self {
            Category::Info => "info",
            Category::Service => "notice",
            Category::State => "debug",
            Category::Warning => "warning",
            Category::Error => "err",
        }
    }

    /// The single-letter message code: `I`, `P`, `S`, `A` or `F`.
    pub fn code_letter(self) -> (r: char)
        ensures
            r == self.letter(),
    {
        match self {
            Category::Info => 'I',
            Category::Service => 'P',
            Category::State => 'S',
            Category::Warning => 'A',
            Category::Error => 'F',
        }
    }

    /// The class that arrives under the field `name`, if there is one.
    pub fn from_alias(name: &str) -> (r: Option<Category>)
        ensures
            r == Category::of_alias(name@),
    {
        if str_eq(name, "Info") {
            Some(Category::Info)
        } else if str_eq(name, "Service") {
            Some(Category::Service)
        } else if str_eq(name, "State") {
            Some(Category::State)
        } else if str_eq(name, "Warning") {
            Some(Category::Warning)
        } else if str_eq(name, "Error") {
            Some(Category::Error)
        } else {
            None
        }
    }
}

/// The severity label for an alias; an unknown alias counts as `Info`.
pub open spec fn severity_of_alias(name: Seq<char>) -> Seq<char> {
    match Category::of_alias(name) {
        Some(category) => category.severity(),
        None => Category::Info.severity(),
    }
}

/// The message code letter for an alias; an unknown alias counts as `Info`.
pub open spec fn letter_of_alias(name: Seq<char>) -> char {
    match Category::of_alias(name) {
        Some(category) => category.letter(),
        None => Category::Info.letter(),
    }
}

impl ListEntryDtc {
    /// The ISO 8601 text of the entry's millisecond timestamp.
    pub fn get_iso8601_from_timestamp(&self) -> (r: String)
        requires
            iso8601_of_millis(self.date_time.timestamp) is Some,
        ensures
            iso8601_of_millis(self.date_time.timestamp) == Some(r@),
    {
        match format_millis(self.date_time.timestamp) {
            Some(s) => s,
            None => vstd::pervasive::unreached(),
        }
    }

    /// The ISO 8601 text of the entry's millisecond timestamp, or `None`
    /// where the timestamp is outside the range of dates that can be
    /// represented.
    pub fn checked_iso8601_from_timestamp(&self) -> (r: Option<String>)
        ensures
            match r {
                Some(s) => iso8601_of_millis(self.date_time.timestamp) == Some(s@),
                None => iso8601_of_millis(self.date_time.timestamp) is None,
            },
    {
        match format_millis(self.date_time.timestamp) {
            Some(_) => Some(self.get_iso8601_from_timestamp()),
            None => None,
        }
    }

    /// The severity label that belongs to the entry's alias.
    pub fn get_severity(&self) -> (r: String)
        ensures
            r@ == severity_of_alias(self.state_type@),
    {
        match Category::from_alias(self.state_type.as_str()) {
            Some(category) => category.severity_label().to_owned(),
            None => Category::Info.severity_label().to_owned(),
        }
    }

    /// The message code letter that belongs to the entry's alias, as text.
    pub fn get_msg_code_letter(&self) -> (r: String)
        ensures
            r@ == seq![letter_of_alias(self.state_type@)],
    {
        let letter = match Category::from_alias(self.state_type.as_str()) {
            Some(category) => category.code_letter(),
            None => Category::Info.code_letter(),
        };
        let mut out = String::new();
        push_char(&mut out, letter);
        out
    }

    /// The message code: the letter, a full stop and the code in decimal.
    pub fn get_msg_code(&self) -> (r: String)
        ensures
            r@ == seq![letter_of_alias(self.state_type@), '.'] + decimal(self.state.id as int),
    {
        let mut out = self.get_msg_code_letter();
        push_char(&mut out, '.');
        push_decimal(&mut out, self.state.id);
        out
    }
}

} // verus!
