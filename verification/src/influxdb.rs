//! Line-protocol encoding: the escaping rules for measurement names, tag
//! values and string fields, and the records written for a list of entries.

use crate::dtc::ListEntryDtc;
use crate::text::{decimal, push_char, push_decimal};
use crate::timestamp::{format_millis, iso8601_of_millis};
use vstd::prelude::*;
use vstd::string::StringExecFns;

verus! {

/// The text `s` with a backslash written before each character that
/// `special` marks.
pub open spec fn backslash_escaped(s: Seq<char>, special: spec_fn(char) -> bool) -> Seq<char>
    decreases s.len(),
{
    if s.len() == 0 {
        Seq::empty()
    } else if special(s.last()) {
        backslash_escaped(s.drop_last(), special).push('\\').push(s.last())
    } else {
        backslash_escaped(s.drop_last(), special).push(s.last())
    }
}

/// What a reader of the line protocol recovers from escaped text: a
/// backslash that stands before a character marked by `special` is
/// dropped, every other character stays.
pub open spec fn backslash_unescaped(s: Seq<char>, special: spec_fn(char) -> bool) -> Seq<char>
    decreases s.len(),
{
    if s.len() == 0 {
        Seq::empty()
    } else if s[0] == '\\' && s.len() >= 2 && special(s[1]) {
        seq![s[1]] + backslash_unescaped(s.skip(2), special)
    } else {
        seq![s[0]] + backslash_unescaped(s.skip(1), special)
    }
}

/// Characters that are escaped in a measurement name.
pub open spec fn measurement_special(c: char) -> bool {
    c == ',' || c == ' '
}

/// Characters that are escaped in a tag value.
pub open spec fn tag_special(c: char) -> bool {
    c == ',' || c == ' ' || c == '='
}

/// Characters that are escaped inside a quoted string field.
pub open spec fn field_special(c: char) -> bool {
    c == '"' || c == '\\'
}

/// A character of a string field as it is written: a line break becomes a
/// single space.
pub open spec fn without_line_break(c: char) -> char {
    if c == '\n' || c == '\r' {
        ' '
    } else {
        c
    }
}

/// The escaped form of a measurement name.
pub open spec fn escaped_measurement(s: Seq<char>) -> Seq<char> {
    backslash_escaped(s, |c: char| measurement_special(c))
}

/// The escaped form of a tag value.
pub open spec fn escaped_tag(s: Seq<char>) -> Seq<char> {
    backslash_escaped(s, |c: char| tag_special(c))
}

/// The quoted form of a string field: line breaks replaced by spaces,
/// quotes and backslashes escaped, the whole between double quotes.
pub open spec fn escaped_field_string(s: Seq<char>) -> Seq<char> {
    seq!['"'] + backslash_escaped(
        s.map_values(|c: char| without_line_break(c)),
        |c: char| field_special(c),
    ) + seq!['"']
}

/// What a reader recovers from a quoted string field, or `None` where the
/// text does not stand between double quotes.
pub open spec fn unquoted_field_string(s: Seq<char>) -> Option<Seq<char>> {
    if s.len() >= 2 && s[0] == '"' && s.last() == '"' {
        Some(backslash_unescaped(s.subrange(1, s.len() - 1), |c: char| field_special(c)))
    } else {
        None
    }
}

/// Escapes a measurement name: a backslash before each comma and space.
pub fn escape_measurement(input: &str) -> (out: String)
    ensures
        out@ == escaped_measurement(input@),
{
    let ghost special = |c: char| measurement_special(c);
    let mut out = String::new();
    for ch in it: input.chars()
        invariant
            it.seq() == input@,
            special == |c: char| measurement_special(c),
            out@ == backslash_escaped(input@.take(it.index() as int), special),
    {
        assert(input@.take(it.index() + 1).drop_last() == input@.take(it.index() as int));
        if ch == ',' || ch == ' ' {
            push_char(&mut out, '\\');
            push_char(&mut out, ch);
        } else {
            push_char(&mut out, ch);
        }
    }
    assert(input@.take(input@.len() as int) == input@);
    out
}

/// Escapes a tag value: a backslash before each comma, space and equals
/// sign.
pub fn escape_tag(input: &str) -> (out: String)
    ensures
        out@ == escaped_tag(input@),
{
    let ghost special = |c: char| tag_special(c);
    let mut out = String::new();
    for ch in it: input.chars()
        invariant
            it.seq() == input@,
            special == |c: char| tag_special(c),
            out@ == backslash_escaped(input@.take(it.index() as int), special),
    {
        assert(input@.take(it.index() + 1).drop_last() == input@.take(it.index() as int));
        if ch == ',' || ch == ' ' || ch == '=' {
            push_char(&mut out, '\\');
            push_char(&mut out, ch);
        } else {
            push_char(&mut out, ch);
        }
    }
    assert(input@.take(input@.len() as int) == input@);
    out
}

/// Writes a string field: between double quotes, with a backslash before
/// each double quote and backslash, and a space in place of each carriage
/// return and line feed.
pub fn escape_field_string(input: &str) -> (out: String)
    ensures
        out@ == escaped_field_string(input@),
{
    let ghost special = |c: char| field_special(c);
    let ghost flat = |c: char| without_line_break(c);
    let mut out = String::new();
    push_char(&mut out, '"');
    for ch in it: input.chars()
        invariant
            it.seq() == input@,
            special == |c: char| field_special(c),
            flat == |c: char| without_line_break(c),
            out@ == seq!['"'] + backslash_escaped(
                input@.take(it.index() as int).map_values(flat),
                special,
            ),
    {
        proof {
            let done = input@.take(it.index() as int).map_values(flat);
            let next = input@.take(it.index() + 1).map_values(flat);
            assert(next.drop_last() == done);
            assert(next.last() == without_line_break(ch));
        }
        if ch == '"' {
            push_char(&mut out, '\\');
            push_char(&mut out, '"');
        } else if ch == '\\' {
            push_char(&mut out, '\\');
            push_char(&mut out, '\\');
        } else if ch == '\n' || ch == '\r' {
            push_char(&mut out, ' ');
        } else {
            push_char(&mut out, ch);
        }
    }
    assert(input@.take(input@.len() as int) == input@);
    push_char(&mut out, '"');
    out
}

/// The escaped text with its first character split off: that character,
/// behind a backslash where it is marked, and then the escaped rest.
proof fn lemma_escaped_front(s: Seq<char>, special: spec_fn(char) -> bool)
    requires
        s.len() > 0,
    ensures
        backslash_escaped(s, special) == (if special(s[0]) {
            seq!['\\', s[0]]
        } else {
            seq![s[0]]
        }) + backslash_escaped(s.skip(1), special),
    decreases s.len(),
{
    let first = if special(s[0]) {
        seq!['\\', s[0]]
    } else {
        seq![s[0]]
    };
    if s.len() == 1 {
        assert(s.drop_last() == Seq::<char>::empty());
        assert(s.skip(1) == Seq::<char>::empty());
        assert(backslash_escaped(s.drop_last(), special) == Seq::<char>::empty());
        assert(backslash_escaped(s, special) == first + Seq::<char>::empty());
    } else {
        let front = s.drop_last();
        lemma_escaped_front(front, special);
        assert(front.skip(1) == s.skip(1).drop_last());
        assert(s.skip(1).last() == s.last());
        assert(front[0] == s[0]);
        let middle = backslash_escaped(front.skip(1), special);
        if special(s.last()) {
            assert((first + middle).push('\\').push(s.last()) == first + middle.push('\\').push(
                s.last(),
            ));
        } else {
            assert((first + middle).push(s.last()) == first + middle.push(s.last()));
        }
    }
}

/// Unescaping what was escaped gives the text back, whichever characters
/// are marked.
pub proof fn lemma_unescape_inverts_escape(s: Seq<char>, special: spec_fn(char) -> bool)
    ensures
        backslash_unescaped(backslash_escaped(s, special), special) == s,
    decreases s.len(),
{
    if s.len() > 0 {
        let rest = s.skip(1);
        let escaped = backslash_escaped(s, special);
        let escaped_rest = backslash_escaped(rest, special);
        lemma_escaped_front(s, special);
        lemma_unescape_inverts_escape(rest, special);
        if special(s[0]) {
            assert(escaped.skip(2) == escaped_rest);
        } else {
            assert(escaped.skip(1) == escaped_rest);
            if rest.len() > 0 {
                lemma_escaped_front(rest, special);
            }
        }
        assert(seq![s[0]] + rest == s);
    }
}

/// A reader of the line protocol recovers a measurement name exactly.
pub proof fn lemma_measurement_round_trip(s: Seq<char>)
    ensures
        backslash_unescaped(escaped_measurement(s), |c: char| measurement_special(c)) == s,
{
    lemma_unescape_inverts_escape(s, |c: char| measurement_special(c));
}

/// A reader of the line protocol recovers a tag value exactly.
pub proof fn lemma_tag_round_trip(s: Seq<char>)
    ensures
        backslash_unescaped(escaped_tag(s), |c: char| tag_special(c)) == s,
{
    lemma_unescape_inverts_escape(s, |c: char| tag_special(c));
}

/// A reader of the line protocol recovers a string field with each
/// carriage return and line feed turned into a space.
pub proof fn lemma_field_string_reads_back(s: Seq<char>)
    ensures
        unquoted_field_string(escaped_field_string(s)) == Some(
            s.map_values(|c: char| without_line_break(c)),
        ),
{
    let flat = s.map_values(|c: char| without_line_break(c));
    let inner = backslash_escaped(flat, |c: char| field_special(c));
    let quoted = escaped_field_string(s);
    lemma_unescape_inverts_escape(flat, |c: char| field_special(c));
    assert(quoted.subrange(1, quoted.len() - 1) == inner);
}

/// A reader of the line protocol recovers exactly a string field that
/// holds no carriage return and no line feed.
pub proof fn lemma_field_string_round_trip(s: Seq<char>)
    requires
        forall|i: int| 0 <= i < s.len() ==> s[i] != '\n' && s[i] != '\r',
    ensures
        unquoted_field_string(escaped_field_string(s)) == Some(s),
{
    lemma_field_string_reads_back(s);
    assert(s.map_values(|c: char| without_line_break(c)) == s);
}

/// The tag values that every record of one batch carries.
#[derive(Debug, Clone, Copy)]
pub struct Tags<'a> {
    pub system_id: &'a str,
    pub ecu_id: &'a str,
    pub severity: &'a str,
}

/// Mathematical content of [`Tags`].
pub struct TagsView {
    pub system_id: Seq<char>,
    pub ecu_id: Seq<char>,
    pub severity: Seq<char>,
}

impl<'a> View for Tags<'a> {
    type V = TagsView;

    open spec fn view(&self) -> TagsView {
        TagsView {
            system_id: self.system_id@,
            ecu_id: self.ecu_id@,
            severity: self.severity@,
        }
    }
}

/// The record written for one entry:
/// `<measurement>,systemid=<tag>,ecuid=<tag>,severity=<tag> textid=<int>i,text=<string> <timestamp>`
/// and a line feed, with the code as an integer field, the text as a
/// quoted string field and the millisecond timestamp last.
pub open spec fn line_record(entry: ListEntryDtc, tags: TagsView, measurement: Seq<char>) -> Seq<
    char,
> {
    escaped_measurement(measurement) + ",systemid="@ + escaped_tag(tags.system_id) + ",ecuid="@
        + escaped_tag(tags.ecu_id) + ",severity="@ + escaped_tag(tags.severity) + " textid="@
        + decimal(entry.state.id as int) + "i,text="@ + escaped_field_string(entry.state.text@)
        + " "@ + decimal(entry.date_time.timestamp as int) + "\n"@
}

/// The records of all entries, one after the other in the order given.
pub open spec fn line_records(
    entries: Seq<ListEntryDtc>,
    tags: TagsView,
    measurement: Seq<char>,
) -> Seq<char>
    decreases entries.len(),
{
    if entries.len() == 0 {
        Seq::empty()
    } else {
        line_records(entries.drop_last(), tags, measurement) + line_record(
            entries.last(),
            tags,
            measurement,
        )
    }
}

/// Writes the record of one entry, line feed included.
pub fn encode_entry(entry: &ListEntryDtc, tags: &Tags, measurement: &str) -> (line: String)
    ensures
        line@ == line_record(*entry, tags@, measurement@),
{
    let mut line = String::new();
    line.append(escape_measurement(measurement).as_str());
    line.append(",systemid=");
    line.append(escape_tag(tags.system_id).as_str());
    line.append(",ecuid=");
    line.append(escape_tag(tags.ecu_id).as_str());
    line.append(",severity=");
    line.append(escape_tag(tags.severity).as_str());
    line.append(" textid=");
    push_decimal(&mut line, entry.state.id);
    line.append("i,text=");
    line.append(escape_field_string(entry.state.text.as_str()).as_str());
    line.append(" ");
    push_decimal(&mut line, entry.date_time.timestamp);
    line.append("\n");
    assert(Seq::<char>::empty() + escaped_measurement(measurement@) == escaped_measurement(
        measurement@,
    ));
    line
}

/// Writes one record per entry, each ended by a line feed, in the order of
/// `entries`. Without entries the text is empty.
pub fn encode(entries: &Vec<ListEntryDtc>, tags: &Tags, measurement: &str) -> (body: String)
    ensures
        body@ == line_records(entries@, tags@, measurement@),
        entries@.len() == 0 ==> body@.len() == 0,
{
    let mut body = String::new();
    let mut i: usize = 0;
    while i < entries.len()
        invariant
            i <= entries.len(),
            body@ == line_records(entries@.take(i as int), tags@, measurement@),
        decreases entries.len() - i,
    {
        let line = encode_entry(&entries[i], tags, measurement);
        assert(entries@.take(i + 1).drop_last() == entries@.take(i as int));
        body.append(line.as_str());
        i += 1;
    }
    assert(entries@.take(i as int) == entries@);
    body
}

/// The line that is logged for one entry:
/// `<display time> <system id> <ecu id>[<code>]: <severity> <text>`.
pub open spec fn log_record(entry: ListEntryDtc, tags: TagsView) -> Seq<char> {
    entry.date_time.date_time@ + " "@ + tags.system_id + " "@ + tags.ecu_id + "["@ + decimal(
        entry.state.id as int,
    ) + "]: "@ + tags.severity + " "@ + entry.state.text@
}

/// Writes the line that is logged for one entry.
pub fn log_line(entry: &ListEntryDtc, tags: &Tags) -> (line: String)
    ensures
        line@ == log_record(*entry, tags@),
{
    let mut line = String::new();
    line.append(entry.date_time.date_time.as_str());
    line.append(" ");
    line.append(tags.system_id);
    line.append(" ");
    line.append(tags.ecu_id);
    line.append("[");
    push_decimal(&mut line, entry.state.id);
    line.append("]: ");
    line.append(tags.severity);
    line.append(" ");
    line.append(entry.state.text.as_str());
    assert(Seq::<char>::empty() + entry.date_time.date_time@ == entry.date_time.date_time@);
    line
}

/// Writes the logged line of each entry, in the order of `entries`.
pub fn log_lines(entries: &Vec<ListEntryDtc>, tags: &Tags) -> (lines: Vec<String>)
    ensures
        lines@.len() == entries@.len(),
        forall|i: int| 0 <= i < entries@.len() ==> lines@[i]@ == log_record(entries@[i], tags@),
{
    let mut lines: Vec<String> = Vec::new();
    let mut i: usize = 0;
    while i < entries.len()
        invariant
            i <= entries.len(),
            lines@.len() == i,
            forall|j: int| 0 <= j < i ==> lines@[j]@ == log_record(entries@[j], tags@),
        decreases entries.len() - i,
    {
        lines.push(log_line(&entries[i], tags));
        i += 1;
    }
    lines
}

/// The ISO 8601 text of a millisecond timestamp that has one.
pub fn timestamp_to_datetime_string(timestamp: i64) -> (r: String)
    requires
        iso8601_of_millis(timestamp) is Some,
    ensures
        iso8601_of_millis(timestamp) == Some(r@),
{
    match format_millis(timestamp) {
        Some(s) => s,
        None => vstd::pervasive::unreached(),
    }
}

/// The ISO 8601 text of a millisecond timestamp, or `None` where the
/// timestamp is outside the range of dates that can be represented.
pub fn checked_timestamp_to_datetime_string(timestamp: i64) -> (r: Option<String>)
    ensures
        match r {
            Some(s) => iso8601_of_millis(timestamp) == Some(s@),
            None => iso8601_of_millis(timestamp) is None,
        },
{
    match format_millis(timestamp) {
        Some(_) => Some(timestamp_to_datetime_string(timestamp)),
        None => None,
    }
}

/// The text without the slashes at its end.
pub open spec fn without_trailing_slashes(s: Seq<char>) -> Seq<char>
    decreases s.len(),
{
    if s.len() > 0 && s.last() == '/' {
        without_trailing_slashes(s.drop_last())
    } else {
        s
    }
}

/// Slashes behind a text that does not end in one are all that is cut.
proof fn lemma_trailing_slashes_cut(kept: Seq<char>, slashes: Seq<char>)
    requires
        kept.len() > 0 ==> kept.last() != '/',
        forall|i: int| 0 <= i < slashes.len() ==> slashes[i] == '/',
    ensures
        without_trailing_slashes(kept + slashes) == kept,
    decreases slashes.len(),
{
    if slashes.len() == 0 {
        assert(kept + slashes == kept);
    } else {
        assert((kept + slashes).drop_last() == kept + slashes.drop_last());
        lemma_trailing_slashes_cut(kept, slashes.drop_last());
    }
}

/// The address to which records are written: the base address of the
/// store without the slashes at its end, then `/api/v2/write`.
pub fn write_url(base: &str) -> (url: String)
    ensures
        url@ == without_trailing_slashes(base@) + "/api/v2/write"@,
{
    let mut url = String::new();
    // Slashes are held back until a character that is none follows them.
    let mut held = String::new();
    for ch in it: base.chars()
        invariant
            it.seq() == base@,
            url@ + held@ == base@.take(it.index() as int),
            url@.len() > 0 ==> url@.last() != '/',
            forall|i: int| 0 <= i < held@.len() ==> held@[i] == '/',
    {
        let ghost seen = base@.take(it.index() as int);
        assert(base@.take(it.index() + 1) == seen.push(ch));
        if ch == '/' {
            push_char(&mut held, ch);
            assert(url@ + held@ == seen.push(ch));
        } else {
            url.append(held.as_str());
            held = String::new();
            push_char(&mut url, ch);
            assert(url@ + held@ == seen.push(ch));
        }
    }
    proof {
        assert(base@.take(base@.len() as int) == base@);
        lemma_trailing_slashes_cut(url@, held@);
    }
    url.append("/api/v2/write");
    url
}

/// The value of the authorization header: none for an empty token, else
/// `Token ` and the token.
pub fn authorization(token: &str) -> (r: Option<String>)
    ensures
        match r {
            Some(value) => token@.len() > 0 && value@ == "Token "@ + token@,
            None => token@.len() == 0,
        },
{
    if token.is_empty() {
        None
    } else {
        let mut value = String::new();
        value.append("Token ");
        value.append(token);
        assert(Seq::<char>::empty() + "Token "@ == "Token "@);
        Some(value)
    }
}

} // verus!
