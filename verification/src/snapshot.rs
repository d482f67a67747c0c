//! The snapshot: the accepted entries as a JSON array of objects, one object
//! per entry, with the members `timestamp`, `type`, `priority`, `message`
//! and `notified`.
//!
//! Reading and writing JSON text is serde_json's work. What an entry looks
//! like as an object, and which objects are entries, is decided here.

use crate::types::{entry_views, LogEntry, LogEntryView, LogPriority, LogType};
use vstd::prelude::*;

verus! {

/// A JSON value that is not a container: `null`, a boolean, an unsigned
/// integer or a string.
#[derive(Debug)]
pub enum JsonScalar {
    Null,
    Bool(bool),
    Number(u64),
    Text(String),
}

/// A scalar, as a plain value.
pub enum ScalarView {
    Null,
    Bool(bool),
    Number(u64),
    Text(Seq<char>),
}

impl View for JsonScalar {
    type V = ScalarView;

    open spec fn view(&self) -> ScalarView {
        match self {
            JsonScalar::Null => ScalarView::Null,
            JsonScalar::Bool(b) => ScalarView::Bool(*b),
            JsonScalar::Number(n) => ScalarView::Number(*n),
            JsonScalar::Text(s) => ScalarView::Text(s@),
        }
    }
}

/// An object to write: its members in order, each a name and a scalar.
pub type Object = Vec<(String, JsonScalar)>;

/// A JSON value as it was read. Of a container only its kind is kept, and
/// of a number the unsigned integer it is, if it is one that 64 bits hold.
#[derive(Debug)]
pub enum JsonValue {
    Null,
    Bool(bool),
    Number(Option<u64>),
    Text(String),
    Array,
    Object,
}

/// A value as read, as a plain value.
pub enum ValueView {
    Null,
    Bool(bool),
    Number(Option<u64>),
    Text(Seq<char>),
    Array,
    Object,
}

impl View for JsonValue {
    type V = ValueView;

    open spec fn view(&self) -> ValueView {
        match self {
            JsonValue::Null => ValueView::Null,
            JsonValue::Bool(b) => ValueView::Bool(*b),
            JsonValue::Number(n) => ValueView::Number(*n),
            JsonValue::Text(s) => ValueView::Text(s@),
            JsonValue::Array => ValueView::Array,
            JsonValue::Object => ValueView::Object,
        }
    }
}

/// An object as read: its members in order, each a name and a value.
pub type ReadObject = Vec<(String, JsonValue)>;

/// The members of an object to write, as plain values.
pub type Members = Seq<(Seq<char>, ScalarView)>;

/// The members of an object as read, as plain values.
pub type ReadMembers = Seq<(Seq<char>, ValueView)>;

pub open spec fn members_of(object: Seq<(String, JsonScalar)>) -> Members {
    object.map_values(|m: (String, JsonScalar)| (m.0@, m.1@))
}

pub open spec fn objects_of(objects: Seq<Object>) -> Seq<Members> {
    objects.map_values(|o: Object| members_of(o@))
}

pub open spec fn read_members_of(object: Seq<(String, JsonValue)>) -> ReadMembers {
    object.map_values(|m: (String, JsonValue)| (m.0@, m.1@))
}

pub open spec fn read_objects_of(objects: Seq<ReadObject>) -> Seq<ReadMembers> {
    objects.map_values(|o: ReadObject| read_members_of(o@))
}

pub open spec fn parsed_view(parsed: Option<Vec<ReadObject>>) -> Option<Seq<ReadMembers>> {
    match parsed {
        Some(objects) => Some(read_objects_of(objects@)),
        None => None,
    }
}

pub open spec fn text_view(text: Option<String>) -> Option<Seq<char>> {
    match text {
        Some(t) => Some(t@),
        None => None,
    }
}

/// What `serde_json::from_str` gives for `text` when it is asked for a
/// vector of maps from names to values: the maps in order, each with its
/// entries in order and every value by its variant; `None` where it reports
/// an error. What it takes for such a vector is its own affair: it reads a
/// `null` in the place of an object as an object without members.
pub uninterp spec fn json_objects(text: Seq<char>) -> Option<Seq<ReadMembers>>;

/// What serde_json writes, pretty-printed, for the array of the objects
/// `objects`; `None` where it reports an error.
pub uninterp spec fn json_text(objects: Seq<Members>) -> Option<Seq<char>>;

/// Trusted: `serde_json::from_str`, asked for a vector of `serde_json::Map`.
/// The body moves what was read into the library's types, one variant of
/// `serde_json::Value` to one variant of [`JsonValue`]; of a number it keeps
/// what `Number::as_u64` gives. The contract gives the result the name
/// [`json_objects`]; it claims nothing about which texts are read as what.
#[verifier::external_body]
pub(crate) fn read_objects(text: &str) -> (parsed: Option<Vec<ReadObject>>)
    ensures
        parsed_view(parsed) == json_objects(text@),
{
    let rows: Vec<serde_json::Map<String, serde_json::Value>> = serde_json::from_str(text).ok()?;
    Some(rows.into_iter().map(|row| row.into_iter().map(|(name, value)| (name, match value {
        serde_json::Value::Null => JsonValue::Null,
        serde_json::Value::Bool(b) => JsonValue::Bool(b),
        serde_json::Value::Number(n) => JsonValue::Number(n.as_u64()),
        serde_json::Value::String(s) => JsonValue::Text(s),
        serde_json::Value::Array(_) => JsonValue::Array,
        serde_json::Value::Object(_) => JsonValue::Object,
    })).collect()).collect())
}

/// Trusted: `serde_json::to_string_pretty`, given a vector of
/// `serde_json::Value::Object`. The body only moves the library's values into
/// serde_json's, variant by variant. The contract gives the result the name
/// [`json_text`]; it claims nothing about what the text looks like.
#[verifier::external_body]
pub(crate) fn write_objects(objects: &Vec<Object>) -> (text: Option<String>)
    ensures
        text_view(text) == json_text(objects_of(objects@)),
{
    let rows: Vec<serde_json::Value> = objects.iter().map(|row| serde_json::Value::Object(
        row.iter().map(|(name, value)| (name.clone(), match value {
            JsonScalar::Null => serde_json::Value::Null,
            JsonScalar::Bool(b) => serde_json::Value::Bool(*b),
            JsonScalar::Number(n) => serde_json::Value::from(*n),
            JsonScalar::Text(s) => serde_json::Value::String(s.clone()),
        })).collect())).collect();
    serde_json::to_string_pretty(&rows).ok()
}

/// Why an object is not an entry.
#[derive(Debug, Clone, Copy, PartialEq, Eq, Structural)]
pub enum EntryError {
    /// `timestamp` is missing or is no unsigned integer.
    InvalidTimestamp,
    /// `type` is missing, is no string, or names no type.
    InvalidType,
    /// `priority` is missing, is no string, or names no priority.
    InvalidPriority,
    /// `message` is missing or is no string.
    InvalidMessage,
    /// `notified` is there and is neither a boolean nor `null`.
    InvalidNotified,
}

impl EntryError {
    /// The error in words.
    pub fn message(&self) -> (text: &'static str)
        ensures
            text@ == (match self {
                EntryError::InvalidTimestamp => "Invalid timestamp"@,
                EntryError::InvalidType => "Invalid type"@,
                EntryError::InvalidPriority => "Invalid priority"@,
                EntryError::InvalidMessage => "Invalid message"@,
                EntryError::InvalidNotified => "Invalid notified"@,
            }),
    {
        match self {
            EntryError::InvalidTimestamp => "Invalid timestamp",
            EntryError::InvalidType => "Invalid type",
            EntryError::InvalidPriority => "Invalid priority",
            EntryError::InvalidMessage => "Invalid message",
            EntryError::InvalidNotified => "Invalid notified",
        }
    }
}

/// The value of the first member of `members` that is called `name`; `None`
/// where no member is called so.
pub open spec fn member(members: ReadMembers, name: Seq<char>) -> Option<ValueView>
    decreases members.len(),
{
    if members.len() == 0 {
        None
    } else if members[0].0 == name {
        Some(members[0].1)
    } else {
        member(members.skip(1), name)
    }
}

pub open spec fn timestamp_in(members: ReadMembers) -> Option<u64> {
    match member(members, "timestamp"@) {
        Some(ValueView::Number(Some(n))) => Some(n),
        _ => None,
    }
}

pub open spec fn type_in(members: ReadMembers) -> Option<LogType> {
    match member(members, "type"@) {
        Some(ValueView::Text(name)) => LogType::named(name),
        _ => None,
    }
}

pub open spec fn priority_in(members: ReadMembers) -> Option<LogPriority> {
    match member(members, "priority"@) {
        Some(ValueView::Text(name)) => LogPriority::named(name),
        _ => None,
    }
}

pub open spec fn message_in(members: ReadMembers) -> Option<Seq<char>> {
    match member(members, "message"@) {
        Some(ValueView::Text(text)) => Some(text),
        _ => None,
    }
}

/// The mark of the alert: missing and `null` both stand for "not attempted".
/// `None` for a value that is neither.
pub open spec fn notified_in(members: ReadMembers) -> Option<Option<bool>> {
    match member(members, "notified"@) {
        None => Some(None),
        Some(ValueView::Null) => Some(None),
        Some(ValueView::Bool(b)) => Some(Some(b)),
        _ => None,
    }
}

/// The entry that the object with the members `members` stands for, or the
/// first thing that is wrong with it, in the order timestamp, type,
/// priority, message, notified. Members of other names are passed over.
pub open spec fn entry_of(members: ReadMembers) -> Result<LogEntryView, EntryError> {
    if timestamp_in(members) is None {
        Err(EntryError::InvalidTimestamp)
    } else if type_in(members) is None {
        Err(EntryError::InvalidType)
    } else if priority_in(members) is None {
        Err(EntryError::InvalidPriority)
    } else if message_in(members) is None {
        Err(EntryError::InvalidMessage)
    } else if notified_in(members) is None {
        Err(EntryError::InvalidNotified)
    } else {
        Ok(
            LogEntryView {
                timestamp: timestamp_in(members)->0,
                log_type: type_in(members)->0,
                priority: priority_in(members)->0,
                message: message_in(members)->0,
                notified: notified_in(members)->0,
            },
        )
    }
}

/// The object that stands for `entry`.
pub open spec fn object_of(entry: LogEntryView) -> Members {
    seq![
        ("timestamp"@, ScalarView::Number(entry.timestamp)),
        ("type"@, ScalarView::Text(entry.log_type.name())),
        ("priority"@, ScalarView::Text(entry.priority.name())),
        ("message"@, ScalarView::Text(entry.message)),
        (
            "notified"@,
            match entry.notified {
                Some(b) => ScalarView::Bool(b),
                None => ScalarView::Null,
            },
        ),
    ]
}

/// The objects that stand for `entries`, in order.
pub open spec fn objects_for(entries: Seq<LogEntryView>) -> Seq<Members> {
    entries.map_values(|e: LogEntryView| object_of(e))
}

/// The entries that the objects stand for, in order; `None` as soon as one
/// of them is no entry.
pub open spec fn entries_of(objects: Seq<ReadMembers>) -> Option<Seq<LogEntryView>>
    decreases objects.len(),
{
    if objects.len() == 0 {
        Some(Seq::empty())
    } else {
        match (entries_of(objects.drop_last()), entry_of(objects.last())) {
            (Some(entries), Ok(entry)) => Some(entries.push(entry)),
            _ => None,
        }
    }
}

/// The entries of a snapshot that was read as `parsed`. A snapshot that
/// could not be read, or that holds an object that is no entry, counts as
/// empty.
pub open spec fn snapshot_entries(parsed: Option<Seq<ReadMembers>>) -> Seq<LogEntryView> {
    match parsed {
        Some(objects) => match entries_of(objects) {
            Some(entries) => entries,
            None => Seq::empty(),
        },
        None => Seq::empty(),
    }
}

/// How a written value looks when it is read back.
pub open spec fn read_form(value: ScalarView) -> ValueView {
    match value {
        ScalarView::Null => ValueView::Null,
        ScalarView::Bool(b) => ValueView::Bool(b),
        ScalarView::Number(n) => ValueView::Number(Some(n)),
        ScalarView::Text(text) => ValueView::Text(text),
    }
}

/// How written members look when they are read back: the same names with
/// the same values, in the same order.
pub open spec fn as_read(members: Members) -> ReadMembers {
    members.map_values(|m: (Seq<char>, ScalarView)| (m.0, read_form(m.1)))
}

fn find_member<'a>(object: &'a ReadObject, name: &str) -> (found: Option<&'a JsonValue>)
    ensures
        match found {
            Some(value) => member(read_members_of(object@), name@) == Some(value@),
            None => member(read_members_of(object@), name@) is None,
        },
{
    let wanted = name.to_owned();
    let ghost members = read_members_of(object@);
    let mut i: usize = 0;
    assert(members.skip(0) =~= members);
    while i < object.len()
        invariant
            i <= object.len(),
            wanted@ == name@,
            members == read_members_of(object@),
            member(members, name@) == member(members.skip(i as int), name@),
        decreases object.len() - i,
    {
        assert(members.skip(i as int)[0] == members[i as int]);
        assert(members.skip(i as int).skip(1) =~= members.skip(i + 1));
        if object[i].0 == wanted {
            return Some(&object[i].1);
        }
        i = i + 1;
    }
    None
}

/// The entry that `object` stands for; see [`entry_of`].
pub fn create_log_entry(object: &ReadObject) -> (r: Result<LogEntry, EntryError>)
    ensures
        match r {
            Ok(entry) => entry_of(read_members_of(object@)) == Ok::<LogEntryView, EntryError>(
                entry@,
            ),
            Err(error) => entry_of(read_members_of(object@)) == Err::<LogEntryView, EntryError>(
                error,
            ),
        },
{
    let timestamp = match find_member(object, "timestamp") {
        Some(JsonValue::Number(Some(n))) => *n,
        _ => {
            return Err(EntryError::InvalidTimestamp);
        },
    };
    let log_type = match find_member(object, "type") {
        Some(JsonValue::Text(name)) => match LogType::from_name(name.as_str()) {
            Some(log_type) => log_type,
            None => {
                return Err(EntryError::InvalidType);
            },
        },
        _ => {
            return Err(EntryError::InvalidType);
        },
    };
    let priority = match find_member(object, "priority") {
        Some(JsonValue::Text(name)) => match LogPriority::from_name(name.as_str()) {
            Some(priority) => priority,
            None => {
                return Err(EntryError::InvalidPriority);
            },
        },
        _ => {
            return Err(EntryError::InvalidPriority);
        },
    };
    let message = match find_member(object, "message") {
        Some(JsonValue::Text(text)) => text.clone(),
        _ => {
            return Err(EntryError::InvalidMessage);
        },
    };
    let notified = match find_member(object, "notified") {
        None => None,
        Some(JsonValue::Null) => None,
        Some(JsonValue::Bool(b)) => Some(*b),
        _ => {
            return Err(EntryError::InvalidNotified);
        },
    };
    Ok(LogEntry { timestamp, log_type, priority, message, notified })
}

/// The object that stands for `entry`.
pub fn entry_object(entry: &LogEntry) -> (object: Object)
    ensures
        members_of(object@) == object_of(entry@),
{
    let mut object: Object = Vec::new();
    object.push(("timestamp".to_owned(), JsonScalar::Number(entry.timestamp)));
    object.push(("type".to_owned(), JsonScalar::Text(entry.log_type.as_str().to_owned())));
    object.push(("priority".to_owned(), JsonScalar::Text(entry.priority.as_str().to_owned())));
    object.push(("message".to_owned(), JsonScalar::Text(entry.message.clone())));
    object.push(
        (
            "notified".to_owned(),
            match entry.notified {
                Some(b) => JsonScalar::Bool(b),
                None => JsonScalar::Null,
            },
        ),
    );
    assert(members_of(object@) =~= object_of(entry@));
    object
}

/// The entries of a snapshot that was read as `parsed`; see
/// [`snapshot_entries`].
pub fn entries_from_objects(parsed: Option<Vec<ReadObject>>) -> (entries: Vec<LogEntry>)
    ensures
        entry_views(entries@) == snapshot_entries(parsed_view(parsed)),
{
    let objects = match parsed {
        Some(objects) => objects,
        None => {
            let none: Vec<LogEntry> = Vec::new();
            assert(entry_views(none@) =~= Seq::<LogEntryView>::empty());
            return none;
        },
    };
    let ghost all = read_objects_of(objects@);
    let mut entries: Vec<LogEntry> = Vec::new();
    let mut i: usize = 0;
    assert(all.take(0) =~= Seq::<ReadMembers>::empty());
    assert(entry_views(entries@) =~= Seq::<LogEntryView>::empty());
    while i < objects.len()
        invariant
            i <= objects.len(),
            all == read_objects_of(objects@),
            parsed_view(parsed) == Some(all),
            entries_of(all.take(i as int)) == Some(entry_views(entries@)),
        decreases objects.len() - i,
    {
        proof {
            assert(all.take(i + 1).drop_last() =~= all.take(i as int));
            assert(all.take(i + 1).last() == read_members_of(objects@[i as int]@));
        }
        let ghost before = entry_views(entries@);
        match create_log_entry(&objects[i]) {
            Ok(entry) => {
                entries.push(entry);
                assert(entry_views(entries@) =~= before.push(entry@));
            },
            Err(_) => {
                proof {
                    assert(all[i as int] == read_members_of(objects@[i as int]@));
                    lemma_one_bad_object_spoils_all(all, i as int);
                }
                let none: Vec<LogEntry> = Vec::new();
                assert(entry_views(none@) =~= Seq::<LogEntryView>::empty());
                return none;
            },
        }
        i = i + 1;
    }
    assert(all.take(objects.len() as int) =~= all);
    entries
}

/// Objects of which one is no entry stand for no list of entries.
pub proof fn lemma_one_bad_object_spoils_all(objects: Seq<ReadMembers>, bad: int)
    requires
        0 <= bad < objects.len(),
        entry_of(objects[bad]) is Err,
    ensures
        entries_of(objects) is None,
    decreases objects.len(),
{
    if bad < objects.len() - 1 {
        lemma_one_bad_object_spoils_all(objects.drop_last(), bad);
    }
}

/// The objects that stand for `entries`, in order.
pub fn snapshot_objects(entries: &Vec<LogEntry>) -> (objects: Vec<Object>)
    ensures
        objects_of(objects@) == objects_for(entry_views(entries@)),
{
    let mut objects: Vec<Object> = Vec::new();
    let mut i: usize = 0;
    while i < entries.len()
        invariant
            i <= entries.len(),
            objects@.len() == i,
            forall|k: int| 0 <= k < i ==> members_of(objects@[k]@) == object_of(entries@[k]@),
        decreases entries.len() - i,
    {
        objects.push(entry_object(&entries[i]));
        i = i + 1;
    }
    assert(objects_of(objects@) =~= objects_for(entry_views(entries@)));
    objects
}

/// The entries of the snapshot `text`. A text that is no snapshot counts as
/// an empty one.
pub fn read_snapshot(text: &str) -> (entries: Vec<LogEntry>)
    ensures
        entry_views(entries@) == snapshot_entries(json_objects(text@)),
{
    entries_from_objects(read_objects(text))
}

/// The text of the snapshot that holds `entries`; `None` where serde_json
/// reports an error.
pub fn write_snapshot(entries: &Vec<LogEntry>) -> (text: Option<String>)
    ensures
        text_view(text) == json_text(objects_for(entry_views(entries@))),
{
    write_objects(&snapshot_objects(entries))
}

/// The entries of a snapshot after `entry` was appended to it. `existing` is
/// the text of the snapshot so far, `None` where there is none yet.
pub open spec fn appended(existing: Option<Seq<char>>, entry: LogEntryView) -> Seq<LogEntryView> {
    match existing {
        Some(text) => snapshot_entries(json_objects(text)).push(entry),
        None => seq![entry],
    }
}

/// The entries of the snapshot `existing` with `entry` appended.
pub fn append_entry(existing: Option<&str>, entry: &LogEntry) -> (entries: Vec<LogEntry>)
    ensures
        entry_views(entries@) == appended(text_view_of(existing), entry@),
{
    let mut entries = match existing {
        Some(text) => read_snapshot(text),
        None => Vec::new(),
    };
    let ghost before = entry_views(entries@);
    entries.push(entry.clone());
    assert(entry_views(entries@) =~= before.push(entry@));
    proof {
        if existing is None {
            assert(before =~= Seq::<LogEntryView>::empty());
            assert(before.push(entry@) =~= seq![entry@]);
        }
    }
    entries
}

pub open spec fn text_view_of(text: Option<&str>) -> Option<Seq<char>> {
    match text {
        Some(t) => Some(t@),
        None => None,
    }
}

/// The new text of the snapshot: all that `existing` held, then `entry`. The
/// whole snapshot is written anew. `existing` is the text of the snapshot so
/// far, `None` where there is none yet; a text that is no snapshot counts as
/// an empty one and is replaced.
pub fn update_log_file(existing: Option<&str>, entry: &LogEntry) -> (text: Option<String>)
    ensures
        text_view(text) == json_text(objects_for(appended(text_view_of(existing), entry@))),
{
    write_snapshot(&append_entry(existing, entry))
}

/// Every entry is read back from its own object, member for member.
pub proof fn lemma_object_round_trip(entry: LogEntryView)
    ensures
        entry_of(as_read(object_of(entry))) == Ok::<LogEntryView, EntryError>(entry),
{
    let members = as_read(object_of(entry));
    reveal_strlit("timestamp");
    reveal_strlit("type");
    reveal_strlit("priority");
    reveal_strlit("message");
    reveal_strlit("notified");
    assert("timestamp"@.len() == 9);
    assert("type"@.len() == 4);
    assert("priority"@.len() == 8);
    assert("message"@.len() == 7);
    assert("notified"@.len() == 8);
    assert("priority"@[0] == 'p');
    assert("notified"@[0] == 'n');
    reveal_with_fuel(member, 6);
    entry.log_type.lemma_name_round_trip();
    entry.priority.lemma_name_round_trip();
    assert(member(members, "timestamp"@) == Some(ValueView::Number(Some(entry.timestamp))));
    assert(member(members, "type"@) == Some(ValueView::Text(entry.log_type.name())));
    assert(member(members, "priority"@) == Some(ValueView::Text(entry.priority.name())));
    assert(member(members, "message"@) == Some(ValueView::Text(entry.message)));
    assert(member(members, "notified"@) == Some(
        match entry.notified {
            Some(b) => ValueView::Bool(b),
            None => ValueView::Null,
        },
    ));
}

/// Entries that were turned into objects are read back from them as they
/// were: as many, each equal member for member, in the same order.
pub proof fn lemma_snapshot_round_trip(entries: Seq<LogEntryView>)
    ensures
        entries_of(entries.map_values(|e: LogEntryView| as_read(object_of(e)))) == Some(entries),
    decreases entries.len(),
{
    let objects = entries.map_values(|e: LogEntryView| as_read(object_of(e)));
    if entries.len() == 0 {
        assert(entries =~= Seq::<LogEntryView>::empty());
    } else {
        lemma_snapshot_round_trip(entries.drop_last());
        lemma_object_round_trip(entries.last());
        assert(objects.drop_last() =~= entries.drop_last().map_values(
            |e: LogEntryView| as_read(object_of(e)),
        ));
        assert(entries.drop_last().push(entries.last()) =~= entries);
    }
}

/// serde_json reads every text that it wrote back as the objects that it
/// wrote it for. Nothing in this library claims that it does: the laws below
/// say what follows where it does.
pub open spec fn reads_back_what_it_wrote() -> bool {
    forall|objects: Seq<Members>, text: Seq<char>|
        #![trigger json_text(objects), json_objects(text)]
        json_text(objects) == Some(text) ==> json_objects(text) == Some(
            objects.map_values(|m: Members| as_read(m)),
        )
}

/// The text of the snapshot after the entries of `entries` were appended to
/// `existing` by one update each, in order; `None` where the last of these
/// updates gave no text.
pub open spec fn updated(existing: Option<Seq<char>>, entries: Seq<LogEntryView>) -> Option<
    Seq<char>,
>
    decreases entries.len(),
{
    if entries.len() == 0 {
        existing
    } else {
        json_text(objects_for(appended(updated(existing, entries.drop_last()), entries.last())))
    }
}

/// Every one of the updates gave a text.
pub open spec fn all_updates_written(existing: Option<Seq<char>>, entries: Seq<LogEntryView>) -> bool {
    forall|n: int| 0 < n <= entries.len() ==> (#[trigger] updated(existing, entries.take(n))) is Some
}

/// Where serde_json reads `text` back as the objects of `entries`, the
/// snapshot `text` holds exactly `entries`: as many, in the same order, each
/// equal member for member.
pub proof fn lemma_written_snapshot_reads_back(entries: Seq<LogEntryView>, text: Seq<char>)
    ensures
        json_objects(text) == Some(objects_for(entries).map_values(|m: Members| as_read(m)))
            ==> snapshot_entries(json_objects(text)) == entries,
{
    lemma_snapshot_round_trip(entries);
    assert(objects_for(entries).map_values(|m: Members| as_read(m)) =~= entries.map_values(
        |e: LogEntryView| as_read(object_of(e)),
    ));
}

proof fn lemma_updates_step(
    held: Seq<LogEntryView>,
    existing: Option<Seq<char>>,
    entries: Seq<LogEntryView>,
)
    requires
        reads_back_what_it_wrote(),
        existing matches Some(text) ==> snapshot_entries(json_objects(text)) == held,
        existing is None ==> held.len() == 0,
        all_updates_written(existing, entries),
        entries.len() > 0,
    ensures
        updated(existing, entries) matches Some(text) && snapshot_entries(json_objects(text))
            == held + entries,
    decreases entries.len(),
{
    let earlier = entries.drop_last();
    let before = updated(existing, earlier);
    assert(entries.take(entries.len() as int) =~= entries);
    assert(updated(existing, entries) is Some);
    if earlier.len() == 0 {
        assert(held + entries =~= held.push(entries.last()));
        if existing is None {
            assert(held =~= Seq::<LogEntryView>::empty());
            assert(held.push(entries.last()) =~= seq![entries.last()]);
        }
    } else {
        assert forall|n: int| 0 < n <= earlier.len() implies (#[trigger] updated(
            existing,
            earlier.take(n),
        )) is Some by {
            assert(earlier.take(n) =~= entries.take(n));
        }
        lemma_updates_step(held, existing, earlier);
        assert((held + earlier).push(entries.last()) =~= held + entries);
    }
    assert(appended(before, entries.last()) == held + entries);
    let text = updated(existing, entries)->0;
    assert(json_text(objects_for(held + entries)) == Some(text));
    lemma_written_snapshot_reads_back(held + entries, text);
}

/// Writing entries, then reading the snapshot back: where serde_json reads
/// back what it wrote, a snapshot that held `held` and was updated with each
/// entry of `entries` in turn, every update giving a text, holds `held`
/// followed by `entries`, in order and equal member for member. A snapshot
/// that is absent holds nothing.
pub proof fn lemma_updates_read_back(
    held: Seq<LogEntryView>,
    existing: Option<Seq<char>>,
    entries: Seq<LogEntryView>,
)
    ensures
        ({
            &&& reads_back_what_it_wrote()
            &&& existing matches Some(text) ==> snapshot_entries(json_objects(text)) == held
            &&& existing is None ==> held.len() == 0
            &&& all_updates_written(existing, entries)
            &&& entries.len() > 0
        }) ==> (updated(existing, entries) matches Some(text) && snapshot_entries(
            json_objects(text),
        ) == held + entries),
{
    if reads_back_what_it_wrote() && (existing matches Some(text) ==> snapshot_entries(
        json_objects(text),
    ) == held) && (existing is None ==> held.len() == 0) && all_updates_written(existing, entries)
        && entries.len() > 0 {
        lemma_updates_step(held, existing, entries);
    }
}

} // verus!
