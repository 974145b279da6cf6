//! The parser plugin for lines that are JSON objects.
use serde_json::{from_str, Value};
use vstd::prelude::*;

use crate::batch;
use crate::entry;
use crate::entry::{LogLevel, ParseError, ParsedEntry};
use crate::text;

verus! {

/// Why serde_json does not accept a text.
#[verifier::external_type_specification]
#[verifier::external_body]
pub struct ExJsonError(serde_json::Error);

/// A field of an object inside a document: its value as it is, where that is
/// text, and as compact JSON.
pub struct JsonLeaf {
    pub key: String,
    pub text: Option<String>,
    pub rendered: String,
}

/// What the value of a field is.
pub enum JsonValue {
    Text(String),
    /// A number, with its value where that is a whole number of 64 bits.
    Number(Option<u64>),
    Object(Vec<JsonLeaf>),
    Other,
}

/// A field of a document: its value, and that as compact JSON.
pub struct JsonField {
    pub key: String,
    pub value: JsonValue,
    pub rendered: String,
}

/// A JSON document: the fields of an object, and none where it is no object.
pub struct JsonDocument {
    pub fields: Vec<JsonField>,
}

/// What a field of an inner object holds.
pub struct LeafModel {
    pub key: Seq<char>,
    pub text: Option<Seq<char>>,
    pub rendered: Seq<char>,
}

/// What a value is.
pub enum ValueModel {
    Text(Seq<char>),
    Number(Option<u64>),
    Object(Seq<LeafModel>),
    Other,
}

/// What a field holds.
pub struct FieldModel {
    pub key: Seq<char>,
    pub value: ValueModel,
    pub rendered: Seq<char>,
}

impl JsonLeaf {
    /// What the field holds.
    pub open spec fn view(&self) -> LeafModel {
        LeafModel {
            key: self.key@,
            text: match self.text {
                Some(t) => Some(t@),
                None => None,
            },
            rendered: self.rendered@,
        }
    }
}

impl JsonValue {
    /// What the value is.
    pub open spec fn view(&self) -> ValueModel {
        match *self {
            JsonValue::Text(t) => ValueModel::Text(t@),
            JsonValue::Number(n) => ValueModel::Number(n),
            JsonValue::Object(leaves) => ValueModel::Object(
                Seq::new(leaves@.len(), |i: int| leaves@[i]@),
            ),
            JsonValue::Other => ValueModel::Other,
        }
    }
}

impl JsonField {
    /// What the field holds.
    pub open spec fn view(&self) -> FieldModel {
        FieldModel { key: self.key@, value: self.value@, rendered: self.rendered@ }
    }
}

impl JsonDocument {
    /// The fields of the document.
    pub open spec fn view(&self) -> Seq<FieldModel> {
        Seq::new(self.fields@.len(), |i: int| self.fields@[i]@)
    }
}

/// The document that serde_json reads from a text, where it accepts the text.
pub uninterp spec fn json_document(raw: Seq<char>) -> Option<Seq<FieldModel>>;

/// `serde_json::from_str` into a `Value`, of which the fields of the root object
/// are taken, each with its compact form by `Value::to_string`. The result is
/// settled by the text alone; which texts are JSON and how a value is written
/// in its compact form is left to serde_json.
#[verifier::external_body]
fn read_json(raw: &str) -> (res: Result<JsonDocument, serde_json::Error>)
    ensures
        res is Ok <==> json_document(raw@) is Some,
        res matches Ok(doc) ==> json_document(raw@) == Some(doc@),
{
    Ok(JsonDocument { fields: from_str::<Value>(raw)?.as_object().into_iter().flatten().map(
    |(key, v)| JsonField {
        key: key.clone(),
        rendered: v.to_string(),
        value: match v {
            Value::String(s) => JsonValue::Text(s.clone()),
            Value::Number(n) => JsonValue::Number(n.as_u64()),
            Value::Object(m) => JsonValue::Object(m.iter().map(|(k, w)| JsonLeaf {
                key: k.clone(), text: w.as_str().map(String::from), rendered: w.to_string()
            }).collect()),
            Value::Null => JsonValue::Other,
            Value::Bool(_) => JsonValue::Other,
            Value::Array(_) => JsonValue::Other
        }
    }).collect() })
}

/// The value of the first field with a key.
pub open spec fn lookup(fields: Seq<FieldModel>, key: Seq<char>) -> Option<ValueModel>
    decreases fields.len(),
{
    if fields.len() == 0 {
        None
    } else if fields[0].key == key {
        Some(fields[0].value)
    } else {
        lookup(fields.drop_first(), key)
    }
}

/// The text of a field, and no text where it has none.
pub open spec fn text_field(fields: Seq<FieldModel>, key: Seq<char>) -> Seq<char> {
    match lookup(fields, key) {
        Some(ValueModel::Text(t)) => t,
        _ => ""@,
    }
}

/// A letter without its case.
pub open spec fn lower(c: char) -> char {
    if 'A' <= c <= 'Z' {
        (c as int + 32) as char
    } else {
        c
    }
}

/// Whether two texts are the same but for the case of ASCII letters.
pub open spec fn same_but_case(a: Seq<char>, b: Seq<char>) -> bool {
    a.len() == b.len() && forall|i: int| 0 <= i < a.len() ==> lower(#[trigger] a[i]) == lower(b[i])
}

/// The level that a name stands for.
pub open spec fn level_named(s: Seq<char>) -> LogLevel {
    if same_but_case(s, "debug"@) {
        LogLevel::Debug
    } else if same_but_case(s, "info"@) {
        LogLevel::Info
    } else if same_but_case(s, "warn"@) {
        LogLevel::Warn
    } else if same_but_case(s, "error"@) {
        LogLevel::Error
    } else {
        LogLevel::Info
    }
}

/// The level that a number stands for.
pub open spec fn level_numbered(n: u64) -> LogLevel {
    match n {
        0 => LogLevel::Debug,
        1 => LogLevel::Info,
        2 => LogLevel::Warn,
        3 => LogLevel::Error,
        4 => LogLevel::Crit,
        5 => LogLevel::Alert,
        6 => LogLevel::Emerg,
        _ => LogLevel::Info,
    }
}

/// The level of a document.
pub open spec fn level_of(fields: Seq<FieldModel>) -> LogLevel {
    match lookup(fields, "level"@) {
        Some(ValueModel::Number(Some(n))) => level_numbered(n),
        Some(ValueModel::Number(None)) => level_numbered(1),
        Some(ValueModel::Text(t)) => level_named(t),
        _ => LogLevel::Info,
    }
}

/// Whether a key has a meaning of its own.
pub open spec fn is_reserved(key: Seq<char>) -> bool {
    key == "ts"@ || key == "level"@ || key == "msg"@ || key == "att"@
}

/// A value as the value of a tag: text as it is, all else as compact JSON.
pub open spec fn tag_text(text: Option<Seq<char>>, rendered: Seq<char>) -> Seq<char> {
    match text {
        Some(t) => t,
        None => rendered,
    }
}

/// The tag of a field.
pub open spec fn field_tag(f: FieldModel) -> (Seq<char>, Seq<char>) {
    (
        f.key,
        match f.value {
            ValueModel::Text(t) => t,
            _ => f.rendered,
        },
    )
}

/// The tags of all fields without a meaning of their own.
pub open spec fn root_tags(fields: Seq<FieldModel>) -> Seq<(Seq<char>, Seq<char>)>
    decreases fields.len(),
{
    if fields.len() == 0 {
        Seq::empty()
    } else {
        let before = root_tags(fields.drop_last());
        if is_reserved(fields.last().key) {
            before
        } else {
            before.push(field_tag(fields.last()))
        }
    }
}

/// The tags of the fields of an inner object.
pub open spec fn leaf_tags(leaves: Seq<LeafModel>) -> Seq<(Seq<char>, Seq<char>)> {
    Seq::new(leaves.len(), |i: int| (leaves[i].key, tag_text(leaves[i].text, leaves[i].rendered)))
}

/// The tags of the object in the field `att`.
pub open spec fn att_tags(fields: Seq<FieldModel>) -> Seq<(Seq<char>, Seq<char>)> {
    match lookup(fields, "att"@) {
        Some(ValueModel::Object(leaves)) => leaf_tags(leaves),
        _ => Seq::empty(),
    }
}

/// All tags of a document: the language of the plugin, the fields without a
/// meaning of their own, and those of the object `att`.
pub open spec fn all_tags(fields: Seq<FieldModel>) -> Seq<(Seq<char>, Seq<char>)> {
    seq![("lang"@, "Rust"@)] + root_tags(fields) + att_tags(fields)
}

/// The entry that a document makes.
pub open spec fn entry_of(fields: Seq<FieldModel>) -> entry::EntryModel {
    entry::EntryModel {
        timestamp: text_field(fields, "ts"@),
        level: level_of(fields),
        message: text_field(fields, "msg"@),
        tags: all_tags(fields),
        targettag: "A"@,
    }
}

/// A value as the value of a tag.
pub fn value_to_string(text: &Option<String>, rendered: &String) -> (res: String)
    ensures
        res@ == tag_text(
            match *text {
                Some(t) => Some(t@),
                None => None,
            },
            rendered@,
        ),
{
    match text {
        Some(t) => t.clone(),
        None => rendered.clone(),
    }
}

fn lower_of(c: char) -> (res: char)
    ensures
        res == lower(c),
{
    if 'A' <= c && c <= 'Z' {
        (c as u8 + 32) as char
    } else {
        c
    }
}

fn equal_but_case(a: &str, b: &str) -> (res: bool)
    ensures
        res == same_but_case(a@, b@),
{
    let x = text::chars_of(a);
    let y = text::chars_of(b);
    if x.len() != y.len() {
        return false;
    }
    let mut i: usize = 0;
    while i < x.len()
        invariant
            i <= x@.len(),
            x@.len() == y@.len(),
            x@ == a@,
            y@ == b@,
            forall|k: int| 0 <= k < i ==> lower(#[trigger] a@[k]) == lower(b@[k]),
        decreases x@.len() - i,
    {
        if lower_of(x[i]) != lower_of(y[i]) {
            assert(lower(a@[i as int]) != lower(b@[i as int]));
            return false;
        }
        i += 1;
    }
    true
}

/// The level that a name stands for, in whatever case it is written.
pub fn map_level_str(s: &str) -> (res: LogLevel)
    ensures
        res == level_named(s@),
{
    if equal_but_case(s, "debug") {
        LogLevel::Debug
    } else if equal_but_case(s, "info") {
        LogLevel::Info
    } else if equal_but_case(s, "warn") {
        LogLevel::Warn
    } else if equal_but_case(s, "error") {
        LogLevel::Error
    } else {
        LogLevel::Info
    }
}

/// The level that a number stands for.
pub fn map_level_num(n: u64) -> (res: LogLevel)
    ensures
        res == level_numbered(n),
{
    match n {
        0 => LogLevel::Debug,
        1 => LogLevel::Info,
        2 => LogLevel::Warn,
        3 => LogLevel::Error,
        4 => LogLevel::Crit,
        5 => LogLevel::Alert,
        6 => LogLevel::Emerg,
        _ => LogLevel::Info,
    }
}

/// Where an entry of a level is to go: all go to the same endpoint.
pub fn route_tag(level: LogLevel) -> (res: String)
    ensures
        res@ == "A"@,
{
    let _ = level;
    "A".to_string()
}

fn is_reserved_key(key: &str) -> (res: bool)
    ensures
        res == is_reserved(key@),
{
    text::same_text(key, "ts") || text::same_text(key, "level") || text::same_text(key, "msg")
        || text::same_text(key, "att")
}

fn push_tag(tags: &mut Vec<(String, String)>, name: String, value: String)
    ensures
        entry::tag_views(final(tags)@) == entry::tag_views(old(tags)@).push((name@, value@)),
{
    tags.push((name, value));
    assert(entry::tag_views(tags@) =~= entry::tag_views(old(tags)@).push((name@, value@)));
}

/// The value of the first field with a key.
fn find<'a>(doc: &'a JsonDocument, key: &str) -> (res: Option<&'a JsonValue>)
    ensures
        match res {
            Some(v) => lookup(doc@, key@) == Some(v@),
            None => lookup(doc@, key@) is None,
        },
{
    let ghost all = doc@;
    let mut i: usize = 0;
    assert(all.skip(0) =~= all);
    while i < doc.fields.len()
        invariant
            i <= doc.fields@.len(),
            all == doc@,
            lookup(all, key@) == lookup(all.skip(i as int), key@),
        decreases doc.fields@.len() - i,
    {
        assert(all.skip(i as int)[0] == doc.fields@[i as int]@);
        if text::same_text(doc.fields[i].key.as_str(), key) {
            return Some(&doc.fields[i].value);
        }
        assert(all.skip(i as int).drop_first() =~= all.skip(i + 1));
        i += 1;
    }
    None
}

fn text_of_field(doc: &JsonDocument, key: &str) -> (res: String)
    ensures
        res@ == text_field(doc@, key@),
{
    match find(doc, key) {
        Some(JsonValue::Text(t)) => t.clone(),
        _ => "".to_string(),
    }
}

fn level_of_document(doc: &JsonDocument) -> (res: LogLevel)
    ensures
        res == level_of(doc@),
{
    match find(doc, "level") {
        Some(JsonValue::Number(Some(n))) => map_level_num(*n),
        Some(JsonValue::Number(None)) => map_level_num(1),
        Some(JsonValue::Text(t)) => map_level_str(t.as_str()),
        _ => LogLevel::Info,
    }
}

/// All tags of a document.
pub fn collect_all_tags(root: &JsonDocument) -> (res: Vec<(String, String)>)
    ensures
        entry::tag_views(res@) == all_tags(root@),
{
    let mut tags: Vec<(String, String)> = Vec::new();
    assert(entry::tag_views(tags@) =~= Seq::empty());
    push_tag(&mut tags, "lang".to_string(), "Rust".to_string());
    let ghost first = seq![("lang"@, "Rust"@)];
    let ghost all = root@;
    let mut i: usize = 0;
    assert(all.subrange(0, 0) =~= Seq::empty());
    assert(first + root_tags(all.subrange(0, 0)) =~= first);
    while i < root.fields.len()
        invariant
            i <= root.fields@.len(),
            all == root@,
            entry::tag_views(tags@) == first + root_tags(all.subrange(0, i as int)),
        decreases root.fields@.len() - i,
    {
        let field = &root.fields[i];
        let ghost part = all.subrange(0, i + 1);
        assert(part.drop_last() =~= all.subrange(0, i as int));
        assert(part.last() == field@);
        if !is_reserved_key(field.key.as_str()) {
            let value = match &field.value {
                JsonValue::Text(t) => t.clone(),
                _ => field.rendered.clone(),
            };
            push_tag(&mut tags, field.key.clone(), value);
        }
        i += 1;
        assert(entry::tag_views(tags@) =~= first + root_tags(part));
    }
    assert(all.subrange(0, i as int) =~= all);
    let ghost roots = first + root_tags(all);
    assert(roots + Seq::<(Seq<char>, Seq<char>)>::empty() =~= roots);
    if let Some(JsonValue::Object(leaves)) = find(root, "att") {
        let ghost models = Seq::new(leaves@.len(), |k: int| leaves@[k]@);
        let mut j: usize = 0;
        assert(roots + leaf_tags(models).subrange(0, 0) =~= roots);
        while j < leaves.len()
            invariant
                j <= leaves@.len(),
                models == Seq::new(leaves@.len(), |k: int| leaves@[k]@),
                entry::tag_views(tags@) == roots + leaf_tags(models).subrange(0, j as int),
            decreases leaves@.len() - j,
        {
            let leaf = &leaves[j];
            push_tag(&mut tags, leaf.key.clone(), value_to_string(&leaf.text, &leaf.rendered));
            j += 1;
            assert(entry::tag_views(tags@) =~= roots + leaf_tags(models).subrange(0, j as int));
        }
        assert(leaf_tags(models).subrange(0, j as int) =~= leaf_tags(models));
    }
    tags
}

/// The entry that a document makes.
pub fn entry_from(doc: &JsonDocument) -> (res: ParsedEntry)
    ensures
        res@ == entry_of(doc@),
{
    let level = level_of_document(doc);
    ParsedEntry {
        timestamp: text_of_field(doc, "ts"),
        level,
        message: text_of_field(doc, "msg"),
        tags: collect_all_tags(doc),
        targettag: route_tag(level),
    }
}

/// What a number of entries hold.
pub open spec fn entry_views(entries: Seq<ParsedEntry>) -> Seq<entry::EntryModel> {
    Seq::new(entries.len(), |i: int| entries[i]@)
}

/// The entries of a number of lines.
pub open spec fn entries_of(raw: Seq<Seq<char>>) -> Seq<entry::EntryModel> {
    Seq::new(raw.len(), |i: int| entry_of(json_document(raw[i]).unwrap()))
}

/// Whether every line is JSON.
pub open spec fn all_json(raw: Seq<Seq<char>>) -> bool {
    forall|i: int| 0 <= i < raw.len() ==> json_document(#[trigger] raw[i]) is Some
}

/// Parses lines. One that is no JSON has all of them refused.
pub fn do_parse(raw_data: &Vec<String>) -> (res: Result<Vec<ParsedEntry>, ParseError>)
    ensures
        res is Ok <==> all_json(batch::texts(raw_data@)),
        res matches Ok(entries) ==> entry_views(entries@) == entries_of(
            batch::texts(raw_data@),
        ),
        res matches Err(e) ==> e matches ParseError::InvalidFormat(t) && t@
            == "JSON Parse Error"@,
{
    let mut entries: Vec<ParsedEntry> = Vec::new();
    let ghost raw = batch::texts(raw_data@);
    let mut i: usize = 0;
    assert(entry_views(entries@) =~= entries_of(raw).subrange(0, 0));
    while i < raw_data.len()
        invariant
            i <= raw_data@.len(),
            raw == batch::texts(raw_data@),
            entry_views(entries@) == entries_of(raw).subrange(0, i as int),
            forall|k: int| 0 <= k < i ==> json_document(#[trigger] raw[k]) is Some,
        decreases raw_data@.len() - i,
    {
        assert(raw[i as int] == raw_data@[i as int]@);
        match read_json(raw_data[i].as_str()) {
            Ok(doc) => {
                let parsed = entry_from(&doc);
                assert(parsed@ == entries_of(raw)[i as int]);
                let ghost before = entry_views(entries@);
                entries.push(parsed);
                assert(entry_views(entries@) =~= before.push(parsed@));
            },
            Err(_) => {
                return Err(ParseError::InvalidFormat("JSON Parse Error".to_string()));
            },
        }
        i += 1;
        assert(entry_views(entries@) =~= entries_of(raw).subrange(0, i as int));
    }
    assert(entry_views(entries@) =~= entries_of(raw));
    Ok(entries)
}

/// Of whatever document, the first tag tells the language of the plugin, and
/// no field with a meaning of its own is a tag of the root.
pub proof fn law_tags_of_document(fields: Seq<FieldModel>, i: int)
    requires
        0 <= i < root_tags(fields).len(),
    ensures
        all_tags(fields)[0] == ("lang"@, "Rust"@),
        all_tags(fields)[1 + i] == root_tags(fields)[i],
        !is_reserved(root_tags(fields)[i].0),
        exists|k: int|
            0 <= k < fields.len() && field_tag(#[trigger] fields[k]) == root_tags(fields)[i],
    decreases fields.len(),
{
    let shorter = fields.drop_last();
    if i < root_tags(shorter).len() {
        law_tags_of_document(shorter, i);
        let k = choose|k: int|
            0 <= k < shorter.len() && field_tag(#[trigger] shorter[k]) == root_tags(shorter)[i];
        assert(fields[k] == shorter[k]);
    } else {
        assert(fields[fields.len() - 1] == fields.last());
    }
}

/// Every field without a meaning of its own becomes a tag.
pub proof fn law_every_field_is_tagged(fields: Seq<FieldModel>, k: int)
    requires
        0 <= k < fields.len(),
        !is_reserved(fields[k].key),
    ensures
        all_tags(fields).contains(field_tag(fields[k])),
    decreases fields.len(),
{
    lemma_field_tagged(fields, k);
    let tags = root_tags(fields);
    let i = choose|i: int| 0 <= i < tags.len() && tags[i] == field_tag(fields[k]);
    assert(all_tags(fields)[1 + i] == field_tag(fields[k]));
}

proof fn lemma_field_tagged(fields: Seq<FieldModel>, k: int)
    requires
        0 <= k < fields.len(),
        !is_reserved(fields[k].key),
    ensures
        root_tags(fields).contains(field_tag(fields[k])),
    decreases fields.len(),
{
    let tags = root_tags(fields);
    if k == fields.len() - 1 {
        assert(tags[tags.len() - 1] == field_tag(fields[k]));
    } else {
        let shorter = fields.drop_last();
        lemma_field_tagged(shorter, k);
        let i = choose|i: int|
            0 <= i < root_tags(shorter).len() && root_tags(shorter)[i] == field_tag(shorter[k]);
        assert(tags[i] == field_tag(fields[k]));
    }
}

/// Whether two characters are the same or the two cases of an ASCII letter.
pub open spec fn case_pair(a: char, b: char) -> bool {
    ||| a == b
    ||| 'A' <= a <= 'Z' && b as int == a as int + 32
    ||| 'A' <= b <= 'Z' && a as int == b as int + 32
}

/// Whether a name is written like another but for the case of ASCII letters.
pub open spec fn written_like(s: Seq<char>, name: Seq<char>) -> bool {
    s.len() == name.len() && forall|i: int|
        0 <= i < s.len() ==> case_pair(#[trigger] s[i], name[i])
}

proof fn lemma_written_like(a: Seq<char>, b: Seq<char>)
    ensures
        same_but_case(a, b) <==> written_like(a, b),
{
    if same_but_case(a, b) {
        assert forall|i: int| 0 <= i < a.len() implies case_pair(#[trigger] a[i], b[i]) by {
            assert(lower(a[i]) == lower(b[i]));
        }
    }
    if written_like(a, b) {
        assert forall|i: int| 0 <= i < a.len() implies lower(#[trigger] a[i]) == lower(b[i]) by {
            assert(case_pair(a[i], b[i]));
        }
    }
}

/// Each of the four names stands for its own level, in whatever case its letters
/// are written, and no other name stands for any level but the usual one.
pub proof fn law_names_stand_for_levels(s: Seq<char>)
    ensures
        level_named(s) == LogLevel::Debug <==> written_like(s, "debug"@),
        level_named(s) == LogLevel::Warn <==> written_like(s, "warn"@),
        level_named(s) == LogLevel::Error <==> written_like(s, "error"@),
        written_like(s, "info"@) ==> level_named(s) == LogLevel::Info,
        level_named("debug"@) == LogLevel::Debug,
        level_named("info"@) == LogLevel::Info,
        level_named("warn"@) == LogLevel::Warn,
        level_named("error"@) == LogLevel::Error,
        level_named(s).spec_rank() <= LogLevel::Error.spec_rank(),
{
    lemma_named(s);
    lemma_named("debug"@);
    lemma_named("info"@);
    lemma_named("warn"@);
    lemma_named("error"@);
}

proof fn lemma_named(s: Seq<char>)
    ensures
        level_named(s) == LogLevel::Debug <==> written_like(s, "debug"@),
        level_named(s) == LogLevel::Warn <==> written_like(s, "warn"@),
        level_named(s) == LogLevel::Error <==> written_like(s, "error"@),
        written_like(s, "info"@) ==> level_named(s) == LogLevel::Info,
{
    reveal_strlit("debug");
    reveal_strlit("info");
    reveal_strlit("warn");
    reveal_strlit("error");
    lemma_written_like(s, "debug"@);
    lemma_written_like(s, "info"@);
    lemma_written_like(s, "warn"@);
    lemma_written_like(s, "error"@);
    if written_like(s, "warn"@) {
        assert(case_pair(s[0], "warn"@[0]));
    }
    if written_like(s, "info"@) {
        assert(case_pair(s[0], "info"@[0]));
    }
    if written_like(s, "debug"@) {
        assert(case_pair(s[0], "debug"@[0]));
    }
    if written_like(s, "error"@) {
        assert(case_pair(s[0], "error"@[0]));
    }
}

/// Two names that are the same but for the case of ASCII letters stand for the
/// same level.
pub proof fn law_case_of_names_does_not_matter(s: Seq<char>, t: Seq<char>)
    requires
        written_like(s, t),
    ensures
        level_named(s) == level_named(t),
{
    assert forall|name: Seq<char>| same_but_case(s, name) == same_but_case(t, name) by {
        lemma_written_like(s, t);
        if same_but_case(s, name) {
            assert forall|i: int| 0 <= i < t.len() implies lower(#[trigger] t[i]) == lower(
                name[i],
            ) by {
                assert(lower(s[i]) == lower(t[i]));
            }
        }
        if same_but_case(t, name) {
            assert forall|i: int| 0 <= i < s.len() implies lower(#[trigger] s[i]) == lower(
                name[i],
            ) by {
                assert(lower(t[i]) == lower(name[i]));
            }
        }
    }
}

/// A number stands for the level of that rank, and for the usual level where no
/// level has that rank.
pub proof fn law_numbers_stand_for_ranks(n: u64)
    ensures
        n <= LogLevel::Emerg.spec_rank() ==> level_numbered(n).spec_rank() == n,
        n > LogLevel::Emerg.spec_rank() ==> level_numbered(n) == LogLevel::Info,
{
}

/// The value that goes by a key is that of the first field with the key, and there
/// is none where no field has it.
pub proof fn law_first_field_counts(fields: Seq<FieldModel>, key: Seq<char>, k: int)
    requires
        0 <= k <= fields.len(),
        forall|j: int| 0 <= j < k ==> (#[trigger] fields[j]).key != key,
        k < fields.len() ==> fields[k].key == key,
    ensures
        k < fields.len() ==> lookup(fields, key) == Some(fields[k].value),
        k == fields.len() ==> lookup(fields, key) is None,
    decreases fields.len(),
{
    if k > 0 {
        let rest = fields.drop_first();
        assert forall|j: int| 0 <= j < k - 1 implies (#[trigger] rest[j]).key != key by {
            assert(rest[j] == fields[j + 1]);
        }
        law_first_field_counts(rest, key, k - 1);
    }
}

/// The time and the message of an entry are the texts of the first fields `ts` and
/// `msg`, and empty where such a field is missing or is no text.
pub proof fn law_entry_takes_its_texts(fields: Seq<FieldModel>, k: int, is_time: bool)
    requires
        ({
            let key = if is_time {
                "ts"@
            } else {
                "msg"@
            };
            &&& 0 <= k <= fields.len()
            &&& forall|j: int| 0 <= j < k ==> (#[trigger] fields[j]).key != key
            &&& k < fields.len() ==> fields[k].key == key
        }),
    ensures
        ({
            let told = if is_time {
                entry_of(fields).timestamp
            } else {
                entry_of(fields).message
            };
            &&& k < fields.len() ==> (fields[k].value matches ValueModel::Text(t) ==> told == t)
            &&& k < fields.len() && !(fields[k].value is Text) ==> told.len() == 0
            &&& k == fields.len() ==> told.len() == 0
        }),
{
    reveal_strlit("");
    law_first_field_counts(
        fields,
        if is_time {
            "ts"@
        } else {
            "msg"@
        },
        k,
    );
}

/// The level of an entry is told by the first field `level`: by its rank where that
/// is a number, by its name where that is text. Where it is something else, a
/// number of no level, or missing, the entry has the usual level.
pub proof fn law_entry_takes_its_level(fields: Seq<FieldModel>, k: int)
    requires
        0 <= k <= fields.len(),
        forall|j: int| 0 <= j < k ==> (#[trigger] fields[j]).key != "level"@,
        k < fields.len() ==> fields[k].key == "level"@,
    ensures
        k == fields.len() ==> entry_of(fields).level == LogLevel::Info,
        k < fields.len() ==> match fields[k].value {
            ValueModel::Number(Some(n)) => if n <= 6 {
                entry_of(fields).level.spec_rank() == n
            } else {
                entry_of(fields).level == LogLevel::Info
            },
            ValueModel::Text(t) => {
                &&& entry_of(fields).level == LogLevel::Debug <==> written_like(t, "debug"@)
                &&& entry_of(fields).level == LogLevel::Warn <==> written_like(t, "warn"@)
                &&& entry_of(fields).level == LogLevel::Error <==> written_like(t, "error"@)
                &&& entry_of(fields).level.spec_rank() <= 3
            },
            _ => entry_of(fields).level == LogLevel::Info,
        },
{
    law_first_field_counts(fields, "level"@, k);
    if k < fields.len() {
        match fields[k].value {
            ValueModel::Text(t) => {
                law_names_stand_for_levels(t);
            },
            ValueModel::Number(Some(n)) => {
                law_numbers_stand_for_ranks(n);
            },
            _ => {},
        }
    }
}

/// The tags of the root are those of all fields but `ts`, `level`, `msg` and `att`,
/// in their order and none left out, each with its text or, where it is no text,
/// with its compact JSON.
pub proof fn law_other_fields_are_tags(fields: Seq<FieldModel>)
    ensures
        root_tags(fields) == fields.filter(
            |f: FieldModel|
                f.key != "ts"@ && f.key != "level"@ && f.key != "msg"@ && f.key != "att"@,
        ).map_values(
            |f: FieldModel|
                (
                    f.key,
                    if f.value is Text {
                        f.value->Text_0
                    } else {
                        f.rendered
                    },
                ),
        ),
    decreases fields.len(),
{
    reveal(Seq::filter);
    let other = |f: FieldModel|
        f.key != "ts"@ && f.key != "level"@ && f.key != "msg"@ && f.key != "att"@;
    let tag = |f: FieldModel|
        (
            f.key,
            if f.value is Text {
                f.value->Text_0
            } else {
                f.rendered
            },
        );
    if fields.len() == 0 {
        assert(root_tags(fields) =~= fields.filter(other).map_values(tag));
    } else {
        let shorter = fields.drop_last();
        law_other_fields_are_tags(shorter);
        if other(fields.last()) {
            assert(shorter.filter(other).push(fields.last()).map_values(tag)
                =~= shorter.filter(other).map_values(tag).push(tag(fields.last())));
        }
        assert(root_tags(fields) =~= fields.filter(other).map_values(tag));
    }
}

/// An entry has the tag of the language first, then the tags of the root, then one
/// tag for each field of the object `att`, in their order: with its text or, where
/// it is no text, with its compact JSON. Every entry is meant for the same
/// endpoint.
pub proof fn law_entry_takes_its_tags(fields: Seq<FieldModel>, k: int)
    requires
        0 <= k <= fields.len(),
        forall|j: int| 0 <= j < k ==> (#[trigger] fields[j]).key != "att"@,
        k < fields.len() ==> fields[k].key == "att"@,
    ensures
        ({
            let tags = entry_of(fields).tags;
            let roots = root_tags(fields);
            let behind = tags.skip(1 + roots.len() as int);
            &&& tags[0] == ("lang"@, "Rust"@)
            &&& tags.subrange(1, 1 + roots.len() as int) == roots
            &&& k == fields.len() ==> behind.len() == 0
            &&& k < fields.len() ==> match fields[k].value {
                ValueModel::Object(leaves) => {
                    &&& behind.len() == leaves.len()
                    &&& forall|i: int|
                        0 <= i < leaves.len() ==> (#[trigger] behind[i]).0 == leaves[i].key && (
                        leaves[i].text matches Some(t) ==> behind[i].1 == t) && (
                        leaves[i].text is None ==> behind[i].1 == leaves[i].rendered)
                },
                _ => behind.len() == 0,
            }
            &&& entry_of(fields).targettag == "A"@
        }),
{
    law_first_field_counts(fields, "att"@, k);
    let tags = entry_of(fields).tags;
    let roots = root_tags(fields);
    assert(tags.subrange(1, 1 + roots.len() as int) =~= roots);
    assert(tags.skip(1 + roots.len() as int) =~= att_tags(fields));
}

/// Lines are parsed one by one: each makes the entry of its own document, lines
/// behind others make their entries behind the others', and all are accepted
/// exactly where each is JSON.
pub proof fn law_lines_are_parsed_one_by_one(
    a: Seq<Seq<char>>,
    b: Seq<Seq<char>>,
    line: Seq<char>,
)
    ensures
        all_json(seq![line]) <==> json_document(line) is Some,
        all_json(a + b) <==> all_json(a) && all_json(b),
        entries_of(a + b) == entries_of(a) + entries_of(b),
        entries_of(seq![line]).len() == 1,
        json_document(line) matches Some(fields) ==> entries_of(seq![line])[0] == entry_of(fields),
{
    if all_json(a + b) {
        assert forall|i: int| 0 <= i < a.len() implies json_document(#[trigger] a[i]) is Some by {
            assert((a + b)[i] == a[i]);
        }
        assert forall|i: int| 0 <= i < b.len() implies json_document(#[trigger] b[i]) is Some by {
            assert((a + b)[a.len() + i] == b[i]);
        }
    }
    if all_json(seq![line]) {
        assert(json_document(seq![line][0]) is Some);
    }
    assert(entries_of(a + b) =~= entries_of(a) + entries_of(b));
}

/// Entries are told one by one, in their order and none left out.
pub proof fn law_entries_are_told_one_by_one(entries: Seq<ParsedEntry>)
    ensures
        entry_views(entries).len() == entries.len(),
        forall|i: int| 0 <= i < entries.len() ==> #[trigger] entry_views(entries)[i] == entries[i]@,
{
}

/// A document is told field by field, in their order and none left out: each by its
/// key, its compact JSON, and its value for what it is.
pub proof fn law_document_is_told_in_full(doc: JsonDocument, i: int)
    requires
        0 <= i < doc.fields@.len(),
    ensures
        doc@.len() == doc.fields@.len(),
        doc@[i].key == doc.fields@[i].key@,
        doc@[i].rendered == doc.fields@[i].rendered@,
        match doc.fields@[i].value {
            JsonValue::Text(t) => doc@[i].value == ValueModel::Text(t@),
            JsonValue::Number(n) => doc@[i].value == ValueModel::Number(n),
            JsonValue::Object(leaves) => doc@[i].value is Object && doc@[i].value->Object_0.len()
                == leaves@.len() && forall|k: int|
                0 <= k < leaves@.len() ==> {
                    let told = #[trigger] doc@[i].value->Object_0[k];
                    &&& told.key == leaves@[k].key@
                    &&& told.rendered == leaves@[k].rendered@
                    &&& told.text is Some <==> leaves@[k].text is Some
                    &&& leaves@[k].text matches Some(t) ==> told.text == Some(t@)
                },
            JsonValue::Other => doc@[i].value is Other,
        },
{
}

/// A value as the value of a tag is its text where it has one, whatever its compact
/// JSON is, and its compact JSON where it has none.
pub proof fn law_text_goes_before_json(text: Seq<char>, a: Seq<char>, b: Seq<char>)
    ensures
        tag_text(Some(text), a) == text,
        tag_text(Some(text), a) == tag_text(Some(text), b),
        tag_text(None, a) == a,
{
}

/// Names that differ in the case of ASCII letters alone are given the same level,
/// and the four known names, in whatever case, each their own.
pub proof fn law_level_of_a_name(a: &str, b: &str, on_a: LogLevel, on_b: LogLevel)
    requires
        call_ensures(map_level_str, (a,), on_a),
        call_ensures(map_level_str, (b,), on_b),
    ensures
        written_like(a@, b@) ==> on_a == on_b,
        written_like(a@, "debug"@) <==> on_a == LogLevel::Debug,
        written_like(a@, "warn"@) <==> on_a == LogLevel::Warn,
        written_like(a@, "error"@) <==> on_a == LogLevel::Error,
        on_a == LogLevel::Info || on_a.spec_rank() <= 3,
{
    law_names_stand_for_levels(a@);
    if written_like(a@, b@) {
        law_case_of_names_does_not_matter(a@, b@);
    }
}

} // verus!
