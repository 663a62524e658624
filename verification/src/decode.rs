//! Decoding the service's responses.
//!
//! The bytes of a response are parsed by `serde_json`; what is in the parsed
//! document is read through four small calls into that crate, each of which
//! has a name here for what it returns. Everything that is decided about a
//! response is decided in verified code, over those names.

use crate::text::chars_of;
use vstd::prelude::*;
use vstd::string::*;

verus! {

/// `serde_json::Value`: a parsed JSON document, or a part of one. Nothing of
/// what it holds is visible here.
#[verifier::external_type_specification]
#[verifier::external_body]
pub struct ExValue(serde_json::Value);

/// The document that `serde_json::from_slice` reads from `body`, where it
/// reads one.
pub uninterp spec fn json_document(body: Seq<u8>) -> Option<serde_json::Value>;

/// What `serde_json::Value::as_array` finds in `value`: its elements, where
/// it is an array.
pub uninterp spec fn json_elements(value: serde_json::Value) -> Option<Seq<serde_json::Value>>;

/// What indexing `value` by the string `key` gives.
pub uninterp spec fn json_member(value: serde_json::Value, key: Seq<char>) -> serde_json::Value;

/// The text that `value` is displayed as.
pub uninterp spec fn json_text(value: serde_json::Value) -> Seq<char>;

/// `serde_json::from_slice`, read as a `Value`. Any error of the crate, be it
/// in the syntax or in the depth of nesting, comes back as `None`. The
/// contract only names the result: it depends on `body` alone.
#[verifier::external_body]
fn parse_document(body: &[u8]) -> (document: Option<serde_json::Value>)
    ensures
        document == json_document(body@),
{
    match serde_json::from_slice::<serde_json::Value>(body) {
        Ok(value) => Some(value),
        Err(_) => None,
    }
}

/// `serde_json::Value::as_array`: the vector inside an array value, `None`
/// for every other kind of value. The contract only names the result.
#[verifier::external_body]
fn elements_of(value: &serde_json::Value) -> (elements: Option<&Vec<serde_json::Value>>)
    ensures
        match elements {
            Some(list) => json_elements(*value) == Some(list@),
            None => json_elements(*value) is None,
        },
{
    value.as_array()
}

/// Indexing a `serde_json::Value` by a string key. The crate hands back the
/// member of that name where `value` is an object that has one, and its null
/// value otherwise; it never panics. The contract only names the result.
#[verifier::external_body]
fn member_of<'a>(value: &'a serde_json::Value, key: &str) -> (member: &'a serde_json::Value)
    ensures
        *member == json_member(*value, key@),
{
    &value[key]
}

/// `to_string` on a `serde_json::Value`: its compact JSON text, in which a
/// string stands between double quotes. The contract only names the result.
#[verifier::external_body]
fn text_of(value: &serde_json::Value) -> (text: String)
    ensures
        text@ == json_text(*value),
{
    value.to_string()
}

/// What stands between the double quotes of `text`, where it begins and ends
/// with one.
pub open spec fn unquoted(text: Seq<char>) -> Option<Seq<char>> {
    if text.len() >= 2 && text[0] == '"' && text[text.len() - 1] == '"' {
        Some(text.subrange(1, text.len() - 1))
    } else {
        None
    }
}

/// A model of an optional string.
pub open spec fn text_model(text: Option<String>) -> Option<Seq<char>> {
    match text {
        Some(text) => Some(text@),
        None => None,
    }
}

/// Takes the double quotes off a JSON string's text. A text that is not
/// quoted (a number, `null`, an object) gives `None`.
pub fn strip_quotes(text: &str) -> (inner: Option<String>)
    ensures
        text_model(inner) == unquoted(text@),
{
    let chars = chars_of(text);
    let n = chars.len();
    if n >= 2 && chars[0] == '"' && chars[n - 1] == '"' {
        Some(String::from_str(text.substring_char(1, n - 1)))
    } else {
        None
    }
}

/// One dictionary entry, as the service gave it.
#[derive(Clone, Debug, PartialEq, Eq)]
pub struct LookupRecord {
    pub headword: String,
    pub gloss: String,
    pub part_of_speech: String,
    pub attribution: String,
    pub source_dictionary: String,
}

/// A dictionary entry, as plain values.
pub struct RecordModel {
    pub headword: Seq<char>,
    pub gloss: Seq<char>,
    pub part_of_speech: Seq<char>,
    pub attribution: Seq<char>,
    pub source_dictionary: Seq<char>,
}

impl View for LookupRecord {
    type V = RecordModel;

    open spec fn view(&self) -> RecordModel {
        RecordModel {
            headword: self.headword@,
            gloss: self.gloss@,
            part_of_speech: self.part_of_speech@,
            attribution: self.attribution@,
            source_dictionary: self.source_dictionary@,
        }
    }
}

impl DeepView for LookupRecord {
    type V = RecordModel;

    open spec fn deep_view(&self) -> RecordModel {
        self@
    }
}

impl LookupRecord {
    /// A second record that holds the same texts.
    pub fn duplicate(&self) -> (copy: LookupRecord)
        ensures
            copy@ == self@,
    {
        LookupRecord {
            headword: self.headword.clone(),
            gloss: self.gloss.clone(),
            part_of_speech: self.part_of_speech.clone(),
            attribution: self.attribution.clone(),
            source_dictionary: self.source_dictionary.clone(),
        }
    }
}

/// A model of an optional record.
pub open spec fn record_model(record: Option<LookupRecord>) -> Option<RecordModel> {
    match record {
        Some(record) => Some(record@),
        None => None,
    }
}

/// The record that five JSON texts make, where each of them is a quoted
/// string.
pub open spec fn record_from(
    word: Seq<char>,
    text: Seq<char>,
    part_of_speech: Seq<char>,
    attribution_text: Seq<char>,
    source_dictionary: Seq<char>,
) -> Option<RecordModel> {
    if unquoted(word) is Some && unquoted(text) is Some && unquoted(part_of_speech) is Some
        && unquoted(attribution_text) is Some && unquoted(source_dictionary) is Some {
        Some(
            RecordModel {
                headword: unquoted(word)->0,
                gloss: unquoted(text)->0,
                part_of_speech: unquoted(part_of_speech)->0,
                attribution: unquoted(attribution_text)->0,
                source_dictionary: unquoted(source_dictionary)->0,
            },
        )
    } else {
        None
    }
}

/// The record that an element of the definitions array stands for, where it
/// has all five members and each is a string.
pub open spec fn record_of(entry: serde_json::Value) -> Option<RecordModel> {
    record_from(
        json_text(json_member(entry, "word"@)),
        json_text(json_member(entry, "text"@)),
        json_text(json_member(entry, "partOfSpeech"@)),
        json_text(json_member(entry, "attributionText"@)),
        json_text(json_member(entry, "sourceDictionary"@)),
    )
}

/// The records of the usable entries, in the order of the entries.
pub open spec fn usable_records(entries: Seq<serde_json::Value>) -> Seq<RecordModel>
    decreases entries.len(),
{
    if entries.len() == 0 {
        Seq::empty()
    } else {
        let before = usable_records(entries.drop_last());
        match record_of(entries.last()) {
            Some(record) => before.push(record),
            None => before,
        }
    }
}

/// Makes a record out of the JSON texts of an entry's five members. Each
/// text must be a quoted string; the record holds what stands between the
/// quotes.
pub fn record_from_texts(
    word: &str,
    text: &str,
    part_of_speech: &str,
    attribution_text: &str,
    source_dictionary: &str,
) -> (record: Option<LookupRecord>)
    ensures
        record_model(record) == record_from(
            word@,
            text@,
            part_of_speech@,
            attribution_text@,
            source_dictionary@,
        ),
{
    let headword = strip_quotes(word);
    let gloss = strip_quotes(text);
    let part = strip_quotes(part_of_speech);
    let attribution = strip_quotes(attribution_text);
    let source = strip_quotes(source_dictionary);
    match (headword, gloss, part, attribution, source) {
        (
            Some(headword),
            Some(gloss),
            Some(part_of_speech),
            Some(attribution),
            Some(source_dictionary),
        ) => Some(
            LookupRecord { headword, gloss, part_of_speech, attribution, source_dictionary },
        ),
        _ => None,
    }
}

/// Reads one element of the definitions array.
fn decode_entry(entry: &serde_json::Value) -> (record: Option<LookupRecord>)
    ensures
        record_model(record) == record_of(*entry),
{
    let word = text_of(member_of(entry, "word"));
    let text = text_of(member_of(entry, "text"));
    let part_of_speech = text_of(member_of(entry, "partOfSpeech"));
    let attribution_text = text_of(member_of(entry, "attributionText"));
    let source_dictionary = text_of(member_of(entry, "sourceDictionary"));
    record_from_texts(
        word.as_str(),
        text.as_str(),
        part_of_speech.as_str(),
        attribution_text.as_str(),
        source_dictionary.as_str(),
    )
}

/// Why a definitions response cannot be used.
#[derive(Clone, Copy, Debug, PartialEq, Eq, Structural)]
pub enum DecodeError {
    /// The body is not JSON.
    NotJson,
    /// The body is JSON, but no array.
    NotAnArray,
    /// The array holds no entry that makes a record.
    NoUsableRecords,
}

/// The usable part of a definitions response.
#[derive(Clone, Debug, PartialEq, Eq)]
pub struct Definitions {
    /// The records of the usable entries, in the order of the response.
    pub records: Vec<LookupRecord>,
    /// How many entries were passed over because a member was missing or was
    /// no string.
    pub skipped: usize,
}

/// The usable part of a definitions response, as plain values.
pub struct DefinitionsModel {
    pub records: Seq<RecordModel>,
    pub skipped: nat,
}

impl View for Definitions {
    type V = DefinitionsModel;

    open spec fn view(&self) -> DefinitionsModel {
        DefinitionsModel { records: self.records.deep_view(), skipped: self.skipped as nat }
    }
}

/// A decoding result, as plain values.
pub open spec fn definitions_model(decoded: Result<Definitions, DecodeError>) -> Result<
    DefinitionsModel,
    DecodeError,
> {
    match decoded {
        Ok(definitions) => Ok(definitions@),
        Err(error) => Err(error),
    }
}

/// What a parsed definitions response decodes to: every entry that makes a
/// record gives one, the others are counted, and a response without a single
/// record is an error.
pub open spec fn definitions_in(document: Option<serde_json::Value>) -> Result<
    DefinitionsModel,
    DecodeError,
> {
    match document {
        None => Err(DecodeError::NotJson),
        Some(value) => match json_elements(value) {
            None => Err(DecodeError::NotAnArray),
            Some(entries) => {
                let records = usable_records(entries);
                if records.len() == 0 {
                    Err(DecodeError::NoUsableRecords)
                } else {
                    Ok(
                        DefinitionsModel {
                            records,
                            skipped: (entries.len() - records.len()) as nat,
                        },
                    )
                }
            },
        },
    }
}

/// Decodes the body of a definitions response.
///
/// An entry that lacks one of the five members, or holds something other than
/// a string in one, is passed over and counted; the response as a whole is
/// refused only where it is not a JSON array or leaves no record at all.
pub fn decode_definitions(body: &[u8]) -> (decoded: Result<Definitions, DecodeError>)
    ensures
        definitions_model(decoded) == definitions_in(json_document(body@)),
{
    let document = match parse_document(body) {
        Some(document) => document,
        None => {
            return Err(DecodeError::NotJson);
        },
    };
    let entries = match elements_of(&document) {
        Some(entries) => entries,
        None => {
            return Err(DecodeError::NotAnArray);
        },
    };
    let mut records: Vec<LookupRecord> = Vec::new();
    let mut skipped: usize = 0;
    let mut i: usize = 0;
    assert(entries@.take(0) =~= Seq::empty());
    while i < entries.len()
        invariant
            i <= entries.len(),
            records.deep_view() == usable_records(entries@.take(i as int)),
            skipped + records.len() == i,
        decreases entries.len() - i,
    {
        assert(entries@.take(i + 1).drop_last() =~= entries@.take(i as int));
        let ghost before = records.deep_view();
        match decode_entry(&entries[i]) {
            Some(record) => {
                records.push(record);
                assert(records.deep_view() =~= before.push(record@));
            },
            None => {
                skipped += 1;
            },
        }
        i += 1;
    }
    assert(entries@.take(i as int) =~= entries@);
    if records.len() == 0 {
        Err(DecodeError::NoUsableRecords)
    } else {
        Ok(Definitions { records, skipped })
    }
}

/// The text of member `key` of the first element of a parsed array, where
/// the document is an array, has a first element, and that member is a
/// string.
pub open spec fn first_text_in(document: Option<serde_json::Value>, key: Seq<char>) -> Option<
    Seq<char>,
> {
    match document {
        None => None,
        Some(value) => match json_elements(value) {
            None => None,
            Some(entries) => if entries.len() == 0 {
                None
            } else {
                unquoted(json_text(json_member(entries[0], key)))
            },
        },
    }
}

/// Reads member `key` of the first element of the array in `body`.
fn decode_first(body: &[u8], key: &str) -> (found: Option<String>)
    ensures
        text_model(found) == first_text_in(json_document(body@), key@),
{
    let document = match parse_document(body) {
        Some(document) => document,
        None => {
            return None;
        },
    };
    let entries = match elements_of(&document) {
        Some(entries) => entries,
        None => {
            return None;
        },
    };
    if entries.len() == 0 {
        return None;
    }
    let text = text_of(member_of(&entries[0], key));
    strip_quotes(text.as_str())
}

/// The pronunciation that the service gave for the word that was looked up.
#[derive(Clone, Debug, PartialEq, Eq)]
pub struct PronunciationResult {
    /// The transcription, as the service wrote it.
    pub raw_transcription: String,
}

/// A model of an optional pronunciation: its transcription.
pub open spec fn pronunciation_model(pronunciation: Option<PronunciationResult>) -> Option<
    Seq<char>,
> {
    match pronunciation {
        Some(pronunciation) => Some(pronunciation.raw_transcription@),
        None => None,
    }
}

/// Decodes the body of a pronunciations response: the raw transcription of
/// its first entry. A body that holds none, in whatever way, gives `None`.
pub fn decode_pronunciation(body: &[u8]) -> (pronunciation: Option<PronunciationResult>)
    ensures
        pronunciation_model(pronunciation) == first_text_in(json_document(body@), "raw"@),
{
    match decode_first(body, "raw") {
        Some(raw_transcription) => Some(PronunciationResult { raw_transcription }),
        None => None,
    }
}

/// Decodes the body of an audio response: the address of its first clip. A
/// body that holds none, in whatever way, gives `None`.
pub fn decode_clip_url(body: &[u8]) -> (url: Option<String>)
    ensures
        text_model(url) == first_text_in(json_document(body@), "fileUrl"@),
{
    decode_first(body, "fileUrl")
}

} // verus!
