use define::decode::{
    decode_clip_url, decode_definitions, decode_pronunciation, record_from_texts, strip_quotes,
    DecodeError, LookupRecord, PronunciationResult,
};

fn record(headword: &str, gloss: &str, part: &str, attribution: &str, source: &str) -> LookupRecord {
    LookupRecord {
        headword: headword.to_string(),
        gloss: gloss.to_string(),
        part_of_speech: part.to_string(),
        attribution: attribution.to_string(),
        source_dictionary: source.to_string(),
    }
}

#[test]
fn strip_quotes_takes_the_outer_quotes_off() {
    assert_eq!(strip_quotes("\"cat\""), Some("cat".to_string()));
    assert_eq!(strip_quotes("\"\""), Some("".to_string()));
    assert_eq!(strip_quotes("\"a \\\"b\\\" c\""), Some("a \\\"b\\\" c".to_string()));
    assert_eq!(strip_quotes("\"é\""), Some("é".to_string()));
    assert_eq!(strip_quotes("\"\"\""), Some("\"".to_string()));
}

#[test]
fn strip_quotes_refuses_what_is_not_quoted() {
    assert_eq!(strip_quotes(""), None);
    assert_eq!(strip_quotes("\""), None);
    assert_eq!(strip_quotes("null"), None);
    assert_eq!(strip_quotes("12"), None);
    assert_eq!(strip_quotes("\"open"), None);
    assert_eq!(strip_quotes("close\""), None);
    assert_eq!(strip_quotes("{\"a\":\"b\"}"), None);
}

#[test]
fn record_from_texts_wants_five_strings() {
    assert_eq!(
        record_from_texts("\"cat\"", "\"a small animal\"", "\"noun\"", "\"from X\"", "\"x\""),
        Some(record("cat", "a small animal", "noun", "from X", "x"))
    );
    assert_eq!(record_from_texts("null", "\"g\"", "\"n\"", "\"a\"", "\"s\""), None);
    assert_eq!(record_from_texts("\"w\"", "7", "\"n\"", "\"a\"", "\"s\""), None);
    assert_eq!(record_from_texts("\"w\"", "\"g\"", "true", "\"a\"", "\"s\""), None);
    assert_eq!(record_from_texts("\"w\"", "\"g\"", "\"n\"", "[]", "\"s\""), None);
    assert_eq!(record_from_texts("\"w\"", "\"g\"", "\"n\"", "\"a\"", "{}"), None);
}

#[test]
fn definitions_are_read_in_order() {
    let body = br#"[
        {"word":"cat","text":"A small animal.","partOfSpeech":"noun",
         "attributionText":"from the AHD","sourceDictionary":"ahd-5","id":"C1"},
        {"word":"cat","text":"To vomit.","partOfSpeech":"verb",
         "attributionText":"from Wiktionary","sourceDictionary":"wiktionary"}
    ]"#;
    let decoded = decode_definitions(body).unwrap();
    assert_eq!(decoded.skipped, 0);
    assert_eq!(
        decoded.records,
        vec![
            record("cat", "A small animal.", "noun", "from the AHD", "ahd-5"),
            record("cat", "To vomit.", "verb", "from Wiktionary", "wiktionary"),
        ]
    );
}

#[test]
fn entries_with_missing_members_are_passed_over() {
    let body = br#"[
        {"word":"cat","partOfSpeech":"noun","attributionText":"a","sourceDictionary":"s"},
        {"word":"cat","text":"kept","partOfSpeech":"noun","attributionText":"a","sourceDictionary":"s"},
        {"word":"cat","text":null,"partOfSpeech":"noun","attributionText":"a","sourceDictionary":"s"},
        {"word":"cat","text":"t","partOfSpeech":3,"attributionText":"a","sourceDictionary":"s"},
        "stray",
        17,
        ["nested"],
        {"word":"dog","text":"also kept","partOfSpeech":"noun","attributionText":"a","sourceDictionary":"s"}
    ]"#;
    let decoded = decode_definitions(body).unwrap();
    assert_eq!(decoded.skipped, 6);
    assert_eq!(
        decoded.records,
        vec![record("cat", "kept", "noun", "a", "s"), record("dog", "also kept", "noun", "a", "s")]
    );
}

#[test]
fn a_response_without_a_usable_entry_is_refused() {
    assert_eq!(decode_definitions(b"[]"), Err(DecodeError::NoUsableRecords));
    assert_eq!(decode_definitions(b"[{}, {\"word\":\"cat\"}]"), Err(DecodeError::NoUsableRecords));
}

#[test]
fn a_response_that_is_no_array_is_refused() {
    assert_eq!(
        decode_definitions(b"{\"statusCode\":404,\"error\":\"Not Found\"}"),
        Err(DecodeError::NotAnArray)
    );
    assert_eq!(decode_definitions(b"\"text\""), Err(DecodeError::NotAnArray));
    assert_eq!(decode_definitions(b"null"), Err(DecodeError::NotAnArray));
}

#[test]
fn a_response_that_is_no_json_is_refused() {
    assert_eq!(decode_definitions(b""), Err(DecodeError::NotJson));
    assert_eq!(decode_definitions(b"<html>"), Err(DecodeError::NotJson));
    assert_eq!(decode_definitions(b"[1, 2"), Err(DecodeError::NotJson));
    assert_eq!(decode_definitions(b"[] trailing"), Err(DecodeError::NotJson));
    assert_eq!(decode_definitions(&[0xff, 0xfe]), Err(DecodeError::NotJson));
}

#[test]
fn texts_keep_their_json_escapes() {
    let body = br#"[{"word":"quote","text":"He said \"hi\"\nand left \\ at once.",
        "partOfSpeech":"noun","attributionText":"a","sourceDictionary":"s"}]"#;
    let decoded = decode_definitions(body).unwrap();
    assert_eq!(decoded.records[0].gloss, "He said \\\"hi\\\"\\nand left \\\\ at once.");
    assert_eq!(decoded.records[0].headword, "quote");
}

#[test]
fn texts_keep_their_markup_and_letters() {
    let body = "[{\"word\":\"naïve\",\"text\":\"See <em>naïf</em>.\",\"partOfSpeech\":\"adjective\",\
        \"attributionText\":\"a\",\"sourceDictionary\":\"s\"}]";
    let decoded = decode_definitions(body.as_bytes()).unwrap();
    assert_eq!(decoded.records[0].headword, "naïve");
    assert_eq!(decoded.records[0].gloss, "See <em>naïf</em>.");
}

#[test]
fn pronunciation_is_the_raw_text_of_the_first_entry() {
    let body = br#"[{"seq":0,"raw":"kat","rawType":"ahd-5"},{"seq":1,"raw":"other"}]"#;
    assert_eq!(
        decode_pronunciation(body),
        Some(PronunciationResult { raw_transcription: "kat".to_string() })
    );
}

#[test]
fn pronunciation_may_be_absent() {
    assert_eq!(decode_pronunciation(b"[]"), None);
    assert_eq!(decode_pronunciation(b"[{\"rawType\":\"ahd-5\"}]"), None);
    assert_eq!(decode_pronunciation(b"[{\"raw\":5}]"), None);
    assert_eq!(decode_pronunciation(b"[7]"), None);
    assert_eq!(decode_pronunciation(b"{\"raw\":\"kat\"}"), None);
    assert_eq!(decode_pronunciation(b"not json"), None);
    assert_eq!(decode_pronunciation(b""), None);
}

#[test]
fn clip_url_is_the_file_url_of_the_first_entry() {
    let body = br#"[{"id":1,"fileUrl":"https://audio.example/cat.mp3?sig=1"},
                    {"id":2,"fileUrl":"https://audio.example/cat2.mp3"}]"#;
    assert_eq!(decode_clip_url(body), Some("https://audio.example/cat.mp3?sig=1".to_string()));
}

#[test]
fn clip_url_may_be_absent() {
    assert_eq!(decode_clip_url(b"[]"), None);
    assert_eq!(decode_clip_url(b"[{\"id\":1}]"), None);
    assert_eq!(decode_clip_url(b"{}"), None);
    assert_eq!(decode_clip_url(b"oops"), None);
}

#[test]
fn duplicate_gives_an_equal_record() {
    let original = record("cat", "g", "noun", "a", "s");
    assert_eq!(original.duplicate(), original);
}
