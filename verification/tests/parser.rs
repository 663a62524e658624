use define::descriptor::{PartOfSpeech, PronunciationFormat, RequestDescriptor, Toggle};
use define::parser::{
    classify, normalize, parse, Command, Operator, OptionKind, Parser, Pending, Step, UsageError,
};

fn tokens(list: &[&str]) -> Vec<String> {
    list.iter().map(|token| token.to_string()).collect()
}

fn lookup(list: &[&str]) -> RequestDescriptor {
    match parse(&tokens(list)) {
        Ok(Command::Lookup(request)) => request,
        other => panic!("expected a lookup, got {:?}", other),
    }
}

fn refusal(list: &[&str]) -> UsageError {
    match parse(&tokens(list)) {
        Err(error) => error,
        other => panic!("expected a refusal, got {:?}", other),
    }
}

fn names(request: &RequestDescriptor) -> Vec<&str> {
    request.dictionaries().iter().map(|name| name.as_str()).collect()
}

#[test]
fn lone_word_gets_every_default() {
    let request = lookup(&["cat"]);
    assert_eq!(request.word(), "cat");
    assert_eq!(request.part_of_speech(), None);
    assert_eq!(names(&request), vec!["ahd-5"]);
    assert_eq!(request.limit(), 5);
    assert!(!request.audio());
    assert!(!request.include_related());
    assert!(!request.use_canonical());
    assert!(!request.examples());
    assert!(!request.frequency());
    assert_eq!(request.start_year(), None);
    assert_eq!(request.end_year(), None);
    assert!(!request.hyphenation());
    assert!(!request.pronunciation());
    assert_eq!(request.pronunciation_format(), PronunciationFormat::Ahd5);
    assert!(!request.thesaurus());
}

#[test]
fn word_is_the_first_token() {
    assert_eq!(lookup(&["serendipity", "-a", "-l", "2"]).word(), "serendipity");
    assert_eq!(lookup(&["", "-a"]).word(), "");
}

#[test]
fn empty_stream_is_refused() {
    assert_eq!(refusal(&[]), UsageError::MissingWord);
}

#[test]
fn option_in_place_of_word_is_refused() {
    assert_eq!(refusal(&["-a"]), UsageError::WordHasMarker);
    assert_eq!(refusal(&["--help"]), UsageError::WordHasMarker);
    assert_eq!(refusal(&["-d", "ahd-5", "cat"]), UsageError::WordHasMarker);
}

#[test]
fn word_with_marker_inside_is_refused() {
    assert_eq!(refusal(&["well-being"]), UsageError::WordHasMarker);
    assert_eq!(refusal(&["cat-", "-a"]), UsageError::WordHasMarker);
}

#[test]
fn dictionaries_and_limit_are_collected() {
    let request = lookup(&["cat", "-d", "ahd-5", "-d", "century", "-l", "3"]);
    assert_eq!(names(&request), vec!["ahd-5", "century"]);
    assert_eq!(request.limit(), 3);
}

#[test]
fn dictionaries_may_follow_one_option() {
    let request = lookup(&["cat", "--dictionaries", "wiktionary", "webster", "century"]);
    assert_eq!(names(&request), vec!["wiktionary", "webster", "century"]);
}

#[test]
fn no_dictionary_option_gives_the_default() {
    assert_eq!(names(&lookup(&["cat", "-l", "3"])), vec!["ahd-5"]);
}

#[test]
fn dictionary_option_without_values_gives_the_default() {
    assert_eq!(names(&lookup(&["cat", "-d"])), vec!["ahd-5"]);
    let request = lookup(&["cat", "-d", "-a"]);
    assert_eq!(names(&request), vec!["ahd-5"]);
    assert!(request.audio());
}

#[test]
fn frequency_takes_two_years() {
    let request = lookup(&["cat", "-f", "1950", "2000"]);
    assert!(request.frequency());
    assert_eq!(request.start_year(), Some(1950));
    assert_eq!(request.end_year(), Some(2000));
}

#[test]
fn frequency_with_one_year_at_end_of_stream() {
    let request = lookup(&["cat", "-f", "1950"]);
    assert!(request.frequency());
    assert_eq!(request.start_year(), Some(1950));
    assert_eq!(request.end_year(), None);
}

#[test]
fn frequency_is_closed_after_two_years() {
    assert_eq!(
        refusal(&["cat", "-f", "1950", "2000", "2010"]),
        UsageError::UnexpectedValue { position: 4 }
    );
    let request = lookup(&["cat", "-f", "1950", "2000", "-a"]);
    assert!(request.audio());
}

#[test]
fn second_frequency_option_sets_the_end_year() {
    let request = lookup(&["cat", "-f", "1900", "1950", "--frequency", "2000"]);
    assert_eq!(request.start_year(), Some(1900));
    assert_eq!(request.end_year(), Some(2000));
}

#[test]
fn frequency_wants_its_value_before_the_next_option() {
    assert_eq!(refusal(&["cat", "-f", "-a"]), UsageError::UnexpectedOption { position: 2 });
    assert_eq!(
        refusal(&["cat", "-f", "1950", "-a"]),
        UsageError::UnexpectedOption { position: 3 }
    );
}

#[test]
fn years_must_be_numbers_that_fit() {
    assert_eq!(refusal(&["cat", "-f", "soon"]), UsageError::InvalidNumber { position: 2 });
    assert_eq!(refusal(&["cat", "-f", "65536"]), UsageError::InvalidNumber { position: 2 });
    assert_eq!(lookup(&["cat", "-f", "65535"]).start_year(), Some(65535));
    assert_eq!(
        refusal(&["cat", "-f", "1950", "later"]),
        UsageError::InvalidNumber { position: 3 }
    );
}

#[test]
fn part_of_speech_is_checked() {
    let request = lookup(&["cat", "-s", "noun"]);
    assert_eq!(request.part_of_speech(), Some(PartOfSpeech::Noun));
    assert_eq!(
        refusal(&["cat", "-s", "notareal"]),
        UsageError::UnsupportedPartOfSpeech { position: 2 }
    );
    assert_eq!(
        refusal(&["cat", "-s", "Noun"]),
        UsageError::UnsupportedPartOfSpeech { position: 2 }
    );
}

#[test]
fn part_of_speech_tags_may_hold_the_marker() {
    assert_eq!(
        lookup(&["cat", "--partOfSpeech", "auxiliary-verb"]).part_of_speech(),
        Some(PartOfSpeech::AuxiliaryVerb)
    );
    assert_eq!(
        lookup(&["cat", "-S", "proper-noun-posessive", "-a"]).part_of_speech(),
        Some(PartOfSpeech::ProperNounPosessive)
    );
}

#[test]
fn part_of_speech_wants_its_value() {
    assert_eq!(refusal(&["cat", "-s", "-a"]), UsageError::UnexpectedOption { position: 2 });
    assert_eq!(lookup(&["cat", "-s"]).part_of_speech(), None);
}

#[test]
fn limit_is_a_small_number() {
    assert_eq!(lookup(&["cat", "-l", "0"]).limit(), 0);
    assert_eq!(lookup(&["cat", "--limit", "255"]).limit(), 255);
    assert_eq!(lookup(&["cat", "-L", "+7"]).limit(), 7);
    assert_eq!(lookup(&["cat", "-l", "007"]).limit(), 7);
    assert_eq!(refusal(&["cat", "-l", "256"]), UsageError::InvalidNumber { position: 2 });
    assert_eq!(refusal(&["cat", "-l", "three"]), UsageError::InvalidNumber { position: 2 });
    assert_eq!(refusal(&["cat", "-l", ""]), UsageError::InvalidNumber { position: 2 });
    assert_eq!(refusal(&["cat", "-l", "+"]), UsageError::InvalidNumber { position: 2 });
    assert_eq!(refusal(&["cat", "-l", "1 "]), UsageError::InvalidNumber { position: 2 });
    assert_eq!(refusal(&["cat", "-l", "-1"]), UsageError::UnexpectedOption { position: 2 });
}

#[test]
fn limit_returns_to_idle() {
    assert_eq!(refusal(&["cat", "-l", "3", "4"]), UsageError::UnexpectedValue { position: 3 });
}

#[test]
fn toggles_by_short_name() {
    let request = lookup(&["cat", "-a", "-r", "-c", "-x", "-h", "-t"]);
    assert!(request.audio());
    assert!(request.include_related());
    assert!(request.use_canonical());
    assert!(request.examples());
    assert!(request.hyphenation());
    assert!(request.thesaurus());
}

#[test]
fn toggles_by_long_name() {
    let request = lookup(&[
        "cat",
        "--audio",
        "--includeRelated",
        "--useCanonical",
        "--examples",
        "--hyphenation",
        "--thesaurus",
    ]);
    assert!(request.audio());
    assert!(request.include_related());
    assert!(request.use_canonical());
    assert!(request.examples());
    assert!(request.hyphenation());
    assert!(request.thesaurus());
}

#[test]
fn option_names_are_folded_to_lower_case() {
    assert!(lookup(&["cat", "-A"]).audio());
    assert!(lookup(&["cat", "--AUDIO"]).audio());
    assert!(lookup(&["cat", "--UseCanonical"]).use_canonical());
    assert_eq!(lookup(&["cat", "-L", "9"]).limit(), 9);
}

#[test]
fn any_number_of_markers_opens_an_option() {
    assert!(lookup(&["cat", "---audio"]).audio());
    assert!(lookup(&["cat", "-audio"]).audio());
}

#[test]
fn a_toggle_takes_no_value() {
    assert_eq!(refusal(&["cat", "-a", "loud"]), UsageError::UnexpectedValue { position: 2 });
}

#[test]
fn value_without_option_is_refused() {
    assert_eq!(refusal(&["cat", "dog"]), UsageError::UnexpectedValue { position: 1 });
}

#[test]
fn help_ends_the_parse() {
    assert_eq!(parse(&tokens(&["cat", "-u"])), Ok(Command::Help));
    assert_eq!(parse(&tokens(&["cat", "--usage"])), Ok(Command::Help));
    assert_eq!(parse(&tokens(&["cat", "--help", "stray", "-l", "x"])), Ok(Command::Help));
    assert_eq!(parse(&tokens(&["cat", "-d", "century", "-U"])), Ok(Command::Help));
}

#[test]
fn help_does_not_undo_an_earlier_error() {
    assert_eq!(
        refusal(&["cat", "stray", "--help"]),
        UsageError::UnexpectedValue { position: 1 }
    );
    assert_eq!(refusal(&["cat", "-l", "--help"]), UsageError::UnexpectedOption { position: 2 });
    assert_eq!(refusal(&["--help"]), UsageError::WordHasMarker);
}

#[test]
fn pronunciation_format_is_checked() {
    let request = lookup(&["cat", "-p", "IPA"]);
    assert!(request.pronunciation());
    assert_eq!(request.pronunciation_format(), PronunciationFormat::Ipa);
    assert_eq!(
        lookup(&["cat", "--pronunciation", "gcide-diacritical"]).pronunciation_format(),
        PronunciationFormat::GcideDiacritical
    );
    assert_eq!(
        lookup(&["cat", "-p", "arpabet"]).pronunciation_format(),
        PronunciationFormat::Arpabet
    );
    assert_eq!(
        refusal(&["cat", "-p", "ipa"]),
        UsageError::UnsupportedPronunciationFormat { position: 2 }
    );
}

#[test]
fn pronunciation_may_go_without_a_format() {
    let request = lookup(&["cat", "-p", "-a"]);
    assert!(request.pronunciation());
    assert!(request.audio());
    assert_eq!(request.pronunciation_format(), PronunciationFormat::Ahd5);
    assert!(lookup(&["cat", "-p"]).pronunciation());
}

#[test]
fn pronunciation_returns_to_idle_after_a_format() {
    assert_eq!(
        refusal(&["cat", "-p", "IPA", "arpabet"]),
        UsageError::UnexpectedValue { position: 3 }
    );
}

#[test]
fn unknown_option_fails_when_a_value_arrives() {
    assert_eq!(
        refusal(&["cat", "--etymology", "please"]),
        UsageError::UnknownOperator { position: 2 }
    );
}

#[test]
fn unknown_option_at_end_of_stream_is_let_through() {
    let request = lookup(&["cat", "-a", "--etymology"]);
    assert!(request.audio());
    assert_eq!(names(&request), vec!["ahd-5"]);
}

#[test]
fn unknown_option_wants_its_value_before_the_next_option() {
    assert_eq!(
        refusal(&["cat", "--etymology", "-a"]),
        UsageError::UnexpectedOption { position: 2 }
    );
}

#[test]
fn every_successful_parse_names_a_dictionary() {
    for list in [
        vec!["cat"],
        vec!["cat", "-d"],
        vec!["cat", "-d", "century"],
        vec!["cat", "-a", "-f", "1", "2"],
    ] {
        let request = lookup(&list);
        assert!(!request.dictionaries().is_empty());
        assert_eq!(request.word(), "cat");
    }
}

#[test]
fn classify_knows_both_forms_of_every_option() {
    let table = [
        ("a", OptionKind::Toggle(Toggle::Audio)),
        ("audio", OptionKind::Toggle(Toggle::Audio)),
        ("r", OptionKind::Toggle(Toggle::IncludeRelated)),
        ("includerelated", OptionKind::Toggle(Toggle::IncludeRelated)),
        ("c", OptionKind::Toggle(Toggle::UseCanonical)),
        ("usecanonical", OptionKind::Toggle(Toggle::UseCanonical)),
        ("x", OptionKind::Toggle(Toggle::Examples)),
        ("examples", OptionKind::Toggle(Toggle::Examples)),
        ("h", OptionKind::Toggle(Toggle::Hyphenation)),
        ("hyphenation", OptionKind::Toggle(Toggle::Hyphenation)),
        ("t", OptionKind::Toggle(Toggle::Thesaurus)),
        ("thesaurus", OptionKind::Toggle(Toggle::Thesaurus)),
        ("u", OptionKind::Help),
        ("usage", OptionKind::Help),
        ("help", OptionKind::Help),
        ("d", OptionKind::Operator(Operator::Dictionary)),
        ("dictionary", OptionKind::Operator(Operator::Dictionary)),
        ("dictionaries", OptionKind::Operator(Operator::Dictionary)),
        ("l", OptionKind::Operator(Operator::Limit)),
        ("limit", OptionKind::Operator(Operator::Limit)),
        ("f", OptionKind::Operator(Operator::Frequency)),
        ("frequency", OptionKind::Operator(Operator::Frequency)),
        ("s", OptionKind::Operator(Operator::PartOfSpeech)),
        ("partofspeech", OptionKind::Operator(Operator::PartOfSpeech)),
        ("p", OptionKind::Operator(Operator::Pronunciation)),
        ("pronunciation", OptionKind::Operator(Operator::Pronunciation)),
        ("", OptionKind::Operator(Operator::Unknown)),
        ("e", OptionKind::Operator(Operator::Unknown)),
        ("Audio", OptionKind::Operator(Operator::Unknown)),
        ("partOfSpeech", OptionKind::Operator(Operator::Unknown)),
    ];
    for (name, kind) in table {
        assert_eq!(classify(name), kind, "{}", name);
    }
}

#[test]
fn normalize_strips_markers_and_folds_case() {
    assert_eq!(normalize("-A"), "a");
    assert_eq!(normalize("--partOfSpeech"), "partofspeech");
    assert_eq!(normalize("---X-y"), "x-y");
    assert_eq!(normalize("plain"), "plain");
    assert_eq!(normalize("--"), "");
    assert_eq!(normalize("-ÄÖ"), "äö");
}

#[test]
fn machine_starts_idle() {
    let parser = Parser::start("cat").unwrap();
    assert_eq!(parser.pending(), Pending::Idle);
    assert_eq!(parser.finish().word(), "cat");
    assert_eq!(Parser::start("c-t"), Err(UsageError::WordHasMarker));
}

#[test]
fn machine_moves_between_idle_and_collecting() {
    let parser = Parser::start("cat").unwrap();
    let parser = match parser.feed("-d", 1) {
        Step::Continue(parser) => parser,
        other => panic!("{:?}", other),
    };
    assert_eq!(parser.pending(), Pending::Collecting(Operator::Dictionary));
    let parser = match parser.feed("century", 2) {
        Step::Continue(parser) => parser,
        other => panic!("{:?}", other),
    };
    assert_eq!(parser.pending(), Pending::Collecting(Operator::Dictionary));
    let parser = match parser.feed("-l", 3) {
        Step::Continue(parser) => parser,
        other => panic!("{:?}", other),
    };
    assert_eq!(parser.pending(), Pending::Collecting(Operator::Limit));
    let parser = match parser.feed("4", 4) {
        Step::Continue(parser) => parser,
        other => panic!("{:?}", other),
    };
    assert_eq!(parser.pending(), Pending::Idle);
    let parser = match parser.feed("-f", 5) {
        Step::Continue(parser) => parser,
        other => panic!("{:?}", other),
    };
    assert_eq!(parser.pending(), Pending::Collecting(Operator::Frequency));
    let parser = match parser.feed("1990", 6) {
        Step::Continue(parser) => parser,
        other => panic!("{:?}", other),
    };
    assert_eq!(parser.pending(), Pending::Collecting(Operator::Frequency));
    let parser = match parser.feed("1999", 7) {
        Step::Continue(parser) => parser,
        other => panic!("{:?}", other),
    };
    assert_eq!(parser.pending(), Pending::Idle);
    let request = parser.finish();
    assert_eq!(names(&request), vec!["century"]);
    assert_eq!(request.limit(), 4);
    assert_eq!(request.start_year(), Some(1990));
    assert_eq!(request.end_year(), Some(1999));
}

#[test]
fn machine_reports_help_and_failure() {
    assert_eq!(Parser::start("cat").unwrap().feed("--help", 1), Step::Help);
    assert_eq!(
        Parser::start("cat").unwrap().feed("dog", 7),
        Step::Fail(UsageError::UnexpectedValue { position: 7 })
    );
}

#[test]
fn select_is_the_idle_transition() {
    let parser = Parser::start("cat").unwrap();
    let parser = match parser.select(OptionKind::Toggle(Toggle::Thesaurus)) {
        Step::Continue(parser) => parser,
        other => panic!("{:?}", other),
    };
    assert_eq!(parser.pending(), Pending::Idle);
    let parser = match parser.select(OptionKind::Operator(Operator::Pronunciation)) {
        Step::Continue(parser) => parser,
        other => panic!("{:?}", other),
    };
    assert_eq!(parser.pending(), Pending::Collecting(Operator::Pronunciation));
    assert_eq!(parser.clone().select(OptionKind::Help), Step::Help);
    let request = parser.finish();
    assert!(request.thesaurus());
    assert!(request.pronunciation());
}

#[test]
fn catalog_lists_the_twenty_seven_tags() {
    let all = PartOfSpeech::all();
    assert_eq!(all.len(), 27);
    let tags: Vec<&str> = all.iter().map(|part| part.tag()).collect();
    assert_eq!(
        tags,
        vec![
            "noun",
            "adjective",
            "verb",
            "adverb",
            "interjection",
            "pronoun",
            "preposition",
            "abbreviation",
            "affix",
            "article",
            "auxiliary-verb",
            "conjunction",
            "definite-article",
            "family-name",
            "given-name",
            "idiom",
            "imperative",
            "noun-plural",
            "noun-posessive",
            "past-participle",
            "phrasal-prefix",
            "proper-noun",
            "proper-noun-plural",
            "proper-noun-posessive",
            "suffix",
            "verb-intransitive",
            "verb-transitive",
        ]
    );
    for part in all {
        assert_eq!(PartOfSpeech::from_tag(part.tag()), Some(part));
    }
    assert_eq!(PartOfSpeech::from_tag("notareal"), None);
    assert_eq!(PartOfSpeech::from_tag(""), None);
}

#[test]
fn catalog_lists_the_four_formats() {
    let all = PronunciationFormat::all();
    let tags: Vec<&str> = all.iter().map(|format| format.tag()).collect();
    assert_eq!(tags, vec!["ahd-5", "arpabet", "gcide-diacritical", "IPA"]);
    for format in all {
        assert_eq!(PronunciationFormat::from_tag(format.tag()), Some(format));
    }
    assert_eq!(PronunciationFormat::from_tag("AHD-5"), None);
}
