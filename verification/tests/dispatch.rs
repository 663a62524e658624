use define::decode::{DecodeError, Definitions, LookupRecord, PronunciationResult};
use define::descriptor::RequestDescriptor;
use define::dispatch::{
    build_audio_call, build_definitions_call, build_pronunciation_call, Action, AudioClip,
    Completion, Dispatcher, Endpoint, Event, Move, Phase, RemoteCall, Reply,
};
use define::parser::{parse, Command};

fn request(list: &[&str]) -> RequestDescriptor {
    let tokens: Vec<String> = list.iter().map(|token| token.to_string()).collect();
    match parse(&tokens) {
        Ok(Command::Lookup(request)) => request,
        other => panic!("expected a lookup, got {:?}", other),
    }
}

fn query(pairs: &[(&str, &str)]) -> Vec<(String, String)> {
    pairs.iter().map(|(name, value)| (name.to_string(), value.to_string())).collect()
}

fn spoken(text: &str) -> Option<PronunciationResult> {
    Some(PronunciationResult { raw_transcription: text.to_string() })
}

fn body(text: &str) -> Event {
    Event::Body(text.as_bytes().to_vec())
}

const DEFINITIONS: &str = r#"[
    {"word":"cat","text":"A small <em>animal</em>.","partOfSpeech":"noun",
     "attributionText":"from the AHD","sourceDictionary":"ahd-5"},
    {"broken":true},
    {"word":"cats","text":"More than one cat.","partOfSpeech":"noun",
     "attributionText":"from the AHD","sourceDictionary":"ahd-5"}
]"#;

const PRONUNCIATIONS: &str = r#"[{"raw":"kat","rawType":"ahd-5"}]"#;

const CLIPS: &str = r#"[{"fileUrl":"https://audio.example/cat.mp3"},{"fileUrl":"https://x/2"}]"#;

/// Feeds the events one by one and collects every action, the first included.
fn drive(request: RequestDescriptor, events: Vec<Event>) -> (Dispatcher, Vec<Action>) {
    let Move { mut state, action } = Dispatcher::start(request, "secret");
    let mut actions = vec![action];
    for event in events {
        let next = state.step(event);
        state = next.state;
        actions.push(next.action);
    }
    (state, actions)
}

fn remote(actions: &Vec<Action>) -> usize {
    actions
        .iter()
        .filter(|action| matches!(action, Action::Call(_) | Action::Fetch(_)))
        .count()
}

#[test]
fn definitions_call_carries_the_request() {
    let request = request(&["cat", "-d", "ahd-5", "century", "-l", "3", "-r"]);
    assert_eq!(
        build_definitions_call(&request, "secret"),
        RemoteCall {
            endpoint: Endpoint::Definitions,
            url: "https://api.wordnik.com/v4/word.json/cat/definitions".to_string(),
            query: query(&[
                ("api_key", "secret"),
                ("includeRelated", "true"),
                ("useCanonical", "false"),
                ("sourceDictionaries", "ahd-5,century"),
                ("limit", "3"),
            ]),
        }
    );
}

#[test]
fn definitions_call_with_defaults() {
    let request = request(&["serendipity", "-c"]);
    assert_eq!(
        build_definitions_call(&request, ""),
        RemoteCall {
            endpoint: Endpoint::Definitions,
            url: "https://api.wordnik.com/v4/word.json/serendipity/definitions".to_string(),
            query: query(&[
                ("api_key", ""),
                ("includeRelated", "false"),
                ("useCanonical", "true"),
                ("sourceDictionaries", "ahd-5"),
                ("limit", "5"),
            ]),
        }
    );
}

#[test]
fn pronunciation_call_ignores_the_dictionaries() {
    let request = request(&["cat", "-d", "century", "-l", "9", "-p", "IPA"]);
    assert_eq!(
        build_pronunciation_call(&request, "secret"),
        RemoteCall {
            endpoint: Endpoint::Pronunciations,
            url: "https://api.wordnik.com/v4/word.json/cat/pronunciations".to_string(),
            query: query(&[
                ("api_key", "secret"),
                ("useCanonical", "false"),
                ("sourceDictionary", "ahd-5"),
                ("typeFormat", "ahd-5"),
                ("limit", "1"),
            ]),
        }
    );
}

#[test]
fn audio_call_asks_for_five_clips() {
    let request = request(&["cat", "-a", "-c"]);
    assert_eq!(
        build_audio_call(&request, "secret"),
        RemoteCall {
            endpoint: Endpoint::Audio,
            url: "https://api.wordnik.com/v4/word.json/cat/audio".to_string(),
            query: query(&[("api_key", "secret"), ("useCanonical", "true"), ("limit", "5")]),
        }
    );
}

#[test]
fn exit_codes() {
    assert_eq!(Completion::Success.exit_code(), 0);
    assert_eq!(Completion::TransportFailed.exit_code(), 1);
    assert_eq!(Completion::Undecodable(DecodeError::NotJson).exit_code(), 1);
    assert_eq!(Completion::Undecodable(DecodeError::NotAnArray).exit_code(), 1);
    assert_eq!(Completion::Undecodable(DecodeError::NoUsableRecords).exit_code(), 1);
    assert_eq!(Completion::OutOfTurn.exit_code(), 1);
}

#[test]
fn a_run_begins_with_the_definitions_call() {
    let request = request(&["cat"]);
    let first = Dispatcher::start(request.clone(), "secret");
    assert_eq!(first.state.phase(), Phase::Definitions);
    assert_eq!(first.action, Action::Call(build_definitions_call(&request, "secret")));
}

#[test]
fn a_run_without_audio_makes_two_calls() {
    let request = request(&["cat"]);
    let (state, actions) =
        drive(request.clone(), vec![body(DEFINITIONS), body(PRONUNCIATIONS), Event::Done]);
    assert_eq!(state.phase(), Phase::Finished(Completion::Success));
    assert_eq!(actions.len(), 4);
    assert_eq!(actions[0], Action::Call(build_definitions_call(&request, "secret")));
    assert_eq!(actions[1], Action::Call(build_pronunciation_call(&request, "secret")));
    match &actions[2] {
        Action::Show { groups, skipped } => {
            assert_eq!(*skipped, 1);
            assert_eq!(groups.len(), 2);
            assert_eq!(groups[0].headword, "cat");
            assert_eq!(groups[1].headword, "cats");
            assert_eq!(groups[0].pronunciation, spoken("kat"));
            assert_eq!(groups[1].pronunciation, spoken("kat"));
            assert_eq!(groups[0].records[0].gloss, "A small <em>animal</em>.");
        },
        other => panic!("{:?}", other),
    }
    assert_eq!(actions[3], Action::Exit(Completion::Success));
    assert_eq!(remote(&actions), 2);
}

#[test]
fn a_definitions_transport_failure_halts_the_run() {
    let (state, actions) = drive(
        request(&["cat", "-a"]),
        vec![Event::Failed, body(PRONUNCIATIONS), Event::Done, Event::Failed],
    );
    assert_eq!(state.phase(), Phase::Finished(Completion::TransportFailed));
    assert_eq!(remote(&actions), 1);
    for action in &actions[1..] {
        assert_eq!(*action, Action::Exit(Completion::TransportFailed));
    }
    assert_ne!(Completion::TransportFailed.exit_code(), 0);
}

#[test]
fn an_undecodable_definitions_answer_halts_the_run() {
    for (text, error) in [
        ("<html>", DecodeError::NotJson),
        ("{\"error\":\"Not Found\"}", DecodeError::NotAnArray),
        ("[]", DecodeError::NoUsableRecords),
        ("[{\"word\":\"cat\"}]", DecodeError::NoUsableRecords),
    ] {
        let (state, actions) = drive(request(&["cat"]), vec![body(text), Event::Done]);
        assert_eq!(state.phase(), Phase::Finished(Completion::Undecodable(error)));
        assert_eq!(actions[1], Action::Exit(Completion::Undecodable(error)));
        assert_eq!(actions[2], Action::Exit(Completion::Undecodable(error)));
        assert_eq!(remote(&actions), 1);
    }
}

#[test]
fn a_pronunciation_failure_still_shows_the_listing() {
    let (state, actions) =
        drive(request(&["cat"]), vec![body(DEFINITIONS), Event::Failed, Event::Done]);
    assert_eq!(state.phase(), Phase::Finished(Completion::Success));
    match &actions[2] {
        Action::Show { groups, skipped } => {
            assert_eq!(*skipped, 1);
            assert_eq!(groups.len(), 2);
            assert_eq!(groups[0].records.len(), 1);
            assert_eq!(groups[1].records.len(), 1);
            for group in groups {
                assert_eq!(group.pronunciation, None);
            }
        },
        other => panic!("{:?}", other),
    }
    assert_eq!(actions[3], Action::Exit(Completion::Success));
}

#[test]
fn an_empty_pronunciation_answer_still_shows_the_listing() {
    for text in ["[]", "{}", "garbage", "[{\"raw\":null}]"] {
        let (_, actions) = drive(request(&["cat"]), vec![body(DEFINITIONS), body(text)]);
        match &actions[2] {
            Action::Show { groups, .. } => {
                assert_eq!(groups.len(), 2);
                assert_eq!(groups[0].pronunciation, None);
            },
            other => panic!("{:?}", other),
        }
    }
}

#[test]
fn a_run_with_audio_makes_four_calls() {
    let request = request(&["cat", "--audio"]);
    let clip = vec![0xffu8, 0xfb, 0x90, 0x00];
    let (state, actions) = drive(
        request.clone(),
        vec![
            body(DEFINITIONS),
            body(PRONUNCIATIONS),
            Event::Done,
            body(CLIPS),
            Event::Body(clip.clone()),
            Event::Done,
        ],
    );
    assert_eq!(state.phase(), Phase::Finished(Completion::Success));
    assert_eq!(actions.len(), 7);
    assert_eq!(actions[3], Action::Call(build_audio_call(&request, "secret")));
    assert_eq!(actions[4], Action::Fetch("https://audio.example/cat.mp3".to_string()));
    assert_eq!(
        actions[5],
        Action::Play(AudioClip { url: "https://audio.example/cat.mp3".to_string(), bytes: clip })
    );
    assert_eq!(actions[6], Action::Exit(Completion::Success));
    assert_eq!(remote(&actions), 4);
}

#[test]
fn the_phases_follow_each_other() {
    let Move { state, .. } = Dispatcher::start(request(&["cat", "-a"]), "secret");
    assert_eq!(state.phase(), Phase::Definitions);
    let state = state.step(body(DEFINITIONS)).state;
    assert_eq!(state.phase(), Phase::Pronunciation);
    let state = state.step(body(PRONUNCIATIONS)).state;
    assert_eq!(state.phase(), Phase::Listing);
    let state = state.step(Event::Done).state;
    assert_eq!(state.phase(), Phase::AudioList);
    let state = state.step(body(CLIPS)).state;
    assert_eq!(state.phase(), Phase::Clip);
    let state = state.step(Event::Body(vec![1, 2, 3])).state;
    assert_eq!(state.phase(), Phase::Playback);
    let state = state.step(Event::Done).state;
    assert_eq!(state.phase(), Phase::Finished(Completion::Success));
}

#[test]
fn audio_failures_end_the_run_quietly() {
    let ways: Vec<Vec<Event>> = vec![
        vec![Event::Failed],
        vec![body("[]")],
        vec![body("not json")],
        vec![body("[{\"id\":1}]")],
        vec![body(CLIPS), Event::Failed],
        vec![body(CLIPS), Event::Body(vec![1, 2, 3]), Event::Failed],
    ];
    for way in ways {
        let mut events = vec![body(DEFINITIONS), body(PRONUNCIATIONS), Event::Done];
        events.extend(way);
        let (state, actions) = drive(request(&["cat", "-a"]), events);
        assert_eq!(state.phase(), Phase::Finished(Completion::Success));
        assert_eq!(actions.last(), Some(&Action::Exit(Completion::Success)));
        assert!(remote(&actions) <= 4);
        assert!(remote(&actions) >= 3);
    }
}

#[test]
fn without_audio_nothing_serves_the_clip() {
    let runs: Vec<Vec<Event>> = vec![
        vec![body(DEFINITIONS), body(PRONUNCIATIONS), Event::Done, body(CLIPS), Event::Done],
        vec![body(DEFINITIONS), Event::Failed, Event::Done, Event::Done],
        vec![Event::Done, body(CLIPS)],
        vec![body(DEFINITIONS), body(CLIPS), body(CLIPS), body(CLIPS)],
    ];
    for events in runs {
        let (_, actions) = drive(request(&["cat"]), events);
        assert!(remote(&actions) <= 2);
        for action in &actions {
            match action {
                Action::Call(call) => assert_ne!(call.endpoint, Endpoint::Audio),
                Action::Fetch(_) | Action::Play(_) => panic!("{:?}", action),
                _ => {},
            }
        }
    }
}

#[test]
fn an_event_out_of_turn_ends_the_run() {
    let (state, actions) = drive(request(&["cat"]), vec![Event::Done]);
    assert_eq!(state.phase(), Phase::Finished(Completion::OutOfTurn));
    assert_eq!(actions[1], Action::Exit(Completion::OutOfTurn));
    let (state, _) = drive(request(&["cat"]), vec![body(DEFINITIONS), Event::Done]);
    assert_eq!(state.phase(), Phase::Finished(Completion::OutOfTurn));
    let (state, _) =
        drive(request(&["cat"]), vec![body(DEFINITIONS), body(PRONUNCIATIONS), body("[]")]);
    assert_eq!(state.phase(), Phase::Finished(Completion::OutOfTurn));
}

#[test]
fn read_decodes_for_the_phase() {
    let Move { state, .. } = Dispatcher::start(request(&["cat"]), "secret");
    assert_eq!(state.read(Event::Failed), Reply::Failed);
    assert_eq!(state.read(Event::Done), Reply::Done);
    assert_eq!(state.read(body("[]")), Reply::Definitions(Err(DecodeError::NoUsableRecords)));
    match state.read(body(DEFINITIONS)) {
        Reply::Definitions(Ok(definitions)) => {
            assert_eq!(definitions.records.len(), 2);
            assert_eq!(definitions.skipped, 1);
        },
        other => panic!("{:?}", other),
    }
    let state = state.step(body(DEFINITIONS)).state;
    assert_eq!(state.read(body(PRONUNCIATIONS)), Reply::Pronunciation(spoken("kat")));
    assert_eq!(state.read(body("[]")), Reply::Pronunciation(None));
    let state = state.step(Event::Failed).state;
    assert_eq!(state.read(body("[]")), Reply::Bytes(b"[]".to_vec()));
}

#[test]
fn advance_takes_decoded_replies() {
    let record = LookupRecord {
        headword: "cat".to_string(),
        gloss: "An animal.".to_string(),
        part_of_speech: "noun".to_string(),
        attribution: "a".to_string(),
        source_dictionary: "ahd-5".to_string(),
    };
    let request = request(&["cat", "-a"]);
    let Move { state, .. } = Dispatcher::start(request.clone(), "secret");
    let next = state.advance(Reply::Definitions(Ok(Definitions {
        records: vec![record.clone()],
        skipped: 2,
    })));
    assert_eq!(next.action, Action::Call(build_pronunciation_call(&request, "secret")));
    let next = next.state.advance(Reply::Pronunciation(spoken("kat")));
    match &next.action {
        Action::Show { groups, skipped } => {
            assert_eq!(*skipped, 2);
            assert_eq!(groups.len(), 1);
            assert_eq!(groups[0].records, vec![record]);
            assert_eq!(groups[0].pronunciation, spoken("kat"));
        },
        other => panic!("{:?}", other),
    }
    let next = next.state.advance(Reply::Done);
    assert_eq!(next.action, Action::Call(build_audio_call(&request, "secret")));
    let next = next.state.advance(Reply::ClipUrl(Some("https://x/clip.mp3".to_string())));
    assert_eq!(next.action, Action::Fetch("https://x/clip.mp3".to_string()));
    let next = next.state.advance(Reply::Bytes(vec![9, 9]));
    assert_eq!(
        next.action,
        Action::Play(AudioClip { url: "https://x/clip.mp3".to_string(), bytes: vec![9, 9] })
    );
    let next = next.state.advance(Reply::Done);
    assert_eq!(next.action, Action::Exit(Completion::Success));
    assert_eq!(next.state.phase(), Phase::Finished(Completion::Success));
}
