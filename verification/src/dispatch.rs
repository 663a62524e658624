//! The order of a lookup's remote calls.
//!
//! The dispatcher does no input or output itself. It is a machine that names
//! the next thing to do (an `Action`) and is told how that went (an `Event`):
//! the caller performs the action and hands the event back. The calls go out
//! one after the other: definitions first, the pronunciation next, and the
//! audio clip last and only where audio was asked for.

use crate::aggregate::{aggregate, grouped, GroupModel, WordGroup};
use crate::decimal::{decimal_string, decimal_text};
use crate::decode::{
    decode_clip_url, decode_definitions, decode_pronunciation, definitions_in, definitions_model,
    first_text_in, json_document, pronunciation_model, text_model, DecodeError, Definitions,
    DefinitionsModel, LookupRecord, PronunciationResult, RecordModel,
};
use crate::descriptor::{RequestDescriptor, RequestModel, DEFAULT_DICTIONARY};
use crate::text::{join, joined};
use vstd::prelude::*;
use vstd::string::*;

verus! {

/// The address under which the service answers.
pub const API_URL: &'static str = "https://api.wordnik.com/v4/word.json";

/// How many pronunciations are asked for.
pub const PRONUNCIATION_LIMIT: u8 = 1;

/// How many audio clips are asked for.
pub const AUDIO_LIMIT: u8 = 5;

/// The three things that the service is asked about a word.
#[derive(Clone, Copy, Debug, PartialEq, Eq, Structural)]
pub enum Endpoint {
    Definitions,
    Pronunciations,
    Audio,
}

impl Endpoint {
    /// The last part of the endpoint's address.
    pub open spec fn suffix_text(self) -> Seq<char> {
        match self {
            Endpoint::Definitions => "definitions"@,
            Endpoint::Pronunciations => "pronunciations"@,
            Endpoint::Audio => "audio"@,
        }
    }

    /// The last part of the endpoint's address.
    pub fn suffix(self) -> (text: &'static str)
        ensures
            text@ == self.suffix_text(),
    {
        match self {
            Endpoint::Definitions => "definitions",
            Endpoint::Pronunciations => "pronunciations",
            Endpoint::Audio => "audio",
        }
    }
}

/// One call to the service: a GET of `url` with the parameters of `query`.
#[derive(Clone, Debug, PartialEq, Eq)]
pub struct RemoteCall {
    pub endpoint: Endpoint,
    pub url: String,
    pub query: Vec<(String, String)>,
}

/// A call, as plain values.
pub struct CallModel {
    pub endpoint: Endpoint,
    pub url: Seq<char>,
    pub query: Seq<(Seq<char>, Seq<char>)>,
}

impl View for RemoteCall {
    type V = CallModel;

    open spec fn view(&self) -> CallModel {
        CallModel { endpoint: self.endpoint, url: self.url@, query: self.query.deep_view() }
    }
}

/// How a truth value is written in a query.
pub open spec fn truth_text(value: bool) -> Seq<char> {
    if value {
        "true"@
    } else {
        "false"@
    }
}

/// The address of an endpoint for a word.
pub open spec fn endpoint_url(word: Seq<char>, endpoint: Endpoint) -> Seq<char> {
    API_URL@ + "/"@ + word + "/"@ + endpoint.suffix_text()
}

/// The definitions call of a request: the word, the key, both word-form
/// toggles, the dictionaries joined by commas, and the limit.
pub open spec fn definitions_call(request: RequestModel, api_key: Seq<char>) -> CallModel {
    CallModel {
        endpoint: Endpoint::Definitions,
        url: endpoint_url(request.word, Endpoint::Definitions),
        query: seq![
            ("api_key"@, api_key),
            ("includeRelated"@, truth_text(request.include_related)),
            ("useCanonical"@, truth_text(request.use_canonical)),
            ("sourceDictionaries"@, joined(request.dictionaries, ","@)),
            ("limit"@, decimal_text(request.limit as nat)),
        ],
    }
}

/// The pronunciation call of a request. It asks the default dictionary for
/// one transcription in that dictionary's own format, whatever dictionaries
/// the request names.
pub open spec fn pronunciation_call(request: RequestModel, api_key: Seq<char>) -> CallModel {
    CallModel {
        endpoint: Endpoint::Pronunciations,
        url: endpoint_url(request.word, Endpoint::Pronunciations),
        query: seq![
            ("api_key"@, api_key),
            ("useCanonical"@, truth_text(request.use_canonical)),
            ("sourceDictionary"@, DEFAULT_DICTIONARY@),
            ("typeFormat"@, DEFAULT_DICTIONARY@),
            ("limit"@, decimal_text(PRONUNCIATION_LIMIT as nat)),
        ],
    }
}

/// The audio call of a request.
pub open spec fn audio_call(request: RequestModel, api_key: Seq<char>) -> CallModel {
    CallModel {
        endpoint: Endpoint::Audio,
        url: endpoint_url(request.word, Endpoint::Audio),
        query: seq![
            ("api_key"@, api_key),
            ("useCanonical"@, truth_text(request.use_canonical)),
            ("limit"@, decimal_text(AUDIO_LIMIT as nat)),
        ],
    }
}

/// How a truth value is written in a query.
fn truth(value: bool) -> (text: &'static str)
    ensures
        text@ == truth_text(value),
{
    if value {
        "true"
    } else {
        "false"
    }
}

/// The address of an endpoint for a word.
fn url_of(word: &str, endpoint: Endpoint) -> (url: String)
    ensures
        url@ == endpoint_url(word@, endpoint),
{
    let mut url = String::from_str(API_URL);
    url.append("/");
    url.append(word);
    url.append("/");
    url.append(endpoint.suffix());
    url
}

/// One parameter of a query.
fn parameter(name: &str, value: &str) -> (pair: (String, String))
    ensures
        pair.deep_view() == (name@, value@),
{
    (String::from_str(name), String::from_str(value))
}

/// Builds the definitions call of `request`.
pub fn build_definitions_call(request: &RequestDescriptor, api_key: &str) -> (call: RemoteCall)
    ensures
        call@ == definitions_call(request@, api_key@),
{
    let dictionaries = join(request.dictionaries(), ",");
    let limit = decimal_string(request.limit());
    let mut query: Vec<(String, String)> = Vec::new();
    query.push(parameter("api_key", api_key));
    query.push(parameter("includeRelated", truth(request.include_related())));
    query.push(parameter("useCanonical", truth(request.use_canonical())));
    query.push(parameter("sourceDictionaries", dictionaries.as_str()));
    query.push(parameter("limit", limit.as_str()));
    let call = RemoteCall {
        endpoint: Endpoint::Definitions,
        url: url_of(request.word(), Endpoint::Definitions),
        query,
    };
    assert(call@.query =~= definitions_call(request@, api_key@).query);
    call
}

/// Builds the pronunciation call of `request`.
pub fn build_pronunciation_call(request: &RequestDescriptor, api_key: &str) -> (call: RemoteCall)
    ensures
        call@ == pronunciation_call(request@, api_key@),
{
    let limit = decimal_string(PRONUNCIATION_LIMIT);
    let mut query: Vec<(String, String)> = Vec::new();
    query.push(parameter("api_key", api_key));
    query.push(parameter("useCanonical", truth(request.use_canonical())));
    query.push(parameter("sourceDictionary", DEFAULT_DICTIONARY));
    query.push(parameter("typeFormat", DEFAULT_DICTIONARY));
    query.push(parameter("limit", limit.as_str()));
    let call = RemoteCall {
        endpoint: Endpoint::Pronunciations,
        url: url_of(request.word(), Endpoint::Pronunciations),
        query,
    };
    assert(call@.query =~= pronunciation_call(request@, api_key@).query);
    call
}

/// Builds the audio call of `request`.
pub fn build_audio_call(request: &RequestDescriptor, api_key: &str) -> (call: RemoteCall)
    ensures
        call@ == audio_call(request@, api_key@),
{
    let limit = decimal_string(AUDIO_LIMIT);
    let mut query: Vec<(String, String)> = Vec::new();
    query.push(parameter("api_key", api_key));
    query.push(parameter("useCanonical", truth(request.use_canonical())));
    query.push(parameter("limit", limit.as_str()));
    let call = RemoteCall {
        endpoint: Endpoint::Audio,
        url: url_of(request.word(), Endpoint::Audio),
        query,
    };
    assert(call@.query =~= audio_call(request@, api_key@).query);
    call
}

/// How a run ended.
#[derive(Clone, Copy, Debug, PartialEq, Eq, Structural)]
pub enum Completion {
    /// The definitions were fetched; whatever else was asked for was done as
    /// far as it could be.
    Success,
    /// The definitions call did not get through.
    TransportFailed,
    /// The definitions call got an answer that holds no usable record.
    Undecodable(DecodeError),
    /// The dispatcher was told of something that it had not asked for.
    OutOfTurn,
}

impl Completion {
    /// The code with which the program ends: zero for success and for nothing
    /// else.
    pub open spec fn code(self) -> u8 {
        if self is Success {
            0
        } else {
            1
        }
    }

    /// The code with which the program ends.
    pub fn exit_code(self) -> (code: u8)
        ensures
            code == self.code(),
    {
        match self {
            Completion::Success => 0,
            _ => 1,
        }
    }
}

/// What the dispatcher is waiting for.
#[derive(Clone, Copy, Debug, PartialEq, Eq, Structural)]
pub enum Phase {
    /// The answer to the definitions call.
    Definitions,
    /// The answer to the pronunciation call.
    Pronunciation,
    /// The listing to have been shown.
    Listing,
    /// The answer to the audio call.
    AudioList,
    /// The bytes of the clip.
    Clip,
    /// The clip to have been played to its end.
    Playback,
    /// Nothing: the run is over.
    Finished(Completion),
}

/// What the caller reports of the action it performed.
#[derive(Clone, Debug, PartialEq, Eq)]
pub enum Event {
    /// The call or the fetch was answered with these bytes.
    Body(Vec<u8>),
    /// The action could not be performed.
    Failed,
    /// The listing was shown, or the clip was played to its end.
    Done,
}

/// An event, as plain values.
pub enum EventModel {
    Body(Seq<u8>),
    Failed,
    Done,
}

impl View for Event {
    type V = EventModel;

    open spec fn view(&self) -> EventModel {
        match self {
            Event::Body(bytes) => EventModel::Body(bytes@),
            Event::Failed => EventModel::Failed,
            Event::Done => EventModel::Done,
        }
    }
}

/// An event, read for what the dispatcher was waiting for.
#[derive(Debug, PartialEq, Eq)]
pub enum Reply {
    /// What the answer to the definitions call decodes to.
    Definitions(Result<Definitions, DecodeError>),
    /// The pronunciation in the answer to the pronunciation call, if any.
    Pronunciation(Option<PronunciationResult>),
    /// The address of the first clip in the answer to the audio call, if any.
    ClipUrl(Option<String>),
    /// Bytes that were fetched.
    Bytes(Vec<u8>),
    /// The action could not be performed.
    Failed,
    /// The listing was shown, or the clip was played to its end.
    Done,
}

/// A reply, as plain values.
pub enum ReplyModel {
    Definitions(Result<DefinitionsModel, DecodeError>),
    Pronunciation(Option<Seq<char>>),
    ClipUrl(Option<Seq<char>>),
    Bytes(Seq<u8>),
    Failed,
    Done,
}

impl View for Reply {
    type V = ReplyModel;

    open spec fn view(&self) -> ReplyModel {
        match self {
            Reply::Definitions(decoded) => ReplyModel::Definitions(definitions_model(*decoded)),
            Reply::Pronunciation(pronunciation) => ReplyModel::Pronunciation(
                pronunciation_model(*pronunciation),
            ),
            Reply::ClipUrl(url) => ReplyModel::ClipUrl(text_model(*url)),
            Reply::Bytes(bytes) => ReplyModel::Bytes(bytes@),
            Reply::Failed => ReplyModel::Failed,
            Reply::Done => ReplyModel::Done,
        }
    }
}

/// A sound clip of the word: where it was found and what was fetched there.
#[derive(Clone, Debug, PartialEq, Eq)]
pub struct AudioClip {
    pub url: String,
    pub bytes: Vec<u8>,
}

/// A clip, as plain values.
pub struct ClipModel {
    pub url: Seq<char>,
    pub bytes: Seq<u8>,
}

impl View for AudioClip {
    type V = ClipModel;

    open spec fn view(&self) -> ClipModel {
        ClipModel { url: self.url@, bytes: self.bytes@ }
    }
}

/// What the caller is to do next.
#[derive(Clone, Debug, PartialEq, Eq)]
pub enum Action {
    /// Call the service, and report the body of the answer or the failure.
    Call(RemoteCall),
    /// Fetch the bytes at this address, and report them or the failure.
    Fetch(String),
    /// Show these groups, say how many entries were passed over, and report
    /// when that is done.
    Show { groups: Vec<WordGroup>, skipped: usize },
    /// Play this clip, and report when the sound has ended, or a failure
    /// where it cannot be played or does not end in good time.
    Play(AudioClip),
    /// End the program.
    Exit(Completion),
}

/// An action, as plain values.
pub enum ActionModel {
    Call(CallModel),
    Fetch(Seq<char>),
    Show { groups: Seq<GroupModel>, skipped: nat },
    Play(ClipModel),
    Exit(Completion),
}

impl View for Action {
    type V = ActionModel;

    open spec fn view(&self) -> ActionModel {
        match self {
            Action::Call(call) => ActionModel::Call(call@),
            Action::Fetch(url) => ActionModel::Fetch(url@),
            Action::Show { groups, skipped } => ActionModel::Show {
                groups: groups.deep_view(),
                skipped: *skipped as nat,
            },
            Action::Play(clip) => ActionModel::Play(clip@),
            Action::Exit(completion) => ActionModel::Exit(*completion),
        }
    }
}

impl ActionModel {
    /// The action goes out to the network.
    pub open spec fn is_remote(self) -> bool {
        self is Call || self is Fetch
    }

    /// The action serves the audio clip: the audio call, the fetch of the
    /// clip or its playback.
    pub open spec fn is_for_audio(self) -> bool {
        ||| self matches ActionModel::Call(call) && call.endpoint == Endpoint::Audio
        ||| self is Fetch
        ||| self is Play
    }
}

/// The dispatcher's state, as plain values.
pub struct DispatcherModel {
    pub request: RequestModel,
    pub api_key: Seq<char>,
    pub phase: Phase,
    pub records: Seq<RecordModel>,
    pub skipped: nat,
    pub clip_url: Seq<char>,
}

/// A state and the action that goes with it, as plain values.
pub struct MoveModel {
    pub state: DispatcherModel,
    pub action: ActionModel,
}

impl DispatcherModel {
    /// The first move of a run: the definitions call.
    pub open spec fn start(request: RequestModel, api_key: Seq<char>) -> MoveModel {
        MoveModel {
            state: DispatcherModel {
                request,
                api_key,
                phase: Phase::Definitions,
                records: Seq::empty(),
                skipped: 0,
                clip_url: Seq::empty(),
            },
            action: ActionModel::Call(definitions_call(request, api_key)),
        }
    }

    /// The move that ends the run.
    pub open spec fn finish(self, completion: Completion) -> MoveModel {
        MoveModel {
            state: DispatcherModel { phase: Phase::Finished(completion), ..self },
            action: ActionModel::Exit(completion),
        }
    }

    /// An event, read for what this state is waiting for. The bytes of an
    /// answer are decoded as the answer to the call that is out.
    pub open spec fn read(self, event: EventModel) -> ReplyModel {
        match event {
            EventModel::Failed => ReplyModel::Failed,
            EventModel::Done => ReplyModel::Done,
            EventModel::Body(bytes) => match self.phase {
                Phase::Definitions => ReplyModel::Definitions(
                    definitions_in(json_document(bytes)),
                ),
                Phase::Pronunciation => ReplyModel::Pronunciation(
                    first_text_in(json_document(bytes), "raw"@),
                ),
                Phase::AudioList => ReplyModel::ClipUrl(
                    first_text_in(json_document(bytes), "fileUrl"@),
                ),
                _ => ReplyModel::Bytes(bytes),
            },
        }
    }

    /// The move that a reply leads to.
    ///
    /// Only a failure of the definitions call ends the run in failure. A
    /// failed or empty pronunciation call leaves the listing without a
    /// pronunciation; the audio steps end the run quietly wherever they
    /// cannot go on. A reply that does not fit what the state is waiting for
    /// ends the run as out of turn, and a finished run stays finished.
    pub open spec fn advance(self, reply: ReplyModel) -> MoveModel {
        match (self.phase, reply) {
            (Phase::Finished(completion), _) => MoveModel {
                state: self,
                action: ActionModel::Exit(completion),
            },
            (Phase::Definitions, ReplyModel::Definitions(Ok(definitions))) => MoveModel {
                state: DispatcherModel {
                    phase: Phase::Pronunciation,
                    records: definitions.records,
                    skipped: definitions.skipped,
                    ..self
                },
                action: ActionModel::Call(pronunciation_call(self.request, self.api_key)),
            },
            (Phase::Definitions, ReplyModel::Definitions(Err(error))) => self.finish(
                Completion::Undecodable(error),
            ),
            (Phase::Definitions, ReplyModel::Failed) => self.finish(Completion::TransportFailed),
            (Phase::Pronunciation, ReplyModel::Pronunciation(raw)) => MoveModel {
                state: DispatcherModel { phase: Phase::Listing, ..self },
                action: ActionModel::Show {
                    groups: grouped(self.records, raw),
                    skipped: self.skipped,
                },
            },
            (Phase::Pronunciation, ReplyModel::Failed) => MoveModel {
                state: DispatcherModel { phase: Phase::Listing, ..self },
                action: ActionModel::Show {
                    groups: grouped(self.records, None),
                    skipped: self.skipped,
                },
            },
            (Phase::Listing, ReplyModel::Done) => if self.request.audio {
                MoveModel {
                    state: DispatcherModel { phase: Phase::AudioList, ..self },
                    action: ActionModel::Call(audio_call(self.request, self.api_key)),
                }
            } else {
                self.finish(Completion::Success)
            },
            (Phase::AudioList, ReplyModel::ClipUrl(Some(url))) => MoveModel {
                state: DispatcherModel { phase: Phase::Clip, clip_url: url, ..self },
                action: ActionModel::Fetch(url),
            },
            (Phase::AudioList, ReplyModel::ClipUrl(None)) => self.finish(Completion::Success),
            (Phase::AudioList, ReplyModel::Failed) => self.finish(Completion::Success),
            (Phase::Clip, ReplyModel::Bytes(bytes)) => MoveModel {
                state: DispatcherModel { phase: Phase::Playback, ..self },
                action: ActionModel::Play(ClipModel { url: self.clip_url, bytes }),
            },
            (Phase::Clip, ReplyModel::Failed) => self.finish(Completion::Success),
            (Phase::Playback, ReplyModel::Done) => self.finish(Completion::Success),
            (Phase::Playback, ReplyModel::Failed) => self.finish(Completion::Success),
            _ => self.finish(Completion::OutOfTurn),
        }
    }

    /// The move that an event leads to.
    pub open spec fn step(self, event: EventModel) -> MoveModel {
        self.advance(self.read(event))
    }
}

/// The machine that orders the calls of one lookup.
#[derive(Clone, Debug, PartialEq, Eq)]
pub struct Dispatcher {
    request: RequestDescriptor,
    api_key: String,
    phase: Phase,
    records: Vec<LookupRecord>,
    skipped: usize,
    clip_url: String,
}

impl View for Dispatcher {
    type V = DispatcherModel;

    closed spec fn view(&self) -> DispatcherModel {
        DispatcherModel {
            request: self.request@,
            api_key: self.api_key@,
            phase: self.phase,
            records: self.records.deep_view(),
            skipped: self.skipped as nat,
            clip_url: self.clip_url@,
        }
    }
}

/// A dispatcher and the action that it asks for.
#[derive(Clone, Debug, PartialEq, Eq)]
pub struct Move {
    pub state: Dispatcher,
    pub action: Action,
}

impl View for Move {
    type V = MoveModel;

    open spec fn view(&self) -> MoveModel {
        MoveModel { state: self.state@, action: self.action@ }
    }
}

impl Dispatcher {
    /// Begins a run: the first action is the definitions call.
    pub fn start(request: RequestDescriptor, api_key: &str) -> (first: Move)
        ensures
            first@ == DispatcherModel::start(request@, api_key@),
    {
        let call = build_definitions_call(&request, api_key);
        let state = Dispatcher {
            request,
            api_key: String::from_str(api_key),
            phase: Phase::Definitions,
            records: Vec::new(),
            skipped: 0,
            clip_url: String::new(),
        };
        assert(state.records.deep_view() =~= Seq::<RecordModel>::empty());
        Move { state, action: Action::Call(call) }
    }

    /// What the dispatcher is waiting for.
    pub fn phase(&self) -> (phase: Phase)
        ensures
            phase == self@.phase,
    {
        self.phase
    }

    /// Ends the run.
    fn finish(self, completion: Completion) -> (last: Move)
        ensures
            last@ == self@.finish(completion),
    {
        let state = Dispatcher {
            request: self.request,
            api_key: self.api_key,
            phase: Phase::Finished(completion),
            records: self.records,
            skipped: self.skipped,
            clip_url: self.clip_url,
        };
        Move { state, action: Action::Exit(completion) }
    }

    /// Moves on to `phase` with `action`.
    fn proceed(self, phase: Phase, action: Action) -> (next: Move)
        ensures
            next@ == (MoveModel {
                state: DispatcherModel { phase, ..self@ },
                action: action@,
            }),
    {
        let state = Dispatcher {
            request: self.request,
            api_key: self.api_key,
            phase,
            records: self.records,
            skipped: self.skipped,
            clip_url: self.clip_url,
        };
        Move { state, action }
    }

    /// Reads an event for what the dispatcher is waiting for: the bytes of an
    /// answer are decoded as the answer to the call that is out.
    pub fn read(&self, event: Event) -> (reply: Reply)
        ensures
            reply@ == self@.read(event@),
    {
        match event {
            Event::Failed => Reply::Failed,
            Event::Done => Reply::Done,
            Event::Body(bytes) => match self.phase {
                Phase::Definitions => Reply::Definitions(decode_definitions(bytes.as_slice())),
                Phase::Pronunciation => Reply::Pronunciation(
                    decode_pronunciation(bytes.as_slice()),
                ),
                Phase::AudioList => Reply::ClipUrl(decode_clip_url(bytes.as_slice())),
                _ => Reply::Bytes(bytes),
            },
        }
    }

    /// Takes a reply and names the next action.
    pub fn advance(self, reply: Reply) -> (next: Move)
        ensures
            next@ == self@.advance(reply@),
    {
        match self.phase {
            Phase::Finished(completion) => Move { state: self, action: Action::Exit(completion) },
            Phase::Definitions => match reply {
                Reply::Definitions(Ok(definitions)) => {
                    let call = build_pronunciation_call(&self.request, self.api_key.as_str());
                    let state = Dispatcher {
                        request: self.request,
                        api_key: self.api_key,
                        phase: Phase::Pronunciation,
                        records: definitions.records,
                        skipped: definitions.skipped,
                        clip_url: self.clip_url,
                    };
                    Move { state, action: Action::Call(call) }
                },
                Reply::Definitions(Err(error)) => self.finish(Completion::Undecodable(error)),
                Reply::Failed => self.finish(Completion::TransportFailed),
                _ => self.finish(Completion::OutOfTurn),
            },
            Phase::Pronunciation => match reply {
                Reply::Pronunciation(pronunciation) => {
                    let groups = aggregate(&self.records, &pronunciation);
                    let skipped = self.skipped;
                    self.proceed(Phase::Listing, Action::Show { groups, skipped })
                },
                Reply::Failed => {
                    let groups = aggregate(&self.records, &None);
                    let skipped = self.skipped;
                    self.proceed(Phase::Listing, Action::Show { groups, skipped })
                },
                _ => self.finish(Completion::OutOfTurn),
            },
            Phase::Listing => match reply {
                Reply::Done => if self.request.audio() {
                    let call = build_audio_call(&self.request, self.api_key.as_str());
                    self.proceed(Phase::AudioList, Action::Call(call))
                } else {
                    self.finish(Completion::Success)
                },
                _ => self.finish(Completion::OutOfTurn),
            },
            Phase::AudioList => match reply {
                Reply::ClipUrl(Some(url)) => {
                    let state = Dispatcher {
                        request: self.request,
                        api_key: self.api_key,
                        phase: Phase::Clip,
                        records: self.records,
                        skipped: self.skipped,
                        clip_url: url.clone(),
                    };
                    Move { state, action: Action::Fetch(url) }
                },
                Reply::ClipUrl(None) => self.finish(Completion::Success),
                Reply::Failed => self.finish(Completion::Success),
                _ => self.finish(Completion::OutOfTurn),
            },
            Phase::Clip => match reply {
                Reply::Bytes(bytes) => {
                    let clip = AudioClip { url: self.clip_url.clone(), bytes };
                    self.proceed(Phase::Playback, Action::Play(clip))
                },
                Reply::Failed => self.finish(Completion::Success),
                _ => self.finish(Completion::OutOfTurn),
            },
            Phase::Playback => match reply {
                Reply::Done => self.finish(Completion::Success),
                Reply::Failed => self.finish(Completion::Success),
                _ => self.finish(Completion::OutOfTurn),
            },
        }
    }

    /// Takes an event and names the next action.
    pub fn step(self, event: Event) -> (next: Move)
        ensures
            next@ == self@.step(event@),
    {
        let reply = self.read(event);
        self.advance(reply)
    }
}

/// The actions that a state names in answer to a series of events, one for
/// each event.
pub open spec fn run(state: DispatcherModel, events: Seq<EventModel>) -> Seq<ActionModel>
    decreases events.len(),
{
    if events.len() == 0 {
        Seq::empty()
    } else {
        seq![state.step(events[0]).action] + run(state.step(events[0]).state, events.skip(1))
    }
}

/// Every action of a lookup whose events are `events`: the first action and
/// then the answer to each event.
pub open spec fn trace(request: RequestModel, api_key: Seq<char>, events: Seq<EventModel>) -> Seq<
    ActionModel,
> {
    seq![DispatcherModel::start(request, api_key).action] + run(
        DispatcherModel::start(request, api_key).state,
        events,
    )
}

/// How many of the actions go out to the network.
pub open spec fn remote_calls(actions: Seq<ActionModel>) -> nat
    decreases actions.len(),
{
    if actions.len() == 0 {
        0
    } else if actions[0].is_remote() {
        1 + remote_calls(actions.skip(1))
    } else {
        remote_calls(actions.skip(1))
    }
}

/// How many remote actions can still follow from a phase.
pub open spec fn calls_ahead(phase: Phase, audio: bool) -> nat {
    match phase {
        Phase::Definitions => if audio {
            3
        } else {
            1
        },
        Phase::Pronunciation | Phase::Listing => if audio {
            2
        } else {
            0
        },
        Phase::AudioList => 1,
        Phase::Clip | Phase::Playback | Phase::Finished(_) => 0,
    }
}

/// The phases that a lookup without audio passes through.
pub open spec fn is_quiet(phase: Phase) -> bool {
    phase is Definitions || phase is Pronunciation || phase is Listing || phase is Finished
}

/// A move changes neither the request nor the key.
pub proof fn lemma_move_keeps_request(state: DispatcherModel, reply: ReplyModel)
    ensures
        state.advance(reply).state.request == state.request,
        state.advance(reply).state.api_key == state.api_key,
{
}

/// No run names more remote actions than its first phase has ahead of it.
pub proof fn lemma_calls_ahead(state: DispatcherModel, events: Seq<EventModel>)
    ensures
        remote_calls(run(state, events)) <= calls_ahead(state.phase, state.request.audio),
    decreases events.len(),
{
    if events.len() > 0 {
        let next = state.step(events[0]);
        let rest = run(next.state, events.skip(1));
        lemma_move_keeps_request(state, state.read(events[0]));
        lemma_calls_ahead(next.state, events.skip(1));
        assert(run(state, events).skip(1) =~= rest);
    }
}

/// A finished run answers every event with the same exit.
pub proof fn lemma_finished_stays(
    state: DispatcherModel,
    events: Seq<EventModel>,
    completion: Completion,
)
    requires
        state.phase == Phase::Finished(completion),
    ensures
        forall|i: int|
            0 <= i < run(state, events).len() ==> run(state, events)[i] == ActionModel::Exit(
                completion,
            ),
    decreases events.len(),
{
    if events.len() > 0 {
        let next = state.step(events[0]);
        let rest = run(next.state, events.skip(1));
        lemma_finished_stays(next.state, events.skip(1), completion);
        assert forall|i: int| 0 <= i < run(state, events).len() implies run(state, events)[i]
            == ActionModel::Exit(completion) by {
            if i > 0 {
                assert(run(state, events)[i] == rest[i - 1]);
            }
        }
    }
}

/// Without audio, a run that begins in a quiet phase names no action that
/// serves the audio clip.
pub proof fn lemma_quiet_run(state: DispatcherModel, events: Seq<EventModel>)
    requires
        !state.request.audio,
        is_quiet(state.phase),
    ensures
        forall|i: int|
            0 <= i < run(state, events).len() ==> !(#[trigger] run(
                state,
                events,
            )[i]).is_for_audio(),
    decreases events.len(),
{
    if events.len() > 0 {
        let next = state.step(events[0]);
        let rest = run(next.state, events.skip(1));
        lemma_move_keeps_request(state, state.read(events[0]));
        lemma_quiet_run(next.state, events.skip(1));
        assert forall|i: int| 0 <= i < run(state, events).len() implies !(#[trigger] run(
            state,
            events,
        )[i]).is_for_audio() by {
            if i > 0 {
                assert(run(state, events)[i] == rest[i - 1]);
            }
        }
    }
}

/// The run names the successful exit somewhere.
pub open spec fn succeeds(actions: Seq<ActionModel>) -> bool {
    exists|i: int|
        0 <= i < actions.len() && #[trigger] actions[i] == ActionModel::Exit(Completion::Success)
}

/// Without audio, a run that ends in success has named the pronunciation
/// call after the definitions phase, and no remote action besides.
pub proof fn lemma_quiet_success(state: DispatcherModel, events: Seq<EventModel>)
    requires
        !state.request.audio,
        is_quiet(state.phase),
        succeeds(run(state, events)),
    ensures
        remote_calls(run(state, events)) == (if state.phase is Definitions {
            1nat
        } else {
            0nat
        }),
    decreases events.len(),
{
    lemma_calls_ahead(state, events);
    if events.len() > 0 && state.phase is Definitions {
        let next = state.step(events[0]);
        let rest = run(next.state, events.skip(1));
        let actions = run(state, events);
        let i = choose|i: int|
            0 <= i < actions.len() && #[trigger] actions[i] == ActionModel::Exit(
                Completion::Success,
            );
        assert(actions.skip(1) =~= rest);
        lemma_move_keeps_request(state, state.read(events[0]));
        if next.state.phase is Pronunciation {
            assert(i > 0);
            assert(rest[i - 1] == actions[i]);
            assert(succeeds(rest));
            lemma_quiet_success(next.state, events.skip(1));
        } else {
            let completion = next.state.phase->Finished_0;
            assert(completion != Completion::Success);
            lemma_finished_stays(next.state, events.skip(1), completion);
            if i > 0 {
                assert(rest[i - 1] == actions[i]);
            }
        }
    }
}

/// A lookup without audio goes out to the network at most twice, and one
/// with audio at most four times: for the definitions, the pronunciation,
/// the list of clips and the clip itself.
pub proof fn law_call_budget(request: RequestModel, api_key: Seq<char>, events: Seq<EventModel>)
    ensures
        remote_calls(trace(request, api_key, events)) <= (if request.audio {
            4nat
        } else {
            2nat
        }),
{
    let first = DispatcherModel::start(request, api_key);
    lemma_calls_ahead(first.state, events);
    assert(trace(request, api_key, events).skip(1) =~= run(first.state, events));
}

/// A lookup without audio never asks for anything that serves the audio
/// clip: not the audio call, not the fetch of a clip, not its playback.
pub proof fn law_audio_only_when_asked(
    request: RequestModel,
    api_key: Seq<char>,
    events: Seq<EventModel>,
)
    requires
        !request.audio,
    ensures
        forall|i: int|
            0 <= i < trace(request, api_key, events).len() ==> !(#[trigger] trace(
                request,
                api_key,
                events,
            )[i]).is_for_audio(),
{
    let first = DispatcherModel::start(request, api_key);
    let actions = trace(request, api_key, events);
    lemma_quiet_run(first.state, events);
    assert forall|i: int| 0 <= i < actions.len() implies !(
    #[trigger] actions[i]).is_for_audio() by {
        if i > 0 {
            assert(actions[i] == run(first.state, events)[i - 1]);
        }
    }
}

/// A lookup without audio that ends in success went out to the network
/// exactly twice.
pub proof fn law_two_calls_without_audio(
    request: RequestModel,
    api_key: Seq<char>,
    events: Seq<EventModel>,
)
    requires
        !request.audio,
        succeeds(trace(request, api_key, events)),
    ensures
        remote_calls(trace(request, api_key, events)) == 2,
{
    let first = DispatcherModel::start(request, api_key);
    let actions = trace(request, api_key, events);
    let rest = run(first.state, events);
    let i = choose|i: int|
        0 <= i < actions.len() && #[trigger] actions[i] == ActionModel::Exit(Completion::Success);
    assert(i > 0);
    assert(rest[i - 1] == actions[i]);
    assert(succeeds(rest));
    lemma_quiet_success(first.state, events);
    assert(actions.skip(1) =~= rest);
}

/// Where the definitions call does not get through, the run is over: the
/// next action is an exit with a code other than zero, and so is the answer
/// to whatever is reported after that.
pub proof fn law_definitions_failure_is_fatal(state: DispatcherModel, later: Seq<EventModel>)
    requires
        state.phase is Definitions,
    ensures
        state.step(EventModel::Failed).action == ActionModel::Exit(Completion::TransportFailed),
        Completion::TransportFailed.code() != 0,
        forall|i: int|
            0 <= i < later.len() ==> run(state.step(EventModel::Failed).state, later)[i]
                == ActionModel::Exit(Completion::TransportFailed),
        run(state.step(EventModel::Failed).state, later).len() == later.len(),
{
    let failed = state.step(EventModel::Failed).state;
    lemma_finished_stays(failed, later, Completion::TransportFailed);
    lemma_run_len(failed, later);
}

/// A run answers each event with one action.
pub proof fn lemma_run_len(state: DispatcherModel, events: Seq<EventModel>)
    ensures
        run(state, events).len() == events.len(),
    decreases events.len(),
{
    if events.len() > 0 {
        lemma_run_len(state.step(events[0]).state, events.skip(1));
    }
}

/// Where the pronunciation call does not get through, the listing is shown
/// all the same: it holds the groups of every record that the definitions
/// call gave, and no group has a pronunciation.
pub proof fn law_pronunciation_failure_keeps_listing(state: DispatcherModel)
    requires
        state.phase is Pronunciation,
    ensures
        state.step(EventModel::Failed).action == (ActionModel::Show {
            groups: grouped(state.records, None),
            skipped: state.skipped,
        }),
        forall|g: int|
            0 <= g < grouped(state.records, None).len() ==> (#[trigger] grouped(
                state.records,
                None,
            )[g]).pronunciation is None,
{
}

/// Where the answer to the definitions call holds no usable record, the run
/// is over as well, with a code other than zero.
pub proof fn law_unusable_definitions_are_fatal(state: DispatcherModel, error: DecodeError)
    requires
        state.phase is Definitions,
    ensures
        state.advance(ReplyModel::Definitions(Err(error))).action == ActionModel::Exit(
            Completion::Undecodable(error),
        ),
        state.advance(ReplyModel::Definitions(Err(error))).state.phase == Phase::Finished(
            Completion::Undecodable(error),
        ),
        Completion::Undecodable(error).code() != 0,
{
}

/// After the definitions, no failure is fatal: a pronunciation call that
/// fails leads to the listing, and a failure in any audio step ends the run
/// in success.
pub proof fn law_enrichment_failures_are_absorbed(state: DispatcherModel)
    requires
        state.phase is Pronunciation || state.phase is AudioList || state.phase is Clip
            || state.phase is Playback,
    ensures
        state.phase is Pronunciation ==> state.step(EventModel::Failed).action is Show,
        !(state.phase is Pronunciation) ==> state.step(EventModel::Failed).action
            == ActionModel::Exit(Completion::Success),
        Completion::Success.code() == 0,
{
}

} // verus!
