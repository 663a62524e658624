//! The command-line parser: a two-state machine over the token stream.
//!
//! The first token is the word to look up; it may not hold the option marker
//! anywhere. Every later token either begins with the option marker and
//! names an option, or is a value for the option that is pending; a value may
//! hold the marker further in, as `ahd-5` and `proper-noun` do. The machine is
//! `Idle` while no option is pending and `Collecting` while one is.
//!
//! An option that takes any number of values is ended by the next option,
//! which is then read as if the machine had been idle. Every other pending
//! option wants its value first. The end of the stream ends whatever is
//! pending, with what it has.

use crate::decimal::{parse_u16, parse_u8, parse_unsigned};
use crate::descriptor::{
    PartOfSpeech, PronunciationFormat, RequestDescriptor, RequestModel, Toggle,
};
use crate::text::{chars_of, has_char, lowercase, lowercase_of, spells};
use vstd::prelude::*;
use vstd::string::*;

verus! {

/// The character that marks an option.
pub const MARKER: char = '-';

/// The options that take values.
#[derive(Clone, Copy, Debug, PartialEq, Eq, Structural)]
pub enum Operator {
    Dictionary,
    Limit,
    Frequency,
    PartOfSpeech,
    Pronunciation,
    /// A name that no option bears. It is accepted when it is read and
    /// refused when a value arrives for it.
    Unknown,
}

impl Operator {
    /// Whether the option takes any number of values, none included, so that
    /// the next option may follow it at any point.
    pub open spec fn variable_arity(self) -> bool {
        self is Dictionary || self is Pronunciation
    }
}

/// What an option name stands for.
#[derive(Clone, Copy, Debug, PartialEq, Eq, Structural)]
pub enum OptionKind {
    Toggle(Toggle),
    Help,
    Operator(Operator),
}

/// The state of the machine between two tokens.
#[derive(Clone, Copy, Debug, PartialEq, Eq, Structural)]
pub enum Pending {
    /// No option is waiting for a value.
    Idle,
    /// Values are being read for this operator.
    Collecting(Operator),
}

/// Why a token stream was refused. `position` is the index, in the stream, of
/// the token at which parsing stopped.
#[derive(Clone, Copy, Debug, PartialEq, Eq, Structural)]
pub enum UsageError {
    /// The stream is empty.
    MissingWord,
    /// The first token holds the option marker, so it is no word.
    WordHasMarker,
    /// A value stands where no option is pending.
    UnexpectedValue { position: usize },
    /// An option stands where the pending option still wants a value.
    UnexpectedOption { position: usize },
    /// The value is no number of the size that the pending option takes.
    InvalidNumber { position: usize },
    /// The value is none of the part-of-speech tags.
    UnsupportedPartOfSpeech { position: usize },
    /// The value is none of the transcription formats.
    UnsupportedPronunciationFormat { position: usize },
    /// The value follows an option that does not exist: the token before
    /// `position` names none.
    UnknownOperator { position: usize },
}

/// `word` holds the option marker somewhere.
pub open spec fn has_marker(word: Seq<char>) -> bool {
    word.contains(MARKER)
}

/// `token` begins with the option marker.
pub open spec fn is_option(token: Seq<char>) -> bool {
    token.len() > 0 && token[0] == MARKER
}

/// `token` without the markers it begins with.
pub open spec fn without_leading_markers(token: Seq<char>) -> Seq<char>
    decreases token.len(),
{
    if token.len() > 0 && token[0] == MARKER {
        without_leading_markers(token.skip(1))
    } else {
        token
    }
}

/// The name under which an option token is looked up: its leading markers
/// are dropped and the rest is put in lower case.
pub open spec fn option_name(token: Seq<char>) -> Seq<char> {
    lowercase_of(without_leading_markers(token))
}

/// The option that a name stands for, by its short or its long form.
pub open spec fn option_kind(name: Seq<char>) -> OptionKind {
    if name == "a"@ || name == "audio"@ {
        OptionKind::Toggle(Toggle::Audio)
    } else if name == "r"@ || name == "includerelated"@ {
        OptionKind::Toggle(Toggle::IncludeRelated)
    } else if name == "c"@ || name == "usecanonical"@ {
        OptionKind::Toggle(Toggle::UseCanonical)
    } else if name == "x"@ || name == "examples"@ {
        OptionKind::Toggle(Toggle::Examples)
    } else if name == "h"@ || name == "hyphenation"@ {
        OptionKind::Toggle(Toggle::Hyphenation)
    } else if name == "t"@ || name == "thesaurus"@ {
        OptionKind::Toggle(Toggle::Thesaurus)
    } else if name == "u"@ || name == "usage"@ || name == "help"@ {
        OptionKind::Help
    } else if name == "d"@ || name == "dictionary"@ || name == "dictionaries"@ {
        OptionKind::Operator(Operator::Dictionary)
    } else if name == "l"@ || name == "limit"@ {
        OptionKind::Operator(Operator::Limit)
    } else if name == "f"@ || name == "frequency"@ {
        OptionKind::Operator(Operator::Frequency)
    } else if name == "s"@ || name == "partofspeech"@ {
        OptionKind::Operator(Operator::PartOfSpeech)
    } else if name == "p"@ || name == "pronunciation"@ {
        OptionKind::Operator(Operator::Pronunciation)
    } else {
        OptionKind::Operator(Operator::Unknown)
    }
}

/// The machine's state, as plain values.
pub struct ParserModel {
    pub request: RequestModel,
    pub pending: Pending,
}

/// What one token does to the machine, as plain values.
pub enum StepModel {
    Continue(ParserModel),
    Help,
    Fail(UsageError),
}

/// What a token stream asks for, as plain values.
pub enum CommandModel {
    Lookup(RequestModel),
    Help,
}

impl ParserModel {
    /// The machine after the word and before any other token.
    pub open spec fn start(word: Seq<char>) -> ParserModel {
        ParserModel { request: RequestModel::initial(word), pending: Pending::Idle }
    }

    /// An end year is only ever set after a start year.
    pub open spec fn consistent(self) -> bool {
        self.request.end_year is Some ==> self.request.start_year is Some
    }

    /// The transition on an option of kind `kind`, taken from `Idle` or from
    /// an operator of variable arity, which the option ends.
    pub open spec fn select(self, kind: OptionKind) -> StepModel {
        match kind {
            OptionKind::Toggle(toggle) => StepModel::Continue(
                ParserModel { request: self.request.with_toggle(toggle), pending: Pending::Idle },
            ),
            OptionKind::Help => StepModel::Help,
            OptionKind::Operator(Operator::Frequency) => StepModel::Continue(
                ParserModel {
                    request: RequestModel { frequency: true, ..self.request },
                    pending: Pending::Collecting(Operator::Frequency),
                },
            ),
            OptionKind::Operator(Operator::Pronunciation) => StepModel::Continue(
                ParserModel {
                    request: RequestModel { pronunciation: true, ..self.request },
                    pending: Pending::Collecting(Operator::Pronunciation),
                },
            ),
            OptionKind::Operator(operator) => StepModel::Continue(
                ParserModel { request: self.request, pending: Pending::Collecting(operator) },
            ),
        }
    }

    /// The transition on a value read for `operator`.
    pub open spec fn collect(
        self,
        operator: Operator,
        value: Seq<char>,
        position: usize,
    ) -> StepModel {
        match operator {
            Operator::Dictionary => StepModel::Continue(
                ParserModel {
                    request: RequestModel {
                        dictionaries: self.request.dictionaries.push(value),
                        ..self.request
                    },
                    pending: Pending::Collecting(Operator::Dictionary),
                },
            ),
            Operator::Limit => match parse_unsigned(value, 255) {
                Some(limit) => StepModel::Continue(
                    ParserModel {
                        request: RequestModel { limit: limit as u8, ..self.request },
                        pending: Pending::Idle,
                    },
                ),
                None => StepModel::Fail(UsageError::InvalidNumber { position }),
            },
            Operator::Frequency => match parse_unsigned(value, 65535) {
                Some(year) => StepModel::Continue(
                    ParserModel {
                        request: self.request.with_year(year as u16),
                        pending: if self.request.start_year is Some {
                            Pending::Idle
                        } else {
                            Pending::Collecting(Operator::Frequency)
                        },
                    },
                ),
                None => StepModel::Fail(UsageError::InvalidNumber { position }),
            },
            Operator::PartOfSpeech => match PartOfSpeech::with_tag(value) {
                Some(part) => StepModel::Continue(
                    ParserModel {
                        request: RequestModel { part_of_speech: Some(part), ..self.request },
                        pending: Pending::Idle,
                    },
                ),
                None => StepModel::Fail(UsageError::UnsupportedPartOfSpeech { position }),
            },
            Operator::Pronunciation => match PronunciationFormat::with_tag(value) {
                Some(format) => StepModel::Continue(
                    ParserModel {
                        request: RequestModel { pronunciation_format: format, ..self.request },
                        pending: Pending::Idle,
                    },
                ),
                None => StepModel::Fail(UsageError::UnsupportedPronunciationFormat { position }),
            },
            Operator::Unknown => StepModel::Fail(UsageError::UnknownOperator { position }),
        }
    }

    /// The transition on the token that stands at `position`.
    pub open spec fn feed(self, token: Seq<char>, position: usize) -> StepModel {
        if is_option(token) {
            match self.pending {
                Pending::Collecting(operator) if !operator.variable_arity() => StepModel::Fail(
                    UsageError::UnexpectedOption { position },
                ),
                _ => self.select(option_kind(option_name(token))),
            }
        } else {
            match self.pending {
                Pending::Idle => StepModel::Fail(UsageError::UnexpectedValue { position }),
                Pending::Collecting(operator) => self.collect(operator, token, position),
            }
        }
    }

    /// The outcome of feeding the tokens from `from` on, one by one. The end
    /// of the stream closes whatever was pending.
    pub open spec fn scan(self, tokens: Seq<Seq<char>>, from: int) -> Result<
        CommandModel,
        UsageError,
    >
        decreases tokens.len() - from,
    {
        if from < 0 || from >= tokens.len() {
            Ok(CommandModel::Lookup(self.request.completed()))
        } else {
            match self.feed(tokens[from], from as usize) {
                StepModel::Continue(next) => next.scan(tokens, from + 1),
                StepModel::Help => Ok(CommandModel::Help),
                StepModel::Fail(error) => Err(error),
            }
        }
    }
}

/// What a whole token stream parses to.
pub open spec fn parse_model(tokens: Seq<Seq<char>>) -> Result<CommandModel, UsageError> {
    if tokens.len() == 0 {
        Err(UsageError::MissingWord)
    } else if has_marker(tokens[0]) {
        Err(UsageError::WordHasMarker)
    } else {
        ParserModel::start(tokens[0]).scan(tokens, 1)
    }
}

/// The machine itself. It owns the request that it is building.
#[derive(Clone, Debug, PartialEq, Eq)]
pub struct Parser {
    request: RequestDescriptor,
    pending: Pending,
}

impl View for Parser {
    type V = ParserModel;

    closed spec fn view(&self) -> ParserModel {
        ParserModel { request: self.request@, pending: self.pending }
    }
}

/// What one token did to the machine.
#[derive(Clone, Debug, PartialEq, Eq)]
pub enum Step {
    /// The token was taken; here is the machine to feed the next one to.
    Continue(Parser),
    /// The token asks for the usage text: parsing ends here, successfully.
    Help,
    /// The token cannot stand where it stands.
    Fail(UsageError),
}

impl View for Step {
    type V = StepModel;

    open spec fn view(&self) -> StepModel {
        match self {
            Step::Continue(parser) => StepModel::Continue(parser@),
            Step::Help => StepModel::Help,
            Step::Fail(error) => StepModel::Fail(*error),
        }
    }
}

/// What a token stream asks for.
#[derive(Clone, Debug, PartialEq, Eq)]
pub enum Command {
    /// Look the word up as the descriptor says.
    Lookup(RequestDescriptor),
    /// Show the usage text and do nothing else.
    Help,
}

impl View for Command {
    type V = CommandModel;

    open spec fn view(&self) -> CommandModel {
        match self {
            Command::Lookup(request) => CommandModel::Lookup(request@),
            Command::Help => CommandModel::Help,
        }
    }
}

/// A parse result, as plain values.
pub open spec fn outcome_model(outcome: Result<Command, UsageError>) -> Result<
    CommandModel,
    UsageError,
> {
    match outcome {
        Ok(command) => Ok(command@),
        Err(error) => Err(error),
    }
}

/// Looks an option name up. The name is expected in lower case and without
/// markers, as `normalize` gives it.
pub fn classify(name: &str) -> (kind: OptionKind)
    ensures
        kind == option_kind(name@),
{
    let chars = chars_of(name);
    if spells(&chars, "a") || spells(&chars, "audio") {
        OptionKind::Toggle(Toggle::Audio)
    } else if spells(&chars, "r") || spells(&chars, "includerelated") {
        OptionKind::Toggle(Toggle::IncludeRelated)
    } else if spells(&chars, "c") || spells(&chars, "usecanonical") {
        OptionKind::Toggle(Toggle::UseCanonical)
    } else if spells(&chars, "x") || spells(&chars, "examples") {
        OptionKind::Toggle(Toggle::Examples)
    } else if spells(&chars, "h") || spells(&chars, "hyphenation") {
        OptionKind::Toggle(Toggle::Hyphenation)
    } else if spells(&chars, "t") || spells(&chars, "thesaurus") {
        OptionKind::Toggle(Toggle::Thesaurus)
    } else if spells(&chars, "u") || spells(&chars, "usage") || spells(&chars, "help") {
        OptionKind::Help
    } else if spells(&chars, "d") || spells(&chars, "dictionary") || spells(
        &chars,
        "dictionaries",
    ) {
        OptionKind::Operator(Operator::Dictionary)
    } else if spells(&chars, "l") || spells(&chars, "limit") {
        OptionKind::Operator(Operator::Limit)
    } else if spells(&chars, "f") || spells(&chars, "frequency") {
        OptionKind::Operator(Operator::Frequency)
    } else if spells(&chars, "s") || spells(&chars, "partofspeech") {
        OptionKind::Operator(Operator::PartOfSpeech)
    } else if spells(&chars, "p") || spells(&chars, "pronunciation") {
        OptionKind::Operator(Operator::Pronunciation)
    } else {
        OptionKind::Operator(Operator::Unknown)
    }
}

/// The name under which an option token is looked up.
pub fn normalize(token: &str) -> (name: String)
    ensures
        name@ == option_name(token@),
{
    let chars = chars_of(token);
    let mut start: usize = 0;
    assert(token@.skip(0) =~= token@);
    while start < chars.len() && chars[start] == MARKER
        invariant
            chars@ == token@,
            start <= chars.len(),
            without_leading_markers(token@) == without_leading_markers(token@.skip(start as int)),
        decreases chars.len() - start,
    {
        assert(token@.skip(start as int).skip(1) =~= token@.skip(start + 1));
        start += 1;
    }
    let rest = token.substring_char(start, chars.len());
    assert(rest@ =~= token@.skip(start as int));
    lowercase(rest)
}

impl Parser {
    /// Starts the machine on the first token of a stream, which must be a
    /// word: a token that holds no option marker.
    pub fn start(word: &str) -> (started: Result<Parser, UsageError>)
        ensures
            match started {
                Ok(parser) => !has_marker(word@) && parser@ == ParserModel::start(word@),
                Err(error) => has_marker(word@) && error == UsageError::WordHasMarker,
            },
    {
        let chars = chars_of(word);
        if has_char(&chars, MARKER) {
            Err(UsageError::WordHasMarker)
        } else {
            Ok(Parser { request: RequestDescriptor::draft(word), pending: Pending::Idle })
        }
    }

    /// Whether the machine is idle or collecting, and for which operator.
    pub fn pending(&self) -> (pending: Pending)
        ensures
            pending == self@.pending,
    {
        self.pending
    }

    /// The transition on an option of kind `kind`, taken from `Idle` or from
    /// an operator of variable arity, which the option ends.
    pub fn select(self, kind: OptionKind) -> (step: Step)
        ensures
            step@ == self@.select(kind),
    {
        match kind {
            OptionKind::Toggle(toggle) => Step::Continue(
                Parser { request: self.request.with_toggle(toggle), pending: Pending::Idle },
            ),
            OptionKind::Help => Step::Help,
            OptionKind::Operator(Operator::Frequency) => Step::Continue(
                Parser {
                    request: self.request.with_frequency(),
                    pending: Pending::Collecting(Operator::Frequency),
                },
            ),
            OptionKind::Operator(Operator::Pronunciation) => Step::Continue(
                Parser {
                    request: self.request.with_pronunciation(),
                    pending: Pending::Collecting(Operator::Pronunciation),
                },
            ),
            OptionKind::Operator(operator) => Step::Continue(
                Parser { request: self.request, pending: Pending::Collecting(operator) },
            ),
        }
    }

    /// The transition on a value read for `operator`.
    fn collect(self, operator: Operator, value: &str, position: usize) -> (step: Step)
        ensures
            step@ == self@.collect(operator, value@, position),
    {
        match operator {
            Operator::Dictionary => Step::Continue(
                Parser {
                    request: self.request.with_dictionary(value),
                    pending: Pending::Collecting(Operator::Dictionary),
                },
            ),
            Operator::Limit => match parse_u8(value) {
                Some(limit) => Step::Continue(
                    Parser { request: self.request.with_limit(limit), pending: Pending::Idle },
                ),
                None => Step::Fail(UsageError::InvalidNumber { position }),
            },
            Operator::Frequency => match parse_u16(value) {
                Some(year) => {
                    let pending = if self.request.start_year().is_some() {
                        Pending::Idle
                    } else {
                        Pending::Collecting(Operator::Frequency)
                    };
                    Step::Continue(Parser { request: self.request.with_year(year), pending })
                },
                None => Step::Fail(UsageError::InvalidNumber { position }),
            },
            Operator::PartOfSpeech => match PartOfSpeech::from_tag(value) {
                Some(part) => Step::Continue(
                    Parser {
                        request: self.request.with_part_of_speech(part),
                        pending: Pending::Idle,
                    },
                ),
                None => Step::Fail(UsageError::UnsupportedPartOfSpeech { position }),
            },
            Operator::Pronunciation => match PronunciationFormat::from_tag(value) {
                Some(format) => Step::Continue(
                    Parser {
                        request: self.request.with_pronunciation_format(format),
                        pending: Pending::Idle,
                    },
                ),
                None => Step::Fail(UsageError::UnsupportedPronunciationFormat { position }),
            },
            Operator::Unknown => Step::Fail(UsageError::UnknownOperator { position }),
        }
    }

    /// Feeds the machine the token that stands at `position` in the stream.
    pub fn feed(self, token: &str, position: usize) -> (step: Step)
        ensures
            step@ == self@.feed(token@, position),
    {
        let chars = chars_of(token);
        if chars.len() > 0 && chars[0] == MARKER {
            match self.pending {
                Pending::Collecting(Operator::Limit)
                | Pending::Collecting(Operator::Frequency)
                | Pending::Collecting(Operator::PartOfSpeech)
                | Pending::Collecting(Operator::Unknown) => Step::Fail(
                    UsageError::UnexpectedOption { position },
                ),
                _ => {
                    let name = normalize(token);
                    let kind = classify(name.as_str());
                    self.select(kind)
                },
            }
        } else {
            match self.pending {
                Pending::Idle => Step::Fail(UsageError::UnexpectedValue { position }),
                Pending::Collecting(operator) => self.collect(operator, token, position),
            }
        }
    }

    /// Ends the stream: whatever was pending is closed with what it has, and
    /// a request that names no dictionary gets the default one.
    pub fn finish(self) -> (request: RequestDescriptor)
        ensures
            request@ == self@.request.completed(),
            request@.dictionaries.len() >= 1,
    {
        self.request.completed()
    }
}

/// Parses a token stream: the word first, then options and their values.
///
/// The stream is refused if it is empty or its first token holds the option
/// marker. After that the tokens are fed to the machine one by one; the first
/// one it refuses ends the parse with its error, and a request for help ends
/// it at once, whatever follows.
pub fn parse(tokens: &Vec<String>) -> (outcome: Result<Command, UsageError>)
    ensures
        outcome_model(outcome) == parse_model(tokens.deep_view()),
        outcome matches Ok(Command::Lookup(request)) ==> request@.well_formed()
            && request@.word == tokens@[0]@,
{
    let ghost stream = tokens.deep_view();
    if tokens.len() == 0 {
        return Err(UsageError::MissingWord);
    }
    let mut parser = match Parser::start(tokens[0].as_str()) {
        Ok(parser) => parser,
        Err(error) => {
            return Err(error);
        },
    };
    let mut i: usize = 1;
    while i < tokens.len()
        invariant
            1 <= i <= tokens.len(),
            stream == tokens.deep_view(),
            parse_model(stream) == parser@.scan(stream, i as int),
            parser@.consistent(),
            parser@.request.word == stream[0],
        decreases tokens.len() - i,
    {
        proof {
            lemma_feed_keeps(parser@, stream[i as int], i);
        }
        match parser.feed(tokens[i].as_str(), i) {
            Step::Continue(next) => {
                parser = next;
            },
            Step::Help => {
                return Ok(Command::Help);
            },
            Step::Fail(error) => {
                return Err(error);
            },
        }
        i += 1;
    }
    Ok(Command::Lookup(parser.finish()))
}

/// A step changes neither the word nor the rule that an end year comes after
/// a start year.
pub proof fn lemma_feed_keeps(state: ParserModel, token: Seq<char>, position: usize)
    requires
        state.consistent(),
    ensures
        state.feed(token, position) matches StepModel::Continue(next) ==> next.consistent()
            && next.request.word == state.request.word,
{
}

/// Every request that a scan ends in is well formed and is for the word that
/// the machine was started on.
pub proof fn lemma_scan_keeps(state: ParserModel, tokens: Seq<Seq<char>>, from: int)
    requires
        state.consistent(),
    ensures
        state.scan(tokens, from) matches Ok(CommandModel::Lookup(request))
            ==> request.well_formed() && request.word == state.request.word,
    decreases tokens.len() - from,
{
    if 0 <= from < tokens.len() {
        lemma_feed_keeps(state, tokens[from], from as usize);
        match state.feed(tokens[from], from as usize) {
            StepModel::Continue(next) => {
                lemma_scan_keeps(next, tokens, from + 1);
            },
            _ => {},
        }
    }
}

/// The tokens after the word are all accepted, and none of them asks for
/// help.
pub open spec fn options_are_accepted(tokens: Seq<Seq<char>>) -> bool {
    tokens.len() > 0 && ParserModel::start(tokens[0]).scan(tokens, 1) is Ok
        && ParserModel::start(tokens[0]).scan(tokens, 1)->Ok_0 is Lookup
}

/// A stream whose first token is a word, and whose options are accepted,
/// parses to a request for that word. The request names at least one
/// dictionary and has its years in order.
pub proof fn law_word_is_kept(tokens: Seq<Seq<char>>)
    requires
        tokens.len() > 0,
        !has_marker(tokens[0]),
        options_are_accepted(tokens),
    ensures
        parse_model(tokens) matches Ok(CommandModel::Lookup(request)) && request.word
            == tokens[0] && request.well_formed(),
{
    lemma_scan_keeps(ParserModel::start(tokens[0]), tokens, 1);
}

/// A stream whose first token is a word is never refused on account of its
/// word: whatever error it ends in comes from a later token.
pub proof fn law_word_is_not_blamed(tokens: Seq<Seq<char>>)
    requires
        tokens.len() > 0,
        !has_marker(tokens[0]),
    ensures
        parse_model(tokens) != Err::<CommandModel, UsageError>(UsageError::MissingWord),
        parse_model(tokens) != Err::<CommandModel, UsageError>(UsageError::WordHasMarker),
{
    lemma_scan_never_blames_word(ParserModel::start(tokens[0]), tokens, 1);
}

/// The errors about the word come from the word alone, never from a scan.
pub proof fn lemma_scan_never_blames_word(state: ParserModel, tokens: Seq<Seq<char>>, from: int)
    ensures
        state.scan(tokens, from) != Err::<CommandModel, UsageError>(UsageError::MissingWord),
        state.scan(tokens, from) != Err::<CommandModel, UsageError>(UsageError::WordHasMarker),
    decreases tokens.len() - from,
{
    if 0 <= from < tokens.len() {
        match state.feed(tokens[from], from as usize) {
            StepModel::Continue(next) => {
                lemma_scan_never_blames_word(next, tokens, from + 1);
            },
            _ => {},
        }
    }
}

/// A stream that holds a word and nothing else is always accepted: the
/// request is for that word, with every option at its default.
pub proof fn law_lone_word_is_accepted(word: Seq<char>)
    requires
        !has_marker(word),
    ensures
        parse_model(seq![word]) == Ok::<CommandModel, UsageError>(
            CommandModel::Lookup(RequestModel::initial(word).completed()),
        ),
{
}

/// An empty stream, and a stream whose first token holds the option marker,
/// are refused, whatever else they hold.
pub proof fn law_missing_word_is_refused(tokens: Seq<Seq<char>>)
    requires
        tokens.len() == 0 || has_marker(tokens[0]),
    ensures
        parse_model(tokens) is Err,
        tokens.len() == 0 ==> parse_model(tokens) == Err::<CommandModel, UsageError>(
            UsageError::MissingWord,
        ),
        tokens.len() > 0 ==> parse_model(tokens) == Err::<CommandModel, UsageError>(
            UsageError::WordHasMarker,
        ),
{
}

} // verus!
