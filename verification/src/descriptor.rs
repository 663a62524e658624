//! What a lookup asks for: the request descriptor and the values its options
//! range over.

use crate::text::{chars_of, spells};
use vstd::prelude::*;
use vstd::string::*;

verus! {

/// The parts of speech by which definitions can be filtered.
#[derive(Clone, Copy, Debug, PartialEq, Eq, Structural)]
pub enum PartOfSpeech {
    Noun,
    Adjective,
    Verb,
    Adverb,
    Interjection,
    Pronoun,
    Preposition,
    Abbreviation,
    Affix,
    Article,
    AuxiliaryVerb,
    Conjunction,
    DefiniteArticle,
    FamilyName,
    GivenName,
    Idiom,
    Imperative,
    NounPlural,
    NounPosessive,
    PastParticiple,
    PhrasalPrefix,
    ProperNoun,
    ProperNounPlural,
    ProperNounPosessive,
    Suffix,
    VerbIntransitive,
    VerbTransitive,
}

impl PartOfSpeech {
    /// The tag that names this part of speech on the command line and to the
    /// service, in the service's own spelling.
    pub open spec fn tag_text(self) -> Seq<char> {
        match self {
            PartOfSpeech::Noun => "noun"@,
            PartOfSpeech::Adjective => "adjective"@,
            PartOfSpeech::Verb => "verb"@,
            PartOfSpeech::Adverb => "adverb"@,
            PartOfSpeech::Interjection => "interjection"@,
            PartOfSpeech::Pronoun => "pronoun"@,
            PartOfSpeech::Preposition => "preposition"@,
            PartOfSpeech::Abbreviation => "abbreviation"@,
            PartOfSpeech::Affix => "affix"@,
            PartOfSpeech::Article => "article"@,
            PartOfSpeech::AuxiliaryVerb => "auxiliary-verb"@,
            PartOfSpeech::Conjunction => "conjunction"@,
            PartOfSpeech::DefiniteArticle => "definite-article"@,
            PartOfSpeech::FamilyName => "family-name"@,
            PartOfSpeech::GivenName => "given-name"@,
            PartOfSpeech::Idiom => "idiom"@,
            PartOfSpeech::Imperative => "imperative"@,
            PartOfSpeech::NounPlural => "noun-plural"@,
            PartOfSpeech::NounPosessive => "noun-posessive"@,
            PartOfSpeech::PastParticiple => "past-participle"@,
            PartOfSpeech::PhrasalPrefix => "phrasal-prefix"@,
            PartOfSpeech::ProperNoun => "proper-noun"@,
            PartOfSpeech::ProperNounPlural => "proper-noun-plural"@,
            PartOfSpeech::ProperNounPosessive => "proper-noun-posessive"@,
            PartOfSpeech::Suffix => "suffix"@,
            PartOfSpeech::VerbIntransitive => "verb-intransitive"@,
            PartOfSpeech::VerbTransitive => "verb-transitive"@,
        }
    }

    /// Every part of speech, in the order in which a usage message lists them.
    pub open spec fn catalog() -> Seq<PartOfSpeech> {
        seq![
            PartOfSpeech::Noun,
            PartOfSpeech::Adjective,
            PartOfSpeech::Verb,
            PartOfSpeech::Adverb,
            PartOfSpeech::Interjection,
            PartOfSpeech::Pronoun,
            PartOfSpeech::Preposition,
            PartOfSpeech::Abbreviation,
            PartOfSpeech::Affix,
            PartOfSpeech::Article,
            PartOfSpeech::AuxiliaryVerb,
            PartOfSpeech::Conjunction,
            PartOfSpeech::DefiniteArticle,
            PartOfSpeech::FamilyName,
            PartOfSpeech::GivenName,
            PartOfSpeech::Idiom,
            PartOfSpeech::Imperative,
            PartOfSpeech::NounPlural,
            PartOfSpeech::NounPosessive,
            PartOfSpeech::PastParticiple,
            PartOfSpeech::PhrasalPrefix,
            PartOfSpeech::ProperNoun,
            PartOfSpeech::ProperNounPlural,
            PartOfSpeech::ProperNounPosessive,
            PartOfSpeech::Suffix,
            PartOfSpeech::VerbIntransitive,
            PartOfSpeech::VerbTransitive,
        ]
    }

    /// The part of speech that `text` names, if it names one.
    pub open spec fn with_tag(text: Seq<char>) -> Option<PartOfSpeech> {
        if exists|p: PartOfSpeech| p.tag_text() == text {
            Some(choose|p: PartOfSpeech| p.tag_text() == text)
        } else {
            None
        }
    }

    /// No two tags are alike.
    pub proof fn lemma_tags_differ(p: PartOfSpeech, q: PartOfSpeech)
        requires
            p.tag_text() == q.tag_text(),
        ensures
            p == q,
    {
        reveal_strlit("noun");
        reveal_strlit("adjective");
        reveal_strlit("verb");
        reveal_strlit("adverb");
        reveal_strlit("interjection");
        reveal_strlit("pronoun");
        reveal_strlit("preposition");
        reveal_strlit("abbreviation");
        reveal_strlit("affix");
        reveal_strlit("article");
        reveal_strlit("auxiliary-verb");
        reveal_strlit("conjunction");
        reveal_strlit("definite-article");
        reveal_strlit("family-name");
        reveal_strlit("given-name");
        reveal_strlit("idiom");
        reveal_strlit("imperative");
        reveal_strlit("noun-plural");
        reveal_strlit("noun-posessive");
        reveal_strlit("past-participle");
        reveal_strlit("phrasal-prefix");
        reveal_strlit("proper-noun");
        reveal_strlit("proper-noun-plural");
        reveal_strlit("proper-noun-posessive");
        reveal_strlit("suffix");
        reveal_strlit("verb-intransitive");
        reveal_strlit("verb-transitive");
        assert("noun"@.len() == 4 && "noun"@[2] == 'u');
        assert("adjective"@.len() == 9 && "adjective"@[2] == 'j');
        assert("verb"@.len() == 4 && "verb"@[2] == 'r');
        assert("adverb"@.len() == 6 && "adverb"@[2] == 'v');
        assert("interjection"@.len() == 12 && "interjection"@[2] == 't');
        assert("pronoun"@.len() == 7 && "pronoun"@[2] == 'o');
        assert("preposition"@.len() == 11 && "preposition"@[2] == 'e');
        assert("abbreviation"@.len() == 12 && "abbreviation"@[2] == 'b');
        assert("affix"@.len() == 5 && "affix"@[2] == 'f');
        assert("article"@.len() == 7 && "article"@[2] == 't');
        assert("auxiliary-verb"@.len() == 14 && "auxiliary-verb"@[2] == 'x');
        assert("conjunction"@.len() == 11 && "conjunction"@[2] == 'n');
        assert("definite-article"@.len() == 16 && "definite-article"@[2] == 'f');
        assert("family-name"@.len() == 11 && "family-name"@[2] == 'm');
        assert("given-name"@.len() == 10 && "given-name"@[2] == 'v');
        assert("idiom"@.len() == 5 && "idiom"@[2] == 'i');
        assert("imperative"@.len() == 10 && "imperative"@[2] == 'p');
        assert("noun-plural"@.len() == 11 && "noun-plural"@[2] == 'u');
        assert("noun-posessive"@.len() == 14 && "noun-posessive"@[2] == 'u');
        assert("past-participle"@.len() == 15 && "past-participle"@[2] == 's');
        assert("phrasal-prefix"@.len() == 14 && "phrasal-prefix"@[2] == 'r');
        assert("proper-noun"@.len() == 11 && "proper-noun"@[2] == 'o');
        assert("proper-noun-plural"@.len() == 18 && "proper-noun-plural"@[2] == 'o');
        assert("proper-noun-posessive"@.len() == 21 && "proper-noun-posessive"@[2] == 'o');
        assert("suffix"@.len() == 6 && "suffix"@[2] == 'f');
        assert("verb-intransitive"@.len() == 17 && "verb-intransitive"@[2] == 'r');
        assert("verb-transitive"@.len() == 15 && "verb-transitive"@[2] == 'r');
    }

    /// A tag names the value it belongs to, and no other.
    pub proof fn lemma_with_tag(p: PartOfSpeech)
        ensures
            PartOfSpeech::with_tag(p.tag_text()) == Some(p),
    {
        let chosen = choose|q: PartOfSpeech| q.tag_text() == p.tag_text();
        Self::lemma_tags_differ(chosen, p);
    }

    /// The catalog leaves no value out.
    pub proof fn lemma_catalog_complete(p: PartOfSpeech)
        ensures
            PartOfSpeech::catalog().len() == 27,
            PartOfSpeech::catalog().contains(p),
    {
        match p {
            PartOfSpeech::Noun => assert(PartOfSpeech::catalog()[0] == p),
            PartOfSpeech::Adjective => assert(PartOfSpeech::catalog()[1] == p),
            PartOfSpeech::Verb => assert(PartOfSpeech::catalog()[2] == p),
            PartOfSpeech::Adverb => assert(PartOfSpeech::catalog()[3] == p),
            PartOfSpeech::Interjection => assert(PartOfSpeech::catalog()[4] == p),
            PartOfSpeech::Pronoun => assert(PartOfSpeech::catalog()[5] == p),
            PartOfSpeech::Preposition => assert(PartOfSpeech::catalog()[6] == p),
            PartOfSpeech::Abbreviation => assert(PartOfSpeech::catalog()[7] == p),
            PartOfSpeech::Affix => assert(PartOfSpeech::catalog()[8] == p),
            PartOfSpeech::Article => assert(PartOfSpeech::catalog()[9] == p),
            PartOfSpeech::AuxiliaryVerb => assert(PartOfSpeech::catalog()[10] == p),
            PartOfSpeech::Conjunction => assert(PartOfSpeech::catalog()[11] == p),
            PartOfSpeech::DefiniteArticle => assert(PartOfSpeech::catalog()[12] == p),
            PartOfSpeech::FamilyName => assert(PartOfSpeech::catalog()[13] == p),
            PartOfSpeech::GivenName => assert(PartOfSpeech::catalog()[14] == p),
            PartOfSpeech::Idiom => assert(PartOfSpeech::catalog()[15] == p),
            PartOfSpeech::Imperative => assert(PartOfSpeech::catalog()[16] == p),
            PartOfSpeech::NounPlural => assert(PartOfSpeech::catalog()[17] == p),
            PartOfSpeech::NounPosessive => assert(PartOfSpeech::catalog()[18] == p),
            PartOfSpeech::PastParticiple => assert(PartOfSpeech::catalog()[19] == p),
            PartOfSpeech::PhrasalPrefix => assert(PartOfSpeech::catalog()[20] == p),
            PartOfSpeech::ProperNoun => assert(PartOfSpeech::catalog()[21] == p),
            PartOfSpeech::ProperNounPlural => assert(PartOfSpeech::catalog()[22] == p),
            PartOfSpeech::ProperNounPosessive => assert(PartOfSpeech::catalog()[23] == p),
            PartOfSpeech::Suffix => assert(PartOfSpeech::catalog()[24] == p),
            PartOfSpeech::VerbIntransitive => assert(PartOfSpeech::catalog()[25] == p),
            PartOfSpeech::VerbTransitive => assert(PartOfSpeech::catalog()[26] == p),
        }
    }

    /// The tag that names this part of speech.
    pub fn tag(self) -> (text: &'static str)
        ensures
            text@ == self.tag_text(),
    {
        match self {
            PartOfSpeech::Noun => "noun",
            PartOfSpeech::Adjective => "adjective",
            PartOfSpeech::Verb => "verb",
            PartOfSpeech::Adverb => "adverb",
            PartOfSpeech::Interjection => "interjection",
            PartOfSpeech::Pronoun => "pronoun",
            PartOfSpeech::Preposition => "preposition",
            PartOfSpeech::Abbreviation => "abbreviation",
            PartOfSpeech::Affix => "affix",
            PartOfSpeech::Article => "article",
            PartOfSpeech::AuxiliaryVerb => "auxiliary-verb",
            PartOfSpeech::Conjunction => "conjunction",
            PartOfSpeech::DefiniteArticle => "definite-article",
            PartOfSpeech::FamilyName => "family-name",
            PartOfSpeech::GivenName => "given-name",
            PartOfSpeech::Idiom => "idiom",
            PartOfSpeech::Imperative => "imperative",
            PartOfSpeech::NounPlural => "noun-plural",
            PartOfSpeech::NounPosessive => "noun-posessive",
            PartOfSpeech::PastParticiple => "past-participle",
            PartOfSpeech::PhrasalPrefix => "phrasal-prefix",
            PartOfSpeech::ProperNoun => "proper-noun",
            PartOfSpeech::ProperNounPlural => "proper-noun-plural",
            PartOfSpeech::ProperNounPosessive => "proper-noun-posessive",
            PartOfSpeech::Suffix => "suffix",
            PartOfSpeech::VerbIntransitive => "verb-intransitive",
            PartOfSpeech::VerbTransitive => "verb-transitive",
        }
    }

    /// Every part of speech, in catalog order.
    pub fn all() -> (list: Vec<PartOfSpeech>)
        ensures
            list@ == PartOfSpeech::catalog(),
    {
        let list = vec![
            PartOfSpeech::Noun,
            PartOfSpeech::Adjective,
            PartOfSpeech::Verb,
            PartOfSpeech::Adverb,
            PartOfSpeech::Interjection,
            PartOfSpeech::Pronoun,
            PartOfSpeech::Preposition,
            PartOfSpeech::Abbreviation,
            PartOfSpeech::Affix,
            PartOfSpeech::Article,
            PartOfSpeech::AuxiliaryVerb,
            PartOfSpeech::Conjunction,
            PartOfSpeech::DefiniteArticle,
            PartOfSpeech::FamilyName,
            PartOfSpeech::GivenName,
            PartOfSpeech::Idiom,
            PartOfSpeech::Imperative,
            PartOfSpeech::NounPlural,
            PartOfSpeech::NounPosessive,
            PartOfSpeech::PastParticiple,
            PartOfSpeech::PhrasalPrefix,
            PartOfSpeech::ProperNoun,
            PartOfSpeech::ProperNounPlural,
            PartOfSpeech::ProperNounPosessive,
            PartOfSpeech::Suffix,
            PartOfSpeech::VerbIntransitive,
            PartOfSpeech::VerbTransitive,
        ];
        assert(list@ =~= PartOfSpeech::catalog());
        list
    }

    /// Looks up the part of speech that `text` names; the match is exact, case included.
    pub fn from_tag(text: &str) -> (found: Option<PartOfSpeech>)
        ensures
            found == PartOfSpeech::with_tag(text@),
    {
        let chars = chars_of(text);
        let all = PartOfSpeech::all();
        let mut i: usize = 0;
        while i < all.len()
            invariant
                chars@ == text@,
                all@ == PartOfSpeech::catalog(),
                i <= all.len(),
                forall|j: int| 0 <= j < i ==> (#[trigger] all@[j]).tag_text() != text@,
            decreases all.len() - i,
        {
            let candidate = all[i];
            if spells(&chars, candidate.tag()) {
                proof {
                    Self::lemma_with_tag(candidate);
                }
                return Some(candidate);
            }
            i += 1;
        }
        proof {
            assert forall|p: PartOfSpeech| p.tag_text() != text@ by {
                Self::lemma_catalog_complete(p);
                let k = choose|k: int| 0 <= k < all@.len() && all@[k] == p;
                assert(all@[k].tag_text() != text@);
            }
        }
        None
    }
}

/// The transcription formats in which a pronunciation can be asked for.
#[derive(Clone, Copy, Debug, PartialEq, Eq, Structural)]
pub enum PronunciationFormat {
    Ahd5,
    Arpabet,
    GcideDiacritical,
    Ipa,
}

impl PronunciationFormat {
    /// The tag that names this format on the command line and to the
    /// service, in the service's own spelling.
    pub open spec fn tag_text(self) -> Seq<char> {
        match self {
            PronunciationFormat::Ahd5 => "ahd-5"@,
            PronunciationFormat::Arpabet => "arpabet"@,
            PronunciationFormat::GcideDiacritical => "gcide-diacritical"@,
            PronunciationFormat::Ipa => "IPA"@,
        }
    }

    /// Every format, in the order in which a usage message lists them.
    pub open spec fn catalog() -> Seq<PronunciationFormat> {
        seq![
            PronunciationFormat::Ahd5,
            PronunciationFormat::Arpabet,
            PronunciationFormat::GcideDiacritical,
            PronunciationFormat::Ipa,
        ]
    }

    /// The format that `text` names, if it names one.
    pub open spec fn with_tag(text: Seq<char>) -> Option<PronunciationFormat> {
        if exists|p: PronunciationFormat| p.tag_text() == text {
            Some(choose|p: PronunciationFormat| p.tag_text() == text)
        } else {
            None
        }
    }

    /// No two tags are alike.
    pub proof fn lemma_tags_differ(p: PronunciationFormat, q: PronunciationFormat)
        requires
            p.tag_text() == q.tag_text(),
        ensures
            p == q,
    {
        reveal_strlit("ahd-5");
        reveal_strlit("arpabet");
        reveal_strlit("gcide-diacritical");
        reveal_strlit("IPA");
        assert("ahd-5"@.len() == 5);
        assert("arpabet"@.len() == 7);
        assert("gcide-diacritical"@.len() == 17);
        assert("IPA"@.len() == 3);
    }

    /// A tag names the value it belongs to, and no other.
    pub proof fn lemma_with_tag(p: PronunciationFormat)
        ensures
            PronunciationFormat::with_tag(p.tag_text()) == Some(p),
    {
        let chosen = choose|q: PronunciationFormat| q.tag_text() == p.tag_text();
        Self::lemma_tags_differ(chosen, p);
    }

    /// The catalog leaves no value out.
    pub proof fn lemma_catalog_complete(p: PronunciationFormat)
        ensures
            PronunciationFormat::catalog().len() == 4,
            PronunciationFormat::catalog().contains(p),
    {
        match p {
            PronunciationFormat::Ahd5 => assert(PronunciationFormat::catalog()[0] == p),
            PronunciationFormat::Arpabet => assert(PronunciationFormat::catalog()[1] == p),
            PronunciationFormat::GcideDiacritical => assert(PronunciationFormat::catalog()[2] == p),
            PronunciationFormat::Ipa => assert(PronunciationFormat::catalog()[3] == p),
        }
    }

    /// The tag that names this format.
    pub fn tag(self) -> (text: &'static str)
        ensures
            text@ == self.tag_text(),
    {
        match self {
            PronunciationFormat::Ahd5 => "ahd-5",
            PronunciationFormat::Arpabet => "arpabet",
            PronunciationFormat::GcideDiacritical => "gcide-diacritical",
            PronunciationFormat::Ipa => "IPA",
        }
    }

    /// Every format, in catalog order.
    pub fn all() -> (list: Vec<PronunciationFormat>)
        ensures
            list@ == PronunciationFormat::catalog(),
    {
        let list = vec![
            PronunciationFormat::Ahd5,
            PronunciationFormat::Arpabet,
            PronunciationFormat::GcideDiacritical,
            PronunciationFormat::Ipa,
        ];
        assert(list@ =~= PronunciationFormat::catalog());
        list
    }

    /// Looks up the format that `text` names; the match is exact, case included.
    pub fn from_tag(text: &str) -> (found: Option<PronunciationFormat>)
        ensures
            found == PronunciationFormat::with_tag(text@),
    {
        let chars = chars_of(text);
        let all = PronunciationFormat::all();
        let mut i: usize = 0;
        while i < all.len()
            invariant
                chars@ == text@,
                all@ == PronunciationFormat::catalog(),
                i <= all.len(),
                forall|j: int| 0 <= j < i ==> (#[trigger] all@[j]).tag_text() != text@,
            decreases all.len() - i,
        {
            let candidate = all[i];
            if spells(&chars, candidate.tag()) {
                proof {
                    Self::lemma_with_tag(candidate);
                }
                return Some(candidate);
            }
            i += 1;
        }
        proof {
            assert forall|p: PronunciationFormat| p.tag_text() != text@ by {
                Self::lemma_catalog_complete(p);
                let k = choose|k: int| 0 <= k < all@.len() && all@[k] == p;
                assert(all@[k].tag_text() != text@);
            }
        }
        None
    }
}

/// The dictionary that is asked when the command line names none.
pub const DEFAULT_DICTIONARY: &'static str = "ahd-5";

/// The number of results that is asked for when the command line gives none.
pub const DEFAULT_LIMIT: u8 = 5;

/// The options that are switched on by their mere presence.
#[derive(Clone, Copy, Debug, PartialEq, Eq, Structural)]
pub enum Toggle {
    Audio,
    IncludeRelated,
    UseCanonical,
    Examples,
    Hyphenation,
    Thesaurus,
}

/// What a request holds, as plain values.
pub struct RequestModel {
    pub word: Seq<char>,
    pub part_of_speech: Option<PartOfSpeech>,
    pub dictionaries: Seq<Seq<char>>,
    pub limit: u8,
    pub audio: bool,
    pub include_related: bool,
    pub use_canonical: bool,
    pub examples: bool,
    pub frequency: bool,
    pub start_year: Option<u16>,
    pub end_year: Option<u16>,
    pub hyphenation: bool,
    pub pronunciation: bool,
    pub pronunciation_format: PronunciationFormat,
    pub thesaurus: bool,
}

impl RequestModel {
    /// The request for `word` before any option has been read.
    pub open spec fn initial(word: Seq<char>) -> RequestModel {
        RequestModel {
            word,
            part_of_speech: None,
            dictionaries: Seq::empty(),
            limit: DEFAULT_LIMIT,
            audio: false,
            include_related: false,
            use_canonical: false,
            examples: false,
            frequency: false,
            start_year: None,
            end_year: None,
            hyphenation: false,
            pronunciation: false,
            pronunciation_format: PronunciationFormat::Ahd5,
            thesaurus: false,
        }
    }

    /// This request with `toggle` switched on.
    pub open spec fn with_toggle(self, toggle: Toggle) -> RequestModel {
        match toggle {
            Toggle::Audio => RequestModel { audio: true, ..self },
            Toggle::IncludeRelated => RequestModel { include_related: true, ..self },
            Toggle::UseCanonical => RequestModel { use_canonical: true, ..self },
            Toggle::Examples => RequestModel { examples: true, ..self },
            Toggle::Hyphenation => RequestModel { hyphenation: true, ..self },
            Toggle::Thesaurus => RequestModel { thesaurus: true, ..self },
        }
    }

    /// This request with one more year of a frequency range: the first year
    /// given opens the range, a year given after that closes it.
    pub open spec fn with_year(self, year: u16) -> RequestModel {
        if self.start_year is Some {
            RequestModel { end_year: Some(year), ..self }
        } else {
            RequestModel { start_year: Some(year), ..self }
        }
    }

    /// This request as it leaves the parser: where no dictionary was named,
    /// the default dictionary stands alone in the list.
    pub open spec fn completed(self) -> RequestModel {
        if self.dictionaries.len() == 0 {
            RequestModel { dictionaries: seq![DEFAULT_DICTIONARY@], ..self }
        } else {
            self
        }
    }

    /// A finished request names at least one dictionary, and has an end year
    /// only where it has a start year.
    pub open spec fn well_formed(self) -> bool {
        &&& self.dictionaries.len() >= 1
        &&& self.end_year is Some ==> self.start_year is Some
    }
}

/// What to fetch and how: the word, the filters and the toggles of one lookup.
///
/// A descriptor is made by the parser and only read afterwards.
#[derive(Clone, Debug, PartialEq, Eq)]
pub struct RequestDescriptor {
    word: String,
    part_of_speech: Option<PartOfSpeech>,
    dictionaries: Vec<String>,
    limit: u8,
    audio: bool,
    include_related: bool,
    use_canonical: bool,
    examples: bool,
    frequency: bool,
    start_year: Option<u16>,
    end_year: Option<u16>,
    hyphenation: bool,
    pronunciation: bool,
    pronunciation_format: PronunciationFormat,
    thesaurus: bool,
}

impl View for RequestDescriptor {
    type V = RequestModel;

    closed spec fn view(&self) -> RequestModel {
        RequestModel {
            word: self.word@,
            part_of_speech: self.part_of_speech,
            dictionaries: self.dictionaries.deep_view(),
            limit: self.limit,
            audio: self.audio,
            include_related: self.include_related,
            use_canonical: self.use_canonical,
            examples: self.examples,
            frequency: self.frequency,
            start_year: self.start_year,
            end_year: self.end_year,
            hyphenation: self.hyphenation,
            pronunciation: self.pronunciation,
            pronunciation_format: self.pronunciation_format,
            thesaurus: self.thesaurus,
        }
    }
}

impl RequestDescriptor {
    /// The request for `word` before any option has been read.
    pub(crate) fn draft(word: &str) -> (request: RequestDescriptor)
        ensures
            request@ == RequestModel::initial(word@),
    {
        let request = RequestDescriptor {
            word: String::from_str(word),
            part_of_speech: None,
            dictionaries: Vec::new(),
            limit: DEFAULT_LIMIT,
            audio: false,
            include_related: false,
            use_canonical: false,
            examples: false,
            frequency: false,
            start_year: None,
            end_year: None,
            hyphenation: false,
            pronunciation: false,
            pronunciation_format: PronunciationFormat::Ahd5,
            thesaurus: false,
        };
        assert(request.dictionaries.deep_view() =~= Seq::<Seq<char>>::empty());
        request
    }

    /// This request with `toggle` switched on.
    pub(crate) fn with_toggle(self, toggle: Toggle) -> (request: RequestDescriptor)
        ensures
            request@ == self@.with_toggle(toggle),
    {
        let mut request = self;
        match toggle {
            Toggle::Audio => request.audio = true,
            Toggle::IncludeRelated => request.include_related = true,
            Toggle::UseCanonical => request.use_canonical = true,
            Toggle::Examples => request.examples = true,
            Toggle::Hyphenation => request.hyphenation = true,
            Toggle::Thesaurus => request.thesaurus = true,
        }
        request
    }

    /// This request with the frequency flag set.
    pub(crate) fn with_frequency(self) -> (request: RequestDescriptor)
        ensures
            request@ == (RequestModel { frequency: true, ..self@ }),
    {
        let mut request = self;
        request.frequency = true;
        request
    }

    /// This request with the pronunciation flag set.
    pub(crate) fn with_pronunciation(self) -> (request: RequestDescriptor)
        ensures
            request@ == (RequestModel { pronunciation: true, ..self@ }),
    {
        let mut request = self;
        request.pronunciation = true;
        request
    }

    /// This request with one more dictionary at the end of its list.
    pub(crate) fn with_dictionary(self, dictionary: &str) -> (request: RequestDescriptor)
        ensures
            request@ == (RequestModel {
                dictionaries: self@.dictionaries.push(dictionary@),
                ..self@
            }),
    {
        let mut request = self;
        request.dictionaries.push(String::from_str(dictionary));
        assert(request.dictionaries.deep_view() =~= self.dictionaries.deep_view().push(
            dictionary@,
        ));
        request
    }

    /// This request with another limit.
    pub(crate) fn with_limit(self, limit: u8) -> (request: RequestDescriptor)
        ensures
            request@ == (RequestModel { limit, ..self@ }),
    {
        let mut request = self;
        request.limit = limit;
        request
    }

    /// This request with one more year of its frequency range.
    pub(crate) fn with_year(self, year: u16) -> (request: RequestDescriptor)
        ensures
            request@ == self@.with_year(year),
    {
        let mut request = self;
        if request.start_year.is_some() {
            request.end_year = Some(year);
        } else {
            request.start_year = Some(year);
        }
        request
    }

    /// This request, limited to one part of speech.
    pub(crate) fn with_part_of_speech(self, part: PartOfSpeech) -> (request: RequestDescriptor)
        ensures
            request@ == (RequestModel { part_of_speech: Some(part), ..self@ }),
    {
        let mut request = self;
        request.part_of_speech = Some(part);
        request
    }

    /// This request with another transcription format.
    pub(crate) fn with_pronunciation_format(
        self,
        format: PronunciationFormat,
    ) -> (request: RequestDescriptor)
        ensures
            request@ == (RequestModel { pronunciation_format: format, ..self@ }),
    {
        let mut request = self;
        request.pronunciation_format = format;
        request
    }

    /// This request as it leaves the parser, with the default dictionary
    /// where it names none.
    pub(crate) fn completed(self) -> (request: RequestDescriptor)
        ensures
            request@ == self@.completed(),
    {
        if self.dictionaries.len() == 0 {
            assert(self@.dictionaries.push(DEFAULT_DICTIONARY@) =~= seq![DEFAULT_DICTIONARY@]);
            self.with_dictionary(DEFAULT_DICTIONARY)
        } else {
            self
        }
    }
}

impl RequestDescriptor {
    /// The word to look up.
    pub fn word(&self) -> (word: &str)
        ensures
            word@ == self@.word,
    {
        self.word.as_str()
    }

    /// The part of speech to which definitions are limited, if any.
    pub fn part_of_speech(&self) -> (part: Option<PartOfSpeech>)
        ensures
            part == self@.part_of_speech,
    {
        self.part_of_speech
    }

    /// The dictionaries to ask, in the order in which they were named.
    pub fn dictionaries(&self) -> (dictionaries: &Vec<String>)
        ensures
            dictionaries.deep_view() == self@.dictionaries,
    {
        &self.dictionaries
    }

    /// The greatest number of definitions to ask for.
    pub fn limit(&self) -> (limit: u8)
        ensures
            limit == self@.limit,
    {
        self.limit
    }

    /// Whether the word is to be spoken.
    pub fn audio(&self) -> (on: bool)
        ensures
            on == self@.audio,
    {
        self.audio
    }

    /// Whether related words are to be included.
    pub fn include_related(&self) -> (on: bool)
        ensures
            on == self@.include_related,
    {
        self.include_related
    }

    /// Whether the service is to look the word's root up in its place.
    pub fn use_canonical(&self) -> (on: bool)
        ensures
            on == self@.use_canonical,
    {
        self.use_canonical
    }

    /// Whether examples were asked for.
    pub fn examples(&self) -> (on: bool)
        ensures
            on == self@.examples,
    {
        self.examples
    }

    /// Whether the word's frequency over time was asked for.
    pub fn frequency(&self) -> (on: bool)
        ensures
            on == self@.frequency,
    {
        self.frequency
    }

    /// The first year of the frequency range, once one was given.
    pub fn start_year(&self) -> (year: Option<u16>)
        ensures
            year == self@.start_year,
    {
        self.start_year
    }

    /// The last year of the frequency range, once both were given.
    pub fn end_year(&self) -> (year: Option<u16>)
        ensures
            year == self@.end_year,
    {
        self.end_year
    }

    /// Whether the word's syllables were asked for.
    pub fn hyphenation(&self) -> (on: bool)
        ensures
            on == self@.hyphenation,
    {
        self.hyphenation
    }

    /// Whether a written pronunciation was asked for.
    pub fn pronunciation(&self) -> (on: bool)
        ensures
            on == self@.pronunciation,
    {
        self.pronunciation
    }

    /// The transcription format of a written pronunciation.
    pub fn pronunciation_format(&self) -> (format: PronunciationFormat)
        ensures
            format == self@.pronunciation_format,
    {
        self.pronunciation_format
    }

    /// Whether synonyms and antonyms were asked for.
    pub fn thesaurus(&self) -> (on: bool)
        ensures
            on == self@.thesaurus,
    {
        self.thesaurus
    }
}

} // verus!
