use vstd::prelude::*;

use crate::language::{parse_language, ModelLanguage};
use crate::text::{is_space, is_whitespace, str_equal};
use crate::voice_handler::VoiceHandler;

verus! {

/// How a trigger is recognized: a single word, or a phrase of several words.
#[derive(PartialEq, Eq, Structural, Clone, Copy, Debug)]
pub enum RecognitionType {
    WORD,
    PHRASE,
}

/// One configured trigger: its text, how it is recognized, its language and
/// the path of the clip it plays.
pub struct Sound {
    pub name: String,
    pub recognition_type: RecognitionType,
    pub language: ModelLanguage,
    pub path: String,
}

/// The trigger catalog of a session, in configuration order.
pub struct SoundBoard {
    pub sounds: Vec<Sound>,
}

/// A trigger text together with its language.
pub struct RecognitionEntry {
    pub content: String,
    pub language: ModelLanguage,
}

/// A list of trigger texts with their languages, in catalog order.
pub struct RecognitionEntries {
    pub inner: Vec<RecognitionEntry>,
}

/// A configuration row of the sound catalog store.
pub struct DbSound {
    pub prompt: String,
    pub language: String,
    pub file_name: String,
}

/// Why a set of configuration rows could not be turned into a catalog.
#[derive(PartialEq, Eq, Structural, Clone, Copy, Debug)]
pub enum CatalogError {
    /// The row at this position names no known language.
    InvalidLanguage { row: usize },
}

/// The catalog entries of kind `kind`, in catalog order.
pub open spec fn entries_of_kind(sounds: Seq<Sound>, kind: RecognitionType) -> Seq<RecognitionEntry>
    decreases sounds.len(),
{
    if sounds.len() == 0 {
        Seq::empty()
    } else {
        let prev = entries_of_kind(sounds.drop_last(), kind);
        let s = sounds.last();
        if s.recognition_type == kind {
            prev.push(RecognitionEntry { content: s.name, language: s.language })
        } else {
            prev
        }
    }
}

/// The texts of the entries in language `language`, in order.
pub open spec fn contents_in(entries: Seq<RecognitionEntry>, language: ModelLanguage) -> Seq<String>
    decreases entries.len(),
{
    if entries.len() == 0 {
        Seq::empty()
    } else {
        let prev = contents_in(entries.drop_last(), language);
        let e = entries.last();
        if e.language == language {
            prev.push(e.content)
        } else {
            prev
        }
    }
}

/// Number of maximal runs of non-whitespace characters in `s`.
pub open spec fn token_count(s: Seq<char>) -> nat
    decreases s.len(),
{
    if s.len() == 0 {
        0
    } else {
        let n = s.len() as int;
        token_count(s.drop_last()) + if !is_space(s[n - 1]) && (n == 1 || is_space(s[n - 2])) {
            1nat
        } else {
            0nat
        }
    }
}

/// A trigger of more than one whitespace-separated token is a phrase, any other a word.
pub open spec fn kind_of_prompt(s: Seq<char>) -> RecognitionType {
    if token_count(s) > 1 {
        RecognitionType::PHRASE
    } else {
        RecognitionType::WORD
    }
}

/// The directory that holds the clip files.
pub open spec fn clip_dir() -> Seq<char> {
    seq!['s', 'o', 'n', 'g', 's', '/']
}

/// The catalog entry that a configuration row becomes, given its parsed language.
pub open spec fn sound_of_row(row: DbSound, language: ModelLanguage) -> (Seq<char>, RecognitionType, ModelLanguage, Seq<char>) {
    (row.prompt@, kind_of_prompt(row.prompt@), language, clip_dir() + row.file_name@)
}

/// The view of a catalog entry, comparable with `sound_of_row`.
pub open spec fn sound_view(s: Sound) -> (Seq<char>, RecognitionType, ModelLanguage, Seq<char>) {
    (s.name@, s.recognition_type, s.language, s.path@)
}

/// The last catalog position holding the trigger `name` in `language`, if any.
pub open spec fn last_position(sounds: Seq<Sound>, name: Seq<char>, language: ModelLanguage) -> Option<nat>
    decreases sounds.len(),
{
    if sounds.len() == 0 {
        None
    } else {
        let s = sounds.last();
        if s.name@ == name && s.language == language {
            Some((sounds.len() - 1) as nat)
        } else {
            last_position(sounds.drop_last(), name, language)
        }
    }
}

/// Classifies a trigger text by its number of whitespace-separated tokens.
pub fn recognition_type_of(prompt: &str) -> (r: RecognitionType)
    ensures
        r == kind_of_prompt(prompt@),
{
    let n = prompt.unicode_len();
    let mut count: usize = 0;
    let mut prev_space = true;
    let mut i: usize = 0;
    while i < n
        invariant
            n == prompt@.len(),
            i <= n,
            count == token_count(prompt@.subrange(0, i as int)),
            count <= i,
            i > 0 ==> prev_space == is_space(prompt@[i - 1]),
            i == 0 ==> prev_space,
        decreases n - i,
    {
        let c = prompt.get_char(i);
        let space = is_whitespace(c);
        let ghost pre = prompt@.subrange(0, i as int);
        let ghost next = prompt@.subrange(0, i + 1);
        assert(next.drop_last() == pre);
        if !space && prev_space {
            count = count + 1;
        }
        prev_space = space;
        i = i + 1;
    }
    assert(prompt@.subrange(0, n as int) == prompt@);
    if count > 1 {
        RecognitionType::PHRASE
    } else {
        RecognitionType::WORD
    }
}

fn clone_string(s: &String) -> (r: String)
    ensures
        r == *s,
{
    s.clone()
}

impl RecognitionEntries {
    /// The texts of the entries in `language`, in order.
    pub fn filter_by_language(&self, language: ModelLanguage) -> (r: Vec<String>)
        ensures
            r@ == contents_in(self.inner@, language),
    {
        let mut r: Vec<String> = Vec::new();
        let mut i: usize = 0;
        while i < self.inner.len()
            invariant
                i <= self.inner@.len(),
                r@ == contents_in(self.inner@.subrange(0, i as int), language),
            decreases self.inner@.len() - i,
        {
            let e = &self.inner[i];
            assert(self.inner@.subrange(0, i + 1).drop_last() == self.inner@.subrange(0, i as int));
            if e.language == language {
                r.push(clone_string(&e.content));
            }
            i = i + 1;
        }
        assert(self.inner@.subrange(0, self.inner@.len() as int) == self.inner@);
        r
    }
}

impl SoundBoard {
    /// An empty catalog.
    pub fn new() -> (r: SoundBoard)
        ensures
            r.sounds@.len() == 0,
    {
        SoundBoard { sounds: Vec::new() }
    }

    /// The catalog with one more trigger at its end.
    pub fn add_song(
        self,
        name: &str,
        recognition_type: RecognitionType,
        language: ModelLanguage,
        path: &str,
    ) -> (r: SoundBoard)
        ensures
            r.sounds@.len() == self.sounds@.len() + 1,
            r.sounds@.drop_last() == self.sounds@,
            r.sounds@.last().name@ == name@,
            r.sounds@.last().recognition_type == recognition_type,
            r.sounds@.last().language == language,
            r.sounds@.last().path@ == path@,
    {
        let mut sounds = self.sounds;
        sounds.push(
            Sound {
                name: String::from_str(name),
                recognition_type,
                language,
                path: String::from_str(path),
            },
        );
        SoundBoard { sounds }
    }

    fn entries(&self, kind: RecognitionType) -> (r: RecognitionEntries)
        ensures
            r.inner@ == entries_of_kind(self.sounds@, kind),
    {
        let mut v: Vec<RecognitionEntry> = Vec::new();
        let mut i: usize = 0;
        while i < self.sounds.len()
            invariant
                i <= self.sounds@.len(),
                v@ == entries_of_kind(self.sounds@.subrange(0, i as int), kind),
            decreases self.sounds@.len() - i,
        {
            let s = &self.sounds[i];
            assert(self.sounds@.subrange(0, i + 1).drop_last() == self.sounds@.subrange(0, i as int));
            if s.recognition_type == kind {
                v.push(RecognitionEntry { content: clone_string(&s.name), language: s.language });
            }
            i = i + 1;
        }
        assert(self.sounds@.subrange(0, self.sounds@.len() as int) == self.sounds@);
        RecognitionEntries { inner: v }
    }

    /// The phrase triggers, in catalog order.
    pub fn get_phrases(&self) -> (r: RecognitionEntries)
        ensures
            r.inner@ == entries_of_kind(self.sounds@, RecognitionType::PHRASE),
    {
        self.entries(RecognitionType::PHRASE)
    }

    /// The single-word triggers, in catalog order.
    pub fn get_words(&self) -> (r: RecognitionEntries)
        ensures
            r.inner@ == entries_of_kind(self.sounds@, RecognitionType::WORD),
    {
        self.entries(RecognitionType::WORD)
    }

    /// The catalog position whose clip plays for the trigger `name` in
    /// `language`; where several match, the last configured one.
    pub fn find_sound(&self, name: &str, language: ModelLanguage) -> (r: Option<usize>)
        ensures
            match r {
                Some(i) => last_position(self.sounds@, name@, language) == Some(i as nat),
                None => last_position(self.sounds@, name@, language) is None,
            },
    {
        let mut i: usize = self.sounds.len();
        assert(self.sounds@.subrange(0, i as int) == self.sounds@);
        while i > 0
            invariant
                i <= self.sounds@.len(),
                last_position(self.sounds@, name@, language) == last_position(
                    self.sounds@.subrange(0, i as int),
                    name@,
                    language,
                ),
            decreases i,
        {
            let s = &self.sounds[i - 1];
            assert(self.sounds@.subrange(0, i as int).drop_last() == self.sounds@.subrange(
                0,
                i - 1,
            ));
            if s.language == language && str_equal(s.name.as_str(), name) {
                return Some(i - 1);
            }
            i = i - 1;
        }
        None
    }

    /// Builds the catalog from configuration rows: each row's prompt is
    /// classified by its token count, its language read from its stored name,
    /// and its clip looked up under the clip directory. Fails on the first row
    /// whose language is unknown.
    pub fn from_db_sounds(rows: &Vec<DbSound>) -> (r: Result<SoundBoard, CatalogError>)
        ensures
            match r {
                Ok(board) => {
                    &&& forall|i: int| 0 <= i < rows@.len() ==> parse_language(rows@[i].language@) is Some
                    &&& board.sounds@.len() == rows@.len()
                    &&& forall|i: int| 0 <= i < rows@.len() ==> sound_view(board.sounds@[i]) == sound_of_row(
                        rows@[i],
                        parse_language(rows@[i].language@)->0,
                    )
                },
                Err(CatalogError::InvalidLanguage { row }) => {
                    &&& row < rows@.len()
                    &&& parse_language(rows@[row as int].language@) is None
                    &&& forall|i: int| 0 <= i < row ==> parse_language(rows@[i].language@) is Some
                },
            },
    {
        let mut board = SoundBoard::new();
        let mut i: usize = 0;
        while i < rows.len()
            invariant
                i <= rows@.len(),
                board.sounds@.len() == i,
                forall|k: int| 0 <= k < i ==> parse_language(rows@[k].language@) is Some,
                forall|k: int| 0 <= k < i ==> sound_view(board.sounds@[k]) == sound_of_row(
                    rows@[k],
                    parse_language(rows@[k].language@)->0,
                ),
            decreases rows@.len() - i,
        {
            let row = &rows[i];
            let language = match ModelLanguage::from_str(row.language.as_str()) {
                Some(l) => l,
                None => {
                    return Err(CatalogError::InvalidLanguage { row: i });
                },
            };
            let kind = recognition_type_of(row.prompt.as_str());
            proof {
                reveal_strlit("songs/");
            }
            assert("songs/"@ =~= clip_dir());
            let mut path = String::from_str("songs/");
            path.append(row.file_name.as_str());
            let ghost before = board.sounds@;
            board = board.add_song(row.prompt.as_str(), kind, language, path.as_str());
            assert forall|k: int| 0 <= k <= i implies sound_view(board.sounds@[k]) == sound_of_row(
                rows@[k],
                parse_language(rows@[k].language@)->0,
            ) by {
                if k < i {
                    assert(board.sounds@[k] == before[k]);
                } else {
                    assert(board.sounds@[k] == board.sounds@.last());
                }
            }
            i = i + 1;
        }
        Ok(board)
    }

    /// An empty speaker registry for this catalog and the loaded `languages`.
    pub fn get_voice_handler(&self, languages: Vec<ModelLanguage>) -> (r: VoiceHandler)
        ensures
            r.wf(),
            r.bindings().is_empty(),
            r.table().is_empty(),
            r.languages() == languages@,
            r.words() == entries_of_kind(self.sounds@, RecognitionType::WORD),
            r.phrases() == entries_of_kind(self.sounds@, RecognitionType::PHRASE),
    {
        let phrases = self.get_phrases();
        let words = self.get_words();
        VoiceHandler::new(languages, words, phrases)
    }
}

} // verus!
