use vstd::prelude::*;

use crate::language::{parse_language, ModelLanguage};
use crate::soundboard::{clip_dir, DbSound};
use crate::text::{is_space, is_whitespace};

verus! {

/// Largest accepted clip upload, in bytes (2 MiB).
pub const MAX_UPLOAD_BYTES: u64 = 2097152;

/// Number of leading whitespace characters of `s`.
pub open spec fn leading_space(s: Seq<char>) -> nat
    decreases s.len(),
{
    if s.len() == 0 || !is_space(s[0]) {
        0
    } else {
        1 + leading_space(s.drop_first())
    }
}

/// Number of trailing whitespace characters of `s`.
pub open spec fn trailing_space(s: Seq<char>) -> nat
    decreases s.len(),
{
    if s.len() == 0 || !is_space(s.last()) {
        0
    } else {
        1 + trailing_space(s.drop_last())
    }
}

/// `s` without leading and trailing whitespace.
pub open spec fn trimmed(s: Seq<char>) -> Seq<char> {
    let rest = s.subrange(leading_space(s) as int, s.len() as int);
    rest.subrange(0, rest.len() - trailing_space(rest))
}

proof fn lemma_leading_space(s: Seq<char>, i: int)
    requires
        0 <= i <= s.len(),
        forall|k: int| 0 <= k < i ==> is_space(#[trigger] s[k]),
        i == s.len() || !is_space(s[i]),
    ensures
        leading_space(s) == i,
    decreases i,
{
    if i > 0 {
        let t = s.drop_first();
        assert forall|k: int| 0 <= k < i - 1 implies is_space(#[trigger] t[k]) by {
            assert(t[k] == s[k + 1]);
        }
        if i - 1 < t.len() {
            assert(t[i - 1] == s[i]);
        }
        lemma_leading_space(t, i - 1);
    }
}

proof fn lemma_trailing_space(s: Seq<char>, j: int)
    requires
        0 <= j <= s.len(),
        forall|k: int| j <= k < s.len() ==> is_space(#[trigger] s[k]),
        j == 0 || !is_space(s[j - 1]),
    ensures
        trailing_space(s) == s.len() - j,
    decreases s.len() - j,
{
    if j < s.len() {
        let t = s.drop_last();
        assert forall|k: int| j <= k < t.len() implies is_space(#[trigger] t[k]) by {
            assert(t[k] == s[k]);
        }
        if j > 0 {
            assert(t[j - 1] == s[j - 1]);
        }
        lemma_trailing_space(t, j);
    }
}

/// `s` without leading and trailing whitespace.
pub fn trim(s: &str) -> (r: String)
    ensures
        r@ == trimmed(s@),
{
    let n = s.unicode_len();
    let mut a: usize = 0;
    while a < n && is_whitespace(s.get_char(a))
        invariant
            n == s@.len(),
            a <= n,
            forall|k: int| 0 <= k < a ==> is_space(#[trigger] s@[k]),
        decreases n - a,
    {
        a = a + 1;
    }
    proof {
        lemma_leading_space(s@, a as int);
    }
    let ghost rest = s@.subrange(a as int, n as int);
    let mut b: usize = n;
    while b > a && is_whitespace(s.get_char(b - 1))
        invariant
            n == s@.len(),
            a <= b <= n,
            forall|k: int| b <= k < n ==> is_space(#[trigger] s@[k]),
        decreases b,
    {
        b = b - 1;
    }
    proof {
        assert forall|k: int| b - a <= k < rest.len() implies is_space(#[trigger] rest[k]) by {
            assert(rest[k] == s@[k + a]);
        }
        if b > a {
            assert(rest[b - a - 1] == s@[b - 1]);
        }
        lemma_trailing_space(rest, b - a);
        assert(rest.subrange(0, b - a) =~= s@.subrange(a as int, b as int));
    }
    String::from_str(s.substring_char(a, b))
}

/// `s` begins with `prefix`.
pub open spec fn starts_with(s: Seq<char>, prefix: Seq<char>) -> bool {
    prefix.len() <= s.len() && s.subrange(0, prefix.len() as int) == prefix
}

fn has_prefix(s: &str, prefix: &str) -> (r: bool)
    ensures
        r == starts_with(s@, prefix@),
{
    let n = s.unicode_len();
    let m = prefix.unicode_len();
    if m > n {
        return false;
    }
    let mut i: usize = 0;
    while i < m
        invariant
            n == s@.len(),
            m == prefix@.len(),
            m <= n,
            i <= m,
            forall|k: int| 0 <= k < i ==> s@[k] == prefix@[k],
        decreases m - i,
    {
        if s.get_char(i) != prefix.get_char(i) {
            assert(s@.subrange(0, m as int)[i as int] != prefix@[i as int]);
            return false;
        }
        i = i + 1;
    }
    assert(s@.subrange(0, m as int) =~= prefix@);
    true
}

/// Why an uploaded clip is refused.
#[derive(PartialEq, Eq, Structural, Clone, Copy, Debug)]
pub enum UploadError {
    TooLarge,
    NotAudio,
    EmptyPrompt,
    InvalidLanguage,
}

impl UploadError {
    /// The reply shown to the member who uploaded.
    pub fn message(&self) -> (r: &'static str) {
        match self {
            UploadError::TooLarge => "File size too large. Max 2mb.",
            UploadError::NotAudio => "Only audio files are supported",
            UploadError::EmptyPrompt => "Prompt cannot be empty",
            UploadError::InvalidLanguage => "Invalid language",
        }
    }
}

/// A validated new trigger: its trimmed text and its language.
pub struct NewSound {
    pub prompt: String,
    pub language: ModelLanguage,
}

/// The media type prefix of audio files.
pub open spec fn audio_type() -> Seq<char> {
    seq!['a', 'u', 'd', 'i', 'o']
}

/// The outcome of checking an upload, in the order the checks are made.
pub open spec fn upload_verdict(
    prompt: Seq<char>,
    language: Seq<char>,
    size: u64,
    content_type: Option<Seq<char>>,
) -> Result<(Seq<char>, ModelLanguage), UploadError> {
    if size > MAX_UPLOAD_BYTES {
        Err(UploadError::TooLarge)
    } else if !(content_type is Some && starts_with(content_type->0, audio_type())) {
        Err(UploadError::NotAudio)
    } else if trimmed(prompt).len() == 0 {
        Err(UploadError::EmptyPrompt)
    } else if parse_language(language) is None {
        Err(UploadError::InvalidLanguage)
    } else {
        Ok((trimmed(prompt), parse_language(language)->0))
    }
}

/// Checks a clip upload: at most 2 MiB, an audio media type, a prompt that is
/// not blank, and a known language. On success returns the trimmed prompt
/// and the language.
pub fn validate_upload(prompt: &str, language: &str, size: u64, content_type: Option<&str>) -> (r: Result<
    NewSound,
    UploadError,
>)
    ensures
        match r {
            Ok(s) => upload_verdict(prompt@, language@, size, match content_type {
                Some(c) => Some(c@),
                None => None,
            }) == Ok::<(Seq<char>, ModelLanguage), UploadError>((s.prompt@, s.language)),
            Err(e) => upload_verdict(prompt@, language@, size, match content_type {
                Some(c) => Some(c@),
                None => None,
            }) == Err::<(Seq<char>, ModelLanguage), UploadError>(e),
        },
{
    if size > MAX_UPLOAD_BYTES {
        return Err(UploadError::TooLarge);
    }
    proof {
        reveal_strlit("audio");
    }
    assert("audio"@ =~= audio_type());
    let audio = match content_type {
        Some(c) => has_prefix(c, "audio"),
        None => false,
    };
    if !audio {
        return Err(UploadError::NotAudio);
    }
    let trimmed_prompt = trim(prompt);
    if trimmed_prompt.as_str().unicode_len() == 0 {
        return Err(UploadError::EmptyPrompt);
    }
    match ModelLanguage::from_str(language) {
        Some(l) => Ok(NewSound { prompt: trimmed_prompt, language: l }),
        None => Err(UploadError::InvalidLanguage),
    }
}

/// The prompt of a removal request, trimmed; `None` when it is blank.
pub fn validate_prompt(prompt: &str) -> (r: Option<String>)
    ensures
        match r {
            Some(p) => trimmed(prompt@).len() > 0 && p@ == trimmed(prompt@),
            None => trimmed(prompt@).len() == 0,
        },
{
    let t = trim(prompt);
    if t.as_str().unicode_len() == 0 {
        None
    } else {
        Some(t)
    }
}

/// The path of a stored clip file.
pub fn clip_path(file_name: &str) -> (r: String)
    ensures
        r@ == clip_dir() + file_name@,
{
    proof {
        reveal_strlit("songs/");
    }
    assert("songs/"@ =~= clip_dir());
    let mut path = String::from_str("songs/");
    path.append(file_name);
    path
}

/// One line of the sound listing: `prompt - language`.
pub open spec fn sound_line(row: DbSound) -> Seq<char> {
    row.prompt@ + seq![' ', '-', ' '] + row.language@
}

/// The lines of the first `n` rows, joined by newlines.
pub open spec fn joined_lines(rows: Seq<DbSound>, n: int) -> Seq<char>
    decreases n,
{
    if n <= 0 {
        Seq::empty()
    } else if n == 1 {
        sound_line(rows[0])
    } else {
        joined_lines(rows, n - 1) + seq!['\n'] + sound_line(rows[n - 1])
    }
}

/// The reply to a listing request: the joined lines in a code block, or a
/// notice when there are none.
pub open spec fn listing(rows: Seq<DbSound>) -> Seq<char> {
    let body = joined_lines(rows, rows.len() as int);
    if body.len() == 0 {
        seq!['N', 'o', ' ', 's', 'o', 'u', 'n', 'd', 's', ' ', 'f', 'o', 'u', 'n', 'd']
    } else {
        seq!['`', '`', '`'] + body + seq!['`', '`', '`']
    }
}

/// Formats the configured sounds of a guild, one `prompt - language` per line.
pub fn format_sound_list(rows: &Vec<DbSound>) -> (r: String)
    ensures
        r@ == listing(rows@),
{
    proof {
        reveal_strlit(" - ");
        reveal_strlit("\n");
        reveal_strlit("```");
        reveal_strlit("No sounds found");
    }
    assert(" - "@ =~= seq![' ', '-', ' ']);
    assert("\n"@ =~= seq!['\n']);
    let mut body = String::new();
    let mut i: usize = 0;
    while i < rows.len()
        invariant
            i <= rows@.len(),
            body@ == joined_lines(rows@, i as int),
            " - "@ == seq![' ', '-', ' '],
            "\n"@ == seq!['\n'],
        decreases rows@.len() - i,
    {
        if i > 0 {
            body.append("\n");
        }
        body.append(rows[i].prompt.as_str());
        body.append(" - ");
        body.append(rows[i].language.as_str());
        proof {
            if i == 0 {
                assert(body@ =~= sound_line(rows@[0]));
            } else {
                assert(body@ =~= joined_lines(rows@, i as int) + seq!['\n'] + sound_line(rows@[i as int]));
            }
        }
        i = i + 1;
    }
    if body.as_str().unicode_len() == 0 {
        assert("No sounds found"@ =~= listing(rows@));
        String::from_str("No sounds found")
    } else {
        assert("```"@ =~= seq!['`', '`', '`']);
        let mut out = String::from_str("```");
        out.append(body.as_str());
        out.append("```");
        assert(out@ =~= listing(rows@));
        out
    }
}

} // verus!
