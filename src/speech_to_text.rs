use vstd::prelude::*;

use crate::language::ModelLanguage;
use crate::text::{clone_strings, contains, contains_substring, str_equal};

verus! {

/// Bit pattern of the `f32` value `0.999`, the confidence a single word must exceed.
pub const CONFIDENCE_THRESHOLD_BITS: u32 = 0x3F7F_BE77;

/// Bit pattern of the `f32` value positive infinity.
pub const POSITIVE_INFINITY_BITS: u32 = 0x7F80_0000;

/// A confidence, carried as the bit pattern of an `f32`, is strictly above `0.999`.
///
/// Patterns from `0` to `POSITIVE_INFINITY_BITS` are the non-negative floats and
/// infinity, ordered as the floats are; every other pattern is negative or NaN,
/// and compares as not greater.
pub open spec fn confident(conf_bits: u32) -> bool {
    CONFIDENCE_THRESHOLD_BITS < conf_bits && conf_bits <= POSITIVE_INFINITY_BITS
}

/// Halving of a 16-bit sample, rounding toward zero as integer division does.
pub open spec fn half(x: int) -> int {
    if x >= 0 {
        x / 2
    } else {
        -((-x) / 2)
    }
}

/// Mono sample `i` of an interleaved stereo frame: each channel halved, then summed.
pub open spec fn mono_sample(input: Seq<i16>, i: int) -> int {
    half(input[2 * i] as int) + half(input[2 * i + 1] as int)
}

fn halve(x: i16) -> (r: i16)
    ensures
        r as int == half(x as int),
{
    if x >= 0 {
        x / 2
    } else {
        let y: i32 = -(x as i32);
        -((y / 2) as i16)
    }
}

/// Downmixes interleaved stereo samples `[L0, R0, L1, R1, ...]` to mono with
/// `L/2 + R/2`; a trailing odd sample is dropped.
pub fn stereo_to_mono(input_data: &[i16]) -> (r: Vec<i16>)
    ensures
        r@.len() == input_data@.len() / 2,
        forall|i: int| 0 <= i < r@.len() ==> r@[i] as int == mono_sample(input_data@, i),
{
    let len = input_data.len();
    let n = len / 2;
    let mut result: Vec<i16> = Vec::with_capacity(n);
    let mut i: usize = 0;
    while i < n
        invariant
            n == input_data@.len() / 2,
            len == input_data@.len(),
            i <= n,
            result@.len() == i,
            forall|k: int| 0 <= k < i ==> result@[k] as int == mono_sample(input_data@, k),
        decreases n - i,
    {
        assert(2 * i + 1 < len) by (nonlinear_arith)
            requires
                i < n,
                n == len / 2,
        ;
        let l = halve(input_data[2 * i]);
        let r = halve(input_data[2 * i + 1]);
        result.push(l + r);
        i = i + 1;
    }
    result
}

/// One word of a recognizer result with its confidence, given as the bit
/// pattern of the `f32` that the recognizer reported.
pub struct RecognizedWord {
    pub word: String,
    pub conf_bits: u32,
}

/// What a recognizer returns when asked for its final result.
pub struct EngineResult {
    /// The full transcript.
    pub text: String,
    /// The recognized words, in order.
    pub words: Vec<RecognizedWord>,
}

/// `w` is one of `words`.
pub open spec fn is_listed(words: Seq<String>, w: Seq<char>) -> bool {
    exists|j: int| 0 <= j < words.len() && words[j]@ == w
}

/// The first recognized word at or after position `i` that is confident and listed.
pub open spec fn first_word_match(result: Seq<RecognizedWord>, words: Seq<String>, i: int) -> Option<
    Seq<char>,
>
    decreases result.len() - i,
{
    if i < 0 || i >= result.len() {
        None
    } else if confident(result[i].conf_bits) && is_listed(words, result[i].word@) {
        Some(result[i].word@)
    } else {
        first_word_match(result, words, i + 1)
    }
}

/// The first phrase at or after position `i` that occurs in the transcript.
pub open spec fn first_phrase_match(text: Seq<char>, phrases: Seq<String>, i: int) -> Option<
    Seq<char>,
>
    decreases phrases.len() - i,
{
    if i < 0 || i >= phrases.len() {
        None
    } else if contains_substring(text, phrases[i]@) {
        Some(phrases[i]@)
    } else {
        first_phrase_match(text, phrases, i + 1)
    }
}

/// The trigger that a final result selects: a confident listed word first, else
/// the first configured phrase found in the transcript, else none.
pub open spec fn match_policy(result: EngineResult, words: Seq<String>, phrases: Seq<String>) -> Option<
    Seq<char>,
> {
    match first_word_match(result.words@, words, 0) {
        Some(w) => Some(w),
        None => first_phrase_match(result.text@, phrases, 0),
    }
}

fn listed(words: &Vec<String>, w: &String) -> (r: bool)
    ensures
        r == is_listed(words@, w@),
{
    let mut j: usize = 0;
    while j < words.len()
        invariant
            j <= words@.len(),
            forall|k: int| 0 <= k < j ==> words@[k]@ != w@,
        decreases words@.len() - j,
    {
        if str_equal(words[j].as_str(), w.as_str()) {
            return true;
        }
        j = j + 1;
    }
    false
}

/// Applies the match policy to a final result of a recognizer constrained to
/// `words` and `phrases`.
pub fn evaluate(result: &EngineResult, words: &Vec<String>, phrases: &Vec<String>) -> (r: Option<
    String,
>)
    ensures
        match r {
            Some(s) => match_policy(*result, words@, phrases@) == Some(s@),
            None => match_policy(*result, words@, phrases@) is None,
        },
{
    let mut i: usize = 0;
    while i < result.words.len()
        invariant
            i <= result.words@.len(),
            first_word_match(result.words@, words@, 0) == first_word_match(
                result.words@,
                words@,
                i as int,
            ),
        decreases result.words@.len() - i,
    {
        let w = &result.words[i];
        if w.conf_bits > CONFIDENCE_THRESHOLD_BITS && w.conf_bits <= POSITIVE_INFINITY_BITS
            && listed(words, &w.word) {
            return Some(w.word.clone());
        }
        i = i + 1;
    }
    let mut k: usize = 0;
    while k < phrases.len()
        invariant
            k <= phrases@.len(),
            first_word_match(result.words@, words@, 0) is None,
            first_phrase_match(result.text@, phrases@, 0) == first_phrase_match(
                result.text@,
                phrases@,
                k as int,
            ),
        decreases phrases@.len() - k,
    {
        if contains(result.text.as_str(), phrases[k].as_str()) {
            return Some(phrases[k].clone());
        }
        k = k + 1;
    }
    None
}

/// One recognizer slot: the vocabulary of one language for one speaker, and
/// whether audio has reached the slot since its last finalisation. The
/// recognizer engine that the slot feeds is held by the caller.
pub struct SpeechToText {
    pub active: bool,
    pub words: Vec<String>,
    pub phrases: Vec<String>,
    pub language: ModelLanguage,
}

/// What a slot reports when finalised with an engine result: the matched
/// trigger with the slot's language, if the slot was active and the policy selects one.
pub open spec fn finalise_outcome(slot: SpeechToText, result: Option<EngineResult>) -> Option<
    (Seq<char>, ModelLanguage),
> {
    if !slot.active {
        None
    } else {
        match result {
            None => None,
            Some(res) => match match_policy(res, slot.words@, slot.phrases@) {
                Some(t) => Some((t, slot.language)),
                None => None,
            },
        }
    }
}

impl SpeechToText {
    /// A fresh, inactive slot constrained to `words` and `phrases` in `language`.
    pub fn new_with_grammar(language: ModelLanguage, words: &Vec<String>, phrases: &Vec<String>) -> (r:
        SpeechToText)
        ensures
            !r.active,
            r.words@ == words@,
            r.phrases@ == phrases@,
            r.language == language,
    {
        SpeechToText {
            active: false,
            words: clone_strings(words),
            phrases: clone_strings(phrases),
            language,
        }
    }

    /// The vocabulary the engine of this slot is constrained to: words, then phrases.
    pub fn grammar(&self) -> (r: Vec<String>)
        ensures
            r@ == self.words@ + self.phrases@,
    {
        let mut r = clone_strings(&self.words);
        let mut p = clone_strings(&self.phrases);
        r.append(&mut p);
        r
    }

    /// Takes a stereo frame for this slot: the slot becomes active, and the
    /// mono frame to hand to its engine is returned.
    pub fn listen(&mut self, data: &[i16]) -> (r: Vec<i16>)
        ensures
            final(self).active,
            final(self).words == old(self).words,
            final(self).phrases == old(self).phrases,
            final(self).language == old(self).language,
            r@.len() == data@.len() / 2,
            forall|i: int| 0 <= i < r@.len() ==> r@[i] as int == mono_sample(data@, i),
    {
        let mono = stereo_to_mono(data);
        self.active = true;
        mono
    }

    /// Ends an utterance: an active slot becomes inactive and applies the match
    /// policy to the engine's final result; an inactive slot reports nothing.
    pub fn finalise(&mut self, result: Option<&EngineResult>) -> (r: Option<(String, ModelLanguage)>)
        ensures
            !final(self).active,
            final(self).words == old(self).words,
            final(self).phrases == old(self).phrases,
            final(self).language == old(self).language,
            match r {
                Some((t, l)) => finalise_outcome(*old(self), match result {
                    Some(res) => Some(*res),
                    None => None,
                }) == Some((t@, l)),
                None => finalise_outcome(*old(self), match result {
                    Some(res) => Some(*res),
                    None => None,
                }) is None,
            },
    {
        if self.active {
            self.active = false;
            match result {
                Some(res) => match evaluate(res, &self.words, &self.phrases) {
                    Some(t) => Some((t, self.language)),
                    None => None,
                },
                None => None,
            }
        } else {
            None
        }
    }
}

/// A word reported with confidence exactly `0.999` is not confident; any
/// confident word has a confidence strictly above it.
pub proof fn lemma_threshold_is_strict()
    ensures
        !confident(CONFIDENCE_THRESHOLD_BITS),
        confident((CONFIDENCE_THRESHOLD_BITS + 1) as u32),
        forall|b: u32| #[trigger] confident(b) ==> b > CONFIDENCE_THRESHOLD_BITS,
{
}

/// A word match names a recognized word that is both confident and listed;
/// when no recognized word is confident, no word matches.
pub proof fn lemma_word_match_needs_confidence(result: Seq<RecognizedWord>, words: Seq<String>, i: int)
    requires
        0 <= i,
    ensures
        first_word_match(result, words, i) is Some ==> exists|k: int|
            i <= k < result.len() && confident(#[trigger] result[k].conf_bits) && is_listed(words, result[k].word@)
                && result[k].word@ == first_word_match(result, words, i)->0,
        (forall|k: int| 0 <= k < result.len() ==> !confident(#[trigger] result[k].conf_bits))
            ==> first_word_match(result, words, i) is None,
    decreases result.len() - i,
{
    if i < result.len() {
        lemma_word_match_needs_confidence(result, words, i + 1);
    }
}

/// A phrase occurs in any transcript that holds it between extra words.
pub proof fn lemma_phrase_in_context(pre: Seq<char>, phrase: Seq<char>, post: Seq<char>)
    ensures
        contains_substring(pre + phrase + post, phrase),
{
    let t = pre + phrase + post;
    assert(t.subrange(pre.len() as int, (pre.len() + phrase.len()) as int) =~= phrase);
    assert(crate::text::occurs_at(t, phrase, pre.len() as int));
}

/// A transcript that is the phrase with one character missing does not contain it.
pub proof fn lemma_phrase_missing_char(phrase: Seq<char>, i: int)
    requires
        0 <= i < phrase.len(),
    ensures
        !contains_substring(phrase.remove(i), phrase),
{
}

/// With no confident listed word, the policy selects the first configured
/// phrase that the transcript contains, extra words around it included.
pub proof fn lemma_phrase_triggers(
    result: EngineResult,
    words: Seq<String>,
    phrases: Seq<String>,
    k: int,
    pre: Seq<char>,
    post: Seq<char>,
)
    requires
        first_word_match(result.words@, words, 0) is None,
        0 <= k < phrases.len(),
        result.text@ == pre + phrases[k]@ + post,
        forall|j: int| 0 <= j < k ==> !contains_substring(result.text@, (#[trigger] phrases[j])@),
    ensures
        match_policy(result, words, phrases) == Some(phrases[k]@),
{
    lemma_phrase_in_context(pre, phrases[k]@, post);
    lemma_first_phrase_from(result.text@, phrases, 0, k);
}

proof fn lemma_first_phrase_from(text: Seq<char>, phrases: Seq<String>, i: int, k: int)
    requires
        0 <= i <= k < phrases.len(),
        contains_substring(text, phrases[k]@),
        forall|j: int| i <= j < k ==> !contains_substring(text, (#[trigger] phrases[j])@),
    ensures
        first_phrase_match(text, phrases, i) == Some(phrases[k]@),
    decreases k - i,
{
    if i < k {
        lemma_first_phrase_from(text, phrases, i + 1, k);
    }
}

} // verus!
