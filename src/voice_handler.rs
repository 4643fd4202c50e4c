use vstd::prelude::*;

use dashmap::DashMap;

use crate::language::ModelLanguage;
use crate::soundboard::{contents_in, RecognitionEntries, RecognitionEntry};
use crate::speech_to_text::{finalise_outcome, mono_sample, EngineResult, SpeechToText};

verus! {

#[verifier::external_type_specification]
#[verifier::external_body]
#[verifier::reject_recursive_types(K)]
#[verifier::reject_recursive_types(V)]
#[verifier::reject_recursive_types(S)]
pub struct ExDashMap<K, V, S>(DashMap<K, V, S>);

/// The recognizer slots of one bound ssrc, with the speaker it is bound to.
pub struct SpeakerSlots {
    pub user_id: u64,
    pub slots: Vec<SpeechToText>,
}

/// What a speaker map holds: speaker id to ssrc.
pub uninterp spec fn speaker_bindings(m: DashMap<u64, u32>) -> Map<u64, u32>;

/// What a listener map holds: ssrc to its speaker and slots.
pub uninterp spec fn listener_table(m: DashMap<u32, SpeakerSlots>) -> Map<u32, SpeakerSlots>;

/// Relies on `DashMap::new`: a new map is empty.
#[verifier::external_body]
fn new_speaker_map() -> (m: DashMap<u64, u32>)
    ensures
        speaker_bindings(m).is_empty(),
{
    DashMap::new()
}

/// Relies on `DashMap::insert`: the key maps to the value afterwards, and the
/// value it had before is returned.
#[verifier::external_body]
fn bind_speaker(m: &mut DashMap<u64, u32>, user_id: u64, ssrc: u32) -> (r: Option<u32>)
    ensures
        speaker_bindings(*final(m)) == speaker_bindings(*old(m)).insert(user_id, ssrc),
        r == (if speaker_bindings(*old(m)).contains_key(user_id) {
            Some(speaker_bindings(*old(m))[user_id])
        } else {
            None
        }),
{
    m.insert(user_id, ssrc)
}

/// Relies on `DashMap::remove`: the key is gone afterwards, and the value it had is returned.
#[verifier::external_body]
fn unbind_speaker(m: &mut DashMap<u64, u32>, user_id: u64) -> (r: Option<u32>)
    ensures
        speaker_bindings(*final(m)) == speaker_bindings(*old(m)).remove(user_id),
        r == (if speaker_bindings(*old(m)).contains_key(user_id) {
            Some(speaker_bindings(*old(m))[user_id])
        } else {
            None
        }),
{
    m.remove(&user_id).map(|(_, v)| v)
}

/// Relies on `DashMap::clear`: the map is empty afterwards.
#[verifier::external_body]
fn clear_speakers(m: &mut DashMap<u64, u32>)
    ensures
        speaker_bindings(*final(m)).is_empty(),
{
    m.clear()
}

/// Relies on `DashMap::len`: the number of keys in the map.
#[verifier::external_body]
fn count_speakers(m: &DashMap<u64, u32>) -> (r: usize)
    ensures
        r == speaker_bindings(*m).len(),
{
    m.len()
}

/// Relies on `DashMap::len`: the number of keys in the map.
#[verifier::external_body]
fn count_listeners(m: &DashMap<u32, SpeakerSlots>) -> (r: usize)
    ensures
        r == listener_table(*m).len(),
{
    m.len()
}

/// Relies on `DashMap::new`: a new map is empty.
#[verifier::external_body]
fn new_listener_map() -> (m: DashMap<u32, SpeakerSlots>)
    ensures
        listener_table(m).is_empty(),
{
    DashMap::new()
}

/// Relies on `DashMap::insert`: the key maps to the value afterwards.
#[verifier::external_body]
fn put_listener(m: &mut DashMap<u32, SpeakerSlots>, ssrc: u32, entry: SpeakerSlots)
    ensures
        listener_table(*final(m)) == listener_table(*old(m)).insert(ssrc, entry),
{
    m.insert(ssrc, entry);
}

/// Relies on `DashMap::remove`: the key is gone afterwards, and the value it had is returned.
#[verifier::external_body]
fn take_listener(m: &mut DashMap<u32, SpeakerSlots>, ssrc: u32) -> (r: Option<SpeakerSlots>)
    ensures
        listener_table(*final(m)) == listener_table(*old(m)).remove(ssrc),
        r == (if listener_table(*old(m)).contains_key(ssrc) {
            Some(listener_table(*old(m))[ssrc])
        } else {
            None
        }),
{
    m.remove(&ssrc).map(|(_, v)| v)
}

/// Relies on `DashMap::clear`: the map is empty afterwards.
#[verifier::external_body]
fn clear_listeners(m: &mut DashMap<u32, SpeakerSlots>)
    ensures
        listener_table(*final(m)).is_empty(),
{
    m.clear()
}

/// Language `l` has at least one configured word or phrase.
pub open spec fn has_entries(words: Seq<RecognitionEntry>, phrases: Seq<RecognitionEntry>, l: ModelLanguage) -> bool {
    contents_in(words, l).len() + contents_in(phrases, l).len() > 0
}

/// The languages that get a slot, in model order: those with any configured trigger.
pub open spec fn slot_plan(
    languages: Seq<ModelLanguage>,
    words: Seq<RecognitionEntry>,
    phrases: Seq<RecognitionEntry>,
) -> Seq<ModelLanguage>
    decreases languages.len(),
{
    if languages.len() == 0 {
        Seq::empty()
    } else {
        let prev = slot_plan(languages.drop_last(), words, phrases);
        if has_entries(words, phrases, languages.last()) {
            prev.push(languages.last())
        } else {
            prev
        }
    }
}

/// Every slot has the language the plan gives at its position and that language's vocabulary.
pub open spec fn slots_conform(
    slots: Seq<SpeechToText>,
    plan: Seq<ModelLanguage>,
    words: Seq<RecognitionEntry>,
    phrases: Seq<RecognitionEntry>,
) -> bool {
    &&& slots.len() == plan.len()
    &&& forall|i: int|
        0 <= i < slots.len() ==> {
            &&& #[trigger] slots[i].language == plan[i]
            &&& slots[i].words@ == contents_in(words, plan[i])
            &&& slots[i].phrases@ == contents_in(phrases, plan[i])
        }
}

/// No slot has received audio since it was made or last finalised.
pub open spec fn all_inactive(slots: Seq<SpeechToText>) -> bool {
    forall|i: int| 0 <= i < slots.len() ==> !(#[trigger] slots[i]).active
}

/// Each speaker is bound to one ssrc that has slots for that speaker, and each
/// ssrc with slots belongs to a speaker bound to it: bindings are one to one,
/// and no slots outlive their binding.
pub open spec fn bindings_consistent(bindings: Map<u64, u32>, table: Map<u32, SpeakerSlots>) -> bool {
    &&& forall|u: u64|
        #[trigger] bindings.contains_key(u) ==> table.contains_key(bindings[u]) && table[bindings[u]].user_id
            == u
    &&& forall|s: u32|
        #[trigger] table.contains_key(s) ==> bindings.contains_key(table[s].user_id)
            && bindings[table[s].user_id] == s
}

/// The finalisation outcomes of the first `n` slots, in slot order.
pub open spec fn outcomes(slots: Seq<SpeechToText>, results: Seq<Option<EngineResult>>, n: int) -> Seq<
    (Seq<char>, ModelLanguage),
>
    decreases n,
{
    if n <= 0 {
        Seq::empty()
    } else {
        let prev = outcomes(slots, results, n - 1);
        let res = if n - 1 < results.len() {
            results[n - 1]
        } else {
            None
        };
        match finalise_outcome(slots[n - 1], res) {
            Some(o) => prev.push(o),
            None => prev,
        }
    }
}

/// The view of a list of matches: trigger text and language.
pub open spec fn matches_view(r: Seq<(String, ModelLanguage)>) -> Seq<(Seq<char>, ModelLanguage)> {
    r.map_values(|p: (String, ModelLanguage)| (p.0@, p.1))
}

/// The per-session speaker registry: which speaker each ssrc belongs to and the
/// recognizer slots of each bound ssrc.
pub struct VoiceHandler {
    languages: Vec<ModelLanguage>,
    words: RecognitionEntries,
    phrases: RecognitionEntries,
    listeners: DashMap<u32, SpeakerSlots>,
    user_ids: DashMap<u64, u32>,
}

/// What `add_listener` changed that the holder of the engines has to follow.
pub struct AddedListener {
    /// The speaker's previous ssrc, whose slots were dropped, if it differs from the new one.
    pub evicted: Option<u32>,
    /// The vocabulary of each new slot, in slot order, with its language.
    pub grammars: Vec<(ModelLanguage, Vec<String>)>,
}

impl VoiceHandler {
    /// Speaker id to ssrc.
    pub closed spec fn bindings(&self) -> Map<u64, u32> {
        speaker_bindings(self.user_ids)
    }

    /// Ssrc to its speaker and slots.
    pub closed spec fn table(&self) -> Map<u32, SpeakerSlots> {
        listener_table(self.listeners)
    }

    /// The languages whose models are loaded, in order.
    pub closed spec fn languages(&self) -> Seq<ModelLanguage> {
        self.languages@
    }

    /// The configured words.
    pub closed spec fn words(&self) -> Seq<RecognitionEntry> {
        self.words.inner@
    }

    /// The configured phrases.
    pub closed spec fn phrases(&self) -> Seq<RecognitionEntry> {
        self.phrases.inner@
    }

    /// The languages that a new speaker gets slots for.
    pub open spec fn plan(&self) -> Seq<ModelLanguage> {
        slot_plan(self.languages(), self.words(), self.phrases())
    }

    /// Bindings are one to one, and every bound ssrc's slots follow the plan.
    pub open spec fn wf(&self) -> bool {
        &&& bindings_consistent(self.bindings(), self.table())
        &&& forall|s: u32|
            #[trigger] self.table().contains_key(s) ==> slots_conform(
                self.table()[s].slots@,
                self.plan(),
                self.words(),
                self.phrases(),
            )
    }

    /// An empty registry for the loaded `languages` and the configured triggers.
    pub fn new(languages: Vec<ModelLanguage>, words: RecognitionEntries, phrases: RecognitionEntries) -> (r:
        VoiceHandler)
        ensures
            r.wf(),
            r.bindings() == Map::<u64, u32>::empty(),
            r.table() == Map::<u32, SpeakerSlots>::empty(),
            r.languages() == languages@,
            r.words() == words.inner@,
            r.phrases() == phrases.inner@,
    {
        VoiceHandler {
            languages,
            words,
            phrases,
            listeners: new_listener_map(),
            user_ids: new_speaker_map(),
        }
    }

    /// Fresh slots for one speaker: one per loaded language that has any trigger.
    fn get_speech_to_text_instances(&self) -> (r: Vec<SpeechToText>)
        ensures
            slots_conform(r@, self.plan(), self.words(), self.phrases()),
            all_inactive(r@),
    {
        let mut r: Vec<SpeechToText> = Vec::new();
        let mut i: usize = 0;
        while i < self.languages.len()
            invariant
                i <= self.languages@.len(),
                slots_conform(
                    r@,
                    slot_plan(self.languages@.subrange(0, i as int), self.words(), self.phrases()),
                    self.words(),
                    self.phrases(),
                ),
                all_inactive(r@),
            decreases self.languages@.len() - i,
        {
            let l = self.languages[i];
            let ghost pre = self.languages@.subrange(0, i as int);
            assert(self.languages@.subrange(0, i + 1).drop_last() == pre);
            let words = self.words.filter_by_language(l);
            let phrases = self.phrases.filter_by_language(l);
            if words.len() > 0 || phrases.len() > 0 {
                let slot = SpeechToText::new_with_grammar(l, &words, &phrases);
                r.push(slot);
            }
            i = i + 1;
        }
        assert(self.languages@.subrange(0, self.languages@.len() as int) == self.languages@);
        r
    }

    /// Binds `user_id` to `ssrc` with fresh slots. A previous owner of `ssrc`
    /// loses its binding, and the speaker's previous ssrc loses its slots.
    pub fn add_listener(&mut self, ssrc: u32, user_id: u64) -> (r: AddedListener)
        requires
            old(self).wf(),
        ensures
            final(self).wf(),
            final(self).languages() == old(self).languages(),
            final(self).words() == old(self).words(),
            final(self).phrases() == old(self).phrases(),
            final(self).bindings() == (if old(self).table().contains_key(ssrc)
                && old(self).table()[ssrc].user_id != user_id {
                old(self).bindings().remove(old(self).table()[ssrc].user_id)
            } else {
                old(self).bindings()
            }).insert(user_id, ssrc),
            final(self).table().dom() == (if old(self).bindings().contains_key(user_id) {
                old(self).table().dom().remove(old(self).bindings()[user_id])
            } else {
                old(self).table().dom()
            }).insert(ssrc),
            forall|s: u32|
                s != ssrc && #[trigger] final(self).table().contains_key(s) ==> final(self).table()[s]
                    == old(self).table()[s],
            final(self).table()[ssrc].user_id == user_id,
            all_inactive(final(self).table()[ssrc].slots@),
            r.evicted == (if old(self).bindings().contains_key(user_id) && old(self).bindings()[user_id]
                != ssrc {
                Some(old(self).bindings()[user_id])
            } else {
                None
            }),
            r.grammars@.len() == final(self).table()[ssrc].slots@.len(),
            forall|i: int|
                0 <= i < r.grammars@.len() ==> {
                    let slot = final(self).table()[ssrc].slots@[i];
                    &&& (#[trigger] r.grammars@[i]).0 == slot.language
                    &&& r.grammars@[i].1@ == slot.words@ + slot.phrases@
                },
    {
        let ghost b0 = self.bindings();
        let ghost t0 = self.table();
        match take_listener(&mut self.listeners, ssrc) {
            Some(entry) => {
                if entry.user_id != user_id {
                    unbind_speaker(&mut self.user_ids, entry.user_id);
                }
            },
            None => {},
        }
        let ghost b1 = self.bindings();
        let ghost t1 = self.table();
        let prev = bind_speaker(&mut self.user_ids, user_id, ssrc);
        let mut evicted: Option<u32> = None;
        match prev {
            Some(old_ssrc) => {
                if old_ssrc != ssrc {
                    take_listener(&mut self.listeners, old_ssrc);
                    evicted = Some(old_ssrc);
                }
            },
            None => {},
        }
        let slots = self.get_speech_to_text_instances();
        let mut grammars: Vec<(ModelLanguage, Vec<String>)> = Vec::new();
        let mut i: usize = 0;
        while i < slots.len()
            invariant
                i <= slots@.len(),
                grammars@.len() == i,
                forall|k: int|
                    0 <= k < i ==> (#[trigger] grammars@[k]).0 == slots@[k].language
                        && grammars@[k].1@ == slots@[k].words@ + slots@[k].phrases@,
            decreases slots@.len() - i,
        {
            grammars.push((slots[i].language, slots[i].grammar()));
            i = i + 1;
        }
        put_listener(&mut self.listeners, ssrc, SpeakerSlots { user_id, slots });
        let ghost b2 = self.bindings();
        let ghost t2 = self.table();
        assert forall|u: u64| #[trigger] b2.contains_key(u) implies t2.contains_key(b2[u])
            && t2[b2[u]].user_id == u by {
            if u != user_id {
                assert(b0.contains_key(u));
                assert(t0[b0[u]].user_id == u);
                if b0[u] == ssrc {
                    assert(t0[ssrc].user_id == u);
                    assert(!b1.contains_key(u));
                }
            }
        }
        assert forall|s: u32| #[trigger] t2.contains_key(s) implies b2.contains_key(t2[s].user_id)
            && b2[t2[s].user_id] == s by {
            if s != ssrc {
                assert(t0.contains_key(s));
                let u = t0[s].user_id;
                assert(b0[u] == s);
                assert(u != user_id);
            }
        }
        assert forall|s: u32| #[trigger] self.table().contains_key(s) implies slots_conform(
            self.table()[s].slots@,
            self.plan(),
            self.words(),
            self.phrases(),
        ) by {
            if s != ssrc {
                assert(t0.contains_key(s));
            }
        }
        proof {
            if b0.contains_key(user_id) {
                assert(t2.dom() =~= t0.dom().remove(b0[user_id]).insert(ssrc));
            } else {
                assert(t2.dom() =~= t0.dom().insert(ssrc));
            }
        }
        AddedListener { evicted, grammars }
    }

    /// Removes the speaker's binding and all slots of its ssrc; returns that
    /// ssrc, or `None` (and changes nothing) for an unknown speaker.
    pub fn remove_listener(&mut self, user_id: u64) -> (r: Option<u32>)
        requires
            old(self).wf(),
        ensures
            final(self).wf(),
            final(self).languages() == old(self).languages(),
            final(self).words() == old(self).words(),
            final(self).phrases() == old(self).phrases(),
            final(self).bindings() == old(self).bindings().remove(user_id),
            r == (if old(self).bindings().contains_key(user_id) {
                Some(old(self).bindings()[user_id])
            } else {
                None
            }),
            final(self).table() == (match r {
                Some(s) => old(self).table().remove(s),
                None => old(self).table(),
            }),
    {
        let ghost t0 = self.table();
        let ghost b0 = self.bindings();
        let removed = unbind_speaker(&mut self.user_ids, user_id);
        match removed {
            Some(ssrc) => {
                take_listener(&mut self.listeners, ssrc);
            },
            None => {},
        }
        let ghost b2 = self.bindings();
        let ghost t2 = self.table();
        assert forall|s: u32| #[trigger] t2.contains_key(s) implies b2.contains_key(t2[s].user_id)
            && b2[t2[s].user_id] == s by {
            assert(t0.contains_key(s));
            if t0[s].user_id == user_id {
                assert(b0[user_id] == s);
            }
        }
        assert forall|s: u32| #[trigger] t2.contains_key(s) implies slots_conform(
            t2[s].slots@,
            self.plan(),
            self.words(),
            self.phrases(),
        ) by {
            assert(t0.contains_key(s));
        }
        removed
    }

    /// Drops every binding and every slot.
    pub fn reset_listeners(&mut self)
        requires
            old(self).wf(),
        ensures
            final(self).wf(),
            final(self).languages() == old(self).languages(),
            final(self).words() == old(self).words(),
            final(self).phrases() == old(self).phrases(),
            final(self).bindings().is_empty(),
            final(self).table().is_empty(),
    {
        clear_listeners(&mut self.listeners);
        clear_speakers(&mut self.user_ids);
    }

    /// Routes a stereo frame to the slots of `ssrc`, marking each active, and
    /// returns the mono frame to hand to their engines; `None`, with nothing
    /// changed, for an ssrc without slots.
    pub fn listen(&mut self, ssrc: u32, audio: &[i16]) -> (r: Option<Vec<i16>>)
        requires
            old(self).wf(),
        ensures
            final(self).wf(),
            final(self).languages() == old(self).languages(),
            final(self).words() == old(self).words(),
            final(self).phrases() == old(self).phrases(),
            final(self).bindings() == old(self).bindings(),
            final(self).table().dom() == old(self).table().dom(),
            forall|s: u32|
                s != ssrc && #[trigger] final(self).table().contains_key(s) ==> final(self).table()[s]
                    == old(self).table()[s],
            old(self).table().contains_key(ssrc) <==> r is Some,
            match r {
                Some(mono) => {
                    &&& mono@.len() == audio@.len() / 2
                    &&& forall|i: int|
                        0 <= i < mono@.len() ==> mono@[i] as int == mono_sample(audio@, i)
                    &&& final(self).table()[ssrc].user_id == old(self).table()[ssrc].user_id
                    &&& final(self).table()[ssrc].slots@.len() == old(self).table()[ssrc].slots@.len()
                    &&& forall|i: int|
                        0 <= i < final(self).table()[ssrc].slots@.len() ==> {
                            let a = #[trigger] final(self).table()[ssrc].slots@[i];
                            let b = old(self).table()[ssrc].slots@[i];
                            &&& a.active
                            &&& a.language == b.language
                            &&& a.words == b.words
                            &&& a.phrases == b.phrases
                        }
                },
                None => final(self).table() == old(self).table(),
            },
    {
        let ghost t0 = self.table();
        match take_listener(&mut self.listeners, ssrc) {
            Some(entry) => {
                let SpeakerSlots { user_id, slots } = entry;
                let ghost before = slots@;
                let mono = crate::speech_to_text::stereo_to_mono(audio);
                let mut slots = slots;
                let mut i: usize = 0;
                while i < slots.len()
                    invariant
                        i <= slots@.len(),
                        slots@.len() == before.len(),
                        forall|k: int|
                            0 <= k < slots@.len() ==> {
                                let a = #[trigger] slots@[k];
                                let b = before[k];
                                &&& (k < i ==> a.active)
                                &&& (k >= i ==> a.active == b.active)
                                &&& a.language == b.language
                                &&& a.words == b.words
                                &&& a.phrases == b.phrases
                            },
                    decreases slots@.len() - i,
                {
                    let mut slot = slots.remove(i);
                    slot.active = true;
                    slots.insert(i, slot);
                    i = i + 1;
                }
                put_listener(&mut self.listeners, ssrc, SpeakerSlots { user_id, slots });
                assert(self.table().dom() =~= t0.dom());
                assert(slots_conform(self.table()[ssrc].slots@, self.plan(), self.words(), self.phrases()));
                Some(mono)
            },
            None => {
                None
            },
        }
    }

    /// The active flag of each slot of `ssrc`, in slot order; empty for an
    /// ssrc without slots.
    pub fn active_slots(&mut self, ssrc: u32) -> (r: Vec<bool>)
        requires
            old(self).wf(),
        ensures
            final(self).wf(),
            final(self).languages() == old(self).languages(),
            final(self).words() == old(self).words(),
            final(self).phrases() == old(self).phrases(),
            final(self).bindings() == old(self).bindings(),
            final(self).table() == old(self).table(),
            old(self).table().contains_key(ssrc) ==> {
                &&& r@.len() == old(self).table()[ssrc].slots@.len()
                &&& forall|i: int|
                    0 <= i < r@.len() ==> r@[i] == (#[trigger] old(self).table()[ssrc].slots@[i]).active
            },
            !old(self).table().contains_key(ssrc) ==> r@.len() == 0,
    {
        let ghost t0 = self.table();
        let mut r: Vec<bool> = Vec::new();
        match take_listener(&mut self.listeners, ssrc) {
            Some(entry) => {
                let mut i: usize = 0;
                while i < entry.slots.len()
                    invariant
                        i <= entry.slots@.len(),
                        r@.len() == i,
                        forall|k: int| 0 <= k < i ==> r@[k] == (#[trigger] entry.slots@[k]).active,
                    decreases entry.slots@.len() - i,
                {
                    r.push(entry.slots[i].active);
                    i = i + 1;
                }
                put_listener(&mut self.listeners, ssrc, entry);
                assert(self.table() =~= t0);
            },
            None => {},
        }
        r
    }

    /// Ends the utterance of `ssrc`: each active slot becomes inactive and
    /// applies the match policy to the engine result at its position in
    /// `results` (a slot without one reports nothing). Returns the matches in
    /// slot order; for an ssrc without slots, nothing changes and nothing matches.
    pub fn finalise(&mut self, ssrc: u32, results: &Vec<Option<EngineResult>>) -> (r: Vec<(String, ModelLanguage)>)
        requires
            old(self).wf(),
        ensures
            final(self).wf(),
            final(self).languages() == old(self).languages(),
            final(self).words() == old(self).words(),
            final(self).phrases() == old(self).phrases(),
            final(self).bindings() == old(self).bindings(),
            final(self).table().dom() == old(self).table().dom(),
            forall|s: u32|
                s != ssrc && #[trigger] final(self).table().contains_key(s) ==> final(self).table()[s]
                    == old(self).table()[s],
            old(self).table().contains_key(ssrc) ==> {
                let before = old(self).table()[ssrc];
                let after = final(self).table()[ssrc];
                &&& matches_view(r@) == outcomes(before.slots@, results@, before.slots@.len() as int)
                &&& after.user_id == before.user_id
                &&& all_inactive(after.slots@)
                &&& after.slots@.len() == before.slots@.len()
                &&& forall|i: int|
                    0 <= i < after.slots@.len() ==> {
                        let a = #[trigger] after.slots@[i];
                        let b = before.slots@[i];
                        &&& a.language == b.language
                        &&& a.words == b.words
                        &&& a.phrases == b.phrases
                    }
            },
            !old(self).table().contains_key(ssrc) ==> r@.len() == 0 && final(self).table() == old(
                self,
            ).table(),
    {
        let ghost t0 = self.table();
        let mut found: Vec<(String, ModelLanguage)> = Vec::new();
        match take_listener(&mut self.listeners, ssrc) {
            Some(entry) => {
                let SpeakerSlots { user_id, slots } = entry;
                let ghost before = slots@;
                let mut slots = slots;
                let mut i: usize = 0;
                while i < slots.len()
                    invariant
                        i <= slots@.len(),
                        slots@.len() == before.len(),
                        matches_view(found@) == outcomes(before, results@, i as int),
                        forall|k: int|
                            0 <= k < slots@.len() ==> {
                                let a = #[trigger] slots@[k];
                                let b = before[k];
                                &&& (k < i ==> !a.active)
                                &&& (k >= i ==> a == b)
                                &&& a.language == b.language
                                &&& a.words == b.words
                                &&& a.phrases == b.phrases
                            },
                    decreases slots@.len() - i,
                {
                    let mut slot = slots.remove(i);
                    let res: Option<&EngineResult> = if i < results.len() {
                        match &results[i] {
                            Some(x) => Some(x),
                            None => None,
                        }
                    } else {
                        None
                    };
                    let outcome = slot.finalise(res);
                    slots.insert(i, slot);
                    let ghost prev = found@;
                    match outcome {
                        Some(m) => {
                            found.push(m);
                            assert(matches_view(found@) =~= matches_view(prev).push((m.0@, m.1)));
                        },
                        None => {},
                    }
                    i = i + 1;
                }
                put_listener(&mut self.listeners, ssrc, SpeakerSlots { user_id, slots });
                assert(self.table().dom() =~= t0.dom());
                assert(slots_conform(self.table()[ssrc].slots@, self.plan(), self.words(), self.phrases()));
            },
            None => {},
        }
        found
    }

    /// The number of bound speakers.
    pub fn speaker_count(&self) -> (r: usize)
        ensures
            r == self.bindings().len(),
    {
        count_speakers(&self.user_ids)
    }

    /// The number of ssrcs that hold slots.
    pub fn listener_count(&self) -> (r: usize)
        ensures
            r == self.table().len(),
    {
        count_listeners(&self.listeners)
    }
}


/// Registry invariant: no speaker is bound to two ssrcs, no two speakers share
/// an ssrc, and every ssrc that holds slots belongs to a speaker bound to it.
/// Every operation of the registry keeps `wf`, so this holds after any
/// sequence of `add_listener` and `remove_listener` calls.
pub proof fn lemma_bindings_one_to_one(h: &VoiceHandler)
    requires
        h.wf(),
    ensures
        forall|u1: u64, u2: u64|
            #[trigger] h.bindings().contains_key(u1) && #[trigger] h.bindings().contains_key(u2)
                && u1 != u2 ==> h.bindings()[u1] != h.bindings()[u2],
        forall|s: u32|
            #[trigger] h.table().contains_key(s) ==> h.bindings().contains_key(h.table()[s].user_id)
                && h.bindings()[h.table()[s].user_id] == s,
{
    assert forall|u1: u64, u2: u64|
        #[trigger] h.bindings().contains_key(u1) && #[trigger] h.bindings().contains_key(u2) && u1
            != u2 implies h.bindings()[u1] != h.bindings()[u2] by {
        assert(h.table()[h.bindings()[u1]].user_id == u1);
        assert(h.table()[h.bindings()[u2]].user_id == u2);
    }
}

/// After a reset no ssrc holds slots, so `listen` on any ssrc returns `None`
/// and changes nothing, and `finalise` reports no match and changes nothing.
pub proof fn lemma_reset_silences(h: &VoiceHandler, ssrc: u32)
    requires
        h.table().is_empty(),
    ensures
        !h.table().contains_key(ssrc),
{
}

/// What finalising the first `n` slots reports when every slot is active: the
/// policy's choice for each slot, in order, whose engine result is given.
pub open spec fn policy_matches(slots: Seq<SpeechToText>, results: Seq<Option<EngineResult>>, n: int) -> Seq<
    (Seq<char>, ModelLanguage),
>
    decreases n,
{
    if n <= 0 {
        Seq::empty()
    } else {
        let prev = policy_matches(slots, results, n - 1);
        if n - 1 < results.len() && results[n - 1] is Some {
            match crate::speech_to_text::match_policy(
                results[n - 1]->0,
                slots[n - 1].words@,
                slots[n - 1].phrases@,
            ) {
                Some(t) => prev.push((t, slots[n - 1].language)),
                None => prev,
            }
        } else {
            prev
        }
    }
}

/// A frame followed by a finalisation on the same ssrc: `listen` leaves every
/// slot active, and finalising active slots reports exactly the match policy's
/// choice on each injected engine result.
pub proof fn lemma_listen_then_finalise(slots: Seq<SpeechToText>, results: Seq<Option<EngineResult>>, n: int)
    requires
        0 <= n <= slots.len(),
        forall|i: int| 0 <= i < slots.len() ==> (#[trigger] slots[i]).active,
    ensures
        outcomes(slots, results, n) == policy_matches(slots, results, n),
    decreases n,
{
    if n > 0 {
        lemma_listen_then_finalise(slots, results, n - 1);
        assert(slots[n - 1].active);
    }
}

} // verus!
