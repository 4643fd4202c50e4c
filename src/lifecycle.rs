use vstd::prelude::*;

use crate::language::ModelLanguage;
use crate::soundboard::{entries_of_kind, RecognitionType, SoundBoard};
use crate::speech_to_text::{mono_sample, EngineResult};
use crate::voice_handler::{
    all_inactive, matches_view, outcomes, AddedListener, SpeakerSlots, VoiceHandler,
};

verus! {

/// A guild member's voice state, as the presence service reports it.
#[derive(PartialEq, Eq, Structural, Clone, Copy, Debug)]
pub struct VoiceMember {
    pub user_id: u64,
    pub channel_id: Option<u64>,
}

/// What the voice transport holds for a guild.
#[derive(PartialEq, Eq, Structural, Clone, Copy, Debug)]
pub enum CallStatus {
    /// No connection object exists.
    Absent,
    /// A connection object exists but is in no channel.
    Idle,
    /// The connection is in this channel.
    InChannel { channel: u64 },
}

/// Some member other than the bot is in `channel`.
pub open spec fn someone_there(members: Seq<VoiceMember>, bot_id: u64, channel: u64) -> bool {
    exists|i: int|
        0 <= i < members.len() && (#[trigger] members[i]).user_id != bot_id && members[i].channel_id
            == Some(channel)
}

/// Whether `channel_id` holds no member but the bot.
pub fn check_if_channel_empty(members: &Vec<VoiceMember>, bot_id: u64, channel_id: u64) -> (r: bool)
    ensures
        r == !someone_there(members@, bot_id, channel_id),
{
    let mut i: usize = 0;
    while i < members.len()
        invariant
            i <= members@.len(),
            forall|k: int|
                0 <= k < i ==> !((#[trigger] members@[k]).user_id != bot_id && members@[k].channel_id
                    == Some(channel_id)),
        decreases members@.len() - i,
    {
        let m = members[i];
        if m.user_id != bot_id && m.channel_id == Some(channel_id) {
            return false;
        }
        i = i + 1;
    }
    true
}

/// Whether a voice-state change calls for dropping the guild's connection: a
/// connection in no channel is dropped, one in a channel when that channel has
/// no member but the bot.
pub open spec fn tear_down_wanted(call: CallStatus, members: Seq<VoiceMember>, bot_id: u64) -> bool {
    match call {
        CallStatus::Absent => false,
        CallStatus::Idle => true,
        CallStatus::InChannel { channel } => !someone_there(members, bot_id, channel),
    }
}

/// Decides, from a snapshot of the connection and of the members, whether to
/// drop the connection. The caller holds no lock on the connection while it
/// performs the drop.
pub fn should_tear_down(call: CallStatus, members: &Vec<VoiceMember>, bot_id: u64) -> (r: bool)
    ensures
        r == tear_down_wanted(call, members@, bot_id),
{
    match call {
        CallStatus::Absent => false,
        CallStatus::Idle => true,
        CallStatus::InChannel { channel } => check_if_channel_empty(members, bot_id, channel),
    }
}

/// The answer to a join request.
#[derive(PartialEq, Eq, Structural, Clone, Copy, Debug)]
pub enum JoinDecision {
    /// The requester is in no voice channel.
    NotInVoice,
    /// The session is already connected to the requester's channel; no transport call.
    AlreadyConnected,
    /// Ask the transport to join this channel.
    Connect { channel: u64 },
}

/// The answer to a leave request.
#[derive(PartialEq, Eq, Structural, Clone, Copy, Debug)]
pub enum LeaveDecision {
    /// There is no session to leave.
    NotConnected,
    /// Ask the transport to leave.
    Leave,
}

/// The lifecycle state of a guild's voice session.
#[derive(PartialEq, Eq, Structural, Clone, Copy, Debug)]
pub enum SessionState {
    Disconnected,
    Connecting { channel: u64 },
    Connected { channel: u64 },
}

/// The decision for a join request from a member in `requester_channel`.
pub open spec fn join_decision(state: SessionState, requester_channel: Option<u64>) -> JoinDecision {
    match requester_channel {
        None => JoinDecision::NotInVoice,
        Some(c) => if state == (SessionState::Connected { channel: c }) {
            JoinDecision::AlreadyConnected
        } else {
            JoinDecision::Connect { channel: c }
        },
    }
}

/// One guild's voice session: its lifecycle state and, while connected, its
/// speaker registry.
pub struct Session {
    state: SessionState,
    handler: Option<VoiceHandler>,
}

impl Session {
    /// The lifecycle state.
    pub closed spec fn current(&self) -> SessionState {
        self.state
    }

    /// The speaker registry, present while connected.
    pub closed spec fn registry(&self) -> Option<VoiceHandler> {
        self.handler
    }

    /// A registry exists exactly while connected, and it is well formed.
    pub open spec fn wf(&self) -> bool {
        &&& (self.current() is Connected <==> self.registry() is Some)
        &&& (self.registry() is Some ==> self.registry()->0.wf())
    }

    #[verifier::type_invariant]
    spec fn inv(&self) -> bool {
        self.wf()
    }

    /// Moves the state and registry out, leaving a disconnected session behind.
    fn take_parts(&mut self) -> (r: (SessionState, Option<VoiceHandler>))
        ensures
            r.0 == old(self).current(),
            r.1 == old(self).registry(),
            r.0 is Connected <==> r.1 is Some,
            r.1 is Some ==> r.1->0.wf(),
    {
        proof {
            use_type_invariant(&*self);
        }
        let mut other = Session::new();
        std::mem::swap(self, &mut other);
        proof {
            use_type_invariant(&other);
        }
        let Session { state, handler } = other;
        (state, handler)
    }

    /// A disconnected session.
    pub fn new() -> (r: Session)
        ensures
            r.wf(),
            r.current() == SessionState::Disconnected,
    {
        Session { state: SessionState::Disconnected, handler: None }
    }

    /// The lifecycle state.
    pub fn state(&self) -> (r: SessionState)
        ensures
            r == self.current(),
    {
        self.state
    }

    /// Handles a join request from a member in `requester_channel`. On
    /// `Connect` the session starts connecting to that channel and any
    /// registry is dropped; otherwise nothing changes.
    pub fn request_join(&mut self, requester_channel: Option<u64>) -> (r: JoinDecision)
        ensures
            r == join_decision(old(self).current(), requester_channel),
            match r {
                JoinDecision::Connect { channel } => final(self).current() == (SessionState::Connecting {
                    channel,
                }),
                _ => final(self).current() == old(self).current() && final(self).registry() == old(
                    self,
                ).registry(),
            },
    {
        match requester_channel {
            None => JoinDecision::NotInVoice,
            Some(c) => {
                if self.state == (SessionState::Connected { channel: c }) {
                    JoinDecision::AlreadyConnected
                } else {
                    *self = Session { state: SessionState::Connecting { channel: c }, handler: None };
                    JoinDecision::Connect { channel: c }
                }
            },
        }
    }

    /// The transport joined: a connecting session becomes connected with a
    /// fresh registry built from `board` for the loaded `languages`. Returns
    /// `false`, changing nothing, when the session was not connecting.
    pub fn join_succeeded(&mut self, board: &SoundBoard, languages: Vec<ModelLanguage>) -> (r: bool)
        ensures
            r == (old(self).current() is Connecting),
            r ==> final(self).current() == (SessionState::Connected {
                channel: old(self).current()->Connecting_channel,
            }),
            r ==> {
                let h = final(self).registry()->0;
                &&& h.bindings().is_empty()
                &&& h.table().is_empty()
                &&& h.languages() == languages@
                &&& h.words() == entries_of_kind(board.sounds@, RecognitionType::WORD)
                &&& h.phrases() == entries_of_kind(board.sounds@, RecognitionType::PHRASE)
            },
            !r ==> final(self).current() == old(self).current() && final(self).registry() == old(
                self,
            ).registry(),
    {
        match self.state {
            SessionState::Connecting { channel } => {
                let handler = board.get_voice_handler(languages);
                *self = Session { state: SessionState::Connected { channel }, handler: Some(handler) };
                true
            },
            _ => false,
        }
    }

    /// The transport failed to join: a connecting session becomes disconnected.
    pub fn join_failed(&mut self)
        ensures
            old(self).current() is Connecting ==> final(self).current() == SessionState::Disconnected,
            !(old(self).current() is Connecting) ==> final(self).current() == old(self).current()
                && final(self).registry() == old(self).registry(),
    {
        proof {
            use_type_invariant(&*self);
        }
        if let SessionState::Connecting { .. } = self.state {
            *self = Session::new();
        }
    }

    /// Handles a leave request: a session that is connected or connecting
    /// becomes disconnected and its registry is dropped.
    pub fn request_leave(&mut self) -> (r: LeaveDecision)
        ensures
            final(self).current() == SessionState::Disconnected,
            r == (if old(self).current() == SessionState::Disconnected {
                LeaveDecision::NotConnected
            } else {
                LeaveDecision::Leave
            }),
    {
        let r = if self.state == SessionState::Disconnected {
            LeaveDecision::NotConnected
        } else {
            LeaveDecision::Leave
        };
        *self = Session::new();
        r
    }

    fn reset_registry(&mut self)
        ensures
            final(self).current() == old(self).current(),
            old(self).registry() is Some ==> {
                let h0 = old(self).registry()->0;
                let h = final(self).registry()->0;
                &&& h.bindings().is_empty()
                &&& h.table().is_empty()
                &&& h.languages() == h0.languages()
                &&& h.words() == h0.words()
                &&& h.phrases() == h0.phrases()
            },
            old(self).registry() is None ==> final(self).registry() is None,
    {
        let (state, handler) = self.take_parts();
        match handler {
            Some(mut h) => {
                h.reset_listeners();
                *self = Session { state, handler: Some(h) };
            },
            None => {
                *self = Session { state, handler: None };
            },
        }
    }

    /// The transport reports that the driver disconnected (the bot left or was
    /// moved): the registry of a connected session is emptied; the session stays.
    pub fn on_driver_disconnect(&mut self)
        ensures
            final(self).current() == old(self).current(),
            old(self).registry() is Some ==> final(self).registry()->0.bindings().is_empty()
                && final(self).registry()->0.table().is_empty(),
            old(self).registry() is None ==> final(self).registry() is None,
    {
        self.reset_registry();
    }

    /// The transport reports an unsolicited driver reconnect: handled as a
    /// disconnect, emptying the registry.
    pub fn on_driver_reconnect(&mut self)
        ensures
            final(self).current() == old(self).current(),
            old(self).registry() is Some ==> final(self).registry()->0.bindings().is_empty()
                && final(self).registry()->0.table().is_empty(),
            old(self).registry() is None ==> final(self).registry() is None,
    {
        self.reset_registry();
    }

    /// The presence service reports the bot's own channel. `None` is a forced
    /// leave: the session becomes disconnected and `true` asks the caller to
    /// drop the connection. A different channel while connected is a move: the
    /// session follows it and its registry is emptied.
    pub fn on_self_channel_changed(&mut self, channel: Option<u64>) -> (r: bool)
        ensures
            r == (channel is None && old(self).current() != SessionState::Disconnected),
            channel is None ==> final(self).current() == SessionState::Disconnected,
            channel is Some && old(self).current() is Connected ==> {
                &&& final(self).current() == (SessionState::Connected { channel: channel->0 })
                &&& (old(self).current() != (SessionState::Connected { channel: channel->0 })
                    ==> final(self).registry()->0.table().is_empty()
                    && final(self).registry()->0.bindings().is_empty())
                &&& (old(self).current() == (SessionState::Connected { channel: channel->0 })
                    ==> final(self).registry() == old(self).registry())
            },
            channel is Some && !(old(self).current() is Connected) ==> final(self).current() == old(
                self,
            ).current() && final(self).registry() == old(self).registry(),
    {
        match channel {
            None => {
                let was = self.state != SessionState::Disconnected;
                *self = Session::new();
                was
            },
            Some(c) => {
                if let SessionState::Connected { channel: current } = self.state {
                    if current != c {
                        self.reset_registry();
                        let (_, handler) = self.take_parts();
                        *self = Session { state: SessionState::Connected { channel: c }, handler };
                    }
                }
                false
            },
        }
    }

    /// A voice-state change in the guild: decides from the snapshot whether the
    /// connection is to be dropped and, if so, the session becomes disconnected.
    pub fn on_voice_state_changed(&mut self, call: CallStatus, members: &Vec<VoiceMember>, bot_id: u64) -> (r:
        bool)
        ensures
            r == tear_down_wanted(call, members@, bot_id),
            r ==> final(self).current() == SessionState::Disconnected,
            !r ==> final(self).current() == old(self).current() && final(self).registry() == old(
                self,
            ).registry(),
    {
        let r = should_tear_down(call, members, bot_id);
        if r {
            *self = Session::new();
        }
        r
    }

    /// A speaker started talking on `ssrc`: a connected session binds it with
    /// fresh slots and returns what changed; otherwise nothing happens.
    pub fn on_speaking(&mut self, ssrc: u32, user_id: u64) -> (r: Option<AddedListener>)
        ensures
            final(self).current() == old(self).current(),
            r is Some <==> old(self).current() is Connected,
            r is None ==> final(self).registry() == old(self).registry(),
            r is Some ==> {
                let h = final(self).registry()->0;
                &&& h.bindings().contains_key(user_id)
                &&& h.bindings()[user_id] == ssrc
                &&& h.table().contains_key(ssrc)
                &&& h.table()[ssrc].user_id == user_id
                &&& all_inactive(h.table()[ssrc].slots@)
                &&& r->0.grammars@.len() == h.table()[ssrc].slots@.len()
            },
    {
        let (state, handler) = self.take_parts();
        match handler {
            Some(mut h) => {
                let r = h.add_listener(ssrc, user_id);
                *self = Session { state, handler: Some(h) };
                Some(r)
            },
            None => {
                *self = Session { state, handler: None };
                None
            },
        }
    }

    /// A speaker left the channel: its binding and slots go. Returns the ssrc
    /// whose slots were dropped.
    pub fn on_speaker_disconnect(&mut self, user_id: u64) -> (r: Option<u32>)
        ensures
            final(self).current() == old(self).current(),
            old(self).registry() is None ==> r is None && final(self).registry() is None,
            old(self).registry() is Some ==> {
                let h0 = old(self).registry()->0;
                let h = final(self).registry()->0;
                &&& h.bindings() == h0.bindings().remove(user_id)
                &&& r == (if h0.bindings().contains_key(user_id) {
                    Some(h0.bindings()[user_id])
                } else {
                    None
                })
                &&& h.table() == (match r {
                    Some(s) => h0.table().remove(s),
                    None => h0.table(),
                })
            },
    {
        let (state, handler) = self.take_parts();
        match handler {
            Some(mut h) => {
                let r = h.remove_listener(user_id);
                *self = Session { state, handler: Some(h) };
                r
            },
            None => {
                *self = Session { state, handler: None };
                None
            },
        }
    }

    /// A stereo frame from `ssrc`: returns the mono frame to feed to the
    /// engines of its slots, which are now active, or `None` when the session
    /// has no slots for `ssrc`.
    pub fn on_audio(&mut self, ssrc: u32, audio: &[i16]) -> (r: Option<Vec<i16>>)
        ensures
            final(self).current() == old(self).current(),
            r is Some <==> (old(self).registry() is Some && old(self).registry()->0.table().contains_key(
                ssrc,
            )),
            old(self).registry() is None ==> final(self).registry() is None,
            old(self).registry() is Some && r is None ==> final(self).registry()->0.table() == old(
                self,
            ).registry()->0.table() && final(self).registry()->0.bindings() == old(
                self,
            ).registry()->0.bindings(),
            r is Some ==> r->0@.len() == audio@.len() / 2 && forall|i: int|
                0 <= i < r->0@.len() ==> r->0@[i] as int == mono_sample(audio@, i),
    {
        let (state, handler) = self.take_parts();
        match handler {
            Some(mut h) => {
                let r = h.listen(ssrc, audio);
                *self = Session { state, handler: Some(h) };
                r
            },
            None => {
                *self = Session { state, handler: None };
                None
            },
        }
    }

    /// The active flag of each slot of `ssrc`; empty when there are none.
    pub fn active_slots(&mut self, ssrc: u32) -> (r: Vec<bool>)
        ensures
            final(self).current() == old(self).current(),
            old(self).registry() is None ==> r@.len() == 0 && final(self).registry() is None,
            old(self).registry() is Some ==> {
                let h0 = old(self).registry()->0;
                let h = final(self).registry()->0;
                &&& h.bindings() == h0.bindings()
                &&& h.table() == h0.table()
                &&& (h0.table().contains_key(ssrc) ==> r@.len() == h0.table()[ssrc].slots@.len()
                    && forall|i: int|
                    0 <= i < r@.len() ==> r@[i] == (#[trigger] h0.table()[ssrc].slots@[i]).active)
                &&& (!h0.table().contains_key(ssrc) ==> r@.len() == 0)
            },
    {
        let (state, handler) = self.take_parts();
        match handler {
            Some(mut h) => {
                let r = h.active_slots(ssrc);
                *self = Session { state, handler: Some(h) };
                r
            },
            None => {
                *self = Session { state, handler: None };
                Vec::new()
            },
        }
    }

    /// `ssrc` fell silent: finalises its slots with the engine results given
    /// by slot position and returns the matched triggers, in slot order.
    pub fn on_silence(&mut self, ssrc: u32, results: &Vec<Option<EngineResult>>) -> (r: Vec<(String, ModelLanguage)>)
        ensures
            final(self).current() == old(self).current(),
            old(self).registry() is None ==> r@.len() == 0 && final(self).registry() is None,
            old(self).registry() is Some ==> {
                let h0 = old(self).registry()->0;
                let h = final(self).registry()->0;
                &&& h.bindings() == h0.bindings()
                &&& (h0.table().contains_key(ssrc) ==> {
                    let before: SpeakerSlots = h0.table()[ssrc];
                    &&& matches_view(r@) == outcomes(before.slots@, results@, before.slots@.len() as int)
                    &&& all_inactive(h.table()[ssrc].slots@)
                })
                &&& (!h0.table().contains_key(ssrc) ==> r@.len() == 0 && h.table() == h0.table())
            },
    {
        let (state, handler) = self.take_parts();
        match handler {
            Some(mut h) => {
                let r = h.finalise(ssrc, results);
                *self = Session { state, handler: Some(h) };
                r
            },
            None => {
                *self = Session { state, handler: None };
                Vec::new()
            },
        }
    }
}


/// A session holds a speaker registry only while connected.
pub proof fn lemma_registry_only_when_connected(s: &Session)
    requires
        s.wf(),
    ensures
        !(s.current() is Connected) ==> s.registry() is None,
{
}

/// A join request for the channel the session is connected to is answered
/// with `AlreadyConnected`, which asks for no transport call and leaves the
/// session as it was.
pub proof fn lemma_join_same_channel(state: SessionState, channel: u64)
    requires
        state == (SessionState::Connected { channel }),
    ensures
        join_decision(state, Some(channel)) == JoinDecision::AlreadyConnected,
{
}

} // verus!
