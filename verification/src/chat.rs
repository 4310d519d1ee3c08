//! One visit to the chat of a stream, from entering it to leaving it.
use crate::api;
use crate::api::{ChatJoin, WatchQuery};
use crate::outside;
use crate::outside::Timestamp;
use crate::state;
use crate::state::AppState;
use crate::types;
use crate::types::ChatMessage;
use vstd::prelude::*;

verus! {

/// A visit of a user to the chat of a stream.
pub struct ChatVisit {
    key: String,
    username: String,
    waiting: Vec<ChatMessage>,
    present: bool,
}

/// A visit, by its texts.
pub struct VisitView {
    /// The stream whose chat it is.
    pub key: Seq<char>,
    /// The user who visits.
    pub username: Seq<char>,
    /// The earlier messages that are still to be sent, oldest first.
    pub waiting: Seq<types::ChatView>,
    /// Whether the user still counts as a viewer.
    pub present: bool,
}

impl View for ChatVisit {
    type V = VisitView;

    closed spec fn view(&self) -> VisitView {
        VisitView {
            key: self.key@,
            username: self.username@,
            waiting: state::chat_views(self.waiting@),
            present: self.present,
        }
    }
}

/// The answer to one who wants to enter a chat.
pub enum ChatEntry {
    /// No: the text that is sent before the socket is closed.
    Refused(String),
    /// There is no such stream.
    Offline,
    /// Yes.
    Entered(ChatVisit),
}

/// The answer to one who wants to enter a chat, by its texts.
pub enum EntryView {
    Refused(Seq<char>),
    Offline,
    Entered(VisitView),
}

impl View for ChatEntry {
    type V = EntryView;

    open spec fn view(&self) -> EntryView {
        match *self {
            ChatEntry::Refused(t) => EntryView::Refused(t@),
            ChatEntry::Offline => EntryView::Offline,
            ChatEntry::Entered(visit) => EntryView::Entered(visit@),
        }
    }
}

/// What one who wants to enter a chat is answered: who may join enters, and is first sent the
/// messages that the stream keeps.
pub open spec fn entry(v: state::AppView, token: Seq<char>, key: Seq<char>) -> EntryView {
    match api::chat_join(v, token, key) {
        api::ChatJoinView::Refused(t) => EntryView::Refused(t),
        api::ChatJoinView::Offline => EntryView::Offline,
        api::ChatJoinView::Joined { user, recent } => EntryView::Entered(
            VisitView { key, username: user.username, waiting: recent, present: true },
        ),
    }
}

/// Everything known after a visitor has left: a viewer fewer, where the visitor still counted.
pub open spec fn after_leaving(v: state::AppView, visit: VisitView) -> state::AppView {
    if visit.present {
        state::on_stream(v, visit.key, |s: state::StreamView| state::left(s))
    } else {
        v
    }
}

/// Everything known after a message.
pub open spec fn after_message(v: state::AppView, m: types::ChatView) -> state::AppView {
    state::on_stream(v, m.stream_key, |s: state::StreamView| state::after_chat(s, m))
}

/// One who enters a chat and leaves it, however often the leaving is noted, leaves everything as
/// it was.
pub proof fn law_visit_counts_once(v: state::AppView, token: Seq<char>, key: Seq<char>)
    requires
        entry(v, token, key) is Entered,
        v.streams[key].meta.viewer_count < usize::MAX,
    ensures
        ({
            let visit = entry(v, token, key)->Entered_0;
            let gone = VisitView { present: false, ..visit };
            let w = after_leaving(api::after_join(v, token, key), visit);
            w == v && after_leaving(w, gone) == w
        }),
{
    api::law_joining_and_leaving_a_chat(v, token, key);
}

impl ChatVisit {
    /// Answers one who wants to enter a chat.
    pub fn enter(state: &mut AppState, query: &WatchQuery, key: &str) -> (r: ChatEntry)
        requires
            old(state).wf(),
            state::holder(old(state)@, api::text_or_empty(query.token)) is Some
                && old(state)@.streams.contains_key(key@)
                ==> old(state)@.streams[key@].meta.viewer_count < usize::MAX,
        ensures
            final(state).wf(),
            r@ == entry(old(state)@, api::text_or_empty(query.token), key@),
            final(state)@ == api::after_join(
                old(state)@,
                api::text_or_empty(query.token),
                key@,
            ),
    {
        match state.join_chat(query, key) {
            ChatJoin::Refused(text) => ChatEntry::Refused(text),
            ChatJoin::Offline => ChatEntry::Offline,
            ChatJoin::Joined { user, recent } => ChatEntry::Entered(
                ChatVisit {
                    key: key.to_owned(),
                    username: user.username,
                    waiting: recent,
                    present: true,
                },
            ),
        }
    }

    /// The name of the user who visits.
    pub fn username(&self) -> (r: &str)
        ensures
            r@ == self@.username,
    {
        self.username.as_str()
    }

    /// The next of the earlier messages that are still to be sent.
    pub fn next_waiting(&mut self) -> (r: Option<ChatMessage>)
        ensures
            match r {
                Some(m) => old(self)@.waiting.len() > 0 && m@ == old(self)@.waiting[0]
                    && final(self)@ == (VisitView {
                    waiting: old(self)@.waiting.skip(1),
                    ..old(self)@
                }),
                None => old(self)@.waiting.len() == 0 && final(self)@ == old(self)@,
            },
    {
        if self.waiting.is_empty() {
            None
        } else {
            let m = self.waiting.remove(0);
            assert(self@.waiting =~= old(self)@.waiting.skip(1));
            Some(m)
        }
    }

    /// Takes in a message of the visitor under a given number and moment, and hands back what is
    /// to be sent to the chat, where there is such a stream.
    pub fn say_with(
        &self,
        state: &mut AppState,
        msg: ChatMessage,
        id: String,
        now: Timestamp,
    ) -> (r: Option<ChatMessage>)
        requires
            old(state).wf(),
        ensures
            final(state).wf(),
            final(state)@ == after_message(
                old(state)@,
                api::attributed(msg@, id@, self@.key, self@.username, now),
            ),
            match r {
                Some(m) => old(state)@.streams.contains_key(self@.key) && m@ == api::attributed(
                    msg@,
                    id@,
                    self@.key,
                    self@.username,
                    now,
                ),
                None => !old(state)@.streams.contains_key(self@.key),
            },
    {
        state.publish_chat(
            api::attribute(msg, id, self.key.as_str(), self.username.as_str(), now),
        )
    }

    /// Takes in a message of the visitor, and hands back what is to be sent to the chat, where
    /// there is such a stream.
    pub fn say(&self, state: &mut AppState, msg: ChatMessage) -> (r: Option<ChatMessage>)
        requires
            old(state).wf(),
        ensures
            final(state).wf(),
            exists|id: Seq<char>, now: Timestamp|
                {
                    let m = #[trigger] api::attributed(msg@, id, self@.key, self@.username, now);
                    &&& outside::chance_may_give(id) && outside::uuid_text(id)
                    &&& outside::clock_may_give(now.secs, now.nanos)
                    &&& final(state)@ == after_message(old(state)@, m)
                    &&& match r {
                        Some(sent) => old(state)@.streams.contains_key(self@.key) && sent@ == m,
                        None => !old(state)@.streams.contains_key(self@.key),
                    }
                },
    {
        let id: String = outside::random_uuid();
        let now: Timestamp = outside::utc_now();
        self.say_with(state, msg, id, now)
    }

    /// Notes that the visitor has left.
    pub fn leave(&mut self, state: &mut AppState)
        requires
            old(state).wf(),
        ensures
            final(state).wf(),
            final(state)@ == after_leaving(old(state)@, old(self)@),
            final(self)@ == (VisitView { present: false, ..old(self)@ }),
    {
        if self.present {
            self.present = false;
            state.unsubscribe_viewer(self.key.as_str());
        }
    }
}

} // verus!
