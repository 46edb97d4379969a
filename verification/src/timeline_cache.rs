use vstd::prelude::*;

use crate::assoc::StrMap;
use crate::model::{
    deltas_view, parts_view, records_view, Message, MessageRecord, MessageRecordView, Part,
    PendingDelta,
};
use crate::timeline::{
    apply_delta, apply_message, apply_part, clone_records_tail, find_message, has_message_id,
    has_part, last_page, message_index, remove_message_from, remove_part_from, trim_to_page,
    with_delta, with_message, with_part, without_message, without_part, MESSAGE_PAGE,
};
use crate::seqs::lemma_first_index;

verus! {

/// The latest page of messages of sessions that are not on screen, kept up to
/// date from the event stream so that selecting them again is immediate.
pub struct TimelineCache {
    entries: StrMap<Vec<MessageRecord>>,
}

impl View for TimelineCache {
    type V = Map<Seq<char>, Seq<MessageRecordView>>;

    closed spec fn view(&self) -> Map<Seq<char>, Seq<MessageRecordView>> {
        self.entries@.map_values(|v: Vec<MessageRecord>| records_view(v@))
    }
}

/// The cached messages after an update of message `info`: a new message is
/// appended and the list cut back to its latest page.
pub open spec fn cached_with_message(
    messages: Seq<MessageRecordView>,
    info: crate::model::MessageView,
    pending: Seq<crate::model::PartView>,
) -> Seq<MessageRecordView> {
    if message_index(messages, info.id) < messages.len() {
        with_message(messages, info, pending)
    } else {
        last_page(with_message(messages, info, pending))
    }
}

impl TimelineCache {
    pub fn new() -> (r: Self)
        ensures
            r@ == Map::<Seq<char>, Seq<MessageRecordView>>::empty(),
    {
        let r = TimelineCache { entries: StrMap::new() };
        assert(r@ =~= Map::<Seq<char>, Seq<MessageRecordView>>::empty());
        r
    }

    /// The cached messages of a session.
    pub fn get(&self, session_id: &str) -> (r: Option<&Vec<MessageRecord>>)
        ensures
            match r {
                Some(v) => self@.contains_key(session_id@) && self@[session_id@] == records_view(v@),
                None => !self@.contains_key(session_id@),
            },
    {
        self.entries.get(session_id)
    }

    pub fn contains(&self, session_id: &str) -> (r: bool)
        ensures
            r == self@.contains_key(session_id@),
    {
        self.entries.contains_key(session_id)
    }

    /// Caches the latest page of a session's messages.
    pub fn replace(&mut self, session_id: &str, messages: &[MessageRecord])
        ensures
            final(self)@ == old(self)@.insert(session_id@, last_page(records_view(messages@))),
    {
        let start = if messages.len() > MESSAGE_PAGE {
            messages.len() - MESSAGE_PAGE
        } else {
            0
        };
        let kept = clone_records_tail(messages, start);
        assert(records_view(kept@) =~= last_page(records_view(messages@)));
        self.entries.insert(String::from_str(session_id), kept);
        assert(self@ =~= old(self)@.insert(session_id@, last_page(records_view(messages@))));
    }

    /// Adds a message that was just sent, before the server confirms it.
    pub fn push_optimistic(&mut self, session_id: &str, message: MessageRecord)
        ensures
            final(self)@ == old(self)@.insert(
                session_id@,
                last_page(
                    (if old(self)@.contains_key(session_id@) {
                        old(self)@[session_id@]
                    } else {
                        Seq::empty()
                    }).push(message@),
                ),
            ),
    {
        let ghost initial = if old(self)@.contains_key(session_id@) {
            old(self)@[session_id@]
        } else {
            Seq::empty()
        };
        let mut messages = match self.entries.remove(session_id) {
            Some(v) => v,
            None => Vec::new(),
        };
        assert(records_view(messages@) =~= initial);
        let ghost before = records_view(messages@);
        messages.push(message);
        assert(records_view(messages@) =~= before.push(messages@.last()@));
        trim_to_page(&mut messages);
        self.entries.insert(String::from_str(session_id), messages);
        proof {
            let expected = old(self)@.insert(
                session_id@,
                last_page(
                    (if old(self)@.contains_key(session_id@) {
                        old(self)@[session_id@]
                    } else {
                        Seq::empty()
                    }).push(message@),
                ),
            );
            assert(self@ =~= expected);
        }
    }

    /// Folds an updated message into its session's cached page; returns
    /// whether the session is cached.
    pub fn update_message(&mut self, info: &Message, pending: &[Part]) -> (r: bool)
        ensures
            r == old(self)@.contains_key(info@.session_id),
            final(self)@ == (if r {
                old(self)@.insert(
                    info@.session_id,
                    cached_with_message(
                        old(self)@[info@.session_id],
                        info@,
                        parts_view(pending@),
                    ),
                )
            } else {
                old(self)@
            }),
    {
        let Some(mut messages) = self.entries.remove(info.session_id.as_str()) else {
            return false;
        };
        let i = find_message(&messages, info.id.as_str());
        let n = messages.len();
        apply_message(&mut messages, info, pending);
        if i >= n {
            trim_to_page(&mut messages);
        }
        self.entries.insert(info.session_id.clone(), messages);
        assert(self@ =~= old(self)@.insert(
            info@.session_id,
            cached_with_message(old(self)@[info@.session_id], info@, parts_view(pending@)),
        ));
        true
    }

    pub fn remove_message(&mut self, session_id: &str, message_id: &str)
        ensures
            final(self)@ == (if old(self)@.contains_key(session_id@) {
                old(self)@.insert(session_id@, without_message(old(self)@[session_id@], message_id@))
            } else {
                old(self)@
            }),
    {
        if let Some(mut messages) = self.entries.remove(session_id) {
            remove_message_from(&mut messages, message_id);
            self.entries.insert(String::from_str(session_id), messages);
            assert(self@ =~= old(self)@.insert(
                session_id@,
                without_message(old(self)@[session_id@], message_id@),
            ));
        } else {
            assert(self@ =~= old(self)@);
        }
    }

    /// Folds an updated part into the cached page of its session; returns
    /// whether the session is cached and whether the part's message is.
    pub fn update_part(&mut self, part: &Part, delta: Option<&str>, pending: &[PendingDelta]) -> (r: (
        bool,
        bool,
    ))
        ensures
            r.0 == old(self)@.contains_key(part@.session_id),
            r.1 == (r.0 && message_index(old(self)@[part@.session_id], part@.message_id) < old(
                self,
            )@[part@.session_id].len()),
            final(self)@ == (if r.0 {
                old(self)@.insert(
                    part@.session_id,
                    with_part(
                        old(self)@[part@.session_id],
                        part@,
                        match delta {
                            Some(d) => Some(d@),
                            None => None,
                        },
                        deltas_view(pending@),
                    ),
                )
            } else {
                old(self)@
            }),
    {
        let Some(mut messages) = self.entries.remove(part.session_id.as_str()) else {
            return (false, false);
        };
        let found = apply_part(&mut messages, part, delta, pending);
        self.entries.insert(part.session_id.clone(), messages);
        proof {
            let dv = match delta {
                Some(d) => Some(d@),
                None => None,
            };
            assert(self@ =~= old(self)@.insert(
                part@.session_id,
                with_part(old(self)@[part@.session_id], part@, dv, deltas_view(pending@)),
            ));
        }
        (true, found)
    }

    /// Appends a streamed delta to a cached part; returns whether the session
    /// is cached and whether the part is.
    pub fn update_delta(
        &mut self,
        session_id: &str,
        message_id: &str,
        part_id: &str,
        field: &str,
        delta: &str,
    ) -> (r: (bool, bool))
        ensures
            r.0 == old(self)@.contains_key(session_id@),
            r.1 == (r.0 && has_part(old(self)@[session_id@], message_id@, part_id@)),
            final(self)@ == (if r.0 {
                old(self)@.insert(
                    session_id@,
                    with_delta(old(self)@[session_id@], message_id@, part_id@, field@, delta@),
                )
            } else {
                old(self)@
            }),
    {
        let Some(mut messages) = self.entries.remove(session_id) else {
            return (false, false);
        };
        let found = apply_delta(&mut messages, message_id, part_id, field, delta);
        self.entries.insert(String::from_str(session_id), messages);
        assert(self@ =~= old(self)@.insert(
            session_id@,
            with_delta(old(self)@[session_id@], message_id@, part_id@, field@, delta@),
        ));
        (true, found)
    }

    pub fn remove_part(&mut self, session_id: &str, message_id: &str, part_id: &str)
        ensures
            final(self)@ == (if old(self)@.contains_key(session_id@) {
                old(self)@.insert(
                    session_id@,
                    without_part(old(self)@[session_id@], message_id@, part_id@),
                )
            } else {
                old(self)@
            }),
    {
        if let Some(mut messages) = self.entries.remove(session_id) {
            remove_part_from(&mut messages, message_id, part_id);
            self.entries.insert(String::from_str(session_id), messages);
            assert(self@ =~= old(self)@.insert(
                session_id@,
                without_part(old(self)@[session_id@], message_id@, part_id@),
            ));
        } else {
            assert(self@ =~= old(self)@);
        }
    }

    pub fn remove_session(&mut self, session_id: &str)
        ensures
            final(self)@ == old(self)@.remove(session_id@),
    {
        let _ = self.entries.remove(session_id);
        assert(self@ =~= old(self)@.remove(session_id@));
    }
}

} // verus!
