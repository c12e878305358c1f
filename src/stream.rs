//! The two ways a turn's output arrives: a stream of event records, and
//! snapshots of the whole conversation. Each step here decides what to send;
//! the caller reads the input and delivers the updates.
use vstd::prelude::*;
use crate::classify::{message_outcome, process_message, PathFacts};
use crate::conversation::{AmpConversation, AmpDiff, AmpMessage, DiffError, MessageModel, conversation_diff, messages_model};
use crate::decode::message_of;
use crate::inputs::{opt_str_field, opt_string_field, str_field, string_field, EditModel};
use crate::json::{member, JsonModel, JsonValue};
use crate::text::str_eq;
use crate::tracker::ToolCallTracker;
use crate::update::{SessionUpdate, UpdateModel, updates_model};

verus! {

/// A stream record that could not be read.
#[derive(Debug, Clone, Copy, PartialEq, Eq, Structural)]
pub struct MalformedEvent;

/// One record of the agent's event stream.
pub enum AmpStreamEvent {
    System { subtype: String },
    User { message: AmpMessage, parent_tool_use_id: Option<String>, session_id: String },
    /// An agent message, kept as JSON until it is handled.
    Assistant { message: JsonValue, parent_tool_use_id: Option<String>, session_id: String },
    /// The end of the turn.
    Result { subtype: String },
}

pub enum EventModel {
    System(Seq<char>),
    User { message: MessageModel, parent_tool_use_id: Option<Seq<char>>, session_id: Seq<char> },
    Assistant { raw_message: JsonModel, parent_tool_use_id: Option<Seq<char>>, session_id: Seq<char> },
    Result(Seq<char>),
}

impl View for AmpStreamEvent {
    type V = EventModel;

    open spec fn view(&self) -> EventModel {
        match self {
            AmpStreamEvent::System { subtype } => EventModel::System(subtype@),
            AmpStreamEvent::User { message, parent_tool_use_id, session_id } => EventModel::User {
                message: message@,
                parent_tool_use_id: parent_tool_use_id.deep_view(),
                session_id: session_id@,
            },
            AmpStreamEvent::Assistant { message, parent_tool_use_id, session_id } => {
                EventModel::Assistant {
                    raw_message: message@,
                    parent_tool_use_id: parent_tool_use_id.deep_view(),
                    session_id: session_id@,
                }
            },
            AmpStreamEvent::Result { subtype } => EventModel::Result(subtype@),
        }
    }
}

/// The event that a stream record describes; its `type` member names its
/// kind.
pub open spec fn event_of(v: JsonModel) -> Option<EventModel> {
    match str_field(v, "type"@) {
        Some(t) => if t == "system"@ {
            match str_field(v, "subtype"@) {
                Some(s) => Some(EventModel::System(s)),
                None => None,
            }
        } else if t == "user"@ {
            match (member(v, "message"@), opt_str_field(v, "parent_tool_use_id"@), str_field(
                v,
                "session_id"@,
            )) {
                (Some(m), Some(p), Some(sid)) => match message_of(m) {
                    Some(message) => Some(
                        EventModel::User { message, parent_tool_use_id: p, session_id: sid },
                    ),
                    None => None,
                },
                _ => None,
            }
        } else if t == "assistant"@ {
            match (member(v, "message"@), opt_str_field(v, "parent_tool_use_id"@), str_field(
                v,
                "session_id"@,
            )) {
                (Some(m), Some(p), Some(sid)) => Some(
                    EventModel::Assistant { raw_message: m, parent_tool_use_id: p, session_id: sid },
                ),
                _ => None,
            }
        } else if t == "result"@ {
            match str_field(v, "subtype"@) {
                Some(s) => Some(EventModel::Result(s)),
                None => None,
            }
        } else {
            None
        },
        None => None,
    }
}

impl AmpStreamEvent {
    /// Reads one stream record.
    pub fn from_json(v: &JsonValue) -> (r: Result<AmpStreamEvent, MalformedEvent>)
        ensures
            match r {
                Ok(e) => event_of(v@) == Some(e@),
                Err(_) => event_of(v@) is None,
            },
    {
        let t = match string_field(v, "type") {
            Some(t) => t,
            None => return Err(MalformedEvent),
        };
        if str_eq(t.as_str(), "system") {
            match string_field(v, "subtype") {
                Some(subtype) => Ok(AmpStreamEvent::System { subtype }),
                None => Err(MalformedEvent),
            }
        } else if str_eq(t.as_str(), "user") {
            match message_fields(v) {
                Some((message, parent_tool_use_id, session_id)) => match AmpMessage::from_json(
                    message,
                ) {
                    Some(message) => Ok(
                        AmpStreamEvent::User { message, parent_tool_use_id, session_id },
                    ),
                    None => Err(MalformedEvent),
                },
                None => Err(MalformedEvent),
            }
        } else if str_eq(t.as_str(), "assistant") {
            match message_fields(v) {
                Some((message, parent_tool_use_id, session_id)) => Ok(
                    AmpStreamEvent::Assistant {
                        message: message.duplicate(),
                        parent_tool_use_id,
                        session_id,
                    },
                ),
                None => Err(MalformedEvent),
            }
        } else if str_eq(t.as_str(), "result") {
            match string_field(v, "subtype") {
                Some(subtype) => Ok(AmpStreamEvent::Result { subtype }),
                None => Err(MalformedEvent),
            }
        } else {
            Err(MalformedEvent)
        }
    }
}

/// The message, parent call and session of a message record.
fn message_fields(v: &JsonValue) -> (r: Option<(&JsonValue, Option<String>, String)>)
    ensures
        match r {
            Some((m, p, sid)) => member(v@, "message"@) == Some(m@) && opt_str_field(
                v@,
                "parent_tool_use_id"@,
            ) == Some(p.deep_view()) && str_field(v@, "session_id"@) == Some(sid@),
            None => member(v@, "message"@) is None || opt_str_field(v@, "parent_tool_use_id"@) is None
                || str_field(v@, "session_id"@) is None,
        },
{
    let message = match v.get("message") {
        Some(m) => m,
        None => return None,
    };
    let parent_tool_use_id = match opt_string_field(v, "parent_tool_use_id") {
        Some(p) => p,
        None => return None,
    };
    let session_id = match string_field(v, "session_id") {
        Some(s) => s,
        None => return None,
    };
    Some((message, parent_tool_use_id, session_id))
}

/// What handling one event gives: the updates to send, the pending edits
/// after it, and whether the turn has ended. The text of a message from a
/// nested invocation (one with a parent tool call) is not shown; an agent
/// message that does not read as a message shows nothing.
pub open spec fn event_outcome(
    e: EventModel,
    pending: Map<Seq<char>, EditModel>,
    paths: Seq<PathFacts>,
) -> (Seq<UpdateModel>, Map<Seq<char>, EditModel>, bool) {
    match e {
        EventModel::System(_) => (Seq::empty(), pending, false),
        EventModel::User { message, parent_tool_use_id, .. } => {
            let o = message_outcome(
                message.content,
                message.role,
                parent_tool_use_id is Some,
                pending,
                paths,
            );
            (o.0, o.1, false)
        },
        EventModel::Assistant { raw_message, parent_tool_use_id, .. } => match message_of(raw_message) {
            Some(m) => {
                let o = message_outcome(
                    m.content,
                    m.role,
                    parent_tool_use_id is Some,
                    pending,
                    paths,
                );
                (o.0, o.1, false)
            },
            None => (Seq::empty(), pending, false),
        },
        EventModel::Result(_) => (Seq::empty(), pending, true),
    }
}

/// What to do after one stream record: send `updates`, and stop reading the
/// turn's stream where `finished`.
pub struct TurnStep {
    pub updates: Vec<SessionUpdate>,
    pub finished: bool,
}

/// Handles one event of the current turn.
pub fn handle_stream_event(event: &AmpStreamEvent, tracker: &mut ToolCallTracker) -> (r: TurnStep)
    requires
        old(tracker).wf(),
    ensures
        final(tracker).wf(),
        exists|paths: Seq<PathFacts>|
            (updates_model(r.updates@), final(tracker)@, r.finished) == event_outcome(
                event@,
                old(tracker)@,
                paths,
            ),
{
    let none: Vec<SessionUpdate> = Vec::new();
    assert(updates_model(none@) =~= Seq::<UpdateModel>::empty());
    match event {
        AmpStreamEvent::System { .. } => {
            assert(event_outcome(event@, old(tracker)@, Seq::empty()) == (
                updates_model(none@),
                tracker@,
                false,
            ));
            TurnStep { updates: none, finished: false }
        },
        AmpStreamEvent::Result { .. } => {
            assert(event_outcome(event@, old(tracker)@, Seq::empty()) == (
                updates_model(none@),
                tracker@,
                true,
            ));
            TurnStep { updates: none, finished: true }
        },
        AmpStreamEvent::User { message, parent_tool_use_id, .. } => {
            let updates = process_message(message, parent_tool_use_id.is_some(), tracker);
            proof {
                let paths = choose|paths: Seq<PathFacts>|
                    paths.len() == message.content.len() && (updates_model(updates@), tracker@)
                        == message_outcome(
                        message@.content,
                        message@.role,
                        parent_tool_use_id is Some,
                        old(tracker)@,
                        paths,
                    );
                assert(event_outcome(event@, old(tracker)@, paths) == (
                    updates_model(updates@),
                    tracker@,
                    false,
                ));
            }
            TurnStep { updates, finished: false }
        },
        AmpStreamEvent::Assistant { message, parent_tool_use_id, .. } => {
            match AmpMessage::from_json(message) {
                Some(m) => {
                    let updates = process_message(&m, parent_tool_use_id.is_some(), tracker);
                    proof {
                        let paths = choose|paths: Seq<PathFacts>|
                            paths.len() == m.content.len() && (updates_model(updates@), tracker@)
                                == message_outcome(
                                m@.content,
                                m@.role,
                                parent_tool_use_id is Some,
                                old(tracker)@,
                                paths,
                            );
                        assert(event_outcome(event@, old(tracker)@, paths) == (
                            updates_model(updates@),
                            tracker@,
                            false,
                        ));
                    }
                    TurnStep { updates, finished: false }
                },
                None => {
                    assert(event_outcome(event@, old(tracker)@, Seq::empty()) == (
                        updates_model(none@),
                        tracker@,
                        false,
                    ));
                    TurnStep { updates: none, finished: false }
                },
            }
        },
    }
}

/// Reads and handles one stream record; a record that does not read as an
/// event changes nothing and is reported, so that the caller can skip it.
pub fn handle_stream_record(v: &JsonValue, tracker: &mut ToolCallTracker) -> (r: Result<
    TurnStep,
    MalformedEvent,
>)
    requires
        old(tracker).wf(),
    ensures
        final(tracker).wf(),
        r is Err <==> event_of(v@) is None,
        r is Err ==> final(tracker)@ == old(tracker)@,
        r matches Ok(step) ==> exists|paths: Seq<PathFacts>|
            (updates_model(step.updates@), final(tracker)@, step.finished) == event_outcome(
                event_of(v@)->Some_0,
                old(tracker)@,
                paths,
            ),
{
    match AmpStreamEvent::from_json(v) {
        Ok(event) => {
            let step = handle_stream_event(&event, tracker);
            assert(event_of(v@)->Some_0 == event@);
            Ok(step)
        },
        Err(e) => Err(e),
    }
}

/// The updates for the messages of a conversation, in order, and the pending
/// edits after them; `paths` holds what the file system said for each unit.
pub open spec fn conversation_outcome(
    messages: Seq<MessageModel>,
    pending: Map<Seq<char>, EditModel>,
    paths: Seq<Seq<PathFacts>>,
) -> (Seq<UpdateModel>, Map<Seq<char>, EditModel>)
    decreases messages.len(),
{
    if messages.len() == 0 {
        (Seq::empty(), pending)
    } else {
        let before = conversation_outcome(messages.drop_last(), pending, paths.drop_last());
        let m = messages.last();
        let last = message_outcome(m.content, m.role, false, before.1, paths.last());
        (before.0 + last.0, last.1)
    }
}

/// The updates for every message of `conversation`, in order.
pub fn process_conversation(conversation: &AmpConversation, tracker: &mut ToolCallTracker) -> (r: Vec<
    SessionUpdate,
>)
    requires
        old(tracker).wf(),
    ensures
        final(tracker).wf(),
        exists|paths: Seq<Seq<PathFacts>>|
            (updates_model(r@), final(tracker)@) == conversation_outcome(
                conversation@,
                old(tracker)@,
                paths,
            ),
{
    let ghost msgs = conversation@;
    let ghost mut paths: Seq<Seq<PathFacts>> = Seq::empty();
    let mut out: Vec<SessionUpdate> = Vec::new();
    assert(updates_model(out@) =~= Seq::<UpdateModel>::empty());
    assert(msgs.take(0) =~= Seq::<MessageModel>::empty());
    let mut i: usize = 0;
    while i < conversation.messages.len()
        invariant
            i <= conversation.messages.len(),
            msgs == messages_model(conversation.messages@),
            tracker.wf(),
            (updates_model(out@), tracker@) == conversation_outcome(
                msgs.take(i as int),
                old(tracker)@,
                paths,
            ),
        decreases conversation.messages.len() - i,
    {
        let ghost before_out = updates_model(out@);
        let ghost before_pending = tracker@;
        let m = &conversation.messages[i];
        let mut updates = process_message(m, false, tracker);
        proof {
            let p = choose|p: Seq<PathFacts>|
                p.len() == m.content.len() && (updates_model(updates@), tracker@)
                    == message_outcome(m@.content, m@.role, false, before_pending, p);
            let old_paths = paths;
            paths = paths.push(p);
            assert(msgs.take(i + 1).drop_last() =~= msgs.take(i as int));
            assert(paths.drop_last() =~= old_paths);
            assert(updates_model(out@ + updates@) =~= before_out + updates_model(updates@));
        }
        out.append(&mut updates);
        i = i + 1;
    }
    assert(msgs.take(conversation.messages.len() as int) =~= msgs);
    out
}

/// Snapshot mode for one turn: the last snapshot seen and the turn's pending
/// edits.
pub struct SnapshotSession {
    pub previous: Option<AmpConversation>,
    pub tracker: ToolCallTracker,
}

pub open spec fn previous_model(p: Option<AmpConversation>) -> Option<Seq<MessageModel>> {
    match p {
        Some(c) => Some(c@),
        None => None,
    }
}

impl SnapshotSession {
    /// A session that has seen no snapshot yet.
    pub fn new() -> (r: SnapshotSession)
        ensures
            r.tracker.wf(),
            r.tracker@ == Map::<Seq<char>, EditModel>::empty(),
            r.previous is None,
    {
        SnapshotSession { previous: None, tracker: ToolCallTracker::new() }
    }

    /// Takes in the next snapshot and gives the updates for what it adds.
    /// The first snapshot is the starting point and shows nothing; a snapshot
    /// that cannot follow the last one fails the turn and changes nothing.
    pub fn observe(&mut self, current: AmpConversation) -> (r: Result<Vec<SessionUpdate>, DiffError>)
        requires
            old(self).tracker.wf(),
        ensures
            final(self).tracker.wf(),
            match previous_model(old(self).previous) {
                None => r matches Ok(u) && u@.len() == 0 && previous_model(final(self).previous)
                    == Some(current@) && final(self).tracker@ == old(self).tracker@,
                Some(p) => match conversation_diff(p, current@) {
                    Err(e) => r == Err::<Vec<SessionUpdate>, _>(e) && previous_model(
                        final(self).previous,
                    ) == Some(p) && final(self).tracker@ == old(self).tracker@,
                    Ok(None) => r matches Ok(u) && u@.len() == 0 && previous_model(
                        final(self).previous,
                    ) == Some(current@) && final(self).tracker@ == old(self).tracker@,
                    Ok(Some(d)) => r matches Ok(u) && previous_model(final(self).previous) == Some(
                        current@,
                    ) && exists|paths: Seq<Seq<PathFacts>>|
                        (updates_model(u@), final(self).tracker@) == conversation_outcome(
                            d,
                            old(self).tracker@,
                            paths,
                        ),
                },
            },
    {
        let updates = match &self.previous {
            None => Vec::new(),
            Some(prev) => {
                let ghost p = prev@;
                let d = prev.diff(&current);
                match d {
                    Err(e) => {
                        assert(conversation_diff(p, current@) == Err::<
                            Option<Seq<MessageModel>>,
                            DiffError,
                        >(e));
                        return Err(e);
                    },
                    Ok(None) => Vec::new(),
                    Ok(Some(d)) => {
                        assert(conversation_diff(p, current@) == Ok::<_, DiffError>(Some(d@)));
                        let u = process_conversation(&d, &mut self.tracker);
                        proof {
                            let paths = choose|paths: Seq<Seq<PathFacts>>|
                                (updates_model(u@), self.tracker@) == conversation_outcome(
                                    d@,
                                    old(self).tracker@,
                                    paths,
                                );
                            assert((updates_model(u@), self.tracker@) == conversation_outcome(
                                conversation_diff(p, current@)->Ok_0->Some_0,
                                old(self).tracker@,
                                paths,
                            ));
                        }
                        u
                    },
                }
            },
        };
        let ghost cur = current@;
        self.previous = Some(current);
        assert(previous_model(self.previous) == Some(cur));
        Ok(updates)
    }
}

} // verus!
