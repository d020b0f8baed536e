//! The per-connection session: the admission handshake and the decisions of
//! the two concurrent loops, as pure transitions from state and event to next
//! state and actions.
//!
//! The surrounding runtime performs each [`Action`] in order: it writes lines
//! to this session's client and publishes events to the process-wide bus.

use vstd::prelude::*;

verus! {

use crate::messages::{
    chat_line,
    chat_text,
    entered_line,
    entered_text,
    invalid_line,
    invalid_text,
    left_line,
    left_text,
    prompt_line,
    prompt_text,
    taken_line,
    taken_text,
    welcome_line,
    welcome_text,
};
use crate::registry::{valid_name, JoinOutcome, Registry};

/// One event on the bus.  An empty `origin` marks a system notice; a
/// non-empty one names the sender of a chat line, so each session can drop
/// the echo of its own messages at its own delivery point.  `excluded`
/// additionally names the one session a system notice must not reach — the
/// newcomer its own join notice announces, whose subscription is already
/// active before admission — and is empty when the event is owed to every
/// other session.
#[derive(Clone)]
pub struct ChatEvent {
    pub origin: String,
    pub content: String,
    pub excluded: String,
}

/// What the runtime must do on this session's behalf, in order.
pub enum Action {
    WriteLine(String),
    Publish(ChatEvent),
}

/// Where a session stands: awaiting the candidate name, admitted under a
/// name, or torn down.
pub enum SessionState {
    Naming,
    Active { name: String },
    Closed,
}

/// What a subscriber delivers to its client for an event, given the
/// subscriber's own name: everything but its own echo — an event it sent,
/// or one that names it as excluded.
pub open spec fn delivery(
    origin: Seq<char>,
    excluded: Seq<char>,
    content: Seq<char>,
    own: Seq<char>,
) -> Option<Seq<char>> {
    if origin == own || excluded == own {
        None
    } else {
        Some(content)
    }
}

/// The prompt every fresh connection receives.
pub fn greeting() -> (r: String)
    ensures
        r@ == prompt_text(),
{
    prompt_line()
}

/// The admission step: tries the candidate name against the registry and
/// decides the next state and the visible effects.  A rejected candidate
/// gets exactly one rejection line and nothing is published; an accepted one
/// gets the welcome snapshot and a join notice on the bus.  The notice is a
/// system one — empty origin — that names the newcomer as excluded, so
/// every other session delivers it and the newcomer's own subscription —
/// active since before admission — drops it.
pub fn join(reg: &mut Registry, name: String) -> (r: (SessionState, Vec<Action>))
    requires
        old(reg).wf(),
    ensures
        final(reg).wf(),
        !valid_name(name@) ==> {
            &&& r.0 is Closed
            &&& final(reg)@ == old(reg)@
            &&& r.1@.len() == 1
            &&& (r.1@[0] matches Action::WriteLine(s) && s@ == invalid_text(name@))
        },
        valid_name(name@) && old(reg)@.contains(name@) ==> {
            &&& r.0 is Closed
            &&& final(reg)@ == old(reg)@
            &&& r.1@.len() == 1
            &&& (r.1@[0] matches Action::WriteLine(s) && s@ == taken_text())
        },
        valid_name(name@) && !old(reg)@.contains(name@) ==> {
            &&& (r.0 matches SessionState::Active { name: n } && n@ == name@)
            &&& final(reg)@ == old(reg)@.push(name@)
            &&& r.1@.len() == 2
            &&& (r.1@[0] matches Action::WriteLine(s) && s@ == welcome_text(old(reg)@))
            &&& (r.1@[1] matches Action::Publish(ev) && ev.origin@.len() == 0 && ev.excluded@
                == name@ && ev.content@ == entered_text(name@))
        },
    {
    match reg.try_join(&name) {
        JoinOutcome::Invalid => {
            let mut acts: Vec<Action> = Vec::new();
            acts.push(Action::WriteLine(invalid_line(name.as_str())));
            (SessionState::Closed, acts)
        },
        JoinOutcome::Taken => {
            let mut acts: Vec<Action> = Vec::new();
            acts.push(Action::WriteLine(taken_line()));
            (SessionState::Closed, acts)
        },
        JoinOutcome::Accepted { occupants } => {
            let mut acts: Vec<Action> = Vec::new();
            acts.push(Action::WriteLine(welcome_line(&occupants)));
            let notice = ChatEvent {
                origin: String::new(),
                content: entered_line(name.as_str()),
                excluded: name.clone(),
            };
            acts.push(Action::Publish(notice));
            (SessionState::Active { name }, acts)
        },
    }
}

/// The read-loop decision: a non-empty line from the admitted client named
/// `name` becomes one bus event carrying `[name] line`; an empty line
/// produces nothing at all.
pub fn chat(name: &String, line: &String) -> (r: Option<ChatEvent>)
    ensures
        line@.len() == 0 ==> r is None,
        line@.len() > 0 ==> (r matches Some(ev) && ev.origin@ == name@ && ev.excluded@.len() == 0
            && ev.content@ == chat_text(name@, line@)),
{
    if line.as_str().is_empty() {
        None
    } else {
        Some(
            ChatEvent {
                origin: name.clone(),
                content: chat_line(name.as_str(), line.as_str()),
                excluded: String::new(),
            },
        )
    }
}

/// The write-loop decision: deliver every event except the session's own
/// echo, exactly as [`delivery`] states.
pub fn deliver(own: &String, event: &ChatEvent) -> (r: Option<String>)
    ensures
        match r {
            Some(s) => delivery(event.origin@, event.excluded@, event.content@, own@) == Some(s@),
            None => delivery(event.origin@, event.excluded@, event.content@, own@) is None,
        },
{
    if event.origin == *own || event.excluded == *own {
        None
    } else {
        Some(event.content.clone())
    }
}

/// Teardown once either loop has ended: an admitted session leaves the
/// registry and announces it once; a session that never reached admission
/// leaves no trace.
pub fn disconnect(reg: &mut Registry, state: SessionState) -> (r: Option<ChatEvent>)
    requires
        old(reg).wf(),
    ensures
        final(reg).wf(),
        match state {
            SessionState::Active { name } => {
                &&& !final(reg)@.contains(name@)
                &&& (forall|m: Seq<char>| m != name@ ==> final(reg)@.contains(m) == old(
                    reg,
                )@.contains(m))
                &&& old(reg)@.contains(name@) ==> {
                    &&& (r matches Some(ev) && ev.origin@.len() == 0 && ev.excluded@.len() == 0
                        && ev.content@ == left_text(name@))
                    &&& final(reg)@.len() == old(reg)@.len() - 1
                }
                &&& !old(reg)@.contains(name@) ==> r is None && final(reg)@ == old(reg)@
            },
            _ => r is None && final(reg)@ == old(reg)@,
        },
{
    match state {
        SessionState::Active { name } => {
            let removed = reg.leave(&name);
            if removed {
                proof {
                    let i = choose|i: int|
                        0 <= i < old(reg)@.len() && old(reg)@[i] == name@ && final(reg)@ == old(
                            reg,
                        )@.remove(i);
                    assert(final(reg)@.len() == old(reg)@.len() - 1);
                }
                Some(
                    ChatEvent {
                        origin: String::new(),
                        content: left_line(name.as_str()),
                        excluded: String::new(),
                    },
                )
            } else {
                None
            }
        },
        _ => None,
    }
}

/// Law: when A is present and B is admitted, B's welcome snapshot contains A
/// and not B; the join notice for B reaches A's client verbatim and never
/// B's own.
pub proof fn lemma_join_then_join(occupants: Seq<Seq<char>>, a: Seq<char>, b: Seq<char>)
    requires
        valid_name(a),
        valid_name(b),
        a != b,
        !occupants.contains(a),
        !occupants.contains(b),
    ensures
        !occupants.push(a).contains(b),
        occupants.push(a).contains(a),
        delivery(Seq::<char>::empty(), b, entered_text(b), a) == Some(entered_text(b)),
        delivery(Seq::<char>::empty(), b, entered_text(b), b) is None,
{
    let snap = occupants.push(a);
    assert(snap[snap.len() - 1] == a);
    assert forall|k: int| 0 <= k < snap.len() implies snap[k] != b by {
        if k < snap.len() - 1 {
            assert(snap[k] == occupants[k]);
        }
    }
    assert(a.len() > 0);
}

/// Law: the leave notice — a system event that excludes nobody — is
/// delivered to every remaining admitted session, since an admitted name is
/// never empty.
pub proof fn lemma_leave_notice_delivery(name: Seq<char>, own: Seq<char>)
    requires
        valid_name(own),
    ensures
        delivery(Seq::<char>::empty(), Seq::<char>::empty(), left_text(name), own) == Some(
            left_text(name),
        ),
{
    assert(own.len() > 0);
}

/// Law: a chat line from A is delivered to every admitted session whose name
/// differs from A, and never back to A itself.
pub proof fn lemma_self_exclusion(a: Seq<char>, line: Seq<char>, own: Seq<char>)
    requires
        valid_name(own),
    ensures
        delivery(a, Seq::<char>::empty(), chat_text(a, line), a) is None,
        own != a ==> delivery(a, Seq::<char>::empty(), chat_text(a, line), own) == Some(
            chat_text(a, line),
        ),
{
    assert(own.len() > 0);
}

} // verus!
