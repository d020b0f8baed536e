use budget_chat::messages;
use budget_chat::registry::{JoinOutcome, Registry};
use budget_chat::session::{self, Action, ChatEvent, SessionState};
use budget_chat::transport;

fn join_name(reg: &mut Registry, name: &str) -> (SessionState, Vec<Action>) {
    session::join(reg, String::from(name))
}

fn active_name(state: &SessionState) -> String {
    match state {
        SessionState::Active { name } => name.clone(),
        _ => panic!("expected an admitted session"),
    }
}

fn written(action: &Action) -> String {
    match action {
        Action::WriteLine(s) => s.clone(),
        _ => panic!("expected a line write"),
    }
}

fn published(action: &Action) -> ChatEvent {
    match action {
        Action::Publish(ev) => ev.clone(),
        _ => panic!("expected a publish"),
    }
}

#[test]
fn scenario_two_clients() {
    let mut reg = Registry::new();
    assert_eq!(session::greeting(), "Name?");

    let (st1, acts1) = join_name(&mut reg, "bob");
    assert_eq!(acts1.len(), 2);
    assert_eq!(written(&acts1[0]), "* The room contains: ");
    let ev1 = published(&acts1[1]);
    assert_eq!(ev1.origin, "");
    assert_eq!(ev1.excluded, "bob");
    assert_eq!(ev1.content, "* bob has entered the room");
    let bob = active_name(&st1);
    // bob's own subscription, active since before admission, drops his notice
    assert_eq!(session::deliver(&bob, &ev1), None);

    assert_eq!(session::greeting(), "Name?");
    let (st2, acts2) = join_name(&mut reg, "alice");
    assert_eq!(acts2.len(), 2);
    assert_eq!(written(&acts2[0]), "* The room contains: bob");
    let ev2 = published(&acts2[1]);
    assert_eq!(session::deliver(&bob, &ev2), Some(String::from("* alice has entered the room")));
    let alice = active_name(&st2);
    assert_eq!(session::deliver(&alice, &ev2), None);

    let chat_ev = session::chat(&bob, &String::from("hi")).expect("a chat line becomes an event");
    assert_eq!(chat_ev.origin, "bob");
    assert_eq!(chat_ev.content, "[bob] hi");
    assert_eq!(session::deliver(&alice, &chat_ev), Some(String::from("[bob] hi")));
    assert_eq!(session::deliver(&bob, &chat_ev), None);

    let leave_ev = session::disconnect(&mut reg, st2).expect("an admitted session leaves a notice");
    assert_eq!(leave_ev.origin, "");
    assert_eq!(leave_ev.excluded, "");
    assert_eq!(leave_ev.content, "* alice has left the room");
    assert_eq!(session::deliver(&bob, &leave_ev), Some(String::from("* alice has left the room")));
}

#[test]
fn scenario_empty_name() {
    let mut reg = Registry::new();
    assert_eq!(session::greeting(), "Name?");
    let (st, acts) = join_name(&mut reg, "");
    assert!(matches!(st, SessionState::Closed));
    assert_eq!(acts.len(), 1);
    assert_eq!(written(&acts[0]), "Name  is invalid");
    assert!(session::disconnect(&mut reg, st).is_none());

    let (_, acts) = join_name(&mut reg, "bob");
    assert_eq!(written(&acts[0]), "* The room contains: ");
}

#[test]
fn invalid_names_rejected() {
    let mut reg = Registry::new();
    for candidate in ["a b", "bob!", "né-e", "\t"] {
        let (st, acts) = join_name(&mut reg, candidate);
        assert!(matches!(st, SessionState::Closed));
        assert_eq!(acts.len(), 1);
        assert_eq!(written(&acts[0]), format!("Name {} is invalid", candidate));
    }
}

#[test]
fn taken_name_rejected_without_effects() {
    let mut reg = Registry::new();
    let (st1, _) = join_name(&mut reg, "bob");
    let (st2, acts) = join_name(&mut reg, "bob");
    assert!(matches!(st2, SessionState::Closed));
    assert_eq!(acts.len(), 1);
    assert_eq!(written(&acts[0]), "Name is taken");
    assert!(session::disconnect(&mut reg, st2).is_none());

    let (st3, acts) = join_name(&mut reg, "carol");
    assert_eq!(written(&acts[0]), "* The room contains: bob");
    assert!(session::disconnect(&mut reg, st3).is_some());
    assert!(session::disconnect(&mut reg, st1).is_some());
}

#[test]
fn leave_notice_exactly_once() {
    let mut reg = Registry::new();
    let (st, _) = join_name(&mut reg, "bob");
    let name = active_name(&st);
    let first = session::disconnect(&mut reg, st);
    assert!(first.is_some());
    let again = session::disconnect(&mut reg, SessionState::Active { name });
    assert!(again.is_none());
}

#[test]
fn empty_chat_lines_ignored() {
    let bob = String::from("bob");
    assert!(session::chat(&bob, &String::from("")).is_none());
    let ev = session::chat(&bob, &String::from("x")).expect("non-empty line");
    assert_eq!(ev.content, "[bob] x");
}

#[test]
fn registry_try_join_outcomes() {
    let mut reg = Registry::new();
    match reg.try_join(&String::from("bob")) {
        JoinOutcome::Accepted { occupants } => assert!(occupants.is_empty()),
        _ => panic!("fresh name must be accepted"),
    }
    match reg.try_join(&String::from("alice")) {
        JoinOutcome::Accepted { occupants } => assert_eq!(occupants, vec![String::from("bob")]),
        _ => panic!("fresh name must be accepted"),
    }
    assert!(matches!(reg.try_join(&String::from("bob")), JoinOutcome::Taken));
    assert!(matches!(reg.try_join(&String::from("b b")), JoinOutcome::Invalid));
    assert!(reg.leave(&String::from("bob")));
    assert!(!reg.leave(&String::from("bob")));
    match reg.try_join(&String::from("bob")) {
        JoinOutcome::Accepted { occupants } => assert_eq!(occupants, vec![String::from("alice")]),
        _ => panic!("a departed name may join again"),
    }
}

#[test]
fn message_lines_exact() {
    assert_eq!(messages::prompt_line(), "Name?");
    assert_eq!(messages::invalid_line("x!"), "Name x! is invalid");
    assert_eq!(messages::taken_line(), "Name is taken");
    assert_eq!(messages::entered_line("bob"), "* bob has entered the room");
    assert_eq!(messages::left_line("bob"), "* bob has left the room");
    assert_eq!(messages::chat_line("bob", "hi there"), "[bob] hi there");
    let names = vec![String::from("a"), String::from("b"), String::from("c")];
    assert_eq!(messages::joined_line(&names), "a, b, c");
    assert_eq!(messages::welcome_line(&names), "* The room contains: a, b, c");
    assert_eq!(messages::welcome_line(&Vec::new()), "* The room contains: ");
}

#[test]
fn line_assembly_across_partial_reads() {
    let mut assembler = transport::LineAssembler::new();
    assembler.feed(b"he");
    assert_eq!(assembler.next_line(), None);
    assembler.feed(b"llo");
    assert_eq!(assembler.next_line(), None);
    assembler.feed(b" world\n");
    let taken = assembler.next_line().expect("the newline completes the line");
    assert_eq!(transport::decode_line(&taken), Some(String::from("hello world")));
    assert_eq!(assembler.next_line(), None);
}

#[test]
fn line_assembly_splits_coalesced_lines() {
    let mut assembler = transport::LineAssembler::new();
    assembler.feed(b"a\nb\nc");
    assert_eq!(assembler.next_line(), Some(b"a".to_vec()));
    assert_eq!(assembler.next_line(), Some(b"b".to_vec()));
    assert_eq!(assembler.next_line(), None);
    assembler.feed(b"\n");
    assert_eq!(assembler.next_line(), Some(b"c".to_vec()));
}

#[test]
fn line_trailing_whitespace_trimmed() {
    let mut assembler = transport::LineAssembler::new();
    assembler.feed(b"hi \t\r\n");
    let taken = assembler.next_line().expect("the newline completes the line");
    assert_eq!(transport::decode_line(&taken), Some(String::from("hi")));
}

#[test]
fn line_decode_rejects_malformed_bytes() {
    let gathered: Vec<u8> = vec![0xff, 0xfe];
    assert_eq!(transport::decode_line(&gathered), None);
}

#[test]
fn line_encode_appends_newline() {
    assert_eq!(transport::encode_line("abc"), b"abc\n".to_vec());
    assert_eq!(transport::encode_line(""), b"\n".to_vec());
}
