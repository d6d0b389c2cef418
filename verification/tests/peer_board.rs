use token_ledger::account::AccountId;
use token_ledger::ledger::LedgerError;
use token_ledger::peer::{
    create_peer_note, get_course_notes, get_note_tips, get_user_notes, get_user_tips_received,
    tip_peer_note, update_peer_note, NoteType, PeerBoard, PeerError, PeerNote, PeerTip,
};
use token_ledger::table::{decode, encode};

fn member(tag: u8) -> AccountId {
    AccountId::new(vec![tag, 0x10]).unwrap()
}

fn note_on(board: &mut PeerBoard, author: u8, now: u64, course: &str, content: &str) -> PeerNote {
    create_peer_note(
        board,
        &member(author),
        now,
        String::from(course),
        format!("member {author}"),
        String::from(content),
        NoteType::StudyNote,
    )
    .unwrap()
}

#[test]
fn new_note_is_stored_under_caller_and_time() {
    let mut board = PeerBoard::new();
    let note = create_peer_note(
        &mut board,
        &member(1),
        55,
        String::from("course-a"),
        String::from("Ann"),
        String::from("What is a trait?"),
        NoteType::Question,
    )
    .unwrap();
    assert_eq!(note.id, format!("{}_55", member(1).to_text()));
    assert_eq!(note.course_id, "course-a");
    assert!(note.author.same_as(&member(1)));
    assert_eq!(note.author_name, "Ann");
    assert_eq!(note.content, "What is a trait?");
    assert_eq!(note.note_type, NoteType::Question);
    assert_eq!((note.created_at, note.updated_at, note.tips_received), (55, 55, 0));
    let listed = get_course_notes(&board, &String::from("course-a"));
    assert_eq!(listed.len(), 1);
    assert_eq!(listed[0].id, note.id);
    assert_eq!(listed[0].content, "What is a trait?");
    assert_eq!(listed[0].note_type, NoteType::Question);
}

#[test]
fn oversized_note_is_refused() {
    let mut board = PeerBoard::new();
    let refused = create_peer_note(
        &mut board,
        &member(1),
        1,
        String::from("c"),
        String::from("a"),
        "x".repeat(2048),
        NoteType::Tip,
    );
    assert_eq!(refused.err(), Some(PeerError::RecordTooLarge));
    assert!(get_course_notes(&board, &String::from("c")).is_empty());
}

#[test]
fn author_rewrites_a_note() {
    let mut board = PeerBoard::new();
    let note = note_on(&mut board, 1, 10, "c", "first");
    let updated =
        update_peer_note(&mut board, &member(1), 20, note.id.clone(), String::from("second")).unwrap();
    assert_eq!(updated.content, "second");
    assert_eq!(updated.created_at, 10);
    assert_eq!(updated.updated_at, 20);
    assert_eq!(updated.id, note.id);
    let listed = get_user_notes(&board, &member(1), None);
    assert_eq!(listed.len(), 1);
    assert_eq!(listed[0].content, "second");
    assert_eq!(listed[0].updated_at, 20);
}

#[test]
fn only_the_author_rewrites_a_note() {
    let mut board = PeerBoard::new();
    let note = note_on(&mut board, 1, 10, "c", "first");
    let refused = update_peer_note(&mut board, &member(2), 20, note.id.clone(), String::from("x"));
    assert_eq!(refused.err(), Some(PeerError::NotAuthor));
    assert_eq!(get_user_notes(&board, &member(1), None)[0].content, "first");
}

#[test]
fn rewriting_a_missing_note_is_refused() {
    let mut board = PeerBoard::new();
    let refused = update_peer_note(&mut board, &member(1), 5, String::from("nope"), String::from("x"));
    assert_eq!(refused.err(), Some(PeerError::NoteNotFound));
}

#[test]
fn rewriting_a_note_beyond_the_limit_is_refused() {
    let mut board = PeerBoard::new();
    let note = note_on(&mut board, 1, 10, "c", "first");
    let refused = update_peer_note(&mut board, &member(1), 20, note.id.clone(), "y".repeat(3000));
    assert_eq!(refused.err(), Some(PeerError::RecordTooLarge));
    assert_eq!(get_user_notes(&board, &member(1), None)[0].content, "first");
}

#[test]
fn tip_is_recorded_and_counted_on_the_note() {
    let mut board = PeerBoard::new();
    let note = note_on(&mut board, 1, 10, "c", "helpful");
    let tip = tip_peer_note(&mut board, &member(2), 30, note.id.clone(), 7, String::from("thanks"))
        .unwrap();
    assert_eq!(tip.id, format!("{}_30", member(2).to_text()));
    assert_eq!(tip.note_id, note.id);
    assert!(tip.tipper.same_as(&member(2)));
    assert!(tip.recipient.same_as(&member(1)));
    assert_eq!((tip.amount, tip.timestamp), (7, 30));
    assert_eq!(tip.message, "thanks");
    tip_peer_note(&mut board, &member(3), 31, note.id.clone(), 5, String::new()).unwrap();
    let notes = get_user_notes(&board, &member(9), Some(member(1)));
    assert_eq!(notes[0].tips_received, 12);
    assert_eq!(notes[0].updated_at, 10);
    assert_eq!(get_note_tips(&board, &note.id).len(), 2);
    assert_eq!(get_user_tips_received(&board, &member(1), None).len(), 2);
    assert!(get_user_tips_received(&board, &member(2), None).is_empty());
}

#[test]
fn nobody_tips_their_own_note() {
    let mut board = PeerBoard::new();
    let note = note_on(&mut board, 1, 10, "c", "mine");
    let refused = tip_peer_note(&mut board, &member(1), 30, note.id.clone(), 7, String::new());
    assert_eq!(refused.err(), Some(PeerError::OwnNote));
    assert!(get_note_tips(&board, &note.id).is_empty());
    assert_eq!(get_user_notes(&board, &member(1), None)[0].tips_received, 0);
}

#[test]
fn tip_for_a_missing_note_is_refused() {
    let mut board = PeerBoard::new();
    let refused = tip_peer_note(&mut board, &member(1), 30, String::from("none"), 7, String::new());
    assert_eq!(refused.err(), Some(PeerError::NoteNotFound));
}

#[test]
fn tip_that_overflows_the_tally_is_refused() {
    let mut board = PeerBoard::new();
    let note = note_on(&mut board, 1, 10, "c", "rich");
    tip_peer_note(&mut board, &member(2), 30, note.id.clone(), u64::MAX, String::new()).unwrap();
    let refused = tip_peer_note(&mut board, &member(2), 31, note.id.clone(), 1, String::new());
    assert_eq!(refused.err(), Some(PeerError::TallyOverflow));
    assert_eq!(get_note_tips(&board, &note.id).len(), 1);
    assert_eq!(get_user_notes(&board, &member(1), None)[0].tips_received, u64::MAX);
}

#[test]
fn oversized_tip_is_refused_and_leaves_the_tally() {
    let mut board = PeerBoard::new();
    let note = note_on(&mut board, 1, 10, "c", "n");
    let refused = tip_peer_note(&mut board, &member(2), 30, note.id.clone(), 3, "m".repeat(600));
    assert_eq!(refused.err(), Some(PeerError::RecordTooLarge));
    assert!(get_note_tips(&board, &note.id).is_empty());
    assert_eq!(get_user_notes(&board, &member(1), None)[0].tips_received, 0);
}

#[test]
fn notes_are_listed_by_course_and_by_author_in_id_order() {
    let mut board = PeerBoard::new();
    note_on(&mut board, 1, 30, "a", "a-late");
    note_on(&mut board, 1, 20, "b", "b-note");
    note_on(&mut board, 2, 10, "a", "a-other");
    note_on(&mut board, 1, 10, "a", "a-early");
    let of_a: Vec<String> =
        get_course_notes(&board, &String::from("a")).into_iter().map(|n| n.id).collect();
    let mut sorted = of_a.clone();
    sorted.sort();
    assert_eq!(of_a, sorted);
    assert_eq!(of_a.len(), 3);
    let by_one: Vec<String> =
        get_user_notes(&board, &member(1), None).into_iter().map(|n| n.content).collect();
    assert_eq!(by_one, vec!["a-early", "b-note", "a-late"]);
    assert_eq!(get_user_notes(&board, &member(1), Some(member(2))).len(), 1);
    assert!(get_course_notes(&board, &String::from("zzz")).is_empty());
}

#[test]
fn two_notes_of_one_author_at_one_time_share_an_id() {
    let mut board = PeerBoard::new();
    note_on(&mut board, 1, 10, "a", "first");
    note_on(&mut board, 1, 10, "b", "second");
    let notes = get_user_notes(&board, &member(1), None);
    assert_eq!(notes.len(), 1);
    assert_eq!(notes[0].content, "second");
    assert_eq!(notes[0].course_id, "b");
}

#[test]
fn note_and_tip_stored_forms_read_back() {
    let mut board = PeerBoard::new();
    let note = note_on(&mut board, 1, 10, "cé", "žluť");
    let bytes = encode(&note).unwrap();
    let back: PeerNote = decode(&bytes).unwrap();
    assert_eq!(back.content, "žluť");
    assert_eq!(back.course_id, "cé");
    assert_eq!(back.note_type, NoteType::StudyNote);
    assert!(back.author.same_as(&member(1)));
    let tip = tip_peer_note(&mut board, &member(2), 30, note.id.clone(), 7, String::from("t")).unwrap();
    let back: PeerTip = decode(&encode(&tip).unwrap()).unwrap();
    assert_eq!(back.id, tip.id);
    assert_eq!(back.amount, 7);
    assert!(decode::<PeerTip>(&bytes).is_none());
    assert!(decode::<PeerNote>(&vec![1, 2, 3]).is_none());
    assert!(decode::<PeerNote>(&vec![]).is_none());
}

#[test]
fn note_type_fields() {
    for (kind, code) in [
        (NoteType::Question, 0u8),
        (NoteType::Answer, 1),
        (NoteType::StudyNote, 2),
        (NoteType::Tip, 3),
    ] {
        assert_eq!(kind.to_field(), vec![code]);
        assert_eq!(NoteType::from_field(&vec![code]), Some(kind));
    }
    assert_eq!(NoteType::from_field(&vec![4]), None);
    assert_eq!(NoteType::from_field(&vec![]), None);
    assert_eq!(NoteType::from_field(&vec![0, 0]), None);
}

#[test]
fn peer_error_messages() {
    assert_eq!(PeerError::NoteNotFound.message(), "Note not found");
    assert_eq!(PeerError::NotAuthor.message(), "Only the author can update this note");
    assert_eq!(PeerError::OwnNote.message(), "Cannot tip your own note");
    assert_eq!(PeerError::TallyOverflow.message(), "Tip tally overflow");
    assert_eq!(PeerError::RecordTooLarge.message(), "Record too large");
}

#[test]
fn opened_board_on_an_empty_memory_is_empty() {
    let mut board = PeerBoard::open().unwrap();
    assert!(board.audit());
    assert!(get_course_notes(&board, &String::from("c")).is_empty());
    note_on(&mut board, 1, 10, "c", "n");
    assert!(board.audit());
    assert_eq!(get_course_notes(&board, &String::from("c")).len(), 1);
}

#[test]
fn peer_error_classes() {
    assert_eq!(PeerError::NoteNotFound.class(), LedgerError::RecordNotFound);
    assert_eq!(PeerError::NotAuthor.class(), LedgerError::ValidationError);
    assert_eq!(PeerError::OwnNote.class(), LedgerError::ValidationError);
    assert_eq!(PeerError::TallyOverflow.class(), LedgerError::ValidationError);
    assert_eq!(PeerError::RecordTooLarge.class(), LedgerError::ValidationError);
    let mut board = PeerBoard::new();
    let refused = update_peer_note(&mut board, &member(1), 5, String::from("none"), String::new());
    assert_eq!(refused.unwrap_err().class(), LedgerError::RecordNotFound);
}
