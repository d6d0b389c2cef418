//! Peer notes and the tips given for them.

use crate::account::{account_text, query_target, AccountId, MAX_ACCOUNT_BYTES};
use crate::fields::{
    field_account, field_text, field_u64, lemma_fields_read_back, read_account, read_text,
    read_u64, u64_field,
};
use crate::ident::{record_id, record_id_text};
use crate::ledger::LedgerError;
use crate::store::{store_pair, store_pair_opened, RecordStore};
use crate::table::{
    encode, lemma_key_within_record, ordered_values, storable, table_check, table_get,
    chosen, table_list, table_ok, table_put, table_view, views_of, Choice, Record,
};
use crate::wire::{copy_bytes, field_views, string_bytes};
use vstd::bytes::*;
use vstd::prelude::*;
use vstd::string::*;
use vstd::utf8::*;

verus! {

/// The most bytes a stored note may take.
pub const MAX_NOTE_BYTES: usize = 2048;

/// The most bytes a stored tip may take.
pub const MAX_TIP_BYTES: usize = 512;

/// What a note is for.
#[derive(Clone, Copy, Debug, PartialEq, Eq, Structural)]
pub enum NoteType {
    Question,
    Answer,
    StudyNote,
    Tip,
}

/// A note that a student left on a course.
#[derive(Debug)]
pub struct PeerNote {
    pub id: String,
    pub course_id: String,
    pub author: AccountId,
    pub author_name: String,
    pub content: String,
    pub note_type: NoteType,
    pub created_at: u64,
    pub updated_at: u64,
    pub tips_received: u64,
}

/// A tip given for a note.
#[derive(Debug)]
pub struct PeerTip {
    pub id: String,
    pub note_id: String,
    pub tipper: AccountId,
    pub recipient: AccountId,
    pub amount: u64,
    pub timestamp: u64,
    pub message: String,
}

/// A note as a mathematical value.
pub struct PeerNoteView {
    pub id: Seq<char>,
    pub course_id: Seq<char>,
    pub author: Seq<u8>,
    pub author_name: Seq<char>,
    pub content: Seq<char>,
    pub note_type: NoteType,
    pub created_at: u64,
    pub updated_at: u64,
    pub tips_received: u64,
}

/// A tip as a mathematical value.
pub struct PeerTipView {
    pub id: Seq<char>,
    pub note_id: Seq<char>,
    pub tipper: Seq<u8>,
    pub recipient: Seq<u8>,
    pub amount: u64,
    pub timestamp: u64,
    pub message: Seq<char>,
}

impl View for PeerNote {
    type V = PeerNoteView;

    open spec fn view(&self) -> PeerNoteView {
        PeerNoteView {
            id: self.id@,
            course_id: self.course_id@,
            author: self.author@,
            author_name: self.author_name@,
            content: self.content@,
            note_type: self.note_type,
            created_at: self.created_at,
            updated_at: self.updated_at,
            tips_received: self.tips_received,
        }
    }
}

impl View for PeerTip {
    type V = PeerTipView;

    open spec fn view(&self) -> PeerTipView {
        PeerTipView {
            id: self.id@,
            note_id: self.note_id@,
            tipper: self.tipper@,
            recipient: self.recipient@,
            amount: self.amount,
            timestamp: self.timestamp,
            message: self.message@,
        }
    }
}

/// The byte that stands for a kind of note.
pub open spec fn note_type_code(kind: NoteType) -> u8 {
    match kind {
        NoteType::Question => 0,
        NoteType::Answer => 1,
        NoteType::StudyNote => 2,
        NoteType::Tip => 3,
    }
}

/// The kind of note a field stands for, if it stands for one.
pub open spec fn field_note_type(field: Seq<u8>) -> Option<NoteType> {
    if field.len() != 1 {
        None
    } else if field[0] == 0 {
        Some(NoteType::Question)
    } else if field[0] == 1 {
        Some(NoteType::Answer)
    } else if field[0] == 2 {
        Some(NoteType::StudyNote)
    } else if field[0] == 3 {
        Some(NoteType::Tip)
    } else {
        None
    }
}

impl NoteType {
    /// The field of this kind: one byte.
    pub fn to_field(self) -> (field: Vec<u8>)
        ensures
            field@ == seq![note_type_code(self)],
    {
        let code: u8 = match self {
            NoteType::Question => 0,
            NoteType::Answer => 1,
            NoteType::StudyNote => 2,
            NoteType::Tip => 3,
        };
        let mut field: Vec<u8> = Vec::new();
        field.push(code);
        assert(field@ =~= seq![note_type_code(self)]);
        field
    }

    /// Reads a field as a kind of note.
    pub fn from_field(field: &Vec<u8>) -> (kind: Option<NoteType>)
        ensures
            kind == field_note_type(field@),
    {
        if field.len() != 1 {
            None
        } else if field[0] == 0 {
            Some(NoteType::Question)
        } else if field[0] == 1 {
            Some(NoteType::Answer)
        } else if field[0] == 2 {
            Some(NoteType::StudyNote)
        } else if field[0] == 3 {
            Some(NoteType::Tip)
        } else {
            None
        }
    }
}

impl Record for PeerNote {
    open spec fn limit() -> nat {
        MAX_NOTE_BYTES as nat
    }

    open spec fn valid(value: PeerNoteView) -> bool {
        value.author.len() <= MAX_ACCOUNT_BYTES
    }

    open spec fn fields_of(value: PeerNoteView) -> Seq<Seq<u8>> {
        seq![
            encode_utf8(value.id),
            encode_utf8(value.course_id),
            value.author,
            encode_utf8(value.author_name),
            encode_utf8(value.content),
            seq![note_type_code(value.note_type)],
            u64_field(value.created_at),
            u64_field(value.updated_at),
            u64_field(value.tips_received),
        ]
    }

    open spec fn of_fields(fields: Seq<Seq<u8>>) -> Option<PeerNoteView> {
        if fields.len() == 9 && field_text(fields[0]) is Some && field_text(fields[1]) is Some
            && field_account(fields[2]) is Some && field_text(fields[3]) is Some && field_text(
            fields[4],
        ) is Some && field_note_type(fields[5]) is Some && field_u64(fields[6]) is Some
            && field_u64(fields[7]) is Some && field_u64(fields[8]) is Some {
            Some(
                PeerNoteView {
                    id: field_text(fields[0])->0,
                    course_id: field_text(fields[1])->0,
                    author: field_account(fields[2])->0,
                    author_name: field_text(fields[3])->0,
                    content: field_text(fields[4])->0,
                    note_type: field_note_type(fields[5])->0,
                    created_at: field_u64(fields[6])->0,
                    updated_at: field_u64(fields[7])->0,
                    tips_received: field_u64(fields[8])->0,
                },
            )
        } else {
            None
        }
    }

    proof fn lemma_fields_read_back(value: PeerNoteView) {
        lemma_fields_read_back();
    }

    fn size_limit() -> (limit: usize) {
        MAX_NOTE_BYTES
    }

    fn to_fields(&self) -> (fields: Option<Vec<Vec<u8>>>) {
        let mut fields: Vec<Vec<u8>> = Vec::new();
        fields.push(string_bytes(&self.id));
        fields.push(string_bytes(&self.course_id));
        fields.push(copy_bytes(self.author.as_bytes()));
        fields.push(string_bytes(&self.author_name));
        fields.push(string_bytes(&self.content));
        fields.push(self.note_type.to_field());
        fields.push(u64_to_le_bytes(self.created_at));
        fields.push(u64_to_le_bytes(self.updated_at));
        fields.push(u64_to_le_bytes(self.tips_received));
        proof {
            assert(field_views(fields@) =~= Self::fields_of(self@));
        }
        Some(fields)
    }

    fn from_fields(fields: &Vec<Vec<u8>>) -> (value: Option<PeerNote>) {
        if fields.len() != 9 {
            return None;
        }
        let id = read_text(&fields[0]);
        let course_id = read_text(&fields[1]);
        let author = read_account(&fields[2]);
        let author_name = read_text(&fields[3]);
        let content = read_text(&fields[4]);
        let note_type = NoteType::from_field(&fields[5]);
        let created_at = read_u64(&fields[6]);
        let updated_at = read_u64(&fields[7]);
        let tips_received = read_u64(&fields[8]);
        match (
            id,
            course_id,
            author,
            author_name,
            content,
            note_type,
            created_at,
            updated_at,
            tips_received,
        ) {
            (
                Some(id),
                Some(course_id),
                Some(author),
                Some(author_name),
                Some(content),
                Some(note_type),
                Some(created_at),
                Some(updated_at),
                Some(tips_received),
            ) => Some(
                PeerNote {
                    id,
                    course_id,
                    author,
                    author_name,
                    content,
                    note_type,
                    created_at,
                    updated_at,
                    tips_received,
                },
            ),
            _ => None,
        }
    }
}

impl Record for PeerTip {
    open spec fn limit() -> nat {
        MAX_TIP_BYTES as nat
    }

    open spec fn valid(value: PeerTipView) -> bool {
        value.tipper.len() <= MAX_ACCOUNT_BYTES && value.recipient.len() <= MAX_ACCOUNT_BYTES
    }

    open spec fn fields_of(value: PeerTipView) -> Seq<Seq<u8>> {
        seq![
            encode_utf8(value.id),
            encode_utf8(value.note_id),
            value.tipper,
            value.recipient,
            u64_field(value.amount),
            u64_field(value.timestamp),
            encode_utf8(value.message),
        ]
    }

    open spec fn of_fields(fields: Seq<Seq<u8>>) -> Option<PeerTipView> {
        if fields.len() == 7 && field_text(fields[0]) is Some && field_text(fields[1]) is Some
            && field_account(fields[2]) is Some && field_account(fields[3]) is Some && field_u64(
            fields[4],
        ) is Some && field_u64(fields[5]) is Some && field_text(fields[6]) is Some {
            Some(
                PeerTipView {
                    id: field_text(fields[0])->0,
                    note_id: field_text(fields[1])->0,
                    tipper: field_account(fields[2])->0,
                    recipient: field_account(fields[3])->0,
                    amount: field_u64(fields[4])->0,
                    timestamp: field_u64(fields[5])->0,
                    message: field_text(fields[6])->0,
                },
            )
        } else {
            None
        }
    }

    proof fn lemma_fields_read_back(value: PeerTipView) {
        lemma_fields_read_back();
    }

    fn size_limit() -> (limit: usize) {
        MAX_TIP_BYTES
    }

    fn to_fields(&self) -> (fields: Option<Vec<Vec<u8>>>) {
        let mut fields: Vec<Vec<u8>> = Vec::new();
        fields.push(string_bytes(&self.id));
        fields.push(string_bytes(&self.note_id));
        fields.push(copy_bytes(self.tipper.as_bytes()));
        fields.push(copy_bytes(self.recipient.as_bytes()));
        fields.push(u64_to_le_bytes(self.amount));
        fields.push(u64_to_le_bytes(self.timestamp));
        fields.push(string_bytes(&self.message));
        proof {
            assert(field_views(fields@) =~= Self::fields_of(self@));
        }
        Some(fields)
    }

    fn from_fields(fields: &Vec<Vec<u8>>) -> (value: Option<PeerTip>) {
        if fields.len() != 7 {
            return None;
        }
        let id = read_text(&fields[0]);
        let note_id = read_text(&fields[1]);
        let tipper = read_account(&fields[2]);
        let recipient = read_account(&fields[3]);
        let amount = read_u64(&fields[4]);
        let timestamp = read_u64(&fields[5]);
        let message = read_text(&fields[6]);
        match (id, note_id, tipper, recipient, amount, timestamp, message) {
            (
                Some(id),
                Some(note_id),
                Some(tipper),
                Some(recipient),
                Some(amount),
                Some(timestamp),
                Some(message),
            ) => Some(PeerTip { id, note_id, tipper, recipient, amount, timestamp, message }),
            _ => None,
        }
    }
}

/// Why an operation on the notes was refused.
#[derive(Clone, Copy, Debug, PartialEq, Eq, Structural)]
pub enum PeerError {
    /// There is no note with the given id.
    NoteNotFound,
    /// The caller is not the author of the note.
    NotAuthor,
    /// The caller is the author of the note to be tipped.
    OwnNote,
    /// The note's tally of tips would pass the largest 64-bit number.
    TallyOverflow,
    /// The record is too large to be stored.
    RecordTooLarge,
}

/// What an error says to the caller.
pub open spec fn peer_error_text(error: PeerError) -> Seq<char> {
    match error {
        PeerError::NoteNotFound => "Note not found"@,
        PeerError::NotAuthor => "Only the author can update this note"@,
        PeerError::OwnNote => "Cannot tip your own note"@,
        PeerError::TallyOverflow => "Tip tally overflow"@,
        PeerError::RecordTooLarge => "Record too large"@,
    }
}

/// The class of an error.
pub open spec fn peer_error_class(error: PeerError) -> LedgerError {
    match error {
        PeerError::NoteNotFound => LedgerError::RecordNotFound,
        PeerError::NotAuthor => LedgerError::ValidationError,
        PeerError::OwnNote => LedgerError::ValidationError,
        PeerError::TallyOverflow => LedgerError::ValidationError,
        PeerError::RecordTooLarge => LedgerError::ValidationError,
    }
}

impl PeerError {
    /// The class of the error.
    pub fn class(&self) -> (class: LedgerError)
        ensures
            class == peer_error_class(*self),
    {
        match self {
            PeerError::NoteNotFound => LedgerError::RecordNotFound,
            PeerError::NotAuthor => LedgerError::ValidationError,
            PeerError::OwnNote => LedgerError::ValidationError,
            PeerError::TallyOverflow => LedgerError::ValidationError,
            PeerError::RecordTooLarge => LedgerError::ValidationError,
        }
    }

    /// What the error says to the caller.
    pub fn message(&self) -> (text: String)
        ensures
            text@ == peer_error_text(*self),
    {
        match self {
            PeerError::NoteNotFound => String::from_str("Note not found"),
            PeerError::NotAuthor => String::from_str("Only the author can update this note"),
            PeerError::OwnNote => String::from_str("Cannot tip your own note"),
            PeerError::TallyOverflow => String::from_str("Tip tally overflow"),
            PeerError::RecordTooLarge => String::from_str("Record too large"),
        }
    }
}

/// The notes and tips of a board as a mathematical value. Both are held by
/// the UTF-8 bytes of their ids.
pub struct PeerBoardView {
    pub notes: Map<Seq<u8>, PeerNoteView>,
    pub tips: Map<Seq<u8>, PeerTipView>,
}

/// The notes of the courses and the tips given for them, in two durable
/// stores.
pub struct PeerBoard {
    notes: RecordStore,
    tips: RecordStore,
}

impl View for PeerBoard {
    type V = PeerBoardView;

    closed spec fn view(&self) -> PeerBoardView {
        PeerBoardView {
            notes: table_view::<PeerNote>(self.notes),
            tips: table_view::<PeerTip>(self.tips),
        }
    }
}

impl PeerBoard {
    /// Every stored record reads back. This holds of a new board and of one
    /// that was opened, and every operation keeps it.
    pub closed spec fn well_formed(&self) -> bool {
        table_ok::<PeerNote>(self.notes) && table_ok::<PeerTip>(self.tips)
    }

    /// The board that the memory holds, after a restart: empty if the
    /// memory holds none, and `None` if a record in it does not read back.
    pub fn open() -> (board: Option<PeerBoard>)
        ensures
            board is Some ==> board->0.well_formed(),
    {
        let (notes, tips) = store_pair_opened();
        PeerBoard::from_stores(notes, tips)
    }

    /// Reads every stored record and tells whether each reads back.
    pub fn audit(&self) -> (sound: bool)
        ensures
            sound == self.well_formed(),
    {
        table_check::<PeerNote>(&self.notes) && table_check::<PeerTip>(&self.tips)
    }

    /// The board that two stores hold: its notes and its tips are what the
    /// stores' records read back as. `None` if a record of one of them does
    /// not read back as what that store is for.
    pub fn from_stores(notes: RecordStore, tips: RecordStore) -> (board: Option<PeerBoard>)
        ensures
            board is Some == (table_ok::<PeerNote>(notes) && table_ok::<PeerTip>(tips)),
            board is Some ==> board->0.well_formed(),
            board is Some ==> board->0@ == (PeerBoardView {
                notes: table_view::<PeerNote>(notes),
                tips: table_view::<PeerTip>(tips),
            }),
    {
        let board = PeerBoard { notes, tips };
        if board.audit() {
            Some(board)
        } else {
            None
        }
    }

    /// An empty board, in place of whatever the memory held.
    pub fn new() -> (board: PeerBoard)
        ensures
            board.well_formed(),
            board@.notes == Map::<Seq<u8>, PeerNoteView>::empty(),
            board@.tips == Map::<Seq<u8>, PeerTipView>::empty(),
    {
        let (notes, tips) = store_pair();
        let board = PeerBoard { notes, tips };
        proof {
            assert(board@.notes =~= Map::<Seq<u8>, PeerNoteView>::empty());
            assert(board@.tips =~= Map::<Seq<u8>, PeerTipView>::empty());
        }
        board
    }
}

/// The note that `caller`, whose textual identity is `caller_text`, writes
/// at time `now`.
pub open spec fn written_note(
    caller: Seq<u8>,
    caller_text: Seq<char>,
    now: u64,
    course_id: Seq<char>,
    author_name: Seq<char>,
    content: Seq<char>,
    note_type: NoteType,
) -> PeerNoteView {
    PeerNoteView {
        id: record_id_text(caller_text, now),
        course_id,
        author: caller,
        author_name,
        content,
        note_type,
        created_at: now,
        updated_at: now,
        tips_received: 0,
    }
}

/// Writes a note on a course for the caller whose textual identity is
/// `caller_text`, and stores it under an id made of that text and the time,
/// in place of a note already there with that id.
pub fn create_peer_note_as(
    board: &mut PeerBoard,
    caller: &AccountId,
    caller_text: &str,
    now: u64,
    course_id: String,
    author_name: String,
    content: String,
    note_type: NoteType,
) -> (result: Result<PeerNote, PeerError>)
    requires
        old(board).well_formed(),
    ensures
        final(board).well_formed(),
        final(board)@.tips == old(board)@.tips,
        ({
            let note = written_note(
                caller@,
                caller_text@,
                now,
                course_id@,
                author_name@,
                content@,
                note_type,
            );
            match result {
                Ok(written) => {
                    &&& storable::<PeerNote>(note)
                    &&& written@ == note
                    &&& final(board)@.notes == old(board)@.notes.insert(encode_utf8(note.id), note)
                },
                Err(error) => {
                    &&& !storable::<PeerNote>(note)
                    &&& error == PeerError::RecordTooLarge
                    &&& final(board)@ == old(board)@
                },
            }
        }),
{
    let note = PeerNote {
        id: record_id(caller_text, now),
        course_id,
        author: caller.clone(),
        author_name,
        content,
        note_type,
        created_at: now,
        updated_at: now,
        tips_received: 0,
    };
    let key = string_bytes(&note.id);
    proof {
        lemma_key_within_record::<PeerNote>(note@, 0);
    }
    if table_put::<PeerNote>(&mut board.notes, key, &note) {
        Ok(note)
    } else {
        Err(PeerError::RecordTooLarge)
    }
}

/// Writes a note on a course and stores it under an id made of the caller's
/// textual identity and the time, in place of a note already there with
/// that id.
pub fn create_peer_note(
    board: &mut PeerBoard,
    caller: &AccountId,
    now: u64,
    course_id: String,
    author_name: String,
    content: String,
    note_type: NoteType,
) -> (result: Result<PeerNote, PeerError>)
    requires
        old(board).well_formed(),
    ensures
        final(board).well_formed(),
        final(board)@.tips == old(board)@.tips,
        ({
            let note = written_note(
                caller@,
                account_text(caller@),
                now,
                course_id@,
                author_name@,
                content@,
                note_type,
            );
            match result {
                Ok(written) => {
                    &&& storable::<PeerNote>(note)
                    &&& written@ == note
                    &&& final(board)@.notes == old(board)@.notes.insert(encode_utf8(note.id), note)
                },
                Err(error) => {
                    &&& !storable::<PeerNote>(note)
                    &&& error == PeerError::RecordTooLarge
                    &&& final(board)@ == old(board)@
                },
            }
        }),
{
    let text = caller.to_text();
    create_peer_note_as(board, caller, text.as_str(), now, course_id, author_name, content, note_type)
}

/// What rewriting the note under `key` gives: the note with its new
/// content, or the reason for refusing.
pub open spec fn rewritten_note(
    notes: Map<Seq<u8>, PeerNoteView>,
    key: Seq<u8>,
    caller: Seq<u8>,
    now: u64,
    content: Seq<char>,
) -> Result<PeerNoteView, PeerError> {
    if !notes.contains_key(key) {
        Err(PeerError::NoteNotFound)
    } else if notes[key].author != caller {
        Err(PeerError::NotAuthor)
    } else {
        let note = PeerNoteView { content, updated_at: now, ..notes[key] };
        if storable::<PeerNote>(note) {
            Ok(note)
        } else {
            Err(PeerError::RecordTooLarge)
        }
    }
}

/// Replaces the content of a note. Only its author may do so.
pub fn update_peer_note(
    board: &mut PeerBoard,
    caller: &AccountId,
    now: u64,
    note_id: String,
    content: String,
) -> (result: Result<PeerNote, PeerError>)
    requires
        old(board).well_formed(),
    ensures
        final(board).well_formed(),
        final(board)@.tips == old(board)@.tips,
        ({
            let key = encode_utf8(note_id@);
            let outcome = rewritten_note(old(board)@.notes, key, caller@, now, content@);
            match result {
                Ok(note) => outcome == Ok::<PeerNoteView, PeerError>(note@) && final(board)@.notes
                    == old(board)@.notes.insert(key, note@),
                Err(error) => outcome == Err::<PeerNoteView, PeerError>(error) && final(board)@
                    == old(board)@,
            }
        }),
{
    let key = string_bytes(&note_id);
    let mut note = match table_get::<PeerNote>(&board.notes, &key) {
        Some(note) => note,
        None => {
            return Err(PeerError::NoteNotFound);
        },
    };
    if !note.author.same_as(caller) {
        return Err(PeerError::NotAuthor);
    }
    note.content = content;
    note.updated_at = now;
    if table_put::<PeerNote>(&mut board.notes, key, &note) {
        Ok(note)
    } else {
        Err(PeerError::RecordTooLarge)
    }
}

/// The tip that `caller`, whose textual identity is `caller_text`, gives at
/// time `now` for the note `note`.
pub open spec fn given_tip(
    note: PeerNoteView,
    caller: Seq<u8>,
    caller_text: Seq<char>,
    now: u64,
    note_id: Seq<char>,
    amount: u64,
    message: Seq<char>,
) -> PeerTipView {
    PeerTipView {
        id: record_id_text(caller_text, now),
        note_id,
        tipper: caller,
        recipient: note.author,
        amount,
        timestamp: now,
        message,
    }
}

/// Why the tip cannot be given, if it cannot.
pub open spec fn tip_refusal(
    notes: Map<Seq<u8>, PeerNoteView>,
    caller: Seq<u8>,
    caller_text: Seq<char>,
    now: u64,
    note_id: Seq<char>,
    amount: u64,
    message: Seq<char>,
) -> Option<PeerError> {
    let key = encode_utf8(note_id);
    if !notes.contains_key(key) {
        Some(PeerError::NoteNotFound)
    } else if notes[key].author == caller {
        Some(PeerError::OwnNote)
    } else if notes[key].tips_received + amount > u64::MAX {
        Some(PeerError::TallyOverflow)
    } else if !storable::<PeerTip>(
        given_tip(notes[key], caller, caller_text, now, note_id, amount, message),
    ) || !storable::<PeerNote>(
        PeerNoteView { tips_received: (notes[key].tips_received + amount) as u64, ..notes[key] },
    ) {
        Some(PeerError::RecordTooLarge)
    } else {
        None
    }
}

/// What giving a tip leads to: the tip recorded and the note's tally raised,
/// or the reason for refusing and the board unchanged.
pub open spec fn tipped(
    before: PeerBoardView,
    caller: Seq<u8>,
    caller_text: Seq<char>,
    now: u64,
    note_id: Seq<char>,
    amount: u64,
    message: Seq<char>,
    result: Result<PeerTip, PeerError>,
    after: PeerBoardView,
) -> bool {
    let key = encode_utf8(note_id);
    let refusal = tip_refusal(before.notes, caller, caller_text, now, note_id, amount, message);
    match result {
        Ok(tip) => {
            &&& refusal is None
            &&& tip@ == given_tip(before.notes[key], caller, caller_text, now, note_id, amount, message)
            &&& after.tips == before.tips.insert(encode_utf8(tip@.id), tip@)
            &&& after.notes == before.notes.insert(
                key,
                PeerNoteView {
                    tips_received: (before.notes[key].tips_received + amount) as u64,
                    ..before.notes[key]
                },
            )
        },
        Err(error) => refusal == Some(error) && after == before,
    }
}

/// Gives a tip for a note from the caller whose textual identity is
/// `caller_text`: records the tip under an id made of that text and the
/// time, in place of a tip already there with that id, and adds the amount
/// to the note's tally. Nobody may tip their own note. Nothing is written if
/// the tip is refused.
pub fn tip_peer_note_as(
    board: &mut PeerBoard,
    caller: &AccountId,
    caller_text: &str,
    now: u64,
    note_id: String,
    amount: u64,
    message: String,
) -> (result: Result<PeerTip, PeerError>)
    requires
        old(board).well_formed(),
    ensures
        final(board).well_formed(),
        tipped(old(board)@, caller@, caller_text@, now, note_id@, amount, message@, result, final(board)@),
{
    let key = string_bytes(&note_id);
    let mut note = match table_get::<PeerNote>(&board.notes, &key) {
        Some(note) => note,
        None => {
            return Err(PeerError::NoteNotFound);
        },
    };
    if note.author.same_as(caller) {
        return Err(PeerError::OwnNote);
    }
    if note.tips_received > u64::MAX - amount {
        return Err(PeerError::TallyOverflow);
    }
    let tip = PeerTip {
        id: record_id(caller_text, now),
        note_id,
        tipper: caller.clone(),
        recipient: note.author.clone(),
        amount,
        timestamp: now,
        message,
    };
    note.tips_received = note.tips_received + amount;
    let tip_key = string_bytes(&tip.id);
    if encode::<PeerTip>(&tip).is_none() || encode::<PeerNote>(
        &note,
    ).is_none() {
        return Err(PeerError::RecordTooLarge);
    }
    proof {
        lemma_key_within_record::<PeerTip>(tip@, 0);
    }
    let stored_note = table_put::<PeerNote>(&mut board.notes, key, &note);
    assert(stored_note);
    let stored_tip = table_put::<PeerTip>(&mut board.tips, tip_key, &tip);
    assert(stored_tip);
    Ok(tip)
}

/// Gives a tip for a note: records the tip under an id made of the caller's
/// textual identity and the time, in place of a tip already there with that
/// id, and adds the amount to the note's tally. Nobody may tip their own
/// note. Nothing is written if the tip is refused.
pub fn tip_peer_note(
    board: &mut PeerBoard,
    caller: &AccountId,
    now: u64,
    note_id: String,
    amount: u64,
    message: String,
) -> (result: Result<PeerTip, PeerError>)
    requires
        old(board).well_formed(),
    ensures
        final(board).well_formed(),
        tipped(
            old(board)@,
            caller@,
            account_text(caller@),
            now,
            note_id@,
            amount,
            message@,
            result,
            final(board)@,
        ),
{
    let text = caller.to_text();
    tip_peer_note_as(board, caller, text.as_str(), now, note_id, amount, message)
}

/// The choice of the notes on one course.
struct OnCourse<'a> {
    course_id: &'a String,
}

impl<'a> Choice<PeerNote> for OnCourse<'a> {
    closed spec fn wants(&self, note: PeerNoteView) -> bool {
        note.course_id == self.course_id@
    }

    fn picks(&self, note: &PeerNote) -> (wanted: bool) {
        note.course_id == *self.course_id
    }
}

/// The notes on the course `course_id`, in the ascending order of their
/// ids' bytes.
pub fn get_course_notes(board: &PeerBoard, course_id: &String) -> (notes: Vec<PeerNote>)
    requires
        board.well_formed(),
    ensures
        views_of(notes@) == ordered_values(board@.notes).filter(
            |note: PeerNoteView| note.course_id == course_id@,
        ),
{
    let all = table_list::<PeerNote>(&board.notes);
    let choice = OnCourse { course_id };
    let notes = chosen(all, &choice);
    proof {
        let wanted = |note: PeerNoteView| choice.wants(note);
        let stated = |note: PeerNoteView| note.course_id == course_id@;
        assert(wanted =~= stated);
    }
    notes
}

/// The choice of the notes of one author.
struct WrittenBy<'a> {
    author: &'a AccountId,
}

impl<'a> Choice<PeerNote> for WrittenBy<'a> {
    closed spec fn wants(&self, note: PeerNoteView) -> bool {
        note.author == self.author@
    }

    fn picks(&self, note: &PeerNote) -> (wanted: bool) {
        note.author.same_as(self.author)
    }
}

/// The notes written by `principal`, or by `caller` if no account is named,
/// in the ascending order of their ids' bytes.
pub fn get_user_notes(board: &PeerBoard, caller: &AccountId, principal: Option<AccountId>) -> (notes:
    Vec<PeerNote>)
    requires
        board.well_formed(),
    ensures
        views_of(notes@) == ordered_values(board@.notes).filter(
            |note: PeerNoteView| note.author == query_target(caller@, principal),
        ),
{
    let target = match principal {
        Some(account) => account,
        None => caller.clone(),
    };
    let all = table_list::<PeerNote>(&board.notes);
    let choice = WrittenBy { author: &target };
    let notes = chosen(all, &choice);
    proof {
        let wanted = |note: PeerNoteView| choice.wants(note);
        let stated = |note: PeerNoteView| note.author == query_target(caller@, principal);
        assert(wanted =~= stated);
    }
    notes
}

/// The choice of the tips for one note.
struct ForNote<'a> {
    note_id: &'a String,
}

impl<'a> Choice<PeerTip> for ForNote<'a> {
    closed spec fn wants(&self, tip: PeerTipView) -> bool {
        tip.note_id == self.note_id@
    }

    fn picks(&self, tip: &PeerTip) -> (wanted: bool) {
        tip.note_id == *self.note_id
    }
}

/// The tips given for the note `note_id`, in the ascending order of their
/// ids' bytes.
pub fn get_note_tips(board: &PeerBoard, note_id: &String) -> (tips: Vec<PeerTip>)
    requires
        board.well_formed(),
    ensures
        views_of(tips@) == ordered_values(board@.tips).filter(
            |tip: PeerTipView| tip.note_id == note_id@,
        ),
{
    let all = table_list::<PeerTip>(&board.tips);
    let choice = ForNote { note_id };
    let tips = chosen(all, &choice);
    proof {
        let wanted = |tip: PeerTipView| choice.wants(tip);
        let stated = |tip: PeerTipView| tip.note_id == note_id@;
        assert(wanted =~= stated);
    }
    tips
}

/// The choice of the tips that one account received.
struct ReceivedBy<'a> {
    recipient: &'a AccountId,
}

impl<'a> Choice<PeerTip> for ReceivedBy<'a> {
    closed spec fn wants(&self, tip: PeerTipView) -> bool {
        tip.recipient == self.recipient@
    }

    fn picks(&self, tip: &PeerTip) -> (wanted: bool) {
        tip.recipient.same_as(self.recipient)
    }
}

/// The tips received by `principal`, or by `caller` if no account is named,
/// in the ascending order of their ids' bytes.
pub fn get_user_tips_received(
    board: &PeerBoard,
    caller: &AccountId,
    principal: Option<AccountId>,
) -> (tips: Vec<PeerTip>)
    requires
        board.well_formed(),
    ensures
        views_of(tips@) == ordered_values(board@.tips).filter(
            |tip: PeerTipView| tip.recipient == query_target(caller@, principal),
        ),
{
    let target = match principal {
        Some(account) => account,
        None => caller.clone(),
    };
    let all = table_list::<PeerTip>(&board.tips);
    let choice = ReceivedBy { recipient: &target };
    let tips = chosen(all, &choice);
    proof {
        let wanted = |tip: PeerTipView| choice.wants(tip);
        let stated = |tip: PeerTipView| tip.recipient == query_target(caller@, principal);
        assert(wanted =~= stated);
    }
    tips
}

} // verus!
