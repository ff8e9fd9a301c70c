use vstd::prelude::*;
use vstd::string::StringExecFns;
use crate::registry::{after_occupy, occupy_outcome, OccupyError, SlotRegistry};
use crate::slot::{lists_slots, CheckResponse, UploadResponse};
use crate::text::{decimal_chars, parse_slot_id, push_decimal, slot_id_of};

verus! {

/// Where one upload request stands. Fields arrive in order: first the text
/// field that names the slot, then the file fields.
#[derive(Debug, Clone, Copy, PartialEq, Eq, Structural)]
pub enum UploadPhase {
    /// Nothing read yet.
    AwaitingSlot,
    /// The slot was named and found free; no file yet.
    SlotChecked { id: u8 },
    /// A file is being written to storage.
    Storing { id: u8 },
    /// At least one file has been written.
    Stored { id: u8 },
    /// A reply has been given.
    Finished,
}

/// What the request stream, or the storage, reports next.
#[derive(Debug)]
pub enum UploadEvent {
    /// The text field that names the slot, as received.
    SlotField { text: Vec<u8> },
    /// A file field and the file name it carries.
    FileField { file_name: String },
    /// The file asked for was written completely.
    FileStored,
    /// Writing the file failed.
    StoreFailed { cause: String },
    /// No more fields.
    EndOfStream,
}

/// Why an upload was refused.
#[derive(Debug)]
pub enum UploadError {
    /// The slot field is missing, empty, or names no slot of the pool.
    InvalidSlotId,
    /// A file field has no file name, or no file came.
    MissingFilename,
    /// The slot is already occupied.
    SlotOccupied,
    /// Storage could not take the file.
    Storage { cause: String },
    /// Fields came in an order that the protocol does not allow.
    Malformed,
    /// The registry could not be reached.
    Internal,
}

/// What the caller is to do next.
#[derive(Debug)]
pub enum UploadAction {
    ReadNextField,
    /// Write the payload of the current file field under this name.
    StoreFile { name: String },
    Reply { result: Result<UploadResponse, UploadError> },
}

/// What a step decides, with the file name as characters.
pub enum Decision {
    Next,
    Store(Seq<char>),
    Fail(UploadError),
    Commit,
}

/// The name under which an upload for slot `id` is stored:
/// `box_<id>__<file name>`.
pub open spec fn stored_name(id: nat, file_name: Seq<char>) -> Seq<char> {
    seq!['b', 'o', 'x', '_'] + decimal_chars(id) + seq!['_', '_'] + file_name
}

pub open spec fn file_field_decision(id: u8, file_name: Seq<char>) -> (UploadPhase, Decision) {
    if file_name.len() == 0 {
        (UploadPhase::Finished, Decision::Fail(UploadError::MissingFilename))
    } else {
        (UploadPhase::Storing { id }, Decision::Store(stored_name(id as nat, file_name)))
    }
}

/// The next phase and what is decided, for a pool whose occupancy is `occ`.
pub open spec fn decide(occ: Seq<bool>, phase: UploadPhase, event: UploadEvent) -> (
    UploadPhase,
    Decision,
) {
    match phase {
        UploadPhase::AwaitingSlot => match event {
            UploadEvent::SlotField { text } => match slot_id_of(text@, occ.len()) {
                None => (UploadPhase::Finished, Decision::Fail(UploadError::InvalidSlotId)),
                Some(id) => if occ[id as int] {
                    (UploadPhase::Finished, Decision::Fail(UploadError::SlotOccupied))
                } else {
                    (UploadPhase::SlotChecked { id: id as u8 }, Decision::Next)
                },
            },
            _ => (UploadPhase::Finished, Decision::Fail(UploadError::InvalidSlotId)),
        },
        UploadPhase::SlotChecked { id } => match event {
            UploadEvent::FileField { file_name } => file_field_decision(id, file_name@),
            UploadEvent::EndOfStream => (
                UploadPhase::Finished,
                Decision::Fail(UploadError::MissingFilename),
            ),
            _ => (UploadPhase::Finished, Decision::Fail(UploadError::Malformed)),
        },
        UploadPhase::Storing { id } => match event {
            UploadEvent::FileStored => (UploadPhase::Stored { id }, Decision::Next),
            UploadEvent::StoreFailed { cause } => (
                UploadPhase::Finished,
                Decision::Fail(UploadError::Storage { cause }),
            ),
            _ => (UploadPhase::Finished, Decision::Fail(UploadError::Malformed)),
        },
        UploadPhase::Stored { id } => match event {
            UploadEvent::FileField { file_name } => file_field_decision(id, file_name@),
            UploadEvent::EndOfStream => match occupy_outcome(occ, id as int) {
                Ok(_) => (UploadPhase::Finished, Decision::Commit),
                Err(OccupyError::AlreadyOccupied) => (
                    UploadPhase::Finished,
                    Decision::Fail(UploadError::SlotOccupied),
                ),
                Err(OccupyError::NotFound) => (
                    UploadPhase::Finished,
                    Decision::Fail(UploadError::InvalidSlotId),
                ),
            },
            _ => (UploadPhase::Finished, Decision::Fail(UploadError::Malformed)),
        },
        UploadPhase::Finished => (UploadPhase::Finished, Decision::Fail(UploadError::Malformed)),
    }
}

/// The action carries out the decision; a commit replies with success and
/// the slots as they are after it.
pub open spec fn carries_out(d: Decision, action: UploadAction, occ: Seq<bool>) -> bool {
    match d {
        Decision::Next => action is ReadNextField,
        Decision::Store(name) => match action {
            UploadAction::StoreFile { name: n } => n@ == name,
            _ => false,
        },
        Decision::Fail(e) => action == UploadAction::Reply { result: Err(e) },
        Decision::Commit => match action {
            UploadAction::Reply { result: Ok(resp) } => resp.success && lists_slots(
                resp.list@,
                occ,
            ),
            _ => false,
        },
    }
}

/// The name under which an upload for slot `id` is stored.
pub fn stored_file_name(id: u8, file_name: &str) -> (r: String)
    ensures
        r@ == stored_name(id as nat, file_name@),
{
    let mut s = String::from_str("box_");
    proof {
        reveal_strlit("box_");
        reveal_strlit("__");
    }
    push_decimal(&mut s, id);
    s.append("__");
    s.append(file_name);
    s
}

fn file_field_step(id: u8, file_name: String) -> (r: (UploadPhase, UploadAction))
    ensures
        r.0 == file_field_decision(id, file_name@).0,
        carries_out(file_field_decision(id, file_name@).1, r.1, Seq::empty()),
{
    if file_name.as_str().is_empty() {
        (UploadPhase::Finished, UploadAction::Reply { result: Err(UploadError::MissingFilename) })
    } else {
        (UploadPhase::Storing { id }, UploadAction::StoreFile { name: stored_file_name(id, file_name.as_str()) })
    }
}

/// One step of an upload request. Before any file is written the slot field
/// must name a free slot of the pool and each file field must carry a file
/// name; the slot is claimed only at the end of the stream, after every file
/// was stored, and only if it is still free then. The registry changes only
/// by that claim.
pub fn upload_step(reg: &mut SlotRegistry, phase: UploadPhase, event: UploadEvent) -> (r: (
    UploadPhase,
    UploadAction,
))
    requires
        old(reg).wf(),
    ensures
        final(reg).wf(),
        final(reg)@ == if decide(old(reg)@, phase, event).1 is Commit {
            after_occupy(old(reg)@, phase->Stored_id as int)
        } else {
            old(reg)@
        },
        r.0 == decide(old(reg)@, phase, event).0,
        carries_out(decide(old(reg)@, phase, event).1, r.1, final(reg)@),
{
    let finish_with = |e: UploadError| -> (r: (UploadPhase, UploadAction))
        ensures
            r == (UploadPhase::Finished, UploadAction::Reply { result: Err(e) }),
        { (UploadPhase::Finished, UploadAction::Reply { result: Err(e) }) };
    match phase {
        UploadPhase::AwaitingSlot => match event {
            UploadEvent::SlotField { text } => {
                let cap = reg.capacity();
                match parse_slot_id(text.as_slice(), cap) {
                    None => finish_with(UploadError::InvalidSlotId),
                    Some(id) => {
                        if reg.is_in_use(id as usize) == Some(true) {
                            finish_with(UploadError::SlotOccupied)
                        } else {
                            (UploadPhase::SlotChecked { id }, UploadAction::ReadNextField)
                        }
                    },
                }
            },
            _ => finish_with(UploadError::InvalidSlotId),
        },
        UploadPhase::SlotChecked { id } => match event {
            UploadEvent::FileField { file_name } => file_field_step(id, file_name),
            UploadEvent::EndOfStream => finish_with(UploadError::MissingFilename),
            _ => finish_with(UploadError::Malformed),
        },
        UploadPhase::Storing { id } => match event {
            UploadEvent::FileStored => (UploadPhase::Stored { id }, UploadAction::ReadNextField),
            UploadEvent::StoreFailed { cause } => finish_with(UploadError::Storage { cause }),
            _ => finish_with(UploadError::Malformed),
        },
        UploadPhase::Stored { id } => match event {
            UploadEvent::FileField { file_name } => file_field_step(id, file_name),
            UploadEvent::EndOfStream => match reg.try_occupy(id as usize) {
                Ok(()) => {
                    let mut response = UploadResponse::new(true);
                    response.update_list(reg.snapshot());
                    (UploadPhase::Finished, UploadAction::Reply { result: Ok(response) })
                },
                Err(OccupyError::AlreadyOccupied) => finish_with(UploadError::SlotOccupied),
                Err(OccupyError::NotFound) => finish_with(UploadError::InvalidSlotId),
            },
            _ => finish_with(UploadError::Malformed),
        },
        UploadPhase::Finished => finish_with(UploadError::Malformed),
    }
}

/// Every slot as it stands now.
pub fn check_box_status(reg: &SlotRegistry) -> (r: CheckResponse)
    requires
        reg.wf(),
    ensures
        lists_slots(r.list@, reg@),
{
    CheckResponse { list: reg.snapshot() }
}

/// A slot field that names no slot of the pool (a number at or above the
/// capacity, a sign, other text, nothing) ends the upload with
/// `InvalidSlotId`; nothing is stored or claimed.
pub proof fn lemma_unknown_slot_rejected(occ: Seq<bool>, text: Vec<u8>)
    requires
        slot_id_of(text@, occ.len()) is None,
    ensures
        decide(occ, UploadPhase::AwaitingSlot, UploadEvent::SlotField { text }) == (
            UploadPhase::Finished,
            Decision::Fail(UploadError::InvalidSlotId),
        ),
{
}

/// A file field with an empty file name never leads to a file being stored
/// or a slot being claimed; once the slot is named, it ends the upload with
/// `MissingFilename`.
pub proof fn lemma_empty_file_name_rejected(occ: Seq<bool>, phase: UploadPhase, file_name: String)
    requires
        file_name@.len() == 0,
    ensures
        !(decide(occ, phase, UploadEvent::FileField { file_name }).1 is Store),
        !(decide(occ, phase, UploadEvent::FileField { file_name }).1 is Commit),
        phase is SlotChecked || phase is Stored ==> decide(
            occ,
            phase,
            UploadEvent::FileField { file_name },
        ) == (UploadPhase::Finished, Decision::Fail(UploadError::MissingFilename)),
{
}

} // verus!
