use pan_server::{
    stored_file_name, upload_step, SlotRegistry, UploadAction, UploadError, UploadEvent,
    UploadPhase, MAX_BOXES,
};

fn slot_field(text: &str) -> UploadEvent {
    UploadEvent::SlotField { text: text.as_bytes().to_vec() }
}

fn file_field(name: &str) -> UploadEvent {
    UploadEvent::FileField { file_name: name.to_string() }
}

fn reply_error(action: UploadAction) -> UploadError {
    match action {
        UploadAction::Reply { result: Err(e) } => e,
        other => panic!("expected an error reply, got {:?}", other),
    }
}

/// Runs a whole request whose file writes all succeed; returns the final
/// action and the names of the files that were to be stored.
fn run(reg: &mut SlotRegistry, events: Vec<UploadEvent>) -> (UploadAction, Vec<String>) {
    let mut phase = UploadPhase::AwaitingSlot;
    let mut stored = Vec::new();
    let mut last = UploadAction::ReadNextField;
    for event in events {
        let (next, action) = upload_step(reg, phase, event);
        phase = next;
        last = match action {
            UploadAction::StoreFile { name } => {
                stored.push(name);
                let (next, action) = upload_step(reg, phase, UploadEvent::FileStored);
                phase = next;
                action
            }
            other => other,
        };
        if phase == UploadPhase::Finished {
            break;
        }
    }
    (last, stored)
}

#[test]
fn stored_name_embeds_slot_and_file_name() {
    assert_eq!(stored_file_name(3, "photo.png"), "box_3__photo.png");
    assert_eq!(stored_file_name(24, "a"), "box_24__a");
}

#[test]
fn upload_claims_free_slot() {
    let mut reg = SlotRegistry::new(MAX_BOXES);
    let (action, stored) =
        run(&mut reg, vec![slot_field("7"), file_field("notes.txt"), UploadEvent::EndOfStream]);
    assert_eq!(stored, vec!["box_7__notes.txt".to_string()]);
    match action {
        UploadAction::Reply { result: Ok(resp) } => {
            assert!(resp.success);
            assert_eq!(resp.list.len(), 25);
            assert_eq!(resp.list[7].id, 7);
            assert!(resp.list[7].in_use);
            assert_eq!(resp.list.iter().filter(|b| b.in_use).count(), 1);
        }
        other => panic!("expected success, got {:?}", other),
    }
    assert_eq!(reg.is_in_use(7), Some(true));
}

#[test]
fn upload_to_occupied_slot_is_rejected_before_storing() {
    let mut reg = SlotRegistry::new(MAX_BOXES);
    reg.try_occupy(2).unwrap();
    let (action, stored) =
        run(&mut reg, vec![slot_field("2"), file_field("x.bin"), UploadEvent::EndOfStream]);
    assert!(stored.is_empty());
    assert!(matches!(reply_error(action), UploadError::SlotOccupied));
}

#[test]
fn upload_to_unknown_slot_is_rejected() {
    for text in ["25", "-1", "", "  ", "abc"] {
        let mut reg = SlotRegistry::new(MAX_BOXES);
        let before = reg.snapshot();
        let (action, stored) =
            run(&mut reg, vec![slot_field(text), file_field("x.bin"), UploadEvent::EndOfStream]);
        assert!(stored.is_empty());
        assert!(matches!(reply_error(action), UploadError::InvalidSlotId));
        assert_eq!(reg.snapshot(), before);
    }
}

#[test]
fn upload_with_empty_file_name_stores_nothing() {
    let mut reg = SlotRegistry::new(MAX_BOXES);
    let (action, stored) =
        run(&mut reg, vec![slot_field("4"), file_field(""), UploadEvent::EndOfStream]);
    assert!(stored.is_empty());
    assert!(matches!(reply_error(action), UploadError::MissingFilename));
    assert_eq!(reg.is_in_use(4), Some(false));
}

#[test]
fn upload_without_file_is_rejected() {
    let mut reg = SlotRegistry::new(MAX_BOXES);
    let (action, _) = run(&mut reg, vec![slot_field("4"), UploadEvent::EndOfStream]);
    assert!(matches!(reply_error(action), UploadError::MissingFilename));
    assert_eq!(reg.in_use_count(), 0);
}

#[test]
fn file_before_slot_field_is_rejected() {
    let mut reg = SlotRegistry::new(MAX_BOXES);
    let (action, stored) = run(&mut reg, vec![file_field("x.bin"), slot_field("1")]);
    assert!(stored.is_empty());
    assert!(matches!(reply_error(action), UploadError::InvalidSlotId));
}

#[test]
fn second_slot_field_is_malformed() {
    let mut reg = SlotRegistry::new(MAX_BOXES);
    let (action, _) = run(&mut reg, vec![slot_field("1"), slot_field("2")]);
    assert!(matches!(reply_error(action), UploadError::Malformed));
}

#[test]
fn storage_failure_leaves_slot_free() {
    let mut reg = SlotRegistry::new(MAX_BOXES);
    let (phase, _) = upload_step(&mut reg, UploadPhase::AwaitingSlot, slot_field("9"));
    assert_eq!(phase, UploadPhase::SlotChecked { id: 9 });
    let (phase, action) = upload_step(&mut reg, phase, file_field("big.iso"));
    assert_eq!(phase, UploadPhase::Storing { id: 9 });
    assert!(matches!(action, UploadAction::StoreFile { ref name } if name == "box_9__big.iso"));
    let (phase, action) = upload_step(
        &mut reg,
        phase,
        UploadEvent::StoreFailed { cause: "disk full".to_string() },
    );
    assert_eq!(phase, UploadPhase::Finished);
    match reply_error(action) {
        UploadError::Storage { cause } => assert_eq!(cause, "disk full"),
        other => panic!("expected a storage error, got {:?}", other),
    }
    assert_eq!(reg.is_in_use(9), Some(false));
}

#[test]
fn race_lost_at_commit_reports_conflict() {
    let mut reg = SlotRegistry::new(MAX_BOXES);
    let (a, _) = upload_step(&mut reg, UploadPhase::AwaitingSlot, slot_field("11"));
    let (b, _) = upload_step(&mut reg, UploadPhase::AwaitingSlot, slot_field("11"));
    let (a, _) = upload_step(&mut reg, a, file_field("a.txt"));
    let (b, _) = upload_step(&mut reg, b, file_field("b.txt"));
    let (a, _) = upload_step(&mut reg, a, UploadEvent::FileStored);
    let (b, _) = upload_step(&mut reg, b, UploadEvent::FileStored);
    let (_, first) = upload_step(&mut reg, a, UploadEvent::EndOfStream);
    let (_, second) = upload_step(&mut reg, b, UploadEvent::EndOfStream);
    assert!(matches!(first, UploadAction::Reply { result: Ok(_) }));
    assert!(matches!(reply_error(second), UploadError::SlotOccupied));
    assert_eq!(reg.in_use_count(), 1);
}

#[test]
fn several_files_for_one_slot() {
    let mut reg = SlotRegistry::new(MAX_BOXES);
    let (action, stored) = run(
        &mut reg,
        vec![slot_field("0"), file_field("a"), file_field("b"), UploadEvent::EndOfStream],
    );
    assert_eq!(stored, vec!["box_0__a".to_string(), "box_0__b".to_string()]);
    assert!(matches!(action, UploadAction::Reply { result: Ok(_) }));
}

#[test]
fn finished_request_takes_no_more_events() {
    let mut reg = SlotRegistry::new(MAX_BOXES);
    let (phase, action) = upload_step(&mut reg, UploadPhase::Finished, UploadEvent::EndOfStream);
    assert_eq!(phase, UploadPhase::Finished);
    assert!(matches!(reply_error(action), UploadError::Malformed));
}
