use srt_cli::boundary::{
    Context, I64Slot, ManualTaskPlan, INVALID_POINTER, INVALID_STRING, SUCCESS,
    UNKNOWN_TASK_DATA_KEY,
};
use srt_cli::boundary::{
    srt_did_run_element, srt_handle_manual_task, srt_task_data_delete, srt_task_data_get_int64,
    srt_task_data_set_int64, srt_will_run_element,
};
use srt_cli::text::Buffer;

fn text_buffer(s: &str) -> Buffer {
    Buffer::Bytes(s.as_bytes().to_vec())
}

fn slot_value(slot: &I64Slot) -> i64 {
    match slot {
        I64Slot::Value(v) => *v,
        I64Slot::Null => panic!("expected a value in the slot"),
    }
}

#[test]
fn set_get_task_data_int64() {
    let mut ctx = Context::default();
    let key = text_buffer("some_var");
    let expected = 77;

    let result = srt_task_data_set_int64(&mut ctx, &key, expected);

    assert_eq!(result, SUCCESS);

    let mut value = I64Slot::Value(0);
    let result = srt_task_data_get_int64(&ctx, &key, &mut value);

    assert_eq!(result, SUCCESS);
    assert_eq!(slot_value(&value), expected);
}

#[test]
fn set_delete_task_data_int64() {
    let mut ctx = Context::default();
    let key = text_buffer("some_var");

    let result = srt_task_data_set_int64(&mut ctx, &key, 55);

    assert_eq!(result, SUCCESS);

    let result = srt_task_data_delete(&mut ctx, &key);

    assert_eq!(result, SUCCESS);

    let mut value = I64Slot::Value(0);
    let result = srt_task_data_get_int64(&ctx, &key, &mut value);

    assert_eq!(result, UNKNOWN_TASK_DATA_KEY);
}

#[test]
fn get_unset_task_data_int64() {
    let mut ctx = Context::default();
    let key = text_buffer("some_var");

    let mut value = I64Slot::Value(300);
    let result = srt_task_data_get_int64(&mut ctx, &key, &mut value);

    assert_eq!(result, UNKNOWN_TASK_DATA_KEY);
    assert_eq!(slot_value(&value), 300);
}

#[test]
fn delete_unset_task_data_int64() {
    let mut ctx = Context::default();
    let key = text_buffer("some_var");

    let result = srt_task_data_delete(&mut ctx, &key);

    assert_eq!(result, UNKNOWN_TASK_DATA_KEY);
}

#[test]
fn get_with_null_output_location() {
    let mut ctx = Context::default();
    let key = text_buffer("some_var");
    assert_eq!(srt_task_data_set_int64(&mut ctx, &key, 9), SUCCESS);

    let mut out = I64Slot::Null;
    assert_eq!(srt_task_data_get_int64(&ctx, &key, &mut out), INVALID_POINTER);
    assert!(matches!(out, I64Slot::Null));
}

#[test]
fn set_with_invalid_key() {
    let mut ctx = Context::default();

    assert_eq!(
        srt_task_data_set_int64(&mut ctx, &Buffer::Null(8), 1),
        INVALID_STRING
    );
    assert_eq!(
        srt_task_data_set_int64(&mut ctx, &Buffer::Bytes(vec![0xFF, 0x41]), 1),
        INVALID_STRING
    );

    // Nothing was stored under any reading of those buffers.
    let mut out = I64Slot::Value(0);
    let empty = Buffer::Bytes(Vec::new());
    assert_eq!(
        srt_task_data_get_int64(&ctx, &empty, &mut out),
        UNKNOWN_TASK_DATA_KEY
    );
}

#[test]
fn overwrite_then_get_sees_new_value() {
    let mut ctx = Context::default();
    let key = text_buffer("x");

    assert_eq!(srt_task_data_set_int64(&mut ctx, &key, 1), SUCCESS);
    assert_eq!(srt_task_data_set_int64(&mut ctx, &key, 2), SUCCESS);

    let mut out = I64Slot::Value(0);
    assert_eq!(srt_task_data_get_int64(&ctx, &key, &mut out), SUCCESS);
    assert_eq!(slot_value(&out), 2);
}

#[test]
fn set_delete_get_sequence_leaves_slot_untouched() {
    let mut ctx = Context::default();
    let key = text_buffer("x");

    assert_eq!(srt_task_data_set_int64(&mut ctx, &key, 77), SUCCESS);
    assert_eq!(srt_task_data_delete(&mut ctx, &key), SUCCESS);

    let mut out = I64Slot::Value(123);
    assert_eq!(
        srt_task_data_get_int64(&ctx, &key, &mut out),
        UNKNOWN_TASK_DATA_KEY
    );
    assert_eq!(slot_value(&out), 123);
}

#[test]
fn will_and_did_run_element_validate_both_ids() {
    let ctx = Context::default();
    let process = text_buffer("proc_1");
    let element = text_buffer("step_1");

    assert_eq!(srt_will_run_element(&ctx, &process, &element), SUCCESS);
    assert_eq!(srt_did_run_element(&ctx, &process, &element), SUCCESS);

    let bad = Buffer::Null(4);
    assert_eq!(srt_will_run_element(&ctx, &bad, &element), INVALID_STRING);
    assert_eq!(srt_will_run_element(&ctx, &process, &bad), INVALID_STRING);
    assert_eq!(srt_did_run_element(&ctx, &bad, &bad), INVALID_STRING);
}

#[test]
fn zero_length_buffer_is_accepted() {
    let ctx = Context::default();

    // A non-null buffer of length zero decodes to empty text.
    let empty_bytes = Buffer::Bytes(Vec::new());
    assert_eq!(empty_bytes.decode(), Some(Vec::new()));
    assert_eq!(
        srt_will_run_element(&ctx, &empty_bytes, &empty_bytes),
        SUCCESS
    );

    // A null pointer with a nonzero length is rejected.
    let null_with_len = Buffer::Null(5);
    assert_eq!(null_with_len.decode(), None);
    assert_eq!(
        srt_will_run_element(&ctx, &null_with_len, &empty_bytes),
        INVALID_STRING
    );
}

#[test]
fn manual_task_with_instructions() {
    let ctx = Context::default();
    let plan: ManualTaskPlan = srt_handle_manual_task(
        &ctx,
        &text_buffer("step_1"),
        &text_buffer("read the manual"),
        true,
    );

    assert_eq!(plan.status, SUCCESS);
    assert_eq!(plan.title, Some(b"step_1".to_vec()));
    assert_eq!(plan.instructions, Some(b"read the manual".to_vec()));
    assert!(plan.wait_for_input);
}

#[test]
fn manual_task_empty_instructions_skips_validation() {
    let ctx = Context::default();

    // Zero length means "no instructions": no validation, no instructions
    // line, whatever the pointer.
    let plan = srt_handle_manual_task(&ctx, &text_buffer("step_1"), &Buffer::Null(0), false);
    assert_eq!(plan.status, SUCCESS);
    assert_eq!(plan.title, Some(b"step_1".to_vec()));
    assert_eq!(plan.instructions, None);
    assert!(!plan.wait_for_input);

    let plan = srt_handle_manual_task(
        &ctx,
        &text_buffer("step_1"),
        &Buffer::Bytes(Vec::new()),
        true,
    );
    assert_eq!(plan.status, SUCCESS);
    assert_eq!(plan.instructions, None);
    assert!(plan.wait_for_input);
}

#[test]
fn manual_task_invalid_instructions_keep_title() {
    let ctx = Context::default();
    let plan = srt_handle_manual_task(
        &ctx,
        &text_buffer("step_1"),
        &Buffer::Bytes(vec![0xC3, 0x28]),
        true,
    );

    // The title was already owed before the instructions failed validation.
    assert_eq!(plan.status, INVALID_STRING);
    assert_eq!(plan.title, Some(b"step_1".to_vec()));
    assert_eq!(plan.instructions, None);
    assert!(!plan.wait_for_input);
}

#[test]
fn manual_task_invalid_element_id() {
    let ctx = Context::default();
    let plan = srt_handle_manual_task(
        &ctx,
        &Buffer::Bytes(vec![0x80]),
        &text_buffer("irrelevant"),
        true,
    );

    assert_eq!(plan.status, INVALID_STRING);
    assert_eq!(plan.title, None);
    assert_eq!(plan.instructions, None);
    assert!(!plan.wait_for_input);
}

#[test]
fn manual_task_non_interactive_never_waits() {
    let ctx = Context::default();
    let plan = srt_handle_manual_task(
        &ctx,
        &text_buffer("step_1"),
        &text_buffer("do the thing"),
        false,
    );

    assert_eq!(plan.status, SUCCESS);
    assert!(!plan.wait_for_input);
}
