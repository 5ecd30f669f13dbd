//! The boundary layer: the entry points an external orchestrator calls.
//!
//! Each operation validates its raw buffer arguments, dispatches to the
//! task-data store or describes the I/O the surrounding program must
//! perform, and answers with a status code.

use vstd::prelude::*;

use crate::state::State;
use crate::state::ValueModel;
use crate::state::i64_of;
use crate::text::Buffer;

verus! {

/// Status code: the call succeeded.
pub const SUCCESS: i32 = 0;

/// Status code: a buffer argument was not valid text.
pub const INVALID_STRING: i32 = 1;

/// Status code: a store lookup or delete found no usable entry.
pub const UNKNOWN_TASK_DATA_KEY: i32 = 2;

/// Status code: a null destination was given for a value to be written.
pub const INVALID_POINTER: i32 = 3;

/// Per-run state: the owner of exactly one task-data store. Created once
/// before the orchestrator starts the run, destroyed when the run ends.
pub struct Context {
    pub task_data: State,
}

impl Context {
    /// A fresh context with an empty store.
    pub fn new() -> (c: Context)
        ensures
            c.task_data@ == Map::<Seq<u8>, ValueModel>::empty(),
    {
        Context { task_data: State::new() }
    }
}

impl Default for Context {
    fn default() -> (c: Context)
        ensures
            c.task_data@ == Map::<Seq<u8>, ValueModel>::empty(),
    {
        Context::new()
    }
}

/// Lifecycle hook: the orchestrator is about to run an element. Both
/// identifiers are validated; the store is untouched. The informational
/// line `will run {process_id}_{element_id}` is the surrounding program's
/// to emit on success, on the logging channel.
pub fn srt_will_run_element(_ctx: &Context, process_id: &Buffer, element_id: &Buffer) -> (status:
    i32)
    ensures
        status == (if process_id.is_valid_text() && element_id.is_valid_text() {
            SUCCESS
        } else {
            INVALID_STRING
        }),
{
    if !process_id.is_valid() {
        return INVALID_STRING;
    }
    if !element_id.is_valid() {
        return INVALID_STRING;
    }
    SUCCESS
}

/// Lifecycle hook: the orchestrator finished running an element. Identical
/// validation contract to the will-run hook; the line to log on success is
/// `did run {process_id}_{element_id}`.
pub fn srt_did_run_element(_ctx: &Context, process_id: &Buffer, element_id: &Buffer) -> (status:
    i32)
    ensures
        status == (if process_id.is_valid_text() && element_id.is_valid_text() {
            SUCCESS
        } else {
            INVALID_STRING
        }),
{
    if !process_id.is_valid() {
        return INVALID_STRING;
    }
    if !element_id.is_valid() {
        return INVALID_STRING;
    }
    SUCCESS
}

/// What handling a manual task asks the surrounding program to do, in
/// order: show the title, show the instructions line, then either prompt
/// and block for one line of operator input or note that the task completes
/// by itself.
pub struct ManualTaskPlan {
    /// The status code to hand back to the orchestrator.
    pub status: i32,
    /// The element id to show in the task title, present as soon as the
    /// element id validates.
    pub title: Option<Vec<u8>>,
    /// The instructions line to show, present only when instructions were
    /// given (nonzero length) and validate.
    pub instructions: Option<Vec<u8>>,
    /// Whether to prompt and block reading one line of operator input.
    pub wait_for_input: bool,
}

/// Handles a manual task. The element id is validated always; the
/// instructions buffer only when its length is nonzero — a zero-length
/// instructions buffer means "no instructions" and is never validated,
/// whatever its pointer. Output already owed before a failing validation is
/// not taken back: the title stands in the plan even when the instructions
/// fail. Blocking for operator input happens only on success and only when
/// the input stream is interactive, which the caller decides by a static
/// capability check on the stream.
pub fn srt_handle_manual_task(
    _ctx: &Context,
    element_id: &Buffer,
    instructions: &Buffer,
    interactive: bool,
) -> (plan: ManualTaskPlan)
    ensures
        !element_id.is_valid_text() ==> plan.status == INVALID_STRING && plan.title is None,
        element_id.is_valid_text() ==> (plan.title matches Some(t) && t@ == element_id.text()),
        element_id.is_valid_text() && instructions.spec_len() == 0 ==> plan.status == SUCCESS,
        element_id.is_valid_text() && instructions.spec_len() > 0
            && !instructions.is_valid_text() ==> plan.status == INVALID_STRING,
        element_id.is_valid_text() && instructions.spec_len() > 0
            && instructions.is_valid_text() ==> plan.status == SUCCESS && (
        plan.instructions matches Some(t) && t@ == instructions.text()),
        instructions.spec_len() == 0 || !instructions.is_valid_text() || !element_id.is_valid_text()
            ==> plan.instructions is None,
        plan.wait_for_input == (plan.status == SUCCESS && interactive),
{
    let title = match element_id.decode() {
        Some(t) => t,
        None => {
            return ManualTaskPlan {
                status: INVALID_STRING,
                title: None,
                instructions: None,
                wait_for_input: false,
            };
        },
    };
    if instructions.len() > 0 {
        match instructions.decode() {
            Some(line) => ManualTaskPlan {
                status: SUCCESS,
                title: Some(title),
                instructions: Some(line),
                wait_for_input: interactive,
            },
            None => ManualTaskPlan {
                status: INVALID_STRING,
                title: Some(title),
                instructions: None,
                wait_for_input: false,
            },
        }
    } else {
        ManualTaskPlan {
            status: SUCCESS,
            title: Some(title),
            instructions: None,
            wait_for_input: interactive,
        }
    }
}

/// Stores `value` as a 64-bit-integer-typed entry under `key`, overwriting
/// any existing entry of any type. On an invalid key nothing is stored.
pub fn srt_task_data_set_int64(ctx: &mut Context, key: &Buffer, value: i64) -> (status: i32)
    ensures
        key.is_valid_text() ==> status == SUCCESS
            && final(ctx).task_data@
            == old(ctx).task_data@.insert(key.text(), ValueModel::Int64(value)),
        !key.is_valid_text() ==> status == INVALID_STRING
            && final(ctx).task_data@ == old(ctx).task_data@,
{
    match key.decode() {
        Some(k) => {
            let _ = ctx.task_data.set_i64(&k, value);
            SUCCESS
        },
        None => INVALID_STRING,
    }
}

/// The host's output location for a 64-bit integer: either null, or a
/// writable cell with its current contents.
pub enum I64Slot {
    Null,
    Value(i64),
}

/// Looks `key` up and writes the integer found into `out_value`. The key is
/// validated first; a null output location is reported before the lookup; a
/// key that is absent or not integer-typed is reported as unknown. In every
/// case but a hit the output location is left untouched, and the store is
/// never changed.
pub fn srt_task_data_get_int64(ctx: &Context, key: &Buffer, out_value: &mut I64Slot) -> (status:
    i32)
    ensures
        !key.is_valid_text() ==> status == INVALID_STRING && *final(out_value) == *old(out_value),
        key.is_valid_text() && *old(out_value) is Null ==> status == INVALID_POINTER
            && *final(out_value) == *old(out_value),
        key.is_valid_text() && *old(out_value) !is Null ==> (i64_of(ctx.task_data@, key.text())
            matches Some(v) ==> status == SUCCESS && *final(out_value) == I64Slot::Value(v)),
        key.is_valid_text() && *old(out_value) !is Null && i64_of(ctx.task_data@, key.text())
            is None ==> status == UNKNOWN_TASK_DATA_KEY && *final(out_value) == *old(out_value),
{
    let k = match key.decode() {
        Some(k) => k,
        None => {
            return INVALID_STRING;
        },
    };
    match out_value {
        I64Slot::Null => INVALID_POINTER,
        I64Slot::Value(cell) => {
            match ctx.task_data.get_i64(&k) {
                Some(v) => {
                    *cell = v;
                    SUCCESS
                },
                None => UNKNOWN_TASK_DATA_KEY,
            }
        },
    }
}

/// Removes the entry under `key`. The key is validated first; removing a
/// present key succeeds, an absent key is reported as unknown, and a failed
/// call leaves the store as it was.
pub fn srt_task_data_delete(ctx: &mut Context, key: &Buffer) -> (status: i32)
    ensures
        !key.is_valid_text() ==> status == INVALID_STRING
            && final(ctx).task_data@ == old(ctx).task_data@,
        key.is_valid_text() && old(ctx).task_data@.contains_key(key.text()) ==> status == SUCCESS
            && final(ctx).task_data@ == old(ctx).task_data@.remove(key.text()),
        key.is_valid_text() && !old(ctx).task_data@.contains_key(key.text()) ==> status
            == UNKNOWN_TASK_DATA_KEY && final(ctx).task_data@ == old(ctx).task_data@,
{
    match key.decode() {
        Some(k) => {
            match ctx.task_data.delete(&k) {
                Some(_) => SUCCESS,
                None => {
                    proof {
                        assert(old(ctx).task_data@.remove(k@) =~= old(ctx).task_data@);
                    }
                    UNKNOWN_TASK_DATA_KEY
                },
            }
        },
        None => INVALID_STRING,
    }
}

} // verus!
