//! Handles of submitted executions, and the errors of the execution API.

use crate::text::{decimal, push_decimal};
use vstd::prelude::*;

verus! {

/// Stable, package-qualified identity of the Provider.
pub const CUDA_PROVIDER_NAME: &'static str = "magnetar:provider/cuda";

/// The category of an execution error.
#[derive(Clone, Copy, Debug, PartialEq, Eq, Structural)]
pub enum ProviderExecutionErrorCode {
    MaterializationFailed,
    ExecutionFailed,
}

/// The phase of an execution in which an error came up.
#[derive(Clone, Copy, Debug, PartialEq, Eq, Structural)]
pub enum ProviderExecutionPhase {
    Submit,
    Observe,
    Complete,
}

/// An error of the execution API.
#[derive(Clone, Debug, PartialEq, Eq)]
pub struct ProviderExecutionError {
    pub code: ProviderExecutionErrorCode,
    pub phase: ProviderExecutionPhase,
    pub provider: String,
    pub device: Option<String>,
    pub message: String,
}

/// What a [`ProviderExecutionError`] says.
pub struct ProviderExecutionErrorView {
    pub code: ProviderExecutionErrorCode,
    pub phase: ProviderExecutionPhase,
    pub provider: Seq<char>,
    pub device: Option<Seq<char>>,
    pub message: Seq<char>,
}

/// The text of an owned one, where there is one.
pub open spec fn optional_text(text: Option<String>) -> Option<Seq<char>> {
    match text {
        Some(text) => Some(text@),
        None => None,
    }
}

pub(crate) fn copy_optional_text(text: &Option<String>) -> (copy: Option<String>)
    ensures
        copy == *text,
{
    match text {
        Some(text) => Some(text.clone()),
        None => None,
    }
}

impl View for ProviderExecutionError {
    type V = ProviderExecutionErrorView;

    open spec fn view(&self) -> ProviderExecutionErrorView {
        ProviderExecutionErrorView {
            code: self.code,
            phase: self.phase,
            provider: self.provider@,
            device: optional_text(self.device),
            message: self.message@,
        }
    }
}

/// A request to execute a plan.
#[derive(Debug)]
pub struct ProviderExecutionRequest {
    pub operation: u64,
    pub plan: String,
    pub provider: String,
    pub device: Option<String>,
}

/// The handle of a submitted execution.
#[derive(Clone, Debug, PartialEq, Eq)]
pub struct ProviderExecutionHandle {
    pub id: String,
    pub operation: u64,
    pub plan: String,
    pub provider: String,
    pub device: Option<String>,
}

/// What a [`ProviderExecutionHandle`] says.
pub struct ProviderExecutionHandleView {
    pub id: Seq<char>,
    pub operation: u64,
    pub plan: Seq<char>,
    pub provider: Seq<char>,
    pub device: Option<Seq<char>>,
}

impl View for ProviderExecutionHandle {
    type V = ProviderExecutionHandleView;

    open spec fn view(&self) -> ProviderExecutionHandleView {
        ProviderExecutionHandleView {
            id: self.id@,
            operation: self.operation,
            plan: self.plan@,
            provider: self.provider@,
            device: optional_text(self.device),
        }
    }
}

/// The handle of a request that is submitted under an execution id.
pub open spec fn handle_of(
    request: ProviderExecutionRequest,
    id: Seq<char>,
) -> ProviderExecutionHandleView {
    ProviderExecutionHandleView {
        id,
        operation: request.operation,
        plan: request.plan@,
        provider: request.provider@,
        device: optional_text(request.device),
    }
}

impl ProviderExecutionHandle {
    /// The handle of a request that is submitted under an execution id.
    pub fn new(request: &ProviderExecutionRequest, id: String) -> (handle: ProviderExecutionHandle)
        ensures
            handle@ == handle_of(*request, id@),
    {
        ProviderExecutionHandle {
            id,
            operation: request.operation,
            plan: request.plan.clone(),
            provider: request.provider.clone(),
            device: copy_optional_text(&request.device),
        }
    }

    /// The same handle once more.
    pub fn copy(&self) -> (copy: ProviderExecutionHandle)
        ensures
            copy == *self,
    {
        ProviderExecutionHandle {
            id: self.id.clone(),
            operation: self.operation,
            plan: self.plan.clone(),
            provider: self.provider.clone(),
            device: copy_optional_text(&self.device),
        }
    }
}

/// The error that a handle without an execution gives.
pub open spec fn unknown_handle_error(
    handle: ProviderExecutionHandleView,
    phase: ProviderExecutionPhase,
    message: Seq<char>,
) -> ProviderExecutionErrorView {
    ProviderExecutionErrorView {
        code: ProviderExecutionErrorCode::ExecutionFailed,
        phase,
        provider: handle.provider,
        device: handle.device,
        message,
    }
}

pub(crate) fn unknown_handle(
    handle: &ProviderExecutionHandle,
    phase: ProviderExecutionPhase,
    message: &str,
) -> (error: ProviderExecutionError)
    ensures
        error@ == unknown_handle_error(handle@, phase, message@),
{
    ProviderExecutionError {
        code: ProviderExecutionErrorCode::ExecutionFailed,
        phase,
        provider: handle.provider.clone(),
        device: copy_optional_text(&handle.device),
        message: message.to_owned(),
    }
}

/// The state of a submitted execution. Executions are synchronous, so one
/// that is known has completed.
#[derive(Clone, Copy, Debug, PartialEq, Eq, Structural)]
pub enum SchedulingState {
    Completed,
}

/// The status of a submitted execution.
#[derive(Debug)]
pub struct ProviderExecutionStatus {
    pub handle: ProviderExecutionHandle,
    pub state: SchedulingState,
}

/// The result of a submitted execution: no tensors leave through it.
#[derive(Debug)]
pub struct ProviderExecutionResult {
    pub handle: ProviderExecutionHandle,
    pub state: SchedulingState,
    pub outputs: Vec<String>,
}

/// What came of a request to cancel.
#[derive(Clone, Copy, Debug, PartialEq, Eq, Structural)]
pub enum ProviderCancellationOutcome {
    Accepted,
    Unsupported,
    AlreadyTerminal(SchedulingState),
}

/// The id of a kernel execution.
pub open spec fn kernel_execution_id(label: Seq<char>, ordinal: u64) -> Seq<char> {
    CUDA_PROVIDER_NAME@ + ":"@ + label + ":"@ + decimal(ordinal as nat)
}

pub(crate) fn name_kernel_execution(label: &String, ordinal: u64) -> (id: String)
    ensures
        id@ == kernel_execution_id(label@, ordinal),
{
    let mut id = CUDA_PROVIDER_NAME.to_owned();
    id.append(":");
    id.append(label.as_str());
    id.append(":");
    push_decimal(&mut id, ordinal);
    id
}

/// The ids of kernel executions of different ordinals differ, whatever the
/// invocations are called.
pub proof fn law_execution_ids_are_distinct(
    label: Seq<char>,
    ordinal: u64,
    other_label: Seq<char>,
    other_ordinal: u64,
)
    requires
        kernel_execution_id(label, ordinal) == kernel_execution_id(other_label, other_ordinal),
    ensures
        ordinal == other_ordinal,
        label == other_label,
{
    let id = kernel_execution_id(label, ordinal);
    let digits = decimal(ordinal as nat);
    let other_digits = decimal(other_ordinal as nat);
    let name = CUDA_PROVIDER_NAME@;
    reveal_strlit(":");
    crate::text::lemma_decimal_is_digits(ordinal as nat);
    crate::text::lemma_decimal_is_digits(other_ordinal as nat);
    let colon = (name.len() + 1 + label.len()) as int;
    let other_colon = (name.len() + 1 + other_label.len()) as int;
    assert(":"@.len() == 1 && ":"@[0] == ':');
    assert(id.len() == colon + 1 + digits.len());
    assert(id.len() == other_colon + 1 + other_digits.len());
    assert(id[colon] == ':');
    assert(kernel_execution_id(other_label, other_ordinal)[other_colon] == ':');
    if colon < other_colon {
        assert(id[other_colon] == digits[other_colon - colon - 1]);
        assert(false);
    }
    if other_colon < colon {
        assert(kernel_execution_id(other_label, other_ordinal)[colon]
            == other_digits[colon - other_colon - 1]);
        assert(false);
    }
    assert(digits =~= id.subrange(colon + 1, id.len() as int));
    assert(other_digits =~= id.subrange(colon + 1, id.len() as int));
    crate::text::lemma_decimal_injective(ordinal as nat, other_ordinal as nat);
    assert(label =~= id.subrange(name.len() as int + 1, colon));
    assert(other_label =~= id.subrange(name.len() as int + 1, colon));
}

/// The id of a kernel execution is that of this Provider, the label and the
/// ordinal, and can be taken apart again.
pub proof fn law_execution_ids_tell_label_and_ordinal(label: Seq<char>, ordinal: u64)
    ensures
        ({
            let id = kernel_execution_id(label, ordinal);
            let start = "magnetar:provider/cuda:"@.len() as int;
            &&& id.take(start) == "magnetar:provider/cuda:"@
            &&& id.subrange(start, start + label.len()) == label
            &&& id[start + label.len()] == ':'
            &&& crate::text::decimal_value(id.skip(start + label.len() + 1)) == ordinal
        }),
{
    reveal_strlit("magnetar:provider/cuda:");
    reveal_strlit("magnetar:provider/cuda");
    reveal_strlit(":");
    crate::text::law_decimal_stands_for_its_number(ordinal as nat);
    let id = kernel_execution_id(label, ordinal);
    let start = "magnetar:provider/cuda:"@.len() as int;
    assert(id.take(start) =~= "magnetar:provider/cuda:"@);
    assert(id.subrange(start, start + label.len()) =~= label);
    assert(id.skip(start + label.len() + 1) =~= decimal(ordinal as nat));
}

/// The handle of a request says of it what it says, under the id that it is
/// submitted under; a handle that is not known is answered with its own Provider
/// and device.
pub proof fn law_handles_tell_their_request(
    request: ProviderExecutionRequest,
    id: Seq<char>,
    phase: ProviderExecutionPhase,
    message: Seq<char>,
)
    ensures
        ({
            let handle = handle_of(request, id);
            let error = unknown_handle_error(handle, phase, message);
            &&& handle.id == id
            &&& handle.operation == request.operation
            &&& handle.plan == request.plan@
            &&& handle.provider == request.provider@
            &&& handle.device is Some <==> request.device is Some
            &&& handle.device matches Some(device) ==> device == request.device->Some_0@
            &&& error.code == ProviderExecutionErrorCode::ExecutionFailed
            &&& error.phase == phase
            &&& error.provider == request.provider@
            &&& error.device == handle.device
            &&& error.message == message
        }),
{
}

} // verus!
