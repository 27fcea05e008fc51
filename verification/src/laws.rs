//! Laws of the executor's operations taken together.

use crate::dispatch::{invocation_plan, resident_input, Storage};
use crate::error::CudaError;
use crate::executor::{
    allocation_of, completion, prepared, refusal, uploaded_tensor, ExecutorView,
};
use crate::invocation::{
    failure_result, observed, observed_failure, success_result, texts, KernelInvocation,
    KernelObservationKind, KernelObservationView, KernelResult, KernelResultStatus,
};
use crate::kernel_error::{kernel_error_code, kernel_error_id, KernelError, KernelErrorView};
use crate::kernels::counted;
use crate::launch::{launch_outcome, DeviceBufferView, KernelLaunchView};
use crate::memory::{
    law_replacement_keeps_the_count, live_after, tensor_memory, LiveAllocations,
    MemoryAllocationClass, MemoryAllocationOwnerView,
};
use crate::plans::law_plans_rest_on_kernel_inputs_and_attributes;
use crate::session::{kernel_execution_id, law_execution_ids_are_distinct};
use crate::tensor::{host_tensor_fault, HostTensor};
use vstd::prelude::*;

verus! {

/// A tensor that is written is resident until it is released, and no other
/// resource is touched by either.
pub proof fn law_written_tensor_is_resident<S>(
    state: ExecutorView<S>,
    id: Seq<char>,
    buffer: DeviceBufferView<S>,
    other: Seq<char>,
)
    ensures
        state.written(id, buffer).storage.contains_key(id),
        state.written(id, buffer).storage[id] == buffer,
        !state.written(id, buffer).released(id).storage.contains_key(id),
        other != id ==> {
            let after = state.written(id, buffer);
            &&& after.storage.contains_key(other) == state.storage.contains_key(other)
            &&& after.storage[other] == state.storage[other]
            &&& after.released(id).storage.contains_key(other) == state.storage.contains_key(other)
            &&& after.released(id).storage[other] == state.storage[other]
        },
{
}

/// A tensor that is written can be read: a copy of its data that has as many
/// elements as were written makes a tensor of the shape that was written.
pub proof fn law_written_tensor_reads_back<E, S>(tensor: HostTensor<E>, slice: S, data: Seq<E>)
    requires
        tensor.wf(),
        data.len() == tensor.data@.len(),
    ensures
        uploaded_tensor(tensor, slice).wf(),
        host_tensor_fault(uploaded_tensor(tensor, slice).shape, data.len()) is None,
{
}

/// A step that writes a new resource and then releases an older one leaves as
/// many tensors resident as before it, and never more than one more.
pub proof fn law_write_release_steps_keep_the_window<S>(
    state: ExecutorView<S>,
    fresh: Seq<char>,
    buffer: DeviceBufferView<S>,
    older: Seq<char>,
)
    requires
        state.storage.dom().finite(),
        !state.storage.contains_key(fresh),
        state.storage.contains_key(older),
    ensures
        state.written(fresh, buffer).storage.dom().len() == state.storage.dom().len() + 1,
        state.written(fresh, buffer).released(older).storage.dom().len()
            == state.storage.dom().len(),
{
    let written = state.written(fresh, buffer).storage;
    assert(written.dom() =~= state.storage.dom().insert(fresh));
    assert(written.remove(older).dom() =~= written.dom().remove(older));
}

/// Writing a resource again does not make another tensor resident.
pub proof fn law_rewriting_does_not_grow_storage<S>(
    state: ExecutorView<S>,
    id: Seq<char>,
    buffer: DeviceBufferView<S>,
)
    requires
        state.storage.contains_key(id),
    ensures
        state.written(id, buffer).storage.dom() == state.storage.dom(),
        state.output_stored(id, buffer).storage.dom() == state.storage.dom(),
{
    assert(state.written(id, buffer).storage.dom() =~= state.storage.dom());
}

/// The allocations to give back for a write that was granted one.
pub open spec fn released_by_write(
    allocations: Map<Seq<char>, u64>,
    id: Seq<char>,
) -> Seq<u64> {
    match allocation_of(allocations, id) {
        Some(previous) => seq![previous],
        None => Seq::empty(),
    }
}

/// A tensor that is written again under the same id, each time with an
/// allocation that was granted for it, is the tensor that was written last:
/// what was granted for the first write is given back, and the one live
/// allocation of the resource is that of the second, as it was asked for. As
/// many allocations are live as after the first write.
pub proof fn law_admitted_rewrite_replaces_the_allocation<E, S>(
    state: ExecutorView<S>,
    id: Seq<char>,
    first: HostTensor<E>,
    first_slice: S,
    first_allocation: u64,
    second: HostTensor<E>,
    second_slice: S,
    second_allocation: u64,
    class: MemoryAllocationClass,
    owner: MemoryAllocationOwnerView,
    live: LiveAllocations,
)
    requires
        live.dom().finite(),
        live.contains_key(first_allocation),
        !live.contains_key(second_allocation),
    ensures
        ({
            let written = state.allocated(id, first_allocation).written(
                id,
                uploaded_tensor(first, first_slice),
            );
            let rewritten = written.allocated(id, second_allocation).written(
                id,
                uploaded_tensor(second, second_slice),
            );
            let request = tensor_memory(state.device_id, second.data@.len(), class, owner);
            let release = released_by_write(written.resource_allocations, id);
            let after = live_after(live, second_allocation, request, release);
            &&& rewritten.storage.contains_key(id)
            &&& rewritten.storage[id] == uploaded_tensor(second, second_slice)
            &&& release == seq![first_allocation]
            &&& allocation_of(rewritten.resource_allocations, id) == Some(second_allocation)
            &&& rewritten.resource_allocations.dom() == written.resource_allocations.dom()
            &&& !after.contains_key(first_allocation)
            &&& after.contains_key(second_allocation)
            &&& after[second_allocation] == request
            &&& after.dom().len() == live.dom().len()
        }),
{
    let written = state.allocated(id, first_allocation).written(
        id,
        uploaded_tensor(first, first_slice),
    );
    let rewritten = written.allocated(id, second_allocation).written(
        id,
        uploaded_tensor(second, second_slice),
    );
    assert(rewritten.resource_allocations.dom() =~= written.resource_allocations.dom());
    law_replacement_keeps_the_count(
        live,
        second_allocation,
        tensor_memory(state.device_id, second.data@.len(), class, owner),
        Some(first_allocation),
    );
}

/// What an invocation leaves on the device is what a later one finds there
/// under the same resource id: the tensor does not leave the device in
/// between.
pub proof fn law_output_feeds_the_next_invocation<S, A>(
    state: ExecutorView<S>,
    id: Seq<char>,
    buffer: DeviceBufferView<S>,
    next: KernelInvocation<A>,
    index: nat,
)
    requires
        index < next.inputs@.len(),
        next.inputs@[index as int]@ == id,
    ensures
        resident_input(state.output_stored(id, buffer).storage, next, index) == Ok::<
            DeviceBufferView<S>,
            KernelErrorView,
        >(buffer),
        state.output_stored(id, buffer).crossings == state.crossings,
{
}

/// The state after an invocation has run, given its validity and what
/// performing its launch gave.
pub open spec fn after_run<S, A>(
    state: ExecutorView<S>,
    invocation: KernelInvocation<A>,
    validation: Result<(), KernelError>,
    launched: Result<(S, i32), CudaError>,
) -> ExecutorView<S> {
    let started = state.observing(
        observed(KernelObservationKind::KernelDispatchStarted, invocation),
    );
    match prepared(state.storage, invocation, validation) {
        Err(error) => started.observing(refusal(invocation, error)),
        Ok(launch) => match completion(invocation, launch, launched) {
            Ok((id, buffer)) => started.output_stored(id, buffer).observing(
                observed(KernelObservationKind::KernelDispatchCompleted, invocation),
            ),
            Err(error) => started.observing(observed_failure(invocation, error)),
        },
    }
}

/// An invocation is observed twice, when it starts and when it ends. It is
/// observed to complete exactly if it leaves an output; otherwise no resident
/// tensor changes. Only a failed dispatch is observed with an error. Whatever comes of it, no tensor crosses between host and
/// device, and no allocation or filed result changes.
pub proof fn law_invocation_is_observed_from_start_to_end<S, A>(
    state: ExecutorView<S>,
    invocation: KernelInvocation<A>,
    validation: Result<(), KernelError>,
    launched: Result<(S, i32), CudaError>,
)
    ensures
        ({
            let after = after_run(state, invocation, validation, launched);
            let seen = state.observations.len() as int;
            let completed = prepared(state.storage, invocation, validation) is Ok && completion(
                invocation,
                prepared(state.storage, invocation, validation)->Ok_0,
                launched,
            ) is Ok;
            &&& after.observations.len() == seen + 2
            &&& after.observations.take(seen) == state.observations
            &&& after.observations[seen].kind == KernelObservationKind::KernelDispatchStarted
            &&& after.observations[seen].invocation == invocation.id@
            &&& after.observations[seen].kernel == invocation.kernel_key@
            &&& after.observations[seen + 1].invocation == invocation.id@
            &&& after.observations[seen + 1].kernel == invocation.kernel_key@
            &&& after.observations[seen + 1].error is Some <==> after.observations[seen + 1].kind
                == KernelObservationKind::KernelDispatchFailed
            &&& after.observations[seen + 1].kind == if completed {
                KernelObservationKind::KernelDispatchCompleted
            } else if invocation.deadline_millis == Some(0u64) {
                KernelObservationKind::KernelTimeout
            } else {
                KernelObservationKind::KernelDispatchFailed
            }
            &&& !completed ==> after.storage == state.storage
            &&& after.crossings == state.crossings
            &&& after.resource_allocations == state.resource_allocations
            &&& after.kernel_executions == state.kernel_executions
            &&& after.submitted == state.submitted
        }),
{
    let after = after_run(state, invocation, validation, launched);
    assert(after.observations.take(state.observations.len() as int) =~= state.observations);
}

/// A filed result can be asked for by its id, once.
pub proof fn law_result_is_handed_out_once<S>(
    state: ExecutorView<S>,
    label: Seq<char>,
    result: KernelResult,
)
    ensures
        ({
            let id = kernel_execution_id(label, state.next_execution_ordinal);
            let filed = state.filed(label, result).kernel_executions;
            &&& filed.contains_key(id)
            &&& filed[id] == result
            &&& !filed.remove(id).contains_key(id)
        }),
{
}

/// A submission does not touch the result of the one before it, whatever the
/// two invocations are called.
pub proof fn law_submissions_keep_their_results<S>(
    state: ExecutorView<S>,
    label: Seq<char>,
    result: KernelResult,
    next_label: Seq<char>,
    next_result: KernelResult,
)
    ensures
        ({
            let id = kernel_execution_id(label, state.next_execution_ordinal);
            let next_id = kernel_execution_id(
                next_label,
                counted(state.next_execution_ordinal),
            );
            let filed = state.filed(label, result).filed(next_label, next_result);
            &&& id != next_id
            &&& filed.kernel_executions[id] == result
            &&& filed.kernel_executions.contains_key(id)
            &&& filed.kernel_executions[next_id] == next_result
            &&& filed.kernel_executions.contains_key(next_id)
        }),
{
    let id = kernel_execution_id(label, state.next_execution_ordinal);
    let next_id = kernel_execution_id(next_label, counted(state.next_execution_ordinal));
    if id == next_id {
        law_execution_ids_are_distinct(
            label,
            state.next_execution_ordinal,
            next_label,
            counted(state.next_execution_ordinal),
        );
    }
}

/// Only a deadline of zero has passed. An invocation with any other deadline is
/// prepared exactly as the same invocation without one: a valid one comes to its
/// plan, and one that is not valid to what is wrong with it. With a deadline of
/// zero it times out, whatever else holds of it, and no valid invocation times
/// out otherwise.
pub proof fn law_only_a_deadline_of_zero_has_passed<S, A>(
    storage: Storage<S>,
    invocation: KernelInvocation<A>,
    unhurried: KernelInvocation<A>,
    validation: Result<(), KernelError>,
)
    requires
        invocation.kernel_name@ == unhurried.kernel_name@,
        texts(invocation.inputs@) == texts(unhurried.inputs@),
        invocation.attributes@ == unhurried.attributes@,
        unhurried.deadline_millis is None,
    ensures
        invocation.deadline_millis == Some(0u64) ==> prepared(storage, invocation, validation)
            == Err::<KernelLaunchView, KernelErrorView>(KernelErrorView::KernelTimeout),
        invocation.deadline_millis != Some(0u64) ==> prepared(storage, invocation, validation)
            == prepared(storage, unhurried, validation),
        validation is Ok ==> prepared(storage, unhurried, validation) == invocation_plan(
            storage,
            invocation,
        ),
        validation matches Err(error) ==> prepared(storage, unhurried, validation) == Err::<
            KernelLaunchView,
            KernelErrorView,
        >(error@),
        validation is Ok ==> (prepared(storage, invocation, validation) == Err::<
            KernelLaunchView,
            KernelErrorView,
        >(KernelErrorView::KernelTimeout) <==> invocation.deadline_millis == Some(0u64)),
{
    law_plans_rest_on_kernel_inputs_and_attributes(storage, invocation, unhurried);
}

/// A launch that the device performed is the end of an invocation that has a
/// place for its output: the output that the launch leaves goes under the id of
/// the first output, and an error of the launch is that of the invocation.
pub proof fn law_output_goes_under_the_first_id<S, A>(
    invocation: KernelInvocation<A>,
    launch: KernelLaunchView,
    launched: Result<(S, i32), CudaError>,
)
    ensures
        completion(invocation, launch, launched) is Ok <==> launch_outcome(launch, launched) is Ok
            && invocation.outputs@.len() > 0,
        completion(invocation, launch, launched) matches Ok((id, buffer)) ==> {
            &&& id == invocation.outputs@[0].id@
            &&& launch_outcome(launch, launched) == Ok::<
                DeviceBufferView<S>,
                crate::error::CudaErrorView,
            >(buffer)
            &&& buffer.shape == launch.shape
            &&& buffer.elements == launch.elements
        },
        launch_outcome(launch, launched) is Ok && invocation.outputs@.len() == 0 ==> (completion(
            invocation,
            launch,
            launched,
        ) matches Err(KernelErrorView::KernelExecutionFailed { reason }) && reason
            == "missing output at index 0"@),
        launch_outcome(launch, launched) matches Err(error) ==> completion(
            invocation,
            launch,
            launched,
        ) == Err::<(Seq<char>, DeviceBufferView<S>), KernelErrorView>(
            crate::kernel_error::kernel_error_view_of(error),
        ),
{
    reveal_strlit("missing output at index ");
    reveal_strlit("missing output at index 0");
    reveal_strlit("0");
    assert("missing output at index "@ + crate::text::decimal(0) =~= "missing output at index 0"@);
}

/// An observation is of its invocation and its kernel. Only that of a failed
/// dispatch has an error, and it is the identifier of the error that the result
/// holds.
pub proof fn law_observations_name_their_invocation<A>(
    kind: KernelObservationKind,
    invocation: KernelInvocation<A>,
    error: KernelErrorView,
)
    ensures
        observed(kind, invocation) == (KernelObservationView {
            kind,
            kernel: invocation.kernel_key@,
            invocation: invocation.id@,
            error: None,
        }),
        observed_failure(invocation, error) == (KernelObservationView {
            kind: KernelObservationKind::KernelDispatchFailed,
            kernel: invocation.kernel_key@,
            invocation: invocation.id@,
            error: Some(
                kernel_error_id(
                    kernel_error_code(failure_result(invocation.id@, error).error->Some_0),
                ),
            ),
        }),
        refusal(invocation, error) == if invocation.deadline_millis == Some(0u64) {
            observed(KernelObservationKind::KernelTimeout, invocation)
        } else {
            observed_failure(invocation, error)
        },
{
}

/// A result says of its invocation that it succeeded, with the output that is
/// ready and was written, or that it failed, with the error and nothing else.
pub proof fn law_results_say_what_happened(
    invocation: Seq<char>,
    output: Seq<char>,
    error: KernelErrorView,
)
    ensures
        ({
            let success = success_result(invocation, output);
            &&& success.invocation == invocation
            &&& success.status == KernelResultStatus::Succeeded
            &&& success.error is None
            &&& success.updated_resources == seq![output]
            &&& success.output_readiness.dom() == set![output]
            &&& success.output_readiness[output]
        }),
        ({
            let failure = failure_result(invocation, error);
            &&& failure.invocation == invocation
            &&& failure.status == KernelResultStatus::Failed
            &&& failure.error == Some(error)
            &&& failure.updated_resources.len() == 0
            &&& failure.output_readiness.dom() == Set::<Seq<char>>::empty()
        }),
{
    assert(success_result(invocation, output).output_readiness.dom() =~= set![output]);
    assert(failure_result(invocation, error).output_readiness.dom() =~= Set::<Seq<char>>::empty());
}

/// Counts go up by one, around at 64 bits.
pub proof fn law_counts_go_up_by_one(count: u64)
    ensures
        counted(count) as int == (count + 1) % 0x1_0000_0000_0000_0000,
{
}

/// Whether two states differ at most in their tensors and crossings.
pub open spec fn same_books<S>(a: ExecutorView<S>, b: ExecutorView<S>) -> bool {
    &&& a.device_id == b.device_id
    &&& a.observations == b.observations
    &&& a.submitted == b.submitted
    &&& a.kernel_executions == b.kernel_executions
    &&& a.next_execution_ordinal == b.next_execution_ordinal
}

/// A written tensor is one more upload and stands under its id, a read one is
/// one more download, and a dropped one is gone; none of this touches anything
/// else.
pub proof fn law_tensors_come_and_go<S>(
    state: ExecutorView<S>,
    id: Seq<char>,
    buffer: DeviceBufferView<S>,
)
    ensures
        ({
            let written = state.written(id, buffer);
            &&& written.storage.dom() == state.storage.dom().insert(id)
            &&& written.storage[id] == buffer
            &&& written.crossings.uploads as int == (state.crossings.uploads + 1)
                % 0x1_0000_0000_0000_0000
            &&& written.crossings.downloads == state.crossings.downloads
            &&& written.resource_allocations == state.resource_allocations
            &&& same_books(written, state)
        }),
        ({
            let read = state.read();
            &&& read.storage == state.storage
            &&& read.crossings.downloads as int == (state.crossings.downloads + 1)
                % 0x1_0000_0000_0000_0000
            &&& read.crossings.uploads == state.crossings.uploads
            &&& read.resource_allocations == state.resource_allocations
            &&& same_books(read, state)
        }),
        ({
            let released = state.released(id);
            &&& released.storage.dom() == state.storage.dom().remove(id)
            &&& released.crossings == state.crossings
            &&& released.resource_allocations == state.resource_allocations
            &&& same_books(released, state)
        }),
        ({
            let stored = state.output_stored(id, buffer);
            &&& stored.storage.dom() == state.storage.dom().insert(id)
            &&& stored.storage[id] == buffer
            &&& stored.crossings == state.crossings
            &&& stored.resource_allocations == state.resource_allocations
            &&& same_books(stored, state)
        }),
        forall|other: Seq<char>|
            #![trigger state.storage[other]]
            other != id && state.storage.contains_key(other) ==> {
                &&& state.written(id, buffer).storage[other] == state.storage[other]
                &&& state.output_stored(id, buffer).storage[other] == state.storage[other]
                &&& state.released(id).storage[other] == state.storage[other]
            },
{
    assert(state.written(id, buffer).storage.dom() =~= state.storage.dom().insert(id));
    assert(state.released(id).storage.dom() =~= state.storage.dom().remove(id));
}

/// An allocation is kept for its resource and given up for it, and an
/// observation is added behind those before; none of this touches anything
/// else.
pub proof fn law_books_are_kept_apart<S>(
    state: ExecutorView<S>,
    id: Seq<char>,
    allocation: u64,
    observation: KernelObservationView,
)
    ensures
        ({
            let allocated = state.allocated(id, allocation);
            &&& allocation_of(allocated.resource_allocations, id) == Some(allocation)
            &&& allocated.resource_allocations.dom() == state.resource_allocations.dom().insert(id)
            &&& allocated.storage == state.storage
            &&& allocated.crossings == state.crossings
            &&& same_books(allocated, state)
        }),
        ({
            let deallocated = state.deallocated(id);
            &&& allocation_of(deallocated.resource_allocations, id) is None
            &&& deallocated.resource_allocations.dom() == state.resource_allocations.dom().remove(
                id,
            )
            &&& deallocated.storage == state.storage
            &&& deallocated.crossings == state.crossings
            &&& same_books(deallocated, state)
        }),
        ({
            let observing = state.observing(observation);
            &&& observing.observations == state.observations + seq![observation]
            &&& same_books(
                ExecutorView { observations: state.observations, ..observing },
                state,
            )
            &&& observing.storage == state.storage
            &&& observing.crossings == state.crossings
            &&& observing.resource_allocations == state.resource_allocations
        }),
        forall|other: Seq<char>|
            #![trigger allocation_of(state.resource_allocations, other)]
            other != id ==> {
                &&& allocation_of(state.allocated(id, allocation).resource_allocations, other)
                    == allocation_of(state.resource_allocations, other)
                &&& allocation_of(state.deallocated(id).resource_allocations, other)
                    == allocation_of(state.resource_allocations, other)
            },
{
    assert(state.allocated(id, allocation).resource_allocations.dom()
        =~= state.resource_allocations.dom().insert(id));
    assert(state.deallocated(id).resource_allocations.dom()
        =~= state.resource_allocations.dom().remove(id));
    assert(state.observing(observation).observations =~= state.observations + seq![observation]);
}

/// A result is filed under the next ordinal, which is then used up; what was
/// filed under other ids stays, and nothing else is touched.
pub proof fn law_filing_uses_up_an_ordinal<S>(
    state: ExecutorView<S>,
    label: Seq<char>,
    result: KernelResult,
    other: Seq<char>,
)
    ensures
        ({
            let filed = state.filed(label, result);
            let id = kernel_execution_id(label, state.next_execution_ordinal);
            &&& filed.next_execution_ordinal as int == (state.next_execution_ordinal + 1)
                % 0x1_0000_0000_0000_0000
            &&& filed.kernel_executions.contains_key(id)
            &&& filed.kernel_executions[id] == result
            &&& other != id ==> filed.kernel_executions.contains_key(other)
                == state.kernel_executions.contains_key(other)
            &&& other != id && state.kernel_executions.contains_key(other)
                ==> filed.kernel_executions[other] == state.kernel_executions[other]
            &&& filed.storage == state.storage
            &&& filed.crossings == state.crossings
            &&& filed.observations == state.observations
            &&& filed.submitted == state.submitted
            &&& filed.resource_allocations == state.resource_allocations
            &&& filed.device_id == state.device_id
        }),
{
}

/// The buffer of a host tensor has the tensor's elements and shape, in the
/// allocation that its data was copied to.
pub proof fn law_upload_keeps_the_tensor<E, S>(tensor: HostTensor<E>, slice: S)
    ensures
        uploaded_tensor(tensor, slice).slice == slice,
        uploaded_tensor(tensor, slice).elements == tensor.data@.len(),
        uploaded_tensor(tensor, slice).shape == tensor.shape@,
        uploaded_tensor(tensor, slice).wf() <==> tensor.wf(),
{
}

/// What keeps a tensor from the device is told with the device: a failed upload
/// with its error, and an opaque value with the resource that is not there.
pub proof fn law_materialization_errors_tell_what_is_missing(
    device: Seq<char>,
    error: crate::error::CudaErrorView,
    id: Seq<char>,
    message: Seq<char>,
    reason: Seq<char>,
)
    ensures
        crate::executor::upload_failure(error) == "CUDA device upload failed: "@
            + crate::error::error_text(error),
        crate::executor::opaque_passthrough_message(id)
            == "no existing device allocation for opaque resource '"@ + id + "'"@,
        ({
            let told = crate::executor::materialization_error(device, message);
            &&& told.code == crate::session::ProviderExecutionErrorCode::MaterializationFailed
            &&& told.phase == crate::session::ProviderExecutionPhase::Submit
            &&& told.provider == "magnetar:provider/cuda"@
            &&& told.device == Some(device)
            &&& told.message == message
        }),
        crate::kernels::host_error_detail(reason).code
            == crate::error::CudaErrorCode::ShapeUnsupported,
        crate::kernels::host_error_detail(reason).detail == "reference-cpu-shape-unsupported: "@
            + reason,
{
}

} // verus!
