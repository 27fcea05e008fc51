//! The execution API of the Provider: tensors that are resident on the
//! device, kernel invocations on them, and the executions submitted.
//!
//! Between invocations a tensor stays in device memory under its resource
//! id. It is copied to the device when it is written and back when it is
//! read; an invocation takes its inputs from the device and leaves its output
//! there.
//!
//! What the device, the driver or the memory manager answer comes in as an
//! argument, and what they are asked to do goes out as a value.

use crate::admission::{
    admission_plan, admissions, collect_admissions, denial_error, denied, descriptor_error,
    granted_admissions, invalid_descriptor, plan_outputs, settle, settlement, Admission,
    AdmissionPlan, Settlement,
};
use crate::dispatch::{
    execution_error, inputs_resident, invocation_plan, law_planned_inputs_are_resident,
    output_fits, plan_invocation, storage_wf, stored, Storage,
};
use crate::error::{error_text, CudaError, CudaErrorView};
use crate::invocation::{
    failure_result, observed, observed_failure, success_result, texts, KernelInvocation,
    KernelObservation, KernelObservationKind, KernelObservationView, KernelResult,
};
use crate::kernel_error::{
    kernel_error_view_of, law_kernel_error_keeps_the_diagnosis, KernelError, KernelErrorView,
};
use crate::kernels::{counted, CrossingCounts, CudaDeviceBuffer, CudaKernels};
use crate::launch::{
    function_inputs, launch_outcome, DeviceBufferView, KernelLaunch, KernelLaunchView,
};
use crate::memory::{
    residency_records, tensor_memory, MemoryAllocationClass, MemoryAllocationOwner,
    MemoryAllocationRequest, MemoryPlacement,
};
use crate::session::{
    handle_of, kernel_execution_id, name_kernel_execution, unknown_handle, unknown_handle_error,
    ProviderCancellationOutcome, ProviderExecutionError, ProviderExecutionErrorCode,
    ProviderExecutionErrorView, ProviderExecutionHandle, ProviderExecutionHandleView,
    ProviderExecutionPhase, ProviderExecutionRequest, ProviderExecutionResult,
    ProviderExecutionStatus, SchedulingState, CUDA_PROVIDER_NAME,
};
use crate::table::NameTable;
use crate::tensor::{host_tensor_fault, HostTensor};
use crate::text::decimal;
use vstd::prelude::*;

verus! {

/// The executor of one device. `S` is a device allocation.
pub struct CudaExecutor<S> {
    kernels: CudaKernels,
    device_id: String,
    storage: NameTable<CudaDeviceBuffer<S>>,
    observations: Vec<KernelObservation>,
    submitted: NameTable<ProviderExecutionRequest>,
    kernel_executions: NameTable<KernelResult>,
    resource_allocations: NameTable<u64>,
    next_execution_ordinal: u64,
}

/// The state of a [`CudaExecutor`].
#[verifier::ext_equal]
pub struct ExecutorView<S> {
    pub crossings: CrossingCounts,
    pub device_id: Seq<char>,
    pub storage: Storage<S>,
    pub observations: Seq<KernelObservationView>,
    pub submitted: Map<Seq<char>, ProviderExecutionRequest>,
    pub kernel_executions: Map<Seq<char>, KernelResult>,
    pub resource_allocations: Map<Seq<char>, u64>,
    pub next_execution_ordinal: u64,
}

/// What a list of observations says.
pub open spec fn observations_view(list: Seq<KernelObservation>) -> Seq<KernelObservationView> {
    list.map_values(|observation: KernelObservation| observation@)
}

impl<S> View for CudaExecutor<S> {
    type V = ExecutorView<S>;

    closed spec fn view(&self) -> ExecutorView<S> {
        ExecutorView {
            crossings: self.kernels@,
            device_id: self.device_id@,
            storage: stored(self.storage),
            observations: observations_view(self.observations@),
            submitted: self.submitted@,
            kernel_executions: self.kernel_executions@,
            resource_allocations: self.resource_allocations@,
            next_execution_ordinal: self.next_execution_ordinal,
        }
    }
}

/// The device buffer that a host tensor becomes.
pub open spec fn uploaded_tensor<E, S>(tensor: HostTensor<E>, slice: S) -> DeviceBufferView<S> {
    DeviceBufferView { slice, elements: tensor.data@.len(), shape: tensor.shape@ }
}

impl<S> ExecutorView<S> {
    /// The state after a tensor has been written to the device.
    pub open spec fn written(self, id: Seq<char>, buffer: DeviceBufferView<S>) -> ExecutorView<S> {
        ExecutorView {
            crossings: CrossingCounts {
                uploads: counted(self.crossings.uploads),
                ..self.crossings
            },
            storage: self.storage.insert(id, buffer),
            ..self
        }
    }

    /// The state after a tensor has been read from the device.
    pub open spec fn read(self) -> ExecutorView<S> {
        ExecutorView {
            crossings: CrossingCounts {
                downloads: counted(self.crossings.downloads),
                ..self.crossings
            },
            ..self
        }
    }

    /// The state after a tensor has been dropped.
    pub open spec fn released(self, id: Seq<char>) -> ExecutorView<S> {
        ExecutorView { storage: self.storage.remove(id), ..self }
    }

    /// The state after a resource has been given an allocation.
    pub open spec fn allocated(self, id: Seq<char>, allocation: u64) -> ExecutorView<S> {
        ExecutorView {
            resource_allocations: self.resource_allocations.insert(id, allocation),
            ..self
        }
    }

    /// The state after a resource's allocation has been given up.
    pub open spec fn deallocated(self, id: Seq<char>) -> ExecutorView<S> {
        ExecutorView { resource_allocations: self.resource_allocations.remove(id), ..self }
    }

    /// The state after something has been observed.
    pub open spec fn observing(self, observation: KernelObservationView) -> ExecutorView<S> {
        ExecutorView { observations: self.observations.push(observation), ..self }
    }

    /// The state after an invocation has left its output.
    pub open spec fn output_stored(self, id: Seq<char>, buffer: DeviceBufferView<S>) -> ExecutorView<
        S,
    > {
        ExecutorView { storage: self.storage.insert(id, buffer), ..self }
    }

    /// The state after the result of an invocation has been filed.
    pub open spec fn filed(self, label: Seq<char>, result: KernelResult) -> ExecutorView<S> {
        ExecutorView {
            kernel_executions: self.kernel_executions.insert(
                kernel_execution_id(label, self.next_execution_ordinal),
                result,
            ),
            next_execution_ordinal: counted(self.next_execution_ordinal),
            ..self
        }
    }
}

/// The allocation that a resource has, where it has one.
pub open spec fn allocation_of(allocations: Map<Seq<char>, u64>, id: Seq<char>) -> Option<u64> {
    if allocations.contains_key(id) {
        Some(allocations[id])
    } else {
        None
    }
}

proof fn lemma_stored_insert<S>(
    before: NameTable<CudaDeviceBuffer<S>>,
    after: NameTable<CudaDeviceBuffer<S>>,
    id: Seq<char>,
    buffer: CudaDeviceBuffer<S>,
)
    requires
        storage_wf(before),
        after.wf(),
        buffer.wf(),
        after@ == before@.insert(id, buffer),
    ensures
        storage_wf(after),
        stored(after) == stored(before).insert(id, buffer@),
{
    assert(stored(after) =~= stored(before).insert(id, buffer@));
}

proof fn lemma_stored_remove<S>(
    before: NameTable<CudaDeviceBuffer<S>>,
    after: NameTable<CudaDeviceBuffer<S>>,
    id: Seq<char>,
)
    requires
        storage_wf(before),
        after.wf(),
        after@ == before@.remove(id),
    ensures
        storage_wf(after),
        stored(after) == stored(before).remove(id),
{
    assert(stored(after) =~= stored(before).remove(id));
}

/// An admission error of the memory manager.
#[derive(Debug)]
pub enum MemoryError {
    AllocationDenied { reason: String },
}

/// What came of writing a tensor for which memory was granted, and the
/// allocation to release on its account.
#[derive(Debug)]
pub struct AdmittedWrite<X> {
    pub result: Result<(), X>,
    pub release: Option<u64>,
}

/// What came of dropping a tensor: whether there was one, and the allocation
/// to release on its account.
#[derive(Debug)]
pub struct ReleasedTensor {
    pub present: bool,
    pub release: Option<u64>,
}

/// A tensor as it is exchanged with the Runtime: its bytes, or the word that
/// the Provider holds it on the device.
#[derive(Debug)]
pub enum TensorValue<E> {
    Host(HostTensor<E>),
    Opaque,
}

/// A tensor value to write. A host tensor comes with what copying its data to
/// the device gave.
pub enum TensorWrite<E, S> {
    Host { tensor: HostTensor<E>, copied: Result<S, CudaError> },
    Opaque,
}

/// A tensor value to write, a host tensor with the allocation that was granted
/// for it.
pub enum AdmittedTensorWrite<E, S> {
    Host { tensor: HostTensor<E>, allocation: u64, copied: Result<S, CudaError> },
    Opaque,
}

/// Why an admitted tensor value was not written.
#[derive(Debug)]
pub enum TensorValueAdmissionError {
    Memory(MemoryError),
    Provider(ProviderExecutionError),
}

/// The text of a failed upload.
pub open spec fn upload_failure(error: CudaErrorView) -> Seq<char> {
    "CUDA device upload failed: "@ + error_text(error)
}

fn upload_failure_text(error: &CudaError) -> (text: String)
    ensures
        text@ == upload_failure(error@),
{
    let mut text = "CUDA device upload failed: ".to_owned();
    text.append(error.to_text().as_str());
    text
}

/// The error of a tensor that could not be brought to the device.
pub open spec fn materialization_error(
    device: Seq<char>,
    message: Seq<char>,
) -> ProviderExecutionErrorView {
    ProviderExecutionErrorView {
        code: ProviderExecutionErrorCode::MaterializationFailed,
        phase: ProviderExecutionPhase::Submit,
        provider: CUDA_PROVIDER_NAME@,
        device: Some(device),
        message,
    }
}

/// The text for an opaque value of a resource that is not on the device.
pub open spec fn opaque_passthrough_message(id: Seq<char>) -> Seq<char> {
    "no existing device allocation for opaque resource '"@ + id + "'"@
}

/// What is to be done for an invocation: nothing more, or a launch.
pub enum Dispatch {
    Finished(KernelResult),
    Launch(KernelLaunch),
}

/// The launch that an invocation comes to, given whether it is a valid
/// invocation of what is advertised. A deadline that has passed comes first,
/// then validity.
pub open spec fn prepared<S, A>(
    storage: Storage<S>,
    invocation: KernelInvocation<A>,
    validation: Result<(), KernelError>,
) -> Result<KernelLaunchView, KernelErrorView> {
    if invocation.deadline_millis == Some(0u64) {
        Err(KernelErrorView::KernelTimeout)
    } else {
        match validation {
            Err(error) => Err(error@),
            Ok(_) => invocation_plan(storage, invocation),
        }
    }
}

/// What is observed of an invocation that is refused.
pub open spec fn refusal<A>(
    invocation: KernelInvocation<A>,
    error: KernelErrorView,
) -> KernelObservationView {
    if invocation.deadline_millis == Some(0u64) {
        observed(KernelObservationKind::KernelTimeout, invocation)
    } else {
        observed_failure(invocation, error)
    }
}

/// What an invocation comes to once its launch has been performed: the id and
/// the buffer of its output.
pub open spec fn completion<S, A>(
    invocation: KernelInvocation<A>,
    launch: KernelLaunchView,
    launched: Result<(S, i32), CudaError>,
) -> Result<(Seq<char>, DeviceBufferView<S>), KernelErrorView> {
    match launch_outcome(launch, launched) {
        Err(error) => Err(kernel_error_view_of(error)),
        Ok(buffer) => if invocation.outputs@.len() == 0 {
            Err(execution_error("missing output at index "@ + decimal(0)))
        } else {
            Ok((invocation.outputs@[0].id@, buffer))
        },
    }
}

/// What the memory manager came to for an invocation: the admissions, or the
/// refusal with what is to be released.
pub enum AdmissionOutcome<A> {
    Admitted(Vec<Admission<A>>),
    Refused { result: KernelResult, release: Vec<u64> },
}

impl<S> CudaExecutor<S> {
    /// No name stands twice in any table, every resident tensor has as many
    /// elements as its shape, and every filed result is well formed.
    pub closed spec fn wf(&self) -> bool {
        &&& storage_wf(self.storage)
        &&& self.submitted.wf()
        &&& self.kernel_executions.wf()
        &&& self.resource_allocations.wf()
        &&& forall|id: Seq<char>| #[trigger]
            self.kernel_executions@.contains_key(id) ==> self.kernel_executions@[id].wf()
    }

    /// Every resident tensor has as many elements as its shape.
    pub proof fn law_resident_tensors_are_whole(self, id: Seq<char>)
        requires
            self.wf(),
            self@.storage.contains_key(id),
        ensures
            self@.storage[id].wf(),
    {
        assert(self.storage@.contains_key(id));
    }

    /// An executor that holds nothing.
    pub fn new(kernels: CudaKernels, device_id: String) -> (executor: CudaExecutor<S>)
        ensures
            executor.wf(),
            executor@ == (ExecutorView::<S> {
                crossings: kernels@,
                device_id: device_id@,
                storage: Map::empty(),
                observations: Seq::empty(),
                submitted: Map::empty(),
                kernel_executions: Map::empty(),
                resource_allocations: Map::empty(),
                next_execution_ordinal: 0,
            }),
    {
        let executor = CudaExecutor {
            kernels,
            device_id,
            storage: NameTable::new(),
            observations: Vec::new(),
            submitted: NameTable::new(),
            kernel_executions: NameTable::new(),
            resource_allocations: NameTable::new(),
            next_execution_ordinal: 0,
        };
        assert(executor@.storage =~= Map::<Seq<char>, DeviceBufferView<S>>::empty());
        assert(executor@.observations =~= Seq::<KernelObservationView>::empty());
        executor
    }

    /// The device that the executor runs on.
    pub fn device_id(&self) -> (id: &String)
        ensures
            id@ == self@.device_id,
    {
        &self.device_id
    }

    /// How many tensors have been uploaded.
    pub fn upload_count(&self) -> (count: u64)
        ensures
            count == self@.crossings.uploads,
    {
        self.kernels.upload_count()
    }

    /// How many tensors have been downloaded.
    pub fn download_count(&self) -> (count: u64)
        ensures
            count == self@.crossings.downloads,
    {
        self.kernels.download_count()
    }

    /// How many tensors are resident on the device.
    pub fn resident_count(&self) -> (count: usize)
        requires
            self.wf(),
        ensures
            self@.storage.dom().finite(),
            count == self@.storage.dom().len(),
    {
        assert(self@.storage.dom() =~= self.storage@.dom());
        self.storage.len()
    }

    /// The resident tensor of a resource.
    pub fn resident(&self, id: &String) -> (buffer: Option<&CudaDeviceBuffer<S>>)
        requires
            self.wf(),
        ensures
            match buffer {
                Some(buffer) => buffer.wf() && self@.storage.contains_key(id@)
                    && self@.storage[id@] == buffer@,
                None => !self@.storage.contains_key(id@),
            },
    {
        self.storage.get(id)
    }

    /// Writes a tensor under a resource id, in place of what was there, given
    /// what copying its data to the device gave.
    pub fn write_tensor<E>(
        &mut self,
        id: String,
        tensor: &HostTensor<E>,
        copied: Result<S, CudaError>,
    ) -> (result: Result<(), CudaError>)
        requires
            old(self).wf(),
            tensor.wf(),
        ensures
            final(self).wf(),
            match copied {
                Ok(slice) => result is Ok && final(self)@ == old(self)@.written(
                    id@,
                    uploaded_tensor(*tensor, slice),
                ),
                Err(error) => result == Err::<(), CudaError>(error) && final(self)@ == old(self)@,
            },
    {
        let ghost before = self.storage;
        match self.kernels.upload(tensor, copied) {
            Err(error) => {
                assert(self@ =~= old(self)@);
                Err(error)
            },
            Ok(buffer) => {
                let ghost kept = buffer;
                let ghost name = id@;
                let _ = self.storage.insert(id, buffer);
                proof {
                    lemma_stored_insert(before, self.storage, name, kept);
                    assert(self@ =~= old(self)@.written(name, kept@));
                }
                Ok(())
            },
        }
    }

    /// Reads the tensor of a resource, given what copying its data to the
    /// host gave. A resource that is not resident, a copy that failed and a
    /// copy of another length give nothing.
    pub fn read_tensor<E>(&mut self, id: &String, copied: Result<Vec<E>, CudaError>) -> (tensor:
        Option<HostTensor<E>>)
        requires
            old(self).wf(),
        ensures
            final(self).wf(),
            if !old(self)@.storage.contains_key(id@) {
                tensor is None && final(self)@ == old(self)@
            } else {
                match copied {
                    Err(_) => tensor is None && final(self)@ == old(self)@,
                    Ok(data) => {
                        &&& final(self)@ == old(self)@.read()
                        &&& match host_tensor_fault(
                            old(self)@.storage[id@].shape,
                            data@.len(),
                        ) {
                            None => tensor is Some && tensor->Some_0.wf()
                                && tensor->Some_0.shape@ == old(self)@.storage[id@].shape
                                && tensor->Some_0.data == data,
                            Some(_) => tensor is None,
                        }
                    },
                }
            },
    {
        match self.storage.get(id) {
            None => None,
            Some(buffer) => {
                let tensor = self.kernels.download(buffer, copied);
                assert(self@ =~= if copied is Ok {
                    old(self)@.read()
                } else {
                    old(self)@
                });
                match tensor {
                    Ok(tensor) => Some(tensor),
                    Err(_) => None,
                }
            },
        }
    }

    /// Drops the tensor of a resource, and says whether there was one.
    pub fn release_tensor(&mut self, id: &String) -> (present: bool)
        requires
            old(self).wf(),
        ensures
            final(self).wf(),
            final(self)@ == old(self)@.released(id@),
            present == old(self)@.storage.contains_key(id@),
    {
        let ghost before = self.storage;
        let removed = self.storage.remove(id);
        proof {
            lemma_stored_remove(before, self.storage, id@);
            assert(self@ =~= old(self)@.released(id@));
        }
        removed.is_some()
    }

    /// Drops the tensor of a resource together with the allocation that was
    /// granted for it.
    pub fn release_admitted_tensor(&mut self, id: &String) -> (released: ReleasedTensor)
        requires
            old(self).wf(),
        ensures
            final(self).wf(),
            final(self)@ == old(self)@.deallocated(id@).released(id@),
            released.present == old(self)@.storage.contains_key(id@),
            released.release == allocation_of(old(self)@.resource_allocations, id@),
    {
        let release = self.resource_allocations.remove(id);
        assert(self@ =~= old(self)@.deallocated(id@));
        let present = self.release_tensor(id);
        ReleasedTensor { present, release }
    }

    /// The memory to ask for before a tensor is written: on this device, of
    /// the class and in the ownership that the caller gives.
    pub fn tensor_admission<E>(
        &self,
        tensor: &HostTensor<E>,
        class: MemoryAllocationClass,
        owner: MemoryAllocationOwner,
    ) -> (request: MemoryAllocationRequest)
        requires
            tensor.data@.len() * 4 <= u64::MAX,
        ensures
            request@ == tensor_memory(self@.device_id, tensor.data@.len(), class, owner@),
    {
        MemoryAllocationRequest {
            class,
            size_bytes: tensor.data.len() as u64 * 4,
            placement: MemoryPlacement::Device(self.device_id.clone()),
            owner,
        }
    }

    /// Writes a tensor under a resource id, given the allocation that was
    /// granted for it and what copying its data to the device gave. Where the
    /// copy failed the grant is given back; otherwise the grant takes the
    /// place of the one before.
    pub fn write_tensor_admitted<E>(
        &mut self,
        id: String,
        tensor: &HostTensor<E>,
        allocation: u64,
        copied: Result<S, CudaError>,
    ) -> (write: AdmittedWrite<MemoryError>)
        requires
            old(self).wf(),
            tensor.wf(),
        ensures
            final(self).wf(),
            match copied {
                Ok(slice) => {
                    &&& write.result is Ok
                    &&& write.release == allocation_of(old(self)@.resource_allocations, id@)
                    &&& final(self)@ == old(self)@.allocated(id@, allocation).written(
                        id@,
                        uploaded_tensor(*tensor, slice),
                    )
                },
                Err(error) => {
                    &&& write.result matches Err(MemoryError::AllocationDenied { reason })
                    &&& reason@ == upload_failure(error@)
                    &&& write.release == Some(allocation)
                    &&& final(self)@ == old(self)@
                },
            },
    {
        match copied {
            Err(error) => AdmittedWrite {
                result: Err(
                    MemoryError::AllocationDenied { reason: upload_failure_text(&error) },
                ),
                release: Some(allocation),
            },
            Ok(slice) => {
                let release = self.resource_allocations.insert(id.clone(), allocation);
                assert(self@ =~= old(self)@.allocated(id@, allocation));
                let _ = self.write_tensor(id, tensor, Ok(slice));
                AdmittedWrite { result: Ok(()), release }
            },
        }
    }

    /// The value of a resource: held on the device, or not there. It is never
    /// copied to the host on this account.
    pub fn read_tensor_value<E>(&self, id: &String) -> (value: Option<TensorValue<E>>)
        requires
            self.wf(),
        ensures
            value == if self@.storage.contains_key(id@) {
                Some(TensorValue::<E>::Opaque)
            } else {
                None
            },
    {
        if self.storage.contains_key(id) {
            Some(TensorValue::Opaque)
        } else {
            None
        }
    }

    fn materialization_failed(&self, message: String) -> (error: ProviderExecutionError)
        ensures
            error@ == materialization_error(self@.device_id, message@),
    {
        ProviderExecutionError {
            code: ProviderExecutionErrorCode::MaterializationFailed,
            phase: ProviderExecutionPhase::Submit,
            provider: CUDA_PROVIDER_NAME.to_owned(),
            device: Some(self.device_id.clone()),
            message,
        }
    }

    fn opaque_passthrough_error(&self, id: &String) -> (error: ProviderExecutionError)
        ensures
            error@ == materialization_error(self@.device_id, opaque_passthrough_message(id@)),
    {
        let mut message = "no existing device allocation for opaque resource '".to_owned();
        message.append(id.as_str());
        message.append("'");
        self.materialization_failed(message)
    }

    /// Writes a tensor value under a resource id. An opaque value stands for
    /// what is resident already; where nothing is, that is an error.
    pub fn write_tensor_value<E>(&mut self, id: String, value: TensorWrite<E, S>) -> (result: Result<
        (),
        ProviderExecutionError,
    >)
        requires
            old(self).wf(),
            value matches TensorWrite::Host { tensor, .. } ==> tensor.wf(),
        ensures
            final(self).wf(),
            match value {
                TensorWrite::Host { tensor, copied: Ok(slice) } => result is Ok && final(self)@
                    == old(self)@.written(id@, uploaded_tensor(tensor, slice)),
                TensorWrite::Host { tensor: _, copied: Err(error) } => result is Err
                    && result->Err_0@ == materialization_error(
                    old(self)@.device_id,
                    upload_failure(error@),
                ) && final(self)@ == old(self)@,
                TensorWrite::Opaque => final(self)@ == old(self)@ && if old(
                    self,
                )@.storage.contains_key(id@) {
                    result is Ok
                } else {
                    result is Err && result->Err_0@ == materialization_error(
                        old(self)@.device_id,
                        opaque_passthrough_message(id@),
                    )
                },
            },
    {
        match value {
            TensorWrite::Host { tensor, copied } => match self.write_tensor(id, &tensor, copied) {
                Ok(_) => Ok(()),
                Err(error) => Err(self.materialization_failed(upload_failure_text(&error))),
            },
            TensorWrite::Opaque => if self.storage.contains_key(&id) {
                Ok(())
            } else {
                Err(self.opaque_passthrough_error(&id))
            },
        }
    }

    /// Writes a tensor value under a resource id, a host tensor with the
    /// allocation that was granted for it.
    pub fn write_tensor_value_admitted<E>(
        &mut self,
        id: String,
        value: AdmittedTensorWrite<E, S>,
    ) -> (write: AdmittedWrite<TensorValueAdmissionError>)
        requires
            old(self).wf(),
            value matches AdmittedTensorWrite::Host { tensor, .. } ==> tensor.wf(),
        ensures
            final(self).wf(),
            match value {
                AdmittedTensorWrite::Host { tensor, allocation, copied: Ok(slice) } => {
                    &&& write.result is Ok
                    &&& write.release == allocation_of(old(self)@.resource_allocations, id@)
                    &&& final(self)@ == old(self)@.allocated(id@, allocation).written(
                        id@,
                        uploaded_tensor(tensor, slice),
                    )
                },
                AdmittedTensorWrite::Host { tensor: _, allocation, copied: Err(error) } => {
                    &&& write.result matches Err(
                        TensorValueAdmissionError::Memory(MemoryError::AllocationDenied { reason }),
                    )
                    &&& reason@ == upload_failure(error@)
                    &&& write.release == Some(allocation)
                    &&& final(self)@ == old(self)@
                },
                AdmittedTensorWrite::Opaque => {
                    &&& final(self)@ == old(self)@
                    &&& write.release is None
                    &&& if old(self)@.storage.contains_key(id@) {
                        write.result is Ok
                    } else {
                        &&& write.result matches Err(TensorValueAdmissionError::Provider(error))
                        &&& error@ == materialization_error(
                            old(self)@.device_id,
                            opaque_passthrough_message(id@),
                        )
                    }
                },
            },
    {
        match value {
            AdmittedTensorWrite::Host { tensor, allocation, copied } => {
                let write = self.write_tensor_admitted(id, &tensor, allocation, copied);
                AdmittedWrite {
                    result: match write.result {
                        Ok(_) => Ok(()),
                        Err(error) => Err(TensorValueAdmissionError::Memory(error)),
                    },
                    release: write.release,
                }
            },
            AdmittedTensorWrite::Opaque => AdmittedWrite {
                result: if self.storage.contains_key(&id) {
                    Ok(())
                } else {
                    Err(TensorValueAdmissionError::Provider(self.opaque_passthrough_error(&id)))
                },
                release: None,
            },
        }
    }

    /// All that has been observed so far, in order.
    pub fn observations(&self) -> (list: Vec<KernelObservation>)
        ensures
            observations_view(list@) == self@.observations,
    {
        let mut list: Vec<KernelObservation> = Vec::new();
        let mut i: usize = 0;
        while i < self.observations.len()
            invariant
                i <= self.observations@.len(),
                list@.len() == i,
                forall|j: int| 0 <= j < i ==> (#[trigger] list@[j])@ == self.observations@[j]@,
            decreases self.observations@.len() - i,
        {
            list.push(self.observations[i].copy());
            i += 1;
        }
        assert(observations_view(list@) =~= self@.observations);
        list
    }

    fn observe(&mut self, observation: KernelObservation)
        requires
            old(self).wf(),
        ensures
            final(self).wf(),
            final(self)@ == old(self)@.observing(observation@),
    {
        self.observations.push(observation);
        assert(self@ =~= old(self)@.observing(observation@));
    }

    /// Whether the output of the launch that an invocation comes to, if it
    /// comes to one, can be addressed.
    pub fn can_execute<A>(
        &self,
        invocation: &KernelInvocation<A>,
        validation: &Result<(), KernelError>,
    ) -> (fits: bool)
        requires
            self.wf(),
            invocation.wf(),
        ensures
            fits == (prepared(self@.storage, *invocation, *validation) matches Ok(launch)
                ==> launch.fits()),
    {
        if let Some(millis) = invocation.deadline_millis {
            if millis == 0 {
                return true;
            }
        }
        match validation {
            Err(_) => true,
            Ok(_) => output_fits(&self.kernels, &self.storage, invocation),
        }
    }

    /// Starts an invocation, given whether it is a valid invocation of what
    /// is advertised, and says what is to be done for it.
    pub fn execute_invocation<A>(
        &mut self,
        invocation: &KernelInvocation<A>,
        validation: Result<(), KernelError>,
    ) -> (dispatch: Dispatch)
        requires
            old(self).wf(),
            invocation.wf(),
            prepared(old(self)@.storage, *invocation, validation) matches Ok(launch)
                ==> launch.fits(),
        ensures
            final(self).wf(),
            ({
                let started = old(self)@.observing(
                    observed(KernelObservationKind::KernelDispatchStarted, *invocation),
                );
                match prepared(old(self)@.storage, *invocation, validation) {
                    Ok(launch) => {
                        &&& dispatch matches Dispatch::Launch(planned)
                        &&& planned@ == launch
                        &&& launch.wf()
                        &&& inputs_resident(final(self)@.storage, *invocation, launch.function)
                        &&& final(self)@ == started
                    },
                    Err(error) => {
                        &&& dispatch matches Dispatch::Finished(result)
                        &&& result.wf()
                        &&& result@ == failure_result(invocation.id@, error)
                        &&& final(self)@ == started.observing(refusal(*invocation, error))
                    },
                }
            }),
    {
        self.observe(
            KernelObservation::of(KernelObservationKind::KernelDispatchStarted, invocation),
        );
        if let Some(millis) = invocation.deadline_millis {
            if millis == 0 {
                self.observe(
                    KernelObservation::of(KernelObservationKind::KernelTimeout, invocation),
                );
                return Dispatch::Finished(
                    KernelResult::failure(invocation.id.clone(), KernelError::KernelTimeout),
                );
            }
        }
        let planned = match validation {
            Err(error) => Err(error),
            Ok(_) => plan_invocation(&self.kernels, &self.storage, invocation),
        };
        match planned {
            Ok(launch) => {
                proof {
                    let storage = self@.storage;
                    let taken = function_inputs(launch.function);
                    assert forall|i: int| 0 <= i < taken implies i < invocation.inputs@.len()
                        && storage.contains_key((#[trigger] invocation.inputs@[i])@) by {
                        law_planned_inputs_are_resident(storage, *invocation, i as nat);
                    }
                    law_planned_inputs_are_resident(storage, *invocation, (taken - 1) as nat);
                }
                Dispatch::Launch(launch)
            },
            Err(error) => {
                self.observe(KernelObservation::of_failure(invocation, &error));
                Dispatch::Finished(KernelResult::failure(invocation.id.clone(), error))
            },
        }
    }

    /// The resident buffers that a launch takes: those that the first inputs
    /// of its invocation name, in their order.
    pub fn launch_inputs<A>(&self, invocation: &KernelInvocation<A>, launch: &KernelLaunch) -> (
    inputs: Vec<&CudaDeviceBuffer<S>>)
        requires
            self.wf(),
            inputs_resident(self@.storage, *invocation, launch.function),
        ensures
            inputs@.len() == function_inputs(launch.function),
            forall|i: int|
                0 <= i < inputs@.len() ==> {
                    &&& (#[trigger] inputs@[i]).wf()
                    &&& inputs@[i]@ == self@.storage[invocation.inputs@[i]@]
                },
    {
        let count = launch.function.input_count();
        let mut inputs: Vec<&CudaDeviceBuffer<S>> = Vec::new();
        let mut i: usize = 0;
        while i < count
            invariant
                self.wf(),
                i <= count,
                count == function_inputs(launch.function),
                inputs_resident(self@.storage, *invocation, launch.function),
                inputs@.len() == i,
                forall|j: int|
                    0 <= j < i ==> {
                        &&& (#[trigger] inputs@[j]).wf()
                        &&& inputs@[j]@ == self@.storage[invocation.inputs@[j]@]
                    },
            decreases count - i,
        {
            if let Some(buffer) = self.resident(&invocation.inputs[i]) {
                inputs.push(buffer);
            }
            i += 1;
        }
        inputs
    }

    fn complete_launch<A>(
        invocation: &KernelInvocation<A>,
        launch: KernelLaunch,
        launched: Result<(S, i32), CudaError>,
    ) -> (output: Result<(String, CudaDeviceBuffer<S>), KernelError>)
        requires
            launch@.wf(),
        ensures
            match output {
                Ok((id, buffer)) => buffer.wf() && completion(*invocation, launch@, launched)
                    == Ok::<(Seq<char>, DeviceBufferView<S>), KernelErrorView>((id@, buffer@)),
                Err(error) => completion(*invocation, launch@, launched) == Err::<
                    (Seq<char>, DeviceBufferView<S>),
                    KernelErrorView,
                >(error@),
            },
    {
        match launch.complete(launched) {
            Err(error) => {
                proof {
                    law_kernel_error_keeps_the_diagnosis(error);
                }
                Err(KernelError::from(error))
            },
            Ok(buffer) => if invocation.outputs.len() == 0 {
                let mut reason = "missing output at index ".to_owned();
                crate::text::push_decimal(&mut reason, 0);
                Err(KernelError::KernelExecutionFailed { reason })
            } else {
                Ok((invocation.outputs[0].id.clone(), buffer))
            },
        }
    }

    /// Ends an invocation, given what performing its launch gave.
    pub fn finish_invocation<A>(
        &mut self,
        invocation: &KernelInvocation<A>,
        launch: KernelLaunch,
        launched: Result<(S, i32), CudaError>,
    ) -> (result: KernelResult)
        requires
            old(self).wf(),
            launch@.wf(),
        ensures
            final(self).wf(),
            result.wf(),
            match completion(*invocation, launch@, launched) {
                Ok((id, buffer)) => result@ == success_result(invocation.id@, id) && final(self)@
                    == old(self)@.output_stored(id, buffer).observing(
                    observed(KernelObservationKind::KernelDispatchCompleted, *invocation),
                ),
                Err(error) => result@ == failure_result(invocation.id@, error) && final(self)@
                    == old(self)@.observing(observed_failure(*invocation, error)),
            },
    {
        match Self::complete_launch(invocation, launch, launched) {
            Err(error) => {
                self.observe(KernelObservation::of_failure(invocation, &error));
                KernelResult::failure(invocation.id.clone(), error)
            },
            Ok((id, buffer)) => {
                let ghost before = self.storage;
                let ghost kept = buffer;
                let _ = self.storage.insert(id.clone(), buffer);
                proof {
                    lemma_stored_insert(before, self.storage, id@, kept);
                    assert(self@ =~= old(self)@.output_stored(id@, kept@));
                }
                self.observe(
                    KernelObservation::of(
                        KernelObservationKind::KernelDispatchCompleted,
                        invocation,
                    ),
                );
                KernelResult::success(invocation.id.clone(), id)
            },
        }
    }

    /// What to ask of the memory manager before an invocation runs, given for
    /// which of its outputs there is a residency record.
    pub fn execute_invocation_with_memory_manager<A: Copy>(
        &self,
        invocation: &KernelInvocation<A>,
        resident: &Vec<bool>,
    ) -> (plan: AdmissionPlan<A>)
        requires
            self.wf(),
            resident@.len() == invocation.outputs@.len(),
        ensures
            plan@ == admission_plan(
                self@.device_id,
                invocation.outputs@,
                self@.resource_allocations,
                resident@,
                invocation.outputs@.len(),
            ),
            plan@.wf(invocation.outputs@),
    {
        plan_outputs(&self.device_id, &invocation.outputs, &self.resource_allocations, resident)
    }

    /// What the memory manager's answers come to: the allocations that it
    /// granted, in the order of the requests, and why it granted no more.
    pub fn conclude_admission<A: Copy>(
        &mut self,
        invocation: &KernelInvocation<A>,
        plan: &AdmissionPlan<A>,
        granted: Vec<u64>,
        denial: Option<String>,
    ) -> (outcome: AdmissionOutcome<A>)
        requires
            old(self).wf(),
            plan@.wf(invocation.outputs@),
            if denial is Some {
                granted@.len() < plan@.requests.len()
            } else {
                granted@.len() == plan@.requests.len()
            },
        ensures
            final(self).wf(),
            match (denial, plan.fault) {
                (Some(error), _) => {
                    let output = invocation.outputs@[plan@.requests[granted@.len() as int].output
                        as int];
                    &&& outcome matches AdmissionOutcome::Refused { result, release }
                    &&& result.wf()
                    &&& result@ == failure_result(
                        invocation.id@,
                        denial_error(output.id@, error@),
                    )
                    &&& release == granted
                    &&& final(self)@ == old(self)@.observing(
                        observed(KernelObservationKind::KernelMemoryFeasibilityFailed, *invocation),
                    )
                },
                (None, Some(index)) => {
                    &&& outcome matches AdmissionOutcome::Refused { result, release }
                    &&& result.wf()
                    &&& result@ == failure_result(
                        invocation.id@,
                        descriptor_error(invocation.outputs@[index as int]),
                    )
                    &&& release == granted
                    &&& final(self)@ == old(self)@
                },
                (None, None) => {
                    &&& outcome matches AdmissionOutcome::Admitted(list)
                    &&& admissions(list@) == granted_admissions(
                        invocation.outputs@,
                        plan@.requests,
                        granted@,
                    )
                    &&& final(self)@ == old(self)@
                },
            },
    {
        if let Some(error) = denial {
            self.observe(
                KernelObservation::of(
                    KernelObservationKind::KernelMemoryFeasibilityFailed,
                    invocation,
                ),
            );
            let output = &invocation.outputs[plan.requests[granted.len()].output];
            return AdmissionOutcome::Refused {
                result: KernelResult::failure(invocation.id.clone(), denied(output, &error)),
                release: granted,
            };
        }
        if let Some(index) = plan.fault {
            return AdmissionOutcome::Refused {
                result: KernelResult::failure(
                    invocation.id.clone(),
                    invalid_descriptor(&invocation.outputs[index]),
                ),
                release: granted,
            };
        }
        assert forall|i: int| 0 <= i < plan.requests@.len() implies (
        #[trigger] plan.requests@[i]).output < invocation.outputs@.len() by {
            assert(plan@.requests[i].output == plan.requests@[i].output);
        }
        AdmissionOutcome::Admitted(
            collect_admissions(&invocation.outputs, &plan.requests, &granted),
        )
    }

    /// Settles an invocation that has run with the memory manager, and says
    /// which residencies to record and which allocations to release.
    pub fn settle_invocation<A: Copy>(
        &mut self,
        result: &KernelResult,
        admitted: &Vec<Admission<A>>,
        preadmitted: &Vec<String>,
    ) -> (settled: Settlement<A>)
        requires
            old(self).wf(),
        ensures
            final(self).wf(),
            ({
                let outcome = settlement(
                    old(self)@.device_id,
                    result.status,
                    texts(result.updated_resources@),
                    admissions(admitted@),
                    texts(preadmitted@),
                    old(self)@.resource_allocations,
                );
                &&& residency_records(settled.residencies@) == outcome.residencies
                &&& settled.release@ == outcome.release
                &&& final(self)@ == (ExecutorView {
                    resource_allocations: outcome.own,
                    ..old(self)@
                })
            }),
    {
        let settled = settle(
            &self.device_id,
            result.status,
            &result.updated_resources,
            admitted,
            preadmitted,
            &mut self.resource_allocations,
        );
        assert(self@ =~= (ExecutorView {
            resource_allocations: self.resource_allocations@,
            ..old(self)@
        }));
        settled
    }

    /// Files the result of an invocation under a fresh execution id, and
    /// gives the handle by which it can be asked for.
    pub fn submit_kernel_invocation<A>(
        &mut self,
        invocation: &KernelInvocation<A>,
        result: KernelResult,
    ) -> (handle: ProviderExecutionHandle)
        requires
            old(self).wf(),
            result.wf(),
        ensures
            final(self).wf(),
            handle@ == (ProviderExecutionHandleView {
                id: kernel_execution_id(invocation.id@, old(self)@.next_execution_ordinal),
                operation: counted(old(self)@.next_execution_ordinal),
                plan: invocation.id@,
                provider: CUDA_PROVIDER_NAME@,
                device: Some(old(self)@.device_id),
            }),
            final(self)@ == old(self)@.filed(invocation.id@, result),
    {
        let id = name_kernel_execution(&invocation.id, self.next_execution_ordinal);
        self.next_execution_ordinal = self.next_execution_ordinal.wrapping_add(1);
        let handle = ProviderExecutionHandle {
            id: id.clone(),
            operation: self.next_execution_ordinal,
            plan: invocation.id.clone(),
            provider: CUDA_PROVIDER_NAME.to_owned(),
            device: Some(self.device_id.clone()),
        };
        let _ = self.kernel_executions.insert(id, result);
        assert(self@ =~= old(self)@.filed(invocation.id@, result));
        handle
    }

    /// The result of a submitted invocation. It can be had once.
    pub fn complete_kernel_invocation(&mut self, handle: &ProviderExecutionHandle) -> (result: Result<
        KernelResult,
        ProviderExecutionError,
    >)
        requires
            old(self).wf(),
        ensures
            final(self).wf(),
            final(self)@ == (ExecutorView {
                kernel_executions: old(self)@.kernel_executions.remove(handle.id@),
                ..old(self)@
            }),
            match result {
                Ok(result) => result.wf() && old(self)@.kernel_executions.contains_key(handle.id@)
                    && result == old(self)@.kernel_executions[handle.id@],
                Err(error) => !old(self)@.kernel_executions.contains_key(handle.id@) && error@
                    == unknown_handle_error(
                    handle@,
                    ProviderExecutionPhase::Complete,
                    "no Kernel execution is associated with this handle: it was never submitted through submit_kernel_invocation, or has already been completed once"@,
                ),
            },
    {
        let result = match self.kernel_executions.remove(&handle.id) {
            Some(result) => Ok(result),
            None => Err(
                unknown_handle(
                    handle,
                    ProviderExecutionPhase::Complete,
                    "no Kernel execution is associated with this handle: it was never submitted through submit_kernel_invocation, or has already been completed once",
                ),
            ),
        };
        assert(self@ =~= (ExecutorView {
            kernel_executions: old(self)@.kernel_executions.remove(handle.id@),
            ..old(self)@
        }));
        result
    }

    /// Submits a request under the execution id that the Runtime gives it. It
    /// runs at once, and its handle is known until it is completed or released.
    pub fn submit(&mut self, request: ProviderExecutionRequest, id: String) -> (handle:
        ProviderExecutionHandle)
        requires
            old(self).wf(),
        ensures
            final(self).wf(),
            handle@ == handle_of(request, id@),
            final(self)@ == (ExecutorView {
                submitted: old(self)@.submitted.insert(id@, request),
                ..old(self)@
            }),
    {
        let handle = ProviderExecutionHandle::new(&request, id);
        let _ = self.submitted.insert(handle.id.clone(), request);
        assert(self@ =~= (ExecutorView {
            submitted: old(self)@.submitted.insert(id@, request),
            ..old(self)@
        }));
        handle
    }

    /// The status of a submitted request.
    pub fn status(&self, handle: &ProviderExecutionHandle) -> (status: Result<
        ProviderExecutionStatus,
        ProviderExecutionError,
    >)
        requires
            self.wf(),
        ensures
            match status {
                Ok(status) => self@.submitted.contains_key(handle.id@) && status.handle == *handle
                    && status.state == SchedulingState::Completed,
                Err(error) => !self@.submitted.contains_key(handle.id@) && error@
                    == unknown_handle_error(
                    handle@,
                    ProviderExecutionPhase::Observe,
                    "no submission is associated with this handle: it was never submitted, or has already been completed and released"@,
                ),
            },
    {
        if self.submitted.contains_key(&handle.id) {
            Ok(ProviderExecutionStatus { handle: handle.copy(), state: SchedulingState::Completed })
        } else {
            Err(
                unknown_handle(
                    handle,
                    ProviderExecutionPhase::Observe,
                    "no submission is associated with this handle: it was never submitted, or has already been completed and released",
                ),
            )
        }
    }

    /// Asks for a submitted request to be cancelled. It has run by then, so
    /// that is not supported, whether the handle is known or not.
    pub fn cancel(&self, _handle: &ProviderExecutionHandle) -> (outcome: Result<
        ProviderCancellationOutcome,
        ProviderExecutionError,
    >)
        ensures
            outcome == Ok::<ProviderCancellationOutcome, ProviderExecutionError>(
                ProviderCancellationOutcome::Unsupported,
            ),
    {
        Ok(ProviderCancellationOutcome::Unsupported)
    }

    /// Completes a submitted request. That can be done once.
    pub fn complete(&mut self, handle: &ProviderExecutionHandle) -> (result: Result<
        ProviderExecutionResult,
        ProviderExecutionError,
    >)
        requires
            old(self).wf(),
        ensures
            final(self).wf(),
            final(self)@ == (ExecutorView {
                submitted: old(self)@.submitted.remove(handle.id@),
                ..old(self)@
            }),
            match result {
                Ok(result) => old(self)@.submitted.contains_key(handle.id@) && result.handle
                    == *handle && result.state == SchedulingState::Completed
                    && result.outputs@.len() == 0,
                Err(error) => !old(self)@.submitted.contains_key(handle.id@) && error@
                    == unknown_handle_error(
                    handle@,
                    ProviderExecutionPhase::Complete,
                    "no submission is associated with this handle: it was never submitted, or has already been completed once"@,
                ),
            },
    {
        let result = match self.submitted.remove(&handle.id) {
            Some(_) => Ok(
                ProviderExecutionResult {
                    handle: handle.copy(),
                    state: SchedulingState::Completed,
                    outputs: Vec::new(),
                },
            ),
            None => Err(
                unknown_handle(
                    handle,
                    ProviderExecutionPhase::Complete,
                    "no submission is associated with this handle: it was never submitted, or has already been completed once",
                ),
            ),
        };
        assert(self@ =~= (ExecutorView {
            submitted: old(self)@.submitted.remove(handle.id@),
            ..old(self)@
        }));
        result
    }

    /// Forgets a submitted request.
    pub fn release(&mut self, handle: ProviderExecutionHandle)
        requires
            old(self).wf(),
        ensures
            final(self).wf(),
            final(self)@ == (ExecutorView {
                submitted: old(self)@.submitted.remove(handle.id@),
                ..old(self)@
            }),
    {
        let _ = self.submitted.remove(&handle.id);
        assert(self@ =~= (ExecutorView {
            submitted: old(self)@.submitted.remove(handle.id@),
            ..old(self)@
        }));
    }
}

} // verus!
