//! Admission of an invocation's outputs by the memory manager.
//!
//! Before an invocation runs, each of its outputs is to have an allocation:
//! either one that the caller admitted beforehand, which is left alone, or
//! one that is requested here. After it has run, the allocations of what it
//! wrote take the place of those that the same resources had before, and
//! those are released. If the invocation does not run or fails, everything
//! that was granted for it is released.

use crate::dispatch::execution_error;
use crate::invocation::{texts, KernelResultStatus, OutputResource};
use crate::kernel_error::{KernelError, KernelErrorView};
use crate::memory::{
    law_replacement_keeps_the_count, live_after, output_memory, request_output_memory,
    residency_records, LiveAllocations, MemoryAllocationRequest, MemoryAllocationRequestView,
    MemoryPlacement, MemoryPlacementView, TensorResidency, TensorResidencyView,
};
use crate::table::NameTable;
use vstd::prelude::*;

verus! {

/// A request for device memory for an output, with the output's affinity.
#[derive(Debug, PartialEq, Eq)]
pub struct OutputRequest<A> {
    /// The index of the output in the invocation.
    pub output: usize,
    pub memory: MemoryAllocationRequest,
    pub affinity: A,
}

/// What an [`OutputRequest`] asks for.
pub struct OutputRequestView<A> {
    pub output: usize,
    pub memory: MemoryAllocationRequestView,
    pub affinity: A,
}

impl<A> View for OutputRequest<A> {
    type V = OutputRequestView<A>;

    open spec fn view(&self) -> OutputRequestView<A> {
        OutputRequestView {
            output: self.output,
            memory: self.memory@,
            affinity: self.affinity,
        }
    }
}

/// What a list of requests asks for.
pub open spec fn output_requests<A>(list: Seq<OutputRequest<A>>) -> Seq<OutputRequestView<A>> {
    list.map_values(|request: OutputRequest<A>| request@)
}

/// What is asked of the memory manager before an invocation runs. Requests
/// end before the first output whose descriptor is at fault.
#[derive(Debug)]
pub struct AdmissionPlan<A> {
    pub requests: Vec<OutputRequest<A>>,
    pub preadmitted: Vec<String>,
    pub fault: Option<usize>,
}

/// What an [`AdmissionPlan`] asks.
#[verifier::ext_equal]
pub struct AdmissionPlanView<A> {
    pub requests: Seq<OutputRequestView<A>>,
    pub preadmitted: Seq<Seq<char>>,
    pub fault: Option<usize>,
}

impl<A> View for AdmissionPlan<A> {
    type V = AdmissionPlanView<A>;

    open spec fn view(&self) -> AdmissionPlanView<A> {
        AdmissionPlanView {
            requests: output_requests(self.requests@),
            preadmitted: texts(self.preadmitted@),
            fault: self.fault,
        }
    }
}

/// Whether an output was admitted by the caller: it has a residency record,
/// and not from an allocation of this Provider's own.
pub open spec fn is_preadmitted<A>(
    output: OutputResource<A>,
    own: Map<Seq<char>, u64>,
    resident: bool,
) -> bool {
    resident && !own.contains_key(output.id@)
}

/// What is asked for the first `n` outputs of an invocation on a device. `own`
/// holds the allocations of this Provider's own, and `resident` says of each
/// output whether the memory manager has a residency record for it.
pub open spec fn admission_plan<A>(
    device: Seq<char>,
    outputs: Seq<OutputResource<A>>,
    own: Map<Seq<char>, u64>,
    resident: Seq<bool>,
    n: nat,
) -> AdmissionPlanView<A>
    decreases n,
{
    if n == 0 {
        AdmissionPlanView { requests: Seq::empty(), preadmitted: Seq::empty(), fault: None }
    } else {
        let plan = admission_plan(device, outputs, own, resident, (n - 1) as nat);
        let output = outputs[n - 1];
        if plan.fault is Some {
            plan
        } else if is_preadmitted(output, own, resident[n - 1]) {
            AdmissionPlanView { preadmitted: plan.preadmitted.push(output.id@), ..plan }
        } else {
            match output.byte_size {
                Ok(size_bytes) => AdmissionPlanView {
                    requests: plan.requests.push(
                        OutputRequestView {
                            output: (n - 1) as usize,
                            memory: output_memory(device, size_bytes),
                            affinity: output.affinity,
                        },
                    ),
                    ..plan
                },
                Err(_) => AdmissionPlanView { fault: Some((n - 1) as usize), ..plan },
            }
        }
    }
}

impl<A> AdmissionPlanView<A> {
    /// The plan speaks of outputs that there are, and the one at fault is at
    /// fault.
    pub open spec fn wf(self, outputs: Seq<OutputResource<A>>) -> bool {
        &&& forall|i: int|
            0 <= i < self.requests.len() ==> (#[trigger] self.requests[i]).output < outputs.len()
        &&& self.fault matches Some(index) ==> index < outputs.len()
            && outputs[index as int].byte_size is Err
    }
}

/// A fault, once found, ends the plan.
proof fn lemma_fault_ends_plan<A>(
    device: Seq<char>,
    outputs: Seq<OutputResource<A>>,
    own: Map<Seq<char>, u64>,
    resident: Seq<bool>,
    n: nat,
    m: nat,
)
    requires
        n <= m,
        admission_plan(device, outputs, own, resident, n).fault is Some,
    ensures
        admission_plan(device, outputs, own, resident, m) == admission_plan(
            device,
            outputs,
            own,
            resident,
            n,
        ),
    decreases m - n,
{
    if n < m {
        lemma_fault_ends_plan(device, outputs, own, resident, n, (m - 1) as nat);
    }
}

/// Plans what is asked of the memory manager for an invocation's outputs.
pub fn plan_outputs<A: Copy>(
    device: &String,
    outputs: &Vec<OutputResource<A>>,
    own: &NameTable<u64>,
    resident: &Vec<bool>,
) -> (plan: AdmissionPlan<A>)
    requires
        own.wf(),
        resident@.len() == outputs@.len(),
    ensures
        plan@ == admission_plan(device@, outputs@, own@, resident@, outputs@.len()),
        plan@.wf(outputs@),
{
    let mut requests: Vec<OutputRequest<A>> = Vec::new();
    let mut preadmitted: Vec<String> = Vec::new();
    let mut i: usize = 0;
    assert(texts(preadmitted@) =~= Seq::empty());
    assert(output_requests(requests@) =~= Seq::empty());
    while i < outputs.len()
        invariant
            i <= outputs@.len(),
            own.wf(),
            resident@.len() == outputs@.len(),
            admission_plan(device@, outputs@, own@, resident@, i as nat) == (AdmissionPlanView {
                requests: output_requests(requests@),
                preadmitted: texts(preadmitted@),
                fault: None,
            }),
            forall|j: int|
                0 <= j < requests@.len() ==> (#[trigger] requests@[j]).output < outputs@.len(),
        decreases outputs@.len() - i,
    {
        let output = &outputs[i];
        let ghost before = texts(preadmitted@);
        let ghost asked = output_requests(requests@);
        if resident[i] && !own.contains_key(&output.id) {
            preadmitted.push(output.id.clone());
            assert(texts(preadmitted@) =~= before.push(output.id@));
        } else {
            match &output.byte_size {
                Ok(size_bytes) => {
                    let request = OutputRequest {
                        output: i,
                        memory: request_output_memory(device, *size_bytes),
                        affinity: output.affinity,
                    };
                    let ghost last = request@;
                    requests.push(request);
                    assert(output_requests(requests@) =~= asked.push(last));
                },
                Err(_) => {
                    proof {
                        lemma_fault_ends_plan(
                            device@,
                            outputs@,
                            own@,
                            resident@,
                            (i + 1) as nat,
                            outputs@.len(),
                        );
                    }
                    return AdmissionPlan { requests, preadmitted, fault: Some(i) };
                },
            }
        }
        i += 1;
    }
    AdmissionPlan { requests, preadmitted, fault: None }
}

/// An allocation that was granted for a resource, with the resource's
/// affinity.
#[derive(Debug)]
pub struct Admission<A> {
    pub resource: String,
    pub allocation: u64,
    pub affinity: A,
}

/// What an [`Admission`] says.
pub struct AdmissionView<A> {
    pub resource: Seq<char>,
    pub allocation: u64,
    pub affinity: A,
}

impl<A> View for Admission<A> {
    type V = AdmissionView<A>;

    open spec fn view(&self) -> AdmissionView<A> {
        AdmissionView {
            resource: self.resource@,
            allocation: self.allocation,
            affinity: self.affinity,
        }
    }
}

/// What a list of admissions says.
pub open spec fn admissions<A>(list: Seq<Admission<A>>) -> Seq<AdmissionView<A>> {
    list.map_values(|admission: Admission<A>| admission@)
}

/// The allocations of a list of admissions.
pub open spec fn allocations_of<A>(list: Seq<AdmissionView<A>>) -> Seq<u64> {
    list.map_values(|admission: AdmissionView<A>| admission.allocation)
}

/// The admissions that the requests of a plan came to.
pub open spec fn granted_admissions<A>(
    outputs: Seq<OutputResource<A>>,
    requests: Seq<OutputRequestView<A>>,
    granted: Seq<u64>,
) -> Seq<AdmissionView<A>> {
    Seq::new(
        granted.len(),
        |i: int|
            AdmissionView {
                resource: outputs[requests[i].output as int].id@,
                allocation: granted[i],
                affinity: requests[i].affinity,
            },
    )
}

pub(crate) fn collect_admissions<A: Copy>(
    outputs: &Vec<OutputResource<A>>,
    requests: &Vec<OutputRequest<A>>,
    granted: &Vec<u64>,
) -> (list: Vec<Admission<A>>)
    requires
        granted@.len() == requests@.len(),
        forall|i: int|
            0 <= i < requests@.len() ==> (#[trigger] requests@[i]).output < outputs@.len(),
    ensures
        admissions(list@) == granted_admissions(outputs@, output_requests(requests@), granted@),
{
    let mut list: Vec<Admission<A>> = Vec::new();
    let mut i: usize = 0;
    while i < granted.len()
        invariant
            i <= granted@.len(),
            granted@.len() == requests@.len(),
            forall|j: int|
                0 <= j < requests@.len() ==> (#[trigger] requests@[j]).output < outputs@.len(),
            list@.len() == i,
            forall|j: int|
                0 <= j < i ==> (#[trigger] list@[j])@ == granted_admissions(
                    outputs@,
                    output_requests(requests@),
                    granted@,
                )[j],
        decreases granted@.len() - i,
    {
        list.push(
            Admission {
                resource: outputs[requests[i].output].id.clone(),
                allocation: granted[i],
                affinity: requests[i].affinity,
            },
        );
        i += 1;
    }
    assert(admissions(list@) =~= granted_admissions(
        outputs@,
        output_requests(requests@),
        granted@,
    ));
    list
}

/// The error of an output for which the memory manager grants nothing.
pub open spec fn denial_error(output: Seq<char>, error: Seq<char>) -> KernelErrorView {
    execution_error("memory admission denied for output "@ + output + ": "@ + error)
}

/// The error of an output whose descriptor is at fault.
pub open spec fn descriptor_error<A>(output: OutputResource<A>) -> KernelErrorView {
    execution_error(
        "cannot admit output "@ + output.id@ + ": invalid tensor descriptor ("@
            + output.byte_size->Err_0@ + ")"@,
    )
}

pub(crate) fn denied<A>(output: &OutputResource<A>, error: &String) -> (mapped: KernelError)
    ensures
        mapped@ == denial_error(output.id@, error@),
{
    let mut reason = "memory admission denied for output ".to_owned();
    reason.append(output.id.as_str());
    reason.append(": ");
    reason.append(error.as_str());
    KernelError::KernelExecutionFailed { reason }
}

pub(crate) fn invalid_descriptor<A>(output: &OutputResource<A>) -> (mapped: KernelError)
    requires
        output.byte_size is Err,
    ensures
        mapped@ == descriptor_error(*output),
{
    let mut reason = "cannot admit output ".to_owned();
    reason.append(output.id.as_str());
    reason.append(": invalid tensor descriptor (");
    if let Err(error) = &output.byte_size {
        reason.append(error.as_str());
    }
    reason.append(")");
    KernelError::KernelExecutionFailed { reason }
}

/// The first admission for a resource.
pub open spec fn first_admission<A>(list: Seq<AdmissionView<A>>, resource: Seq<char>) -> Option<
    AdmissionView<A>,
>
    decreases list.len(),
{
    if list.len() == 0 {
        None
    } else if list[0].resource == resource {
        Some(list[0])
    } else {
        first_admission(list.drop_first(), resource)
    }
}

proof fn lemma_first_admission<A>(list: Seq<AdmissionView<A>>, resource: Seq<char>)
    ensures
        first_admission(list, resource) matches Some(admission) ==> admission.resource == resource,
    decreases list.len(),
{
    if list.len() > 0 && list[0].resource != resource {
        lemma_first_admission(list.drop_first(), resource);
    }
}

pub(crate) fn find_admission<'a, A>(list: &'a Vec<Admission<A>>, resource: &String) -> (found:
    Option<&'a Admission<A>>)
    ensures
        match found {
            Some(admission) => first_admission(admissions(list@), resource@) == Some(admission@),
            None => first_admission(admissions(list@), resource@) is None,
        },
{
    let mut i: usize = 0;
    let ghost all = admissions(list@);
    assert(all.skip(0) =~= all);
    while i < list.len()
        invariant
            i <= list@.len(),
            all == admissions(list@),
            first_admission(all, resource@) == first_admission(all.skip(i as int), resource@),
        decreases list@.len() - i,
    {
        assert(all.skip(i as int)[0] == list@[i as int]@);
        if list[i].resource == *resource {
            return Some(&list[i]);
        }
        assert(all.skip(i as int).drop_first() =~= all.skip(i + 1));
        i += 1;
    }
    None
}

pub(crate) fn contains_text(list: &Vec<String>, text: &String) -> (found: bool)
    ensures
        found == texts(list@).contains(text@),
{
    let mut i: usize = 0;
    while i < list.len()
        invariant
            i <= list@.len(),
            forall|j: int| 0 <= j < i ==> (#[trigger] list@[j])@ != text@,
        decreases list@.len() - i,
    {
        if list[i] == *text {
            assert(texts(list@)[i as int] == text@);
            return true;
        }
        i += 1;
    }
    assert forall|j: int| 0 <= j < texts(list@).len() implies texts(list@)[j] != text@ by {
        assert(texts(list@)[j] == list@[j]@);
    }
    false
}

/// What is left to do once an invocation has ended: the residencies to
/// record and the allocations to release.
#[derive(Debug)]
pub struct Settlement<A> {
    pub residencies: Vec<TensorResidency<A>>,
    pub release: Vec<u64>,
}

/// What a [`Settlement`] asks, and the allocations of this Provider's own
/// after it.
#[verifier::ext_equal]
pub struct SettlementView<A> {
    pub residencies: Seq<TensorResidencyView<A>>,
    pub release: Seq<u64>,
    pub own: Map<Seq<char>, u64>,
}

/// The record of a tensor that was written to a device under an admission.
pub open spec fn residency_of<A>(device: Seq<char>, admission: AdmissionView<A>) -> TensorResidencyView<
    A,
> {
    TensorResidencyView {
        tensor: admission.resource,
        placement: MemoryPlacementView::Device(device),
        affinity: admission.affinity,
        allocation: admission.allocation,
    }
}

/// The settlement of the first `n` tensors that a successful invocation
/// wrote. What the caller admitted is left alone; any other gets a residency
/// record, and its allocation takes the place of the one before, which is
/// released.
pub open spec fn settled_writes<A>(
    device: Seq<char>,
    written: Seq<Seq<char>>,
    admitted: Seq<AdmissionView<A>>,
    preadmitted: Seq<Seq<char>>,
    own: Map<Seq<char>, u64>,
    n: nat,
) -> SettlementView<A>
    decreases n,
{
    if n == 0 {
        SettlementView { residencies: Seq::empty(), release: Seq::empty(), own }
    } else {
        let before = settled_writes(device, written, admitted, preadmitted, own, (n - 1) as nat);
        let resource = written[n - 1];
        if preadmitted.contains(resource) {
            before
        } else {
            match first_admission(admitted, resource) {
                None => before,
                Some(admission) => SettlementView {
                    residencies: before.residencies.push(residency_of(device, admission)),
                    release: if before.own.contains_key(resource) {
                        before.release.push(before.own[resource])
                    } else {
                        before.release
                    },
                    own: before.own.insert(resource, admission.allocation),
                },
            }
        }
    }
}

/// The settlement of an invocation that ended with a status. Where it did not
/// succeed, all that was granted for it is released.
pub open spec fn settlement<A>(
    device: Seq<char>,
    status: KernelResultStatus,
    written: Seq<Seq<char>>,
    admitted: Seq<AdmissionView<A>>,
    preadmitted: Seq<Seq<char>>,
    own: Map<Seq<char>, u64>,
) -> SettlementView<A> {
    if status == KernelResultStatus::Succeeded {
        settled_writes(device, written, admitted, preadmitted, own, written.len())
    } else {
        SettlementView {
            residencies: Seq::empty(),
            release: allocations_of(admitted),
            own,
        }
    }
}

fn list_allocations<A>(list: &Vec<Admission<A>>) -> (allocations: Vec<u64>)
    ensures
        allocations@ == allocations_of(admissions(list@)),
{
    let mut allocations: Vec<u64> = Vec::new();
    let mut i: usize = 0;
    while i < list.len()
        invariant
            i <= list@.len(),
            allocations@.len() == i,
            forall|j: int| 0 <= j < i ==> #[trigger] allocations@[j] == list@[j].allocation,
        decreases list@.len() - i,
    {
        allocations.push(list[i].allocation);
        i += 1;
    }
    assert(allocations@ =~= allocations_of(admissions(list@)));
    allocations
}

/// Settles an invocation that has ended.
pub fn settle<A: Copy>(
    device: &String,
    status: KernelResultStatus,
    written: &Vec<String>,
    admitted: &Vec<Admission<A>>,
    preadmitted: &Vec<String>,
    own: &mut NameTable<u64>,
) -> (settled: Settlement<A>)
    requires
        old(own).wf(),
    ensures
        final(own).wf(),
        settlement(
            device@,
            status,
            texts(written@),
            admissions(admitted@),
            texts(preadmitted@),
            old(own)@,
        ) == (SettlementView {
            residencies: residency_records(settled.residencies@),
            release: settled.release@,
            own: final(own)@,
        }),
{
    if status != KernelResultStatus::Succeeded {
        let residencies: Vec<TensorResidency<A>> = Vec::new();
        assert(residency_records(residencies@) =~= Seq::empty());
        return Settlement { residencies, release: list_allocations(admitted) };
    }
    let mut residencies: Vec<TensorResidency<A>> = Vec::new();
    let mut release: Vec<u64> = Vec::new();
    let mut i: usize = 0;
    assert(residency_records(residencies@) =~= Seq::empty());
    while i < written.len()
        invariant
            i <= written@.len(),
            own.wf(),
            settled_writes(
                device@,
                texts(written@),
                admissions(admitted@),
                texts(preadmitted@),
                old(own)@,
                i as nat,
            ) == (SettlementView {
                residencies: residency_records(residencies@),
                release: release@,
                own: own@,
            }),
        decreases written@.len() - i,
    {
        let resource = &written[i];
        assert(texts(written@)[i as int] == resource@);
        let ghost before = residency_records(residencies@);
        if !contains_text(preadmitted, resource) {
            if let Some(admission) = find_admission(admitted, resource) {
                residencies.push(
                    TensorResidency {
                        tensor: admission.resource.clone(),
                        placement: MemoryPlacement::Device(device.clone()),
                        affinity: admission.affinity,
                        allocation: admission.allocation,
                    },
                );
                assert(residency_records(residencies@) =~= before.push(
                    residency_of(device@, admission@),
                ));
                if let Some(previous) = own.insert(resource.clone(), admission.allocation) {
                    release.push(previous);
                }
            }
        }
        i += 1;
    }
    Settlement { residencies, release }
}

/// What is granted for an invocation that does not succeed is released, all
/// of it, and nothing else changes hands.
pub proof fn law_failure_releases_all_grants<A>(
    device: Seq<char>,
    outputs: Seq<OutputResource<A>>,
    requests: Seq<OutputRequestView<A>>,
    granted: Seq<u64>,
    preadmitted: Seq<Seq<char>>,
    own: Map<Seq<char>, u64>,
    status: KernelResultStatus,
)
    requires
        status != KernelResultStatus::Succeeded,
    ensures
        ({
            let admitted = granted_admissions(outputs, requests, granted);
            let settled = settlement(device, status, Seq::empty(), admitted, preadmitted, own);
            &&& settled.release == granted
            &&& settled.own == own
            &&& settled.residencies.len() == 0
        }),
{
    let admitted = granted_admissions(outputs, requests, granted);
    assert(allocations_of(admitted) =~= granted);
}

/// An invocation of one output that succeeds has that output's allocation
/// take the place of the one before. It is recorded that the output is on the
/// device, with its affinity and in the new allocation, which is live as it
/// was asked for: a tensor's memory of the size that the output's descriptor
/// gives, on the device, in the ownership of this Provider. The new allocation
/// is the only one that is kept for the resource, and the old one, where there
/// was one, is the only one that is released. Running it again does not grow
/// the ledger.
pub proof fn law_success_replaces_the_allocation<A>(
    device: Seq<char>,
    output: OutputResource<A>,
    own: Map<Seq<char>, u64>,
    resident: bool,
    allocation: u64,
    live: LiveAllocations,
)
    requires
        output.byte_size is Ok,
        !is_preadmitted(output, own, resident),
        live.dom().finite(),
        !live.contains_key(allocation),
        own.contains_key(output.id@) ==> live.contains_key(own[output.id@]),
    ensures
        ({
            let plan = admission_plan(device, seq![output], own, seq![resident], 1);
            let admitted = granted_admissions(seq![output], plan.requests, seq![allocation]);
            let settled = settlement(
                device,
                KernelResultStatus::Succeeded,
                seq![output.id@],
                admitted,
                plan.preadmitted,
                own,
            );
            let request = output_memory(device, output.byte_size->Ok_0);
            let after = live_after(live, allocation, request, settled.release);
            &&& plan.requests == seq![
                OutputRequestView { output: 0, memory: request, affinity: output.affinity },
            ]
            &&& settled.own == own.insert(output.id@, allocation)
            &&& settled.release == if own.contains_key(output.id@) {
                seq![own[output.id@]]
            } else {
                Seq::empty()
            }
            &&& settled.residencies == seq![
                TensorResidencyView {
                    tensor: output.id@,
                    placement: MemoryPlacementView::Device(device),
                    affinity: output.affinity,
                    allocation,
                },
            ]
            &&& after.contains_key(allocation)
            &&& after[allocation] == request
            &&& own.contains_key(output.id@) ==> {
                &&& settled.own.dom() == own.dom()
                &&& !after.contains_key(own[output.id@])
                &&& after.dom().len() == live.dom().len()
            }
        }),
{
    let outputs = seq![output];
    let residents = seq![resident];
    let request = output_memory(device, output.byte_size->Ok_0);
    assert(admission_plan(device, outputs, own, residents, 0).preadmitted =~= Seq::empty());
    let plan = admission_plan(device, outputs, own, residents, 1);
    assert(plan.requests =~= seq![
        OutputRequestView { output: 0, memory: request, affinity: output.affinity },
    ]);
    let admitted = granted_admissions(outputs, plan.requests, seq![allocation]);
    let admission = AdmissionView {
        resource: output.id@,
        allocation,
        affinity: output.affinity,
    };
    assert(admitted[0] == admission);
    assert(first_admission(admitted, output.id@) == Some(admission));
    let written = seq![output.id@];
    let before = settled_writes(device, written, admitted, plan.preadmitted, own, 0);
    let settled = settled_writes(device, written, admitted, plan.preadmitted, own, 1);
    assert(!plan.preadmitted.contains(output.id@));
    assert(settled.residencies =~= seq![residency_of(device, admission)]);
    assert(settled.release =~= if own.contains_key(output.id@) {
        seq![own[output.id@]]
    } else {
        Seq::empty()
    });
    if own.contains_key(output.id@) {
        assert(settled.own.dom() =~= own.dom());
        law_replacement_keeps_the_count(live, allocation, request, Some(own[output.id@]));
    } else {
        law_replacement_keeps_the_count(live, allocation, request, None);
    }
}

/// Whether no allocation is kept for two resources.
pub open spec fn is_ledger(own: Map<Seq<char>, u64>) -> bool {
    forall|a: Seq<char>, b: Seq<char>|
        #![trigger own[a], own[b]]
        own.contains_key(a) && own.contains_key(b) && own[a] == own[b] ==> a == b
}

/// The allocation that a resource gives up when it gets another.
pub open spec fn replaced(own: Map<Seq<char>, u64>, resource: Seq<char>) -> Set<u64> {
    if own.contains_key(resource) {
        set![own[resource]]
    } else {
        set![]
    }
}

/// When a resource gets a fresh allocation in place of the one before, what
/// is kept is what was kept and what was granted, without what is released:
/// nothing leaks, and nothing that is kept is released.
pub proof fn law_replacement_keeps_the_ledger(
    own: Map<Seq<char>, u64>,
    resource: Seq<char>,
    allocation: u64,
)
    requires
        is_ledger(own),
        !own.values().contains(allocation),
    ensures
        is_ledger(own.insert(resource, allocation)),
        own.insert(resource, allocation).values() == own.values().insert(allocation).difference(
            replaced(own, resource),
        ),
{
    let kept = own.insert(resource, allocation);
    assert forall|a: Seq<char>| own.contains_key(a) implies #[trigger] own[a] != allocation by {
        assert(own.values().contains(own[a]));
    }
    assert(is_ledger(kept));
    assert forall|value: u64| kept.values().contains(value) implies own.values().insert(
        allocation,
    ).difference(replaced(own, resource)).contains(value) by {
        let a = choose|a: Seq<char>| #[trigger] kept.contains_key(a) && kept[a] == value;
        if a != resource {
            assert(own.contains_key(a) && own[a] == value);
            assert(own.values().contains(value));
            if own.contains_key(resource) {
                assert(own[a] != own[resource]);
            }
        }
    }
    assert forall|value: u64|
        own.values().insert(allocation).difference(replaced(own, resource)).contains(
            value,
        ) implies kept.values().contains(value) by {
        if value == allocation {
            assert(kept.contains_key(resource) && kept[resource] == value);
        } else {
            let a = choose|a: Seq<char>| #[trigger] own.contains_key(a) && own[a] == value;
            assert(kept.contains_key(a) && kept[a] == value);
        }
    }
    assert(kept.values() =~= own.values().insert(allocation).difference(replaced(own, resource)));
}

/// When a resource is given up, its allocation is what is no longer kept.
pub proof fn law_release_keeps_the_ledger(own: Map<Seq<char>, u64>, resource: Seq<char>)
    requires
        is_ledger(own),
    ensures
        is_ledger(own.remove(resource)),
        own.remove(resource).values() == own.values().difference(replaced(own, resource)),
{
    let kept = own.remove(resource);
    assert forall|value: u64| kept.values().contains(value) implies own.values().difference(
        replaced(own, resource),
    ).contains(value) by {
        let a = choose|a: Seq<char>| #[trigger] kept.contains_key(a) && kept[a] == value;
        assert(own.contains_key(a) && own[a] == value);
        if own.contains_key(resource) {
            assert(own[a] != own[resource]);
        }
    }
    assert forall|value: u64|
        own.values().difference(replaced(own, resource)).contains(value) implies kept.values().contains(
        value,
    ) by {
        let a = choose|a: Seq<char>| #[trigger] own.contains_key(a) && own[a] == value;
        assert(kept.contains_key(a) && kept[a] == value);
    }
    assert(kept.values() =~= own.values().difference(replaced(own, resource)));
}

/// Nothing is asked for an output that the caller admitted.
pub proof fn law_preadmitted_outputs_are_not_requested<A>(
    device: Seq<char>,
    outputs: Seq<OutputResource<A>>,
    own: Map<Seq<char>, u64>,
    resident: Seq<bool>,
    n: nat,
)
    requires
        n <= outputs.len(),
        outputs.len() == resident.len(),
        outputs.len() <= usize::MAX,
    ensures
        forall|i: int|
            #![trigger admission_plan(device, outputs, own, resident, n).requests[i]]
            0 <= i < admission_plan(device, outputs, own, resident, n).requests.len() ==> {
                let request = admission_plan(device, outputs, own, resident, n).requests[i];
                &&& request.output < n
                &&& !is_preadmitted(
                    outputs[request.output as int],
                    own,
                    resident[request.output as int],
                )
            },
    decreases n,
{
    if n > 0 {
        law_preadmitted_outputs_are_not_requested(device, outputs, own, resident, (n - 1) as nat);
        let before = admission_plan(device, outputs, own, resident, (n - 1) as nat);
        let plan = admission_plan(device, outputs, own, resident, n);
        assert forall|i: int| 0 <= i < plan.requests.len() implies {
            let request = #[trigger] plan.requests[i];
            &&& request.output < n
            &&& !is_preadmitted(
                outputs[request.output as int],
                own,
                resident[request.output as int],
            )
        } by {
            if i < before.requests.len() {
                assert(plan.requests[i] == before.requests[i]);
            }
        }
    }
}

/// However an invocation ends, it records no residency for what the caller
/// admitted, and does not take it into its own allocations.
pub proof fn law_preadmitted_outputs_are_left_alone<A>(
    device: Seq<char>,
    status: KernelResultStatus,
    written: Seq<Seq<char>>,
    admitted: Seq<AdmissionView<A>>,
    preadmitted: Seq<Seq<char>>,
    own: Map<Seq<char>, u64>,
    resource: Seq<char>,
)
    requires
        preadmitted.contains(resource),
    ensures
        ({
            let settled = settlement(device, status, written, admitted, preadmitted, own);
            &&& settled.own.contains_key(resource) == own.contains_key(resource)
            &&& settled.own[resource] == own[resource]
            &&& forall|i: int|
                0 <= i < settled.residencies.len() ==> (#[trigger] settled.residencies[i]).tensor
                    != resource
        }),
{
    lemma_preadmitted_writes(device, written, admitted, preadmitted, own, resource, written.len());
}

proof fn lemma_preadmitted_writes<A>(
    device: Seq<char>,
    written: Seq<Seq<char>>,
    admitted: Seq<AdmissionView<A>>,
    preadmitted: Seq<Seq<char>>,
    own: Map<Seq<char>, u64>,
    resource: Seq<char>,
    n: nat,
)
    requires
        preadmitted.contains(resource),
    ensures
        ({
            let settled = settled_writes(device, written, admitted, preadmitted, own, n);
            &&& settled.own.contains_key(resource) == own.contains_key(resource)
            &&& settled.own[resource] == own[resource]
            &&& forall|i: int|
                0 <= i < settled.residencies.len() ==> (#[trigger] settled.residencies[i]).tensor
                    != resource
        }),
    decreases n,
{
    if n > 0 {
        lemma_preadmitted_writes(
            device,
            written,
            admitted,
            preadmitted,
            own,
            resource,
            (n - 1) as nat,
        );
        let before = settled_writes(device, written, admitted, preadmitted, own, (n - 1) as nat);
        let settled = settled_writes(device, written, admitted, preadmitted, own, n);
        assert forall|i: int| 0 <= i < settled.residencies.len() implies (
        #[trigger] settled.residencies[i]).tensor != resource by {
            if i < before.residencies.len() {
                assert(settled.residencies[i] == before.residencies[i]);
            } else {
                lemma_first_admission(admitted, written[n - 1]);
            }
        }
    }
}

/// Whether the caller admitted an output, in terms of the books: the memory
/// manager has it on record and this Provider has not.
pub proof fn law_callers_admit_what_is_not_our_own<A>(
    output: OutputResource<A>,
    own: Map<Seq<char>, u64>,
)
    ensures
        is_preadmitted(output, own, true) <==> !own.contains_key(output.id@),
        !is_preadmitted(output, own, false),
{
}

/// Whether a request is for an output: its size and its affinity, in a tensor's
/// memory on the device that this Provider owns.
pub open spec fn asks_for<A>(
    request: OutputRequestView<A>,
    device: Seq<char>,
    outputs: Seq<OutputResource<A>>,
    index: int,
) -> bool {
    &&& request.output == index
    &&& outputs[index].byte_size matches Ok(size_bytes)
    &&& request.memory.size_bytes == size_bytes
    &&& request.memory.class == crate::memory::MemoryAllocationClass::Tensor
    &&& request.memory.placement == MemoryPlacementView::Device(device)
    &&& request.memory.owner == crate::memory::MemoryAllocationOwnerView::Provider(
        "magnetar:provider/cuda"@,
    )
    &&& request.affinity == outputs[index].affinity
}

/// Every output before one at fault is taken care of: the caller admitted it, or
/// it is asked for.
pub proof fn law_every_output_is_taken_care_of<A>(
    device: Seq<char>,
    outputs: Seq<OutputResource<A>>,
    own: Map<Seq<char>, u64>,
    resident: Seq<bool>,
    n: nat,
    index: int,
)
    requires
        0 <= index < n <= outputs.len(),
        outputs.len() == resident.len(),
        outputs.len() <= usize::MAX,
        admission_plan(device, outputs, own, resident, n).fault matches Some(fault) ==> index
            < fault,
    ensures
        ({
            let plan = admission_plan(device, outputs, own, resident, n);
            if resident[index] && !own.contains_key(outputs[index].id@) {
                plan.preadmitted.contains(outputs[index].id@)
            } else {
                exists|j: int|
                    0 <= j < plan.requests.len() && asks_for(
                        #[trigger] plan.requests[j],
                        device,
                        outputs,
                        index,
                    )
            }
        }),
    decreases n,
{
    let before = admission_plan(device, outputs, own, resident, (n - 1) as nat);
    let plan = admission_plan(device, outputs, own, resident, n);
    lemma_fault_is_within(device, outputs, own, resident, (n - 1) as nat);
    if index < n - 1 {
        law_every_output_is_taken_care_of(device, outputs, own, resident, (n - 1) as nat, index);
        if resident[index] && !own.contains_key(outputs[index].id@) {
            let at = choose|at: int|
                0 <= at < before.preadmitted.len() && before.preadmitted[at] == outputs[index].id@;
            assert(plan.preadmitted[at] == outputs[index].id@);
        } else {
            let at = choose|at: int|
                0 <= at < before.requests.len() && asks_for(
                    #[trigger] before.requests[at],
                    device,
                    outputs,
                    index,
                );
            assert(plan.requests[at] == before.requests[at]);
        }
    } else {
        assert(before.fault is None);
        if resident[index] && !own.contains_key(outputs[index].id@) {
            assert(plan.preadmitted.last() == outputs[index].id@);
        } else {
            assert(asks_for(plan.requests.last(), device, outputs, index));
        }
    }
}

proof fn lemma_fault_is_within<A>(
    device: Seq<char>,
    outputs: Seq<OutputResource<A>>,
    own: Map<Seq<char>, u64>,
    resident: Seq<bool>,
    n: nat,
)
    requires
        n <= outputs.len(),
        outputs.len() <= usize::MAX,
    ensures
        admission_plan(device, outputs, own, resident, n).fault matches Some(fault) ==> fault < n,
    decreases n,
{
    if n > 0 {
        lemma_fault_is_within(device, outputs, own, resident, (n - 1) as nat);
    }
}

/// Requests are made in the order of the outputs, one for each at most, and only
/// for outputs before the one at fault.
pub proof fn law_requests_keep_the_order<A>(
    device: Seq<char>,
    outputs: Seq<OutputResource<A>>,
    own: Map<Seq<char>, u64>,
    resident: Seq<bool>,
    n: nat,
)
    requires
        n <= outputs.len(),
        outputs.len() <= usize::MAX,
    ensures
        ({
            let plan = admission_plan(device, outputs, own, resident, n);
            &&& forall|i: int, j: int|
                0 <= i < j < plan.requests.len() ==> (#[trigger] plan.requests[i]).output < (
                #[trigger] plan.requests[j]).output
            &&& forall|i: int|
                0 <= i < plan.requests.len() ==> (#[trigger] plan.requests[i]).output
                    < if plan.fault is Some {
                    plan.fault->Some_0 as int
                } else {
                    n as int
                }
        }),
    decreases n,
{
    if n > 0 {
        law_requests_keep_the_order(device, outputs, own, resident, (n - 1) as nat);
        let before = admission_plan(device, outputs, own, resident, (n - 1) as nat);
        let plan = admission_plan(device, outputs, own, resident, n);
        assert forall|i: int| 0 <= i < before.requests.len() implies plan.requests[i]
            == #[trigger] before.requests[i] by {}
    }
}

/// The output at fault is the first that would have to be asked for and has no
/// size; where there is none, none is at fault.
pub proof fn law_the_first_fault_is_found<A>(
    device: Seq<char>,
    outputs: Seq<OutputResource<A>>,
    own: Map<Seq<char>, u64>,
    resident: Seq<bool>,
    n: nat,
)
    requires
        n <= outputs.len(),
        outputs.len() == resident.len(),
        outputs.len() <= usize::MAX,
    ensures
        ({
            let plan = admission_plan(device, outputs, own, resident, n);
            let end = if plan.fault is Some {
                plan.fault->Some_0 as int
            } else {
                n as int
            };
            &&& end <= n
            &&& plan.fault is Some ==> {
                &&& end < n
                &&& outputs[end].byte_size is Err
                &&& !resident[end] || own.contains_key(outputs[end].id@)
            }
            &&& forall|i: int|
                #![trigger outputs[i]]
                0 <= i < end ==> outputs[i].byte_size is Ok || (resident[i] && !own.contains_key(
                    outputs[i].id@,
                ))
        }),
    decreases n,
{
    if n > 0 {
        law_the_first_fault_is_found(device, outputs, own, resident, (n - 1) as nat);
    }
}

/// What the caller admitted is all that is left to it.
pub proof fn law_only_the_callers_outputs_are_left_to_it<A>(
    device: Seq<char>,
    outputs: Seq<OutputResource<A>>,
    own: Map<Seq<char>, u64>,
    resident: Seq<bool>,
    n: nat,
    resource: Seq<char>,
)
    requires
        n <= outputs.len(),
        outputs.len() == resident.len(),
        admission_plan(device, outputs, own, resident, n).preadmitted.contains(resource),
    ensures
        !own.contains_key(resource),
        exists|i: int| 0 <= i < n && (#[trigger] outputs[i]).id@ == resource && resident[i],
    decreases n,
{
    if n > 0 {
        let before = admission_plan(device, outputs, own, resident, (n - 1) as nat);
        let plan = admission_plan(device, outputs, own, resident, n);
        if before.preadmitted.contains(resource) {
            law_only_the_callers_outputs_are_left_to_it(
                device,
                outputs,
                own,
                resident,
                (n - 1) as nat,
                resource,
            );
        } else {
            let at = choose|at: int|
                0 <= at < plan.preadmitted.len() && plan.preadmitted[at] == resource;
            if at < before.preadmitted.len() {
                assert(before.preadmitted[at] == resource);
            }
            assert(outputs[n - 1].id@ == resource);
        }
    }
}

/// Each grant is for the output whose request it answers.
pub proof fn law_grants_answer_requests_in_order<A>(
    outputs: Seq<OutputResource<A>>,
    requests: Seq<OutputRequestView<A>>,
    granted: Seq<u64>,
    index: int,
)
    requires
        0 <= index < granted.len(),
    ensures
        granted_admissions(outputs, requests, granted).len() == granted.len(),
        granted_admissions(outputs, requests, granted)[index].allocation == granted[index],
        granted_admissions(outputs, requests, granted)[index].resource
            == outputs[requests[index].output as int].id@,
        granted_admissions(outputs, requests, granted)[index].affinity == requests[index].affinity,
{
}

/// The admission that counts for a resource is the first of those made for it.
pub proof fn law_the_first_admission_counts<A>(
    list: Seq<AdmissionView<A>>,
    resource: Seq<char>,
    index: int,
)
    requires
        0 <= index < list.len(),
        list[index].resource == resource,
        forall|i: int| 0 <= i < index ==> (#[trigger] list[i]).resource != resource,
    ensures
        first_admission(list, resource) == Some(list[index]),
    decreases list.len(),
{
    if index > 0 {
        let rest = list.drop_first();
        assert forall|i: int| 0 <= i < index - 1 implies (#[trigger] rest[i]).resource
            != resource by {
            assert(rest[i] == list[i + 1]);
        }
        law_the_first_admission_counts(rest, resource, index - 1);
    }
}

/// A resource that nothing was admitted for has no admission.
pub proof fn law_unadmitted_resources_have_none<A>(
    list: Seq<AdmissionView<A>>,
    resource: Seq<char>,
)
    requires
        forall|i: int| 0 <= i < list.len() ==> (#[trigger] list[i]).resource != resource,
    ensures
        first_admission(list, resource) is None,
    decreases list.len(),
{
    if list.len() > 0 {
        let rest = list.drop_first();
        assert forall|i: int| 0 <= i < rest.len() implies (#[trigger] rest[i]).resource
            != resource by {
            assert(rest[i] == list[i + 1]);
        }
        law_unadmitted_resources_have_none(rest, resource);
    }
}

/// A success settles each tensor that was written by itself, the last after
/// those before. What the caller admitted, or nothing was admitted for, is left
/// alone. Any other is recorded on the device in the allocation that was granted
/// for it, which is kept, and the one that was kept before is released.
pub proof fn law_success_settles_each_tensor<A>(
    device: Seq<char>,
    written: Seq<Seq<char>>,
    last: Seq<char>,
    admitted: Seq<AdmissionView<A>>,
    preadmitted: Seq<Seq<char>>,
    own: Map<Seq<char>, u64>,
)
    ensures
        ({
            let nothing = settlement(
                device,
                KernelResultStatus::Succeeded,
                Seq::empty(),
                admitted,
                preadmitted,
                own,
            );
            &&& nothing.residencies.len() == 0
            &&& nothing.release.len() == 0
            &&& nothing.own == own
        }),
        ({
            let before = settlement(
                device,
                KernelResultStatus::Succeeded,
                written,
                admitted,
                preadmitted,
                own,
            );
            let after = settlement(
                device,
                KernelResultStatus::Succeeded,
                written.push(last),
                admitted,
                preadmitted,
                own,
            );
            match first_admission(admitted, last) {
                Some(admission) if !preadmitted.contains(last) => {
                    &&& after.own == before.own.insert(last, admission.allocation)
                    &&& after.release == before.release + if before.own.contains_key(last) {
                        seq![before.own[last]]
                    } else {
                        Seq::empty()
                    }
                    &&& after.residencies == before.residencies + seq![
                        TensorResidencyView {
                            tensor: last,
                            placement: MemoryPlacementView::Device(device),
                            affinity: admission.affinity,
                            allocation: admission.allocation,
                        },
                    ]
                },
                _ => after == before,
            }
        }),
{
    lemma_earlier_writes(device, written, last, admitted, preadmitted, own, written.len());
    lemma_first_admission(admitted, last);
    let before = settled_writes(device, written, admitted, preadmitted, own, written.len());
    let after = settled_writes(
        device,
        written.push(last),
        admitted,
        preadmitted,
        own,
        written.len() + 1,
    );
    if let Some(admission) = first_admission(admitted, last) {
        if !preadmitted.contains(last) {
            assert(after.release =~= before.release + if before.own.contains_key(last) {
                seq![before.own[last]]
            } else {
                Seq::empty()
            });
            assert(after.residencies =~= before.residencies + seq![
                residency_of(device, admission),
            ]);
        }
    }
}

proof fn lemma_earlier_writes<A>(
    device: Seq<char>,
    written: Seq<Seq<char>>,
    last: Seq<char>,
    admitted: Seq<AdmissionView<A>>,
    preadmitted: Seq<Seq<char>>,
    own: Map<Seq<char>, u64>,
    n: nat,
)
    requires
        n <= written.len(),
    ensures
        settled_writes(device, written.push(last), admitted, preadmitted, own, n)
            == settled_writes(device, written, admitted, preadmitted, own, n),
    decreases n,
{
    if n > 0 {
        lemma_earlier_writes(device, written, last, admitted, preadmitted, own, (n - 1) as nat);
        assert(written.push(last)[n - 1] == written[n - 1]);
    }
}

/// An invocation that does not succeed records nothing and keeps the books as
/// they are, whatever it wrote; all that was admitted for it is released, in
/// order.
pub proof fn law_failure_keeps_the_books<A>(
    device: Seq<char>,
    status: KernelResultStatus,
    written: Seq<Seq<char>>,
    admitted: Seq<AdmissionView<A>>,
    preadmitted: Seq<Seq<char>>,
    own: Map<Seq<char>, u64>,
)
    requires
        status != KernelResultStatus::Succeeded,
    ensures
        ({
            let settled = settlement(device, status, written, admitted, preadmitted, own);
            &&& settled.own == own
            &&& settled.residencies.len() == 0
            &&& settled.release.len() == admitted.len()
            &&& forall|i: int|
                0 <= i < admitted.len() ==> settled.release[i] == (
                #[trigger] admitted[i]).allocation
        }),
{
}

/// A denial tells the output that was denied and the memory manager's reason, a
/// faulty descriptor the output and the fault.
pub proof fn law_refusals_tell_the_output<A>(output: OutputResource<A>, error: Seq<char>)
    requires
        output.byte_size is Err,
    ensures
        denial_error(output.id@, error) == (KernelErrorView::KernelExecutionFailed {
            reason: "memory admission denied for output "@ + output.id@ + ": "@ + error,
        }),
        descriptor_error(output) == (KernelErrorView::KernelExecutionFailed {
            reason: "cannot admit output "@ + output.id@ + ": invalid tensor descriptor ("@
                + output.byte_size->Err_0@ + ")"@,
        }),
{
}

/// Lists are looked at entry by entry.
pub proof fn law_lists_are_told_entry_by_entry<A>(
    requests: Seq<OutputRequest<A>>,
    list: Seq<Admission<A>>,
    residencies: Seq<TensorResidency<A>>,
    index: int,
)
    ensures
        output_requests(requests).len() == requests.len(),
        0 <= index < requests.len() ==> {
            let told = output_requests(requests)[index];
            let request = requests[index];
            &&& told.output == request.output
            &&& told.affinity == request.affinity
            &&& told.memory.class == request.memory.class
            &&& told.memory.size_bytes == request.memory.size_bytes
            &&& told.memory.placement == request.memory.placement@
            &&& told.memory.owner == request.memory.owner@
        },
        admissions(list).len() == list.len(),
        0 <= index < list.len() ==> {
            let told = admissions(list)[index];
            &&& told.resource == list[index].resource@
            &&& told.allocation == list[index].allocation
            &&& told.affinity == list[index].affinity
        },
        residency_records(residencies).len() == residencies.len(),
        0 <= index < residencies.len() ==> {
            let told = residency_records(residencies)[index];
            &&& told.tensor == residencies[index].tensor@
            &&& told.placement == residencies[index].placement@
            &&& told.affinity == residencies[index].affinity
            &&& told.allocation == residencies[index].allocation
        },
{
}

} // verus!
