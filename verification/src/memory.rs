//! What is said to the memory manager: the device memory that is asked for,
//! and where a tensor is kept.
//!
//! The memory manager itself is outside: it grants a request by naming an
//! allocation, or denies it.

use crate::session::CUDA_PROVIDER_NAME;
use vstd::prelude::*;

verus! {

/// What an allocation is for.
#[derive(Clone, Copy, Debug, PartialEq, Eq, Structural)]
pub enum MemoryAllocationClass {
    Tensor,
    ModelArtifact,
    TokenizerArtifact,
    AdapterArtifact,
    QuantizationArtifact,
    KvCache,
    PrefixCache,
    TemporaryWorkspace,
    TransferStaging,
    HostPinned,
    BrowserLinearMemory,
    RuntimeInternal,
}

/// Who an allocation belongs to. A Provider and a device are known by their
/// names.
#[derive(Clone, Debug, PartialEq, Eq)]
pub enum MemoryAllocationOwner {
    Runtime,
    Provider(String),
    Device(String),
    ComponentRuntime,
    InferenceArtifact(String),
    Session(String),
}

/// What a [`MemoryAllocationOwner`] says.
pub enum MemoryAllocationOwnerView {
    Runtime,
    Provider(Seq<char>),
    Device(Seq<char>),
    ComponentRuntime,
    InferenceArtifact(Seq<char>),
    Session(Seq<char>),
}

impl View for MemoryAllocationOwner {
    type V = MemoryAllocationOwnerView;

    open spec fn view(&self) -> MemoryAllocationOwnerView {
        match self {
            MemoryAllocationOwner::Runtime => MemoryAllocationOwnerView::Runtime,
            MemoryAllocationOwner::Provider(name) => MemoryAllocationOwnerView::Provider(name@),
            MemoryAllocationOwner::Device(id) => MemoryAllocationOwnerView::Device(id@),
            MemoryAllocationOwner::ComponentRuntime => MemoryAllocationOwnerView::ComponentRuntime,
            MemoryAllocationOwner::InferenceArtifact(name) =>
                MemoryAllocationOwnerView::InferenceArtifact(name@),
            MemoryAllocationOwner::Session(name) => MemoryAllocationOwnerView::Session(name@),
        }
    }
}

/// Where an allocation is placed. This Provider places on its device only.
#[derive(Clone, Debug, PartialEq, Eq)]
pub enum MemoryPlacement {
    HostOrdinary,
    HostPinned,
    Device(String),
    UnifiedShared,
    ProviderOwnedOpaque(String),
    ExternalBorrowed,
    BrowserLinearMemory,
}

/// What a [`MemoryPlacement`] says.
pub enum MemoryPlacementView {
    HostOrdinary,
    HostPinned,
    Device(Seq<char>),
    UnifiedShared,
    ProviderOwnedOpaque(Seq<char>),
    ExternalBorrowed,
    BrowserLinearMemory,
}

impl View for MemoryPlacement {
    type V = MemoryPlacementView;

    open spec fn view(&self) -> MemoryPlacementView {
        match self {
            MemoryPlacement::HostOrdinary => MemoryPlacementView::HostOrdinary,
            MemoryPlacement::HostPinned => MemoryPlacementView::HostPinned,
            MemoryPlacement::Device(id) => MemoryPlacementView::Device(id@),
            MemoryPlacement::UnifiedShared => MemoryPlacementView::UnifiedShared,
            MemoryPlacement::ProviderOwnedOpaque(name) => MemoryPlacementView::ProviderOwnedOpaque(
                name@,
            ),
            MemoryPlacement::ExternalBorrowed => MemoryPlacementView::ExternalBorrowed,
            MemoryPlacement::BrowserLinearMemory => MemoryPlacementView::BrowserLinearMemory,
        }
    }
}

/// A request for memory.
#[derive(Clone, Debug, PartialEq, Eq)]
pub struct MemoryAllocationRequest {
    pub class: MemoryAllocationClass,
    pub size_bytes: u64,
    pub placement: MemoryPlacement,
    pub owner: MemoryAllocationOwner,
}

/// What a [`MemoryAllocationRequest`] asks for.
pub struct MemoryAllocationRequestView {
    pub class: MemoryAllocationClass,
    pub size_bytes: u64,
    pub placement: MemoryPlacementView,
    pub owner: MemoryAllocationOwnerView,
}

impl View for MemoryAllocationRequest {
    type V = MemoryAllocationRequestView;

    open spec fn view(&self) -> MemoryAllocationRequestView {
        MemoryAllocationRequestView {
            class: self.class,
            size_bytes: self.size_bytes,
            placement: self.placement@,
            owner: self.owner@,
        }
    }
}

/// What is asked for a tensor of `elements` single-precision elements that is
/// written to a device.
pub open spec fn tensor_memory(
    device: Seq<char>,
    elements: nat,
    class: MemoryAllocationClass,
    owner: MemoryAllocationOwnerView,
) -> MemoryAllocationRequestView {
    MemoryAllocationRequestView {
        class,
        size_bytes: (elements * 4) as u64,
        placement: MemoryPlacementView::Device(device),
        owner,
    }
}

/// What is asked for an output that an invocation leaves on a device: a
/// tensor's memory, in the ownership of this Provider.
pub open spec fn output_memory(device: Seq<char>, size_bytes: u64) -> MemoryAllocationRequestView {
    MemoryAllocationRequestView {
        class: MemoryAllocationClass::Tensor,
        size_bytes,
        placement: MemoryPlacementView::Device(device),
        owner: MemoryAllocationOwnerView::Provider(CUDA_PROVIDER_NAME@),
    }
}

pub(crate) fn request_output_memory(device: &String, size_bytes: u64) -> (request:
    MemoryAllocationRequest)
    ensures
        request@ == output_memory(device@, size_bytes),
{
    MemoryAllocationRequest {
        class: MemoryAllocationClass::Tensor,
        size_bytes,
        placement: MemoryPlacement::Device(device.clone()),
        owner: MemoryAllocationOwner::Provider(CUDA_PROVIDER_NAME.to_owned()),
    }
}

/// The record of where a tensor is kept. `A` is the affinity of a resource.
#[derive(Clone, Debug, PartialEq, Eq)]
pub struct TensorResidency<A> {
    pub tensor: String,
    pub placement: MemoryPlacement,
    pub affinity: A,
    pub allocation: u64,
}

/// What a [`TensorResidency`] records.
pub struct TensorResidencyView<A> {
    pub tensor: Seq<char>,
    pub placement: MemoryPlacementView,
    pub affinity: A,
    pub allocation: u64,
}

impl<A> View for TensorResidency<A> {
    type V = TensorResidencyView<A>;

    open spec fn view(&self) -> TensorResidencyView<A> {
        TensorResidencyView {
            tensor: self.tensor@,
            placement: self.placement@,
            affinity: self.affinity,
            allocation: self.allocation,
        }
    }
}

/// What a list of residency records says.
pub open spec fn residency_records<A>(list: Seq<TensorResidency<A>>) -> Seq<
    TensorResidencyView<A>,
> {
    list.map_values(|residency: TensorResidency<A>| residency@)
}

/// What has been granted and not given back, each allocation with the request
/// that it was granted for.
pub type LiveAllocations = Map<u64, MemoryAllocationRequestView>;

/// What is live once an allocation has been granted for a request and the
/// `release` list has been given back.
pub open spec fn live_after(
    live: LiveAllocations,
    allocation: u64,
    request: MemoryAllocationRequestView,
    release: Seq<u64>,
) -> LiveAllocations {
    live.insert(allocation, request).remove_keys(release.to_set())
}

/// A fresh grant that takes the place of an older one, where there is one, is
/// live as it was asked for, the older one is not live any more, and nothing
/// else changes. Only where there was none before is one more live.
pub proof fn law_replacement_keeps_the_count(
    live: LiveAllocations,
    allocation: u64,
    request: MemoryAllocationRequestView,
    previous: Option<u64>,
)
    requires
        live.dom().finite(),
        !live.contains_key(allocation),
        previous matches Some(older) ==> live.contains_key(older),
    ensures
        ({
            let release = match previous {
                Some(older) => seq![older],
                None => Seq::empty(),
            };
            let after = live_after(live, allocation, request, release);
            &&& after.contains_key(allocation)
            &&& after[allocation] == request
            &&& previous matches Some(older) ==> !after.contains_key(older)
            &&& forall|other: u64|
                #![trigger after.contains_key(other)]
                other != allocation && Some(other) != previous ==> {
                    &&& after.contains_key(other) == live.contains_key(other)
                    &&& live.contains_key(other) ==> after[other] == live[other]
                }
            &&& after.dom().finite()
            &&& after.dom().len() == live.dom().len() + if previous is Some {
                0int
            } else {
                1int
            }
        }),
{
    let granted = live.insert(allocation, request);
    assert(granted.dom() =~= live.dom().insert(allocation));
    match previous {
        Some(older) => {
            let release = seq![older];
            let after = live_after(live, allocation, request, release);
            assert(release[0] == older);
            assert(release.to_set() =~= set![older]) by {
                assert forall|value: u64| release.to_set().contains(value) implies value == older by {
                    assert(release.contains(value));
                }
                assert(release.contains(older));
            }
            assert(after.dom() =~= granted.dom().remove(older));
        },
        None => {
            let release = Seq::<u64>::empty();
            let after = live_after(live, allocation, request, release);
            assert forall|value: u64| !release.to_set().contains(value) by {
                assert(!release.contains(value));
            }
            assert(after.dom() =~= granted.dom());
        },
    }
}

/// A tensor that is written is asked for with four bytes for each element, on
/// the device, as the caller has it. An output is asked for with the bytes that
/// it has, as a tensor on the device that this Provider owns.
pub proof fn law_requests_ask_for_device_memory(
    device: Seq<char>,
    elements: nat,
    class: MemoryAllocationClass,
    owner: MemoryAllocationOwnerView,
    size_bytes: u64,
)
    requires
        elements * 4 <= u64::MAX,
    ensures
        tensor_memory(device, elements, class, owner).size_bytes
            == elements + elements + elements + elements,
        tensor_memory(device, elements, class, owner).class == class,
        tensor_memory(device, elements, class, owner).owner == owner,
        tensor_memory(device, elements, class, owner).placement == MemoryPlacementView::Device(
            device,
        ),
        output_memory(device, size_bytes).size_bytes == size_bytes,
        output_memory(device, size_bytes).class == MemoryAllocationClass::Tensor,
        output_memory(device, size_bytes).placement == MemoryPlacementView::Device(device),
        output_memory(device, size_bytes).owner == MemoryAllocationOwnerView::Provider(
            "magnetar:provider/cuda"@,
        ),
{
}

} // verus!
