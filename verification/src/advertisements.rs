//! What the Provider advertises: the kernels of the set, for the device that
//! was found. Nothing is advertised that cannot be dispatched.

use crate::catalog::{kernel_name, kernel_named, law_names_tell_kernels_apart, KernelKind};
use crate::device::{ComputeDType, KernelMemoryClass, TensorLayoutKind};
use crate::session::CUDA_PROVIDER_NAME;
use vstd::prelude::*;

verus! {

/// The conformance profile that the kernels are held to.
pub const CUDA_CONFORMANCE_PROFILE: &'static str = "cuda-conformance-v1";

/// The namespace of the operators that the kernels implement.
pub const OPERATOR_NAMESPACE: &'static str = "magnetar:operator";

/// How a kernel is implemented.
pub const CUDA_KERNEL_FAMILY: KernelImplementationFamily = KernelImplementationFamily::Cuda;

/// How a kernel is implemented.
#[derive(Clone, Copy, Debug, PartialEq, Eq, Structural)]
pub enum KernelImplementationFamily {
    Cuda,
}

/// The family of an operator.
#[derive(Clone, Copy, Debug, PartialEq, Eq, Structural)]
pub enum OperatorFamily {
    Tensor,
    LinearAlgebra,
    Normalization,
    PositionEncoding,
    Attention,
    Activation,
}

/// How a kernel can be cancelled.
#[derive(Clone, Copy, Debug, PartialEq, Eq, Structural)]
pub enum KernelCancellationSupport {
    TimeoutOnly,
}

/// The version of a kernel.
#[derive(Clone, Copy, Debug, PartialEq, Eq, Structural)]
pub struct KernelVersion {
    pub major: u64,
    pub minor: u64,
    pub patch: u64,
}

/// An operator.
#[derive(Debug)]
pub struct OperatorId {
    pub namespace: String,
    pub name: String,
    pub version: u32,
    pub family: OperatorFamily,
}

/// The identity of a kernel. It implements the versions of its operator from
/// `operator_min` to `operator_max`.
#[derive(Debug)]
pub struct KernelId {
    pub provider: String,
    pub name: String,
    pub version: KernelVersion,
    pub operator: OperatorId,
    pub operator_min: u32,
    pub operator_max: u32,
    pub family: KernelImplementationFamily,
    pub conformance_profile: Option<String>,
}

/// A kernel that is on offer, and what it takes.
#[derive(Debug)]
pub struct KernelAdvertisement {
    pub id: KernelId,
    pub input_dtypes: Vec<ComputeDType>,
    pub output_dtypes: Vec<ComputeDType>,
    pub layouts: Vec<TensorLayoutKind>,
    pub memory_classes: Vec<KernelMemoryClass>,
    pub devices: Vec<String>,
    pub cancellation: KernelCancellationSupport,
    /// The rank that its tensors have to have, where they have to have one.
    pub rank: Option<u64>,
}

/// What an [`KernelAdvertisement`] says.
#[verifier::ext_equal]
pub struct KernelAdvertisementView {
    pub provider: Seq<char>,
    pub name: Seq<char>,
    pub version: KernelVersion,
    pub operator_namespace: Seq<char>,
    pub operator_name: Seq<char>,
    pub operator_version: u32,
    pub operator_family: OperatorFamily,
    pub operator_min: u32,
    pub operator_max: u32,
    pub family: KernelImplementationFamily,
    pub conformance_profile: Option<Seq<char>>,
    pub input_dtypes: Seq<ComputeDType>,
    pub output_dtypes: Seq<ComputeDType>,
    pub layouts: Seq<TensorLayoutKind>,
    pub memory_classes: Seq<KernelMemoryClass>,
    pub devices: Seq<Seq<char>>,
    pub cancellation: KernelCancellationSupport,
    pub rank: Option<u64>,
}

impl View for KernelAdvertisement {
    type V = KernelAdvertisementView;

    open spec fn view(&self) -> KernelAdvertisementView {
        KernelAdvertisementView {
            provider: self.id.provider@,
            name: self.id.name@,
            version: self.id.version,
            operator_namespace: self.id.operator.namespace@,
            operator_name: self.id.operator.name@,
            operator_version: self.id.operator.version,
            operator_family: self.id.operator.family,
            operator_min: self.id.operator_min,
            operator_max: self.id.operator_max,
            family: self.id.family,
            conformance_profile: crate::session::optional_text(self.id.conformance_profile),
            input_dtypes: self.input_dtypes@,
            output_dtypes: self.output_dtypes@,
            layouts: self.layouts@,
            memory_classes: self.memory_classes@,
            devices: crate::invocation::texts(self.devices@),
            cancellation: self.cancellation,
            rank: self.rank,
        }
    }
}

/// The operator family of a kernel.
pub open spec fn kernel_family(kind: KernelKind) -> OperatorFamily {
    match kind {
        KernelKind::Matmul => OperatorFamily::LinearAlgebra,
        KernelKind::Embedding => OperatorFamily::Tensor,
        KernelKind::RmsNorm => OperatorFamily::Normalization,
        KernelKind::Rope => OperatorFamily::PositionEncoding,
        KernelKind::Attention => OperatorFamily::Attention,
        KernelKind::Softmax => OperatorFamily::Activation,
        KernelKind::Silu => OperatorFamily::Activation,
        KernelKind::Add => OperatorFamily::Tensor,
        KernelKind::Mul => OperatorFamily::Tensor,
        KernelKind::ResidualAdd => OperatorFamily::Tensor,
    }
}

/// The rank that a kernel's tensors have to have.
pub open spec fn kernel_rank(kind: KernelKind) -> Option<u64> {
    match kind {
        KernelKind::Matmul | KernelKind::Rope | KernelKind::Attention | KernelKind::Softmax => Some(
            2,
        ),
        _ => None,
    }
}

/// What is advertised of a kernel on a device.
pub open spec fn advertisement_of(kind: KernelKind, device_id: Seq<char>) -> KernelAdvertisementView {
    KernelAdvertisementView {
        provider: CUDA_PROVIDER_NAME@,
        name: kernel_name(kind),
        version: KernelVersion { major: 1, minor: 0, patch: 0 },
        operator_namespace: OPERATOR_NAMESPACE@,
        operator_name: kernel_name(kind),
        operator_version: 1,
        operator_family: kernel_family(kind),
        operator_min: 1,
        operator_max: 1,
        family: KernelImplementationFamily::Cuda,
        conformance_profile: Some(CUDA_CONFORMANCE_PROFILE@),
        input_dtypes: seq![ComputeDType::Float32],
        output_dtypes: seq![ComputeDType::Float32],
        layouts: seq![TensorLayoutKind::Contiguous],
        memory_classes: seq![KernelMemoryClass::Device],
        devices: seq![device_id],
        cancellation: KernelCancellationSupport::TimeoutOnly,
        rank: kernel_rank(kind),
    }
}

/// The kernels of the set, in the order in which they are advertised.
pub open spec fn advertised_kinds() -> Seq<KernelKind> {
    seq![
        KernelKind::Matmul,
        KernelKind::Embedding,
        KernelKind::RmsNorm,
        KernelKind::Rope,
        KernelKind::Attention,
        KernelKind::Softmax,
        KernelKind::Silu,
        KernelKind::Add,
        KernelKind::Mul,
        KernelKind::ResidualAdd,
    ]
}

/// What a list of advertisements says.
pub open spec fn advertisements_view(list: Seq<KernelAdvertisement>) -> Seq<
    KernelAdvertisementView,
> {
    list.map_values(|advertisement: KernelAdvertisement| advertisement@)
}

/// All that is advertised for a device.
pub open spec fn advertisements_for(device_id: Seq<char>) -> Seq<KernelAdvertisementView> {
    advertised_kinds().map_values(|kind: KernelKind| advertisement_of(kind, device_id))
}

fn operator_family(kind: KernelKind) -> (family: OperatorFamily)
    ensures
        family == kernel_family(kind),
{
    match kind {
        KernelKind::Matmul => OperatorFamily::LinearAlgebra,
        KernelKind::Embedding => OperatorFamily::Tensor,
        KernelKind::RmsNorm => OperatorFamily::Normalization,
        KernelKind::Rope => OperatorFamily::PositionEncoding,
        KernelKind::Attention => OperatorFamily::Attention,
        KernelKind::Softmax => OperatorFamily::Activation,
        KernelKind::Silu => OperatorFamily::Activation,
        KernelKind::Add => OperatorFamily::Tensor,
        KernelKind::Mul => OperatorFamily::Tensor,
        KernelKind::ResidualAdd => OperatorFamily::Tensor,
    }
}

fn required_rank(kind: KernelKind) -> (rank: Option<u64>)
    ensures
        rank == kernel_rank(kind),
{
    match kind {
        KernelKind::Matmul | KernelKind::Rope | KernelKind::Attention | KernelKind::Softmax => Some(
            2,
        ),
        _ => None,
    }
}

/// Advertises a kernel on a device.
pub fn baseline_advertisement(kind: KernelKind, device_id: &String) -> (advertisement:
    KernelAdvertisement)
    ensures
        advertisement@ == advertisement_of(kind, device_id@),
{
    let advertisement = KernelAdvertisement {
        id: KernelId {
            provider: CUDA_PROVIDER_NAME.to_owned(),
            name: kind.name().to_owned(),
            version: KernelVersion { major: 1, minor: 0, patch: 0 },
            operator: OperatorId {
                namespace: OPERATOR_NAMESPACE.to_owned(),
                name: kind.name().to_owned(),
                version: 1,
                family: operator_family(kind),
            },
            operator_min: 1,
            operator_max: 1,
            family: CUDA_KERNEL_FAMILY,
            conformance_profile: Some(CUDA_CONFORMANCE_PROFILE.to_owned()),
        },
        input_dtypes: vec![ComputeDType::Float32],
        output_dtypes: vec![ComputeDType::Float32],
        layouts: vec![TensorLayoutKind::Contiguous],
        memory_classes: vec![KernelMemoryClass::Device],
        devices: vec![device_id.clone()],
        cancellation: KernelCancellationSupport::TimeoutOnly,
        rank: required_rank(kind),
    };
    assert(advertisement@ =~= advertisement_of(kind, device_id@));
    advertisement
}

/// Advertises the kernels of the set on a device.
pub fn cuda_kernel_advertisements(device_id: &String) -> (advertisements: Vec<KernelAdvertisement>)
    ensures
        advertisements_view(advertisements@) == advertisements_for(device_id@),
{
    let advertisements = vec![
        baseline_advertisement(KernelKind::Matmul, device_id),
        baseline_advertisement(KernelKind::Embedding, device_id),
        baseline_advertisement(KernelKind::RmsNorm, device_id),
        baseline_advertisement(KernelKind::Rope, device_id),
        baseline_advertisement(KernelKind::Attention, device_id),
        baseline_advertisement(KernelKind::Softmax, device_id),
        baseline_advertisement(KernelKind::Silu, device_id),
        baseline_advertisement(KernelKind::Add, device_id),
        baseline_advertisement(KernelKind::Mul, device_id),
        baseline_advertisement(KernelKind::ResidualAdd, device_id),
    ];
    assert(advertisements_view(advertisements@) =~= advertisements_for(device_id@));
    advertisements
}

/// Every kernel is advertised exactly once, and what is advertised is
/// dispatched under its name.
pub proof fn law_advertisements_are_dispatchable(device_id: Seq<char>, kind: KernelKind)
    ensures
        advertisements_for(device_id).len() == 10,
        exists|i: int|
            0 <= i < advertisements_for(device_id).len() && #[trigger] advertisements_for(
                device_id,
            )[i].name == kernel_name(kind),
        forall|i: int|
            0 <= i < advertisements_for(device_id).len() ==> kernel_named(
                (#[trigger] advertisements_for(device_id)[i]).name,
            ) == Some(advertised_kinds()[i]),
        forall|i: int, j: int|
            0 <= i < j < advertisements_for(device_id).len() ==> (#[trigger] advertisements_for(
                device_id,
            )[i]).name != (#[trigger] advertisements_for(device_id)[j]).name,
{
    let list = advertisements_for(device_id);
    let kinds = advertised_kinds();
    assert forall|i: int| 0 <= i < list.len() implies kernel_named((#[trigger] list[i]).name)
        == Some(kinds[i]) by {
        law_names_tell_kernels_apart(kinds[i], kinds[i]);
    }
    assert forall|i: int, j: int| 0 <= i < j < list.len() implies (#[trigger] list[i]).name != (
    #[trigger] list[j]).name by {
        law_names_tell_kernels_apart(kinds[i], kinds[j]);
        assert(kinds[i] != kinds[j]);
    }
    let at: int = match kind {
        KernelKind::Matmul => 0,
        KernelKind::Embedding => 1,
        KernelKind::RmsNorm => 2,
        KernelKind::Rope => 3,
        KernelKind::Attention => 4,
        KernelKind::Softmax => 5,
        KernelKind::Silu => 6,
        KernelKind::Add => 7,
        KernelKind::Mul => 8,
        KernelKind::ResidualAdd => 9,
    };
    assert(kinds[at] == kind);
    assert(list[at].name == kernel_name(kind));
}

/// What is advertised of a kernel is of this Provider, for the one device, under
/// the name that it is dispatched by and that its operator has; it takes and
/// gives contiguous single-precision tensors in device memory. Exactly the
/// kernels that take matrices ask for two dimensions.
pub proof fn law_advertisements_say_what_is_taken(kind: KernelKind, device_id: Seq<char>)
    ensures
        ({
            let offer = advertisement_of(kind, device_id);
            &&& kernel_named(offer.name) == Some(kind)
            &&& offer.operator_name == offer.name
            &&& offer.provider == "magnetar:provider/cuda"@
            &&& offer.conformance_profile == Some("cuda-conformance-v1"@)
            &&& offer.devices == seq![device_id]
            &&& offer.operator_min <= offer.operator_version <= offer.operator_max
            &&& offer.operator_min == 1
            &&& offer.operator_max == 1
            &&& offer.version == (KernelVersion { major: 1, minor: 0, patch: 0 })
            &&& offer.input_dtypes == seq![ComputeDType::Float32]
            &&& offer.output_dtypes == offer.input_dtypes
            &&& offer.layouts == seq![TensorLayoutKind::Contiguous]
            &&& offer.memory_classes == seq![KernelMemoryClass::Device]
            &&& offer.rank == if kind == KernelKind::Matmul || kind == KernelKind::Rope || kind
                == KernelKind::Attention || kind == KernelKind::Softmax {
                Some(2u64)
            } else {
                None
            }
        }),
{
    law_names_tell_kernels_apart(kind, kind);
}

} // verus!
