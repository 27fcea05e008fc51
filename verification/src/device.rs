//! Metadata of a discovered CUDA device.
//!
//! Only portable facts are kept: a name, the compute capability as an
//! architecture, the memory capacity and a coarse estimate of pressure. No
//! native handle is among them.

use crate::ratio::{double_ratio, ratio_beyond_fifth, ratio_beyond_half, ratio_beyond_twentieth};
use crate::session::CUDA_PROVIDER_NAME;
use crate::text::{decimal, push_decimal, push_signed, signed_decimal};
use cudarc::driver::DriverError;
use vstd::prelude::*;

verus! {

/// The kind of a device.
#[derive(Clone, Copy, Debug, PartialEq, Eq, Structural)]
pub enum DeviceType {
    Gpu,
}

/// An element type that can be computed on.
#[derive(Clone, Copy, Debug, PartialEq, Eq, Structural)]
pub enum ComputeDType {
    Float32,
}

/// A layout that a tensor can have.
#[derive(Clone, Copy, Debug, PartialEq, Eq, Structural)]
pub enum TensorLayoutKind {
    Contiguous,
}

/// A class of memory that a tensor can live in.
#[derive(Clone, Copy, Debug, PartialEq, Eq, Structural)]
pub enum KernelMemoryClass {
    Device,
}

/// How hard pressed a device is for memory.
#[derive(Clone, Copy, Debug, PartialEq, Eq, Structural)]
pub enum ProviderPressureLevel {
    Unknown,
    Low,
    Moderate,
    High,
    Saturated,
}

/// Limits of what a device can take on, where it has any.
#[derive(Clone, Copy, Debug, PartialEq, Eq, Structural)]
pub struct DeviceExecutionLimits {
    pub max_concurrent_operations: Option<u32>,
    pub max_workspace_bytes: Option<u64>,
}

/// What is known of a device.
#[derive(Debug)]
pub struct DeviceMetadata {
    pub id: String,
    pub name: String,
    pub device_type: DeviceType,
    pub vendor: String,
    pub architecture: String,
    pub memory_capacity: u64,
    pub compute_units: u32,
    pub dtype_support: Vec<ComputeDType>,
    pub layout_support: Vec<TensorLayoutKind>,
    pub memory_class_support: Vec<KernelMemoryClass>,
    pub execution_limits: DeviceExecutionLimits,
    pub pressure: ProviderPressureLevel,
    pub provider: String,
}

/// What a [`DeviceMetadata`] says.
#[verifier::ext_equal]
pub struct DeviceMetadataView {
    pub id: Seq<char>,
    pub name: Seq<char>,
    pub device_type: DeviceType,
    pub vendor: Seq<char>,
    pub architecture: Seq<char>,
    pub memory_capacity: u64,
    pub compute_units: u32,
    pub dtype_support: Seq<ComputeDType>,
    pub layout_support: Seq<TensorLayoutKind>,
    pub memory_class_support: Seq<KernelMemoryClass>,
    pub execution_limits: DeviceExecutionLimits,
    pub pressure: ProviderPressureLevel,
    pub provider: Seq<char>,
}

impl View for DeviceMetadata {
    type V = DeviceMetadataView;

    open spec fn view(&self) -> DeviceMetadataView {
        DeviceMetadataView {
            id: self.id@,
            name: self.name@,
            device_type: self.device_type,
            vendor: self.vendor@,
            architecture: self.architecture@,
            memory_capacity: self.memory_capacity,
            compute_units: self.compute_units,
            dtype_support: self.dtype_support@,
            layout_support: self.layout_support@,
            memory_class_support: self.memory_class_support@,
            execution_limits: self.execution_limits,
            pressure: self.pressure,
            provider: self.provider@,
        }
    }
}

/// A discovered device.
#[derive(Debug)]
pub struct DeviceDescriptor {
    pub metadata: DeviceMetadata,
}

/// What the driver answered when it was asked about a device.
pub struct DeviceAnswers {
    pub ordinal: usize,
    pub name: Result<String, DriverError>,
    pub compute_capability: Result<(i32, i32), DriverError>,
    pub total_memory: Result<usize, DriverError>,
    pub multiprocessor_count: Result<i32, DriverError>,
    /// The free and the total memory, in bytes.
    pub memory_info: Result<(usize, usize), DriverError>,
}

/// The id of the device of an ordinal.
pub open spec fn device_id_text(ordinal: nat) -> Seq<char> {
    "cuda:"@ + decimal(ordinal)
}

/// The pressure that a share of free memory stands for. The share is a
/// double; the bounds are one half, one fifth and one twentieth as doubles.
pub open spec fn pressure_of(free_ratio: nat) -> ProviderPressureLevel {
    if free_ratio > 0x3FE0_0000_0000_0000 {
        ProviderPressureLevel::Low
    } else if free_ratio > 0x3FC9_9999_9999_999A {
        ProviderPressureLevel::Moderate
    } else if free_ratio > 0x3FA9_9999_9999_999A {
        ProviderPressureLevel::High
    } else {
        ProviderPressureLevel::Saturated
    }
}

/// The pressure that an answer about free and total memory stands for.
pub open spec fn answered_pressure(
    memory_info: Result<(usize, usize), DriverError>,
) -> ProviderPressureLevel {
    match memory_info {
        Ok((free, total)) => if total > 0 {
            pressure_of(double_ratio(free as nat, total as nat))
        } else {
            ProviderPressureLevel::Unknown
        },
        Err(_) => ProviderPressureLevel::Unknown,
    }
}

/// What is known of a device, from its answers.
pub open spec fn metadata_of(
    ordinal: usize,
    name: Seq<char>,
    major: i32,
    minor: i32,
    total_memory: usize,
    multiprocessor_count: Result<i32, DriverError>,
    memory_info: Result<(usize, usize), DriverError>,
) -> DeviceMetadataView {
    DeviceMetadataView {
        id: device_id_text(ordinal as nat),
        name,
        device_type: DeviceType::Gpu,
        vendor: "NVIDIA"@,
        architecture: "sm_"@ + signed_decimal(major as int) + signed_decimal(minor as int),
        memory_capacity: total_memory as u64,
        compute_units: match multiprocessor_count {
            Ok(count) => if count > 0 {
                count as u32
            } else {
                0
            },
            Err(_) => 0,
        },
        dtype_support: seq![ComputeDType::Float32],
        layout_support: seq![TensorLayoutKind::Contiguous],
        memory_class_support: seq![KernelMemoryClass::Device],
        execution_limits: DeviceExecutionLimits {
            max_concurrent_operations: None,
            max_workspace_bytes: None,
        },
        pressure: answered_pressure(memory_info),
        provider: CUDA_PROVIDER_NAME@,
    }
}

/// The id of the device of an ordinal.
pub fn cuda_device_id(ordinal: usize) -> (id: String)
    ensures
        id@ == device_id_text(ordinal as nat),
{
    let mut id = "cuda:".to_owned();
    push_decimal(&mut id, ordinal as u64);
    id
}

/// The pressure that a device with so much free memory is under.
pub fn pressure_from_free_ratio(free: usize, total: usize) -> (pressure: ProviderPressureLevel)
    requires
        total > 0,
    ensures
        pressure == pressure_of(double_ratio(free as nat, total as nat)),
{
    if ratio_beyond_half(free as u64, total as u64) {
        ProviderPressureLevel::Low
    } else if ratio_beyond_fifth(free as u64, total as u64) {
        ProviderPressureLevel::Moderate
    } else if ratio_beyond_twentieth(free as u64, total as u64) {
        ProviderPressureLevel::High
    } else {
        ProviderPressureLevel::Saturated
    }
}

/// The descriptor of a device, from its answers. The name, the compute
/// capability and the total memory have to be known, in that order; what else
/// is not known is left open.
pub fn cuda_device_descriptor(answers: DeviceAnswers) -> (descriptor: Result<
    DeviceDescriptor,
    DriverError,
>)
    ensures
        match (answers.name, answers.compute_capability, answers.total_memory) {
            (Err(error), _, _) => descriptor == Err::<DeviceDescriptor, DriverError>(error),
            (Ok(_), Err(error), _) => descriptor == Err::<DeviceDescriptor, DriverError>(error),
            (Ok(_), Ok(_), Err(error)) => descriptor == Err::<DeviceDescriptor, DriverError>(error),
            (Ok(name), Ok((major, minor)), Ok(total_memory)) => descriptor is Ok
                && descriptor->Ok_0.metadata@ == metadata_of(
                answers.ordinal,
                name@,
                major,
                minor,
                total_memory,
                answers.multiprocessor_count,
                answers.memory_info,
            ),
        },
{
    let name = match answers.name {
        Ok(name) => name,
        Err(error) => {
            return Err(error);
        },
    };
    let (major, minor) = match answers.compute_capability {
        Ok(capability) => capability,
        Err(error) => {
            return Err(error);
        },
    };
    let total_memory = match answers.total_memory {
        Ok(bytes) => bytes,
        Err(error) => {
            return Err(error);
        },
    };
    let compute_units: u32 = match answers.multiprocessor_count {
        Ok(count) => if count > 0 {
            count as u32
        } else {
            0
        },
        Err(_) => 0,
    };
    let pressure = match answers.memory_info {
        Ok((free, total)) => if total > 0 {
            pressure_from_free_ratio(free, total)
        } else {
            ProviderPressureLevel::Unknown
        },
        Err(_) => ProviderPressureLevel::Unknown,
    };
    let mut architecture = "sm_".to_owned();
    push_signed(&mut architecture, major as i64);
    push_signed(&mut architecture, minor as i64);
    let metadata = DeviceMetadata {
        id: cuda_device_id(answers.ordinal),
        name,
        device_type: DeviceType::Gpu,
        vendor: "NVIDIA".to_owned(),
        architecture,
        memory_capacity: total_memory as u64,
        compute_units,
        dtype_support: vec![ComputeDType::Float32],
        layout_support: vec![TensorLayoutKind::Contiguous],
        memory_class_support: vec![KernelMemoryClass::Device],
        execution_limits: DeviceExecutionLimits {
            max_concurrent_operations: None,
            max_workspace_bytes: None,
        },
        pressure,
        provider: CUDA_PROVIDER_NAME.to_owned(),
    };
    assert(metadata@.dtype_support =~= seq![ComputeDType::Float32]);
    assert(metadata@.layout_support =~= seq![TensorLayoutKind::Contiguous]);
    assert(metadata@.memory_class_support =~= seq![KernelMemoryClass::Device]);
    Ok(DeviceDescriptor { metadata })
}

/// The order of the pressure levels, from none known to the highest.
pub open spec fn pressure_rank(pressure: ProviderPressureLevel) -> nat {
    match pressure {
        ProviderPressureLevel::Unknown => 0,
        ProviderPressureLevel::Low => 1,
        ProviderPressureLevel::Moderate => 2,
        ProviderPressureLevel::High => 3,
        ProviderPressureLevel::Saturated => 4,
    }
}

/// A device with more free memory is not under more pressure.
pub proof fn law_free_memory_lowers_pressure(lesser: nat, greater: nat, total: nat)
    requires
        lesser <= greater,
        0 < total <= u64::MAX,
    ensures
        pressure_rank(pressure_of(double_ratio(greater, total))) <= pressure_rank(
            pressure_of(double_ratio(lesser, total)),
        ),
{
    crate::ratio::lemma_ratio_is_monotone(lesser, greater, total);
}

/// Devices of different ordinals have different ids.
pub proof fn law_device_ids_are_distinct(ordinal: nat, other: nat)
    ensures
        device_id_text(ordinal) == device_id_text(other) <==> ordinal == other,
{
    if device_id_text(ordinal) == device_id_text(other) {
        let prefix = "cuda:"@.len() as int;
        let id = device_id_text(ordinal);
        assert(decimal(ordinal) =~= id.subrange(prefix, id.len() as int));
        assert(decimal(other) =~= id.subrange(prefix, id.len() as int));
        crate::text::lemma_decimal_injective(ordinal, other);
    }
}

/// A device is under low pressure while more than half of its memory is free,
/// under moderate pressure down to a fifth, under high pressure down to a
/// twentieth, and saturated from there on.
pub proof fn law_pressure_tells_the_free_share(free: nat, total: nat)
    requires
        free < 0x10_0000_0000_0000,
        0 < total < 0x10_0000_0000_0000,
    ensures
        pressure_of(double_ratio(free, total)) == if 2 * free > total {
            ProviderPressureLevel::Low
        } else if 5 * free > total {
            ProviderPressureLevel::Moderate
        } else if 20 * free > total {
            ProviderPressureLevel::High
        } else {
            ProviderPressureLevel::Saturated
        },
{
    crate::ratio::law_ratios_compare_as_fractions(free, total);
}

/// The pressure is known exactly if the driver says how much memory is free and
/// that there is some.
pub proof fn law_pressure_is_known_from_an_answer(
    memory_info: Result<(usize, usize), DriverError>,
)
    ensures
        answered_pressure(memory_info) == ProviderPressureLevel::Unknown <==> !(memory_info matches Ok(
            (_, total),
        ) && total > 0),
        memory_info matches Ok((free, total)) && total > 0 ==> answered_pressure(memory_info)
            == pressure_of(double_ratio(memory_info->Ok_0.0 as nat, memory_info->Ok_0.1 as nat)),
{
}

/// A device is described by the driver's answers: its ordinal, its name, its
/// capability, its memory, and its processors, none where that is not known or
/// not a count. It computes on contiguous single-precision tensors in its own
/// memory.
pub proof fn law_metadata_is_what_was_answered(
    ordinal: usize,
    name: Seq<char>,
    major: i32,
    minor: i32,
    total_memory: usize,
    multiprocessor_count: Result<i32, DriverError>,
    memory_info: Result<(usize, usize), DriverError>,
)
    ensures
        ({
            let metadata = metadata_of(
                ordinal,
                name,
                major,
                minor,
                total_memory,
                multiprocessor_count,
                memory_info,
            );
            &&& metadata.id.take(5) == "cuda:"@
            &&& crate::text::decimal_value(metadata.id.skip(5)) == ordinal
            &&& metadata.name == name
            &&& metadata.vendor == "NVIDIA"@
            &&& metadata.architecture == "sm_"@ + signed_decimal(major as int) + signed_decimal(
                minor as int,
            )
            &&& metadata.memory_capacity == total_memory
            &&& multiprocessor_count matches Ok(count) ==> metadata.compute_units == if count > 0 {
                count as int
            } else {
                0
            }
            &&& multiprocessor_count is Err ==> metadata.compute_units == 0
            &&& metadata.pressure == answered_pressure(memory_info)
            &&& metadata.provider == "magnetar:provider/cuda"@
            &&& metadata.dtype_support == seq![ComputeDType::Float32]
            &&& metadata.layout_support == seq![TensorLayoutKind::Contiguous]
            &&& metadata.memory_class_support == seq![KernelMemoryClass::Device]
            &&& metadata.execution_limits.max_concurrent_operations is None
            &&& metadata.execution_limits.max_workspace_bytes is None
        }),
{
    reveal_strlit("cuda:");
    crate::text::law_decimal_stands_for_its_number(ordinal as nat);
    let id = device_id_text(ordinal as nat);
    assert(id.take(5) =~= "cuda:"@);
    assert(id.skip(5) =~= decimal(ordinal as nat));
}

} // verus!
