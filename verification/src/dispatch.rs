//! From an invocation to the launch that serves it.
//!
//! An invocation names a kernel, the tensors it reads, and attributes. The
//! kernel's inputs are looked up among the tensors that are resident on the
//! device, its attributes are read, and the kernel's own rules decide. The
//! first thing that does not hold is the error.

use crate::catalog::{kernel_named, KernelKind};
use crate::error::{CudaError, CudaErrorView};
use crate::half_precision::{f64_to_f32, nearest_single};
use crate::invocation::{KernelInvocation, OperatorAttributeValue};
use crate::kernel_error::{
    kernel_error_view_of, law_kernel_error_keeps_the_diagnosis, KernelError, KernelErrorView,
};
use crate::kernels::{CudaDeviceBuffer, CudaKernels};
use crate::launch::{
    attention_launch, elementwise_launch, embedding_launch, function_inputs, matmul_launch,
    pairwise_launch, planned, rmsnorm_launch, rope_launch, softmax_launch, DeviceBufferView,
    KernelFunction, KernelLaunch, KernelLaunchView,
};
use crate::table::NameTable;
use crate::text::{decimal, push_decimal, push_signed, signed_decimal, text_is};
use vstd::prelude::*;

verus! {

/// The attributes of an invocation.
pub type Attributes = Map<Seq<char>, OperatorAttributeValue>;

/// The `float` bits of one millionth.
pub const DEFAULT_EPSILON: u32 = 0x3586_37BD;

/// The `float` bits of ten thousand.
pub const DEFAULT_ROPE_BASE: u32 = 0x461C_4000;

/// The `float` bits of one.
pub const DEFAULT_ROPE_SCALE: u32 = 0x3F80_0000;

/// A `float` attribute, rounded from the `double` that is given. Anything
/// else counts as not given.
pub open spec fn float_attribute(attributes: Attributes, key: Seq<char>, default: u32) -> u32 {
    if attributes.contains_key(key) {
        match attributes[key] {
            OperatorAttributeValue::Float(value) => nearest_single(value),
            _ => default,
        }
    } else {
        default
    }
}

/// An integer attribute that is not negative. Anything else counts as not
/// given.
pub open spec fn integer_attribute(attributes: Attributes, key: Seq<char>) -> Option<u64> {
    if attributes.contains_key(key) {
        match attributes[key] {
            OperatorAttributeValue::Integer(value) => if value >= 0 {
                Some(value as u64)
            } else {
                None
            },
            _ => None,
        }
    } else {
        None
    }
}

/// A boolean attribute. Anything else counts as not given.
pub open spec fn bool_attribute(attributes: Attributes, key: Seq<char>, default: bool) -> bool {
    if attributes.contains_key(key) {
        match attributes[key] {
            OperatorAttributeValue::Boolean(value) => value,
            _ => default,
        }
    } else {
        default
    }
}

/// A text attribute. Anything else counts as not given.
pub open spec fn text_attribute(attributes: Attributes, key: Seq<char>) -> Option<Seq<char>> {
    if attributes.contains_key(key) {
        match attributes[key] {
            OperatorAttributeValue::String(value) => Some(value@),
            _ => None,
        }
    } else {
        None
    }
}

/// The rejection of an attribute.
pub open spec fn attribute_error(attribute: Seq<char>) -> KernelErrorView {
    KernelErrorView::KernelAttributeUnsupported { attribute }
}

/// The position of the first row of a rotary encoding. Unlike the other
/// integers, one that is negative or not an integer is rejected.
pub open spec fn position_offset_attribute(attributes: Attributes) -> Result<
    u64,
    KernelErrorView,
> {
    if attributes.contains_key("position_offset"@) {
        match attributes["position_offset"@] {
            OperatorAttributeValue::Integer(offset) => if offset >= 0 {
                Ok(offset as u64)
            } else {
                Err(
                    attribute_error(
                        "position_offset "@ + signed_decimal(offset as int)
                            + " must not be negative"@,
                    ),
                )
            },
            _ => Err(attribute_error("position_offset must be an integer"@)),
        }
    } else {
        Ok(0)
    }
}

/// The parameters of a rotary encoding.
pub struct RopeParameters {
    pub base: u32,
    pub scale: u32,
    pub dimension: u64,
    pub position_offset: u64,
    pub head_count: u64,
}

/// The parameters of a rotary encoding, from the attributes. Only positions
/// that follow each other are served; one block per row is the default.
pub open spec fn rope_attributes(attributes: Attributes) -> Result<
    RopeParameters,
    KernelErrorView,
> {
    let mode = text_attribute(attributes, "position_mode"@);
    match integer_attribute(attributes, "dimension"@) {
        None => Err(attribute_error("dimension"@)),
        Some(dimension) => if mode is Some && mode->Some_0 != "sequential"@ {
            Err(attribute_error("position_mode '"@ + mode->Some_0 + "' is not implemented"@))
        } else {
            match position_offset_attribute(attributes) {
                Err(error) => Err(error),
                Ok(position_offset) => Ok(
                    RopeParameters {
                        base: float_attribute(attributes, "base"@, DEFAULT_ROPE_BASE),
                        scale: float_attribute(attributes, "scale"@, DEFAULT_ROPE_SCALE),
                        dimension,
                        position_offset,
                        head_count: match integer_attribute(attributes, "head_count"@) {
                            Some(count) => count,
                            None => 1,
                        },
                    },
                ),
            }
        },
    }
}

/// The parameters of an attention.
pub struct AttentionParameters {
    pub head_count: u64,
    pub head_dimension: u64,
    pub kv_head_count: Option<u64>,
    pub window_size: Option<u64>,
    pub causal: bool,
}

/// What is wrong with a mask kind, given whether the attention is causal.
pub open spec fn mask_fault(mask: Option<Seq<char>>, causal: bool) -> Option<KernelErrorView> {
    match mask {
        None => None,
        Some(kind) => if kind != "causal"@ && kind != "bidirectional"@ {
            Some(
                attribute_error(
                    "attention_mask_kind '"@ + kind + "' is not implemented"@,
                ),
            )
        } else if (kind == "causal"@) != causal {
            Some(
                attribute_error(
                    "attention_mask_kind '"@ + kind + "' is inconsistent with causal="@
                        + bool_text(causal),
                ),
            )
        } else {
            None
        },
    }
}

/// The text of a truth value.
pub open spec fn bool_text(value: bool) -> Seq<char> {
    if value {
        "true"@
    } else {
        "false"@
    }
}

/// The parameters of an attention, from the attributes.
pub open spec fn attention_attributes(attributes: Attributes) -> Result<
    AttentionParameters,
    KernelErrorView,
> {
    let causal = bool_attribute(attributes, "causal"@, false);
    match integer_attribute(attributes, "head_count"@) {
        None => Err(attribute_error("head_count"@)),
        Some(head_count) => match integer_attribute(attributes, "head_dimension"@) {
            None => Err(attribute_error("head_dimension"@)),
            Some(head_dimension) => match mask_fault(
                text_attribute(attributes, "attention_mask_kind"@),
                causal,
            ) {
                Some(error) => Err(error),
                None => Ok(
                    AttentionParameters {
                        head_count,
                        head_dimension,
                        kv_head_count: integer_attribute(attributes, "kv_head_count"@),
                        window_size: integer_attribute(attributes, "window_size"@),
                        causal,
                    },
                ),
            },
        },
    }
}

/// The tensors that are resident on the device, by resource id.
pub type Storage<S> = Map<Seq<char>, DeviceBufferView<S>>;

/// A failed execution.
pub open spec fn execution_error(reason: Seq<char>) -> KernelErrorView {
    KernelErrorView::KernelExecutionFailed { reason }
}

/// The resident tensor that an input of an invocation names.
pub open spec fn resident_input<S, A>(
    storage: Storage<S>,
    invocation: KernelInvocation<A>,
    index: nat,
) -> Result<DeviceBufferView<S>, KernelErrorView> {
    if index >= invocation.inputs@.len() {
        Err(execution_error("missing input at index "@ + decimal(index)))
    } else {
        let id = invocation.inputs@[index as int]@;
        if storage.contains_key(id) {
            Ok(storage[id])
        } else {
            Err(execution_error("no materialized data for input resource "@ + id))
        }
    }
}

/// The first two inputs of an invocation.
pub open spec fn two_inputs<S, A>(storage: Storage<S>, invocation: KernelInvocation<A>) -> Result<
    (DeviceBufferView<S>, DeviceBufferView<S>),
    KernelErrorView,
> {
    match resident_input(storage, invocation, 0) {
        Err(error) => Err(error),
        Ok(first) => match resident_input(storage, invocation, 1) {
            Err(error) => Err(error),
            Ok(second) => Ok((first, second)),
        },
    }
}

/// A kernel's plan, its rejection as an invocation reports it.
pub open spec fn reported(plan: Result<KernelLaunchView, CudaErrorView>) -> Result<
    KernelLaunchView,
    KernelErrorView,
> {
    match plan {
        Ok(launch) => Ok(launch),
        Err(error) => Err(kernel_error_view_of(error)),
    }
}

/// The launch that serves an invocation of a kernel.
pub open spec fn kernel_plan<S, A>(
    kind: KernelKind,
    storage: Storage<S>,
    invocation: KernelInvocation<A>,
) -> Result<KernelLaunchView, KernelErrorView> {
    let attributes = invocation.attributes@;
    match kind {
        KernelKind::Matmul => match two_inputs(storage, invocation) {
            Err(error) => Err(error),
            Ok((a, b)) => reported(
                matmul_launch(
                    a.shape,
                    b.shape,
                    bool_attribute(attributes, "transpose_a"@, false),
                    bool_attribute(attributes, "transpose_b"@, false),
                ),
            ),
        },
        KernelKind::Embedding => match two_inputs(storage, invocation) {
            Err(error) => Err(error),
            Ok((table, ids)) => reported(embedding_launch(table.shape, ids.elements)),
        },
        KernelKind::RmsNorm => match two_inputs(storage, invocation) {
            Err(error) => Err(error),
            Ok((input, weight)) => reported(
                rmsnorm_launch(
                    input.shape,
                    input.elements,
                    weight.shape,
                    float_attribute(attributes, "epsilon"@, DEFAULT_EPSILON),
                ),
            ),
        },
        KernelKind::Rope => match resident_input(storage, invocation, 0) {
            Err(error) => Err(error),
            Ok(input) => match rope_attributes(attributes) {
                Err(error) => Err(error),
                Ok(parameters) => reported(
                    rope_launch(
                        input.shape,
                        input.elements,
                        parameters.base,
                        parameters.scale,
                        parameters.dimension,
                        parameters.position_offset,
                        parameters.head_count,
                    ),
                ),
            },
        },
        KernelKind::Attention => match two_inputs(storage, invocation) {
            Err(error) => Err(error),
            Ok((q, k)) => match resident_input(storage, invocation, 2) {
                Err(error) => Err(error),
                Ok(v) => match attention_attributes(attributes) {
                    Err(error) => Err(error),
                    Ok(parameters) => reported(
                        attention_launch(
                            q.shape,
                            q.elements,
                            k.shape,
                            v.shape,
                            parameters.head_count,
                            parameters.head_dimension,
                            parameters.kv_head_count,
                            parameters.window_size,
                            parameters.causal,
                        ),
                    ),
                },
            },
        },
        KernelKind::Softmax => match resident_input(storage, invocation, 0) {
            Err(error) => Err(error),
            Ok(input) => reported(softmax_launch(input.shape, input.elements)),
        },
        KernelKind::Silu => match resident_input(storage, invocation, 0) {
            Err(error) => Err(error),
            Ok(input) => Ok(elementwise_launch(KernelFunction::Silu, input.shape, input.elements)),
        },
        KernelKind::Add | KernelKind::ResidualAdd => match two_inputs(storage, invocation) {
            Err(error) => Err(error),
            Ok((a, b)) => reported(
                pairwise_launch(KernelFunction::Add, a.shape, a.elements, b.shape),
            ),
        },
        KernelKind::Mul => match two_inputs(storage, invocation) {
            Err(error) => Err(error),
            Ok((a, b)) => reported(
                pairwise_launch(KernelFunction::Mul, a.shape, a.elements, b.shape),
            ),
        },
    }
}

/// The launch that serves an invocation. A kernel that is not of the set is
/// not found.
pub open spec fn invocation_plan<S, A>(storage: Storage<S>, invocation: KernelInvocation<A>) -> Result<
    KernelLaunchView,
    KernelErrorView,
> {
    match kernel_named(invocation.kernel_name@) {
        None => Err(KernelErrorView::KernelNotFound { kernel: invocation.kernel_name@ }),
        Some(kind) => kernel_plan(kind, storage, invocation),
    }
}

/// Whether the output that an invocation would have can be addressed.
pub open spec fn invocation_fits<S, A>(storage: Storage<S>, invocation: KernelInvocation<A>) -> bool {
    invocation_plan(storage, invocation) matches Ok(launch) ==> launch.fits()
}

/// An invocation for which a launch is planned has all the inputs that the
/// launched function takes, and they are resident.
pub proof fn law_planned_inputs_are_resident<S, A>(
    storage: Storage<S>,
    invocation: KernelInvocation<A>,
    index: nat,
)
    requires
        invocation_plan(storage, invocation) is Ok,
        index < function_inputs(invocation_plan(storage, invocation)->Ok_0.function),
    ensures
        index < invocation.inputs@.len(),
        storage.contains_key(invocation.inputs@[index as int]@),
        resident_input(storage, invocation, index) == Ok::<DeviceBufferView<S>, KernelErrorView>(
            storage[invocation.inputs@[index as int]@],
        ),
{
}

/// Whether an invocation names all the inputs that a function takes, and they
/// are resident.
pub open spec fn inputs_resident<S, A>(
    storage: Storage<S>,
    invocation: KernelInvocation<A>,
    function: KernelFunction,
) -> bool {
    &&& function_inputs(function) <= invocation.inputs@.len()
    &&& forall|i: int|
        0 <= i < function_inputs(function) ==> storage.contains_key(
            (#[trigger] invocation.inputs@[i])@,
        )
}

/// What planning an invocation gave.
pub open spec fn dispatched(outcome: Result<KernelLaunch, KernelError>) -> Result<
    KernelLaunchView,
    KernelErrorView,
> {
    match outcome {
        Ok(launch) => Ok(launch@),
        Err(error) => Err(error@),
    }
}

/// The tensors of a storage table, by resource id.
pub open spec fn stored<S>(table: NameTable<CudaDeviceBuffer<S>>) -> Storage<S> {
    table@.map_values(|buffer: CudaDeviceBuffer<S>| buffer@)
}

/// A storage table names nothing twice, and the shape of every tensor in it
/// has as many elements as its allocation.
pub open spec fn storage_wf<S>(table: NameTable<CudaDeviceBuffer<S>>) -> bool {
    &&& table.wf()
    &&& forall|id: Seq<char>| #[trigger] table@.contains_key(id) ==> table@[id].wf()
}

/// A `float` attribute, rounded from the `double` that is given.
pub fn attribute_float(
    attributes: &NameTable<OperatorAttributeValue>,
    key: &str,
    default: u32,
) -> (value: u32)
    requires
        attributes.wf(),
    ensures
        value == float_attribute(attributes@, key@, default),
{
    match attributes.get(&key.to_owned()) {
        Some(OperatorAttributeValue::Float(value)) => f64_to_f32(*value),
        _ => default,
    }
}

/// An integer attribute that is not negative.
pub fn attribute_integer(attributes: &NameTable<OperatorAttributeValue>, key: &str) -> (value:
    Option<u64>)
    requires
        attributes.wf(),
    ensures
        value == integer_attribute(attributes@, key@),
{
    match attributes.get(&key.to_owned()) {
        Some(OperatorAttributeValue::Integer(value)) => if *value >= 0 {
            Some(*value as u64)
        } else {
            None
        },
        _ => None,
    }
}

/// A boolean attribute.
pub fn attribute_bool(
    attributes: &NameTable<OperatorAttributeValue>,
    key: &str,
    default: bool,
) -> (value: bool)
    requires
        attributes.wf(),
    ensures
        value == bool_attribute(attributes@, key@, default),
{
    match attributes.get(&key.to_owned()) {
        Some(OperatorAttributeValue::Boolean(value)) => *value,
        _ => default,
    }
}

fn attribute_text<'a>(
    attributes: &'a NameTable<OperatorAttributeValue>,
    key: &str,
) -> (value: Option<&'a String>)
    requires
        attributes.wf(),
    ensures
        match value {
            Some(text) => text_attribute(attributes@, key@) == Some(text@),
            None => text_attribute(attributes@, key@) is None,
        },
{
    match attributes.get(&key.to_owned()) {
        Some(OperatorAttributeValue::String(value)) => Some(value),
        _ => None,
    }
}

fn unsupported_attribute(attribute: String) -> (error: KernelError)
    ensures
        error@ == attribute_error(attribute@),
{
    KernelError::KernelAttributeUnsupported { attribute }
}

fn read_position_offset(attributes: &NameTable<OperatorAttributeValue>) -> (offset: Result<
    u64,
    KernelError,
>)
    requires
        attributes.wf(),
    ensures
        match offset {
            Ok(offset) => position_offset_attribute(attributes@) == Ok::<u64, KernelErrorView>(
                offset,
            ),
            Err(error) => position_offset_attribute(attributes@) == Err::<u64, KernelErrorView>(
                error@,
            ),
        },
{
    match attributes.get(&"position_offset".to_owned()) {
        None => Ok(0),
        Some(OperatorAttributeValue::Integer(offset)) => if *offset >= 0 {
            Ok(*offset as u64)
        } else {
            let mut attribute = "position_offset ".to_owned();
            push_signed(&mut attribute, *offset);
            attribute.append(" must not be negative");
            Err(unsupported_attribute(attribute))
        },
        Some(_) => Err(unsupported_attribute("position_offset must be an integer".to_owned())),
    }
}

/// Reads the parameters of a rotary encoding.
pub fn read_rope_parameters(attributes: &NameTable<OperatorAttributeValue>) -> (parameters: Result<
    RopeParameters,
    KernelError,
>)
    requires
        attributes.wf(),
    ensures
        match parameters {
            Ok(parameters) => rope_attributes(attributes@) == Ok::<RopeParameters, KernelErrorView>(
                parameters,
            ),
            Err(error) => rope_attributes(attributes@) == Err::<RopeParameters, KernelErrorView>(
                error@,
            ),
        },
{
    let base = attribute_float(attributes, "base", DEFAULT_ROPE_BASE);
    let scale = attribute_float(attributes, "scale", DEFAULT_ROPE_SCALE);
    let dimension = match attribute_integer(attributes, "dimension") {
        Some(dimension) => dimension,
        None => {
            return Err(unsupported_attribute("dimension".to_owned()));
        },
    };
    if let Some(mode) = attribute_text(attributes, "position_mode") {
        if !text_is(mode, "sequential") {
            let mut attribute = "position_mode '".to_owned();
            attribute.append(mode.as_str());
            attribute.append("' is not implemented");
            return Err(unsupported_attribute(attribute));
        }
    }
    let position_offset = match read_position_offset(attributes) {
        Ok(offset) => offset,
        Err(error) => {
            return Err(error);
        },
    };
    let head_count = match attribute_integer(attributes, "head_count") {
        Some(count) => count,
        None => 1,
    };
    Ok(RopeParameters { base, scale, dimension, position_offset, head_count })
}

fn check_mask(mask: Option<&String>, causal: bool) -> (checked: Result<(), KernelError>)
    ensures
        ({
            let kind = match mask {
                Some(kind) => Some(kind@),
                None => None,
            };
            match checked {
                Ok(_) => mask_fault(kind, causal) is None,
                Err(error) => mask_fault(kind, causal) == Some(error@),
            }
        }),
{
    let kind = match mask {
        Some(kind) => kind,
        None => {
            return Ok(());
        },
    };
    let expected_causal = text_is(kind, "causal");
    if !expected_causal && !text_is(kind, "bidirectional") {
        let mut attribute = "attention_mask_kind '".to_owned();
        attribute.append(kind.as_str());
        attribute.append("' is not implemented");
        return Err(unsupported_attribute(attribute));
    }
    if expected_causal != causal {
        let mut attribute = "attention_mask_kind '".to_owned();
        attribute.append(kind.as_str());
        attribute.append("' is inconsistent with causal=");
        attribute.append(
            if causal {
                "true"
            } else {
                "false"
            },
        );
        return Err(unsupported_attribute(attribute));
    }
    Ok(())
}

/// Reads the parameters of an attention.
pub fn read_attention_parameters(attributes: &NameTable<OperatorAttributeValue>) -> (parameters:
    Result<AttentionParameters, KernelError>)
    requires
        attributes.wf(),
    ensures
        match parameters {
            Ok(parameters) => attention_attributes(attributes@) == Ok::<
                AttentionParameters,
                KernelErrorView,
            >(parameters),
            Err(error) => attention_attributes(attributes@) == Err::<
                AttentionParameters,
                KernelErrorView,
            >(error@),
        },
{
    let head_count = match attribute_integer(attributes, "head_count") {
        Some(count) => count,
        None => {
            return Err(unsupported_attribute("head_count".to_owned()));
        },
    };
    let head_dimension = match attribute_integer(attributes, "head_dimension") {
        Some(dimension) => dimension,
        None => {
            return Err(unsupported_attribute("head_dimension".to_owned()));
        },
    };
    let kv_head_count = attribute_integer(attributes, "kv_head_count");
    let window_size = attribute_integer(attributes, "window_size");
    let causal = attribute_bool(attributes, "causal", false);
    match check_mask(attribute_text(attributes, "attention_mask_kind"), causal) {
        Ok(_) => Ok(
            AttentionParameters { head_count, head_dimension, kv_head_count, window_size, causal },
        ),
        Err(error) => Err(error),
    }
}

/// The resident tensor that an input of an invocation names.
pub fn find_input<'a, S, A>(
    storage: &'a NameTable<CudaDeviceBuffer<S>>,
    invocation: &KernelInvocation<A>,
    index: usize,
) -> (input: Result<&'a CudaDeviceBuffer<S>, KernelError>)
    requires
        storage_wf(*storage),
    ensures
        match input {
            Ok(buffer) => buffer.wf() && resident_input(
                stored(*storage),
                *invocation,
                index as nat,
            ) == Ok::<DeviceBufferView<S>, KernelErrorView>(buffer@),
            Err(error) => resident_input(stored(*storage), *invocation, index as nat) == Err::<
                DeviceBufferView<S>,
                KernelErrorView,
            >(error@),
        },
{
    if index >= invocation.inputs.len() {
        let mut reason = "missing input at index ".to_owned();
        push_decimal(&mut reason, index as u64);
        return Err(KernelError::KernelExecutionFailed { reason });
    }
    let id = &invocation.inputs[index];
    match storage.get(id) {
        Some(buffer) => Ok(buffer),
        None => {
            let mut reason = "no materialized data for input resource ".to_owned();
            reason.append(id.as_str());
            Err(KernelError::KernelExecutionFailed { reason })
        },
    }
}

fn find_two_inputs<'a, S, A>(
    storage: &'a NameTable<CudaDeviceBuffer<S>>,
    invocation: &KernelInvocation<A>,
) -> (inputs: Result<(&'a CudaDeviceBuffer<S>, &'a CudaDeviceBuffer<S>), KernelError>)
    requires
        storage_wf(*storage),
    ensures
        match inputs {
            Ok((first, second)) => first.wf() && second.wf() && two_inputs(
                stored(*storage),
                *invocation,
            ) == Ok::<(DeviceBufferView<S>, DeviceBufferView<S>), KernelErrorView>(
                (first@, second@),
            ),
            Err(error) => two_inputs(stored(*storage), *invocation) == Err::<
                (DeviceBufferView<S>, DeviceBufferView<S>),
                KernelErrorView,
            >(error@),
        },
{
    match find_input(storage, invocation, 0) {
        Err(error) => Err(error),
        Ok(first) => match find_input(storage, invocation, 1) {
            Err(error) => Err(error),
            Ok(second) => Ok((first, second)),
        },
    }
}

fn report(plan: Result<KernelLaunch, CudaError>) -> (outcome: Result<KernelLaunch, KernelError>)
    ensures
        dispatched(outcome) == reported(planned(plan)),
{
    match plan {
        Ok(launch) => Ok(launch),
        Err(error) => {
            proof {
                law_kernel_error_keeps_the_diagnosis(error);
            }
            Err(KernelError::from(error))
        },
    }
}

fn plan_kernel<S, A>(
    kernels: &CudaKernels,
    kind: KernelKind,
    storage: &NameTable<CudaDeviceBuffer<S>>,
    invocation: &KernelInvocation<A>,
) -> (outcome: Result<KernelLaunch, KernelError>)
    requires
        storage_wf(*storage),
        invocation.wf(),
        kernel_plan(kind, stored(*storage), *invocation) matches Ok(launch) ==> launch.fits(),
    ensures
        dispatched(outcome) == kernel_plan(kind, stored(*storage), *invocation),
        outcome matches Ok(launch) ==> launch@.wf(),
{
    match kind {
        KernelKind::Matmul => match find_two_inputs(storage, invocation) {
            Err(error) => Err(error),
            Ok((a, b)) => {
                let transpose_a = attribute_bool(&invocation.attributes, "transpose_a", false);
                let transpose_b = attribute_bool(&invocation.attributes, "transpose_b", false);
                report(kernels.matmul(a, b, transpose_a, transpose_b))
            },
        },
        KernelKind::Embedding => match find_two_inputs(storage, invocation) {
            Err(error) => Err(error),
            Ok((table, ids)) => report(kernels.embedding_lookup(table, ids)),
        },
        KernelKind::RmsNorm => match find_two_inputs(storage, invocation) {
            Err(error) => Err(error),
            Ok((input, weight)) => {
                let epsilon = attribute_float(&invocation.attributes, "epsilon", DEFAULT_EPSILON);
                report(kernels.rmsnorm(input, weight, epsilon))
            },
        },
        KernelKind::Rope => match find_input(storage, invocation, 0) {
            Err(error) => Err(error),
            Ok(input) => match read_rope_parameters(&invocation.attributes) {
                Err(error) => Err(error),
                Ok(parameters) => report(
                    kernels.rope(
                        input,
                        parameters.base,
                        parameters.scale,
                        parameters.dimension,
                        parameters.position_offset,
                        parameters.head_count,
                    ),
                ),
            },
        },
        KernelKind::Attention => match find_two_inputs(storage, invocation) {
            Err(error) => Err(error),
            Ok((q, k)) => match find_input(storage, invocation, 2) {
                Err(error) => Err(error),
                Ok(v) => match read_attention_parameters(&invocation.attributes) {
                    Err(error) => Err(error),
                    Ok(parameters) => report(
                        kernels.attention(
                            q,
                            k,
                            v,
                            parameters.head_count,
                            parameters.head_dimension,
                            parameters.kv_head_count,
                            parameters.window_size,
                            parameters.causal,
                        ),
                    ),
                },
            },
        },
        KernelKind::Softmax => match find_input(storage, invocation, 0) {
            Err(error) => Err(error),
            Ok(input) => report(kernels.softmax_rows(input)),
        },
        KernelKind::Silu => match find_input(storage, invocation, 0) {
            Err(error) => Err(error),
            Ok(input) => report(kernels.silu(input)),
        },
        KernelKind::Add => match find_two_inputs(storage, invocation) {
            Err(error) => Err(error),
            Ok((a, b)) => report(kernels.add(a, b)),
        },
        KernelKind::Mul => match find_two_inputs(storage, invocation) {
            Err(error) => Err(error),
            Ok((a, b)) => report(kernels.mul(a, b)),
        },
        KernelKind::ResidualAdd => match find_two_inputs(storage, invocation) {
            Err(error) => Err(error),
            Ok((input, residual)) => report(kernels.residual_add(input, residual)),
        },
    }
}

/// Plans the launch that serves an invocation.
pub fn plan_invocation<S, A>(
    kernels: &CudaKernels,
    storage: &NameTable<CudaDeviceBuffer<S>>,
    invocation: &KernelInvocation<A>,
) -> (outcome: Result<KernelLaunch, KernelError>)
    requires
        storage_wf(*storage),
        invocation.wf(),
        invocation_fits(stored(*storage), *invocation),
    ensures
        dispatched(outcome) == invocation_plan(stored(*storage), *invocation),
        outcome matches Ok(launch) ==> launch@.wf(),
{
    match KernelKind::from_name(&invocation.kernel_name) {
        None => Err(KernelError::KernelNotFound { kernel: invocation.kernel_name.clone() }),
        Some(kind) => plan_kernel(kernels, kind, storage, invocation),
    }
}

/// Whether the output that an invocation would have can be addressed.
pub fn output_fits<S, A>(
    kernels: &CudaKernels,
    storage: &NameTable<CudaDeviceBuffer<S>>,
    invocation: &KernelInvocation<A>,
) -> (fits: bool)
    requires
        storage_wf(*storage),
        invocation.wf(),
    ensures
        fits == invocation_fits(stored(*storage), *invocation),
{
    match KernelKind::from_name(&invocation.kernel_name) {
        Some(KernelKind::Matmul) => match find_two_inputs(storage, invocation) {
            Err(_) => true,
            Ok((a, b)) => kernels.matmul_fits(
                a,
                b,
                attribute_bool(&invocation.attributes, "transpose_a", false),
                attribute_bool(&invocation.attributes, "transpose_b", false),
            ),
        },
        Some(KernelKind::Embedding) => match find_two_inputs(storage, invocation) {
            Err(_) => true,
            Ok((table, ids)) => kernels.embedding_lookup_fits(table, ids),
        },
        Some(kind) => {
            assert(invocation_fits(stored(*storage), *invocation)) by {
                assert forall|id: Seq<char>| #[trigger]
                    stored(*storage).contains_key(id) implies stored(*storage)[id].elements
                    <= usize::MAX by {
                    assert(stored(*storage)[id] == storage@[id]@);
                }
            }
            true
        },
        None => true,
    }
}

} // verus!
