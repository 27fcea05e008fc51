//! Laws of what an invocation comes to: which kernel its name stands for, which
//! tensors it works on, and what its attributes say.

use crate::catalog::{law_names_tell_kernels_apart, KernelKind};
use crate::dispatch::{
    attention_attributes, invocation_plan, resident_input, rope_attributes, Attributes, Storage,
};
use crate::half_precision::{f64_rounds_to_f32, law_every_double_has_its_single};
use crate::invocation::{texts, KernelInvocation, OperatorAttributeValue};
use crate::kernel_error::KernelErrorView;
use crate::launch::{
    attention_launch, embedding_launch, matmul_launch, pairwise_launch, rmsnorm_launch,
    rope_launch, softmax_launch, DeviceBufferView, KernelArguments, KernelFunction,
    KernelLaunchView,
};
use crate::text::{decimal, signed_decimal};
use vstd::prelude::*;

verus! {

/// The resident tensor that an input of an invocation stands for, where there
/// is one.
pub open spec fn operand<S, A>(
    storage: Storage<S>,
    invocation: KernelInvocation<A>,
    index: int,
) -> Option<DeviceBufferView<S>> {
    if index < invocation.inputs@.len() && storage.contains_key(invocation.inputs@[index]@) {
        Some(storage[invocation.inputs@[index]@])
    } else {
        None
    }
}

/// An input is found exactly if the invocation names so many and the tensor of
/// that name is resident.
pub proof fn law_named_inputs_are_found<S, A>(
    storage: Storage<S>,
    invocation: KernelInvocation<A>,
    index: nat,
)
    ensures
        match operand(storage, invocation, index as int) {
            Some(buffer) => resident_input(storage, invocation, index) == Ok::<
                DeviceBufferView<S>,
                KernelErrorView,
            >(buffer),
            None => resident_input(storage, invocation, index) matches Err(
                KernelErrorView::KernelExecutionFailed { reason },
            ) && reason == if index < invocation.inputs@.len() {
                "no materialized data for input resource "@ + invocation.inputs@[index as int]@
            } else {
                "missing input at index "@ + decimal(index)
            },
        },
{
}

/// Whether a `float` is what an attribute asks for: the single that is nearest
/// to the double that is given, and the default only where none is given.
pub open spec fn float_as_asked(
    attributes: Attributes,
    key: Seq<char>,
    default: u32,
    value: u32,
) -> bool {
    if attributes.contains_key(key) && attributes[key] is Float {
        f64_rounds_to_f32(attributes[key]->Float_0, value)
    } else {
        value == default
    }
}

/// Whether a count is what an attribute asks for: the integer that is given,
/// and none where none is given or it is negative.
pub open spec fn count_as_asked(
    attributes: Attributes,
    key: Seq<char>,
    value: Option<u64>,
) -> bool {
    if attributes.contains_key(key) && attributes[key] is Integer
        && attributes[key]->Integer_0 >= 0 {
        value matches Some(count) && count == attributes[key]->Integer_0
    } else {
        value is None
    }
}

/// Whether a truth value is what an attribute asks for: the one that is given,
/// and false where none is given.
pub open spec fn switch_as_asked(attributes: Attributes, key: Seq<char>, value: bool) -> bool {
    value <==> attributes.contains_key(key) && attributes[key] == OperatorAttributeValue::Boolean(
        true,
    )
}

/// Whether a text attribute is given, and is not one of those allowed.
pub open spec fn text_besides(
    attributes: Attributes,
    key: Seq<char>,
    allowed: Set<Seq<char>>,
) -> bool {
    attributes.contains_key(key) && attributes[key] is String && !allowed.contains(
        attributes[key]->String_0@,
    )
}

proof fn lemma_float_as_asked(attributes: Attributes, key: Seq<char>, default: u32)
    ensures
        float_as_asked(
            attributes,
            key,
            default,
            crate::dispatch::float_attribute(attributes, key, default),
        ),
{
    if attributes.contains_key(key) {
        if let OperatorAttributeValue::Float(value) = attributes[key] {
            law_every_double_has_its_single(value);
        }
    }
}

/// The attributes of a rotary encoding are accepted exactly if they give a
/// dimension that is not negative, no order of positions but the sequential
/// one, and no first position that is not an integer or negative. Each
/// parameter is then the attribute of its name; where it is not given, the base
/// is ten thousand, the scale is one, the first position is zero, and a row is
/// one block.
pub proof fn law_rope_parameters_are_the_attributes(attributes: Attributes)
    ensures
        rope_attributes(attributes) is Ok <==> {
            &&& attributes.contains_key("dimension"@)
            &&& attributes["dimension"@] is Integer
            &&& attributes["dimension"@]->Integer_0 >= 0
            &&& !text_besides(attributes, "position_mode"@, set!["sequential"@])
            &&& attributes.contains_key("position_offset"@) ==> attributes["position_offset"@]
                is Integer && attributes["position_offset"@]->Integer_0 >= 0
        },
        match rope_attributes(attributes) {
            Ok(parameters) => {
                &&& float_as_asked(attributes, "base"@, 0x461C_4000, parameters.base)
                &&& float_as_asked(attributes, "scale"@, 0x3F80_0000, parameters.scale)
                &&& parameters.dimension == attributes["dimension"@]->Integer_0
                &&& parameters.position_offset == if attributes.contains_key("position_offset"@) {
                    attributes["position_offset"@]->Integer_0 as int
                } else {
                    0
                }
                &&& count_as_asked(attributes, "head_count"@, Some(parameters.head_count)) || (
                count_as_asked(attributes, "head_count"@, None) && parameters.head_count == 1)
            },
            Err(error) => error is KernelAttributeUnsupported,
        },
{
    lemma_float_as_asked(attributes, "base"@, crate::dispatch::DEFAULT_ROPE_BASE);
    lemma_float_as_asked(attributes, "scale"@, crate::dispatch::DEFAULT_ROPE_SCALE);
}

/// The attributes of an attention are accepted exactly if they give a count of
/// heads and a width of them that are not negative, and a kind of mask, if any,
/// that says the same as whether the attention is causal. Each parameter is
/// then the attribute of its name; an attention that is not said to be causal
/// is bidirectional.
pub proof fn law_attention_parameters_are_the_attributes(attributes: Attributes)
    ensures
        ({
            let causal = attributes.contains_key("causal"@) && attributes["causal"@]
                == OperatorAttributeValue::Boolean(true);
            &&& attention_attributes(attributes) is Ok <==> {
                &&& !count_as_asked(attributes, "head_count"@, None)
                &&& !count_as_asked(attributes, "head_dimension"@, None)
                &&& !text_besides(
                    attributes,
                    "attention_mask_kind"@,
                    if causal {
                        set!["causal"@]
                    } else {
                        set!["bidirectional"@]
                    },
                )
            }
            &&& match attention_attributes(attributes) {
                Ok(parameters) => {
                    &&& count_as_asked(attributes, "head_count"@, Some(parameters.head_count))
                    &&& count_as_asked(
                        attributes,
                        "head_dimension"@,
                        Some(parameters.head_dimension),
                    )
                    &&& count_as_asked(attributes, "kv_head_count"@, parameters.kv_head_count)
                    &&& count_as_asked(attributes, "window_size"@, parameters.window_size)
                    &&& parameters.causal <==> causal
                },
                Err(error) => error is KernelAttributeUnsupported,
            }
        }),
{
    reveal_strlit("causal");
    reveal_strlit("bidirectional");
    assert("causal"@.len() != "bidirectional"@.len());
}

proof fn lemma_name(kind: KernelKind)
    ensures
        crate::catalog::kernel_named(crate::catalog::kernel_name(kind)) == Some(kind),
{
    law_names_tell_kernels_apart(kind, kind);
}

/// A rotary encoding that is planned is that of the first input, with the
/// parameters that the attributes of those names ask for. It is planned exactly
/// if the input is there and the attributes and the kernel accept it.
pub proof fn law_rope_invocation_rotates_its_input<S, A>(
    storage: Storage<S>,
    invocation: KernelInvocation<A>,
)
    requires
        invocation.kernel_name@ == "rope"@,
    ensures
        ({
            let attributes = invocation.attributes@;
            let input = operand(storage, invocation, 0);
            &&& invocation_plan(storage, invocation) is Ok <==> {
                &&& input matches Some(input)
                &&& rope_attributes(attributes) matches Ok(asked)
                &&& rope_launch(
                    input.shape,
                    input.elements,
                    asked.base,
                    asked.scale,
                    asked.dimension,
                    asked.position_offset,
                    asked.head_count,
                ) is Ok
            }
            &&& input is None ==> (invocation_plan(storage, invocation) matches Err(
                KernelErrorView::KernelExecutionFailed { .. },
            ))
            &&& input is Some && rope_attributes(attributes) is Err ==> invocation_plan(
                storage,
                invocation,
            ) == Err::<KernelLaunchView, KernelErrorView>(rope_attributes(attributes)->Err_0)
            &&& input is Some && rope_attributes(attributes) is Ok ==> (invocation_plan(
                storage,
                invocation,
            ) is Ok || (invocation_plan(storage, invocation) matches Err(
                KernelErrorView::KernelShapeUnsupported { .. },
            )))
            &&& invocation_plan(storage, invocation) matches Ok(launch) ==> {
                &&& launch.function == KernelFunction::Rope
                &&& launch.arguments matches KernelArguments::Rope {
                    rows,
                    cols,
                    base,
                    scale,
                    dimension,
                    position_offset,
                    head_count,
                    ..
                }
                &&& launch.shape == input->Some_0.shape
                &&& launch.elements == input->Some_0.elements
                &&& rows == input->Some_0.shape[0]
                &&& cols == input->Some_0.shape[1]
                &&& float_as_asked(attributes, "base"@, 0x461C_4000, base)
                &&& float_as_asked(attributes, "scale"@, 0x3F80_0000, scale)
                &&& count_as_asked(attributes, "dimension"@, Some(dimension))
                &&& count_as_asked(attributes, "position_offset"@, Some(position_offset)) || (
                !attributes.contains_key("position_offset"@) && position_offset == 0)
                &&& count_as_asked(attributes, "head_count"@, Some(head_count)) || (
                count_as_asked(attributes, "head_count"@, None) && head_count == 1)
            }
        }),
{
    lemma_name(KernelKind::Rope);
    law_rope_parameters_are_the_attributes(invocation.attributes@);
}

/// An attention that is planned is that of the first input over the second and
/// the third, with the parameters that the attributes of those names ask for.
/// It is planned exactly if the inputs are there and the attributes and the
/// kernel accept them.
pub proof fn law_attention_invocation_attends<S, A>(
    storage: Storage<S>,
    invocation: KernelInvocation<A>,
)
    requires
        invocation.kernel_name@ == "attention"@,
    ensures
        ({
            let attributes = invocation.attributes@;
            let q = operand(storage, invocation, 0);
            let k = operand(storage, invocation, 1);
            let v = operand(storage, invocation, 2);
            let there = q is Some && k is Some && v is Some;
            &&& invocation_plan(storage, invocation) is Ok <==> {
                &&& q matches Some(q)
                &&& k matches Some(k)
                &&& v matches Some(v)
                &&& attention_attributes(attributes) matches Ok(asked)
                &&& attention_launch(
                    q.shape,
                    q.elements,
                    k.shape,
                    v.shape,
                    asked.head_count,
                    asked.head_dimension,
                    asked.kv_head_count,
                    asked.window_size,
                    asked.causal,
                ) is Ok
            }
            &&& !there ==> (invocation_plan(storage, invocation) matches Err(
                KernelErrorView::KernelExecutionFailed { .. },
            ))
            &&& there && attention_attributes(attributes) is Err ==> invocation_plan(
                storage,
                invocation,
            ) == Err::<KernelLaunchView, KernelErrorView>(attention_attributes(attributes)->Err_0)
            &&& there && attention_attributes(attributes) is Ok ==> (invocation_plan(
                storage,
                invocation,
            ) is Ok || (invocation_plan(storage, invocation) matches Err(
                KernelErrorView::KernelShapeUnsupported { .. },
            )))
            &&& invocation_plan(storage, invocation) matches Ok(launch) ==> {
                &&& launch.function == KernelFunction::Attention
                &&& launch.arguments matches KernelArguments::Attention {
                    seq_len,
                    kv_seq_len,
                    head_count,
                    kv_head_count,
                    head_dimension,
                    causal,
                    window,
                    ..
                }
                &&& launch.shape == q->Some_0.shape
                &&& launch.elements == q->Some_0.elements
                &&& seq_len == q->Some_0.shape[0]
                &&& kv_seq_len == k->Some_0.shape[0]
                &&& count_as_asked(attributes, "head_count"@, Some(head_count))
                &&& count_as_asked(attributes, "head_dimension"@, Some(head_dimension))
                &&& count_as_asked(attributes, "kv_head_count"@, Some(kv_head_count)) || (
                count_as_asked(attributes, "kv_head_count"@, None) && kv_head_count == head_count)
                &&& switch_as_asked(attributes, "causal"@, causal != 0)
                &&& window >= 0 ==> count_as_asked(attributes, "window_size"@, Some(window as u64))
                &&& count_as_asked(attributes, "window_size"@, None) ==> window < 0
            }
        }),
{
    lemma_name(KernelKind::Attention);
    law_attention_parameters_are_the_attributes(invocation.attributes@);
}

/// A product that is planned is that of the first two inputs, each transposed
/// exactly if the attribute of that name says so.
pub proof fn law_matmul_invocation_multiplies<S, A>(
    storage: Storage<S>,
    invocation: KernelInvocation<A>,
    transpose_a: bool,
    transpose_b: bool,
)
    requires
        invocation.kernel_name@ == "matmul"@,
        switch_as_asked(invocation.attributes@, "transpose_a"@, transpose_a),
        switch_as_asked(invocation.attributes@, "transpose_b"@, transpose_b),
    ensures
        match (operand(storage, invocation, 0), operand(storage, invocation, 1)) {
            (Some(a), Some(b)) => match matmul_launch(a.shape, b.shape, transpose_a, transpose_b) {
                Ok(launch) => invocation_plan(storage, invocation) == Ok::<KernelLaunchView, KernelErrorView>(
                    launch,
                ),
                Err(error) => invocation_plan(storage, invocation) matches Err(
                    KernelErrorView::KernelShapeUnsupported { reason },
                ) && reason == error.detail,
            },
            _ => invocation_plan(storage, invocation) matches Err(
                KernelErrorView::KernelExecutionFailed { .. },
            ),
        },
{
    lemma_name(KernelKind::Matmul);
}

/// A normalization that is planned is that of the first input by the second,
/// with the epsilon that the attribute asks for, one millionth by default.
pub proof fn law_rmsnorm_invocation_normalizes<S, A>(
    storage: Storage<S>,
    invocation: KernelInvocation<A>,
)
    requires
        invocation.kernel_name@ == "rmsnorm"@,
    ensures
        match (operand(storage, invocation, 0), operand(storage, invocation, 1)) {
            (Some(input), Some(weight)) => exists|epsilon: u32|
                {
                    &&& float_as_asked(invocation.attributes@, "epsilon"@, 0x3586_37BD, epsilon)
                    &&& match #[trigger] rmsnorm_launch(
                        input.shape,
                        input.elements,
                        weight.shape,
                        epsilon,
                    ) {
                        Ok(launch) => invocation_plan(storage, invocation) == Ok::<
                            KernelLaunchView,
                            KernelErrorView,
                        >(launch),
                        Err(error) => invocation_plan(storage, invocation) matches Err(
                            KernelErrorView::KernelShapeUnsupported { reason },
                        ) && reason == error.detail,
                    }
                },
            _ => invocation_plan(storage, invocation) matches Err(
                KernelErrorView::KernelExecutionFailed { .. },
            ),
        },
{
    lemma_name(KernelKind::RmsNorm);
    lemma_float_as_asked(invocation.attributes@, "epsilon"@, crate::dispatch::DEFAULT_EPSILON);
    if let (Some(input), Some(weight)) = (
        operand(storage, invocation, 0),
        operand(storage, invocation, 1),
    ) {
        let epsilon = crate::dispatch::float_attribute(
            invocation.attributes@,
            "epsilon"@,
            crate::dispatch::DEFAULT_EPSILON,
        );
        let _ = rmsnorm_launch(input.shape, input.elements, weight.shape, epsilon);
    }
}

/// A lookup that is planned is that of the ids of the second input in the table
/// of the first.
pub proof fn law_embedding_invocation_looks_up<S, A>(
    storage: Storage<S>,
    invocation: KernelInvocation<A>,
)
    requires
        invocation.kernel_name@ == "embedding"@,
    ensures
        match (operand(storage, invocation, 0), operand(storage, invocation, 1)) {
            (Some(table), Some(ids)) => match embedding_launch(table.shape, ids.elements) {
                Ok(launch) => invocation_plan(storage, invocation) == Ok::<KernelLaunchView, KernelErrorView>(
                    launch,
                ),
                Err(error) => invocation_plan(storage, invocation) matches Err(
                    KernelErrorView::KernelShapeUnsupported { reason },
                ) && reason == error.detail,
            },
            _ => invocation_plan(storage, invocation) matches Err(
                KernelErrorView::KernelExecutionFailed { .. },
            ),
        },
{
    lemma_name(KernelKind::Embedding);
}

/// A softmax that is planned is that of the first input, and so is a SiLU,
/// which every tensor that is there is accepted for.
pub proof fn law_unary_invocations_work_on_their_input<S, A>(
    storage: Storage<S>,
    invocation: KernelInvocation<A>,
)
    ensures
        invocation.kernel_name@ == "softmax"@ ==> match operand(storage, invocation, 0) {
            Some(input) => match softmax_launch(input.shape, input.elements) {
                Ok(launch) => invocation_plan(storage, invocation) == Ok::<KernelLaunchView, KernelErrorView>(
                    launch,
                ),
                Err(error) => invocation_plan(storage, invocation) matches Err(
                    KernelErrorView::KernelShapeUnsupported { reason },
                ) && reason == error.detail,
            },
            None => invocation_plan(storage, invocation) matches Err(
                KernelErrorView::KernelExecutionFailed { .. },
            ),
        },
        invocation.kernel_name@ == "silu"@ ==> match operand(storage, invocation, 0) {
            Some(input) => invocation_plan(storage, invocation) matches Ok(launch)
                && launch.function == KernelFunction::Silu && launch.shape == input.shape
                && launch.elements == input.elements,
            None => invocation_plan(storage, invocation) matches Err(
                KernelErrorView::KernelExecutionFailed { .. },
            ),
        },
{
    lemma_name(KernelKind::Softmax);
    lemma_name(KernelKind::Silu);
}

/// A sum, a product and a residual sum element by element are those of the
/// first two inputs; a residual sum is a sum.
pub proof fn law_pairwise_invocations_combine_their_inputs<S, A>(
    storage: Storage<S>,
    invocation: KernelInvocation<A>,
    function: KernelFunction,
)
    requires
        ({
            let name = invocation.kernel_name@;
            ||| (name == "add"@ || name == "residual-add"@) && function == KernelFunction::Add
            ||| name == "mul"@ && function == KernelFunction::Mul
        }),
    ensures
        match (operand(storage, invocation, 0), operand(storage, invocation, 1)) {
            (Some(a), Some(b)) => match pairwise_launch(function, a.shape, a.elements, b.shape) {
                Ok(launch) => invocation_plan(storage, invocation) == Ok::<KernelLaunchView, KernelErrorView>(
                    launch,
                ),
                Err(error) => invocation_plan(storage, invocation) matches Err(
                    KernelErrorView::KernelShapeUnsupported { reason },
                ) && reason == error.detail,
            },
            _ => invocation_plan(storage, invocation) matches Err(
                KernelErrorView::KernelExecutionFailed { .. },
            ),
        },
{
    lemma_name(KernelKind::Add);
    lemma_name(KernelKind::Mul);
    lemma_name(KernelKind::ResidualAdd);
}

/// The names of the kernel set.
pub open spec fn is_kernel_name(name: Seq<char>) -> bool {
    ||| name == "matmul"@
    ||| name == "embedding"@
    ||| name == "rmsnorm"@
    ||| name == "rope"@
    ||| name == "attention"@
    ||| name == "softmax"@
    ||| name == "silu"@
    ||| name == "add"@
    ||| name == "mul"@
    ||| name == "residual-add"@
}

/// A kernel is not found exactly if its name is not one of the set, and the
/// name is then what is reported.
pub proof fn law_only_unknown_names_are_not_found<S, A>(
    storage: Storage<S>,
    invocation: KernelInvocation<A>,
)
    ensures
        invocation_plan(storage, invocation) matches Err(KernelErrorView::KernelNotFound { .. })
            <==> !is_kernel_name(invocation.kernel_name@),
        !is_kernel_name(invocation.kernel_name@) ==> invocation_plan(storage, invocation) == Err::<
            KernelLaunchView,
            KernelErrorView,
        >(KernelErrorView::KernelNotFound { kernel: invocation.kernel_name@ }),
{
}

/// What an invocation comes to rests on its kernel, its inputs and its
/// attributes, and on nothing else of it.
pub proof fn law_plans_rest_on_kernel_inputs_and_attributes<S, A>(
    storage: Storage<S>,
    a: KernelInvocation<A>,
    b: KernelInvocation<A>,
)
    requires
        a.kernel_name@ == b.kernel_name@,
        texts(a.inputs@) == texts(b.inputs@),
        a.attributes@ == b.attributes@,
    ensures
        invocation_plan(storage, a) == invocation_plan(storage, b),
{
    lemma_same_input(storage, a, b, 0);
    lemma_same_input(storage, a, b, 1);
    lemma_same_input(storage, a, b, 2);
}

proof fn lemma_same_input<S, A>(
    storage: Storage<S>,
    a: KernelInvocation<A>,
    b: KernelInvocation<A>,
    index: nat,
)
    requires
        texts(a.inputs@) == texts(b.inputs@),
    ensures
        resident_input(storage, a, index) == resident_input(storage, b, index),
{
    assert(texts(a.inputs@).len() == a.inputs@.len());
    assert(texts(b.inputs@).len() == b.inputs@.len());
    if index < a.inputs@.len() {
        assert(texts(a.inputs@)[index as int] == a.inputs@[index as int]@);
        assert(texts(b.inputs@)[index as int] == b.inputs@[index as int]@);
    }
}

/// What an invocation comes to can be addressed exactly if it comes to no launch
/// or to one whose output the host can count, and a launch has its inputs exactly
/// if so many are named and all of them are resident.
pub proof fn law_plans_fit_and_have_their_inputs<S, A>(
    storage: Storage<S>,
    invocation: KernelInvocation<A>,
    function: KernelFunction,
)
    ensures
        crate::dispatch::invocation_fits(storage, invocation) <==> !(invocation_plan(
            storage,
            invocation,
        ) matches Ok(launch) && launch.elements > usize::MAX),
        crate::dispatch::inputs_resident(storage, invocation, function) <==> {
            let taken = if function == KernelFunction::Silu || function == KernelFunction::Rope
                || function == KernelFunction::SoftmaxRows {
                1int
            } else if function == KernelFunction::Attention {
                3int
            } else {
                2int
            };
            forall|i: int| 0 <= i < taken ==> #[trigger] operand(storage, invocation, i) is Some
        },
{
    if crate::dispatch::inputs_resident(storage, invocation, function) {
        assert forall|i: int|
            0 <= i < crate::launch::function_inputs(function) implies #[trigger] operand(
            storage,
            invocation,
            i,
        ) is Some by {
            assert(storage.contains_key(invocation.inputs@[i]@));
        }
    } else {
        assert(operand(storage, invocation, 0) is Some || operand(storage, invocation, 0) is None);
        assert(operand(storage, invocation, 1) is Some || operand(storage, invocation, 1) is None);
        assert(operand(storage, invocation, 2) is Some || operand(storage, invocation, 2) is None);
    }
}

/// The tensors that are resident are those of the table, each as it is.
pub proof fn law_storage_is_told_as_it_is<S>(
    table: crate::table::NameTable<crate::launch::CudaDeviceBuffer<S>>,
    id: Seq<char>,
)
    ensures
        crate::dispatch::stored(table).contains_key(id) <==> table@.contains_key(id),
        table@.contains_key(id) ==> {
            let told = crate::dispatch::stored(table)[id];
            &&& told.slice == table@[id].slice
            &&& told.elements == table@[id].elements
            &&& told.shape == table@[id].shape@
        },
{
}

/// What the attributes of a rotary encoding are refused with tells the first that
/// does not hold, in this order: the dimension, the order of positions, and the
/// first position.
pub proof fn law_refused_rope_attributes_tell_which(attributes: Attributes)
    ensures
        ({
            let read = rope_attributes(attributes);
            let told = read->Err_0->attribute;
            let dimension = !count_as_asked(attributes, "dimension"@, None);
            let mode = !text_besides(attributes, "position_mode"@, set!["sequential"@]);
            let given = attributes.contains_key("position_offset"@);
            let offset = attributes["position_offset"@];
            &&& !dimension ==> read is Err && told == "dimension"@
            &&& dimension && !mode ==> read is Err && told == "position_mode '"@
                + attributes["position_mode"@]->String_0@ + "' is not implemented"@
            &&& dimension && mode && given && offset !is Integer ==> read is Err && told
                == "position_offset must be an integer"@
            &&& dimension && mode && given && offset is Integer && offset->Integer_0 < 0 ==> read
                is Err && told == "position_offset "@ + signed_decimal(offset->Integer_0 as int)
                + " must not be negative"@
        }),
{
}

/// What the attributes of an attention are refused with tells the first that does
/// not hold, in this order: the count of heads, their width, and the kind of
/// mask, which is not known or does not agree with whether it is causal.
pub proof fn law_refused_attention_attributes_tell_which(attributes: Attributes)
    ensures
        ({
            let read = attention_attributes(attributes);
            let told = read->Err_0->attribute;
            let heads = !count_as_asked(attributes, "head_count"@, None);
            let width = !count_as_asked(attributes, "head_dimension"@, None);
            let masks = attributes.contains_key("attention_mask_kind"@)
                && attributes["attention_mask_kind"@] is String;
            let kind = attributes["attention_mask_kind"@]->String_0@;
            let causal = attributes.contains_key("causal"@) && attributes["causal"@]
                == OperatorAttributeValue::Boolean(true);
            &&& !heads ==> read is Err && told == "head_count"@
            &&& heads && !width ==> read is Err && told == "head_dimension"@
            &&& heads && width && masks && kind != "causal"@ && kind != "bidirectional"@ ==> read
                is Err && told == "attention_mask_kind '"@ + kind + "' is not implemented"@
            &&& heads && width && masks && kind == "causal"@ && !causal ==> read is Err && told
                == "attention_mask_kind '"@ + kind + "' is inconsistent with causal="@ + "false"@
            &&& heads && width && masks && kind == "bidirectional"@ && causal ==> read is Err
                && told == "attention_mask_kind '"@ + kind + "' is inconsistent with causal="@
                + "true"@
        }),
{
    reveal_strlit("causal");
    reveal_strlit("bidirectional");
    assert("causal"@.len() != "bidirectional"@.len());
}

} // verus!
