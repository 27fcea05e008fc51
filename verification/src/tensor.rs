//! Host-visible tensors: a shape and one element for each index of it.

use crate::text::{decimal, push_decimal, push_shape, shape_text};
use vstd::prelude::*;

verus! {

/// How many elements a shape has, where every partial product of its
/// dimensions can be counted in 64 bits.
pub open spec fn element_count(shape: Seq<u64>) -> Option<nat>
    decreases shape.len(),
{
    if shape.len() == 0 {
        Some(1)
    } else {
        match element_count(shape.drop_last()) {
            Some(count) => if count * shape.last() <= u64::MAX {
                Some((count * shape.last()) as nat)
            } else {
                None
            },
            None => None,
        }
    }
}

/// What is wrong with holding `length` elements under a shape, in this
/// library's own wording.
pub open spec fn host_tensor_fault(shape: Seq<u64>, length: nat) -> Option<Seq<char>> {
    match element_count(shape) {
        Some(count) => if count == length {
            None
        } else if count <= usize::MAX {
            Some(
                "shape "@ + shape_text(shape) + " expects "@ + decimal(count) + " elements, got "@
                    + decimal(length),
            )
        } else {
            Some(
                "shape "@ + shape_text(shape) + " element count overflows the host address space"@,
            )
        },
        None => Some(
            "shape "@ + shape_text(shape) + " element count overflows the host address space"@,
        ),
    }
}

/// Why a shape and a list of elements do not make a tensor.
#[derive(Debug)]
pub struct HostTensorError {
    pub reason: String,
}

/// A concrete tensor in host memory, its elements in row-major order.
#[derive(Clone, Debug, PartialEq)]
pub struct HostTensor<E> {
    pub shape: Vec<u64>,
    pub data: Vec<E>,
}

impl<E> HostTensor<E> {
    /// The shape has as many elements as the tensor holds.
    pub open spec fn wf(&self) -> bool {
        element_count(self.shape@) == Some(self.data@.len())
    }

    /// A tensor of a shape.
    pub fn new(shape: Vec<u64>, data: Vec<E>) -> (tensor: Result<HostTensor<E>, HostTensorError>)
        ensures
            match tensor {
                Ok(tensor) => tensor.wf() && tensor.shape == shape && tensor.data == data
                    && host_tensor_fault(shape@, data@.len()) is None,
                Err(error) => host_tensor_fault(shape@, data@.len()) == Some(error.reason@),
            },
    {
        match count_elements(&shape) {
            Some(count) => if count == data.len() as u64 {
                return Ok(HostTensor { shape, data });
            } else if count <= usize::MAX as u64 {
                let mut reason = "shape ".to_owned();
                push_shape(&mut reason, &shape);
                reason.append(" expects ");
                push_decimal(&mut reason, count);
                reason.append(" elements, got ");
                push_decimal(&mut reason, data.len() as u64);
                return Err(HostTensorError { reason });
            },
            None => {},
        }
        let mut reason = "shape ".to_owned();
        push_shape(&mut reason, &shape);
        reason.append(" element count overflows the host address space");
        Err(HostTensorError { reason })
    }
}

/// A partial product that cannot be counted stays so.
proof fn lemma_uncountable_stays(shape: Seq<u64>, i: int)
    requires
        0 <= i <= shape.len(),
        element_count(shape.take(i)) is None,
    ensures
        element_count(shape) is None,
    decreases shape.len() - i,
{
    if i < shape.len() {
        assert(shape.take(i + 1).drop_last() =~= shape.take(i));
        lemma_uncountable_stays(shape, i + 1);
    } else {
        assert(shape.take(i) =~= shape);
    }
}

/// Counts the elements of a shape.
pub fn count_elements(shape: &Vec<u64>) -> (count: Option<u64>)
    ensures
        match count {
            Some(count) => element_count(shape@) == Some(count as nat),
            None => element_count(shape@) is None,
        },
{
    let mut count: u64 = 1;
    let mut i: usize = 0;
    assert(shape@.take(0).len() == 0);
    while i < shape.len()
        invariant
            i <= shape@.len(),
            element_count(shape@.take(i as int)) == Some(count as nat),
        decreases shape@.len() - i,
    {
        proof {
            assert(shape@.take(i + 1).drop_last() =~= shape@.take(i as int));
            assert(shape@.take(i + 1).last() == shape@[i as int]);
        }
        match count.checked_mul(shape[i]) {
            Some(product) => {
                count = product;
            },
            None => {
                proof {
                    lemma_uncountable_stays(shape@, i + 1);
                }
                return None;
            },
        }
        i += 1;
    }
    assert(shape@.take(shape@.len() as int) =~= shape@);
    Some(count)
}

/// A shape of two dimensions has as many elements as their product.
pub proof fn lemma_rank_two_count(shape: Seq<u64>)
    requires
        shape.len() == 2,
    ensures
        match element_count(shape) {
            Some(count) => count == shape[0] * shape[1],
            None => shape[0] * shape[1] > u64::MAX,
        },
{
    let rest = shape.drop_last();
    assert(rest.drop_last().len() == 0);
    assert(element_count(rest.drop_last()) == Some(1nat));
    assert(1 * rest.last() == shape[0]);
    assert(element_count(rest) == Some(shape[0] as nat));
}

/// The elements of a shape are those of its other dimensions once for each
/// place of the last, and a shape without dimensions has one. A count that 64
/// bits do not hold is none.
pub proof fn law_elements_multiply(shape: Seq<u64>, dimension: u64)
    ensures
        element_count(Seq::<u64>::empty()) == Some(1nat),
        match element_count(shape) {
            Some(count) => element_count(shape.push(dimension)) == if count * dimension <= u64::MAX {
                Some((count * dimension) as nat)
            } else {
                None
            },
            None => element_count(shape.push(dimension)) is None,
        },
{
    assert(shape.push(dimension).drop_last() =~= shape);
}

/// A shape and a list of elements make a tensor exactly if the shape has as many
/// elements as the list.
pub proof fn law_tensors_are_whole(shape: Seq<u64>, length: nat)
    ensures
        host_tensor_fault(shape, length) is None <==> element_count(shape) == Some(length),
{
}

} // verus!
