//! Laws of the planned launches: what a kernel reads and writes through the
//! arguments it is given lies inside the buffers it is given.

use crate::launch::{
    attention_launch, embedding_launch, grid_for, is_finite_positive_single, matmul_launch,
    pairwise_launch, rmsnorm_launch, rope_launch, softmax_launch, KernelArguments, KernelFunction,
};
use crate::tensor::{element_count, lemma_rank_two_count};
use vstd::prelude::*;

verus! {

/// An index in row-major order lies inside the matrix.
pub(crate) proof fn lemma_row_major(row: int, rows: int, col: int, cols: int)
    by (nonlinear_arith)
    requires
        0 <= row < rows,
        0 <= col < cols,
    ensures
        0 <= row * cols + col < rows * cols,
{
}

/// A buffer of two dimensions has as many elements as their product.
proof fn lemma_matrix(shape: Seq<u64>, elements: nat)
    requires
        element_count(shape) == Some(elements),
        shape.len() == 2,
    ensures
        elements == shape[0] * shape[1],
{
    lemma_rank_two_count(shape);
}

/// The grid of a launch has a thread for each of up to `2^32 - 1` units of
/// work, and no block that is not needed.
pub proof fn law_grid_covers_work(work: nat)
    requires
        work < 0x1_0000_0000,
    ensures
        grid_for(work as int).block_dim == (1024u32, 1u32, 1u32),
        grid_for(work as int).grid_dim.1 == 1,
        grid_for(work as int).grid_dim.2 == 1,
        work <= grid_for(work as int).grid_dim.0 * 1024 < work + 1024,
        grid_for(work as int).shared_mem_bytes == 0,
{
}

/// A kernel on two buffers element by element counts the elements that both
/// have, and writes as many.
pub proof fn law_pairwise_stays_in_bounds(
    function: KernelFunction,
    a: Seq<u64>,
    a_elements: nat,
    b: Seq<u64>,
    b_elements: nat,
)
    requires
        a_elements <= u64::MAX,
        element_count(a) == Some(a_elements),
        element_count(b) == Some(b_elements),
    ensures
        pairwise_launch(function, a, a_elements, b) matches Ok(launch) ==> {
            &&& launch.arguments == KernelArguments::Elementwise { count: a_elements as u64 }
            &&& a_elements as u64 == a_elements
            &&& b_elements == a_elements
            &&& launch.elements == a_elements
        },
{
}

/// An embedding lookup reads whole rows of the table and writes a row for
/// each id.
pub proof fn law_embedding_stays_in_bounds(table: Seq<u64>, table_elements: nat, ids: nat)
    requires
        ids <= u64::MAX,
        element_count(table) == Some(table_elements),
    ensures
        embedding_launch(table, ids) matches Ok(launch) ==> {
            &&& launch.arguments matches KernelArguments::EmbeddingLookup { dim, num_ids, vocab }
            &&& num_ids == ids
            &&& forall|id: int, col: int|
                0 <= id < vocab && 0 <= col < dim ==> 0 <= #[trigger] (id * dim + col)
                    < table_elements
            &&& forall|i: int, col: int|
                0 <= i < num_ids && 0 <= col < dim ==> 0 <= #[trigger] (i * dim + col)
                    < launch.elements
        },
{
    if embedding_launch(table, ids) is Ok {
        lemma_matrix(table, table_elements);
        let (vocab, dim) = (table[0] as int, table[1] as int);
        assert forall|id: int, col: int| 0 <= id < vocab && 0 <= col < dim implies 0
            <= #[trigger] (id * dim + col) < table_elements by {
            lemma_row_major(id, vocab, col, dim);
        }
        assert forall|i: int, col: int| 0 <= i < ids && 0 <= col < dim implies 0 <= #[trigger] (i
            * dim + col) < ids * dim by {
            lemma_row_major(i, ids as int, col, dim);
        }
    }
}

/// An RMS normalization goes over the rows that make up the input, and finds
/// a weight for each column of each row.
pub proof fn law_rmsnorm_stays_in_bounds(
    input: Seq<u64>,
    elements: nat,
    weight: Seq<u64>,
    weight_elements: nat,
    epsilon: u32,
)
    requires
        elements <= u64::MAX,
        element_count(input) == Some(elements),
        element_count(weight) == Some(weight_elements),
    ensures
        rmsnorm_launch(input, elements, weight, epsilon) matches Ok(launch) ==> {
            &&& launch.arguments matches KernelArguments::RmsNorm {
                rows,
                cols,
                weight_row_stride,
                ..
            }
            &&& rows * cols == elements
            &&& launch.elements == elements
            &&& forall|row: int, col: int|
                0 <= row < rows && 0 <= col < cols ==> 0 <= #[trigger] (row * weight_row_stride
                    + col) < weight_elements
        },
{
    if rmsnorm_launch(input, elements, weight, epsilon) is Ok {
        let cols = input.last() as int;
        let rows = elements as int / cols;
        vstd::arithmetic::div_mod::lemma_fundamental_div_mod(elements as int, cols);
        assert(rows * cols == elements) by (nonlinear_arith)
            requires
                elements == cols * rows + 0,
        ;
        assert(0 <= rows <= elements) by (nonlinear_arith)
            requires
                rows * cols == elements,
                cols >= 1,
                elements >= 0,
        ;
        let stride = crate::launch::weight_row_stride(input, weight, rows as u64)->Some_0;
        if weight == seq![cols as u64] {
            assert(weight.drop_last().len() == 0);
            assert(element_count(weight.drop_last()) == Some(1nat));
            assert(weight_elements == cols);
        } else if weight == seq![1u64, cols as u64] {
            lemma_matrix(weight, weight_elements);
            assert(1 * cols == cols);
        } else if weight != input {
            lemma_matrix(weight, weight_elements);
        }
        assert forall|row: int, col: int| 0 <= row < rows && 0 <= col < cols implies 0
            <= #[trigger] (row * stride + col) < weight_elements by {
            if stride == 0 {
                assert(row * 0 == 0);
            } else {
                lemma_row_major(row, rows, col, cols);
            }
        }
    }
}

/// A softmax goes over the rows that make up the input.
pub proof fn law_softmax_stays_in_bounds(input: Seq<u64>, elements: nat)
    requires
        element_count(input) == Some(elements),
    ensures
        softmax_launch(input, elements) matches Ok(launch) ==> {
            &&& launch.arguments matches KernelArguments::SoftmaxRows { rows, cols }
            &&& rows * cols == elements
            &&& launch.elements == elements
        },
{
    if softmax_launch(input, elements) is Ok {
        lemma_matrix(input, elements);
    }
}

/// A rotary encoding rotates pairs of columns that lie inside the first
/// `dimension` columns of their head's block, which lies inside the buffer.
pub proof fn law_rope_stays_in_bounds(
    input: Seq<u64>,
    elements: nat,
    base: u32,
    scale: u32,
    dimension: u64,
    position_offset: u64,
    head_count: u64,
)
    requires
        element_count(input) == Some(elements),
    ensures
        rope_launch(
            input,
            elements,
            base,
            scale,
            dimension,
            position_offset,
            head_count,
        ) matches Ok(launch) ==> {
            &&& launch.arguments matches KernelArguments::Rope { rows, cols, half, .. }
            &&& launch.elements == elements
            &&& 2 * half == dimension
            &&& head_count * (cols / head_count) == cols
            &&& forall|row: int, head: int, pair: int|
                #![trigger row * cols, head * (cols / head_count), 2 * pair]
                0 <= row < rows && 0 <= head < head_count && 0 <= pair < half ==> {
                    &&& 2 * pair + 1 < dimension <= cols / head_count
                    &&& 0 <= row * cols + head * (cols / head_count) + 2 * pair
                    &&& row * cols + head * (cols / head_count) + 2 * pair + 1 < elements
                }
        },
{
    let plan = rope_launch(
        input,
        elements,
        base,
        scale,
        dimension,
        position_offset,
        head_count,
    );
    if plan is Ok {
        lemma_matrix(input, elements);
        let (rows, cols) = (input[0] as int, input[1] as int);
        let width = cols / head_count as int;
        let half = dimension as int / 2;
        vstd::arithmetic::div_mod::lemma_fundamental_div_mod(cols, head_count as int);
        assert(cols == head_count * width);
        assert forall|row: int, head: int, pair: int|
            #![trigger row * cols, head * width, 2 * pair]
            0 <= row < rows && 0 <= head < head_count && 0 <= pair < half implies {
            &&& 2 * pair + 1 < dimension <= width
            &&& 0 <= row * cols + head * width + 2 * pair
            &&& row * cols + head * width + 2 * pair + 1 < elements
        } by {
            lemma_row_major(head, head_count as int, 2 * pair, width);
            lemma_row_major(head, head_count as int, 2 * pair + 1, width);
            lemma_row_major(row, rows, head * width + 2 * pair, cols);
            lemma_row_major(row, rows, head * width + (2 * pair + 1), cols);
        }
    }
}

/// One head spans the whole row: a rotary encoding of one head accepts
/// exactly the even dimensions up to the row's width.
pub proof fn law_single_head_spans_the_row(
    input: Seq<u64>,
    elements: nat,
    base: u32,
    scale: u32,
    dimension: u64,
    position_offset: u64,
)
    requires
        input.len() == 2,
        is_finite_positive_single(base),
        is_finite_positive_single(scale),
    ensures
        rope_launch(input, elements, base, scale, dimension, position_offset, 1) is Ok <==> 0
            < dimension <= input[1] && dimension % 2 == 0,
{
    assert(input[1] % 1 == 0);
    assert(input[1] / 1 == input[1]);
}

/// A matrix product reads, through its strides, the elements of the two
/// matrices as they stand or transposed, and writes an element for each row
/// and column of the result.
pub proof fn law_matmul_stays_in_bounds(
    a: Seq<u64>,
    a_elements: nat,
    b: Seq<u64>,
    b_elements: nat,
    transpose_a: bool,
    transpose_b: bool,
)
    requires
        element_count(a) == Some(a_elements),
        element_count(b) == Some(b_elements),
    ensures
        matmul_launch(a, b, transpose_a, transpose_b) matches Ok(launch) ==> {
            &&& launch.arguments matches KernelArguments::Matmul {
                m,
                k,
                n,
                a_row_stride,
                a_inner_stride,
                b_inner_stride,
                b_col_stride,
            }
            &&& forall|i: int, t: int|
                #![trigger i * a_row_stride, t * a_inner_stride]
                0 <= i < m && 0 <= t < k ==> {
                    let index = i * a_row_stride + t * a_inner_stride;
                    &&& index == if transpose_a {
                        t * a[1] + i
                    } else {
                        i * a[1] + t
                    }
                    &&& 0 <= index < a_elements
                }
            &&& forall|t: int, j: int|
                #![trigger t * b_inner_stride, j * b_col_stride]
                0 <= t < k && 0 <= j < n ==> {
                    let index = t * b_inner_stride + j * b_col_stride;
                    &&& index == if transpose_b {
                        j * b[1] + t
                    } else {
                        t * b[1] + j
                    }
                    &&& 0 <= index < b_elements
                }
            &&& forall|i: int, j: int|
                0 <= i < m && 0 <= j < n ==> 0 <= #[trigger] (i * n + j) < launch.elements
        },
{
    if matmul_launch(a, b, transpose_a, transpose_b) is Ok {
        let launch = matmul_launch(a, b, transpose_a, transpose_b)->Ok_0;
        lemma_matrix(a, a_elements);
        lemma_matrix(b, b_elements);
        match launch.arguments {
            KernelArguments::Matmul {
                m,
                k,
                n,
                a_row_stride,
                a_inner_stride,
                b_inner_stride,
                b_col_stride,
            } => {
                assert forall|i: int, t: int|
                    #![trigger i * a_row_stride, t * a_inner_stride]
                    0 <= i < m && 0 <= t < k implies {
                    let index = i * a_row_stride + t * a_inner_stride;
                    &&& index == if transpose_a {
                        t * a[1] + i
                    } else {
                        i * a[1] + t
                    }
                    &&& 0 <= index < a_elements
                } by {
                    if transpose_a {
                        lemma_row_major(t, k as int, i, m as int);
                    } else {
                        lemma_row_major(i, m as int, t, k as int);
                    }
                }
                assert forall|t: int, j: int|
                    #![trigger t * b_inner_stride, j * b_col_stride]
                    0 <= t < k && 0 <= j < n implies {
                    let index = t * b_inner_stride + j * b_col_stride;
                    &&& index == if transpose_b {
                        j * b[1] + t
                    } else {
                        t * b[1] + j
                    }
                    &&& 0 <= index < b_elements
                } by {
                    if transpose_b {
                        lemma_row_major(j, n as int, t, k as int);
                    } else {
                        lemma_row_major(t, k as int, j, n as int);
                    }
                }
                assert forall|i: int, j: int| 0 <= i < m && 0 <= j < n implies 0 <= #[trigger] (i
                    * n + j) < launch.elements by {
                    lemma_row_major(i, m as int, j, n as int);
                }
            },
            _ => {},
        }
    }
}

/// An attention reads its queries and, through the key and value head of
/// each group of query heads, its keys and values inside their buffers. The
/// last query stands at the position of the last key.
pub proof fn law_attention_stays_in_bounds(
    q: Seq<u64>,
    q_elements: nat,
    k: Seq<u64>,
    k_elements: nat,
    v: Seq<u64>,
    v_elements: nat,
    head_count: u64,
    head_dimension: u64,
    kv_head_count: Option<u64>,
    window_size: Option<u64>,
    causal: bool,
)
    requires
        element_count(q) == Some(q_elements),
        element_count(k) == Some(k_elements),
        element_count(v) == Some(v_elements),
    ensures
        attention_launch(
            q,
            q_elements,
            k,
            v,
            head_count,
            head_dimension,
            kv_head_count,
            window_size,
            causal,
        ) matches Ok(launch) ==> {
            &&& launch.arguments matches KernelArguments::Attention {
                seq_len,
                kv_seq_len,
                head_count: heads,
                kv_head_count: kv_heads,
                head_dimension: width,
                q_model_dim,
                kv_model_dim,
                query_position_offset,
                ..
            }
            &&& launch.elements == q_elements
            &&& v_elements == k_elements
            &&& seq_len + query_position_offset == kv_seq_len
            &&& forall|s: int, h: int, d: int|
                #![trigger s * q_model_dim, h * width + d]
                0 <= s < seq_len && 0 <= h < heads && 0 <= d < width ==> 0 <= s * q_model_dim + (h
                    * width + d) < q_elements
            &&& forall|h: int|
                0 <= h < heads ==> 0 <= #[trigger] (h / (heads as int / kv_heads as int))
                    < kv_heads
            &&& forall|p: int, g: int, d: int|
                #![trigger p * kv_model_dim, g * width + d]
                0 <= p < kv_seq_len && 0 <= g < kv_heads && 0 <= d < width ==> 0 <= p
                    * kv_model_dim + (g * width + d) < k_elements
        },
{
    let plan = attention_launch(
        q,
        q_elements,
        k,
        v,
        head_count,
        head_dimension,
        kv_head_count,
        window_size,
        causal,
    );
    if plan is Ok {
        lemma_matrix(q, q_elements);
        lemma_matrix(k, k_elements);
        let kv_heads = match kv_head_count {
            Some(count) => count,
            None => head_count,
        } as int;
        let heads = head_count as int;
        let width = head_dimension as int;
        let (seq_len, q_dim) = (q[0] as int, q[1] as int);
        let (kv_seq_len, kv_dim) = (k[0] as int, k[1] as int);
        assert forall|s: int, h: int, d: int|
            #![trigger s * q_dim, h * width + d]
            0 <= s < seq_len && 0 <= h < heads && 0 <= d < width implies 0 <= s * q_dim + (h * width
            + d) < q_elements by {
            lemma_row_major(h, heads, d, width);
            lemma_row_major(s, seq_len, h * width + d, q_dim);
        }
        assert forall|p: int, g: int, d: int|
            #![trigger p * kv_dim, g * width + d]
            0 <= p < kv_seq_len && 0 <= g < kv_heads && 0 <= d < width implies 0 <= p * kv_dim + (g
            * width + d) < k_elements by {
            lemma_row_major(g, kv_heads, d, width);
            lemma_row_major(p, kv_seq_len, g * width + d, kv_dim);
        }
        let group = heads / kv_heads;
        vstd::arithmetic::div_mod::lemma_fundamental_div_mod(heads, kv_heads);
        assert(heads == kv_heads * group);
        assert(group > 0) by (nonlinear_arith)
            requires
                heads == kv_heads * group,
                heads > 0,
                kv_heads > 0,
        ;
        assert forall|h: int| 0 <= h < heads implies 0 <= #[trigger] (h / group) < kv_heads by {
            vstd::arithmetic::div_mod::lemma_fundamental_div_mod(h, group);
            vstd::arithmetic::div_mod::lemma_div_pos_is_pos(h, group);
            assert(h / group < kv_heads) by (nonlinear_arith)
                requires
                    h == group * (h / group) + h % group,
                    0 <= h % group,
                    h < kv_heads * group,
                    group > 0,
            ;
        }
    }
}

} // verus!
