//! Laws of what the planned launches do: which operands a kernel accepts, what
//! it covers, and what it reads and admits through the arguments it is given.

use crate::addressing::{law_grid_covers_work, lemma_row_major};
use crate::error::CudaErrorCode;
use crate::launch::{
    attention_launch, elementwise_launch, embedding_launch, grid_for, launch_outcome,
    matmul_launch, pairwise_launch, rmsnorm_launch, rope_launch, softmax_launch, DeviceBufferView,
    KernelArguments, KernelFunction, KernelLaunchView, OutputSeed,
};
use crate::tensor::element_count;
use crate::text::{decimal, shape_text};
use vstd::prelude::*;

verus! {

/// How many threads a launch has.
pub open spec fn threads(launch: KernelLaunchView) -> int {
    launch.config.grid_dim.0 * launch.config.grid_dim.1 * launch.config.grid_dim.2
        * launch.config.block_dim.0 * launch.config.block_dim.1 * launch.config.block_dim.2
}

/// Whether a launch has a thread for each of so many units of work, and less
/// than a block more. The count is taken in 32 bits.
pub open spec fn covers(launch: KernelLaunchView, work: int) -> bool {
    work % 0x1_0000_0000 <= threads(launch) < work % 0x1_0000_0000 + 1024
}

proof fn lemma_covers(launch: KernelLaunchView, work: nat)
    requires
        launch.config == grid_for(work as int),
    ensures
        covers(launch, work as int),
{
    law_grid_covers_work(work % 0x1_0000_0000);
    let blocks = launch.config.grid_dim.0 as int;
    assert(blocks * 1 * 1 * 1024 * 1 * 1 == blocks * 1024) by (nonlinear_arith);
}

/// Two buffers are worked on element by element exactly if they have one
/// shape. Every element has its thread, and the output has the shape of both.
pub proof fn law_pairwise_covers_every_element(
    function: KernelFunction,
    a: Seq<u64>,
    elements: nat,
    b: Seq<u64>,
)
    requires
        elements <= u64::MAX,
    ensures
        pairwise_launch(function, a, elements, b) is Ok <==> a == b,
        match pairwise_launch(function, a, elements, b) {
            Ok(launch) => {
                &&& launch.function == function
                &&& launch.arguments matches KernelArguments::Elementwise { count }
                &&& count == elements
                &&& launch.elements == elements
                &&& launch.shape == b
                &&& launch.seed == OutputSeed::Zeroed
                &&& covers(launch, elements as int)
            },
            Err(error) => error.code == CudaErrorCode::ShapeUnsupported,
        },
{
    if a == b {
        lemma_covers(pairwise_launch(function, a, elements, b)->Ok_0, elements);
    }
}

/// A function of one buffer is applied to every element of it, whatever its
/// shape.
pub proof fn law_elementwise_covers_every_element(
    function: KernelFunction,
    shape: Seq<u64>,
    elements: nat,
)
    requires
        elements <= u64::MAX,
    ensures
        ({
            let launch = elementwise_launch(function, shape, elements);
            &&& launch.function == function
            &&& launch.arguments matches KernelArguments::Elementwise { count }
            &&& count == elements
            &&& launch.elements == elements
            &&& launch.shape == shape
            &&& launch.seed == OutputSeed::Zeroed
            &&& covers(launch, elements as int)
        }),
{
    lemma_covers(elementwise_launch(function, shape, elements), elements);
}

/// Whether a lookup with these arguments takes an id for one of a row of its
/// table.
pub open spec fn in_range(arguments: KernelArguments, id: int) -> bool {
    match arguments {
        KernelArguments::EmbeddingLookup { vocab, .. } => 0 <= id < vocab,
        _ => false,
    }
}

/// A lookup is planned for every table of two dimensions. An id is in range
/// exactly if the table has a row of that number; each id has its thread, and
/// its row of the output is as wide as the table's.
pub proof fn law_embedding_reaches_every_row(table: Seq<u64>, ids: nat)
    requires
        ids <= u64::MAX,
    ensures
        embedding_launch(table, ids) is Ok <==> table.len() == 2,
        match embedding_launch(table, ids) {
            Ok(launch) => {
                &&& launch.function == KernelFunction::EmbeddingLookup
                &&& launch.arguments matches KernelArguments::EmbeddingLookup {
                    dim,
                    num_ids,
                    ..
                }
                &&& forall|id: int| #[trigger] in_range(launch.arguments, id) <==> 0 <= id < table[0]
                &&& dim == table[1]
                &&& num_ids == ids
                &&& launch.elements == ids * table[1]
                &&& launch.shape == seq![ids as u64, table[1]]
                &&& launch.seed == OutputSeed::Zeroed
                &&& covers(launch, ids as int)
            },
            Err(error) => error.code == CudaErrorCode::ShapeUnsupported,
        },
{
    if table.len() == 2 {
        lemma_covers(embedding_launch(table, ids)->Ok_0, ids);
    }
}

/// A normalization is planned exactly for an input that consists of rows, with
/// weights for one row or for all of them, and an epsilon that is not zero or
/// less. Column by column, one row of weights serves every row, and weights for
/// all rows serve each its own; each row has its thread.
pub proof fn law_rmsnorm_weighs_each_column(
    input: Seq<u64>,
    elements: nat,
    weight: Seq<u64>,
    epsilon: u32,
)
    requires
        elements <= u64::MAX,
    ensures
        ({
            let cols = input.last();
            let one_row = weight == seq![cols] || weight == seq![1u64, cols];
            let all_rows = weight == input || weight == seq![
                (elements / cols as nat) as u64,
                cols,
            ];
            let at_most_zero = epsilon == 0 || 0x8000_0000 <= epsilon <= 0xFF80_0000;
            &&& rmsnorm_launch(input, elements, weight, epsilon) is Ok <==> {
                &&& input.len() > 0
                &&& cols > 0
                &&& elements % cols as nat == 0
                &&& one_row || all_rows
                &&& !at_most_zero
            }
            &&& match rmsnorm_launch(input, elements, weight, epsilon) {
                Ok(launch) => {
                    &&& launch.function == KernelFunction::RmsNorm
                    &&& launch.arguments matches KernelArguments::RmsNorm {
                        rows,
                        cols: width,
                        weight_row_stride,
                        epsilon: added,
                    }
                    &&& width == cols
                    &&& rows * cols == elements
                    &&& added == epsilon
                    &&& forall|row: int, col: int|
                        #![trigger row * weight_row_stride + col]
                        0 <= row < rows && 0 <= col < cols ==> row * weight_row_stride + col
                            == if one_row {
                            col
                        } else {
                            row * cols + col
                        }
                    &&& launch.elements == elements
                    &&& launch.shape == input
                    &&& launch.seed == OutputSeed::Zeroed
                    &&& covers(launch, rows as int)
                },
                Err(error) => error.code == CudaErrorCode::ShapeUnsupported,
            }
        }),
{
    if let Ok(launch) = rmsnorm_launch(input, elements, weight, epsilon) {
        let cols = input.last() as int;
        let rows = elements as int / cols;
        vstd::arithmetic::div_mod::lemma_fundamental_div_mod(elements as int, cols);
        assert(rows * cols == elements) by (nonlinear_arith)
            requires
                elements == cols * rows + 0,
        ;
        assert(0 <= rows <= elements) by (nonlinear_arith)
            requires
                rows * cols == elements,
                cols >= 1,
                elements >= 0,
        ;
        lemma_covers(launch, rows as nat);
        assert forall|row: int| #[trigger] (row * 0) == 0 by {}
    }
}

/// A rotary encoding is planned exactly for rows of equal head blocks, an even
/// dimension within a block, and a finite positive base and scale. It rotates
/// with the base, the scale, the dimension and the offset that it is given;
/// each pair of columns of each block of each row has its thread, and what is
/// not rotated is the input's.
pub proof fn law_rope_rotates_as_asked(
    input: Seq<u64>,
    elements: nat,
    base: u32,
    scale: u32,
    dimension: u64,
    position_offset: u64,
    head_count: u64,
)
    ensures
        ({
            let plan = rope_launch(
                input,
                elements,
                base,
                scale,
                dimension,
                position_offset,
                head_count,
            );
            &&& plan is Ok <==> {
                &&& input.len() == 2
                &&& head_count > 0
                &&& input[1] % head_count == 0
                &&& 0 < dimension <= input[1] / head_count
                &&& dimension % 2 == 0
                &&& 0 < base < 0x7F80_0000
                &&& 0 < scale < 0x7F80_0000
            }
            &&& match plan {
                Ok(launch) => {
                    &&& launch.function == KernelFunction::Rope
                    &&& launch.arguments matches KernelArguments::Rope {
                        rows,
                        cols,
                        half,
                        base: by_base,
                        scale: by_scale,
                        dimension: over,
                        position_offset: from,
                        head_count: blocks,
                    }
                    &&& rows == input[0]
                    &&& cols == input[1]
                    &&& half + half == dimension
                    &&& by_base == base
                    &&& by_scale == scale
                    &&& over == dimension
                    &&& from == position_offset
                    &&& blocks == head_count
                    &&& launch.elements == elements
                    &&& launch.shape == input
                    &&& launch.seed == OutputSeed::CopyOfFirstInput
                    &&& covers(launch, rows * blocks * half)
                },
                Err(error) => error.code == CudaErrorCode::ShapeUnsupported,
            }
        }),
{
    if let Ok(launch) = rope_launch(
        input,
        elements,
        base,
        scale,
        dimension,
        position_offset,
        head_count,
    ) {
        let half = dimension / 2;
        assert(input[0] * head_count * half >= 0) by (nonlinear_arith);
        lemma_covers(launch, (input[0] * head_count * half) as nat);
    }
}

/// A softmax is planned for every input of two dimensions, and each row has
/// its thread.
pub proof fn law_softmax_covers_every_row(input: Seq<u64>, elements: nat)
    ensures
        softmax_launch(input, elements) is Ok <==> input.len() == 2,
        match softmax_launch(input, elements) {
            Ok(launch) => {
                &&& launch.function == KernelFunction::SoftmaxRows
                &&& launch.arguments matches KernelArguments::SoftmaxRows { rows, cols }
                &&& rows == input[0]
                &&& cols == input[1]
                &&& launch.elements == elements
                &&& launch.shape == input
                &&& launch.seed == OutputSeed::Zeroed
                &&& covers(launch, rows as int)
            },
            Err(error) => error.code == CudaErrorCode::ShapeUnsupported,
        },
{
    if input.len() == 2 {
        lemma_covers(softmax_launch(input, elements)->Ok_0, input[0] as nat);
    }
}

/// A product is planned exactly for two matrices that have as many columns, as
/// they are taken, as the other has rows. The result has the rows of the first
/// and the columns of the second, and each element of it has its thread, which
/// goes over all of the shared dimension.
pub proof fn law_matmul_covers_the_product(
    a: Seq<u64>,
    b: Seq<u64>,
    transpose_a: bool,
    transpose_b: bool,
)
    ensures
        ({
            let (a_rows, a_cols) = if transpose_a {
                (a[1], a[0])
            } else {
                (a[0], a[1])
            };
            let (b_rows, b_cols) = if transpose_b {
                (b[1], b[0])
            } else {
                (b[0], b[1])
            };
            let plan = matmul_launch(a, b, transpose_a, transpose_b);
            &&& plan is Ok <==> a.len() == 2 && b.len() == 2 && a_cols == b_rows
            &&& match plan {
                Ok(launch) => {
                    &&& launch.function == KernelFunction::Matmul
                    &&& launch.arguments matches KernelArguments::Matmul { m, k, n, .. }
                    &&& m == a_rows
                    &&& k == a_cols
                    &&& n == b_cols
                    &&& launch.elements == a_rows * b_cols
                    &&& launch.shape == seq![a_rows, b_cols]
                    &&& launch.seed == OutputSeed::Zeroed
                    &&& covers(launch, a_rows * b_cols)
                    &&& forall|i: int, j: int|
                        0 <= i < a_rows && 0 <= j < b_cols && a_rows * b_cols < 0x1_0000_0000
                            ==> 0 <= #[trigger] (i * b_cols + j) < threads(launch)
                },
                Err(error) => error.code == CudaErrorCode::ShapeUnsupported,
            }
        }),
{
    if let Ok(launch) = matmul_launch(a, b, transpose_a, transpose_b) {
        let m = launch.shape[0] as int;
        let n = launch.shape[1] as int;
        assert(m * n >= 0) by (nonlinear_arith)
            requires
                m >= 0,
                n >= 0,
        ;
        lemma_covers(launch, (m * n) as nat);
        assert forall|i: int, j: int|
            0 <= i < m && 0 <= j < n && m * n < 0x1_0000_0000 implies 0 <= #[trigger] (i * n + j)
            < threads(launch) by {
            lemma_row_major(i, m, j, n);
        }
    }
}

/// A product with a transposed matrix is that with the matrix whose dimensions
/// are exchanged: it is accepted alike and has the same result.
pub proof fn law_transposition_exchanges_dimensions(a: Seq<u64>, b: Seq<u64>, transpose_b: bool)
    requires
        a.len() == 2,
    ensures
        ({
            let turned = matmul_launch(a, b, true, transpose_b);
            let straight = matmul_launch(seq![a[1], a[0]], b, false, transpose_b);
            &&& turned is Ok <==> straight is Ok
            &&& turned matches Ok(launch) ==> {
                &&& launch.shape == straight->Ok_0.shape
                &&& launch.elements == straight->Ok_0.elements
                &&& launch.config == straight->Ok_0.config
            }
        }),
{
}

/// Whether an attention with these arguments lets a query row attend to a key
/// row: where it is masked, up to the query's own position, and where it has a
/// window, no further back than that.
pub open spec fn admits(arguments: KernelArguments, row: int, key: int) -> bool {
    match arguments {
        KernelArguments::Attention { kv_seq_len, causal, window, query_position_offset, .. } => {
            let position = row + query_position_offset;
            &&& 0 <= key < kv_seq_len
            &&& causal != 0 ==> key <= position
            &&& window >= 0 ==> position - key < window
        },
        _ => false,
    }
}

/// The keys that an attention is over. A query of bidirectional attention
/// attends to every key. One of causal attention attends to the keys up to its
/// own position, the last query standing at the last key, and where there is a
/// window to no more of them than it has places. Every query attends to the key
/// at its own position.
pub proof fn law_attention_admits_what_is_asked(
    q: Seq<u64>,
    elements: nat,
    k: Seq<u64>,
    v: Seq<u64>,
    head_count: u64,
    head_dimension: u64,
    kv_head_count: Option<u64>,
    window_size: Option<u64>,
    causal: bool,
)
    requires
        k.len() == 2 ==> k[0] <= i64::MAX,
    ensures
        attention_launch(
            q,
            elements,
            k,
            v,
            head_count,
            head_dimension,
            kv_head_count,
            window_size,
            causal,
        ) matches Ok(launch) ==> {
            let missing = k[0] - q[0];
            &&& missing >= 0
            &&& forall|row: int, key: int|
                0 <= row < q[0] && 0 <= key < k[0] ==> (#[trigger] admits(
                    launch.arguments,
                    row,
                    key,
                ) <==> {
                    &&& causal ==> key <= row + missing
                    &&& window_size matches Some(places) ==> row + missing - key < places
                })
            &&& forall|row: int, key: int|
                key < 0 || k[0] <= key ==> !#[trigger] admits(launch.arguments, row, key)
            &&& forall|row: int|
                0 <= row < q[0] ==> admits(launch.arguments, row, #[trigger] (row + missing))
        },
{
}

/// An attention is planned exactly for keys and values of one shape, heads that
/// fill the rows, query heads in equal groups, no more queries than keys, and a
/// window, if any, of at least one place in causal attention. It is planned
/// over all of these rows and heads; each query row of each head has its thread,
/// and consecutive query heads share a key and value head.
pub proof fn law_attention_covers_every_query(
    q: Seq<u64>,
    elements: nat,
    k: Seq<u64>,
    v: Seq<u64>,
    head_count: u64,
    head_dimension: u64,
    kv_head_count: Option<u64>,
    window_size: Option<u64>,
    causal: bool,
)
    ensures
        ({
            let groups = if kv_head_count is Some {
                kv_head_count->Some_0
            } else {
                head_count
            };
            let plan = attention_launch(
                q,
                elements,
                k,
                v,
                head_count,
                head_dimension,
                kv_head_count,
                window_size,
                causal,
            );
            &&& plan is Ok <==> {
                &&& k == v
                &&& q.len() == 2
                &&& k.len() == 2
                &&& head_count > 0
                &&& head_dimension > 0
                &&& groups > 0
                &&& head_count % groups == 0
                &&& window_size matches Some(places) ==> places > 0 && causal
                &&& q[0] <= k[0]
                &&& q[1] == head_count * head_dimension
                &&& k[1] == groups * head_dimension
            }
            &&& match plan {
                Ok(launch) => {
                    &&& launch.function == KernelFunction::Attention
                    &&& launch.arguments matches KernelArguments::Attention {
                        seq_len,
                        kv_seq_len,
                        head_count: heads,
                        kv_head_count: kv_heads,
                        head_dimension: width,
                        q_model_dim,
                        kv_model_dim,
                        causal: masked,
                        window,
                        query_position_offset,
                    }
                    &&& seq_len == q[0]
                    &&& kv_seq_len == k[0]
                    &&& heads == head_count
                    &&& kv_heads == groups
                    &&& width == head_dimension
                    &&& q_model_dim == q[1]
                    &&& kv_model_dim == k[1]
                    &&& masked != 0 <==> causal
                    &&& window >= 0 ==> window_size == Some(window as u64)
                    &&& window_size is None ==> window < 0
                    &&& seq_len + query_position_offset == kv_seq_len
                    &&& launch.elements == elements
                    &&& launch.shape == q
                    &&& launch.seed == OutputSeed::Zeroed
                    &&& covers(launch, head_count * q[0])
                },
                Err(error) => error.code == CudaErrorCode::ShapeUnsupported,
            }
        }),
{
    if let Ok(launch) = attention_launch(
        q,
        elements,
        k,
        v,
        head_count,
        head_dimension,
        kv_head_count,
        window_size,
        causal,
    ) {
        assert(head_count * q[0] >= 0) by (nonlinear_arith);
        lemma_covers(launch, (head_count * q[0]) as nat);
    }
}

/// A launch that the device performed leaves its output, of the shape that was
/// planned, unless the function is one that looks at the data and found it
/// wanting. What the driver refuses stays refused in its own words.
pub proof fn law_performed_launches_leave_their_output<S>(
    launch: KernelLaunchView,
    launched: Result<(S, i32), crate::error::CudaError>,
)
    ensures
        ({
            let looks = launch.function == KernelFunction::EmbeddingLookup || launch.function
                == KernelFunction::SoftmaxRows;
            match launched {
                Err(error) => launch_outcome(launch, launched) == Err::<
                    DeviceBufferView<S>,
                    crate::error::CudaErrorView,
                >(error@),
                Ok((slice, flag)) => {
                    &&& launch_outcome(launch, launched) is Ok <==> !looks || flag == 0
                    &&& launch_outcome(launch, launched) matches Ok(buffer) ==> buffer.slice
                        == slice && buffer.elements == launch.elements && buffer.shape
                        == launch.shape
                    &&& launch_outcome(launch, launched) matches Err(error) ==> error.code
                        == if launch.function == KernelFunction::SoftmaxRows {
                        CudaErrorCode::ExecutionFailed
                    } else {
                        CudaErrorCode::ShapeUnsupported
                    }
                },
            }
        }),
{
}

/// What a launch writes can be addressed exactly if the host can count it.
pub proof fn law_addressable_outputs_fit(launch: KernelLaunchView)
    ensures
        launch.fits() <==> launch.elements <= usize::MAX,
        launch.wf() <==> element_count(launch.shape) == Some(launch.elements),
{
}

/// What a rotary encoding is refused with tells the numbers that do not go
/// together: first those of the blocks, then those of the rotated columns.
pub proof fn law_refused_rotations_tell_why(
    input: Seq<u64>,
    elements: nat,
    base: u32,
    scale: u32,
    dimension: u64,
    position_offset: u64,
    head_count: u64,
)
    requires
        input.len() == 2,
    ensures
        ({
            let plan = rope_launch(
                input,
                elements,
                base,
                scale,
                dimension,
                position_offset,
                head_count,
            );
            let blocks = head_count > 0 && input[1] % head_count == 0;
            let width = input[1] / head_count;
            let columns = 0 < dimension <= width && dimension % 2 == 0;
            &&& !blocks ==> plan is Err && plan->Err_0.detail == "RoPE head_count "@ + decimal(
                head_count as nat,
            ) + " must be positive and evenly divide the row width "@ + decimal(input[1] as nat)
            &&& blocks && !columns ==> plan is Err && plan->Err_0.detail == "RoPE dimension "@
                + decimal(dimension as nat)
                + " must be positive, even, and at most the head width "@ + decimal(width as nat)
            &&& blocks && columns && !(0 < base < 0x7F80_0000) ==> plan is Err
                && plan->Err_0.detail == "RoPE base must be finite and positive"@
            &&& blocks && columns && 0 < base < 0x7F80_0000 && !(0 < scale < 0x7F80_0000)
                ==> plan is Err && plan->Err_0.detail == "RoPE scale must be finite and positive"@
        }),
{
}

/// What a product is refused with tells the inner dimensions that differ.
pub proof fn law_refused_products_tell_why(
    a: Seq<u64>,
    b: Seq<u64>,
    transpose_a: bool,
    transpose_b: bool,
)
    requires
        a.len() == 2,
        b.len() == 2,
    ensures
        ({
            let inner = a[if transpose_a {
                0
            } else {
                1
            }];
            let other = b[if transpose_b {
                1
            } else {
                0
            }];
            inner != other ==> (matmul_launch(a, b, transpose_a, transpose_b) matches Err(error)
                && error.detail == "matmul inner dimension mismatch: "@ + decimal(inner as nat)
                + " vs "@ + decimal(other as nat))
        }),
{
}

/// What an attention is refused with tells the first thing that does not hold,
/// in this order: keys and values of one shape, counts that are positive, heads
/// in equal groups, a window of some places, a window of causal attention only,
/// no more queries than keys, and heads that fill the rows of the queries and of
/// the keys.
pub proof fn law_refused_attentions_tell_why(
    q: Seq<u64>,
    elements: nat,
    k: Seq<u64>,
    v: Seq<u64>,
    head_count: u64,
    head_dimension: u64,
    kv_head_count: Option<u64>,
    window_size: Option<u64>,
    causal: bool,
)
    requires
        q.len() == 2,
        k.len() == 2,
    ensures
        ({
            let groups = if kv_head_count is Some {
                kv_head_count->Some_0
            } else {
                head_count
            };
            let plan = attention_launch(
                q,
                elements,
                k,
                v,
                head_count,
                head_dimension,
                kv_head_count,
                window_size,
                causal,
            );
            let told = plan->Err_0.detail;
            let positive = head_count > 0 && head_dimension > 0 && groups > 0;
            let grouped = k == v && positive && head_count % groups == 0;
            let windowed = grouped && window_size != Some(0u64) && (window_size is Some ==> causal);
            let placed = windowed && q[0] <= k[0];
            let filled = placed && head_count * head_dimension == q[1];
            &&& k != v ==> plan is Err && told == "shape mismatch: "@ + shape_text(k) + " vs "@
                + shape_text(v)
            &&& k == v && !positive ==> plan is Err && told
                == "head_count, kv_head_count, and head_dimension must all be positive"@
            &&& k == v && positive && !grouped ==> plan is Err && told == "head_count "@ + decimal(
                head_count as nat,
            ) + " must be an exact multiple of kv_head_count "@ + decimal(groups as nat)
            &&& grouped && window_size == Some(0u64) ==> plan is Err && told
                == "window_size must be positive; a zero window admits no keys"@
            &&& grouped && window_size != Some(0u64) && !windowed ==> plan is Err && told
                == "window_size is only defined for causal attention"@
            &&& windowed && !placed ==> plan is Err && told == "q sequence length "@ + decimal(
                q[0] as nat,
            ) + " cannot exceed k/v sequence length "@ + decimal(k[0] as nat)
            &&& placed && !filled ==> plan is Err && told
                == "head_count * head_dimension must equal q row width "@ + decimal(q[1] as nat)
                + ", got "@ + decimal(head_count as nat) + " * "@ + decimal(head_dimension as nat)
            &&& filled && groups * head_dimension != k[1] ==> plan is Err && told
                == "kv_head_count * head_dimension must equal k/v row width "@ + decimal(
                k[1] as nat,
            ) + ", got "@ + decimal(groups as nat) + " * "@ + decimal(head_dimension as nat)
        }),
{
}

} // verus!
