//! What each kernel of the set accepts, and how it is launched.
//!
//! A launch is the function of the kernel module, its scalar arguments, the
//! grid, and the output buffer to allocate. The `*_launch` functions say for
//! each kernel which shapes and parameters it accepts, with what it rejects
//! the others, and what it launches. The launch itself happens on the device;
//! what came of it is handed to [`KernelLaunch::complete`].

use crate::error::{CudaError, CudaErrorCode, CudaErrorView};
use crate::half_precision::{is_at_most_zero_single, is_finite_single};
use crate::tensor::element_count;
use crate::text::{decimal, push_shape, shape_text, shapes_equal};
use cudarc::driver::LaunchConfig;
use vstd::prelude::*;

verus! {

/// The grid, the blocks and the shared memory of a launch.
#[verifier::external_type_specification]
pub struct ExLaunchConfig(LaunchConfig);

/// The launch of at least `n` threads: blocks of 1024, as many as it takes.
pub open spec fn config_for(n: u32) -> LaunchConfig {
    LaunchConfig {
        grid_dim: (((n + 1023) / 1024) as u32, 1, 1),
        block_dim: (1024, 1, 1),
        shared_mem_bytes: 0,
    }
}

/// `cudarc::driver::LaunchConfig::for_num_elems`: one dimension of blocks of
/// 1024 threads, the count of elements divided by 1024 and rounded up, and no
/// dynamic shared memory.
pub assume_specification[ LaunchConfig::for_num_elems ](n: u32) -> (config: LaunchConfig)
    ensures
        config == config_for(n),
;

/// A tensor that lives in device memory. `slice` is the device allocation
/// and `elements` its length.
pub struct CudaDeviceBuffer<S> {
    pub slice: S,
    pub elements: usize,
    pub shape: Vec<u64>,
}

/// What a [`CudaDeviceBuffer`] holds.
pub struct DeviceBufferView<S> {
    pub slice: S,
    pub elements: nat,
    pub shape: Seq<u64>,
}

impl<S> View for CudaDeviceBuffer<S> {
    type V = DeviceBufferView<S>;

    open spec fn view(&self) -> DeviceBufferView<S> {
        DeviceBufferView {
            slice: self.slice,
            elements: self.elements as nat,
            shape: self.shape@,
        }
    }
}

impl<S> DeviceBufferView<S> {
    /// The shape has as many elements as the allocation.
    pub open spec fn wf(self) -> bool {
        element_count(self.shape) == Some(self.elements)
    }
}

impl<S> CudaDeviceBuffer<S> {
    /// The shape has as many elements as the allocation.
    pub open spec fn wf(&self) -> bool {
        self@.wf()
    }

    /// How many elements the buffer holds.
    pub fn len(&self) -> (count: usize)
        ensures
            count == self.elements,
    {
        self.elements
    }

    /// Whether the buffer holds no elements.
    pub fn is_empty(&self) -> (empty: bool)
        ensures
            empty == (self.elements == 0),
    {
        self.elements == 0
    }
}

/// A function of the compiled kernel module.
#[derive(Clone, Copy, Debug, PartialEq, Eq, Structural)]
pub enum KernelFunction {
    Add,
    Mul,
    Silu,
    EmbeddingLookup,
    RmsNorm,
    Rope,
    SoftmaxRows,
    Matmul,
    Attention,
}

/// The scalar arguments of a launch, in the order in which the function
/// takes them. A `float` argument is held as its bits.
#[derive(Clone, Copy, Debug, PartialEq, Eq, Structural)]
pub enum KernelArguments {
    Elementwise { count: u64 },
    EmbeddingLookup { dim: u64, num_ids: u64, vocab: u64 },
    RmsNorm { rows: u64, cols: u64, weight_row_stride: u64, epsilon: u32 },
    Rope {
        rows: u64,
        cols: u64,
        half: u64,
        base: u32,
        scale: u32,
        dimension: u64,
        position_offset: u64,
        head_count: u64,
    },
    SoftmaxRows { rows: u64, cols: u64 },
    Matmul {
        m: u64,
        k: u64,
        n: u64,
        a_row_stride: u64,
        a_inner_stride: u64,
        b_inner_stride: u64,
        b_col_stride: u64,
    },
    Attention {
        seq_len: u64,
        kv_seq_len: u64,
        head_count: u64,
        kv_head_count: u64,
        head_dimension: u64,
        q_model_dim: u64,
        kv_model_dim: u64,
        causal: i32,
        window: i64,
        query_position_offset: u64,
    },
}

/// What an output buffer holds before the launch.
#[derive(Clone, Copy, Debug, PartialEq, Eq, Structural)]
pub enum OutputSeed {
    Zeroed,
    CopyOfFirstInput,
}

/// A launch to perform: the function, its scalar arguments, the grid, and
/// the output buffer.
pub struct KernelLaunch {
    pub function: KernelFunction,
    pub arguments: KernelArguments,
    pub config: LaunchConfig,
    pub seed: OutputSeed,
    pub elements: usize,
    pub shape: Vec<u64>,
}

/// What a [`KernelLaunch`] asks for.
pub struct KernelLaunchView {
    pub function: KernelFunction,
    pub arguments: KernelArguments,
    pub config: LaunchConfig,
    pub seed: OutputSeed,
    pub elements: nat,
    pub shape: Seq<u64>,
}

impl View for KernelLaunch {
    type V = KernelLaunchView;

    open spec fn view(&self) -> KernelLaunchView {
        KernelLaunchView {
            function: self.function,
            arguments: self.arguments,
            config: self.config,
            seed: self.seed,
            elements: self.elements as nat,
            shape: self.shape@,
        }
    }
}

impl KernelLaunchView {
    /// The output's shape has as many elements as the output buffer.
    pub open spec fn wf(self) -> bool {
        element_count(self.shape) == Some(self.elements)
    }

    /// The output buffer can be addressed.
    pub open spec fn fits(self) -> bool {
        self.elements <= usize::MAX
    }
}

/// The symbol of a function in the kernel module.
pub open spec fn function_symbol(function: KernelFunction) -> Seq<char> {
    match function {
        KernelFunction::Add => "add_kernel"@,
        KernelFunction::Mul => "mul_kernel"@,
        KernelFunction::Silu => "silu_kernel"@,
        KernelFunction::EmbeddingLookup => "embedding_lookup_kernel"@,
        KernelFunction::RmsNorm => "rmsnorm_kernel"@,
        KernelFunction::Rope => "rope_kernel"@,
        KernelFunction::SoftmaxRows => "softmax_rows_kernel"@,
        KernelFunction::Matmul => "matmul_kernel"@,
        KernelFunction::Attention => "attention_kernel"@,
    }
}

/// How many input buffers a function takes.
pub open spec fn function_inputs(function: KernelFunction) -> nat {
    match function {
        KernelFunction::Silu | KernelFunction::Rope | KernelFunction::SoftmaxRows => 1,
        KernelFunction::Attention => 3,
        _ => 2,
    }
}

/// What a function's failure flag stands for, where the function has one.
pub open spec fn flag_meaning(function: KernelFunction) -> Option<CudaErrorView> {
    match function {
        KernelFunction::EmbeddingLookup => Some(
            shape_error("embedding lookup id is not a valid in-range non-negative integer"@),
        ),
        KernelFunction::SoftmaxRows => Some(
            CudaErrorView {
                code: CudaErrorCode::ExecutionFailed,
                detail: "softmax has a row with no finite entry to normalize"@,
            },
        ),
        _ => None,
    }
}

/// The rejection of a combination of shapes and parameters.
pub open spec fn shape_error(detail: Seq<char>) -> CudaErrorView {
    CudaErrorView { code: CudaErrorCode::ShapeUnsupported, detail }
}

/// The rejection of a shape that does not have two dimensions.
pub open spec fn rank_error(shape: Seq<u64>) -> CudaErrorView {
    shape_error("expected rank-2 tensor, got shape "@ + shape_text(shape))
}

/// The rejection of two shapes that differ.
pub open spec fn mismatch_error(a: Seq<u64>, b: Seq<u64>) -> CudaErrorView {
    shape_error("shape mismatch: "@ + shape_text(a) + " vs "@ + shape_text(b))
}

/// The grid for one thread per unit of work. The count is taken in 32 bits.
pub open spec fn grid_for(work: int) -> LaunchConfig {
    config_for((work % 0x1_0000_0000) as u32)
}

/// What planning a launch gave.
pub open spec fn planned(outcome: Result<KernelLaunch, CudaError>) -> Result<
    KernelLaunchView,
    CudaErrorView,
> {
    match outcome {
        Ok(launch) => Ok(launch@),
        Err(error) => Err(error@),
    }
}

/// Whether a planned launch has an output that can be addressed.
pub open spec fn plan_fits(plan: Result<KernelLaunchView, CudaErrorView>) -> bool {
    plan matches Ok(launch) ==> launch.fits()
}

/// Whether a planned launch has an output whose shape and length agree.
pub open spec fn plan_wf(plan: Result<KernelLaunchView, CudaErrorView>) -> bool {
    plan matches Ok(launch) ==> launch.wf()
}

/// The launch of a function on every element of two buffers of one shape.
pub open spec fn pairwise_launch(
    function: KernelFunction,
    a: Seq<u64>,
    elements: nat,
    b: Seq<u64>,
) -> Result<KernelLaunchView, CudaErrorView> {
    if a != b {
        Err(mismatch_error(a, b))
    } else {
        Ok(elementwise_launch(function, a, elements))
    }
}

/// The launch of a function on every element of a buffer.
pub open spec fn elementwise_launch(
    function: KernelFunction,
    shape: Seq<u64>,
    elements: nat,
) -> KernelLaunchView {
    KernelLaunchView {
        function,
        arguments: KernelArguments::Elementwise { count: elements as u64 },
        config: grid_for(elements as int),
        seed: OutputSeed::Zeroed,
        elements,
        shape,
    }
}

/// The launch of an embedding lookup: a row of the table for each id.
pub open spec fn embedding_launch(table: Seq<u64>, ids: nat) -> Result<
    KernelLaunchView,
    CudaErrorView,
> {
    if table.len() != 2 {
        Err(rank_error(table))
    } else {
        Ok(
            KernelLaunchView {
                function: KernelFunction::EmbeddingLookup,
                arguments: KernelArguments::EmbeddingLookup {
                    dim: table[1],
                    num_ids: ids as u64,
                    vocab: table[0],
                },
                config: grid_for(ids as int),
                seed: OutputSeed::Zeroed,
                elements: ids * table[1] as nat,
                shape: seq![ids as u64, table[1]],
            },
        )
    }
}

/// How far the weights of two rows are apart: not at all where one row of
/// weights serves all rows.
pub open spec fn weight_row_stride(input: Seq<u64>, weight: Seq<u64>, rows: u64) -> Option<u64> {
    let cols = input.last();
    if weight == seq![cols] || weight == seq![1, cols] {
        Some(0)
    } else if weight == input || weight == seq![rows, cols] {
        Some(cols)
    } else {
        None
    }
}

/// The launch of an RMS normalization of every row.
pub open spec fn rmsnorm_launch(
    input: Seq<u64>,
    elements: nat,
    weight: Seq<u64>,
    epsilon: u32,
) -> Result<KernelLaunchView, CudaErrorView> {
    if input.len() == 0 {
        Err(shape_error("RMSNorm expects at least one dimension"@))
    } else if input.last() == 0 || elements % input.last() as nat != 0 {
        Err(
            shape_error(
                "RMSNorm data length "@ + decimal(elements)
                    + " is not divisible by hidden dimension "@ + decimal(input.last() as nat),
            ),
        )
    } else {
        let cols = input.last();
        let rows = (elements / cols as nat) as u64;
        match weight_row_stride(input, weight, rows) {
            None => Err(
                shape_error(
                    "RMSNorm weight shape must be ["@ + decimal(cols as nat) + "], [1, "@
                        + decimal(cols as nat) + "], input shape "@ + shape_text(input) + ", or ["@
                        + decimal(rows as nat) + ", "@ + decimal(cols as nat) + "], got "@
                        + shape_text(weight),
                ),
            ),
            Some(stride) => if is_at_most_zero_single(epsilon) {
                Err(shape_error("RMSNorm epsilon must be positive"@))
            } else {
                Ok(
                    KernelLaunchView {
                        function: KernelFunction::RmsNorm,
                        arguments: KernelArguments::RmsNorm {
                            rows,
                            cols,
                            weight_row_stride: stride,
                            epsilon,
                        },
                        config: grid_for(rows as int),
                        seed: OutputSeed::Zeroed,
                        elements,
                        shape: input,
                    },
                )
            },
        }
    }
}

/// Whether the bits of a `float` parameter stand for a finite positive
/// number.
pub open spec fn is_finite_positive_single(bits: u32) -> bool {
    is_finite_single(bits) && !is_at_most_zero_single(bits)
}

/// The launch of a rotary position encoding. Each row is `head_count` blocks
/// of equal width, and within each block the first `dimension` columns are
/// rotated in pairs. The columns beyond them stay as they are, so the output
/// starts as a copy of the input.
pub open spec fn rope_launch(
    input: Seq<u64>,
    elements: nat,
    base: u32,
    scale: u32,
    dimension: u64,
    position_offset: u64,
    head_count: u64,
) -> Result<KernelLaunchView, CudaErrorView> {
    if input.len() != 2 {
        Err(rank_error(input))
    } else if head_count == 0 || input[1] % head_count != 0 {
        Err(
            shape_error(
                "RoPE head_count "@ + decimal(head_count as nat)
                    + " must be positive and evenly divide the row width "@ + decimal(
                    input[1] as nat,
                ),
            ),
        )
    } else if dimension == 0 || dimension % 2 != 0 || dimension > input[1] / head_count {
        Err(
            shape_error(
                "RoPE dimension "@ + decimal(dimension as nat)
                    + " must be positive, even, and at most the head width "@ + decimal(
                    (input[1] / head_count) as nat,
                ),
            ),
        )
    } else if !is_finite_positive_single(base) {
        Err(shape_error("RoPE base must be finite and positive"@))
    } else if !is_finite_positive_single(scale) {
        Err(shape_error("RoPE scale must be finite and positive"@))
    } else {
        let half = dimension / 2;
        Ok(
            KernelLaunchView {
                function: KernelFunction::Rope,
                arguments: KernelArguments::Rope {
                    rows: input[0],
                    cols: input[1],
                    half,
                    base,
                    scale,
                    dimension,
                    position_offset,
                    head_count,
                },
                config: grid_for(input[0] * head_count * half),
                seed: OutputSeed::CopyOfFirstInput,
                elements,
                shape: input,
            },
        )
    }
}

/// The launch of a softmax of every row.
pub open spec fn softmax_launch(input: Seq<u64>, elements: nat) -> Result<
    KernelLaunchView,
    CudaErrorView,
> {
    if input.len() != 2 {
        Err(rank_error(input))
    } else {
        Ok(
            KernelLaunchView {
                function: KernelFunction::SoftmaxRows,
                arguments: KernelArguments::SoftmaxRows { rows: input[0], cols: input[1] },
                config: grid_for(input[0] as int),
                seed: OutputSeed::Zeroed,
                elements,
                shape: input,
            },
        )
    }
}

/// The launch of a matrix product. Transposition only exchanges strides.
pub open spec fn matmul_launch(
    a: Seq<u64>,
    b: Seq<u64>,
    transpose_a: bool,
    transpose_b: bool,
) -> Result<KernelLaunchView, CudaErrorView> {
    if a.len() != 2 {
        Err(rank_error(a))
    } else if b.len() != 2 {
        Err(rank_error(b))
    } else {
        let (m, k) = if transpose_a {
            (a[1], a[0])
        } else {
            (a[0], a[1])
        };
        let (k2, n) = if transpose_b {
            (b[1], b[0])
        } else {
            (b[0], b[1])
        };
        if k != k2 {
            Err(
                shape_error(
                    "matmul inner dimension mismatch: "@ + decimal(k as nat) + " vs "@ + decimal(
                        k2 as nat,
                    ),
                ),
            )
        } else {
            Ok(
                KernelLaunchView {
                    function: KernelFunction::Matmul,
                    arguments: KernelArguments::Matmul {
                        m,
                        k,
                        n,
                        a_row_stride: if transpose_a {
                            1
                        } else {
                            a[1]
                        },
                        a_inner_stride: if transpose_a {
                            a[1]
                        } else {
                            1
                        },
                        b_inner_stride: if transpose_b {
                            1
                        } else {
                            b[1]
                        },
                        b_col_stride: if transpose_b {
                            b[1]
                        } else {
                            1
                        },
                    },
                    config: grid_for(m * n),
                    seed: OutputSeed::Zeroed,
                    elements: (m * n) as nat,
                    shape: seq![m, n],
                },
            )
        }
    }
}

/// The window argument of an attention launch: `-1` for none, and the 64
/// bits of the window otherwise.
pub open spec fn window_argument(window_size: Option<u64>) -> i64 {
    match window_size {
        None => (-1) as i64,
        Some(w) => if w < 0x8000_0000_0000_0000 {
            w as i64
        } else {
            (w - 0x1_0000_0000_0000_0000) as i64
        },
    }
}

/// The launch of an attention over `head_count` query heads that share
/// `kv_head_count` key and value heads.
pub open spec fn attention_launch(
    q: Seq<u64>,
    elements: nat,
    k: Seq<u64>,
    v: Seq<u64>,
    head_count: u64,
    head_dimension: u64,
    kv_head_count: Option<u64>,
    window_size: Option<u64>,
    causal: bool,
) -> Result<KernelLaunchView, CudaErrorView> {
    let kv_heads = match kv_head_count {
        Some(count) => count,
        None => head_count,
    };
    if k != v {
        Err(mismatch_error(k, v))
    } else if head_count == 0 || head_dimension == 0 || kv_heads == 0 {
        Err(
            shape_error(
                "head_count, kv_head_count, and head_dimension must all be positive"@,
            ),
        )
    } else if head_count % kv_heads != 0 {
        Err(
            shape_error(
                "head_count "@ + decimal(head_count as nat)
                    + " must be an exact multiple of kv_head_count "@ + decimal(kv_heads as nat),
            ),
        )
    } else if window_size == Some(0u64) {
        Err(shape_error("window_size must be positive; a zero window admits no keys"@))
    } else if window_size is Some && !causal {
        Err(shape_error("window_size is only defined for causal attention"@))
    } else if q.len() != 2 {
        Err(rank_error(q))
    } else if k.len() != 2 {
        Err(rank_error(k))
    } else if q[0] > k[0] {
        Err(
            shape_error(
                "q sequence length "@ + decimal(q[0] as nat)
                    + " cannot exceed k/v sequence length "@ + decimal(k[0] as nat),
            ),
        )
    } else if head_count * head_dimension != q[1] {
        Err(
            shape_error(
                "head_count * head_dimension must equal q row width "@ + decimal(q[1] as nat)
                    + ", got "@ + decimal(head_count as nat) + " * "@ + decimal(
                    head_dimension as nat,
                ),
            ),
        )
    } else if kv_heads * head_dimension != k[1] {
        Err(
            shape_error(
                "kv_head_count * head_dimension must equal k/v row width "@ + decimal(k[1] as nat)
                    + ", got "@ + decimal(kv_heads as nat) + " * "@ + decimal(
                    head_dimension as nat,
                ),
            ),
        )
    } else {
        Ok(
            KernelLaunchView {
                function: KernelFunction::Attention,
                arguments: KernelArguments::Attention {
                    seq_len: q[0],
                    kv_seq_len: k[0],
                    head_count,
                    kv_head_count: kv_heads,
                    head_dimension,
                    q_model_dim: q[1],
                    kv_model_dim: k[1],
                    causal: if causal {
                        1
                    } else {
                        0
                    },
                    window: window_argument(window_size),
                    query_position_offset: (k[0] - q[0]) as u64,
                },
                config: grid_for(head_count * q[0]),
                seed: OutputSeed::Zeroed,
                elements,
                shape: q,
            },
        )
    }
}

/// The head blocks of a row are rotated alike. Where a rotary encoding of rows
/// of `head_count` blocks is launched, that of one of the blocks alone is
/// launched too, with the same rows, rotated pairs, base, scale, dimension and
/// offset: no argument that an angle is formed from depends on the block. The
/// whole has as many units of work as its blocks have together.
pub proof fn law_head_blocks_are_rotated_alike(
    input: Seq<u64>,
    elements: nat,
    block_elements: nat,
    base: u32,
    scale: u32,
    dimension: u64,
    position_offset: u64,
    head_count: u64,
)
    requires
        rope_launch(input, elements, base, scale, dimension, position_offset, head_count) is Ok,
    ensures
        ({
            let width = input[1] / head_count;
            let block = seq![input[0], width];
            let whole = rope_launch(
                input,
                elements,
                base,
                scale,
                dimension,
                position_offset,
                head_count,
            )->Ok_0;
            let planned = rope_launch(
                block,
                block_elements,
                base,
                scale,
                dimension,
                position_offset,
                1,
            );
            let half = dimension / 2;
            &&& input[1] == head_count * width
            &&& planned matches Ok(alone)
            &&& alone.function == whole.function
            &&& alone.seed == whole.seed
            &&& whole.arguments == (KernelArguments::Rope {
                rows: input[0],
                cols: input[1],
                half,
                base,
                scale,
                dimension,
                position_offset,
                head_count,
            })
            &&& alone.arguments == (KernelArguments::Rope {
                rows: input[0],
                cols: width,
                half,
                base,
                scale,
                dimension,
                position_offset,
                head_count: 1,
            })
            &&& whole.config == grid_for(head_count * (input[0] * half))
            &&& alone.config == grid_for(input[0] * half)
        }),
{
    let width = input[1] / head_count;
    vstd::arithmetic::div_mod::lemma_fundamental_div_mod(input[1] as int, head_count as int);
    assert(width as int / 1 == width) by (nonlinear_arith);
    let rows = input[0] as int;
    let heads = head_count as int;
    let half = (dimension / 2) as int;
    assert(rows * heads * half == heads * (rows * half)) by (nonlinear_arith);
}

/// A query that is shorter than another stands at the end of it. Where the
/// attention of a query is launched, that of one with fewer rows is launched
/// over the same keys and values with the same arguments, but for the count of
/// rows and the offset of their positions, which is raised by the rows that
/// are missing: each row has the position that it has as one of the last rows
/// of the longer query.
pub proof fn law_shorter_query_stands_at_the_end(
    q: Seq<u64>,
    elements: nat,
    last_rows: u64,
    last_elements: nat,
    k: Seq<u64>,
    v: Seq<u64>,
    head_count: u64,
    head_dimension: u64,
    kv_head_count: Option<u64>,
    window_size: Option<u64>,
    causal: bool,
)
    requires
        attention_launch(
            q,
            elements,
            k,
            v,
            head_count,
            head_dimension,
            kv_head_count,
            window_size,
            causal,
        ) is Ok,
        last_rows <= q[0],
    ensures
        ({
            let shorter = seq![last_rows, q[1]];
            let full = attention_launch(
                q,
                elements,
                k,
                v,
                head_count,
                head_dimension,
                kv_head_count,
                window_size,
                causal,
            )->Ok_0;
            let planned = attention_launch(
                shorter,
                last_elements,
                k,
                v,
                head_count,
                head_dimension,
                kv_head_count,
                window_size,
                causal,
            );
            let missing = q[0] - last_rows;
            let offset = k[0] - q[0];
            &&& planned matches Ok(launch)
            &&& launch.function == full.function
            &&& launch.seed == full.seed
            &&& launch.shape == shorter
            &&& launch.elements == last_elements
            &&& full.arguments matches KernelArguments::Attention {
                seq_len,
                kv_seq_len,
                head_count: heads,
                kv_head_count: kv_heads,
                head_dimension: width,
                q_model_dim,
                kv_model_dim,
                causal: masked,
                window,
                query_position_offset,
            }
            &&& seq_len == q[0]
            &&& query_position_offset == offset
            &&& launch.arguments == (KernelArguments::Attention {
                seq_len: last_rows,
                kv_seq_len,
                head_count: heads,
                kv_head_count: kv_heads,
                head_dimension: width,
                q_model_dim,
                kv_model_dim,
                causal: masked,
                window,
                query_position_offset: (offset + missing) as u64,
            })
            &&& offset + missing <= u64::MAX
        }),
{
}

/// Where no count of key and value heads is given, each query head has its
/// own.
pub proof fn law_kv_heads_default_to_the_query_heads(
    q: Seq<u64>,
    elements: nat,
    k: Seq<u64>,
    v: Seq<u64>,
    head_count: u64,
    head_dimension: u64,
    window_size: Option<u64>,
    causal: bool,
)
    ensures
        attention_launch(
            q,
            elements,
            k,
            v,
            head_count,
            head_dimension,
            None,
            window_size,
            causal,
        ) == attention_launch(
            q,
            elements,
            k,
            v,
            head_count,
            head_dimension,
            Some(head_count),
            window_size,
            causal,
        ),
{
}

pub(crate) fn shape_unsupported(detail: String) -> (error: CudaError)
    ensures
        error@ == shape_error(detail@),
{
    CudaError::new(CudaErrorCode::ShapeUnsupported, detail)
}

pub(crate) fn rank_unsupported(shape: &Vec<u64>) -> (error: CudaError)
    ensures
        error@ == rank_error(shape@),
{
    let mut detail = "expected rank-2 tensor, got shape ".to_owned();
    push_shape(&mut detail, shape);
    shape_unsupported(detail)
}

pub(crate) fn same_shape<S>(a: &CudaDeviceBuffer<S>, b: &CudaDeviceBuffer<S>) -> (checked: Result<
    (),
    CudaError,
>)
    ensures
        match checked {
            Ok(_) => a.shape@ == b.shape@,
            Err(error) => a.shape@ != b.shape@ && error@ == mismatch_error(a.shape@, b.shape@),
        },
{
    if shapes_equal(&a.shape, &b.shape) {
        return Ok(());
    }
    let mut detail = "shape mismatch: ".to_owned();
    push_shape(&mut detail, &a.shape);
    detail.append(" vs ");
    push_shape(&mut detail, &b.shape);
    Err(shape_unsupported(detail))
}

pub(crate) fn rows_cols<S>(buffer: &CudaDeviceBuffer<S>) -> (dimensions: Result<(u64, u64), CudaError>)
    ensures
        match dimensions {
            Ok((rows, cols)) => buffer.shape@.len() == 2 && rows == buffer.shape@[0] && cols
                == buffer.shape@[1],
            Err(error) => buffer.shape@.len() != 2 && error@ == rank_error(buffer.shape@),
        },
{
    if buffer.shape.len() == 2 {
        Ok((buffer.shape[0], buffer.shape[1]))
    } else {
        Err(rank_unsupported(&buffer.shape))
    }
}

pub(crate) fn copy_shape(shape: &Vec<u64>) -> (copy: Vec<u64>)
    ensures
        copy@ == shape@,
{
    let mut copy: Vec<u64> = Vec::new();
    let mut i: usize = 0;
    while i < shape.len()
        invariant
            i <= shape@.len(),
            copy@ == shape@.take(i as int),
        decreases shape@.len() - i,
    {
        copy.push(shape[i]);
        i += 1;
        assert(copy@ =~= shape@.take(i as int));
    }
    assert(shape@.take(shape@.len() as int) =~= shape@);
    copy
}

pub(crate) fn grid(work: u64) -> (config: LaunchConfig)
    ensures
        config == grid_for(work as int),
{
    LaunchConfig::for_num_elems((work % 0x1_0000_0000) as u32)
}

impl KernelFunction {
    /// The symbol of the function in the kernel module.
    pub fn symbol(self) -> (symbol: &'static str)
        ensures
            symbol@ == function_symbol(self),
    {
        match self {
            KernelFunction::Add => "add_kernel",
            KernelFunction::Mul => "mul_kernel",
            KernelFunction::Silu => "silu_kernel",
            KernelFunction::EmbeddingLookup => "embedding_lookup_kernel",
            KernelFunction::RmsNorm => "rmsnorm_kernel",
            KernelFunction::Rope => "rope_kernel",
            KernelFunction::SoftmaxRows => "softmax_rows_kernel",
            KernelFunction::Matmul => "matmul_kernel",
            KernelFunction::Attention => "attention_kernel",
        }
    }

    /// How many input buffers the function takes.
    pub fn input_count(self) -> (count: usize)
        ensures
            count == function_inputs(self),
    {
        match self {
            KernelFunction::Silu | KernelFunction::Rope | KernelFunction::SoftmaxRows => 1,
            KernelFunction::Attention => 3,
            _ => 2,
        }
    }

    /// Whether the function takes a flag, as its last argument, that it
    /// raises where the data cannot be worked on.
    pub fn raises_flag(self) -> (raises: bool)
        ensures
            raises == (flag_meaning(self) is Some),
    {
        match self {
            KernelFunction::EmbeddingLookup | KernelFunction::SoftmaxRows => true,
            _ => false,
        }
    }

    /// The error that a raised flag stands for.
    fn flag_error(self) -> (error: Option<CudaError>)
        ensures
            match error {
                Some(error) => flag_meaning(self) == Some(error@),
                None => flag_meaning(self) is None,
            },
    {
        match self {
            KernelFunction::EmbeddingLookup => Some(
                CudaError::of(
                    CudaErrorCode::ShapeUnsupported,
                    "embedding lookup id is not a valid in-range non-negative integer",
                ),
            ),
            KernelFunction::SoftmaxRows => Some(
                CudaError::of(
                    CudaErrorCode::ExecutionFailed,
                    "softmax has a row with no finite entry to normalize",
                ),
            ),
            _ => None,
        }
    }
}

/// What comes of a launch, given what the device answered: the output
/// allocation and the failure flag, or an error of the driver. The flag
/// counts only where the function has one.
pub open spec fn launch_outcome<S>(
    launch: KernelLaunchView,
    launched: Result<(S, i32), CudaError>,
) -> Result<DeviceBufferView<S>, CudaErrorView> {
    match launched {
        Err(error) => Err(error@),
        Ok((slice, flag)) => match flag_meaning(launch.function) {
            Some(error) => if flag != 0 {
                Err(error)
            } else {
                Ok(DeviceBufferView { slice, elements: launch.elements, shape: launch.shape })
            },
            None => Ok(
                DeviceBufferView { slice, elements: launch.elements, shape: launch.shape },
            ),
        },
    }
}

impl KernelLaunch {
    /// The output of the launch, given what the device answered.
    pub fn complete<S>(self, launched: Result<(S, i32), CudaError>) -> (output: Result<
        CudaDeviceBuffer<S>,
        CudaError,
    >)
        ensures
            match output {
                Ok(buffer) => launch_outcome(self@, launched) == Ok::<
                    DeviceBufferView<S>,
                    CudaErrorView,
                >(buffer@),
                Err(error) => launch_outcome(self@, launched) == Err::<
                    DeviceBufferView<S>,
                    CudaErrorView,
                >(error@),
            },
    {
        match launched {
            Err(error) => Err(error),
            Ok((slice, flag)) => {
                if flag != 0 {
                    if let Some(error) = self.function.flag_error() {
                        return Err(error);
                    }
                }
                Ok(CudaDeviceBuffer { slice, elements: self.elements, shape: self.shape })
            },
        }
    }
}

/// A planned launch is looked at as it is, with nothing left out and nothing
/// read into it, and so is what it was refused with.
pub proof fn law_launches_are_told_as_they_are(launch: KernelLaunch, error: CudaError)
    ensures
        launch@.function == launch.function,
        launch@.arguments == launch.arguments,
        launch@.config == launch.config,
        launch@.seed == launch.seed,
        launch@.elements == launch.elements,
        launch@.shape == launch.shape@,
        planned(Ok(launch)) == Ok::<KernelLaunchView, CudaErrorView>(launch@),
        planned(Err(error)) == Err::<KernelLaunchView, CudaErrorView>(error@),
        error@.code == error.code,
        error@.detail == error.detail@,
        plan_fits(planned(Ok(launch))) <==> launch.elements <= usize::MAX,
        plan_fits(planned(Err(error))),
        plan_wf(planned(Ok(launch))) <==> element_count(launch.shape@) == Some(
            launch.elements as nat,
        ),
        plan_wf(planned(Err(error))),
{
}

/// A device buffer is looked at as it is, and is whole exactly if its shape has
/// as many elements as it.
pub proof fn law_buffers_are_told_as_they_are<S>(buffer: CudaDeviceBuffer<S>)
    ensures
        buffer@.slice == buffer.slice,
        buffer@.elements == buffer.elements,
        buffer@.shape == buffer.shape@,
        buffer.wf() <==> element_count(buffer.shape@) == Some(buffer.elements as nat),
{
}

/// A refused shape is told, and so are two that differ.
pub proof fn law_refused_shapes_are_told(a: Seq<u64>, b: Seq<u64>)
    ensures
        rank_error(a) == (CudaErrorView {
            code: CudaErrorCode::ShapeUnsupported,
            detail: "expected rank-2 tensor, got shape "@ + shape_text(a),
        }),
        mismatch_error(a, b) == (CudaErrorView {
            code: CudaErrorCode::ShapeUnsupported,
            detail: "shape mismatch: "@ + shape_text(a) + " vs "@ + shape_text(b),
        }),
{
}

} // verus!
