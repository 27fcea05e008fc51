//! The kernel set of one device: validation and launch planning.
//!
//! Every kernel takes device buffers and leaves its output in a fresh device
//! buffer, so that kernels can be chained without a tensor leaving the
//! device. [`CudaKernels::upload`] and [`CudaKernels::download`] are the only
//! two points at which a tensor crosses between host and device, and the only
//! two that are counted.

use crate::error::{CudaError, CudaErrorCode, CudaErrorView};
use crate::half_precision::{is_at_most_zero_single, is_finite_single, is_nan_single};
use crate::launch::{
    attention_launch, copy_shape, elementwise_launch, embedding_launch, grid, matmul_launch,
    pairwise_launch, plan_fits, plan_wf, planned, rmsnorm_launch, rope_launch, rows_cols,
    same_shape, shape_unsupported, softmax_launch, window_argument, DeviceBufferView,
    KernelArguments, KernelFunction, KernelLaunch, KernelLaunchView, OutputSeed,
};
use crate::tensor::{host_tensor_fault, lemma_rank_two_count, HostTensor, HostTensorError};
use crate::text::{push_decimal, push_shape, shapes_equal};
use cudarc::nvrtc::CompileError;
use vstd::prelude::*;

pub use crate::launch::CudaDeviceBuffer;

verus! {

/// The kernel set of one device, and how often a tensor crossed between host
/// and device. The counts are for diagnosis and wrap around.
pub struct CudaKernels {
    uploads: u64,
    downloads: u64,
}

/// What a [`CudaKernels`] counts.
pub struct CrossingCounts {
    pub uploads: u64,
    pub downloads: u64,
}

impl View for CudaKernels {
    type V = CrossingCounts;

    closed spec fn view(&self) -> CrossingCounts {
        CrossingCounts { uploads: self.uploads, downloads: self.downloads }
    }
}

/// A count after one more crossing.
pub open spec fn counted(count: u64) -> u64 {
    if count == u64::MAX {
        0
    } else {
        (count + 1) as u64
    }
}

/// The error of a host tensor whose shape and data disagree, with a prefix of
/// this library's own wording.
pub open spec fn host_error_detail(reason: Seq<char>) -> CudaErrorView {
    CudaErrorView {
        code: CudaErrorCode::ShapeUnsupported,
        detail: "reference-cpu-shape-unsupported: "@ + reason,
    }
}

fn host_error(error: HostTensorError) -> (mapped: CudaError)
    ensures
        mapped@ == host_error_detail(error.reason@),
{
    let mut detail = "reference-cpu-shape-unsupported: ".to_owned();
    detail.append(error.reason.as_str());
    shape_unsupported(detail)
}

fn is_nan(bits: u32) -> (nan: bool)
    ensures
        nan == is_nan_single(bits),
{
    bits % 0x8000_0000 > 0x7F80_0000
}

fn is_at_most_zero(bits: u32) -> (at_most_zero: bool)
    ensures
        at_most_zero == is_at_most_zero_single(bits),
{
    !is_nan(bits) && !(0 < bits && bits <= 0x7F80_0000)
}

fn is_finite(bits: u32) -> (finite: bool)
    ensures
        finite == is_finite_single(bits),
{
    bits % 0x8000_0000 < 0x7F80_0000
}

impl CudaKernels {
    /// The kernel set, given what compiling the kernel source and loading the
    /// module gave. Nothing has crossed yet.
    pub fn compile_and_load(
        compiled: Result<(), CompileError>,
        loaded: Result<(), CudaError>,
    ) -> (kernels: Result<CudaKernels, CudaError>)
        ensures
            match (compiled, loaded) {
                (Err(error), _) => kernels is Err && kernels->Err_0@ == (CudaErrorView {
                    code: CudaErrorCode::CompilationFailed,
                    detail: crate::error::compile_error_display(error),
                }),
                (Ok(_), Err(error)) => kernels == Err::<CudaKernels, CudaError>(error),
                (Ok(_), Ok(_)) => kernels is Ok && kernels->Ok_0@ == (CrossingCounts {
                    uploads: 0,
                    downloads: 0,
                }),
            },
    {
        match compiled {
            Err(error) => Err(CudaError::from_compile_error(&error)),
            Ok(_) => match loaded {
                Err(error) => Err(error),
                Ok(_) => Ok(CudaKernels { uploads: 0, downloads: 0 }),
            },
        }
    }

    /// How many tensors have been uploaded.
    pub fn upload_count(&self) -> (count: u64)
        ensures
            count == self@.uploads,
    {
        self.uploads
    }

    /// How many tensors have been downloaded. The flags that some kernels
    /// raise do not count.
    pub fn download_count(&self) -> (count: u64)
        ensures
            count == self@.downloads,
    {
        self.downloads
    }

    /// The device buffer of a host tensor, given what copying its data to the
    /// device gave.
    pub fn upload<E, S>(&mut self, tensor: &HostTensor<E>, copied: Result<S, CudaError>) -> (buffer:
        Result<CudaDeviceBuffer<S>, CudaError>)
        requires
            tensor.wf(),
        ensures
            match copied {
                Ok(slice) => {
                    &&& buffer is Ok
                    &&& buffer->Ok_0@ == (DeviceBufferView {
                        slice,
                        elements: tensor.data@.len(),
                        shape: tensor.shape@,
                    })
                    &&& buffer->Ok_0.wf()
                    &&& final(self)@ == (CrossingCounts {
                        uploads: counted(old(self)@.uploads),
                        ..old(self)@
                    })
                },
                Err(error) => buffer == Err::<CudaDeviceBuffer<S>, CudaError>(error)
                    && final(self)@ == old(self)@,
            },
    {
        match copied {
            Err(error) => Err(error),
            Ok(slice) => {
                self.uploads = self.uploads.wrapping_add(1);
                Ok(
                    CudaDeviceBuffer {
                        slice,
                        elements: tensor.data.len(),
                        shape: copy_shape(&tensor.shape),
                    },
                )
            },
        }
    }

    /// The host tensor of a device buffer, given what copying its data to the
    /// host gave.
    pub fn download<E, S>(
        &mut self,
        buffer: &CudaDeviceBuffer<S>,
        copied: Result<Vec<E>, CudaError>,
    ) -> (tensor: Result<HostTensor<E>, CudaError>)
        ensures
            match copied {
                Err(error) => tensor == Err::<HostTensor<E>, CudaError>(error) && final(self)@
                    == old(self)@,
                Ok(data) => {
                    &&& final(self)@ == (CrossingCounts {
                        downloads: counted(old(self)@.downloads),
                        ..old(self)@
                    })
                    &&& match host_tensor_fault(buffer.shape@, data@.len()) {
                        None => tensor is Ok && tensor->Ok_0.wf() && tensor->Ok_0.shape@
                            == buffer.shape@ && tensor->Ok_0.data == data,
                        Some(reason) => tensor is Err && tensor->Err_0@ == host_error_detail(reason),
                    }
                },
            },
    {
        match copied {
            Err(error) => Err(error),
            Ok(data) => {
                self.downloads = self.downloads.wrapping_add(1);
                match HostTensor::new(copy_shape(&buffer.shape), data) {
                    Ok(tensor) => Ok(tensor),
                    Err(error) => Err(host_error(error)),
                }
            },
        }
    }

    /// Plans the elementwise sum of two buffers.
    pub fn add<S>(&self, a: &CudaDeviceBuffer<S>, b: &CudaDeviceBuffer<S>) -> (launch: Result<
        KernelLaunch,
        CudaError,
    >)
        requires
            a.wf(),
            b.wf(),
        ensures
            planned(launch) == pairwise_launch(
                KernelFunction::Add,
                a.shape@,
                a.elements as nat,
                b.shape@,
            ),
            plan_wf(planned(launch)),
    {
        match same_shape(a, b) {
            Err(error) => Err(error),
            Ok(_) => Ok(elementwise(KernelFunction::Add, a)),
        }
    }

    /// Plans the elementwise product of two buffers.
    pub fn mul<S>(&self, a: &CudaDeviceBuffer<S>, b: &CudaDeviceBuffer<S>) -> (launch: Result<
        KernelLaunch,
        CudaError,
    >)
        requires
            a.wf(),
            b.wf(),
        ensures
            planned(launch) == pairwise_launch(
                KernelFunction::Mul,
                a.shape@,
                a.elements as nat,
                b.shape@,
            ),
            plan_wf(planned(launch)),
    {
        match same_shape(a, b) {
            Err(error) => Err(error),
            Ok(_) => Ok(elementwise(KernelFunction::Mul, a)),
        }
    }

    /// Plans the sum of a buffer and its residual.
    pub fn residual_add<S>(
        &self,
        input: &CudaDeviceBuffer<S>,
        residual: &CudaDeviceBuffer<S>,
    ) -> (launch: Result<KernelLaunch, CudaError>)
        requires
            input.wf(),
            residual.wf(),
        ensures
            planned(launch) == pairwise_launch(
                KernelFunction::Add,
                input.shape@,
                input.elements as nat,
                residual.shape@,
            ),
            plan_wf(planned(launch)),
    {
        self.add(input, residual)
    }

    /// Plans the elementwise SiLU of a buffer. Every buffer is accepted.
    pub fn silu<S>(&self, input: &CudaDeviceBuffer<S>) -> (launch: Result<KernelLaunch, CudaError>)
        requires
            input.wf(),
        ensures
            planned(launch) == Ok::<KernelLaunchView, CudaErrorView>(
                elementwise_launch(KernelFunction::Silu, input.shape@, input.elements as nat),
            ),
            plan_wf(planned(launch)),
    {
        Ok(elementwise(KernelFunction::Silu, input))
    }

    /// Whether the output of an embedding lookup can be addressed.
    pub fn embedding_lookup_fits<S>(
        &self,
        table: &CudaDeviceBuffer<S>,
        ids: &CudaDeviceBuffer<S>,
    ) -> (fits: bool)
        ensures
            fits == plan_fits(embedding_launch(table.shape@, ids.elements as nat)),
    {
        if table.shape.len() != 2 {
            return true;
        }
        match (ids.elements as u64).checked_mul(table.shape[1]) {
            Some(elements) => elements <= usize::MAX as u64,
            None => false,
        }
    }

    /// Plans the lookup of a table row for each id.
    pub fn embedding_lookup<S>(&self, table: &CudaDeviceBuffer<S>, ids: &CudaDeviceBuffer<S>) -> (
    launch: Result<KernelLaunch, CudaError>)
        requires
            table.wf(),
            ids.wf(),
            plan_fits(embedding_launch(table.shape@, ids.elements as nat)),
        ensures
            planned(launch) == embedding_launch(table.shape@, ids.elements as nat),
            plan_wf(planned(launch)),
    {
        let (vocab, dim) = match rows_cols(table) {
            Ok(dimensions) => dimensions,
            Err(error) => {
                return Err(error);
            },
        };
        let num_ids = ids.elements as u64;
        let shape = vec![num_ids, dim];
        proof {
            lemma_rank_two_count(shape@);
            assert(shape@ =~= seq![num_ids, dim]);
        }
        Ok(
            KernelLaunch {
                function: KernelFunction::EmbeddingLookup,
                arguments: KernelArguments::EmbeddingLookup { dim, num_ids, vocab },
                config: grid(num_ids),
                seed: OutputSeed::Zeroed,
                elements: (num_ids * dim) as usize,
                shape,
            },
        )
    }

    /// Plans the RMS normalization of every row of a buffer. `epsilon` is the
    /// bits of a `float`.
    pub fn rmsnorm<S>(
        &self,
        input: &CudaDeviceBuffer<S>,
        weight: &CudaDeviceBuffer<S>,
        epsilon: u32,
    ) -> (launch: Result<KernelLaunch, CudaError>)
        requires
            input.wf(),
            weight.wf(),
        ensures
            planned(launch) == rmsnorm_launch(
                input.shape@,
                input.elements as nat,
                weight.shape@,
                epsilon,
            ),
            plan_wf(planned(launch)),
    {
        if input.shape.len() == 0 {
            return Err(
                CudaError::of(
                    CudaErrorCode::ShapeUnsupported,
                    "RMSNorm expects at least one dimension",
                ),
            );
        }
        let cols = input.shape[input.shape.len() - 1];
        let length = input.elements as u64;
        if cols == 0 || length % cols != 0 {
            let mut detail = "RMSNorm data length ".to_owned();
            push_decimal(&mut detail, length);
            detail.append(" is not divisible by hidden dimension ");
            push_decimal(&mut detail, cols);
            return Err(shape_unsupported(detail));
        }
        let rows = length / cols;
        let stride = match row_stride(input, weight, rows, cols) {
            Some(stride) => stride,
            None => {
                let mut detail = "RMSNorm weight shape must be [".to_owned();
                push_decimal(&mut detail, cols);
                detail.append("], [1, ");
                push_decimal(&mut detail, cols);
                detail.append("], input shape ");
                push_shape(&mut detail, &input.shape);
                detail.append(", or [");
                push_decimal(&mut detail, rows);
                detail.append(", ");
                push_decimal(&mut detail, cols);
                detail.append("], got ");
                push_shape(&mut detail, &weight.shape);
                return Err(shape_unsupported(detail));
            },
        };
        if is_at_most_zero(epsilon) {
            return Err(
                CudaError::of(CudaErrorCode::ShapeUnsupported, "RMSNorm epsilon must be positive"),
            );
        }
        Ok(
            KernelLaunch {
                function: KernelFunction::RmsNorm,
                arguments: KernelArguments::RmsNorm {
                    rows,
                    cols,
                    weight_row_stride: stride,
                    epsilon,
                },
                config: grid(rows),
                seed: OutputSeed::Zeroed,
                elements: input.elements,
                shape: copy_shape(&input.shape),
            },
        )
    }

    /// Plans the rotary position encoding of a buffer. `base` and `scale` are
    /// the bits of `float`s.
    pub fn rope<S>(
        &self,
        input: &CudaDeviceBuffer<S>,
        base: u32,
        scale: u32,
        dimension: u64,
        position_offset: u64,
        head_count: u64,
    ) -> (launch: Result<KernelLaunch, CudaError>)
        requires
            input.wf(),
        ensures
            planned(launch) == rope_launch(
                input.shape@,
                input.elements as nat,
                base,
                scale,
                dimension,
                position_offset,
                head_count,
            ),
            plan_wf(planned(launch)),
    {
        let (rows, cols) = match rows_cols(input) {
            Ok(dimensions) => dimensions,
            Err(error) => {
                return Err(error);
            },
        };
        if head_count == 0 || cols % head_count != 0 {
            let mut detail = "RoPE head_count ".to_owned();
            push_decimal(&mut detail, head_count);
            detail.append(" must be positive and evenly divide the row width ");
            push_decimal(&mut detail, cols);
            return Err(shape_unsupported(detail));
        }
        let head_width = cols / head_count;
        if dimension == 0 || dimension % 2 != 0 || dimension > head_width {
            let mut detail = "RoPE dimension ".to_owned();
            push_decimal(&mut detail, dimension);
            detail.append(" must be positive, even, and at most the head width ");
            push_decimal(&mut detail, head_width);
            return Err(shape_unsupported(detail));
        }
        if !is_finite(base) || is_at_most_zero(base) {
            return Err(
                CudaError::of(
                    CudaErrorCode::ShapeUnsupported,
                    "RoPE base must be finite and positive",
                ),
            );
        }
        if !is_finite(scale) || is_at_most_zero(scale) {
            return Err(
                CudaError::of(
                    CudaErrorCode::ShapeUnsupported,
                    "RoPE scale must be finite and positive",
                ),
            );
        }
        let half = dimension / 2;
        proof {
            lemma_rank_two_count(input.shape@);
            lemma_rotated_pairs(rows as nat, cols as nat, head_count as nat, half as nat);
        }
        Ok(
            KernelLaunch {
                function: KernelFunction::Rope,
                arguments: KernelArguments::Rope {
                    rows,
                    cols,
                    half,
                    base,
                    scale,
                    dimension,
                    position_offset,
                    head_count,
                },
                config: grid(rows * head_count * half),
                seed: OutputSeed::CopyOfFirstInput,
                elements: input.elements,
                shape: copy_shape(&input.shape),
            },
        )
    }

    /// Plans the softmax of every row of a buffer.
    pub fn softmax_rows<S>(&self, input: &CudaDeviceBuffer<S>) -> (launch: Result<
        KernelLaunch,
        CudaError,
    >)
        requires
            input.wf(),
        ensures
            planned(launch) == softmax_launch(input.shape@, input.elements as nat),
            plan_wf(planned(launch)),
    {
        let (rows, cols) = match rows_cols(input) {
            Ok(dimensions) => dimensions,
            Err(error) => {
                return Err(error);
            },
        };
        Ok(
            KernelLaunch {
                function: KernelFunction::SoftmaxRows,
                arguments: KernelArguments::SoftmaxRows { rows, cols },
                config: grid(rows),
                seed: OutputSeed::Zeroed,
                elements: input.elements,
                shape: copy_shape(&input.shape),
            },
        )
    }

    /// Whether the output of a matrix product can be addressed.
    pub fn matmul_fits<S>(
        &self,
        a: &CudaDeviceBuffer<S>,
        b: &CudaDeviceBuffer<S>,
        transpose_a: bool,
        transpose_b: bool,
    ) -> (fits: bool)
        ensures
            fits == plan_fits(matmul_launch(a.shape@, b.shape@, transpose_a, transpose_b)),
    {
        if a.shape.len() != 2 || b.shape.len() != 2 {
            return true;
        }
        let (m, k) = if transpose_a {
            (a.shape[1], a.shape[0])
        } else {
            (a.shape[0], a.shape[1])
        };
        let (k2, n) = if transpose_b {
            (b.shape[1], b.shape[0])
        } else {
            (b.shape[0], b.shape[1])
        };
        if k != k2 {
            return true;
        }
        match m.checked_mul(n) {
            Some(elements) => elements <= usize::MAX as u64,
            None => false,
        }
    }

    /// Plans the product of two matrices, each transposed or not.
    pub fn matmul<S>(
        &self,
        a: &CudaDeviceBuffer<S>,
        b: &CudaDeviceBuffer<S>,
        transpose_a: bool,
        transpose_b: bool,
    ) -> (launch: Result<KernelLaunch, CudaError>)
        requires
            a.wf(),
            b.wf(),
            plan_fits(matmul_launch(a.shape@, b.shape@, transpose_a, transpose_b)),
        ensures
            planned(launch) == matmul_launch(a.shape@, b.shape@, transpose_a, transpose_b),
            plan_wf(planned(launch)),
    {
        let (a_rows, a_cols) = match rows_cols(a) {
            Ok(dimensions) => dimensions,
            Err(error) => {
                return Err(error);
            },
        };
        let (b_rows, b_cols) = match rows_cols(b) {
            Ok(dimensions) => dimensions,
            Err(error) => {
                return Err(error);
            },
        };
        let (m, k) = if transpose_a {
            (a_cols, a_rows)
        } else {
            (a_rows, a_cols)
        };
        let (k2, n) = if transpose_b {
            (b_cols, b_rows)
        } else {
            (b_rows, b_cols)
        };
        if k != k2 {
            let mut detail = "matmul inner dimension mismatch: ".to_owned();
            push_decimal(&mut detail, k);
            detail.append(" vs ");
            push_decimal(&mut detail, k2);
            return Err(shape_unsupported(detail));
        }
        let (a_row_stride, a_inner_stride) = if transpose_a {
            (1u64, a_cols)
        } else {
            (a_cols, 1u64)
        };
        let (b_inner_stride, b_col_stride) = if transpose_b {
            (1u64, b_cols)
        } else {
            (b_cols, 1u64)
        };
        let shape = vec![m, n];
        proof {
            lemma_rank_two_count(shape@);
            assert(shape@ =~= seq![m, n]);
            assert(m * n >= 0) by (nonlinear_arith);
        }
        Ok(
            KernelLaunch {
                function: KernelFunction::Matmul,
                arguments: KernelArguments::Matmul {
                    m,
                    k,
                    n,
                    a_row_stride,
                    a_inner_stride,
                    b_inner_stride,
                    b_col_stride,
                },
                config: grid(m * n),
                seed: OutputSeed::Zeroed,
                elements: (m * n) as usize,
                shape,
            },
        )
    }

    /// Plans the attention of queries over keys and values, the query heads
    /// in groups that share a key and value head.
    pub fn attention<S>(
        &self,
        q: &CudaDeviceBuffer<S>,
        k: &CudaDeviceBuffer<S>,
        v: &CudaDeviceBuffer<S>,
        head_count: u64,
        head_dimension: u64,
        kv_head_count: Option<u64>,
        window_size: Option<u64>,
        causal: bool,
    ) -> (launch: Result<KernelLaunch, CudaError>)
        requires
            q.wf(),
            k.wf(),
            v.wf(),
        ensures
            planned(launch) == attention_launch(
                q.shape@,
                q.elements as nat,
                k.shape@,
                v.shape@,
                head_count,
                head_dimension,
                kv_head_count,
                window_size,
                causal,
            ),
            plan_wf(planned(launch)),
    {
        if let Err(error) = same_shape(k, v) {
            return Err(error);
        }
        let kv_heads = match kv_head_count {
            Some(count) => count,
            None => head_count,
        };
        if head_count == 0 || head_dimension == 0 || kv_heads == 0 {
            return Err(
                CudaError::of(
                    CudaErrorCode::ShapeUnsupported,
                    "head_count, kv_head_count, and head_dimension must all be positive",
                ),
            );
        }
        if head_count % kv_heads != 0 {
            let mut detail = "head_count ".to_owned();
            push_decimal(&mut detail, head_count);
            detail.append(" must be an exact multiple of kv_head_count ");
            push_decimal(&mut detail, kv_heads);
            return Err(shape_unsupported(detail));
        }
        if let Some(window) = window_size {
            if window == 0 {
                return Err(
                    CudaError::of(
                        CudaErrorCode::ShapeUnsupported,
                        "window_size must be positive; a zero window admits no keys",
                    ),
                );
            }
            if !causal {
                return Err(
                    CudaError::of(
                        CudaErrorCode::ShapeUnsupported,
                        "window_size is only defined for causal attention",
                    ),
                );
            }
        }
        let (seq_len, q_model_dim) = match rows_cols(q) {
            Ok(dimensions) => dimensions,
            Err(error) => {
                return Err(error);
            },
        };
        let (kv_seq_len, kv_model_dim) = match rows_cols(k) {
            Ok(dimensions) => dimensions,
            Err(error) => {
                return Err(error);
            },
        };
        if seq_len > kv_seq_len {
            let mut detail = "q sequence length ".to_owned();
            push_decimal(&mut detail, seq_len);
            detail.append(" cannot exceed k/v sequence length ");
            push_decimal(&mut detail, kv_seq_len);
            return Err(shape_unsupported(detail));
        }
        if head_count.checked_mul(head_dimension) != Some(q_model_dim) {
            let mut detail = "head_count * head_dimension must equal q row width ".to_owned();
            push_decimal(&mut detail, q_model_dim);
            detail.append(", got ");
            push_decimal(&mut detail, head_count);
            detail.append(" * ");
            push_decimal(&mut detail, head_dimension);
            return Err(shape_unsupported(detail));
        }
        if kv_heads.checked_mul(head_dimension) != Some(kv_model_dim) {
            let mut detail = "kv_head_count * head_dimension must equal k/v row width ".to_owned();
            push_decimal(&mut detail, kv_model_dim);
            detail.append(", got ");
            push_decimal(&mut detail, kv_heads);
            detail.append(" * ");
            push_decimal(&mut detail, head_dimension);
            return Err(shape_unsupported(detail));
        }
        proof {
            lemma_rank_two_count(q.shape@);
            assert(head_count * seq_len <= seq_len * q_model_dim) by (nonlinear_arith)
                requires
                    head_count * head_dimension == q_model_dim,
                    head_dimension > 0,
            ;
        }
        let causal_flag: i32 = if causal {
            1
        } else {
            0
        };
        Ok(
            KernelLaunch {
                function: KernelFunction::Attention,
                arguments: KernelArguments::Attention {
                    seq_len,
                    kv_seq_len,
                    head_count,
                    kv_head_count: kv_heads,
                    head_dimension,
                    q_model_dim,
                    kv_model_dim,
                    causal: causal_flag,
                    window: window_bits(window_size),
                    query_position_offset: kv_seq_len - seq_len,
                },
                config: grid(head_count * seq_len),
                seed: OutputSeed::Zeroed,
                elements: q.elements,
                shape: copy_shape(&q.shape),
            },
        )
    }
}

fn elementwise<S>(function: KernelFunction, input: &CudaDeviceBuffer<S>) -> (launch: KernelLaunch)
    ensures
        launch@ == elementwise_launch(function, input.shape@, input.elements as nat),
{
    let count = input.elements as u64;
    KernelLaunch {
        function,
        arguments: KernelArguments::Elementwise { count },
        config: grid(count),
        seed: OutputSeed::Zeroed,
        elements: input.elements,
        shape: copy_shape(&input.shape),
    }
}

fn row_stride<S>(
    input: &CudaDeviceBuffer<S>,
    weight: &CudaDeviceBuffer<S>,
    rows: u64,
    cols: u64,
) -> (stride: Option<u64>)
    requires
        input.shape@.len() > 0,
        cols == input.shape@.last(),
    ensures
        stride == crate::launch::weight_row_stride(input.shape@, weight.shape@, rows),
{
    if weight.shape.len() == 1 && weight.shape[0] == cols {
        assert(weight.shape@ =~= seq![cols]);
        return Some(0);
    }
    if weight.shape.len() == 2 && weight.shape[0] == 1 && weight.shape[1] == cols {
        assert(weight.shape@ =~= seq![1, cols]);
        return Some(0);
    }
    if shapes_equal(&weight.shape, &input.shape) {
        return Some(cols);
    }
    if weight.shape.len() == 2 && weight.shape[0] == rows && weight.shape[1] == cols {
        assert(weight.shape@ =~= seq![rows, cols]);
        return Some(cols);
    }
    None
}

fn window_bits(window_size: Option<u64>) -> (window: i64)
    ensures
        window == window_argument(window_size),
{
    match window_size {
        None => -1,
        Some(w) => if w < 0x8000_0000_0000_0000 {
            w as i64
        } else {
            (w - 0x8000_0000_0000_0000) as i64 + i64::MIN
        },
    }
}

/// The pairs that a rotary encoding rotates are at most half the elements of
/// the buffer.
proof fn lemma_rotated_pairs(rows: nat, cols: nat, head_count: nat, half: nat)
    requires
        head_count > 0,
        cols % head_count == 0,
        0 < half,
        2 * half <= cols / head_count,
        rows * cols <= u64::MAX,
    ensures
        0 <= rows * head_count <= rows * cols,
        0 <= rows * head_count * half <= rows * cols,
{
    let width = cols / head_count;
    vstd::arithmetic::div_mod::lemma_fundamental_div_mod(cols as int, head_count as int);
    assert(cols == head_count * width);
    assert(head_count <= cols && head_count * half <= cols) by (nonlinear_arith)
        requires
            cols == head_count * width,
            0 < half,
            2 * half <= width,
    ;
    assert(rows * head_count <= rows * cols) by (nonlinear_arith)
        requires
            head_count <= cols,
    ;
    assert(rows * head_count * half == rows * (head_count * half)) by (nonlinear_arith);
    assert(rows * (head_count * half) <= rows * cols) by (nonlinear_arith)
        requires
            head_count * half <= cols,
    ;
}

} // verus!
