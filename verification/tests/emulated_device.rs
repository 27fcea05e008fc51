//! The planned launches, performed by a device that lives in host memory.

use magnetar_provider_cuda::error::CudaError;
use magnetar_provider_cuda::executor::{
    AdmissionOutcome, AdmittedTensorWrite, CudaExecutor, Dispatch, TensorValue,
};
use magnetar_provider_cuda::invocation::{
    KernelInvocation, KernelResult, KernelResultStatus, OperatorAttributeValue, OutputResource,
};
use magnetar_provider_cuda::kernels::{CudaDeviceBuffer, CudaKernels};
use magnetar_provider_cuda::launch::{KernelArguments, KernelFunction, KernelLaunch, OutputSeed};
use magnetar_provider_cuda::memory::{
    MemoryAllocationClass, MemoryAllocationOwner, MemoryAllocationRequest, MemoryPlacement,
    TensorResidency,
};
use magnetar_provider_cuda::session::ProviderExecutionHandle;
use magnetar_provider_cuda::table::NameTable;
use magnetar_provider_cuda::tensor::HostTensor;

const TOLERANCE: f32 = 1e-3;

type Buffer = CudaDeviceBuffer<Vec<f32>>;

fn kernels() -> CudaKernels {
    CudaKernels::compile_and_load(Ok(()), Ok(())).unwrap()
}

fn tensor(shape: &[u64], data: &[f32]) -> HostTensor<f32> {
    HostTensor::new(shape.to_vec(), data.to_vec()).unwrap()
}

fn upload(kernels: &mut CudaKernels, tensor: &HostTensor<f32>) -> Buffer {
    kernels
        .upload(tensor, Ok(tensor.data.clone()))
        .expect("upload must succeed")
}

fn download(kernels: &mut CudaKernels, buffer: &Buffer) -> HostTensor<f32> {
    kernels
        .download(buffer, Ok(buffer.slice.clone()))
        .expect("download must succeed")
}

/// What the device does for one launch: each thread of the grid does one unit
/// of work, if there is one left for it.
fn perform(launch: &KernelLaunch, inputs: &[&Buffer]) -> (Vec<f32>, i32) {
    let mut out = match launch.seed {
        OutputSeed::Zeroed => vec![0.0; launch.elements],
        OutputSeed::CopyOfFirstInput => inputs[0].slice.clone(),
    };
    let mut flag: i32 = 0;
    let threads = launch.config.grid_dim.0 as u64 * launch.config.block_dim.0 as u64;
    assert_eq!(launch.config.block_dim, (1024, 1, 1));
    assert_eq!(launch.config.shared_mem_bytes, 0);
    for thread in 0..threads {
        let thread = thread as usize;
        match launch.arguments {
            KernelArguments::Elementwise { count } => {
                if thread < count as usize {
                    let x = inputs[0].slice[thread];
                    out[thread] = match launch.function {
                        KernelFunction::Add => x + inputs[1].slice[thread],
                        KernelFunction::Mul => x * inputs[1].slice[thread],
                        KernelFunction::Silu => x * (1.0 / (1.0 + (-x).exp())),
                        other => panic!("{other:?} is not elementwise"),
                    };
                }
            }
            KernelArguments::EmbeddingLookup { dim, num_ids, vocab } => {
                if thread < num_ids as usize {
                    let id = inputs[1].slice[thread];
                    if !(id >= 0.0) || id.fract() != 0.0 || id as u64 >= vocab {
                        flag = 1;
                    } else {
                        for col in 0..dim as usize {
                            out[thread * dim as usize + col] =
                                inputs[0].slice[id as usize * dim as usize + col];
                        }
                    }
                }
            }
            KernelArguments::RmsNorm {
                rows,
                cols,
                weight_row_stride,
                epsilon,
            } => {
                if thread < rows as usize {
                    let cols = cols as usize;
                    let row = &inputs[0].slice[thread * cols..(thread + 1) * cols];
                    let square: f32 = row.iter().map(|x| x * x).sum::<f32>() / cols as f32;
                    let inverse = 1.0 / (square + f32::from_bits(epsilon)).sqrt();
                    for col in 0..cols {
                        out[thread * cols + col] = row[col]
                            * inverse
                            * inputs[1].slice[thread * weight_row_stride as usize + col];
                    }
                }
            }
            KernelArguments::Rope {
                rows,
                cols,
                half,
                base,
                scale,
                dimension,
                position_offset,
                head_count,
            } => {
                let (rows, cols, half) = (rows as usize, cols as usize, half as usize);
                let head_count = head_count as usize;
                if thread < rows * head_count * half {
                    let row = thread / (head_count * half);
                    let head = thread / half % head_count;
                    let pair = thread % half;
                    let position =
                        (position_offset as usize + row) as f32 * f32::from_bits(scale);
                    let frequency =
                        f32::from_bits(base).powf(-2.0 * pair as f32 / dimension as f32);
                    let (sin, cos) = (position * frequency).sin_cos();
                    let at = row * cols + head * (cols / head_count) + 2 * pair;
                    let (even, odd) = (inputs[0].slice[at], inputs[0].slice[at + 1]);
                    out[at] = even * cos - odd * sin;
                    out[at + 1] = even * sin + odd * cos;
                }
            }
            KernelArguments::SoftmaxRows { rows, cols } => {
                if thread < rows as usize {
                    let cols = cols as usize;
                    let row = &inputs[0].slice[thread * cols..(thread + 1) * cols];
                    let max = row.iter().copied().fold(f32::NEG_INFINITY, f32::max);
                    if !max.is_finite() {
                        flag = 1;
                    } else {
                        let sum: f32 = row.iter().map(|x| (x - max).exp()).sum();
                        for col in 0..cols {
                            out[thread * cols + col] = (row[col] - max).exp() / sum;
                        }
                    }
                }
            }
            KernelArguments::Matmul {
                m,
                k,
                n,
                a_row_stride,
                a_inner_stride,
                b_inner_stride,
                b_col_stride,
            } => {
                if (thread as u64) < m * n {
                    let (i, j) = (thread as u64 / n, thread as u64 % n);
                    let mut sum = 0.0;
                    for t in 0..k {
                        sum += inputs[0].slice[(i * a_row_stride + t * a_inner_stride) as usize]
                            * inputs[1].slice[(t * b_inner_stride + j * b_col_stride) as usize];
                    }
                    out[thread] = sum;
                }
            }
            KernelArguments::Attention {
                seq_len,
                kv_seq_len,
                head_count,
                kv_head_count,
                head_dimension,
                q_model_dim,
                kv_model_dim,
                causal,
                window,
                query_position_offset,
            } => {
                if (thread as u64) < head_count * seq_len {
                    let head = thread as u64 / seq_len;
                    let s = thread as u64 % seq_len;
                    let group = head / (head_count / kv_head_count);
                    let position = s + query_position_offset;
                    let admitted: Vec<u64> = (0..kv_seq_len)
                        .filter(|p| causal == 0 || *p <= position)
                        .filter(|p| window < 0 || *p as i64 > position as i64 - window)
                        .collect();
                    let scores: Vec<f32> = admitted
                        .iter()
                        .map(|p| {
                            (0..head_dimension)
                                .map(|d| {
                                    inputs[0].slice
                                        [(s * q_model_dim + head * head_dimension + d) as usize]
                                        * inputs[1].slice[(p * kv_model_dim
                                            + group * head_dimension
                                            + d)
                                            as usize]
                                })
                                .sum::<f32>()
                                / (head_dimension as f32).sqrt()
                        })
                        .collect();
                    let max = scores.iter().copied().fold(f32::NEG_INFINITY, f32::max);
                    let sum: f32 = scores.iter().map(|x| (x - max).exp()).sum();
                    for d in 0..head_dimension {
                        out[(s * q_model_dim + head * head_dimension + d) as usize] = admitted
                            .iter()
                            .zip(&scores)
                            .map(|(p, score)| {
                                (score - max).exp() / sum
                                    * inputs[2].slice
                                        [(p * kv_model_dim + group * head_dimension + d) as usize]
                            })
                            .sum();
                    }
                }
            }
        }
    }
    (out, flag)
}

fn run(launch: Result<KernelLaunch, CudaError>, inputs: &[&Buffer]) -> Result<Buffer, CudaError> {
    let launch = launch?;
    let launched = perform(&launch, inputs);
    launch.complete(Ok(launched))
}

fn assert_close(actual: &HostTensor<f32>, shape: &[u64], expected: &[f32]) {
    assert_eq!(actual.shape, shape);
    assert_eq!(actual.data.len(), expected.len());
    for (index, (a, e)) in actual.data.iter().zip(expected).enumerate() {
        assert!((a - e).abs() <= TOLERANCE, "element {index}: {a} vs {e}");
    }
}

#[test]
fn add_matches_reference_cpu() {
    let mut kernels = kernels();
    let a = tensor(&[2, 3], &[1.0, 2.0, 3.0, 4.0, 5.0, 6.0]);
    let b = tensor(&[2, 3], &[6.0, 5.0, 4.0, 3.0, 2.0, 1.0]);
    let (a, b) = (upload(&mut kernels, &a), upload(&mut kernels, &b));
    let actual = run(kernels.add(&a, &b), &[&a, &b]).unwrap();
    assert_close(&download(&mut kernels, &actual), &[2, 3], &[7.0; 6]);
    let actual = run(kernels.residual_add(&a, &b), &[&a, &b]).unwrap();
    assert_close(&download(&mut kernels, &actual), &[2, 3], &[7.0; 6]);
}

#[test]
fn mul_matches_reference_cpu() {
    let mut kernels = kernels();
    let a = tensor(&[2, 3], &[1.0, 2.0, 3.0, 4.0, 5.0, 6.0]);
    let b = tensor(&[2, 3], &[6.0, 5.0, 4.0, 3.0, 2.0, 1.0]);
    let (a, b) = (upload(&mut kernels, &a), upload(&mut kernels, &b));
    let actual = run(kernels.mul(&a, &b), &[&a, &b]).unwrap();
    assert_close(
        &download(&mut kernels, &actual),
        &[2, 3],
        &[6.0, 10.0, 12.0, 12.0, 10.0, 6.0],
    );
}

#[test]
fn silu_matches_reference_cpu() {
    let mut kernels = kernels();
    let data = [-2.0, -0.5, 0.0, 0.5, 1.0, 2.0];
    let input = upload(&mut kernels, &tensor(&[2, 3], &data));
    let actual = run(kernels.silu(&input), &[&input]).unwrap();
    assert_close(
        &download(&mut kernels, &actual),
        &[2, 3],
        &[-0.238406, -0.188770, 0.0, 0.311230, 0.731059, 1.761594],
    );
}

#[test]
fn softmax_rows_matches_reference_cpu() {
    let mut kernels = kernels();
    let input = upload(&mut kernels, &tensor(&[2, 3], &[1.0, 2.0, 3.0, -1.0, 0.0, 1.0]));
    let actual = run(kernels.softmax_rows(&input), &[&input]).unwrap();
    let row = [0.090031, 0.244728, 0.665241];
    assert_close(
        &download(&mut kernels, &actual),
        &[2, 3],
        &[row[0], row[1], row[2], row[0], row[1], row[2]],
    );
}

#[test]
fn softmax_rejects_a_row_without_a_finite_entry() {
    let mut kernels = kernels();
    let masked = f32::NEG_INFINITY;
    let input = upload(&mut kernels, &tensor(&[2, 2], &[1.0, 2.0, masked, masked]));
    let error = match run(kernels.softmax_rows(&input), &[&input]) {
        Ok(_) => panic!("a masked row has no softmax"),
        Err(error) => error,
    };
    assert_eq!(
        error.to_text(),
        "ExecutionFailed: softmax has a row with no finite entry to normalize"
    );
}

#[test]
fn embedding_lookup_matches_reference_cpu() {
    let mut kernels = kernels();
    let table = tensor(
        &[4, 3],
        &[0.0, 0.1, 0.2, 1.0, 1.1, 1.2, 2.0, 2.1, 2.2, 3.0, 3.1, 3.2],
    );
    let ids = tensor(&[3], &[0.0, 2.0, 1.0]);
    let (table, ids) = (upload(&mut kernels, &table), upload(&mut kernels, &ids));
    assert!(kernels.embedding_lookup_fits(&table, &ids));
    let actual = run(kernels.embedding_lookup(&table, &ids), &[&table, &ids]).unwrap();
    assert_close(
        &download(&mut kernels, &actual),
        &[3, 3],
        &[0.0, 0.1, 0.2, 2.0, 2.1, 2.2, 1.0, 1.1, 1.2],
    );
}

#[test]
fn embedding_lookup_rejects_out_of_range_id_before_dispatch() {
    let mut kernels = kernels();
    let table = upload(&mut kernels, &tensor(&[2, 2], &[0.0, 0.0, 0.0, 0.0]));
    let ids = upload(&mut kernels, &tensor(&[1], &[5.0]));
    let error = match run(kernels.embedding_lookup(&table, &ids), &[&table, &ids]) {
        Ok(_) => panic!("id 5 is not in a table of two rows"),
        Err(error) => error,
    };
    assert_eq!(
        error.to_text(),
        "ShapeUnsupported: embedding lookup id is not a valid in-range non-negative integer"
    );
}

#[test]
fn rmsnorm_matches_reference_cpu() {
    let mut kernels = kernels();
    let input = upload(&mut kernels, &tensor(&[2, 3], &[1.0, 2.0, 3.0, -1.0, 0.5, 2.0]));
    let weight = upload(&mut kernels, &tensor(&[3], &[1.0, 0.5, 2.0]));
    let epsilon = 1e-5f32.to_bits();
    let actual = run(kernels.rmsnorm(&input, &weight, epsilon), &[&input, &weight]).unwrap();
    assert_close(
        &download(&mut kernels, &actual),
        &[2, 3],
        &[0.462910, 0.462910, 2.777458, -0.755928, 0.188982, 3.023712],
    );
}

#[test]
fn rope_matches_reference_cpu() {
    let mut kernels = kernels();
    let data = [1.0, 0.0, 0.0, 1.0, 0.5, 0.5, -0.5, -0.5];
    let input = upload(&mut kernels, &tensor(&[2, 4], &data));
    let (base, scale) = (10000.0f32.to_bits(), 1.0f32.to_bits());
    let actual = run(kernels.rope(&input, base, scale, 4, 0, 1), &[&input]).unwrap();
    assert_close(
        &download(&mut kernels, &actual),
        &[2, 4],
        &[1.0, 0.0, 0.0, 1.0, -0.150584, 0.690887, -0.494975, -0.504975],
    );
}

fn rotated(data: &[f32], cols: usize, dimension: usize, offset: usize, heads: usize) -> Vec<f32> {
    let width = cols / heads;
    let mut out = data.to_vec();
    for row in 0..data.len() / cols {
        for column in 0..cols {
            let within = column % width;
            if within < dimension {
                let pair = within / 2;
                let angle = (offset + row) as f32
                    * 10000.0f32.powf(-2.0 * pair as f32 / dimension as f32);
                let first = row * cols + column - within % 2;
                let (x, y) = (data[first], data[first + 1]);
                out[row * cols + column] = if within % 2 == 0 {
                    x * angle.cos() - y * angle.sin()
                } else {
                    x * angle.sin() + y * angle.cos()
                };
            }
        }
    }
    out
}

fn rope_of(data: &[f32], dimension: u64, offset: u64, heads: u64) -> HostTensor<f32> {
    let mut kernels = kernels();
    let input = upload(&mut kernels, &tensor(&[2, 8], data));
    let (base, scale) = (10000.0f32.to_bits(), 1.0f32.to_bits());
    let launch = kernels.rope(&input, base, scale, dimension, offset, heads);
    let actual = run(launch, &[&input]).unwrap();
    download(&mut kernels, &actual)
}

#[test]
fn rope_multi_head_matches_reference_cpu() {
    let data: Vec<f32> = (0..16).map(|i| i as f32 * 0.25 - 2.0).collect();
    assert_close(&rope_of(&data, 2, 3, 4), &[2, 8], &rotated(&data, 8, 2, 3, 4));
}

#[test]
fn rope_partial_rotation_matches_reference_cpu() {
    let data: Vec<f32> = (0..16).map(|i| i as f32 * 0.1 - 0.8).collect();
    let actual = rope_of(&data, 2, 0, 2);
    assert_close(&actual, &[2, 8], &rotated(&data, 8, 2, 0, 2));
    for (index, value) in data.iter().enumerate() {
        if index % 4 >= 2 {
            assert_eq!(actual.data[index], *value, "column {index} is not rotated");
        }
    }
}

#[test]
fn rope_gqa_shaped_head_count_matches_reference_cpu() {
    let data: Vec<f32> = (0..16).map(|i| i as f32 * 0.05).collect();
    assert_close(&rope_of(&data, 4, 1, 2), &[2, 8], &rotated(&data, 8, 4, 1, 2));
}

#[test]
fn matmul_matches_reference_cpu() {
    let mut kernels = kernels();
    let a = upload(&mut kernels, &tensor(&[2, 3], &[1.0, 2.0, 3.0, 4.0, 5.0, 6.0]));
    let b = upload(&mut kernels, &tensor(&[3, 2], &[1.0, 0.0, 0.0, 1.0, 1.0, 1.0]));
    assert!(kernels.matmul_fits(&a, &b, false, false));
    let actual = run(kernels.matmul(&a, &b, false, false), &[&a, &b]).unwrap();
    assert_close(&download(&mut kernels, &actual), &[2, 2], &[4.0, 5.0, 10.0, 11.0]);
}

#[test]
fn matmul_transposed_matches_reference_cpu() {
    let mut kernels = kernels();
    let a = upload(&mut kernels, &tensor(&[3, 2], &[1.0, 4.0, 2.0, 5.0, 3.0, 6.0]));
    let b = upload(&mut kernels, &tensor(&[3, 2], &[1.0, 0.0, 0.0, 1.0, 1.0, 1.0]));
    let actual = run(kernels.matmul(&a, &b, true, false), &[&a, &b]).unwrap();
    assert_close(&download(&mut kernels, &actual), &[2, 2], &[4.0, 5.0, 10.0, 11.0]);
    let b = upload(&mut kernels, &tensor(&[2, 3], &[1.0, 0.0, 1.0, 0.0, 1.0, 1.0]));
    let actual = run(kernels.matmul(&a, &b, true, true), &[&a, &b]).unwrap();
    assert_close(&download(&mut kernels, &actual), &[2, 2], &[4.0, 5.0, 10.0, 11.0]);
}

#[test]
fn causal_attention_matches_reference_cpu() {
    let mut kernels = kernels();
    let q = upload(&mut kernels, &tensor(&[3, 2], &[1.0, 0.0, 0.0, 1.0, 1.0, 1.0]));
    let k = upload(&mut kernels, &tensor(&[3, 2], &[1.0, 0.0, 0.0, 1.0, 0.5, 0.5]));
    let v = upload(&mut kernels, &tensor(&[3, 2], &[1.0, 2.0, 3.0, 4.0, 5.0, 6.0]));
    let launch = kernels.attention(&q, &k, &v, 1, 2, None, None, true);
    let actual = run(launch, &[&q, &k, &v]).unwrap();
    // The second row weighs two keys with scores 0 and 1/sqrt(2); the third
    // weighs three keys with one score.
    let second = 0.669761;
    assert_close(
        &download(&mut kernels, &actual),
        &[3, 2],
        &[1.0, 2.0, 1.0 + 2.0 * second, 2.0 + 2.0 * second, 3.0, 4.0],
    );
}

#[test]
fn grouped_query_sliding_window_attention_matches_reference_cpu() {
    let mut kernels = kernels();
    let q_data = [
        1.0f32, 0.0, 0.5, 0.5, 0.0, 1.0, 0.5, -0.5, 1.0, 1.0, -0.5, 0.5, -1.0, 0.0, 0.5, 0.5,
    ];
    let k_data = [1.0f32, 0.0, 0.0, 1.0, 0.5, 0.5, -0.5, 0.5];
    let v_data = [1.0f32, 2.0, 3.0, 4.0, 5.0, 6.0, 7.0, 8.0];
    let q = upload(&mut kernels, &tensor(&[4, 4], &q_data));
    let k = upload(&mut kernels, &tensor(&[4, 2], &k_data));
    let v = upload(&mut kernels, &tensor(&[4, 2], &v_data));
    let launch = kernels.attention(&q, &k, &v, 2, 2, Some(1), Some(2), true);
    let actual = run(launch, &[&q, &k, &v]).unwrap();
    // Each query weighs its own key and the one before it.
    let mut expected = vec![0.0f32; 16];
    for s in 0..4usize {
        for head in 0..2usize {
            let first = s.saturating_sub(1);
            let score = |p: usize| {
                (0..2)
                    .map(|d| q_data[s * 4 + head * 2 + d] * k_data[p * 2 + d])
                    .sum::<f32>()
                    / 2.0f32.sqrt()
            };
            let weights: Vec<f32> = (first..=s).map(|p| score(p).exp()).collect();
            let sum: f32 = weights.iter().sum();
            for d in 0..2 {
                expected[s * 4 + head * 2 + d] = (first..=s)
                    .map(|p| weights[p - first] / sum * v_data[p * 2 + d])
                    .sum();
            }
        }
    }
    assert_close(&download(&mut kernels, &actual), &[4, 4], &expected);
}

#[test]
fn back_to_back_kernels_do_not_round_trip_through_host() {
    let mut kernels = kernels();
    let a = tensor(&[2, 2], &[1.0, 2.0, 3.0, 4.0]);
    let b = tensor(&[2, 2], &[5.0, 6.0, 7.0, 8.0]);
    let a = upload(&mut kernels, &a);
    let b = upload(&mut kernels, &b);
    let uploads_before = kernels.upload_count();
    let downloads_before = kernels.download_count();
    assert_eq!((uploads_before, downloads_before), (2, 0));

    let sum = run(kernels.add(&a, &b), &[&a, &b]).unwrap();
    let product = run(kernels.mul(&sum, &b), &[&sum, &b]).unwrap();
    assert_eq!(kernels.upload_count(), uploads_before);
    assert_eq!(kernels.download_count(), downloads_before);

    let product = download(&mut kernels, &product);
    assert_eq!(kernels.download_count(), downloads_before + 1);
    assert_close(&product, &[2, 2], &[30.0, 48.0, 70.0, 96.0]);
}

/// The affinity of a resource: the Provider and the device that it is bound to.
#[derive(Clone, Copy, Debug, PartialEq, Eq)]
struct Affinity {
    provider: &'static str,
    device: &'static str,
}

const AFFINITY: Affinity = Affinity { provider: "magnetar:provider/cuda", device: "cuda:0" };

/// A memory manager that grants all it is asked for.
struct Ledger {
    next: u64,
    active: Vec<(u64, MemoryAllocationRequest)>,
    resident: Vec<TensorResidency<Affinity>>,
}

impl Ledger {
    fn new() -> Ledger {
        Ledger { next: 0, active: Vec::new(), resident: Vec::new() }
    }

    fn allocate(&mut self, request: MemoryAllocationRequest) -> u64 {
        self.next += 1;
        self.active.push((self.next, request));
        self.next
    }

    fn granted(&self, allocation: u64) -> Option<&MemoryAllocationRequest> {
        self.active.iter().find(|(active, _)| *active == allocation).map(|(_, request)| request)
    }

    fn residency(&self, tensor: &str) -> Option<&TensorResidency<Affinity>> {
        self.resident.iter().find(|residency| residency.tensor == tensor)
    }

    fn record(&mut self, residency: TensorResidency<Affinity>) {
        self.resident.retain(|kept| kept.tensor != residency.tensor);
        self.resident.push(residency);
    }

    fn release(&mut self, allocation: u64) {
        let at = self
            .active
            .iter()
            .position(|(active, _)| *active == allocation)
            .expect("only what is active is released");
        self.active.remove(at);
    }
}

fn stage_weight(
    executor: &mut CudaExecutor<Vec<f32>>,
    ledger: &mut Ledger,
    id: &str,
    tensor: HostTensor<f32>,
) {
    let request = executor.tensor_admission(
        &tensor,
        MemoryAllocationClass::Tensor,
        MemoryAllocationOwner::Runtime,
    );
    assert_eq!(request.size_bytes, tensor.data.len() as u64 * 4);
    let allocation = ledger.allocate(request);
    let copied = Ok(tensor.data.clone());
    let write = executor.write_tensor_value_admitted(
        id.to_string(),
        AdmittedTensorWrite::Host { tensor, allocation, copied },
    );
    write.result.expect("staging a small weight must succeed");
    if let Some(allocation) = write.release {
        ledger.release(allocation);
    }
}

fn invocation(
    step: &str,
    kernel: &str,
    inputs: &[&str],
    output: &str,
    byte_size: u64,
    attributes: Vec<(&str, OperatorAttributeValue)>,
) -> KernelInvocation<Affinity> {
    let mut table = NameTable::new();
    for (name, value) in attributes {
        table.insert(name.to_string(), value);
    }
    KernelInvocation {
        id: format!("hot-path-{step}-invocation"),
        kernel_name: kernel.to_string(),
        kernel_key: format!("magnetar:provider/cuda:{kernel}@1.0.0"),
        inputs: inputs.iter().map(|id| id.to_string()).collect(),
        outputs: vec![OutputResource {
            id: output.to_string(),
            byte_size: Ok(byte_size),
            affinity: AFFINITY,
        }],
        deadline_millis: None,
        attributes: table,
    }
}

fn execute(
    executor: &mut CudaExecutor<Vec<f32>>,
    ledger: &mut Ledger,
    invocation: &KernelInvocation<Affinity>,
) -> KernelResult {
    let resident = invocation
        .outputs
        .iter()
        .map(|output| ledger.residency(&output.id).is_some())
        .collect();
    let plan = executor.execute_invocation_with_memory_manager(invocation, &resident);
    let mut granted = Vec::new();
    for request in &plan.requests {
        assert_eq!(request.affinity, AFFINITY);
        granted.push(ledger.allocate(request.memory.clone()));
    }
    let admitted = match executor.conclude_admission(invocation, &plan, granted, None) {
        AdmissionOutcome::Admitted(admitted) => admitted,
        AdmissionOutcome::Refused { result, release } => {
            for allocation in release {
                ledger.release(allocation);
            }
            return result;
        }
    };
    assert!(executor.can_execute(invocation, &Ok(())));
    let result = match executor.execute_invocation(invocation, Ok(())) {
        Dispatch::Finished(result) => result,
        Dispatch::Launch(launch) => {
            let launched = {
                let inputs = executor.launch_inputs(invocation, &launch);
                perform(&launch, &inputs)
            };
            executor.finish_invocation(invocation, launch, Ok(launched))
        }
    };
    let settled = executor.settle_invocation(&result, &admitted, &plan.preadmitted);
    for residency in settled.residencies {
        ledger.record(residency);
    }
    for allocation in settled.release {
        ledger.release(allocation);
    }
    result
}

fn dispatch(
    executor: &mut CudaExecutor<Vec<f32>>,
    ledger: &mut Ledger,
    invocation: &KernelInvocation<Affinity>,
) -> TensorValue<f32> {
    // The caller admits the output beforehand.
    let output = invocation.outputs[0].id.clone();
    let placement = || MemoryPlacement::ProviderOwnedOpaque("magnetar:provider/cuda".to_string());
    let allocation = ledger.allocate(MemoryAllocationRequest {
        class: MemoryAllocationClass::Tensor,
        size_bytes: 24,
        placement: placement(),
        owner: MemoryAllocationOwner::Runtime,
    });
    ledger.record(TensorResidency {
        tensor: output.clone(),
        placement: placement(),
        affinity: AFFINITY,
        allocation,
    });
    let result = execute(executor, ledger, invocation);
    let handle: ProviderExecutionHandle = executor.submit_kernel_invocation(invocation, result);
    let result = executor.complete_kernel_invocation(&handle).unwrap();
    assert_eq!(result.status, KernelResultStatus::Succeeded);
    executor.read_tensor_value(&output).expect("an output must be readable")
}

#[test]
fn weight_matmul_rmsnorm_rope_projection_chain_runs_device_resident_on_real_hardware() {
    let mut executor = CudaExecutor::new(kernels(), "cuda:0".to_string());
    let mut ledger = Ledger::new();

    let activation = [1.0f32, 0.5, -0.5, 2.0, 0.25, -1.0, 1.5, 0.75];
    let projection: Vec<f32> = (0..16).map(|i| (i as f32) * 0.05 - 0.4).collect();
    let output_projection: Vec<f32> = (0..12).map(|i| (i as f32) * 0.1 - 0.5).collect();
    for (id, shape, data) in [
        ("hot-path.activation", vec![2, 4], activation.to_vec()),
        ("hot-path.weight.matmul", vec![4, 4], projection.clone()),
        ("hot-path.weight.rmsnorm", vec![4], vec![1.0; 4]),
        ("hot-path.weight.output-projection", vec![4, 3], output_projection.clone()),
    ] {
        stage_weight(&mut executor, &mut ledger, id, tensor(&shape, &data));
    }
    assert_eq!(executor.upload_count(), 4);

    let steps = [
        invocation(
            "matmul",
            "matmul",
            &["hot-path.activation", "hot-path.weight.matmul"],
            "hot-path.matmul.out",
            32,
            vec![],
        ),
        invocation(
            "rmsnorm",
            "rmsnorm",
            &["hot-path.matmul.out", "hot-path.weight.rmsnorm"],
            "hot-path.rmsnorm.out",
            32,
            vec![("epsilon", OperatorAttributeValue::Float(1e-6f64.to_bits()))],
        ),
        invocation(
            "rope",
            "rope",
            &["hot-path.rmsnorm.out"],
            "hot-path.rope.out",
            32,
            vec![
                ("base", OperatorAttributeValue::Float(10000.0f64.to_bits())),
                ("dimension", OperatorAttributeValue::Integer(4)),
            ],
        ),
        invocation(
            "projection",
            "matmul",
            &["hot-path.rope.out", "hot-path.weight.output-projection"],
            "hot-path.projection.out",
            24,
            vec![],
        ),
    ];
    for step in &steps {
        let value = dispatch(&mut executor, &mut ledger, step);
        assert!(matches!(value, TensorValue::Opaque), "{} stays on the device", step.id);
    }
    assert_eq!(executor.upload_count(), 4);
    assert_eq!(executor.download_count(), 0);

    let last = "hot-path.projection.out".to_string();
    let copied = Ok(executor.resident(&last).unwrap().slice.clone());
    let actual = executor.read_tensor(&last, copied).unwrap();
    assert_eq!(executor.download_count(), 1);

    let product = |a: &[f32], b: &[f32], n: usize| -> Vec<f32> {
        (0..2 * n)
            .map(|at| (0..4).map(|t| a[at / n * 4 + t] * b[t * n + at % n]).sum())
            .collect()
    };
    let multiplied = product(&activation, &projection, 4);
    let normalized: Vec<f32> = (0..8)
        .map(|at| {
            let row = &multiplied[at / 4 * 4..at / 4 * 4 + 4];
            let square: f32 = row.iter().map(|x| x * x).sum::<f32>() / 4.0;
            multiplied[at] / (square + 1e-6).sqrt()
        })
        .collect();
    let expected = product(&rotated(&normalized, 4, 4, 0, 1), &output_projection, 3);
    assert_close(&actual, &[2, 3], &expected);

    for id in ["matmul", "rmsnorm", "rope", "projection"] {
        let residency = ledger.residency(&format!("hot-path.{id}.out")).unwrap();
        assert_eq!(residency.affinity.provider, "magnetar:provider/cuda");
        assert_eq!(
            residency.placement,
            MemoryPlacement::ProviderOwnedOpaque("magnetar:provider/cuda".to_string())
        );
        assert!(ledger.granted(residency.allocation).is_some());
    }
    assert_eq!(
        ledger.active.len(),
        8,
        "the four staged tensors and the four outputs are what is active"
    );
}

#[test]
fn outputs_under_one_id_keep_one_allocation() {
    let mut executor = CudaExecutor::new(kernels(), "cuda:0".to_string());
    let mut ledger = Ledger::new();
    stage_weight(&mut executor, &mut ledger, "x", tensor(&[2], &[1.0, 2.0]));
    for step in 0..20u32 {
        let add = invocation(&step.to_string(), "add", &["x", "x"], "x.out", 8, vec![]);
        let result = execute(&mut executor, &mut ledger, &add);
        assert_eq!(result.status, KernelResultStatus::Succeeded);
        assert_eq!(ledger.active.len(), 2, "step {step}");
        assert_eq!(executor.resident_count(), 2);
        let residency = ledger.residency("x.out").expect("an output has its record");
        assert_eq!(residency.placement, MemoryPlacement::Device("cuda:0".to_string()));
        assert_eq!(residency.affinity, AFFINITY);
        assert_eq!(
            ledger.granted(residency.allocation),
            Some(&MemoryAllocationRequest {
                class: MemoryAllocationClass::Tensor,
                size_bytes: 8,
                placement: MemoryPlacement::Device("cuda:0".to_string()),
                owner: MemoryAllocationOwner::Provider("magnetar:provider/cuda".to_string()),
            })
        );
    }
    let failing = invocation("failing", "add", &["x", "missing"], "x.out", 8, vec![]);
    let result = execute(&mut executor, &mut ledger, &failing);
    assert_eq!(result.status, KernelResultStatus::Failed);
    assert_eq!(ledger.active.len(), 2, "what a failed invocation was granted is released");
    let released = executor.release_admitted_tensor(&"x.out".to_string());
    assert!(released.present);
    ledger.release(released.release.unwrap());
    assert_eq!(ledger.active.len(), 1);
}
