use magnetar_provider_cuda::error::{CudaError, CudaErrorCode};
use magnetar_provider_cuda::kernels::{CudaDeviceBuffer, CudaKernels};
use magnetar_provider_cuda::launch::{
    KernelArguments, KernelFunction, KernelLaunch, OutputSeed,
};
use magnetar_provider_cuda::tensor::HostTensor;

fn kernels() -> CudaKernels {
    CudaKernels::compile_and_load(Ok(()), Ok(())).unwrap()
}

fn buffer(shape: &[u64]) -> CudaDeviceBuffer<()> {
    CudaDeviceBuffer {
        slice: (),
        elements: shape.iter().product::<u64>() as usize,
        shape: shape.to_vec(),
    }
}

fn rejection(launch: Result<KernelLaunch, CudaError>) -> String {
    match launch {
        Ok(launch) => panic!("{:?} was planned", launch.function),
        Err(error) => {
            assert_eq!(error.code, CudaErrorCode::ShapeUnsupported);
            error.detail
        }
    }
}

fn single(value: f32) -> u32 {
    value.to_bits()
}

#[test]
fn elementwise_kernels_take_one_shape() {
    let kernels = kernels();
    for launch in [
        kernels.add(&buffer(&[2, 3]), &buffer(&[3, 2])),
        kernels.mul(&buffer(&[2, 3]), &buffer(&[3, 2])),
        kernels.residual_add(&buffer(&[2, 3]), &buffer(&[3, 2])),
    ] {
        assert_eq!(rejection(launch), "shape mismatch: [2, 3] vs [3, 2]");
    }
    assert_eq!(
        rejection(kernels.add(&buffer(&[]), &buffer(&[1]))),
        "shape mismatch: [] vs [1]"
    );
    let launch = kernels.silu(&buffer(&[5])).unwrap();
    assert_eq!(launch.function, KernelFunction::Silu);
    assert_eq!(launch.arguments, KernelArguments::Elementwise { count: 5 });
    assert_eq!(launch.seed, OutputSeed::Zeroed);
    assert_eq!((launch.elements, launch.shape), (5, vec![5]));
}

#[test]
fn the_grid_covers_the_work_in_blocks_of_1024() {
    let kernels = kernels();
    for (elements, blocks) in [
        (0u64, 0u32),
        (1, 1),
        (1024, 1),
        (1025, 2),
        (2048, 2),
        (0xFFFF_FFFF, 0x40_0000),
        (0x1_0000_0000, 0),
        (0x1_0000_0001, 1),
    ] {
        let config = kernels.silu(&buffer(&[elements])).unwrap().config;
        assert_eq!(config.grid_dim, (blocks, 1, 1), "{elements} elements");
        assert_eq!(config.block_dim, (1024, 1, 1));
        assert_eq!(config.shared_mem_bytes, 0);
    }
}

#[test]
fn functions_have_their_symbols_and_flags() {
    for (function, symbol, inputs, flagged) in [
        (KernelFunction::Add, "add_kernel", 2, false),
        (KernelFunction::Mul, "mul_kernel", 2, false),
        (KernelFunction::Silu, "silu_kernel", 1, false),
        (KernelFunction::EmbeddingLookup, "embedding_lookup_kernel", 2, true),
        (KernelFunction::RmsNorm, "rmsnorm_kernel", 2, false),
        (KernelFunction::Rope, "rope_kernel", 1, false),
        (KernelFunction::SoftmaxRows, "softmax_rows_kernel", 1, true),
        (KernelFunction::Matmul, "matmul_kernel", 2, false),
        (KernelFunction::Attention, "attention_kernel", 3, false),
    ] {
        assert_eq!(function.input_count(), inputs);
        assert_eq!(function.symbol(), symbol);
        assert_eq!(function.raises_flag(), flagged);
    }
}

#[test]
fn a_flag_counts_only_where_the_function_has_one() {
    let kernels = kernels();
    let output = kernels.silu(&buffer(&[2])).unwrap().complete(Ok(("out", 1))).unwrap();
    assert_eq!((output.slice, output.len(), output.is_empty()), ("out", 2, false));
    let softmax = || kernels.softmax_rows(&buffer(&[2, 2])).unwrap();
    assert_eq!(softmax().complete(Ok(("out", 0))).unwrap().shape, vec![2, 2]);
    let error = softmax().complete(Ok(("out", -1))).map(|_| ()).unwrap_err();
    assert_eq!(error.code, CudaErrorCode::ExecutionFailed);
    let failure = CudaError::of(CudaErrorCode::OutOfDeviceMemory, "full");
    let error = softmax().complete::<()>(Err(failure)).map(|_| ()).unwrap_err();
    assert_eq!(error.to_text(), "OutOfDeviceMemory: full");
}

#[test]
fn matrices_have_two_dimensions() {
    let kernels = kernels();
    let flat = buffer(&[4]);
    let matrix = buffer(&[2, 2]);
    let expected = "expected rank-2 tensor, got shape [4]";
    assert_eq!(rejection(kernels.softmax_rows(&flat)), expected);
    assert_eq!(rejection(kernels.matmul(&flat, &matrix, false, false)), expected);
    assert_eq!(rejection(kernels.matmul(&matrix, &flat, false, false)), expected);
    assert_eq!(rejection(kernels.embedding_lookup(&flat, &matrix)), expected);
    assert_eq!(
        rejection(kernels.rope(&flat, single(1.0), single(1.0), 2, 0, 1)),
        expected
    );
    assert_eq!(
        rejection(kernels.attention(&flat, &matrix, &matrix, 1, 2, None, None, false)),
        expected
    );
    assert_eq!(
        rejection(kernels.attention(&matrix, &flat, &flat, 1, 2, None, None, false)),
        expected
    );
}

#[test]
fn embedding_lookup_plans_a_row_for_each_id() {
    let kernels = kernels();
    let launch = kernels.embedding_lookup(&buffer(&[7, 3]), &buffer(&[2, 2])).unwrap();
    assert_eq!(
        launch.arguments,
        KernelArguments::EmbeddingLookup { dim: 3, num_ids: 4, vocab: 7 }
    );
    assert_eq!((launch.elements, launch.shape), (12, vec![4, 3]));
    let wide = buffer(&[0, u64::MAX]);
    assert!(!kernels.embedding_lookup_fits(&wide, &buffer(&[2])));
    assert!(kernels.embedding_lookup_fits(&wide, &buffer(&[0])));
    assert!(kernels.embedding_lookup_fits(&buffer(&[4]), &buffer(&[2])));
}

#[test]
fn rmsnorm_takes_weights_for_a_row_or_for_all() {
    let kernels = kernels();
    let input = buffer(&[2, 3]);
    let epsilon = single(1e-5);
    for (weight, stride) in [
        (vec![3], 0),
        (vec![1, 3], 0),
        (vec![2, 3], 3),
    ] {
        let launch = kernels.rmsnorm(&input, &buffer(&weight), epsilon).unwrap();
        assert_eq!(
            launch.arguments,
            KernelArguments::RmsNorm { rows: 2, cols: 3, weight_row_stride: stride, epsilon }
        );
        assert_eq!(launch.config.grid_dim.0, 1);
        assert_eq!((launch.elements, launch.shape), (6, vec![2, 3]));
    }
    let cube = buffer(&[2, 2, 3]);
    for weight in [vec![2, 2, 3], vec![4, 3]] {
        let launch = kernels.rmsnorm(&cube, &buffer(&weight), epsilon).unwrap();
        assert_eq!(
            launch.arguments,
            KernelArguments::RmsNorm { rows: 4, cols: 3, weight_row_stride: 3, epsilon }
        );
    }
    assert_eq!(
        rejection(kernels.rmsnorm(&input, &buffer(&[2]), epsilon)),
        "RMSNorm weight shape must be [3], [1, 3], input shape [2, 3], or [2, 3], got [2]"
    );
    assert_eq!(
        rejection(kernels.rmsnorm(&buffer(&[]), &buffer(&[1]), epsilon)),
        "RMSNorm expects at least one dimension"
    );
    assert_eq!(
        rejection(kernels.rmsnorm(&buffer(&[2, 0]), &buffer(&[0]), epsilon)),
        "RMSNorm data length 0 is not divisible by hidden dimension 0"
    );
    for bad in [0.0, -0.0, -1e-5, f32::NEG_INFINITY] {
        assert_eq!(
            rejection(kernels.rmsnorm(&input, &buffer(&[3]), single(bad))),
            "RMSNorm epsilon must be positive"
        );
    }
    // A NaN is not at most zero, and so it is not turned away here.
    for odd in [f32::NAN, f32::INFINITY, f32::MIN_POSITIVE] {
        assert!(kernels.rmsnorm(&input, &buffer(&[3]), single(odd)).is_ok());
    }
}

#[test]
fn rope_rotates_pairs_within_heads() {
    let kernels = kernels();
    let input = buffer(&[3, 8]);
    let (base, scale) = (single(10000.0), single(0.5));
    let launch = kernels.rope(&input, base, scale, 2, 7, 4).unwrap();
    assert_eq!(
        launch.arguments,
        KernelArguments::Rope {
            rows: 3,
            cols: 8,
            half: 1,
            base,
            scale,
            dimension: 2,
            position_offset: 7,
            head_count: 4,
        }
    );
    assert_eq!(launch.seed, OutputSeed::CopyOfFirstInput);
    assert_eq!((launch.elements, launch.shape), (24, vec![3, 8]));
    for heads in [0, 3, 16] {
        assert_eq!(
            rejection(kernels.rope(&input, base, scale, 2, 0, heads)),
            format!("RoPE head_count {heads} must be positive and evenly divide the row width 8")
        );
    }
    for dimension in [0, 3, 6] {
        assert_eq!(
            rejection(kernels.rope(&input, base, scale, dimension, 0, 2)),
            format!(
                "RoPE dimension {dimension} must be positive, even, and at most the head width 4"
            )
        );
    }
    for bad in [0.0, -0.0, -1.0, f32::NAN, f32::INFINITY, f32::NEG_INFINITY] {
        assert_eq!(
            rejection(kernels.rope(&input, single(bad), scale, 2, 0, 1)),
            "RoPE base must be finite and positive"
        );
        assert_eq!(
            rejection(kernels.rope(&input, base, single(bad), 2, 0, 1)),
            "RoPE scale must be finite and positive"
        );
    }
    let tall = buffer(&[1024, 64]);
    let launch = kernels.rope(&tall, base, scale, 16, 0, 4).unwrap();
    assert_eq!(launch.config.grid_dim.0, 32);
}

#[test]
fn matmul_exchanges_strides_to_transpose() {
    let kernels = kernels();
    let (a, b) = (buffer(&[2, 3]), buffer(&[3, 5]));
    let launch = kernels.matmul(&a, &b, false, false).unwrap();
    assert_eq!(
        launch.arguments,
        KernelArguments::Matmul {
            m: 2,
            k: 3,
            n: 5,
            a_row_stride: 3,
            a_inner_stride: 1,
            b_inner_stride: 5,
            b_col_stride: 1,
        }
    );
    assert_eq!((launch.elements, launch.shape), (10, vec![2, 5]));
    let launch = kernels.matmul(&buffer(&[3, 2]), &buffer(&[5, 3]), true, true).unwrap();
    assert_eq!(
        launch.arguments,
        KernelArguments::Matmul {
            m: 2,
            k: 3,
            n: 5,
            a_row_stride: 1,
            a_inner_stride: 2,
            b_inner_stride: 1,
            b_col_stride: 3,
        }
    );
    assert_eq!(
        rejection(kernels.matmul(&a, &b, true, false)),
        "matmul inner dimension mismatch: 2 vs 3"
    );
    let (tall, wide) = (buffer(&[u64::MAX, 0]), buffer(&[0, 2]));
    assert!(!kernels.matmul_fits(&tall, &wide, false, false));
    assert!(kernels.matmul_fits(&tall, &buffer(&[0, 1]), false, false));
    assert!(kernels.matmul_fits(&a, &b, true, false));
    assert!(kernels.matmul_fits(&buffer(&[2]), &b, false, false));
}

#[test]
fn attention_checks_heads_windows_and_widths_in_order() {
    let kernels = kernels();
    let plan = |q: &[u64],
                k: &[u64],
                v: &[u64],
                heads: u64,
                width: u64,
                kv: Option<u64>,
                window: Option<u64>,
                causal: bool| {
        kernels.attention(&buffer(q), &buffer(k), &buffer(v), heads, width, kv, window, causal)
    };
    assert_eq!(
        rejection(plan(&[2, 4], &[2, 4], &[2, 2], 0, 0, None, None, false)),
        "shape mismatch: [2, 4] vs [2, 2]"
    );
    for (heads, width, kv) in [(0, 2, None), (2, 0, None), (2, 2, Some(0))] {
        assert_eq!(
            rejection(plan(&[2, 4], &[2, 4], &[2, 4], heads, width, kv, None, false)),
            "head_count, kv_head_count, and head_dimension must all be positive"
        );
    }
    assert_eq!(
        rejection(plan(&[2, 4], &[2, 4], &[2, 4], 3, 2, Some(2), Some(0), false)),
        "head_count 3 must be an exact multiple of kv_head_count 2"
    );
    assert_eq!(
        rejection(plan(&[2, 4], &[2, 4], &[2, 4], 2, 2, None, Some(0), false)),
        "window_size must be positive; a zero window admits no keys"
    );
    assert_eq!(
        rejection(plan(&[2, 4], &[2, 4], &[2, 4], 2, 2, None, Some(1), false)),
        "window_size is only defined for causal attention"
    );
    assert_eq!(
        rejection(plan(&[3, 4], &[2, 4], &[2, 4], 2, 2, None, None, false)),
        "q sequence length 3 cannot exceed k/v sequence length 2"
    );
    assert_eq!(
        rejection(plan(&[2, 4], &[2, 4], &[2, 4], 2, 3, None, None, false)),
        "head_count * head_dimension must equal q row width 4, got 2 * 3"
    );
    assert_eq!(
        rejection(plan(&[2, 4], &[2, 4], &[2, 4], 2, 2, Some(1), None, false)),
        "kv_head_count * head_dimension must equal k/v row width 4, got 1 * 2"
    );
    let huge = 1u64 << 33;
    assert_eq!(
        rejection(plan(&[2, 4], &[2, 4], &[2, 4], huge, huge, None, None, false)),
        format!("head_count * head_dimension must equal q row width 4, got {huge} * {huge}")
    );
    let launch = plan(&[2, 8], &[5, 4], &[5, 4], 4, 2, Some(2), Some(3), true).unwrap();
    assert_eq!(
        launch.arguments,
        KernelArguments::Attention {
            seq_len: 2,
            kv_seq_len: 5,
            head_count: 4,
            kv_head_count: 2,
            head_dimension: 2,
            q_model_dim: 8,
            kv_model_dim: 4,
            causal: 1,
            window: 3,
            query_position_offset: 3,
        }
    );
    assert_eq!((launch.elements, launch.shape), (16, vec![2, 8]));
    for (window, argument) in [
        (None, -1),
        (Some(u64::MAX), -1),
        (Some(1 << 63), i64::MIN),
        (Some((1 << 63) - 1), i64::MAX),
    ] {
        let launch = plan(&[1, 1], &[1, 1], &[1, 1], 1, 1, None, window, true).unwrap();
        match launch.arguments {
            KernelArguments::Attention { window, .. } => assert_eq!(window, argument),
            other => panic!("{other:?} is no attention"),
        }
    }
}

#[test]
fn a_host_tensor_has_as_many_elements_as_its_shape() {
    let tensor = HostTensor::new(vec![2, 2], vec![1, 2, 3, 4]).unwrap();
    assert_eq!((tensor.shape, tensor.data), (vec![2, 2], vec![1, 2, 3, 4]));
    assert!(HostTensor::new(vec![], vec![7]).is_ok());
    assert!(HostTensor::new(vec![3, 0], Vec::<u8>::new()).is_ok());
    let error = HostTensor::new(vec![2, 3], vec![1, 2]).unwrap_err();
    assert_eq!(error.reason, "shape [2, 3] expects 6 elements, got 2");
    let error = HostTensor::new(vec![1 << 40, 1 << 40, 0], Vec::<u8>::new()).unwrap_err();
    assert_eq!(
        error.reason,
        "shape [1099511627776, 1099511627776, 0] element count overflows the host address space"
    );
}

#[test]
fn crossings_are_counted_where_they_happen() {
    let mut kernels = kernels();
    let tensor = HostTensor::new(vec![2], vec![1.0f32, 2.0]).unwrap();
    let failure = || CudaError::of(CudaErrorCode::DriverFailed, "copy failed");
    assert!(kernels.upload::<f32, ()>(&tensor, Err(failure())).is_err());
    assert_eq!(kernels.upload_count(), 0);
    let buffer = kernels.upload(&tensor, Ok("device")).unwrap();
    assert_eq!((buffer.slice, buffer.len(), &buffer.shape), ("device", 2, &vec![2]));
    assert_eq!(kernels.upload_count(), 1);
    assert!(kernels.download::<f32, _>(&buffer, Err(failure())).is_err());
    assert_eq!(kernels.download_count(), 0);
    let error = kernels.download(&buffer, Ok(vec![1.0f32])).unwrap_err();
    assert_eq!(
        error.to_text(),
        "ShapeUnsupported: reference-cpu-shape-unsupported: shape [2] expects 2 elements, got 1"
    );
    assert_eq!(kernels.download_count(), 1);
    let tensor = kernels.download(&buffer, Ok(vec![3.0f32, 4.0])).unwrap();
    assert_eq!((tensor.shape, tensor.data), (vec![2], vec![3.0, 4.0]));
    assert_eq!(kernels.download_count(), 2);
}

#[test]
fn head_blocks_are_rotated_alike() {
    let kernels = kernels();
    let (base, scale) = (single(10000.0), single(0.5));
    let whole = kernels.rope(&buffer(&[3, 24]), base, scale, 4, 9, 4).unwrap();
    let alone = kernels.rope(&buffer(&[3, 6]), base, scale, 4, 9, 1).unwrap();
    let arguments = |cols, head_count| KernelArguments::Rope {
        rows: 3,
        cols,
        half: 2,
        base,
        scale,
        dimension: 4,
        position_offset: 9,
        head_count,
    };
    assert_eq!(whole.arguments, arguments(24, 4));
    assert_eq!(alone.arguments, arguments(6, 1));
}

#[test]
fn a_shorter_query_stands_at_the_end() {
    let kernels = kernels();
    let keys = buffer(&[7, 4]);
    let plan = |rows, kv_heads| {
        let query = buffer(&[rows, 8]);
        kernels.attention(&query, &keys, &keys, 4, 2, kv_heads, Some(3), true).unwrap()
    };
    for (rows, offset) in [(7, 0), (5, 2), (1, 6), (0, 7)] {
        let launch = plan(rows, Some(2));
        assert_eq!(
            launch.arguments,
            KernelArguments::Attention {
                seq_len: rows,
                kv_seq_len: 7,
                head_count: 4,
                kv_head_count: 2,
                head_dimension: 2,
                q_model_dim: 8,
                kv_model_dim: 4,
                causal: 1,
                window: 3,
                query_position_offset: offset,
            }
        );
        assert_eq!(launch.shape, [rows, 8]);
    }
    let wide = buffer(&[7, 8]);
    let by_default = kernels.attention(&wide, &wide, &wide, 4, 2, None, None, false).unwrap();
    let as_many = kernels.attention(&wide, &wide, &wide, 4, 2, Some(4), None, false).unwrap();
    assert_eq!(by_default.arguments, as_many.arguments);
}
