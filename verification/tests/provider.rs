use cudarc::driver::sys::CUresult;
use cudarc::driver::DriverError;
use magnetar_provider_cuda::advertisements::{
    cuda_kernel_advertisements, OperatorFamily, CUDA_CONFORMANCE_PROFILE,
};
use magnetar_provider_cuda::catalog::KernelKind;
use magnetar_provider_cuda::device::{
    cuda_device_descriptor, cuda_device_id, pressure_from_free_ratio, DeviceAnswers,
    DeviceDescriptor, ProviderPressureLevel,
};
use magnetar_provider_cuda::kernels::CudaKernels;
use magnetar_provider_cuda::provider::{
    compiled_kernels, discovery_outcome, primary_device_ordinal, CudaProvider, ProviderHealth,
    CUDA_PROVIDER_NAME, CUDA_PROVIDER_VENDOR, CUDA_PROVIDER_VERSION,
};

type Provider = CudaProvider<&'static str, u32>;

const NO_DEVICE: DriverError = DriverError(CUresult::CUDA_ERROR_NO_DEVICE);

fn answers() -> DeviceAnswers {
    DeviceAnswers {
        ordinal: 0,
        name: Ok("NVIDIA GeForce RTX 3070 Ti".to_string()),
        compute_capability: Ok((8, 6)),
        total_memory: Ok(8 << 30),
        multiprocessor_count: Ok(46),
        memory_info: Ok((6 << 30, 8 << 30)),
    }
}

fn device() -> DeviceDescriptor {
    cuda_device_descriptor(answers()).unwrap()
}

fn kernels() -> CudaKernels {
    CudaKernels::compile_and_load(Ok(()), Ok(())).unwrap()
}

/// The Provider on a host without a driver, and on one with a device.
fn providers() -> [Provider; 2] {
    [
        Provider::new(discovery_outcome(None), Some(kernels())),
        Provider::new(Ok(("context", device())), Some(kernels())),
    ]
}

#[test]
fn construction_never_panics_and_reports_stable_identity() {
    for provider in providers() {
        let metadata = provider.metadata();
        assert_eq!(metadata.name, CUDA_PROVIDER_NAME);
        assert_eq!(metadata.name, "magnetar:provider/cuda");
        assert_eq!(metadata.version, CUDA_PROVIDER_VERSION);
        assert_eq!(metadata.vendor, CUDA_PROVIDER_VENDOR);
        assert_eq!(
            metadata.description,
            "Optimized, GPU-executing Provider built on the CUDA driver API"
        );
    }
}

#[test]
fn health_and_devices_agree_with_availability() {
    let mut available = 0;
    for provider in providers() {
        let devices = provider.devices();
        if provider.is_available() {
            available += 1;
            assert_eq!(provider.health(), ProviderHealth::Available);
            assert_eq!(
                devices.len(),
                1,
                "an available CudaProvider must expose exactly the one device it discovered"
            );
            let metadata = &devices[0].metadata;
            assert!(!metadata.name.is_empty());
            assert!(metadata.memory_capacity > 0);
            assert_eq!(provider.context(), Some(&"context"));
        } else {
            assert_eq!(provider.health(), ProviderHealth::Unavailable);
            assert!(devices.is_empty());
            assert_eq!(provider.context(), None);
        }
    }
    assert_eq!(available, 1);
}

#[test]
fn kernel_advertisements_agree_with_availability() {
    for provider in providers() {
        let advertisements = provider.kernel_advertisements();
        if provider.is_available() {
            assert_eq!(
                advertisements.len(),
                10,
                "expected exactly the required-now kernel set this baseline implements"
            );
            let names: Vec<&str> =
                advertisements.iter().map(|a| a.id.name.as_str()).collect();
            for expected in [
                "matmul",
                "embedding",
                "rmsnorm",
                "rope",
                "attention",
                "softmax",
                "silu",
                "add",
                "mul",
                "residual-add",
            ] {
                assert!(names.contains(&expected), "missing advertisement: {expected}");
            }
        } else {
            assert!(
                advertisements.is_empty(),
                "an unavailable CudaProvider must not advertise kernels bound to no real Device"
            );
        }
    }
}

#[test]
fn health_is_degraded_when_device_found_but_executor_missing() {
    let mut degraded = Provider::with_device_but_no_executor_for_test("context", device());
    assert_eq!(
        degraded.health(),
        ProviderHealth::Degraded,
        "a Device found but no working executor must report Degraded, not Available"
    );
    assert!(degraded.execution_api().is_none());
    assert_eq!(
        degraded.devices().len(),
        1,
        "the Device itself is still real and should still be reported"
    );
    let uncompiled = Provider::new(Ok(("context", device())), None);
    assert_eq!(uncompiled.health(), ProviderHealth::Degraded);
    assert_eq!(uncompiled.kernel_advertisements().len(), 10);
}

#[test]
fn initialize_and_shutdown_are_infallible_regardless_of_hardware() {
    for provider in providers() {
        provider.initialize().expect("initialize must not fail");
        provider.register().expect("register must not fail");
        provider.shutdown().expect("shutdown must not fail");
    }
}

#[test]
fn the_execution_api_is_that_of_the_device() {
    let [mut unavailable, mut available] = providers();
    assert!(unavailable.execution_api().is_none());
    let executor = available.execution_api().unwrap();
    assert_eq!(executor.device_id(), "cuda:0");
    assert_eq!(executor.resident_count(), 0);
    assert!(!executor.release_tensor(&"nothing".to_string()));
    assert_eq!(available.health(), ProviderHealth::Available);
}

#[test]
fn the_first_device_is_the_primary_one() {
    assert_eq!(primary_device_ordinal(Ok(3)), Ok(0));
    assert_eq!(primary_device_ordinal(Ok(1)), Ok(0));
    assert_eq!(primary_device_ordinal(Ok(0)), Err(NO_DEVICE));
    assert_eq!(primary_device_ordinal(Ok(-1)), Err(NO_DEVICE));
    let error = DriverError(CUresult::CUDA_ERROR_NOT_INITIALIZED);
    assert_eq!(primary_device_ordinal(Err(error)), Err(error));
}

#[test]
fn a_library_that_is_not_there_is_no_device() {
    assert_eq!(discovery_outcome::<()>(None), Err(NO_DEVICE));
    assert_eq!(discovery_outcome(Some(Ok(5))), Ok(5));
    let error = DriverError(CUresult::CUDA_ERROR_STUB_LIBRARY);
    assert_eq!(discovery_outcome::<()>(Some(Err(error))), Err(error));
    assert!(compiled_kernels::<()>(None).is_none());
    assert!(compiled_kernels(Some(Err("does not compile"))).is_none());
    assert!(compiled_kernels::<()>(Some(Ok(kernels()))).is_some());
}

#[test]
fn a_device_is_described_by_its_answers() {
    let metadata = device().metadata;
    assert_eq!(metadata.id, "cuda:0");
    assert_eq!(metadata.name, "NVIDIA GeForce RTX 3070 Ti");
    assert_eq!(metadata.vendor, "NVIDIA");
    assert_eq!(metadata.architecture, "sm_86");
    assert_eq!(metadata.memory_capacity, 8 << 30);
    assert_eq!(metadata.compute_units, 46);
    assert_eq!(metadata.pressure, ProviderPressureLevel::Low);
    assert_eq!(metadata.provider, CUDA_PROVIDER_NAME);
    assert_eq!(metadata.dtype_support.len(), 1);
    assert_eq!(metadata.layout_support.len(), 1);
    assert_eq!(metadata.memory_class_support.len(), 1);
    assert_eq!(metadata.execution_limits.max_concurrent_operations, None);
    assert_eq!(metadata.execution_limits.max_workspace_bytes, None);

    let vague = DeviceAnswers {
        ordinal: 12,
        compute_capability: Ok((10, 0)),
        multiprocessor_count: Err(NO_DEVICE),
        memory_info: Ok((0, 0)),
        ..answers()
    };
    let metadata = cuda_device_descriptor(vague).unwrap().metadata;
    assert_eq!((metadata.id.as_str(), metadata.architecture.as_str()), ("cuda:12", "sm_100"));
    assert_eq!(metadata.compute_units, 0);
    assert_eq!(metadata.pressure, ProviderPressureLevel::Unknown);
    let silent = DeviceAnswers {
        multiprocessor_count: Ok(-4),
        memory_info: Err(NO_DEVICE),
        ..answers()
    };
    let metadata = cuda_device_descriptor(silent).unwrap().metadata;
    assert_eq!(metadata.compute_units, 0);
    assert_eq!(metadata.pressure, ProviderPressureLevel::Unknown);
}

#[test]
fn a_device_that_does_not_answer_is_not_described() {
    let first = DriverError(CUresult::CUDA_ERROR_INVALID_DEVICE);
    let second = DriverError(CUresult::CUDA_ERROR_INVALID_VALUE);
    let third = DriverError(CUresult::CUDA_ERROR_INVALID_CONTEXT);
    let describe = |name, capability, memory| {
        cuda_device_descriptor(DeviceAnswers {
            name,
            compute_capability: capability,
            total_memory: memory,
            ..answers()
        })
        .map(|_| ())
    };
    let name = || Ok("name".to_string());
    assert_eq!(describe(Err(first), Err(second), Err(third)), Err(first));
    assert_eq!(describe(name(), Err(second), Err(third)), Err(second));
    assert_eq!(describe(name(), Ok((1, 1)), Err(third)), Err(third));
    assert_eq!(describe(name(), Ok((1, 1)), Ok(1)), Ok(()));
}

#[test]
fn device_ids_are_their_ordinals() {
    assert_eq!(cuda_device_id(0), "cuda:0");
    assert_eq!(cuda_device_id(10), "cuda:10");
    assert_eq!(cuda_device_id(usize::MAX), format!("cuda:{}", usize::MAX));
}

fn by_division(free: usize, total: usize) -> ProviderPressureLevel {
    let free_ratio = free as f64 / total as f64;
    if free_ratio > 0.5 {
        ProviderPressureLevel::Low
    } else if free_ratio > 0.2 {
        ProviderPressureLevel::Moderate
    } else if free_ratio > 0.05 {
        ProviderPressureLevel::High
    } else {
        ProviderPressureLevel::Saturated
    }
}

#[test]
fn pressure_follows_the_share_of_free_memory() {
    for (free, total, pressure) in [
        (100, 100, ProviderPressureLevel::Low),
        (51, 100, ProviderPressureLevel::Low),
        (50, 100, ProviderPressureLevel::Moderate),
        (21, 100, ProviderPressureLevel::Moderate),
        (20, 100, ProviderPressureLevel::High),
        (6, 100, ProviderPressureLevel::High),
        (5, 100, ProviderPressureLevel::Saturated),
        (0, 100, ProviderPressureLevel::Saturated),
        (usize::MAX, 1, ProviderPressureLevel::Low),
    ] {
        assert_eq!(pressure_from_free_ratio(free, total), pressure, "{free} of {total}");
    }
}

#[test]
fn pressure_is_that_of_double_precision_division() {
    let totals = [
        1usize,
        3,
        10,
        (8 << 30) - 1,
        8 << 30,
        (1 << 53) - 1,
        1 << 53,
        (1 << 53) + 1,
        (1 << 54) + 3,
        (1 << 60) + 1,
        usize::MAX - 1,
        usize::MAX,
    ];
    for total in totals {
        for divisor in [2u128, 5, 20] {
            let edge = (total as u128 / divisor) as i128;
            for step in -3i128..=3 {
                for scale in [1i128, 1 << 10, 1 << 20] {
                    let free = edge + step * scale;
                    if (0..=usize::MAX as i128).contains(&free) {
                        let free = free as usize;
                        assert_eq!(
                            pressure_from_free_ratio(free, total),
                            by_division(free, total),
                            "{free} of {total}"
                        );
                    }
                }
            }
        }
    }
}

#[test]
fn advertisements_say_what_the_kernels_are() {
    let advertisements = cuda_kernel_advertisements(&"cuda:3".to_string());
    for advertisement in &advertisements {
        let id = &advertisement.id;
        assert_eq!(id.provider, CUDA_PROVIDER_NAME);
        assert_eq!((id.version.major, id.version.minor, id.version.patch), (1, 0, 0));
        assert_eq!(id.operator.namespace, "magnetar:operator");
        assert_eq!(id.operator.name, id.name);
        assert_eq!((id.operator.version, id.operator_min, id.operator_max), (1, 1, 1));
        assert_eq!(id.conformance_profile.as_deref(), Some(CUDA_CONFORMANCE_PROFILE));
        assert_eq!(advertisement.devices, ["cuda:3"]);
        assert_eq!(advertisement.input_dtypes.len(), 1);
        assert_eq!(advertisement.output_dtypes.len(), 1);
        let kind = KernelKind::from_name(&id.name).expect("what is advertised is dispatched");
        assert_eq!(kind.name(), id.name);
    }
    let told: Vec<(&str, OperatorFamily, Option<u64>)> = advertisements
        .iter()
        .map(|a| (a.id.name.as_str(), a.id.operator.family, a.rank))
        .collect();
    assert_eq!(
        told,
        [
            ("matmul", OperatorFamily::LinearAlgebra, Some(2)),
            ("embedding", OperatorFamily::Tensor, None),
            ("rmsnorm", OperatorFamily::Normalization, None),
            ("rope", OperatorFamily::PositionEncoding, Some(2)),
            ("attention", OperatorFamily::Attention, Some(2)),
            ("softmax", OperatorFamily::Activation, Some(2)),
            ("silu", OperatorFamily::Activation, None),
            ("add", OperatorFamily::Tensor, None),
            ("mul", OperatorFamily::Tensor, None),
            ("residual-add", OperatorFamily::Tensor, None),
        ]
    );
    assert_eq!(KernelKind::from_name(&"gelu".to_string()), None);
}
