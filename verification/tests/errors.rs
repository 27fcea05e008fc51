use cudarc::driver::sys::CUresult;
use cudarc::driver::DriverError;
use cudarc::nvrtc::result::NvrtcError;
use cudarc::nvrtc::sys::nvrtcResult;
use cudarc::nvrtc::CompileError;
use magnetar_provider_cuda::kernel_error::{KernelError, KernelErrorCode};
use magnetar_provider_cuda::peer::{device_can_access_peer, enable_peer_access};
use magnetar_provider_cuda::{CudaError, CudaErrorCode, CudaKernels};

#[test]
fn out_of_device_memory_maps_to_dedicated_kernel_error_category() {
    let error = CudaError::new(
        CudaErrorCode::OutOfDeviceMemory,
        "requested 8GiB, 2GiB free".to_string(),
    );
    let kernel_error: KernelError = error.into();
    assert_eq!(kernel_error.code(), KernelErrorCode::KernelOutOfDeviceMemory);
    match kernel_error {
        KernelError::KernelOutOfDeviceMemory { reason } => {
            assert!(reason.contains("8GiB"));
        }
        other => panic!("expected KernelOutOfDeviceMemory, got {other:?}"),
    }
}

/// The driver's answer to an allocation of more than the device has, handed in
/// as a value.
#[test]
fn out_of_device_memory_is_triggered_by_a_real_over_capacity_allocation() {
    let driver_error = DriverError(CUresult::CUDA_ERROR_OUT_OF_MEMORY);
    let cuda_error = CudaError::from_driver_error(driver_error, "out of memory".to_string());
    assert_eq!(cuda_error.code, CudaErrorCode::OutOfDeviceMemory);
    let kernel_error: KernelError = cuda_error.into();
    assert_eq!(kernel_error.code(), KernelErrorCode::KernelOutOfDeviceMemory);
}

#[test]
fn every_error_category_has_its_kernel_error() {
    for (code, id) in [
        (CudaErrorCode::ShapeUnsupported, "kernel-shape-unsupported"),
        (CudaErrorCode::DTypeUnsupported, "kernel-dtype-unsupported"),
        (CudaErrorCode::LayoutUnsupported, "kernel-layout-unsupported"),
        (CudaErrorCode::ExecutionFailed, "kernel-execution-failed"),
        (CudaErrorCode::OutOfDeviceMemory, "kernel-out-of-device-memory"),
        (CudaErrorCode::CompilationFailed, "kernel-execution-failed"),
        (CudaErrorCode::DriverFailed, "kernel-execution-failed"),
        (CudaErrorCode::DeviceUnavailable, "kernel-device-unsupported"),
    ] {
        let error = KernelError::from(CudaError::of(code, "why"));
        assert_eq!(error.id(), id);
        let detail = match error {
            KernelError::KernelShapeUnsupported { reason }
            | KernelError::KernelExecutionFailed { reason }
            | KernelError::KernelOutOfDeviceMemory { reason } => reason,
            KernelError::KernelDTypeUnsupported { dtype } => dtype,
            KernelError::KernelLayoutUnsupported { layout } => layout,
            KernelError::KernelDeviceUnsupported { device } => device,
            other => panic!("{other:?} is not what a CUDA error becomes"),
        };
        assert_eq!(detail, "why");
    }
}

#[test]
fn kernel_errors_have_stable_identifiers() {
    let text = || "x".to_string();
    for (error, id) in [
        (KernelError::KernelNotFound { kernel: text() }, "kernel-not-found"),
        (
            KernelError::KernelVersionUnsupported { kernel: text() },
            "kernel-version-unsupported",
        ),
        (
            KernelError::KernelOperatorMismatch { expected: text(), found: text() },
            "kernel-operator-mismatch",
        ),
        (
            KernelError::KernelAttributeUnsupported { attribute: text() },
            "kernel-attribute-unsupported",
        ),
        (
            KernelError::KernelMemoryClassUnsupported { memory_class: text() },
            "kernel-memory-class-unsupported",
        ),
        (KernelError::KernelWorkspaceUnavailable, "kernel-workspace-unavailable"),
        (KernelError::KernelAliasingUnsupported, "kernel-aliasing-unsupported"),
        (
            KernelError::KernelResourceAffinityConflict { reason: text() },
            "kernel-resource-affinity-conflict",
        ),
        (
            KernelError::KernelProviderUnavailable { provider: text() },
            "kernel-provider-unavailable",
        ),
        (
            KernelError::KernelProviderNotReady { provider: text() },
            "kernel-provider-not-ready",
        ),
        (
            KernelError::KernelProviderSaturated { provider: text() },
            "kernel-provider-saturated",
        ),
        (
            KernelError::KernelCancellationUnsupported,
            "kernel-cancellation-unsupported",
        ),
        (KernelError::KernelCancelled, "kernel-cancelled"),
        (KernelError::KernelTimeout, "kernel-timeout"),
        (
            KernelError::KernelDeterminismUnsupported,
            "kernel-determinism-unsupported",
        ),
        (KernelError::KernelPrecisionUnsupported, "kernel-precision-unsupported"),
        (
            KernelError::KernelConformanceFailed { report: text() },
            "kernel-conformance-failed",
        ),
        (
            KernelError::KernelBrowserFeatureUnsupported { feature: text() },
            "kernel-browser-feature-unsupported",
        ),
        (KernelError::InternalKernel { reason: text() }, "internal-kernel"),
    ] {
        assert_eq!(error.id(), id);
        assert_eq!(error.code().id(), id);
    }
}

#[test]
fn an_error_reads_as_its_category_and_detail() {
    let error = CudaError::of(CudaErrorCode::DriverFailed, "launch failure");
    assert_eq!(error.to_text(), "DriverFailed: launch failure");
    assert_eq!(
        CudaError::of(CudaErrorCode::DTypeUnsupported, "").to_text(),
        "DTypeUnsupported: "
    );
}

#[test]
fn driver_errors_fall_into_three_categories() {
    for (result, code) in [
        (CUresult::CUDA_ERROR_OUT_OF_MEMORY, CudaErrorCode::OutOfDeviceMemory),
        (CUresult::CUDA_ERROR_NO_DEVICE, CudaErrorCode::DeviceUnavailable),
        (CUresult::CUDA_ERROR_INVALID_DEVICE, CudaErrorCode::DeviceUnavailable),
        (CUresult::CUDA_ERROR_INVALID_VALUE, CudaErrorCode::DriverFailed),
        (CUresult::CUDA_ERROR_LAUNCH_FAILED, CudaErrorCode::DriverFailed),
        (CUresult::CUDA_ERROR_NOT_FOUND, CudaErrorCode::DriverFailed),
    ] {
        let error = CudaError::from_driver_error(DriverError(result), "said the driver".to_string());
        assert_eq!(error.code, code);
        assert_eq!(error.detail, "said the driver");
    }
}

#[test]
fn a_compile_error_is_told_in_its_own_words() {
    let failure = || CompileError::CreationError(NvrtcError(nvrtcResult::NVRTC_ERROR_OUT_OF_MEMORY));
    let error = CudaError::from_compile_error(&failure());
    assert_eq!(error.code, CudaErrorCode::CompilationFailed);
    assert_eq!(error.detail, failure().to_string());
    assert!(error.detail.contains("NVRTC_ERROR_OUT_OF_MEMORY"));

    let loading = || CudaError::of(CudaErrorCode::DriverFailed, "no module");
    let error = CudaKernels::compile_and_load(Err(failure()), Err(loading()))
        .map(|_| ())
        .unwrap_err();
    assert_eq!(error.code, CudaErrorCode::CompilationFailed);
    let error = CudaKernels::compile_and_load(Ok(()), Err(loading()))
        .map(|_| ())
        .unwrap_err();
    assert_eq!(error.to_text(), "DriverFailed: no module");
    let kernels = CudaKernels::compile_and_load(Ok(()), Ok(())).unwrap();
    assert_eq!((kernels.upload_count(), kernels.download_count()), (0, 0));
}

#[test]
fn peer_access_is_asked_for_and_never_inferred() {
    assert_eq!(device_can_access_peer(CUresult::CUDA_SUCCESS, 1), Ok(true));
    assert_eq!(device_can_access_peer(CUresult::CUDA_SUCCESS, 0), Ok(false));
    assert_eq!(device_can_access_peer(CUresult::CUDA_SUCCESS, -1), Ok(true));
    assert_eq!(
        device_can_access_peer(CUresult::CUDA_ERROR_INVALID_DEVICE, 1),
        Err(DriverError(CUresult::CUDA_ERROR_INVALID_DEVICE))
    );
}

#[test]
fn enabling_peer_access_twice_is_success() {
    assert_eq!(enable_peer_access(Ok(CUresult::CUDA_SUCCESS)), Ok(()));
    assert_eq!(
        enable_peer_access(Ok(CUresult::CUDA_ERROR_PEER_ACCESS_ALREADY_ENABLED)),
        Ok(())
    );
    assert_eq!(
        enable_peer_access(Ok(CUresult::CUDA_ERROR_PEER_ACCESS_UNSUPPORTED)),
        Err(DriverError(CUresult::CUDA_ERROR_PEER_ACCESS_UNSUPPORTED))
    );
    assert_eq!(
        enable_peer_access(Err(DriverError(CUresult::CUDA_ERROR_INVALID_CONTEXT))),
        Err(DriverError(CUresult::CUDA_ERROR_INVALID_CONTEXT))
    );
}
