//! The errors that a Kernel invocation ends in.

use crate::error::{CudaError, CudaErrorCode};
use vstd::prelude::*;

verus! {

/// The category of a Kernel error.
#[derive(Clone, Copy, Debug, PartialEq, Eq, Structural)]
pub enum KernelErrorCode {
    KernelNotFound,
    KernelVersionUnsupported,
    KernelOperatorMismatch,
    KernelAttributeUnsupported,
    KernelShapeUnsupported,
    KernelDTypeUnsupported,
    KernelLayoutUnsupported,
    KernelMemoryClassUnsupported,
    KernelWorkspaceUnavailable,
    KernelAliasingUnsupported,
    KernelResourceAffinityConflict,
    KernelDeviceUnsupported,
    KernelProviderUnavailable,
    KernelProviderNotReady,
    KernelProviderSaturated,
    KernelExecutionFailed,
    KernelOutOfDeviceMemory,
    KernelCancellationUnsupported,
    KernelCancelled,
    KernelTimeout,
    KernelDeterminismUnsupported,
    KernelPrecisionUnsupported,
    KernelConformanceFailed,
    KernelBrowserFeatureUnsupported,
    InternalKernel,
}

/// Why a Kernel invocation failed.
#[derive(Clone, Debug, PartialEq, Eq)]
pub enum KernelError {
    KernelNotFound { kernel: String },
    KernelVersionUnsupported { kernel: String },
    KernelOperatorMismatch { expected: String, found: String },
    KernelAttributeUnsupported { attribute: String },
    KernelShapeUnsupported { reason: String },
    KernelDTypeUnsupported { dtype: String },
    KernelLayoutUnsupported { layout: String },
    KernelMemoryClassUnsupported { memory_class: String },
    KernelWorkspaceUnavailable,
    KernelAliasingUnsupported,
    KernelResourceAffinityConflict { reason: String },
    KernelDeviceUnsupported { device: String },
    KernelProviderUnavailable { provider: String },
    KernelProviderNotReady { provider: String },
    KernelProviderSaturated { provider: String },
    KernelExecutionFailed { reason: String },
    KernelOutOfDeviceMemory { reason: String },
    KernelCancellationUnsupported,
    KernelCancelled,
    KernelTimeout,
    KernelDeterminismUnsupported,
    KernelPrecisionUnsupported,
    KernelConformanceFailed { report: String },
    KernelBrowserFeatureUnsupported { feature: String },
    InternalKernel { reason: String },
}

/// What a [`KernelError`] says.
pub enum KernelErrorView {
    KernelNotFound { kernel: Seq<char> },
    KernelVersionUnsupported { kernel: Seq<char> },
    KernelOperatorMismatch { expected: Seq<char>, found: Seq<char> },
    KernelAttributeUnsupported { attribute: Seq<char> },
    KernelShapeUnsupported { reason: Seq<char> },
    KernelDTypeUnsupported { dtype: Seq<char> },
    KernelLayoutUnsupported { layout: Seq<char> },
    KernelMemoryClassUnsupported { memory_class: Seq<char> },
    KernelWorkspaceUnavailable,
    KernelAliasingUnsupported,
    KernelResourceAffinityConflict { reason: Seq<char> },
    KernelDeviceUnsupported { device: Seq<char> },
    KernelProviderUnavailable { provider: Seq<char> },
    KernelProviderNotReady { provider: Seq<char> },
    KernelProviderSaturated { provider: Seq<char> },
    KernelExecutionFailed { reason: Seq<char> },
    KernelOutOfDeviceMemory { reason: Seq<char> },
    KernelCancellationUnsupported,
    KernelCancelled,
    KernelTimeout,
    KernelDeterminismUnsupported,
    KernelPrecisionUnsupported,
    KernelConformanceFailed { report: Seq<char> },
    KernelBrowserFeatureUnsupported { feature: Seq<char> },
    InternalKernel { reason: Seq<char> },
}

impl View for KernelError {
    type V = KernelErrorView;

    open spec fn view(&self) -> KernelErrorView {
        match self {
            KernelError::KernelNotFound { kernel } => KernelErrorView::KernelNotFound { kernel: kernel@ },
            KernelError::KernelVersionUnsupported { kernel } => KernelErrorView::KernelVersionUnsupported { kernel: kernel@ },
            KernelError::KernelOperatorMismatch { expected, found } => KernelErrorView::KernelOperatorMismatch { expected: expected@, found: found@ },
            KernelError::KernelAttributeUnsupported { attribute } => KernelErrorView::KernelAttributeUnsupported { attribute: attribute@ },
            KernelError::KernelShapeUnsupported { reason } => KernelErrorView::KernelShapeUnsupported { reason: reason@ },
            KernelError::KernelDTypeUnsupported { dtype } => KernelErrorView::KernelDTypeUnsupported { dtype: dtype@ },
            KernelError::KernelLayoutUnsupported { layout } => KernelErrorView::KernelLayoutUnsupported { layout: layout@ },
            KernelError::KernelMemoryClassUnsupported { memory_class } => KernelErrorView::KernelMemoryClassUnsupported { memory_class: memory_class@ },
            KernelError::KernelWorkspaceUnavailable => KernelErrorView::KernelWorkspaceUnavailable,
            KernelError::KernelAliasingUnsupported => KernelErrorView::KernelAliasingUnsupported,
            KernelError::KernelResourceAffinityConflict { reason } => KernelErrorView::KernelResourceAffinityConflict { reason: reason@ },
            KernelError::KernelDeviceUnsupported { device } => KernelErrorView::KernelDeviceUnsupported { device: device@ },
            KernelError::KernelProviderUnavailable { provider } => KernelErrorView::KernelProviderUnavailable { provider: provider@ },
            KernelError::KernelProviderNotReady { provider } => KernelErrorView::KernelProviderNotReady { provider: provider@ },
            KernelError::KernelProviderSaturated { provider } => KernelErrorView::KernelProviderSaturated { provider: provider@ },
            KernelError::KernelExecutionFailed { reason } => KernelErrorView::KernelExecutionFailed { reason: reason@ },
            KernelError::KernelOutOfDeviceMemory { reason } => KernelErrorView::KernelOutOfDeviceMemory { reason: reason@ },
            KernelError::KernelCancellationUnsupported => KernelErrorView::KernelCancellationUnsupported,
            KernelError::KernelCancelled => KernelErrorView::KernelCancelled,
            KernelError::KernelTimeout => KernelErrorView::KernelTimeout,
            KernelError::KernelDeterminismUnsupported => KernelErrorView::KernelDeterminismUnsupported,
            KernelError::KernelPrecisionUnsupported => KernelErrorView::KernelPrecisionUnsupported,
            KernelError::KernelConformanceFailed { report } => KernelErrorView::KernelConformanceFailed { report: report@ },
            KernelError::KernelBrowserFeatureUnsupported { feature } => KernelErrorView::KernelBrowserFeatureUnsupported { feature: feature@ },
            KernelError::InternalKernel { reason } => KernelErrorView::InternalKernel { reason: reason@ },
        }
    }
}

/// The category of what a Kernel error says.
pub open spec fn kernel_error_code(error: KernelErrorView) -> KernelErrorCode {
    match error {
        KernelErrorView::KernelNotFound { .. } => KernelErrorCode::KernelNotFound,
        KernelErrorView::KernelVersionUnsupported { .. } => KernelErrorCode::KernelVersionUnsupported,
        KernelErrorView::KernelOperatorMismatch { .. } => KernelErrorCode::KernelOperatorMismatch,
        KernelErrorView::KernelAttributeUnsupported { .. } => KernelErrorCode::KernelAttributeUnsupported,
        KernelErrorView::KernelShapeUnsupported { .. } => KernelErrorCode::KernelShapeUnsupported,
        KernelErrorView::KernelDTypeUnsupported { .. } => KernelErrorCode::KernelDTypeUnsupported,
        KernelErrorView::KernelLayoutUnsupported { .. } => KernelErrorCode::KernelLayoutUnsupported,
        KernelErrorView::KernelMemoryClassUnsupported { .. } => KernelErrorCode::KernelMemoryClassUnsupported,
        KernelErrorView::KernelWorkspaceUnavailable => KernelErrorCode::KernelWorkspaceUnavailable,
        KernelErrorView::KernelAliasingUnsupported => KernelErrorCode::KernelAliasingUnsupported,
        KernelErrorView::KernelResourceAffinityConflict { .. } => KernelErrorCode::KernelResourceAffinityConflict,
        KernelErrorView::KernelDeviceUnsupported { .. } => KernelErrorCode::KernelDeviceUnsupported,
        KernelErrorView::KernelProviderUnavailable { .. } => KernelErrorCode::KernelProviderUnavailable,
        KernelErrorView::KernelProviderNotReady { .. } => KernelErrorCode::KernelProviderNotReady,
        KernelErrorView::KernelProviderSaturated { .. } => KernelErrorCode::KernelProviderSaturated,
        KernelErrorView::KernelExecutionFailed { .. } => KernelErrorCode::KernelExecutionFailed,
        KernelErrorView::KernelOutOfDeviceMemory { .. } => KernelErrorCode::KernelOutOfDeviceMemory,
        KernelErrorView::KernelCancellationUnsupported => KernelErrorCode::KernelCancellationUnsupported,
        KernelErrorView::KernelCancelled => KernelErrorCode::KernelCancelled,
        KernelErrorView::KernelTimeout => KernelErrorCode::KernelTimeout,
        KernelErrorView::KernelDeterminismUnsupported => KernelErrorCode::KernelDeterminismUnsupported,
        KernelErrorView::KernelPrecisionUnsupported => KernelErrorCode::KernelPrecisionUnsupported,
        KernelErrorView::KernelConformanceFailed { .. } => KernelErrorCode::KernelConformanceFailed,
        KernelErrorView::KernelBrowserFeatureUnsupported { .. } => KernelErrorCode::KernelBrowserFeatureUnsupported,
        KernelErrorView::InternalKernel { .. } => KernelErrorCode::InternalKernel,
    }
}

/// The stable identifier of a Kernel error category, in this library's own
/// wording.
pub open spec fn kernel_error_id(code: KernelErrorCode) -> Seq<char> {
    match code {
        KernelErrorCode::KernelNotFound => "kernel-not-found"@,
        KernelErrorCode::KernelVersionUnsupported => "kernel-version-unsupported"@,
        KernelErrorCode::KernelOperatorMismatch => "kernel-operator-mismatch"@,
        KernelErrorCode::KernelAttributeUnsupported => "kernel-attribute-unsupported"@,
        KernelErrorCode::KernelShapeUnsupported => "kernel-shape-unsupported"@,
        KernelErrorCode::KernelDTypeUnsupported => "kernel-dtype-unsupported"@,
        KernelErrorCode::KernelLayoutUnsupported => "kernel-layout-unsupported"@,
        KernelErrorCode::KernelMemoryClassUnsupported => "kernel-memory-class-unsupported"@,
        KernelErrorCode::KernelWorkspaceUnavailable => "kernel-workspace-unavailable"@,
        KernelErrorCode::KernelAliasingUnsupported => "kernel-aliasing-unsupported"@,
        KernelErrorCode::KernelResourceAffinityConflict => "kernel-resource-affinity-conflict"@,
        KernelErrorCode::KernelDeviceUnsupported => "kernel-device-unsupported"@,
        KernelErrorCode::KernelProviderUnavailable => "kernel-provider-unavailable"@,
        KernelErrorCode::KernelProviderNotReady => "kernel-provider-not-ready"@,
        KernelErrorCode::KernelProviderSaturated => "kernel-provider-saturated"@,
        KernelErrorCode::KernelExecutionFailed => "kernel-execution-failed"@,
        KernelErrorCode::KernelOutOfDeviceMemory => "kernel-out-of-device-memory"@,
        KernelErrorCode::KernelCancellationUnsupported => "kernel-cancellation-unsupported"@,
        KernelErrorCode::KernelCancelled => "kernel-cancelled"@,
        KernelErrorCode::KernelTimeout => "kernel-timeout"@,
        KernelErrorCode::KernelDeterminismUnsupported => "kernel-determinism-unsupported"@,
        KernelErrorCode::KernelPrecisionUnsupported => "kernel-precision-unsupported"@,
        KernelErrorCode::KernelConformanceFailed => "kernel-conformance-failed"@,
        KernelErrorCode::KernelBrowserFeatureUnsupported => "kernel-browser-feature-unsupported"@,
        KernelErrorCode::InternalKernel => "internal-kernel"@,
    }
}

impl KernelErrorCode {
    /// The stable identifier of the category.
    pub fn id(self) -> (id: &'static str)
        ensures
            id@ == kernel_error_id(self),
    {
        match self {
            KernelErrorCode::KernelNotFound => "kernel-not-found",
            KernelErrorCode::KernelVersionUnsupported => "kernel-version-unsupported",
            KernelErrorCode::KernelOperatorMismatch => "kernel-operator-mismatch",
            KernelErrorCode::KernelAttributeUnsupported => "kernel-attribute-unsupported",
            KernelErrorCode::KernelShapeUnsupported => "kernel-shape-unsupported",
            KernelErrorCode::KernelDTypeUnsupported => "kernel-dtype-unsupported",
            KernelErrorCode::KernelLayoutUnsupported => "kernel-layout-unsupported",
            KernelErrorCode::KernelMemoryClassUnsupported => "kernel-memory-class-unsupported",
            KernelErrorCode::KernelWorkspaceUnavailable => "kernel-workspace-unavailable",
            KernelErrorCode::KernelAliasingUnsupported => "kernel-aliasing-unsupported",
            KernelErrorCode::KernelResourceAffinityConflict => "kernel-resource-affinity-conflict",
            KernelErrorCode::KernelDeviceUnsupported => "kernel-device-unsupported",
            KernelErrorCode::KernelProviderUnavailable => "kernel-provider-unavailable",
            KernelErrorCode::KernelProviderNotReady => "kernel-provider-not-ready",
            KernelErrorCode::KernelProviderSaturated => "kernel-provider-saturated",
            KernelErrorCode::KernelExecutionFailed => "kernel-execution-failed",
            KernelErrorCode::KernelOutOfDeviceMemory => "kernel-out-of-device-memory",
            KernelErrorCode::KernelCancellationUnsupported => "kernel-cancellation-unsupported",
            KernelErrorCode::KernelCancelled => "kernel-cancelled",
            KernelErrorCode::KernelTimeout => "kernel-timeout",
            KernelErrorCode::KernelDeterminismUnsupported => "kernel-determinism-unsupported",
            KernelErrorCode::KernelPrecisionUnsupported => "kernel-precision-unsupported",
            KernelErrorCode::KernelConformanceFailed => "kernel-conformance-failed",
            KernelErrorCode::KernelBrowserFeatureUnsupported => "kernel-browser-feature-unsupported",
            KernelErrorCode::InternalKernel => "internal-kernel",
        }
    }
}

impl KernelError {
    /// The category of the error.
    pub fn code(&self) -> (code: KernelErrorCode)
        ensures
            code == kernel_error_code(self@),
    {
        match self {
            KernelError::KernelNotFound { .. } => KernelErrorCode::KernelNotFound,
            KernelError::KernelVersionUnsupported { .. } => KernelErrorCode::KernelVersionUnsupported,
            KernelError::KernelOperatorMismatch { .. } => KernelErrorCode::KernelOperatorMismatch,
            KernelError::KernelAttributeUnsupported { .. } => KernelErrorCode::KernelAttributeUnsupported,
            KernelError::KernelShapeUnsupported { .. } => KernelErrorCode::KernelShapeUnsupported,
            KernelError::KernelDTypeUnsupported { .. } => KernelErrorCode::KernelDTypeUnsupported,
            KernelError::KernelLayoutUnsupported { .. } => KernelErrorCode::KernelLayoutUnsupported,
            KernelError::KernelMemoryClassUnsupported { .. } => KernelErrorCode::KernelMemoryClassUnsupported,
            KernelError::KernelWorkspaceUnavailable => KernelErrorCode::KernelWorkspaceUnavailable,
            KernelError::KernelAliasingUnsupported => KernelErrorCode::KernelAliasingUnsupported,
            KernelError::KernelResourceAffinityConflict { .. } => KernelErrorCode::KernelResourceAffinityConflict,
            KernelError::KernelDeviceUnsupported { .. } => KernelErrorCode::KernelDeviceUnsupported,
            KernelError::KernelProviderUnavailable { .. } => KernelErrorCode::KernelProviderUnavailable,
            KernelError::KernelProviderNotReady { .. } => KernelErrorCode::KernelProviderNotReady,
            KernelError::KernelProviderSaturated { .. } => KernelErrorCode::KernelProviderSaturated,
            KernelError::KernelExecutionFailed { .. } => KernelErrorCode::KernelExecutionFailed,
            KernelError::KernelOutOfDeviceMemory { .. } => KernelErrorCode::KernelOutOfDeviceMemory,
            KernelError::KernelCancellationUnsupported => KernelErrorCode::KernelCancellationUnsupported,
            KernelError::KernelCancelled => KernelErrorCode::KernelCancelled,
            KernelError::KernelTimeout => KernelErrorCode::KernelTimeout,
            KernelError::KernelDeterminismUnsupported => KernelErrorCode::KernelDeterminismUnsupported,
            KernelError::KernelPrecisionUnsupported => KernelErrorCode::KernelPrecisionUnsupported,
            KernelError::KernelConformanceFailed { .. } => KernelErrorCode::KernelConformanceFailed,
            KernelError::KernelBrowserFeatureUnsupported { .. } => KernelErrorCode::KernelBrowserFeatureUnsupported,
            KernelError::InternalKernel { .. } => KernelErrorCode::InternalKernel,
        }
    }

    /// The stable identifier of the error's category.
    pub fn id(&self) -> (id: &'static str)
        ensures
            id@ == kernel_error_id(kernel_error_code(self@)),
    {
        self.code().id()
    }
}

/// The Kernel error that a CUDA Provider error surfaces as. Running out of
/// device memory has a category of its own; the failures that no other request
/// could have avoided are failed executions.
pub open spec fn kernel_error_of(error: CudaError) -> KernelError {
    match error.code {
        CudaErrorCode::DTypeUnsupported => KernelError::KernelDTypeUnsupported {
            dtype: error.detail,
        },
        CudaErrorCode::LayoutUnsupported => KernelError::KernelLayoutUnsupported {
            layout: error.detail,
        },
        CudaErrorCode::ShapeUnsupported => KernelError::KernelShapeUnsupported {
            reason: error.detail,
        },
        CudaErrorCode::DeviceUnavailable => KernelError::KernelDeviceUnsupported {
            device: error.detail,
        },
        CudaErrorCode::OutOfDeviceMemory => KernelError::KernelOutOfDeviceMemory {
            reason: error.detail,
        },
        CudaErrorCode::ExecutionFailed => KernelError::KernelExecutionFailed {
            reason: error.detail,
        },
        CudaErrorCode::CompilationFailed => KernelError::KernelExecutionFailed {
            reason: error.detail,
        },
        CudaErrorCode::DriverFailed => KernelError::KernelExecutionFailed {
            reason: error.detail,
        },
    }
}

impl From<CudaError> for KernelError {
    fn from(error: CudaError) -> (mapped: KernelError) {
        match error.code {
            CudaErrorCode::DTypeUnsupported => KernelError::KernelDTypeUnsupported {
                dtype: error.detail,
            },
            CudaErrorCode::LayoutUnsupported => KernelError::KernelLayoutUnsupported {
                layout: error.detail,
            },
            CudaErrorCode::ShapeUnsupported => KernelError::KernelShapeUnsupported {
                reason: error.detail,
            },
            CudaErrorCode::DeviceUnavailable => KernelError::KernelDeviceUnsupported {
                device: error.detail,
            },
            CudaErrorCode::OutOfDeviceMemory => KernelError::KernelOutOfDeviceMemory {
                reason: error.detail,
            },
            CudaErrorCode::ExecutionFailed | CudaErrorCode::CompilationFailed
            | CudaErrorCode::DriverFailed => KernelError::KernelExecutionFailed {
                reason: error.detail,
            },
        }
    }
}

impl vstd::std_specs::convert::FromSpecImpl<CudaError> for KernelError {
    open spec fn obeys_from_spec() -> bool {
        true
    }

    open spec fn from_spec(error: CudaError) -> KernelError {
        kernel_error_of(error)
    }
}

/// What the Kernel error of a CUDA Provider error says.
pub open spec fn kernel_error_view_of(error: crate::error::CudaErrorView) -> KernelErrorView {
    match error.code {
        CudaErrorCode::DTypeUnsupported => KernelErrorView::KernelDTypeUnsupported {
            dtype: error.detail,
        },
        CudaErrorCode::LayoutUnsupported => KernelErrorView::KernelLayoutUnsupported {
            layout: error.detail,
        },
        CudaErrorCode::ShapeUnsupported => KernelErrorView::KernelShapeUnsupported {
            reason: error.detail,
        },
        CudaErrorCode::DeviceUnavailable => KernelErrorView::KernelDeviceUnsupported {
            device: error.detail,
        },
        CudaErrorCode::OutOfDeviceMemory => KernelErrorView::KernelOutOfDeviceMemory {
            reason: error.detail,
        },
        _ => KernelErrorView::KernelExecutionFailed { reason: error.detail },
    }
}

/// A Kernel error says of a CUDA Provider error what it says, and only device
/// memory exhaustion is reported as such.
pub proof fn law_kernel_error_keeps_the_diagnosis(error: CudaError)
    ensures
        kernel_error_of(error)@ == kernel_error_view_of(error@),
        kernel_error_code(kernel_error_of(error)@) == KernelErrorCode::KernelOutOfDeviceMemory
            <==> error.code == CudaErrorCode::OutOfDeviceMemory,
{
}

/// A Kernel error is of the category of the CUDA Provider error, with its detail:
/// what the request asked for and is not supported, a device that is not there,
/// exhausted memory, and a failed execution for all the rest.
pub proof fn law_kernel_errors_tell_the_category(error: crate::error::CudaErrorView)
    ensures
        match kernel_error_view_of(error) {
            KernelErrorView::KernelDTypeUnsupported { dtype } => error.code
                == CudaErrorCode::DTypeUnsupported && dtype == error.detail,
            KernelErrorView::KernelLayoutUnsupported { layout } => error.code
                == CudaErrorCode::LayoutUnsupported && layout == error.detail,
            KernelErrorView::KernelShapeUnsupported { reason } => error.code
                == CudaErrorCode::ShapeUnsupported && reason == error.detail,
            KernelErrorView::KernelDeviceUnsupported { device } => error.code
                == CudaErrorCode::DeviceUnavailable && device == error.detail,
            KernelErrorView::KernelOutOfDeviceMemory { reason } => error.code
                == CudaErrorCode::OutOfDeviceMemory && reason == error.detail,
            KernelErrorView::KernelExecutionFailed { reason } => reason == error.detail && (error.code
                == CudaErrorCode::ExecutionFailed || error.code == CudaErrorCode::CompilationFailed
                || error.code == CudaErrorCode::DriverFailed),
            _ => false,
        },
{
}

} // verus!
