//! Structured errors of the CUDA Provider.
//!
//! Native driver and compiler errors are mapped to stable categories. The
//! native error survives only as a diagnostic text, never as a pointer, a
//! context or a module handle.

use cudarc::driver::sys::CUresult;
use cudarc::driver::DriverError;
use cudarc::nvrtc::CompileError;
use vstd::prelude::*;

verus! {

/// The driver's result codes, as the driver bindings enumerate them.
#[verifier::external_type_specification]
pub struct ExCUresult(CUresult);

/// The driver bindings' error: one result code.
#[verifier::external_type_specification]
pub struct ExDriverError(DriverError);

/// The run-time compiler's error.
#[verifier::external_type_specification]
#[verifier::external_body]
pub struct ExCompileError(CompileError);

/// The category of a CUDA Provider error.
#[derive(Clone, Copy, Debug, PartialEq, Eq, Structural)]
pub enum CudaErrorCode {
    /// The requested combination of shape, rank and dimensions is not valid for
    /// the operator.
    ShapeUnsupported,
    /// The requested dtype is not `f32`.
    DTypeUnsupported,
    /// The requested layout is not contiguous.
    LayoutUnsupported,
    /// The kernel ran but could not produce a defined result.
    ExecutionFailed,
    /// Device memory allocation failed.
    OutOfDeviceMemory,
    /// The kernel source did not compile.
    CompilationFailed,
    /// A driver call that is not an allocation failed.
    DriverFailed,
    /// No compatible driver or device was available.
    DeviceUnavailable,
}

/// A structured CUDA Provider error.
#[derive(Clone, Debug, PartialEq, Eq)]
pub struct CudaError {
    pub code: CudaErrorCode,
    pub detail: String,
}

/// What a [`CudaError`] says.
pub struct CudaErrorView {
    pub code: CudaErrorCode,
    pub detail: Seq<char>,
}

impl View for CudaError {
    type V = CudaErrorView;

    open spec fn view(&self) -> CudaErrorView {
        CudaErrorView { code: self.code, detail: self.detail@ }
    }
}

/// The name of an error category.
pub open spec fn code_name(code: CudaErrorCode) -> Seq<char> {
    match code {
        CudaErrorCode::ShapeUnsupported => "ShapeUnsupported"@,
        CudaErrorCode::DTypeUnsupported => "DTypeUnsupported"@,
        CudaErrorCode::LayoutUnsupported => "LayoutUnsupported"@,
        CudaErrorCode::ExecutionFailed => "ExecutionFailed"@,
        CudaErrorCode::OutOfDeviceMemory => "OutOfDeviceMemory"@,
        CudaErrorCode::CompilationFailed => "CompilationFailed"@,
        CudaErrorCode::DriverFailed => "DriverFailed"@,
        CudaErrorCode::DeviceUnavailable => "DeviceUnavailable"@,
    }
}

/// The one-line text of an error: its category and its detail.
pub open spec fn error_text(error: CudaErrorView) -> Seq<char> {
    code_name(error.code) + ": "@ + error.detail
}

/// The category of a driver result code that is not success.
pub open spec fn driver_error_category(result: CUresult) -> CudaErrorCode {
    match result {
        CUresult::CUDA_ERROR_OUT_OF_MEMORY => CudaErrorCode::OutOfDeviceMemory,
        CUresult::CUDA_ERROR_NO_DEVICE => CudaErrorCode::DeviceUnavailable,
        CUresult::CUDA_ERROR_INVALID_DEVICE => CudaErrorCode::DeviceUnavailable,
        _ => CudaErrorCode::DriverFailed,
    }
}

/// The text that the run-time compiler's error displays as.
pub uninterp spec fn compile_error_display(error: CompileError) -> Seq<char>;

/// `cudarc::nvrtc::CompileError`'s `to_string`, through its `Display`: the
/// text is a function of the error alone.
#[verifier::external_body]
fn compile_error_to_string(error: &CompileError) -> (text: String)
    ensures
        text@ == compile_error_display(*error),
{
    error.to_string()
}

impl CudaErrorCode {
    /// The name of the category.
    pub fn name(self) -> (name: &'static str)
        ensures
            name@ == code_name(self),
    {
        match self {
            CudaErrorCode::ShapeUnsupported => "ShapeUnsupported",
            CudaErrorCode::DTypeUnsupported => "DTypeUnsupported",
            CudaErrorCode::LayoutUnsupported => "LayoutUnsupported",
            CudaErrorCode::ExecutionFailed => "ExecutionFailed",
            CudaErrorCode::OutOfDeviceMemory => "OutOfDeviceMemory",
            CudaErrorCode::CompilationFailed => "CompilationFailed",
            CudaErrorCode::DriverFailed => "DriverFailed",
            CudaErrorCode::DeviceUnavailable => "DeviceUnavailable",
        }
    }
}

impl CudaError {
    /// An error of a category, with its diagnostic text.
    pub fn new(code: CudaErrorCode, detail: String) -> (error: CudaError)
        ensures
            error.code == code,
            error.detail == detail,
            error@ == (CudaErrorView { code, detail: detail@ }),
    {
        CudaError { code, detail }
    }

    /// An error whose diagnostic text is fixed.
    pub fn of(code: CudaErrorCode, detail: &str) -> (error: CudaError)
        ensures
            error@ == (CudaErrorView { code, detail: detail@ }),
    {
        CudaError { code, detail: detail.to_owned() }
    }

    /// The error that a driver error stands for. `detail` is the text that
    /// the driver gives for it.
    pub fn from_driver_error(error: DriverError, detail: String) -> (mapped: CudaError)
        ensures
            mapped@ == (CudaErrorView { code: driver_error_category(error.0), detail: detail@ }),
    {
        let code = match error.0 {
            CUresult::CUDA_ERROR_OUT_OF_MEMORY => CudaErrorCode::OutOfDeviceMemory,
            CUresult::CUDA_ERROR_NO_DEVICE => CudaErrorCode::DeviceUnavailable,
            CUresult::CUDA_ERROR_INVALID_DEVICE => CudaErrorCode::DeviceUnavailable,
            _ => CudaErrorCode::DriverFailed,
        };
        CudaError { code, detail }
    }

    /// The error that a failed kernel compilation stands for.
    pub fn from_compile_error(error: &CompileError) -> (mapped: CudaError)
        ensures
            mapped@ == (CudaErrorView {
                code: CudaErrorCode::CompilationFailed,
                detail: compile_error_display(*error),
            }),
    {
        CudaError {
            code: CudaErrorCode::CompilationFailed,
            detail: compile_error_to_string(error),
        }
    }

    /// The one-line text of the error.
    pub fn to_text(&self) -> (text: String)
        ensures
            text@ == error_text(self@),
    {
        let mut text = self.code.name().to_owned();
        text.append(": ");
        text.append(self.detail.as_str());
        text
    }
}

/// Only exhausted memory is reported as such, and only a device that is not
/// there or not one as unavailable; every other code is a failure of the driver.
pub proof fn law_driver_codes_have_their_category(result: CUresult)
    ensures
        driver_error_category(result) == CudaErrorCode::OutOfDeviceMemory <==> result
            == CUresult::CUDA_ERROR_OUT_OF_MEMORY,
        driver_error_category(result) == CudaErrorCode::DeviceUnavailable <==> result
            == CUresult::CUDA_ERROR_NO_DEVICE || result == CUresult::CUDA_ERROR_INVALID_DEVICE,
        driver_error_category(result) == CudaErrorCode::OutOfDeviceMemory || driver_error_category(
            result,
        ) == CudaErrorCode::DeviceUnavailable || driver_error_category(result)
            == CudaErrorCode::DriverFailed,
{
}

/// The text of an error ends in its detail, behind its category.
pub proof fn law_error_text_tells_category_and_detail(error: CudaErrorView)
    ensures
        ({
            let text = error_text(error);
            let prefix = code_name(error.code).len() as int + 2;
            &&& text.len() == prefix + error.detail.len()
            &&& text.skip(prefix) == error.detail
            &&& text.take(prefix - 2) == code_name(error.code)
        }),
{
    reveal_strlit(": ");
    let text = error_text(error);
    let prefix = code_name(error.code).len() as int + 2;
    assert(text.skip(prefix) =~= error.detail);
    assert(text.take(prefix - 2) =~= code_name(error.code));
}

/// An error category is told by its name.
pub proof fn law_categories_are_told_by_name(code: CudaErrorCode)
    ensures
        code == CudaErrorCode::ShapeUnsupported ==> code_name(code) == "ShapeUnsupported"@,
        code == CudaErrorCode::DTypeUnsupported ==> code_name(code) == "DTypeUnsupported"@,
        code == CudaErrorCode::LayoutUnsupported ==> code_name(code) == "LayoutUnsupported"@,
        code == CudaErrorCode::ExecutionFailed ==> code_name(code) == "ExecutionFailed"@,
        code == CudaErrorCode::OutOfDeviceMemory ==> code_name(code) == "OutOfDeviceMemory"@,
        code == CudaErrorCode::CompilationFailed ==> code_name(code) == "CompilationFailed"@,
        code == CudaErrorCode::DriverFailed ==> code_name(code) == "DriverFailed"@,
        code == CudaErrorCode::DeviceUnavailable ==> code_name(code) == "DeviceUnavailable"@,
{
}

} // verus!
