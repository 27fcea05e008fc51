//! Direct access from one device to another's memory: an explicit query and
//! an explicit step that enables it. Access is never inferred from what two
//! devices have in common.

use cudarc::driver::sys::CUresult;
use cudarc::driver::DriverError;
use vstd::prelude::*;

verus! {

/// `cudarc`'s `CUresult::result`: success is `Ok`, and any other code is the
/// error of that code.
pub assume_specification[ CUresult::result ](code: CUresult) -> (result: Result<(), DriverError>)
    ensures
        result == match code {
            CUresult::CUDA_SUCCESS => Ok::<(), DriverError>(()),
            _ => Err::<(), DriverError>(DriverError(code)),
        },
;

/// Whether one device can access another, given the driver's result code and
/// the flag it filled in.
pub fn device_can_access_peer(code: CUresult, can_access: i32) -> (answer: Result<
    bool,
    DriverError,
>)
    ensures
        answer == match code {
            CUresult::CUDA_SUCCESS => Ok::<bool, DriverError>(can_access != 0),
            _ => Err::<bool, DriverError>(DriverError(code)),
        },
{
    match code.result() {
        Ok(_) => Ok(can_access != 0),
        Err(error) => Err(error),
    }
}

/// What came of enabling access, given the driver's result code, or why the
/// context could not be made current and the driver was not asked. That access
/// was enabled before is success.
pub fn enable_peer_access(answer: Result<CUresult, DriverError>) -> (result: Result<
    (),
    DriverError,
>)
    ensures
        result == match answer {
            Err(error) => Err::<(), DriverError>(error),
            Ok(CUresult::CUDA_SUCCESS) => Ok::<(), DriverError>(()),
            Ok(CUresult::CUDA_ERROR_PEER_ACCESS_ALREADY_ENABLED) => Ok::<(), DriverError>(()),
            Ok(code) => Err::<(), DriverError>(DriverError(code)),
        },
{
    match answer {
        Err(error) => Err(error),
        Ok(CUresult::CUDA_SUCCESS) | Ok(CUresult::CUDA_ERROR_PEER_ACCESS_ALREADY_ENABLED) => Ok(()),
        Ok(code) => Err(DriverError(code)),
    }
}

} // verus!
