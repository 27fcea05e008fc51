//! A CUDA Provider: kernel planning, tensor residency and execution
//! bookkeeping for a Runtime that dispatches operators to an NVIDIA device.
//!
//! The library decides; it does not touch the device. It holds shapes and
//! parameters to the rules of the kernel set and plans launches
//! ([`kernels`], [`launch`], [`dispatch`]), keeps track of what is resident
//! on the device and of what was granted for it ([`executor`],
//! [`admission`], [`memory`]), files results ([`session`]), and says what was found and
//! what is on offer ([`device`], [`advertisements`], [`provider`], [`peer`]).
//! What the driver, the compiler or the memory manager answer comes in as an
//! argument.

pub mod addressing;
pub mod admission;
pub mod advertisements;
pub mod catalog;
pub mod device;
pub mod dispatch;
pub mod effects;
pub mod error;
pub mod executor;
pub mod half_precision;
pub mod invocation;
pub mod kernel_error;
pub mod kernels;
pub mod launch;
pub mod laws;
pub mod memory;
pub mod peer;
pub mod plans;
pub mod provider;
pub mod ratio;
pub mod rounding;
pub mod session;
pub mod table;
pub mod tensor;
pub mod text;

pub use error::{CudaError, CudaErrorCode};
pub use executor::CudaExecutor;
pub use kernels::CudaKernels;
pub use provider::CudaProvider;
