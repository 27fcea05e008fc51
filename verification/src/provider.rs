//! The Provider: what it is, what it found, and what it offers.
//!
//! A Provider always comes into being. On a host without a driver, without a
//! compatible device or with a driver that does not match, it has no device,
//! advertises nothing and says that it is unavailable.

use crate::advertisements::{
    advertisements_for, advertisements_view, cuda_kernel_advertisements, KernelAdvertisement,
    KernelAdvertisementView,
};
use crate::device::DeviceDescriptor;
use crate::executor::{CudaExecutor, ExecutorView};
use crate::kernels::CudaKernels;
use cudarc::driver::sys::CUresult;
use cudarc::driver::DriverError;
use vstd::prelude::*;

pub use crate::session::CUDA_PROVIDER_NAME;

verus! {

pub const CUDA_PROVIDER_VERSION: &'static str = "0.1.0";

pub const CUDA_PROVIDER_VENDOR: &'static str = "magnetar";

pub const CUDA_PROVIDER_DESCRIPTION: &'static str =
    "Optimized, GPU-executing Provider built on the CUDA driver API";

/// What the Provider says of itself.
#[derive(Debug)]
pub struct ProviderMetadata {
    pub name: String,
    pub version: String,
    pub vendor: String,
    pub description: String,
}

/// What a [`ProviderMetadata`] says.
pub struct ProviderMetadataView {
    pub name: Seq<char>,
    pub version: Seq<char>,
    pub vendor: Seq<char>,
    pub description: Seq<char>,
}

impl View for ProviderMetadata {
    type V = ProviderMetadataView;

    open spec fn view(&self) -> ProviderMetadataView {
        ProviderMetadataView {
            name: self.name@,
            version: self.version@,
            vendor: self.vendor@,
            description: self.description@,
        }
    }
}

/// What the Provider says of itself, wherever it runs.
pub open spec fn provider_identity() -> ProviderMetadataView {
    ProviderMetadataView {
        name: CUDA_PROVIDER_NAME@,
        version: CUDA_PROVIDER_VERSION@,
        vendor: CUDA_PROVIDER_VENDOR@,
        description: CUDA_PROVIDER_DESCRIPTION@,
    }
}

/// What the Provider says of itself.
pub fn cuda_provider_metadata() -> (metadata: ProviderMetadata)
    ensures
        metadata@ == provider_identity(),
{
    ProviderMetadata {
        name: CUDA_PROVIDER_NAME.to_owned(),
        version: CUDA_PROVIDER_VERSION.to_owned(),
        vendor: CUDA_PROVIDER_VENDOR.to_owned(),
        description: CUDA_PROVIDER_DESCRIPTION.to_owned(),
    }
}

/// Whether the Provider can serve.
#[derive(Clone, Copy, Debug, PartialEq, Eq, Structural)]
pub enum ProviderHealth {
    Available,
    Degraded,
    Unavailable,
}

/// Why the Provider could not be set up or taken down.
#[derive(Debug)]
pub struct ProviderError {
    pub reason: String,
}

/// The Provider. `C` is a context of the driver and `S` a device allocation.
pub struct CudaProvider<C, S> {
    context: Option<C>,
    device: Option<DeviceDescriptor>,
    executor: Option<CudaExecutor<S>>,
}

/// What a [`CudaProvider`] has.
pub struct CudaProviderView<C, S> {
    pub context: Option<C>,
    pub device: Option<DeviceDescriptor>,
    pub executor: Option<CudaExecutor<S>>,
}

impl<C, S> View for CudaProvider<C, S> {
    type V = CudaProviderView<C, S>;

    closed spec fn view(&self) -> CudaProviderView<C, S> {
        CudaProviderView { context: self.context, device: self.device, executor: self.executor }
    }
}

/// Whether a Provider can serve. No hardware is not a fault, and hardware
/// without working kernels is not availability.
pub open spec fn health_of<C, S>(provider: CudaProviderView<C, S>) -> ProviderHealth {
    if provider.context is None {
        ProviderHealth::Unavailable
    } else if provider.executor is None {
        ProviderHealth::Degraded
    } else {
        ProviderHealth::Available
    }
}

/// What a Provider advertises. Without a device that is nothing.
pub open spec fn offered<C, S>(provider: CudaProviderView<C, S>) -> Seq<KernelAdvertisementView> {
    match provider.device {
        Some(device) => advertisements_for(device.metadata.id@),
        None => Seq::empty(),
    }
}

/// The ordinal of the device to bind, given how many the driver counts.
pub fn primary_device_ordinal(device_count: Result<i32, DriverError>) -> (ordinal: Result<
    usize,
    DriverError,
>)
    ensures
        ordinal == match device_count {
            Err(error) => Err::<usize, DriverError>(error),
            Ok(count) => if count > 0 {
                Ok::<usize, DriverError>(0)
            } else {
                Err::<usize, DriverError>(DriverError(CUresult::CUDA_ERROR_NO_DEVICE))
            },
        },
{
    match device_count {
        Err(error) => Err(error),
        Ok(count) => if count > 0 {
            Ok(0)
        } else {
            Err(DriverError(CUresult::CUDA_ERROR_NO_DEVICE))
        },
    }
}

/// What came of discovery. That it did not come to an end, because the
/// driver's library is not there, is that there is no device.
pub fn discovery_outcome<D>(attempt: Option<Result<D, DriverError>>) -> (outcome: Result<
    D,
    DriverError,
>)
    ensures
        outcome == match attempt {
            Some(result) => result,
            None => Err::<D, DriverError>(DriverError(CUresult::CUDA_ERROR_NO_DEVICE)),
        },
{
    match attempt {
        Some(result) => result,
        None => Err(DriverError(CUresult::CUDA_ERROR_NO_DEVICE)),
    }
}

/// The kernel set, if compiling it came to an end and to a kernel set.
pub fn compiled_kernels<X>(attempt: Option<Result<CudaKernels, X>>) -> (kernels: Option<
    CudaKernels,
>)
    ensures
        kernels == match attempt {
            Some(Ok(kernels)) => Some(kernels),
            _ => None,
        },
{
    match attempt {
        Some(Ok(kernels)) => Some(kernels),
        _ => None,
    }
}

impl<C, S> CudaProvider<C, S> {
    /// There is a context exactly where there is a device, and an executor
    /// only where there is a device.
    pub open spec fn wf(&self) -> bool {
        &&& self@.context is Some <==> self@.device is Some
        &&& self@.executor is Some ==> self@.device is Some
        &&& self@.executor matches Some(executor) ==> executor.wf()
    }

    /// The Provider, given what discovery and compiling the kernels came to.
    pub fn new(
        discovered: Result<(C, DeviceDescriptor), DriverError>,
        kernels: Option<CudaKernels>,
    ) -> (provider: CudaProvider<C, S>)
        ensures
            provider.wf(),
            match discovered {
                Err(_) => provider@.context is None && provider@.device is None
                    && provider@.executor is None,
                Ok((context, device)) => {
                    &&& provider@.context == Some(context)
                    &&& provider@.device == Some(device)
                    &&& match kernels {
                        None => provider@.executor is None,
                        Some(kernels) => provider@.executor is Some && provider@.executor->Some_0@
                            == (ExecutorView::<S> {
                            crossings: kernels@,
                            device_id: device.metadata.id@,
                            storage: Map::empty(),
                            observations: Seq::empty(),
                            submitted: Map::empty(),
                            kernel_executions: Map::empty(),
                            resource_allocations: Map::empty(),
                            next_execution_ordinal: 0,
                        }),
                    }
                },
            },
    {
        match discovered {
            Err(_) => CudaProvider { context: None, device: None, executor: None },
            Ok((context, device)) => {
                let executor = match kernels {
                    None => None,
                    Some(kernels) => Some(CudaExecutor::new(kernels, device.metadata.id.clone())),
                };
                CudaProvider { context: Some(context), device: Some(device), executor }
            },
        }
    }

    /// The Provider of a device whose kernels did not come to be.
    pub fn with_device_but_no_executor_for_test(context: C, device: DeviceDescriptor) -> (provider:
        CudaProvider<C, S>)
        ensures
            provider.wf(),
            provider@ == (CudaProviderView::<C, S> {
                context: Some(context),
                device: Some(device),
                executor: None,
            }),
    {
        CudaProvider { context: Some(context), device: Some(device), executor: None }
    }

    /// Whether a usable driver and device were found.
    pub fn is_available(&self) -> (available: bool)
        ensures
            available == (self@.context is Some),
    {
        self.context.is_some()
    }

    /// The context of the device that was found.
    pub fn context(&self) -> (context: Option<&C>)
        ensures
            match context {
                Some(context) => self@.context == Some(*context),
                None => self@.context is None,
            },
    {
        match &self.context {
            Some(context) => Some(context),
            None => None,
        }
    }

    /// What the Provider says of itself.
    pub fn metadata(&self) -> (metadata: ProviderMetadata)
        ensures
            metadata@ == provider_identity(),
    {
        cuda_provider_metadata()
    }

    /// Whether the Provider can serve.
    pub fn health(&self) -> (health: ProviderHealth)
        ensures
            health == health_of(self@),
    {
        if !self.is_available() {
            ProviderHealth::Unavailable
        } else if self.executor.is_none() {
            ProviderHealth::Degraded
        } else {
            ProviderHealth::Available
        }
    }

    /// The devices that were found: one or none.
    pub fn devices(&self) -> (devices: Vec<&DeviceDescriptor>)
        ensures
            match self@.device {
                Some(device) => devices@.len() == 1 && *devices@[0] == device,
                None => devices@.len() == 0,
            },
    {
        match &self.device {
            Some(device) => vec![device],
            None => Vec::new(),
        }
    }

    /// The kernels on offer. Without a device there are none.
    pub fn kernel_advertisements(&self) -> (advertisements: Vec<KernelAdvertisement>)
        ensures
            advertisements_view(advertisements@) == offered(self@),
    {
        match &self.device {
            Some(device) => cuda_kernel_advertisements(&device.metadata.id),
            None => {
                let none: Vec<KernelAdvertisement> = Vec::new();
                assert(advertisements_view(none@) =~= Seq::<KernelAdvertisementView>::empty());
                none
            },
        }
    }

    /// Registers nothing: devices are registered by whoever asks for them.
    pub fn register(&self) -> (result: Result<(), ProviderError>)
        ensures
            result is Ok,
    {
        Ok(())
    }

    /// Sets nothing up: that was done when the Provider came into being.
    pub fn initialize(&self) -> (result: Result<(), ProviderError>)
        ensures
            result is Ok,
    {
        Ok(())
    }

    /// Takes nothing down.
    pub fn shutdown(&self) -> (result: Result<(), ProviderError>)
        ensures
            result is Ok,
    {
        Ok(())
    }

    /// The execution API, where there is one.
    pub fn execution_api(&mut self) -> (executor: Option<&mut CudaExecutor<S>>)
        requires
            old(self).wf(),
        ensures
            match executor {
                Some(executor) => old(self)@.executor == Some(*executor) && final(self)@ == (
                CudaProviderView { executor: Some(*final(executor)), ..old(self)@ }),
                None => old(self)@.executor is None && final(self)@ == old(self)@,
            },
    {
        match &mut self.executor {
            Some(executor) => Some(executor),
            None => None,
        }
    }
}

/// The health, the devices and the advertisements of a Provider agree: it is
/// unavailable exactly if it has no device, and then it advertises nothing
/// and cannot execute; otherwise it advertises the kernel set, and it is
/// available exactly if it can execute.
pub proof fn law_health_agrees_with_devices<C, S>(provider: CudaProvider<C, S>)
    requires
        provider.wf(),
    ensures
        health_of(provider@) == ProviderHealth::Unavailable <==> provider@.device is None,
        health_of(provider@) == ProviderHealth::Available <==> provider@.executor is Some,
        offered(provider@).len() == if provider@.device is None {
            0nat
        } else {
            10nat
        },
{
}

/// A Provider that found a device offers each kernel of the set on that device
/// and no other.
pub proof fn law_offers_are_for_the_device_found<C, S>(provider: CudaProviderView<C, S>, index: int)
    requires
        0 <= index < offered(provider).len(),
    ensures
        provider.device is Some,
        offered(provider)[index].devices == seq![provider.device->Some_0.metadata.id@],
        offered(provider)[index].provider == "magnetar:provider/cuda"@,
{
}

/// A Provider is available exactly if it has a context and can execute,
/// unavailable exactly if it has no context, and degraded otherwise.
pub proof fn law_health_tells_what_is_there<C, S>(provider: CudaProviderView<C, S>)
    ensures
        health_of(provider) == ProviderHealth::Available <==> provider.context is Some
            && provider.executor is Some,
        health_of(provider) == ProviderHealth::Unavailable <==> provider.context is None,
        health_of(provider) == ProviderHealth::Degraded <==> provider.context is Some
            && provider.executor is None,
{
}

} // verus!
