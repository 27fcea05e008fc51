# magnetar-provider-cuda

A CUDA Provider for the Magnetar local AI Runtime: it plans and dispatches
the kernel set (matmul, embedding, rmsnorm, rope, attention, softmax, silu,
add, mul, residual-add) on an NVIDIA device.

The decisions are a library that Verus verifies, in `src/`. It never touches
the device: what the driver, the run-time compiler and the memory manager
answer comes in as an argument, and what they are asked to do goes out as a
value.

| Modules | What they are about |
| --- | --- |
| `launch`, `kernels`, `addressing` | what each kernel accepts and launches, and that it stays inside its buffers |
| `dispatch`, `catalog` | from an invocation's name, inputs and attributes to a launch |
| `executor`, `laws` | resident tensors, invocations, filed results, observations |
| `admission`, `memory` | what is asked of the memory manager, and allocations granted, replaced and released |
| `session`, `invocation`, `kernel_error`, `error` | handles, results and errors |
| `provider`, `device`, `advertisements`, `peer` | what was found and what is on offer |
| `half_precision`, `rounding`, `ratio` | floating-point formats on bit patterns |
| `table`, `tensor`, `text` | name tables, host tensors, rendering |

`app/` is the rest: calls to the driver through `cudarc`, the kernel source,
and the Runtime's Provider and execution contracts.

Tensors are `f32` and contiguous. They stay in device memory between
invocations and cross to the host only when they are read. A Provider comes
into being on any host; without a driver or a device it is unavailable, with a
device whose kernels do not compile it is degraded.

The driver calls are not part of what is verified, and neither is the kernel
source: the library fixes the arguments of each launch, and proves that the
indices a kernel forms from them lie inside the buffers.
