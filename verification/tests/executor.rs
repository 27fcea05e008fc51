use magnetar_provider_cuda::admission::{plan_outputs, settle, Admission, OutputRequest};
use magnetar_provider_cuda::error::{CudaError, CudaErrorCode};
use magnetar_provider_cuda::executor::{
    AdmissionOutcome, AdmittedTensorWrite, CudaExecutor, Dispatch, MemoryError, TensorValue,
    TensorValueAdmissionError, TensorWrite,
};
use magnetar_provider_cuda::invocation::{
    KernelInvocation, KernelObservationKind, KernelResult, KernelResultStatus,
    OperatorAttributeValue, OutputResource,
};
use magnetar_provider_cuda::kernel_error::KernelError;
use magnetar_provider_cuda::kernels::CudaKernels;
use magnetar_provider_cuda::launch::{KernelArguments, KernelFunction, KernelLaunch};
use magnetar_provider_cuda::memory::{
    MemoryAllocationClass, MemoryAllocationOwner, MemoryAllocationRequest, MemoryPlacement,
    TensorResidency,
};
use magnetar_provider_cuda::session::{
    ProviderCancellationOutcome, ProviderExecutionErrorCode, ProviderExecutionPhase,
    ProviderExecutionRequest, SchedulingState,
};
use magnetar_provider_cuda::table::NameTable;
use magnetar_provider_cuda::tensor::HostTensor;

/// An executor whose device allocations are numbers.
fn executor() -> CudaExecutor<u32> {
    let kernels = CudaKernels::compile_and_load(Ok(()), Ok(())).unwrap();
    CudaExecutor::new(kernels, "test-device".to_string())
}

fn tensor(shape: &[u64]) -> HostTensor<f32> {
    let elements = shape.iter().product::<u64>() as usize;
    HostTensor::new(shape.to_vec(), vec![1.0; elements]).unwrap()
}

fn write(executor: &mut CudaExecutor<u32>, id: &str, shape: &[u64], allocation: u32) {
    executor
        .write_tensor(id.to_string(), &tensor(shape), Ok(allocation))
        .expect("upload must succeed");
}

fn failure() -> CudaError {
    CudaError::of(CudaErrorCode::OutOfDeviceMemory, "no room")
}

/// An invocation whose outputs have their place in the list as affinity.
fn invocation(kernel: &str, inputs: &[&str], outputs: &[&str]) -> KernelInvocation<usize> {
    KernelInvocation {
        id: "invocation".to_string(),
        kernel_name: kernel.to_string(),
        kernel_key: "key".to_string(),
        inputs: inputs.iter().map(|id| id.to_string()).collect(),
        outputs: outputs
            .iter()
            .enumerate()
            .map(|(at, id)| OutputResource {
                id: id.to_string(),
                byte_size: Ok(4),
                affinity: at,
            })
            .collect(),
        deadline_millis: None,
        attributes: NameTable::new(),
    }
}

fn with(
    mut invocation: KernelInvocation<usize>,
    attributes: Vec<(&str, OperatorAttributeValue)>,
) -> KernelInvocation<usize> {
    for (name, value) in attributes {
        invocation.attributes.insert(name.to_string(), value);
    }
    invocation
}

fn integer(value: i64) -> OperatorAttributeValue {
    OperatorAttributeValue::Integer(value)
}

fn text(value: &str) -> OperatorAttributeValue {
    OperatorAttributeValue::String(value.to_string())
}

fn launched(executor: &mut CudaExecutor<u32>, invocation: &KernelInvocation<usize>) -> KernelLaunch {
    assert!(executor.can_execute(invocation, &Ok(())));
    match executor.execute_invocation(invocation, Ok(())) {
        Dispatch::Launch(launch) => launch,
        Dispatch::Finished(result) => panic!("refused: {:?}", result.error),
    }
}

fn refused(executor: &mut CudaExecutor<u32>, invocation: &KernelInvocation<usize>) -> KernelError {
    assert!(executor.can_execute(invocation, &Ok(())));
    match executor.execute_invocation(invocation, Ok(())) {
        Dispatch::Launch(launch) => panic!("{:?} was planned", launch.function),
        Dispatch::Finished(result) => {
            assert_eq!(result.status, KernelResultStatus::Failed);
            assert_eq!(result.output_readiness.len(), 0);
            assert!(result.updated_resources.is_empty());
            result.error.expect("a failed result has its error")
        }
    }
}

fn attribute(error: KernelError) -> String {
    match error {
        KernelError::KernelAttributeUnsupported { attribute } => attribute,
        other => panic!("{other:?} is not about an attribute"),
    }
}

fn reason(error: KernelError) -> String {
    match error {
        KernelError::KernelExecutionFailed { reason } => reason,
        other => panic!("{other:?} is not a failed execution"),
    }
}

fn kinds(executor: &CudaExecutor<u32>) -> Vec<KernelObservationKind> {
    executor.observations().iter().map(|observation| observation.kind).collect()
}

#[test]
fn repeated_write_release_cycles_do_not_grow_storage_unboundedly() {
    let mut executor = executor();
    for step in 0..50u32 {
        let tensor = HostTensor::new(vec![2, 2], vec![1.0, 2.0, 3.0, 4.0]).unwrap();
        executor
            .write_tensor(format!("step-{step}"), &tensor, Ok(step))
            .expect("upload must succeed");
        if step >= 1 {
            assert!(
                executor.release_tensor(&format!("step-{}", step - 1)),
                "previous step's resource must still be present to release"
            );
        }
        assert!(
            executor.resident_count() <= 2,
            "storage must not grow past the live window at step {step}"
        );
    }
    assert_eq!(executor.resident_count(), 1);
    assert_eq!(executor.upload_count(), 50);
    assert_eq!(executor.device_id(), "test-device");
}

#[test]
fn a_written_tensor_is_resident_until_it_is_released() {
    let mut executor = executor();
    write(&mut executor, "a", &[2], 1);
    write(&mut executor, "b", &[3], 2);
    write(&mut executor, "a", &[4], 3);
    let a = executor.resident(&"a".to_string()).unwrap();
    assert_eq!((a.slice, a.elements, &a.shape), (3, 4, &vec![4]));
    assert_eq!(executor.resident(&"b".to_string()).unwrap().slice, 2);
    assert!(executor.resident(&"c".to_string()).is_none());
    assert!(executor.write_tensor("a".to_string(), &tensor(&[1]), Err(failure())).is_err());
    assert_eq!(executor.resident(&"a".to_string()).unwrap().slice, 3);
    assert_eq!(executor.upload_count(), 3);
    assert!(executor.release_tensor(&"a".to_string()));
    assert!(!executor.release_tensor(&"a".to_string()));
    assert_eq!(executor.resident_count(), 1);
}

#[test]
fn a_tensor_is_read_only_where_it_is_resident_and_whole() {
    let mut executor = executor();
    write(&mut executor, "a", &[2, 1], 1);
    assert!(executor.read_tensor(&"b".to_string(), Ok(vec![1.0f32])).is_none());
    assert!(executor.read_tensor::<f32>(&"a".to_string(), Err(failure())).is_none());
    assert_eq!(executor.download_count(), 0);
    assert!(executor.read_tensor(&"a".to_string(), Ok(vec![1.0f32])).is_none());
    assert_eq!(executor.download_count(), 1);
    let tensor = executor.read_tensor(&"a".to_string(), Ok(vec![5.0f32, 6.0])).unwrap();
    assert_eq!((tensor.shape, tensor.data), (vec![2, 1], vec![5.0, 6.0]));
    assert_eq!(executor.download_count(), 2);
    assert_eq!(executor.resident_count(), 1);
}

#[test]
fn an_admitted_write_replaces_and_releases_the_grant_before() {
    let mut executor = executor();
    let id = || "a".to_string();
    let owner = MemoryAllocationOwner::Session("s".to_string());
    let request =
        executor.tensor_admission(&tensor(&[2, 3]), MemoryAllocationClass::KvCache, owner);
    assert_eq!(
        request,
        MemoryAllocationRequest {
            class: MemoryAllocationClass::KvCache,
            size_bytes: 24,
            placement: MemoryPlacement::Device("test-device".to_string()),
            owner: MemoryAllocationOwner::Session("s".to_string()),
        }
    );
    let write = executor.write_tensor_admitted(id(), &tensor(&[2]), 11, Ok(1));
    assert!(write.result.is_ok());
    assert_eq!(write.release, None);
    let write = executor.write_tensor_admitted(id(), &tensor(&[2]), 12, Ok(2));
    assert!(write.result.is_ok());
    assert_eq!(write.release, Some(11));
    let write = executor.write_tensor_admitted(id(), &tensor(&[2]), 13, Err(failure()));
    match write.result {
        Err(MemoryError::AllocationDenied { reason }) => assert_eq!(
            reason,
            "CUDA device upload failed: OutOfDeviceMemory: no room"
        ),
        Ok(()) => panic!("the upload failed"),
    }
    assert_eq!(write.release, Some(13));
    assert_eq!(executor.resident(&id()).unwrap().slice, 2);
    let released = executor.release_admitted_tensor(&id());
    assert_eq!((released.present, released.release), (true, Some(12)));
    let released = executor.release_admitted_tensor(&id());
    assert_eq!((released.present, released.release), (false, None));
}

#[test]
fn opaque_values_stand_for_what_is_resident() {
    let mut executor = executor();
    let id = || "a".to_string();
    assert!(executor.read_tensor_value::<f32>(&id()).is_none());
    let error = executor
        .write_tensor_value::<f32>(id(), TensorWrite::Opaque)
        .unwrap_err();
    assert_eq!(error.code, ProviderExecutionErrorCode::MaterializationFailed);
    assert_eq!(error.phase, ProviderExecutionPhase::Submit);
    assert_eq!(error.provider, "magnetar:provider/cuda");
    assert_eq!(error.device.as_deref(), Some("test-device"));
    assert_eq!(error.message, "no existing device allocation for opaque resource 'a'");
    let write = executor.write_tensor_value_admitted::<f32>(id(), AdmittedTensorWrite::Opaque);
    assert!(matches!(write.result, Err(TensorValueAdmissionError::Provider(_))));
    assert_eq!(write.release, None);

    let host = |copied| TensorWrite::Host { tensor: tensor(&[2]), copied };
    let error = executor.write_tensor_value(id(), host(Err(failure()))).unwrap_err();
    assert_eq!(error.message, "CUDA device upload failed: OutOfDeviceMemory: no room");
    executor.write_tensor_value(id(), host(Ok(7))).unwrap();
    assert!(matches!(
        executor.read_tensor_value::<f32>(&id()),
        Some(TensorValue::Opaque)
    ));
    assert!(executor.write_tensor_value::<f32>(id(), TensorWrite::Opaque).is_ok());
    let write = executor.write_tensor_value_admitted::<f32>(id(), AdmittedTensorWrite::Opaque);
    assert!(write.result.is_ok());
    let admitted = |allocation, copied| AdmittedTensorWrite::Host {
        tensor: tensor(&[2]),
        allocation,
        copied,
    };
    let write = executor.write_tensor_value_admitted(id(), admitted(1, Ok(8)));
    assert!(write.result.is_ok());
    assert_eq!(write.release, None);
    let write = executor.write_tensor_value_admitted(id(), admitted(2, Err(failure())));
    assert!(matches!(
        write.result,
        Err(TensorValueAdmissionError::Memory(MemoryError::AllocationDenied { .. }))
    ));
    assert_eq!(write.release, Some(2));
    assert_eq!((executor.upload_count(), executor.download_count()), (2, 0));
}

#[test]
fn every_kernel_is_dispatched_by_its_name() {
    let mut executor = executor();
    write(&mut executor, "m", &[2, 4], 1);
    write(&mut executor, "square", &[4, 4], 2);
    write(&mut executor, "row", &[4], 3);
    for (kernel, inputs, function) in [
        ("matmul", vec!["m", "square"], KernelFunction::Matmul),
        ("embedding", vec!["square", "row"], KernelFunction::EmbeddingLookup),
        ("rmsnorm", vec!["m", "row"], KernelFunction::RmsNorm),
        ("rope", vec!["m"], KernelFunction::Rope),
        ("attention", vec!["m", "m", "m"], KernelFunction::Attention),
        ("softmax", vec!["m"], KernelFunction::SoftmaxRows),
        ("silu", vec!["row"], KernelFunction::Silu),
        ("add", vec!["m", "m"], KernelFunction::Add),
        ("mul", vec!["m", "m"], KernelFunction::Mul),
        ("residual-add", vec!["m", "m"], KernelFunction::Add),
    ] {
        let invocation = with(
            invocation(kernel, &inputs, &["out"]),
            vec![
                ("dimension", integer(4)),
                ("head_count", integer(1)),
                ("head_dimension", integer(4)),
            ],
        );
        assert_eq!(launched(&mut executor, &invocation).function, function);
    }
    for unknown in ["gelu", "Matmul", "residual_add", "add-half", ""] {
        match refused(&mut executor, &invocation(unknown, &[], &[])) {
            KernelError::KernelNotFound { kernel } => assert_eq!(kernel, unknown),
            other => panic!("{other:?} is not an unknown kernel"),
        }
    }
}

#[test]
fn inputs_are_looked_up_before_attributes_are_read() {
    let mut executor = executor();
    write(&mut executor, "m", &[2, 4], 1);
    for (kernel, inputs, expected) in [
        ("silu", vec![], "missing input at index 0"),
        ("add", vec!["m"], "missing input at index 1"),
        ("attention", vec!["m", "m"], "missing input at index 2"),
        ("matmul", vec!["gone", "m"], "no materialized data for input resource gone"),
        ("rope", vec!["gone"], "no materialized data for input resource gone"),
    ] {
        let error = refused(&mut executor, &invocation(kernel, &inputs, &["out"]));
        assert_eq!(reason(error), expected);
    }
    match refused(&mut executor, &invocation("matmul", &["m", "m"], &["out"])) {
        KernelError::KernelShapeUnsupported { reason } => {
            assert_eq!(reason, "matmul inner dimension mismatch: 4 vs 2");
        }
        other => panic!("{other:?} is not about a shape"),
    }
}

#[test]
fn attributes_have_their_defaults() {
    let mut executor = executor();
    write(&mut executor, "m", &[2, 4], 1);
    write(&mut executor, "row", &[4], 2);
    let rmsnorm = launched(&mut executor, &invocation("rmsnorm", &["m", "row"], &["out"]));
    match rmsnorm.arguments {
        KernelArguments::RmsNorm { epsilon, .. } => assert_eq!(epsilon, 1e-6f32.to_bits()),
        other => panic!("{other:?} is no normalization"),
    }
    let rope = with(
        invocation("rope", &["m"], &["out"]),
        vec![("dimension", integer(2)), ("head_count", integer(-1))],
    );
    match launched(&mut executor, &rope).arguments {
        KernelArguments::Rope { base, scale, position_offset, head_count, .. } => {
            assert_eq!(base, 10000.0f32.to_bits());
            assert_eq!(scale, 1.0f32.to_bits());
            assert_eq!((position_offset, head_count), (0, 1));
        }
        other => panic!("{other:?} is no rotation"),
    }
    let rope = with(
        invocation("rope", &["m"], &["out"]),
        vec![
            ("dimension", integer(2)),
            ("head_count", integer(2)),
            ("position_offset", integer(9)),
            ("position_mode", text("sequential")),
            ("base", OperatorAttributeValue::Float(0.1f64.to_bits())),
            ("scale", integer(3)),
        ],
    );
    match launched(&mut executor, &rope).arguments {
        KernelArguments::Rope { base, scale, position_offset, head_count, .. } => {
            assert_eq!(base, 0.1f32.to_bits());
            assert_eq!(scale, 1.0f32.to_bits());
            assert_eq!((position_offset, head_count), (9, 2));
        }
        other => panic!("{other:?} is no rotation"),
    }
    let matmul = with(
        invocation("matmul", &["m", "m"], &["out"]),
        vec![
            ("transpose_a", OperatorAttributeValue::Boolean(true)),
            ("transpose_b", integer(1)),
        ],
    );
    assert_eq!(launched(&mut executor, &matmul).shape, vec![4, 4]);
}

#[test]
fn rope_attributes_are_held_to_their_rules() {
    let mut executor = executor();
    write(&mut executor, "m", &[2, 4], 1);
    for (attributes, expected) in [
        (vec![], "dimension"),
        (vec![("dimension", integer(-2))], "dimension"),
        (vec![("dimension", text("2"))], "dimension"),
        (
            vec![("dimension", integer(2)), ("position_mode", text("ntk"))],
            "position_mode 'ntk' is not implemented",
        ),
        (
            vec![("dimension", integer(2)), ("position_offset", integer(-7))],
            "position_offset -7 must not be negative",
        ),
        (
            vec![("dimension", integer(2)), ("position_offset", OperatorAttributeValue::DType)],
            "position_offset must be an integer",
        ),
    ] {
        let rope = with(invocation("rope", &["m"], &["out"]), attributes);
        assert_eq!(attribute(refused(&mut executor, &rope)), expected);
    }
    let rope = with(
        invocation("rope", &["m"], &["out"]),
        vec![("dimension", integer(2)), ("position_mode", integer(1))],
    );
    assert_eq!(launched(&mut executor, &rope).function, KernelFunction::Rope);
}

#[test]
fn attention_attributes_are_held_to_their_rules() {
    let mut executor = executor();
    write(&mut executor, "m", &[2, 4], 1);
    let heads = || vec![("head_count", integer(2)), ("head_dimension", integer(2))];
    let mask = |kind: &str, causal: bool| {
        let mut attributes = heads();
        attributes.push(("attention_mask_kind", OperatorAttributeValue::String(kind.to_string())));
        attributes.push(("causal", OperatorAttributeValue::Boolean(causal)));
        attributes
    };
    for (attributes, expected) in [
        (vec![], "head_count"),
        (vec![("head_count", integer(2))], "head_dimension"),
        (mask("alibi", true), "attention_mask_kind 'alibi' is not implemented"),
        (
            mask("causal", false),
            "attention_mask_kind 'causal' is inconsistent with causal=false",
        ),
        (
            mask("bidirectional", true),
            "attention_mask_kind 'bidirectional' is inconsistent with causal=true",
        ),
    ] {
        let attention = with(invocation("attention", &["m", "m", "m"], &["out"]), attributes);
        assert_eq!(attribute(refused(&mut executor, &attention)), expected);
    }
    for attributes in [heads(), mask("causal", true), mask("bidirectional", false)] {
        let attention = with(invocation("attention", &["m", "m", "m"], &["out"]), attributes);
        assert_eq!(launched(&mut executor, &attention).function, KernelFunction::Attention);
    }
    let mut attributes = mask("causal", true);
    attributes.push(("window_size", integer(1)));
    attributes.push(("kv_head_count", integer(2)));
    let attention = with(invocation("attention", &["m", "m", "m"], &["out"]), attributes);
    match launched(&mut executor, &attention).arguments {
        KernelArguments::Attention { causal, window, kv_head_count, .. } => {
            assert_eq!((causal, window, kv_head_count), (1, 1, 2));
        }
        other => panic!("{other:?} is no attention"),
    }
}

#[test]
fn an_invocation_that_does_not_fit_is_told_beforehand() {
    let mut executor = executor();
    write(&mut executor, "tall", &[1 << 40, 0], 1);
    write(&mut executor, "wide", &[0, 1 << 40], 2);
    assert!(!executor.can_execute(&invocation("matmul", &["tall", "wide"], &["out"]), &Ok(())));
    assert!(executor.can_execute(&invocation("matmul", &["wide", "tall"], &["out"]), &Ok(())));
    assert!(executor.can_execute(&invocation("add", &["tall", "wide"], &["out"]), &Ok(())));
}

#[test]
fn an_invocation_is_observed_from_start_to_end() {
    let mut executor = executor();
    write(&mut executor, "a", &[2], 1);
    let add = invocation("add", &["a", "a"], &["sum"]);
    let launch = launched(&mut executor, &add);
    assert_eq!(kinds(&executor), [KernelObservationKind::KernelDispatchStarted]);
    let result = executor.finish_invocation(&add, launch, Ok((5, 0)));
    assert_eq!(result.invocation, "invocation");
    assert_eq!(result.status, KernelResultStatus::Succeeded);
    assert_eq!(result.output_readiness.get(&"sum".to_string()), Some(&true));
    assert_eq!(result.updated_resources, ["sum"]);
    assert!(result.error.is_none());
    let sum = executor.resident(&"sum".to_string()).unwrap();
    assert_eq!((sum.slice, sum.elements, &sum.shape), (5, 2, &vec![2]));
    assert_eq!(
        kinds(&executor),
        [
            KernelObservationKind::KernelDispatchStarted,
            KernelObservationKind::KernelDispatchCompleted,
        ]
    );

    let launch = launched(&mut executor, &add);
    let result = executor.finish_invocation(&add, launch, Err(failure()));
    assert_eq!(result.status, KernelResultStatus::Failed);
    assert!(matches!(
        result.error,
        Some(KernelError::KernelOutOfDeviceMemory { .. })
    ));
    let observations = executor.observations();
    let last = observations.last().unwrap();
    assert_eq!(last.kind, KernelObservationKind::KernelDispatchFailed);
    assert_eq!((last.kernel.as_str(), last.invocation.as_str()), ("key", "invocation"));
    assert_eq!(last.error.as_deref(), Some("kernel-out-of-device-memory"));
    assert_eq!(observations.len(), 4);

    let homeless = invocation("add", &["a", "a"], &[]);
    let launch = launched(&mut executor, &homeless);
    let result = executor.finish_invocation(&homeless, launch, Ok((6, 0)));
    assert_eq!(reason(result.error.unwrap()), "missing output at index 0");
    assert_eq!(executor.resident_count(), 2);
    assert_eq!((executor.upload_count(), executor.download_count()), (1, 0));
}

#[test]
fn a_deadline_that_has_passed_comes_before_everything() {
    let mut executor = executor();
    let mut late = invocation("no such kernel", &[], &[]);
    late.deadline_millis = Some(0);
    let invalid = || Err(KernelError::KernelDeterminismUnsupported);
    match executor.execute_invocation(&late, invalid()) {
        Dispatch::Finished(result) => {
            assert!(matches!(result.error, Some(KernelError::KernelTimeout)));
        }
        Dispatch::Launch(_) => panic!("the deadline has passed"),
    }
    late.deadline_millis = Some(1);
    match executor.execute_invocation(&late, invalid()) {
        Dispatch::Finished(result) => {
            assert!(matches!(
                result.error,
                Some(KernelError::KernelDeterminismUnsupported)
            ));
        }
        Dispatch::Launch(_) => panic!("the invocation is not valid"),
    }
    let observations = executor.observations();
    assert_eq!(
        kinds(&executor),
        [
            KernelObservationKind::KernelDispatchStarted,
            KernelObservationKind::KernelTimeout,
            KernelObservationKind::KernelDispatchStarted,
            KernelObservationKind::KernelDispatchFailed,
        ]
    );
    assert_eq!(observations[1].error, None);
    assert_eq!(
        observations[3].error.as_deref(),
        Some("kernel-determinism-unsupported")
    );
}

/// An output that has no room: two resident tensors without elements make a
/// product of more elements than can be addressed.
#[test]
fn a_refusal_does_not_depend_on_what_the_output_would_be() {
    let mut executor = executor();
    let huge = 1u64 << 40;
    write(&mut executor, "a", &[huge, 0], 1);
    write(&mut executor, "b", &[0, huge], 2);
    let mut product = invocation("matmul", &["a", "b"], &["out"]);
    assert!(!executor.can_execute(&product, &Ok(())));
    let invalid = || Err(KernelError::KernelDeterminismUnsupported);
    assert!(executor.can_execute(&product, &invalid()));
    match executor.execute_invocation(&product, invalid()) {
        Dispatch::Finished(result) => assert!(matches!(
            result.error,
            Some(KernelError::KernelDeterminismUnsupported)
        )),
        Dispatch::Launch(_) => panic!("the invocation is not valid"),
    }
    product.deadline_millis = Some(0);
    assert!(executor.can_execute(&product, &Ok(())));
    match executor.execute_invocation(&product, Ok(())) {
        Dispatch::Finished(result) => {
            assert_eq!(result.status, KernelResultStatus::Failed);
            assert!(matches!(result.error, Some(KernelError::KernelTimeout)));
        }
        Dispatch::Launch(_) => panic!("the deadline has passed"),
    }
    assert_eq!(
        kinds(&executor),
        [
            KernelObservationKind::KernelDispatchStarted,
            KernelObservationKind::KernelDispatchFailed,
            KernelObservationKind::KernelDispatchStarted,
            KernelObservationKind::KernelTimeout,
        ]
    );
    assert_eq!(executor.resident_count(), 2);
}

#[test]
fn a_launch_takes_the_first_inputs_in_their_order() {
    let mut executor = executor();
    for (id, allocation) in [("q", 1), ("k", 2), ("v", 3), ("spare", 4)] {
        write(&mut executor, id, &[2, 2], allocation);
    }
    let taken = |executor: &mut CudaExecutor<u32>, run: KernelInvocation<usize>| -> Vec<u32> {
        let launch = launched(executor, &run);
        executor.launch_inputs(&run, &launch).iter().map(|buffer| buffer.slice).collect()
    };
    let heads = vec![("head_count", integer(1)), ("head_dimension", integer(2))];
    let attention = with(invocation("attention", &["v", "q", "k", "spare"], &["out"]), heads);
    assert_eq!(taken(&mut executor, attention), [3, 1, 2]);
    let product = invocation("matmul", &["k", "k", "spare"], &["out"]);
    assert_eq!(taken(&mut executor, product), [2, 2]);
    let softmax = invocation("softmax", &["spare", "q"], &["out"]);
    assert_eq!(taken(&mut executor, softmax), [4]);
}

fn output_request(output: usize, size_bytes: u64) -> OutputRequest<usize> {
    OutputRequest {
        output,
        memory: MemoryAllocationRequest {
            class: MemoryAllocationClass::Tensor,
            size_bytes,
            placement: MemoryPlacement::Device("cuda:0".to_string()),
            owner: MemoryAllocationOwner::Provider("magnetar:provider/cuda".to_string()),
        },
        affinity: 100 + output,
    }
}

fn outputs(list: &[(&str, Result<u64, &str>)]) -> Vec<OutputResource<usize>> {
    list.iter()
        .enumerate()
        .map(|(at, (id, size))| OutputResource {
            affinity: 100 + at,
            id: id.to_string(),
            byte_size: size.map_err(str::to_string),
        })
        .collect()
}

#[test]
fn admission_asks_for_what_the_caller_has_not_admitted() {
    let mut own = NameTable::new();
    own.insert("mine".to_string(), 5);
    let list = outputs(&[
        ("new", Ok(8)),
        ("theirs", Ok(16)),
        ("mine", Ok(32)),
        ("broken", Err("why")),
        ("after", Ok(64)),
    ]);
    let device = "cuda:0".to_string();
    let plan = plan_outputs(&device, &list, &own, &vec![false, true, true, false, false]);
    assert_eq!(
        plan.requests,
        [output_request(0, 8), output_request(2, 32)]
    );
    assert_eq!(plan.preadmitted, ["theirs"]);
    assert_eq!(plan.fault, Some(3));
    let broken_but_theirs = outputs(&[("broken", Err("why"))]);
    let plan = plan_outputs(&device, &broken_but_theirs, &own, &vec![true]);
    assert_eq!((plan.requests.len(), plan.preadmitted.len(), plan.fault), (0, 1, None));
}

#[test]
fn refused_admission_gives_back_what_was_granted() {
    let mut executor = executor();
    let mut add = invocation("add", &["a", "a"], &[]);
    add.outputs = outputs(&[("x", Ok(8)), ("y", Ok(16)), ("z", Err("Rank(65)"))]);
    let plan = executor.execute_invocation_with_memory_manager(&add, &vec![false; 3]);
    assert_eq!(plan.requests.len(), 2);
    let denial = Some("PressureSaturated".to_string());
    match executor.conclude_admission(&add, &plan, vec![1], denial) {
        AdmissionOutcome::Refused { result, release } => {
            assert_eq!(
                reason(result.error.unwrap()),
                "memory admission denied for output y: PressureSaturated"
            );
            assert_eq!(release, [1]);
        }
        AdmissionOutcome::Admitted(_) => panic!("the second output was denied"),
    }
    assert_eq!(
        kinds(&executor),
        [KernelObservationKind::KernelMemoryFeasibilityFailed]
    );
    match executor.conclude_admission(&add, &plan, vec![1, 2], None) {
        AdmissionOutcome::Refused { result, release } => {
            assert_eq!(
                reason(result.error.unwrap()),
                "cannot admit output z: invalid tensor descriptor (Rank(65))"
            );
            assert_eq!(release, [1, 2]);
        }
        AdmissionOutcome::Admitted(_) => panic!("the third output is at fault"),
    }
    assert_eq!(kinds(&executor).len(), 1);
}

#[test]
fn settling_records_releases_and_keeps() {
    let admission = |resource: &str, allocation, affinity| Admission {
        resource: resource.to_string(),
        allocation,
        affinity,
    };
    let device = "cuda:0".to_string();
    let mut own = NameTable::new();
    own.insert("x".to_string(), 1);
    let written = vec!["x".to_string(), "theirs".to_string(), "stray".to_string()];
    let admitted = vec![
        admission("x", 2, 'a'),
        admission("x", 3, 'b'),
        admission("theirs", 4, 'c'),
    ];
    let theirs = vec!["theirs".to_string()];
    let settled =
        settle(&device, KernelResultStatus::Succeeded, &written, &admitted, &theirs, &mut own);
    assert_eq!(settled.release, [1]);
    assert_eq!(
        settled.residencies,
        [TensorResidency {
            tensor: "x".to_string(),
            placement: MemoryPlacement::Device("cuda:0".to_string()),
            affinity: 'a',
            allocation: 2,
        }]
    );
    assert_eq!(own.get(&"x".to_string()), Some(&2));
    assert_eq!(own.len(), 1);
    let settled =
        settle(&device, KernelResultStatus::Failed, &written, &admitted, &theirs, &mut own);
    assert_eq!(settled.release, [2, 3, 4]);
    assert!(settled.residencies.is_empty());
    assert_eq!(own.get(&"x".to_string()), Some(&2));
}

#[test]
fn a_kernel_result_is_handed_out_once() {
    let mut executor = executor();
    let first = invocation("add", &[], &[]);
    let result = |id: &str| KernelResult::success(id.to_string(), "out".to_string());
    let handle = executor.submit_kernel_invocation(&first, result("first"));
    assert_eq!(handle.id, "magnetar:provider/cuda:invocation:0");
    assert_eq!((handle.operation, handle.plan.as_str()), (1, "invocation"));
    assert_eq!(handle.provider, "magnetar:provider/cuda");
    assert_eq!(handle.device.as_deref(), Some("test-device"));
    let second = executor.submit_kernel_invocation(&first, result("second"));
    assert_eq!(second.id, "magnetar:provider/cuda:invocation:1");
    assert_eq!(second.operation, 2);
    let completed = executor.complete_kernel_invocation(&handle).unwrap();
    assert_eq!(completed.invocation, "first");
    let error = executor.complete_kernel_invocation(&handle).map(|_| ()).unwrap_err();
    assert_eq!(error.code, ProviderExecutionErrorCode::ExecutionFailed);
    assert_eq!(error.phase, ProviderExecutionPhase::Complete);
    assert_eq!(
        error.message,
        "no Kernel execution is associated with this handle: it was never submitted through \
         submit_kernel_invocation, or has already been completed once"
    );
    assert_eq!(executor.complete_kernel_invocation(&second).unwrap().invocation, "second");
}

#[test]
fn a_submission_is_known_until_it_is_completed_or_released() {
    let mut executor = executor();
    let request = |operation| ProviderExecutionRequest {
        operation,
        plan: "plan".to_string(),
        provider: "magnetar:provider/cuda".to_string(),
        device: Some("cuda:0".to_string()),
    };
    let handle = executor.submit(request(7), "seventh".to_string());
    assert_eq!(handle.id, "seventh");
    assert_eq!((handle.operation, handle.plan.as_str()), (7, "plan"));
    assert_eq!(handle.device.as_deref(), Some("cuda:0"));
    let status = executor.status(&handle).unwrap();
    assert_eq!((status.handle.id, status.state), (handle.id.clone(), SchedulingState::Completed));
    assert_eq!(executor.cancel(&handle), Ok(ProviderCancellationOutcome::Unsupported));
    let result = executor.complete(&handle).unwrap();
    assert_eq!((result.state, result.outputs.len()), (SchedulingState::Completed, 0));
    let error = executor.complete(&handle).unwrap_err();
    assert_eq!(error.phase, ProviderExecutionPhase::Complete);
    assert_eq!(
        error.message,
        "no submission is associated with this handle: it was never submitted, or has already \
         been completed once"
    );
    let error = executor.status(&handle).unwrap_err();
    assert_eq!(error.phase, ProviderExecutionPhase::Observe);
    assert_eq!(error.device.as_deref(), Some("cuda:0"));
    assert_eq!(
        error.message,
        "no submission is associated with this handle: it was never submitted, or has already \
         been completed and released"
    );
    let handle = executor.submit(request(8), "eighth".to_string());
    let copy = handle.copy();
    executor.release(handle);
    assert!(executor.status(&copy).is_err());
    assert_eq!(executor.cancel(&copy), Ok(ProviderCancellationOutcome::Unsupported));
}
