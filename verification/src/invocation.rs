//! Kernel invocations, their results, and what is observed of them.

use crate::kernel_error::{KernelError, KernelErrorView};
use crate::table::NameTable;
use vstd::prelude::*;

verus! {

/// The value of an operator attribute. A `Float` is the bits of a `double`.
#[derive(Debug)]
pub enum OperatorAttributeValue {
    Boolean(bool),
    Integer(i64),
    Float(u64),
    String(String),
    DType,
    Layout,
}

/// A tensor that an invocation writes: its resource id, the size in bytes
/// that its descriptor gives or what is wrong with the descriptor, and its
/// affinity. `A` is the affinity of a resource, which is handed on as it is.
#[derive(Debug)]
pub struct OutputResource<A> {
    pub id: String,
    pub byte_size: Result<u64, String>,
    pub affinity: A,
}

/// A kernel to run on tensors that are known by their resource ids.
pub struct KernelInvocation<A> {
    pub id: String,
    /// The name under which the kernel is dispatched.
    pub kernel_name: String,
    /// The key that identifies the kernel in observations.
    pub kernel_key: String,
    pub inputs: Vec<String>,
    pub outputs: Vec<OutputResource<A>>,
    pub deadline_millis: Option<u64>,
    pub attributes: NameTable<OperatorAttributeValue>,
}

impl<A> KernelInvocation<A> {
    /// No attribute is given twice.
    pub open spec fn wf(&self) -> bool {
        self.attributes.wf()
    }
}

/// How an invocation ended.
#[derive(Clone, Copy, Debug, PartialEq, Eq, Structural)]
pub enum KernelResultStatus {
    Succeeded,
    Failed,
}

/// The result of an invocation. `updated_resources` holds the ids of the
/// tensors that it wrote.
pub struct KernelResult {
    pub invocation: String,
    pub status: KernelResultStatus,
    pub output_readiness: NameTable<bool>,
    pub updated_resources: Vec<String>,
    pub error: Option<KernelError>,
}

/// What a [`KernelResult`] says.
#[verifier::ext_equal]
pub struct KernelResultView {
    pub invocation: Seq<char>,
    pub status: KernelResultStatus,
    pub output_readiness: Map<Seq<char>, bool>,
    pub updated_resources: Seq<Seq<char>>,
    pub error: Option<KernelErrorView>,
}

/// The texts of a list of owned ones.
pub open spec fn texts(list: Seq<String>) -> Seq<Seq<char>> {
    list.map_values(|text: String| text@)
}

impl View for KernelResult {
    type V = KernelResultView;

    open spec fn view(&self) -> KernelResultView {
        KernelResultView {
            invocation: self.invocation@,
            status: self.status,
            output_readiness: self.output_readiness@,
            updated_resources: texts(self.updated_resources@),
            error: match self.error {
                Some(error) => Some(error@),
                None => None,
            },
        }
    }
}

/// The result of an invocation that wrote one tensor.
pub open spec fn success_result(invocation: Seq<char>, output: Seq<char>) -> KernelResultView {
    KernelResultView {
        invocation,
        status: KernelResultStatus::Succeeded,
        output_readiness: Map::empty().insert(output, true),
        updated_resources: seq![output],
        error: None,
    }
}

/// The result of an invocation that failed.
pub open spec fn failure_result(invocation: Seq<char>, error: KernelErrorView) -> KernelResultView {
    KernelResultView {
        invocation,
        status: KernelResultStatus::Failed,
        output_readiness: Map::empty(),
        updated_resources: Seq::empty(),
        error: Some(error),
    }
}

impl KernelResult {
    /// No output is listed twice.
    pub open spec fn wf(&self) -> bool {
        self.output_readiness.wf()
    }

    /// The result of an invocation that wrote one tensor.
    pub fn success(invocation: String, output: String) -> (result: KernelResult)
        ensures
            result.wf(),
            result@ == success_result(invocation@, output@),
    {
        let mut output_readiness = NameTable::new();
        let mut updated_resources = Vec::new();
        updated_resources.push(output.clone());
        let _ = output_readiness.insert(output, true);
        let result = KernelResult {
            invocation,
            status: KernelResultStatus::Succeeded,
            output_readiness,
            updated_resources,
            error: None,
        };
        assert(result@.updated_resources =~= seq![output@]);
        result
    }

    /// The result of an invocation that failed.
    pub fn failure(invocation: String, error: KernelError) -> (result: KernelResult)
        ensures
            result.wf(),
            result@ == failure_result(invocation@, error@),
    {
        let result = KernelResult {
            invocation,
            status: KernelResultStatus::Failed,
            output_readiness: NameTable::new(),
            updated_resources: Vec::new(),
            error: Some(error),
        };
        assert(result@.updated_resources =~= Seq::empty());
        result
    }
}

/// A moment in the life of an invocation.
#[derive(Clone, Copy, Debug, PartialEq, Eq, Structural)]
pub enum KernelObservationKind {
    KernelDispatchStarted,
    KernelDispatchCompleted,
    KernelDispatchFailed,
    KernelMemoryFeasibilityFailed,
    KernelTimeout,
}

/// An observation of an invocation. `error` is the identifier of the error
/// that a failed dispatch ended in.
#[derive(Clone, Debug, PartialEq, Eq)]
pub struct KernelObservation {
    pub kind: KernelObservationKind,
    pub kernel: String,
    pub invocation: String,
    pub error: Option<String>,
}

/// What a [`KernelObservation`] says.
pub struct KernelObservationView {
    pub kind: KernelObservationKind,
    pub kernel: Seq<char>,
    pub invocation: Seq<char>,
    pub error: Option<Seq<char>>,
}

impl View for KernelObservation {
    type V = KernelObservationView;

    open spec fn view(&self) -> KernelObservationView {
        KernelObservationView {
            kind: self.kind,
            kernel: self.kernel@,
            invocation: self.invocation@,
            error: match self.error {
                Some(error) => Some(error@),
                None => None,
            },
        }
    }
}

/// The observation of a moment of an invocation.
pub open spec fn observed<A>(
    kind: KernelObservationKind,
    invocation: KernelInvocation<A>,
) -> KernelObservationView {
    KernelObservationView {
        kind,
        kernel: invocation.kernel_key@,
        invocation: invocation.id@,
        error: None,
    }
}

/// The observation of a failed dispatch.
pub open spec fn observed_failure<A>(
    invocation: KernelInvocation<A>,
    error: KernelErrorView,
) -> KernelObservationView {
    KernelObservationView {
        kind: KernelObservationKind::KernelDispatchFailed,
        kernel: invocation.kernel_key@,
        invocation: invocation.id@,
        error: Some(
            crate::kernel_error::kernel_error_id(crate::kernel_error::kernel_error_code(error)),
        ),
    }
}

impl KernelObservation {
    /// The observation of a moment of an invocation.
    pub fn of<A>(kind: KernelObservationKind, invocation: &KernelInvocation<A>) -> (observation:
        KernelObservation)
        ensures
            observation@ == observed(kind, *invocation),
    {
        KernelObservation {
            kind,
            kernel: invocation.kernel_key.clone(),
            invocation: invocation.id.clone(),
            error: None,
        }
    }

    /// The observation of a failed dispatch.
    pub fn of_failure<A>(invocation: &KernelInvocation<A>, error: &KernelError) -> (observation:
        KernelObservation)
        ensures
            observation@ == observed_failure(*invocation, error@),
    {
        KernelObservation {
            kind: KernelObservationKind::KernelDispatchFailed,
            kernel: invocation.kernel_key.clone(),
            invocation: invocation.id.clone(),
            error: Some(error.id().to_owned()),
        }
    }

    /// The same observation once more.
    pub fn copy(&self) -> (copy: KernelObservation)
        ensures
            copy@ == self@,
    {
        KernelObservation {
            kind: self.kind,
            kernel: self.kernel.clone(),
            invocation: self.invocation.clone(),
            error: match &self.error {
                Some(error) => Some(error.clone()),
                None => None,
            },
        }
    }
}

} // verus!
