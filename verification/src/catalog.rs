//! The kernel set by name.

use crate::text::text_is;
use vstd::prelude::*;

verus! {

/// A kernel of the set.
#[derive(Clone, Copy, Debug, PartialEq, Eq, Structural)]
pub enum KernelKind {
    Matmul,
    Embedding,
    RmsNorm,
    Rope,
    Attention,
    Softmax,
    Silu,
    Add,
    Mul,
    ResidualAdd,
}

/// The name of a kernel.
pub open spec fn kernel_name(kind: KernelKind) -> Seq<char> {
    match kind {
        KernelKind::Matmul => "matmul"@,
        KernelKind::Embedding => "embedding"@,
        KernelKind::RmsNorm => "rmsnorm"@,
        KernelKind::Rope => "rope"@,
        KernelKind::Attention => "attention"@,
        KernelKind::Softmax => "softmax"@,
        KernelKind::Silu => "silu"@,
        KernelKind::Add => "add"@,
        KernelKind::Mul => "mul"@,
        KernelKind::ResidualAdd => "residual-add"@,
    }
}

/// The kernel of a name.
pub open spec fn kernel_named(name: Seq<char>) -> Option<KernelKind> {
    if name == kernel_name(KernelKind::Matmul) {
        Some(KernelKind::Matmul)
    } else if name == kernel_name(KernelKind::Embedding) {
        Some(KernelKind::Embedding)
    } else if name == kernel_name(KernelKind::RmsNorm) {
        Some(KernelKind::RmsNorm)
    } else if name == kernel_name(KernelKind::Rope) {
        Some(KernelKind::Rope)
    } else if name == kernel_name(KernelKind::Attention) {
        Some(KernelKind::Attention)
    } else if name == kernel_name(KernelKind::Softmax) {
        Some(KernelKind::Softmax)
    } else if name == kernel_name(KernelKind::Silu) {
        Some(KernelKind::Silu)
    } else if name == kernel_name(KernelKind::Add) {
        Some(KernelKind::Add)
    } else if name == kernel_name(KernelKind::Mul) {
        Some(KernelKind::Mul)
    } else if name == kernel_name(KernelKind::ResidualAdd) {
        Some(KernelKind::ResidualAdd)
    } else {
        None
    }
}

impl KernelKind {
    /// The name of the kernel.
    pub fn name(self) -> (name: &'static str)
        ensures
            name@ == kernel_name(self),
    {
        match self {
            KernelKind::Matmul => "matmul",
            KernelKind::Embedding => "embedding",
            KernelKind::RmsNorm => "rmsnorm",
            KernelKind::Rope => "rope",
            KernelKind::Attention => "attention",
            KernelKind::Softmax => "softmax",
            KernelKind::Silu => "silu",
            KernelKind::Add => "add",
            KernelKind::Mul => "mul",
            KernelKind::ResidualAdd => "residual-add",
        }
    }

    /// The kernel of a name.
    pub fn from_name(name: &String) -> (kind: Option<KernelKind>)
        ensures
            kind == kernel_named(name@),
    {
        if text_is(name, "matmul") {
            Some(KernelKind::Matmul)
        } else if text_is(name, "embedding") {
            Some(KernelKind::Embedding)
        } else if text_is(name, "rmsnorm") {
            Some(KernelKind::RmsNorm)
        } else if text_is(name, "rope") {
            Some(KernelKind::Rope)
        } else if text_is(name, "attention") {
            Some(KernelKind::Attention)
        } else if text_is(name, "softmax") {
            Some(KernelKind::Softmax)
        } else if text_is(name, "silu") {
            Some(KernelKind::Silu)
        } else if text_is(name, "add") {
            Some(KernelKind::Add)
        } else if text_is(name, "mul") {
            Some(KernelKind::Mul)
        } else if text_is(name, "residual-add") {
            Some(KernelKind::ResidualAdd)
        } else {
            None
        }
    }
}

/// A kernel is found under its name, and so no two kernels share one.
pub proof fn law_names_tell_kernels_apart(kind: KernelKind, other: KernelKind)
    ensures
        kernel_named(kernel_name(kind)) == Some(kind),
        kernel_name(kind) == kernel_name(other) <==> kind == other,
{
    reveal_strlit("matmul");
    reveal_strlit("embedding");
    reveal_strlit("rmsnorm");
    reveal_strlit("rope");
    reveal_strlit("attention");
    reveal_strlit("softmax");
    reveal_strlit("silu");
    reveal_strlit("add");
    reveal_strlit("mul");
    reveal_strlit("residual-add");
    assert(kernel_name(KernelKind::Matmul).len() == 6);
    assert(kernel_name(KernelKind::Embedding).len() == 9);
    assert(kernel_name(KernelKind::RmsNorm).len() == 7);
    assert(kernel_name(KernelKind::Rope).len() == 4);
    assert(kernel_name(KernelKind::Attention).len() == 9);
    assert(kernel_name(KernelKind::Softmax).len() == 7);
    assert(kernel_name(KernelKind::Silu).len() == 4);
    assert(kernel_name(KernelKind::Add).len() == 3);
    assert(kernel_name(KernelKind::Mul).len() == 3);
    assert(kernel_name(KernelKind::ResidualAdd).len() == 12);
    lemma_names_differ();
}

/// Names of one length differ in their first letter.
proof fn lemma_names_differ()
    ensures
        kernel_name(KernelKind::Embedding) != kernel_name(KernelKind::Attention),
        kernel_name(KernelKind::RmsNorm) != kernel_name(KernelKind::Softmax),
        kernel_name(KernelKind::Rope) != kernel_name(KernelKind::Silu),
        kernel_name(KernelKind::Add) != kernel_name(KernelKind::Mul),
{
    reveal_strlit("matmul");
    reveal_strlit("embedding");
    reveal_strlit("rmsnorm");
    reveal_strlit("rope");
    reveal_strlit("attention");
    reveal_strlit("softmax");
    reveal_strlit("silu");
    reveal_strlit("add");
    reveal_strlit("mul");
    reveal_strlit("residual-add");
    assert("embedding"@[0] == 'e' && "attention"@[0] == 'a');
    assert("rmsnorm"@[0] == 'r' && "softmax"@[0] == 's');
    assert("rope"@[0] == 'r' && "silu"@[0] == 's');
    assert("add"@[0] == 'a' && "mul"@[0] == 'm');
}

} // verus!
