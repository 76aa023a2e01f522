use vstd::prelude::*;

verus! {

/// Failure taxonomy of the decompiler core, ordered roughly by the stage
/// that raises it.  All kinds are fatal except `UnresolvedPointer`, which
/// the expression-tree lowering downgrades to a placeholder expression.
#[derive(Debug, Clone, PartialEq, Eq)]
pub enum AnalyzeError {
    /// The kernel-code descriptor buffer is not exactly 256 bytes.
    MalformedHeader,
    /// A required object section (`.text` or `.note`) is absent upstream.
    MissingSection,
    /// The kernel-argument metadata block cannot be located, a required
    /// key is missing, or a numeric field does not parse.
    MetadataParse,
    /// A branch instruction whose sole operand is not an immediate.
    UnknownBranchOperand,
    /// An unconditional branch to an earlier instruction (loops are out
    /// of scope).
    BackwardUnconditional,
    /// An opcode, or an operand shape of a known opcode, that the
    /// data-flow analyzer does not handle; carries the mnemonic.
    UnsupportedMnemonic(String),
    /// The 64-bit add recognizer ran on a carry add whose low half was
    /// not itself an add.
    HeuristicFailure,
    /// A dereference whose pointer is not the kernarg segment pointer;
    /// recoverable during lowering.
    UnresolvedPointer,
    /// A register diff across a conditional block produced a run of
    /// dwords outside the supported variable sizes.
    VariableSizeMismatch,
    /// A binding that the expression-tree lowering cannot fold.
    UnreducibleBinding,
}

} // verus!
