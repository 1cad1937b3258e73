use vstd::prelude::*;

verus! {

/// A fatal condition raised by the machine.  Every error terminates
/// execution; none is recovered from locally.
#[derive(Debug, Clone, Copy, PartialEq, Eq, Structural)]
pub enum UmError {
    /// The operator field of a fetched word is not one of the fourteen
    /// operators.
    UnknownInstruction { inst: u32 },
    /// A register accessor was handed an index outside 0..8 (defensive;
    /// decoded operands are always in range).
    InvalidRegisterIndex { idx: u8 },
    /// An array read or write on the program array went past its end.
    ProgramOutOfRange,
    /// An array read or write on a heap array went past its end.
    ArrayOutOfRange,
    /// A reference to a heap array identifier that is not live.
    InvalidArrayId,
    /// The divisor register held zero.
    DivideByZero,
    /// An attempt to abandon the program array (identifier 0).
    CannotAbandonProgram,
    /// An output value that does not fit in one byte.
    InvalidOutput { val: u32 },
}

} // verus!
