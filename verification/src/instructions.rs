use vstd::prelude::*;

use crate::errors::UmError;
use crate::machine::Word;

verus! {

/// Relies on core's `Clone` for `core::marker::PhantomData`, which vstd
/// leaves unspecified: the marker type holds no data and has a single
/// value, so a clone is that same value.  Needed for the derived `Clone`
/// of `In`.
pub assume_specification<T: core::marker::PointeeSized>[ <core::marker::PhantomData<T> as core::clone::Clone>::clone ](
    v: &core::marker::PhantomData<T>,
) -> (r: core::marker::PhantomData<T>)
    ensures
        r == *v,
;

/// Identifies an input register by index.
/// `T` hints the type of the value stored in said register.
#[derive(Debug, Copy, Clone, PartialEq, Eq)]
#[verifier::reject_recursive_types(T)]
pub struct In<T> {
    pub idx: u8,
    pub phantom: core::marker::PhantomData<T>,
}

impl<T> In<T> {
    /// The mathematical constructor: the `In` value holding `idx`.
    pub open spec fn make(idx: u8) -> In<T> {
        In { idx, phantom: core::marker::PhantomData }
    }

    fn new(idx: u8) -> (r: In<T>)
        ensures
            r == In::<T>::make(idx),
    {
        In { idx, phantom: core::marker::PhantomData }
    }
}

/// Identifies an output register by index.
#[derive(Debug, Copy, Clone, PartialEq, Eq)]
pub struct Out(pub u8);

impl Out {
    fn new(idx: u8) -> (r: Out)
        ensures
            r == Out(idx),
    {
        Out(idx)
    }
}

/// Offset into an array.
#[derive(Debug, Copy, Clone, PartialEq, Eq)]
pub struct Offset(pub Word);

/// Identifies an array.
#[derive(Debug, Copy, Clone, PartialEq, Eq)]
pub struct ArrayId(pub Word);

/// One of the fourteen operators of the machine, with its decoded
/// operand fields.
#[derive(Debug, Copy, Clone)]
pub enum Instruction {
    ConditionalMove { dest: Out, src: In<Word>, test: In<Word> },
    ArrayIndex { dest: Out, offset: In<Offset>, array: In<ArrayId> },
    ArrayAmend { array: In<ArrayId>, offset: In<Offset>, val: In<Word> },
    Add { dest: Out, x: In<Word>, y: In<Word> },
    Multiply { dest: Out, x: In<Word>, y: In<Word> },
    Divide { dest: Out, x: In<Word>, y: In<Word> },
    Nand { dest: Out, x: In<Word>, y: In<Word> },
    Halt,
    Allocate { size: In<Word>, result: Out },
    Abandon { which: In<ArrayId> },
    Output { val: In<Word> },
    Input { dest: Out },
    LoadProgram { from: In<ArrayId>, finger: In<Word> },
    LoadRegister { dest: Out, val: Word },
}

/// The operator number: the top four bits of a word.
pub open spec fn opcode(w: Word) -> Word {
    w >> 28
}

/// The `A` register field of a standard-form word.
pub open spec fn field_a(w: Word) -> u8 {
    ((w >> 6) & 7) as u8
}

/// The `B` register field of a standard-form word.
pub open spec fn field_b(w: Word) -> u8 {
    ((w >> 3) & 7) as u8
}

/// The `C` register field of a standard-form word.
pub open spec fn field_c(w: Word) -> u8 {
    (w & 7) as u8
}

/// The destination register field of a load-register word: bits 25..28.
pub open spec fn orth_dest(w: Word) -> u8 {
    ((w >> 25) & 7) as u8
}

/// The immediate value of a load-register word: its low 25 bits.
pub open spec fn orth_value(w: Word) -> Word {
    w & 0x1FF_FFFF
}

/// What decoding a word yields: one of the fourteen operators, or
/// `UnknownInstruction` when the operator number is 14 or 15.
pub open spec fn spec_decode(w: Word) -> Result<Instruction, UmError> {
    let a = field_a(w);
    let b = field_b(w);
    let c = field_c(w);
    if opcode(w) == 0 {
        Ok(Instruction::ConditionalMove { dest: Out(a), src: In::make(b), test: In::make(c) })
    } else if opcode(w) == 1 {
        Ok(Instruction::ArrayIndex { dest: Out(a), offset: In::make(c), array: In::make(b) })
    } else if opcode(w) == 2 {
        Ok(Instruction::ArrayAmend { array: In::make(a), offset: In::make(b), val: In::make(c) })
    } else if opcode(w) == 3 {
        Ok(Instruction::Add { dest: Out(a), x: In::make(b), y: In::make(c) })
    } else if opcode(w) == 4 {
        Ok(Instruction::Multiply { dest: Out(a), x: In::make(b), y: In::make(c) })
    } else if opcode(w) == 5 {
        Ok(Instruction::Divide { dest: Out(a), x: In::make(b), y: In::make(c) })
    } else if opcode(w) == 6 {
        Ok(Instruction::Nand { dest: Out(a), x: In::make(b), y: In::make(c) })
    } else if opcode(w) == 7 {
        Ok(Instruction::Halt)
    } else if opcode(w) == 8 {
        Ok(Instruction::Allocate { size: In::make(c), result: Out(b) })
    } else if opcode(w) == 9 {
        Ok(Instruction::Abandon { which: In::make(c) })
    } else if opcode(w) == 10 {
        Ok(Instruction::Output { val: In::make(c) })
    } else if opcode(w) == 11 {
        Ok(Instruction::Input { dest: Out(c) })
    } else if opcode(w) == 12 {
        Ok(Instruction::LoadProgram { from: In::make(b), finger: In::make(c) })
    } else if opcode(w) == 13 {
        Ok(Instruction::LoadRegister { dest: Out(orth_dest(w)), val: orth_value(w) })
    } else {
        Err(UmError::UnknownInstruction { inst: w })
    }
}

/// Every register index the instruction names is in 0..8.
pub open spec fn wf_inst(inst: Instruction) -> bool {
    match inst {
        Instruction::ConditionalMove { dest, src, test } => dest.0 < 8 && src.idx < 8 && test.idx < 8,
        Instruction::ArrayIndex { dest, offset, array } => dest.0 < 8 && offset.idx < 8 && array.idx < 8,
        Instruction::ArrayAmend { array, offset, val } => array.idx < 8 && offset.idx < 8 && val.idx < 8,
        Instruction::Add { dest, x, y } => dest.0 < 8 && x.idx < 8 && y.idx < 8,
        Instruction::Multiply { dest, x, y } => dest.0 < 8 && x.idx < 8 && y.idx < 8,
        Instruction::Divide { dest, x, y } => dest.0 < 8 && x.idx < 8 && y.idx < 8,
        Instruction::Nand { dest, x, y } => dest.0 < 8 && x.idx < 8 && y.idx < 8,
        Instruction::Halt => true,
        Instruction::Allocate { size, result } => size.idx < 8 && result.0 < 8,
        Instruction::Abandon { which } => which.idx < 8,
        Instruction::Output { val } => val.idx < 8,
        Instruction::Input { dest } => dest.0 < 8,
        Instruction::LoadProgram { from, finger } => from.idx < 8 && finger.idx < 8,
        Instruction::LoadRegister { dest, val } => dest.0 < 8,
    }
}

/// Law: every instruction that decodes successfully names register
/// indices in 0..8 only.
pub proof fn lemma_decode_indices_in_range(w: Word)
    ensures
        spec_decode(w) matches Ok(inst) ==> wf_inst(inst),
{
    assert((w >> 6) & 7 < 8) by (bit_vector);
    assert((w >> 3) & 7 < 8) by (bit_vector);
    assert(w & 7 < 8) by (bit_vector);
    assert((w >> 25) & 7 < 8) by (bit_vector);
}

/// Law: for a word whose operator number is 0 through 12, re-encoding the
/// decoded `A`, `B` and `C` register fields recovers the word's low nine
/// bits exactly.
pub proof fn lemma_fields_round_trip(w: Word)
    requires
        opcode(w) <= 12,
    ensures
        ((field_a(w) as u32) << 6) | ((field_b(w) as u32) << 3) | (field_c(w) as u32) == w & 0x1FF,
{
    assert((w >> 6) & 7 < 8) by (bit_vector);
    assert((w >> 3) & 7 < 8) by (bit_vector);
    assert(w & 7 < 8) by (bit_vector);
    assert((((((w >> 6) & 7) as u8) as u32) << 6) | (((((w >> 3) & 7) as u8) as u32) << 3) | (((w
        & 7) as u8) as u32) == w & 0x1FF) by (bit_vector);
}

struct Abc {
    a: u8,
    b: u8,
    c: u8,
}

impl Instruction {
    fn parse_standard_abc(word: Word) -> (r: Abc)
        ensures
            r.a == field_a(word),
            r.b == field_b(word),
            r.c == field_c(word),
    {
        Abc { a: ((word >> 6) & 7) as u8, b: ((word >> 3) & 7) as u8, c: (word & 7) as u8 }
    }

    /// Decodes one word into its operator and operand fields.  Returns
    /// `UnknownInstruction` exactly when the operator number is 14 or 15.
    pub fn decode_from(word: Word) -> (r: Result<Instruction, UmError>)
        ensures
            r == spec_decode(word),
    {
        let op_number = word >> 28;
        match op_number {
            0 => {
                let abc = Instruction::parse_standard_abc(word);
                Ok(Instruction::ConditionalMove {
                    dest: Out::new(abc.a),
                    src: In::new(abc.b),
                    test: In::new(abc.c),
                })
            },
            1 => {
                let abc = Instruction::parse_standard_abc(word);
                Ok(Instruction::ArrayIndex {
                    dest: Out::new(abc.a),
                    offset: In::new(abc.c),
                    array: In::new(abc.b),
                })
            },
            2 => {
                let abc = Instruction::parse_standard_abc(word);
                Ok(Instruction::ArrayAmend {
                    array: In::new(abc.a),
                    offset: In::new(abc.b),
                    val: In::new(abc.c),
                })
            },
            3 => {
                let abc = Instruction::parse_standard_abc(word);
                Ok(Instruction::Add { dest: Out::new(abc.a), x: In::new(abc.b), y: In::new(abc.c) })
            },
            4 => {
                let abc = Instruction::parse_standard_abc(word);
                Ok(Instruction::Multiply {
                    dest: Out::new(abc.a),
                    x: In::new(abc.b),
                    y: In::new(abc.c),
                })
            },
            5 => {
                let abc = Instruction::parse_standard_abc(word);
                Ok(Instruction::Divide {
                    dest: Out::new(abc.a),
                    x: In::new(abc.b),
                    y: In::new(abc.c),
                })
            },
            6 => {
                let abc = Instruction::parse_standard_abc(word);
                Ok(Instruction::Nand {
                    dest: Out::new(abc.a),
                    x: In::new(abc.b),
                    y: In::new(abc.c),
                })
            },
            7 => Ok(Instruction::Halt),
            8 => {
                let abc = Instruction::parse_standard_abc(word);
                Ok(Instruction::Allocate { size: In::new(abc.c), result: Out::new(abc.b) })
            },
            9 => {
                let abc = Instruction::parse_standard_abc(word);
                Ok(Instruction::Abandon { which: In::new(abc.c) })
            },
            10 => {
                let abc = Instruction::parse_standard_abc(word);
                Ok(Instruction::Output { val: In::new(abc.c) })
            },
            11 => {
                let abc = Instruction::parse_standard_abc(word);
                Ok(Instruction::Input { dest: Out::new(abc.c) })
            },
            12 => {
                let abc = Instruction::parse_standard_abc(word);
                Ok(Instruction::LoadProgram { from: In::new(abc.b), finger: In::new(abc.c) })
            },
            13 => {
                let a = ((word >> 25) & 7) as u8;
                let value = word & 0x1FF_FFFF;
                Ok(Instruction::LoadRegister { dest: Out::new(a), val: value })
            },
            _ => Err(UmError::UnknownInstruction { inst: word }),
        }
    }
}

} // verus!
