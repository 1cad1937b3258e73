use vstd::prelude::*;

use std::collections::HashMap;

use crate::errors::UmError;
use crate::instructions::{ArrayId, Instruction, Offset};
use crate::semantics::{
    MachineView, RunState, StepEffect, init_state, inst_effect, machine_run, machine_step,
    read_cell, spec_word_at, spec_words, wf_state, word_count, write_cell,
};

verus! {

broadcast use vstd::std_specs::hash::group_hash_axioms;

/// A platter in the universal machine; a unit of storage.
pub type Word = u32;

/// The whole machine: registers, finger, program array, heap arrays and
/// the two byte channels.  Its mathematical value is a
/// `semantics::MachineView`; every method's contract is stated against
/// the step semantics of `semantics`.
pub struct Machine {
    finger: Word,
    registers: [Word; 8],
    program: Vec<Word>,
    data_arrays: HashMap<Word, Vec<Word>>,
    next_array_id: Word,
    input: Vec<u8>,
    input_pos: usize,
    output: Vec<u8>,
}

enum Continue {
    Yes,
    No,
}

impl View for Machine {
    type V = MachineView;

    closed spec fn view(&self) -> MachineView {
        MachineView {
            finger: self.finger,
            regs: self.registers@,
            program: self.program@,
            arrays: self.data_arrays@.map_values(|v: Vec<Word>| v@),
            next_id: self.next_array_id,
            input: self.input@,
            input_pos: self.input_pos as nat,
            output: self.output@,
        }
    }
}

/// A fresh vector of `n` zero words.
fn zero_vec(n: Word) -> (r: Vec<Word>)
    ensures
        r@ == Seq::new(n as nat, |i: int| 0u32),
{
    let mut v: Vec<Word> = Vec::new();
    let mut i: Word = 0;
    while i < n
        invariant
            i <= n,
            v@.len() == i,
            forall|j: int| 0 <= j < i ==> v@[j] == 0u32,
        decreases n - i,
    {
        v.push(0);
        i = i + 1;
    }
    proof {
        assert(v@ =~= Seq::new(n as nat, |i: int| 0u32));
    }
    v
}

/// A value-copy of a word vector.
fn copy_words(src: &Vec<Word>) -> (r: Vec<Word>)
    ensures
        r@ == src@,
{
    let mut v: Vec<Word> = Vec::new();
    let mut i: usize = 0;
    while i < src.len()
        invariant
            i <= src.len(),
            v@.len() == i,
            forall|j: int| 0 <= j < i ==> v@[j] == src@[j],
        decreases src.len() - i,
    {
        v.push(src[i]);
        i = i + 1;
    }
    proof {
        assert(v@ =~= src@);
    }
    v
}

impl Machine {
    /// Builds a machine from a program image: the bytes are packed
    /// big-endian into words, registers and finger start at zero, the
    /// heap is empty, the allocation counter at 1, both channels empty.
    /// The image must fit the 32-bit address space of the finger.
    pub fn new(program: Vec<u8>) -> (m: Machine)
        requires
            program@.len() <= 4 * 0xFFFF_FFFF,
        ensures
            m@ == init_state(program@),
            wf_state(m@),
    {
        let m = Machine {
            finger: 0,
            registers: [0u32; 8],
            program: Machine::load_program_from_bytes(program),
            data_arrays: HashMap::new(),
            next_array_id: 1,
            input: Vec::new(),
            input_pos: 0,
            output: Vec::new(),
        };
        proof {
            assert(m.registers@ =~= Seq::new(8, |i: int| 0u32));
            assert(m.data_arrays@.map_values(|v: Vec<Word>| v@) =~= Map::<Word, Seq<Word>>::empty());
        }
        m
    }

    /// Replaces the machine's input channel with the given bytes and
    /// rewinds its cursor.
    pub fn set_input(&mut self, bytes: Vec<u8>)
        ensures
            final(self)@ == (MachineView { input: bytes@, input_pos: 0, ..old(self)@ }),
    {
        self.input = bytes;
        self.input_pos = 0;
    }

    /// The bytes the machine has emitted so far.
    pub fn output(&self) -> (r: &Vec<u8>)
        ensures
            r@ == self@.output,
    {
        &self.output
    }

    /// Packs a program image into words, four bytes each, big-endian; a
    /// ragged tail is padded with zero bytes.
    pub fn load_program_from_bytes(program_bytes: Vec<u8>) -> (r: Vec<Word>)
        requires
            program_bytes@.len() <= 4 * 0xFFFF_FFFF,
        ensures
            r@ == spec_words(program_bytes@),
    {
        let n_bytes = program_bytes.len();
        let num_words = if n_bytes % 4 == 0 {
            n_bytes / 4
        } else {
            n_bytes / 4 + 1
        };
        proof {
            assert(num_words == word_count(program_bytes@));
        }
        let mut program: Vec<Word> = Vec::with_capacity(num_words);
        let mut i: usize = 0;
        while i < num_words
            invariant
                n_bytes == program_bytes@.len(),
                num_words == word_count(program_bytes@),
                i <= num_words,
                program@.len() == i,
                forall|j: int| 0 <= j < i ==> program@[j] == spec_word_at(program_bytes@, j),
            decreases num_words - i,
        {
            proof {
                let len = n_bytes as int;
                assert(4 * (len / 4) + len % 4 == len);
                assert(4 * (i as int) + 4 <= 4 * (num_words as int));
                assert(4 * (i as int) < len);
            }
            let base = i * 4;
            let remaining = n_bytes - base;
            let a: u8 = program_bytes[base];
            let mut b: u8 = 0;
            let mut c: u8 = 0;
            let mut d: u8 = 0;
            if remaining > 1 {
                b = program_bytes[base + 1];
            }
            if remaining > 2 {
                c = program_bytes[base + 2];
            }
            if remaining > 3 {
                d = program_bytes[base + 3];
            }
            proof {
                let au = a as Word;
                let bu = b as Word;
                let cu = c as Word;
                assert(cu << 8 <= 0xFF00) by (bit_vector)
                    requires
                        cu <= 0xFF,
                ;
                assert(bu << 16 <= 0xFF_0000) by (bit_vector)
                    requires
                        bu <= 0xFF,
                ;
                assert(au << 24 <= 0xFF00_0000) by (bit_vector)
                    requires
                        au <= 0xFF,
                ;
            }
            let mut word: Word = d as Word;
            word += (c as Word) << 8;
            word += (b as Word) << 16;
            word += (a as Word) << 24;
            proof {
                assert(word == spec_word_at(program_bytes@, i as int));
            }
            program.push(word);
            i = i + 1;
        }
        proof {
            assert(program@ =~= spec_words(program_bytes@));
        }
        program
    }

    /// Reads the word under the finger and advances the finger; `None`
    /// exactly when the finger is past the end of the program, in which
    /// case nothing changes.
    fn fetch_instruction(&mut self) -> (r: Option<Word>)
        requires
            old(self)@.program.len() <= 0xFFFF_FFFF,
        ensures
            match r {
                None => (old(self)@.finger as int) >= old(self)@.program.len() && final(self)@
                    == old(self)@,
                Some(w) => (old(self)@.finger as int) < old(self)@.program.len()
                    && w == old(self)@.program[old(self)@.finger as int]
                    && final(self)@ == (MachineView {
                    finger: (old(self)@.finger + 1) as Word,
                    ..old(self)@
                }),
            },
    {
        if self.finger as usize >= self.program.len() {
            None
        } else {
            let word = self.program[self.finger as usize];
            self.finger += 1;
            Some(word)
        }
    }

    /// Reads a register; `InvalidRegisterIndex` exactly when the index is
    /// 8 or more.
    pub fn read_register(&self, idx: u8) -> (r: Result<Word, UmError>)
        requires
            self@.regs.len() == 8,
        ensures
            idx < 8 ==> r == Ok::<Word, UmError>(self@.regs[idx as int]),
            idx >= 8 ==> r == Err::<Word, UmError>(UmError::InvalidRegisterIndex { idx }),
    {
        if idx >= 8 {
            Err(UmError::InvalidRegisterIndex { idx })
        } else {
            Ok(self.registers[idx as usize])
        }
    }

    /// Writes a register; `InvalidRegisterIndex` exactly when the index
    /// is 8 or more, in which case nothing changes.
    pub fn set_register(&mut self, idx: u8, val: Word) -> (r: Result<(), UmError>)
        requires
            old(self)@.regs.len() == 8,
        ensures
            idx < 8 ==> r == Ok::<(), UmError>(()) && final(self)@ == (MachineView {
                regs: old(self)@.regs.update(idx as int, val),
                ..old(self)@
            }),
            idx >= 8 ==> r == Err::<(), UmError>(UmError::InvalidRegisterIndex { idx })
                && final(self)@ == old(self)@,
    {
        if idx >= 8 {
            Err(UmError::InvalidRegisterIndex { idx })
        } else {
            self.registers[idx as usize] = val;
            Ok(())
        }
    }

    /// Reads one cell of an array: identifier 0 names the program array,
    /// any other identifier a heap array.  The errors are exactly those
    /// of `semantics::read_cell`.
    pub fn read_array(&self, array_id: ArrayId, offset: Offset) -> (r: Result<Word, UmError>)
        ensures
            r == read_cell(self@, array_id.0, offset.0),
    {
        if array_id.0 == 0 {
            if (offset.0 as usize) < self.program.len() {
                Ok(self.program[offset.0 as usize])
            } else {
                Err(UmError::ProgramOutOfRange)
            }
        } else {
            match self.data_arrays.get(&array_id.0) {
                Some(array) => {
                    if (offset.0 as usize) < array.len() {
                        Ok(array[offset.0 as usize])
                    } else {
                        Err(UmError::ArrayOutOfRange)
                    }
                },
                None => Err(UmError::InvalidArrayId),
            }
        }
    }

    /// Writes one cell of an array, with the same addressing and the same
    /// errors as `read_array`; on an error nothing changes.
    pub fn write_array(&mut self, array_id: ArrayId, offset: Offset, val: Word) -> (r: Result<
        (),
        UmError,
    >)
        ensures
            match write_cell(old(self)@, array_id.0, offset.0, val) {
                Ok(s2) => r == Ok::<(), UmError>(()) && final(self)@ == s2,
                Err(e) => r == Err::<(), UmError>(e) && final(self)@ == old(self)@,
            },
    {
        if array_id.0 == 0 {
            if (offset.0 as usize) < self.program.len() {
                self.program.set(offset.0 as usize, val);
                Ok(())
            } else {
                Err(UmError::ProgramOutOfRange)
            }
        } else {
            match self.data_arrays.remove(&array_id.0) {
                Some(mut array) => {
                    if (offset.0 as usize) < array.len() {
                        array.set(offset.0 as usize, val);
                        self.data_arrays.insert(array_id.0, array);
                        proof {
                            assert(self.data_arrays@.map_values(|v: Vec<Word>| v@)
                                =~= old(self)@.arrays.insert(
                                array_id.0,
                                old(self)@.arrays[array_id.0].update(offset.0 as int, val),
                            ));
                        }
                        Ok(())
                    } else {
                        self.data_arrays.insert(array_id.0, array);
                        proof {
                            assert(self.data_arrays@.map_values(|v: Vec<Word>| v@)
                                =~= old(self)@.arrays);
                        }
                        Err(UmError::ArrayOutOfRange)
                    }
                },
                None => {
                    proof {
                        assert(self.data_arrays@.map_values(|v: Vec<Word>| v@)
                            =~= old(self)@.arrays);
                    }
                    Err(UmError::InvalidArrayId)
                },
            }
        }
    }

    /// Applies one decoded instruction: `Ok(Yes)` to continue, `Ok(No)`
    /// on `Halt`, `Err` on a fatal error, exactly as
    /// `semantics::inst_effect` says; on halt or error nothing changes.
    fn execute_instruction(&mut self, inst: Instruction) -> (r: Result<Continue, UmError>)
        requires
            wf_state(old(self)@),
            crate::instructions::wf_inst(inst),
        ensures
            wf_state(final(self)@),
            match inst_effect(old(self)@, inst) {
                StepEffect::Proceed(s2) => r == Ok::<Continue, UmError>(Continue::Yes)
                    && final(self)@ == s2,
                StepEffect::Halted => r == Ok::<Continue, UmError>(Continue::No)
                    && final(self)@ == old(self)@,
                StepEffect::Fail(e) => r == Err::<Continue, UmError>(e)
                    && final(self)@ == old(self)@,
            },
    {
        proof {
            crate::semantics::lemma_effect_preserves_wf(old(self)@, inst);
        }
        match inst {
            Instruction::ConditionalMove { dest, src, test } => {
                let test_val = self.read_register(test.idx)?;
                if test_val != 0 {
                    let src_val = self.read_register(src.idx)?;
                    self.set_register(dest.0, src_val)?;
                }
                Ok(Continue::Yes)
            },
            Instruction::ArrayIndex { dest, offset, array } => {
                let offset_val = self.read_register(offset.idx)?;
                let array_id = self.read_register(array.idx)?;
                let val = self.read_array(ArrayId(array_id), Offset(offset_val))?;
                self.set_register(dest.0, val)?;
                Ok(Continue::Yes)
            },
            Instruction::ArrayAmend { array, offset, val } => {
                let offset_val = self.read_register(offset.idx)?;
                let array_id = self.read_register(array.idx)?;
                let val_val = self.read_register(val.idx)?;
                self.write_array(ArrayId(array_id), Offset(offset_val), val_val)?;
                Ok(Continue::Yes)
            },
            Instruction::Add { dest, x, y } => {
                let x_val = self.read_register(x.idx)?;
                let y_val = self.read_register(y.idx)?;
                let result = x_val.wrapping_add(y_val);
                self.set_register(dest.0, result)?;
                Ok(Continue::Yes)
            },
            Instruction::Multiply { dest, x, y } => {
                let x_val = self.read_register(x.idx)?;
                let y_val = self.read_register(y.idx)?;
                let result = x_val.wrapping_mul(y_val);
                self.set_register(dest.0, result)?;
                Ok(Continue::Yes)
            },
            Instruction::Divide { dest, x, y } => {
                let x_val = self.read_register(x.idx)?;
                let y_val = self.read_register(y.idx)?;
                if y_val == 0 {
                    Err(UmError::DivideByZero)
                } else {
                    let result = x_val / y_val;
                    self.set_register(dest.0, result)?;
                    Ok(Continue::Yes)
                }
            },
            Instruction::Nand { dest, x, y } => {
                let x_val = self.read_register(x.idx)?;
                let y_val = self.read_register(y.idx)?;
                let result = !(x_val & y_val);
                self.set_register(dest.0, result)?;
                Ok(Continue::Yes)
            },
            Instruction::Halt => Ok(Continue::No),
            Instruction::Allocate { size, result } => {
                let size_val = self.read_register(size.idx)?;
                let new_array = zero_vec(size_val);
                self.data_arrays.insert(self.next_array_id, new_array);
                proof {
                    assert(self.data_arrays@.map_values(|v: Vec<Word>| v@)
                        =~= old(self)@.arrays.insert(
                        old(self)@.next_id,
                        Seq::new(old(self)@.regs[size.idx as int] as nat, |i: int| 0u32),
                    ));
                }
                self.set_register(result.0, self.next_array_id)?;
                self.next_array_id = self.next_array_id.wrapping_add(1);
                if self.next_array_id == 0 {
                    self.next_array_id = 1;
                }
                Ok(Continue::Yes)
            },
            Instruction::Abandon { which } => {
                let which_val = self.read_register(which.idx)?;
                if which_val == 0 {
                    Err(UmError::CannotAbandonProgram)
                } else {
                    match self.data_arrays.remove(&which_val) {
                        Some(_) => {
                            proof {
                                assert(self.data_arrays@.map_values(|v: Vec<Word>| v@)
                                    =~= old(self)@.arrays.remove(which_val));
                            }
                            Ok(Continue::Yes)
                        },
                        None => {
                            proof {
                                assert(self.data_arrays@.map_values(|v: Vec<Word>| v@)
                                    =~= old(self)@.arrays);
                            }
                            Err(UmError::InvalidArrayId)
                        },
                    }
                }
            },
            Instruction::Output { val } => {
                let val_val = self.read_register(val.idx)?;
                if val_val <= 255 {
                    self.output.push(val_val as u8);
                    Ok(Continue::Yes)
                } else {
                    Err(UmError::InvalidOutput { val: val_val })
                }
            },
            Instruction::Input { dest } => {
                if self.input_pos < self.input.len() {
                    let c = self.input[self.input_pos];
                    self.input_pos = self.input_pos + 1;
                    self.set_register(dest.0, c as Word)?;
                } else {
                    self.set_register(dest.0, 0xFFFF_FFFF)?;
                }
                Ok(Continue::Yes)
            },
            Instruction::LoadProgram { from, finger } => {
                let array_id = self.read_register(from.idx)?;
                let finger_val = self.read_register(finger.idx)?;
                if array_id == 0 {
                    self.finger = finger_val;
                    Ok(Continue::Yes)
                } else {
                    match self.data_arrays.get(&array_id) {
                        Some(array) => {
                            let copied = copy_words(array);
                            self.program = copied;
                            self.finger = finger_val;
                            Ok(Continue::Yes)
                        },
                        None => Err(UmError::InvalidArrayId),
                    }
                }
            },
            Instruction::LoadRegister { dest, val } => {
                self.set_register(dest.0, val)?;
                Ok(Continue::Yes)
            },
        }
    }

    /// Runs the machine for at most `fuel` fetch-decode-execute cycles.
    /// `Some(Ok(()))` when it stopped normally (a `Halt`, or the finger
    /// past the end of the program), `Some(Err(e))` when it stopped
    /// fatally, `None` when the budget ran out first; in that case the
    /// state is exactly `fuel` cycles in and a further call resumes.  The
    /// result and the machine's state are exactly those of
    /// `semantics::machine_run` from the starting state.
    pub fn execute(&mut self, fuel: u64) -> (r: Option<Result<(), UmError>>)
        requires
            wf_state(old(self)@),
        ensures
            wf_state(final(self)@),
            match r {
                Some(res) => exists|n: nat|
                    n <= fuel && machine_run(old(self)@, n) == RunState::Done(final(self)@, res),
                None => machine_run(old(self)@, fuel as nat) == RunState::Going(final(self)@),
            },
    {
        let ghost s0 = self@;
        let mut used: u64 = 0;
        loop
            invariant
                wf_state(self@),
                used <= fuel,
                machine_run(s0, used as nat) == RunState::Going(self@),
                s0 == old(self)@,
            decreases fuel - used,
        {
            if used >= fuel {
                return None;
            }
            let ghost pre = self@;
            match self.fetch_instruction() {
                Some(word) => {
                    match Instruction::decode_from(word) {
                        Ok(inst) => {
                            proof {
                                crate::instructions::lemma_decode_indices_in_range(word);
                            }
                            match self.execute_instruction(inst) {
                                Ok(Continue::Yes) => {
                                    proof {
                                        assert(machine_step(pre) == RunState::Going(self@));
                                    }
                                    used = used + 1;
                                },
                                Ok(Continue::No) => {
                                    proof {
                                        assert(machine_run(s0, used as nat + 1) == RunState::Done(
                                            self@,
                                            Ok::<(), UmError>(()),
                                        ));
                                    }
                                    return Some(Ok(()));
                                },
                                Err(e) => {
                                    proof {
                                        assert(machine_run(s0, used as nat + 1) == RunState::Done(
                                            self@,
                                            Err::<(), UmError>(e),
                                        ));
                                    }
                                    return Some(Err(e));
                                },
                            }
                        },
                        Err(e) => {
                            proof {
                                assert(machine_run(s0, used as nat + 1) == RunState::Done(
                                    self@,
                                    Err::<(), UmError>(e),
                                ));
                            }
                            return Some(Err(e));
                        },
                    }
                },
                None => {
                    proof {
                        assert(machine_run(s0, used as nat + 1) == RunState::Done(
                            self@,
                            Ok::<(), UmError>(()),
                        ));
                    }
                    return Some(Ok(()));
                },
            }
        }
    }
}

} // verus!
