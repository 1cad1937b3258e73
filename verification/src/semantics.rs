use vstd::prelude::*;

use crate::errors::UmError;
use crate::instructions::{ArrayId, In, Instruction, Offset, Out, spec_decode, wf_inst};
use crate::machine::Word;

verus! {

/// The mathematical state of the machine: the execution finger, the eight
/// registers, the program array, the heap arrays keyed by their non-zero
/// identifiers, the allocation counter, and the two byte channels.  Input
/// is modelled as a byte sequence read at a cursor; output as the byte
/// sequence emitted so far.
pub ghost struct MachineView {
    pub finger: Word,
    pub regs: Seq<Word>,
    pub program: Seq<Word>,
    pub arrays: Map<Word, Seq<Word>>,
    pub next_id: Word,
    pub input: Seq<u8>,
    pub input_pos: nat,
    pub output: Seq<u8>,
}

/// What one instruction does to the state: continue in a new state, halt,
/// or fail with a fatal error.  Halting and failing leave the state as it
/// was.
pub ghost enum StepEffect {
    Proceed(MachineView),
    Halted,
    Fail(UmError),
}

/// Where a run stands after some number of steps: still going, or stopped
/// (normally or with an error) in a final state.
pub ghost enum RunState {
    Going(MachineView),
    Done(MachineView, Result<(), UmError>),
}

/// The byte at `j`, with bytes past the end read as zero (the tolerance
/// for a program image whose length is not a multiple of four).
pub open spec fn byte_at(b: Seq<u8>, j: int) -> u8 {
    if 0 <= j < b.len() {
        b[j]
    } else {
        0
    }
}

/// The `i`-th word of a byte blob: four consecutive bytes packed
/// big-endian, missing tail bytes taken as zero.
pub open spec fn spec_word_at(b: Seq<u8>, i: int) -> Word {
    (((byte_at(b, 4 * i) as Word) << 24) + ((byte_at(b, 4 * i + 1) as Word) << 16) + ((byte_at(
        b,
        4 * i + 2,
    ) as Word) << 8) + (byte_at(b, 4 * i + 3) as Word)) as Word
}

/// How many words a byte blob packs into: its length divided by four,
/// rounded up.
pub open spec fn word_count(b: Seq<u8>) -> nat {
    ((b.len() + 3) / 4) as nat
}

/// The whole word sequence a byte blob packs into.
pub open spec fn spec_words(b: Seq<u8>) -> Seq<Word> {
    Seq::new(word_count(b), |i: int| spec_word_at(b, i))
}

/// The machine state at construction: finger 0, all registers 0, the
/// program packed from the image bytes, no heap arrays, the allocation
/// counter at 1, empty channels.
pub open spec fn init_state(bytes: Seq<u8>) -> MachineView {
    MachineView {
        finger: 0,
        regs: Seq::new(8, |i: int| 0u32),
        program: spec_words(bytes),
        arrays: Map::empty(),
        next_id: 1,
        input: Seq::empty(),
        input_pos: 0,
        output: Seq::empty(),
    }
}

/// Well-formedness of a machine state: eight registers, no array keyed 0,
/// a non-zero allocation counter, every array short enough to be addressed
/// by a 32-bit offset, and an input cursor within the input.
pub open spec fn wf_state(s: MachineView) -> bool {
    &&& s.regs.len() == 8
    &&& s.program.len() <= 0xFFFF_FFFF
    &&& !s.arrays.contains_key(0)
    &&& s.next_id != 0
    &&& (forall|k: Word| #[trigger] s.arrays.contains_key(k) ==> s.arrays[k].len() <= 0xFFFF_FFFF)
    &&& s.input_pos <= s.input.len()
}

/// Addition on words: modulo 2^32.
pub open spec fn word_add(x: Word, y: Word) -> Word {
    ((x + y) % 0x1_0000_0000) as Word
}

/// Multiplication on words: modulo 2^32.
pub open spec fn word_mul(x: Word, y: Word) -> Word {
    ((x * y) % 0x1_0000_0000) as Word
}

/// The allocation counter after an allocation: one more, wrapping, but
/// never the reserved identifier 0.
pub open spec fn bump_id(k: Word) -> Word {
    if k == 0xFFFF_FFFF {
        1
    } else {
        (k + 1) as Word
    }
}

/// Reading one cell: identifier 0 names the program array, any other
/// identifier a heap array, which must be live and long enough.
pub open spec fn read_cell(s: MachineView, id: Word, off: Word) -> Result<Word, UmError> {
    if id == 0 {
        if (off as int) < s.program.len() {
            Ok(s.program[off as int])
        } else {
            Err(UmError::ProgramOutOfRange)
        }
    } else if !s.arrays.contains_key(id) {
        Err(UmError::InvalidArrayId)
    } else if (off as int) < s.arrays[id].len() {
        Ok(s.arrays[id][off as int])
    } else {
        Err(UmError::ArrayOutOfRange)
    }
}

/// Writing one cell, with the same addressing and the same errors as
/// `read_cell`.
pub open spec fn write_cell(s: MachineView, id: Word, off: Word, v: Word) -> Result<
    MachineView,
    UmError,
> {
    if id == 0 {
        if (off as int) < s.program.len() {
            Ok(MachineView { program: s.program.update(off as int, v), ..s })
        } else {
            Err(UmError::ProgramOutOfRange)
        }
    } else if !s.arrays.contains_key(id) {
        Err(UmError::InvalidArrayId)
    } else if (off as int) < s.arrays[id].len() {
        Ok(MachineView { arrays: s.arrays.insert(id, s.arrays[id].update(off as int, v)), ..s })
    } else {
        Err(UmError::ArrayOutOfRange)
    }
}

/// The semantics of one decoded instruction on a state.  The finger is not
/// touched here (the fetch advances it beforehand), except by program
/// replacement, which sets it.
pub open spec fn inst_effect(s: MachineView, inst: Instruction) -> StepEffect {
    match inst {
        Instruction::ConditionalMove { dest, src, test } => {
            if s.regs[test.idx as int] != 0 {
                StepEffect::Proceed(
                    MachineView { regs: s.regs.update(dest.0 as int, s.regs[src.idx as int]), ..s },
                )
            } else {
                StepEffect::Proceed(s)
            }
        },
        Instruction::ArrayIndex { dest, offset, array } => {
            match read_cell(s, s.regs[array.idx as int], s.regs[offset.idx as int]) {
                Ok(v) => StepEffect::Proceed(
                    MachineView { regs: s.regs.update(dest.0 as int, v), ..s },
                ),
                Err(e) => StepEffect::Fail(e),
            }
        },
        Instruction::ArrayAmend { array, offset, val } => {
            match write_cell(
                s,
                s.regs[array.idx as int],
                s.regs[offset.idx as int],
                s.regs[val.idx as int],
            ) {
                Ok(s2) => StepEffect::Proceed(s2),
                Err(e) => StepEffect::Fail(e),
            }
        },
        Instruction::Add { dest, x, y } => {
            StepEffect::Proceed(
                MachineView {
                    regs: s.regs.update(
                        dest.0 as int,
                        word_add(s.regs[x.idx as int], s.regs[y.idx as int]),
                    ),
                    ..s
                },
            )
        },
        Instruction::Multiply { dest, x, y } => {
            StepEffect::Proceed(
                MachineView {
                    regs: s.regs.update(
                        dest.0 as int,
                        word_mul(s.regs[x.idx as int], s.regs[y.idx as int]),
                    ),
                    ..s
                },
            )
        },
        Instruction::Divide { dest, x, y } => {
            if s.regs[y.idx as int] == 0 {
                StepEffect::Fail(UmError::DivideByZero)
            } else {
                StepEffect::Proceed(
                    MachineView {
                        regs: s.regs.update(
                            dest.0 as int,
                            s.regs[x.idx as int] / s.regs[y.idx as int],
                        ),
                        ..s
                    },
                )
            }
        },
        Instruction::Nand { dest, x, y } => {
            StepEffect::Proceed(
                MachineView {
                    regs: s.regs.update(dest.0 as int, !(s.regs[x.idx as int] & s.regs[y.idx as int])),
                    ..s
                },
            )
        },
        Instruction::Halt => StepEffect::Halted,
        Instruction::Allocate { size, result } => {
            let n = s.regs[size.idx as int];
            let k = s.next_id;
            StepEffect::Proceed(
                MachineView {
                    regs: s.regs.update(result.0 as int, k),
                    arrays: s.arrays.insert(k, Seq::new(n as nat, |i: int| 0u32)),
                    next_id: bump_id(k),
                    ..s
                },
            )
        },
        Instruction::Abandon { which } => {
            let k = s.regs[which.idx as int];
            if k == 0 {
                StepEffect::Fail(UmError::CannotAbandonProgram)
            } else if !s.arrays.contains_key(k) {
                StepEffect::Fail(UmError::InvalidArrayId)
            } else {
                StepEffect::Proceed(MachineView { arrays: s.arrays.remove(k), ..s })
            }
        },
        Instruction::Output { val } => {
            let v = s.regs[val.idx as int];
            if v <= 255 {
                StepEffect::Proceed(MachineView { output: s.output.push(v as u8), ..s })
            } else {
                StepEffect::Fail(UmError::InvalidOutput { val: v })
            }
        },
        Instruction::Input { dest } => {
            if s.input_pos < s.input.len() {
                StepEffect::Proceed(
                    MachineView {
                        regs: s.regs.update(dest.0 as int, s.input[s.input_pos as int] as Word),
                        input_pos: s.input_pos + 1,
                        ..s
                    },
                )
            } else {
                StepEffect::Proceed(
                    MachineView { regs: s.regs.update(dest.0 as int, 0xFFFF_FFFF), ..s },
                )
            }
        },
        Instruction::LoadProgram { from, finger } => {
            let k = s.regs[from.idx as int];
            let f = s.regs[finger.idx as int];
            if k == 0 {
                StepEffect::Proceed(MachineView { finger: f, ..s })
            } else if !s.arrays.contains_key(k) {
                StepEffect::Fail(UmError::InvalidArrayId)
            } else {
                StepEffect::Proceed(MachineView { program: s.arrays[k], finger: f, ..s })
            }
        },
        Instruction::LoadRegister { dest, val } => {
            StepEffect::Proceed(MachineView { regs: s.regs.update(dest.0 as int, val), ..s })
        },
    }
}

/// One fetch-decode-execute cycle: a finger past the end stops the machine
/// normally; otherwise the word under the finger is fetched, the finger
/// advanced, and the decoded instruction applied.
pub open spec fn machine_step(s: MachineView) -> RunState {
    if s.finger as int >= s.program.len() {
        RunState::Done(s, Ok(()))
    } else {
        let w = s.program[s.finger as int];
        let s1 = MachineView { finger: (s.finger + 1) as Word, ..s };
        match spec_decode(w) {
            Err(e) => RunState::Done(s1, Err(e)),
            Ok(inst) => match inst_effect(s1, inst) {
                StepEffect::Proceed(s2) => RunState::Going(s2),
                StepEffect::Halted => RunState::Done(s1, Ok(())),
                StepEffect::Fail(e) => RunState::Done(s1, Err(e)),
            },
        }
    }
}

/// Where the machine stands after `n` cycles from `s`: once stopped, it
/// stays stopped.
pub open spec fn machine_run(s: MachineView, n: nat) -> RunState
    decreases n,
{
    if n == 0 {
        RunState::Going(s)
    } else {
        match machine_run(s, (n - 1) as nat) {
            RunState::Going(s1) => machine_step(s1),
            stopped => stopped,
        }
    }
}

/// Law: an instruction that continues execution preserves
/// well-formedness; in particular the array table never gains a key equal
/// to 0, and, the table being a map, its live keys are pairwise distinct
/// at all times.
pub proof fn lemma_effect_preserves_wf(s: MachineView, inst: Instruction)
    requires
        wf_state(s),
        wf_inst(inst),
    ensures
        inst_effect(s, inst) matches StepEffect::Proceed(s2) ==> wf_state(s2),
{
    match inst {
        Instruction::Allocate { size, result } => {
            let n = s.regs[size.idx as int];
            let k = s.next_id;
            let s2 = MachineView {
                regs: s.regs.update(result.0 as int, k),
                arrays: s.arrays.insert(k, Seq::new(n as nat, |i: int| 0u32)),
                next_id: bump_id(k),
                ..s
            };
            assert(inst_effect(s, inst) == StepEffect::Proceed(s2));
            assert(forall|j: Word| #[trigger]
                s2.arrays.contains_key(j) ==> s2.arrays[j].len() <= 0xFFFF_FFFF);
            assert(wf_state(s2));
        },
        Instruction::LoadProgram { from, finger } => {
            let k = s.regs[from.idx as int];
            if k != 0 && s.arrays.contains_key(k) {
                assert(s.arrays[k].len() <= 0xFFFF_FFFF);
            }
        },
        _ => {},
    }
}

/// Law: a whole machine cycle preserves well-formedness, whether it
/// continues or stops.
pub proof fn lemma_step_preserves_wf(s: MachineView)
    requires
        wf_state(s),
    ensures
        machine_step(s) matches RunState::Going(s2) ==> wf_state(s2),
        machine_step(s) matches RunState::Done(s2, r) ==> wf_state(s2),
{
    if (s.finger as int) < s.program.len() {
        let w = s.program[s.finger as int];
        let s1 = MachineView { finger: (s.finger + 1) as Word, ..s };
        crate::instructions::lemma_decode_indices_in_range(w);
        match spec_decode(w) {
            Ok(inst) => lemma_effect_preserves_wf(s1, inst),
            Err(_) => {},
        }
    }
}

/// Law: well-formedness holds at all times: after any number of cycles
/// from a well-formed state, the state is still well-formed — whether the
/// machine is still going or has stopped.
pub proof fn lemma_run_preserves_wf(s: MachineView, n: nat)
    requires
        wf_state(s),
    ensures
        machine_run(s, n) matches RunState::Going(s2) ==> wf_state(s2),
        machine_run(s, n) matches RunState::Done(s2, r) ==> wf_state(s2),
    decreases n,
{
    if n > 0 {
        lemma_run_preserves_wf(s, (n - 1) as nat);
        match machine_run(s, (n - 1) as nat) {
            RunState::Going(s1) => lemma_step_preserves_wf(s1),
            RunState::Done(..) => {},
        }
    }
}

/// Law: allocation hands out a fresh identifier: the register named
/// `result` receives the counter value `k`, which is non-zero and was not
/// the key of any live array, and the new zero-filled array is inserted at
/// `k`.  (Should the wrapping counter ever revisit a still-live key, which
/// the hypothesis on `next_id` excludes, the behaviour is left open.)
pub proof fn lemma_allocate_fresh(s: MachineView, size: In<Word>, result: Out)
    requires
        wf_state(s),
        size.idx < 8,
        result.0 < 8,
        !s.arrays.contains_key(s.next_id),
    ensures
        s.next_id != 0,
        !s.arrays.contains_key(s.next_id),
        inst_effect(s, Instruction::Allocate { size, result }) == StepEffect::Proceed(
            (MachineView {
                regs: s.regs.update(result.0 as int, s.next_id),
                arrays: s.arrays.insert(
                    s.next_id,
                    Seq::new(s.regs[size.idx as int] as nat, |i: int| 0u32),
                ),
                next_id: bump_id(s.next_id),
                ..s
            }),
        ),
        s.regs.update(result.0 as int, s.next_id)[result.0 as int] == s.next_id,
{
}

/// Law (program replacement copies): replacing the program from a live
/// heap array `k != 0` makes the program exactly the present contents of
/// that array, sets the finger, and leaves registers and arrays alone.
pub proof fn lemma_load_program_copies(s: MachineView, from: In<ArrayId>, finger: In<Word>)
    requires
        from.idx < 8,
        finger.idx < 8,
        s.regs[from.idx as int] != 0,
        s.arrays.contains_key(s.regs[from.idx as int]),
    ensures
        inst_effect(s, Instruction::LoadProgram { from, finger }) == StepEffect::Proceed(
            (MachineView {
                program: s.arrays[s.regs[from.idx as int]],
                finger: s.regs[finger.idx as int],
                ..s
            }),
        ),
{
}

/// Law (writes after replacement are isolated): amending any heap array
/// never changes the program array.  Together with
/// `lemma_load_program_copies` this says that after a program replacement
/// from array `k`, subsequent writes to array `k` do not change any word
/// of the running program.
pub proof fn lemma_amend_preserves_program(
    t: MachineView,
    array: In<ArrayId>,
    offset: In<Offset>,
    val: In<Word>,
)
    requires
        t.regs[array.idx as int] != 0,
    ensures
        inst_effect(t, Instruction::ArrayAmend { array, offset, val }) matches StepEffect::Proceed(
            t2,
        ) ==> t2.program == t.program,
{
}

/// Law: after a program replacement from a live heap array `k != 0`, a
/// subsequent amend of any heap array — in particular of `k` itself —
/// leaves the running program exactly the copy taken at load time: later
/// writes to the source array do not change a word of the program.
pub proof fn lemma_write_after_load_is_isolated(
    s: MachineView,
    from: In<ArrayId>,
    finger: In<Word>,
    array: In<ArrayId>,
    offset: In<Offset>,
    val: In<Word>,
)
    requires
        from.idx < 8,
        finger.idx < 8,
        s.regs[from.idx as int] != 0,
        s.arrays.contains_key(s.regs[from.idx as int]),
        s.regs[array.idx as int] != 0,
    ensures
        inst_effect(s, Instruction::LoadProgram { from, finger }) matches StepEffect::Proceed(s1)
            ==> s1.program == s.arrays[s.regs[from.idx as int]] && (inst_effect(
            s1,
            Instruction::ArrayAmend { array, offset, val },
        ) matches StepEffect::Proceed(s2) ==> s2.program == s.arrays[s.regs[from.idx as int]]),
{
    lemma_load_program_copies(s, from, finger);
    match inst_effect(s, Instruction::LoadProgram { from, finger }) {
        StepEffect::Proceed(s1) => lemma_amend_preserves_program(s1, array, offset, val),
        _ => {},
    }
}

/// Law: addition and multiplication on the machine wrap modulo 2^32: the
/// destination register receives exactly `(x + y) % 2^32`, respectively
/// `(x * y) % 2^32`.
pub proof fn lemma_wrapping_arithmetic(s: MachineView, dest: Out, x: In<Word>, y: In<Word>)
    ensures
        inst_effect(s, Instruction::Add { dest, x, y }) == StepEffect::Proceed(
            (MachineView {
                regs: s.regs.update(
                    dest.0 as int,
                    (((s.regs[x.idx as int] + s.regs[y.idx as int]) as int
                        % 0x1_0000_0000) as Word),
                ),
                ..s
            }),
        ),
        inst_effect(s, Instruction::Multiply { dest, x, y }) == StepEffect::Proceed(
            (MachineView {
                regs: s.regs.update(
                    dest.0 as int,
                    (((s.regs[x.idx as int] * s.regs[y.idx as int]) as int
                        % 0x1_0000_0000) as Word),
                ),
                ..s
            }),
        ),
{
}

} // verus!
