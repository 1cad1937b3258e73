use um::errors::UmError;
use um::instructions::{ArrayId, Offset};
use um::machine::Machine;

const FUEL: u64 = 100_000;

fn words_to_bytes(words: &[u32]) -> Vec<u8> {
    let mut bytes = Vec::new();
    for w in words {
        bytes.push((w >> 24) as u8);
        bytes.push((w >> 16) as u8);
        bytes.push((w >> 8) as u8);
        bytes.push(*w as u8);
    }
    bytes
}

fn run(words: &[u32], input: Vec<u8>) -> (Option<Result<(), UmError>>, Vec<u8>) {
    let mut m = Machine::new(words_to_bytes(words));
    m.set_input(input);
    let r = m.execute(FUEL);
    let out = m.output().clone();
    (r, out)
}

#[test]
fn halt_immediately() {
    let (r, out) = run(&[0x70000000], Vec::new());
    assert_eq!(r, Some(Ok(())));
    assert_eq!(out, Vec::<u8>::new());
}

#[test]
fn orthographic_and_output() {
    let (r, out) = run(&[0xD0000041, 0xA8000000, 0x70000000], Vec::new());
    assert_eq!(r, Some(Ok(())));
    assert_eq!(out, vec![0x41]);
}

#[test]
fn add_two_literals() {
    // reg0 <- 2, reg1 <- 3, reg0 <- reg0 + reg1, reg2 <- 5, output reg0.
    let (r, out) = run(
        &[0xD0000002, 0xD2000003, 0x30000001, 0xD4000005, 0xA8000000, 0x70000000],
        Vec::new(),
    );
    assert_eq!(r, Some(Ok(())));
    assert_eq!(out, vec![0x05]);
}

#[test]
fn divide_by_zero() {
    let (r, out) = run(&[0xD0000005, 0xD0200000, 0x50000001, 0x70000000], Vec::new());
    assert_eq!(r, Some(Err(UmError::DivideByZero)));
    assert_eq!(out, Vec::<u8>::new());
}

#[test]
fn allocate_store_load_abandon() {
    // reg0 <- 2; allocate size reg0 into reg1; reg2 <- 7;
    // arrays[reg1][reg5=0] <- reg2; reg3 <- arrays[reg1][reg5];
    // output reg3; abandon reg1; halt.
    let (r, out) = run(
        &[
            0xD0000002, 0x80000008, 0xD4000007, 0x2000006A, 0x100000CD, 0xA0000003, 0x90000001,
            0x70000000,
        ],
        Vec::new(),
    );
    assert_eq!(r, Some(Ok(())));
    assert_eq!(out, vec![0x07]);
}

#[test]
fn abandoned_id_no_longer_referenceable() {
    // reg0 <- 2; allocate into reg1; abandon reg1; then amend through the
    // stale identifier in reg1.
    let (r, _) = run(&[0xD0000002, 0x80000008, 0x90000001, 0x20000068], Vec::new());
    assert_eq!(r, Some(Err(UmError::InvalidArrayId)));
}

#[test]
fn load_program_replaces_and_runs() {
    // Builds a 2-word array holding {output reg0, halt}, loads it as the
    // program with finger 0; reg0 holds 'B'.
    let (r, out) = run(
        &[
            0xD2000002, // reg1 <- 2 (size)
            0x80000011, // allocate size reg1 into reg2
            0xD0000042, // reg0 <- 'B'
            0xD8004000, // reg4 <- 0x4000
            0xD600000A, // reg3 <- 0xA
            0x400000DC, // reg3 <- reg3 * reg4  (0x28000)
            0x400000DC, // reg3 <- reg3 * reg4  (0xA0000000 = output reg0)
            0xDC000000, // reg6 <- 0
            0x200000B3, // arrays[reg2][reg6] <- reg3
            0xDA000007, // reg5 <- 7
            0x4000016C, // reg5 <- reg5 * reg4  (0x1C000)
            0x4000016C, // reg5 <- reg5 * reg4  (0x70000000 = halt)
            0xDC000001, // reg6 <- 1
            0x200000B5, // arrays[reg2][reg6] <- reg5
            0xD2000000, // reg1 <- 0 (finger)
            0xC0000011, // load program from reg2, finger reg1
        ],
        Vec::new(),
    );
    assert_eq!(r, Some(Ok(())));
    assert_eq!(out, vec![0x42]);
}

#[test]
fn write_after_load_does_not_alter_program() {
    // The loaded 3-word program {amend old array at reg6, output reg0,
    // halt} first writes a halt word into the source array at index 1.
    // Were the program aliased to the array, that write would overwrite
    // the output instruction and nothing would be emitted.
    let (r, out) = run(
        &[
            0xD2000003, // reg1 <- 3 (size)
            0x80000011, // allocate size reg1 into reg2
            0xD0000042, // reg0 <- 'B'
            0xD8004000, // reg4 <- 0x4000
            // word 0 of the new program: amend arrays[reg2][reg6] <- reg5
            0xD6000002, // reg3 <- 2
            0x400000DC, // reg3 <- reg3 * reg4
            0x400000DC, // reg3 <- reg3 * reg4  (0x20000000)
            0xDE0000B5, // reg7 <- 0xB5
            0x300000DF, // reg3 <- reg3 + reg7  (0x200000B5)
            0xDC000000, // reg6 <- 0
            0x200000B3, // arrays[reg2][0] <- reg3
            // word 1: output reg0
            0xD600000A, // reg3 <- 0xA
            0x400000DC, // reg3 <- reg3 * reg4
            0x400000DC, // reg3 <- reg3 * reg4  (0xA0000000)
            0xDC000001, // reg6 <- 1
            0x200000B3, // arrays[reg2][1] <- reg3
            // word 2: halt
            0xDA000007, // reg5 <- 7
            0x4000016C, // reg5 <- reg5 * reg4
            0x4000016C, // reg5 <- reg5 * reg4  (0x70000000)
            0xDC000002, // reg6 <- 2
            0x200000B5, // arrays[reg2][2] <- reg5
            // the loaded program will write reg5 (halt) at index 1
            0xDC000001, // reg6 <- 1
            0xD2000000, // reg1 <- 0 (finger)
            0xC0000011, // load program from reg2, finger reg1
        ],
        Vec::new(),
    );
    assert_eq!(r, Some(Ok(())));
    assert_eq!(out, vec![0x42]);
}

#[test]
fn load_program_id_zero_is_a_jump() {
    // reg1 <- 3; load program from reg0 (= 0) with finger reg1: a pure
    // jump over the instruction that would set reg0 to 256.
    let mut m = Machine::new(words_to_bytes(&[
        0xD2000003, 0xC0000001, 0xD0000100, 0x70000000,
    ]));
    let r = m.execute(FUEL);
    assert_eq!(r, Some(Ok(())));
    assert_eq!(m.read_register(0), Ok(0));
}

#[test]
fn empty_program_halts() {
    let (r, out) = run(&[], Vec::new());
    assert_eq!(r, Some(Ok(())));
    assert_eq!(out, Vec::<u8>::new());
}

#[test]
fn ragged_image_single_byte_halts() {
    let mut m = Machine::new(vec![0x70]);
    assert_eq!(m.execute(FUEL), Some(Ok(())));
}

#[test]
fn ragged_image_two_bytes_padded() {
    // 0xD0 0x00 packs to 0xD0000000: reg0 <- 0, then the finger falls
    // off the end and the machine stops normally.
    let mut m = Machine::new(vec![0xD0, 0x00]);
    assert_eq!(m.execute(FUEL), Some(Ok(())));
}

#[test]
fn finger_past_end_stops_normally() {
    let (r, _) = run(&[0xD0000001], Vec::new());
    assert_eq!(r, Some(Ok(())));
}

#[test]
fn output_255_is_valid() {
    let (r, out) = run(&[0xD00000FF, 0xA8000000, 0x70000000], Vec::new());
    assert_eq!(r, Some(Ok(())));
    assert_eq!(out, vec![255]);
}

#[test]
fn output_256_is_fatal() {
    let (r, out) = run(&[0xD0000100, 0xA8000000, 0x70000000], Vec::new());
    assert_eq!(r, Some(Err(UmError::InvalidOutput { val: 256 })));
    assert_eq!(out, Vec::<u8>::new());
}

#[test]
fn input_reads_one_byte() {
    let (r, out) = run(&[0xB0000000, 0xA8000000, 0x70000000], vec![0x41]);
    assert_eq!(r, Some(Ok(())));
    assert_eq!(out, vec![0x41]);
}

#[test]
fn input_at_eof_gives_all_ones() {
    // input reg0; reg1 <- nand(reg0, reg0); halt.  At end of input reg0
    // is all ones, so reg1 is 0.
    let mut m = Machine::new(words_to_bytes(&[0xB0000000, 0x60000040, 0x70000000]));
    assert_eq!(m.execute(FUEL), Some(Ok(())));
    assert_eq!(m.read_register(0), Ok(0xFFFFFFFF));
    assert_eq!(m.read_register(1), Ok(0));
}

#[test]
fn input_consumed_in_order() {
    // Two inputs, output in reverse of nothing: emitted in read order.
    let (r, out) = run(
        &[0xB0000000, 0xB0000001, 0xA8000000, 0xA0000001, 0x70000000],
        vec![0x31, 0x32],
    );
    assert_eq!(r, Some(Ok(())));
    assert_eq!(out, vec![0x31, 0x32]);
}

#[test]
fn allocation_of_size_zero_then_index_fails() {
    // allocate size reg0 (= 0) into reg1, then index arrays[reg1][reg5].
    let (r, _) = run(&[0x80000008, 0x100000CD], Vec::new());
    assert_eq!(r, Some(Err(UmError::ArrayOutOfRange)));
}

#[test]
fn unknown_instruction_is_fatal() {
    let (r, _) = run(&[0xE0000000], Vec::new());
    assert_eq!(r, Some(Err(UmError::UnknownInstruction { inst: 0xE0000000 })));
}

#[test]
fn abandon_program_array_is_fatal() {
    // abandon reg1 (= 0): the program array cannot be abandoned.
    let (r, _) = run(&[0x90000001], Vec::new());
    assert_eq!(r, Some(Err(UmError::CannotAbandonProgram)));
}

#[test]
fn abandon_unallocated_id_is_fatal() {
    let (r, _) = run(&[0xD0000005, 0x90000000], Vec::new());
    assert_eq!(r, Some(Err(UmError::InvalidArrayId)));
}

#[test]
fn program_read_out_of_range_is_fatal() {
    // reg6 <- 100; reg3 <- arrays[reg7 = 0][reg6]: offset 100 is past
    // the end of the program array.
    let (r, _) = run(&[0xDC000064, 0x100000FE, 0x70000000], Vec::new());
    assert_eq!(r, Some(Err(UmError::ProgramOutOfRange)));
}

#[test]
fn conditional_move_taken_and_not_taken() {
    // reg0 <- 1, reg1 <- 9, cmove reg2 <- reg1 if reg0 != 0, output reg2.
    let (r, out) = run(
        &[0xD0000001, 0xD2000009, 0x00000088, 0xA0000002, 0x70000000],
        Vec::new(),
    );
    assert_eq!(r, Some(Ok(())));
    assert_eq!(out, vec![9]);
    // cmove reg2 <- reg1 if reg3 != 0: reg3 is 0, so reg2 keeps 0.
    let (r2, out2) = run(
        &[0xD2000009, 0x0000008B, 0xA0000002, 0x70000000],
        Vec::new(),
    );
    assert_eq!(r2, Some(Ok(())));
    assert_eq!(out2, vec![0]);
}

#[test]
fn add_and_multiply_wrap() {
    // reg0 <- nand(reg0, reg0) = 0xFFFFFFFF; reg1 <- reg0 + reg0;
    // reg2 <- reg0 * reg0; both wrap modulo 2^32.
    let mut m = Machine::new(words_to_bytes(&[
        0x60000000, 0x30000040, 0x40000080, 0x70000000,
    ]));
    assert_eq!(m.execute(FUEL), Some(Ok(())));
    assert_eq!(m.read_register(1), Ok(0xFFFFFFFE));
    assert_eq!(m.read_register(2), Ok(1));
}

#[test]
fn divide_is_integer_division() {
    // reg0 <- 7, reg1 <- 2, reg2 <- reg0 / reg1.
    let mut m = Machine::new(words_to_bytes(&[
        0xD0000007, 0xD2000002, 0x50000081, 0x70000000,
    ]));
    assert_eq!(m.execute(FUEL), Some(Ok(())));
    assert_eq!(m.read_register(2), Ok(3));
}

#[test]
fn fuel_runs_out_and_resumes() {
    // load program from reg0 (= 0) with finger reg1 (= 0): spins forever.
    let mut m = Machine::new(words_to_bytes(&[0xC0000001]));
    assert_eq!(m.execute(100), None);
    assert_eq!(m.execute(100), None);
}

#[test]
fn allocate_returns_distinct_nonzero_ids() {
    // Two allocations of size reg0 (= 0) into reg1 and reg2: the
    // identifiers are non-zero and distinct.
    let mut m = Machine::new(words_to_bytes(&[0x80000008, 0x80000010, 0x70000000]));
    assert_eq!(m.execute(FUEL), Some(Ok(())));
    let id1 = m.read_register(1).unwrap();
    let id2 = m.read_register(2).unwrap();
    assert_ne!(id1, 0);
    assert_ne!(id2, 0);
    assert_ne!(id1, id2);
}

#[test]
fn register_accessors_validate_index() {
    let m = Machine::new(words_to_bytes(&[0x70000000]));
    assert_eq!(m.read_register(3), Ok(0));
    assert_eq!(m.read_register(8), Err(UmError::InvalidRegisterIndex { idx: 8 }));
    let mut m2 = Machine::new(words_to_bytes(&[0x70000000]));
    assert_eq!(m2.set_register(9, 5), Err(UmError::InvalidRegisterIndex { idx: 9 }));
    assert_eq!(m2.set_register(7, 5), Ok(()));
    assert_eq!(m2.read_register(7), Ok(5));
}

#[test]
fn array_accessors_on_program_and_missing_ids() {
    let mut m = Machine::new(words_to_bytes(&[0x70000000]));
    assert_eq!(m.read_array(ArrayId(0), Offset(0)), Ok(0x70000000));
    assert_eq!(m.read_array(ArrayId(0), Offset(1)), Err(UmError::ProgramOutOfRange));
    assert_eq!(m.read_array(ArrayId(5), Offset(0)), Err(UmError::InvalidArrayId));
    assert_eq!(m.write_array(ArrayId(0), Offset(0), 0xD0000041), Ok(()));
    assert_eq!(m.read_array(ArrayId(0), Offset(0)), Ok(0xD0000041));
    assert_eq!(m.write_array(ArrayId(3), Offset(0), 1), Err(UmError::InvalidArrayId));
}
