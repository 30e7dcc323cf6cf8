//! Tests of the processor's typed stack and code stream.

use sand::sasm::instructions::stack::{const_32, drop_32};
use sand::sasm::processor::Processor;
use sand::sasm::program::Program;

#[test]
fn test_push_pop_roundtrip() {
    // A push followed by a pop returns the pushed value and restores the
    // stack pointer, for every width.
    let program = Program::new_for_tests(Vec::new(), 0, 0);
    let mut processor = Processor::new_empty(program, 64);

    processor.push_u8(0xfe).unwrap();
    assert_eq!(processor.pop_u8().unwrap(), 0xfe);
    assert_eq!(processor.stack_pointer(), 0);

    processor.push_u16(0xbeef).unwrap();
    assert_eq!(processor.pop_u16().unwrap(), 0xbeef);
    assert_eq!(processor.stack_pointer(), 0);

    processor.push_u32(0xdeadbeef).unwrap();
    assert_eq!(processor.pop_u32().unwrap(), 0xdeadbeef);
    assert_eq!(processor.stack_pointer(), 0);

    processor.push_u64(0x0123456789abcdef).unwrap();
    assert_eq!(processor.pop_u64().unwrap(), 0x0123456789abcdef);
    assert_eq!(processor.stack_pointer(), 0);

    processor.push_i8(-3).unwrap();
    assert_eq!(processor.pop_i8().unwrap(), -3);

    processor.push_i16(-259).unwrap();
    assert_eq!(processor.pop_i16().unwrap(), -259);

    processor.push_i32(-70000).unwrap();
    assert_eq!(processor.pop_i32().unwrap(), -70000);

    processor.push_i64(-5000000000).unwrap();
    assert_eq!(processor.pop_i64().unwrap(), -5000000000);
    assert_eq!(processor.stack_pointer(), 0);
}

#[test]
fn test_peek_keeps_stack() {
    let program = Program::new_for_tests(Vec::new(), 0, 0);
    let mut processor = Processor::new_empty(program, 64);

    processor.push_u32(0x11223344).unwrap();
    assert_eq!(processor.peek_u32().unwrap(), 0x11223344);
    assert_eq!(processor.stack_pointer(), 4, "peek must not move the pointer");
    assert_eq!(processor.pop_u32().unwrap(), 0x11223344);

    let result = processor.peek_u64().expect_err("the peek must fail");
    assert_eq!(result.unwrap_panic(), "Stack underflow");
}

#[test]
fn test_code_next_advances() {
    let program = Program::new_for_tests(vec![0x01, 0x02, 0x03, 0x04], 0, 0);
    let mut processor = Processor::new_empty(program, 64);

    assert_eq!(processor.code_next_u16().unwrap(), 0x0201);
    assert_eq!(processor.program_counter(), 2);
    assert_eq!(processor.code_next_i8().unwrap(), 3);
    assert_eq!(processor.program_counter(), 3);

    let result = processor.code_next_u32().expect_err("the fetch must fail");
    assert_eq!(result.unwrap_panic(), "Segmentation Fault");
    assert_eq!(processor.program_counter(), 3, "a failed fetch must not move");
}

#[test]
fn test_const_then_drop() {
    // A const followed by the matching drop leaves the stack pointer as it
    // was and the program counter past the immediate.
    let program = Program::new_for_tests(vec![0x78, 0x56, 0x34, 0x12], 0, 0);
    let mut processor = Processor::new_empty(program, 64);

    const_32(&mut processor).expect("the const must succeed");
    drop_32(&mut processor).expect("the drop must succeed");
    assert_eq!(processor.stack_pointer(), 0, "the stack pointer must be restored");
    assert_eq!(processor.program_counter(), 4, "the counter must pass the immediate");
}

#[test]
fn test_stack_flags() {
    let program = Program::new_for_tests(Vec::new(), 0, 0);
    let mut processor = Processor::new_empty(program, 2);

    assert!(processor.is_stack_empty());
    assert!(!processor.is_stack_full());
    processor.push_u16(1).unwrap();
    assert!(!processor.is_stack_empty());
    assert!(processor.is_stack_full());
    assert_eq!(processor.stack_size(), 2);

    processor.set_overflow_flag(true);
    assert!(processor.overflow_flag());
    processor.set_overflow_flag(false);
    assert!(!processor.overflow_flag());
}

#[test]
fn test_set_stack_pointer_bounds() {
    let program = Program::new_for_tests(Vec::new(), 0, 0);
    let mut processor = Processor::new_empty(program, 8);

    processor.set_stack_pointer(8).unwrap();
    assert_eq!(processor.stack_pointer(), 8, "a full stack is a legal pointer");

    let result = processor
        .set_stack_pointer(9)
        .expect_err("the pointer must stay inside the stack");
    assert_eq!(result.unwrap_panic(), "Stack overflow");
    assert_eq!(processor.stack_pointer(), 8);
}
