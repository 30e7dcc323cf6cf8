//! Tests of the instruction handlers, including the end-to-end scenarios of
//! filling memory, growing it and casting stack values.

use sand::sasm::instructions::casting::{extend_8_to_16, extend_sign_8_to_16, trunc_16_to_8};
use sand::sasm::instructions::general::{branch, branch_if_8, debug, nop};
use sand::sasm::instructions::memory::{
    memory_copy, memory_fill_16, memory_fill_32, memory_fill_64, memory_fill_8, memory_grow,
    memory_load_32, memory_size, program_data_load_16,
};
use sand::sasm::instructions::stack::{const_16, const_32, const_64, const_8, drop_16, drop_32, drop_64, drop_8};
use sand::sasm::memory::MEMORY_DEFAULT_PAGE_SIZE;
use sand::sasm::processor::Processor;
use sand::sasm::program::Program;

#[test]
fn test_memory_size() {
    let program = Program::new_for_tests(Vec::new(), 0, 0);
    let mut processor = Processor::new_empty(program, 20);

    memory_size(&mut processor).expect("[1] The method must succeed");
    assert_eq!(
        processor.stack_pointer(),
        4,
        "[1] The stack pointer is incorrect"
    );
    assert_eq!(
        processor.pop_u32().unwrap() as usize,
        MEMORY_DEFAULT_PAGE_SIZE,
        "[1] The memory size is incorrect"
    );
}

#[test]
fn test_memory_grow() {
    let program = Program::new_for_tests(Vec::new(), 0, 0);
    let mut processor = Processor::new_empty(program, 100);

    processor
        .push_u32(3 * MEMORY_DEFAULT_PAGE_SIZE as u32)
        .unwrap();
    assert_eq!(
        processor.stack_pointer(),
        4,
        "[1] The initial stack pointer is incorrect"
    );

    memory_grow(&mut processor).expect("[1] The method must succeed");
    assert_eq!(
        processor.stack_pointer(),
        4,
        "[1] The late stack pointer is incorrect"
    );
    assert_eq!(
        processor.pop_u32().unwrap() as usize,
        MEMORY_DEFAULT_PAGE_SIZE,
        "[1] The old memory size is incorrect"
    );
    assert_eq!(
        processor.memory().size(),
        4 * MEMORY_DEFAULT_PAGE_SIZE,
        "[1] The current memory size is incorrect"
    );
    assert!(!processor.overflow_flag(), "[1] The overflow flag is incorrect");
}

#[test]
fn test_memory_fill() {
    let program = Program::new_for_tests(Vec::new(), 0, 0);
    let stack_size: u32 = 20;
    let mut processor = Processor::new_empty(program, 100);
    let max_bytes: u32 = 64 * 100;
    let start_pointer = stack_size;

    // Case 1
    let value = 0x45;
    let number_of_words = max_bytes / 8;
    processor.push_u32(start_pointer).unwrap();
    processor.push_u32(number_of_words).unwrap();
    processor.push_u8(value).unwrap();
    memory_fill_8(&mut processor).expect("[1] The method must succeed");
    assert_eq!(
        processor.stack_pointer(),
        0,
        "[1] The stack pointer is incorrect"
    );

    let page = &processor.memory().pages[0];
    let range = &page[start_pointer as usize..(start_pointer + number_of_words) as usize];
    for byte in range {
        assert_eq!(byte, &value, "[1] The value is incorrect")
    }

    // Case 2
    let value = 0x98ae;
    let number_of_words = max_bytes / 16;
    processor.push_u32(start_pointer).unwrap();
    processor.push_u32(number_of_words).unwrap();
    processor.push_u16(value).unwrap();
    memory_fill_16(&mut processor).expect("[2] The method must succeed");
    assert_eq!(
        processor.stack_pointer(),
        0,
        "[2] The stack pointer is incorrect"
    );

    let page = &processor.memory().pages[0];
    let range = &page[start_pointer as usize..(start_pointer + number_of_words) as usize];
    for (i, byte) in range.iter().enumerate() {
        match i % 2 {
            0 => assert_eq!(byte, &0xae, "[2.0] The value is incorrect"),
            1 => assert_eq!(byte, &0x98, "[2.1] The value is incorrect"),
            _ => unreachable!(),
        }
    }

    // Case 3
    let value = 0x12345678;
    let number_of_words = max_bytes / 16;
    processor.push_u32(start_pointer).unwrap();
    processor.push_u32(number_of_words).unwrap();
    processor.push_u32(value).unwrap();
    memory_fill_32(&mut processor).expect("[3] The method must succeed");
    assert_eq!(
        processor.stack_pointer(),
        0,
        "[3] The stack pointer is incorrect"
    );

    let page = &processor.memory().pages[0];
    let range = &page[start_pointer as usize..(start_pointer + number_of_words) as usize];
    for (i, byte) in range.iter().enumerate() {
        match i % 4 {
            0 => assert_eq!(byte, &0x78, "[3.0] The value is incorrect"),
            1 => assert_eq!(byte, &0x56, "[3.1] The value is incorrect"),
            2 => assert_eq!(byte, &0x34, "[3.2] The value is incorrect"),
            3 => assert_eq!(byte, &0x12, "[3.3] The value is incorrect"),
            _ => unreachable!(),
        }
    }

    // Case 4
    let value = 0x1234567890abcdef;
    let number_of_words = max_bytes / 16;
    processor.push_u32(start_pointer).unwrap();
    processor.push_u32(number_of_words).unwrap();
    processor.push_u64(value).unwrap();
    memory_fill_64(&mut processor).expect("[4] The method must succeed");
    assert_eq!(
        processor.stack_pointer(),
        0,
        "[4] The stack pointer is incorrect"
    );

    let page = &processor.memory().pages[0];
    let range = &page[start_pointer as usize..(start_pointer + number_of_words) as usize];
    for (i, byte) in range.iter().enumerate() {
        match i % 8 {
            0 => assert_eq!(byte, &0xef, "[4.0] The value is incorrect"),
            1 => assert_eq!(byte, &0xcd, "[4.1] The value is incorrect"),
            2 => assert_eq!(byte, &0xab, "[4.2] The value is incorrect"),
            3 => assert_eq!(byte, &0x90, "[4.3] The value is incorrect"),
            4 => assert_eq!(byte, &0x78, "[4.3] The value is incorrect"),
            5 => assert_eq!(byte, &0x56, "[4.3] The value is incorrect"),
            6 => assert_eq!(byte, &0x34, "[4.3] The value is incorrect"),
            7 => assert_eq!(byte, &0x12, "[4.3] The value is incorrect"),
            _ => unreachable!(),
        }
    }
}

#[test]
fn test_memory_copy() {
    let program = Program::new_for_tests(Vec::new(), 0, 0);
    let mut processor = Processor::new_empty(program, 100);

    let memory_index = 200;
    let target_memory_index = 400;
    let values = [0x10_u8, 0x25, 0x56, 0xe5];
    for (i, value) in values.iter().enumerate() {
        processor
            .memory_mut()
            .write_u8_at(memory_index + i, *value)
            .unwrap();
    }

    // Case 1: copy from a to a
    processor.push_u32(memory_index as u32).unwrap();
    processor.push_u32(values.len() as u32).unwrap();
    processor.push_u32(memory_index as u32).unwrap();
    memory_copy(&mut processor).expect("[1] The method must succeed");
    assert_eq!(
        processor.stack_pointer(),
        0,
        "[1] The stack pointer is incorrect"
    );

    for (i, value) in values.iter().enumerate() {
        let mem_value = processor.memory_mut().read_u8_at(memory_index + i).unwrap();
        assert_eq!(mem_value, *value, "[1.{}] The memory value is incorrect", i);
    }

    // Case 2: copy from a to b (not overlapping)
    processor.push_u32(memory_index as u32).unwrap();
    processor.push_u32(values.len() as u32).unwrap();
    processor.push_u32(target_memory_index).unwrap();
    memory_copy(&mut processor).expect("[2] The method must succeed");
    assert_eq!(
        processor.stack_pointer(),
        0,
        "[2] The stack pointer is incorrect"
    );

    for (i, value) in values.iter().enumerate() {
        let mem_value = processor.memory_mut().read_u8_at(memory_index + i).unwrap();
        assert_eq!(
            mem_value, *value,
            "[2.{}] The memory value at origin is incorrect",
            i
        );
    }

    for (i, value) in values.iter().enumerate() {
        let mem_value = processor
            .memory_mut()
            .read_u8_at(target_memory_index as usize + i)
            .unwrap();
        assert_eq!(
            mem_value, *value,
            "[2.{}] The memory value at target is incorrect",
            i
        );
    }

    // Case 3: copy from a to b (overlapping a < b)
    processor.push_u32(memory_index as u32).unwrap();
    processor.push_u32(values.len() as u32).unwrap();
    processor.push_u32(memory_index as u32 + 1).unwrap();
    memory_copy(&mut processor).expect("[3] The method must succeed");
    assert_eq!(
        processor.stack_pointer(),
        0,
        "[3] The stack pointer is incorrect"
    );

    {
        let mem_value = processor.memory_mut().read_u8_at(memory_index).unwrap();
        assert_eq!(
            mem_value, values[0],
            "[3.0] The memory value at origin is incorrect",
        );
    }

    for (i, value) in values.iter().enumerate() {
        let mem_value = processor
            .memory_mut()
            .read_u8_at(memory_index + i + 1)
            .unwrap();
        assert_eq!(
            mem_value, *value,
            "[3.{}] The memory value at target is incorrect",
            i
        );
    }

    // Case 4: copy from a to b (overlapping a > b)
    for (i, value) in values.iter().enumerate() {
        processor
            .memory_mut()
            .write_u8_at(memory_index + i, *value)
            .unwrap();
    }

    processor.push_u32(memory_index as u32).unwrap();
    processor.push_u32(values.len() as u32).unwrap();
    processor.push_u32(memory_index as u32 - 1).unwrap();
    memory_copy(&mut processor).expect("[4] The method must succeed");
    assert_eq!(
        processor.stack_pointer(),
        0,
        "[4] The stack pointer is incorrect"
    );

    {
        let mem_value = processor
            .memory_mut()
            .read_u8_at(memory_index + values.len() - 1)
            .unwrap();
        assert_eq!(
            mem_value,
            values[values.len() - 1],
            "[4.0] The memory value at origin is incorrect",
        );
    }

    for (i, value) in values.iter().enumerate() {
        let mem_value = processor
            .memory_mut()
            .read_u8_at(memory_index + i - 1)
            .unwrap();
        assert_eq!(
            mem_value, *value,
            "[4.{}] The memory value at target is incorrect",
            i
        );
    }
}

#[test]
fn test_drop() {
    let program = Program::new_for_tests(Vec::new(), 0, 0);
    let mut processor = Processor::new_empty(program, 20);

    assert_eq!(
        processor.stack_pointer(),
        0,
        "[0.1] The stack pointer is incorrect"
    );
    processor.push_u64(0x9087654321abcdef).unwrap();
    processor.push_u64(0x9087654321abcdef).unwrap();
    assert_eq!(
        processor.stack_pointer(),
        16,
        "[0.2 The stack pointer is incorrect"
    );

    // Case 1
    drop_8(&mut processor).expect("[1] The drop must succeed");
    assert_eq!(
        processor.stack_pointer(),
        15,
        "[1] The stack pointer is incorrect"
    );

    // Case 2
    drop_16(&mut processor).expect("[2] The drop must succeed");
    assert_eq!(
        processor.stack_pointer(),
        13,
        "[2] The stack pointer is incorrect"
    );

    // Case 3
    drop_32(&mut processor).expect("[3] The drop must succeed");
    assert_eq!(
        processor.stack_pointer(),
        9,
        "[3] The stack pointer is incorrect"
    );

    // Case 4
    drop_64(&mut processor).expect("[4] The drop must succeed");
    assert_eq!(
        processor.stack_pointer(),
        1,
        "[4] The stack pointer is incorrect"
    );
}

#[test]
fn test_const() {
    let program = Program::new_for_tests(vec![0x01, 0x23, 0x45, 0x67, 0x89, 0xab, 0xcd, 0xef], 0, 0);
    let mut processor = Processor::new_empty(program, 20);

    // Case 1
    const_8(&mut processor).expect("[1] The const must succeed");
    assert_eq!(
        processor.program_counter(),
        1,
        "[1] The stack pointer is incorrect"
    );
    assert_eq!(
        processor.stack_pointer(),
        1,
        "[1] The stack pointer is incorrect"
    );
    assert_eq!(
        processor.pop_u8().unwrap(),
        0x01,
        "[1] The value stored in the stack is incorrect"
    );

    processor.set_stack_pointer(0).unwrap();
    processor.set_program_counter(0).unwrap();

    // Case 2
    const_16(&mut processor).expect("[2] The const must succeed");
    assert_eq!(
        processor.program_counter(),
        2,
        "[2] The stack pointer is incorrect"
    );
    assert_eq!(
        processor.stack_pointer(),
        2,
        "[2] The stack pointer is incorrect"
    );
    assert_eq!(
        processor.pop_u16().unwrap(),
        0x2301,
        "[2] The value stored in the stack is incorrect"
    );

    processor.set_stack_pointer(0).unwrap();
    processor.set_program_counter(0).unwrap();

    // Case 3
    const_32(&mut processor).expect("[3] The const must succeed");
    assert_eq!(
        processor.program_counter(),
        4,
        "[3] The stack pointer is incorrect"
    );
    assert_eq!(
        processor.stack_pointer(),
        4,
        "[3] The stack pointer is incorrect"
    );
    assert_eq!(
        processor.pop_u32().unwrap(),
        0x67452301,
        "[3] The value stored in the stack is incorrect"
    );

    processor.set_stack_pointer(0).unwrap();
    processor.set_program_counter(0).unwrap();

    // Case 4
    const_64(&mut processor).expect("[4] The const must succeed");
    assert_eq!(
        processor.program_counter(),
        8,
        "[4] The stack pointer is incorrect"
    );
    assert_eq!(
        processor.stack_pointer(),
        8,
        "[4] The stack pointer is incorrect"
    );
    assert_eq!(
        processor.pop_u64().unwrap(),
        0xefcdab8967452301,
        "[4] The value stored in the stack is incorrect"
    );
}

#[test]
fn test_const_then_grow_scenario() {
    // const_32 pushes the immediate; memory_grow consumes it as a byte
    // count, appends enough pages and pushes the prior size.
    let program = Program::new_for_tests(vec![0x78, 0x56, 0x34, 0x12], 0, 0);
    let mut processor = Processor::new_empty(program, 100);

    const_32(&mut processor).expect("The const must succeed");
    assert_eq!(processor.stack_pointer(), 4, "The stack pointer is incorrect");
    assert_eq!(
        processor.peek_u32().unwrap(),
        0x1234_5678,
        "The value stored in the stack is incorrect"
    );

    let old_size = processor.memory().size();
    memory_grow(&mut processor).expect("The grow must succeed");
    assert!(!processor.overflow_flag(), "The overflow flag is incorrect");
    assert!(
        processor.memory().size() >= old_size + 0x1234_5678,
        "The memory did not grow enough"
    );
    assert_eq!(
        processor.pop_u32().unwrap() as usize,
        old_size,
        "The prior size is incorrect"
    );
}

#[test]
fn test_fill_then_load_scenario() {
    // memory_fill_32 writes the words; memory_load_32 reads every one of
    // them back.
    let program = Program::new_for_tests(Vec::new(), 0, 0);
    let mut processor = Processor::new_empty(program, 100);

    processor.push_u32(200).unwrap();
    processor.push_u32(4).unwrap();
    processor.push_u32(0x12345678).unwrap();
    memory_fill_32(&mut processor).expect("The fill must succeed");

    for k in 0..4 {
        processor.push_u32(200 + 4 * k).unwrap();
        memory_load_32(&mut processor).expect("The load must succeed");
        assert_eq!(
            processor.pop_u32().unwrap(),
            0x12345678,
            "The loaded value is incorrect"
        );
    }
}

#[test]
fn test_general_signals() {
    let program = Program::new_for_tests(Vec::new(), 0, 0);
    let mut processor = Processor::new_empty(program, 20);

    nop(&mut processor).expect("nop must succeed");

    let result = debug(&mut processor).expect_err("debug must signal");
    assert!(result.is_halt(), "debug must halt");

    let result = sand::sasm::instructions::general::unreachable(&mut processor)
        .expect_err("unreachable must signal");
    assert!(result.is_panic(), "unreachable must panic");
    assert_eq!(result.unwrap_panic(), "unreachable");
}

#[test]
fn test_branch_sets_program_counter() {
    let program = Program::new_for_tests(Vec::new(), 0, 0);
    let mut processor = Processor::new_empty(program, 20);

    processor.push_u32(0x40).unwrap();
    branch(&mut processor).expect("The branch must succeed");
    assert_eq!(processor.program_counter(), 0x40);
    assert_eq!(processor.stack_pointer(), 0);

    // A zero condition leaves the program counter alone.
    processor.push_u32(0x80).unwrap();
    processor.push_u8(0).unwrap();
    branch_if_8(&mut processor).expect("The branch must succeed");
    assert_eq!(processor.program_counter(), 0x40);

    // A nonzero condition takes the jump.
    processor.push_u32(0x80).unwrap();
    processor.push_u8(1).unwrap();
    branch_if_8(&mut processor).expect("The branch must succeed");
    assert_eq!(processor.program_counter(), 0x80);
}

#[test]
fn test_casting_roundtrip() {
    let program = Program::new_for_tests(Vec::new(), 0, 0);
    let mut processor = Processor::new_empty(program, 20);

    // Zero extension of an unsigned byte.
    processor.push_u8(0xfe).unwrap();
    extend_8_to_16(&mut processor).expect("The extension must succeed");
    assert_eq!(processor.pop_u16().unwrap(), 0x00fe);

    // Sign extension of a negative byte.
    processor.push_i8(-2).unwrap();
    extend_sign_8_to_16(&mut processor).expect("The extension must succeed");
    assert_eq!(processor.pop_i16().unwrap(), -2);
    assert_eq!(processor.stack_pointer(), 0);

    // Truncation keeps the low-order bytes.
    processor.push_u16(0x12fe).unwrap();
    trunc_16_to_8(&mut processor).expect("The truncation must succeed");
    assert_eq!(processor.pop_u8().unwrap(), 0xfe);
}

#[test]
fn test_program_data_load_checks_section() {
    let program = Program::new_for_tests(vec![0x11, 0x22, 0x33, 0x44], 1, 3);
    let mut processor = Processor::new_empty(program, 20);

    // A load inside [data_pointer, data_pointer_end) succeeds.
    processor.push_u32(1).unwrap();
    program_data_load_16(&mut processor).expect("The load must succeed");
    assert_eq!(processor.pop_u16().unwrap(), 0x3322);

    // A load outside the data section faults.
    processor.push_u32(0).unwrap();
    let result = program_data_load_16(&mut processor).expect_err("The load must fail");
    assert_eq!(result.unwrap_panic(), "Data Segmentation Fault");

    processor.push_u32(2).unwrap();
    let result = program_data_load_16(&mut processor).expect_err("The load must fail");
    assert_eq!(result.unwrap_panic(), "Data Segmentation Fault");
}

#[test]
fn test_stack_underflow_and_overflow() {
    let program = Program::new_for_tests(Vec::new(), 0, 0);
    let mut processor = Processor::new_empty(program, 3);

    let result = processor.pop_u32().expect_err("The pop must fail");
    assert_eq!(result.unwrap_panic(), "Stack underflow");

    processor.push_u16(7).unwrap();
    let result = processor.push_u16(8).expect_err("The push must fail");
    assert_eq!(result.unwrap_panic(), "Stack overflow");
    assert_eq!(processor.stack_pointer(), 2);
    assert_eq!(processor.pop_u16().unwrap(), 7);
}
