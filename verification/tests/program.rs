//! Tests of the immutable program image.

use sand::sasm::program::Program;

#[test]
fn program_test_memory_read_at() {
    let size = 5;
    let mut data = Vec::new();
    for i in 0..size {
        data.push(i + 1);
    }

    let program = Program::new(data);

    // Case 1: read one byte.
    let mut bytes = vec![0; 1];
    for i in 0..size {
        program
            .read_at(i as usize, &mut bytes)
            .unwrap_or_else(|_| panic!("[1] Cannot read byte at index {}", i));
        assert_eq!(bytes[0], i + 1, "The value is incorrect");
    }

    let result = program
        .read_at(5, &mut bytes)
        .expect_err("[1] The read must fail");
    assert_eq!(result.unwrap_panic(), "Segmentation Fault");

    // Case 2: read many bytes.
    let mut bytes = vec![0; 3];
    program
        .read_at(1, &mut bytes)
        .expect("[2] Cannot read many bytes");
    assert_eq!(bytes[0], 2, "[2] The bytes[0] is incorrect");
    assert_eq!(bytes[1], 3, "[2] The bytes[1] is incorrect");
    assert_eq!(bytes[2], 4, "[2] The bytes[2] is incorrect");
}

#[test]
fn program_test_memory() {
    let data = vec![0x12, 0x34, 0x56, 0x78, 0xef, 0xab, 0xcd, 0x09];
    let program = Program::new(data);

    // i8
    let value = 0x12;
    let result = program.read_i8_at(0).expect("[1] The read must succeed");
    assert_eq!(result, value, "[1] The value is incorrect");

    // i16
    let value = 0x3412;
    let result = program.read_i16_at(0).expect("[2] The read must succeed");
    assert_eq!(result, value, "[2] The value is incorrect");

    // i32
    let value = 0x78563412;
    let result = program.read_i32_at(0).expect("[3] The read must succeed");
    assert_eq!(result, value, "[3] The value is incorrect");

    // i64
    let value = 0x09cdabef78563412;
    let result = program.read_i64_at(0).expect("[4] The read must succeed");
    assert_eq!(result, value, "[4] The value is incorrect");

    // u8
    let value = 0x12;
    let result = program.read_u8_at(0).expect("[5] The read must succeed");
    assert_eq!(result, value, "[5] The value is incorrect");

    // u16
    let value = 0x3412;
    let result = program.read_u16_at(0).expect("[6] The read must succeed");
    assert_eq!(result, value, "[6] The value is incorrect");

    // u32
    let value = 0x78563412;
    let result = program.read_u32_at(0).expect("[7] The read must succeed");
    assert_eq!(result, value, "[7] The value is incorrect");

    // u64
    let value = 0x09cdabef78563412;
    let result = program.read_u64_at(0).expect("[8] The read must succeed");
    assert_eq!(result, value, "[8] The value is incorrect");
}

#[test]
fn test_program_sections() {
    let program = Program::new_for_tests(vec![1, 2, 3, 4, 5, 6], 1, 4);
    assert_eq!(program.size(), 6);
    assert_eq!(program.data_pointer(), 1);
    assert_eq!(program.data_pointer_end(), 4);
    assert_eq!(program.code_pointer(), 4);
    assert_eq!(program.code_pointer_end(), 6);
    assert_eq!(program.program(), &vec![1, 2, 3, 4, 5, 6]);
}

#[test]
fn test_program_negative_values() {
    let program = Program::new(vec![0xff, 0xff]);
    assert_eq!(program.read_i8_at(0).unwrap(), -1);
    assert_eq!(program.read_i16_at(0).unwrap(), -1);
    assert_eq!(program.read_u16_at(0).unwrap(), 0xffff);
}
