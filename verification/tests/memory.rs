//! Tests of the paginated memory: growing, raw reads and writes, and typed
//! round trips.

use sand::sasm::memory::Memory;

#[test]
fn memory_test_memory_grow() {
    let mut memory = Memory::new_empty(1, 5);
    memory
        .add_empty_page()
        .expect("[1] Cannot add an empty page");
    memory
        .add_empty_pages(3)
        .expect("[1] Cannot add many empty pages");
    memory
        .add_page(vec![2])
        .expect("[1] Cannot add a custom page");

    let result = memory
        .add_empty_page()
        .expect_err("[1] The addition of another empty page must fail");
    assert_eq!(result.unwrap_panic(), "Memory out of bounds");

    let result = memory
        .add_empty_pages(5)
        .expect_err("[1] The addition of other empty pages must fail");
    assert_eq!(result.unwrap_panic(), "Memory out of bounds");

    let result = memory
        .add_empty_page()
        .expect_err("[1] The addition of another custom page must fail");
    assert_eq!(result.unwrap_panic(), "Memory out of bounds");
}

#[test]
fn memory_test_memory_read_at() {
    let max_pages = 5;
    let mut memory = Memory::new_empty(1, max_pages);
    for i in 1..max_pages + 1 {
        memory
            .add_page(vec![i as u8])
            .unwrap_or_else(|_| panic!("[1] Cannot add a custom page for {}", i));
    }

    // Case 1: read one byte.
    let mut bytes = vec![0; 1];
    for i in 0..max_pages {
        memory
            .read_at(i, &mut bytes)
            .unwrap_or_else(|_| panic!("[1] Cannot read byte at index {}", i));
        assert_eq!(bytes[0], (i + 1) as u8, "The value is incorrect");
    }

    let result = memory
        .read_at(5, &mut bytes)
        .expect_err("[1] The read must fail");
    assert_eq!(result.unwrap_panic(), "Segmentation Fault");

    // Case 2: read many bytes.
    let mut bytes = vec![0; 3];
    memory
        .read_at(1, &mut bytes)
        .expect("[2] Cannot read many bytes");
    assert_eq!(bytes[0], 2, "[2] The bytes[0] is incorrect");
    assert_eq!(bytes[1], 3, "[2] The bytes[1] is incorrect");
    assert_eq!(bytes[2], 4, "[2] The bytes[2] is incorrect");
}

#[test]
fn test_memory_write_at() {
    // Case 1: write one byte.
    let max_pages = 5;
    let mut memory = Memory::new_empty(1, max_pages);
    for i in 1..max_pages + 1 {
        memory
            .add_page(vec![i as u8])
            .unwrap_or_else(|_| panic!("[1] Cannot add a custom page for {}", i));
    }

    for i in 0..max_pages {
        let mut bytes = [0; 1];
        bytes[0] = (i + 1) as u8;
        memory
            .write_at(i, &bytes)
            .unwrap_or_else(|_| panic!("[1] Cannot write byte at index {}", i));
        assert_eq!(memory.pages[i][0], (i + 1) as u8, "The value is incorrect");
    }

    let bytes = [5; 1];
    let result = memory
        .write_at(5, &bytes)
        .expect_err("[1] The write must fail");
    assert_eq!(result.unwrap_panic(), "Segmentation Fault");

    // Case 2: write many bytes.
    let mut memory = Memory::new_empty(1, max_pages);
    for i in 1..max_pages + 1 {
        memory
            .add_page(vec![i as u8])
            .unwrap_or_else(|_| panic!("[2] Cannot add a custom page for {}", i));
    }

    let bytes = [0; 3];
    memory
        .write_at(1, &bytes)
        .expect("[2] Cannot read many bytes");
    assert_eq!(memory.pages[0][0], 1, "[2] The value[0] is incorrect");
    assert_eq!(memory.pages[1][0], 0, "[2] The value[1] is incorrect");
    assert_eq!(memory.pages[2][0], 0, "[2] The value[2] is incorrect");
    assert_eq!(memory.pages[3][0], 0, "[2] The value[3] is incorrect");
    assert_eq!(memory.pages[4][0], 5, "[2] The value[4] is incorrect");
}

#[test]
fn memory_test_memory() {
    let mut memory = Memory::new_empty(20, 1);
    memory.add_empty_page().expect("Cannot add an empty page");

    // i8
    let value = 0x1f;
    memory
        .write_i8_at(0, value)
        .expect("[1] The write must succeed");
    let result = memory.read_i8_at(0).expect("[1] The read must succeed");
    assert_eq!(result, value, "[1] The value is incorrect");

    // i16
    let value = 0x12ef;
    memory
        .write_i16_at(0, value)
        .expect("[2] The write must succeed");
    let result = memory.read_i16_at(0).expect("[2] The read must succeed");
    assert_eq!(result, value, "[2] The value is incorrect");

    // i32
    let value = 0x1234cdef;
    memory
        .write_i32_at(0, value)
        .expect("[3] The write must succeed");
    let result = memory.read_i32_at(0).expect("[3] The read must succeed");
    assert_eq!(result, value, "[3] The value is incorrect");

    // i64
    let value = 0x1234567890abcdef;
    memory
        .write_i64_at(0, value)
        .expect("[4] The write must succeed");
    let result = memory.read_i64_at(0).expect("[4] The read must succeed");
    assert_eq!(result, value, "[4] The value is incorrect");

    // u8
    let value = 0x1f;
    memory
        .write_u8_at(0, value)
        .expect("[5] The write must succeed");
    let result = memory.read_u8_at(0).expect("[5] The read must succeed");
    assert_eq!(result, value, "[5] The value is incorrect");

    // u16
    let value = 0x12ef;
    memory
        .write_u16_at(0, value)
        .expect("[6] The write must succeed");
    let result = memory.read_u16_at(0).expect("[6] The read must succeed");
    assert_eq!(result, value, "[6] The value is incorrect");

    // u32
    let value = 0x1234cdef;
    memory
        .write_u32_at(0, value)
        .expect("[7] The write must succeed");
    let result = memory.read_u32_at(0).expect("[7] The read must succeed");
    assert_eq!(result, value, "[7] The value is incorrect");

    // u64
    let value = 0x1234567890abcdef;
    memory
        .write_u64_at(0, value)
        .expect("[8] The write must succeed");
    let result = memory.read_u64_at(0).expect("[8] The read must succeed");
    assert_eq!(result, value, "[8] The value is incorrect");
}

#[test]
fn test_memory_page_straddle_roundtrip() {
    // A typed value whose bytes cross page boundaries behaves as if the
    // memory were flat.
    let mut memory = Memory::new_empty(3, 16);
    memory.add_empty_pages(4).expect("Cannot add pages");

    memory
        .write_u64_at(2, 0x1122334455667788)
        .expect("The write must succeed");
    let result = memory.read_u64_at(2).expect("The read must succeed");
    assert_eq!(result, 0x1122334455667788, "The value is incorrect");

    // The little-endian layout is visible in the raw pages.
    assert_eq!(memory.pages[0][2], 0x88);
    assert_eq!(memory.pages[1][0], 0x77);
    assert_eq!(memory.pages[3][0], 0x11);
}

#[test]
fn test_memory_size_counts_pages() {
    let mut memory = Memory::new_empty(7, 10);
    assert_eq!(memory.size(), 0);
    memory.add_empty_pages(3).expect("Cannot add pages");
    assert_eq!(memory.size(), 21);
    assert_eq!(memory.pages(), 3);
    assert_eq!(memory.page_size(), 7);
    assert_eq!(memory.max_pages(), 10);
}
