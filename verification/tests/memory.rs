use chirp::memory::{Memory, MemoryError, MEMORY_SIZE, MEMORY_START};

#[test]
fn a_new_store_is_all_zero() {
    let memory = Memory::new();
    assert_eq!(memory.size(), 0x1000);
    for addr in 0..MEMORY_SIZE {
        assert_eq!(memory.read(addr), Ok(0));
    }
}

#[test]
fn default_is_new() {
    let memory = Memory::default();
    assert_eq!(memory.read_range(0, MEMORY_SIZE), Ok(vec![0u8; MEMORY_SIZE]));
}

#[test]
fn check_idx_accepts_the_program_region() {
    assert_eq!(Memory::check_idx(0x200), Ok(0x200));
    assert_eq!(Memory::check_idx(0x201), Ok(0x201));
    assert_eq!(Memory::check_idx(0xFFF), Ok(0xFFF));
}

#[test]
fn check_idx_refuses_the_rest() {
    assert_eq!(Memory::check_idx(0), Err(MemoryError::OutOfBoundsAccess(0)));
    assert_eq!(Memory::check_idx(0x1FF), Err(MemoryError::OutOfBoundsAccess(0x1FF)));
    assert_eq!(Memory::check_idx(0x1000), Err(MemoryError::OutOfBoundsAccess(0x1000)));
    assert_eq!(Memory::check_idx(usize::MAX), Err(MemoryError::OutOfBoundsAccess(usize::MAX)));
}

#[test]
fn get_reads_the_program_region() {
    let mut memory = Memory::new();
    memory.write(0x200, 0xAB).unwrap();
    memory.write(0xFFF, 0xCD).unwrap();
    assert_eq!(memory.get(0x200), Ok(&0xAB));
    assert_eq!(memory.get(0xFFF), Ok(&0xCD));
    assert_eq!(memory.get(0x1FF), Err(MemoryError::OutOfBoundsAccess(0x1FF)));
    assert_eq!(memory.get(0x1000), Err(MemoryError::OutOfBoundsAccess(0x1000)));
}

#[test]
fn get_mut_changes_one_byte() {
    let mut memory = Memory::new();
    *memory.get_mut(0x300).unwrap() = 0x42;
    *memory.get_mut(0x300).unwrap() += 1;
    assert_eq!(memory.read(0x300), Ok(0x43));
    assert_eq!(memory.read(0x2FF), Ok(0));
    assert_eq!(memory.read(0x301), Ok(0));
}

#[test]
fn get_mut_refuses_the_interpreter_region() {
    let mut memory = Memory::new();
    assert_eq!(memory.get_mut(0x050).err(), Some(MemoryError::OutOfBoundsAccess(0x050)));
    assert_eq!(memory.get_mut(0x1000).err(), Some(MemoryError::OutOfBoundsAccess(0x1000)));
    assert_eq!(memory.read_range(0, MEMORY_SIZE), Ok(vec![0u8; MEMORY_SIZE]));
}

#[test]
fn read_and_write_reach_the_whole_store() {
    let mut memory = Memory::new();
    assert_eq!(memory.write(0x000, 1), Ok(()));
    assert_eq!(memory.write(0x1FF, 2), Ok(()));
    assert_eq!(memory.write(0xFFF, 3), Ok(()));
    assert_eq!(memory.read(0x000), Ok(1));
    assert_eq!(memory.read(0x1FF), Ok(2));
    assert_eq!(memory.read(0xFFF), Ok(3));
}

#[test]
fn read_and_write_fail_outside_the_store() {
    let mut memory = Memory::new();
    assert_eq!(memory.read(0x1000), Err(MemoryError::OutOfBoundsAccess(0x1000)));
    assert_eq!(memory.write(0x1000, 9), Err(MemoryError::OutOfBoundsAccess(0x1000)));
    assert_eq!(memory.write(usize::MAX, 9), Err(MemoryError::OutOfBoundsAccess(usize::MAX)));
    assert_eq!(memory.read_range(0, MEMORY_SIZE), Ok(vec![0u8; MEMORY_SIZE]));
}

#[test]
fn a_word_is_read_high_byte_first() {
    let mut memory = Memory::new();
    memory.load(0x200, &[0x12, 0x34, 0xFF, 0x00]).unwrap();
    assert_eq!(memory.read_word(0x200), Ok(0x1234));
    assert_eq!(memory.read_word(0x201), Ok(0x34FF));
    assert_eq!(memory.read_word(0x202), Ok(0xFF00));
    assert_eq!(memory.read_word(0xFFE), Ok(0x0000));
}

#[test]
fn a_word_across_the_end_is_an_error() {
    let memory = Memory::new();
    assert_eq!(memory.read_word(0xFFF), Err(MemoryError::OutOfBoundsAccess(0x1000)));
    assert_eq!(memory.read_word(0x1000), Err(MemoryError::OutOfBoundsAccess(0x1000)));
    assert_eq!(memory.read_word(0x2000), Err(MemoryError::OutOfBoundsAccess(0x2000)));
}

#[test]
fn read_range_copies_the_bytes() {
    let mut memory = Memory::new();
    memory.load(0x600, &[1, 2, 3, 4, 5]).unwrap();
    assert_eq!(memory.read_range(0x601, 3), Ok(vec![2, 3, 4]));
    assert_eq!(memory.read_range(0x5FF, 2), Ok(vec![0, 1]));
    assert_eq!(memory.read_range(0x600, 0), Ok(vec![]));
    assert_eq!(memory.read_range(0x1000, 0), Ok(vec![]));
    assert_eq!(memory.read_range(0xFFF, 1), Ok(vec![0]));
}

#[test]
fn read_range_fails_past_the_end() {
    let memory = Memory::new();
    assert_eq!(memory.read_range(0xFFF, 2), Err(MemoryError::OutOfBoundsAccess(0x1000)));
    assert_eq!(memory.read_range(0, 0x1001), Err(MemoryError::OutOfBoundsAccess(0x1000)));
    assert_eq!(memory.read_range(0x1000, 1), Err(MemoryError::OutOfBoundsAccess(0x1000)));
    assert_eq!(memory.read_range(0x1001, 0), Err(MemoryError::OutOfBoundsAccess(0x1001)));
    assert_eq!(
        memory.read_range(1, usize::MAX),
        Err(MemoryError::OutOfBoundsAccess(0x1000))
    );
}

#[test]
fn load_writes_at_the_origin() {
    let mut memory = Memory::new();
    assert_eq!(memory.load(0x200, &[0xDE, 0xAD, 0xBE, 0xEF]), Ok(()));
    assert_eq!(memory.read(0x1FF), Ok(0));
    assert_eq!(memory.read_range(0x200, 4), Ok(vec![0xDE, 0xAD, 0xBE, 0xEF]));
    assert_eq!(memory.read(0x204), Ok(0));
}

#[test]
fn load_accepts_the_legacy_origin() {
    let mut memory = Memory::new();
    assert_eq!(memory.load(0x600, &[7; 0xA00]), Ok(()));
    assert_eq!(memory.read(0x5FF), Ok(0));
    assert_eq!(memory.read(0x600), Ok(7));
    assert_eq!(memory.read(0xFFF), Ok(7));
}

#[test]
fn load_fills_up_to_the_last_byte() {
    let mut memory = Memory::new();
    assert_eq!(memory.load(0x200, &[1; 0xE00]), Ok(()));
    assert_eq!(memory.read(0xFFF), Ok(1));
    assert_eq!(memory.load(0, &[2; 0x1000]), Ok(()));
    assert_eq!(memory.read_range(0, MEMORY_SIZE), Ok(vec![2u8; MEMORY_SIZE]));
    assert_eq!(memory.load(0x1000, &[]), Ok(()));
}

#[test]
fn load_refuses_what_does_not_fit() {
    let mut memory = Memory::new();
    memory.load(0x200, &[9, 9]).unwrap();
    assert_eq!(memory.load(0x200, &[1; 0xE01]), Err(MemoryError::ProgramTooLarge(0xE01)));
    assert_eq!(memory.load(0xFFF, &[1, 2]), Err(MemoryError::ProgramTooLarge(2)));
    assert_eq!(memory.load(0x1001, &[]), Err(MemoryError::ProgramTooLarge(0)));
    assert_eq!(memory.load(usize::MAX, &[1]), Err(MemoryError::ProgramTooLarge(1)));
    assert_eq!(memory.read_range(0x200, 3), Ok(vec![9, 9, 0]));
    assert_eq!(memory.read(0xFFF), Ok(0));
}

#[test]
fn from_bytes_loads_at_the_start_of_the_program_region() {
    let program: &[u8] = &[0x00, 0xE0, 0x12, 0x00];
    let memory = Memory::from(program);
    assert_eq!(memory.read_range(MEMORY_START, 4), Ok(vec![0x00, 0xE0, 0x12, 0x00]));
    assert_eq!(memory.read(MEMORY_START - 1), Ok(0));
    assert_eq!(memory.read(MEMORY_START + 4), Ok(0));
}

#[test]
fn from_bytes_leaves_out_what_does_not_fit() {
    let mut program = vec![0xAAu8; 0xE00];
    program.extend_from_slice(&[0xBB; 16]);
    let memory = Memory::from(&program[..]);
    assert_eq!(memory.read(0x1FF), Ok(0));
    assert_eq!(memory.read_range(0x200, 0xE00), Ok(vec![0xAAu8; 0xE00]));
}

#[test]
fn the_dump_of_an_empty_store_is_framed_and_squeezed() {
    let text = Memory::new().to_string();
    let lines: Vec<&str> = text.lines().collect();
    assert_eq!(lines.len(), 5);
    assert!(lines[0].starts_with('┌'));
    assert!(lines[0].ends_with('┐'));
    assert!(lines[1].contains("00000000"));
    assert!(lines[1].contains("00 "));
    assert!(lines[2].contains('*'));
    assert!(lines[3].contains("00001000"));
    assert!(lines[4].starts_with('└'));
    assert!(lines[4].ends_with('┘'));
}

#[test]
fn the_dump_shows_the_bytes_and_their_offsets() {
    let mut memory = Memory::new();
    memory.load(0x200, b"chip").unwrap();
    let text = memory.to_string();
    assert!(text.contains("00000200"));
    assert!(text.contains("63 "));
    assert!(text.contains("68 "));
    assert!(text.contains("69 "));
    assert!(text.contains("70 "));
    assert_ne!(text, Memory::new().to_string());
    assert_eq!(text, memory.to_string());
}
