use chirp::instructions::Instruction;
use chirp::opcode::OpCode;

fn encodes_to(instruction: Instruction, word: u16) {
    let op: OpCode = instruction.into();
    let expected = OpCode::new(word);

    assert_eq!(expected, op);
}

#[test]
fn opcode_test_scroll_down() {
    encodes_to(Instruction::ScrollDown(0xA), 0x00CA);
}

#[test]
fn test_scroll_right() {
    encodes_to(Instruction::ScrollRight, 0x00FB);
}

#[test]
fn test_scroll_left() {
    encodes_to(Instruction::ScrollLeft, 0x00FC);
}

#[test]
fn test_exit() {
    encodes_to(Instruction::Exit, 0x00FD);
}

#[test]
fn test_low_res() {
    encodes_to(Instruction::LowRes, 0x00FE);
}

#[test]
fn test_high_res() {
    encodes_to(Instruction::HighRes, 0x00FF);
}

#[test]
fn test_clear_screen() {
    encodes_to(Instruction::ClearScreen, 0x00E0);
}

#[test]
fn test_return() {
    encodes_to(Instruction::Return, 0x00EE);
}

#[test]
fn test_jump() {
    encodes_to(Instruction::Jump(0x0ABC), 0x1ABC);
}

#[test]
fn test_call() {
    encodes_to(Instruction::Call(0x0ABC), 0x2ABC);
}

#[test]
fn test_skip_equal_immediate() {
    encodes_to(Instruction::SkipEqualImmediate(0x0A, 0xBC), 0x3ABC);
}

#[test]
fn test_skip_not_equal_immediate() {
    encodes_to(Instruction::SkipNotEqualImmediate(0x0A, 0xBC), 0x4ABC);
}

#[test]
fn test_skip_equal() {
    encodes_to(Instruction::SkipEqual(0x0A, 0x0B), 0x5AB0);
}

#[test]
fn test_load_immediate() {
    encodes_to(Instruction::LoadImmediate(0x0A, 0xBC), 0x6ABC);
}

#[test]
fn test_add_immediate() {
    encodes_to(Instruction::AddImmediate(0x0A, 0xBC), 0x7ABC);
}

#[test]
fn test_load() {
    encodes_to(Instruction::Load(0x0A, 0x0B), 0x8AB0);
}

#[test]
fn test_or() {
    encodes_to(Instruction::Or(0x0A, 0x0B), 0x8AB1);
}

#[test]
fn test_and() {
    encodes_to(Instruction::And(0x0A, 0x0B), 0x8AB2);
}

#[test]
fn test_xor() {
    encodes_to(Instruction::Xor(0x0A, 0x0B), 0x8AB3);
}

#[test]
fn test_add() {
    encodes_to(Instruction::Add(0x0A, 0x0B), 0x8AB4);
}

#[test]
fn test_sub() {
    encodes_to(Instruction::Sub(0x0A, 0x0B), 0x8AB5);
}

#[test]
fn test_shift_right() {
    encodes_to(Instruction::ShiftRight(0x0A, 0x0B), 0x8AB6);
}

#[test]
fn test_sub_numeric() {
    encodes_to(Instruction::SubNumeric(0x0A, 0x0B), 0x8AB7);
}

#[test]
fn test_shift_left() {
    encodes_to(Instruction::ShiftLeft(0x0A, 0x0B), 0x8ABE);
}

#[test]
fn test_skip_not_equal() {
    encodes_to(Instruction::SkipNotEqual(0x0A, 0x0B), 0x9AB0);
}

#[test]
fn test_load_i() {
    encodes_to(Instruction::LoadI(0x0ABC), 0xAABC);
}

#[test]
fn test_jump_immediate() {
    encodes_to(Instruction::JumpImmediate(0x0ABC), 0xBABC);
}

#[test]
fn test_random() {
    encodes_to(Instruction::Random(0x0A, 0xBC), 0xCABC);
}

#[test]
fn test_draw() {
    encodes_to(Instruction::Draw(0x0A, 0x0B, 0x0C), 0xDABC);
}

#[test]
fn test_skip_on_key() {
    encodes_to(Instruction::SkipOnKey(0x0A), 0xEA9E);
}

#[test]
fn test_skip_not_on_key() {
    encodes_to(Instruction::SkipNotOnKey(0x0A), 0xEAA1);
}

#[test]
fn test_load_dt_into_v() {
    encodes_to(Instruction::LoadDTIntoV(0x0A), 0xFA07);
}

#[test]
fn test_load_key() {
    encodes_to(Instruction::LoadKey(0x0A), 0xFA0A);
}

#[test]
fn test_load_v_into_dt() {
    encodes_to(Instruction::LoadVIntoDT(0x0A), 0xFA15);
}

#[test]
fn test_load_v_into_st() {
    encodes_to(Instruction::LoadVIntoST(0x0A), 0xFA18);
}

#[test]
fn test_add_i() {
    encodes_to(Instruction::AddI(0x0A), 0xFA1E);
}

#[test]
fn test_load_sprite_into_i() {
    encodes_to(Instruction::LoadSpriteIntoI(0x0A), 0xFA29);
}

#[test]
fn test_load_bcd_into_i() {
    encodes_to(Instruction::LoadBCDIntoI(0x0A), 0xFA33);
}

#[test]
fn test_load_v_into_mem() {
    encodes_to(Instruction::LoadVIntoMem(0x0A), 0xFA55);
}

#[test]
fn test_load_mem_into_v() {
    encodes_to(Instruction::LoadMemIntoV(0x0A), 0xFA65);
}

#[test]
fn new_keeps_the_word() {
    assert_eq!(OpCode::new(0xBEEF).0, 0xBEEF);
    assert_eq!(OpCode::default().0, 0);
}

#[test]
fn load_reads_each_field() {
    let op = OpCode::new(0xDABC);
    assert_eq!(op.load(12, 16), 0xD);
    assert_eq!(op.load(8, 12), 0xA);
    assert_eq!(op.load(4, 8), 0xB);
    assert_eq!(op.load(0, 4), 0xC);
    assert_eq!(op.load(0, 8), 0xBC);
    assert_eq!(op.load(0, 12), 0xABC);
    assert_eq!(op.load(4, 12), 0xAB);
    assert_eq!(op.load(4, 16), 0xDAB);
    assert_eq!(op.load(0, 16), 0xDABC);
}

#[test]
fn load_reads_odd_ranges() {
    let op = OpCode::new(0b1010_0110_0011_0101);
    assert_eq!(op.load(0, 1), 1);
    assert_eq!(op.load(1, 2), 0);
    assert_eq!(op.load(3, 9), 0b000110);
    assert_eq!(op.load(15, 16), 1);
    assert_eq!(op.load(5, 16), 0b1010_0110_001);
}

#[test]
fn store_replaces_one_field() {
    let mut op = OpCode::new(0xFFFF);
    op.store(8, 12, 0x3);
    assert_eq!(op.0, 0xF3FF);
    op.store(0, 4, 0x0);
    assert_eq!(op.0, 0xF3F0);
    op.store(12, 16, 0xA);
    assert_eq!(op.0, 0xA3F0);
    op.store(0, 16, 0x1234);
    assert_eq!(op.0, 0x1234);
}

#[test]
fn store_drops_the_high_bits_of_the_value() {
    let mut op = OpCode::new(0x0000);
    op.store(4, 8, 0xABCD);
    assert_eq!(op.0, 0x00D0);
    let mut op = OpCode::new(0xFFFF);
    op.store(4, 8, 0xABC0);
    assert_eq!(op.0, 0xFF0F);
}

#[test]
fn layouts_place_their_fields() {
    assert_eq!(OpCode::oooo(0x00E0).0, 0x00E0);
    assert_eq!(OpCode::oook(0x00C, 0x7).0, 0x00C7);
    assert_eq!(OpCode::oxoo(0xF, 0x3, 0x65).0, 0xF365);
    assert_eq!(OpCode::oxyo(0x8, 0x1, 0x2, 0xE).0, 0x812E);
    assert_eq!(OpCode::okkk(0x1, 0x234).0, 0x1234);
    assert_eq!(OpCode::oxkk(0x6, 0x0, 0xFF).0, 0x60FF);
    assert_eq!(OpCode::oxyk(0xD, 0x0, 0x1, 0x5).0, 0xD015);
}

#[test]
fn layouts_cut_wide_operands() {
    assert_eq!(OpCode::oook(0xF00C, 0x17).0, 0x00C7);
    assert_eq!(OpCode::oxoo(0x1F, 0x23, 0x65).0, 0xF365);
    assert_eq!(OpCode::oxyo(0x18, 0x11, 0x12, 0x1E).0, 0x812E);
    assert_eq!(OpCode::okkk(0x11, 0xF234).0, 0x1234);
    assert_eq!(OpCode::oxkk(0x16, 0x10, 0xFF).0, 0x60FF);
    assert_eq!(OpCode::oxyk(0x1D, 0x10, 0x11, 0x15).0, 0xD015);
}

#[test]
fn encoding_cuts_wide_operands() {
    encodes_to(Instruction::SkipEqualImmediate(0x1A, 0xBC), 0x3ABC);
    encodes_to(Instruction::Jump(0xFABC), 0x1ABC);
    encodes_to(Instruction::Draw(0xFA, 0xEB, 0xDC), 0xDABC);
    encodes_to(Instruction::ScrollDown(0x1A), 0x00CA);
}

#[test]
fn opcodes_order_by_their_word() {
    assert!(OpCode::new(0x00E0) < OpCode::new(0x00EE));
    assert!(OpCode::new(0x1000) > OpCode::new(0x0FFF));
    assert_eq!(OpCode::new(0x1234), OpCode::new(0x1234));
    assert_ne!(OpCode::new(0x1234), OpCode::new(0x1235));
}
