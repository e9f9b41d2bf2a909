use chirp::error::EngineError;
use chirp::register::{Register, FLAG_REGISTER, REGISTER_COUNT, STACK_DEPTH};

#[test]
fn a_new_bank_is_all_zero() {
    let registers = Register::new();
    for x in 0..REGISTER_COUNT as u8 {
        assert_eq!(registers.v(x), 0);
    }
    assert_eq!(registers.i(), 0);
    assert_eq!(registers.dt(), 0);
    assert_eq!(registers.st(), 0);
    assert_eq!(registers.pc(), 0);
    assert_eq!(registers.sp(), 0);
    assert_eq!(Register::default().pc(), 0);
}

#[test]
fn general_registers_hold_bytes() {
    let mut registers = Register::new();
    for x in 0..16u8 {
        registers.set_v(x, 0xF0 | x);
    }
    for x in 0..16u8 {
        assert_eq!(registers.v(x), 0xF0 | x);
    }
    assert_eq!(registers.v(FLAG_REGISTER), 0xFF);
}

#[test]
fn a_register_number_counts_by_its_low_nibble() {
    let mut registers = Register::new();
    registers.set_v(0x13, 7);
    assert_eq!(registers.v(0x3), 7);
    assert_eq!(registers.v(0xF3), 7);
    assert_eq!(registers.v(0x4), 0);
}

#[test]
fn addresses_keep_twelve_bits() {
    let mut registers = Register::new();
    registers.set_i(0x0FFF);
    assert_eq!(registers.i(), 0x0FFF);
    registers.set_i(0x1234);
    assert_eq!(registers.i(), 0x0234);
    registers.set_pc(0xF200);
    assert_eq!(registers.pc(), 0x0200);
    registers.set_pc(0x1000);
    assert_eq!(registers.pc(), 0x0000);
}

#[test]
fn timers_count_down_to_zero_and_stay() {
    let mut registers = Register::new();
    registers.set_dt(2);
    registers.set_st(1);
    registers.tick_timers();
    assert_eq!((registers.dt(), registers.st()), (1, 0));
    registers.tick_timers();
    assert_eq!((registers.dt(), registers.st()), (0, 0));
    registers.tick_timers();
    assert_eq!((registers.dt(), registers.st()), (0, 0));
    registers.set_dt(255);
    registers.tick_timers();
    assert_eq!(registers.dt(), 254);
}

#[test]
fn a_call_pushes_and_a_return_pops() {
    let mut registers = Register::new();
    registers.set_pc(0x202);
    assert_eq!(registers.call(0x300), Ok(()));
    assert_eq!(registers.pc(), 0x300);
    assert_eq!(registers.sp(), 1);
    assert_eq!(registers.ret(), Ok(()));
    assert_eq!(registers.pc(), 0x202);
    assert_eq!(registers.sp(), 0);
}

#[test]
fn nested_calls_and_returns_balance() {
    for depth in 0..=STACK_DEPTH {
        let mut registers = Register::new();
        registers.set_pc(0x234);
        for level in 0..depth {
            assert_eq!(registers.call(0x400 + 2 * level as u16), Ok(()));
            assert_eq!(registers.sp() as usize, level + 1);
        }
        for level in (0..depth).rev() {
            assert_eq!(registers.ret(), Ok(()));
            assert_eq!(registers.sp() as usize, level);
        }
        assert_eq!(registers.pc(), 0x234);
        assert_eq!(registers.sp(), 0);
    }
}

#[test]
fn the_seventeenth_call_overflows_and_changes_nothing() {
    let mut registers = Register::new();
    registers.set_pc(0x200);
    for level in 0..16u16 {
        assert_eq!(registers.call(0x300 + level), Ok(()));
    }
    assert_eq!(registers.call(0x999), Err(EngineError::StackOverflow));
    assert_eq!(registers.pc(), 0x30F);
    assert_eq!(registers.sp(), 16);
    for level in (0..15u16).rev() {
        assert_eq!(registers.ret(), Ok(()));
        assert_eq!(registers.pc(), 0x300 + level);
    }
    assert_eq!(registers.ret(), Ok(()));
    assert_eq!(registers.pc(), 0x200);
}

#[test]
fn a_return_on_an_empty_stack_underflows() {
    let mut registers = Register::new();
    registers.set_pc(0x222);
    assert_eq!(registers.ret(), Err(EngineError::StackUnderflow));
    assert_eq!(registers.pc(), 0x222);
    assert_eq!(registers.sp(), 0);
}

#[test]
fn a_call_keeps_twelve_bits_of_its_target() {
    let mut registers = Register::new();
    assert_eq!(registers.call(0xFABC), Ok(()));
    assert_eq!(registers.pc(), 0x0ABC);
}

#[test]
fn upto_lists_the_first_registers() {
    let mut registers = Register::new();
    for x in 0..16u8 {
        registers.set_v(x, 10 + x);
    }
    assert_eq!(registers.upto(0), vec![10]);
    assert_eq!(registers.upto(3), vec![10, 11, 12, 13]);
    assert_eq!(registers.upto(0xF), (10..26).collect::<Vec<u8>>());
    assert_eq!(registers.upto(0x13), vec![10, 11, 12, 13]);
}

#[test]
fn fill_sets_the_first_registers() {
    let mut registers = Register::new();
    registers.set_pc(0x321);
    registers.set_i(0x123);
    registers.fill(&[1, 2, 3]);
    assert_eq!(registers.upto(4), vec![1, 2, 3, 0, 0]);
    registers.fill(&[]);
    assert_eq!(registers.upto(4), vec![1, 2, 3, 0, 0]);
    registers.fill(&[9; 20]);
    assert_eq!(registers.upto(15), vec![9; 16]);
    assert_eq!((registers.pc(), registers.i(), registers.sp()), (0x321, 0x123, 0));
}
