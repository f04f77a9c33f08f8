use chip8::{decode, key_for, Chip8, Chip8Error, Instruction, MEMORY_SIZE, PROGRAM_START};

fn machine_with(program: &[u8]) -> Chip8 {
    let mut m = Chip8::new();
    m.load_font_set();
    m.load_program(program).unwrap();
    m
}

fn run(m: &mut Chip8, cycles: usize) {
    for _ in 0..cycles {
        m.execute_cycle_with_random(0).unwrap();
    }
}

#[test]
fn add_with_carry_sets_flag() {
    // V0 = FF, V1 = 01, ADD V0, V1
    let mut m = machine_with(&[0x60, 0xFF, 0x61, 0x01, 0x80, 0x14]);
    run(&mut m, 3);
    assert_eq!(m.register(0), 0x00);
    assert_eq!(m.register(0xF), 1);
}

#[test]
fn add_without_carry_clears_flag() {
    let mut m = machine_with(&[0x60, 0x01, 0x61, 0x01, 0x6F, 0x07, 0x80, 0x14]);
    run(&mut m, 4);
    assert_eq!(m.register(0), 0x02);
    assert_eq!(m.register(0xF), 0);
}

#[test]
fn sub_with_borrow_clears_flag() {
    let mut m = machine_with(&[0x60, 0x01, 0x61, 0x02, 0x80, 0x15]);
    run(&mut m, 3);
    assert_eq!(m.register(0), 0xFF);
    assert_eq!(m.register(0xF), 0);
}

#[test]
fn sub_without_borrow_sets_flag() {
    let mut m = machine_with(&[0x60, 0x05, 0x61, 0x02, 0x80, 0x15]);
    run(&mut m, 3);
    assert_eq!(m.register(0), 0x03);
    assert_eq!(m.register(0xF), 1);
}

#[test]
fn subn_and_shifts() {
    let mut m = Chip8::new();
    m.set_register(2, 0x05);
    m.set_register(3, 0x02);
    m.execute(Instruction::Subn { x: 2, y: 3 }, 0).unwrap();
    assert_eq!(m.register(2), 0xFD);
    assert_eq!(m.register(0xF), 0);
    m.set_register(4, 0x81);
    m.execute(Instruction::Shr { x: 4 }, 0).unwrap();
    assert_eq!(m.register(4), 0x40);
    assert_eq!(m.register(0xF), 1);
    m.set_register(5, 0x81);
    m.execute(Instruction::Shl { x: 5 }, 0).unwrap();
    assert_eq!(m.register(5), 0x02);
    assert_eq!(m.register(0xF), 1);
    m.set_register(6, 0x7F);
    m.execute(Instruction::Shl { x: 6 }, 0).unwrap();
    assert_eq!(m.register(6), 0xFE);
    assert_eq!(m.register(0xF), 0);
}

#[test]
fn add_byte_wraps_without_flag() {
    let mut m = machine_with(&[0x6F, 0x09, 0x60, 0xF0, 0x70, 0x20]);
    run(&mut m, 3);
    assert_eq!(m.register(0), 0x10);
    assert_eq!(m.register(0xF), 0x09);
}

#[test]
fn bitwise_ops() {
    let mut m = Chip8::new();
    m.set_register(0, 0b1100);
    m.set_register(1, 0b1010);
    m.execute(Instruction::Or { x: 0, y: 1 }, 0).unwrap();
    assert_eq!(m.register(0), 0b1110);
    m.set_register(0, 0b1100);
    m.execute(Instruction::And { x: 0, y: 1 }, 0).unwrap();
    assert_eq!(m.register(0), 0b1000);
    m.set_register(0, 0b1100);
    m.execute(Instruction::Xor { x: 0, y: 1 }, 0).unwrap();
    assert_eq!(m.register(0), 0b0110);
    m.execute(Instruction::LdReg { x: 2, y: 1 }, 0).unwrap();
    assert_eq!(m.register(2), 0b1010);
}

#[test]
fn skip_arithmetic_over_all_values() {
    for v in 0..=255u8 {
        for nn in 0..=255u8 {
            let mut m = Chip8::new();
            m.set_register(3, v);
            m.execute(Instruction::SeByte { x: 3, nn }, 0).unwrap();
            assert_eq!(m.pc(), PROGRAM_START + if v == nn { 4 } else { 2 });
            let mut m = Chip8::new();
            m.set_register(3, v);
            m.execute(Instruction::SneByte { x: 3, nn }, 0).unwrap();
            assert_eq!(m.pc(), PROGRAM_START + if v != nn { 4 } else { 2 });
        }
    }
}

#[test]
fn skip_on_registers() {
    let mut m = Chip8::new();
    m.set_register(1, 7);
    m.set_register(2, 7);
    m.execute(Instruction::SeReg { x: 1, y: 2 }, 0).unwrap();
    assert_eq!(m.pc(), 0x204);
    m.execute(Instruction::SneReg { x: 1, y: 2 }, 0).unwrap();
    assert_eq!(m.pc(), 0x206);
}

fn lit_cells(m: &Chip8) -> usize {
    m.framebuffer().iter().filter(|p| **p).count()
}

#[test]
fn draw_twice_restores_screen_and_flags_collision() {
    // I = glyph of 0, draw it at (V1, V2) twice
    let mut m = machine_with(&[0x61, 0x0A, 0x62, 0x05, 0xA0, 0x00, 0xD1, 0x25, 0xD1, 0x25]);
    run(&mut m, 3);
    let before = m.framebuffer().clone();
    run(&mut m, 1);
    assert_eq!(m.register(0xF), 0);
    assert_eq!(lit_cells(&m), 14);
    assert!(m.is_dirty());
    // top row of the glyph: F0 at x = 10..14, y = 5
    for x in 10..14 {
        assert!(m.framebuffer()[5 * 64 + x]);
    }
    assert!(!m.framebuffer()[5 * 64 + 14]);
    run(&mut m, 1);
    assert_eq!(m.register(0xF), 1);
    assert_eq!(m.framebuffer(), &before);
}

#[test]
fn draw_wraps_around_both_edges() {
    let mut m = Chip8::new();
    m.write_byte(0x300, 0xFF).unwrap();
    m.write_byte(0x301, 0x80).unwrap();
    m.set_index(0x300).unwrap();
    m.set_register(0, 60);
    m.set_register(1, 31);
    m.execute(Instruction::Drw { x: 0, y: 1, n: 2 }, 0).unwrap();
    let fb = m.framebuffer();
    for x in [60usize, 61, 62, 63, 0, 1, 2, 3] {
        assert!(fb[31 * 64 + x]);
    }
    assert!(fb[0 * 64 + 60]);
    assert!(!fb[0 * 64 + 61]);
    assert_eq!(lit_cells(&m), 9);
    assert_eq!(m.register(0xF), 0);
}

#[test]
fn draw_past_memory_faults() {
    let mut m = Chip8::new();
    m.set_index(0xFFE).unwrap();
    let r = m.execute(Instruction::Drw { x: 0, y: 0, n: 3 }, 0);
    assert_eq!(r, Err(Chip8Error::MemoryFault { addr: MEMORY_SIZE }));
    assert_eq!(m.pc(), PROGRAM_START);
}

#[test]
fn clear_screen() {
    let mut m = machine_with(&[0xA0, 0x00, 0xD0, 0x05, 0x00, 0xE0]);
    run(&mut m, 2);
    m.clear_dirty();
    assert!(lit_cells(&m) > 0);
    run(&mut m, 1);
    assert_eq!(lit_cells(&m), 0);
    assert!(m.is_dirty());
}

#[test]
fn store_zero_load_round_trip() {
    let mut m = Chip8::new();
    for i in 0..=5u8 {
        m.set_register(i, 10 + i * 3);
    }
    m.set_index(0x400).unwrap();
    m.execute(Instruction::StoreRegs { x: 5 }, 0).unwrap();
    assert_eq!(m.index(), 0x400);
    for i in 0..=5u8 {
        m.execute(Instruction::LdByte { x: i, nn: 0 }, 0).unwrap();
    }
    m.execute(Instruction::LdIndex { addr: 0x400 }, 0).unwrap();
    m.execute(Instruction::LoadRegs { x: 5 }, 0).unwrap();
    for i in 0..=5u8 {
        assert_eq!(m.register(i), 10 + i * 3);
    }
    assert_eq!(m.register(6), 0);
    assert_eq!(m.read_byte(0x406), Ok(0));
}

#[test]
fn store_past_memory_faults() {
    let mut m = Chip8::new();
    m.set_index(0xFFD).unwrap();
    let r = m.execute(Instruction::StoreRegs { x: 3 }, 0);
    assert_eq!(r, Err(Chip8Error::MemoryFault { addr: MEMORY_SIZE }));
    let r = m.execute(Instruction::LoadRegs { x: 3 }, 0);
    assert_eq!(r, Err(Chip8Error::MemoryFault { addr: MEMORY_SIZE }));
    assert!(m.execute(Instruction::StoreRegs { x: 2 }, 0).is_ok());
}

#[test]
fn sixty_ticks_clear_delay_with_cycles_between() {
    // V0 = 60, LD DT, V0, then an endless loop of ADD V1, 1 / JP 0x204
    let mut m = machine_with(&[0x60, 0x3C, 0xF0, 0x15, 0x71, 0x01, 0x12, 0x04]);
    run(&mut m, 2);
    assert_eq!(m.delay_timer(), 60);
    for i in 0..60 {
        run(&mut m, i % 3);
        m.tick_timers();
    }
    assert_eq!(m.delay_timer(), 0);
    m.tick_timers();
    assert_eq!(m.delay_timer(), 0);
}

#[test]
fn sixty_ticks_without_cycles() {
    let mut m = Chip8::new();
    m.set_register(0, 60);
    m.execute(Instruction::LdDtVx { x: 0 }, 0).unwrap();
    m.execute(Instruction::LdStVx { x: 0 }, 0).unwrap();
    assert!(m.is_sound_active());
    for _ in 0..59 {
        m.tick_timers();
    }
    assert_eq!(m.delay_timer(), 1);
    m.tick_timers();
    assert_eq!(m.delay_timer(), 0);
    assert_eq!(m.sound_timer(), 0);
    assert!(!m.is_sound_active());
    m.execute(Instruction::LdVxDt { x: 1 }, 0).unwrap();
    assert_eq!(m.register(1), 0);
}

#[test]
fn wait_for_key_idles_then_resolves() {
    let mut m = machine_with(&[0x65, 0x11, 0xF3, 0x0A, 0x00, 0xE0]);
    run(&mut m, 2);
    assert_eq!(m.waiting_register(), Some(3));
    let pc = m.pc();
    for _ in 0..10 {
        assert_eq!(m.execute_cycle_with_random(0), Ok(None));
        assert_eq!(m.pc(), pc);
        assert_eq!(m.register(3), 0);
        assert_eq!(m.register(5), 0x11);
    }
    m.set_key_down(0x7);
    assert_eq!(m.execute_cycle_with_random(0), Ok(None));
    assert_eq!(m.register(3), 0x7);
    assert_eq!(m.pc(), pc + 2);
    assert_eq!(m.waiting_register(), None);
    assert_eq!(m.execute_cycle_with_random(0), Ok(Some(Instruction::Cls)));
}

#[test]
fn keys_drive_skips() {
    let mut m = Chip8::new();
    m.set_register(0, 0xA);
    m.set_key_down(0xA);
    assert!(m.is_key_down(0xA));
    m.execute(Instruction::Skp { x: 0 }, 0).unwrap();
    assert_eq!(m.pc(), 0x204);
    m.execute(Instruction::Sknp { x: 0 }, 0).unwrap();
    assert_eq!(m.pc(), 0x206);
    m.set_key_up(0xA);
    m.execute(Instruction::Sknp { x: 0 }, 0).unwrap();
    assert_eq!(m.pc(), 0x20A);
    m.set_register(0, 0x20);
    m.execute(Instruction::Skp { x: 0 }, 0).unwrap();
    assert_eq!(m.pc(), 0x20C);
}

#[test]
fn call_and_return() {
    // CALL 0x206; (0x202) LD V0, 1; (0x204) JP 0x204; (0x206) LD V1, 2; RET
    let mut m = machine_with(&[0x22, 0x06, 0x60, 0x01, 0x12, 0x04, 0x61, 0x02, 0x00, 0xEE]);
    run(&mut m, 1);
    assert_eq!(m.pc(), 0x206);
    assert_eq!(m.stack_depth(), 1);
    run(&mut m, 2);
    assert_eq!(m.pc(), 0x202);
    assert_eq!(m.stack_depth(), 0);
    run(&mut m, 1);
    assert_eq!(m.register(0), 1);
    assert_eq!(m.register(1), 2);
}

#[test]
fn stack_overflow_and_underflow() {
    let mut m = machine_with(&[0x22, 0x00]);
    for _ in 0..16 {
        m.execute_cycle_with_random(0).unwrap();
    }
    assert_eq!(m.stack_depth(), 16);
    assert_eq!(m.execute_cycle_with_random(0), Err(Chip8Error::StackOverflow));
    assert_eq!(m.stack_depth(), 16);
    let mut m = Chip8::new();
    assert_eq!(m.execute(Instruction::Ret, 0), Err(Chip8Error::StackUnderflow));
}

#[test]
fn invalid_opcode_is_reported_and_can_be_skipped() {
    let mut m = machine_with(&[0x80, 0x0F, 0x60, 0x09]);
    assert_eq!(
        m.execute_cycle_with_random(0),
        Err(Chip8Error::InvalidOpcode { word: 0x800F })
    );
    assert_eq!(m.pc(), PROGRAM_START);
    m.skip_instruction().unwrap();
    run(&mut m, 1);
    assert_eq!(m.register(0), 9);
}

#[test]
fn program_too_large_is_refused() {
    let mut m = Chip8::new();
    let big = vec![0xAAu8; MEMORY_SIZE - PROGRAM_START as usize + 1];
    assert_eq!(m.load_program(&big), Err(Chip8Error::LoadError));
    assert_eq!(m.read_byte(0x200), Ok(0));
    let exact = vec![0xAAu8; MEMORY_SIZE - PROGRAM_START as usize];
    assert_eq!(m.load_program(&exact), Ok(()));
    assert_eq!(m.read_byte(MEMORY_SIZE - 1), Ok(0xAA));
    assert_eq!(m.read_byte(0x1FF), Ok(0));
}

#[test]
fn memory_access_bounds() {
    let mut m = Chip8::new();
    assert_eq!(m.read_byte(MEMORY_SIZE), Err(Chip8Error::MemoryFault { addr: MEMORY_SIZE }));
    assert_eq!(
        m.write_byte(MEMORY_SIZE, 1),
        Err(Chip8Error::MemoryFault { addr: MEMORY_SIZE })
    );
    assert_eq!(m.set_pc(0x1000), Err(Chip8Error::MemoryFault { addr: 0x1000 }));
    assert_eq!(m.set_index(0x1000), Err(Chip8Error::MemoryFault { addr: 0x1000 }));
    m.set_pc(0xFFF).unwrap();
    assert_eq!(
        m.execute_cycle_with_random(0),
        Err(Chip8Error::MemoryFault { addr: 0x1000 })
    );
}

#[test]
fn jumps_stay_inside_memory() {
    let mut m = Chip8::new();
    m.set_register(0, 0x10);
    m.execute(Instruction::JpV0 { addr: 0x300 }, 0).unwrap();
    assert_eq!(m.pc(), 0x310);
    m.set_register(0, 0xFF);
    assert_eq!(
        m.execute(Instruction::JpV0 { addr: 0xFFF }, 0),
        Err(Chip8Error::MemoryFault { addr: 0x10FE })
    );
    assert_eq!(m.pc(), 0x310);
    m.set_pc(0xFFC).unwrap();
    assert_eq!(
        m.execute(Instruction::SeByte { x: 1, nn: 0 }, 0),
        Err(Chip8Error::MemoryFault { addr: 0x1000 })
    );
    m.execute(Instruction::Jp { addr: 0x222 }, 0).unwrap();
    assert_eq!(m.pc(), 0x222);
}

#[test]
fn pc_stays_in_memory_over_a_run() {
    let mut m = machine_with(&[0x60, 0x01, 0x70, 0x01, 0x30, 0x20, 0x12, 0x02, 0x6A, 0x01, 0x12, 0x0A]);
    for _ in 0..200 {
        m.execute_cycle().unwrap();
        assert!((m.pc() as usize) < MEMORY_SIZE);
    }
    assert_eq!(m.register(0xA), 1);
}

#[test]
fn bcd_and_font() {
    let mut m = Chip8::new();
    m.load_font_set();
    m.set_register(4, 254);
    m.set_index(0x500).unwrap();
    m.execute(Instruction::LdBcd { x: 4 }, 0).unwrap();
    assert_eq!(m.read_byte(0x500), Ok(2));
    assert_eq!(m.read_byte(0x501), Ok(5));
    assert_eq!(m.read_byte(0x502), Ok(4));
    m.set_register(4, 0xB);
    m.execute(Instruction::LdFont { x: 4 }, 0).unwrap();
    assert_eq!(m.index(), 55);
    assert_eq!(m.read_byte(55), Ok(0xE0));
    assert_eq!(m.read_byte(0), Ok(0xF0));
    assert_eq!(m.read_byte(79), Ok(0x80));
}

#[test]
fn add_index_wraps_at_twelve_bits() {
    let mut m = Chip8::new();
    m.set_index(0xFF0).unwrap();
    m.set_register(2, 0x20);
    m.execute(Instruction::AddIndex { x: 2 }, 0).unwrap();
    assert_eq!(m.index(), 0x010);
    m.execute(Instruction::AddIndex { x: 2 }, 0).unwrap();
    assert_eq!(m.index(), 0x030);
}

#[test]
fn random_byte_is_masked() {
    let mut m = machine_with(&[0xC0, 0x0F, 0xC1, 0x00]);
    m.execute_cycle_with_random(0xAB).unwrap();
    assert_eq!(m.register(0), 0x0B);
    m.execute_cycle().unwrap();
    assert_eq!(m.register(1), 0);
    for _ in 0..50 {
        let mut m = Chip8::new();
        m.execute(Instruction::Rnd { x: 0, nn: 0x0F }, 0x3C).unwrap();
        assert_eq!(m.register(0), 0x0C);
    }
}

#[test]
fn decode_table() {
    assert_eq!(decode(0x00E0), Instruction::Cls);
    assert_eq!(decode(0x00EE), Instruction::Ret);
    assert_eq!(decode(0x0123), Instruction::Unknown { word: 0x0123 });
    assert_eq!(decode(0x1ABC), Instruction::Jp { addr: 0xABC });
    assert_eq!(decode(0x2ABC), Instruction::Call { addr: 0xABC });
    assert_eq!(decode(0x3A42), Instruction::SeByte { x: 0xA, nn: 0x42 });
    assert_eq!(decode(0x4A42), Instruction::SneByte { x: 0xA, nn: 0x42 });
    assert_eq!(decode(0x5120), Instruction::SeReg { x: 1, y: 2 });
    assert_eq!(decode(0x5121), Instruction::Unknown { word: 0x5121 });
    assert_eq!(decode(0x6A42), Instruction::LdByte { x: 0xA, nn: 0x42 });
    assert_eq!(decode(0x7A42), Instruction::AddByte { x: 0xA, nn: 0x42 });
    assert_eq!(decode(0x8120), Instruction::LdReg { x: 1, y: 2 });
    assert_eq!(decode(0x8121), Instruction::Or { x: 1, y: 2 });
    assert_eq!(decode(0x8122), Instruction::And { x: 1, y: 2 });
    assert_eq!(decode(0x8123), Instruction::Xor { x: 1, y: 2 });
    assert_eq!(decode(0x8124), Instruction::AddReg { x: 1, y: 2 });
    assert_eq!(decode(0x8125), Instruction::Sub { x: 1, y: 2 });
    assert_eq!(decode(0x8126), Instruction::Shr { x: 1 });
    assert_eq!(decode(0x8127), Instruction::Subn { x: 1, y: 2 });
    assert_eq!(decode(0x812E), Instruction::Shl { x: 1 });
    assert_eq!(decode(0x8128), Instruction::Unknown { word: 0x8128 });
    assert_eq!(decode(0x9120), Instruction::SneReg { x: 1, y: 2 });
    assert_eq!(decode(0xA123), Instruction::LdIndex { addr: 0x123 });
    assert_eq!(decode(0xB123), Instruction::JpV0 { addr: 0x123 });
    assert_eq!(decode(0xC1FF), Instruction::Rnd { x: 1, nn: 0xFF });
    assert_eq!(decode(0xD12F), Instruction::Drw { x: 1, y: 2, n: 0xF });
    assert_eq!(decode(0xE19E), Instruction::Skp { x: 1 });
    assert_eq!(decode(0xE1A1), Instruction::Sknp { x: 1 });
    assert_eq!(decode(0xE1A2), Instruction::Unknown { word: 0xE1A2 });
    assert_eq!(decode(0xF107), Instruction::LdVxDt { x: 1 });
    assert_eq!(decode(0xF10A), Instruction::LdKey { x: 1 });
    assert_eq!(decode(0xF115), Instruction::LdDtVx { x: 1 });
    assert_eq!(decode(0xF118), Instruction::LdStVx { x: 1 });
    assert_eq!(decode(0xF11E), Instruction::AddIndex { x: 1 });
    assert_eq!(decode(0xF129), Instruction::LdFont { x: 1 });
    assert_eq!(decode(0xF133), Instruction::LdBcd { x: 1 });
    assert_eq!(decode(0xF155), Instruction::StoreRegs { x: 1 });
    assert_eq!(decode(0xF165), Instruction::LoadRegs { x: 1 });
    assert_eq!(decode(0xF166), Instruction::Unknown { word: 0xF166 });
}

#[test]
fn new_machine_is_zeroed() {
    let m = Chip8::new();
    assert_eq!(m.pc(), PROGRAM_START);
    assert_eq!(m.index(), 0);
    assert_eq!(m.stack_depth(), 0);
    assert_eq!(m.framebuffer().len(), 64 * 32);
    assert_eq!(lit_cells(&m), 0);
    assert!(!m.is_dirty());
    assert_eq!(m.read_byte(0), Ok(0));
    for i in 0..16u8 {
        assert_eq!(m.register(i), 0);
        assert!(!m.is_key_down(i));
    }
}

#[test]
fn keyboard_layout() {
    let rows = ['1', '2', '3', '4', 'q', 'w', 'e', 'r', 'a', 's', 'd', 'f', 'z', 'x', 'c', 'v'];
    for (code, c) in rows.iter().enumerate() {
        assert_eq!(key_for(*c), Some(code as u8));
    }
    assert_eq!(key_for('5'), None);
    assert_eq!(key_for('Q'), None);
}
