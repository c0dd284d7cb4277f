use chip8::opcode::{Opcode, Reg};
use chip8::random::Generator;
use chip8::state::{Config, Fault, Outcome, RunReport, RunState};
use chip8::timers::Timers;
use chip8::{Chip8, MEM_SIZE};

fn ready() -> Chip8 {
    let mut vm: Chip8 = chip8::new();
    vm.reset();
    vm
}

fn ready_with(image: &[u8]) -> Chip8 {
    let mut vm: Chip8 = ready();
    assert_eq!(vm.load_rom(image), Ok(()));
    vm
}

fn plain(next_pc: u16) -> Result<Outcome, Fault> {
    Ok(Outcome { next_pc, display_dirty: false, waiting_for_key: false })
}

fn lit_count(vm: &Chip8) -> usize {
    let mut lit: usize = 0;
    let mut y: usize = 0;
    while y < 32 {
        let mut x: usize = 0;
        while x < 64 {
            if vm.display().pixel(x, y) {
                lit += 1;
            }
            x += 1;
        }
        y += 1;
    }
    lit
}

#[test]
fn new_machine_is_blank() {
    let vm: Chip8 = chip8::new();
    assert_eq!(vm.cpu().pc(), 0);
    assert_eq!(vm.ram().read_byte(0), 0);
    assert_eq!(vm.run_state(), RunState::Running);
    assert_eq!(vm.config(), Config { shift_uses_vy: false, cycles_per_tick: 8 });
    assert_eq!(vm.config(), chip8::default_config());
    assert_eq!(vm.timers(), Timers { delay: 0, sound: 0 });
}

#[test]
fn reset_yields_the_power_on_state() {
    let mut vm: Chip8 = ready_with(&[0x60, 0x05, 0xD0, 0x05, 0x22, 0x08, 0x00, 0x00, 0xF2, 0x0A]);
    assert_eq!(vm.execute(Opcode::LoadByte(Reg::V(7), 200)), plain(0x200));
    assert_eq!(vm.execute(Opcode::WriteDt(Reg::V(7))), plain(0x200));
    assert_eq!(vm.execute(Opcode::WriteSt(Reg::V(7))), plain(0x200));
    assert_eq!(vm.execute(Opcode::LoadDigit(Reg::V(7))), plain(0x200));
    assert_eq!(vm.cpu().i(), 40);
    vm.set_key_state(4, true);
    let report: RunReport = vm.run_for(10);
    assert_eq!(report.executed, 4);
    assert!(report.waiting_for_key);
    assert!(lit_count(&vm) > 0);
    assert_eq!(vm.cpu().sp(), 1);

    vm.reset();

    let mut x: u8 = 0;
    while x < 16 {
        assert_eq!(vm.cpu().reg(Reg::V(x)), 0);
        assert!(!vm.keypad().is_pressed(x));
        x += 1;
    }
    assert_eq!(vm.cpu().i(), 0);
    assert_eq!(vm.cpu().sp(), 0);
    assert_eq!(vm.cpu().pc(), 0x200);
    assert_eq!(lit_count(&vm), 0);
    assert_eq!(vm.timers(), Timers { delay: 0, sound: 0 });
    assert_eq!(vm.run_state(), RunState::Running);
    let mut addr: usize = 0;
    while addr < MEM_SIZE {
        let expected: u8 = if addr < 80 { chip8::ram::FONT_SPRITES[addr] } else { 0 };
        assert_eq!(vm.ram().read_byte(addr), expected);
        addr += 1;
    }
    assert_eq!(vm.ram().read_byte(0), 0xF0);
    assert_eq!(vm.ram().read_byte(75), 0xF0);
    assert_eq!(vm.ram().read_byte(79), 0x80);
}

#[test]
fn reset_keeps_configuration() {
    let mut vm: Chip8 = ready();
    vm.set_config(Config { shift_uses_vy: true, cycles_per_tick: 3 });
    vm.reset();
    assert_eq!(vm.config(), Config { shift_uses_vy: true, cycles_per_tick: 3 });
}

#[test]
fn load_then_add_scenario() {
    let mut vm: Chip8 = ready_with(&[0x60, 0x05, 0x70, 0x03]);
    assert_eq!(vm.step(), plain(0x202));
    assert_eq!(vm.cpu().reg(Reg::V(0)), 5);
    assert_eq!(vm.step(), plain(0x204));
    assert_eq!(vm.cpu().reg(Reg::V(0)), 8);
    assert_eq!(vm.cpu().pc(), 0x200 + 4);
}

#[test]
fn clear_scenario() {
    let mut vm: Chip8 = ready_with(&[0x00, 0xE0]);
    assert_eq!(vm.execute(Opcode::LoadByte(Reg::V(1), 17)), plain(0x200));
    assert_eq!(vm.execute(Opcode::LoadDigit(Reg::V(1))), plain(0x200));
    assert!(vm.execute(Opcode::Draw(Reg::V(1), Reg::V(1), 5)).is_ok());
    assert!(vm.execute(Opcode::Draw(Reg::V(0), Reg::V(2), 5)).is_ok());
    assert!(lit_count(&vm) > 0);
    assert_eq!(
        vm.step(),
        Ok(Outcome { next_pc: 0x202, display_dirty: true, waiting_for_key: false })
    );
    assert_eq!(lit_count(&vm), 0);
}

#[test]
fn unknown_opcode_scenario() {
    let mut vm: Chip8 = ready_with(&[0x50, 0x10, 0x50, 0x02, 0x60, 0x01]);
    assert_eq!(vm.step(), plain(0x204));
    let mut halted: Chip8 = ready_with(&[0x60, 0x09, 0x50, 0x02, 0x60, 0x01]);
    assert_eq!(halted.step(), plain(0x202));
    assert_eq!(halted.step(), Err(Fault::UnknownOpcode { word: 0x5002, address: 0x202 }));
    assert_eq!(halted.cpu().pc(), 0x202);
    assert_eq!(halted.cpu().reg(Reg::V(0)), 9);
    assert_eq!(halted.step(), Err(Fault::UnknownOpcode { word: 0x5002, address: 0x202 }));
    assert_eq!(halted.cpu().pc(), 0x202);
    let report: RunReport = halted.run_for(5);
    assert_eq!(
        report,
        RunReport {
            executed: 0,
            display_dirty: false,
            waiting_for_key: false,
            fault: Some(Fault::UnknownOpcode { word: 0x5002, address: 0x202 }),
        }
    );
}

#[test]
fn executing_an_unknown_word_reports_where_it_came_from() {
    let mut vm: Chip8 = ready();
    assert_eq!(vm.execute(Opcode::Jump(0x302)), plain(0x302));
    assert_eq!(
        vm.execute(Opcode::Unknown(0xFFFF)),
        Err(Fault::UnknownOpcode { word: 0xFFFF, address: 0x300 })
    );
    assert_eq!(vm.cpu().pc(), 0x302);
}

#[test]
fn call_and_return_scenario() {
    let mut image: Vec<u8> = vec![0; 0x102];
    image[0] = 0x12;
    image[1] = 0x04;
    image[4] = 0x23;
    image[5] = 0x00;
    image[0x100] = 0x00;
    image[0x101] = 0xEE;
    let mut vm: Chip8 = ready_with(&image);
    assert_eq!(vm.step(), plain(0x204));
    assert_eq!(vm.cpu().sp(), 0);
    assert_eq!(vm.step(), plain(0x300));
    assert_eq!(vm.cpu().sp(), 1);
    assert_eq!(vm.step(), plain(0x206));
    assert_eq!(vm.cpu().pc(), 0x206);
    assert_eq!(vm.cpu().sp(), 0);
}

#[test]
fn stack_faults_leave_the_program_counter_at_the_instruction() {
    let mut vm: Chip8 = ready_with(&[0x00, 0xEE]);
    assert_eq!(vm.step(), Err(Fault::StackUnderflow));
    assert_eq!(vm.cpu().pc(), 0x200);

    let mut deep: Chip8 = ready_with(&[0x22, 0x00]);
    let report: RunReport = deep.run_for(100);
    assert_eq!(report.executed, 16);
    assert_eq!(report.fault, Some(Fault::StackOverflow));
    assert_eq!(deep.cpu().sp(), 16);
    assert_eq!(deep.cpu().pc(), 0x200);
    assert_eq!(deep.step(), Err(Fault::StackOverflow));
}

#[test]
fn jumps_set_the_program_counter() {
    let mut vm: Chip8 = ready();
    assert_eq!(vm.execute(Opcode::Jump(0xABC)), plain(0xABC));
    assert_eq!(vm.execute(Opcode::LoadByte(Reg::V(0), 0xFF)), plain(0xABC));
    assert_eq!(vm.execute(Opcode::JumpV0(0xFFF)), plain(0x10FE));
    assert_eq!(vm.step(), Err(Fault::AccessViolation { address: 0x10FE }));
    assert_eq!(vm.execute(Opcode::SysCall(0x123)), plain(0x10FE));
}

#[test]
fn fetching_past_the_end_of_memory_is_an_access_violation() {
    let mut vm: Chip8 = ready();
    assert_eq!(vm.execute(Opcode::Jump(0xFFE)), plain(0xFFE));
    assert_eq!(vm.step(), plain(0x1000));
    assert_eq!(vm.step(), Err(Fault::AccessViolation { address: 0x1000 }));
    assert_eq!(vm.cpu().pc(), 0x1000);
    assert_eq!(vm.execute(Opcode::Jump(0xFFF)), plain(0xFFF));
    assert_eq!(vm.step(), Err(Fault::AccessViolation { address: 0xFFF }));
}

#[test]
fn skips_compare_registers_and_bytes() {
    let mut vm: Chip8 = ready();
    assert_eq!(vm.execute(Opcode::LoadByte(Reg::V(1), 7)), plain(0x200));
    assert_eq!(vm.execute(Opcode::LoadByte(Reg::V(2), 7)), plain(0x200));
    assert_eq!(vm.execute(Opcode::LoadByte(Reg::V(3), 8)), plain(0x200));
    assert_eq!(vm.execute(Opcode::SkipEqualByte(Reg::V(1), 7)), plain(0x202));
    assert_eq!(vm.execute(Opcode::SkipEqualByte(Reg::V(1), 8)), plain(0x202));
    assert_eq!(vm.execute(Opcode::SkipNotEqualByte(Reg::V(1), 8)), plain(0x204));
    assert_eq!(vm.execute(Opcode::SkipNotEqualByte(Reg::V(1), 7)), plain(0x204));
    assert_eq!(vm.execute(Opcode::SkipEqual(Reg::V(1), Reg::V(2))), plain(0x206));
    assert_eq!(vm.execute(Opcode::SkipEqual(Reg::V(1), Reg::V(3))), plain(0x206));
    assert_eq!(vm.execute(Opcode::SkipNotEqual(Reg::V(1), Reg::V(3))), plain(0x208));
    assert_eq!(vm.execute(Opcode::SkipNotEqual(Reg::V(1), Reg::V(2))), plain(0x208));
}

#[test]
fn a_skip_in_a_program_passes_over_one_instruction() {
    let mut vm: Chip8 = ready_with(&[0x30, 0x00, 0x61, 0x11, 0x62, 0x22]);
    assert_eq!(vm.step(), plain(0x204));
    assert_eq!(vm.step(), plain(0x206));
    assert_eq!(vm.cpu().reg(Reg::V(1)), 0);
    assert_eq!(vm.cpu().reg(Reg::V(2)), 0x22);
}

#[test]
fn arithmetic_instructions_set_result_and_flag() {
    let mut vm: Chip8 = ready();
    assert!(vm.execute(Opcode::LoadByte(Reg::V(1), 200)).is_ok());
    assert!(vm.execute(Opcode::LoadByte(Reg::V(2), 100)).is_ok());
    assert_eq!(vm.execute(Opcode::Add(Reg::V(1), Reg::V(2))), plain(0x200));
    assert_eq!(vm.cpu().reg(Reg::V(1)), 44);
    assert_eq!(vm.cpu().reg(Reg::V(15)), 1);
    assert_eq!(vm.execute(Opcode::Sub(Reg::V(1), Reg::V(2))), plain(0x200));
    assert_eq!(vm.cpu().reg(Reg::V(1)), 200);
    assert_eq!(vm.cpu().reg(Reg::V(15)), 0);
    assert_eq!(vm.execute(Opcode::Subn(Reg::V(2), Reg::V(1))), plain(0x200));
    assert_eq!(vm.cpu().reg(Reg::V(2)), 100);
    assert_eq!(vm.cpu().reg(Reg::V(15)), 1);
    assert_eq!(vm.execute(Opcode::AddByte(Reg::V(2), 156)), plain(0x200));
    assert_eq!(vm.cpu().reg(Reg::V(2)), 0);
    assert_eq!(vm.cpu().reg(Reg::V(15)), 1);
    assert_eq!(vm.execute(Opcode::Copy(Reg::V(3), Reg::V(1))), plain(0x200));
    assert_eq!(vm.cpu().reg(Reg::V(3)), 200);
    assert!(vm.execute(Opcode::LoadByte(Reg::V(4), 0x0F)).is_ok());
    assert!(vm.execute(Opcode::Or(Reg::V(4), Reg::V(3))).is_ok());
    assert_eq!(vm.cpu().reg(Reg::V(4)), 0xCF);
    assert!(vm.execute(Opcode::And(Reg::V(4), Reg::V(3))).is_ok());
    assert_eq!(vm.cpu().reg(Reg::V(4)), 0xC8);
    assert!(vm.execute(Opcode::Xor(Reg::V(4), Reg::V(3))).is_ok());
    assert_eq!(vm.cpu().reg(Reg::V(4)), 0);
}

#[test]
fn shift_source_follows_the_configuration() {
    let mut vm: Chip8 = ready();
    assert!(vm.execute(Opcode::LoadByte(Reg::V(1), 0x03)).is_ok());
    assert!(vm.execute(Opcode::LoadByte(Reg::V(2), 0x80)).is_ok());
    assert!(vm.execute(Opcode::Shr(Reg::V(1), Reg::V(2))).is_ok());
    assert_eq!(vm.cpu().reg(Reg::V(1)), 0x01);
    assert_eq!(vm.cpu().reg(Reg::V(15)), 1);
    assert!(vm.execute(Opcode::Shl(Reg::V(1), Reg::V(2))).is_ok());
    assert_eq!(vm.cpu().reg(Reg::V(1)), 0x02);
    assert_eq!(vm.cpu().reg(Reg::V(15)), 0);

    vm.set_config(Config { shift_uses_vy: true, cycles_per_tick: 8 });
    assert!(vm.execute(Opcode::Shr(Reg::V(1), Reg::V(2))).is_ok());
    assert_eq!(vm.cpu().reg(Reg::V(1)), 0x40);
    assert_eq!(vm.cpu().reg(Reg::V(15)), 0);
    assert!(vm.execute(Opcode::Shl(Reg::V(1), Reg::V(2))).is_ok());
    assert_eq!(vm.cpu().reg(Reg::V(1)), 0x00);
    assert_eq!(vm.cpu().reg(Reg::V(2)), 0x80);
    assert_eq!(vm.cpu().reg(Reg::V(15)), 1);
}

#[test]
fn random_masks_the_generated_byte() {
    let mut vm: Chip8 = ready();
    assert!(vm.execute(Opcode::Random(Reg::V(1), 0xFF)).is_ok());
    assert_eq!(vm.cpu().reg(Reg::V(1)), 0x73);
    assert!(vm.execute(Opcode::Random(Reg::V(1), 0x0F)).is_ok());
    assert_eq!(vm.cpu().reg(Reg::V(1)), 0x0E);
    assert!(vm.execute(Opcode::Random(Reg::V(1), 0x00)).is_ok());
    assert_eq!(vm.cpu().reg(Reg::V(1)), 0x00);
    vm.seed_random(1);
    assert!(vm.execute(Opcode::Random(Reg::V(2), 0xF0)).is_ok());
    assert_eq!(vm.cpu().reg(Reg::V(2)), 0xC0);
}

#[test]
fn generator_follows_its_recurrence() {
    let mut generator: Generator = Generator::new(0x2545_F491);
    assert_eq!(generator.next_byte(), 0x73);
    assert_eq!(generator.state, 0x2873_7FF6);
    assert_eq!(generator.next_byte(), 0x6E);
    assert_eq!(generator.state, 0xD86E_9FF7);
    assert_eq!(generator.next_byte(), 0xE1);
    assert_eq!(generator.state, 0x4BE1_8E64);
    let mut other: Generator = Generator::new(1);
    assert_eq!(other.next_byte(), 0xC6);
    assert_eq!(other.state, 0x41C6_7EA6);
}

#[test]
fn draw_instruction_blits_the_sprite_at_i() {
    let mut vm: Chip8 = ready();
    assert!(vm.execute(Opcode::LoadByte(Reg::V(0), 1)).is_ok());
    assert!(vm.execute(Opcode::LoadDigit(Reg::V(0))).is_ok());
    assert_eq!(vm.cpu().i(), 5);
    assert!(vm.execute(Opcode::LoadByte(Reg::V(1), 62)).is_ok());
    assert!(vm.execute(Opcode::LoadByte(Reg::V(2), 30)).is_ok());
    assert_eq!(
        vm.execute(Opcode::Draw(Reg::V(1), Reg::V(2), 5)),
        Ok(Outcome { next_pc: 0x200, display_dirty: true, waiting_for_key: false })
    );
    // The glyph of 1 is 0x20 0x60 0x20 0x20 0x70, drawn from (62, 30) around both edges.
    assert!(vm.display().pixel(0, 30));
    assert!(vm.display().pixel(63, 31));
    assert!(vm.display().pixel(0, 31));
    assert!(vm.display().pixel(0, 0));
    assert!(vm.display().pixel(0, 1));
    assert!(vm.display().pixel(63, 2));
    assert!(vm.display().pixel(0, 2));
    assert!(vm.display().pixel(1, 2));
    assert_eq!(lit_count(&vm), 8);
    assert_eq!(vm.cpu().reg(Reg::V(15)), 0);
}

#[test]
fn drawing_twice_restores_the_display_and_reports_the_collision() {
    let mut vm: Chip8 = ready();
    assert!(vm.execute(Opcode::LoadByte(Reg::V(3), 0xA)).is_ok());
    assert!(vm.execute(Opcode::LoadDigit(Reg::V(3))).is_ok());
    assert_eq!(vm.cpu().i(), 50);
    assert!(vm.execute(Opcode::Draw(Reg::V(0), Reg::V(0), 5)).is_ok());
    let before: usize = lit_count(&vm);
    assert_eq!(before, 14);
    assert!(vm.execute(Opcode::LoadByte(Reg::V(1), 2)).is_ok());
    assert!(vm.execute(Opcode::Draw(Reg::V(1), Reg::V(1), 5)).is_ok());
    let first_flag: u8 = vm.cpu().reg(Reg::V(15));
    assert!(vm.execute(Opcode::Draw(Reg::V(1), Reg::V(1), 5)).is_ok());
    assert_eq!(vm.cpu().reg(Reg::V(15)), 1);
    assert_eq!(first_flag, 1);
    assert_eq!(lit_count(&vm), before);
    assert!(vm.display().pixel(0, 0));
    assert!(vm.display().pixel(3, 4));
    assert!(!vm.display().pixel(1, 1));
    assert!(vm.execute(Opcode::Draw(Reg::V(0), Reg::V(0), 5)).is_ok());
    assert_eq!(lit_count(&vm), 0);
    assert_eq!(vm.cpu().reg(Reg::V(15)), 1);
}

#[test]
fn draw_past_the_end_of_memory_is_an_access_violation() {
    let mut vm: Chip8 = ready();
    assert!(vm.execute(Opcode::WriteI(0xFFF)).is_ok());
    assert!(vm.execute(Opcode::Draw(Reg::V(0), Reg::V(0), 1)).is_ok());
    assert_eq!(
        vm.execute(Opcode::Draw(Reg::V(0), Reg::V(0), 2)),
        Err(Fault::AccessViolation { address: 0xFFF })
    );
    assert_eq!(lit_count(&vm), 0);
}

#[test]
fn key_skips_look_at_the_low_hex_digit() {
    let mut vm: Chip8 = ready();
    vm.set_key_state(0xA, true);
    assert!(vm.execute(Opcode::LoadByte(Reg::V(1), 0x3A)).is_ok());
    assert!(vm.execute(Opcode::LoadByte(Reg::V(2), 0x0B)).is_ok());
    assert_eq!(vm.execute(Opcode::SkipPressed(Reg::V(1))), plain(0x202));
    assert_eq!(vm.execute(Opcode::SkipPressed(Reg::V(2))), plain(0x202));
    assert_eq!(vm.execute(Opcode::SkipNotPressed(Reg::V(2))), plain(0x204));
    assert_eq!(vm.execute(Opcode::SkipNotPressed(Reg::V(1))), plain(0x204));
    vm.set_key_state(0xA, false);
    assert_eq!(vm.execute(Opcode::SkipNotPressed(Reg::V(1))), plain(0x206));
}

#[test]
fn wait_for_key_blocks_until_a_fresh_press() {
    let mut vm: Chip8 = ready_with(&[0xF3, 0x0A, 0x63, 0x00]);
    vm.set_key_state(7, true);
    assert_eq!(
        vm.step(),
        Ok(Outcome { next_pc: 0x202, display_dirty: false, waiting_for_key: true })
    );
    assert_eq!(vm.run_state(), RunState::WaitingForKey(Reg::V(3)));
    let blocked: Result<Outcome, Fault> =
        Ok(Outcome { next_pc: 0x202, display_dirty: false, waiting_for_key: true });
    assert_eq!(vm.step(), blocked);
    assert_eq!(vm.step(), blocked);
    assert_eq!(vm.cpu().pc(), 0x202);

    vm.set_key_state(7, true);
    assert_eq!(vm.run_state(), RunState::WaitingForKey(Reg::V(3)));
    vm.set_key_state(2, false);
    assert_eq!(vm.run_state(), RunState::WaitingForKey(Reg::V(3)));
    vm.set_key_state(7, false);
    assert_eq!(vm.run_state(), RunState::WaitingForKey(Reg::V(3)));
    assert_eq!(vm.cpu().reg(Reg::V(3)), 0);

    vm.set_key_state(0xC, true);
    assert_eq!(vm.run_state(), RunState::Running);
    assert_eq!(vm.cpu().reg(Reg::V(3)), 0xC);
    assert!(vm.keypad().is_pressed(0xC));
    assert_eq!(vm.cpu().pc(), 0x202);
    assert_eq!(vm.step(), plain(0x204));
    assert_eq!(vm.cpu().reg(Reg::V(3)), 0);
}

#[test]
fn waiting_machine_consumes_no_cycles() {
    let mut vm: Chip8 = ready_with(&[0x60, 0x3C, 0xF0, 0x15, 0xF1, 0x0A, 0x61, 0x01]);
    vm.set_config(Config { shift_uses_vy: false, cycles_per_tick: 1 });
    let report: RunReport = vm.run_for(10);
    assert_eq!(
        report,
        RunReport { executed: 3, display_dirty: false, waiting_for_key: true, fault: None }
    );
    assert_eq!(vm.timers().delay, 58);
    let again: RunReport = vm.run_for(10);
    assert_eq!(
        again,
        RunReport { executed: 0, display_dirty: false, waiting_for_key: true, fault: None }
    );
    assert_eq!(vm.timers().delay, 58);
    assert_eq!(vm.cpu().pc(), 0x206);
    vm.tick();
    assert_eq!(vm.timers().delay, 57);
}

#[test]
fn reset_ends_a_wait() {
    let mut vm: Chip8 = ready_with(&[0xF3, 0x0A]);
    assert!(vm.step().is_ok());
    assert_eq!(vm.run_state(), RunState::WaitingForKey(Reg::V(3)));
    vm.reset();
    assert_eq!(vm.run_state(), RunState::Running);
    assert_eq!(vm.step(), plain(0x202));
}

#[test]
fn timer_instructions_copy_between_registers_and_timers() {
    let mut vm: Chip8 = ready();
    assert!(vm.execute(Opcode::LoadByte(Reg::V(1), 10)).is_ok());
    assert!(vm.execute(Opcode::WriteDt(Reg::V(1))).is_ok());
    assert_eq!(vm.timers(), Timers { delay: 10, sound: 0 });
    assert!(!vm.sound_active());
    let mut tick: u8 = 1;
    while tick <= 10 {
        vm.tick();
        assert_eq!(vm.timers(), Timers { delay: 10 - tick, sound: 0 });
        tick += 1;
    }
    vm.tick();
    assert_eq!(vm.timers(), Timers { delay: 0, sound: 0 });
    assert!(vm.execute(Opcode::LoadByte(Reg::V(2), 3)).is_ok());
    assert!(vm.execute(Opcode::WriteSt(Reg::V(2))).is_ok());
    assert!(vm.execute(Opcode::WriteDt(Reg::V(2))).is_ok());
    assert!(vm.sound_active());
    vm.tick();
    assert!(vm.execute(Opcode::ReadDt(Reg::V(5))).is_ok());
    assert_eq!(vm.cpu().reg(Reg::V(5)), 2);
    vm.tick();
    vm.tick();
    assert!(!vm.sound_active());
}

#[test]
fn address_register_instructions() {
    let mut vm: Chip8 = ready();
    assert_eq!(vm.execute(Opcode::WriteI(0x123)), plain(0x200));
    assert_eq!(vm.cpu().i(), 0x123);
    assert!(vm.execute(Opcode::LoadByte(Reg::V(1), 0xFF)).is_ok());
    assert!(vm.execute(Opcode::AddI(Reg::V(1))).is_ok());
    assert_eq!(vm.cpu().i(), 0x222);
    assert!(vm.execute(Opcode::LoadDigit(Reg::V(1))).is_ok());
    assert_eq!(vm.cpu().i(), 75);
    assert!(vm.execute(Opcode::LoadByte(Reg::V(1), 0x10)).is_ok());
    assert!(vm.execute(Opcode::LoadDigit(Reg::V(1))).is_ok());
    assert_eq!(vm.cpu().i(), 0);
}

#[test]
fn bcd_stores_hundreds_tens_and_ones() {
    let mut vm: Chip8 = ready();
    assert!(vm.execute(Opcode::WriteI(0x300)).is_ok());
    assert!(vm.execute(Opcode::LoadByte(Reg::V(1), 254)).is_ok());
    assert_eq!(vm.execute(Opcode::WriteBCD(Reg::V(1))), plain(0x200));
    assert_eq!(vm.ram().bytes(0x2FF, 5), &[0, 2, 5, 4, 0]);
    assert!(vm.execute(Opcode::LoadByte(Reg::V(1), 7)).is_ok());
    assert!(vm.execute(Opcode::WriteBCD(Reg::V(1))).is_ok());
    assert_eq!(vm.ram().bytes(0x300, 3), &[0, 0, 7]);
    assert!(vm.execute(Opcode::WriteI(0xFFD)).is_ok());
    assert!(vm.execute(Opcode::LoadByte(Reg::V(1), 109)).is_ok());
    assert!(vm.execute(Opcode::WriteBCD(Reg::V(1))).is_ok());
    assert_eq!(vm.ram().bytes(0xFFD, 3), &[1, 0, 9]);
    assert_eq!(vm.cpu().i(), 0xFFD);
}

#[test]
fn register_block_store_and_load_include_the_named_register() {
    let mut vm: Chip8 = ready();
    let mut x: u8 = 0;
    while x < 16 {
        assert!(vm.execute(Opcode::LoadByte(Reg::V(x), 0x10 + x)).is_ok());
        x += 1;
    }
    assert!(vm.execute(Opcode::WriteI(0x400)).is_ok());
    assert_eq!(vm.execute(Opcode::WriteRegs(Reg::V(2))), plain(0x200));
    assert_eq!(vm.ram().bytes(0x3FF, 5), &[0, 0x10, 0x11, 0x12, 0]);
    assert_eq!(vm.cpu().i(), 0x400);
    assert!(vm.execute(Opcode::WriteI(0x500)).is_ok());
    assert!(vm.execute(Opcode::WriteRegs(Reg::V(15))).is_ok());
    assert_eq!(vm.ram().read_byte(0x50F), 0x1F);
    assert_eq!(vm.ram().read_byte(0x510), 0);
    assert!(vm.execute(Opcode::WriteRegs(Reg::V(0))).is_ok());

    assert!(vm.execute(Opcode::WriteI(0x501)).is_ok());
    assert_eq!(vm.execute(Opcode::ReadRegs(Reg::V(1))), plain(0x200));
    assert_eq!(vm.cpu().reg(Reg::V(0)), 0x11);
    assert_eq!(vm.cpu().reg(Reg::V(1)), 0x12);
    assert_eq!(vm.cpu().reg(Reg::V(2)), 0x12);
    assert_eq!(vm.cpu().i(), 0x501);
    assert!(vm.execute(Opcode::WriteI(0)).is_ok());
    assert!(vm.execute(Opcode::ReadRegs(Reg::V(4))).is_ok());
    assert_eq!(vm.cpu().regs_upto(Reg::V(5)), &[0xF0, 0x90, 0x90, 0x90, 0xF0, 0x15]);
}

#[test]
fn stores_outside_program_memory_are_access_violations() {
    let mut vm: Chip8 = ready();
    assert!(vm.execute(Opcode::LoadByte(Reg::V(0), 0xAA)).is_ok());
    assert!(vm.execute(Opcode::WriteI(0x1FF)).is_ok());
    assert_eq!(
        vm.execute(Opcode::WriteRegs(Reg::V(0))),
        Err(Fault::AccessViolation { address: 0x1FF })
    );
    assert_eq!(
        vm.execute(Opcode::WriteBCD(Reg::V(0))),
        Err(Fault::AccessViolation { address: 0x1FF })
    );
    assert!(vm.execute(Opcode::WriteI(0)).is_ok());
    assert_eq!(
        vm.execute(Opcode::WriteRegs(Reg::V(15))),
        Err(Fault::AccessViolation { address: 0 })
    );
    assert_eq!(vm.ram().read_byte(0), 0xF0);
    assert_eq!(vm.ram().read_byte(0x1FF), 0);
    assert_eq!(vm.ram().read_byte(0x200), 0);

    assert!(vm.execute(Opcode::WriteI(0xFFE)).is_ok());
    assert_eq!(
        vm.execute(Opcode::WriteBCD(Reg::V(0))),
        Err(Fault::AccessViolation { address: 0xFFE })
    );
    assert_eq!(
        vm.execute(Opcode::WriteRegs(Reg::V(2))),
        Err(Fault::AccessViolation { address: 0xFFE })
    );
    assert_eq!(vm.ram().read_byte(0xFFE), 0);
    assert_eq!(vm.ram().read_byte(0xFFF), 0);
    assert!(vm.execute(Opcode::WriteRegs(Reg::V(1))).is_ok());
    assert_eq!(vm.ram().read_byte(0xFFE), 0xAA);
    assert_eq!(
        vm.execute(Opcode::ReadRegs(Reg::V(2))),
        Err(Fault::AccessViolation { address: 0xFFE })
    );
    assert_eq!(vm.cpu().reg(Reg::V(0)), 0xAA);
    assert!(vm.execute(Opcode::ReadRegs(Reg::V(1))).is_ok());
    assert_eq!(vm.cpu().reg(Reg::V(1)), 0);
}

#[test]
fn glyph_table_survives_a_program_that_stores_until_it_faults() {
    // VF = 0x10; I = 0x300; then for ever: store V0..VF at I, add VF to I.
    let mut vm: Chip8 =
        ready_with(&[0x6F, 0x10, 0xA3, 0x00, 0xFF, 0x55, 0xFF, 0x1E, 0x12, 0x04]);
    let report: RunReport = vm.run_for(2000);
    assert_eq!(report.fault, Some(Fault::AccessViolation { address: 0x1000 }));
    assert_eq!(report.executed, 2 + 208 * 3);
    assert_eq!(vm.cpu().pc(), 0x204);
    assert_eq!(vm.ram().read_byte(0x30F), 0x10);
    assert_eq!(vm.ram().read_byte(0xFFF), 0x10);
    assert_eq!(vm.ram().read_byte(0xFFE), 0);
    let mut addr: usize = 0;
    while addr < 80 {
        assert_eq!(vm.ram().read_byte(addr), chip8::ram::FONT_SPRITES[addr]);
        addr += 1;
    }
    while addr < 0x200 {
        assert_eq!(vm.ram().read_byte(addr), 0);
        addr += 1;
    }
}

#[test]
fn load_rom_refuses_an_oversized_image() {
    let mut vm: Chip8 = ready();
    let image: Vec<u8> = vec![1; 3585];
    assert_eq!(vm.load_rom(&image), Err(chip8::ram::LoadError::ImageTooLarge(3585)));
    assert_eq!(vm.ram().read_byte(0x200), 0);
    assert_eq!(vm.ram().read_byte(0xFFF), 0);
    let fits: Vec<u8> = vec![1; 3584];
    assert_eq!(vm.load_rom(&fits), Ok(()));
    assert_eq!(vm.ram().read_byte(0x200), 1);
    assert_eq!(vm.ram().read_byte(0xFFF), 1);
    assert_eq!(vm.ram().read_byte(0x1FF), 0);
}

#[test]
fn run_for_ticks_at_the_configured_ratio() {
    let mut vm: Chip8 = ready_with(&[0x60, 0x64, 0xF0, 0x15, 0xF0, 0x18, 0x12, 0x06]);
    vm.set_config(Config { shift_uses_vy: false, cycles_per_tick: 4 });
    let report: RunReport = vm.run_for(3);
    assert_eq!(
        report,
        RunReport { executed: 3, display_dirty: false, waiting_for_key: false, fault: None }
    );
    assert_eq!(vm.timers(), Timers { delay: 100, sound: 100 });
    assert_eq!(vm.run_for(1).executed, 1);
    assert_eq!(vm.timers(), Timers { delay: 99, sound: 99 });
    assert_eq!(vm.run_for(40).executed, 40);
    assert_eq!(vm.timers(), Timers { delay: 89, sound: 89 });
    assert_eq!(vm.run_for(3).executed, 3);
    assert_eq!(vm.timers(), Timers { delay: 89, sound: 89 });
    assert_eq!(vm.run_for(1).executed, 1);
    assert_eq!(vm.timers(), Timers { delay: 88, sound: 88 });
}

#[test]
fn run_for_with_ratio_zero_leaves_the_timers_to_the_host() {
    let mut vm: Chip8 = ready_with(&[0x60, 0x64, 0xF0, 0x15, 0x12, 0x04]);
    vm.set_config(Config { shift_uses_vy: false, cycles_per_tick: 0 });
    assert_eq!(vm.run_for(1000).executed, 1000);
    assert_eq!(vm.timers().delay, 100);
    vm.tick();
    assert_eq!(vm.timers().delay, 99);
}

#[test]
fn run_for_zero_cycles_does_nothing() {
    let mut vm: Chip8 = ready_with(&[0x60, 0x05]);
    assert_eq!(
        vm.run_for(0),
        RunReport { executed: 0, display_dirty: false, waiting_for_key: false, fault: None }
    );
    assert_eq!(vm.cpu().pc(), 0x200);
}

#[test]
fn run_for_reports_a_dirty_display() {
    let mut vm: Chip8 = ready_with(&[0x60, 0x05, 0xD0, 0x05, 0x61, 0x01, 0x12, 0x06]);
    let report: RunReport = vm.run_for(6);
    assert_eq!(
        report,
        RunReport { executed: 6, display_dirty: true, waiting_for_key: false, fault: None }
    );
    assert_eq!(lit_count(&vm), 14);
    assert_eq!(vm.run_for(2).display_dirty, false);
}

#[test]
fn machine_dump_and_listing_show_the_loaded_program() {
    let mut vm: Chip8 = ready_with(&[0x60, 0x05, 0x70, 0x03]);
    let words: Vec<u16> = vm.dump_mem();
    assert_eq!(words.len(), 2048);
    assert_eq!(words[0], 0xF090);
    assert_eq!(words[0x100], 0x6005);
    assert_eq!(words[0x101], 0x7003);
    let listing: Vec<(u16, Opcode)> = vm.run_test();
    assert_eq!(listing.len(), 1024);
    assert_eq!(listing[0], (0x200, Opcode::LoadByte(Reg::V(0), 5)));
    assert_eq!(listing[1], (0x202, Opcode::AddByte(Reg::V(0), 3)));
    assert_eq!(listing[2], (0x204, Opcode::SysCall(0)));
    assert_eq!(vm.cpu().pc(), 0xA00);
    assert_eq!(vm.cpu().reg(Reg::V(0)), 0);
}

#[test]
fn two_machines_do_not_interfere() {
    let mut a: Chip8 = ready_with(&[0x60, 0x05]);
    let mut b: Chip8 = ready_with(&[0x60, 0x09]);
    assert!(a.step().is_ok());
    assert_eq!(b.cpu().reg(Reg::V(0)), 0);
    assert!(b.step().is_ok());
    assert_eq!(a.cpu().reg(Reg::V(0)), 5);
    assert_eq!(b.cpu().reg(Reg::V(0)), 9);
}

#[test]
fn program_counter_stays_even_without_odd_targets() {
    // 0x200: V0 = 3; call 0x20C; V1 += 1; skip if V1 == 3; jump 0x202; jump 0x20A;
    // 0x20C: V2 += V0; return.
    let mut vm: Chip8 = ready_with(&[
        0x60, 0x03, 0x22, 0x0C, 0x71, 0x01, 0x31, 0x03, 0x12, 0x02, 0x12, 0x0A, 0x82, 0x04, 0x00,
        0xEE,
    ]);
    let mut steps: u32 = 0;
    while steps < 60 {
        assert!(vm.step().is_ok());
        assert_eq!(vm.cpu().pc() % 2, 0);
        steps += 1;
    }
    assert_eq!(vm.cpu().reg(Reg::V(1)), 3);
    assert_eq!(vm.cpu().reg(Reg::V(2)), 9);
    assert_eq!(vm.cpu().pc(), 0x20A);
    assert_eq!(vm.cpu().sp(), 0);
}

#[test]
fn a_jump_to_an_odd_address_is_followed() {
    let mut vm: Chip8 = ready_with(&[0x12, 0x03, 0x00, 0x61, 0x07]);
    assert_eq!(vm.step(), plain(0x203));
    assert_eq!(vm.step(), plain(0x205));
    assert_eq!(vm.cpu().reg(Reg::V(1)), 7);
}

#[test]
fn bcd_digits_rebuild_every_value() {
    let mut vm: Chip8 = ready();
    assert!(vm.execute(Opcode::WriteI(0x300)).is_ok());
    let mut value: u16 = 0;
    while value < 256 {
        assert!(vm.execute(Opcode::LoadByte(Reg::V(1), value as u8)).is_ok());
        assert!(vm.execute(Opcode::WriteBCD(Reg::V(1))).is_ok());
        let digits: &[u8] = vm.ram().bytes(0x300, 3);
        assert!(digits[0] < 3 && digits[1] < 10 && digits[2] < 10);
        assert_eq!(
            digits[0] as u16 * 100 + digits[1] as u16 * 10 + digits[2] as u16,
            value
        );
        value += 1;
    }
}

#[test]
fn shifts_split_every_value_into_result_and_flag() {
    let mut vm: Chip8 = ready();
    let mut value: u16 = 0;
    while value < 256 {
        assert!(vm.execute(Opcode::LoadByte(Reg::V(1), value as u8)).is_ok());
        assert!(vm.execute(Opcode::Shr(Reg::V(1), Reg::V(2))).is_ok());
        assert_eq!(vm.cpu().reg(Reg::V(1)) as u16, value / 2);
        assert_eq!(vm.cpu().reg(Reg::V(15)) as u16, value % 2);
        assert!(vm.execute(Opcode::LoadByte(Reg::V(1), value as u8)).is_ok());
        assert!(vm.execute(Opcode::Shl(Reg::V(1), Reg::V(2))).is_ok());
        assert_eq!(vm.cpu().reg(Reg::V(1)) as u16, (value * 2) % 256);
        assert_eq!(vm.cpu().reg(Reg::V(15)) as u16, value / 128);
        value += 1;
    }
}
