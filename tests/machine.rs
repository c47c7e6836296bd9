use chip8::chip8::{display_size, Chip8, Error, Quirks, State, FONT_SPRITES, MAX_ROM_SIZE};
use chip8::common::Size;
use chip8::instruction::Instruction;

fn quirks() -> Quirks {
    Quirks::default()
}

fn machine(rom: &[u8], quirks: Quirks) -> Chip8 {
    match Chip8::with_rom(rom.to_vec(), quirks) {
        Ok(m) => m,
        Err(e) => panic!("construction failed: {:?}", e),
    }
}

fn steps(m: &mut Chip8, n: usize) {
    for _ in 0..n {
        assert_eq!(m.teak_with_random(0), Ok(()));
    }
}

#[test]
fn rom_too_big_is_refused() {
    let rom = vec![0u8; MAX_ROM_SIZE + 1];
    match Chip8::with_rom(rom, quirks()) {
        Err(e) => assert_eq!(e, Error::RomTooBig(3585)),
        Ok(_) => panic!("a rom of 3585 bytes must be refused"),
    }
}

#[test]
fn largest_rom_is_loaded_verbatim() {
    let rom: Vec<u8> = (0..MAX_ROM_SIZE).map(|i| (i % 251) as u8).collect();
    let m = machine(&rom, quirks());
    for (i, b) in rom.iter().enumerate() {
        assert_eq!(m.memory_at(0x200 + i), *b);
    }
    assert_eq!(m.program_counter(), 0x200);
    assert!(matches!(m.get_state(), State::Running));
}

#[test]
fn empty_rom_and_font_table() {
    let m = machine(&[], quirks());
    for (i, b) in FONT_SPRITES.iter().enumerate() {
        assert_eq!(m.memory_at(0x50 + i), *b);
    }
    assert_eq!(m.memory_at(0x200), 0);
    assert_eq!(m.memory_at(0x4f), 0);
    assert_eq!(m.memory_at(0xa0), 0);
    assert!(m.get_video_ram().iter().all(|c| *c == 0));
    assert_eq!(m.get_video_ram().len(), 64 * 32);
}

#[test]
fn stack_is_last_in_first_out() {
    let mut m = machine(&[], quirks());
    for v in 0..16u16 {
        assert_eq!(m.push(0x100 + v), Ok(()));
    }
    assert_eq!(m.stack_depth(), 16);
    assert_eq!(m.push(0x999), Err(Error::StackOverflow));
    assert_eq!(m.stack_depth(), 16);
    for v in (0..16u16).rev() {
        assert_eq!(m.pop(), Ok(0x100 + v));
    }
    assert_eq!(m.pop(), Err(Error::EmptyStack));
    assert_eq!(m.stack_depth(), 0);
}

#[test]
fn call_and_return() {
    // 0x200: call 0x206; 0x202: V1 = 7; 0x204: jump 0x204; 0x206: V0 = 1; 0x208: return
    let rom = [0x22, 0x06, 0x61, 0x07, 0x12, 0x04, 0x60, 0x01, 0x00, 0xee];
    let mut m = machine(&rom, quirks());
    steps(&mut m, 1);
    assert_eq!(m.program_counter(), 0x206);
    assert_eq!(m.stack_depth(), 1);
    steps(&mut m, 2);
    assert_eq!(m.program_counter(), 0x202);
    assert_eq!(m.stack_depth(), 0);
    steps(&mut m, 1);
    assert_eq!(m.register(0), 1);
    assert_eq!(m.register(1), 7);
}

#[test]
fn return_on_empty_stack_fails() {
    let mut m = machine(&[0x00, 0xee], quirks());
    assert_eq!(m.teak_with_random(0), Err(Error::EmptyStack));
    assert_eq!(m.program_counter(), 0x202);
}

#[test]
fn seventeenth_call_overflows() {
    // 0x200: call 0x200, forever
    let mut m = machine(&[0x22, 0x00], quirks());
    steps(&mut m, 16);
    assert_eq!(m.stack_depth(), 16);
    assert_eq!(m.teak_with_random(0), Err(Error::StackOverflow));
    assert_eq!(m.stack_depth(), 16);
}

#[test]
fn add_reg_sets_carry() {
    let rom = [0x60, 0xff, 0x61, 0x01, 0x80, 0x14, 0x62, 0x01, 0x63, 0x01, 0x82, 0x34];
    let mut m = machine(&rom, quirks());
    steps(&mut m, 3);
    assert_eq!(m.register(0), 0x00);
    assert_eq!(m.register(0xf), 1);
    steps(&mut m, 3);
    assert_eq!(m.register(2), 0x02);
    assert_eq!(m.register(0xf), 0);
}

#[test]
fn sub_reg_sets_no_borrow() {
    let rom = [0x60, 0x05, 0x61, 0x03, 0x80, 0x15, 0x62, 0x03, 0x63, 0x05, 0x82, 0x35];
    let mut m = machine(&rom, quirks());
    steps(&mut m, 3);
    assert_eq!(m.register(0), 0x02);
    assert_eq!(m.register(0xf), 1);
    steps(&mut m, 3);
    assert_eq!(m.register(2), 0xfe);
    assert_eq!(m.register(0xf), 0);
}

#[test]
fn sub_reg_reversed() {
    let rom = [0x60, 0x03, 0x61, 0x05, 0x80, 0x17, 0x62, 0x05, 0x63, 0x03, 0x82, 0x37];
    let mut m = machine(&rom, quirks());
    steps(&mut m, 3);
    assert_eq!(m.register(0), 0x02);
    assert_eq!(m.register(0xf), 1);
    steps(&mut m, 3);
    assert_eq!(m.register(2), 0xfe);
    assert_eq!(m.register(0xf), 0);
}

#[test]
fn shift_right_on_vx() {
    let rom = [0x60, 0x03, 0x61, 0x04, 0x80, 0x16];
    let mut m = machine(&rom, Quirks { shifting: true, ..quirks() });
    steps(&mut m, 3);
    assert_eq!(m.register(0), 0x01);
    assert_eq!(m.register(0xf), 1);
}

#[test]
fn shift_right_copies_vy() {
    let rom = [0x60, 0x03, 0x61, 0x04, 0x80, 0x16];
    let mut m = machine(&rom, Quirks { shifting: false, ..quirks() });
    steps(&mut m, 3);
    assert_eq!(m.register(0), 0x02);
    assert_eq!(m.register(0xf), 0);
}

#[test]
fn shift_left_loses_top_bit() {
    let rom = [0x60, 0x81, 0x80, 0x0e];
    let mut m = machine(&rom, quirks());
    steps(&mut m, 2);
    assert_eq!(m.register(0), 0x02);
    assert_eq!(m.register(0xf), 1);
}

#[test]
fn bitwise_ops_and_vf_reset() {
    let rom = [0x6f, 0x09, 0x60, 0x0c, 0x61, 0x0a, 0x80, 0x11];
    let mut m = machine(&rom, Quirks { vf_reset: true, ..quirks() });
    steps(&mut m, 4);
    assert_eq!(m.register(0), 0x0e);
    assert_eq!(m.register(0xf), 0);
    let mut m = machine(&rom, Quirks { vf_reset: false, ..quirks() });
    steps(&mut m, 4);
    assert_eq!(m.register(0), 0x0e);
    assert_eq!(m.register(0xf), 9);
    let rom = [0x60, 0x0c, 0x61, 0x0a, 0x80, 0x12, 0x62, 0x0c, 0x82, 0x13];
    let mut m = machine(&rom, quirks());
    steps(&mut m, 5);
    assert_eq!(m.register(0), 0x08);
    assert_eq!(m.register(2), 0x06);
}

#[test]
fn add_immediate_wraps_without_flag() {
    let rom = [0x6f, 0x05, 0x60, 0xfe, 0x70, 0x03];
    let mut m = machine(&rom, quirks());
    steps(&mut m, 3);
    assert_eq!(m.register(0), 0x01);
    assert_eq!(m.register(0xf), 5);
}

#[test]
fn draw_collision_flag() {
    // I = 0x300, which holds 0xff; draw 1 row at (V0, V1) = (0, 0) twice
    let mut rom = vec![0xa3, 0x00, 0xd0, 0x11, 0xd0, 0x11];
    rom.resize(0x100, 0);
    rom.push(0xff);
    let mut m = machine(&rom, quirks());
    steps(&mut m, 2);
    assert_eq!(m.register(0xf), 0);
    assert!(m.get_video_ram()[..8].iter().all(|c| *c == 1));
    assert!(m.get_video_ram()[8..].iter().all(|c| *c == 0));
    steps(&mut m, 1);
    assert_eq!(m.register(0xf), 1);
    assert!(m.get_video_ram().iter().all(|c| *c == 0));
}

#[test]
fn draw_clips_at_edges_and_wraps_origin() {
    // V0 = 124 (col 60), V1 = 63 (row 31); I = font glyph 0 (0xF0, 0x90, ...)
    let rom = [0x60, 124, 0x61, 63, 0xa0, 0x50, 0xd0, 0x15];
    let mut m = machine(&rom, quirks());
    steps(&mut m, 4);
    let video = m.get_video_ram();
    let lit: Vec<usize> = (0..video.len()).filter(|i| video[*i] == 1).collect();
    assert_eq!(lit, vec![31 * 64 + 60, 31 * 64 + 61, 31 * 64 + 62, 31 * 64 + 63]);
    assert_eq!(m.register(0xf), 0);
}

#[test]
fn clear_screen() {
    let rom = [0xa0, 0x50, 0xd0, 0x05, 0x00, 0xe0];
    let mut m = machine(&rom, quirks());
    steps(&mut m, 2);
    assert!(m.get_video_ram().iter().any(|c| *c == 1));
    steps(&mut m, 1);
    assert!(m.get_video_ram().iter().all(|c| *c == 0));
}

#[test]
fn wait_key_stalls_then_takes_key() {
    let rom = [0xf3, 0x0a, 0x60, 0x01];
    let mut m = machine(&rom, quirks());
    for _ in 0..5 {
        steps(&mut m, 1);
        assert_eq!(m.program_counter(), 0x200);
        for r in 0..16 {
            assert_eq!(m.register(r), 0);
        }
        assert!(m.get_video_ram().iter().all(|c| *c == 0));
    }
    m.key_down(0xb);
    steps(&mut m, 1);
    assert_eq!(m.register(3), 0xb);
    assert_eq!(m.program_counter(), 0x202);
}

#[test]
fn wait_key_takes_lowest_held_key() {
    let mut m = machine(&[0xf3, 0x0a], quirks());
    m.key_down(0x9);
    m.key_down(0x4);
    steps(&mut m, 1);
    assert_eq!(m.register(3), 0x4);
}

#[test]
fn skip_if_key() {
    // V0 = 0x15: its low nibble names key 5
    let rom = [0x60, 0x15, 0xe0, 0x9e, 0x00, 0x00, 0xe0, 0xa1];
    let mut m = machine(&rom, quirks());
    m.key_down(5);
    assert!(m.is_key_down(5));
    steps(&mut m, 2);
    assert_eq!(m.program_counter(), 0x206);
    steps(&mut m, 1);
    assert_eq!(m.program_counter(), 0x208);
    m.key_up(5);
    assert!(!m.is_key_down(5));
}

#[test]
fn skips_on_registers_and_immediates() {
    let rom = [0x60, 0x07, 0x30, 0x07, 0x00, 0x00, 0x40, 0x07, 0x61, 0x07, 0x50, 0x10, 0x00, 0x00, 0x90, 0x10];
    let mut m = machine(&rom, quirks());
    steps(&mut m, 2);
    assert_eq!(m.program_counter(), 0x206);
    steps(&mut m, 1);
    assert_eq!(m.program_counter(), 0x208);
    steps(&mut m, 2);
    assert_eq!(m.program_counter(), 0x20e);
    steps(&mut m, 1);
    assert_eq!(m.program_counter(), 0x210);
}

#[test]
fn bcd_store() {
    let rom = [0x65, 157, 0xa3, 0x00, 0xf5, 0x33];
    let mut m = machine(&rom, quirks());
    steps(&mut m, 3);
    assert_eq!(m.memory_at(0x300), 1);
    assert_eq!(m.memory_at(0x301), 5);
    assert_eq!(m.memory_at(0x302), 7);
}

#[test]
fn bcd_store_wraps_at_end_of_memory() {
    let rom = [0x65, 249, 0xaf, 0xff, 0xf5, 0x33];
    let mut m = machine(&rom, quirks());
    steps(&mut m, 3);
    assert_eq!(m.memory_at(0xfff), 2);
    assert_eq!(m.memory_at(0x000), 4);
    assert_eq!(m.memory_at(0x001), 9);
}

#[test]
fn register_dump_and_load() {
    let rom = [0x60, 0x11, 0x61, 0x22, 0x62, 0x33, 0xa3, 0x00, 0xf2, 0x55, 0x60, 0x00, 0x61, 0x00, 0xa3, 0x00, 0xf1, 0x65];
    let mut m = machine(&rom, Quirks { memory: false, ..quirks() });
    steps(&mut m, 5);
    assert_eq!(m.memory_at(0x300), 0x11);
    assert_eq!(m.memory_at(0x301), 0x22);
    assert_eq!(m.memory_at(0x302), 0x33);
    assert_eq!(m.memory_at(0x303), 0x00);
    assert_eq!(m.index_register(), 0x300);
    steps(&mut m, 4);
    assert_eq!(m.register(0), 0x11);
    assert_eq!(m.register(1), 0x22);
    assert_eq!(m.register(2), 0x33);
}

#[test]
fn memory_quirk_advances_index() {
    let rom = [0xa3, 0x00, 0xf2, 0x55, 0xf1, 0x65];
    let mut m = machine(&rom, Quirks { memory: true, ..quirks() });
    steps(&mut m, 2);
    assert_eq!(m.index_register(), 0x303);
    steps(&mut m, 1);
    assert_eq!(m.index_register(), 0x305);
}

#[test]
fn index_add_and_font_address() {
    let rom = [0x60, 0x0a, 0xa1, 0x00, 0xf0, 0x1e, 0xf0, 0x29];
    let mut m = machine(&rom, quirks());
    steps(&mut m, 3);
    assert_eq!(m.index_register(), 0x10a);
    steps(&mut m, 1);
    assert_eq!(m.index_register(), 0x50 + 10 * 5);
}

#[test]
fn indexed_jump_with_and_without_quirk() {
    let rom = [0x60, 0x02, 0x63, 0x10, 0xb3, 0x00];
    let mut m = machine(&rom, Quirks { jumping: false, ..quirks() });
    steps(&mut m, 3);
    assert_eq!(m.program_counter(), 0x302);
    let mut m = machine(&rom, Quirks { jumping: true, ..quirks() });
    steps(&mut m, 3);
    assert_eq!(m.program_counter(), 0x310);
}

#[test]
fn random_masks_with_drawn_byte() {
    let mut m = machine(&[0xc2, 0xf0, 0xc3, 0x00], quirks());
    assert_eq!(m.teak_with_random(0xab), Ok(()));
    assert_eq!(m.register(2), 0xa0);
    assert_eq!(m.teak(), Ok(()));
    assert_eq!(m.register(3), 0);
}

#[test]
fn random_keeps_within_mask() {
    let mut rom = Vec::new();
    for _ in 0..64 {
        rom.extend_from_slice(&[0xc0, 0x0f]);
    }
    let mut m = machine(&rom, quirks());
    for _ in 0..64 {
        assert_eq!(m.teak(), Ok(()));
        assert!(m.register(0) <= 0x0f);
    }
}

#[test]
fn timers_count_down_and_stop() {
    let rom = [0x60, 0x02, 0xf0, 0x15, 0x61, 0x01, 0xf1, 0x18, 0xf2, 0x07];
    let mut m = machine(&rom, quirks());
    steps(&mut m, 4);
    assert_eq!(m.delay_timer(), 2);
    assert!(m.is_audio_playing());
    m.on_timer();
    assert_eq!(m.delay_timer(), 1);
    assert_eq!(m.sound_timer(), 0);
    assert!(!m.is_audio_playing());
    steps(&mut m, 1);
    assert_eq!(m.register(2), 1);
    m.on_timer();
    m.on_timer();
    assert_eq!(m.delay_timer(), 0);
    assert_eq!(m.sound_timer(), 0);
}

#[test]
fn unknown_instruction_is_reported() {
    let mut m = machine(&[0x81, 0x28], quirks());
    let expected = Instruction { header: 8, nnn: 0x128, nn: 0x28, n: 8, x: 1, y: 2 };
    assert_eq!(m.teak_with_random(0), Err(Error::UnknownInstruction(expected)));
    assert_eq!(m.program_counter(), 0x202);
    assert!(matches!(m.get_state(), State::Running));
    let mut m = machine(&[0xe0, 0x00], quirks());
    assert!(matches!(m.teak_with_random(0), Err(Error::UnknownInstruction(_))));
    let mut m = machine(&[0xf0, 0x00], quirks());
    assert!(matches!(m.teak_with_random(0), Err(Error::UnknownInstruction(_))));
}

#[test]
fn machine_routine_call_is_ignored() {
    let mut m = machine(&[0x01, 0x23], quirks());
    assert_eq!(m.teak_with_random(0), Ok(()));
    assert_eq!(m.program_counter(), 0x202);
}

#[test]
fn paused_and_terminated_machines_do_not_step() {
    let mut m = machine(&[0x60, 0x01], quirks());
    m.toggle_execution();
    assert!(matches!(m.get_state(), State::Paused));
    steps(&mut m, 1);
    assert_eq!(m.program_counter(), 0x200);
    m.toggle_execution();
    assert!(matches!(m.get_state(), State::Running));
    m.terminate();
    m.toggle_execution();
    assert!(matches!(m.get_state(), State::Terminated));
    steps(&mut m, 1);
    assert_eq!(m.register(0), 0);
}

#[test]
fn reset_restores_the_built_state() {
    let rom = [0x60, 0x05, 0xf0, 0x15, 0xa3, 0x00, 0xf0, 0x55, 0xd0, 0x05, 0x22, 0x00];
    let fresh = machine(&rom, quirks());
    let mut m = machine(&rom, quirks());
    steps(&mut m, 6);
    m.key_down(3);
    m.on_timer();
    m.terminate();
    m.reset();
    assert!(matches!(m.get_state(), State::Running));
    assert_eq!(m.program_counter(), fresh.program_counter());
    assert_eq!(m.index_register(), 0);
    assert_eq!(m.delay_timer(), 0);
    assert_eq!(m.sound_timer(), 0);
    assert_eq!(m.stack_depth(), 0);
    assert!(!m.is_key_down(3));
    for r in 0..16 {
        assert_eq!(m.register(r), 0);
    }
    for a in 0..4096 {
        assert_eq!(m.memory_at(a), fresh.memory_at(a));
    }
    assert_eq!(m.get_video_ram(), fresh.get_video_ram());
}

#[test]
fn decode_fields() {
    let i = Instruction::with_opcode(0xd12f);
    assert_eq!(i, Instruction { header: 0xd, nnn: 0x12f, nn: 0x2f, n: 0xf, x: 1, y: 2 });
    assert_eq!(Instruction::with_bytes(0xd1, 0x2f), i);
}

#[test]
fn default_quirks() {
    let q = Quirks::default();
    assert!(q.vf_reset && !q.memory && q.shifting && !q.jumping);
}

#[test]
fn size_square() {
    let s = Size { height: 32usize, width: 64usize };
    assert_eq!(s.square(), 2048);
}

#[test]
fn size_scaling() {
    let d = display_size();
    assert_eq!(d, Size { height: 32, width: 64 });
    let scaled = d * 16;
    assert_eq!(scaled, Size { height: 512, width: 1024 });
}
