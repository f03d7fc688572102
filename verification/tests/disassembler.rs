use chip8emu::disassembler::hex::{digit_text, push_hex};
use chip8emu::disassembler::{disassemble, disassemble_all, pair_bytes};
use chip8emu::emulator::{Chip8, Chip8Error};

#[test]
fn disassemble_names_the_system_words() {
    assert_eq!(disassemble(0x00E0), "CLS");
    assert_eq!(disassemble(0x00EE), "RTS");
    assert_eq!(disassemble(0x00C3), "SCDOWN 3");
    assert_eq!(disassemble(0x00CF), "SCDOWN F");
    assert_eq!(disassemble(0x00FB), "SCRIGHT");
    assert_eq!(disassemble(0x00FC), "SCLEFT");
    assert_eq!(disassemble(0x00FE), "LOW");
    assert_eq!(disassemble(0x00FF), "HIGH");
}

#[test]
fn disassemble_prints_addresses_with_three_digits() {
    assert_eq!(disassemble(0x1234), "JMP 234");
    assert_eq!(disassemble(0x1005), "JMP 005");
    assert_eq!(disassemble(0x2ABC), "JSR ABC");
    assert_eq!(disassemble(0x2000), "JSR 000");
    assert_eq!(disassemble(0xA200), "MVI 200");
    assert_eq!(disassemble(0xAFFF), "MVI FFF");
    assert_eq!(disassemble(0xB00F), "JMI 00F");
}

#[test]
fn disassemble_prints_bytes_with_two_digits() {
    assert_eq!(disassemble(0x6005), "MOV V0, 05");
    assert_eq!(disassemble(0x6AFF), "MOV VA, FF");
    assert_eq!(disassemble(0x3142), "SKEQ V1, 42");
    assert_eq!(disassemble(0x4F00), "SKNE VF, 00");
    assert_eq!(disassemble(0x7B0C), "ADD VB, 0C");
    assert_eq!(disassemble(0xC30F), "RAND V3, 0F");
}

#[test]
fn disassemble_prints_register_pairs() {
    assert_eq!(disassemble(0x5120), "SKEQ V1, V2");
    assert_eq!(disassemble(0x8AB0), "MOV VA, VB");
    assert_eq!(disassemble(0x8121), "OR V1, V2");
    assert_eq!(disassemble(0x8122), "AND V1, V2");
    assert_eq!(disassemble(0x8123), "XOR V1, V2");
    assert_eq!(disassemble(0x8124), "ADD V1, V2");
    assert_eq!(disassemble(0x8125), "SUB V1, V2");
    assert_eq!(disassemble(0x8127), "RSB V1, V2");
    assert_eq!(disassemble(0x9EF0), "SKNE VE, VF");
}

#[test]
fn disassemble_names_shifts_with_both_registers() {
    assert_eq!(disassemble(0x8306), "SHR V3, V0");
    assert_eq!(disassemble(0x830E), "SHL V3, V0");
    assert_eq!(disassemble(0x8126), "SHR V1, V2");
    assert_eq!(disassemble(0x812E), "SHL V1, V2");
    assert_eq!(disassemble(0x8AF6), "SHR VA, VF");
    assert_eq!(disassemble(0x8FAE), "SHL VF, VA");
}

#[test]
fn disassemble_names_every_word_that_the_machine_executes() {
    for instr in 0..=0xFFFFu16 {
        let mut m = Chip8::new();
        if m.exec_with_random(instr, 0) != Err(Chip8Error::UnimplementedOpcode) {
            let text = disassemble(instr);
            assert_ne!(text, "Uninplemented instruction", "word {:04X}", instr);
            assert!(!text.starts_with('U'));
        }
    }
}

#[test]
fn disassemble_names_the_extended_words_that_the_machine_refuses() {
    for (instr, text) in [
        (0x00C1u16, "SCDOWN 1"),
        (0x00FB, "SCRIGHT"),
        (0x00FF, "HIGH"),
        (0xD120, "XSPRITE R1, R2"),
        (0xF129, "FONT V1"),
        (0xF133, "BCD V1"),
        (0xF155, "STR V0-V1"),
        (0xF165, "LDR V0-V1"),
    ] {
        assert_eq!(disassemble(instr), text);
    }
    let mut m = Chip8::new();
    assert_eq!(m.exec(0x00C1), Err(Chip8Error::UnimplementedOpcode));
    assert_eq!(m.exec(0xF129), Err(Chip8Error::UnimplementedOpcode));
}

#[test]
fn disassemble_tells_the_two_sprite_words_apart() {
    assert_eq!(disassemble(0xD125), "SPRITE V1, V2, 5");
    assert_eq!(disassemble(0xDABF), "SPRITE VA, VB, F");
    assert_eq!(disassemble(0xD120), "XSPRITE R1, R2");
}

#[test]
fn disassemble_names_the_key_and_timer_words() {
    assert_eq!(disassemble(0xE19E), "SKPR K1");
    assert_eq!(disassemble(0xEFA1), "SKUP KF");
    assert_eq!(disassemble(0xF207), "GDELAY V2");
    assert_eq!(disassemble(0xF30A), "KEY V3");
    assert_eq!(disassemble(0xF415), "SDELAY V4");
    assert_eq!(disassemble(0xF518), "SSOUND V5");
    assert_eq!(disassemble(0xF61E), "ADI V6");
    assert_eq!(disassemble(0xF729), "FONT V7");
    assert_eq!(disassemble(0xF830), "XFONT V8");
    assert_eq!(disassemble(0xF933), "BCD V9");
    assert_eq!(disassemble(0xFA55), "STR V0-VA");
    assert_eq!(disassemble(0xFB65), "LDR V0-VB");
}

#[test]
fn disassemble_has_one_text_for_all_other_words() {
    for instr in [0x0000u16, 0x0123, 0x5001, 0x8008, 0x9001, 0xE000, 0xE19F, 0xF000, 0xFFFF] {
        assert_eq!(disassemble(instr), "Uninplemented instruction");
    }
}

#[test]
fn disassemble_all_lists_words_with_their_addresses() {
    let listing = disassemble_all(&vec![0x6005, 0x00EE]);
    assert_eq!(listing, "0x0000\t0x6005 -> MOV V0, 05 \n0x0002\t0x00EE -> RTS ");
}

#[test]
fn disassemble_all_of_one_word_has_no_line_break() {
    assert_eq!(disassemble_all(&vec![0xA200]), "0x0000\t0xA200 -> MVI 200 ");
}

#[test]
fn disassemble_all_of_no_words_is_empty() {
    assert_eq!(disassemble_all(&Vec::new()), "");
}

#[test]
fn disassemble_all_counts_addresses_in_steps_of_two() {
    let words = vec![0x00E0u16; 10];
    let listing = disassemble_all(&words);
    let lines: Vec<&str> = listing.split('\n').collect();
    assert_eq!(lines.len(), 10);
    assert_eq!(lines[0], "0x0000\t0x00E0 -> CLS ");
    assert_eq!(lines[7], "0x000E\t0x00E0 -> CLS ");
    assert_eq!(lines[8], "0x0010\t0x00E0 -> CLS ");
    assert_eq!(lines[9], "0x0012\t0x00E0 -> CLS ");
}

#[test]
fn disassemble_all_gives_long_addresses_all_their_digits() {
    let words = vec![0x00EEu16; 0x8001];
    let listing = disassemble_all(&words);
    let lines: Vec<&str> = listing.split('\n').collect();
    assert_eq!(lines.len(), 0x8001);
    assert_eq!(lines[0x7FFF], "0xFFFE\t0x00EE -> RTS ");
    assert_eq!(lines[0x8000], "0x10000\t0x00EE -> RTS ");
}

#[test]
fn disassemble_all_matches_the_standard_formatting() {
    let words: Vec<u16> = vec![0x1234, 0x6A0F, 0x8AB4, 0xD125, 0xF10A, 0x0000, 0xFFFF];
    let mut lines = Vec::new();
    for (k, w) in words.iter().enumerate() {
        lines.push(format!("0x{:04X}\t0x{:04X} -> {} ", 2 * k, w, disassemble(*w)));
    }
    assert_eq!(disassemble_all(&words), lines.join("\n"));
}

#[test]
fn disassemble_matches_the_standard_formatting_of_operands() {
    for instr in 0..=0xFFFFu16 {
        let text = disassemble(instr);
        let x = (instr >> 8) & 0xF;
        match instr >> 12 {
            0x1 => assert_eq!(text, format!("JMP {:03X}", instr & 0xFFF)),
            0x6 => assert_eq!(text, format!("MOV V{:01X}, {:02X}", x, instr & 0xFF)),
            0xC => assert_eq!(text, format!("RAND V{:01X}, {:02X}", x, instr & 0xFF)),
            _ => assert!(!text.is_empty()),
        }
    }
}

#[test]
fn pair_bytes_joins_two_bytes_to_a_word() {
    assert_eq!(pair_bytes(&vec![0x12, 0x34, 0xAB, 0xCD]), vec![0x1234, 0xABCD]);
    assert_eq!(pair_bytes(&vec![0x00, 0xFF]), vec![0x00FF]);
    assert_eq!(pair_bytes(&vec![0xFF, 0x00]), vec![0xFF00]);
}

#[test]
fn pair_bytes_puts_a_lone_byte_in_the_high_half() {
    assert_eq!(pair_bytes(&vec![0x12, 0x34, 0xAB]), vec![0x1234, 0xAB00]);
    assert_eq!(pair_bytes(&vec![0x7F]), vec![0x7F00]);
}

#[test]
fn pair_bytes_of_nothing_is_nothing() {
    assert_eq!(pair_bytes(&Vec::new()), Vec::<u16>::new());
}

#[test]
fn pair_bytes_gives_half_as_many_words_rounded_up() {
    for len in 0..40usize {
        let bytes: Vec<u8> = (0..len).map(|k| k as u8).collect();
        let words = pair_bytes(&bytes);
        assert_eq!(words.len(), (len + 1) / 2);
        for (k, w) in words.iter().enumerate() {
            let low = if 2 * k + 1 < len { bytes[2 * k + 1] as u16 } else { 0 };
            assert_eq!(*w, ((bytes[2 * k] as u16) << 8) | low);
        }
    }
}

#[test]
fn push_hex_fills_with_zeros_up_to_the_width() {
    let mut text = String::from("x");
    push_hex(&mut text, 0x5, 1);
    assert_eq!(text, "x5");
    push_hex(&mut text, 0x5, 4);
    assert_eq!(text, "x50005");
    let mut text = String::new();
    push_hex(&mut text, 0, 0);
    assert_eq!(text, "0");
    let mut text = String::new();
    push_hex(&mut text, 0, 3);
    assert_eq!(text, "000");
    let mut text = String::new();
    push_hex(&mut text, 0xABC, 2);
    assert_eq!(text, "ABC");
}

#[test]
fn push_hex_agrees_with_the_standard_formatting() {
    for v in [0u128, 1, 9, 10, 15, 16, 255, 256, 0xBEEF, 0x10000, 0xDEAD_BEEF, u64::MAX as u128, u128::MAX] {
        for width in 0..6usize {
            let mut text = String::new();
            push_hex(&mut text, v, width);
            assert_eq!(text, format!("{:0width$X}", v, width = width));
        }
    }
}

#[test]
fn digit_text_gives_upper_case_digits() {
    let digits: Vec<&str> = (0..16u8).map(digit_text).collect();
    assert_eq!(digits.concat(), "0123456789ABCDEF");
}
