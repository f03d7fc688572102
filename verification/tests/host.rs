use chip8emu::driver::{redraws, ticks_due};
use chip8emu::emulator::Chip8;
use chip8emu::{display_chip8, get_default_font, key_index, update_keys, HostKey, KeyEvent, PixelRect};

fn all_keys() -> [HostKey; 16] {
    [
        HostKey::Num1,
        HostKey::Num2,
        HostKey::Num3,
        HostKey::Num4,
        HostKey::Q,
        HostKey::W,
        HostKey::E,
        HostKey::R,
        HostKey::A,
        HostKey::S,
        HostKey::D,
        HostKey::F,
        HostKey::Y,
        HostKey::X,
        HostKey::C,
        HostKey::V,
    ]
}

#[test]
fn host_keys_map_to_the_pad_row_by_row() {
    for (k, key) in all_keys().iter().enumerate() {
        assert_eq!(key_index(*key), k as u8);
    }
    assert_eq!(key_index(HostKey::Num1), 0x0);
    assert_eq!(key_index(HostKey::Q), 0x4);
    assert_eq!(key_index(HostKey::D), 0xA);
    assert_eq!(key_index(HostKey::Y), 0xC);
    assert_eq!(key_index(HostKey::V), 0xF);
}

#[test]
fn update_keys_presses_and_releases() {
    let mut m = Chip8::new();
    let events = vec![
        KeyEvent { key: HostKey::Q, pressed: true },
        KeyEvent { key: HostKey::V, pressed: true },
        KeyEvent { key: HostKey::Num1, pressed: true },
    ];
    assert_eq!(update_keys(&mut m, &events), Ok(()));
    for key in 0..16u8 {
        assert_eq!(m.read_key(key), Ok(key == 0x4 || key == 0xF || key == 0x0));
    }
    let events = vec![KeyEvent { key: HostKey::V, pressed: false }];
    assert_eq!(update_keys(&mut m, &events), Ok(()));
    assert_eq!(m.read_key(0xF), Ok(false));
    assert_eq!(m.read_key(0x4), Ok(true));
}

#[test]
fn update_keys_lets_the_last_event_win() {
    let mut m = Chip8::new();
    let events = vec![
        KeyEvent { key: HostKey::A, pressed: true },
        KeyEvent { key: HostKey::A, pressed: false },
        KeyEvent { key: HostKey::S, pressed: false },
        KeyEvent { key: HostKey::S, pressed: true },
    ];
    assert_eq!(update_keys(&mut m, &events), Ok(()));
    assert_eq!(m.read_key(0x8), Ok(false));
    assert_eq!(m.read_key(0x9), Ok(true));
}

#[test]
fn update_keys_without_events_changes_nothing() {
    let mut m = Chip8::new();
    assert_eq!(m.update_key(5, true), Ok(()));
    assert_eq!(update_keys(&mut m, &Vec::new()), Ok(()));
    for key in 0..16u8 {
        assert_eq!(m.read_key(key), Ok(key == 5));
    }
    assert_eq!(m.get_pc(), 0x200);
}

#[test]
fn update_keys_reaches_the_waiting_instruction() {
    let mut m = Chip8::new();
    assert_eq!(m.exec(0x1202), Ok(()));
    assert_eq!(m.exec(0xF30A), Ok(()));
    assert_eq!(m.get_pc(), 0x200);
    let events = vec![KeyEvent { key: HostKey::X, pressed: true }];
    assert_eq!(update_keys(&mut m, &events), Ok(()));
    assert_eq!(m.exec(0xF30A), Ok(()));
    assert_eq!(m.get_reg(3), Some(0xD));
    assert_eq!(m.get_pc(), 0x200);
}

#[test]
fn display_chip8_gives_one_square_for_each_pixel() {
    let mut grid = [[false; 64]; 32];
    grid[0][0] = true;
    grid[3][5] = true;
    grid[31][63] = true;
    let rects = display_chip8(grid, 10);
    assert_eq!(rects.len(), 64 * 32);
    assert_eq!(rects[0], PixelRect { x: 0, y: 0, size: 10, lit: true });
    assert_eq!(rects[1], PixelRect { x: 10, y: 0, size: 10, lit: false });
    assert_eq!(rects[64], PixelRect { x: 0, y: 10, size: 10, lit: false });
    assert_eq!(rects[3 * 64 + 5], PixelRect { x: 50, y: 30, size: 10, lit: true });
    assert_eq!(rects[31 * 64 + 63], PixelRect { x: 630, y: 310, size: 10, lit: true });
    assert_eq!(rects.iter().filter(|r| r.lit).count(), 3);
}

#[test]
fn display_chip8_places_squares_by_row_and_column() {
    let grid = [[false; 64]; 32];
    let rects = display_chip8(grid, 7);
    for r in 0..32usize {
        for c in 0..64usize {
            let rect = rects[r * 64 + c];
            assert_eq!((rect.x, rect.y, rect.size, rect.lit), (7 * c as i32, 7 * r as i32, 7, false));
        }
    }
}

#[test]
fn display_chip8_takes_the_largest_size_that_fits() {
    let grid = [[true; 64]; 32];
    let size = (i32::MAX / 63) as u32;
    let rects = display_chip8(grid, size);
    assert_eq!(rects[63], PixelRect { x: 63 * size as i32, y: 0, size, lit: true });
    assert_eq!(rects[31 * 64], PixelRect { x: 0, y: 31 * size as i32, size, lit: true });
    let rects = display_chip8(grid, 0);
    assert_eq!(rects[31 * 64 + 63], PixelRect { x: 0, y: 0, size: 0, lit: true });
    let rects = display_chip8(grid, 1);
    assert_eq!(rects[31 * 64 + 63], PixelRect { x: 63, y: 31, size: 1, lit: true });
}

#[test]
fn display_chip8_shows_what_the_machine_drew() {
    let mut m = Chip8::new().load_program(vec![0xA0]);
    assert_eq!(m.exec(0x6102), Ok(()));
    assert_eq!(m.exec(0x6201), Ok(()));
    assert_eq!(m.exec(0xA200), Ok(()));
    assert_eq!(m.exec(0xD121), Ok(()));
    let rects = display_chip8(m.get_display(), 4);
    let lit: Vec<(i32, i32)> = rects.iter().filter(|r| r.lit).map(|r| (r.x, r.y)).collect();
    assert_eq!(lit, vec![(8, 4), (16, 4)]);
}

#[test]
fn default_font_has_five_rows_for_each_digit() {
    let font = get_default_font();
    assert_eq!(font.len(), 80);
    assert_eq!(&font[0..5], &[0xF0, 0x90, 0x90, 0x90, 0xF0]);
    assert_eq!(&font[5..10], &[0x20, 0x60, 0x20, 0x20, 0x70]);
    assert_eq!(&font[35..40], &[0xF0, 0x10, 0x20, 0x40, 0x40]);
    assert_eq!(&font[75..80], &[0xF0, 0x80, 0xF0, 0x80, 0x80]);
    for row in &font {
        assert_eq!(row & 0x0F, 0);
    }
}

#[test]
fn default_font_is_the_usual_table() {
    let expected: [u8; 80] = [
        0xF0, 0x90, 0x90, 0x90, 0xF0, 0x20, 0x60, 0x20, 0x20, 0x70, 0xF0, 0x10, 0xF0, 0x80, 0xF0,
        0xF0, 0x10, 0xF0, 0x10, 0xF0, 0x90, 0x90, 0xF0, 0x10, 0x10, 0xF0, 0x80, 0xF0, 0x10, 0xF0,
        0xF0, 0x80, 0xF0, 0x90, 0xF0, 0xF0, 0x10, 0x20, 0x40, 0x40, 0xF0, 0x90, 0xF0, 0x90, 0xF0,
        0xF0, 0x90, 0xF0, 0x10, 0xF0, 0xF0, 0x90, 0xF0, 0x90, 0x90, 0xE0, 0x90, 0xE0, 0x90, 0xE0,
        0xF0, 0x80, 0x80, 0x80, 0xF0, 0xE0, 0x90, 0x90, 0x90, 0xE0, 0xF0, 0x80, 0xF0, 0x80, 0xF0,
        0xF0, 0x80, 0xF0, 0x80, 0x80,
    ];
    assert_eq!(get_default_font(), expected.to_vec());
}

#[test]
fn default_font_draws_its_digits() {
    let mut m = Chip8::new().load_font(get_default_font(), 0x050);
    // The digit 1 is the second glyph.
    assert_eq!(m.exec(0xA055), Ok(()));
    assert_eq!(m.exec(0xD005), Ok(()));
    let grid = m.get_display();
    let rows: Vec<Vec<usize>> = (0..5)
        .map(|r| (0..8).filter(|c| grid[r][*c]).collect())
        .collect();
    assert_eq!(rows, vec![vec![2], vec![1, 2], vec![2], vec![2], vec![1, 2, 3]]);
}

#[test]
fn redraws_after_draw_and_clear_only() {
    assert!(redraws(0x00E0));
    assert!(redraws(0xD000));
    assert!(redraws(0xD125));
    assert!(redraws(0xDFFF));
    assert!(!redraws(0x00EE));
    assert!(!redraws(0x10E0));
    assert!(!redraws(0x6005));
    assert!(!redraws(0xC0D0));
    assert!(!redraws(0x0000));
    let count = (0..=0xFFFFu16).filter(|w| redraws(*w)).count();
    assert_eq!(count, 0x1000 + 1);
}

#[test]
fn ticks_due_follow_the_clock() {
    assert_eq!(ticks_due(0, 0), 0);
    assert_eq!(ticks_due(16_666_666, 0), 0);
    assert_eq!(ticks_due(16_666_667, 0), 1);
    assert_eq!(ticks_due(1_000_000_000, 0), 60);
    assert_eq!(ticks_due(1_000_000_000, 59), 1);
    assert_eq!(ticks_due(1_000_000_000, 60), 0);
    assert_eq!(ticks_due(1_000_000_000, 61), 0);
    assert_eq!(ticks_due(2_500_000_000, 100), 50);
    assert_eq!(ticks_due(u64::MAX, 0), 1_106_804_644_422);
    assert_eq!(ticks_due(u64::MAX, u64::MAX), 0);
}

#[test]
fn ticks_due_do_not_depend_on_the_instruction_rate() {
    // One second in steps of a 700th and in steps of a 1000th gives sixty
    // ticks either way.
    for rate in [700u64, 1000, 59, 61] {
        let mut done = 0u64;
        for k in 1..=rate {
            let elapsed = k * 1_000_000_000 / rate;
            done += ticks_due(elapsed, done);
        }
        assert_eq!(done, 60);
    }
}
