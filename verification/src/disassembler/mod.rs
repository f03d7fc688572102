//! Instruction words as text, for listings and traces.

pub mod hex;

use vstd::prelude::*;
use vstd::string::*;
use self::hex::{push_hex, upper_hex};
use crate::emulator::state::{address_operand, byte_operand, implemented, nibbles};
use crate::emulator::Chip8;

verus! {

/// `prefix` and the digit of a nibble.
pub open spec fn text_nibble(prefix: Seq<char>, x: u8) -> Seq<char> {
    prefix + upper_hex(x as nat, 1)
}

/// `prefix`, the digit of `x`, a comma and a space, and the two digits of a
/// byte.
pub open spec fn text_nibble_byte(prefix: Seq<char>, x: u8, nn: u8) -> Seq<char> {
    prefix + upper_hex(x as nat, 1) + ", "@ + upper_hex(nn as nat, 2)
}

/// `prefix`, the digit of `x`, `sep`, and the digit of `y`.
pub open spec fn text_two_nibbles(prefix: Seq<char>, x: u8, sep: Seq<char>, y: u8) -> Seq<char> {
    prefix + upper_hex(x as nat, 1) + sep + upper_hex(y as nat, 1)
}

/// `prefix` and the three digits of an address.
pub open spec fn text_address(prefix: Seq<char>, nnn: u16) -> Seq<char> {
    prefix + upper_hex(nnn as nat, 3)
}

/// The mnemonic of an instruction word with its operands, digits in upper
/// case. The words of the extended sets have their names too; a word that
/// is no instruction at all gets a fixed text.
pub open spec fn disassembly(instr: u16) -> Seq<char> {
    let n = nibbles(instr);
    let x = n.1;
    let y = n.2;
    let nn = byte_operand(instr);
    let nnn = address_operand(instr);
    match n {
        (0x0, 0x0, 0xC, _) => text_nibble("SCDOWN "@, n.3),
        (0x0, 0x0, 0xE, 0x0) => "CLS"@,
        (0x0, 0x0, 0xE, 0xE) => "RTS"@,
        (0x0, 0x0, 0xF, 0xB) => "SCRIGHT"@,
        (0x0, 0x0, 0xF, 0xC) => "SCLEFT"@,
        (0x0, 0x0, 0xF, 0xE) => "LOW"@,
        (0x0, 0x0, 0xF, 0xF) => "HIGH"@,
        (0x1, _, _, _) => text_address("JMP "@, nnn),
        (0x2, _, _, _) => text_address("JSR "@, nnn),
        (0x3, _, _, _) => text_nibble_byte("SKEQ V"@, x, nn),
        (0x4, _, _, _) => text_nibble_byte("SKNE V"@, x, nn),
        (0x5, _, _, 0x0) => text_two_nibbles("SKEQ V"@, x, ", V"@, y),
        (0x6, _, _, _) => text_nibble_byte("MOV V"@, x, nn),
        (0x7, _, _, _) => text_nibble_byte("ADD V"@, x, nn),
        (0x8, _, _, 0x0) => text_two_nibbles("MOV V"@, x, ", V"@, y),
        (0x8, _, _, 0x1) => text_two_nibbles("OR V"@, x, ", V"@, y),
        (0x8, _, _, 0x2) => text_two_nibbles("AND V"@, x, ", V"@, y),
        (0x8, _, _, 0x3) => text_two_nibbles("XOR V"@, x, ", V"@, y),
        (0x8, _, _, 0x4) => text_two_nibbles("ADD V"@, x, ", V"@, y),
        (0x8, _, _, 0x5) => text_two_nibbles("SUB V"@, x, ", V"@, y),
        (0x8, _, _, 0x6) => text_two_nibbles("SHR V"@, x, ", V"@, y),
        (0x8, _, _, 0x7) => text_two_nibbles("RSB V"@, x, ", V"@, y),
        (0x8, _, _, 0xE) => text_two_nibbles("SHL V"@, x, ", V"@, y),
        (0x9, _, _, 0x0) => text_two_nibbles("SKNE V"@, x, ", V"@, y),
        (0xA, _, _, _) => text_address("MVI "@, nnn),
        (0xB, _, _, _) => text_address("JMI "@, nnn),
        (0xC, _, _, _) => text_nibble_byte("RAND V"@, x, nn),
        (0xD, _, _, 0x0) => text_two_nibbles("XSPRITE R"@, x, ", R"@, y),
        (0xD, _, _, _) => text_nibble(text_two_nibbles("SPRITE V"@, x, ", V"@, y) + ", "@, n.3),
        (0xE, _, 0x9, 0xE) => text_nibble("SKPR K"@, x),
        (0xE, _, 0xA, 0x1) => text_nibble("SKUP K"@, x),
        (0xF, _, 0x0, 0x7) => text_nibble("GDELAY V"@, x),
        (0xF, _, 0x0, 0xA) => text_nibble("KEY V"@, x),
        (0xF, _, 0x1, 0x5) => text_nibble("SDELAY V"@, x),
        (0xF, _, 0x1, 0x8) => text_nibble("SSOUND V"@, x),
        (0xF, _, 0x1, 0xE) => text_nibble("ADI V"@, x),
        (0xF, _, 0x2, 0x9) => text_nibble("FONT V"@, x),
        (0xF, _, 0x3, 0x0) => text_nibble("XFONT V"@, x),
        (0xF, _, 0x3, 0x3) => text_nibble("BCD V"@, x),
        (0xF, _, 0x5, 0x5) => text_nibble("STR V0-V"@, x),
        (0xF, _, 0x6, 0x5) => text_nibble("LDR V0-V"@, x),
        _ => no_instruction(),
    }
}

/// The text for a word that is no instruction.
pub open spec fn no_instruction() -> Seq<char> {
    "Uninplemented instruction"@
}

/// The disassembler keeps step with the interpreter: a word that the
/// interpreter executes never gets the text for a word that is no
/// instruction. (Words of the extended sets have names too, though the
/// interpreter refuses them.)
pub proof fn lemma_lockstep(instr: u16)
    requires
        implemented(instr),
    ensures
        disassembly(instr) != no_instruction(),
        disassembly(instr).len() > 0,
        disassembly(instr)[0] != 'U',
{
    reveal_strlit("Uninplemented instruction");
    reveal_strlit("CLS");
    reveal_strlit("RTS");
    reveal_strlit("JMP ");
    reveal_strlit("JSR ");
    reveal_strlit("SKEQ V");
    reveal_strlit("SKNE V");
    reveal_strlit("MOV V");
    reveal_strlit("ADD V");
    reveal_strlit("OR V");
    reveal_strlit("AND V");
    reveal_strlit("XOR V");
    reveal_strlit("SUB V");
    reveal_strlit("SHR V");
    reveal_strlit("RSB V");
    reveal_strlit("SHL V");
    reveal_strlit("MVI ");
    reveal_strlit("JMI ");
    reveal_strlit("RAND V");
    reveal_strlit("XSPRITE R");
    reveal_strlit("SPRITE V");
    reveal_strlit("SKPR K");
    reveal_strlit("SKUP K");
    reveal_strlit("GDELAY V");
    reveal_strlit("KEY V");
    reveal_strlit("SDELAY V");
    reveal_strlit("SSOUND V");
    reveal_strlit("ADI V");
    assert(no_instruction()[0] == 'U');
}

fn nibble_text(prefix: &str, x: u8) -> (text: String)
    ensures
        text@ == text_nibble(prefix@, x),
{
    let mut text = String::from_str(prefix);
    push_hex(&mut text, x as u128, 1);
    text
}

fn nibble_byte_text(prefix: &str, x: u8, nn: u8) -> (text: String)
    ensures
        text@ == text_nibble_byte(prefix@, x, nn),
{
    let mut text = String::from_str(prefix);
    push_hex(&mut text, x as u128, 1);
    text.append(", ");
    push_hex(&mut text, nn as u128, 2);
    text
}

fn two_nibbles_text(prefix: &str, x: u8, sep: &str, y: u8) -> (text: String)
    ensures
        text@ == text_two_nibbles(prefix@, x, sep@, y),
{
    let mut text = String::from_str(prefix);
    push_hex(&mut text, x as u128, 1);
    text.append(sep);
    push_hex(&mut text, y as u128, 1);
    text
}

fn address_text(prefix: &str, nnn: u16) -> (text: String)
    ensures
        text@ == text_address(prefix@, nnn),
{
    let mut text = String::from_str(prefix);
    push_hex(&mut text, nnn as u128, 3);
    text
}

/// The text of one instruction word.
pub fn disassemble(instr: u16) -> (text: String)
    ensures
        text@ == disassembly(instr),
{
    let n: (u8, u8, u8, u8) = Chip8::decode_to_nibbles(instr);
    let x: u8 = n.1;
    let y: u8 = n.2;
    let nn: u8 = Chip8::decode_byte_operand(instr);
    let nnn: u16 = Chip8::decode_address_operand(instr);
    match n {
        (0x0, 0x0, 0xC, _) => nibble_text("SCDOWN ", n.3),
        (0x0, 0x0, 0xE, 0x0) => String::from_str("CLS"),
        (0x0, 0x0, 0xE, 0xE) => String::from_str("RTS"),
        (0x0, 0x0, 0xF, 0xB) => String::from_str("SCRIGHT"),
        (0x0, 0x0, 0xF, 0xC) => String::from_str("SCLEFT"),
        (0x0, 0x0, 0xF, 0xE) => String::from_str("LOW"),
        (0x0, 0x0, 0xF, 0xF) => String::from_str("HIGH"),
        (0x1, _, _, _) => address_text("JMP ", nnn),
        (0x2, _, _, _) => address_text("JSR ", nnn),
        (0x3, _, _, _) => nibble_byte_text("SKEQ V", x, nn),
        (0x4, _, _, _) => nibble_byte_text("SKNE V", x, nn),
        (0x5, _, _, 0x0) => two_nibbles_text("SKEQ V", x, ", V", y),
        (0x6, _, _, _) => nibble_byte_text("MOV V", x, nn),
        (0x7, _, _, _) => nibble_byte_text("ADD V", x, nn),
        (0x8, _, _, 0x0) => two_nibbles_text("MOV V", x, ", V", y),
        (0x8, _, _, 0x1) => two_nibbles_text("OR V", x, ", V", y),
        (0x8, _, _, 0x2) => two_nibbles_text("AND V", x, ", V", y),
        (0x8, _, _, 0x3) => two_nibbles_text("XOR V", x, ", V", y),
        (0x8, _, _, 0x4) => two_nibbles_text("ADD V", x, ", V", y),
        (0x8, _, _, 0x5) => two_nibbles_text("SUB V", x, ", V", y),
        (0x8, _, _, 0x6) => two_nibbles_text("SHR V", x, ", V", y),
        (0x8, _, _, 0x7) => two_nibbles_text("RSB V", x, ", V", y),
        (0x8, _, _, 0xE) => two_nibbles_text("SHL V", x, ", V", y),
        (0x9, _, _, 0x0) => two_nibbles_text("SKNE V", x, ", V", y),
        (0xA, _, _, _) => address_text("MVI ", nnn),
        (0xB, _, _, _) => address_text("JMI ", nnn),
        (0xC, _, _, _) => nibble_byte_text("RAND V", x, nn),
        (0xD, _, _, 0x0) => two_nibbles_text("XSPRITE R", x, ", R", y),
        (0xD, _, _, _) => {
            let mut text = two_nibbles_text("SPRITE V", x, ", V", y);
            text.append(", ");
            push_hex(&mut text, n.3 as u128, 1);
            text
        },
        (0xE, _, 0x9, 0xE) => nibble_text("SKPR K", x),
        (0xE, _, 0xA, 0x1) => nibble_text("SKUP K", x),
        (0xF, _, 0x0, 0x7) => nibble_text("GDELAY V", x),
        (0xF, _, 0x0, 0xA) => nibble_text("KEY V", x),
        (0xF, _, 0x1, 0x5) => nibble_text("SDELAY V", x),
        (0xF, _, 0x1, 0x8) => nibble_text("SSOUND V", x),
        (0xF, _, 0x1, 0xE) => nibble_text("ADI V", x),
        (0xF, _, 0x2, 0x9) => nibble_text("FONT V", x),
        (0xF, _, 0x3, 0x0) => nibble_text("XFONT V", x),
        (0xF, _, 0x3, 0x3) => nibble_text("BCD V", x),
        (0xF, _, 0x5, 0x5) => nibble_text("STR V0-V", x),
        (0xF, _, 0x6, 0x5) => nibble_text("LDR V0-V", x),
        _ => String::from_str("Uninplemented instruction"),
    }
}

/// One line of a listing: the address of word number `k`, the word, and its
/// text.
pub open spec fn listing_line(k: nat, word: u16) -> Seq<char> {
    "0x"@ + upper_hex(2 * k, 4) + "\t0x"@ + upper_hex(word as nat, 4) + " -> "@ + disassembly(word)
        + " "@
}

/// The listing of a program: one line for each word, with a line break
/// between two lines.
pub open spec fn listing(words: Seq<u16>) -> Seq<char>
    decreases words.len(),
{
    if words.len() == 0 {
        Seq::empty()
    } else if words.len() == 1 {
        listing_line(0, words[0])
    } else {
        listing(words.drop_last()) + "\n"@ + listing_line((words.len() - 1) as nat, words.last())
    }
}

/// The listing of a program, each word with the address it has when the
/// first word is at address zero.
pub fn disassemble_all(instr_vec: &Vec<u16>) -> (text: String)
    ensures
        text@ == listing(instr_vec@),
{
    let mut text = String::new();
    let mut k: usize = 0;
    while k < instr_vec.len()
        invariant
            k <= instr_vec.len(),
            text@ == listing(instr_vec@.take(k as int)),
        decreases instr_vec.len() - k,
    {
        let ghost before = text@;
        let word: u16 = instr_vec[k];
        if k > 0 {
            text.append("\n");
        }
        text.append("0x");
        push_hex(&mut text, (k as u128) * 2, 4);
        text.append("\t0x");
        push_hex(&mut text, word as u128, 4);
        text.append(" -> ");
        let mnemonic = disassemble(word);
        text.append(mnemonic.as_str());
        text.append(" ");
        proof {
            let next = instr_vec@.take(k + 1);
            assert(next.drop_last() =~= instr_vec@.take(k as int));
            assert(next.last() == word);
            if k > 0 {
                assert(text@ =~= before + "\n"@ + listing_line(k as nat, word));
            } else {
                assert(text@ =~= listing_line(0, word));
            }
        }
        k = k + 1;
    }
    assert(instr_vec@.take(k as int) =~= instr_vec@);
    text
}

/// The words that `bytes` holds, two bytes to a word and the first byte of
/// each pair in the high half. A last byte without a partner is the high
/// half of a word whose low half is zero.
pub open spec fn paired(bytes: Seq<u8>) -> Seq<u16> {
    Seq::new(
        ((bytes.len() + 1) / 2) as nat,
        |k: int|
            if 2 * k + 1 < bytes.len() {
                ((bytes[2 * k] as u16) << 8) | (bytes[2 * k + 1] as u16)
            } else {
                (bytes[2 * k] as u16) << 8
            },
    )
}

/// Pairs the bytes of a program into instruction words.
pub fn pair_bytes(vec: &Vec<u8>) -> (words: Vec<u16>)
    ensures
        words@ == paired(vec@),
{
    let mut new_bytes: Vec<u16> = Vec::new();
    let count: usize = vec.len() / 2 + vec.len() % 2;
    let mut k: usize = 0;
    while k < count
        invariant
            k <= count,
            count == (vec.len() + 1) / 2,
            new_bytes@ == paired(vec@).take(k as int),
        decreases count - k,
    {
        let b1: u8 = vec[2 * k];
        if 2 * k + 1 < vec.len() {
            let b2: u8 = vec[2 * k + 1];
            new_bytes.push(((b1 as u16) << 8) | b2 as u16);
        } else {
            new_bytes.push((b1 as u16) << 8);
        }
        k = k + 1;
        assert(new_bytes@ =~= paired(vec@).take(k as int));
    }
    assert(paired(vec@).take(k as int) =~= paired(vec@));
    new_bytes
}

} // verus!
