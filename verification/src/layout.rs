//! The bit layouts of the six instruction formats.
//!
//! The opcode occupies bits 0 to 6 of a word. Every other field is shifted
//! to its place and the fields are combined with bitwise or. For fields
//! that fit their widths no two of them overlap, which the lemmas at the end
//! of this file state by reading each field back out of the word.

use vstd::prelude::*;

verus! {

/// The opcode shared by all register-register instructions.
pub const OPCODE_R: u32 = 0b0110011;

/// The destination register of a jump that names only its label: `x1`, the
/// return address register.
pub const RETURN_ADDRESS: u32 = 1;

/// The 32-bit two's complement pattern of an integer.
pub open spec fn twos_complement(v: int) -> u32 {
    (v % 0x1_0000_0000) as u32
}

/// The byte distance from the instruction at index `current` to the one at
/// index `target`, every instruction being four bytes long.
pub open spec fn label_offset(target: int, current: int) -> int {
    (target - current) * 4
}

/// R format: `rd`, `rs1`, `rs2` with `funct3` and `funct7`.
pub open spec fn r_word(funct7: u32, funct3: u32, rd: u32, rs1: u32, rs2: u32) -> u32 {
    OPCODE_R | rd << 7 | funct3 << 12 | rs1 << 15 | rs2 << 20 | funct7 << 25
}

/// I format: `rd`, `rs1` and a 12-bit immediate in the top bits.
pub open spec fn i_word(opcode: u32, funct3: u32, rd: u32, rs1: u32, imm: u32) -> u32 {
    opcode | rd << 7 | funct3 << 12 | rs1 << 15 | imm << 20
}

/// S format: `rs1`, `rs2` and a 12-bit immediate split into `imm[4:0]` at
/// bit 7 and `imm[11:5]` at bit 25.
pub open spec fn s_word(opcode: u32, funct3: u32, rs1: u32, rs2: u32, imm: u32) -> u32 {
    opcode | (imm & 0x1f) << 7 | funct3 << 12 | rs1 << 15 | rs2 << 20 | (imm >> 5 & 0x7f) << 25
}

/// B format: `rs1`, `rs2` and a 13-bit offset whose lowest bit is not
/// stored: `imm[11]` at bit 7, `imm[4:1]` at bit 8, `imm[10:5]` at bit 25
/// and `imm[12]` at bit 31.
pub open spec fn b_word(opcode: u32, funct3: u32, rs1: u32, rs2: u32, imm: u32) -> u32 {
    opcode | (imm >> 11 & 0x1) << 7 | (imm >> 1 & 0xf) << 8 | funct3 << 12 | rs1 << 15 | rs2
        << 20 | (imm >> 5 & 0x3f) << 25 | (imm >> 12 & 0x1) << 31
}

/// U format: `rd` and a 20-bit immediate in the top bits.
pub open spec fn u_word(opcode: u32, rd: u32, imm: u32) -> u32 {
    opcode | rd << 7 | imm << 12
}

/// J format: `rd` and a 21-bit offset whose lowest bit is not stored:
/// `imm[19:12]` at bit 12, `imm[11]` at bit 20, `imm[10:1]` at bit 21 and
/// `imm[20]` at bit 31.
pub open spec fn j_word(opcode: u32, rd: u32, imm: u32) -> u32 {
    opcode | rd << 7 | (imm >> 12 & 0xff) << 12 | (imm >> 11 & 0x1) << 20 | (imm >> 1 & 0x3ff)
        << 21 | (imm >> 20 & 0x1) << 31
}

/// Bits 0 to 6 of a word.
pub open spec fn opcode_of(word: u32) -> u32 {
    word & 0x7f
}

/// Bits 7 to 11 of a word.
pub open spec fn rd_of(word: u32) -> u32 {
    word >> 7 & 0x1f
}

/// Bits 12 to 14 of a word.
pub open spec fn funct3_of(word: u32) -> u32 {
    word >> 12 & 0x7
}

/// Bits 15 to 19 of a word.
pub open spec fn rs1_of(word: u32) -> u32 {
    word >> 15 & 0x1f
}

/// Bits 20 to 24 of a word.
pub open spec fn rs2_of(word: u32) -> u32 {
    word >> 20 & 0x1f
}

/// Bits 25 to 31 of a word.
pub open spec fn funct7_of(word: u32) -> u32 {
    word >> 25 & 0x7f
}

/// The integer that the pattern of a field stands for in two's complement,
/// given `half`, the weight of the field's sign bit: the patterns from
/// `half` on stand for the negative numbers.
pub open spec fn signed_field(pattern: u32, half: int) -> int {
    if pattern >= half {
        pattern - 2 * half
    } else {
        pattern as int
    }
}

/// The immediate of an I format word, sign-extended from 12 bits.
pub open spec fn i_immediate_of(word: u32) -> int {
    signed_field(word >> 20, 0x800)
}

/// The immediate of an S format word, sign-extended from 12 bits.
pub open spec fn s_immediate_of(word: u32) -> int {
    signed_field((word >> 25 & 0x7f) << 5 | (word >> 7 & 0x1f), 0x800)
}

/// The offset of a B format word, sign-extended from 13 bits.
pub open spec fn b_offset_of(word: u32) -> int {
    signed_field(
        (word >> 31 & 0x1) << 12 | (word >> 7 & 0x1) << 11 | (word >> 25 & 0x3f) << 5 | (word >> 8
            & 0xf) << 1,
        0x1000,
    )
}

/// The immediate of a U format word: its top 20 bits.
pub open spec fn u_immediate_of(word: u32) -> u32 {
    word >> 12
}

/// The offset of a J format word, sign-extended from 21 bits.
pub open spec fn j_offset_of(word: u32) -> int {
    signed_field(
        (word >> 31 & 0x1) << 20 | (word >> 12 & 0xff) << 12 | (word >> 20 & 0x1) << 11 | (word
            >> 21 & 0x3ff) << 1,
        0x10_0000,
    )
}

/// The pattern of a 32-bit signed integer, bit for bit.
pub(crate) fn pattern_of(imm: i32) -> (pattern: u32)
    ensures
        pattern == twos_complement(imm as int),
{
    assert(imm as u32 == (imm as int % 0x1_0000_0000) as u32) by (bit_vector);
    #[verifier::truncate]
    (imm as u32)
}

/// The pattern of the byte distance between two instructions, given their
/// indices.
pub(crate) fn offset_pattern(target: usize, current: usize) -> (pattern: u32)
    ensures
        pattern == twos_complement(label_offset(target as int, current as int)),
{
    let offset: i128 = (target as i128 - current as i128) * 4;
    assert(offset & 0xffff_ffff == offset % 0x1_0000_0000) by (bit_vector);
    (offset & 0xffff_ffff) as u32
}

/// Reading an R format word gives back the fields it was made of.
pub proof fn lemma_r_word_fields(funct7: u32, funct3: u32, rd: u32, rs1: u32, rs2: u32)
    requires
        funct7 < 128,
        funct3 < 8,
        rd < 32,
        rs1 < 32,
        rs2 < 32,
    ensures
        opcode_of(r_word(funct7, funct3, rd, rs1, rs2)) == OPCODE_R,
        rd_of(r_word(funct7, funct3, rd, rs1, rs2)) == rd,
        funct3_of(r_word(funct7, funct3, rd, rs1, rs2)) == funct3,
        rs1_of(r_word(funct7, funct3, rd, rs1, rs2)) == rs1,
        rs2_of(r_word(funct7, funct3, rd, rs1, rs2)) == rs2,
        funct7_of(r_word(funct7, funct3, rd, rs1, rs2)) == funct7,
{
    let w = 0b0110011u32 | rd << 7 | funct3 << 12 | rs1 << 15 | rs2 << 20 | funct7 << 25;
    assert(w & 0x7f == 0b0110011 && w >> 7 & 0x1f == rd && w >> 12 & 0x7 == funct3 && w >> 15
        & 0x1f == rs1 && w >> 20 & 0x1f == rs2 && w >> 25 & 0x7f == funct7) by (bit_vector)
        requires
            w == 0b0110011u32 | rd << 7 | funct3 << 12 | rs1 << 15 | rs2 << 20 | funct7 << 25,
            funct7 < 128,
            funct3 < 8,
            rd < 32,
            rs1 < 32,
            rs2 < 32,
    ;
}

/// Reading an I format word gives back its fields, and its immediate
/// wherever that fits 12 bits.
pub proof fn lemma_i_word_fields(opcode: u32, funct3: u32, rd: u32, rs1: u32, imm: int)
    requires
        opcode < 128,
        funct3 < 8,
        rd < 32,
        rs1 < 32,
        -2048 <= imm < 2048,
    ensures
        opcode_of(i_word(opcode, funct3, rd, rs1, twos_complement(imm))) == opcode,
        rd_of(i_word(opcode, funct3, rd, rs1, twos_complement(imm))) == rd,
        funct3_of(i_word(opcode, funct3, rd, rs1, twos_complement(imm))) == funct3,
        rs1_of(i_word(opcode, funct3, rd, rs1, twos_complement(imm))) == rs1,
        i_immediate_of(i_word(opcode, funct3, rd, rs1, twos_complement(imm))) == imm,
{
    let p = twos_complement(imm);
    let w = opcode | rd << 7 | funct3 << 12 | rs1 << 15 | p << 20;
    assert(w & 0x7f == opcode && w >> 7 & 0x1f == rd && w >> 12 & 0x7 == funct3 && w >> 15 & 0x1f
        == rs1 && (p < 0x800 ==> w >> 20 == p) && (p >= 0xffff_f800 ==> w >> 20 == p
        - 0xffff_f000)) by (bit_vector)
        requires
            w == opcode | rd << 7 | funct3 << 12 | rs1 << 15 | p << 20,
            opcode < 128,
            funct3 < 8,
            rd < 32,
            rs1 < 32,
    ;
}

/// Reading an S format word gives back its fields, and its immediate
/// wherever that fits 12 bits.
pub proof fn lemma_s_word_fields(opcode: u32, funct3: u32, rs1: u32, rs2: u32, imm: int)
    requires
        opcode < 128,
        funct3 < 8,
        rs1 < 32,
        rs2 < 32,
        -2048 <= imm < 2048,
    ensures
        opcode_of(s_word(opcode, funct3, rs1, rs2, twos_complement(imm))) == opcode,
        funct3_of(s_word(opcode, funct3, rs1, rs2, twos_complement(imm))) == funct3,
        rs1_of(s_word(opcode, funct3, rs1, rs2, twos_complement(imm))) == rs1,
        rs2_of(s_word(opcode, funct3, rs1, rs2, twos_complement(imm))) == rs2,
        s_immediate_of(s_word(opcode, funct3, rs1, rs2, twos_complement(imm))) == imm,
{
    let p = twos_complement(imm);
    let w = opcode | (p & 0x1f) << 7 | funct3 << 12 | rs1 << 15 | rs2 << 20 | (p >> 5 & 0x7f)
        << 25;
    let f = (w >> 25 & 0x7f) << 5 | (w >> 7 & 0x1f);
    assert(w & 0x7f == opcode && w >> 12 & 0x7 == funct3 && w >> 15 & 0x1f == rs1 && w >> 20
        & 0x1f == rs2 && (p < 0x800 ==> f == p) && (p >= 0xffff_f800 ==> f == p - 0xffff_f000))
        by (bit_vector)
        requires
            w == opcode | (p & 0x1f) << 7 | funct3 << 12 | rs1 << 15 | rs2 << 20 | (p >> 5
                & 0x7f) << 25,
            f == (w >> 25 & 0x7f) << 5 | (w >> 7 & 0x1f),
            opcode < 128,
            funct3 < 8,
            rs1 < 32,
            rs2 < 32,
    ;
}

/// Reading a B format word gives back its fields, and its offset wherever
/// that is even and fits 13 bits.
pub proof fn lemma_b_word_fields(opcode: u32, funct3: u32, rs1: u32, rs2: u32, offset: int)
    requires
        opcode < 128,
        funct3 < 8,
        rs1 < 32,
        rs2 < 32,
        -4096 <= offset < 4096,
        offset % 2 == 0,
    ensures
        opcode_of(b_word(opcode, funct3, rs1, rs2, twos_complement(offset))) == opcode,
        funct3_of(b_word(opcode, funct3, rs1, rs2, twos_complement(offset))) == funct3,
        rs1_of(b_word(opcode, funct3, rs1, rs2, twos_complement(offset))) == rs1,
        rs2_of(b_word(opcode, funct3, rs1, rs2, twos_complement(offset))) == rs2,
        b_offset_of(b_word(opcode, funct3, rs1, rs2, twos_complement(offset))) == offset,
{
    let p = twos_complement(offset);
    let w = opcode | (p >> 11 & 0x1) << 7 | (p >> 1 & 0xf) << 8 | funct3 << 12 | rs1 << 15 | rs2
        << 20 | (p >> 5 & 0x3f) << 25 | (p >> 12 & 0x1) << 31;
    let f = (w >> 31 & 0x1) << 12 | (w >> 7 & 0x1) << 11 | (w >> 25 & 0x3f) << 5 | (w >> 8 & 0xf)
        << 1;
    assert(p % 2 == 0);
    assert(w & 0x7f == opcode && w >> 12 & 0x7 == funct3 && w >> 15 & 0x1f == rs1 && w >> 20
        & 0x1f == rs2 && (p < 0x1000 ==> f == p) && (p >= 0xffff_f000 ==> f == p - 0xffff_e000))
        by (bit_vector)
        requires
            w == opcode | (p >> 11 & 0x1) << 7 | (p >> 1 & 0xf) << 8 | funct3 << 12 | rs1 << 15
                | rs2 << 20 | (p >> 5 & 0x3f) << 25 | (p >> 12 & 0x1) << 31,
            f == (w >> 31 & 0x1) << 12 | (w >> 7 & 0x1) << 11 | (w >> 25 & 0x3f) << 5 | (w >> 8
                & 0xf) << 1,
            opcode < 128,
            funct3 < 8,
            rs1 < 32,
            rs2 < 32,
            p % 2 == 0,
    ;
}

/// Reading a U format word gives back its fields, and its immediate
/// wherever that fits 20 bits.
pub proof fn lemma_u_word_fields(opcode: u32, rd: u32, imm: u32)
    requires
        opcode < 128,
        rd < 32,
        imm < 0x10_0000,
    ensures
        opcode_of(u_word(opcode, rd, imm)) == opcode,
        rd_of(u_word(opcode, rd, imm)) == rd,
        u_immediate_of(u_word(opcode, rd, imm)) == imm,
{
    let w = opcode | rd << 7 | imm << 12;
    assert(w & 0x7f == opcode && w >> 7 & 0x1f == rd && w >> 12 == imm) by (bit_vector)
        requires
            w == opcode | rd << 7 | imm << 12,
            opcode < 128,
            rd < 32,
            imm < 0x10_0000,
    ;
}

/// Reading a J format word gives back its fields, and its offset wherever
/// that is even and fits 21 bits.
pub proof fn lemma_j_word_fields(opcode: u32, rd: u32, offset: int)
    requires
        opcode < 128,
        rd < 32,
        -0x10_0000 <= offset < 0x10_0000,
        offset % 2 == 0,
    ensures
        opcode_of(j_word(opcode, rd, twos_complement(offset))) == opcode,
        rd_of(j_word(opcode, rd, twos_complement(offset))) == rd,
        j_offset_of(j_word(opcode, rd, twos_complement(offset))) == offset,
{
    let p = twos_complement(offset);
    let w = opcode | rd << 7 | (p >> 12 & 0xff) << 12 | (p >> 11 & 0x1) << 20 | (p >> 1 & 0x3ff)
        << 21 | (p >> 20 & 0x1) << 31;
    let f = (w >> 31 & 0x1) << 20 | (w >> 12 & 0xff) << 12 | (w >> 20 & 0x1) << 11 | (w >> 21
        & 0x3ff) << 1;
    assert(p % 2 == 0);
    assert(w & 0x7f == opcode && w >> 7 & 0x1f == rd && (p < 0x10_0000 ==> f == p) && (p
        >= 0xfff0_0000 ==> f == p - 0xffe0_0000)) by (bit_vector)
        requires
            w == opcode | rd << 7 | (p >> 12 & 0xff) << 12 | (p >> 11 & 0x1) << 20 | (p >> 1
                & 0x3ff) << 21 | (p >> 20 & 0x1) << 31,
            f == (w >> 31 & 0x1) << 20 | (w >> 12 & 0xff) << 12 | (w >> 20 & 0x1) << 11 | (w
                >> 21 & 0x3ff) << 1,
            opcode < 128,
            rd < 32,
            p % 2 == 0,
    ;
}

} // verus!
