//! One test for each operation of the machine: what it leaves in its
//! register or memory cell for a range of field specifications.

use mix::{
    Address, Index, IndexNumber, Instruction, Jump, Mix, Modification, Operation, Sign, Toggle,
    Word, BYTE,
};

fn instruction(
    operation: Operation,
    address: i16,
    index: Option<IndexNumber>,
    f: Option<Modification>,
) -> Instruction {
    Instruction::new(operation, Address::new(address), index, f)
}

fn fields(l: u8, r: u8) -> Option<Modification> {
    Some(Modification::field(l, r))
}

fn w(b0: u8, b1: u8, b2: u8, b3: u8, b4: u8) -> Word {
    Word::new(Sign::Plus, b0, b1, b2, b3, b4)
}

fn check_lda(f: Option<Modification>, expected: Word) {
    let before = -w(1, 16, 3, 5, 4);
    let mut mix = Mix::default();
    mix.memory[2000] = before;

    let mix = mix.exec(instruction(Operation::LDA, 2000, None, f.clone()));

    assert_eq!(mix.memory[2000], before, "should not change");
    assert_eq!(mix.a, expected, "for specification {:?}", f);
}

#[test]
fn lda() {
    check_lda(None, -w(1, 16, 3, 5, 4));
    check_lda(fields(1, 5), w(1, 16, 3, 5, 4));
    check_lda(fields(3, 5), w(0, 0, 3, 5, 4));
    check_lda(fields(0, 3), -w(0, 0, 1, 16, 3));
    check_lda(fields(4, 4), w(0, 0, 0, 0, 5));
    check_lda(fields(0, 0), -w(0, 0, 0, 0, 0));
}

fn check_ldan(f: Option<Modification>, expected: Word) {
    let before = -w(1, 16, 3, 5, 4);
    let mut mix = Mix::default();
    mix.memory[2000] = before;

    let mix = mix.exec(instruction(Operation::LDAN, 2000, None, f.clone()));

    assert_eq!(mix.memory[2000], before, "should not change");
    assert_eq!(mix.a, expected, "for specification {:?}", f);
}

#[test]
fn ldan() {
    check_ldan(None, w(1, 16, 3, 5, 4));
    check_ldan(fields(1, 5), -w(1, 16, 3, 5, 4));
    check_ldan(fields(3, 5), -w(0, 0, 3, 5, 4));
    check_ldan(fields(0, 3), w(0, 0, 1, 16, 3));
    check_ldan(fields(4, 4), -w(0, 0, 0, 0, 5));
    check_ldan(fields(0, 0), w(0, 0, 0, 0, 0));
}

fn check_ldx(f: Option<Modification>, expected: Word) {
    let before = -w(1, 16, 3, 5, 4);
    let mut mix = Mix::default();
    mix.memory[2000] = before;

    let mix = mix.exec(instruction(Operation::LDX, 2000, None, f.clone()));

    assert_eq!(mix.memory[2000], before, "should not change");
    assert_eq!(mix.x, expected, "for specification {:?}", f);
}

#[test]
fn ldx() {
    check_ldx(None, -w(1, 16, 3, 5, 4));
    check_ldx(fields(1, 5), w(1, 16, 3, 5, 4));
    check_ldx(fields(3, 5), w(0, 0, 3, 5, 4));
    check_ldx(fields(0, 3), -w(0, 0, 1, 16, 3));
    check_ldx(fields(4, 4), w(0, 0, 0, 0, 5));
    check_ldx(fields(0, 0), -w(0, 0, 0, 0, 0));
}

fn check_ldxn(f: Option<Modification>, expected: Word) {
    let before = -w(1, 16, 3, 5, 4);
    let mut mix = Mix::default();
    mix.memory[2000] = before;

    let mix = mix.exec(instruction(Operation::LDXN, 2000, None, f.clone()));

    assert_eq!(mix.memory[2000], before, "should not change");
    assert_eq!(mix.x, expected, "for specification {:?}", f);
}

#[test]
fn ldxn() {
    check_ldxn(None, w(1, 16, 3, 5, 4));
    check_ldxn(fields(1, 5), -w(1, 16, 3, 5, 4));
    check_ldxn(fields(3, 5), -w(0, 0, 3, 5, 4));
    check_ldxn(fields(0, 3), w(0, 0, 1, 16, 3));
    check_ldxn(fields(4, 4), -w(0, 0, 0, 0, 5));
    check_ldxn(fields(0, 0), w(0, 0, 0, 0, 0));
}

fn check_ld1(f: Option<Modification>, expected: Index) {
    let before = -w(1, 16, 3, 5, 4);
    let mut mix = Mix::default();
    mix.memory[2000] = before;

    let mix = mix.exec(instruction(Operation::LD1, 2000, None, f.clone()));

    assert_eq!(mix.memory[2000], before, "should not change");
    assert_eq!(mix.i1, expected, "for specification {:?}", f);
}

#[test]
fn ld1() {
    check_ld1(fields(4, 5), Index::new(Sign::Plus, 5, 4));
    check_ld1(fields(0, 2), Index::new(Sign::Minus, 1, 16));
    check_ld1(fields(4, 4), Index::new(Sign::Plus, 0, 5));
    check_ld1(fields(0, 0), Index::new(Sign::Minus, 0, 0));
}

fn check_ld2(f: Option<Modification>, expected: Index) {
    let before = -w(1, 16, 3, 5, 4);
    let mut mix = Mix::default();
    mix.memory[2000] = before;

    let mix = mix.exec(instruction(Operation::LD2, 2000, None, f.clone()));

    assert_eq!(mix.memory[2000], before, "should not change");
    assert_eq!(mix.i2, expected, "for specification {:?}", f);
}

#[test]
fn ld2() {
    check_ld2(fields(4, 5), Index::new(Sign::Plus, 5, 4));
    check_ld2(fields(0, 2), Index::new(Sign::Minus, 1, 16));
    check_ld2(fields(4, 4), Index::new(Sign::Plus, 0, 5));
    check_ld2(fields(0, 0), Index::new(Sign::Minus, 0, 0));
}

fn check_ld3(f: Option<Modification>, expected: Index) {
    let before = -w(1, 16, 3, 5, 4);
    let mut mix = Mix::default();
    mix.memory[2000] = before;

    let mix = mix.exec(instruction(Operation::LD3, 2000, None, f.clone()));

    assert_eq!(mix.memory[2000], before, "should not change");
    assert_eq!(mix.i3, expected, "for specification {:?}", f);
}

#[test]
fn ld3() {
    check_ld3(fields(4, 5), Index::new(Sign::Plus, 5, 4));
    check_ld3(fields(0, 2), Index::new(Sign::Minus, 1, 16));
    check_ld3(fields(4, 4), Index::new(Sign::Plus, 0, 5));
    check_ld3(fields(0, 0), Index::new(Sign::Minus, 0, 0));
}

fn check_ld4(f: Option<Modification>, expected: Index) {
    let before = -w(1, 16, 3, 5, 4);
    let mut mix = Mix::default();
    mix.memory[2000] = before;

    let mix = mix.exec(instruction(Operation::LD4, 2000, None, f.clone()));

    assert_eq!(mix.memory[2000], before, "should not change");
    assert_eq!(mix.i4, expected, "for specification {:?}", f);
}

#[test]
fn ld4() {
    check_ld4(fields(4, 5), Index::new(Sign::Plus, 5, 4));
    check_ld4(fields(0, 2), Index::new(Sign::Minus, 1, 16));
    check_ld4(fields(4, 4), Index::new(Sign::Plus, 0, 5));
    check_ld4(fields(0, 0), Index::new(Sign::Minus, 0, 0));
}

fn check_ld5(f: Option<Modification>, expected: Index) {
    let before = -w(1, 16, 3, 5, 4);
    let mut mix = Mix::default();
    mix.memory[2000] = before;

    let mix = mix.exec(instruction(Operation::LD5, 2000, None, f.clone()));

    assert_eq!(mix.memory[2000], before, "should not change");
    assert_eq!(mix.i5, expected, "for specification {:?}", f);
}

#[test]
fn ld5() {
    check_ld5(fields(4, 5), Index::new(Sign::Plus, 5, 4));
    check_ld5(fields(0, 2), Index::new(Sign::Minus, 1, 16));
    check_ld5(fields(4, 4), Index::new(Sign::Plus, 0, 5));
    check_ld5(fields(0, 0), Index::new(Sign::Minus, 0, 0));
}

fn check_ld6(f: Option<Modification>, expected: Index) {
    let before = -w(1, 16, 3, 5, 4);
    let mut mix = Mix::default();
    mix.memory[2000] = before;

    let mix = mix.exec(instruction(Operation::LD6, 2000, None, f.clone()));

    assert_eq!(mix.memory[2000], before, "should not change");
    assert_eq!(mix.i6, expected, "for specification {:?}", f);
}

#[test]
fn ld6() {
    check_ld6(fields(4, 5), Index::new(Sign::Plus, 5, 4));
    check_ld6(fields(0, 2), Index::new(Sign::Minus, 1, 16));
    check_ld6(fields(4, 4), Index::new(Sign::Plus, 0, 5));
    check_ld6(fields(0, 0), Index::new(Sign::Minus, 0, 0));
}

fn check_ld1n(f: Option<Modification>, expected: Index) {
    let before = -w(1, 16, 3, 5, 4);
    let mut mix = Mix::default();
    mix.memory[2000] = before;

    let mix = mix.exec(instruction(Operation::LD1N, 2000, None, f.clone()));

    assert_eq!(mix.memory[2000], before, "should not change");
    assert_eq!(mix.i1, expected, "for specification {:?}", f);
}

#[test]
fn ld1n() {
    check_ld1n(fields(4, 5), Index::new(Sign::Minus, 5, 4));
    check_ld1n(fields(0, 2), Index::new(Sign::Plus, 1, 16));
    check_ld1n(fields(4, 4), Index::new(Sign::Minus, 0, 5));
    check_ld1n(fields(0, 0), Index::new(Sign::Plus, 0, 0));
}

fn check_ld2n(f: Option<Modification>, expected: Index) {
    let before = -w(1, 16, 3, 5, 4);
    let mut mix = Mix::default();
    mix.memory[2000] = before;

    let mix = mix.exec(instruction(Operation::LD2N, 2000, None, f.clone()));

    assert_eq!(mix.memory[2000], before, "should not change");
    assert_eq!(mix.i2, expected, "for specification {:?}", f);
}

#[test]
fn ld2n() {
    check_ld2n(fields(4, 5), Index::new(Sign::Minus, 5, 4));
    check_ld2n(fields(0, 2), Index::new(Sign::Plus, 1, 16));
    check_ld2n(fields(4, 4), Index::new(Sign::Minus, 0, 5));
    check_ld2n(fields(0, 0), Index::new(Sign::Plus, 0, 0));
}

fn check_ld3n(f: Option<Modification>, expected: Index) {
    let before = -w(1, 16, 3, 5, 4);
    let mut mix = Mix::default();
    mix.memory[2000] = before;

    let mix = mix.exec(instruction(Operation::LD3N, 2000, None, f.clone()));

    assert_eq!(mix.memory[2000], before, "should not change");
    assert_eq!(mix.i3, expected, "for specification {:?}", f);
}

#[test]
fn ld3n() {
    check_ld3n(fields(4, 5), Index::new(Sign::Minus, 5, 4));
    check_ld3n(fields(0, 2), Index::new(Sign::Plus, 1, 16));
    check_ld3n(fields(4, 4), Index::new(Sign::Minus, 0, 5));
    check_ld3n(fields(0, 0), Index::new(Sign::Plus, 0, 0));
}

fn check_ld4n(f: Option<Modification>, expected: Index) {
    let before = -w(1, 16, 3, 5, 4);
    let mut mix = Mix::default();
    mix.memory[2000] = before;

    let mix = mix.exec(instruction(Operation::LD4N, 2000, None, f.clone()));

    assert_eq!(mix.memory[2000], before, "should not change");
    assert_eq!(mix.i4, expected, "for specification {:?}", f);
}

#[test]
fn ld4n() {
    check_ld4n(fields(4, 5), Index::new(Sign::Minus, 5, 4));
    check_ld4n(fields(0, 2), Index::new(Sign::Plus, 1, 16));
    check_ld4n(fields(4, 4), Index::new(Sign::Minus, 0, 5));
    check_ld4n(fields(0, 0), Index::new(Sign::Plus, 0, 0));
}

fn check_ld5n(f: Option<Modification>, expected: Index) {
    let before = -w(1, 16, 3, 5, 4);
    let mut mix = Mix::default();
    mix.memory[2000] = before;

    let mix = mix.exec(instruction(Operation::LD5N, 2000, None, f.clone()));

    assert_eq!(mix.memory[2000], before, "should not change");
    assert_eq!(mix.i5, expected, "for specification {:?}", f);
}

#[test]
fn ld5n() {
    check_ld5n(fields(4, 5), Index::new(Sign::Minus, 5, 4));
    check_ld5n(fields(0, 2), Index::new(Sign::Plus, 1, 16));
    check_ld5n(fields(4, 4), Index::new(Sign::Minus, 0, 5));
    check_ld5n(fields(0, 0), Index::new(Sign::Plus, 0, 0));
}

fn check_ld6n(f: Option<Modification>, expected: Index) {
    let before = -w(1, 16, 3, 5, 4);
    let mut mix = Mix::default();
    mix.memory[2000] = before;

    let mix = mix.exec(instruction(Operation::LD6N, 2000, None, f.clone()));

    assert_eq!(mix.memory[2000], before, "should not change");
    assert_eq!(mix.i6, expected, "for specification {:?}", f);
}

#[test]
fn ld6n() {
    check_ld6n(fields(4, 5), Index::new(Sign::Minus, 5, 4));
    check_ld6n(fields(0, 2), Index::new(Sign::Plus, 1, 16));
    check_ld6n(fields(4, 4), Index::new(Sign::Minus, 0, 5));
    check_ld6n(fields(0, 0), Index::new(Sign::Plus, 0, 0));
}

fn check_sta(f: Option<Modification>, expected: Word) {
    let before = w(6, 7, 8, 9, 0);
    let mut mix = Mix::default();
    mix.memory[2000] = -w(1, 2, 3, 4, 5);
    mix.a = before;

    let mix = mix.exec(instruction(Operation::STA, 2000, None, f.clone()));

    assert_eq!(mix.a, before, "should not change");
    assert_eq!(mix.memory[2000], expected, "for specification {:?}", f);
}

#[test]
fn sta() {
    check_sta(None, w(6, 7, 8, 9, 0));
    check_sta(fields(1, 5), -w(6, 7, 8, 9, 0));
    check_sta(fields(5, 5), -w(1, 2, 3, 4, 0));
    check_sta(fields(2, 2), -w(1, 0, 3, 4, 5));
    check_sta(fields(2, 3), -w(1, 9, 0, 4, 5));
    check_sta(fields(0, 1), w(0, 2, 3, 4, 5));
}

fn check_stx(f: Option<Modification>, expected: Word) {
    let before = w(6, 7, 8, 9, 0);
    let mut mix = Mix::default();
    mix.memory[2000] = -w(1, 2, 3, 4, 5);
    mix.x = before;

    let mix = mix.exec(instruction(Operation::STX, 2000, None, f.clone()));

    assert_eq!(mix.x, before, "should not change");
    assert_eq!(mix.memory[2000], expected, "for specification {:?}", f);
}

#[test]
fn stx() {
    check_stx(None, w(6, 7, 8, 9, 0));
    check_stx(fields(1, 5), -w(6, 7, 8, 9, 0));
    check_stx(fields(5, 5), -w(1, 2, 3, 4, 0));
    check_stx(fields(2, 2), -w(1, 0, 3, 4, 5));
    check_stx(fields(2, 3), -w(1, 9, 0, 4, 5));
    check_stx(fields(0, 1), w(0, 2, 3, 4, 5));
}

fn check_st1(f: Option<Modification>, expected: Word) {
    let before = Index::new(Sign::Plus, 6, 7);
    let mut mix = Mix::default();
    mix.memory[2000] = -w(1, 2, 3, 4, 5);
    mix.i1 = before;

    let mix = mix.exec(instruction(Operation::ST1, 2000, None, f.clone()));

    assert_eq!(mix.i1, before, "should not change");
    assert_eq!(mix.memory[2000], expected, "for specification {:?}", f);
}

#[test]
fn st1() {
    check_st1(None, w(0, 0, 0, 6, 7));
    check_st1(fields(1, 5), -w(0, 0, 0, 6, 7));
    check_st1(fields(5, 5), -w(1, 2, 3, 4, 7));
    check_st1(fields(2, 2), -w(1, 7, 3, 4, 5));
    check_st1(fields(2, 3), -w(1, 6, 7, 4, 5));
    check_st1(fields(0, 1), w(7, 2, 3, 4, 5));
}

fn check_st2(f: Option<Modification>, expected: Word) {
    let before = Index::new(Sign::Plus, 6, 7);
    let mut mix = Mix::default();
    mix.memory[2000] = -w(1, 2, 3, 4, 5);
    mix.i2 = before;

    let mix = mix.exec(instruction(Operation::ST2, 2000, None, f.clone()));

    assert_eq!(mix.i2, before, "should not change");
    assert_eq!(mix.memory[2000], expected, "for specification {:?}", f);
}

#[test]
fn st2() {
    check_st2(None, w(0, 0, 0, 6, 7));
    check_st2(fields(1, 5), -w(0, 0, 0, 6, 7));
    check_st2(fields(5, 5), -w(1, 2, 3, 4, 7));
    check_st2(fields(2, 2), -w(1, 7, 3, 4, 5));
    check_st2(fields(2, 3), -w(1, 6, 7, 4, 5));
    check_st2(fields(0, 1), w(7, 2, 3, 4, 5));
}

fn check_st3(f: Option<Modification>, expected: Word) {
    let before = Index::new(Sign::Plus, 6, 7);
    let mut mix = Mix::default();
    mix.memory[2000] = -w(1, 2, 3, 4, 5);
    mix.i3 = before;

    let mix = mix.exec(instruction(Operation::ST3, 2000, None, f.clone()));

    assert_eq!(mix.i3, before, "should not change");
    assert_eq!(mix.memory[2000], expected, "for specification {:?}", f);
}

#[test]
fn st3() {
    check_st3(None, w(0, 0, 0, 6, 7));
    check_st3(fields(1, 5), -w(0, 0, 0, 6, 7));
    check_st3(fields(5, 5), -w(1, 2, 3, 4, 7));
    check_st3(fields(2, 2), -w(1, 7, 3, 4, 5));
    check_st3(fields(2, 3), -w(1, 6, 7, 4, 5));
    check_st3(fields(0, 1), w(7, 2, 3, 4, 5));
}

fn check_st4(f: Option<Modification>, expected: Word) {
    let before = Index::new(Sign::Plus, 6, 7);
    let mut mix = Mix::default();
    mix.memory[2000] = -w(1, 2, 3, 4, 5);
    mix.i4 = before;

    let mix = mix.exec(instruction(Operation::ST4, 2000, None, f.clone()));

    assert_eq!(mix.i4, before, "should not change");
    assert_eq!(mix.memory[2000], expected, "for specification {:?}", f);
}

#[test]
fn st4() {
    check_st4(None, w(0, 0, 0, 6, 7));
    check_st4(fields(1, 5), -w(0, 0, 0, 6, 7));
    check_st4(fields(5, 5), -w(1, 2, 3, 4, 7));
    check_st4(fields(2, 2), -w(1, 7, 3, 4, 5));
    check_st4(fields(2, 3), -w(1, 6, 7, 4, 5));
    check_st4(fields(0, 1), w(7, 2, 3, 4, 5));
}

fn check_st5(f: Option<Modification>, expected: Word) {
    let before = Index::new(Sign::Plus, 6, 7);
    let mut mix = Mix::default();
    mix.memory[2000] = -w(1, 2, 3, 4, 5);
    mix.i5 = before;

    let mix = mix.exec(instruction(Operation::ST5, 2000, None, f.clone()));

    assert_eq!(mix.i5, before, "should not change");
    assert_eq!(mix.memory[2000], expected, "for specification {:?}", f);
}

#[test]
fn st5() {
    check_st5(None, w(0, 0, 0, 6, 7));
    check_st5(fields(1, 5), -w(0, 0, 0, 6, 7));
    check_st5(fields(5, 5), -w(1, 2, 3, 4, 7));
    check_st5(fields(2, 2), -w(1, 7, 3, 4, 5));
    check_st5(fields(2, 3), -w(1, 6, 7, 4, 5));
    check_st5(fields(0, 1), w(7, 2, 3, 4, 5));
}

fn check_st6(f: Option<Modification>, expected: Word) {
    let before = Index::new(Sign::Plus, 6, 7);
    let mut mix = Mix::default();
    mix.memory[2000] = -w(1, 2, 3, 4, 5);
    mix.i6 = before;

    let mix = mix.exec(instruction(Operation::ST6, 2000, None, f.clone()));

    assert_eq!(mix.i6, before, "should not change");
    assert_eq!(mix.memory[2000], expected, "for specification {:?}", f);
}

#[test]
fn st6() {
    check_st6(None, w(0, 0, 0, 6, 7));
    check_st6(fields(1, 5), -w(0, 0, 0, 6, 7));
    check_st6(fields(5, 5), -w(1, 2, 3, 4, 7));
    check_st6(fields(2, 2), -w(1, 7, 3, 4, 5));
    check_st6(fields(2, 3), -w(1, 6, 7, 4, 5));
    check_st6(fields(0, 1), w(7, 2, 3, 4, 5));
}

fn check_stj(f: Option<Modification>, expected: Word) {
    let before = Jump::new(6, 7);
    let mut mix = Mix::default();
    mix.memory[2000] = -w(1, 2, 3, 4, 5);
    mix.j = before;

    let mix = mix.exec(instruction(Operation::STJ, 2000, None, f.clone()));

    assert_eq!(mix.j, before, "should not change");
    assert_eq!(mix.memory[2000], expected, "for specification {:?}", f);
}

#[test]
fn stj() {
    check_stj(None, w(6, 7, 3, 4, 5));
    check_stj(fields(0, 2), w(6, 7, 3, 4, 5));
    check_stj(fields(1, 5), -w(0, 0, 0, 6, 7));
    check_stj(fields(5, 5), -w(1, 2, 3, 4, 7));
    check_stj(fields(2, 2), -w(1, 7, 3, 4, 5));
    check_stj(fields(2, 3), -w(1, 6, 7, 4, 5));
    check_stj(fields(0, 1), w(7, 2, 3, 4, 5));
}

fn check_stz(f: Option<Modification>, expected: Word) {
    let mut mix = Mix::default();
    mix.memory[2000] = -w(1, 2, 3, 4, 5);

    let mix = mix.exec(instruction(Operation::STZ, 2000, None, f.clone()));

    assert_eq!(mix.memory[2000], expected, "for specification {:?}", f);
}

#[test]
fn stz() {
    check_stz(None, w(0, 0, 0, 0, 0));
    check_stz(fields(1, 5), -w(0, 0, 0, 0, 0));
    check_stz(fields(5, 5), -w(1, 2, 3, 4, 0));
    check_stz(fields(2, 2), -w(1, 0, 3, 4, 5));
    check_stz(fields(2, 3), -w(1, 0, 0, 4, 5));
    check_stz(fields(0, 1), w(0, 2, 3, 4, 5));
}

fn check_add_overflow(a: Word, b: Word, expected: Word, overflow: Toggle) {
    let mut mix = Mix::default();
    mix.a = a;
    mix.memory[2000] = b;

    let mix = mix.exec(instruction(Operation::ADD, 2000, None, None));

    assert_eq!(mix.memory[2000], b, "stays the same");
    assert_eq!(mix.a, expected);
    assert_eq!(mix.overflow, overflow);
}

#[test]
fn add_overflow() {
    check_add_overflow(w(5, 1, 0, 2, 1), w(5, 1, 0, 3, 2), w(10, 2, 0, 5, 3), Toggle::Off);
    check_add_overflow(
        w(0, BYTE - 1, 0, 0, 0),
        w(0, 2, 0, 0, 0),
        w(1, 1, 0, 0, 0),
        Toggle::Off,
    );
    check_add_overflow(
        w(BYTE - 1, 0, 0, 0, 0),
        w(2, 0, 0, 0, 0),
        w(1, 0, 0, 0, 0),
        Toggle::On,
    );
    check_add_overflow(
        -w(BYTE - 1, 0, 0, 0, 0),
        -w(2, 0, 0, 0, 0),
        -w(1, 0, 0, 0, 0),
        Toggle::On,
    );
    check_add_overflow(
        w(0, BYTE - 2, BYTE - 1, 0, 0),
        w(0, 1, 1, 0, 0),
        w(1, 0, 0, 0, 0),
        Toggle::Off,
    );
}

fn check_add_sign(a: Word, b: Word, expected: Word) {
    let mut mix = Mix::default();
    mix.a = a;
    mix.memory[2000] = b;

    let mix = mix.exec(instruction(Operation::ADD, 2000, None, None));

    assert_eq!(mix.memory[2000], b, "stays the same");
    assert_eq!(mix.a, expected);
    assert_eq!(mix.overflow, Toggle::Off);
}

#[test]
fn add_sign() {
    check_add_sign(w(0, 0, 0, 1, 0), -w(0, 0, 0, 0, 1), w(0, 0, 0, 0, BYTE - 1));
    check_add_sign(-w(0, 0, 0, 0, 1), -w(0, 0, 0, 0, 1), -w(0, 0, 0, 0, 2));
    check_add_sign(w(0, 0, 0, 0, 1), -w(0, 0, 0, 0, 3), -w(0, 0, 0, 0, 2));
    check_add_sign(-w(0, 0, 0, 0, 1), w(0, 0, 0, 0, 3), w(0, 0, 0, 0, 2));
    check_add_sign(w(0, 0, 0, 0, 1), -w(0, 0, 0, 0, 1), w(0, 0, 0, 0, 0));
    check_add_sign(-w(0, 0, 0, 0, 1), w(0, 0, 0, 0, 1), -w(0, 0, 0, 0, 0));
}

fn check_add_field(b: Word, f: Option<Modification>, expected: Word) {
    let mut mix = Mix::default();
    mix.a = w(5, 4, 3, 2, 1);
    mix.memory[2000] = b;

    let mix = mix.exec(instruction(Operation::ADD, 2000, None, f));

    assert_eq!(mix.memory[2000], b, "stays the same");
    assert_eq!(mix.a, expected);
    assert_eq!(mix.overflow, Toggle::Off);
}

#[test]
fn add_field() {
    check_add_field(w(14, 13, 12, 11, 10), fields(1, 1), w(5, 4, 3, 2, 15));
    check_add_field(w(14, 13, 12, 11, 10), fields(3, 3), w(5, 4, 3, 2, 13));
    check_add_field(w(14, 13, 12, 11, 10), fields(5, 5), w(5, 4, 3, 2, 11));
    check_add_field(-w(1, 1, 1, 1, 1), fields(0, 2), w(5, 4, 3, 1, 0));
    check_add_field(-w(1, 1, 1, 1, 1), fields(1, 2), w(5, 4, 3, 3, 2));
}
