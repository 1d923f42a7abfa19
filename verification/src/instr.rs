use vstd::prelude::*;

verus! {

/// A general-purpose register operand: an index into the 16-entry register
/// file. Decoding only ever produces indices below 16.
#[derive(Copy, Clone, Debug, PartialEq, Eq)]
pub struct V(pub u8);

impl From<u8> for V {
    fn from(v: u8) -> (r: Self)
        ensures
            r == V(v),
    {
        V(v)
    }
}

impl vstd::std_specs::convert::FromSpecImpl<u8> for V {
    open spec fn obeys_from_spec() -> bool {
        true
    }

    open spec fn from_spec(v: u8) -> V {
        V(v)
    }
}

/// One decoded instruction of the 35-entry opcode table. A value of this type
/// is transient: it is produced by `decode` and consumed by execution, never
/// stored in machine state.
#[derive(Copy, Clone, Debug, PartialEq, Eq)]
pub enum Instr {
    RcaCall(u16),
    ClearScreen,
    Return,
    Jump(u16),
    Call(u16),
    SkipIfEqConst(V, u8),
    SkipIfNotEqConst(V, u8),
    SkipIfEqReg(V, V),
    SkipIfNotEqReg(V, V),
    SetConst(V, u8),
    AddConst(V, u8),
    SetReg(V, V),
    OrReg(V, V),
    AndReg(V, V),
    XorReg(V, V),
    AddReg(V, V),
    SubReg(V, V),
    NegReg(V, V),
    ShrReg(V, V),
    ShlReg(V, V),
    SetIndex(u16),
    AddIndex(V),
    SetIndexFont(V),
    JumpPlusV0(u16),
    RandomAnd(V, u8),
    Draw(V, V, u8),
    Load(V),
    Store(V),
    StoreBcd(V),
    GetKey(V),
    SkipIfKey(V),
    SkipIfNotKey(V),
    GetDelay(V),
    SetDelay(V),
    SetSound(V),
}

/// Combines up to four 4-bit nibbles into a 16-bit value, lowest nibble first.
pub fn u4s_to_u16(a: u8, b: u8, c: u8, d: u8) -> (r: u16)
    requires
        a < 16,
        b < 16,
        c < 16,
        d < 16,
    ensures
        r == a + b * 16 + c * 256 + d * 4096,
{
    let (a16, b16, c16, d16) = (a as u16, b as u16, c as u16, d as u16);
    proof {
        assert(a16 | (b16 << 4) | (c16 << 8) | (d16 << 12) == a16 + b16 * 16 + c16 * 256 + d16
            * 4096) by (bit_vector)
            requires
                a16 < 16,
                b16 < 16,
                c16 < 16,
                d16 < 16,
        ;
    }
    a16 | (b16 << 4) | (c16 << 8) | (d16 << 12)
}

/// Combines two 4-bit nibbles into one byte, lowest nibble first.
pub fn u4s_to_u8(a: u8, b: u8) -> (r: u8)
    requires
        a < 16,
        b < 16,
    ensures
        r == a + b * 16,
{
    proof {
        assert(a | (b << 4) == a + b * 16) by (bit_vector)
            requires
                a < 16,
                b < 16,
        ;
    }
    a | (b << 4)
}

/// The 12-bit address carried by the low three nibbles of an opcode
/// `(_, c, b, a)`, lowest nibble last in the opcode's printed order.
pub open spec fn addr12(c: u8, b: u8, a: u8) -> u16 {
    (a + b * 16 + c * 256) as u16
}

/// The 8-bit constant carried by the low two nibbles of an opcode.
pub open spec fn const8(b: u8, a: u8) -> u8 {
    (a + b * 16) as u8
}

/// A decoded instruction's operands are in range: register indices below 16,
/// addresses below 4096, sprite heights below 16. `decode` only produces such
/// values.
pub open spec fn wf_instr(i: Instr) -> bool {
    match i {
        Instr::RcaCall(addr) => addr < 4096,
        Instr::ClearScreen => true,
        Instr::Return => true,
        Instr::Jump(addr) => addr < 4096,
        Instr::Call(addr) => addr < 4096,
        Instr::SkipIfEqConst(x, _) => x.0 < 16,
        Instr::SkipIfNotEqConst(x, _) => x.0 < 16,
        Instr::SkipIfEqReg(x, y) => x.0 < 16 && y.0 < 16,
        Instr::SkipIfNotEqReg(x, y) => x.0 < 16 && y.0 < 16,
        Instr::SetConst(x, _) => x.0 < 16,
        Instr::AddConst(x, _) => x.0 < 16,
        Instr::SetReg(x, y) => x.0 < 16 && y.0 < 16,
        Instr::OrReg(x, y) => x.0 < 16 && y.0 < 16,
        Instr::AndReg(x, y) => x.0 < 16 && y.0 < 16,
        Instr::XorReg(x, y) => x.0 < 16 && y.0 < 16,
        Instr::AddReg(x, y) => x.0 < 16 && y.0 < 16,
        Instr::SubReg(x, y) => x.0 < 16 && y.0 < 16,
        Instr::NegReg(x, y) => x.0 < 16 && y.0 < 16,
        Instr::ShrReg(x, y) => x.0 < 16 && y.0 < 16,
        Instr::ShlReg(x, y) => x.0 < 16 && y.0 < 16,
        Instr::SetIndex(addr) => addr < 4096,
        Instr::AddIndex(x) => x.0 < 16,
        Instr::SetIndexFont(x) => x.0 < 16,
        Instr::JumpPlusV0(addr) => addr < 4096,
        Instr::RandomAnd(x, _) => x.0 < 16,
        Instr::Draw(x, y, h) => x.0 < 16 && y.0 < 16 && h < 16,
        Instr::Load(x) => x.0 < 16,
        Instr::Store(x) => x.0 < 16,
        Instr::StoreBcd(x) => x.0 < 16,
        Instr::GetKey(x) => x.0 < 16,
        Instr::SkipIfKey(x) => x.0 < 16,
        Instr::SkipIfNotKey(x) => x.0 < 16,
        Instr::GetDelay(x) => x.0 < 16,
        Instr::SetDelay(x) => x.0 < 16,
        Instr::SetSound(x) => x.0 < 16,
    }
}

/// The fixed opcode table: maps a four-nibble pattern to its instruction, or
/// to `None` where the pattern is not in the table. Nibbles are given from
/// the high nibble of the first opcode byte down to the low nibble of the
/// second.
pub open spec fn decode_spec(op: (u8, u8, u8, u8)) -> Option<Instr> {
    let (_t, c, b, a) = op;
    match op {
        (0x0, 0x0, 0xE, 0x0) => Some(Instr::ClearScreen),
        (0x0, 0x0, 0xE, 0xE) => Some(Instr::Return),
        (0x0, _, _, _) => Some(Instr::RcaCall(addr12(c, b, a))),
        (0x1, _, _, _) => Some(Instr::Jump(addr12(c, b, a))),
        (0x2, _, _, _) => Some(Instr::Call(addr12(c, b, a))),
        (0x3, _, _, _) => Some(Instr::SkipIfEqConst(V(c), const8(b, a))),
        (0x4, _, _, _) => Some(Instr::SkipIfNotEqConst(V(c), const8(b, a))),
        (0x5, _, _, 0x0) => Some(Instr::SkipIfEqReg(V(c), V(b))),
        (0x6, _, _, _) => Some(Instr::SetConst(V(c), const8(b, a))),
        (0x7, _, _, _) => Some(Instr::AddConst(V(c), const8(b, a))),
        (0x8, _, _, 0x0) => Some(Instr::SetReg(V(c), V(b))),
        (0x8, _, _, 0x1) => Some(Instr::OrReg(V(c), V(b))),
        (0x8, _, _, 0x2) => Some(Instr::AndReg(V(c), V(b))),
        (0x8, _, _, 0x3) => Some(Instr::XorReg(V(c), V(b))),
        (0x8, _, _, 0x4) => Some(Instr::AddReg(V(c), V(b))),
        (0x8, _, _, 0x5) => Some(Instr::SubReg(V(c), V(b))),
        (0x8, _, _, 0x6) => Some(Instr::ShrReg(V(c), V(b))),
        (0x8, _, _, 0x7) => Some(Instr::NegReg(V(c), V(b))),
        (0x8, _, _, 0xE) => Some(Instr::ShlReg(V(c), V(b))),
        (0x9, _, _, 0x0) => Some(Instr::SkipIfNotEqReg(V(c), V(b))),
        (0xA, _, _, _) => Some(Instr::SetIndex(addr12(c, b, a))),
        (0xB, _, _, _) => Some(Instr::JumpPlusV0(addr12(c, b, a))),
        (0xC, _, _, _) => Some(Instr::RandomAnd(V(c), const8(b, a))),
        (0xD, _, _, _) => Some(Instr::Draw(V(c), V(b), a)),
        (0xE, _, 0x9, 0xE) => Some(Instr::SkipIfKey(V(c))),
        (0xE, _, 0xA, 0x1) => Some(Instr::SkipIfNotKey(V(c))),
        (0xF, _, 0x0, 0x7) => Some(Instr::GetDelay(V(c))),
        (0xF, _, 0x0, 0xA) => Some(Instr::GetKey(V(c))),
        (0xF, _, 0x1, 0x5) => Some(Instr::SetDelay(V(c))),
        (0xF, _, 0x1, 0x8) => Some(Instr::SetSound(V(c))),
        (0xF, _, 0x1, 0xE) => Some(Instr::AddIndex(V(c))),
        (0xF, _, 0x2, 0x9) => Some(Instr::SetIndexFont(V(c))),
        (0xF, _, 0x3, 0x3) => Some(Instr::StoreBcd(V(c))),
        (0xF, _, 0x5, 0x5) => Some(Instr::Store(V(c))),
        (0xF, _, 0x6, 0x5) => Some(Instr::Load(V(c))),
        _ => None,
    }
}

/// Low nibble of a 12-bit address.
pub open spec fn nib0(addr: u16) -> u8 {
    (addr % 16) as u8
}

/// Middle nibble of a 12-bit address.
pub open spec fn nib1(addr: u16) -> u8 {
    ((addr / 16) % 16) as u8
}

/// High nibble of a 12-bit address.
pub open spec fn nib2(addr: u16) -> u8 {
    ((addr / 256) % 16) as u8
}

/// The unique four-nibble pattern that decodes to a given instruction,
/// meaningful for instructions whose operands are in range (`wf_instr`).
pub open spec fn encode_instr(i: Instr) -> (u8, u8, u8, u8) {
    match i {
        Instr::ClearScreen => (0x0, 0x0, 0xE, 0x0),
        Instr::Return => (0x0, 0x0, 0xE, 0xE),
        Instr::RcaCall(addr) => (0x0, nib2(addr), nib1(addr), nib0(addr)),
        Instr::Jump(addr) => (0x1, nib2(addr), nib1(addr), nib0(addr)),
        Instr::Call(addr) => (0x2, nib2(addr), nib1(addr), nib0(addr)),
        Instr::SkipIfEqConst(x, k) => (0x3, x.0, (k / 16) as u8, (k % 16) as u8),
        Instr::SkipIfNotEqConst(x, k) => (0x4, x.0, (k / 16) as u8, (k % 16) as u8),
        Instr::SkipIfEqReg(x, y) => (0x5, x.0, y.0, 0x0),
        Instr::SetConst(x, k) => (0x6, x.0, (k / 16) as u8, (k % 16) as u8),
        Instr::AddConst(x, k) => (0x7, x.0, (k / 16) as u8, (k % 16) as u8),
        Instr::SetReg(x, y) => (0x8, x.0, y.0, 0x0),
        Instr::OrReg(x, y) => (0x8, x.0, y.0, 0x1),
        Instr::AndReg(x, y) => (0x8, x.0, y.0, 0x2),
        Instr::XorReg(x, y) => (0x8, x.0, y.0, 0x3),
        Instr::AddReg(x, y) => (0x8, x.0, y.0, 0x4),
        Instr::SubReg(x, y) => (0x8, x.0, y.0, 0x5),
        Instr::ShrReg(x, y) => (0x8, x.0, y.0, 0x6),
        Instr::NegReg(x, y) => (0x8, x.0, y.0, 0x7),
        Instr::ShlReg(x, y) => (0x8, x.0, y.0, 0xE),
        Instr::SkipIfNotEqReg(x, y) => (0x9, x.0, y.0, 0x0),
        Instr::SetIndex(addr) => (0xA, nib2(addr), nib1(addr), nib0(addr)),
        Instr::JumpPlusV0(addr) => (0xB, nib2(addr), nib1(addr), nib0(addr)),
        Instr::RandomAnd(x, k) => (0xC, x.0, (k / 16) as u8, (k % 16) as u8),
        Instr::Draw(x, y, h) => (0xD, x.0, y.0, h),
        Instr::SkipIfKey(x) => (0xE, x.0, 0x9, 0xE),
        Instr::SkipIfNotKey(x) => (0xE, x.0, 0xA, 0x1),
        Instr::GetDelay(x) => (0xF, x.0, 0x0, 0x7),
        Instr::GetKey(x) => (0xF, x.0, 0x0, 0xA),
        Instr::SetDelay(x) => (0xF, x.0, 0x1, 0x5),
        Instr::SetSound(x) => (0xF, x.0, 0x1, 0x8),
        Instr::AddIndex(x) => (0xF, x.0, 0x1, 0xE),
        Instr::SetIndexFont(x) => (0xF, x.0, 0x2, 0x9),
        Instr::StoreBcd(x) => (0xF, x.0, 0x3, 0x3),
        Instr::Store(x) => (0xF, x.0, 0x5, 0x5),
        Instr::Load(x) => (0xF, x.0, 0x6, 0x5),
    }
}

/// Recombining three nibbles into a 12-bit address and splitting it again
/// gives the nibbles back.
proof fn lemma_addr12_nibbles(c: u8, b: u8, a: u8)
    requires
        a < 16,
        b < 16,
        c < 16,
    ensures
        addr12(c, b, a) < 4096,
        nib0(addr12(c, b, a)) == a,
        nib1(addr12(c, b, a)) == b,
        nib2(addr12(c, b, a)) == c,
{
    let v = a + b * 16 + c * 256;
    assert(v % 16 == a && (v / 16) % 16 == b && (v / 256) % 16 == c) by (nonlinear_arith)
        requires
            a < 16,
            b < 16,
            c < 16,
            v == a + b * 16 + c * 256,
    ;
}

/// Recombining two nibbles into a byte and splitting it again gives the
/// nibbles back.
proof fn lemma_const8_nibbles(b: u8, a: u8)
    requires
        a < 16,
        b < 16,
    ensures
        const8(b, a) / 16 == b,
        const8(b, a) % 16 == a,
{
    let v = a + b * 16;
    assert(v / 16 == b && v % 16 == a) by (nonlinear_arith)
        requires
            a < 16,
            b < 16,
            v == a + b * 16,
    ;
}

/// Law: the opcode table is a bijection between its four-nibble patterns and
/// the decoded instructions. Every pattern that the table accepts decodes to
/// an instruction with in-range operands, and re-encoding that instruction
/// gives back exactly the nibbles it came from.
pub proof fn lemma_decode_round_trip(op: (u8, u8, u8, u8))
    requires
        op.0 < 16,
        op.1 < 16,
        op.2 < 16,
        op.3 < 16,
    ensures
        (decode_spec(op) matches Some(i) ==> wf_instr(i) && encode_instr(i) == op),
{
    lemma_addr12_nibbles(op.1, op.2, op.3);
    lemma_const8_nibbles(op.2, op.3);
}

/// Law: decoding is injective. Two distinct table patterns never decode to
/// the same instruction, so each instruction variant round-trips to a unique
/// opcode.
pub proof fn lemma_decode_unique(op1: (u8, u8, u8, u8), op2: (u8, u8, u8, u8))
    requires
        op1.0 < 16,
        op1.1 < 16,
        op1.2 < 16,
        op1.3 < 16,
        op2.0 < 16,
        op2.1 < 16,
        op2.2 < 16,
        op2.3 < 16,
        decode_spec(op1) is Some,
        decode_spec(op1) == decode_spec(op2),
    ensures
        op1 == op2,
{
    lemma_decode_round_trip(op1);
    lemma_decode_round_trip(op2);
}

} // verus!
