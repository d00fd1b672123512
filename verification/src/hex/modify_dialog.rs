//! The Modify Block dialog: an arithmetic or bitwise operation applied to every
//! unit of the selected bytes.
use vstd::prelude::*;

use crate::app::{error_shown, App, UIState};
use crate::hex::events::{Key, KeyPress};
use crate::hex::field_box::{input_edit, input_edit_for, input_edited, TextInput};
use crate::hex::hex_view::HexView;
use crate::hex::edit::{displayed, record_edit};
use crate::i18n::{Lang, M};
use crate::text::{chars_of, parse_radix, parse_unsigned};

verus! {

#[derive(Debug, Clone, Copy, PartialEq, Eq, Structural)]
pub enum ModifyOp {
    Add,
    Sub,
    Mul,
    Div,
    Xor,
    Or,
    And,
    Not,
    EndianSwap,
    ShiftLeft,
    ShiftRight,
    Random,
    RollingXor,
}

/// The message naming an operation.
pub open spec fn op_message(op: ModifyOp) -> M {
    match op {
        ModifyOp::Add => M::OpAdd,
        ModifyOp::Sub => M::OpSub,
        ModifyOp::Mul => M::OpMul,
        ModifyOp::Div => M::OpDiv,
        ModifyOp::Xor => M::OpXor,
        ModifyOp::Or => M::OpOr,
        ModifyOp::And => M::OpAnd,
        ModifyOp::Not => M::OpNot,
        ModifyOp::EndianSwap => M::OpEndianSwap,
        ModifyOp::ShiftLeft => M::OpShiftLeft,
        ModifyOp::ShiftRight => M::OpShiftRight,
        ModifyOp::Random => M::OpRandom,
        ModifyOp::RollingXor => M::OpRollingXor,
    }
}

/// The operations in the order of the dialog's grid.
pub open spec fn op_at(i: int) -> ModifyOp {
    if i == 0 {
        ModifyOp::Add
    } else if i == 1 {
        ModifyOp::Sub
    } else if i == 2 {
        ModifyOp::Mul
    } else if i == 3 {
        ModifyOp::Div
    } else if i == 4 {
        ModifyOp::Xor
    } else if i == 5 {
        ModifyOp::Or
    } else if i == 6 {
        ModifyOp::And
    } else if i == 7 {
        ModifyOp::Not
    } else if i == 8 {
        ModifyOp::EndianSwap
    } else if i == 9 {
        ModifyOp::ShiftLeft
    } else if i == 10 {
        ModifyOp::ShiftRight
    } else if i == 11 {
        ModifyOp::Random
    } else {
        ModifyOp::RollingXor
    }
}

impl ModifyOp {
    /// The operation's name in the interface language.
    pub fn label_for(&self, lang: Lang) -> (s: &'static str)
        ensures
            s@ == op_message(*self).text(lang),
    {
        let message = match self {
            ModifyOp::Add => M::OpAdd,
            ModifyOp::Sub => M::OpSub,
            ModifyOp::Mul => M::OpMul,
            ModifyOp::Div => M::OpDiv,
            ModifyOp::Xor => M::OpXor,
            ModifyOp::Or => M::OpOr,
            ModifyOp::And => M::OpAnd,
            ModifyOp::Not => M::OpNot,
            ModifyOp::EndianSwap => M::OpEndianSwap,
            ModifyOp::ShiftLeft => M::OpShiftLeft,
            ModifyOp::ShiftRight => M::OpShiftRight,
            ModifyOp::Random => M::OpRandom,
            ModifyOp::RollingXor => M::OpRollingXor,
        };
        message.tr(lang)
    }

    /// The operation's English name with its symbol.
    pub fn label(&self) -> (s: &'static str)
        ensures
            s@ == match *self {
                ModifyOp::Add => "Add (+)"@,
                ModifyOp::Sub => "Subtract (-)"@,
                ModifyOp::Mul => "Multiply (*)"@,
                ModifyOp::Div => "Divide (/)"@,
                ModifyOp::Xor => "XOR (^)"@,
                ModifyOp::Or => "OR (|)"@,
                ModifyOp::And => "AND (&)"@,
                ModifyOp::Not => "Invert/NOT (~)"@,
                ModifyOp::EndianSwap => "Endian Swap"@,
                ModifyOp::ShiftLeft => "Shift Left (<<)"@,
                ModifyOp::ShiftRight => "Shift Right (>>)"@,
                ModifyOp::Random => "Random Fill (rand)"@,
                ModifyOp::RollingXor => "Rolling XOR (key+step)"@,
            },
    {
        match self {
            ModifyOp::Add => "Add (+)",
            ModifyOp::Sub => "Subtract (-)",
            ModifyOp::Mul => "Multiply (*)",
            ModifyOp::Div => "Divide (/)",
            ModifyOp::Xor => "XOR (^)",
            ModifyOp::Or => "OR (|)",
            ModifyOp::And => "AND (&)",
            ModifyOp::Not => "Invert/NOT (~)",
            ModifyOp::EndianSwap => "Endian Swap",
            ModifyOp::ShiftLeft => "Shift Left (<<)",
            ModifyOp::ShiftRight => "Shift Right (>>)",
            ModifyOp::Random => "Random Fill (rand)",
            ModifyOp::RollingXor => "Rolling XOR (key+step)",
        }
    }

    /// Every operation, in the order of the dialog's grid.
    pub fn all() -> (ops: &'static [ModifyOp])
        ensures
            ops@.len() == 13,
            forall|i: int| 0 <= i < 13 ==> ops@[i] == op_at(i),
    {
        let ops: &'static [ModifyOp] = &[
            ModifyOp::Add,
            ModifyOp::Sub,
            ModifyOp::Mul,
            ModifyOp::Div,
            ModifyOp::Xor,
            ModifyOp::Or,
            ModifyOp::And,
            ModifyOp::Not,
            ModifyOp::EndianSwap,
            ModifyOp::ShiftLeft,
            ModifyOp::ShiftRight,
            ModifyOp::Random,
            ModifyOp::RollingXor,
        ];
        ops
    }
}

#[derive(Debug, Clone, Copy, PartialEq, Eq, Structural)]
pub enum ModifyFocus {
    Operation,
    Operand,
    Step,
    HexMode,
    BitSize,
}

/// The dialog's state: the chosen operation, the operand and step as typed,
/// whether they are read as hex, and the unit width in bits.
#[derive(Debug)]
pub struct ModifyDialog {
    pub op_index: usize,
    pub operand_input: String,
    pub step_input: String,
    /// Character a Shift-selection in the focused box started from.
    pub anchor: Option<usize>,
    pub is_hex: bool,
    pub bit_size: usize,
    pub focus: ModifyFocus,
    /// The cursor's position in the focused box, in characters.
    pub cursor: usize,
}

impl ModifyDialog {
    /// XOR, an empty operand, a step of 1, hex input, bytes.
    pub fn new() -> (d: Self)
        ensures
            d.op_index == 4,
            d.operand_input@.len() == 0,
            d.step_input@ == "1"@,
            d.anchor is None,
            d.is_hex,
            d.bit_size == 8,
            d.focus == ModifyFocus::Operation,
            d.cursor == 0,
    {
        ModifyDialog {
            op_index: 4,
            operand_input: String::new(),
            step_input: crate::text::string_from("1"),
            anchor: None,
            is_hex: true,
            bit_size: 8,
            focus: ModifyFocus::Operation,
            cursor: 0,
        }
    }

    /// Back to the state [`ModifyDialog::new`] gives.
    pub fn reset(&mut self)
        ensures
            final(self).op_index == 4,
            final(self).operand_input@.len() == 0,
            final(self).step_input@ == "1"@,
            final(self).anchor is None,
            final(self).is_hex,
            final(self).bit_size == 8,
            final(self).focus == ModifyFocus::Operation,
            final(self).cursor == 0,
    {
        *self = ModifyDialog::new();
    }

    /// The selected operation (the index wraps around the grid).
    pub fn current_op(&self) -> (op: ModifyOp)
        ensures
            op == op_at((self.op_index % 13) as int),
    {
        let ops = ModifyOp::all();
        ops[self.op_index % ops.len()]
    }

    /// Moves the selection in the three-column grid of operations, wrapping
    /// around both ways; a cell past the last operation lands on the last one.
    pub fn move_op_grid(&mut self, dx: isize, dy: isize)
        requires
            old(self).op_index / 3 <= isize::MAX,
            isize::MIN < old(self).op_index / 3 + dy <= isize::MAX,
            isize::MIN < old(self).op_index % 3 + dx <= isize::MAX,
        ensures
            ({
                let row = old(self).op_index / 3;
                let col = old(self).op_index % 3;
                let new_col = (col + dx) % 3;
                let new_row = (row + dy) % 5;
                let idx = new_row * 3 + new_col;
                final(self).op_index == if idx >= 13 { 12 } else { idx }
            }),
            *final(self) == (ModifyDialog { op_index: final(self).op_index, ..*old(self) }),
    {
        let cols: isize = 3;
        let total: usize = 13;
        let current = self.op_index;
        let row = (current / 3) as isize;
        let col = (current % 3) as isize;
        let new_col = rem_euclid(col + dx, cols);
        let max_rows: isize = 5;
        let new_row = rem_euclid(row + dy, max_rows);
        let mut next_idx = (new_row * cols + new_col) as usize;
        if next_idx >= total {
            next_idx = total - 1;
        }
        self.op_index = next_idx;
    }

    /// The next unit width: 8, 16, 32, 64, then back to 8.
    pub fn next_bit_size(&mut self)
        ensures
            final(self).bit_size == match old(self).bit_size {
                8 => 16usize,
                16 => 32usize,
                32 => 64usize,
                _ => 8usize,
            },
            *final(self) == (ModifyDialog { bit_size: final(self).bit_size, ..*old(self) }),
    {
        self.bit_size = match self.bit_size {
            8 => 16,
            16 => 32,
            32 => 64,
            _ => 8,
        };
    }
}

/// `a.rem_euclid(m)` for a positive `m`.
fn rem_euclid(a: isize, m: isize) -> (r: isize)
    requires
        m > 0,
        a > isize::MIN,
    ensures
        r == a % m,
        0 <= r < m,
{
    if a >= 0 {
        a % m
    } else {
        let p = -a;
        let r = p % m;
        let q = p / m;
        let res = if r == 0 { 0 } else { m - r };
        proof {
            assert(p == q * m + r) by (nonlinear_arith)
                requires
                    r == p % m,
                    q == p / m,
                    m > 0,
                    p > 0,
            ;
            if r == 0 {
                assert(a == (-q) * m + 0) by (nonlinear_arith)
                    requires
                        p == q * m + r,
                        r == 0,
                        a == -p,
                ;
                vstd::arithmetic::div_mod::lemma_fundamental_div_mod_converse(a as int, m as int, -q, 0);
            } else {
                assert(a == (-q - 1) * m + (m - r)) by (nonlinear_arith)
                    requires
                        p == q * m + r,
                        a == -p,
                ;
                vstd::arithmetic::div_mod::lemma_fundamental_div_mod_converse(a as int, m as int, -q - 1, m - r);
            }
        }
        res
    }
}


// ---------------------------------------------------------------------------
// Units of bytes
// ---------------------------------------------------------------------------

pub open spec fn pow256(n: nat) -> nat
    decreases n,
{
    if n == 0 { 1 } else { 256 * pow256((n - 1) as nat) }
}

/// The little-endian value of `s`.
pub open spec fn le_value(s: Seq<u8>) -> nat
    decreases s.len(),
{
    if s.len() == 0 { 0 } else { s[0] as nat + 256 * le_value(s.drop_first()) }
}

/// The low `n` bytes of `v`, least significant first.
pub open spec fn le_bytes(v: nat, n: nat) -> Seq<u8>
    decreases n,
{
    if n == 0 { seq![] } else { seq![(v % 256) as u8] + le_bytes(v / 256, (n - 1) as nat) }
}

proof fn lemma_le_value_bound(s: Seq<u8>)
    ensures
        le_value(s) < pow256(s.len()),
    decreases s.len(),
{
    if s.len() > 0 {
        lemma_le_value_bound(s.drop_first());
        let r = le_value(s.drop_first());
        let p = pow256((s.len() - 1) as nat);
        assert(s[0] as nat + 256 * r < 256 * p) by (nonlinear_arith)
            requires
                r < p,
                s[0] < 256,
        ;
    }
}

proof fn lemma_pow256_small()
    ensures
        pow256(1) == 0x100,
        pow256(2) == 0x1_0000,
        pow256(4) == 0x1_0000_0000,
        pow256(7) == 0x100_0000_0000_0000,
        pow256(8) == 0x1_0000_0000_0000_0000,
{
    reveal_with_fuel(pow256, 9);
}

proof fn lemma_pow256_mono(a: nat, b: nat)
    requires
        a <= b,
    ensures
        pow256(a) <= pow256(b),
    decreases b - a,
{
    if a < b {
        lemma_pow256_mono(a, (b - 1) as nat);
    }
}

/// The little-endian value of `vals[pos..pos + unit]`.
fn read_le(vals: &[u8], pos: usize, unit: usize) -> (v: u64)
    requires
        1 <= unit <= 8,
        pos + unit <= vals@.len(),
    ensures
        v == le_value(vals@.subrange(pos as int, pos + unit)),
{
    let mut v: u64 = 0;
    let mut j: usize = unit;
    let len = vals.len();
    proof {
        assert(vals@.subrange(pos + unit, pos + unit) =~= Seq::<u8>::empty());
    }
    while j > 0
        invariant
            j <= unit <= 8,
            len == vals@.len(),
            pos + unit <= len,
            v == le_value(vals@.subrange(pos + j, pos + unit)),
        decreases j,
    {
        let b = vals[pos + j - 1];
        proof {
            let s = vals@.subrange(pos + j - 1, pos + unit);
            assert(s.drop_first() =~= vals@.subrange(pos + j, pos + unit));
            assert(s[0] == b);
            lemma_le_value_bound(vals@.subrange(pos + j, pos + unit));
            lemma_pow256_mono((unit - j) as nat, 7);
            lemma_pow256_small();
            assert(v < 0x100_0000_0000_0000);
            assert(v * 256 + b < 0x1_0000_0000_0000_0000) by (nonlinear_arith)
                requires
                    v < 0x100_0000_0000_0000,
                    b < 256,
            ;
        }
        v = v * 256 + b as u64;
        j = j - 1;
    }
    v
}

/// Appends the low `unit` bytes of `v`, least significant first.
fn write_le(out: &mut Vec<u8>, v: u64, unit: usize)
    ensures
        final(out)@ == old(out)@ + le_bytes(v as nat, unit as nat),
{
    let mut x = v;
    let mut j: usize = 0;
    while j < unit
        invariant
            j <= unit,
            out@ + le_bytes(x as nat, (unit - j) as nat) == old(out)@ + le_bytes(v as nat, unit as nat),
        decreases unit - j,
    {
        let ghost o0 = out@;
        out.push((x % 256) as u8);
        assert(le_bytes(x as nat, (unit - j) as nat) == seq![(x % 256) as u8] + le_bytes(
            (x / 256) as nat,
            (unit - j - 1) as nat,
        ));
        assert(out@ + le_bytes((x / 256) as nat, (unit - j - 1) as nat) =~= o0 + le_bytes(x as nat, (unit - j) as nat));
        x = x / 256;
        j = j + 1;
    }
    assert(le_bytes(x as nat, 0) =~= Seq::<u8>::empty());
    assert(out@ =~= out@ + le_bytes(x as nat, 0));
}


// ---------------------------------------------------------------------------
// One unit at a time
// ---------------------------------------------------------------------------

pub open spec fn op8(op: ModifyOp, v: u8, operand: u64) -> u8 {
    let o = operand as u8;
    match op {
        ModifyOp::Add => vstd::wrapping::u8_specs::wrapping_add(v, o),
        ModifyOp::Sub => vstd::wrapping::u8_specs::wrapping_sub(v, o),
        ModifyOp::Mul => vstd::wrapping::u8_specs::wrapping_mul(v, o),
        ModifyOp::Div => if operand != 0 { v / o } else { v },
        ModifyOp::Xor => v ^ o,
        ModifyOp::Or => v | o,
        ModifyOp::And => v & o,
        ModifyOp::ShiftLeft => v << (o & 7),
        ModifyOp::ShiftRight => v >> (o & 7),
        _ => v,
    }
}

pub open spec fn op16(op: ModifyOp, v: u16, operand: u64) -> u16 {
    let o = operand as u16;
    match op {
        ModifyOp::Add => vstd::wrapping::u16_specs::wrapping_add(v, o),
        ModifyOp::Sub => vstd::wrapping::u16_specs::wrapping_sub(v, o),
        ModifyOp::Mul => vstd::wrapping::u16_specs::wrapping_mul(v, o),
        ModifyOp::Div => if o != 0 { v / o } else { v },
        ModifyOp::Xor => v ^ o,
        ModifyOp::Or => v | o,
        ModifyOp::And => v & o,
        ModifyOp::ShiftLeft => v << (o & 15),
        ModifyOp::ShiftRight => v >> (o & 15),
        _ => v,
    }
}

pub open spec fn op32(op: ModifyOp, v: u32, operand: u64) -> u32 {
    let o = operand as u32;
    match op {
        ModifyOp::Add => vstd::wrapping::u32_specs::wrapping_add(v, o),
        ModifyOp::Sub => vstd::wrapping::u32_specs::wrapping_sub(v, o),
        ModifyOp::Mul => vstd::wrapping::u32_specs::wrapping_mul(v, o),
        ModifyOp::Div => if o != 0 { v / o } else { v },
        ModifyOp::Xor => v ^ o,
        ModifyOp::Or => v | o,
        ModifyOp::And => v & o,
        ModifyOp::ShiftLeft => v << (o & 31),
        ModifyOp::ShiftRight => v >> (o & 31),
        _ => v,
    }
}

pub open spec fn op64(op: ModifyOp, v: u64, operand: u64) -> u64 {
    let o = operand;
    match op {
        ModifyOp::Add => vstd::wrapping::u64_specs::wrapping_add(v, o),
        ModifyOp::Sub => vstd::wrapping::u64_specs::wrapping_sub(v, o),
        ModifyOp::Mul => vstd::wrapping::u64_specs::wrapping_mul(v, o),
        ModifyOp::Div => if o != 0 { v / o } else { v },
        ModifyOp::Xor => v ^ o,
        ModifyOp::Or => v | o,
        ModifyOp::And => v & o,
        ModifyOp::ShiftLeft => v << (o & 63),
        ModifyOp::ShiftRight => v >> (o & 63),
        _ => v,
    }
}

/// Unit widths the arithmetic operations act on; other widths leave the bytes
/// as they are.
pub open spec fn supported_unit(unit: nat) -> bool {
    unit == 1 || unit == 2 || unit == 4 || unit == 8
}

/// `op` applied to one unit of `unit` bytes whose value is `v`, arithmetic
/// wrapping at the unit's width.
pub open spec fn unit_op(op: ModifyOp, unit: nat, v: u64, operand: u64) -> u64 {
    if unit == 1 {
        op8(op, v as u8, operand) as u64
    } else if unit == 2 {
        op16(op, v as u16, operand) as u64
    } else if unit == 4 {
        op32(op, v as u32, operand) as u64
    } else {
        op64(op, v, operand)
    }
}

/// The key of the `k`-th unit of a rolling XOR: the operand, plus `step` per
/// unit, wrapping at 64 bits.
pub open spec fn rolling_key(operand: u64, step: u64, k: nat) -> u64
    decreases k,
{
    if k == 0 {
        operand
    } else {
        vstd::wrapping::u64_specs::wrapping_add(rolling_key(operand, step, (k - 1) as nat), step)
    }
}

/// The new value of the `k`-th unit.
pub open spec fn unit_result(op: ModifyOp, unit: nat, v: u64, operand: u64, step: u64, k: nat) -> u64 {
    if op == ModifyOp::RollingXor {
        unit_op(ModifyOp::Xor, unit, v, rolling_key(operand, step, k))
    } else {
        unit_op(op, unit, v, operand)
    }
}

/// `vals` with every whole unit, from the `k`-th on, replaced by its result;
/// bytes after the last whole unit are kept.
pub open spec fn map_units(vals: Seq<u8>, unit: nat, k: nat, op: ModifyOp, operand: u64, step: u64) -> Seq<u8>
    decreases vals.len(),
{
    if unit == 0 || vals.len() < unit {
        vals
    } else {
        le_bytes(unit_result(op, unit, le_value(vals.take(unit as int)) as u64, operand, step, k) as nat, unit)
            + map_units(vals.skip(unit as int), unit, k + 1, op, operand, step)
    }
}

/// `vals` with every whole group of `g` bytes reversed.
pub open spec fn swap_units(vals: Seq<u8>, g: nat) -> Seq<u8>
    decreases vals.len(),
{
    if g == 0 || vals.len() < g {
        vals
    } else {
        vals.take(g as int).reverse() + swap_units(vals.skip(g as int), g)
    }
}

/// One xorshift step.
pub open spec fn xorshift(s: u64) -> u64 {
    let a = s ^ (s << 13u64);
    let b = a ^ (a >> 7u64);
    b ^ (b << 17u64)
}

/// `n` bytes from the xorshift generator started at `seed`.
pub open spec fn xorshift_bytes(seed: u64, n: nat) -> Seq<u8>
    decreases n,
{
    if n == 0 {
        seq![]
    } else {
        seq![xorshift(seed) as u8] + xorshift_bytes(xorshift(seed), (n - 1) as nat)
    }
}

/// The unit width in bytes for a unit of `bit_size` bits (at least one).
pub open spec fn unit_of(bit_size: usize) -> nat {
    if bit_size / 8 < 1 { 1 } else { (bit_size / 8) as nat }
}

/// The bytes `vals` after the operation; `seed` is the random generator's
/// starting state, used by the random fill only.
pub open spec fn modified_values(
    op: ModifyOp,
    vals: Seq<u8>,
    bit_size: usize,
    operand: u64,
    step: u64,
    seed: u64,
) -> Seq<u8> {
    let unit = unit_of(bit_size);
    match op {
        ModifyOp::EndianSwap => swap_units(vals, unit),
        ModifyOp::Not => vals.map_values(|b: u8| !b),
        ModifyOp::Random => xorshift_bytes(seed, vals.len()),
        _ => if supported_unit(unit) {
            map_units(vals, unit, 0, op, operand, step)
        } else {
            vals
        },
    }
}

fn apply_unit(op: ModifyOp, unit: usize, v: u64, operand: u64) -> (r: u64)
    requires
        supported_unit(unit as nat),
        unit == 1 ==> v < 0x100,
        unit == 2 ==> v < 0x1_0000,
        unit == 4 ==> v < 0x1_0000_0000,
        op == ModifyOp::Div && unit == 1 ==> (operand == 0 || operand as u8 != 0),
    ensures
        r == unit_op(op, unit as nat, v, operand),
{
    if unit == 1 {
        let x = v as u8;
        let o = operand as u8;
        let r: u8 = match op {
            ModifyOp::Add => x.wrapping_add(o),
            ModifyOp::Sub => x.wrapping_sub(o),
            ModifyOp::Mul => x.wrapping_mul(o),
            ModifyOp::Div => if operand != 0 { x / o } else { x },
            ModifyOp::Xor => x ^ o,
            ModifyOp::Or => x | o,
            ModifyOp::And => x & o,
            ModifyOp::ShiftLeft => {
                let s = o & 7;
                assert(s < 8) by (bit_vector)
                    requires
                        s == o & 7,
                ;
                x << s
            },
            ModifyOp::ShiftRight => {
                let s = o & 7;
                assert(s < 8) by (bit_vector)
                    requires
                        s == o & 7,
                ;
                x >> s
            },
            _ => x,
        };
        r as u64
    } else if unit == 2 {
        let x = v as u16;
        let o = operand as u16;
        let r: u16 = match op {
            ModifyOp::Add => x.wrapping_add(o),
            ModifyOp::Sub => x.wrapping_sub(o),
            ModifyOp::Mul => x.wrapping_mul(o),
            ModifyOp::Div => if o != 0 { x / o } else { x },
            ModifyOp::Xor => x ^ o,
            ModifyOp::Or => x | o,
            ModifyOp::And => x & o,
            ModifyOp::ShiftLeft => {
                let s = o & 15;
                assert(s < 16) by (bit_vector)
                    requires
                        s == o & 15,
                ;
                x << s
            },
            ModifyOp::ShiftRight => {
                let s = o & 15;
                assert(s < 16) by (bit_vector)
                    requires
                        s == o & 15,
                ;
                x >> s
            },
            _ => x,
        };
        r as u64
    } else if unit == 4 {
        let x = v as u32;
        let o = operand as u32;
        let r: u32 = match op {
            ModifyOp::Add => x.wrapping_add(o),
            ModifyOp::Sub => x.wrapping_sub(o),
            ModifyOp::Mul => x.wrapping_mul(o),
            ModifyOp::Div => if o != 0 { x / o } else { x },
            ModifyOp::Xor => x ^ o,
            ModifyOp::Or => x | o,
            ModifyOp::And => x & o,
            ModifyOp::ShiftLeft => {
                let s = o & 31;
                assert(s < 32) by (bit_vector)
                    requires
                        s == o & 31,
                ;
                x << s
            },
            ModifyOp::ShiftRight => {
                let s = o & 31;
                assert(s < 32) by (bit_vector)
                    requires
                        s == o & 31,
                ;
                x >> s
            },
            _ => x,
        };
        r as u64
    } else {
        let x = v;
        let o = operand;
        match op {
            ModifyOp::Add => x.wrapping_add(o),
            ModifyOp::Sub => x.wrapping_sub(o),
            ModifyOp::Mul => x.wrapping_mul(o),
            ModifyOp::Div => if o != 0 { x / o } else { x },
            ModifyOp::Xor => x ^ o,
            ModifyOp::Or => x | o,
            ModifyOp::And => x & o,
            ModifyOp::ShiftLeft => {
                let s = o & 63;
                assert(s < 64) by (bit_vector)
                    requires
                        s == o & 63,
                ;
                x << s
            },
            ModifyOp::ShiftRight => {
                let s = o & 63;
                assert(s < 64) by (bit_vector)
                    requires
                        s == o & 63,
                ;
                x >> s
            },
            _ => x,
        }
    }
}


/// The whole units of `vals` replaced by their results, any tail kept.
fn transform_units(vals: &[u8], unit: usize, op: ModifyOp, operand: u64, step: u64) -> (out: Vec<u8>)
    requires
        supported_unit(unit as nat),
        op == ModifyOp::Div && unit == 1 ==> (operand == 0 || operand as u8 != 0),
    ensures
        out@ == map_units(vals@, unit as nat, 0, op, operand, step),
{
    let len = vals.len();
    let mut out: Vec<u8> = Vec::new();
    let mut pos: usize = 0;
    let mut key = operand;
    let ghost mut k: nat = 0;
    assert(vals@.skip(0) =~= vals@);
    assert(out@ + map_units(vals@, unit as nat, 0, op, operand, step) =~= map_units(vals@, unit as nat, 0, op, operand, step));
    while len - pos >= unit
        invariant
            len == vals@.len(),
            pos <= len,
            supported_unit(unit as nat),
            op == ModifyOp::Div && unit == 1 ==> (operand == 0 || operand as u8 != 0),
            key == rolling_key(operand, step, k),
            out@ + map_units(vals@.skip(pos as int), unit as nat, k, op, operand, step) == map_units(
                vals@,
                unit as nat,
                0,
                op,
                operand,
                step,
            ),
        decreases len - pos,
    {
        let v = read_le(vals, pos, unit);
        let ghost chunk = vals@.subrange(pos as int, pos + unit);
        proof {
            lemma_le_value_bound(chunk);
            lemma_pow256_small();
            assert(vals@.skip(pos as int).take(unit as int) =~= chunk);
            assert(vals@.skip(pos as int).skip(unit as int) =~= vals@.skip(pos + unit));
        }
        let r = if op == ModifyOp::RollingXor {
            apply_unit(ModifyOp::Xor, unit, v, key)
        } else {
            apply_unit(op, unit, v, operand)
        };
        let ghost o0 = out@;
        write_le(&mut out, r, unit);
        proof {
            assert(map_units(vals@.skip(pos as int), unit as nat, k, op, operand, step) == le_bytes(
                r as nat,
                unit as nat,
            ) + map_units(vals@.skip(pos + unit), unit as nat, k + 1, op, operand, step));
            assert(out@ + map_units(vals@.skip(pos + unit), unit as nat, k + 1, op, operand, step) =~= o0
                + map_units(vals@.skip(pos as int), unit as nat, k, op, operand, step));
            k = k + 1;
        }
        key = key.wrapping_add(step);
        pos = pos + unit;
    }
    let ghost o1 = out@;
    let mut i = pos;
    while i < len
        invariant
            pos <= i <= len,
            len == vals@.len(),
            out@ == o1 + vals@.subrange(pos as int, i as int),
        decreases len - i,
    {
        out.push(vals[i]);
        i = i + 1;
        assert(out@ =~= o1 + vals@.subrange(pos as int, i as int));
    }
    assert(vals@.subrange(pos as int, len as int) =~= vals@.skip(pos as int));
    out
}

/// Every whole group of `g` bytes reversed, any tail kept.
fn swap_groups(vals: &[u8], g: usize) -> (out: Vec<u8>)
    requires
        g >= 1,
    ensures
        out@ == swap_units(vals@, g as nat),
{
    let len = vals.len();
    let mut out: Vec<u8> = Vec::new();
    let mut pos: usize = 0;
    assert(vals@.skip(0) =~= vals@);
    assert(out@ + swap_units(vals@, g as nat) =~= swap_units(vals@, g as nat));
    while len - pos >= g
        invariant
            len == vals@.len(),
            pos <= len,
            g >= 1,
            out@ + swap_units(vals@.skip(pos as int), g as nat) == swap_units(vals@, g as nat),
        decreases len - pos,
    {
        let ghost o0 = out@;
        let ghost chunk = vals@.subrange(pos as int, pos + g);
        let mut j: usize = 0;
        while j < g
            invariant
                j <= g,
                pos + g <= len,
                len == vals@.len(),
                chunk == vals@.subrange(pos as int, pos + g),
                out@ == o0 + chunk.reverse().take(j as int),
            decreases g - j,
        {
            assert(chunk.reverse()[j as int] == vals@[pos + g - 1 - j]);
            out.push(vals[pos + g - 1 - j]);
            j = j + 1;
            assert(out@ =~= o0 + chunk.reverse().take(j as int));
        }
        proof {
            assert(chunk.reverse().take(g as int) =~= chunk.reverse());
            assert(vals@.skip(pos as int).take(g as int) =~= chunk);
            assert(vals@.skip(pos as int).skip(g as int) =~= vals@.skip(pos + g));
            assert(out@ + swap_units(vals@.skip(pos + g), g as nat) =~= o0 + swap_units(vals@.skip(pos as int), g as nat));
        }
        pos = pos + g;
    }
    let ghost o1 = out@;
    let mut i = pos;
    while i < len
        invariant
            pos <= i <= len,
            len == vals@.len(),
            out@ == o1 + vals@.subrange(pos as int, i as int),
        decreases len - i,
    {
        out.push(vals[i]);
        i = i + 1;
        assert(out@ =~= o1 + vals@.subrange(pos as int, i as int));
    }
    assert(vals@.subrange(pos as int, len as int) =~= vals@.skip(pos as int));
    out
}

/// `n` bytes from the xorshift generator started at `seed`.
fn random_bytes(seed: u64, n: usize) -> (out: Vec<u8>)
    ensures
        out@ == xorshift_bytes(seed, n as nat),
{
    let mut out: Vec<u8> = Vec::new();
    let mut s = seed;
    let mut i: usize = 0;
    while i < n
        invariant
            i <= n,
            out@ + xorshift_bytes(s, (n - i) as nat) == xorshift_bytes(seed, n as nat),
        decreases n - i,
    {
        let a = s ^ (s << 13u64);
        let b = a ^ (a >> 7u64);
        let c = b ^ (b << 17u64);
        assert(c == xorshift(s));
        let ghost o0 = out@;
        out.push(c as u8);
        assert(out@ + xorshift_bytes(c, (n - i - 1) as nat) =~= o0 + xorshift_bytes(s, (n - i) as nat));
        s = c;
        i = i + 1;
    }
    assert(out@ + xorshift_bytes(s, 0) =~= out@);
    out
}

/// The bytes `vals` after the operation (see [`modified_values`]).
pub fn modify_values(op: ModifyOp, vals: &[u8], bit_size: usize, operand: u64, step: u64, seed: u64) -> (out: Vec<u8>)
    requires
        op == ModifyOp::Div && unit_of(bit_size) == 1 ==> (operand == 0 || operand as u8 != 0),
    ensures
        out@ == modified_values(op, vals@, bit_size, operand, step, seed),
{
    let unit: usize = if bit_size / 8 < 1 { 1 } else { bit_size / 8 };
    match op {
        ModifyOp::EndianSwap => swap_groups(vals, unit),
        ModifyOp::Not => {
            let mut out: Vec<u8> = Vec::new();
            let mut i: usize = 0;
            while i < vals.len()
                invariant
                    i <= vals@.len(),
                    out@ == vals@.take(i as int).map_values(|b: u8| !b),
                decreases vals.len() - i,
            {
                out.push(!vals[i]);
                i = i + 1;
                assert(out@ =~= vals@.take(i as int).map_values(|b: u8| !b));
            }
            assert(vals@.take(i as int) =~= vals@);
            out
        },
        ModifyOp::Random => random_bytes(seed, vals.len()),
        _ => {
            if unit == 1 || unit == 2 || unit == 4 || unit == 8 {
                transform_units(vals, unit, op, operand, step)
            } else {
                let mut out: Vec<u8> = Vec::new();
                let mut i: usize = 0;
                while i < vals.len()
                    invariant
                        i <= vals@.len(),
                        out@ == vals@.take(i as int),
                    decreases vals.len() - i,
                {
                    out.push(vals[i]);
                    i = i + 1;
                    assert(out@ =~= vals@.take(i as int));
                }
                assert(vals@.take(i as int) =~= vals@);
                out
            }
        },
    }
}


// ---------------------------------------------------------------------------
// Applying the operation to the editor
// ---------------------------------------------------------------------------

/// The range the operation covers: the selection when it spans more than one
/// byte, otherwise the byte under the cursor.
pub open spec fn block_bounds(app: App) -> (usize, usize) {
    if app.hex_view.selection.end > app.hex_view.selection.start {
        (app.hex_view.selection.start, app.hex_view.selection.end)
    } else {
        (app.hex_view.offset, app.hex_view.offset)
    }
}

/// Whether there is a byte at `k`: a pending edit, or a byte of the file.
pub open spec fn has_byte(app: App, k: usize) -> bool {
    app.hex_view.changed_bytes@.contains_key(k) || k < app.file_info.buffer@.len()
}

/// The offsets among `start..start + n` that hold a byte, increasing.
pub open spec fn run_offsets(app: App, start: usize, n: nat) -> Seq<usize>
    decreases n,
{
    if n == 0 {
        seq![]
    } else {
        let k = (start + n - 1) as usize;
        run_offsets(app, start, (n - 1) as nat) + if has_byte(app, k) {
            seq![k]
        } else {
            Seq::<usize>::empty()
        }
    }
}

/// A number typed into the dialog, or `default` when it does not parse.
pub open spec fn typed_number(s: Seq<char>, is_hex: bool, default: u64) -> u64 {
    match parse_radix(s, if is_hex { 16 } else { 10 }, u64::MAX as nat) {
        Some(v) => v as u64,
        None => default,
    }
}

/// `m` after staging `vals[i]` at `offs[i]` for every `i < n` in turn (offsets
/// past the end of the file are ignored).
pub open spec fn staged_upto(m: Map<usize, u8>, offs: Seq<usize>, vals: Seq<u8>, size: usize, n: nat) -> Map<usize, u8>
    decreases n,
{
    if n == 0 {
        m
    } else {
        let p = staged_upto(m, offs, vals, size, (n - 1) as nat);
        let k = offs[n - 1];
        if k < size { p.insert(k, vals[n - 1]) } else { p }
    }
}

/// The undo history after the same stagings: an offset joins it the first time
/// it is edited.
pub open spec fn history_upto(m: Map<usize, u8>, h: Seq<usize>, offs: Seq<usize>, vals: Seq<u8>, size: usize, n: nat) -> Seq<usize>
    decreases n,
{
    if n == 0 {
        h
    } else {
        let p = history_upto(m, h, offs, vals, size, (n - 1) as nat);
        let k = offs[n - 1];
        if k < size && !staged_upto(m, offs, vals, size, (n - 1) as nat).contains_key(k) {
            p.push(k)
        } else {
            p
        }
    }
}

/// The parts of the operation that make it divide by zero: an 8-bit division
/// by an operand that is not zero but whose low byte is.
pub open spec fn divides_by_zero(app: App) -> bool {
    let d = app.hex_view.modify_dialog;
    let operand = typed_number(d.operand_input@, d.is_hex, 0);
    &&& op_at((d.op_index % 13) as int) == ModifyOp::Div
    &&& unit_of(d.bit_size) == 1
    &&& operand != 0
    &&& operand as u8 == 0
}

/// Whether applying the operation reaches the arithmetic: the range starts
/// inside the file, the file is writable, and the range holds a byte.
pub open spec fn computes_block(app: App) -> bool {
    let (start, end) = block_bounds(app);
    &&& start < app.file_info.size
    &&& !app.file_info.is_read_only
    &&& run_offsets(app, start, (end - start + 1) as nat).len() > 0
}

/// Nanoseconds since the Unix epoch, cut to 64 bits (`SystemTime::now`,
/// `SystemTime::duration_since`, `Duration::as_nanos`); `None` when the clock
/// reads before the epoch. Nothing is promised of the value: it depends on the
/// clock.
#[verifier::external_body]
fn clock_nanos() -> (r: Option<u64>) {
    match std::time::SystemTime::now().duration_since(std::time::UNIX_EPOCH) {
        Ok(d) => Some(d.as_nanos() as u64),
        Err(_) => None,
    }
}

/// The state applying the operation leaves: edit mode when bytes were
/// changed, otherwise the state it had.
pub open spec fn block_state(a: App) -> UIState {
    let (start, end) = block_bounds(a);
    let offs = run_offsets(a, start, (end - start + 1) as nat);
    if start >= a.file_info.size || a.file_info.is_read_only || offs.len() == 0 {
        a.state
    } else {
        UIState::HexEditing
    }
}

/// What applying the dialog's operation does to the editor.
pub open spec fn block_post(a: App, b: App) -> bool {
    let (start, end) = block_bounds(a);
    let d = a.hex_view.modify_dialog;
    let offs = run_offsets(a, start, (end - start + 1) as nat);
    if start >= a.file_info.size {
        b == a
    } else if a.file_info.is_read_only {
        error_shown(a, b, M::RoModifyBlock.text(a.config.lang))
    } else if offs.len() == 0 {
        b == a
    } else {
        let vals = offs.map_values(|k: usize| displayed(a, k));
        let operand = typed_number(d.operand_input@, d.is_hex, 0);
        let step = typed_number(d.step_input@, d.is_hex, 1);
        &&& (exists|seed: u64|
            #![trigger modified_values(op_at((d.op_index % 13) as int), vals, d.bit_size, operand, step, seed)]
            {
                let newv = modified_values(op_at((d.op_index % 13) as int), vals, d.bit_size, operand, step, seed);
                &&& seed != 0
                &&& newv.len() == offs.len()
                &&& b.hex_view.changed_bytes@ == staged_upto(
                    a.hex_view.changed_bytes@,
                    offs,
                    newv,
                    a.file_info.size,
                    offs.len(),
                )
                &&& b.hex_view.changed_history@ == history_upto(
                    a.hex_view.changed_bytes@,
                    a.hex_view.changed_history@,
                    offs,
                    newv,
                    a.file_info.size,
                    offs.len(),
                )
            })
        &&& b.state == UIState::HexEditing
        &&& b.hex_view.selection.start == 0
        &&& b.hex_view.selection.end == 0
        &&& b.hex_view.selection.direction is None
        &&& b.hex_view.redo_history == a.hex_view.redo_history
        &&& b.logs == a.logs
    }
}

proof fn lemma_modified_len(op: ModifyOp, vals: Seq<u8>, bit_size: usize, operand: u64, step: u64, seed: u64)
    ensures
        modified_values(op, vals, bit_size, operand, step, seed).len() == vals.len(),
{
    let unit = unit_of(bit_size);
    match op {
        ModifyOp::EndianSwap => lemma_swap_len(vals, unit),
        ModifyOp::Not => {},
        ModifyOp::Random => lemma_xorshift_len(seed, vals.len()),
        _ => {
            if supported_unit(unit) {
                lemma_map_units_len(vals, unit, 0, op, operand, step);
            }
        },
    }
}

proof fn lemma_le_bytes_len(v: nat, n: nat)
    ensures
        le_bytes(v, n).len() == n,
    decreases n,
{
    if n > 0 {
        lemma_le_bytes_len(v / 256, (n - 1) as nat);
    }
}

proof fn lemma_map_units_len(vals: Seq<u8>, unit: nat, k: nat, op: ModifyOp, operand: u64, step: u64)
    ensures
        map_units(vals, unit, k, op, operand, step).len() == vals.len(),
    decreases vals.len(),
{
    if unit > 0 && vals.len() >= unit {
        lemma_map_units_len(vals.skip(unit as int), unit, k + 1, op, operand, step);
        lemma_le_bytes_len(unit_result(op, unit, le_value(vals.take(unit as int)) as u64, operand, step, k) as nat, unit);
    }
}

proof fn lemma_swap_len(vals: Seq<u8>, g: nat)
    ensures
        swap_units(vals, g).len() == vals.len(),
    decreases vals.len(),
{
    if g > 0 && vals.len() >= g {
        lemma_swap_len(vals.skip(g as int), g);
    }
}

proof fn lemma_xorshift_len(seed: u64, n: nat)
    ensures
        xorshift_bytes(seed, n).len() == n,
    decreases n,
{
    if n > 0 {
        lemma_xorshift_len(xorshift(seed), (n - 1) as nat);
    }
}

/// Applies the dialog's operation to the selected block (or the byte under the
/// cursor) and stages the results as pending edits, one unit at a time, the
/// units little-endian. Refused on a read-only file; nothing happens when the
/// block lies past the end of the file.
pub fn apply_block_modification(app: &mut App)
    requires
        computes_block(*old(app)) ==> !divides_by_zero(*old(app)),
    ensures
        block_post(*old(app), *final(app)),
{
    let ghost a = *app;
    let (start, end) = if app.hex_view.selection.end > app.hex_view.selection.start {
        (app.hex_view.selection.start, app.hex_view.selection.end)
    } else {
        (app.hex_view.offset, app.hex_view.offset)
    };
    if start >= app.file_info.size {
        return;
    }
    if app.file_info.is_read_only {
        app.read_only_error(M::RoModifyBlock);
        return;
    }
    let op = app.hex_view.modify_dialog.current_op();
    let is_hex = app.hex_view.modify_dialog.is_hex;
    let bit_size = app.hex_view.modify_dialog.bit_size;
    let radix: u32 = if is_hex { 16 } else { 10 };
    let operand: u64 = match parse_unsigned(chars_of(app.hex_view.modify_dialog.operand_input.as_str()).as_slice(), radix, u64::MAX) {
        Some(v) => v,
        None => 0,
    };
    let step: u64 = match parse_unsigned(chars_of(app.hex_view.modify_dialog.step_input.as_str()).as_slice(), radix, u64::MAX) {
        Some(v) => v,
        None => 1,
    };
    let mut offs: Vec<usize> = Vec::new();
    let mut vals: Vec<u8> = Vec::new();
    let mut k = start;
    loop
        invariant_except_break
            start <= k <= end,
            *app == a,
            offs@ == run_offsets(a, start, (k - start) as nat),
            vals@ == offs@.map_values(|o: usize| displayed(a, o)),
        ensures
            offs@ == run_offsets(a, start, (end - start + 1) as nat),
            vals@ == offs@.map_values(|o: usize| displayed(a, o)),
            *app == a,
        decreases end - k,
    {
        let present = app.hex_view.changed_bytes.contains_key(&k) || k < app.file_info.buffer.len();
        if present {
            let b = crate::hex::edit::displayed_byte(app, k);
            offs.push(k);
            vals.push(b);
        }
        assert(offs@ =~= run_offsets(a, start, (k - start + 1) as nat));
        assert(vals@ =~= offs@.map_values(|o: usize| displayed(a, o)));
        if k == end {
            break;
        }
        k = k + 1;
    }
    if offs.len() == 0 {
        return;
    }
    let mut seed: u64 = 1;
    if op == ModifyOp::Random {
        seed = match clock_nanos() {
            Some(n) => n,
            None => 0x1234_5678_9ABC_DEF0,
        };
        if seed == 0 {
            seed = 0x9268_572b;
        }
    }
    let newv = modify_values(op, vals.as_slice(), bit_size, operand, step, seed);
    proof {
        lemma_modified_len(op, vals@, bit_size, operand, step, seed);
    }
    app.state = UIState::HexEditing;
    let ghost m0 = app.hex_view.changed_bytes@;
    let ghost h0 = app.hex_view.changed_history@;
    let ghost a1 = *app;
    let mut i: usize = 0;
    while i < offs.len()
        invariant
            i <= offs@.len(),
            newv@.len() == offs@.len(),
            app.file_info == a1.file_info,
            app.hex_view.changed_bytes@ == staged_upto(m0, offs@, newv@, a1.file_info.size, i as nat),
            app.hex_view.changed_history@ == history_upto(m0, h0, offs@, newv@, a1.file_info.size, i as nat),
            app.hex_view.redo_history == a1.hex_view.redo_history,
            app.hex_view.selection == a1.hex_view.selection,
            app.state == a1.state,
            app.logs == a1.logs,
        decreases offs.len() - i,
    {
        record_edit(app, offs[i], newv[i]);
        i = i + 1;
    }
    app.hex_view.selection.clear();
    proof {
        let d = a.hex_view.modify_dialog;
        assert(seed != 0);
        assert(op == op_at((d.op_index % 13) as int));
        assert(operand == typed_number(d.operand_input@, d.is_hex, 0));
        assert(step == typed_number(d.step_input@, d.is_hex, 1));
        assert(newv@ == modified_values(op_at((d.op_index % 13) as int), vals@, d.bit_size, operand, step, seed));
        assert(m0 == a.hex_view.changed_bytes@);
    }
}

// ---------------------------------------------------------------------------
// The dialog's keys
// ---------------------------------------------------------------------------

/// The field Tab moves to.
pub open spec fn next_modify_focus(f: ModifyFocus) -> ModifyFocus {
    match f {
        ModifyFocus::Operation => ModifyFocus::Operand,
        ModifyFocus::Operand => ModifyFocus::Step,
        ModifyFocus::Step => ModifyFocus::HexMode,
        ModifyFocus::HexMode => ModifyFocus::BitSize,
        ModifyFocus::BitSize => ModifyFocus::Operation,
    }
}

/// The field Shift+Tab moves to.
pub open spec fn prev_modify_focus(f: ModifyFocus) -> ModifyFocus {
    match f {
        ModifyFocus::Operation => ModifyFocus::BitSize,
        ModifyFocus::Operand => ModifyFocus::Operation,
        ModifyFocus::Step => ModifyFocus::Operand,
        ModifyFocus::HexMode => ModifyFocus::Step,
        ModifyFocus::BitSize => ModifyFocus::HexMode,
    }
}

/// The operation the grid selects after moving by `dx` columns and `dy` rows
/// (see `ModifyDialog::move_op_grid`).
pub open spec fn op_moved(op_index: usize, dx: int, dy: int) -> usize {
    let row = op_index / 3;
    let col = op_index % 3;
    let idx = ((row + dy) % 5) * 3 + (col + dx) % 3;
    if idx >= 13 { 12 } else { idx as usize }
}

/// The text of the focused value box.
pub open spec fn box_text(d: ModifyDialog) -> Seq<char> {
    if d.focus == ModifyFocus::Operand { d.operand_input@ } else { d.step_input@ }
}

/// What a key does in the Modify Block dialog: Esc closes it, Tab and
/// Shift+Tab change field, Enter applies the operation (see `block_post`)
/// and closes; in the operation grid the arrows move, in the value boxes
/// keys edit the text, and Space flips the hex switch or the unit width.
pub open spec fn modify_key_post(a: App, b: App, key: KeyPress) -> bool {
    let d = a.hex_view.modify_dialog;
    let with_dialog = |e: ModifyDialog| b == (App { hex_view: HexView { modify_dialog: e, ..a.hex_view }, ..a });
    match key.code {
        Key::Esc => b == (App { state: UIState::Normal, ..a }),
        Key::Tab => with_dialog(ModifyDialog { anchor: None, focus: next_modify_focus(d.focus), ..d }),
        Key::BackTab => with_dialog(ModifyDialog { anchor: None, focus: prev_modify_focus(d.focus), ..d }),
        Key::Enter => block_post(a, App { state: block_state(a), ..b }) && b.state == UIState::Normal,
        _ => match d.focus {
            ModifyFocus::Operation => match key.code {
                Key::Left => with_dialog(ModifyDialog { op_index: op_moved(d.op_index, -1, 0), ..d }),
                Key::Right => with_dialog(ModifyDialog { op_index: op_moved(d.op_index, 1, 0), ..d }),
                Key::Up => with_dialog(ModifyDialog { op_index: op_moved(d.op_index, 0, -1), ..d }),
                Key::Down => with_dialog(ModifyDialog { op_index: op_moved(d.op_index, 0, 1), ..d }),
                _ => b == a,
            },
            ModifyFocus::HexMode => if key.code == Key::Char(' ') {
                with_dialog(ModifyDialog { is_hex: !d.is_hex, ..d })
            } else {
                b == a
            },
            ModifyFocus::BitSize => if key.code == Key::Char(' ') {
                with_dialog(
                    ModifyDialog {
                        bit_size: match d.bit_size {
                            8 => 16usize,
                            16 => 32usize,
                            32 => 64usize,
                            _ => 8usize,
                        },
                        ..d
                    },
                )
            } else {
                b == a
            },
            _ => match input_edit(key) {
                None => b == a,
                Some(ed) => {
                    let (v, c) = input_edited(box_text(d), d.cursor as nat, ed);
                    let e = b.hex_view.modify_dialog;
                    &&& box_text(e) == v
                    &&& e.cursor == c
                    &&& if d.focus == ModifyFocus::Operand {
                        e == (ModifyDialog { operand_input: e.operand_input, cursor: e.cursor, ..d })
                    } else {
                        e == (ModifyDialog { step_input: e.step_input, cursor: e.cursor, ..d })
                    }
                    &&& with_dialog(e)
                },
            },
        },
    }
}

/// Handles a key in the Modify Block dialog (see `modify_key_post`).
pub fn dialog_modify_events(app: &mut App, key: KeyPress)
    requires
        key.code == Key::Enter && computes_block(*old(app)) ==> !divides_by_zero(*old(app)),
        old(app).hex_view.modify_dialog.op_index <= isize::MAX,
        old(app).hex_view.modify_dialog.operand_input@.len() < usize::MAX,
        old(app).hex_view.modify_dialog.step_input@.len() < usize::MAX,
    ensures
        modify_key_post(*old(app), *final(app), key),
{
    match key.code {
        Key::Esc => {
            app.state = UIState::Normal;
        },
        Key::Tab => {
            app.hex_view.modify_dialog.anchor = None;
            app.hex_view.modify_dialog.focus = match app.hex_view.modify_dialog.focus {
                ModifyFocus::Operation => ModifyFocus::Operand,
                ModifyFocus::Operand => ModifyFocus::Step,
                ModifyFocus::Step => ModifyFocus::HexMode,
                ModifyFocus::HexMode => ModifyFocus::BitSize,
                ModifyFocus::BitSize => ModifyFocus::Operation,
            };
        },
        Key::BackTab => {
            app.hex_view.modify_dialog.anchor = None;
            app.hex_view.modify_dialog.focus = match app.hex_view.modify_dialog.focus {
                ModifyFocus::Operation => ModifyFocus::BitSize,
                ModifyFocus::Operand => ModifyFocus::Operation,
                ModifyFocus::Step => ModifyFocus::Operand,
                ModifyFocus::HexMode => ModifyFocus::Step,
                ModifyFocus::BitSize => ModifyFocus::HexMode,
            };
        },
        Key::Enter => {
            apply_block_modification(app);
            app.state = UIState::Normal;
        },
        _ => modify_field_key(app, key),
    }
}

fn modify_field_key(app: &mut App, key: KeyPress)
    requires
        key.code != Key::Esc && key.code != Key::Tab && key.code != Key::BackTab && key.code != Key::Enter,
        old(app).hex_view.modify_dialog.op_index <= isize::MAX,
        old(app).hex_view.modify_dialog.operand_input@.len() < usize::MAX,
        old(app).hex_view.modify_dialog.step_input@.len() < usize::MAX,
    ensures
        modify_key_post(*old(app), *final(app), key),
{
    match app.hex_view.modify_dialog.focus {
        ModifyFocus::Operation => {
            match key.code {
                Key::Left => app.hex_view.modify_dialog.move_op_grid(-1, 0),
                Key::Right => app.hex_view.modify_dialog.move_op_grid(1, 0),
                Key::Up => app.hex_view.modify_dialog.move_op_grid(0, -1),
                Key::Down => app.hex_view.modify_dialog.move_op_grid(0, 1),
                _ => {},
            }
        },
        ModifyFocus::HexMode => {
            if key.code == Key::Char(' ') {
                app.hex_view.modify_dialog.is_hex = !app.hex_view.modify_dialog.is_hex;
            }
        },
        ModifyFocus::BitSize => {
            if key.code == Key::Char(' ') {
                app.hex_view.modify_dialog.next_bit_size();
            }
        },
        _ => {
            match input_edit_for(key) {
                None => {},
                Some(e) => {
                    let operand = app.hex_view.modify_dialog.focus == ModifyFocus::Operand;
                    let mut text = String::new();
                    if operand {
                        std::mem::swap(&mut text, &mut app.hex_view.modify_dialog.operand_input);
                    } else {
                        std::mem::swap(&mut text, &mut app.hex_view.modify_dialog.step_input);
                    }
                    let mut t = TextInput::with_cursor(text, app.hex_view.modify_dialog.cursor);
                    t.apply(e);
                    app.hex_view.modify_dialog.cursor = t.cursor;
                    if operand {
                        app.hex_view.modify_dialog.operand_input = t.value;
                    } else {
                        app.hex_view.modify_dialog.step_input = t.value;
                    }
                },
            }
        },
    }
}

// ---------------------------------------------------------------------------
// What each operation does to a byte or a word
// ---------------------------------------------------------------------------

proof fn lemma_map1(vals: Seq<u8>, k: nat, op: ModifyOp, operand: u64, step: u64, i: int)
    requires
        0 <= i < vals.len(),
    ensures
        map_units(vals, 1, k, op, operand, step).len() == vals.len(),
        map_units(vals, 1, k, op, operand, step)[i] == (unit_result(op, 1, vals[i] as u64, operand, step, (k + i) as nat)
            as nat % 256) as u8,
    decreases i,
{
    lemma_map_units_len(vals, 1, k, op, operand, step);
    let r = unit_result(op, 1, le_value(vals.take(1)) as u64, operand, step, k);
    let rest = vals.skip(1);
    assert(le_value(vals.take(1).drop_first()) == 0) by {
        assert(vals.take(1).drop_first() =~= Seq::<u8>::empty());
    }
    assert(le_value(vals.take(1)) == vals[0] as nat);
    assert(le_bytes((r as nat) / 256, 0) =~= Seq::<u8>::empty());
    assert(le_bytes(r as nat, 1) =~= seq![(r as nat % 256) as u8]);
    assert(map_units(vals, 1, k, op, operand, step) == le_bytes(r as nat, 1) + map_units(rest, 1, k + 1, op, operand, step));
    if i > 0 {
        lemma_map1(rest, k + 1, op, operand, step, i - 1);
        assert(rest[i - 1] == vals[i]);
    }
}

proof fn lemma_map2(vals: Seq<u8>, k: nat, op: ModifyOp, operand: u64, step: u64, j: int)
    requires
        0 <= j,
        2 * j + 2 <= vals.len(),
    ensures
        map_units(vals, 2, k, op, operand, step).len() == vals.len(),
        ({
            let r = unit_result(op, 2, (vals[2 * j] + 256 * vals[2 * j + 1]) as u64, operand, step, (k + j) as nat) as nat;
            &&& map_units(vals, 2, k, op, operand, step)[2 * j] == (r % 256) as u8
            &&& map_units(vals, 2, k, op, operand, step)[2 * j + 1] == ((r / 256) % 256) as u8
        }),
    decreases j,
{
    lemma_map_units_len(vals, 2, k, op, operand, step);
    let r = unit_result(op, 2, le_value(vals.take(2)) as u64, operand, step, k);
    let rest = vals.skip(2);
    let t1 = vals.take(2).drop_first();
    assert(t1.drop_first() =~= Seq::<u8>::empty());
    assert(t1[0] == vals[1]);
    assert(le_value(t1) == t1[0] + 256 * le_value(t1.drop_first()));
    assert(le_value(t1) == vals[1] as nat);
    assert(le_value(vals.take(2)) == vals[0] + 256 * vals[1]);
    assert(le_bytes((r as nat) / 256 / 256, 0) =~= Seq::<u8>::empty());
    assert(le_bytes((r as nat) / 256, 1) =~= seq![((r as nat / 256) % 256) as u8]);
    assert(le_bytes(r as nat, 2) == seq![(r as nat % 256) as u8] + le_bytes((r as nat) / 256, 1));
    assert(le_bytes(r as nat, 2) =~= seq![(r as nat % 256) as u8, ((r as nat / 256) % 256) as u8]);
    assert(map_units(vals, 2, k, op, operand, step) == le_bytes(r as nat, 2) + map_units(rest, 2, k + 1, op, operand, step));
    if j > 0 {
        lemma_map2(rest, k + 1, op, operand, step, j - 1);
        assert(rest[2 * (j - 1)] == vals[2 * j]);
        assert(rest[2 * (j - 1) + 1] == vals[2 * j + 1]);
    }
}

proof fn lemma_map_tail(vals: Seq<u8>, unit: nat, k: nat, op: ModifyOp, operand: u64, step: u64)
    requires
        unit > 0,
        vals.len() % unit != 0,
    ensures
        map_units(vals, unit, k, op, operand, step).len() == vals.len(),
        map_units(vals, unit, k, op, operand, step).last() == vals.last(),
    decreases vals.len(),
{
    lemma_map_units_len(vals, unit, k, op, operand, step);
    if vals.len() >= unit {
        let rest = vals.skip(unit as int);
        assert(rest.len() % unit != 0) by (nonlinear_arith)
            requires
                rest.len() == vals.len() - unit,
                vals.len() % unit != 0,
                unit > 0,
        ;
        lemma_map_tail(rest, unit, k + 1, op, operand, step);
        let first = le_bytes(unit_result(op, unit, le_value(vals.take(unit as int)) as u64, operand, step, k) as nat, unit);
        lemma_le_bytes_len(unit_result(op, unit, le_value(vals.take(unit as int)) as u64, operand, step, k) as nat, unit);
        let mr = map_units(rest, unit, k + 1, op, operand, step);
        assert(map_units(vals, unit, k, op, operand, step) == first + mr);
        assert(rest.len() > 0) by (nonlinear_arith)
            requires
                rest.len() % unit != 0,
                unit > 0,
        ;
        assert(rest[rest.len() - 1] == vals[vals.len() - 1]);
        assert((first + mr)[(first + mr).len() - 1] == mr[mr.len() - 1]);
    }
}

/// What an operation does to each byte when the unit is a byte: the byte
/// plus, minus or times the operand's low byte (wrapping at 256), or its
/// bitwise XOR, OR or AND with that byte, or shifted left or right by that
/// byte's low three bits; NOT flips every bit.
#[verifier::rlimit(100)]
pub proof fn law_byte_operations(op: ModifyOp, vals: Seq<u8>, operand: u64, step: u64, seed: u64, i: int)
    requires
        0 <= i < vals.len(),
        op == ModifyOp::Add || op == ModifyOp::Sub || op == ModifyOp::Mul || op == ModifyOp::Div || op == ModifyOp::Xor
            || op == ModifyOp::Or || op == ModifyOp::And || op == ModifyOp::ShiftLeft || op == ModifyOp::ShiftRight || op
            == ModifyOp::Not,
        op == ModifyOp::Div ==> operand == 0 || operand as u8 != 0,
    ensures
        modified_values(op, vals, 8, operand, step, seed).len() == vals.len(),
        ({
            let v = vals[i];
            let o = operand as u8;
            modified_values(op, vals, 8, operand, step, seed)[i] == match op {
                ModifyOp::Add => ((v + o) % 256) as u8,
                ModifyOp::Sub => ((v + 256 - o) % 256) as u8,
                ModifyOp::Mul => ((v * o) % 256) as u8,
                ModifyOp::Div => if o != 0 { v / o } else { v },
                ModifyOp::Xor => v ^ o,
                ModifyOp::Or => v | o,
                ModifyOp::And => v & o,
                ModifyOp::ShiftLeft => v << (o & 7),
                ModifyOp::ShiftRight => v >> (o & 7),
                _ => !v,
            }
        }),
{
    assert(unit_of(8) == 1);
    if op == ModifyOp::Not {
        assert(modified_values(op, vals, 8, operand, step, seed) == vals.map_values(|b: u8| !b));
    } else {
        lemma_map1(vals, 0, op, operand, step, i);
        let x = op8(op, vals[i], operand);
        assert(unit_result(op, 1, vals[i] as u64, operand, step, i as nat) == x as u64);
        assert((x as u64) as nat % 256 == x as nat);
        let v = vals[i];
        let o = operand as u8;
        if op == ModifyOp::Add {
            assert(vstd::wrapping::u8_specs::wrapping_add(v, o) == ((v + o) % 256) as u8);
        } else if op == ModifyOp::Sub {
            assert(vstd::wrapping::u8_specs::wrapping_sub(v, o) == ((v + 256 - o) % 256) as u8);
        } else if op == ModifyOp::Mul {
            assert(vstd::wrapping::u8_specs::wrapping_mul(v, o) == ((v * o) % 256) as u8);
        }
    }
}

/// What an operation does to each 16-bit little-endian word: the word plus
/// the operand's low 16 bits (wrapping), or its bitwise XOR, OR or AND with
/// them, or shifted left or right by their low four bits; a byte left over
/// after the last whole word is kept.
proof fn lemma_word_at(op: ModifyOp, vals: Seq<u8>, operand: u64, step: u64, seed: u64, j: int)
    requires
        op == ModifyOp::Add || op == ModifyOp::Sub || op == ModifyOp::Mul || op == ModifyOp::Div || op == ModifyOp::Xor
            || op == ModifyOp::Or || op == ModifyOp::And || op == ModifyOp::ShiftLeft || op == ModifyOp::ShiftRight,
        0 <= j,
        2 * j + 2 <= vals.len(),
    ensures
        ({
            let r = modified_values(op, vals, 16, operand, step, seed);
            let w = (vals[2 * j] + 256 * vals[2 * j + 1]) as u16;
            let o = operand as u16;
            r[2 * j] + 256 * r[2 * j + 1] == word_law(op, w, o)
        }),
{
    assert(unit_of(16) == 2);
    lemma_map2(vals, 0, op, operand, step, j);
    let wv = vals[2 * j] + 256 * vals[2 * j + 1];
    assert(0 <= wv < 65536);
    let w = wv as u16;
    let x = op16(op, w, operand);
    assert(((wv as u64) as u16) == w);
    assert(unit_result(op, 2, wv as u64, operand, step, j as nat) == x as u64);
    let xn = x as nat;
    assert(xn % 256 + 256 * ((xn / 256) % 256) == xn) by (nonlinear_arith)
        requires
            xn < 65536,
    ;
    if op == ModifyOp::Add {
        assert(vstd::wrapping::u16_specs::wrapping_add(w, operand as u16) == ((w + (operand as u16)) % 65536) as u16);
    } else if op == ModifyOp::Sub {
        assert(vstd::wrapping::u16_specs::wrapping_sub(w, operand as u16) == ((w + 65536 - (operand as u16)) % 65536) as u16);
    }
}

/// A 16-bit unit after the operation, as plain arithmetic and bit
/// operations on the unit `w` and the operand's low 16 bits `o`.
pub open spec fn word_law(op: ModifyOp, w: u16, o: u16) -> int {
    match op {
        ModifyOp::Add => ((w + o) % 65536) as int,
        ModifyOp::Sub => ((w + 65536 - o) % 65536) as int,
        ModifyOp::Mul => ((w * o) % 65536) as int,
        ModifyOp::Div => if o != 0 { (w / o) as int } else { w as int },
        ModifyOp::Xor => (w ^ o) as int,
        ModifyOp::Or => (w | o) as int,
        ModifyOp::And => (w & o) as int,
        ModifyOp::ShiftLeft => (w << (o & 15)) as int,
        _ => (w >> (o & 15)) as int,
    }
}

/// What an operation does to each 16-bit little-endian word (see
/// `word_law`): the word plus, minus or times the operand's low 16 bits
/// (wrapping), divided by them, their bitwise XOR, OR or AND, or the word
/// shifted left or right by their low four bits; a byte left over after the
/// last whole word is kept.
pub proof fn law_word_operations(op: ModifyOp, vals: Seq<u8>, operand: u64, step: u64, seed: u64)
    requires
        op == ModifyOp::Add || op == ModifyOp::Sub || op == ModifyOp::Mul || op == ModifyOp::Div || op == ModifyOp::Xor
            || op == ModifyOp::Or || op == ModifyOp::And || op == ModifyOp::ShiftLeft || op == ModifyOp::ShiftRight,
    ensures
        modified_values(op, vals, 16, operand, step, seed).len() == vals.len(),
        forall|j: int|
            #![trigger modified_values(op, vals, 16, operand, step, seed)[2 * j]]
            0 <= j && 2 * j + 2 <= vals.len() ==> modified_values(op, vals, 16, operand, step, seed)[2 * j] + 256
                * modified_values(op, vals, 16, operand, step, seed)[2 * j + 1] == word_law(
                op,
                (vals[2 * j] + 256 * vals[2 * j + 1]) as u16,
                operand as u16,
            ),
        vals.len() % 2 == 1 ==> modified_values(op, vals, 16, operand, step, seed).last() == vals.last(),
{
    assert(unit_of(16) == 2);
    lemma_map_units_len(vals, 2, 0, op, operand, step);
    assert forall|j: int|
        #![trigger modified_values(op, vals, 16, operand, step, seed)[2 * j]]
        0 <= j && 2 * j + 2 <= vals.len() implies modified_values(op, vals, 16, operand, step, seed)[2 * j] + 256
            * modified_values(op, vals, 16, operand, step, seed)[2 * j + 1] == word_law(
            op,
            (vals[2 * j] + 256 * vals[2 * j + 1]) as u16,
            operand as u16,
        ) by {
        lemma_word_at(op, vals, operand, step, seed, j);
    }
    if vals.len() % 2 == 1 {
        lemma_map_tail(vals, 2, 0, op, operand, step);
    }
}

proof fn lemma_pow256_pos(n: nat)
    ensures
        pow256(n) > 0,
    decreases n,
{
    if n > 0 {
        lemma_pow256_pos((n - 1) as nat);
    }
}

proof fn lemma_le_round_trip(x: nat, u: nat)
    ensures
        le_value(le_bytes(x, u)) == x % pow256(u),
    decreases u,
{
    if u == 0 {
        assert(le_bytes(x, 0) =~= Seq::<u8>::empty());
    } else {
        lemma_le_round_trip(x / 256, (u - 1) as nat);
        lemma_pow256_pos((u - 1) as nat);
        let b = le_bytes(x, u);
        assert(b.drop_first() =~= le_bytes(x / 256, (u - 1) as nat));
        vstd::arithmetic::div_mod::lemma_mod_breakdown(x as int, 256, pow256((u - 1) as nat) as int);
    }
}

proof fn lemma_map_unit(vals: Seq<u8>, u: nat, k: nat, op: ModifyOp, operand: u64, step: u64, j: int)
    requires
        u > 0,
        j >= 0,
        j * (u as int) + u <= vals.len(),
    ensures
        map_units(vals, u, k, op, operand, step).len() == vals.len(),
        map_units(vals, u, k, op, operand, step).subrange(j * (u as int), j * (u as int) + u) == le_bytes(
            unit_result(op, u, le_value(vals.subrange(j * (u as int), j * (u as int) + u)) as u64, operand, step, (k + j) as nat) as nat,
            u,
        ),
    decreases j,
{
    lemma_map_units_len(vals, u, k, op, operand, step);
    let r = unit_result(op, u, le_value(vals.take(u as int)) as u64, operand, step, k);
    let first = le_bytes(r as nat, u);
    lemma_le_bytes_len(r as nat, u);
    let rest = vals.skip(u as int);
    let mr = map_units(rest, u, k + 1, op, operand, step);
    assert(map_units(vals, u, k, op, operand, step) == first + mr);
    if j == 0 {
        assert(j * (u as int) == 0) by (nonlinear_arith)
            requires
                j == 0,
        ;
        assert((first + mr).subrange(0, u as int) =~= first);
        assert(vals.subrange(0, u as int) =~= vals.take(u as int));
    } else {
        let j1 = j - 1;
        assert(j1 * (u as int) + u == j * (u as int)) by (nonlinear_arith)
            requires
                j1 == j - 1,
        ;
        assert(j1 * (u as int) >= 0) by (nonlinear_arith)
            requires
                j1 >= 0,
        ;
        lemma_map_unit(rest, u, k + 1, op, operand, step, j1);
        assert((k + 1 + j1) as nat == (k + j) as nat);
        assert((first + mr).subrange(j * (u as int), j * (u as int) + u) =~= mr.subrange(j1 * (u as int), j1 * (u as int) + u));
        assert(rest.subrange(j1 * (u as int), j1 * (u as int) + u) =~= vals.subrange(j * (u as int), j * (u as int) + u));
    }
}

/// What an operation does to each 32-bit little-endian unit: the unit plus
/// the operand's low 32 bits (wrapping), or its bitwise XOR, OR or AND with
/// them, or shifted left or right by their low five bits.
#[verifier::rlimit(100)]
pub proof fn law_dword_operations(op: ModifyOp, vals: Seq<u8>, operand: u64, step: u64, seed: u64, j: int)
    requires
        op == ModifyOp::Add || op == ModifyOp::Sub || op == ModifyOp::Mul || op == ModifyOp::Div || op == ModifyOp::Xor
            || op == ModifyOp::Or || op == ModifyOp::And || op == ModifyOp::ShiftLeft || op == ModifyOp::ShiftRight,
        0 <= j,
        4 * j + 4 <= vals.len(),
    ensures
        modified_values(op, vals, 32, operand, step, seed).len() == vals.len(),
        ({
            let w = le_value(vals.subrange(4 * j, 4 * j + 4)) as u32;
            let o = operand as u32;
            le_value(modified_values(op, vals, 32, operand, step, seed).subrange(4 * j, 4 * j + 4)) == match op {
                ModifyOp::Add => ((w + o) % 0x1_0000_0000) as int,
                ModifyOp::Sub => ((w + 0x1_0000_0000 - o) % 0x1_0000_0000) as int,
                ModifyOp::Mul => ((w * o) % 0x1_0000_0000) as int,
                ModifyOp::Div => if o != 0 { (w / o) as int } else { w as int },
                ModifyOp::Xor => (w ^ o) as int,
                ModifyOp::Or => (w | o) as int,
                ModifyOp::And => (w & o) as int,
                ModifyOp::ShiftLeft => (w << (o & 31)) as int,
                _ => (w >> (o & 31)) as int,
            }
        }),
{
    assert(unit_of(32) == 4);
    assert(j * (4nat as int) == 4 * j);
    lemma_map_unit(vals, 4, 0, op, operand, step, j);
    let c = vals.subrange(4 * j, 4 * j + 4);
    lemma_le_value_bound(c);
    lemma_pow256_small();
    let wv = le_value(c);
    let w = wv as u32;
    assert((wv as u64) as u32 == w);
    let x = op32(op, w, operand);
    assert(unit_result(op, 4, wv as u64, operand, step, j as nat) == x as u64);
    lemma_le_round_trip(x as nat, 4);
    assert((x as nat) % pow256(4) == x as nat);
    if op == ModifyOp::Add {
        assert(vstd::wrapping::u32_specs::wrapping_add(w, operand as u32) == ((w + (operand as u32)) % 0x1_0000_0000) as u32);
    } else if op == ModifyOp::Sub {
        assert(vstd::wrapping::u32_specs::wrapping_sub(w, operand as u32) == ((w + 0x1_0000_0000 - (operand as u32))
            % 0x1_0000_0000) as u32);
    }
}

/// What an operation does to each 64-bit little-endian unit: the unit plus
/// the operand (wrapping), or its bitwise XOR, OR or AND with it, or shifted
/// left or right by the operand's low six bits.
#[verifier::rlimit(100)]
pub proof fn law_qword_operations(op: ModifyOp, vals: Seq<u8>, operand: u64, step: u64, seed: u64, j: int)
    requires
        op == ModifyOp::Add || op == ModifyOp::Sub || op == ModifyOp::Mul || op == ModifyOp::Div || op == ModifyOp::Xor
            || op == ModifyOp::Or || op == ModifyOp::And || op == ModifyOp::ShiftLeft || op == ModifyOp::ShiftRight,
        0 <= j,
        8 * j + 8 <= vals.len(),
    ensures
        modified_values(op, vals, 64, operand, step, seed).len() == vals.len(),
        ({
            let w = le_value(vals.subrange(8 * j, 8 * j + 8)) as u64;
            le_value(modified_values(op, vals, 64, operand, step, seed).subrange(8 * j, 8 * j + 8)) == match op {
                ModifyOp::Add => ((w + operand) % 0x1_0000_0000_0000_0000) as int,
                ModifyOp::Sub => ((w + 0x1_0000_0000_0000_0000 - operand) % 0x1_0000_0000_0000_0000) as int,
                ModifyOp::Mul => ((w * operand) % 0x1_0000_0000_0000_0000) as int,
                ModifyOp::Div => if operand != 0 { (w / operand) as int } else { w as int },
                ModifyOp::Xor => (w ^ operand) as int,
                ModifyOp::Or => (w | operand) as int,
                ModifyOp::And => (w & operand) as int,
                ModifyOp::ShiftLeft => (w << (operand & 63)) as int,
                _ => (w >> (operand & 63)) as int,
            }
        }),
{
    assert(unit_of(64) == 8);
    assert(j * (8nat as int) == 8 * j);
    lemma_map_unit(vals, 8, 0, op, operand, step, j);
    let c = vals.subrange(8 * j, 8 * j + 8);
    lemma_le_value_bound(c);
    lemma_pow256_small();
    let wv = le_value(c);
    let w = wv as u64;
    let x = op64(op, w, operand);
    assert(unit_result(op, 8, wv as u64, operand, step, j as nat) == x);
    lemma_le_round_trip(x as nat, 8);
    assert((x as nat) % pow256(8) == x as nat);
    if op == ModifyOp::Add {
        assert(vstd::wrapping::u64_specs::wrapping_add(w, operand) == ((w + operand) % 0x1_0000_0000_0000_0000) as u64);
    } else if op == ModifyOp::Sub {
        assert(vstd::wrapping::u64_specs::wrapping_sub(w, operand) == ((w + 0x1_0000_0000_0000_0000 - operand)
            % 0x1_0000_0000_0000_0000) as u64);
    }
}

proof fn lemma_rolling_key(operand: u64, step: u64, k: nat)
    ensures
        rolling_key(operand, step, k) as int == (operand + k * step) % 0x1_0000_0000_0000_0000,
    decreases k,
{
    if k == 0 {
        assert(k * step == 0);
        assert((operand as int) % 0x1_0000_0000_0000_0000 == operand as int);
    } else {
        lemma_rolling_key(operand, step, (k - 1) as nat);
        let m: int = 0x1_0000_0000_0000_0000;
        let prev = rolling_key(operand, step, (k - 1) as nat);
        assert((operand + (k - 1) * step) + step == operand + k * step) by (nonlinear_arith);
        vstd::arithmetic::div_mod::lemma_add_mod_noop(operand + (k - 1) * step, step as int, m);
        assert((step as int) % m == step as int);
        assert((prev as int + step) % m == (operand + k * step) % m);
        let w = vstd::wrapping::u64_specs::wrapping_add(prev, step);
        assert(rolling_key(operand, step, k) == w);
        if prev + step > u64::MAX {
            assert(w as int == prev + step - m);
            assert((prev + step - m) % m == (prev + step) % m) by (nonlinear_arith)
                requires
                    m > 0,
            ;
            assert((prev + step - m) % m == prev + step - m);
        } else {
            assert(w as int == prev + step);
            assert((prev + step) % m == prev + step);
        }
    }
}

/// The rolling XOR on bytes: byte `i` is XORed with the low byte of the
/// operand plus `i` steps (the sum wrapping at 64 bits), and NOT flips every
/// bit of every byte whatever the unit.
pub proof fn law_rolling_xor_and_not(vals: Seq<u8>, bit_size: usize, operand: u64, step: u64, seed: u64, i: int)
    requires
        0 <= i < vals.len(),
    ensures
        modified_values(ModifyOp::RollingXor, vals, 8, operand, step, seed).len() == vals.len(),
        modified_values(ModifyOp::RollingXor, vals, 8, operand, step, seed)[i] == vals[i] ^ (((operand + i * step)
            % 0x1_0000_0000_0000_0000) as u8),
        modified_values(ModifyOp::Not, vals, bit_size, operand, step, seed).len() == vals.len(),
        modified_values(ModifyOp::Not, vals, bit_size, operand, step, seed)[i] == !vals[i],
{
    assert(unit_of(8) == 1);
    lemma_map1(vals, 0, ModifyOp::RollingXor, operand, step, i);
    lemma_rolling_key(operand, step, i as nat);
    let key = rolling_key(operand, step, i as nat);
    let x = op8(ModifyOp::Xor, vals[i], key);
    assert(unit_result(ModifyOp::RollingXor, 1, vals[i] as u64, operand, step, i as nat) == x as u64);
    assert((x as u64) as nat % 256 == x as nat);
    assert(key as u8 == (((operand + i * step) % 0x1_0000_0000_0000_0000) as u8));
}

proof fn lemma_swap_unit(vals: Seq<u8>, g: nat, j: int)
    requires
        g > 0,
        j >= 0,
        j * (g as int) + g <= vals.len(),
    ensures
        swap_units(vals, g).len() == vals.len(),
        swap_units(vals, g).subrange(j * (g as int), j * (g as int) + g) == vals.subrange(j * (g as int), j
            * (g as int) + g).reverse(),
    decreases j,
{
    lemma_swap_len(vals, g);
    let first = vals.take(g as int).reverse();
    let rest = vals.skip(g as int);
    let sr = swap_units(rest, g);
    assert(swap_units(vals, g) == first + sr);
    if j == 0 {
        assert(j * (g as int) == 0) by (nonlinear_arith)
            requires
                j == 0,
        ;
        assert((first + sr).subrange(0, g as int) =~= first);
        assert(vals.subrange(0, g as int) =~= vals.take(g as int));
    } else {
        let j1 = j - 1;
        assert(j1 * (g as int) + g == j * (g as int)) by (nonlinear_arith)
            requires
                j1 == j - 1,
        ;
        assert(j1 * (g as int) >= 0) by (nonlinear_arith)
            requires
                j1 >= 0,
        ;
        lemma_swap_unit(rest, g, j1);
        assert((first + sr).subrange(j * (g as int), j * (g as int) + g) =~= sr.subrange(j1 * (g as int), j1 * (g as int)
            + g));
        assert(rest.subrange(j1 * (g as int), j1 * (g as int) + g) =~= vals.subrange(j * (g as int), j * (g as int) + g));
    }
}

/// Swapping endianness reverses the bytes of every whole unit: byte `t` of
/// unit `j` comes from the other end of the same unit.
pub proof fn law_endian_swap(vals: Seq<u8>, bit_size: usize, operand: u64, step: u64, seed: u64, j: int, t: int)
    requires
        j >= 0,
        0 <= t < unit_of(bit_size),
        j * (unit_of(bit_size) as int) + unit_of(bit_size) <= vals.len(),
    ensures
        modified_values(ModifyOp::EndianSwap, vals, bit_size, operand, step, seed).len() == vals.len(),
        modified_values(ModifyOp::EndianSwap, vals, bit_size, operand, step, seed)[j * (unit_of(bit_size) as int) + t]
            == vals[j * (unit_of(bit_size) as int) + unit_of(bit_size) - 1 - t],
{
    let g = unit_of(bit_size);
    lemma_swap_unit(vals, g, j);
    let r = swap_units(vals, g);
    assert(r.subrange(j * (g as int), j * (g as int) + g)[t] == r[j * (g as int) + t]);
    assert(vals.subrange(j * (g as int), j * (g as int) + g).reverse()[t] == vals[j * (g as int) + g - 1 - t]);
}

} // verus!
