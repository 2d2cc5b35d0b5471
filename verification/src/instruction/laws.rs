//! What the conditional branches do, stated over the bytes of the code and the values on
//! the operand stack, for every state in which they can run.

use vstd::prelude::*;

use crate::instruction::dispatch::executed;
use crate::instruction::step::{frame_after, frame_op, frame_ready};
use crate::instruction::{current, ints_on_top, operand, wrap_i32};
use crate::java::{Int, Reference, Value};
use crate::runtime::RuntimeModel;
use crate::heap::{HeapedModel, is_array};
use crate::heap::allocator::ArrayType;
use crate::instruction::step::{heap_after, heap_op, heap_ready};
use crate::instruction::dispatch::Step;
use crate::thread::FrameModel;

verus! {

/// The signed offset stored big-endian, in two's complement, in the two bytes of `code` at
/// `p`.
pub open spec fn signed_offset(code: Seq<u8>, p: int) -> int {
    let u = code[p] as int * 256 + code[p + 1] as int;
    if u < 0x8000 {
        u
    } else {
        u - 0x10000
    }
}

/// Whether the comparison opcode `op` of two ints jumps on `a`, the int below the top, and
/// `b`, the int on top: `if_icmpne` when they differ, `if_icmplt` when `a < b`, `if_icmpge`
/// when `a >= b`, `if_icmple` when `a <= b`.
pub open spec fn int_comparison_holds(op: u8, a: i32, b: i32) -> bool {
    if op == 0xA0 {
        a != b
    } else if op == 0xA1 {
        a < b
    } else if op == 0xA2 {
        a >= b
    } else {
        a <= b
    }
}

/// Whether the comparison opcode `op` of one int jumps on `a`, the int on top: `ifeq` when it
/// is 0, `ifne` when it is not, `iflt` when it is negative.
pub open spec fn int_test_holds(op: u8, a: i32) -> bool {
    if op == 0x99 {
        a == 0
    } else if op == 0x9A {
        a != 0
    } else {
        a < 0
    }
}

/// Whether the current frame of `t` is at a branch with the opcode `op` and an offset after
/// it, with a target inside the machine's range.
pub open spec fn at_branch(t: Seq<FrameModel>, op: u8) -> bool {
    let f = current(t);
    &&& t.len() > 0
    &&& 0 <= f.pc && f.pc + 3 <= f.code.len()
    &&& f.code[f.pc] == op
    &&& 0 <= f.pc + signed_offset(f.code, f.pc + 1) <= usize::MAX
}

/// Whether the `n` operands on top of the current frame's stack are references.
pub open spec fn references_on_top(t: Seq<FrameModel>, n: int) -> bool {
    &&& t.len() > 0
    &&& current(t).stack.len() >= n
    &&& forall|d: int| 0 <= d < n ==> (#[trigger] operand(t, d)) is Reference
}

/// Whether the reference branch `op` jumps on the references on top: `if_acmpne` when the
/// two on top differ, `ifnull` when the one on top is null, `ifnonnull` when it is not.
pub open spec fn reference_test_holds(op: u8, t: Seq<FrameModel>) -> bool {
    let top = operand(t, 0)->Reference_0.0;
    if op == 0xA6 {
        operand(t, 1)->Reference_0.0 != top
    } else if op == 0xC6 {
        top == 0
    } else {
        top != 0
    }
}

/// The number of references the reference branch `op` pops.
pub open spec fn reference_pops(op: u8) -> int {
    if op == 0xA6 {
        2
    } else {
        1
    }
}

/// The frame `f` after a branch at its program counter that pops `n` operands: at the
/// opcode's position plus the offset when `taken`, just past the three bytes of the
/// instruction when not.
pub open spec fn branched(f: FrameModel, n: int, taken: bool) -> FrameModel {
    FrameModel {
        pc: if taken { f.pc + signed_offset(f.code, f.pc + 1) } else { f.pc + 3 },
        stack: f.stack.subrange(0, f.stack.len() - n),
        ..f
    }
}

/// The two bytes after an opcode, read as an unsigned number and narrowed to 16 signed
/// bits, are the signed offset they hold.
proof fn lemma_signed_offset(code: Seq<u8>, p: int)
    requires
        0 <= p && p + 2 <= code.len(),
    ensures
        (crate::binary::be16(code, p) as i16) as int == signed_offset(code, p),
{
    let u = crate::binary::be16(code, p);
    assert(u as int == code[p] as int * 256 + code[p + 1] as int);
    assert((u as i16) as int == (if u < 0x8000 { u as int } else { u as int - 0x10000 })) by (bit_vector);
}

/// The compare-and-branch instructions on two ints jump exactly when their comparison holds:
/// at a branch with the opcode `if_icmpne`, `if_icmplt`, `if_icmpge` or `if_icmple`, with two
/// ints on top, a step pops both and moves to the opcode's position plus the offset when the
/// comparison of the int below the top with the int on top holds, and to the next
/// instruction when it does not (for `if_icmplt` on equal ints, to the next instruction).
/// Nothing else changes.
pub proof fn law_int_comparison_branch(
    t: Seq<FrameModel>,
    me: Option<Reference>,
    r: RuntimeModel,
    t2: Seq<FrameModel>,
    r2: RuntimeModel,
    res: Step,
    op: u8,
)
    requires
        op == 0xA0 || op == 0xA1 || op == 0xA2 || op == 0xA4,
        at_branch(t, op),
        ints_on_top(t, 2),
        executed(t, me, r, t2, r2, res),
    ensures
        res is Next,
        r2 == r,
        t2 == t.drop_last().push(
            branched(
                current(t),
                2,
                int_comparison_holds(op, operand(t, 1)->Int_0.0, operand(t, 0)->Int_0.0),
            ),
        ),
{
    let f = current(t);
    lemma_signed_offset(f.code, f.pc + 1);
    assert(operand(t, 0) is Int);
    assert(operand(t, 1) is Int);
    let t1 = crate::instruction::dispatch::past_opcode(t);
    assert(current(t1).stack == f.stack);
    assert(operand(t1, 0) == operand(t, 0));
    assert(operand(t1, 1) == operand(t, 1));
    assert(frame_op(op));
    assert(frame_ready(op, t1));
    assert(t2 == frame_after(op, t1));
    assert(t2 =~= t.drop_last().push(
        branched(f, 2, int_comparison_holds(op, operand(t, 1)->Int_0.0, operand(t, 0)->Int_0.0)),
    ));
}

/// The branches on one int jump exactly when their test holds: at a branch with the opcode
/// `ifeq`, `ifne` or `iflt`, with an int on top, a step pops it and moves to the opcode's
/// position plus the offset when the test of that int holds, and to the next instruction when
/// it does not. Nothing else changes.
pub proof fn law_int_test_branch(
    t: Seq<FrameModel>,
    me: Option<Reference>,
    r: RuntimeModel,
    t2: Seq<FrameModel>,
    r2: RuntimeModel,
    res: Step,
    op: u8,
)
    requires
        op == 0x99 || op == 0x9A || op == 0x9B,
        at_branch(t, op),
        ints_on_top(t, 1),
        executed(t, me, r, t2, r2, res),
    ensures
        res is Next,
        r2 == r,
        t2 == t.drop_last().push(branched(current(t), 1, int_test_holds(op, operand(t, 0)->Int_0.0))),
{
    let f = current(t);
    lemma_signed_offset(f.code, f.pc + 1);
    assert(operand(t, 0) is Int);
    let t1 = crate::instruction::dispatch::past_opcode(t);
    assert(current(t1).stack == f.stack);
    assert(operand(t1, 0) == operand(t, 0));
    assert(frame_op(op));
    assert(frame_ready(op, t1));
    assert(t2 == frame_after(op, t1));
    assert(t2 =~= t.drop_last().push(branched(f, 1, int_test_holds(op, operand(t, 0)->Int_0.0))));
}

/// The reference branches jump exactly when their test holds: at a branch with the opcode
/// `if_acmpne`, `ifnull` or `ifnonnull`, with the references it tests on top, a step pops them
/// and moves to the opcode's position plus the offset when the test holds, and to the next
/// instruction when it does not. Nothing else changes.
pub proof fn law_reference_branch(
    t: Seq<FrameModel>,
    me: Option<Reference>,
    r: RuntimeModel,
    t2: Seq<FrameModel>,
    r2: RuntimeModel,
    res: Step,
    op: u8,
)
    requires
        op == 0xA6 || op == 0xC6 || op == 0xC7,
        at_branch(t, op),
        references_on_top(t, reference_pops(op)),
        executed(t, me, r, t2, r2, res),
    ensures
        res is Next,
        r2 == r,
        t2 == t.drop_last().push(branched(current(t), reference_pops(op), reference_test_holds(op, t))),
{
    let f = current(t);
    lemma_signed_offset(f.code, f.pc + 1);
    assert(operand(t, 0) is Reference);
    let t1 = crate::instruction::dispatch::past_opcode(t);
    assert(current(t1).stack == f.stack);
    assert(operand(t1, 0) == operand(t, 0));
    if op == 0xA6 {
        assert(operand(t, 1) is Reference);
        assert(operand(t1, 1) == operand(t, 1));
    }
    assert(frame_op(op));
    assert(frame_ready(op, t1));
    assert(t2 == frame_after(op, t1));
    assert(t2 =~= t.drop_last().push(branched(f, reference_pops(op), reference_test_holds(op, t))));
}

/// `goto` always jumps: a step at it moves to the opcode's position plus the offset, and
/// changes nothing else.
pub proof fn law_goto(
    t: Seq<FrameModel>,
    me: Option<Reference>,
    r: RuntimeModel,
    t2: Seq<FrameModel>,
    r2: RuntimeModel,
    res: Step,
)
    requires
        at_branch(t, 0xA7),
        executed(t, me, r, t2, r2, res),
    ensures
        res is Next,
        r2 == r,
        t2 == t.drop_last().push(branched(current(t), 0, true)),
{
    let f = current(t);
    lemma_signed_offset(f.code, f.pc + 1);
    let t1 = crate::instruction::dispatch::past_opcode(t);
    assert(frame_op(0xA7));
    assert(frame_ready(0xA7, t1));
    assert(t2 == frame_after(0xA7, t1));
    assert(f.stack.subrange(0, f.stack.len() - 0) =~= f.stack);
    assert(t2 =~= t.drop_last().push(branched(f, 0, true)));
}

/// Whether the int `v` is `x` taken modulo 2 to the 32: the int that two's complement
/// arithmetic on 32 bits gives for the exact result `x`.
pub open spec fn wraps_to(v: i32, x: int) -> bool {
    (v - x) % 0x1_0000_0000 == 0
}

/// The exact result of the int arithmetic opcode `op` on `a`, the int below the top, and `b`,
/// the int on top: their sum for `iadd`, their difference for `isub`.
pub open spec fn exact_arithmetic(op: u8, a: i32, b: i32) -> int {
    if op == 0x60 {
        a + b
    } else {
        a - b
    }
}

/// The signed byte stored in `b`.
pub open spec fn signed_byte(b: u8) -> int {
    if b < 0x80 {
        b as int
    } else {
        b - 0x100
    }
}

/// Whether the current frame of `t` is at the opcode `op`.
pub open spec fn at_opcode(t: Seq<FrameModel>, op: u8) -> bool {
    let f = current(t);
    &&& t.len() > 0
    &&& 0 <= f.pc < f.code.len()
    &&& f.code[f.pc] == op
}

/// Wrapping into 32 bits keeps an int's value modulo 2 to the 32.
proof fn lemma_wrap_i32(x: int)
    ensures
        wraps_to(wrap_i32(x), x),
{
    let m: int = 0x1_0000_0000;
    let r = x % m;
    assert(0 <= r < m);
    assert((r - x) % m == 0) by (nonlinear_arith)
        requires
            m == 0x1_0000_0000,
            r == x % m,
    ;
    if r > i32::MAX {
        assert(wrap_i32(x) as int == r - m);
        assert((r - m - x) % m == 0) by (nonlinear_arith)
            requires
                m == 0x1_0000_0000,
                (r - x) % m == 0,
        ;
    } else {
        assert(wrap_i32(x) as int == r);
    }
}

/// `iadd` and `isub` compute in two's complement: at either, with two ints on top, a step
/// replaces them by the one int that is their sum, or the one below minus the one on top,
/// modulo 2 to the 32, and moves to the next instruction. Nothing else changes.
pub proof fn law_int_arithmetic(
    t: Seq<FrameModel>,
    me: Option<Reference>,
    r: RuntimeModel,
    t2: Seq<FrameModel>,
    r2: RuntimeModel,
    res: Step,
    op: u8,
)
    requires
        op == 0x60 || op == 0x64,
        at_opcode(t, op),
        ints_on_top(t, 2),
        executed(t, me, r, t2, r2, res),
    ensures
        res is Next,
        r2 == r,
        current(t2).stack.last() matches Value::Int(Int(v)) && wraps_to(
            v,
            exact_arithmetic(op, operand(t, 1)->Int_0.0, operand(t, 0)->Int_0.0),
        ),
        t2 == t.drop_last().push(
            FrameModel {
                pc: current(t).pc + 1,
                stack: current(t).stack.subrange(0, current(t).stack.len() - 2).push(current(t2).stack.last()),
                ..current(t)
            },
        ),
{
    let f = current(t);
    assert(operand(t, 0) is Int);
    assert(operand(t, 1) is Int);
    let t1 = crate::instruction::dispatch::past_opcode(t);
    assert(current(t1).stack == f.stack);
    assert(operand(t1, 0) == operand(t, 0));
    assert(operand(t1, 1) == operand(t, 1));
    assert(frame_op(op));
    assert(frame_ready(op, t1));
    assert(t2 == frame_after(op, t1));
    lemma_wrap_i32(exact_arithmetic(op, operand(t, 1)->Int_0.0, operand(t, 0)->Int_0.0));
    assert(t2 =~= t.drop_last().push(
        FrameModel {
            pc: f.pc + 1,
            stack: f.stack.subrange(0, f.stack.len() - 2).push(current(t2).stack.last()),
            ..f
        },
    ));
}

/// `iinc` adds its signed byte to an int local in two's complement: at it, with the local
/// its index names holding an int, a step makes that local the int equal to the old value
/// plus the constant modulo 2 to the 32, leaves the stack and the other locals as they were,
/// and moves past its three bytes.
pub proof fn law_int_increment(
    t: Seq<FrameModel>,
    me: Option<Reference>,
    r: RuntimeModel,
    t2: Seq<FrameModel>,
    r2: RuntimeModel,
    res: Step,
)
    requires
        at_opcode(t, 0x84),
        current(t).pc + 3 <= current(t).code.len(),
        current(t).code[current(t).pc + 1] < current(t).locals.len(),
        current(t).locals[current(t).code[current(t).pc + 1] as int] is Int,
        executed(t, me, r, t2, r2, res),
    ensures
        res is Next,
        r2 == r,
        ({
            let f = current(t);
            let index = f.code[f.pc + 1] as int;
            &&& current(t2).locals[index] matches Value::Int(Int(v)) && wraps_to(
                v,
                f.locals[index]->Int_0.0 + signed_byte(f.code[f.pc + 2]),
            )
            &&& t2 == t.drop_last().push(
                FrameModel { pc: f.pc + 3, locals: f.locals.update(index, current(t2).locals[index]), ..f },
            )
        }),
{
    let f = current(t);
    let index = f.code[f.pc + 1] as int;
    let b = f.code[f.pc + 2];
    assert((b as i8) as int == (if b < 0x80 { b as int } else { b as int - 0x100 })) by (bit_vector);
    let t1 = crate::instruction::dispatch::past_opcode(t);
    assert(frame_op(0x84));
    assert(frame_ready(0x84, t1));
    assert(t2 == frame_after(0x84, t1));
    lemma_wrap_i32(f.locals[index]->Int_0.0 + signed_byte(b));
    assert(t2 =~= t.drop_last().push(
        FrameModel { pc: f.pc + 3, locals: f.locals.update(index, current(t2).locals[index]), ..f },
    ));
}

/// `iconst_m1` to `iconst_5` push the int their opcode names: the one at `0x03 + i` pushes
/// `i`, from -1 to 5, and moves to the next instruction.
pub proof fn law_int_constant(
    t: Seq<FrameModel>,
    me: Option<Reference>,
    r: RuntimeModel,
    t2: Seq<FrameModel>,
    r2: RuntimeModel,
    res: Step,
    i: int,
)
    requires
        -1 <= i <= 5,
        at_opcode(t, (0x03 + i) as u8),
        executed(t, me, r, t2, r2, res),
    ensures
        res is Next,
        r2 == r,
        t2 == t.drop_last().push(
            FrameModel { pc: current(t).pc + 1, stack: current(t).stack.push(Value::Int(Int(i as i32))), ..current(t) },
        ),
{
    let op = (0x03 + i) as u8;
    let t1 = crate::instruction::dispatch::past_opcode(t);
    assert(frame_op(op));
    assert(frame_ready(op, t1));
    assert(t2 == frame_after(op, t1));
}

/// `iload_<n>` and `aload_<n>` push local `n`: at the opcode `base + n` (`base` being that of
/// `iload_0` or of `aload_0`), with local `n` holding an int or a reference, as the form
/// asks, a step pushes that local's value and moves to the next instruction, and changes
/// nothing else.
pub proof fn law_load_local(
    t: Seq<FrameModel>,
    me: Option<Reference>,
    r: RuntimeModel,
    t2: Seq<FrameModel>,
    r2: RuntimeModel,
    res: Step,
    base: u8,
    n: int,
)
    requires
        base == 0x1A || base == 0x2A,
        0 <= n <= 3,
        at_opcode(t, (base + n) as u8),
        n < current(t).locals.len(),
        if base == 0x1A { current(t).locals[n] is Int } else { current(t).locals[n] is Reference },
        executed(t, me, r, t2, r2, res),
    ensures
        res is Next,
        r2 == r,
        t2 == t.drop_last().push(
            FrameModel { pc: current(t).pc + 1, stack: current(t).stack.push(current(t).locals[n]), ..current(t) },
        ),
{
    let op = (base + n) as u8;
    let t1 = crate::instruction::dispatch::past_opcode(t);
    assert(frame_op(op));
    assert(frame_ready(op, t1));
    assert(t2 == frame_after(op, t1));
}

/// `istore_<n>` and `astore_<n>` pop into local `n`: at the opcode `base + n` (`base` being
/// that of `istore_0` or of `astore_0`), with an int or a reference on top, as the form asks,
/// a step pops it into local `n`, moves to the next instruction, and changes nothing else.
pub proof fn law_store_local(
    t: Seq<FrameModel>,
    me: Option<Reference>,
    r: RuntimeModel,
    t2: Seq<FrameModel>,
    r2: RuntimeModel,
    res: Step,
    base: u8,
    n: int,
)
    requires
        base == 0x3B || base == 0x4B,
        0 <= n <= 3,
        at_opcode(t, (base + n) as u8),
        n < current(t).locals.len(),
        current(t).stack.len() >= 1,
        if base == 0x3B { current(t).stack.last() is Int } else { current(t).stack.last() is Reference },
        executed(t, me, r, t2, r2, res),
    ensures
        res is Next,
        r2 == r,
        t2 == t.drop_last().push(
            FrameModel {
                pc: current(t).pc + 1,
                stack: current(t).stack.drop_last(),
                locals: current(t).locals.update(n, current(t).stack.last()),
                ..current(t)
            },
        ),
{
    let op = (base + n) as u8;
    let t1 = crate::instruction::dispatch::past_opcode(t);
    assert(operand(t1, 0) == current(t).stack.last());
    assert(frame_op(op));
    assert(frame_ready(op, t1));
    assert(t2 == frame_after(op, t1));
}

/// Whether the element `e` is what an array of type `a` holds after `v` is stored in it:
/// a boolean, byte, char or short array keeps the int modulo 2 to the 8 or the 16, as a
/// signed or (for char) unsigned value of that width; the other arrays keep `v` itself.
pub open spec fn holds_stored(a: ArrayType, v: Value, e: Value) -> bool {
    match a {
        ArrayType::BooleanOrByte => e matches Value::Int(Int(c)) && -0x80 <= c < 0x80 && (c - v->Int_0.0) % 0x100 == 0,
        ArrayType::Char => e matches Value::Int(Int(c)) && 0 <= c < 0x1_0000 && (c - v->Int_0.0) % 0x1_0000 == 0,
        ArrayType::Short => e matches Value::Int(Int(c)) && -0x8000 <= c < 0x8000 && (c - v->Int_0.0) % 0x1_0000 == 0,
        _ => e == v,
    }
}

/// Whether the frames `t` are at an array store: an array reference, an index within it and
/// a value of the array's element kind on top, in that order.
pub open spec fn at_array_store(t: Seq<FrameModel>, h: Map<u32, HeapedModel>) -> bool {
    let a = operand(t, 2)->Reference_0.0;
    let i = operand(t, 1)->Int_0.0;
    &&& t.len() > 0
    &&& current(t).stack.len() >= 3
    &&& operand(t, 1) is Int
    &&& operand(t, 2) is Reference
    &&& is_array(h, a)
    &&& 0 <= i < h[a]->Array_0.elements.len()
    &&& crate::heap::allocator::storable(h[a]->Array_0.component, operand(t, 0))
}

/// The narrowing of an int to the elements of a small array keeps it modulo their width.
proof fn lemma_narrowing(v: i32)
    ensures
        -0x80 <= ((v as i8) as i32) < 0x80 && (((v as i8) as i32) - v) % 0x100 == 0,
        0 <= ((v as u16) as i32) < 0x1_0000 && (((v as u16) as i32) - v) % 0x1_0000 == 0,
        -0x8000 <= ((v as i16) as i32) < 0x8000 && (((v as i16) as i32) - v) % 0x1_0000 == 0,
{
    let b = (v as i8) as i32;
    let c = (v as u16) as i32;
    let s = (v as i16) as i32;
    assert(b & 0xff == v & 0xff && -0x80 <= b < 0x80) by (bit_vector)
        requires
            b == (v as i8) as i32,
    ;
    assert(c == v & 0xffff && 0 <= c < 0x1_0000) by (bit_vector)
        requires
            c == (v as u16) as i32,
    ;
    assert(s & 0xffff == v & 0xffff && -0x8000 <= s < 0x8000) by (bit_vector)
        requires
            s == (v as i16) as i32,
    ;
    assert(b as int % 0x100 == (b & 0xff) as int && v as int % 0x100 == (v & 0xff) as int) by (bit_vector);
    assert(c as int % 0x1_0000 == (c & 0xffff) as int && v as int % 0x1_0000 == (v & 0xffff) as int) by (bit_vector);
    assert(s as int % 0x1_0000 == (s & 0xffff) as int) by (bit_vector);
    lemma_same_remainder(b as int, v as int, 0x100);
    lemma_same_remainder(c as int, v as int, 0x1_0000);
    lemma_same_remainder(s as int, v as int, 0x1_0000);
}

/// Two numbers with one remainder differ by a multiple of the divisor.
proof fn lemma_same_remainder(x: int, y: int, m: int)
    requires
        m > 0,
        x % m == y % m,
    ensures
        (x - y) % m == 0,
{
    vstd::arithmetic::div_mod::lemma_fundamental_div_mod(x, m);
    vstd::arithmetic::div_mod::lemma_fundamental_div_mod(y, m);
    let k = x / m - y / m;
    assert(x - y == k * m) by (nonlinear_arith)
        requires
            x == m * (x / m) + (x % m),
            y == m * (y / m) + (y % m),
            x % m == y % m,
            k == x / m - y / m,
    ;
    vstd::arithmetic::div_mod::lemma_mod_multiples_basic(k, m);
}

/// The array stores write one element: at `aastore` or `castore`, with an array reference,
/// an index within it and a value of the array's kind on top, a step pops the three, moves to
/// the next instruction, and makes the element at that index hold the value (narrowed to the
/// element width for small ints); the array keeps its type and length, its other elements,
/// and every other value in the heap stays as it was.
pub proof fn law_array_store(
    t: Seq<FrameModel>,
    me: Option<Reference>,
    r: RuntimeModel,
    t2: Seq<FrameModel>,
    r2: RuntimeModel,
    res: Step,
    op: u8,
)
    requires
        op == 0x53 || op == 0x55,
        at_opcode(t, op),
        at_array_store(t, r.heap),
        executed(t, me, r, t2, r2, res),
    ensures
        res is Next,
        r2 == (RuntimeModel { heap: r2.heap, ..r }),
        t2 == t.drop_last().push(
            FrameModel {
                pc: current(t).pc + 1,
                stack: current(t).stack.subrange(0, current(t).stack.len() - 3),
                ..current(t)
            },
        ),
        ({
            let a = operand(t, 2)->Reference_0.0;
            let i = operand(t, 1)->Int_0.0 as int;
            let before = r.heap[a]->Array_0;
            &&& r2.heap.dom() == r.heap.dom()
            &&& forall|k: u32| k != a && #[trigger] r.heap.contains_key(k) ==> r2.heap[k] == r.heap[k]
            &&& r2.heap[a] matches HeapedModel::Array(after) && after.component == before.component
                && after.elements.len() == before.elements.len()
                && holds_stored(before.component, operand(t, 0), after.elements[i])
                && forall|j: int| 0 <= j < before.elements.len() && j != i ==> after.elements[j] == before.elements[j]
        }),
{
    let f = current(t);
    let t1 = crate::instruction::dispatch::past_opcode(t);
    assert(operand(t1, 0) == operand(t, 0));
    assert(operand(t1, 1) == operand(t, 1));
    assert(operand(t1, 2) == operand(t, 2));
    assert(!frame_op(op));
    assert(heap_op(op));
    assert(heap_ready(op, t1, r.heap));
    assert(heap_after(op, t1, r.heap, t2, r2.heap));
    let a = operand(t, 2)->Reference_0.0;
    let v = operand(t, 0);
    if v is Int {
        lemma_narrowing(v->Int_0.0);
    }
    assert(r2.heap.dom() =~= r.heap.dom());
    assert(t2 =~= t.drop_last().push(
        FrameModel { pc: f.pc + 1, stack: f.stack.subrange(0, f.stack.len() - 3), ..f },
    ));
}

/// The array loads read one element: at `aaload` or `caload` (the latter on a char array),
/// with an array reference and an index within it on top, a step replaces the two by the
/// element at that index and moves to the next instruction; the heap is unchanged.
pub proof fn law_array_load(
    t: Seq<FrameModel>,
    me: Option<Reference>,
    r: RuntimeModel,
    t2: Seq<FrameModel>,
    r2: RuntimeModel,
    res: Step,
    op: u8,
)
    requires
        op == 0x32 || op == 0x34,
        at_opcode(t, op),
        current(t).stack.len() >= 2,
        operand(t, 0) is Int,
        operand(t, 1) is Reference,
        is_array(r.heap, operand(t, 1)->Reference_0.0),
        0 <= operand(t, 0)->Int_0.0 < r.heap[operand(t, 1)->Reference_0.0]->Array_0.elements.len(),
        op == 0x34 ==> r.heap[operand(t, 1)->Reference_0.0]->Array_0.component == ArrayType::Char,
        executed(t, me, r, t2, r2, res),
    ensures
        res is Next,
        r2 == r,
        t2 == t.drop_last().push(
            FrameModel {
                pc: current(t).pc + 1,
                stack: current(t).stack.subrange(0, current(t).stack.len() - 2).push(
                    r.heap[operand(t, 1)->Reference_0.0]->Array_0.elements[operand(t, 0)->Int_0.0 as int],
                ),
                ..current(t)
            },
        ),
{
    let f = current(t);
    let t1 = crate::instruction::dispatch::past_opcode(t);
    assert(operand(t1, 0) == operand(t, 0));
    assert(operand(t1, 1) == operand(t, 1));
    assert(!frame_op(op));
    assert(heap_op(op));
    assert(heap_ready(op, t1, r.heap));
    assert(heap_after(op, t1, r.heap, t2, r2.heap));
    assert(r2 =~= r);
}

/// `arraylength` pushes the length of the array: with an array reference on top, a step
/// replaces it by the number of the array's elements and moves to the next instruction; the
/// heap is unchanged.
pub proof fn law_array_length(
    t: Seq<FrameModel>,
    me: Option<Reference>,
    r: RuntimeModel,
    t2: Seq<FrameModel>,
    r2: RuntimeModel,
    res: Step,
)
    requires
        crate::runtime::runtime_wf(r),
        at_opcode(t, 0xBE),
        current(t).stack.len() >= 1,
        operand(t, 0) is Reference,
        is_array(r.heap, operand(t, 0)->Reference_0.0),
        executed(t, me, r, t2, r2, res),
    ensures
        res is Next,
        r2 == r,
        current(t2).stack.last() matches Value::Int(Int(n)) && n == r.heap[operand(
            t,
            0,
        )->Reference_0.0]->Array_0.elements.len(),
        t2 == t.drop_last().push(
            FrameModel {
                pc: current(t).pc + 1,
                stack: current(t).stack.drop_last().push(current(t2).stack.last()),
                ..current(t)
            },
        ),
{
    let f = current(t);
    let t1 = crate::instruction::dispatch::past_opcode(t);
    assert(operand(t1, 0) == operand(t, 0));
    assert(!frame_op(0xBE));
    assert(heap_op(0xBE));
    assert(heap_ready(0xBE, t1, r.heap));
    assert(heap_after(0xBE, t1, r.heap, t2, r2.heap));
    assert(crate::heap::allocator::array_wf(r.heap[operand(t, 0)->Reference_0.0]->Array_0));
    assert(r2 =~= r);
    assert(f.stack.subrange(0, f.stack.len() - 1) =~= f.stack.drop_last());
    assert(t2 =~= t.drop_last().push(
        FrameModel { pc: f.pc + 1, stack: f.stack.drop_last().push(current(t2).stack.last()), ..f },
    ));
}

} // verus!
