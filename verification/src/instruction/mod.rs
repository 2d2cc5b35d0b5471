//! The instructions of the interpreter, each acting on the current frame of a thread.
//!
//! Every instruction states its effect as the thread's frames after it, in terms of the
//! frames before it: most replace the current frame by one with other operands, locals or
//! program counter.

use vstd::prelude::*;

use crate::binary::be16;
use crate::java::Value;
use crate::method_area::const_pool::RuntimeConst;
use crate::runtime::RuntimeModel;
use crate::thread::FrameModel;

pub mod array;
pub mod branch;
pub mod class;
pub mod constant;
pub mod conv;
pub mod dup;
pub mod locals;
pub mod math;
pub mod new;
pub mod exit;
pub mod field;
pub mod invoke;
pub mod stack;
pub mod sync;
pub mod step;
pub mod dispatch;
pub mod throw;
pub mod laws;

pub use dispatch::{Step, instruction};

verus! {

/// The current frame of a thread whose frames are `t`.
pub open spec fn current(t: Seq<FrameModel>) -> FrameModel {
    t.last()
}

/// Whether the thread has a current frame with at least `n` operands.
pub open spec fn has_operands(t: Seq<FrameModel>, n: int) -> bool {
    t.len() > 0 && current(t).stack.len() >= n
}

/// The operand `depth` places below the top of the current frame's stack; 0 is the top.
pub open spec fn operand(t: Seq<FrameModel>, depth: int) -> Value {
    let s = current(t).stack;
    s[s.len() - 1 - depth]
}

/// The int held by the operand `depth` places below the top.
pub open spec fn int_operand(t: Seq<FrameModel>, depth: int) -> i32 {
    operand(t, depth)->Int_0.0
}

/// The long held by the operand `depth` places below the top.
pub open spec fn long_operand(t: Seq<FrameModel>, depth: int) -> i64 {
    operand(t, depth)->Long_0.0
}

/// The reference held by the operand `depth` places below the top.
pub open spec fn reference_operand(t: Seq<FrameModel>, depth: int) -> u32 {
    operand(t, depth)->Reference_0.0
}

/// Whether the `n` operands on top of the current frame's stack are ints.
pub open spec fn ints_on_top(t: Seq<FrameModel>, n: int) -> bool {
    &&& has_operands(t, n)
    &&& forall|d: int| 0 <= d < n ==> (#[trigger] operand(t, d)) is Int
}

/// The frame `f` with its top `n` operands removed.
pub open spec fn pop_operands(f: FrameModel, n: int) -> FrameModel {
    FrameModel { stack: f.stack.subrange(0, f.stack.len() - n), ..f }
}

/// The frame `f` with `v` pushed on its operand stack.
pub open spec fn push_operand(f: FrameModel, v: Value) -> FrameModel {
    FrameModel { stack: f.stack.push(v), ..f }
}

/// The frame `f` with its top `n` operands replaced by `v`.
pub open spec fn replace_operands(f: FrameModel, n: int, v: Value) -> FrameModel {
    push_operand(pop_operands(f, n), v)
}

/// The frame `f` with its program counter moved `n` bytes on.
pub open spec fn advance(f: FrameModel, n: int) -> FrameModel {
    FrameModel { pc: f.pc + n, ..f }
}

/// Whether the current frame has `n` more bytes of code to read.
pub open spec fn has_code(t: Seq<FrameModel>, n: int) -> bool {
    t.len() > 0 && current(t).pc + n <= current(t).code.len()
}

/// The two-byte index that follows the opcode of the current frame.
pub open spec fn code_u16(f: FrameModel) -> u16 {
    be16(f.code, f.pc)
}

/// Whether the class of the frame `f` has an entry at `index` of its constant pool.
pub open spec fn has_pool_entry(r: RuntimeModel, f: FrameModel, index: u16) -> bool {
    &&& f.class < r.area.classes.len()
    &&& r.area.classes[f.class as int].const_pool.contains_key(index)
}

/// The entry at `index` of the constant pool of the class of the frame `f`.
pub open spec fn pool_entry(r: RuntimeModel, f: FrameModel, index: u16) -> RuntimeConst {
    r.area.classes[f.class as int].const_pool[index]
}

/// `x` reduced into the range of `i32`, as two's complement arithmetic wraps it.
pub open spec fn wrap_i32(x: int) -> i32 {
    let r = x % 0x1_0000_0000;
    if r > i32::MAX {
        (r - 0x1_0000_0000) as i32
    } else {
        r as i32
    }
}

/// `x` reduced into the range of `i64`, as two's complement arithmetic wraps it.
pub open spec fn wrap_i64(x: int) -> i64 {
    let r = x % 0x1_0000_0000_0000_0000;
    if r > i64::MAX {
        (r - 0x1_0000_0000_0000_0000) as i64
    } else {
        r as i64
    }
}

/// Whether `code` is an opcode this interpreter knows.
pub open spec fn known_opcode(code: u8) -> bool {
    match code {
        0x01 | 0x02 | 0x03 | 0x04 | 0x05 | 0x06 | 0x07 | 0x08 | 0x09 | 0x0A |
        0x10 | 0x11 | 0x12 | 0x13 | 0x14 | 0x15 | 0x16 | 0x19 | 0x1A | 0x1B |
        0x1C | 0x1D | 0x2A | 0x2B | 0x2C | 0x2D | 0x32 | 0x34 | 0x36 | 0x3A |
        0x3B | 0x3C | 0x3D | 0x3E | 0x4B | 0x4C | 0x4D | 0x4E | 0x53 | 0x55 |
        0x57 | 0x59 | 0x60 | 0x64 | 0x84 | 0x9A | 0x9B | 0x99 | 0xA0 | 0xA1 |
        0xA2 | 0xA4 | 0xA6 | 0xA7 | 0xAC | 0xB0 | 0xB1 | 0xB2 | 0xB3 | 0xB4 |
        0xB5 | 0xB6 | 0xB7 | 0xB8 | 0xBB | 0xBC | 0xBD | 0xBE | 0xBF | 0xC0 |
        0xC1 | 0xC2 | 0xC3 | 0xC6 | 0xC7 => true,
        _ => false,
    }
}

/// The mnemonic of the opcode `code`, for the opcodes this interpreter knows.
pub open spec fn mnemonic(code: u8) -> Seq<char> {
    match code {
        0x01 => "aconst_null"@,
        0x02 => "iconst_m1"@,
        0x03 => "iconst_0"@,
        0x04 => "iconst_1"@,
        0x05 => "iconst_2"@,
        0x06 => "iconst_3"@,
        0x07 => "iconst_4"@,
        0x08 => "iconst_5"@,
        0x09 => "lconst_0"@,
        0x0A => "lconst_1"@,
        0x10 => "bipush"@,
        0x11 => "sipush"@,
        0x12 => "ldc"@,
        0x13 => "ldc_w"@,
        0x14 => "ldc2_w"@,
        0x15 => "iload"@,
        0x16 => "lload"@,
        0x19 => "aload"@,
        0x1A => "iload_0"@,
        0x1B => "iload_1"@,
        0x1C => "iload_2"@,
        0x1D => "iload_3"@,
        0x2A => "aload_0"@,
        0x2B => "aload_1"@,
        0x2C => "aload_2"@,
        0x2D => "aload_3"@,
        0x32 => "aaload"@,
        0x34 => "caload"@,
        0x36 => "istore"@,
        0x3A => "astore"@,
        0x3B => "istore_0"@,
        0x3C => "istore_1"@,
        0x3D => "istore_2"@,
        0x3E => "istore_3"@,
        0x4B => "astore_0"@,
        0x4C => "astore_1"@,
        0x4D => "astore_2"@,
        0x4E => "astore_3"@,
        0x53 => "aastore"@,
        0x55 => "castore"@,
        0x57 => "pop"@,
        0x59 => "dup"@,
        0x60 => "iadd"@,
        0x64 => "isub"@,
        0x84 => "iinc"@,
        0x9A => "ifne"@,
        0x9B => "iflt"@,
        0x99 => "ifeq"@,
        0xA0 => "if_icmpne"@,
        0xA1 => "if_icmplt"@,
        0xA2 => "if_icmpge"@,
        0xA4 => "if_icmple"@,
        0xA6 => "if_acmpne"@,
        0xA7 => "goto"@,
        0xAC => "ireturn"@,
        0xB0 => "areturn"@,
        0xB1 => "return"@,
        0xB2 => "getstatic"@,
        0xB3 => "putstatic"@,
        0xB4 => "getfield"@,
        0xB5 => "putfield"@,
        0xB6 => "invokevirtual"@,
        0xB7 => "invokespecial"@,
        0xB8 => "invokestatic"@,
        0xBB => "new"@,
        0xBC => "newarray"@,
        0xBD => "anewarray"@,
        0xBE => "arraylength"@,
        0xBF => "athrow"@,
        0xC0 => "checkcast"@,
        0xC1 => "instanceof"@,
        0xC2 => "monitorenter"@,
        0xC3 => "monitorexit"@,
        0xC6 => "ifnull"@,
        0xC7 => "ifnonnull"@,
        _ => Seq::empty(),
    }
}

/// Whether `code` is an opcode this interpreter knows.
pub fn is_known_opcode(code: u8) -> (b: bool)
    ensures
        b == known_opcode(code),
{
    match code {
        0x01 | 0x02 | 0x03 | 0x04 | 0x05 | 0x06 | 0x07 | 0x08 | 0x09 | 0x0A |
        0x10 | 0x11 | 0x12 | 0x13 | 0x14 | 0x15 | 0x16 | 0x19 | 0x1A | 0x1B |
        0x1C | 0x1D | 0x2A | 0x2B | 0x2C | 0x2D | 0x32 | 0x34 | 0x36 | 0x3A |
        0x3B | 0x3C | 0x3D | 0x3E | 0x4B | 0x4C | 0x4D | 0x4E | 0x53 | 0x55 |
        0x57 | 0x59 | 0x60 | 0x64 | 0x84 | 0x9A | 0x9B | 0x99 | 0xA0 | 0xA1 |
        0xA2 | 0xA4 | 0xA6 | 0xA7 | 0xAC | 0xB0 | 0xB1 | 0xB2 | 0xB3 | 0xB4 |
        0xB5 | 0xB6 | 0xB7 | 0xB8 | 0xBB | 0xBC | 0xBD | 0xBE | 0xBF | 0xC0 |
        0xC1 | 0xC2 | 0xC3 | 0xC6 | 0xC7 => true,
        _ => false,
    }
}

/// The mnemonic of the opcode `code`; the original stops the program on an opcode it does not
/// know.
pub fn op_name(code: u8) -> (name: &'static str)
    requires
        known_opcode(code),
    ensures
        name@ == mnemonic(code),
{
    match code {
        0x01 => "aconst_null",
        0x02 => "iconst_m1",
        0x03 => "iconst_0",
        0x04 => "iconst_1",
        0x05 => "iconst_2",
        0x06 => "iconst_3",
        0x07 => "iconst_4",
        0x08 => "iconst_5",
        0x09 => "lconst_0",
        0x0A => "lconst_1",
        0x10 => "bipush",
        0x11 => "sipush",
        0x12 => "ldc",
        0x13 => "ldc_w",
        0x14 => "ldc2_w",
        0x15 => "iload",
        0x16 => "lload",
        0x19 => "aload",
        0x1A => "iload_0",
        0x1B => "iload_1",
        0x1C => "iload_2",
        0x1D => "iload_3",
        0x2A => "aload_0",
        0x2B => "aload_1",
        0x2C => "aload_2",
        0x2D => "aload_3",
        0x32 => "aaload",
        0x34 => "caload",
        0x36 => "istore",
        0x3A => "astore",
        0x3B => "istore_0",
        0x3C => "istore_1",
        0x3D => "istore_2",
        0x3E => "istore_3",
        0x4B => "astore_0",
        0x4C => "astore_1",
        0x4D => "astore_2",
        0x4E => "astore_3",
        0x53 => "aastore",
        0x55 => "castore",
        0x57 => "pop",
        0x59 => "dup",
        0x60 => "iadd",
        0x64 => "isub",
        0x84 => "iinc",
        0x9A => "ifne",
        0x9B => "iflt",
        0x99 => "ifeq",
        0xA0 => "if_icmpne",
        0xA1 => "if_icmplt",
        0xA2 => "if_icmpge",
        0xA4 => "if_icmple",
        0xA6 => "if_acmpne",
        0xA7 => "goto",
        0xAC => "ireturn",
        0xB0 => "areturn",
        0xB1 => "return",
        0xB2 => "getstatic",
        0xB3 => "putstatic",
        0xB4 => "getfield",
        0xB5 => "putfield",
        0xB6 => "invokevirtual",
        0xB7 => "invokespecial",
        0xB8 => "invokestatic",
        0xBB => "new",
        0xBC => "newarray",
        0xBD => "anewarray",
        0xBE => "arraylength",
        0xBF => "athrow",
        0xC0 => "checkcast",
        0xC1 => "instanceof",
        0xC2 => "monitorenter",
        0xC3 => "monitorexit",
        0xC6 => "ifnull",
        0xC7 => "ifnonnull",
        _ => unreached(),
    }
}

} // verus!
