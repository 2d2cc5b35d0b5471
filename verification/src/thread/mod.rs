//! A thread of the virtual machine: its stack of frames, each frame with a program counter into
//! its method's code, an operand stack and local variables.

use vstd::prelude::*;

use crate::binary::{be16, read_be16};
use crate::java::{Int, Reference, Value};

verus! {

/// The operand stack of a frame, its last value on top.
pub struct OperandStack {
    values: Vec<Value>,
}

impl View for OperandStack {
    type V = Seq<Value>;

    closed spec fn view(&self) -> Seq<Value> {
        self.values@
    }
}

impl OperandStack {
    /// An empty operand stack.
    pub fn new() -> (s: Self)
        ensures
            s@ == Seq::<Value>::empty(),
    {
        OperandStack { values: Vec::new() }
    }

    /// The number of values on the stack.
    pub fn len(&self) -> (n: usize)
        ensures
            n == self@.len(),
    {
        self.values.len()
    }

    /// Push a value on top of the stack.
    pub fn push(&mut self, value: Value)
        ensures
            final(self)@ == old(self)@.push(value),
    {
        self.values.push(value);
    }

    /// Pop the value on top of the stack.
    pub fn pop(&mut self) -> (value: Value)
        requires
            old(self)@.len() > 0,
        ensures
            value == old(self)@.last(),
            final(self)@ == old(self)@.drop_last(),
    {
        self.values.pop().unwrap()
    }

    /// Pop a value of the first category (anything but a long or a double) off the stack.
    pub fn pop_cat_one(&mut self) -> (value: Value)
        requires
            old(self)@.len() > 0,
            old(self)@.last().spec_category() == 1,
        ensures
            value == old(self)@.last(),
            final(self)@ == old(self)@.drop_last(),
    {
        self.pop()
    }

    /// Push a value of the first category (anything but a long or a double) on the stack.
    pub fn push_cat_one(&mut self, value: Value)
        requires
            value.spec_category() == 1,
        ensures
            final(self)@ == old(self)@.push(value),
    {
        self.push(value);
    }

    /// The value `depth` places below the top; 0 is the top.
    pub fn peek(&self, depth: usize) -> (value: Value)
        requires
            depth < self@.len(),
        ensures
            value == self@[self@.len() - 1 - depth],
    {
        self.values[self.values.len() - 1 - depth]
    }
}

/// The local variables of a frame, one value per slot.
pub struct LocalVars {
    values: Vec<Value>,
}

impl View for LocalVars {
    type V = Seq<Value>;

    closed spec fn view(&self) -> Seq<Value> {
        self.values@
    }
}

impl LocalVars {
    /// `size` slots, each holding the int 0.
    pub fn new(size: usize) -> (l: Self)
        ensures
            l@ == Seq::new(size as nat, |i: int| Value::Int(Int(0))),
    {
        let mut values: Vec<Value> = Vec::new();
        let mut i: usize = 0;
        while i < size
            invariant
                i <= size,
                values@ == Seq::new(i as nat, |j: int| Value::Int(Int(0))),
            decreases size - i,
        {
            values.push(Value::Int(Int(0)));
            i += 1;
            proof {
                assert(values@ =~= Seq::new(i as nat, |j: int| Value::Int(Int(0))));
            }
        }
        LocalVars { values }
    }

    /// The number of slots.
    pub fn len(&self) -> (n: usize)
        ensures
            n == self@.len(),
    {
        self.values.len()
    }

    /// Store `value` in slot `index`.
    pub fn store_value(&mut self, index: u16, value: Value)
        requires
            index < old(self)@.len(),
        ensures
            final(self)@ == old(self)@.update(index as int, value),
    {
        self.values.set(index as usize, value);
    }

    /// The value in slot `index`, for any slot.
    pub fn get(&self, index: usize) -> (value: Value)
        requires
            index < self@.len(),
        ensures
            value == self@[index as int],
    {
        self.values[index]
    }

    /// The value in slot `index`.
    pub fn load_cat_one(&self, index: u16) -> (value: Value)
        requires
            index < self@.len(),
        ensures
            value == self@[index as int],
    {
        self.values[index as usize]
    }
}

/// The model of a frame.
pub struct FrameModel {
    /// The index of the next byte of code to read.
    pub pc: int,
    /// The code of the frame's method.
    pub code: Seq<u8>,
    /// The operand stack, its last value on top.
    pub stack: Seq<Value>,
    /// The local variables.
    pub locals: Seq<Value>,
    /// The class whose method this frame runs, by its index in the method area.
    pub class: usize,
    /// The method this frame runs, by its index among its class's methods.
    pub method: usize,
}

/// A frame of a thread's stack: one invocation of a method.
pub struct Frame {
    /// The index of the next byte of code to read.
    pub pc: usize,
    /// The code of the frame's method.
    pub code: Vec<u8>,
    pub operand_stack: OperandStack,
    pub local_vars: LocalVars,
    /// The class whose method this frame runs, by its index in the method area.
    pub class: usize,
    /// The method this frame runs, by its index among its class's methods.
    pub method: usize,
}

impl View for Frame {
    type V = FrameModel;

    open spec fn view(&self) -> FrameModel {
        FrameModel {
            pc: self.pc as int,
            code: self.code@,
            stack: self.operand_stack@,
            locals: self.local_vars@,
            class: self.class,
            method: self.method,
        }
    }
}

impl Frame {
    /// A frame at the start of `code`, with an empty operand stack and `max_locals` local
    /// variables.
    pub fn new(code: Vec<u8>, max_locals: u16, class: usize, method: usize) -> (f: Self)
        ensures
            f@ == (FrameModel {
                pc: 0,
                code: code@,
                stack: Seq::empty(),
                locals: Seq::new(max_locals as nat, |i: int| Value::Int(Int(0))),
                class,
                method,
            }),
    {
        Frame {
            pc: 0,
            code,
            operand_stack: OperandStack::new(),
            local_vars: LocalVars::new(max_locals as usize),
            class,
            method,
        }
    }

    /// Read the next byte of code.
    pub fn read_u8(&mut self) -> (b: u8)
        requires
            old(self).pc < old(self).code@.len(),
        ensures
            b == old(self).code@[old(self).pc as int],
            final(self)@ == (FrameModel { pc: old(self).pc + 1, ..old(self)@ }),
    {
        let _length = self.code.len();
        let b = self.code[self.pc];
        self.pc = self.pc + 1;
        b
    }

    /// Read the next byte of code as a signed byte.
    pub fn read_i8(&mut self) -> (b: i8)
        requires
            old(self).pc < old(self).code@.len(),
        ensures
            b == old(self).code@[old(self).pc as int] as i8,
            final(self)@ == (FrameModel { pc: old(self).pc + 1, ..old(self)@ }),
    {
        let b = self.read_u8();
        b as i8
    }

    /// Read the next two bytes of code as a big-endian unsigned value.
    pub fn read_u16(&mut self) -> (v: u16)
        requires
            old(self).pc + 2 <= old(self).code@.len(),
        ensures
            v == be16(old(self).code@, old(self).pc as int),
            final(self)@ == (FrameModel { pc: old(self).pc + 2, ..old(self)@ }),
    {
        let _length = self.code.len();
        let v = read_be16(self.code.as_slice(), self.pc);
        self.pc = self.pc + 2;
        v
    }

    /// The next two bytes of code as a big-endian unsigned value, without reading them.
    pub fn peek_u16(&self) -> (v: u16)
        requires
            self.pc + 2 <= self.code@.len(),
        ensures
            v == be16(self.code@, self.pc as int),
    {
        let _length = self.code.len();
        read_be16(self.code.as_slice(), self.pc)
    }

    /// The next byte of code, without reading it.
    pub fn peek_u8(&self) -> (b: u8)
        requires
            self.pc < self.code@.len(),
        ensures
            b == self.code@[self.pc as int],
    {
        self.code[self.pc]
    }

    /// Read the next two bytes of code as a big-endian signed value.
    pub fn read_i16(&mut self) -> (v: i16)
        requires
            old(self).pc + 2 <= old(self).code@.len(),
        ensures
            v == be16(old(self).code@, old(self).pc as int) as i16,
            final(self)@ == (FrameModel { pc: old(self).pc + 2, ..old(self)@ }),
    {
        let v = self.read_u16();
        v as i16
    }
}

/// A thread: its stack of frames, the current one last.
pub struct Thread {
    pub stack: Vec<Frame>,
    /// The `java.lang.Thread` object of this thread, if it has one.
    reference: Option<Reference>,
}

impl View for Thread {
    type V = Seq<FrameModel>;

    /// The frames of the thread, the current one last. Its object is `spec_reference`, which
    /// no instruction changes: each one that takes the thread says so.
    closed spec fn view(&self) -> Seq<FrameModel> {
        self.stack@.map_values(|f: Frame| f@)
    }
}

/// The frames `t` with its current frame replaced by `f`.
pub open spec fn with_top(t: Seq<FrameModel>, f: FrameModel) -> Seq<FrameModel> {
    t.drop_last().push(f)
}

impl Thread {
    /// A thread with no frames, whose `java.lang.Thread` object is `reference`.
    pub fn new(reference: Option<Reference>) -> (t: Self)
        ensures
            t@ == Seq::<FrameModel>::empty(),
            t.spec_reference() == reference,
    {
        let t = Thread { stack: Vec::new(), reference };
        proof {
            assert(t@ =~= Seq::<FrameModel>::empty());
        }
        t
    }

    /// The `java.lang.Thread` object of this thread, if it has one; it never changes.
    pub closed spec fn spec_reference(&self) -> Option<Reference> {
        self.reference
    }

    /// The `java.lang.Thread` object of this thread, if it has one.
    pub fn reference(&self) -> (r: Option<Reference>)
        ensures
            r == self.spec_reference(),
    {
        self.reference
    }

    /// The number of frames.
    pub fn depth(&self) -> (n: usize)
        ensures
            n == self@.len(),
    {
        self.stack.len()
    }

    /// The frame at `index`, the first frame at 0.
    pub fn frame(&self, index: usize) -> (f: &Frame)
        requires
            index < self@.len(),
        ensures
            f@ == self@[index as int],
    {
        &self.stack[index]
    }

    /// Push a frame, making it the current one.
    pub fn push_frame(&mut self, frame: Frame)
        ensures
            final(self)@ == old(self)@.push(frame@),
            final(self).spec_reference() == old(self).spec_reference(),
    {
        self.stack.push(frame);
        proof {
            assert(final(self)@ =~= old(self)@.push(frame@));
        }
    }

    /// Take the current frame off the stack.
    pub fn pop_frame(&mut self) -> (frame: Frame)
        requires
            old(self)@.len() > 0,
        ensures
            frame@ == old(self)@.last(),
            final(self)@ == old(self)@.drop_last(),
            final(self).spec_reference() == old(self).spec_reference(),
    {
        let frame = self.stack.pop().unwrap();
        proof {
            assert(final(self)@ =~= old(self)@.drop_last());
        }
        frame
    }
}

} // verus!
