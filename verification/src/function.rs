//! Compiled functions: a name, an arity, and the chunk of bytecode the
//! compiler emitted for the body.
use crate::chunk::{obs_chunk, Chunk, OpCode};
use crate::value::Value;
use vstd::prelude::*;

verus! {

/// Observational equality of two functions: everything but the inner
/// structure of any function values in their constant pools.
pub open spec fn obs_function(a: Function, b: Function) -> bool {
    &&& a.arity == b.arity
    &&& a.name@ == b.name@
    &&& obs_chunk(a.chunk, b.chunk)
}

/// A compiled function. The top-level script compiles to a function named
/// `<script>` with arity 0.
#[derive(Debug)]
pub struct Function {
    pub arity: u8,
    pub name: String,
    pub chunk: Chunk,
}

impl Clone for Function {
    fn clone(&self) -> (r: Self)
        ensures
            obs_function(r, *self),
    decreases *self,
    {
        Function { arity: self.arity, name: self.name.clone(), chunk: self.chunk.clone() }
    }
}

impl Function {
    pub fn new(name: &str) -> (f: Self)
        ensures
            f.arity == 0,
            f.name@ == name@,
            f.chunk.code@ == Seq::<u8>::empty(),
            f.chunk.lines@ == Seq::<usize>::empty(),
            f.chunk.constants.values@ == Seq::<Value>::empty(),
    {
        Self { arity: 0, name: String::from_str(name), chunk: Chunk::new() }
    }

    pub fn size(&self) -> (n: usize)
        ensures
            n == self.chunk.code@.len(),
    {
        self.chunk.size()
    }

    /// Readies the chunk for a fresh compilation.
    pub fn initialize_emiter(&mut self)
        ensures
            final(self).chunk.code@ == Seq::<u8>::empty(),
            final(self).chunk.lines@ == Seq::<usize>::empty(),
            final(self).chunk.constants.values@ == Seq::<Value>::empty(),
            final(self).name == old(self).name,
            final(self).arity == old(self).arity,
    {
        self.chunk.reset()
    }

    /// Emission needs no closing step; the chunk is complete as emitted.
    pub fn finalize_emiter(&mut self)
        ensures
            *final(self) == *old(self),
    {
    }

    /// Adds a constant to the pool; the index comes back only when it fits
    /// in an operand byte.
    pub fn make_constant(&mut self, value: Value) -> (r: Option<u8>)
        ensures
            final(self).chunk.code@ == old(self).chunk.code@,
            final(self).chunk.lines@ == old(self).chunk.lines@,
            final(self).chunk.constants.values@ == old(self).chunk.constants.values@.push(value),
            final(self).name == old(self).name,
            final(self).arity == old(self).arity,
            r matches Some(i) ==> i == old(self).chunk.constants.values@.len(),
            r is Some <==> old(self).chunk.constants.values@.len() < 256,
    {
        self.chunk.make_constant(value)
    }

    pub fn write_at(&mut self, offset: usize, byte: u8)
        requires
            offset < old(self).chunk.code@.len(),
        ensures
            final(self).chunk.code@ == old(self).chunk.code@.update(offset as int, byte),
            final(self).chunk.lines@ == old(self).chunk.lines@,
            final(self).chunk.constants == old(self).chunk.constants,
            final(self).name == old(self).name,
            final(self).arity == old(self).arity,
    {
        self.chunk.write_at(offset, byte)
    }

    pub fn emit_byte(&mut self, byte: u8, line: usize)
        ensures
            final(self).chunk.code@ == old(self).chunk.code@.push(byte),
            final(self).chunk.lines@ == old(self).chunk.lines@.push(line),
            final(self).chunk.constants == old(self).chunk.constants,
            final(self).name == old(self).name,
            final(self).arity == old(self).arity,
    {
        self.chunk.emit_byte(byte, line)
    }

    /// Adds `val` to the pool and, when its index fits in a byte, emits the
    /// constant-loading instruction for it.
    pub fn emit_constant(&mut self, val: Value, line: usize) -> (r: Option<u8>)
        ensures
            final(self).chunk.constants.values@ == old(self).chunk.constants.values@.push(val),
            final(self).name == old(self).name,
            final(self).arity == old(self).arity,
            r matches Some(i) ==> {
                &&& i == old(self).chunk.constants.values@.len()
                &&& final(self).chunk.code@ == old(self).chunk.code@
                    + seq![crate::opcode::opcode_byte(OpCode::Constant), i]
                &&& final(self).chunk.lines@ == old(self).chunk.lines@ + seq![line, line]
            },
            r is Some <==> old(self).chunk.constants.values@.len() < 256,
            r is None ==> final(self).chunk.code@ == old(self).chunk.code@
                && final(self).chunk.lines@ == old(self).chunk.lines@,
    {
        self.chunk.emit_constant(val, line)
    }

    pub fn read(&self, ip: usize) -> (b: u8)
        requires
            ip < self.chunk.code@.len(),
        ensures
            b == self.chunk.code@[ip as int],
    {
        self.chunk.read(ip)
    }

    pub fn jump_offset(&self, ip: usize) -> (d: usize)
        requires
            ip + 1 < self.chunk.code@.len(),
        ensures
            d == self.chunk.code@[ip as int] * 256 + self.chunk.code@[ip as int + 1],
    {
        self.chunk.jump_offset(ip)
    }

    pub fn read_constant(&self, index: usize) -> (v: Value)
        requires
            index < self.chunk.constants.values@.len(),
        ensures
            crate::value::obs_value(v, self.chunk.constants.values@[index as int]),
    {
        self.chunk.read_constant(index)
    }

    pub fn read_line(&self, index: usize) -> (l: usize)
        requires
            index < self.chunk.lines@.len(),
        ensures
            l == self.chunk.lines@[index as int],
    {
        self.chunk.read_line(index)
    }

    /// Renders the whole chunk as its disassembly listing: a pure function
    /// of the function's name and chunk, so repeated disassembly of one
    /// compiled function is byte-for-byte stable.
    pub fn disassemble(&self) -> (r: String)
        requires
            self.chunk.lines@.len() == self.chunk.code@.len(),
            self.chunk.code@.len() + 65538 < usize::MAX,
        ensures
            r@ == crate::chunk::render_chunk_header(self.name@) + crate::chunk::render_chunk(
                self.chunk.code@,
                self.chunk.lines@,
                self.chunk.constants.values@,
                0,
            ),
    {
        self.chunk.disassemble(self.name.as_str())
    }

    /// Renders the instruction at `offset` and reports where the next
    /// instruction starts.
    pub fn disassemble_instruction(&self, offset: usize) -> (r: (String, usize))
        requires
            offset < self.chunk.code@.len(),
            self.chunk.lines@.len() == self.chunk.code@.len(),
            self.chunk.code@.len() + 65538 < usize::MAX,
        ensures
            (r.0@, r.1 as int) == crate::chunk::render_instruction(
                self.chunk.code@,
                self.chunk.lines@,
                self.chunk.constants.values@,
                offset as int,
            ),
            offset < r.1,
            r.1 <= self.chunk.code@.len(),
    {
        self.chunk.disassemble_instruction(offset)
    }
}

} // verus!
