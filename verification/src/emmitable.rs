//! The emitter interface: what a bytecode sink must offer the compiler,
//! stated over the code, line and constant sequences it accumulates.
//! `Chunk` is its one implementation here; an alternative chunk layout
//! would implement the same contracts.
use crate::chunk::Chunk;
use crate::opcode::{opcode_byte, OpCode};
use crate::value::{obs_pool, Value};
use vstd::prelude::*;

verus! {

pub trait Emmitable: Sized {
    /// The bytes of code emitted so far.
    spec fn codes(&self) -> Seq<u8>;

    /// The source line recorded for each emitted byte.
    spec fn lines_of(&self) -> Seq<usize>;

    /// The constant pool filled so far.
    spec fn consts(&self) -> Seq<Value>;

    fn emit_byte(&mut self, byte: u8, line: usize)
        ensures
            final(self).codes() == old(self).codes().push(byte),
            final(self).lines_of() == old(self).lines_of().push(line),
            final(self).consts() == old(self).consts(),
    ;

    fn emit_bytes(&mut self, byte1: OpCode, byte2: u8, line: usize)
        ensures
            final(self).codes() == old(self).codes() + seq![opcode_byte(byte1), byte2],
            final(self).lines_of() == old(self).lines_of() + seq![line, line],
            final(self).consts() == old(self).consts(),
    ;

    fn emit_constant(&mut self, value: Value, line: usize) -> (r: Option<u8>)
        ensures
            final(self).consts() == old(self).consts().push(value),
            r is Some <==> old(self).consts().len() < 256,
            r matches Some(i) ==> {
                &&& i == old(self).consts().len()
                &&& final(self).codes() == old(self).codes() + seq![
                    opcode_byte(OpCode::Constant),
                    i,
                ]
                &&& final(self).lines_of() == old(self).lines_of() + seq![line, line]
            },
            r is None ==> final(self).codes() == old(self).codes() && final(self).lines_of()
                == old(self).lines_of(),
    ;

    fn initialize() -> (r: Self)
        ensures
            r.codes() == Seq::<u8>::empty(),
            r.lines_of() == Seq::<usize>::empty(),
            r.consts() == Seq::<Value>::empty(),
    ;

    fn initialize_emiter(&mut self)
        ensures
            final(self).codes() == Seq::<u8>::empty(),
            final(self).lines_of() == Seq::<usize>::empty(),
            final(self).consts() == Seq::<Value>::empty(),
    ;

    fn finalize_emiter(&mut self)
        ensures
            *final(self) == *old(self),
    ;

    fn make_constant(&mut self, value: Value) -> (r: Option<u8>)
        ensures
            final(self).consts() == old(self).consts().push(value),
            final(self).codes() == old(self).codes(),
            final(self).lines_of() == old(self).lines_of(),
            r matches Some(i) ==> i == old(self).consts().len(),
            r is Some <==> old(self).consts().len() < 256,
    ;

    fn size(&self) -> (n: usize)
        ensures
            n == self.codes().len(),
    ;

    fn write_at(&mut self, offset: usize, byte: u8)
        requires
            offset < old(self).codes().len(),
        ensures
            final(self).codes() == old(self).codes().update(offset as int, byte),
            final(self).lines_of() == old(self).lines_of(),
            final(self).consts() == old(self).consts(),
    ;

    fn jump_offset(&self, offset: usize) -> (d: usize)
        requires
            offset + 1 < self.codes().len(),
        ensures
            d == self.codes()[offset as int] * 256 + self.codes()[offset as int + 1],
    ;

    fn duplicate(&self) -> (r: Self)
        ensures
            r.codes() == self.codes(),
            r.lines_of() == self.lines_of(),
    ;
}

impl Emmitable for Chunk {
    open spec fn codes(&self) -> Seq<u8> {
        self.code@
    }

    open spec fn lines_of(&self) -> Seq<usize> {
        self.lines@
    }

    open spec fn consts(&self) -> Seq<Value> {
        self.constants.values@
    }

    fn emit_byte(&mut self, byte: u8, line: usize) {
        Chunk::emit_byte(self, byte, line)
    }

    fn emit_bytes(&mut self, byte1: OpCode, byte2: u8, line: usize) {
        Chunk::emit_bytes(self, byte1, byte2, line)
    }

    fn emit_constant(&mut self, value: Value, line: usize) -> (r: Option<u8>) {
        Chunk::emit_constant(self, value, line)
    }

    fn initialize() -> (r: Self) {
        Chunk::new()
    }

    fn initialize_emiter(&mut self) {
        Chunk::reset(self)
    }

    fn finalize_emiter(&mut self) {
    }

    fn make_constant(&mut self, value: Value) -> (r: Option<u8>) {
        Chunk::make_constant(self, value)
    }

    fn size(&self) -> (n: usize) {
        Chunk::size(self)
    }

    fn write_at(&mut self, offset: usize, byte: u8) {
        Chunk::write_at(self, offset, byte)
    }

    fn jump_offset(&self, offset: usize) -> (d: usize) {
        Chunk::jump_offset(self, offset)
    }

    fn duplicate(&self) -> (r: Self) {
        self.clone()
    }
}

} // verus!
