//! Chunks of bytecode: the compiled artifact for one function.
//!
//! A chunk is a byte sequence of instructions, a parallel sequence of line
//! numbers (one per byte), and a constant pool. The well-formedness
//! predicate [`code_wf_from`] decodes the bytes from the front and demands
//! that every instruction is complete and that every constant-pool operand
//! indexes an existing constant; the lemmas below show that appending whole
//! instructions and patching jump operands preserve it. The compiler keeps
//! every chunk it builds in this shape.
use crate::opcode::{instr_len, is_const_op, is_jump_op, opcode_byte, opcode_count};
use crate::text;
use crate::value::{obs_pool, obs_value, Value, ValueArray};
use vstd::prelude::*;

pub use crate::opcode::OpCode;

verus! {

/// A single complete instruction: a real opcode, exactly its operand
/// bytes, and a constant operand that indexes a pool of `nconsts` values.
pub open spec fn instr_wf(instr: Seq<u8>, nconsts: int) -> bool {
    &&& instr.len() > 0
    &&& instr[0] < opcode_count()
    &&& instr.len() == instr_len(instr[0])
    &&& (is_const_op(instr[0]) ==> instr[1] < nconsts)
}

/// The bytes of `code` from position `i` on decode as a sequence of
/// complete instructions whose constant operands all index the pool.
pub open spec fn code_wf_from(code: Seq<u8>, nconsts: int, i: int) -> bool
    decreases code.len() - i,
{
    if i == code.len() {
        true
    } else if 0 <= i < code.len() {
        let op = code[i];
        let next = i + instr_len(op);
        &&& op < opcode_count()
        &&& next <= code.len()
        &&& (is_const_op(op) ==> code[i + 1] < nconsts)
        &&& if i < next <= code.len() {
            code_wf_from(code, nconsts, next)
        } else {
            false
        }
    } else {
        false
    }
}

/// The whole of `code` decodes as complete instructions over a pool of
/// `nconsts` values.
pub open spec fn code_wf(code: Seq<u8>, nconsts: int) -> bool {
    code_wf_from(code, nconsts, 0)
}

/// Position `j` is an operand byte of a jump instruction, when decoding
/// from position `i`: overwriting it cannot disturb instruction
/// boundaries or constant operands.
pub open spec fn patchable_from(code: Seq<u8>, i: int, j: int) -> bool
    decreases code.len() - i,
{
    if 0 <= i < code.len() {
        let op = code[i];
        let next = i + instr_len(op);
        if j < next {
            is_jump_op(op) && i < j && next <= code.len()
        } else {
            if i < next <= code.len() {
                patchable_from(code, next, j)
            } else {
                false
            }
        }
    } else {
        false
    }
}

/// Position `j` is a jump operand of `code`.
pub open spec fn patchable(code: Seq<u8>, j: int) -> bool {
    patchable_from(code, 0, j)
}

/// Observational equality of two chunks: same code and lines, pools equal
/// but for the inner structure of function values.
pub open spec fn obs_chunk(a: Chunk, b: Chunk) -> bool {
    &&& a.code@ == b.code@
    &&& a.lines@ == b.lines@
    &&& obs_pool(a.constants, b.constants)
}

/// A jump operand lies strictly inside the code.
pub proof fn lemma_patchable_bounds(c: Seq<u8>, i: int, j: int)
    requires
        patchable_from(c, i, j),
    ensures
        i < j < c.len(),
    decreases c.len() - i,
{
    let op = c[i];
    let next = i + instr_len(op);
    if j < next {
    } else {
        lemma_patchable_bounds(c, next, j);
    }
}

/// Well-formedness from `i` depends only on the bytes at `i` and beyond.
pub proof fn lemma_wf_from_agree(c1: Seq<u8>, c2: Seq<u8>, nconsts: int, i: int)
    requires
        c1.len() == c2.len(),
        forall|k: int| i <= k < c1.len() ==> c1[k] == c2[k],
        code_wf_from(c1, nconsts, i),
    ensures
        code_wf_from(c2, nconsts, i),
    decreases c1.len() - i,
{
    if i == c1.len() {
    } else {
        lemma_wf_from_agree(c1, c2, nconsts, i + instr_len(c1[i]));
    }
}

/// Being a jump operand depends only on the bytes at `i` and beyond.
pub proof fn lemma_patchable_agree(c1: Seq<u8>, c2: Seq<u8>, i: int, j: int)
    requires
        c1.len() == c2.len(),
        forall|k: int| i <= k < c1.len() ==> c1[k] == c2[k],
        patchable_from(c1, i, j),
    ensures
        patchable_from(c2, i, j),
    decreases c1.len() - i,
{
    let op = c1[i];
    let next = i + instr_len(op);
    if j < next {
    } else {
        lemma_patchable_agree(c1, c2, next, j);
    }
}

/// Appending one complete instruction preserves well-formedness, keeps
/// every jump operand patchable, and makes the operand bytes of a newly
/// appended jump patchable.
pub proof fn lemma_wf_append(c: Seq<u8>, nconsts: int, i: int, instr: Seq<u8>)
    requires
        0 <= i <= c.len(),
        code_wf_from(c, nconsts, i),
        instr_wf(instr, nconsts),
    ensures
        code_wf_from(c + instr, nconsts, i),
        forall|j: int| patchable_from(c, i, j) ==> patchable_from(c + instr, i, j),
        forall|j: int|
            j < c.len() && #[trigger] patchable_from(c + instr, i, j) ==> patchable_from(c, i, j),
        !patchable_from(c + instr, i, c.len() as int),
        is_jump_op(instr[0]) ==> patchable_from(c + instr, i, c.len() as int + 1)
            && patchable_from(c + instr, i, c.len() as int + 2),
    decreases c.len() - i,
{
    let d = c + instr;
    if i == c.len() {
        assert(d[i] == instr[0]);
        assert(i + instr_len(d[i]) == d.len());
        assert(is_const_op(d[i]) ==> d[i + 1] == instr[1]);
        assert(code_wf_from(d, nconsts, d.len() as int));
        assert forall|j: int| patchable_from(c, i, j) implies patchable_from(d, i, j) by {
            assert(!patchable_from(c, i, j));
        }
        assert forall|j: int|
            j < c.len() && #[trigger] patchable_from(d, i, j) implies patchable_from(c, i, j) by {
            assert(j < i + instr_len(d[i]));
        }
    } else {
        let op = c[i];
        let next = i + instr_len(op);
        lemma_wf_append(c, nconsts, next, instr);
        assert(d[i] == op);
        assert(is_const_op(op) ==> d[i + 1] == c[i + 1]);
        assert forall|j: int| patchable_from(c, i, j) implies patchable_from(d, i, j) by {
            if j >= next {
                assert(patchable_from(c, next, j));
            }
        }
        assert forall|j: int|
            j < c.len() && #[trigger] patchable_from(d, i, j) implies patchable_from(c, i, j) by {
            if j >= next {
                assert(patchable_from(d, next, j));
            }
        }
    }
}

/// A larger constant pool accepts every chunk the smaller one accepted.
pub proof fn lemma_wf_grow(c: Seq<u8>, nconsts: int, more: int, i: int)
    requires
        code_wf_from(c, nconsts, i),
        nconsts <= more,
    ensures
        code_wf_from(c, more, i),
    decreases c.len() - i,
{
    if i == c.len() {
    } else {
        lemma_wf_grow(c, nconsts, more, i + instr_len(c[i]));
    }
}

/// Overwriting a jump operand preserves well-formedness and every jump
/// operand position.
pub proof fn lemma_patch(c: Seq<u8>, nconsts: int, i: int, j: int, b: u8)
    requires
        code_wf_from(c, nconsts, i),
        patchable_from(c, i, j),
    ensures
        code_wf_from(c.update(j, b), nconsts, i),
        forall|j2: int| patchable_from(c, i, j2) ==> patchable_from(c.update(j, b), i, j2),
        forall|j2: int|
            #[trigger] patchable_from(c.update(j, b), i, j2) ==> patchable_from(c, i, j2),
    decreases c.len() - i,
{
    lemma_patchable_bounds(c, i, j);
    let d = c.update(j, b);
    let op = c[i];
    let next = i + instr_len(op);
    assert(d.len() == c.len());
    if j < next {
        assert(d[i] == op);
        lemma_wf_from_agree(c, d, nconsts, next);
        assert forall|j2: int| patchable_from(c, i, j2) implies patchable_from(d, i, j2) by {
            if j2 >= next {
                lemma_patchable_agree(c, d, next, j2);
            }
        }
        assert forall|j2: int| #[trigger] patchable_from(d, i, j2) implies patchable_from(
            c,
            i,
            j2,
        ) by {
            if j2 >= next {
                lemma_patchable_agree(d, c, next, j2);
            }
        }
    } else {
        lemma_patch(c, nconsts, next, j, b);
        assert(d[i] == op);
        assert(is_const_op(op) ==> d[i + 1] == c[i + 1]);
        assert forall|j2: int| patchable_from(c, i, j2) implies patchable_from(d, i, j2) by {
            if j2 >= next {
                assert(patchable_from(c, next, j2));
            }
        }
        assert forall|j2: int| #[trigger] patchable_from(d, i, j2) implies patchable_from(
            c,
            i,
            j2,
        ) by {
            if j2 >= next {
                assert(patchable_from(d, next, j2));
            }
        }
    }
}

/// Position `j` starts an instruction of the code decoded from `i`.
pub open spec fn instr_start_from(code: Seq<u8>, i: int, j: int) -> bool
    decreases code.len() - i,
{
    if 0 <= i < code.len() {
        i == j || {
            let next = i + instr_len(code[i]);
            if i < next <= code.len() {
                instr_start_from(code, next, j)
            } else {
                false
            }
        }
    } else {
        false
    }
}

/// In well-formed code, the operand of every constant-loading instruction
/// indexes an existing constant of the pool (and, being one byte, is below
/// 256).
pub proof fn lemma_wf_constant_operand(code: Seq<u8>, nconsts: int, i: int, j: int)
    requires
        code_wf_from(code, nconsts, i),
        instr_start_from(code, i, j),
        is_const_op(code[j]),
    ensures
        j + 1 < code.len(),
        code[j + 1] < nconsts,
    decreases code.len() - i,
{
    if i == j {
    } else {
        lemma_wf_constant_operand(code, nconsts, i + instr_len(code[i]), j);
    }
}

/// One chunk grew out of another: code only appended or patched at jump
/// operands, constants only appended. Jump-operand positions are exactly
/// preserved, and every other existing byte keeps its value.
pub open spec fn chunk_extends(new: Chunk, old: Chunk) -> bool {
    &&& old.code@.len() <= new.code@.len()
    &&& (forall|j: int| patchable(old.code@, j) ==> patchable(new.code@, j))
    &&& (forall|j: int|
        0 <= j < old.code@.len() && #[trigger] patchable(new.code@, j) ==> patchable(
            old.code@,
            j,
        ))
    &&& (forall|j: int|
        0 <= j < old.code@.len() && !patchable(old.code@, j) ==> new.code@[j] == #[trigger] old.code@[j])
    &&& old.constants.values@.len() <= new.constants.values@.len()
}


/// The mnemonic of an instruction byte.
pub open spec fn op_name(b: u8) -> Seq<char> {
    if b == 0 {
        "OP_CONSTANT"@
    } else if b == 1 {
        "OP_RETURN"@
    } else if b == 2 {
        "OP_NEGATE"@
    } else if b == 3 {
        "OP_ADD"@
    } else if b == 4 {
        "OP_SUBSTRACT"@
    } else if b == 5 {
        "OP_MULTIPLY"@
    } else if b == 6 {
        "OP_DIVIDE"@
    } else if b == 7 {
        "OP_NIL"@
    } else if b == 8 {
        "OP_TRUE"@
    } else if b == 9 {
        "OP_FALSE"@
    } else if b == 10 {
        "OP_NOT"@
    } else if b == 11 {
        "OP_EQUAL"@
    } else if b == 12 {
        "OP_GREATER"@
    } else if b == 13 {
        "OP_LESS"@
    } else if b == 14 {
        "OP_PRINT"@
    } else if b == 15 {
        "OP_POP"@
    } else if b == 16 {
        "OP_DEFINE_GLOBAL"@
    } else if b == 17 {
        "OP_GET_GLOBAL"@
    } else if b == 18 {
        "OP_SET_GLOBAL"@
    } else if b == 19 {
        "OP_GET_LOCAL"@
    } else if b == 20 {
        "OP_SET_LOCAL"@
    } else if b == 21 {
        "OP_JUMP_IF_FALSE"@
    } else if b == 22 {
        "OP_JUMP"@
    } else if b == 23 {
        "OP_LOOP"@
    } else {
        "OP_UNKNOWN"@
    }
}

/// A number rendered right-aligned in a column.
pub open spec fn render_aligned(n: nat, width: nat) -> Seq<char> {
    text::fill(' ', text::dec_rep(n).len(), width) + text::dec_rep(n)
}

/// A mnemonic left-aligned in its sixteen-column field.
pub open spec fn render_name(name: Seq<char>) -> Seq<char> {
    name + text::fill(' ', name.len(), 16)
}

/// The position-and-line prefix of one disassembled instruction: the
/// offset zero-padded to four columns, then the source line, or a bar
/// when it repeats the previous byte's line.
pub open spec fn line_prefix(lines: Seq<usize>, offset: int) -> Seq<char> {
    text::fill('0', text::dec_rep(offset as nat).len(), 4) + text::dec_rep(offset as nat) + (if
        offset > 0 && lines[offset] == lines[offset - 1] {
        "    | "@
    } else {
        " "@ + render_aligned(lines[offset] as nat, 4) + " "@
    })
}

/// A one-byte instruction's text.
pub open spec fn render_simple(name: Seq<char>) -> Seq<char> {
    name + "\n"@
}

/// A jump instruction's text: mnemonic, position, and absolute target.
pub open spec fn render_jump(name: Seq<char>, code: Seq<u8>, offset: int, sign: bool) -> Seq<
    char,
> {
    let d = code[offset + 1] * 256 + code[offset + 2];
    let target: int = if sign {
        offset + 3 + d
    } else if d <= offset + 3 {
        offset + 3 - d
    } else {
        0
    };
    render_name(name) + " "@ + render_aligned(offset as nat, 4) + " -> "@ + text::dec_rep(
        target as nat,
    ) + "\n"@
}

/// A constant-loading instruction's text, quoting the constant.
pub open spec fn render_constant(
    name: Seq<char>,
    code: Seq<u8>,
    consts: Seq<Value>,
    offset: int,
) -> Seq<char> {
    let idx = code[offset + 1] as int;
    render_name(name) + " "@ + render_aligned(offset as nat, 4) + " '"@ + (if idx < consts.len() {
        crate::value::value_text(consts[idx])
    } else {
        "?"@
    }) + "'\n"@
}

/// A slot instruction's text.
pub open spec fn render_slot(name: Seq<char>, code: Seq<u8>, offset: int) -> Seq<char> {
    render_name(name) + " "@ + render_aligned(code[offset + 1] as nat, 4) + "\n"@
}

/// One disassembled instruction: its text and where the next instruction
/// starts. Instructions cut short by the end of the code render as bare
/// mnemonics.
pub open spec fn render_instruction(
    code: Seq<u8>,
    lines: Seq<usize>,
    consts: Seq<Value>,
    offset: int,
) -> (Seq<char>, int) {
    let b = code[offset];
    let prefix = line_prefix(lines, offset);
    if is_const_op(b) && offset + 1 < code.len() {
        (prefix + render_constant(op_name(b), code, consts, offset), offset + 2)
    } else if crate::opcode::is_slot_op(b) && offset + 1 < code.len() {
        (prefix + render_slot(op_name(b), code, offset), offset + 2)
    } else if is_jump_op(b) && offset + 2 < code.len() {
        (prefix + render_jump(op_name(b), code, offset, b != 23), offset + 3)
    } else {
        (prefix + render_simple(op_name(b)), offset + 1)
    }
}

/// The disassembly of the code from `offset` on: the concatenation of its
/// instructions' renderings.
pub open spec fn render_chunk(
    code: Seq<u8>,
    lines: Seq<usize>,
    consts: Seq<Value>,
    offset: int,
) -> Seq<char>
    decreases code.len() - offset,
{
    if !(0 <= offset < code.len()) {
        Seq::empty()
    } else {
        let (text, next) = render_instruction(code, lines, consts, offset);
        if offset < next {
            text + render_chunk(code, lines, consts, next)
        } else {
            text
        }
    }
}

/// The heading of a chunk's disassembly listing.
pub open spec fn render_chunk_header(name: Seq<char>) -> Seq<char> {
    "=="@ + name + "==\n"@
}

/// Disassembly is a pure function of the chunk: chunks equal in code,
/// lines and (observably) constants render identically, so repeated
/// disassembly of one compilation artifact is byte-for-byte stable.
pub proof fn lemma_render_deterministic(
    code: Seq<u8>,
    lines: Seq<usize>,
    consts1: Seq<Value>,
    consts2: Seq<Value>,
    offset: int,
)
    requires
        consts1.len() == consts2.len(),
        forall|i: int| 0 <= i < consts1.len() ==> obs_value(consts1[i], consts2[i]),
    ensures
        render_chunk(code, lines, consts1, offset) == render_chunk(code, lines, consts2, offset),
    decreases code.len() - offset,
{
    if 0 <= offset < code.len() {
        let b = code[offset];
        if is_const_op(b) && offset + 1 < code.len() {
            let idx = code[offset + 1] as int;
            if idx < consts1.len() {
                crate::value::lemma_obs_value_text(consts1[idx], consts2[idx]);
            }
        }
        let (text, next) = render_instruction(code, lines, consts1, offset);
        if offset < next {
            lemma_render_deterministic(code, lines, consts1, consts2, next);
        }
    }
}

/// The mnemonic of an instruction byte.
fn op_name_str(b: u8) -> (r: &'static str)
    ensures
        r@ == op_name(b),
{
    proof {
        reveal_strlit("OP_CONSTANT");
        reveal_strlit("OP_RETURN");
        reveal_strlit("OP_NEGATE");
        reveal_strlit("OP_ADD");
        reveal_strlit("OP_SUBSTRACT");
        reveal_strlit("OP_MULTIPLY");
        reveal_strlit("OP_DIVIDE");
        reveal_strlit("OP_NIL");
        reveal_strlit("OP_TRUE");
        reveal_strlit("OP_FALSE");
        reveal_strlit("OP_NOT");
        reveal_strlit("OP_EQUAL");
        reveal_strlit("OP_GREATER");
        reveal_strlit("OP_LESS");
        reveal_strlit("OP_PRINT");
        reveal_strlit("OP_POP");
        reveal_strlit("OP_DEFINE_GLOBAL");
        reveal_strlit("OP_GET_GLOBAL");
        reveal_strlit("OP_SET_GLOBAL");
        reveal_strlit("OP_GET_LOCAL");
        reveal_strlit("OP_SET_LOCAL");
        reveal_strlit("OP_JUMP_IF_FALSE");
        reveal_strlit("OP_JUMP");
        reveal_strlit("OP_LOOP");
        reveal_strlit("OP_UNKNOWN");
    }
    match b {
        0 => "OP_CONSTANT",
        1 => "OP_RETURN",
        2 => "OP_NEGATE",
        3 => "OP_ADD",
        4 => "OP_SUBSTRACT",
        5 => "OP_MULTIPLY",
        6 => "OP_DIVIDE",
        7 => "OP_NIL",
        8 => "OP_TRUE",
        9 => "OP_FALSE",
        10 => "OP_NOT",
        11 => "OP_EQUAL",
        12 => "OP_GREATER",
        13 => "OP_LESS",
        14 => "OP_PRINT",
        15 => "OP_POP",
        16 => "OP_DEFINE_GLOBAL",
        17 => "OP_GET_GLOBAL",
        18 => "OP_SET_GLOBAL",
        19 => "OP_GET_LOCAL",
        20 => "OP_SET_LOCAL",
        21 => "OP_JUMP_IF_FALSE",
        22 => "OP_JUMP",
        23 => "OP_LOOP",
        _ => "OP_UNKNOWN",
    }
}

/// A compiled instruction sequence: bytes of code, one source line per
/// byte, and the constant pool.
#[derive(Debug)]
pub struct Chunk {
    pub code: Vec<u8>,
    pub lines: Vec<usize>,
    pub constants: ValueArray,
}

impl Chunk {
    /// The parallel line map always covers the code exactly, and the code
    /// decodes into complete instructions over the pool.
    pub open spec fn wf(self) -> bool {
        &&& self.lines@.len() == self.code@.len()
        &&& code_wf(self.code@, self.constants.values@.len() as int)
    }

    pub fn new() -> (c: Self)
        ensures
            c.code@ == Seq::<u8>::empty(),
            c.lines@ == Seq::<usize>::empty(),
            c.constants.values@ == Seq::<Value>::empty(),
            c.wf(),
    {
        Self { code: Vec::new(), lines: Vec::new(), constants: ValueArray::new() }
    }

    pub fn write(&mut self, byte: u8, line: usize)
        ensures
            final(self).code@ == old(self).code@.push(byte),
            final(self).lines@ == old(self).lines@.push(line),
            final(self).constants == old(self).constants,
    {
        self.code.push(byte);
        self.lines.push(line);
    }

    pub fn get_constant(&self, index: usize) -> (v: Value)
        requires
            index < self.constants.values@.len(),
        ensures
            obs_value(v, self.constants.values@[index as int]),
    {
        self.constants.read_at(index)
    }

    pub fn get_line(&self, index: usize) -> (l: usize)
        requires
            index < self.lines@.len(),
        ensures
            l == self.lines@[index as int],
    {
        self.lines[index]
    }

    pub fn emit_byte(&mut self, byte: u8, line: usize)
        ensures
            final(self).code@ == old(self).code@.push(byte),
            final(self).lines@ == old(self).lines@.push(line),
            final(self).constants == old(self).constants,
    {
        self.write(byte, line)
    }

    pub fn emit_bytes(&mut self, byte1: OpCode, byte2: u8, line: usize)
        ensures
            final(self).code@ == old(self).code@ + seq![opcode_byte(byte1), byte2],
            final(self).lines@ == old(self).lines@ + seq![line, line],
            final(self).constants == old(self).constants,
    {
        self.write(byte1.as_byte(), line);
        self.write(byte2, line);
        proof {
            assert(self.code@ =~= old(self).code@ + seq![opcode_byte(byte1), byte2]);
            assert(self.lines@ =~= old(self).lines@ + seq![line, line]);
        }
    }

    /// Adds `value` to the pool and, when its index fits in an operand
    /// byte, emits the instruction that loads it.
    pub fn emit_constant(&mut self, value: Value, line: usize) -> (r: Option<u8>)
        ensures
            final(self).constants.values@ == old(self).constants.values@.push(value),
            r matches Some(i) ==> {
                &&& i == old(self).constants.values@.len()
                &&& final(self).code@ == old(self).code@ + seq![opcode_byte(OpCode::Constant), i]
                &&& final(self).lines@ == old(self).lines@ + seq![line, line]
            },
            r is Some <==> old(self).constants.values@.len() < 256,
            r is None ==> final(self).code@ == old(self).code@
                && final(self).lines@ == old(self).lines@,
    {
        let index = self.make_constant(value);
        if let Some(index) = index {
            self.emit_bytes(OpCode::Constant, index, line);
            Some(index)
        } else {
            None
        }
    }

    /// Adds `value` to the pool; the index comes back only while it still
    /// fits in an operand byte.
    pub fn make_constant(&mut self, value: Value) -> (r: Option<u8>)
        ensures
            final(self).constants.values@ == old(self).constants.values@.push(value),
            final(self).code@ == old(self).code@,
            final(self).lines@ == old(self).lines@,
            r matches Some(i) ==> i == old(self).constants.values@.len(),
            r is Some <==> old(self).constants.values@.len() < 256,
    {
        let index = self.constants.write(value);
        if index < 256 {
            Some(index as u8)
        } else {
            None
        }
    }

    pub fn size(&self) -> (n: usize)
        ensures
            n == self.code@.len(),
    {
        self.code.len()
    }

    pub fn write_at(&mut self, offset: usize, byte: u8)
        requires
            offset < old(self).code@.len(),
        ensures
            final(self).code@ == old(self).code@.update(offset as int, byte),
            final(self).lines@ == old(self).lines@,
            final(self).constants == old(self).constants,
    {
        self.code[offset] = byte;
    }

    /// Reads the big-endian two-byte distance stored at `offset`.
    pub fn jump_offset(&self, offset: usize) -> (d: usize)
        requires
            offset + 1 < self.code@.len(),
        ensures
            d == self.code@[offset as int] * 256 + self.code@[offset as int + 1],
            d <= 65535,
    {
        let n = self.code.len();
        (self.code[offset] as usize) * 256 + (self.code[offset + 1] as usize)
    }

    pub fn reset(&mut self)
        ensures
            final(self).code@ == Seq::<u8>::empty(),
            final(self).lines@ == Seq::<usize>::empty(),
            final(self).constants.values@ == Seq::<Value>::empty(),
            final(self).wf(),
    {
        self.code = Vec::new();
        self.lines = Vec::new();
        self.constants.free();
    }

    pub fn read(&self, ip: usize) -> (b: u8)
        requires
            ip < self.code@.len(),
        ensures
            b == self.code@[ip as int],
    {
        self.code[ip]
    }

    pub fn read_constant(&self, index: usize) -> (v: Value)
        requires
            index < self.constants.values@.len(),
        ensures
            obs_value(v, self.constants.values@[index as int]),
    {
        self.get_constant(index)
    }

    pub fn read_line(&self, index: usize) -> (l: usize)
        requires
            index < self.lines@.len(),
        ensures
            l == self.lines@[index as int],
    {
        self.get_line(index)
    }

    /// Renders a one-byte instruction.
    pub fn simple_instruction(&self, name: &str, offset: usize) -> (r: (String, usize))
        requires
            offset < usize::MAX,
        ensures
            r.0@ == render_simple(name@),
            r.1 == offset + 1,
    {
        let mut out = String::from_str(name);
        out.append("\n");
        proof {
            reveal_strlit("\n");
        }
        (out, offset + 1)
    }

    /// Renders a jump instruction and the absolute target it moves to;
    /// `sign` tells a forward jump from a backward loop.
    pub fn jump_instruction(&self, name: &str, offset: usize, sign: bool) -> (r: (String, usize))
        requires
            offset + 2 < self.code@.len(),
            self.code@.len() + 65538 < usize::MAX,
        ensures
            r.0@ == render_jump(name@, self.code@, offset as int, sign),
            r.1 == offset + 3,
    {
        let jump = self.jump_offset(offset + 1);
        let jump_to = if sign {
            offset + 3 + jump
        } else {
            if jump <= offset + 3 {
                offset + 3 - jump
            } else {
                0
            }
        };
        let mut out = text::pad_right(name, 16);
        out.append(" ");
        let off_text = text::dec_padded(offset, 4);
        out.append(off_text.as_str());
        out.append(" -> ");
        let to_text = text::usize_to_string(jump_to);
        out.append(to_text.as_str());
        out.append("\n");
        proof {
            reveal_strlit(" ");
            reveal_strlit(" -> ");
            reveal_strlit("\n");
        }
        (out, offset + 3)
    }

    /// Renders an instruction with a constant-pool operand, quoting the
    /// constant it loads.
    pub fn constant_instruction(&self, name: &str, offset: usize) -> (r: (String, usize))
        requires
            offset + 1 < self.code@.len(),
        ensures
            r.0@ == render_constant(name@, self.code@, self.constants.values@, offset as int),
            r.1 == offset + 2,
    {
        let n = self.code.len();
        let constant_index = self.code[offset + 1];
        let mut out = text::pad_right(name, 16);
        out.append(" ");
        let off_text = text::dec_padded(offset, 4);
        out.append(off_text.as_str());
        out.append(" '");
        if (constant_index as usize) < self.constants.values.len() {
            let value = self.constants.read_at(constant_index as usize);
            let text = value.to_text();
            proof {
                crate::value::lemma_obs_value_text(
                    value,
                    self.constants.values@[constant_index as int],
                );
            }
            out.append(text.as_str());
        } else {
            out.append("?");
            proof {
                reveal_strlit("?");
            }
        }
        out.append("'\n");
        proof {
            reveal_strlit(" ");
            reveal_strlit(" '");
            reveal_strlit("'\n");
        }
        (out, offset + 2)
    }

    /// Renders an instruction with a slot operand.
    pub fn byte_instruction(&self, name: &str, offset: usize) -> (r: (String, usize))
        requires
            offset + 1 < self.code@.len(),
        ensures
            r.0@ == render_slot(name@, self.code@, offset as int),
            r.1 == offset + 2,
    {
        let n = self.code.len();
        let slot = self.code[offset + 1];
        let mut out = text::pad_right(name, 16);
        out.append(" ");
        let slot_text = text::dec_padded(slot as usize, 4);
        out.append(slot_text.as_str());
        out.append("\n");
        proof {
            reveal_strlit(" ");
            reveal_strlit("\n");
        }
        (out, offset + 2)
    }

    /// Renders the instruction at `offset` with its position and source
    /// line, and reports where the next instruction starts.
    pub fn disassemble_instruction(&self, offset: usize) -> (r: (String, usize))
        requires
            offset < self.code@.len(),
            self.lines@.len() == self.code@.len(),
            self.code@.len() + 65538 < usize::MAX,
        ensures
            (r.0@, r.1 as int) == render_instruction(
                self.code@,
                self.lines@,
                self.constants.values@,
                offset as int,
            ),
            offset < r.1,
            r.1 <= self.code@.len(),
    {
        let mut out = text::dec_zero_padded(offset, 4);
        if offset > 0 && self.lines[offset] == self.lines[offset - 1] {
            out.append("    | ");
            proof {
                reveal_strlit("    | ");
            }
        } else {
            out.append(" ");
            let line_text = text::dec_padded(self.lines[offset], 4);
            out.append(line_text.as_str());
            out.append(" ");
            proof {
                reveal_strlit(" ");
            }
        }
        proof {
            assert(out@ == line_prefix(self.lines@, offset as int));
        }
        let b = self.code[offset];
        let name = op_name_str(b);
        let have_one = offset + 1 < self.code.len();
        let have_two = offset + 2 < self.code.len();
        let (body, next) = if (b == 0 || b == 16 || b == 17 || b == 18) && have_one {
            self.constant_instruction(name, offset)
        } else if (b == 19 || b == 20) && have_one {
            self.byte_instruction(name, offset)
        } else if (b == 21 || b == 22 || b == 23) && have_two {
            self.jump_instruction(name, offset, b != 23)
        } else {
            self.simple_instruction(name, offset)
        };
        out.append(body.as_str());
        (out, next)
    }

    /// Renders the whole chunk: a header line, then one line per
    /// instruction.
    pub fn disassemble(&self, chunk_name: &str) -> (r: String)
        requires
            self.lines@.len() == self.code@.len(),
            self.code@.len() + 65538 < usize::MAX,
        ensures
            r@ == render_chunk_header(chunk_name@) + render_chunk(
                self.code@,
                self.lines@,
                self.constants.values@,
                0,
            ),
    {
        let mut out = String::from_str("==");
        out.append(chunk_name);
        out.append("==\n");
        proof {
            reveal_strlit("==");
            reveal_strlit("==\n");
        }
        let ghost header = out@;
        let mut offset: usize = 0;
        while offset < self.code.len()
            invariant
                self.lines@.len() == self.code@.len(),
                self.code@.len() + 65538 < usize::MAX,
                header == render_chunk_header(chunk_name@),
                out@ + render_chunk(self.code@, self.lines@, self.constants.values@, offset as int)
                    == header + render_chunk(self.code@, self.lines@, self.constants.values@, 0),
            decreases self.code@.len() - offset,
        {
            let (text, next) = self.disassemble_instruction(offset);
            out.append(text.as_str());
            offset = next;
        }
        proof {
            assert(out@ + render_chunk(
                self.code@,
                self.lines@,
                self.constants.values@,
                offset as int,
            ) =~= out@);
        }
        out
    }
}

impl Clone for Chunk {
    fn clone(&self) -> (r: Self)
        ensures
            obs_chunk(r, *self),
    decreases *self,
    {
        let mut code: Vec<u8> = Vec::new();
        let mut i: usize = 0;
        while i < self.code.len()
            invariant
                i <= self.code@.len(),
                code@ == self.code@.subrange(0, i as int),
            decreases self.code@.len() - i,
        {
            code.push(self.code[i]);
            proof {
                assert(code@ =~= self.code@.subrange(0, i + 1));
            }
            i = i + 1;
        }
        let mut lines: Vec<usize> = Vec::new();
        let mut k: usize = 0;
        while k < self.lines.len()
            invariant
                k <= self.lines@.len(),
                lines@ == self.lines@.subrange(0, k as int),
            decreases self.lines@.len() - k,
        {
            lines.push(self.lines[k]);
            proof {
                assert(lines@ =~= self.lines@.subrange(0, k + 1));
            }
            k = k + 1;
        }
        proof {
            assert(code@ =~= self.code@);
            assert(lines@ =~= self.lines@);
        }
        Self { code, lines, constants: self.constants.clone() }
    }
}

} // verus!
