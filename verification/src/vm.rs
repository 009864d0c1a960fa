//! The virtual machine: a stack of values, a globals table, and the
//! fetch-decode-execute loop over a compiled function's bytecode.
use crate::compiler::Compiler;
use crate::function::Function;
use crate::num;
use crate::opcode::{opcode_byte, OpCode};
use crate::text;
use crate::value::{obs, obs_value, oeq, ofalsy, otext, ObsValue, Value};
use vstd::prelude::*;

verus! {

/// Outcome of feeding source text to the interpreter: either compilation
/// failed, or execution stopped with a runtime fault.
#[derive(Debug, Clone, Copy, PartialEq, Eq, Structural)]
pub enum InterpretResult {
    CompilerError,
    RuntimeError,
}

impl InterpretResult {
    /// The human-readable description of the failure.
    pub fn message(&self) -> (r: String)
        ensures
            *self is CompilerError ==> r@ == "Fail to compile source code"@,
            *self is RuntimeError ==> r@ == "Runtime error"@,
    {
        match self {
            InterpretResult::CompilerError => String::from_str("Fail to compile source code"),
            InterpretResult::RuntimeError => String::from_str("Runtime error"),
        }
    }
}

/// The execution context of one active function: which stack slot holds
/// the function, the instruction pointer, and where its locals begin.
pub struct CallFrame {
    pub func_index: usize,
    pub ip: usize,
    pub slot: usize,
}

impl CallFrame {
    /// Moves the instruction pointer forward.
    pub fn inc(&mut self, amount: usize)
        requires
            old(self).ip + amount <= usize::MAX,
        ensures
            final(self).ip == old(self).ip + amount,
            final(self).func_index == old(self).func_index,
            final(self).slot == old(self).slot,
    {
        self.ip = self.ip + amount;
    }

    /// Moves the instruction pointer backward.
    pub fn dec(&mut self, amount: usize)
        requires
            amount <= old(self).ip,
        ensures
            final(self).ip == old(self).ip - amount,
            final(self).func_index == old(self).func_index,
            final(self).slot == old(self).slot,
    {
        self.ip = self.ip - amount;
    }
}

/// The mathematical content of a globals table: later entries shadow
/// earlier ones (the table itself keeps its keys unique).
pub open spec fn map_of(entries: Seq<(String, Value)>) -> Map<Seq<char>, Value>
    decreases entries.len(),
{
    if entries.len() == 0 {
        Map::empty()
    } else {
        map_of(entries.drop_last()).insert(entries.last().0@, entries.last().1)
    }
}

/// No key occurs twice.
pub open spec fn keys_unique(entries: Seq<(String, Value)>) -> bool {
    forall|i: int, j: int|
        0 <= i < j < entries.len() ==> (#[trigger] entries[i]).0@ != (#[trigger] entries[j]).0@
}

/// An entry of a table with unique keys is what the map holds for its key.
pub proof fn lemma_map_of_entry(entries: Seq<(String, Value)>, i: int)
    requires
        keys_unique(entries),
        0 <= i < entries.len(),
    ensures
        map_of(entries).contains_key(entries[i].0@),
        map_of(entries)[entries[i].0@] == entries[i].1,
    decreases entries.len(),
{
    if i == entries.len() - 1 {
    } else {
        assert(keys_unique(entries.drop_last()));
        lemma_map_of_entry(entries.drop_last(), i);
    }
}

/// A name matching no entry is not in the map.
pub proof fn lemma_map_of_absent(entries: Seq<(String, Value)>, name: Seq<char>)
    requires
        forall|i: int| 0 <= i < entries.len() ==> (#[trigger] entries[i]).0@ != name,
    ensures
        !map_of(entries).contains_key(name),
    decreases entries.len(),
{
    if entries.len() > 0 {
        lemma_map_of_absent(entries.drop_last(), name);
    }
}

/// Replacing the value of entry `i` updates the map at that entry's key.
pub proof fn lemma_map_of_update(entries: Seq<(String, Value)>, i: int, p: (String, Value))
    requires
        keys_unique(entries),
        0 <= i < entries.len(),
        p.0@ == entries[i].0@,
    ensures
        map_of(entries.update(i, p)) == map_of(entries).insert(p.0@, p.1),
    decreases entries.len(),
{
    let updated = entries.update(i, p);
    if i == entries.len() - 1 {
        assert(updated.drop_last() =~= entries.drop_last());
        assert(map_of(updated) == map_of(entries.drop_last()).insert(p.0@, p.1));
        assert(map_of(entries.drop_last()).insert(entries.last().0@, entries.last().1).insert(
            p.0@,
            p.1,
        ) =~= map_of(entries.drop_last()).insert(p.0@, p.1));
    } else {
        assert(keys_unique(entries.drop_last()));
        lemma_map_of_update(entries.drop_last(), i, p);
        assert(updated.drop_last() =~= entries.drop_last().update(i, p));
        assert(updated.last() == entries.last());
        assert(map_of(updated) == map_of(entries.drop_last()).insert(p.0@, p.1).insert(
            entries.last().0@,
            entries.last().1,
        ));
        assert(entries.last().0@ != p.0@);
        assert(map_of(entries.drop_last()).insert(p.0@, p.1).insert(
            entries.last().0@,
            entries.last().1,
        ) =~= map_of(entries.drop_last()).insert(entries.last().0@, entries.last().1).insert(
            p.0@,
            p.1,
        ));
    }
}

/// The globals table: identifier names to values. A flat vector with
/// unique keys, seen in contracts as the map it spells out.
pub struct Globals {
    entries: Vec<(String, Value)>,
}

impl View for Globals {
    type V = Map<Seq<char>, Value>;

    closed spec fn view(&self) -> Map<Seq<char>, Value> {
        map_of(self.entries@)
    }
}

impl Globals {
    /// The keys stay unique.
    pub closed spec fn wf(self) -> bool {
        keys_unique(self.entries@)
    }

    pub fn new() -> (g: Globals)
        ensures
            g.wf(),
            g@ == Map::<Seq<char>, Value>::empty(),
    {
        Globals { entries: Vec::new() }
    }

    /// Looks a name up; a clone of the stored value comes back.
    pub fn get(&self, name: &String) -> (r: Option<Value>)
        requires
            self.wf(),
        ensures
            r is Some <==> self@.contains_key(name@),
            r matches Some(v) ==> obs_value(v, self@[name@]),
    {
        let n = self.entries.len();
        let mut i: usize = 0;
        while i < n
            invariant
                self.wf(),
                n == self.entries@.len(),
                i <= n,
                forall|k: int| 0 <= k < i ==> (#[trigger] self.entries@[k]).0@ != name@,
            decreases n - i,
        {
            if self.entries[i].0 == *name {
                proof {
                    lemma_map_of_entry(self.entries@, i as int);
                }
                return Some(self.entries[i].1.clone());
            }
            i = i + 1;
        }
        proof {
            lemma_map_of_absent(self.entries@, name@);
        }
        None
    }

    /// Defines a name: creates it or overwrites what it held.
    pub fn define(&mut self, name: String, v: Value)
        requires
            old(self).wf(),
        ensures
            final(self).wf(),
            final(self)@ == old(self)@.insert(name@, v),
    {
        let n = self.entries.len();
        let mut i: usize = 0;
        while i < n
            invariant
                self.wf(),
                self.entries@ == old(self).entries@,
                n == self.entries@.len(),
                i <= n,
                forall|k: int| 0 <= k < i ==> (#[trigger] self.entries@[k]).0@ != name@,
            decreases n - i,
        {
            if self.entries[i].0 == *(&name) {
                proof {
                    lemma_map_of_update(self.entries@, i as int, (name, v));
                }
                self.entries[i] = (name, v);
                proof {
                    assert(keys_unique(self.entries@));
                }
                return ;
            }
            i = i + 1;
        }
        self.entries.push((name, v));
        proof {
            assert(self.entries@.drop_last() =~= old(self).entries@);
            assert(keys_unique(self.entries@));
        }
    }

    /// Assigns to a name only when it already exists; reports whether it
    /// did.
    pub fn set_existing(&mut self, name: &String, v: Value) -> (r: bool)
        requires
            old(self).wf(),
        ensures
            final(self).wf(),
            r == old(self)@.contains_key(name@),
            r ==> final(self)@ == old(self)@.insert(name@, v),
            !r ==> final(self)@ == old(self)@,
    {
        let n = self.entries.len();
        let mut i: usize = 0;
        while i < n
            invariant
                self.wf(),
                self.entries@ == old(self).entries@,
                n == self.entries@.len(),
                i <= n,
                forall|k: int| 0 <= k < i ==> (#[trigger] self.entries@[k]).0@ != name@,
            decreases n - i,
        {
            if self.entries[i].0 == *name {
                let key = self.entries[i].0.clone();
                proof {
                    lemma_map_of_entry(self.entries@, i as int);
                    lemma_map_of_update(self.entries@, i as int, (key, v));
                }
                self.entries[i] = (key, v);
                proof {
                    assert(keys_unique(self.entries@));
                }
                return true;
            }
            i = i + 1;
        }
        proof {
            lemma_map_of_absent(self.entries@, name@);
        }
        false
    }
}


/// A machine state as the language observes it: the value stack, the
/// globals, the instruction pointer, and the lines printed so far.
pub struct MachineState {
    pub stack: Seq<ObsValue>,
    pub globals: Map<Seq<char>, ObsValue>,
    pub ip: int,
    pub printed: Seq<Seq<char>>,
}

/// What one instruction does: carry on in a new state, halt, or stop with
/// a runtime fault (carrying the state at the fault and its message).
pub enum StepResult {
    Next(MachineState),
    Halted(MachineState),
    Faulted(MachineState, Seq<char>),
}

/// How a whole run ends: a return, a fault, or (nominally) the exhaustion
/// of the step budget.
pub enum RunOutcome {
    Halted(MachineState),
    Faulted(MachineState, Seq<char>),
    Exhausted(MachineState),
}

/// The stack as observable content.
pub open spec fn stack_obs(s: Seq<Value>) -> Seq<ObsValue> {
    s.map_values(|v: Value| obs(v))
}

/// The globals as observable content.
pub open spec fn globals_obs(m: Map<Seq<char>, Value>) -> Map<Seq<char>, ObsValue> {
    m.map_values(|v: Value| obs(v))
}

/// The printed lines as text.
pub open spec fn printed_obs(p: Seq<String>) -> Seq<Seq<char>> {
    p.map_values(|s: String| s@)
}

/// The constant pool as observable content.
pub open spec fn pool_obs(consts: Seq<Value>) -> Seq<ObsValue> {
    consts.map_values(|v: Value| obs(v))
}

/// Inserting into a map commutes with taking observable content.
pub proof fn lemma_globals_obs_insert(m: Map<Seq<char>, Value>, k: Seq<char>, v: Value)
    ensures
        globals_obs(m.insert(k, v)) == globals_obs(m).insert(k, obs(v)),
{
    assert(globals_obs(m.insert(k, v)) =~= globals_obs(m).insert(k, obs(v)));
}

/// Indexing the pool commutes with taking observable content.
pub proof fn lemma_pool_obs_index(s: Seq<Value>, i: int)
    requires
        0 <= i < s.len(),
    ensures
        pool_obs(s)[i] == obs(s[i]),
        pool_obs(s).len() == s.len(),
{
}

/// The pool and its observable content have one length.
pub proof fn lemma_pool_obs_len(s: Seq<Value>)
    ensures
        pool_obs(s).len() == s.len(),
{
}

/// Looking a key up commutes with taking observable content.
pub proof fn lemma_globals_obs_index(m: Map<Seq<char>, Value>, k: Seq<char>)
    ensures
        globals_obs(m).contains_key(k) == m.contains_key(k),
        m.contains_key(k) ==> globals_obs(m)[k] == obs(m[k]),
{
}

/// Reads the constant-pool operand after the opcode: the constant and the
/// state past the operand byte, or nothing when the operand or the



/// The constant-loading step: push the constant the operand indexes.
pub open spec fn step_constant(code: Seq<u8>, consts: Seq<ObsValue>, s1: MachineState) -> StepResult {
    if s1.ip < code.len() && (code[s1.ip] as int) < consts.len() {
        let v = consts[code[s1.ip] as int];
        let s2 = MachineState { ip: s1.ip + 1, ..s1 };
        StepResult::Next(MachineState { stack: s2.stack.push(v), ..s2 })
    } else {
        StepResult::Faulted(s1, "Unable to read constant"@)
    }
}

/// The negation step: the top must be a number; its sign flips.
pub open spec fn step_negate(s1: MachineState) -> StepResult {
    if s1.stack.len() >= 2 && s1.stack.last() is Number {
        StepResult::Next(
            MachineState {
                stack: s1.stack.drop_last().push(
                    ObsValue::Number(num::num_neg(s1.stack.last()->Number_0)),
                ),
                ..s1
            },
        )
    } else {
        StepResult::Faulted(s1, "Operand must be a number"@)
    }
}

/// The addition step: numbers add, strings concatenate.
pub open spec fn step_add(s1: MachineState) -> StepResult {
    let n = s1.stack.len() as int;
    if n >= 3 && s1.stack.last() is Number && s1.stack[n - 2] is Number {
        StepResult::Next(
            MachineState {
                stack: s1.stack.drop_last().drop_last().push(
                    ObsValue::Number(
                        num::add_bits(s1.stack[n - 2]->Number_0, s1.stack.last()->Number_0),
                    ),
                ),
                ..s1
            },
        )
    } else if n >= 3 && s1.stack.last() is Str && s1.stack[n - 2] is Str {
        StepResult::Next(
            MachineState {
                stack: s1.stack.drop_last().drop_last().push(
                    ObsValue::Str(s1.stack[n - 2]->Str_0 + s1.stack.last()->Str_0),
                ),
                ..s1
            },
        )
    } else {
        StepResult::Faulted(s1, "Both operands have to be string or number!"@)
    }
}

/// The subtraction and multiplication steps.
pub open spec fn step_arith(b: u8, s1: MachineState) -> StepResult {
    let n = s1.stack.len() as int;
    if n >= 3 && s1.stack.last() is Number && s1.stack[n - 2] is Number {
        let x = s1.stack[n - 2]->Number_0;
        let y = s1.stack.last()->Number_0;
        StepResult::Next(
            MachineState {
                stack: s1.stack.drop_last().drop_last().push(
                    ObsValue::Number(
                        if b == 4 {
                            num::sub_bits(x, y)
                        } else {
                            num::mul_bits(x, y)
                        },
                    ),
                ),
                ..s1
            },
        )
    } else {
        StepResult::Faulted(s1, "Both operands need to be numbers"@)
    }
}

/// The division step: a zero divisor is a fault.
pub open spec fn step_divide(s1: MachineState) -> StepResult {
    let n = s1.stack.len() as int;
    if n >= 3 && s1.stack.last() is Number && s1.stack[n - 2] is Number {
        if num::num_key(s1.stack.last()->Number_0) == 0 {
            StepResult::Faulted(s1, "Cannot divide by 0!"@)
        } else {
            StepResult::Next(
                MachineState {
                    stack: s1.stack.drop_last().drop_last().push(
                        ObsValue::Number(
                            num::div_bits(s1.stack[n - 2]->Number_0, s1.stack.last()->Number_0),
                        ),
                    ),
                    ..s1
                },
            )
        }
    } else {
        StepResult::Faulted(s1, "Both operands need to be numbers"@)
    }
}

/// The logical-not step: pop, push falsiness.
pub open spec fn step_not(s1: MachineState) -> StepResult {
    if s1.stack.len() >= 2 {
        StepResult::Next(
            MachineState {
                stack: s1.stack.drop_last().push(ObsValue::Boolean(ofalsy(s1.stack.last()))),
                ..s1
            },
        )
    } else {
        StepResult::Faulted(s1, "Stack underflow"@)
    }
}

/// The equality step.
pub open spec fn step_equal(s1: MachineState) -> StepResult {
    let n = s1.stack.len() as int;
    if n >= 3 {
        StepResult::Next(
            MachineState {
                stack: s1.stack.drop_last().drop_last().push(
                    ObsValue::Boolean(oeq(s1.stack[n - 2], s1.stack.last())),
                ),
                ..s1
            },
        )
    } else {
        StepResult::Faulted(s1, "Stack underflow"@)
    }
}

/// The numeric-comparison steps.
pub open spec fn step_compare(b: u8, s1: MachineState) -> StepResult {
    let n = s1.stack.len() as int;
    if n >= 3 && s1.stack.last() is Number && s1.stack[n - 2] is Number {
        let x = s1.stack[n - 2]->Number_0;
        let y = s1.stack.last()->Number_0;
        StepResult::Next(
            MachineState {
                stack: s1.stack.drop_last().drop_last().push(
                    ObsValue::Boolean(
                        if b == 12 {
                            num::num_lt(y, x)
                        } else {
                            num::num_lt(x, y)
                        },
                    ),
                ),
                ..s1
            },
        )
    } else {
        StepResult::Faulted(s1, "Both operands need to be numbers"@)
    }
}

/// The print step: pop and record the text.
pub open spec fn step_print(s1: MachineState) -> StepResult {
    if s1.stack.len() >= 2 {
        StepResult::Next(
            MachineState {
                stack: s1.stack.drop_last(),
                printed: s1.printed.push(otext(s1.stack.last())),
                ..s1
            },
        )
    } else {
        StepResult::Faulted(s1, "Stack underflow"@)
    }
}

/// The pop step.
pub open spec fn step_pop(s1: MachineState) -> StepResult {
    if s1.stack.len() >= 2 {
        StepResult::Next(MachineState { stack: s1.stack.drop_last(), ..s1 })
    } else {
        StepResult::Faulted(s1, "Stack underflow"@)
    }
}

/// The global-definition step: the constant names the global, the popped
/// top becomes its value.
pub open spec fn step_define_global(code: Seq<u8>, consts: Seq<ObsValue>, s1: MachineState) -> StepResult {
    if s1.ip < code.len() && (code[s1.ip] as int) < consts.len() {
        let v = consts[code[s1.ip] as int];
        let s2 = MachineState { ip: s1.ip + 1, ..s1 };
        match v {
            ObsValue::Str(name) => if s2.stack.len() >= 2 {
                StepResult::Next(
                    MachineState {
                        stack: s2.stack.drop_last(),
                        globals: s2.globals.insert(name, s2.stack.last()),
                        ..s2
                    },
                )
            } else {
                StepResult::Faulted(s2, "Stack underflow"@)
            },
            _ => StepResult::Faulted(s2, "Unable to read constant"@),
        }
    } else {
        StepResult::Faulted(s1, "Unable to read constant"@)
    }
}

/// The global-read step: push the named global.
pub open spec fn step_get_global(code: Seq<u8>, consts: Seq<ObsValue>, s1: MachineState) -> StepResult {
    if s1.ip < code.len() && (code[s1.ip] as int) < consts.len() {
        let v = consts[code[s1.ip] as int];
        let s2 = MachineState { ip: s1.ip + 1, ..s1 };
        match v {
            ObsValue::Str(name) => if s2.globals.contains_key(name) {
                StepResult::Next(MachineState { stack: s2.stack.push(s2.globals[name]), ..s2 })
            } else {
                StepResult::Faulted(s2, "Undefined variable "@ + name)
            },
            _ => StepResult::Faulted(s2, "Unable to read constant"@),
        }
    } else {
        StepResult::Faulted(s1, "Unable to read constant"@)
    }
}

/// The global-assignment step: only an already defined global accepts it.
pub open spec fn step_set_global(code: Seq<u8>, consts: Seq<ObsValue>, s1: MachineState) -> StepResult {
    if s1.ip < code.len() && (code[s1.ip] as int) < consts.len() {
        let v = consts[code[s1.ip] as int];
        let s2 = MachineState { ip: s1.ip + 1, ..s1 };
        match v {
            ObsValue::Str(name) => if s2.stack.len() < 2 {
                StepResult::Faulted(s2, "Stack underflow"@)
            } else if s2.globals.contains_key(name) {
                StepResult::Next(
                    MachineState { globals: s2.globals.insert(name, s2.stack.last()), ..s2 },
                )
            } else {
                StepResult::Faulted(s2, "Undefined variable '"@ + name + "'"@)
            },
            _ => StepResult::Faulted(s2, "Unable to read constant"@),
        }
    } else {
        StepResult::Faulted(s1, "Unable to read constant"@)
    }
}

/// The local-read step: slot 0 holds the function, locals start one above
/// the frame's base.
pub open spec fn step_get_local(code: Seq<u8>, s1: MachineState) -> StepResult {
    if s1.ip < code.len() {
        let slot = code[s1.ip];
        let s2 = MachineState { ip: s1.ip + 1, ..s1 };
        if slot + 1 < s2.stack.len() {
            StepResult::Next(MachineState { stack: s2.stack.push(s2.stack[slot + 1]), ..s2 })
        } else {
            StepResult::Faulted(s2, "Local slot out of range"@)
        }
    } else {
        StepResult::Faulted(s1, "Instruction pointer out of range"@)
    }
}

/// The local-write step: the top stays on the stack.
pub open spec fn step_set_local(code: Seq<u8>, s1: MachineState) -> StepResult {
    if s1.ip < code.len() {
        let slot = code[s1.ip];
        let s2 = MachineState { ip: s1.ip + 1, ..s1 };
        if s2.stack.len() < 2 {
            StepResult::Faulted(s2, "Stack underflow"@)
        } else if slot + 1 < s2.stack.len() {
            StepResult::Next(
                MachineState { stack: s2.stack.update(slot + 1, s2.stack.last()), ..s2 },
            )
        } else {
            StepResult::Faulted(s2, "Local slot out of range"@)
        }
    } else {
        StepResult::Faulted(s1, "Instruction pointer out of range"@)
    }
}

/// The conditional-jump step: a falsy top moves the instruction pointer
/// forward by the operand distance; the top is not popped.
pub open spec fn step_jump_if_false(code: Seq<u8>, s1: MachineState) -> StepResult {
    if s1.ip + 1 < code.len() {
        let d = code[s1.ip] * 256 + code[s1.ip + 1];
        let s2 = MachineState { ip: s1.ip + 2, ..s1 };
        if s2.stack.len() >= 2 {
            if ofalsy(s2.stack.last()) {
                if s2.ip + d <= usize::MAX {
                    StepResult::Next(MachineState { ip: s2.ip + d, ..s2 })
                } else {
                    StepResult::Faulted(s2, "Jump out of range"@)
                }
            } else {
                StepResult::Next(s2)
            }
        } else {
            StepResult::Faulted(s2, "Stack underflow"@)
        }
    } else {
        StepResult::Faulted(s1, "Instruction pointer out of range"@)
    }
}

/// The unconditional forward jump step.
pub open spec fn step_jump(code: Seq<u8>, s1: MachineState) -> StepResult {
    if s1.ip + 1 < code.len() {
        let d = code[s1.ip] * 256 + code[s1.ip + 1];
        let s2 = MachineState { ip: s1.ip + 2, ..s1 };
        if s2.ip + d <= usize::MAX {
            StepResult::Next(MachineState { ip: s2.ip + d, ..s2 })
        } else {
            StepResult::Faulted(s2, "Jump out of range"@)
        }
    } else {
        StepResult::Faulted(s1, "Instruction pointer out of range"@)
    }
}

/// The backward jump step.
pub open spec fn step_loop(code: Seq<u8>, s1: MachineState) -> StepResult {
    if s1.ip + 1 < code.len() {
        let d = code[s1.ip] * 256 + code[s1.ip + 1];
        let s2 = MachineState { ip: s1.ip + 2, ..s1 };
        if d <= s2.ip {
            StepResult::Next(MachineState { ip: s2.ip - d, ..s2 })
        } else {
            StepResult::Faulted(s2, "Jump out of range"@)
        }
    } else {
        StepResult::Faulted(s1, "Instruction pointer out of range"@)
    }
}

/// One step of the machine over `code` and the pool `consts`: the
/// instruction table of the language. Slot 0 of the stack holds the
/// running function; the locals window starts at slot 1. Every malformed
/// situation — a truncated instruction, a bad opcode or operand, a
/// missing stack operand — is a fault, never undefined behaviour.
pub open spec fn step(code: Seq<u8>, consts: Seq<ObsValue>, s: MachineState) -> StepResult {
    if !(0 <= s.ip < code.len()) {
        StepResult::Faulted(s, "Instruction pointer out of range"@)
    } else {
        let b = code[s.ip];
        let s1 = MachineState { ip: s.ip + 1, ..s };
        if b == 0 {
            step_constant(code, consts, s1)
        } else if b == 1 {
            StepResult::Halted(s1)
        } else if b == 2 {
            step_negate(s1)
        } else if b == 3 {
            step_add(s1)
        } else if b == 4 || b == 5 {
            step_arith(b, s1)
        } else if b == 6 {
            step_divide(s1)
        } else if b == 7 {
            StepResult::Next(MachineState { stack: s1.stack.push(ObsValue::Nil), ..s1 })
        } else if b == 8 {
            StepResult::Next(MachineState { stack: s1.stack.push(ObsValue::Boolean(true)), ..s1 })
        } else if b == 9 {
            StepResult::Next(MachineState { stack: s1.stack.push(ObsValue::Boolean(false)), ..s1 })
        } else if b == 10 {
            step_not(s1)
        } else if b == 11 {
            step_equal(s1)
        } else if b == 12 || b == 13 {
            step_compare(b, s1)
        } else if b == 14 {
            step_print(s1)
        } else if b == 15 {
            step_pop(s1)
        } else if b == 16 {
            step_define_global(code, consts, s1)
        } else if b == 17 {
            step_get_global(code, consts, s1)
        } else if b == 18 {
            step_set_global(code, consts, s1)
        } else if b == 19 {
            step_get_local(code, s1)
        } else if b == 20 {
            step_set_local(code, s1)
        } else if b == 21 {
            step_jump_if_false(code, s1)
        } else if b == 22 {
            step_jump(code, s1)
        } else if b == 23 {
            step_loop(code, s1)
        } else {
            StepResult::Faulted(s1, "Unknown opcode"@)
        }
    }
}

/// Runs the machine until it halts, faults, or spends its step budget.
pub open spec fn machine_run(
    code: Seq<u8>,
    consts: Seq<ObsValue>,
    s: MachineState,
    fuel: nat,
) -> RunOutcome
    decreases fuel,
{
    if fuel == 0 {
        RunOutcome::Exhausted(s)
    } else {
        match step(code, consts, s) {
            StepResult::Next(s2) => machine_run(code, consts, s2, (fuel - 1) as nat),
            StepResult::Halted(s2) => RunOutcome::Halted(s2),
            StepResult::Faulted(s2, m) => RunOutcome::Faulted(s2, m),
        }
    }
}

/// The printed lines only grow: everything printed before is still
/// there, in place.
pub open spec fn printed_extends(post: Seq<String>, pre: Seq<String>) -> bool {
    &&& post.len() >= pre.len()
    &&& forall|i: int| 0 <= i < pre.len() ==> post[i] == pre[i]
}

/// The second line of the runtime-error protocol: the source line of the
/// byte before the instruction pointer.
pub open spec fn fault_line_text(lines: Seq<usize>, ip: int) -> Seq<char> {
    let line: usize = if 1 <= ip && ip - 1 < lines.len() {
        lines[ip - 1]
    } else {
        0
    };
    "[line "@ + crate::text::dec_rep(line as nat) + "] in script"@
}

/// The machine: the value stack, the globals, the frame stack, and the
/// lines that `print` and the error protocol have produced.
pub struct VM {
    pub stack: Vec<Value>,
    pub globals: Globals,
    pub frames: Vec<CallFrame>,
    pub printed: Vec<String>,
    pub diagnostics: Vec<String>,
}

impl VM {
    /// Shape of a machine in mid-run: exactly one frame, whose function
    /// sits in slot 0 of the stack with its locals window starting at 1.
    pub open spec fn running_wf(self) -> bool {
        &&& self.globals.wf()
        &&& self.frames@.len() == 1
        &&& self.frames@[0].func_index == 0
        &&& self.frames@[0].slot == 1
        &&& self.stack@.len() >= 1
        &&& (self.stack@[0] matches Value::Func(f) && f.chunk.lines@.len() == f.chunk.code@.len())
    }

    /// The chunk being executed.
    pub open spec fn spec_chunk(self) -> crate::chunk::Chunk
        recommends
            self.running_wf(),
    {
        self.stack@[0]->Func_0.chunk
    }

    /// The machine state as the language observes it.
    pub open spec fn machine(self) -> MachineState
        recommends
            self.running_wf(),
    {
        MachineState {
            stack: stack_obs(self.stack@),
            globals: globals_obs(self.globals@),
            ip: self.frames@[0].ip as int,
            printed: printed_obs(self.printed@),
        }
    }

    pub fn new() -> (vm: VM)
        ensures
            vm.globals.wf(),
            vm.globals@ == Map::<Seq<char>, Value>::empty(),
            vm.stack@.len() == 0,
            vm.frames@.len() == 0,
            vm.printed@.len() == 0,
            vm.diagnostics@.len() == 0,
    {
        VM {
            stack: Vec::new(),
            globals: Globals::new(),
            frames: Vec::new(),
            printed: Vec::new(),
            diagnostics: Vec::new(),
        }
    }

    /// Nothing to release: dropping the machine frees its parts.
    pub fn free(&self) {
    }


    /// Compiles and runs one piece of source text. A compile failure
    /// leaves the machine's output untouched; a run starts from a fresh
    /// value stack and frame, with the globals carried over.
    pub fn interpret(&mut self, source: &str) -> (r: Result<(), InterpretResult>)
        requires
            old(self).globals.wf(),
        ensures
            final(self).globals.wf(),
            r matches Err(e) ==> (e == InterpretResult::CompilerError || e
                == InterpretResult::RuntimeError),
            printed_extends(final(self).printed@, old(self).printed@),
            // a compile error leaves the machine untouched: no bytecode
            // runs, only the compiler's reports join the diagnostics
            r matches Err(e) && e == InterpretResult::CompilerError ==> {
                &&& final(self).printed@ == old(self).printed@
                &&& final(self).globals == old(self).globals
                &&& final(self).frames@ == old(self).frames@
                &&& final(self).stack@ == old(self).stack@
                &&& final(self).diagnostics@.len() > old(self).diagnostics@.len()
            },
            // a runtime fault reports its message and source line
            r matches Err(e) && e == InterpretResult::RuntimeError ==> final(self).diagnostics@.len() == old(self).diagnostics@.len() + 2,
            // a clean run halted at a return instruction of the compiled,
            // well-formed script, started from a fresh stack holding only
            // that script, the carried-over globals, and the output so far
            r is Ok ==> final(self).running_wf() && ({
                let outcome = machine_run(
                    final(self).spec_chunk().code@,
                    pool_obs(final(self).spec_chunk().constants.values@),
                    MachineState {
                        stack: seq![obs(final(self).stack@[0])],
                        globals: globals_obs(old(self).globals@),
                        ip: 0,
                        printed: printed_obs(old(self).printed@),
                    },
                    u64::MAX as nat,
                );
                &&& outcome is Halted
                &&& final(self).machine() == outcome->Halted_0
                &&& crate::chunk::code_wf(
                    final(self).spec_chunk().code@,
                    final(self).spec_chunk().constants.values@.len() as int,
                )
            }),
    {
        let mut compiler: Compiler = Compiler::new();
        let compiled = compiler.compile(source);
        let mut messages = compiler.diagnostics;
        self.diagnostics.append(&mut messages);
        match compiled {
            Err(e) => Err(e),
            Ok(function) => {
                self.reset_stack();
                self.frames = Vec::new();
                self.frames.push(CallFrame { func_index: 0, ip: 0, slot: 1 });
                self.stack.push(Value::Func(function));
                proof {
                    assert(stack_obs(self.stack@) =~= seq![obs(self.stack@[0])]);
                }
                self.run()
            },
        }
    }

    /// The current instruction pointer.
    fn ip(&self) -> (r: usize)
        requires
            self.running_wf(),
        ensures
            r == self.frames@[0].ip,
    {
        self.frames[0].ip
    }

    /// A borrow of the running function.
    fn current(&self) -> (f: &Function)
        requires
            self.running_wf(),
        ensures
            *f == self.stack@[0]->Func_0,
    {
        if let Value::Func(f) = &self.stack[0] {
            f
        } else {
            proof {
                assert(false);
            }
            vstd::pervasive::unreached()
        }
    }

    /// Reads the byte at the instruction pointer and moves past it;
    /// nothing comes back when execution ran off the end of the code.
    fn read_byte(&mut self) -> (r: Option<u8>)
        requires
            old(self).running_wf(),
        ensures
            final(self).running_wf(),
            final(self).stack@ == old(self).stack@,
            final(self).globals == old(self).globals,
            final(self).printed@ == old(self).printed@,
            final(self).diagnostics@ == old(self).diagnostics@,
            r is Some <==> old(self).frames@[0].ip < old(self).spec_chunk().code@.len(),
            r matches Some(b) ==> b == old(self).spec_chunk().code@[old(self).frames@[0].ip as int]
                && final(self).frames@[0].ip == old(self).frames@[0].ip + 1,
            r is None ==> final(self).frames@[0].ip == old(self).frames@[0].ip,
    {
        let ip = self.ip();
        let size = self.current().size();
        if ip < size {
            let b = self.current().read(ip);
            let frame = &mut self.frames[0];
            frame.inc(1);
            proof {
                assert(final(frame).ip == ip + 1);
            }
            Some(b)
        } else {
            None
        }
    }

    /// Reads a two-byte big-endian distance and moves past it.
    fn read_short(&mut self) -> (r: Option<usize>)
        requires
            old(self).running_wf(),
        ensures
            final(self).running_wf(),
            final(self).stack@ == old(self).stack@,
            final(self).globals == old(self).globals,
            final(self).printed@ == old(self).printed@,
            final(self).diagnostics@ == old(self).diagnostics@,
            r is Some <==> old(self).frames@[0].ip + 1 < old(self).spec_chunk().code@.len(),
            r matches Some(d) ==> {
                &&& d == old(self).spec_chunk().code@[old(self).frames@[0].ip as int] * 256 + old(self).spec_chunk().code@[old(self).frames@[0].ip as int + 1]
                &&& final(self).frames@[0].ip == old(self).frames@[0].ip + 2
                &&& d <= 65535
            },
            r is None ==> final(self).frames@[0].ip == old(self).frames@[0].ip,
    {
        let ip = self.ip();
        let size = self.current().size();
        if ip < size && ip + 1 < size {
            let d = self.current().jump_offset(ip);
            let frame = &mut self.frames[0];
            frame.inc(2);
            Some(d)
        } else {
            None
        }
    }

    /// Reads a constant-pool operand and looks the constant up.
    fn read_constant(&mut self) -> (r: Option<Value>)
        requires
            old(self).running_wf(),
        ensures
            final(self).running_wf(),
            final(self).stack@ == old(self).stack@,
            final(self).globals == old(self).globals,
            final(self).printed@ == old(self).printed@,
            final(self).diagnostics@ == old(self).diagnostics@,
            (r is Some) == (old(self).frames@[0].ip < old(self).spec_chunk().code@.len() && (old(self).spec_chunk().code@[old(self).frames@[0].ip as int] as int) < old(self).spec_chunk().constants.values@.len()),
            r matches Some(v) ==> {
                &&& obs_value(
                    v,
                    old(self).spec_chunk().constants.values@[old(self).spec_chunk().code@[old(self).frames@[0].ip as int] as int],
                )
                &&& final(self).frames@[0].ip == old(self).frames@[0].ip + 1
            },
            r is None ==> final(self).frames@[0].ip == old(self).frames@[0].ip,
    {
        let ip = self.ip();
        let size = self.current().size();
        if ip < size {
            let idx = self.current().read(ip) as usize;
            let pool = self.current().chunk.constants.values.len();
            if idx < pool {
                let v = self.current().read_constant(idx);
                let frame = &mut self.frames[0];
                frame.inc(1);
                Some(v)
            } else {
                None
            }
        } else {
            None
        }
    }

    /// Pushes a value onto the stack.
    fn push(&mut self, val: Value)
        ensures
            final(self).stack@ == old(self).stack@.push(val),
            final(self).globals == old(self).globals,
            final(self).frames@ == old(self).frames@,
            final(self).printed@ == old(self).printed@,
            final(self).diagnostics@ == old(self).diagnostics@,
    {
        self.stack.push(val)
    }

    /// Pops the top of the stack; slot 0 (the running function) stays.
    fn pop_value(&mut self) -> (r: Option<Value>)
        ensures
            final(self).globals == old(self).globals,
            final(self).frames@ == old(self).frames@,
            final(self).printed@ == old(self).printed@,
            final(self).diagnostics@ == old(self).diagnostics@,
            r is Some <==> old(self).stack@.len() >= 2,
            r matches Some(v) ==> v == old(self).stack@.last() && final(self).stack@ == old(self).stack@.drop_last(),
            r is None ==> final(self).stack@ == old(self).stack@,
    {
        if self.stack.len() >= 2 {
            self.stack.pop()
        } else {
            None
        }
    }

    /// A borrow of the value `distance` slots below the top.
    fn peek_at(&self, distance: usize) -> (r: Option<&Value>)
        ensures
            r is Some <==> distance + 2 <= self.stack@.len(),
            r matches Some(v) ==> *v == self.stack@[self.stack@.len() - distance - 1],
    {
        if self.stack.len() >= 2 && distance <= self.stack.len() - 2 {
            Some(&self.stack[self.stack.len() - distance - 1])
        } else {
            None
        }
    }

    /// Reports a runtime fault: the message and the offending line go to
    /// the diagnostics, the stack is cleared, and the run ends.
    fn runtime_error(&mut self, message: &str) -> (r: Result<(), InterpretResult>)
        requires
            old(self).running_wf(),
        ensures
            r matches Err(e) && e == InterpretResult::RuntimeError,
            final(self).stack@.len() == 0,
            final(self).globals == old(self).globals,
            final(self).frames@ == old(self).frames@,
            final(self).printed@ == old(self).printed@,
            final(self).diagnostics@.len() == old(self).diagnostics@.len() + 2,
            final(self).diagnostics@[old(self).diagnostics@.len() as int]@ == message@,
            final(self).diagnostics@[old(self).diagnostics@.len() as int + 1]@ == fault_line_text(
                old(self).spec_chunk().lines@,
                old(self).frames@[0].ip as int,
            ),
    {
        let ip = self.ip();
        let lines = self.current().chunk.lines.len();
        let line = if ip >= 1 && ip - 1 < lines {
            self.current().read_line(ip - 1)
        } else {
            0
        };
        self.diagnostics.push(String::from_str(message));
        let mut where_line = String::from_str("[line ");
        let line_text = text::usize_to_string(line);
        where_line.append(line_text.as_str());
        where_line.append("] in script");
        self.diagnostics.push(where_line);
        self.reset_stack();
        Err(InterpretResult::RuntimeError)
    }

    fn reset_stack(&mut self)
        ensures
            final(self).stack@.len() == 0,
            final(self).globals == old(self).globals,
            final(self).frames@ == old(self).frames@,
            final(self).printed@ == old(self).printed@,
            final(self).diagnostics@ == old(self).diagnostics@,
    {
        self.stack.clear();
    }

    /// Whether the two values on top of the stack are both numbers.
    fn operands_numbers(&self) -> (r: bool)
        ensures
            r <==> (self.stack@.len() >= 3 && self.stack@[self.stack@.len() - 1] is Number
                && self.stack@[self.stack@.len() - 2] is Number),
    {
        match self.peek_at(0) {
            Some(v0) => {
                if v0.is_number() {
                    match self.peek_at(1) {
                        Some(v1) => v1.is_number(),
                        None => false,
                    }
                } else {
                    false
                }
            },
            None => false,
        }
    }

    /// Whether the two values on top of the stack are both strings.
    fn operands_strings(&self) -> (r: bool)
        ensures
            r <==> (self.stack@.len() >= 3 && self.stack@[self.stack@.len() - 1] is Str
                && self.stack@[self.stack@.len() - 2] is Str),
    {
        match self.peek_at(0) {
            Some(v0) => {
                if v0.is_string() {
                    match self.peek_at(1) {
                        Some(v1) => v1.is_string(),
                        None => false,
                    }
                } else {
                    false
                }
            },
            None => false,
        }
    }


    /// After one successful step: the machine is at `sx`, the running
    /// function and the diagnostics are untouched, printing only grew.
    pub open spec fn stepped_state(post: VM, pre_vm: VM, sx: MachineState) -> bool {
        &&& post.running_wf()
        &&& post.machine() == sx
        &&& post.stack@[0] == pre_vm.stack@[0]
        &&& post.diagnostics@ == pre_vm.diagnostics@
        &&& printed_extends(post.printed@, pre_vm.printed@)
    }

    /// After a fault at machine state `sx` with message `m`: the stack is
    /// cleared, globals and printed lines are those of the fault state,
    /// and the message with its source line joins the diagnostics.
    pub open spec fn faulted_state(post: VM, pre_vm: VM, sx: MachineState, m: Seq<char>) -> bool {
        &&& post.globals.wf()
        &&& post.stack@.len() == 0
        &&& globals_obs(post.globals@) == sx.globals
        &&& printed_obs(post.printed@) == sx.printed
        &&& printed_extends(post.printed@, pre_vm.printed@)
        &&& post.diagnostics@.len() == pre_vm.diagnostics@.len() + 2
        &&& post.diagnostics@[pre_vm.diagnostics@.len() as int]@ == m
        &&& post.diagnostics@[pre_vm.diagnostics@.len() as int + 1]@ == fault_line_text(
            pre_vm.spec_chunk().lines@,
            sx.ip,
        )
    }

    /// Executes one instruction of its group (constant and literal pushes, not, print and pop), implementing the
    /// machine step for it: the opcode byte was just consumed and `pre` is
    /// the machine state at that opcode.
    fn exec_stack_op(&mut self, instruction: OpCode, Ghost(pre): Ghost<MachineState>) -> (r: Result<
        (),
        InterpretResult,
    >)
        requires
            old(self).running_wf(),
            instruction == OpCode::Constant || instruction == OpCode::Nil || instruction == OpCode::True || instruction == OpCode::False || instruction == OpCode::Not || instruction == OpCode::Print || instruction == OpCode::Pop,
            1 <= old(self).frames@[0].ip <= old(self).spec_chunk().code@.len(),
            pre == (MachineState { ip: old(self).frames@[0].ip - 1, ..old(self).machine() }),
            old(self).spec_chunk().code@[old(self).frames@[0].ip - 1] == opcode_byte(instruction),
        ensures
            ({
                let code = old(self).spec_chunk().code@;
                let consts = pool_obs(old(self).spec_chunk().constants.values@);
                match step(code, consts, pre) {
                    StepResult::Next(sx) => r is Ok && Self::stepped_state(*final(self), *old(self), sx),
                    StepResult::Halted(sx) => false,
                    StepResult::Faulted(sx, m) => (r matches Err(e) && e
                        == InterpretResult::RuntimeError) && Self::faulted_state(
                        *final(self),
                        *old(self),
                        sx,
                        m,
                    ),
                }
            }),
    {
        let ghost code0 = old(self).spec_chunk().code@;
        let ghost consts0 = pool_obs(old(self).spec_chunk().constants.values@);
        let ghost s1 = MachineState { ip: pre.ip + 1, ..pre };
        proof {
            assert(self.machine() == s1);
        }
        match instruction {
                OpCode::Constant => {
                    let constant = match self.read_constant() {
                        Some(c) => c,
                        None => {
                            proof {
                                assert(consts0.len() == old(self).spec_chunk().constants.values@.len());
                                assert(step(code0, consts0, pre) == StepResult::Faulted(
                                    s1,
                                    "Unable to read constant"@,
                                ));
                            }
                            return self.runtime_error("Unable to read constant");
                        },
                    };
                    let ghost s2 = MachineState { ip: s1.ip + 1, ..s1 };
                    proof {
                        let pool = old(self).spec_chunk().constants.values@;
                        let idx = code0[s1.ip] as int;
                        crate::value::lemma_obs_facts(constant, pool[idx]);
                        lemma_pool_obs_index(pool, idx);
                        assert(consts0[idx] == obs(pool[idx]));
                        assert(self.machine() == s2);
                    }
                    let ghost ov = obs(constant);
                    self.push(constant);
                    proof {
                        assert(stack_obs(self.stack@) =~= s2.stack.push(ov));
                        assert(step(code0, consts0, pre) == StepResult::Next(self.machine()));
                    }
                },
                OpCode::Nil => {
                    self.push(Value::Nil);
                    proof {
                        assert(stack_obs(self.stack@) =~= s1.stack.push(ObsValue::Nil));
                        assert(step(code0, consts0, pre) == StepResult::Next(self.machine()));
                    }
                },
                OpCode::True => {
                    self.push(Value::Boolean(true));
                    proof {
                        assert(stack_obs(self.stack@) =~= s1.stack.push(
                            ObsValue::Boolean(true),
                        ));
                        assert(step(code0, consts0, pre) == StepResult::Next(self.machine()));
                    }
                },
                OpCode::False => {
                    self.push(Value::Boolean(false));
                    proof {
                        assert(stack_obs(self.stack@) =~= s1.stack.push(
                            ObsValue::Boolean(false),
                        ));
                        assert(step(code0, consts0, pre) == StepResult::Next(self.machine()));
                    }
                },
                OpCode::Not => {
                    let v = match self.pop_value() {
                        Some(v) => v,
                        None => {
                            proof {
                                assert(step(code0, consts0, pre) == StepResult::Faulted(
                                    s1,
                                    "Stack underflow"@,
                                ));
                            }
                            return self.runtime_error("Stack underflow");
                        },
                    };
                    proof {
                        crate::value::lemma_obs_facts(v, v);
                    }
                    self.push(Value::Boolean(v.is_falsy()));
                    proof {
                        assert(stack_obs(self.stack@) =~= s1.stack.drop_last().push(
                            ObsValue::Boolean(ofalsy(s1.stack.last())),
                        ));
                        assert(step(code0, consts0, pre) == StepResult::Next(self.machine()));
                    }
                },
                OpCode::Print => {
                    let v = match self.pop_value() {
                        Some(v) => v,
                        None => {
                            proof {
                                assert(step(code0, consts0, pre) == StepResult::Faulted(
                                    s1,
                                    "Stack underflow"@,
                                ));
                            }
                            return self.runtime_error("Stack underflow");
                        },
                    };
                    let text = v.to_text();
                    proof {
                        crate::value::lemma_obs_facts(v, v);
                    }
                    self.printed.push(text);
                    proof {
                        assert(stack_obs(self.stack@) =~= s1.stack.drop_last());
                        assert(printed_obs(self.printed@) =~= s1.printed.push(
                            otext(s1.stack.last()),
                        ));
                        assert(step(code0, consts0, pre) == StepResult::Next(self.machine()));
                    }
                },
                OpCode::Pop => {
                    if self.pop_value().is_none() {
                        proof {
                            assert(step(code0, consts0, pre) == StepResult::Faulted(
                                s1,
                                "Stack underflow"@,
                            ));
                        }
                        return self.runtime_error("Stack underflow");
                    }
                    proof {
                        assert(stack_obs(self.stack@) =~= s1.stack.drop_last());
                        assert(step(code0, consts0, pre) == StepResult::Next(self.machine()));
                    }
                },
            _ => {
                proof {
                    assert(false);
                }
                return self.runtime_error("Unknown opcode");
            },
        }
        Ok(())
    }

    /// Executes one instruction of its group (negation, arithmetic, equality and comparison), implementing the
    /// machine step for it: the opcode byte was just consumed and `pre` is
    /// the machine state at that opcode.
    fn exec_arith_op(&mut self, instruction: OpCode, Ghost(pre): Ghost<MachineState>) -> (r: Result<
        (),
        InterpretResult,
    >)
        requires
            old(self).running_wf(),
            instruction == OpCode::Negate || instruction == OpCode::Add || instruction == OpCode::Substract || instruction == OpCode::Multiply || instruction == OpCode::Divide || instruction == OpCode::Equal || instruction == OpCode::Less || instruction == OpCode::Greater,
            1 <= old(self).frames@[0].ip <= old(self).spec_chunk().code@.len(),
            pre == (MachineState { ip: old(self).frames@[0].ip - 1, ..old(self).machine() }),
            old(self).spec_chunk().code@[old(self).frames@[0].ip - 1] == opcode_byte(instruction),
        ensures
            ({
                let code = old(self).spec_chunk().code@;
                let consts = pool_obs(old(self).spec_chunk().constants.values@);
                match step(code, consts, pre) {
                    StepResult::Next(sx) => r is Ok && Self::stepped_state(*final(self), *old(self), sx),
                    StepResult::Halted(sx) => false,
                    StepResult::Faulted(sx, m) => (r matches Err(e) && e
                        == InterpretResult::RuntimeError) && Self::faulted_state(
                        *final(self),
                        *old(self),
                        sx,
                        m,
                    ),
                }
            }),
    {
        let ghost code0 = old(self).spec_chunk().code@;
        let ghost consts0 = pool_obs(old(self).spec_chunk().constants.values@);
        let ghost s1 = MachineState { ip: pre.ip + 1, ..pre };
        proof {
            assert(self.machine() == s1);
        }
        match instruction {
                OpCode::Negate => {
                    if let Err(e) = self.validate_unary() {
                        proof {
                            assert(step(code0, consts0, pre) == StepResult::Faulted(
                                s1,
                                "Operand must be a number"@,
                            ));
                        }
                        return Err(e);
                    }
                    let v = match self.pop_value() {
                        Some(v) => v,
                        None => {
                            proof {
                                assert(false);
                            }
                            return self.runtime_error("Stack underflow");
                        },
                    };
                    let negated = v.negate_value();
                    self.push(negated);
                    proof {
                        assert(stack_obs(self.stack@) =~= s1.stack.drop_last().push(
                            ObsValue::Number(num::num_neg(s1.stack.last()->Number_0)),
                        ));
                        assert(step(code0, consts0, pre) == StepResult::Next(self.machine()));
                    }
                },
                OpCode::Add => {
                    if self.operands_numbers() {
                        let (a, b) = match self.pop_two() {
                            Some(p) => p,
                            None => {
                                proof {
                                    assert(false);
                                }
                                return self.runtime_error("Stack underflow");
                            },
                        };
                        let sum = a.add_values(b);
                        self.push(sum);
                        proof {
                            assert(stack_obs(self.stack@)
                                =~= s1.stack.drop_last().drop_last().push(
                                ObsValue::Number(
                                    num::add_bits(
                                        s1.stack[s1.stack.len() - 2]->Number_0,
                                        s1.stack.last()->Number_0,
                                    ),
                                ),
                            ));
                            assert(step(code0, consts0, pre) == StepResult::Next(self.machine()));
                        }
                    } else if self.operands_strings() {
                        let (a, b) = match self.pop_two() {
                            Some(p) => p,
                            None => {
                                proof {
                                    assert(false);
                                }
                                return self.runtime_error("Stack underflow");
                            },
                        };
                        if let (Value::Str(x), Value::Str(y)) = (a, b) {
                            let mut joined = x;
                            joined.append(y.as_str());
                            self.push(Value::Str(joined));
                            proof {
                                assert(stack_obs(self.stack@)
                                    =~= s1.stack.drop_last().drop_last().push(
                                    ObsValue::Str(
                                        s1.stack[s1.stack.len() - 2]->Str_0
                                            + s1.stack.last()->Str_0,
                                    ),
                                ));
                                assert(step(code0, consts0, pre) == StepResult::Next(
                                    self.machine(),
                                ));
                            }
                        } else {
                            proof {
                                assert(false);
                            }
                            return self.runtime_error("Both operands have to be string or number!");
                        }
                    } else {
                        proof {
                            assert(step(code0, consts0, pre) == StepResult::Faulted(
                                s1,
                                "Both operands have to be string or number!"@,
                            ));
                        }
                        return self.runtime_error("Both operands have to be string or number!");
                    }
                },
                OpCode::Substract => {
                    if let Err(e) = self.validate_binary() {
                        proof {
                            assert(step(code0, consts0, pre) == StepResult::Faulted(
                                s1,
                                "Both operands need to be numbers"@,
                            ));
                        }
                        return Err(e);
                    }
                    let (a, b) = match self.pop_two() {
                        Some(p) => p,
                        None => {
                            proof {
                                assert(false);
                            }
                            return self.runtime_error("Stack underflow");
                        },
                    };
                    let difference = a.sub_values(b);
                    self.push(difference);
                    proof {
                        assert(stack_obs(self.stack@) =~= s1.stack.drop_last().drop_last().push(
                            ObsValue::Number(
                                num::sub_bits(
                                    s1.stack[s1.stack.len() - 2]->Number_0,
                                    s1.stack.last()->Number_0,
                                ),
                            ),
                        ));
                        assert(step(code0, consts0, pre) == StepResult::Next(self.machine()));
                    }
                },
                OpCode::Multiply => {
                    if let Err(e) = self.validate_binary() {
                        proof {
                            assert(step(code0, consts0, pre) == StepResult::Faulted(
                                s1,
                                "Both operands need to be numbers"@,
                            ));
                        }
                        return Err(e);
                    }
                    let (a, b) = match self.pop_two() {
                        Some(p) => p,
                        None => {
                            proof {
                                assert(false);
                            }
                            return self.runtime_error("Stack underflow");
                        },
                    };
                    let product = a.mul_values(b);
                    self.push(product);
                    proof {
                        assert(stack_obs(self.stack@) =~= s1.stack.drop_last().drop_last().push(
                            ObsValue::Number(
                                num::mul_bits(
                                    s1.stack[s1.stack.len() - 2]->Number_0,
                                    s1.stack.last()->Number_0,
                                ),
                            ),
                        ));
                        assert(step(code0, consts0, pre) == StepResult::Next(self.machine()));
                    }
                },
                OpCode::Divide => {
                    if let Err(e) = self.validate_binary() {
                        proof {
                            assert(step(code0, consts0, pre) == StepResult::Faulted(
                                s1,
                                "Both operands need to be numbers"@,
                            ));
                        }
                        return Err(e);
                    }
                    let zero = match self.peek_at(0) {
                        Some(v) => match v {
                            Value::Number(d) => num::num_is_zero(*d),
                            _ => false,
                        },
                        None => {
                            proof {
                                assert(false);
                            }
                            return self.runtime_error("Stack underflow");
                        },
                    };
                    if zero {
                        proof {
                            assert(step(code0, consts0, pre) == StepResult::Faulted(
                                s1,
                                "Cannot divide by 0!"@,
                            ));
                        }
                        return self.runtime_error("Cannot divide by 0!");
                    }
                    let (a, b) = match self.pop_two() {
                        Some(p) => p,
                        None => {
                            proof {
                                assert(false);
                            }
                            return self.runtime_error("Stack underflow");
                        },
                    };
                    let quotient = a.div_values(b);
                    self.push(quotient);
                    proof {
                        assert(stack_obs(self.stack@) =~= s1.stack.drop_last().drop_last().push(
                            ObsValue::Number(
                                num::div_bits(
                                    s1.stack[s1.stack.len() - 2]->Number_0,
                                    s1.stack.last()->Number_0,
                                ),
                            ),
                        ));
                        assert(step(code0, consts0, pre) == StepResult::Next(self.machine()));
                    }
                },
                OpCode::Equal => {
                    let (a, b) = match self.pop_two() {
                        Some(p) => p,
                        None => {
                            proof {
                                assert(step(code0, consts0, pre) == StepResult::Faulted(
                                    s1,
                                    "Stack underflow"@,
                                ));
                            }
                            return self.runtime_error("Stack underflow");
                        },
                    };
                    proof {
                        crate::value::lemma_obs_facts(a, b);
                    }
                    self.push(Value::Boolean(a.equal_value(&b)));
                    proof {
                        assert(stack_obs(self.stack@) =~= s1.stack.drop_last().drop_last().push(
                            ObsValue::Boolean(oeq(s1.stack[s1.stack.len() - 2], s1.stack.last())),
                        ));
                        assert(step(code0, consts0, pre) == StepResult::Next(self.machine()));
                    }
                },
                OpCode::Less => {
                    if let Err(e) = self.validate_binary() {
                        proof {
                            assert(step(code0, consts0, pre) == StepResult::Faulted(
                                s1,
                                "Both operands need to be numbers"@,
                            ));
                        }
                        return Err(e);
                    }
                    let (a, b) = match self.pop_two() {
                        Some(p) => p,
                        None => {
                            proof {
                                assert(false);
                            }
                            return self.runtime_error("Stack underflow");
                        },
                    };
                    if let (Value::Number(x), Value::Number(y)) = (a, b) {
                        self.push(Value::Boolean(num::less_than(x, y)));
                        proof {
                            assert(stack_obs(self.stack@)
                                =~= s1.stack.drop_last().drop_last().push(
                                ObsValue::Boolean(
                                    num::num_lt(
                                        s1.stack[s1.stack.len() - 2]->Number_0,
                                        s1.stack.last()->Number_0,
                                    ),
                                ),
                            ));
                            assert(step(code0, consts0, pre) == StepResult::Next(self.machine()));
                        }
                    } else {
                        proof {
                            assert(false);
                        }
                        return self.runtime_error("Both operands need to be numbers");
                    }
                },
                OpCode::Greater => {
                    if let Err(e) = self.validate_binary() {
                        proof {
                            assert(step(code0, consts0, pre) == StepResult::Faulted(
                                s1,
                                "Both operands need to be numbers"@,
                            ));
                        }
                        return Err(e);
                    }
                    let (a, b) = match self.pop_two() {
                        Some(p) => p,
                        None => {
                            proof {
                                assert(false);
                            }
                            return self.runtime_error("Stack underflow");
                        },
                    };
                    if let (Value::Number(x), Value::Number(y)) = (a, b) {
                        self.push(Value::Boolean(num::less_than(y, x)));
                        proof {
                            assert(stack_obs(self.stack@)
                                =~= s1.stack.drop_last().drop_last().push(
                                ObsValue::Boolean(
                                    num::num_lt(
                                        s1.stack.last()->Number_0,
                                        s1.stack[s1.stack.len() - 2]->Number_0,
                                    ),
                                ),
                            ));
                            assert(step(code0, consts0, pre) == StepResult::Next(self.machine()));
                        }
                    } else {
                        proof {
                            assert(false);
                        }
                        return self.runtime_error("Both operands need to be numbers");
                    }
                },
            _ => {
                proof {
                    assert(false);
                }
                return self.runtime_error("Unknown opcode");
            },
        }
        Ok(())
    }

    /// Executes one instruction of its group (the three global-variable instructions), implementing the
    /// machine step for it: the opcode byte was just consumed and `pre` is
    /// the machine state at that opcode.
    fn exec_global_op(&mut self, instruction: OpCode, Ghost(pre): Ghost<MachineState>) -> (r: Result<
        (),
        InterpretResult,
    >)
        requires
            old(self).running_wf(),
            instruction == OpCode::GetGlobal || instruction == OpCode::DefineGlobal || instruction == OpCode::SetGlobal,
            1 <= old(self).frames@[0].ip <= old(self).spec_chunk().code@.len(),
            pre == (MachineState { ip: old(self).frames@[0].ip - 1, ..old(self).machine() }),
            old(self).spec_chunk().code@[old(self).frames@[0].ip - 1] == opcode_byte(instruction),
        ensures
            ({
                let code = old(self).spec_chunk().code@;
                let consts = pool_obs(old(self).spec_chunk().constants.values@);
                match step(code, consts, pre) {
                    StepResult::Next(sx) => r is Ok && Self::stepped_state(*final(self), *old(self), sx),
                    StepResult::Halted(sx) => false,
                    StepResult::Faulted(sx, m) => (r matches Err(e) && e
                        == InterpretResult::RuntimeError) && Self::faulted_state(
                        *final(self),
                        *old(self),
                        sx,
                        m,
                    ),
                }
            }),
    {
        let ghost code0 = old(self).spec_chunk().code@;
        let ghost consts0 = pool_obs(old(self).spec_chunk().constants.values@);
        let ghost s1 = MachineState { ip: pre.ip + 1, ..pre };
        proof {
            assert(self.machine() == s1);
        }
        match instruction {
                OpCode::GetGlobal => {
                    let constant = match self.read_constant() {
                        Some(c) => c,
                        None => {
                            proof {
                                assert(consts0.len() == old(self).spec_chunk().constants.values@.len());
                                assert(step(code0, consts0, pre) == StepResult::Faulted(
                                    s1,
                                    "Unable to read constant"@,
                                ));
                            }
                            return self.runtime_error("Unable to read constant");
                        },
                    };
                    let ghost s2 = MachineState { ip: s1.ip + 1, ..s1 };
                    proof {
                        let pool = old(self).spec_chunk().constants.values@;
                        let idx = code0[s1.ip] as int;
                        crate::value::lemma_obs_facts(constant, pool[idx]);
                        lemma_pool_obs_index(pool, idx);
                        assert(consts0[idx] == obs(pool[idx]));
                        assert(self.machine() == s2);
                    }
                    if let Value::Str(name) = constant {
                        if let Some(v) = self.globals.get(&name) {
                            proof {
                                lemma_globals_obs_index(self.globals@, name@);
                            }
                            self.push(v);
                            proof {
                                assert(stack_obs(self.stack@) =~= s2.stack.push(
                                    s2.globals[name@],
                                ));
                                assert(step(code0, consts0, pre) == StepResult::Next(
                                    self.machine(),
                                ));
                            }
                        } else {
                            let mut msg = String::from_str("Undefined variable ");
                            msg.append(name.as_str());
                            proof {
                                lemma_globals_obs_index(self.globals@, name@);
                                assert(step(code0, consts0, pre) == StepResult::Faulted(
                                    s2,
                                    "Undefined variable "@ + name@,
                                ));
                            }
                            return self.runtime_error(msg.as_str());
                        }
                    } else {
                        proof {
                            assert(step(code0, consts0, pre) == StepResult::Faulted(
                                s2,
                                "Unable to read constant"@,
                            ));
                        }
                        return self.runtime_error("Unable to read constant");
                    }
                },
                OpCode::DefineGlobal => {
                    let constant = match self.read_constant() {
                        Some(c) => c,
                        None => {
                            proof {
                                assert(consts0.len() == old(self).spec_chunk().constants.values@.len());
                                assert(step(code0, consts0, pre) == StepResult::Faulted(
                                    s1,
                                    "Unable to read constant"@,
                                ));
                            }
                            return self.runtime_error("Unable to read constant");
                        },
                    };
                    let ghost s2 = MachineState { ip: s1.ip + 1, ..s1 };
                    proof {
                        let pool = old(self).spec_chunk().constants.values@;
                        let idx = code0[s1.ip] as int;
                        crate::value::lemma_obs_facts(constant, pool[idx]);
                        lemma_pool_obs_index(pool, idx);
                        assert(consts0[idx] == obs(pool[idx]));
                        assert(self.machine() == s2);
                    }
                    if let Value::Str(k) = constant {
                        let v = match self.pop_value() {
                            Some(v) => v,
                            None => {
                                proof {
                                    assert(step(code0, consts0, pre) == StepResult::Faulted(
                                        s2,
                                        "Stack underflow"@,
                                    ));
                                }
                                return self.runtime_error("Stack underflow");
                            },
                        };
                        let ghost key = k@;
                        self.globals.define(k, v);
                        proof {
                            lemma_globals_obs_insert(old(self).globals@, key, v);
                            assert(globals_obs(self.globals@) =~= s2.globals.insert(
                                key,
                                s2.stack.last(),
                            ));
                            assert(stack_obs(self.stack@) =~= s2.stack.drop_last());
                            assert(step(code0, consts0, pre) == StepResult::Next(self.machine()));
                        }
                    } else {
                        proof {
                            assert(step(code0, consts0, pre) == StepResult::Faulted(
                                s2,
                                "Unable to read constant"@,
                            ));
                        }
                        return self.runtime_error("Unable to read constant");
                    }
                },
                OpCode::SetGlobal => {
                    let constant = match self.read_constant() {
                        Some(c) => c,
                        None => {
                            proof {
                                assert(consts0.len() == old(self).spec_chunk().constants.values@.len());
                                assert(step(code0, consts0, pre) == StepResult::Faulted(
                                    s1,
                                    "Unable to read constant"@,
                                ));
                            }
                            return self.runtime_error("Unable to read constant");
                        },
                    };
                    let ghost s2 = MachineState { ip: s1.ip + 1, ..s1 };
                    proof {
                        let pool = old(self).spec_chunk().constants.values@;
                        let idx = code0[s1.ip] as int;
                        crate::value::lemma_obs_facts(constant, pool[idx]);
                        lemma_pool_obs_index(pool, idx);
                        assert(consts0[idx] == obs(pool[idx]));
                        assert(self.machine() == s2);
                    }
                    if let Value::Str(var_name) = constant {
                        let value = match self.peek_at(0) {
                            Some(v) => v.clone(),
                            None => {
                                proof {
                                    assert(step(code0, consts0, pre) == StepResult::Faulted(
                                        s2,
                                        "Stack underflow"@,
                                    ));
                                }
                                return self.runtime_error("Stack underflow");
                            },
                        };
                        proof {
                            crate::value::lemma_obs_facts(
                                value,
                                self.stack@[self.stack@.len() - 1],
                            );
                            lemma_globals_obs_index(self.globals@, var_name@);
                            lemma_globals_obs_insert(self.globals@, var_name@, value);
                        }
                        if !self.globals.set_existing(&var_name, value) {
                            let mut msg = String::from_str("Undefined variable '");
                            msg.append(var_name.as_str());
                            msg.append("'");
                            proof {
                                assert(step(code0, consts0, pre) == StepResult::Faulted(
                                    s2,
                                    "Undefined variable '"@ + var_name@ + "'"@,
                                ));
                            }
                            return self.runtime_error(msg.as_str());
                        }
                        proof {
                            assert(globals_obs(self.globals@) =~= s2.globals.insert(
                                var_name@,
                                s2.stack.last(),
                            ));
                            assert(step(code0, consts0, pre) == StepResult::Next(self.machine()));
                        }
                    } else {
                        proof {
                            assert(step(code0, consts0, pre) == StepResult::Faulted(
                                s2,
                                "Unable to read constant"@,
                            ));
                        }
                        return self.runtime_error("Unable to read constant");
                    }
                },
            _ => {
                proof {
                    assert(false);
                }
                return self.runtime_error("Unknown opcode");
            },
        }
        Ok(())
    }

    /// Executes one instruction of its group (local slots and the three jumps), implementing the
    /// machine step for it: the opcode byte was just consumed and `pre` is
    /// the machine state at that opcode.
    fn exec_flow_op(&mut self, instruction: OpCode, Ghost(pre): Ghost<MachineState>) -> (r: Result<
        (),
        InterpretResult,
    >)
        requires
            old(self).running_wf(),
            instruction == OpCode::GetLocal || instruction == OpCode::SetLocal || instruction == OpCode::JumpIfFalse || instruction == OpCode::Jump || instruction == OpCode::Loop,
            1 <= old(self).frames@[0].ip <= old(self).spec_chunk().code@.len(),
            pre == (MachineState { ip: old(self).frames@[0].ip - 1, ..old(self).machine() }),
            old(self).spec_chunk().code@[old(self).frames@[0].ip - 1] == opcode_byte(instruction),
        ensures
            ({
                let code = old(self).spec_chunk().code@;
                let consts = pool_obs(old(self).spec_chunk().constants.values@);
                match step(code, consts, pre) {
                    StepResult::Next(sx) => r is Ok && Self::stepped_state(*final(self), *old(self), sx),
                    StepResult::Halted(sx) => false,
                    StepResult::Faulted(sx, m) => (r matches Err(e) && e
                        == InterpretResult::RuntimeError) && Self::faulted_state(
                        *final(self),
                        *old(self),
                        sx,
                        m,
                    ),
                }
            }),
    {
        let ghost code0 = old(self).spec_chunk().code@;
        let ghost consts0 = pool_obs(old(self).spec_chunk().constants.values@);
        let ghost s1 = MachineState { ip: pre.ip + 1, ..pre };
        proof {
            assert(self.machine() == s1);
        }
        match instruction {
                OpCode::GetLocal => {
                    let slot = match self.read_byte() {
                        Some(s) => s,
                        None => {
                            proof {
                                assert(step(code0, consts0, pre) == StepResult::Faulted(
                                    s1,
                                    "Instruction pointer out of range"@,
                                ));
                            }
                            return self.runtime_error("Instruction pointer out of range");
                        },
                    };
                    let ghost s2 = MachineState { ip: s1.ip + 1, ..s1 };
                    let slot_offset = self.frames[0].slot;
                    let index = slot as usize + slot_offset;
                    if index < self.stack.len() {
                        let v = self.stack[index].clone();
                        proof {
                            crate::value::lemma_obs_facts(v, self.stack@[index as int]);
                        }
                        self.push(v);
                        proof {
                            assert(stack_obs(self.stack@) =~= s2.stack.push(
                                s2.stack[slot as int + 1],
                            ));
                            assert(step(code0, consts0, pre) == StepResult::Next(self.machine()));
                        }
                    } else {
                        proof {
                            assert(step(code0, consts0, pre) == StepResult::Faulted(
                                s2,
                                "Local slot out of range"@,
                            ));
                        }
                        return self.runtime_error("Local slot out of range");
                    }
                },
                OpCode::SetLocal => {
                    let slot = match self.read_byte() {
                        Some(s) => s,
                        None => {
                            proof {
                                assert(step(code0, consts0, pre) == StepResult::Faulted(
                                    s1,
                                    "Instruction pointer out of range"@,
                                ));
                            }
                            return self.runtime_error("Instruction pointer out of range");
                        },
                    };
                    let ghost s2 = MachineState { ip: s1.ip + 1, ..s1 };
                    let slot_offset = self.frames[0].slot;
                    let index = slot as usize + slot_offset;
                    let v = match self.peek_at(0) {
                        Some(v) => v.clone(),
                        None => {
                            proof {
                                assert(step(code0, consts0, pre) == StepResult::Faulted(
                                    s2,
                                    "Stack underflow"@,
                                ));
                            }
                            return self.runtime_error("Stack underflow");
                        },
                    };
                    proof {
                        crate::value::lemma_obs_facts(
                            v,
                            self.stack@[self.stack@.len() - 1],
                        );
                    }
                    if index < self.stack.len() && index >= 1 {
                        self.stack[index] = v;
                        proof {
                            assert(stack_obs(self.stack@) =~= s2.stack.update(
                                slot as int + 1,
                                s2.stack.last(),
                            ));
                            assert(step(code0, consts0, pre) == StepResult::Next(self.machine()));
                        }
                    } else {
                        proof {
                            assert(step(code0, consts0, pre) == StepResult::Faulted(
                                s2,
                                "Local slot out of range"@,
                            ));
                        }
                        return self.runtime_error("Local slot out of range");
                    }
                },
                OpCode::JumpIfFalse => {
                    let offset = match self.read_short() {
                        Some(d) => d,
                        None => {
                            proof {
                                assert(step(code0, consts0, pre) == StepResult::Faulted(
                                    s1,
                                    "Instruction pointer out of range"@,
                                ));
                            }
                            return self.runtime_error("Instruction pointer out of range");
                        },
                    };
                    let ghost s2 = MachineState { ip: s1.ip + 2, ..s1 };
                    let falsy = match self.peek_at(0) {
                        Some(v) => {
                            proof {
                                crate::value::lemma_obs_facts(*v, *v);
                            }
                            v.is_falsy()
                        },
                        None => {
                            proof {
                                assert(step(code0, consts0, pre) == StepResult::Faulted(
                                    s2,
                                    "Stack underflow"@,
                                ));
                            }
                            return self.runtime_error("Stack underflow");
                        },
                    };
                    if falsy {
                        let ip = self.ip();
                        if offset <= usize::MAX - ip {
                            let frame = &mut self.frames[0];
                            frame.inc(offset);
                            proof {
                                assert(step(code0, consts0, pre) == StepResult::Next(
                                    self.machine(),
                                ));
                            }
                        } else {
                            proof {
                                assert(step(code0, consts0, pre) == StepResult::Faulted(
                                    s2,
                                    "Jump out of range"@,
                                ));
                            }
                            return self.runtime_error("Jump out of range");
                        }
                    } else {
                        proof {
                            assert(step(code0, consts0, pre) == StepResult::Next(self.machine()));
                        }
                    }
                },
                OpCode::Jump => {
                    let offset = match self.read_short() {
                        Some(d) => d,
                        None => {
                            proof {
                                assert(step(code0, consts0, pre) == StepResult::Faulted(
                                    s1,
                                    "Instruction pointer out of range"@,
                                ));
                            }
                            return self.runtime_error("Instruction pointer out of range");
                        },
                    };
                    let ghost s2 = MachineState { ip: s1.ip + 2, ..s1 };
                    let ip = self.ip();
                    if offset <= usize::MAX - ip {
                        let frame = &mut self.frames[0];
                        frame.inc(offset);
                        proof {
                            assert(step(code0, consts0, pre) == StepResult::Next(self.machine()));
                        }
                    } else {
                        proof {
                            assert(step(code0, consts0, pre) == StepResult::Faulted(
                                s2,
                                "Jump out of range"@,
                            ));
                        }
                        return self.runtime_error("Jump out of range");
                    }
                },
                OpCode::Loop => {
                    let offset = match self.read_short() {
                        Some(d) => d,
                        None => {
                            proof {
                                assert(step(code0, consts0, pre) == StepResult::Faulted(
                                    s1,
                                    "Instruction pointer out of range"@,
                                ));
                            }
                            return self.runtime_error("Instruction pointer out of range");
                        },
                    };
                    let ghost s2 = MachineState { ip: s1.ip + 2, ..s1 };
                    let ip = self.ip();
                    if offset <= ip {
                        let frame = &mut self.frames[0];
                        frame.dec(offset);
                        proof {
                            assert(step(code0, consts0, pre) == StepResult::Next(self.machine()));
                        }
                    } else {
                        proof {
                            assert(step(code0, consts0, pre) == StepResult::Faulted(
                                s2,
                                "Jump out of range"@,
                            ));
                        }
                        return self.runtime_error("Jump out of range");
                    }
                },
            _ => {
                proof {
                    assert(false);
                }
                return self.runtime_error("Unknown opcode");
            },
        }
        Ok(())
    }

    /// Executes the current frame's bytecode until a return, a runtime
    /// fault, or (in principle only) the exhaustion of the step budget.
    /// The run implements the machine semantics `machine_run` over the
    /// running function's code and pool: on a halt the final state is the
    /// machine's; on a fault the fault's message and source line join the
    /// diagnostics and the value stack is cleared. Malformed bytecode
    /// never breaks the machine: it faults.
    #[verifier::rlimit(100)]
    pub fn run(&mut self) -> (r: Result<(), InterpretResult>)
        requires
            old(self).running_wf(),
        ensures
            final(self).globals.wf(),
            printed_extends(final(self).printed@, old(self).printed@),
            r matches Err(e) ==> e == InterpretResult::RuntimeError,
            r matches Err(e) ==> final(self).stack@.len() == 0,
            ({
                let code = old(self).spec_chunk().code@;
                let consts = pool_obs(old(self).spec_chunk().constants.values@);
                let lines = old(self).spec_chunk().lines@;
                match machine_run(code, consts, old(self).machine(), u64::MAX as nat) {
                    RunOutcome::Halted(s) => {
                        &&& r is Ok
                        &&& final(self).running_wf()
                        &&& final(self).machine() == s
                        &&& final(self).stack@[0] == old(self).stack@[0]
                        &&& final(self).diagnostics@ == old(self).diagnostics@
                    },
                    RunOutcome::Faulted(s, m) => {
                        &&& r matches Err(e) && e == InterpretResult::RuntimeError
                        &&& globals_obs(final(self).globals@) == s.globals
                        &&& printed_obs(final(self).printed@) == s.printed
                        &&& final(self).diagnostics@.len() == old(self).diagnostics@.len() + 2
                        &&& final(self).diagnostics@[old(self).diagnostics@.len() as int]@ == m
                        &&& final(self).diagnostics@[old(self).diagnostics@.len() as int + 1]@
                            == fault_line_text(lines, s.ip)
                    },
                    RunOutcome::Exhausted(s) => {
                        &&& r matches Err(e) && e == InterpretResult::RuntimeError
                        &&& globals_obs(final(self).globals@) == s.globals
                        &&& printed_obs(final(self).printed@) == s.printed
                        &&& final(self).diagnostics@.len() == old(self).diagnostics@.len() + 2
                        &&& final(self).diagnostics@[old(self).diagnostics@.len() as int]@
                            == "Instruction budget exhausted"@
                        &&& final(self).diagnostics@[old(self).diagnostics@.len() as int + 1]@
                            == fault_line_text(lines, s.ip)
                    },
                }
            }),
    {
        let ghost code0 = old(self).spec_chunk().code@;
        let ghost consts0 = pool_obs(old(self).spec_chunk().constants.values@);
        let ghost fuel0 = u64::MAX as nat;
        let mut fuel: u64 = u64::MAX;
        loop
            invariant
                self.running_wf(),
                self.stack@[0] == old(self).stack@[0],
                self.spec_chunk() == old(self).spec_chunk(),
                self.diagnostics@ == old(self).diagnostics@,
                printed_extends(self.printed@, old(self).printed@),
                code0 == old(self).spec_chunk().code@,
                consts0 == pool_obs(old(self).spec_chunk().constants.values@),
                fuel0 == u64::MAX as nat,
                machine_run(code0, consts0, old(self).machine(), fuel0) == machine_run(
                    code0,
                    consts0,
                    self.machine(),
                    fuel as nat,
                ),
            decreases fuel,
        {
            let ghost pre = self.machine();
            let ghost pre_fuel = fuel as nat;
            if fuel == 0 {
                proof {
                    assert(machine_run(code0, consts0, pre, pre_fuel) == RunOutcome::Exhausted(
                        pre,
                    ));
                }
                return self.runtime_error("Instruction budget exhausted");
            }
            fuel = fuel - 1;
            let b = match self.read_byte() {
                Some(b) => b,
                None => {
                    proof {
                        assert(step(code0, consts0, pre) == StepResult::Faulted(
                            pre,
                            "Instruction pointer out of range"@,
                        ));
                    }
                    return self.runtime_error("Instruction pointer out of range");
                },
            };
            let ghost s1 = MachineState { ip: pre.ip + 1, ..pre };
            proof {
                assert(self.machine() == s1);
            }
            let instruction = match OpCode::from_byte(b) {
                Some(op) => op,
                None => {
                    proof {
                        assert(step(code0, consts0, pre) == StepResult::Faulted(
                            s1,
                            "Unknown opcode"@,
                        ));
                    }
                    return self.runtime_error("Unknown opcode");
                },
            };
            match instruction {
                OpCode::Return => {
                    proof {
                        assert(step(code0, consts0, pre) == StepResult::Halted(s1));
                        assert(machine_run(code0, consts0, pre, pre_fuel) == RunOutcome::Halted(
                            s1,
                        ));
                    }
                    return Ok(());
                },
                OpCode::Constant | OpCode::Nil | OpCode::True | OpCode::False | OpCode::Not | OpCode::Print | OpCode::Pop => {
                    if let Err(e) = self.exec_stack_op(instruction, Ghost(pre)) {
                        return Err(e);
                    }
                },
                OpCode::Negate | OpCode::Add | OpCode::Substract | OpCode::Multiply | OpCode::Divide | OpCode::Equal | OpCode::Less | OpCode::Greater => {
                    if let Err(e) = self.exec_arith_op(instruction, Ghost(pre)) {
                        return Err(e);
                    }
                },
                OpCode::GetGlobal | OpCode::DefineGlobal | OpCode::SetGlobal => {
                    if let Err(e) = self.exec_global_op(instruction, Ghost(pre)) {
                        return Err(e);
                    }
                },
                OpCode::GetLocal | OpCode::SetLocal | OpCode::JumpIfFalse | OpCode::Jump | OpCode::Loop => {
                    if let Err(e) = self.exec_flow_op(instruction, Ghost(pre)) {
                        return Err(e);
                    }
                },
            }
            proof {
                assert(machine_run(code0, consts0, pre, pre_fuel) == machine_run(
                    code0,
                    consts0,
                    self.machine(),
                    fuel as nat,
                ));
            }
        }
    }

    /// Pops the two topmost values; the result pairs them in stack order,
    /// the deeper one first.
    fn pop_two(&mut self) -> (r: Option<(Value, Value)>)
        ensures
            final(self).globals == old(self).globals,
            final(self).frames@ == old(self).frames@,
            final(self).printed@ == old(self).printed@,
            final(self).diagnostics@ == old(self).diagnostics@,
            r is Some <==> old(self).stack@.len() >= 3,
            r matches Some(p) ==> {
                &&& p.1 == old(self).stack@.last()
                &&& p.0 == old(self).stack@[old(self).stack@.len() - 2]
                &&& final(self).stack@ == old(self).stack@.drop_last().drop_last()
            },
            r is None ==> final(self).stack@ == old(self).stack@,
    {
        if self.stack.len() >= 3 {
            let b = match self.pop_value() {
                Some(v) => v,
                None => {
                    return None;
                },
            };
            let a = match self.pop_value() {
                Some(v) => v,
                None => {
                    return None;
                },
            };
            Some((a, b))
        } else {
            None
        }
    }

    /// The top of the stack must be a number for a unary numeric
    /// operation.
    fn validate_unary(&mut self) -> (r: Result<(), InterpretResult>)
        requires
            old(self).running_wf(),
        ensures
            r is Ok ==> *final(self) == *old(self),
            r is Ok <==> (old(self).stack@.len() >= 3 || (old(self).stack@.len() == 2)) && old(self).stack@.last() is Number,
            r matches Err(e) ==> {
                &&& e == InterpretResult::RuntimeError
                &&& final(self).stack@.len() == 0
                &&& final(self).globals == old(self).globals
                &&& final(self).frames@ == old(self).frames@
                &&& final(self).printed@ == old(self).printed@
                &&& final(self).diagnostics@.len() == old(self).diagnostics@.len() + 2
                &&& final(self).diagnostics@[old(self).diagnostics@.len() as int]@
                    == "Operand must be a number"@
                &&& final(self).diagnostics@[old(self).diagnostics@.len() as int + 1]@
                    == fault_line_text(
                    old(self).spec_chunk().lines@,
                    old(self).frames@[0].ip as int,
                )
            },
    {
        let ok = match self.peek_at(0) {
            Some(v) => v.is_number(),
            None => false,
        };
        if !ok {
            self.runtime_error("Operand must be a number")
        } else {
            Ok(())
        }
    }

    /// The two values on top must both be numbers for a binary numeric
    /// operation.
    fn validate_binary(&mut self) -> (r: Result<(), InterpretResult>)
        requires
            old(self).running_wf(),
        ensures
            r is Ok ==> *final(self) == *old(self),
            r is Ok <==> old(self).stack@.len() >= 3 && old(self).stack@.last() is Number && old(self).stack@[old(self).stack@.len() - 2] is Number,
            r matches Err(e) ==> {
                &&& e == InterpretResult::RuntimeError
                &&& final(self).stack@.len() == 0
                &&& final(self).globals == old(self).globals
                &&& final(self).frames@ == old(self).frames@
                &&& final(self).printed@ == old(self).printed@
                &&& final(self).diagnostics@.len() == old(self).diagnostics@.len() + 2
                &&& final(self).diagnostics@[old(self).diagnostics@.len() as int]@
                    == "Both operands need to be numbers"@
                &&& final(self).diagnostics@[old(self).diagnostics@.len() as int + 1]@
                    == fault_line_text(
                    old(self).spec_chunk().lines@,
                    old(self).frames@[0].ip as int,
                )
            },
    {
        if !self.operands_numbers() {
            self.runtime_error("Both operands need to be numbers")
        } else {
            Ok(())
        }
    }
}

} // verus!
