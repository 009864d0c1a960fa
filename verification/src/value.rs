//! Runtime values: the tagged union the stack machine computes with, and
//! the constant pool that stores them.
use crate::function::Function;
use crate::num;
use vstd::prelude::*;

verus! {

/// A runtime value. Numbers are IEEE-754 doubles carried as their 64-bit
/// encoding (see the number module).
#[derive(Debug)]
pub enum Value {
    Number(u64),
    Boolean(bool),
    Nil,
    Str(String),
    Func(Function),
}

impl Clone for Value {
    fn clone(&self) -> (r: Self)
        ensures
            obs_value(r, *self),
    decreases *self,
    {
        match self {
            Value::Boolean(b) => Value::Boolean(*b),
            Value::Number(n) => Value::Number(*n),
            Value::Nil => Value::Nil,
            Value::Str(s) => Value::Str(s.clone()),
            Value::Func(f) => Value::Func(f.clone()),
        }
    }
}

/// What the language can observe of a value: clones preserve it. Two
/// values relate when they are equal, except that a function value may
/// differ in its chunk, which no construct of this subset can inspect.
pub open spec fn obs_value(a: Value, b: Value) -> bool {
    match (a, b) {
        (Value::Func(f), Value::Func(g)) => f.arity == g.arity && f.name@ == g.name@,
        _ => a == b,
    }
}

/// Observational equality of two constant pools, element by element.
pub open spec fn obs_pool(a: ValueArray, b: ValueArray) -> bool {
    &&& a.values@.len() == b.values@.len()
    &&& forall|i: int| 0 <= i < a.values@.len() ==> obs_value(a.values@[i], b.values@[i])
}

/// Language equality: same variant and same payload. Numbers compare by
/// IEEE-754 equality, strings by their text, and no two function values
/// are ever equal.
pub open spec fn value_eq(a: Value, b: Value) -> bool {
    match a {
        Value::Number(x) => b matches Value::Number(y) && num::num_eq(x, y),
        Value::Boolean(x) => b matches Value::Boolean(y) && x == y,
        Value::Nil => b is Nil,
        Value::Str(x) => b matches Value::Str(y) && x@ == y@,
        Value::Func(_) => false,
    }
}

/// A value is falsy exactly when it is nil or the boolean false.
pub open spec fn spec_is_falsy(v: Value) -> bool {
    v is Nil || v == Value::Boolean(false)
}


/// The observable content of a runtime value: everything the language's
/// operators and printing can act on. A function value shows its arity
/// and name; its chunk stays behind the curtain.
pub enum ObsValue {
    Number(u64),
    Boolean(bool),
    Nil,
    Str(Seq<char>),
    Func(u8, Seq<char>),
}

/// What a value looks like to the language.
pub open spec fn obs(v: Value) -> ObsValue {
    match v {
        Value::Number(b) => ObsValue::Number(b),
        Value::Boolean(b) => ObsValue::Boolean(b),
        Value::Nil => ObsValue::Nil,
        Value::Str(s) => ObsValue::Str(s@),
        Value::Func(f) => ObsValue::Func(f.arity, f.name@),
    }
}

/// Language equality over observable content.
pub open spec fn oeq(a: ObsValue, b: ObsValue) -> bool {
    match a {
        ObsValue::Number(x) => b matches ObsValue::Number(y) && num::num_eq(x, y),
        ObsValue::Boolean(x) => b matches ObsValue::Boolean(y) && x == y,
        ObsValue::Nil => b is Nil,
        ObsValue::Str(x) => b matches ObsValue::Str(y) && x == y,
        ObsValue::Func(_, _) => false,
    }
}

/// Falsiness over observable content.
pub open spec fn ofalsy(a: ObsValue) -> bool {
    a is Nil || a == ObsValue::Boolean(false)
}

/// Printed text over observable content.
pub open spec fn otext(a: ObsValue) -> Seq<char> {
    match a {
        ObsValue::Boolean(b) => if b {
            "true"@
        } else {
            "false"@
        },
        ObsValue::Number(n) => num::text_of_bits(n),
        ObsValue::Nil => "Nil"@,
        ObsValue::Str(s) => s,
        ObsValue::Func(_, name) => "fn "@ + name,
    }
}

/// Observationally equal values have the same observable content, and the
/// language's equality, falsiness and printing all factor through it.
pub proof fn lemma_obs_facts(a: Value, b: Value)
    ensures
        obs_value(a, b) ==> obs(a) == obs(b),
        value_eq(a, b) == oeq(obs(a), obs(b)),
        spec_is_falsy(a) == ofalsy(obs(a)),
        value_text(a) == otext(obs(a)),
{
}

/// Observational equality preserves the printed text: it differs only in
/// a function value's chunk, which the text never mentions.
pub proof fn lemma_obs_value_text(a: Value, b: Value)
    requires
        obs_value(a, b),
    ensures
        value_text(a) == value_text(b),
{
}

/// The text a value prints as.
pub open spec fn value_text(v: Value) -> Seq<char> {
    match v {
        Value::Boolean(b) => if b {
            "true"@
        } else {
            "false"@
        },
        Value::Number(n) => num::text_of_bits(n),
        Value::Nil => "Nil"@,
        Value::Str(s) => s@,
        Value::Func(f) => "fn "@ + f.name@,
    }
}

impl Value {
    pub fn is_number(&self) -> (r: bool)
        ensures
            r == (*self is Number),
    {
        matches!(self, Value::Number(_))
    }

    pub fn is_falsy(&self) -> (r: bool)
        ensures
            r == spec_is_falsy(*self),
    {
        matches!(self, Value::Nil | Value::Boolean(false))
    }

    pub fn is_string(&self) -> (r: bool)
        ensures
            r == (*self is Str),
    {
        matches!(self, Value::Str(_))
    }

    /// Decides language equality.
    pub fn equal_value(&self, other: &Value) -> (r: bool)
        ensures
            r == value_eq(*self, *other),
    {
        let r: bool;
        match self {
            Value::Number(x) => {
                if let Value::Number(y) = other {
                    r = num::equal_num(*x, *y);
                } else {
                    r = false;
                }
            },
            Value::Boolean(x) => {
                if let Value::Boolean(y) = other {
                    r = *x == *y;
                } else {
                    r = false;
                }
            },
            Value::Nil => {
                r = matches!(other, Value::Nil);
            },
            Value::Str(x) => {
                if let Value::Str(y) = other {
                    r = *x == *y;
                } else {
                    r = false;
                }
            },
            Value::Func(_) => {
                r = false;
            },
        }
        r
    }


    /// Adds two number values; the IEEE-754 sum. Addition of anything
    /// else is not defined here (string concatenation lives in the
    /// machine's add instruction).
    pub fn add_values(self, rhs: Value) -> (r: Value)
        requires
            self is Number,
            rhs is Number,
        ensures
            r == Value::Number(num::add_bits(self->Number_0, rhs->Number_0)),
    {
        match (self, rhs) {
            (Value::Number(a), Value::Number(b)) => Value::Number(num::add(a, b)),
            _ => Value::Nil,
        }
    }

    /// Subtracts two number values; the IEEE-754 difference.
    pub fn sub_values(self, rhs: Value) -> (r: Value)
        requires
            self is Number,
            rhs is Number,
        ensures
            r == Value::Number(num::sub_bits(self->Number_0, rhs->Number_0)),
    {
        match (self, rhs) {
            (Value::Number(a), Value::Number(b)) => Value::Number(num::sub(a, b)),
            _ => Value::Nil,
        }
    }

    /// Multiplies two number values; the IEEE-754 product.
    pub fn mul_values(self, rhs: Value) -> (r: Value)
        requires
            self is Number,
            rhs is Number,
        ensures
            r == Value::Number(num::mul_bits(self->Number_0, rhs->Number_0)),
    {
        match (self, rhs) {
            (Value::Number(a), Value::Number(b)) => Value::Number(num::mul(a, b)),
            _ => Value::Nil,
        }
    }

    /// Divides two number values; the IEEE-754 quotient.
    pub fn div_values(self, rhs: Value) -> (r: Value)
        requires
            self is Number,
            rhs is Number,
        ensures
            r == Value::Number(num::div_bits(self->Number_0, rhs->Number_0)),
    {
        match (self, rhs) {
            (Value::Number(a), Value::Number(b)) => Value::Number(num::div(a, b)),
            _ => Value::Nil,
        }
    }

    /// Negates a number value: the sign bit flips.
    pub fn negate_value(self) -> (r: Value)
        requires
            self is Number,
        ensures
            r == Value::Number(num::num_neg(self->Number_0)),
    {
        match self {
            Value::Number(a) => Value::Number(num::negate(a)),
            _ => Value::Nil,
        }
    }

    /// Renders the value as the text it prints as.
    pub fn to_text(&self) -> (r: String)
        ensures
            r@ == value_text(*self),
    {
        match self {
            Value::Boolean(b) => {
                if *b {
                    String::from_str("true")
                } else {
                    String::from_str("false")
                }
            },
            Value::Number(n) => num::number_to_string(*n),
            Value::Nil => String::from_str("Nil"),
            Value::Str(s) => s.clone(),
            Value::Func(f) => {
                let mut out = String::from_str("fn ");
                out.append(f.name.as_str());
                out
            },
        }
    }
}

/// The constant pool: an ordered sequence of values, indexed by the
/// operand bytes of constant-loading instructions.
#[derive(Debug)]
pub struct ValueArray {
    pub values: Vec<Value>,
}

impl Clone for ValueArray {
    fn clone(&self) -> (r: Self)
        ensures
            obs_pool(r, *self),
    decreases *self,
    {
        let mut values: Vec<Value> = Vec::new();
        let mut i: usize = 0;
        while i < self.values.len()
            invariant
                i <= self.values@.len(),
                values@.len() == i,
                forall|k: int| 0 <= k < i ==> obs_value(values@[k], self.values@[k]),
            decreases self.values@.len() - i,
        {
            values.push(self.values[i].clone());
            i = i + 1;
        }
        ValueArray { values }
    }
}

impl ValueArray {
    pub fn new() -> (r: Self)
        ensures
            r.values@ == Seq::<Value>::empty(),
    {
        Self { values: Vec::new() }
    }

    /// Appends a value; returns the index it now lives at.
    pub fn write(&mut self, value: Value) -> (index: usize)
        ensures
            final(self).values@ == old(self).values@.push(value),
            index == old(self).values@.len(),
    {
        let count = self.values.len();
        self.values.push(value);
        count
    }

    pub fn free(&mut self)
        ensures
            final(self).values@ == Seq::<Value>::empty(),
    {
        self.values = Vec::new();
    }

    pub fn read_at(&self, index: usize) -> (r: Value)
        requires
            index < self.values@.len(),
        ensures
            obs_value(r, self.values@[index as int]),
    {
        self.values[index].clone()
    }
}

} // verus!
