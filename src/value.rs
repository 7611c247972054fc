//! Values produced by parsers.
use vstd::prelude::*;

verus! {

broadcast use vstd::std_specs::vec::group_vec_axioms;

/// A parsed value.
#[derive(Debug, PartialEq)]
pub enum Value {
    Unit,
    Bool(bool),
    Text(String),
    Number(u64),
    Pair(Box<Value>, Box<Value>),
    List(Vec<Value>),
    Absent,
    Present(Box<Value>),
}

/// The mathematical form of a parsed value.
pub enum Val {
    Unit,
    Bool(bool),
    Text(Seq<char>),
    Number(u64),
    Pair(Box<Val>, Box<Val>),
    List(Seq<Val>),
    Absent,
    Present(Box<Val>),
}

/// The mathematical form of `v`.
pub open spec fn val_of(v: Value) -> Val
    decreases v,
{
    match v {
        Value::Unit => Val::Unit,
        Value::Bool(b) => Val::Bool(b),
        Value::Text(s) => Val::Text(s@),
        Value::Number(n) => Val::Number(n),
        Value::Pair(a, b) => Val::Pair(Box::new(val_of(*a)), Box::new(val_of(*b))),
        Value::List(v) => Val::List(vals_of(v)),
        Value::Absent => Val::Absent,
        Value::Present(a) => Val::Present(Box::new(val_of(*a))),
    }
}

/// The mathematical form of a list of values.
pub open spec fn vals_of(v: Vec<Value>) -> Seq<Val>
    decreases v,
{
    Seq::new(v@.len(), |i: int| if 0 <= i < v.len() { val_of(v[i]) } else { Val::Unit })
}

impl Value {
    /// A deep copy.
    pub fn duplicate(&self) -> (r: Value)
        ensures
            val_of(r) == val_of(*self),
        decreases self,
    {
        match self {
            Value::Unit => Value::Unit,
            Value::Bool(b) => Value::Bool(*b),
            Value::Text(s) => Value::Text(s.clone()),
            Value::Number(n) => Value::Number(*n),
            Value::Pair(a, b) => Value::Pair(Box::new(a.duplicate()), Box::new(b.duplicate())),
            Value::List(v) => {
                let out = Value::dup_list(v);
                assert(vals_of(out) =~= vals_of(*v));
                Value::List(out)
            },
            Value::Absent => Value::Absent,
            Value::Present(a) => Value::Present(Box::new(a.duplicate())),
        }
    }
}

impl Value {
    fn dup_list(v: &Vec<Value>) -> (out: Vec<Value>)
        ensures
            out@.len() == v@.len(),
            forall|j: int| 0 <= j < v@.len() ==> val_of(#[trigger] out@[j]) == val_of(v@[j]),
        decreases v,
    {
        let mut out: Vec<Value> = Vec::new();
        let mut i: usize = 0;
        while i < v.len()
            invariant
                i <= v@.len(),
                out@.len() == i,
                forall|j: int| 0 <= j < i ==> val_of(#[trigger] out@[j]) == val_of(v@[j]),
            decreases v@.len() - i,
        {
            proof {
                vstd::std_specs::vec::axiom_vec_index_decreases(*v, i as int);
            }
            out.push(v[i].duplicate());
            i = i + 1;
        }
        out
    }
}

impl View for Value {
    type V = Val;

    open spec fn view(&self) -> Val {
        val_of(*self)
    }
}

} // verus!
