use vstd::prelude::*;

verus! {

/// Declares `serde_json::Number` as an opaque type, so that a number leaf
/// keeps the value serde_json parsed. Nothing is assumed of it: the
/// traversal only carries it through.
#[verifier::external_type_specification]
#[verifier::external_body]
pub struct ExNumber(serde_json::Number);

/// A JSON document tree: objects, arrays and scalar leaves.
///
/// An object keeps its members in document order; the traversal visits them
/// in that order, as given.
#[derive(Debug, PartialEq)]
pub enum Value {
    Null,
    Bool(bool),
    Number(serde_json::Number),
    String(String),
    Array(Vec<Value>),
    Object(Vec<(String, Value)>),
}

impl Value {
    /// Whether this node is a scalar (neither an object nor an array).
    pub open spec fn is_leaf(self) -> bool {
        !(self is Array) && !(self is Object)
    }
}

/// The number of children of `v` (zero for a scalar).
pub open spec fn child_len(v: Value) -> nat {
    match v {
        Value::Array(items) => items@.len(),
        Value::Object(members) => members@.len(),
        _ => 0,
    }
}

/// The child of `v` at position `k`: an array item or an object member's value.
pub open spec fn child_at(v: Value, k: int) -> Value {
    match v {
        Value::Array(items) => items@[k],
        Value::Object(members) => members@[k].1,
        _ => v,
    }
}

/// The number of nodes of the tree `v`, `v` itself included.
pub open spec fn node_count(v: Value) -> nat
    decreases v, 1nat, 0int,
{
    1 + node_count_from(v, 0)
}

/// The number of nodes under the children of `v` at positions `j` and after.
pub open spec fn node_count_from(v: Value, j: nat) -> nat
    decreases v, 0nat, child_len(v) - j,
{
    if j < child_len(v) {
        node_count(child_at(v, j as int)) + node_count_from(v, j + 1)
    } else {
        0
    }
}

/// The number of scalar leaves of the tree `v`.
pub open spec fn leaf_count(v: Value) -> nat
    decreases v, 1nat, 0int,
{
    if v.is_leaf() {
        1
    } else {
        leaf_count_from(v, 0)
    }
}

/// The number of scalar leaves under the children of `v` at positions `j` and after.
pub open spec fn leaf_count_from(v: Value, j: nat) -> nat
    decreases v, 0nat, child_len(v) - j,
{
    if j < child_len(v) {
        leaf_count(child_at(v, j as int)) + leaf_count_from(v, j + 1)
    } else {
        0
    }
}

/// The node reached from `v` by taking, at each level, the child at the next
/// position of `route`; `None` where a position does not exist.
pub open spec fn node_at(v: Value, route: Seq<nat>) -> Option<Value>
    decreases route.len(),
{
    if route.len() == 0 {
        Some(v)
    } else if route[0] < child_len(v) {
        node_at(child_at(v, route[0] as int), route.drop_first())
    } else {
        None
    }
}

/// The positions taken in the arrays crossed along `route` from `v`, in
/// root-to-node order; positions taken in objects are not listed.
pub open spec fn array_positions(v: Value, route: Seq<nat>) -> Seq<usize>
    decreases route.len(),
{
    if route.len() == 0 || route[0] >= child_len(v) {
        Seq::empty()
    } else {
        let rest = array_positions(child_at(v, route[0] as int), route.drop_first());
        if v is Array {
            seq![route[0] as usize] + rest
        } else {
            rest
        }
    }
}

} // verus!
