use crate::preset::PresetStyle;
use crate::style::{Style, StyleModel};
use crate::value::{child_at, child_len, node_count, node_count_from, Value};
use std::collections::VecDeque;
use vstd::prelude::*;

verus! {

/// The mathematical content of an [`Element`]: a rendered path, the array
/// positions crossed from the root, and the node reached.
pub struct ElementModel {
    pub path: Seq<char>,
    pub indices: Seq<usize>,
    pub value: Value,
}

/// The pending entry for the child at position `k` of the node of `t`.
pub open spec fn child_task(style: StyleModel, t: ElementModel, k: nat) -> ElementModel {
    match t.value {
        Value::Array(_) => ElementModel {
            path: style.array_child(t.path, k),
            indices: t.indices.push(k as usize),
            value: child_at(t.value, k as int),
        },
        Value::Object(members) => ElementModel {
            path: style.object_child(t.path, members@[k as int].0@),
            indices: t.indices,
            value: child_at(t.value, k as int),
        },
        _ => t,
    }
}

/// Whether the node `v` is itself emitted under `style`; scalars always are.
pub open spec fn is_emitted(style: StyleModel, v: Value) -> bool {
    match v {
        Value::Array(_) => !style.skip_array_parents,
        Value::Object(_) => !style.skip_object_parents,
        _ => true,
    }
}

/// The elements produced, in order, for the node of `t` and all its
/// descendants: the node itself unless its kind is skipped, then each child's
/// elements in document order.
pub open spec fn expand(style: StyleModel, t: ElementModel) -> Seq<ElementModel>
    decreases t.value, 1nat, 0int,
{
    let own = if is_emitted(style, t.value) {
        seq![t]
    } else {
        Seq::empty()
    };
    own + expand_from(style, t, 0)
}

/// The elements produced, in order, for the children of the node of `t` at
/// positions `j` and after.
pub open spec fn expand_from(style: StyleModel, t: ElementModel, j: nat) -> Seq<ElementModel>
    decreases t.value, 0nat, child_len(t.value) - j,
{
    if j < child_len(t.value) {
        expand(style, child_task(style, t, j)) + expand_from(style, t, j + 1)
    } else {
        Seq::empty()
    }
}

/// The elements produced, in order, for the pending entries `ts`, front first.
pub open spec fn expand_all(style: StyleModel, ts: Seq<ElementModel>) -> Seq<ElementModel>
    decreases ts.len(),
{
    if ts.len() == 0 {
        Seq::empty()
    } else {
        expand(style, ts[0]) + expand_all(style, ts.drop_first())
    }
}

/// The elements produced by a fresh traversal of `v` under `style`.
pub open spec fn emitted(style: StyleModel, v: Value) -> Seq<ElementModel> {
    expand(style, ElementModel { path: Seq::empty(), indices: Seq::empty(), value: v })
}

/// The number of tree nodes under the pending entries `ts`.
pub open spec fn pending_count(ts: Seq<ElementModel>) -> nat
    decreases ts.len(),
{
    if ts.len() == 0 {
        0
    } else {
        node_count(ts[0].value) + pending_count(ts.drop_first())
    }
}

proof fn lemma_expand_all_cons(style: StyleModel, t: ElementModel, ts: Seq<ElementModel>)
    ensures
        expand_all(style, seq![t] + ts) == expand(style, t) + expand_all(style, ts),
        pending_count(seq![t] + ts) == node_count(t.value) + pending_count(ts),
{
    assert((seq![t] + ts).drop_first() =~= ts);
}

/// One visited node: its rendered path, the positions taken in each array
/// crossed from the root, and the node itself.
#[derive(Debug, PartialEq)]
pub struct Element<'a> {
    pub path: String,
    pub indices: Vec<usize>,
    pub value: &'a Value,
}

impl<'a> View for Element<'a> {
    type V = ElementModel;

    open spec fn view(&self) -> ElementModel {
        ElementModel { path: self.path@, indices: self.indices@, value: *self.value }
    }
}

/// A lazy, depth-first, pre-order traversal of a [`Value`] tree.
///
/// Each call of [`Iter::next`] hands out the next [`Element`]; container
/// nodes whose kind the style skips are expanded without being handed out.
#[derive(Debug)]
pub struct Iter<'a> {
    style: Style,
    items: VecDeque<Element<'a>>,
}

impl<'a> Iter<'a> {
    /// The entries still to be processed, front first.
    pub closed spec fn pending(&self) -> Seq<ElementModel> {
        self.items@.map_values(|e: Element<'a>| e@)
    }

    /// The style in use.
    pub closed spec fn style_model(&self) -> StyleModel {
        self.style@
    }

    /// The elements still to be handed out, in order.
    pub open spec fn remaining(&self) -> Seq<ElementModel> {
        expand_all(self.style_model(), self.pending())
    }

    /// A traversal of `json` in the square-bracket style.
    pub fn new(json: &'a Value) -> (r: Iter<'a>)
        ensures
            r.pending() == seq![ElementModel { path: Seq::empty(), indices: Seq::empty(), value: *json }],
            r.style_model() == PresetStyle::SquareBrackets.model(),
            r.remaining() == emitted(r.style_model(), *json),
    {
        let mut items = VecDeque::new();
        items.push_back(Element { path: String::new(), indices: Vec::new(), value: json });
        let r = Iter { style: PresetStyle::SquareBrackets.to_style(), items };
        proof {
            let root = ElementModel { path: Seq::empty(), indices: Seq::empty(), value: *json };
            assert(r.pending() =~= seq![root]);
            lemma_expand_all_cons(r.style_model(), root, Seq::empty());
            assert(seq![root] + Seq::<ElementModel>::empty() =~= seq![root]);
            assert(expand(r.style_model(), root) + Seq::<ElementModel>::empty() =~= expand(r.style_model(), root));
        }
        r
    }

    /// The same traversal, rendering and filtering with `style` from now on.
    pub fn use_style(self, style: Style) -> (r: Iter<'a>)
        ensures
            r.pending() == self.pending(),
            r.style_model() == style@,
    {
        Iter { style, items: self.items }
    }

    /// Hands out the next element, or `None` once the traversal is exhausted.
    pub fn next(&mut self) -> (r: Option<Element<'a>>)
        ensures
            final(self).style_model() == old(self).style_model(),
            match r {
                None => old(self).remaining().len() == 0 && final(self).remaining().len() == 0,
                Some(e) => {
                    &&& old(self).remaining().len() > 0
                    &&& e@ == old(self).remaining()[0]
                    &&& final(self).remaining() == old(self).remaining().drop_first()
                },
            },
    {
        let ghost style = self.style@;
        let ghost target = self.remaining();
        loop
            invariant
                style == old(self).style@,
                target == old(self).remaining(),
                self.style@ == style,
                expand_all(style, self.pending()) == target,
            decreases pending_count(self.pending()),
        {
            let ghost before = self.pending();
            match self.items.pop_front() {
                None => {
                    proof {
                        assert(before.len() == 0);
                    }
                    return None;
                },
                Some(el) => {
                    let ghost rest = self.pending();
                    proof {
                        assert(before =~= seq![el@] + rest);
                        lemma_expand_all_cons(style, el@, rest);
                    }
                    match el.value {
                        Value::Object(members) => {
                            let mut j: usize = members.len();
                            while j > 0
                                invariant
                                    self.style@ == style,
                                    *el.value == Value::Object(*members),
                                    0 <= j <= members@.len(),
                                    expand_all(style, self.pending()) == expand_from(style, el@, j as nat) + expand_all(style, rest),
                                    pending_count(self.pending()) == node_count_from(*el.value, j as nat) + pending_count(rest),
                                decreases j,
                            {
                                j = j - 1;
                                let member = &members[j];
                                let child = Element {
                                    path: self.style.object_format(&el.path, &member.0),
                                    indices: el.indices.clone(),
                                    value: &member.1,
                                };
                                let ghost prev = self.pending();
                                self.items.push_front(child);
                                proof {
                                    assert(child.indices@ =~= el.indices@);
                                    assert(child@ == child_task(style, el@, j as nat));
                                    assert(self.pending() =~= seq![child@] + prev);
                                    lemma_expand_all_cons(style, child@, prev);
                                    let a = expand(style, child@);
                                    let b = expand_from(style, el@, j as nat + 1);
                                    let c = expand_all(style, rest);
                                    assert(a + (b + c) =~= (a + b) + c);
                                }
                            }
                            if !self.style.should_skip_object_parents() {
                                proof {
                                    assert(target.drop_first() =~= self.remaining());
                                }
                                return Some(el);
                            }
                            proof {
                                assert(target =~= self.remaining());
                            }
                        },
                        Value::Array(items) => {
                            let mut j: usize = items.len();
                            while j > 0
                                invariant
                                    self.style@ == style,
                                    *el.value == Value::Array(*items),
                                    0 <= j <= items@.len(),
                                    expand_all(style, self.pending()) == expand_from(style, el@, j as nat) + expand_all(style, rest),
                                    pending_count(self.pending()) == node_count_from(*el.value, j as nat) + pending_count(rest),
                                decreases j,
                            {
                                j = j - 1;
                                let mut indices = el.indices.clone();
                                indices.push(j);
                                let child = Element {
                                    path: self.style.array_format(&el.path, j),
                                    indices,
                                    value: &items[j],
                                };
                                let ghost prev = self.pending();
                                self.items.push_front(child);
                                proof {
                                    assert(child.indices@ =~= el.indices@.push(j));
                                    assert(child@ == child_task(style, el@, j as nat));
                                    assert(self.pending() =~= seq![child@] + prev);
                                    lemma_expand_all_cons(style, child@, prev);
                                    let a = expand(style, child@);
                                    let b = expand_from(style, el@, j as nat + 1);
                                    let c = expand_all(style, rest);
                                    assert(a + (b + c) =~= (a + b) + c);
                                }
                            }
                            if !self.style.should_skip_array_parents() {
                                proof {
                                    assert(target.drop_first() =~= self.remaining());
                                }
                                return Some(el);
                            }
                            proof {
                                assert(target =~= self.remaining());
                            }
                        },
                        _ => {
                            proof {
                                assert(target.drop_first() =~= expand_all(style, rest));
                            }
                            return Some(el);
                        },
                    }
                },
            }
        }
    }

    /// Hands out all remaining elements, in order.
    pub fn collect(self) -> (r: Vec<Element<'a>>)
        ensures
            r@.map_values(|e: Element<'a>| e@) == self.remaining(),
    {
        let ghost all = self.remaining();
        let mut it = self;
        let mut out: Vec<Element<'a>> = Vec::new();
        loop
            invariant
                out@.map_values(|e: Element<'a>| e@) + it.remaining() == all,
            ensures
                out@.map_values(|e: Element<'a>| e@) == all,
            decreases it.remaining().len(),
        {
            let ghost seen = out@.map_values(|e: Element<'a>| e@);
            let ghost left = it.remaining();
            match it.next() {
                None => {
                    assert(seen + left =~= seen);
                    break;
                },
                Some(e) => {
                    out.push(e);
                    assert(out@.map_values(|e: Element<'a>| e@) =~= seen.push(e@));
                    assert(seen.push(e@) + it.remaining() =~= seen + left);
                },
            }
        }
        out
    }
}

} // verus!
