use crate::iter::{emitted, expand, expand_from, child_task, is_emitted, ElementModel};
use crate::style::StyleModel;
use crate::value::{
    array_positions, child_at, child_len, leaf_count, leaf_count_from, node_at, node_count,
    node_count_from, Value,
};
use vstd::prelude::*;

verus! {

proof fn lemma_expand_len_all(style: StyleModel, t: ElementModel)
    requires
        !style.skip_object_parents,
        !style.skip_array_parents,
    ensures
        expand(style, t).len() == node_count(t.value),
    decreases t.value, 1nat, 0int,
{
    lemma_expand_from_len_all(style, t, 0);
}

proof fn lemma_expand_from_len_all(style: StyleModel, t: ElementModel, j: nat)
    requires
        !style.skip_object_parents,
        !style.skip_array_parents,
    ensures
        expand_from(style, t, j).len() == node_count_from(t.value, j),
    decreases t.value, 0nat, child_len(t.value) - j,
{
    if j < child_len(t.value) {
        lemma_expand_len_all(style, child_task(style, t, j));
        lemma_expand_from_len_all(style, t, j + 1);
    }
}

/// With neither objects nor arrays skipped, every node of the tree is
/// emitted exactly once: the traversal yields as many elements as the tree
/// has nodes.
pub proof fn lemma_every_node_emitted(style: StyleModel, v: Value)
    requires
        !style.skip_object_parents,
        !style.skip_array_parents,
    ensures
        emitted(style, v).len() == node_count(v),
{
    lemma_expand_len_all(style, ElementModel { path: Seq::empty(), indices: Seq::empty(), value: v });
}

proof fn lemma_expand_len_leaves(style: StyleModel, t: ElementModel)
    requires
        style.skip_object_parents,
        style.skip_array_parents,
    ensures
        expand(style, t).len() == leaf_count(t.value),
    decreases t.value, 1nat, 0int,
{
    lemma_expand_from_len_leaves(style, t, 0);
}

proof fn lemma_expand_from_len_leaves(style: StyleModel, t: ElementModel, j: nat)
    requires
        style.skip_object_parents,
        style.skip_array_parents,
    ensures
        expand_from(style, t, j).len() == leaf_count_from(t.value, j),
    decreases t.value, 0nat, child_len(t.value) - j,
{
    if j < child_len(t.value) {
        lemma_expand_len_leaves(style, child_task(style, t, j));
        lemma_expand_from_len_leaves(style, t, j + 1);
    }
}

/// With both objects and arrays skipped, as in the default style, the
/// traversal yields exactly one element per scalar leaf of the tree.
pub proof fn lemma_only_leaves_emitted(style: StyleModel, v: Value)
    requires
        style.skip_object_parents,
        style.skip_array_parents,
    ensures
        emitted(style, v).len() == leaf_count(v),
{
    lemma_expand_len_leaves(style, ElementModel { path: Seq::empty(), indices: Seq::empty(), value: v });
}

/// A scalar root yields exactly one element, with the empty path and no
/// indices, whatever the style.
pub proof fn lemma_scalar_root(style: StyleModel, v: Value)
    requires
        v.is_leaf(),
    ensures
        emitted(style, v) == seq![ElementModel { path: Seq::empty(), indices: Seq::empty(), value: v }],
{
    let t = ElementModel { path: Seq::empty(), indices: Seq::empty(), value: v };
    assert(expand_from(style, t, 0) == Seq::<ElementModel>::empty());
    assert(expand(style, t) =~= seq![t]);
}

/// `e` is a node below (or at) the node of `t`, reached along some route,
/// and its indices are `t`'s followed by the array positions of that route.
pub open spec fn reached_from(t: ElementModel, e: ElementModel) -> bool {
    exists|route: Seq<nat>|
        #![trigger node_at(t.value, route)]
        node_at(t.value, route) == Some(e.value) && e.indices == t.indices + array_positions(
            t.value,
            route,
        )
}

proof fn lemma_child_reached(style: StyleModel, t: ElementModel, j: nat, e: ElementModel)
    requires
        j < child_len(t.value),
        reached_from(child_task(style, t, j), e),
    ensures
        reached_from(t, e),
{
    let c = child_task(style, t, j);
    let r0 = choose|route: Seq<nat>|
        #![trigger node_at(c.value, route)]
        node_at(c.value, route) == Some(e.value) && e.indices == c.indices + array_positions(
            c.value,
            route,
        );
    let r = seq![j] + r0;
    assert(r.drop_first() =~= r0);
    assert(child_at(t.value, j as int) == c.value);
    assert(node_at(t.value, r) == node_at(c.value, r0));
    let rest = array_positions(c.value, r0);
    if t.value is Array {
        assert(array_positions(t.value, r) == seq![j as usize] + rest);
        assert(c.indices == t.indices.push(j as usize));
        assert(t.indices.push(j as usize) + rest =~= t.indices + (seq![j as usize] + rest));
    } else {
        assert(array_positions(t.value, r) == rest);
        assert(c.indices == t.indices);
    }
    assert(node_at(t.value, r) == Some(e.value) && e.indices == t.indices + array_positions(
        t.value,
        r,
    ));
}

proof fn lemma_expand_reached(style: StyleModel, t: ElementModel)
    ensures
        forall|k: int|
            0 <= k < expand(style, t).len() ==> reached_from(t, #[trigger] expand(style, t)[k]),
    decreases t.value, 1nat, 0int,
{
    lemma_expand_from_reached(style, t, 0);
    let own = if is_emitted(style, t.value) {
        seq![t]
    } else {
        Seq::empty()
    };
    let rest = expand_from(style, t, 0);
    assert forall|k: int| 0 <= k < expand(style, t).len() implies reached_from(
        t,
        #[trigger] expand(style, t)[k],
    ) by {
        if k < own.len() {
            let empty = Seq::<nat>::empty();
            assert(t.indices + array_positions(t.value, empty) =~= t.indices);
            assert(node_at(t.value, empty) == Some(t.value));
        } else {
            assert(expand(style, t)[k] == rest[k - own.len()]);
        }
    }
}

proof fn lemma_expand_from_reached(style: StyleModel, t: ElementModel, j: nat)
    ensures
        forall|k: int|
            0 <= k < expand_from(style, t, j).len() ==> reached_from(
                t,
                #[trigger] expand_from(style, t, j)[k],
            ),
    decreases t.value, 0nat, child_len(t.value) - j,
{
    if j < child_len(t.value) {
        let c = child_task(style, t, j);
        lemma_expand_reached(style, c);
        lemma_expand_from_reached(style, t, j + 1);
        let a = expand(style, c);
        let b = expand_from(style, t, j + 1);
        assert forall|k: int| 0 <= k < expand_from(style, t, j).len() implies reached_from(
            t,
            #[trigger] expand_from(style, t, j)[k],
        ) by {
            if k < a.len() {
                assert(expand_from(style, t, j)[k] == a[k]);
                lemma_child_reached(style, t, j, a[k]);
            } else {
                assert(expand_from(style, t, j)[k] == b[k - a.len()]);
            }
        }
    }
}

/// Every element of a traversal of `v` is a node of `v` reached along some
/// route, and its `indices` are exactly the positions taken in the arrays
/// crossed along that route, in root-to-node order.
pub proof fn lemma_indices_are_array_positions(style: StyleModel, v: Value)
    ensures
        forall|k: int|
            0 <= k < emitted(style, v).len() ==> exists|route: Seq<nat>|
                #![trigger node_at(v, route)]
                node_at(v, route) == Some(#[trigger] emitted(style, v)[k].value)
                    && emitted(style, v)[k].indices == array_positions(v, route),
{
    let root = ElementModel { path: Seq::empty(), indices: Seq::empty(), value: v };
    lemma_expand_reached(style, root);
    assert forall|k: int| 0 <= k < emitted(style, v).len() implies exists|route: Seq<nat>|
        #![trigger node_at(v, route)]
        node_at(v, route) == Some(#[trigger] emitted(style, v)[k].value)
            && emitted(style, v)[k].indices == array_positions(v, route) by {
        let e = emitted(style, v)[k];
        assert(reached_from(root, e));
        let r = choose|route: Seq<nat>|
            #![trigger node_at(v, route)]
            node_at(v, route) == Some(e.value) && e.indices == root.indices + array_positions(
                v,
                route,
            );
        assert(root.indices + array_positions(v, r) =~= array_positions(v, r));
        assert(node_at(v, r) == Some(e.value) && e.indices == array_positions(v, r));
    }
}

/// The routes of the elements produced for the node of `t`, in output
/// order: the empty route for the node itself (unless skipped), then the
/// routes of each child's elements, each led by the child's position.
pub open spec fn expand_routes(style: StyleModel, t: ElementModel) -> Seq<Seq<nat>>
    decreases t.value, 1nat, 0int,
{
    let own = if is_emitted(style, t.value) {
        seq![Seq::<nat>::empty()]
    } else {
        Seq::empty()
    };
    own + expand_routes_from(style, t, 0)
}

/// The routes of the elements produced for the children of the node of `t`
/// at positions `j` and after.
pub open spec fn expand_routes_from(style: StyleModel, t: ElementModel, j: nat) -> Seq<Seq<nat>>
    decreases t.value, 0nat, child_len(t.value) - j,
{
    if j < child_len(t.value) {
        expand_routes(style, child_task(style, t, j)).map_values(|r: Seq<nat>| seq![j] + r)
            + expand_routes_from(style, t, j + 1)
    } else {
        Seq::empty()
    }
}

/// The pending entry reached from `t` by following `route`.
pub open spec fn at_route(style: StyleModel, t: ElementModel, route: Seq<nat>) -> ElementModel
    decreases route.len(),
{
    if route.len() == 0 {
        t
    } else {
        at_route(style, child_task(style, t, route[0]), route.drop_first())
    }
}

/// `r1` comes strictly before `r2` in pre-order: it is a proper prefix of
/// `r2`, or at the first position where they differ it is smaller.
pub open spec fn precedes(r1: Seq<nat>, r2: Seq<nat>) -> bool {
    ||| (r1.len() < r2.len() && r2.subrange(0, r1.len() as int) == r1)
    ||| exists|i: int|
        0 <= i < r1.len() && i < r2.len() && #[trigger] r1.subrange(0, i) == r2.subrange(0, i)
            && r1[i] < r2[i]
}

proof fn lemma_precedes_extend(j: nat, r1: Seq<nat>, r2: Seq<nat>)
    requires
        precedes(r1, r2),
    ensures
        precedes(seq![j] + r1, seq![j] + r2),
{
    let a = seq![j] + r1;
    let b = seq![j] + r2;
    if r1.len() < r2.len() && r2.subrange(0, r1.len() as int) == r1 {
        assert(b.subrange(0, a.len() as int) =~= a);
    } else {
        let i = choose|i: int|
            0 <= i < r1.len() && i < r2.len() && #[trigger] r1.subrange(0, i) == r2.subrange(0, i)
                && r1[i] < r2[i];
        assert(a.subrange(0, i + 1) =~= seq![j] + r1.subrange(0, i));
        assert(b.subrange(0, i + 1) =~= seq![j] + r2.subrange(0, i));
        assert(a[i + 1] == r1[i] && b[i + 1] == r2[i]);
    }
}

proof fn lemma_precedes_first(r1: Seq<nat>, r2: Seq<nat>)
    requires
        r1.len() > 0,
        r2.len() > 0,
        r1[0] < r2[0],
    ensures
        precedes(r1, r2),
{
    assert(r1.subrange(0, 0) =~= r2.subrange(0, 0));
}

proof fn lemma_routes_in_preorder(style: StyleModel, t: ElementModel)
    ensures
        expand_routes(style, t).len() == expand(style, t).len(),
        forall|k: int|
            0 <= k < expand(style, t).len() ==> #[trigger] expand(style, t)[k] == at_route(
                style,
                t,
                expand_routes(style, t)[k],
            ) && node_at(t.value, expand_routes(style, t)[k]) is Some,
        forall|k1: int, k2: int|
            0 <= k1 < k2 < expand_routes(style, t).len() ==> precedes(
                #[trigger] expand_routes(style, t)[k1],
                #[trigger] expand_routes(style, t)[k2],
            ),
    decreases t.value, 1nat, 0int,
{
    lemma_routes_from_in_preorder(style, t, 0);
    let own = if is_emitted(style, t.value) {
        seq![Seq::<nat>::empty()]
    } else {
        Seq::empty()
    };
    let own_e = if is_emitted(style, t.value) {
        seq![t]
    } else {
        Seq::empty()
    };
    let rs = expand_routes_from(style, t, 0);
    let es = expand_from(style, t, 0);
    let routes = expand_routes(style, t);
    let out = expand(style, t);
    assert forall|k: int| 0 <= k < out.len() implies #[trigger] out[k] == at_route(
        style,
        t,
        routes[k],
    ) && node_at(t.value, routes[k]) is Some by {
        if k >= own.len() {
            assert(out[k] == es[k - own.len()]);
            assert(routes[k] == rs[k - own.len()]);
        } else {
            assert(routes[k] == Seq::<nat>::empty());
        }
    }
    assert forall|k1: int, k2: int| 0 <= k1 < k2 < routes.len() implies precedes(
        #[trigger] routes[k1],
        #[trigger] routes[k2],
    ) by {
        if k1 >= own.len() {
            assert(routes[k1] == rs[k1 - own.len()]);
            assert(routes[k2] == rs[k2 - own.len()]);
        } else {
            assert(routes[k1] == Seq::<nat>::empty());
            assert(routes[k2] == rs[k2 - own.len()]);
            let r2 = routes[k2];
            assert(r2.subrange(0, 0) =~= Seq::<nat>::empty());
        }
    }
}

proof fn lemma_routes_from_in_preorder(style: StyleModel, t: ElementModel, j: nat)
    ensures
        expand_routes_from(style, t, j).len() == expand_from(style, t, j).len(),
        forall|k: int|
            0 <= k < expand_from(style, t, j).len() ==> #[trigger] expand_from(style, t, j)[k]
                == at_route(style, t, expand_routes_from(style, t, j)[k]) && node_at(
                t.value,
                expand_routes_from(style, t, j)[k],
            ) is Some,
        forall|k: int|
            0 <= k < expand_routes_from(style, t, j).len() ==> (#[trigger] expand_routes_from(
                style,
                t,
                j,
            )[k]).len() > 0 && expand_routes_from(style, t, j)[k][0] >= j,
        forall|k1: int, k2: int|
            0 <= k1 < k2 < expand_routes_from(style, t, j).len() ==> precedes(
                #[trigger] expand_routes_from(style, t, j)[k1],
                #[trigger] expand_routes_from(style, t, j)[k2],
            ),
    decreases t.value, 0nat, child_len(t.value) - j,
{
    if j < child_len(t.value) {
        let c = child_task(style, t, j);
        lemma_routes_in_preorder(style, c);
        lemma_routes_from_in_preorder(style, t, j + 1);
        let ra = expand_routes(style, c);
        let a = ra.map_values(|r: Seq<nat>| seq![j] + r);
        let b = expand_routes_from(style, t, j + 1);
        let ea = expand(style, c);
        let eb = expand_from(style, t, j + 1);
        let routes = expand_routes_from(style, t, j);
        let out = expand_from(style, t, j);
        assert(routes == a + b);
        assert(out == ea + eb);
        assert forall|k: int| 0 <= k < out.len() implies #[trigger] out[k] == at_route(
            style,
            t,
            routes[k],
        ) && node_at(t.value, routes[k]) is Some by {
            if k < ea.len() {
                let r = routes[k];
                assert(r == seq![j] + ra[k]);
                assert(r.drop_first() =~= ra[k]);
                assert(child_at(t.value, j as int) == c.value);
            } else {
                assert(out[k] == eb[k - ea.len()]);
                assert(routes[k] == b[k - ea.len()]);
            }
        }
        assert forall|k: int| 0 <= k < routes.len() implies (#[trigger] routes[k]).len() > 0
            && routes[k][0] >= j by {
            if k < a.len() {
                assert(routes[k] == seq![j] + ra[k]);
            } else {
                assert(routes[k] == b[k - a.len()]);
            }
        }
        assert forall|k1: int, k2: int| 0 <= k1 < k2 < routes.len() implies precedes(
            #[trigger] routes[k1],
            #[trigger] routes[k2],
        ) by {
            if k2 < a.len() {
                assert(routes[k1] == seq![j] + ra[k1]);
                assert(routes[k2] == seq![j] + ra[k2]);
                lemma_precedes_extend(j, ra[k1], ra[k2]);
            } else if k1 < a.len() {
                assert(routes[k1] == seq![j] + ra[k1]);
                assert(routes[k2] == b[k2 - a.len()]);
                lemma_precedes_first(routes[k1], routes[k2]);
            } else {
                assert(routes[k1] == b[k1 - a.len()]);
                assert(routes[k2] == b[k2 - a.len()]);
            }
        }
    }
}

/// The traversal visits the tree in pre-order, siblings in document order:
/// the elements of a traversal of `v` are the nodes at the routes
/// `emitted_routes(style, v)`, each element being the entry reached along its
/// route, and those routes strictly increase in pre-order, so that a
/// container (when emitted) comes before all of its descendants and each
/// child's subtree before its next sibling's.
pub proof fn lemma_preorder(style: StyleModel, v: Value)
    ensures
        emitted_routes(style, v).len() == emitted(style, v).len(),
        forall|k: int|
            0 <= k < emitted(style, v).len() ==> #[trigger] emitted(style, v)[k] == at_route(
                style,
                ElementModel { path: Seq::empty(), indices: Seq::empty(), value: v },
                emitted_routes(style, v)[k],
            ) && node_at(v, emitted_routes(style, v)[k]) is Some,
        forall|k1: int, k2: int|
            0 <= k1 < k2 < emitted_routes(style, v).len() ==> precedes(
                #[trigger] emitted_routes(style, v)[k1],
                #[trigger] emitted_routes(style, v)[k2],
            ),
{
    lemma_routes_in_preorder(style, ElementModel { path: Seq::empty(), indices: Seq::empty(), value: v });
}

/// The routes of the elements of a traversal of `v`, in output order.
pub open spec fn emitted_routes(style: StyleModel, v: Value) -> Seq<Seq<nat>> {
    expand_routes(style, ElementModel { path: Seq::empty(), indices: Seq::empty(), value: v })
}

} // verus!
