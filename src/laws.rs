//! Properties that hold of every scene, stated over the trees that nodes
//! stand for and the text that `emit` writes.
use vstd::prelude::*;
use crate::emit::{children_text, code_of, element_text, tree_text};
use crate::error::ConstructionError;
use crate::node::{
    CircleKind, Element, GroupKind, PrimitiveKind, Tree, TransformKind, accepts_child,
    bare_transform_result, decoded, group_element, is_primitive, is_transform, leaf,
    primitive_result, refusal, with_child,
};
use crate::number::{f32_is_finite, real_from_bits};

verus! {

/// Two trees are alike when their elements are equal and their children
/// are alike, pairwise and in order.
pub open spec fn same_tree(a: Tree, b: Tree) -> bool
    decreases a, 1int,
{
    a.element == b.element && same_trees(a.children, b.children)
}

/// Two sequences of trees are alike when they are as long and alike at each
/// position.
pub open spec fn same_trees(s: Seq<Tree>, t: Seq<Tree>) -> bool
    decreases s, 0int,
{
    if s.len() == 0 {
        t.len() == 0
    } else {
        t.len() == s.len() && same_trees(s.drop_last(), t.drop_last()) && same_tree(
            s.last(),
            t.last(),
        )
    }
}

proof fn lemma_same_tree_equal(a: Tree, b: Tree)
    requires
        same_tree(a, b),
    ensures
        a == b,
    decreases a, 1int,
{
    lemma_same_trees_equal(a.children, b.children);
}

proof fn lemma_same_trees_equal(s: Seq<Tree>, t: Seq<Tree>)
    requires
        same_trees(s, t),
    ensures
        s == t,
    decreases s, 0int,
{
    if s.len() == 0 {
        assert(s =~= t);
    } else {
        lemma_same_trees_equal(s.drop_last(), t.drop_last());
        lemma_same_tree_equal(s.last(), t.last());
        assert(s =~= s.drop_last().push(s.last()));
        assert(t =~= t.drop_last().push(t.last()));
    }
}

/// Emission is deterministic: trees alike in kind, parameters and children,
/// all the way down, give the same text.
pub proof fn emit_is_deterministic(a: Tree, b: Tree)
    requires
        same_tree(a, b),
    ensures
        code_of(a) == code_of(b),
{
    lemma_same_tree_equal(a, b);
}

/// A difference over A, B and C writes A, then B, then C, each once, in
/// that order.
pub proof fn difference_keeps_child_order(a: Tree, b: Tree, c: Tree, indent: Seq<char>)
    ensures
        tree_text(Tree { element: Element::Difference, children: seq![a, b, c] }, indent)
            == indent + "difference()"@ + "\n"@ + indent + "{\n"@ + tree_text(a, indent + "\t"@)
            + "\n"@ + tree_text(b, indent + "\t"@) + "\n"@ + tree_text(c, indent + "\t"@) + "\n"@
            + indent + "}"@,
{
    let s = seq![a, b, c];
    let inner = indent + "\t"@;
    assert(s.drop_last() =~= seq![a, b]);
    assert(seq![a, b].drop_last() =~= seq![a]);
    assert(seq![a].drop_last() =~= Seq::<Tree>::empty());
    reveal_with_fuel(children_text, 4);
    assert(children_text(s, inner) =~= tree_text(a, inner) + "\n"@ + tree_text(b, inner) + "\n"@
        + tree_text(c, inner) + "\n"@);
    let t = Tree { element: Element::Difference, children: s };
    assert(tree_text(t, indent) =~= indent + "difference()"@ + "\n"@ + indent + "{\n"@
        + children_text(s, inner) + indent + "}"@);
}

/// A transform built without a child accepts one child and refuses a second.
pub proof fn transform_takes_one_child(
    kind: TransformKind,
    params: Seq<u32>,
    first: Tree,
    second: Tree,
)
    requires
        bare_transform_result(kind, params) is Ok,
    ensures
        accepts_child(bare_transform_result(kind, params)->Ok_0),
        !accepts_child(with_child(bare_transform_result(kind, params)->Ok_0, first)),
        refusal(with_child(bare_transform_result(kind, params)->Ok_0, first))
            == ConstructionError::TransformAlreadyHasChild,
{
}

/// A primitive refuses every child.
pub proof fn primitive_takes_no_child(kind: PrimitiveKind, params: Seq<u32>)
    requires
        primitive_result(kind, params) is Ok,
    ensures
        !accepts_child(primitive_result(kind, params)->Ok_0),
        refusal(primitive_result(kind, params)->Ok_0)
            == ConstructionError::PrimitiveTakesNoChildren,
{
}

/// A boolean operator or group with no children is still written, with an
/// empty block.
pub proof fn empty_group_has_empty_block(kind: GroupKind, indent: Seq<char>)
    ensures
        tree_text(leaf(group_element(kind)), indent) == indent + element_text(group_element(kind))
            + "\n"@ + indent + "{\n"@ + indent + "}"@,
{
    assert(children_text(Seq::<Tree>::empty(), indent + "\t"@) =~= Seq::<char>::empty());
    assert(tree_text(leaf(group_element(kind)), indent) =~= indent + element_text(
        group_element(kind),
    ) + "\n"@ + indent + "{\n"@ + indent + "}"@);
}

/// A cylinder whose radius or diameter is NaN or infinite is refused; when
/// the height can be read, the error says that a parameter is not finite.
pub proof fn non_finite_cylinder_refused(circle: CircleKind, height: u32, size: u32)
    requires
        !f32_is_finite(size),
    ensures
        primitive_result(PrimitiveKind::Cylinder(circle), seq![height, size]) is Err,
        real_from_bits(height) is Ok ==> primitive_result(
            PrimitiveKind::Cylinder(circle),
            seq![height, size],
        ) == Err::<Tree, ConstructionError>(ConstructionError::NonFinite),
{
    let p = seq![height, size];
    assert(p.drop_last() =~= seq![height]);
    assert(seq![height].drop_last() =~= Seq::<u32>::empty());
    reveal_with_fuel(decoded, 3);
}

} // verus!
