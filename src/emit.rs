use vstd::prelude::*;
use crate::number::{Real, Vec3, real_text};
use crate::node::{Element, Node, Size, Tree, is_group};

verus! {

// ---- the text of a scene ----

pub open spec fn vec3_text(v: Vec3) -> Seq<char> {
    "["@ + real_text(v.x.micros as int) + ","@ + real_text(v.y.micros as int) + ","@ + real_text(
        v.z.micros as int,
    ) + "]"@
}

pub open spec fn size_text(s: Size) -> Seq<char> {
    match s {
        Size::Radius(r) => "r="@ + real_text(r.micros as int),
        Size::Diameter(d) => "d="@ + real_text(d.micros as int),
    }
}

/// The call that names an element and its parameters, without a terminator.
pub open spec fn element_text(e: Element) -> Seq<char> {
    match e {
        Element::Cube(v) => "cube("@ + vec3_text(v) + ")"@,
        Element::Cylinder(h, s) => "cylinder(h="@ + real_text(h.micros as int) + ","@ + size_text(s)
            + ")"@,
        Element::Sphere(s) => "sphere("@ + size_text(s) + ")"@,
        Element::Translate(v) => "translate("@ + vec3_text(v) + ")"@,
        Element::Rotate(a, v) => "rotate("@ + real_text(a.micros as int) + ","@ + vec3_text(v)
            + ")"@,
        Element::Scale(v) => "scale("@ + vec3_text(v) + ")"@,
        Element::Mirror(v) => "mirror("@ + vec3_text(v) + ")"@,
        Element::Union => "union()"@,
        Element::Difference => "difference()"@,
        Element::Intersection => "intersection()"@,
        Element::Hull => "hull()"@,
        Element::Group => "group()"@,
    }
}

/// A node is written with a block when it has children, and a boolean
/// operator or group always is, even when empty.
pub open spec fn has_block(t: Tree) -> bool {
    t.children.len() > 0 || is_group(t.element)
}

/// A node's statement, each line starting with `indent`: a leaf ends in `;`,
/// otherwise the block holds each child one tab further in, one per line.
pub open spec fn tree_text(t: Tree, indent: Seq<char>) -> Seq<char>
    decreases t, 1int,
{
    if has_block(t) {
        indent + element_text(t.element) + "\n"@ + indent + "{\n"@ + children_text(
            t.children,
            indent + "\t"@,
        ) + indent + "}"@
    } else {
        indent + element_text(t.element) + ";"@
    }
}

/// The statements of the children in their order, each followed by a newline.
pub open spec fn children_text(s: Seq<Tree>, indent: Seq<char>) -> Seq<char>
    decreases s, 0int,
{
    if s.len() == 0 {
        Seq::empty()
    } else {
        children_text(s.drop_last(), indent) + tree_text(s.last(), indent) + "\n"@
    }
}

/// The text of a whole tree, starting at the left margin.
pub open spec fn code_of(t: Tree) -> Seq<char> {
    tree_text(t, Seq::empty())
}

// ---- writing it ----

fn write_real(r: Real, out: &mut String)
    ensures
        final(out)@ == old(out)@ + real_text(r.micros as int),
{
    r.write_code(out);
}

fn write_vec3(v: Vec3, out: &mut String)
    ensures
        final(out)@ == old(out)@ + vec3_text(v),
{
    out.append("[");
    write_real(v.x, out);
    out.append(",");
    write_real(v.y, out);
    out.append(",");
    write_real(v.z, out);
    out.append("]");
}

fn write_size(s: Size, out: &mut String)
    ensures
        final(out)@ == old(out)@ + size_text(s),
{
    match s {
        Size::Radius(r) => {
            out.append("r=");
            write_real(r, out);
        },
        Size::Diameter(d) => {
            out.append("d=");
            write_real(d, out);
        },
    }
}

fn write_element(e: Element, out: &mut String)
    ensures
        final(out)@ == old(out)@ + element_text(e),
{
    match e {
        Element::Cube(v) => {
            out.append("cube(");
            write_vec3(v, out);
            out.append(")");
        },
        Element::Cylinder(h, s) => {
            out.append("cylinder(h=");
            write_real(h, out);
            out.append(",");
            write_size(s, out);
            out.append(")");
        },
        Element::Sphere(s) => {
            out.append("sphere(");
            write_size(s, out);
            out.append(")");
        },
        Element::Translate(v) => {
            out.append("translate(");
            write_vec3(v, out);
            out.append(")");
        },
        Element::Rotate(a, v) => {
            out.append("rotate(");
            write_real(a, out);
            out.append(",");
            write_vec3(v, out);
            out.append(")");
        },
        Element::Scale(v) => {
            out.append("scale(");
            write_vec3(v, out);
            out.append(")");
        },
        Element::Mirror(v) => {
            out.append("mirror(");
            write_vec3(v, out);
            out.append(")");
        },
        Element::Union => out.append("union()"),
        Element::Difference => out.append("difference()"),
        Element::Intersection => out.append("intersection()"),
        Element::Hull => out.append("hull()"),
        Element::Group => out.append("group()"),
    }
}

fn is_group_element(e: Element) -> (b: bool)
    ensures
        b == is_group(e),
{
    match e {
        Element::Union | Element::Difference | Element::Intersection | Element::Hull
        | Element::Group => true,
        _ => false,
    }
}

pub(crate) fn write_tree(n: &Node, indent: &String, out: &mut String)
    ensures
        final(out)@ == old(out)@ + tree_text(n@, indent@),
    decreases n@,
{
    let e = n.element();
    let count = n.child_count();
    out.append(indent.as_str());
    write_element(e, out);
    if count > 0 || is_group_element(e) {
        out.append("\n");
        out.append(indent.as_str());
        out.append("{\n");
        let mut inner = indent.clone();
        inner.append("\t");
        let ghost start = out@;
        let mut i: usize = 0;
        assert(n@.children.take(0) =~= Seq::<Tree>::empty());
        while i < count
            invariant
                i <= count,
                count == n@.children.len(),
                inner@ == indent@ + "\t"@,
                out@ == start + children_text(n@.children.take(i as int), inner@),
            decreases count - i,
        {
            let c = n.child(i);
            let ghost prefix = n@.children.take(i as int + 1);
            assert(prefix.drop_last() =~= n@.children.take(i as int));
            assert(prefix.last() == n@.children[i as int]);
            write_tree(c, &inner, out);
            out.append("\n");
            i = i + 1;
        }
        assert(n@.children.take(count as int) =~= n@.children);
        out.append(indent.as_str());
        out.append("}");
    } else {
        out.append(";");
    }
}

/// The script text of a tree: one statement for the root, the children's
/// statements nested in its block in their order.
pub fn emit(root: &Node) -> (s: String)
    ensures
        s@ == code_of(root@),
{
    let mut s = String::new();
    let indent = String::new();
    write_tree(root, &indent, &mut s);
    s
}

} // verus!
