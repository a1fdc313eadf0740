use vstd::prelude::*;
use crate::error::ConstructionError;
use crate::number::{Real, Vec3, MAX_ANGLE_MICROS, real_from_bits};

verus! {

/// How a round shape gives its size.
#[derive(Clone, Copy, Debug, PartialEq, Eq, Structural)]
pub enum Size {
    Radius(Real),
    Diameter(Real),
}

/// What a node is, with its parameters.
#[derive(Clone, Copy, Debug, PartialEq, Eq, Structural)]
pub enum Element {
    /// A box with one corner at the origin, sized along x, y and z.
    Cube(Vec3),
    /// A cylinder of the given height standing on the xy plane.
    Cylinder(Real, Size),
    Sphere(Size),
    Translate(Vec3),
    /// An angle in degrees about an axis.
    Rotate(Real, Vec3),
    Scale(Vec3),
    /// Reflection through the plane whose normal is given.
    Mirror(Vec3),
    Union,
    /// The first child less all the others, in order.
    Difference,
    Intersection,
    /// The convex hull of the children.
    Hull,
    /// A bare grouping of the children.
    Group,
}

/// Whether a round primitive takes its size as a radius or a diameter.
#[derive(Clone, Copy, Debug, PartialEq, Eq, Structural)]
pub enum CircleKind {
    Radius,
    Diameter,
}

#[derive(Clone, Copy, Debug, PartialEq, Eq, Structural)]
pub enum PrimitiveKind {
    /// Parameters: x, y, z.
    Cube,
    /// Parameters: height, then the radius or diameter.
    Cylinder(CircleKind),
    /// Parameter: the radius or diameter.
    Sphere(CircleKind),
}

#[derive(Clone, Copy, Debug, PartialEq, Eq, Structural)]
pub enum TransformKind {
    /// Parameters: x, y, z.
    Translate,
    /// Parameters: angle in degrees, then the axis x, y, z.
    Rotate,
    /// Parameters: x, y, z factors.
    Scale,
    /// Parameters: the normal's x, y, z.
    Mirror,
}

#[derive(Clone, Copy, Debug, PartialEq, Eq, Structural)]
pub enum GroupKind {
    Union,
    Difference,
    Intersection,
    Hull,
    Group,
}

/// The mathematical value of a node: its element and its children in order.
pub struct Tree {
    pub element: Element,
    pub children: Seq<Tree>,
}

pub open spec fn is_primitive(e: Element) -> bool {
    e is Cube || e is Cylinder || e is Sphere
}

pub open spec fn is_transform(e: Element) -> bool {
    e is Translate || e is Rotate || e is Scale || e is Mirror
}

pub open spec fn is_group(e: Element) -> bool {
    !is_primitive(e) && !is_transform(e)
}

/// The limit on children: none for a primitive, one for a transform.
pub open spec fn arity_ok(e: Element, n: nat) -> bool {
    &&& is_primitive(e) ==> n == 0
    &&& is_transform(e) ==> n <= 1
}

/// Whether `add_child` accepts one more child.
pub open spec fn accepts_child(t: Tree) -> bool {
    is_group(t.element) || (is_transform(t.element) && t.children.len() == 0)
}

/// The error that `add_child` gives when it does not accept a child.
pub open spec fn refusal(t: Tree) -> ConstructionError {
    if is_primitive(t.element) {
        ConstructionError::PrimitiveTakesNoChildren
    } else {
        ConstructionError::TransformAlreadyHasChild
    }
}

pub open spec fn leaf(e: Element) -> Tree {
    Tree { element: e, children: Seq::empty() }
}

pub open spec fn with_child(t: Tree, c: Tree) -> Tree {
    Tree { element: t.element, children: t.children.push(c) }
}

pub open spec fn group_element(k: GroupKind) -> Element {
    match k {
        GroupKind::Union => Element::Union,
        GroupKind::Difference => Element::Difference,
        GroupKind::Intersection => Element::Intersection,
        GroupKind::Hull => Element::Hull,
        GroupKind::Group => Element::Group,
    }
}

// ---- construction from raw parameters ----

/// Reads each parameter in order; the first that cannot be read decides the error.
pub open spec fn decoded(params: Seq<u32>) -> Result<Seq<Real>, ConstructionError>
    decreases params.len(),
{
    if params.len() == 0 {
        Ok(Seq::empty())
    } else {
        match decoded(params.drop_last()) {
            Err(e) => Err(e),
            Ok(v) => match real_from_bits(params.last()) {
                Err(e) => Err(e),
                Ok(r) => Ok(v.push(r)),
            },
        }
    }
}

pub open spec fn primitive_arity(k: PrimitiveKind) -> nat {
    match k {
        PrimitiveKind::Cube => 3,
        PrimitiveKind::Cylinder(_) => 2,
        PrimitiveKind::Sphere(_) => 1,
    }
}

pub open spec fn transform_arity(k: TransformKind) -> nat {
    match k {
        TransformKind::Rotate => 4,
        _ => 3,
    }
}

pub open spec fn size_of(c: CircleKind, r: Real) -> Size {
    match c {
        CircleKind::Radius => Size::Radius(r),
        CircleKind::Diameter => Size::Diameter(r),
    }
}

pub open spec fn primitive_element(k: PrimitiveKind, v: Seq<Real>) -> Element {
    match k {
        PrimitiveKind::Cube => Element::Cube(Vec3 { x: v[0], y: v[1], z: v[2] }),
        PrimitiveKind::Cylinder(c) => Element::Cylinder(v[0], size_of(c, v[1])),
        PrimitiveKind::Sphere(c) => Element::Sphere(size_of(c, v[0])),
    }
}

pub open spec fn transform_element(k: TransformKind, v: Seq<Real>) -> Element {
    match k {
        TransformKind::Translate => Element::Translate(Vec3 { x: v[0], y: v[1], z: v[2] }),
        TransformKind::Rotate => Element::Rotate(v[0], Vec3 { x: v[1], y: v[2], z: v[3] }),
        TransformKind::Scale => Element::Scale(Vec3 { x: v[0], y: v[1], z: v[2] }),
        TransformKind::Mirror => Element::Mirror(Vec3 { x: v[0], y: v[1], z: v[2] }),
    }
}

pub open spec fn angle_ok(a: Real) -> bool {
    -MAX_ANGLE_MICROS <= a.micros <= MAX_ANGLE_MICROS
}

/// What `make_primitive` gives: the arity is checked first, then each
/// parameter in order.
pub open spec fn primitive_result(k: PrimitiveKind, params: Seq<u32>) -> Result<Tree, ConstructionError> {
    if params.len() != primitive_arity(k) {
        Err(ConstructionError::WrongArity)
    } else {
        match decoded(params) {
            Err(e) => Err(e),
            Ok(v) => Ok(leaf(primitive_element(k, v))),
        }
    }
}

/// What `make_bare_transform` gives: arity, then each parameter, then the
/// range of a rotation's angle.
pub open spec fn bare_transform_result(k: TransformKind, params: Seq<u32>) -> Result<Tree, ConstructionError> {
    if params.len() != transform_arity(k) {
        Err(ConstructionError::WrongArity)
    } else {
        match decoded(params) {
            Err(e) => Err(e),
            Ok(v) => if k is Rotate && !angle_ok(v[0]) {
                Err(ConstructionError::AngleOutOfRange)
            } else {
                Ok(leaf(transform_element(k, v)))
            },
        }
    }
}

/// What `make_transform` gives: the bare transform holding `child`.
pub open spec fn transform_result(k: TransformKind, params: Seq<u32>, child: Tree) -> Result<Tree, ConstructionError> {
    match bare_transform_result(k, params) {
        Err(e) => Err(e),
        Ok(t) => Ok(with_child(t, child)),
    }
}

/// Whether an outcome holds a node whose value is the expected tree, or the
/// expected error.
pub open spec fn outcome_is(r: Result<Node, ConstructionError>, expected: Result<Tree, ConstructionError>) -> bool {
    match (r, expected) {
        (Ok(n), Ok(t)) => n@ == t,
        (Err(e), Err(f)) => e == f,
        _ => false,
    }
}

/// A node of the scene graph. It owns its children; cloning copies them.
pub struct Node {
    element: Element,
    children: Vec<Node>,
}

/// The tree that a node stands for.
pub closed spec fn tree_of(n: Node) -> Tree
    decreases n, 1int,
{
    Tree { element: n.element, children: trees_of(n.children@) }
}

/// The trees that a sequence of nodes stands for, in order.
pub closed spec fn trees_of(s: Seq<Node>) -> Seq<Tree>
    decreases s, 0int,
{
    if s.len() == 0 {
        Seq::empty()
    } else {
        trees_of(s.drop_last()).push(tree_of(s.last()))
    }
}

impl Node {
    /// A primitive holds no child and a transform at most one.
    #[verifier::type_invariant]
    closed spec fn inv(&self) -> bool {
        arity_ok(self.element, self.children.len() as nat)
    }

}

impl View for Node {
    type V = Tree;

    closed spec fn view(&self) -> Tree {
        tree_of(*self)
    }
}

proof fn lemma_trees_of(s: Seq<Node>)
    ensures
        trees_of(s).len() == s.len(),
        forall|i: int| 0 <= i < s.len() ==> trees_of(s)[i] == #[trigger] tree_of(s[i]),
    decreases s.len(),
{
    if s.len() > 0 {
        lemma_trees_of(s.drop_last());
        assert forall|i: int| 0 <= i < s.len() implies trees_of(s)[i] == #[trigger] tree_of(s[i]) by {
            if i < s.len() - 1 {
                assert(s.drop_last()[i] == s[i]);
            }
        }
    }
}

proof fn lemma_view(n: &Node)
    ensures
        n@.element == n.element,
        n@.children.len() == n.children.len(),
        forall|i: int| 0 <= i < n.children.len() ==> n@.children[i] == #[trigger] n.children[i]@,
{
    lemma_trees_of(n.children@);
}

proof fn lemma_decoded_prefix_err(s: Seq<u32>, i: int)
    requires
        0 <= i <= s.len(),
        decoded(s.take(i)) is Err,
    ensures
        decoded(s) == decoded(s.take(i)),
    decreases s.len(),
{
    if i == s.len() {
        assert(s.take(i) =~= s);
    } else {
        assert(s.drop_last().take(i) =~= s.take(i));
        lemma_decoded_prefix_err(s.drop_last(), i);
    }
}

proof fn lemma_decoded_len(s: Seq<u32>)
    ensures
        decoded(s) matches Ok(v) ==> v.len() == s.len(),
    decreases s.len(),
{
    if s.len() > 0 {
        lemma_decoded_len(s.drop_last());
    }
}

/// Reads every parameter, in order, or stops at the first that cannot be read.
fn decode_params(params: &Vec<u32>) -> (r: Result<Vec<Real>, ConstructionError>)
    ensures
        match r {
            Ok(v) => decoded(params@) == Ok::<Seq<Real>, ConstructionError>(v@) && v.len()
                == params.len(),
            Err(e) => decoded(params@) == Err::<Seq<Real>, ConstructionError>(e),
        },
{
    let mut out: Vec<Real> = Vec::new();
    let mut i: usize = 0;
    assert(params@.take(0) =~= Seq::<u32>::empty());
    while i < params.len()
        invariant
            i <= params.len(),
            decoded(params@.take(i as int)) == Ok::<Seq<Real>, ConstructionError>(out@),
        decreases params.len() - i,
    {
        let ghost prefix = params@.take(i as int + 1);
        assert(prefix.drop_last() =~= params@.take(i as int));
        assert(prefix.last() == params@[i as int]);
        match Real::from_f32_bits(params[i]) {
            Err(e) => {
                proof {
                    lemma_decoded_prefix_err(params@, i as int + 1);
                }
                return Err(e);
            },
            Ok(r) => {
                out.push(r);
            },
        }
        i = i + 1;
    }
    assert(params@.take(params.len() as int) =~= params@);
    proof {
        lemma_decoded_len(params@);
    }
    Ok(out)
}

fn element_of_primitive(k: PrimitiveKind, v: &Vec<Real>) -> (e: Element)
    requires
        v.len() == primitive_arity(k),
    ensures
        e == primitive_element(k, v@),
{
    match k {
        PrimitiveKind::Cube => Element::Cube(Vec3 { x: v[0], y: v[1], z: v[2] }),
        PrimitiveKind::Cylinder(c) => Element::Cylinder(v[0], size_from(c, v[1])),
        PrimitiveKind::Sphere(c) => Element::Sphere(size_from(c, v[0])),
    }
}

fn size_from(c: CircleKind, r: Real) -> (s: Size)
    ensures
        s == size_of(c, r),
{
    match c {
        CircleKind::Radius => Size::Radius(r),
        CircleKind::Diameter => Size::Diameter(r),
    }
}

fn element_of_transform(k: TransformKind, v: &Vec<Real>) -> (e: Element)
    requires
        v.len() == transform_arity(k),
    ensures
        e == transform_element(k, v@),
{
    match k {
        TransformKind::Translate => Element::Translate(Vec3 { x: v[0], y: v[1], z: v[2] }),
        TransformKind::Rotate => Element::Rotate(v[0], Vec3 { x: v[1], y: v[2], z: v[3] }),
        TransformKind::Scale => Element::Scale(Vec3 { x: v[0], y: v[1], z: v[2] }),
        TransformKind::Mirror => Element::Mirror(Vec3 { x: v[0], y: v[1], z: v[2] }),
    }
}

fn element_of_group(k: GroupKind) -> (e: Element)
    ensures
        e == group_element(k),
{
    match k {
        GroupKind::Union => Element::Union,
        GroupKind::Difference => Element::Difference,
        GroupKind::Intersection => Element::Intersection,
        GroupKind::Hull => Element::Hull,
        GroupKind::Group => Element::Group,
    }
}

/// A primitive shape from parameters given as single-precision bit patterns
/// (`f32::to_bits`).
pub fn make_primitive(kind: PrimitiveKind, params: &Vec<u32>) -> (r: Result<Node, ConstructionError>)
    ensures
        outcome_is(r, primitive_result(kind, params@)),
{
    if params.len() != primitive_kind_arity(kind) {
        return Err(ConstructionError::WrongArity);
    }
    match decode_params(params) {
        Err(e) => Err(e),
        Ok(v) => {
            let n = Node { element: element_of_primitive(kind, &v), children: Vec::new() };
            proof {
                lemma_view(&n);
                assert(n@.children =~= Seq::<Tree>::empty());
            }
            Ok(n)
        },
    }
}

fn primitive_kind_arity(k: PrimitiveKind) -> (n: usize)
    ensures
        n == primitive_arity(k),
{
    match k {
        PrimitiveKind::Cube => 3,
        PrimitiveKind::Cylinder(_) => 2,
        PrimitiveKind::Sphere(_) => 1,
    }
}

fn transform_kind_arity(k: TransformKind) -> (n: usize)
    ensures
        n == transform_arity(k),
{
    match k {
        TransformKind::Rotate => 4,
        _ => 3,
    }
}

/// A transform that does not hold its child yet; `add_child` gives it one.
pub fn make_bare_transform(kind: TransformKind, params: &Vec<u32>) -> (r: Result<Node, ConstructionError>)
    ensures
        outcome_is(r, bare_transform_result(kind, params@)),
{
    if params.len() != transform_kind_arity(kind) {
        return Err(ConstructionError::WrongArity);
    }
    match decode_params(params) {
        Err(e) => Err(e),
        Ok(v) => {
            if kind == TransformKind::Rotate && (v[0].micros < -MAX_ANGLE_MICROS || v[0].micros
                > MAX_ANGLE_MICROS) {
                return Err(ConstructionError::AngleOutOfRange);
            }
            let n = Node { element: element_of_transform(kind, &v), children: Vec::new() };
            proof {
                lemma_view(&n);
                assert(n@.children =~= Seq::<Tree>::empty());
            }
            Ok(n)
        },
    }
}

/// A transform wrapping `child`, which moves into it.
pub fn make_transform(kind: TransformKind, params: &Vec<u32>, child: Node) -> (r: Result<Node, ConstructionError>)
    ensures
        outcome_is(r, transform_result(kind, params@, child@)),
{
    match make_bare_transform(kind, params) {
        Err(e) => Err(e),
        Ok(mut n) => {
            let added = n.add_child(child);
            assert(added is Ok);
            Ok(n)
        },
    }
}

/// An empty boolean operator or grouping node.
pub fn make_group(kind: GroupKind) -> (r: Node)
    ensures
        r@ == leaf(group_element(kind)),
{
    let n = Node { element: element_of_group(kind), children: Vec::new() };
    proof {
        lemma_view(&n);
        assert(n@.children =~= Seq::<Tree>::empty());
    }
    n
}

impl Node {
    /// The element, without the children.
    pub fn element(&self) -> (e: Element)
        ensures
            e == self@.element,
    {
        proof {
            lemma_view(self);
        }
        self.element
    }

    /// The number of children, which never exceeds what the element allows.
    pub fn child_count(&self) -> (n: usize)
        ensures
            n == self@.children.len(),
            arity_ok(self@.element, self@.children.len()),
    {
        proof {
            use_type_invariant(self);
            lemma_view(self);
        }
        self.children.len()
    }

    pub fn child(&self, i: usize) -> (c: &Node)
        requires
            i < self@.children.len(),
        ensures
            c@ == self@.children[i as int],
    {
        proof {
            lemma_view(self);
        }
        &self.children[i]
    }

    /// Appends `child` after the existing children. A primitive takes no
    /// child, and a transform takes only one; on refusal the node is unchanged.
    pub fn add_child(&mut self, child: Node) -> (r: Result<(), ConstructionError>)
        ensures
            r is Ok <==> accepts_child(old(self)@),
            r is Ok ==> final(self)@ == with_child(old(self)@, child@),
            r matches Err(e) ==> e == refusal(old(self)@) && final(self)@ == old(self)@,
    {
        proof {
            lemma_view(self);
        }
        if self.is_primitive_node() {
            return Err(ConstructionError::PrimitiveTakesNoChildren);
        }
        if self.is_transform_node() && self.children.len() != 0 {
            return Err(ConstructionError::TransformAlreadyHasChild);
        }
        let ghost before = self@;
        let ghost old_children = self.children@;
        let mut children: Vec<Node> = Vec::new();
        std::mem::swap(&mut children, &mut self.children);
        children.push(child);
        std::mem::swap(&mut children, &mut self.children);
        proof {
            lemma_view(self);
            assert forall|j: int| 0 <= j < self@.children.len() implies self@.children[j]
                == before.children.push(child@)[j] by {
                if j < old_children.len() {
                    assert(self.children[j] == old_children[j]);
                    assert(before.children[j] == old_children[j]@);
                }
            }
            assert(self@.children =~= before.children.push(child@));
        }
        Ok(())
    }

    fn is_primitive_node(&self) -> (b: bool)
        ensures
            b == is_primitive(self.element),
    {
        match self.element {
            Element::Cube(_) | Element::Cylinder(_, _) | Element::Sphere(_) => true,
            _ => false,
        }
    }

    fn is_transform_node(&self) -> (b: bool)
        ensures
            b == is_transform(self.element),
    {
        match self.element {
            Element::Translate(_) | Element::Rotate(_, _) | Element::Scale(_) | Element::Mirror(
                _,
            ) => true,
            _ => false,
        }
    }

    /// A deep copy that shares nothing with this node.
    pub fn clone_subtree(&self) -> (r: Node)
        ensures
            r@ == self@,
        decreases self,
    {
        proof {
            use_type_invariant(self);
        }
        let mut children: Vec<Node> = Vec::new();
        let mut i: usize = 0;
        while i < self.children.len()
            invariant
                i <= self.children.len(),
                children.len() == i,
                forall|j: int| 0 <= j < i ==> #[trigger] children[j]@ == self.children[j]@,
            decreases self.children.len() - i,
        {
            children.push(self.children[i].clone_subtree());
            i = i + 1;
        }
        let r = Node { element: self.element, children };
        proof {
            lemma_view(&r);
            lemma_view(self);
            assert forall|j: int| 0 <= j < r@.children.len() implies r@.children[j]
                == self@.children[j] by {
                assert(r.children[j]@ == self.children[j]@);
            }
            assert(r@.children =~= self@.children);
        }
        r
    }
}

impl Node {
    fn leaf_node(e: Element) -> (r: Node)
        ensures
            r@ == leaf(e),
    {
        let n = Node { element: e, children: Vec::new() };
        proof {
            lemma_view(&n);
            assert(n@.children =~= Seq::<Tree>::empty());
        }
        n
    }

    fn wrap(e: Element, child: Node) -> (r: Node)
        requires
            is_transform(e),
        ensures
            r@ == with_child(leaf(e), child@),
    {
        let mut children: Vec<Node> = Vec::new();
        children.push(child);
        let n = Node { element: e, children };
        proof {
            lemma_view(&n);
            assert(n@.children =~= seq![child@]);
            assert(leaf(e).children.push(child@) =~= seq![child@]);
        }
        n
    }

    /// A box with one corner at the origin.
    pub fn cube(size: Vec3) -> (r: Node)
        ensures
            r@ == leaf(Element::Cube(size)),
    {
        Node::leaf_node(Element::Cube(size))
    }

    pub fn cylinder(height: Real, size: Size) -> (r: Node)
        ensures
            r@ == leaf(Element::Cylinder(height, size)),
    {
        Node::leaf_node(Element::Cylinder(height, size))
    }

    pub fn sphere(size: Size) -> (r: Node)
        ensures
            r@ == leaf(Element::Sphere(size)),
    {
        Node::leaf_node(Element::Sphere(size))
    }

    pub fn translate(offset: Vec3, child: Node) -> (r: Node)
        ensures
            r@ == with_child(leaf(Element::Translate(offset)), child@),
    {
        Node::wrap(Element::Translate(offset), child)
    }

    pub fn scale(factors: Vec3, child: Node) -> (r: Node)
        ensures
            r@ == with_child(leaf(Element::Scale(factors)), child@),
    {
        Node::wrap(Element::Scale(factors), child)
    }

    pub fn mirror(normal: Vec3, child: Node) -> (r: Node)
        ensures
            r@ == with_child(leaf(Element::Mirror(normal)), child@),
    {
        Node::wrap(Element::Mirror(normal), child)
    }

    /// Rotation by an angle in degrees, which must lie in [-360, 360].
    pub fn rotate(degrees: Real, axis: Vec3, child: Node) -> (r: Result<Node, ConstructionError>)
        ensures
            r is Ok <==> angle_ok(degrees),
            r matches Ok(n) ==> n@ == with_child(leaf(Element::Rotate(degrees, axis)), child@),
            r matches Err(e) ==> e == ConstructionError::AngleOutOfRange,
    {
        if degrees.micros < -MAX_ANGLE_MICROS || degrees.micros > MAX_ANGLE_MICROS {
            return Err(ConstructionError::AngleOutOfRange);
        }
        Ok(Node::wrap(Element::Rotate(degrees, axis), child))
    }

    /// A boolean operator or group over two trees, `first` before `second`.
    pub fn combine(kind: GroupKind, first: Node, second: Node) -> (r: Node)
        ensures
            r@ == (Tree { element: group_element(kind), children: seq![first@, second@] }),
    {
        let mut children: Vec<Node> = Vec::new();
        children.push(first);
        children.push(second);
        let n = Node { element: element_of_group(kind), children };
        proof {
            lemma_view(&n);
            assert(n.children[0] == first);
            assert(n.children[1] == second);
            assert(n@.children[0] == first@);
            assert(n@.children[1] == second@);
            assert(n@.children =~= seq![first@, second@]);
        }
        n
    }

    /// A boolean operator or group over the given trees, in their order.
    pub fn group_of(kind: GroupKind, children: Vec<Node>) -> (r: Node)
        ensures
            r@.element == group_element(kind),
            r@.children.len() == children.len(),
            forall|i: int| 0 <= i < children.len() ==> r@.children[i] == #[trigger] children[i]@,
    {
        let n = Node { element: element_of_group(kind), children };
        proof {
            lemma_view(&n);
        }
        n
    }
}

} // verus!
