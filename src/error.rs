use vstd::prelude::*;

verus! {

/// Why a node could not be built or extended.
#[derive(Clone, Copy, Debug, PartialEq, Eq, Structural)]
pub enum ConstructionError {
    /// The parameter list has the wrong length for the node kind.
    WrongArity,
    /// A parameter is NaN or infinite.
    NonFinite,
    /// A parameter is finite but too large to hold in millionths in an `i64`.
    OutOfRange,
    /// A rotation angle lies outside [-360, 360] degrees.
    AngleOutOfRange,
    /// A primitive shape takes no children.
    PrimitiveTakesNoChildren,
    /// A transform already holds its one child.
    TransformAlreadyHasChild,
}

} // verus!
