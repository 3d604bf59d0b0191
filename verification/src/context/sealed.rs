use vstd::prelude::*;

use super::{AttributeValue, Node};

verus! {

/// Only [`Node`] and [`AttributeValue`] are contexts.
pub trait Sealed {}

impl Sealed for Node {}

impl Sealed for AttributeValue {}

} // verus!
