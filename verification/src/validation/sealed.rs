use vstd::prelude::*;

use super::{Normal, Void};

verus! {

/// Only [`Normal`] and [`Void`] are element kinds.
pub trait Sealed {}

impl Sealed for Normal {}

impl Sealed for Void {}

} // verus!
