//! Layout vocabulary shared by containers.
use vstd::prelude::*;

verus! {

/// Where a child sits along the cross axis.
#[derive(Debug, Clone, Copy, PartialEq, Eq, Structural)]
pub enum Alignment {
    Start,
    Center,
    End,
    Stretch,
}

/// The direction a container lays its children out in.
#[derive(Debug, Clone, Copy, PartialEq, Eq, Structural)]
pub enum Axis {
    Horizontal,
    Vertical,
}

} // verus!
