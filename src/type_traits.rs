//! Smallest and largest values of small integer types, as traits.

use vstd::prelude::*;

verus! {

pub trait Min: Sized {
    fn min() -> Self;
}

pub trait Max: Sized {
    fn max() -> Self;
}

impl Min for u8 {
    fn min() -> u8 {
        u8::MIN
    }
}

impl Max for u8 {
    fn max() -> u8 {
        u8::MAX
    }
}

impl Min for i8 {
    fn min() -> i8 {
        i8::MIN
    }
}

impl Max for i8 {
    fn max() -> i8 {
        i8::MAX
    }
}

} // verus!
