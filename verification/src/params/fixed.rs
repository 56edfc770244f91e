//! A parameter fixed at its default (the build without tuning support).
use vstd::prelude::*;

verus! {

pub struct Parameter {
    value: i16,
}

impl Parameter {
    pub closed spec fn spec_value(&self) -> i16 {
        self.value
    }

    /// Keeps only the default; the name and range serve the tunable build.
    pub fn new(_name: &'static str, _min: i16, _max: i16, default: i16) -> (r: Self)
        ensures
            r.spec_value() == default,
    {
        Parameter { value: default }
    }

    pub fn get(&self) -> (r: i16)
        ensures
            r == self.spec_value(),
    {
        self.value
    }
}

} // verus!
