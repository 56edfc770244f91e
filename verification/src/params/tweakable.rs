//! A parameter that can be set while the engine runs (the build with tuning support).
use vstd::prelude::*;

verus! {

pub struct Parameter {
    pub name: &'static str,
    pub min: i16,
    pub max: i16,
    pub default: i16,
    pub value: i16,
}

impl Parameter {
    /// Starts at the default.
    pub open spec fn wf(&self) -> bool {
        true
    }

    pub fn new(name: &'static str, min: i16, max: i16, default: i16) -> (r: Self)
        ensures
            r.name == name,
            r.min == min,
            r.max == max,
            r.default == default,
            r.value == default,
    {
        Parameter { name, min, max, default, value: default }
    }

    pub fn get(&self) -> (r: i16)
        ensures
            r == self.value,
    {
        self.value
    }

    /// Sets the value; the range is advisory and not enforced.
    pub fn set(&mut self, v: i16)
        ensures
            final(self).value == v,
            final(self).name == old(self).name,
            final(self).min == old(self).min,
            final(self).max == old(self).max,
            final(self).default == old(self).default,
    {
        self.value = v;
    }

    pub fn name(&self) -> (r: String)
        ensures
            r@ == self.name@,
    {
        self.name.to_owned()
    }
}

} // verus!
