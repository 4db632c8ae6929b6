//! Assembling compute shader source from parts.

use vstd::prelude::*;
use vstd::string::StringExecFns;

verus! {

/// A growing shader source: the concatenation of everything added.
pub struct ModuleSourceBuilder {
    pub source: String,
}

impl ModuleSourceBuilder {
    pub fn new() -> (r: ModuleSourceBuilder)
        ensures
            r.source@ == Seq::<char>::empty(),
    {
        ModuleSourceBuilder { source: String::new() }
    }

    /// Append a piece of source text.
    pub fn add(&mut self, source: &str)
        ensures
            final(self).source@ == old(self).source@ + source@,
    {
        self.source.append(source);
    }

    /// The assembled source.
    pub fn source(&self) -> (r: &str)
        ensures
            r@ == self.source@,
    {
        self.source.as_str()
    }
}

} // verus!
