//! The unified architecture that replaces the Node.js integrations.

use vstd::prelude::*;

verus! {

pub struct ModernArchitecture {
    pub version: &'static str,
}

impl ModernArchitecture {
    pub fn new() -> (modern: Self)
        ensures
            modern.version@ == "unified-v1"@,
    {
        ModernArchitecture { version: "unified-v1" }
    }

    pub fn get_version(&self) -> (version: &'static str)
        ensures
            version@ == self.version@,
    {
        self.version
    }
}

impl Default for ModernArchitecture {
    fn default() -> (modern: Self)
        ensures
            modern.version@ == "unified-v1"@,
    {
        ModernArchitecture::new()
    }
}

} // verus!
