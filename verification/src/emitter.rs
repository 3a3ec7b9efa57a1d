//! The compiler entry object and the function-body kinds it compiles.
use vstd::prelude::*;

verus! {

/// The compiler entry point. It carries one setting: whether the source
/// text is the escaped form produced for dynamic compilation (`eval`,
/// `Function`), in which lone surrogate units and U+FFFD are carried as
/// `\uXXXX` escape text rather than as raw units.
pub struct Emitter {
    pub source_encoded: bool,
}

impl Emitter {
    /// An emitter for static source text (well-formed UTF-8, no injected escapes).
    pub fn new() -> (e: Emitter)
        ensures
            !e.source_encoded,
    {
        Emitter { source_encoded: false }
    }

    /// The same emitter with the escaped-source setting set to `enable`.
    pub fn with_source_encoded(self, enable: bool) -> (e: Emitter)
        ensures
            e.source_encoded == enable,
    {
        let mut s = self;
        s.source_encoded = enable;
        s
    }
}

impl Default for Emitter {
    fn default() -> (e: Emitter)
        ensures
            !e.source_encoded,
    {
        Emitter::new()
    }
}

/// How a function body binds `this` and `super`, and whether it gets a
/// parameter prologue.
#[derive(Clone, Copy, PartialEq, Eq, Structural, Debug)]
pub enum FunctionBodyContext {
    /// An ordinary function: its own `this` and scope.
    Ordinary,
    /// An arrow function: `this` is taken lexically from outside.
    Arrow,
    /// A class element method: `super` and the home object follow class rules.
    ClassElement,
}

} // verus!
