// Derivation of partial companion records: field classification, type rewriting,
// the per-field rules of the completeness predicate, the fallible conversion and
// the merge operation, and a value model on which those operations are run and
// their laws proved.
pub mod schema;
pub mod classify;
pub mod derive;
pub mod instance;
pub mod laws;
