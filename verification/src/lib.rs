//! A fixed-width bitset engine for evaluating boolean rule sets over event
//! predicates.
//!
//! An event is a row of boolean facts ("predicates"), one per index in a
//! predicate space. A term demands some predicates true and forbids others;
//! a rule is a disjunction of terms; a rule set is a conjunction of rules.
//! The engine offers two provably equivalent evaluation strategies: an
//! element-wise scan of the boolean row, and a bitwise comparison against
//! precomputed masks over the row's bitset encoding.

pub mod bits;
pub mod eval;
pub mod events;
pub mod model;
pub mod policy;
pub mod space;
pub mod synth;
