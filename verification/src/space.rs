//! The predicate space: a one-time, immutable assignment of a unique,
//! stable, zero-based bit index to each named predicate. Built once at
//! configuration time; lookups are total and an unknown name is reported,
//! never guessed at.

use vstd::prelude::*;

use crate::bits::MASK_WIDTH;

verus! {

/// Construction-time failure: the schema asked for more predicates than the
/// state word has bits. Fatal; no space is built.
#[derive(Clone, Debug)]
pub struct ConfigurationError {
    /// How many predicates the schema asked for.
    pub count: usize,
}

/// Whether some name in `names` equals `name`.
pub open spec fn resolves(names: Seq<Seq<char>>, name: Seq<char>) -> bool {
    exists|i: int| 0 <= i < names.len() && names[i] == name
}

/// An immutable name-to-index mapping for at most `MASK_WIDTH` predicates.
/// Predicate `i` is the `i`-th name given at construction.
#[derive(Debug)]
pub struct PredicateSpace {
    names: Vec<String>,
}

impl PredicateSpace {
    /// The predicate names in index order.
    pub closed spec fn spec_names(self) -> Seq<Seq<char>> {
        self.names@.map(|i: int, s: String| s@)
    }

    /// The space fits the state word.
    pub open spec fn wf(self) -> bool {
        self.spec_names().len() <= MASK_WIDTH
    }

    /// Compiles a schema, one predicate name per bit index, in order. Fails
    /// exactly when the predicate count exceeds the bitset width; nothing is
    /// silently truncated.
    pub fn new(names: Vec<String>) -> (r: Result<PredicateSpace, ConfigurationError>)
        ensures
            match r {
                Ok(space) => {
                    &&& names@.len() <= MASK_WIDTH
                    &&& space.wf()
                    &&& space.spec_names().len() == names@.len()
                    &&& forall|i: int|
                        0 <= i < names@.len() ==> space.spec_names()[i] == names@[i]@
                },
                Err(e) => names@.len() > MASK_WIDTH && e.count == names@.len(),
            },
    {
        if names.len() > MASK_WIDTH {
            Err(ConfigurationError { count: names.len() })
        } else {
            Ok(PredicateSpace { names })
        }
    }

    /// How many predicates the space holds.
    pub fn width(&self) -> (w: usize)
        ensures
            w == self.spec_names().len(),
    {
        self.names.len()
    }

    /// Total lookup of a predicate name: the lowest index bound to the name,
    /// or `None` when no index is.
    pub fn lookup(&self, name: &str) -> (r: Option<usize>)
        ensures
            match r {
                Some(i) => {
                    &&& 0 <= i < self.spec_names().len()
                    &&& self.spec_names()[i as int] == name@
                    &&& forall|j: int| 0 <= j < i ==> self.spec_names()[j] != name@
                },
                None => !resolves(self.spec_names(), name@),
            },
    {
        let owned: String = name.to_owned();
        let n = self.names.len();
        for i in 0..n
            invariant
                n == self.names@.len(),
                owned@ == name@,
                forall|j: int| 0 <= j < i ==> self.spec_names()[j] != name@,
        {
            if self.names[i] == owned {
                return Some(i);
            }
        }
        None
    }

    /// The single-bit mask of a predicate name: `1 << i` for the lowest
    /// index `i` bound to the name, or `None` when the name is unknown.
    pub fn pred_mask_by_name(&self, name: &str) -> (r: Option<u64>)
        requires
            self.wf(),
        ensures
            match r {
                Some(m) => exists|i: int|
                    {
                        &&& 0 <= i < self.spec_names().len()
                        &&& self.spec_names()[i] == name@
                        &&& forall|j: int| 0 <= j < i ==> self.spec_names()[j] != name@
                        &&& m == 1u64 << (i as u64)
                    },
                None => !resolves(self.spec_names(), name@),
            },
    {
        match self.lookup(name) {
            Some(i) => Some(1u64 << (i as u64)),
            None => None,
        }
    }
}

} // verus!
