//! Search criteria.

use vstd::prelude::*;

verus! {

/// What a search is restricted to.
#[derive(Debug, Clone, Copy, PartialEq, Eq, Structural)]
pub enum ClassFilter {
    Album,
    Artist,
    Track,
    Any,
}

/// A property that a search can ask about.
#[derive(Debug, Clone, Copy, PartialEq, Eq, Structural)]
pub enum Property {
    /// `dc:title`
    Title,
    /// `upnp:album`
    Album,
    /// `upnp:artist`
    Artist,
    /// `upnp:genre`
    Genre,
}

/// A condition on objects.
#[derive(Debug)]
pub enum Predicate {
    /// The property contains the value; the role is that of the `@role` attribute.
    Contains { prop: Property, value: String, role: Option<String> },
    And(Vec<Predicate>),
    Or(Vec<Predicate>),
    /// A condition on the class, which the class filter already holds.
    DerivedFrom(String),
    True,
}

/// What is searched for.
#[derive(Debug)]
pub struct SearchExpr {
    pub class: ClassFilter,
    pub predicate: Predicate,
}

impl SearchExpr {
    /// Whether nothing is asked: the search then finds nothing.
    pub open spec fn asks_nothing(self) -> bool {
        self.predicate is True
    }

    pub fn is_no_op(&self) -> (r: bool)
        ensures
            r == self.asks_nothing(),
    {
        match self.predicate {
            Predicate::True => true,
            _ => false,
        }
    }
}

} // verus!
