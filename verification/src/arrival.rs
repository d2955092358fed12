//! What is known of a stream as it arrives, as far as this technology reads
//! it.

use crate::text;
use vstd::prelude::*;

verus! {

/// The property that carries the `Authorization` header of a request.
pub const HTTP_AUTHORIZATION: &'static str = "http.header.authorization";

/// How a stream came to arrive.
#[derive(Clone, Copy, Debug, PartialEq, Eq, Structural)]
pub enum Arriving {
    /// A partner pushed it.
    Pushed,
    /// It was fetched as scheduled.
    Scheduled,
}

/// A stream that arrives: how, and with which properties.
#[derive(Clone, Copy, Debug)]
pub struct StreamArrival<'a> {
    /// How it came.
    pub arriving: Arriving,
    /// The properties, each a name and a value.
    pub facts: &'a [(String, String)],
}

/// The value of the first of these properties that has this name.
pub open spec fn property_of(facts: Seq<(String, String)>, name: Seq<char>) -> Option<Seq<char>>
    decreases facts.len(),
{
    if facts.len() == 0 {
        None
    } else if facts[0].0@ == name {
        Some(facts[0].1@)
    } else {
        property_of(facts.drop_first(), name)
    }
}

/// The property that is found is the first of its name, however many there
/// are, and none is found only where none has the name.
pub proof fn the_first_property_of_a_name_is_found(
    facts: Seq<(String, String)>,
    at: int,
    name: Seq<char>,
)
    requires
        0 <= at <= facts.len(),
        forall|i: int| 0 <= i < at ==> (#[trigger] facts[i]).0@ != name,
    ensures
        at < facts.len() && facts[at].0@ == name ==> property_of(facts, name) == Some(
            facts[at].1@,
        ),
        at == facts.len() ==> property_of(facts, name) is None,
    decreases facts.len(),
{
    if at > 0 {
        let others = facts.drop_first();
        assert forall|i: int| 0 <= i < at - 1 implies (#[trigger] others[i]).0@ != name by {
            assert(others[i] == facts[i + 1]);
        }
        assert(facts[0].0@ != name);
        the_first_property_of_a_name_is_found(others, at - 1, name);
    }
}

/// A property that is found is one of the list, the first of its name; where
/// none is found, no entry of the list has the name.
pub proof fn a_property_that_is_found_is_there(facts: Seq<(String, String)>, name: Seq<char>)
    ensures
        match property_of(facts, name) {
            Some(value) => exists|at: int|
                {
                    &&& 0 <= at < facts.len()
                    &&& (#[trigger] facts[at]).0@ == name
                    &&& facts[at].1@ == value
                    &&& forall|i: int| 0 <= i < at ==> (#[trigger] facts[i]).0@ != name
                },
            None => forall|i: int| 0 <= i < facts.len() ==> (#[trigger] facts[i]).0@ != name,
        },
    decreases facts.len(),
{
    if facts.len() > 0 && facts[0].0@ != name {
        let others = facts.drop_first();
        a_property_that_is_found_is_there(others, name);
        match property_of(others, name) {
            Some(value) => {
                let at = choose|at: int|
                    {
                        &&& 0 <= at < others.len()
                        &&& (#[trigger] others[at]).0@ == name
                        &&& others[at].1@ == value
                        &&& forall|i: int| 0 <= i < at ==> (#[trigger] others[i]).0@ != name
                    };
                assert(facts[at + 1] == others[at]);
                assert forall|i: int| 0 <= i < at + 1 implies (#[trigger] facts[i]).0@ != name by {
                    if i > 0 {
                        assert(others[i - 1] == facts[i]);
                    }
                }
            },
            None => {
                assert forall|i: int| 0 <= i < facts.len() implies (#[trigger] facts[i]).0@
                    != name by {
                    if i > 0 {
                        assert(others[i - 1] == facts[i]);
                    }
                }
            },
        }
    } else if facts.len() > 0 {
        assert(facts[0].0@ == name);
    }
}

impl<'a> StreamArrival<'a> {
    /// A stream that arrives this way with these properties.
    pub fn new(arriving: Arriving, facts: &'a [(String, String)]) -> (arrival: Self)
        ensures
            arrival.arriving == arriving,
            arrival.facts == facts,
    {
        StreamArrival { arriving, facts }
    }

    /// How the stream came.
    pub fn arriving(&self) -> (arriving: Arriving)
        ensures
            arriving == self.arriving,
    {
        self.arriving
    }

    /// The value of the first property of this name.
    pub fn property(&self, name: &str) -> (value: Option<&'a str>)
        ensures
            property_of(self.facts@, name@) == match value {
                Some(value) => Some(value@),
                None => None,
            },
            match value {
                Some(value) => exists|at: int|
                    {
                        &&& 0 <= at < self.facts@.len()
                        &&& (#[trigger] self.facts@[at]).0@ == name@
                        &&& self.facts@[at].1@ == value@
                        &&& forall|i: int| 0 <= i < at ==> (#[trigger] self.facts@[i]).0@ != name@
                    },
                None => forall|i: int|
                    0 <= i < self.facts@.len() ==> (#[trigger] self.facts@[i]).0@ != name@,
            },
    {
        let mut at: usize = 0;
        assert(self.facts@.skip(0) =~= self.facts@);
        while at < self.facts.len()
            invariant
                at <= self.facts.len(),
                forall|i: int| 0 <= i < at ==> (#[trigger] self.facts@[i]).0@ != name@,
                property_of(self.facts@, name@) == property_of(self.facts@.skip(at as int), name@),
            decreases self.facts.len() - at,
        {
            assert(self.facts@.skip(at as int).drop_first() =~= self.facts@.skip(at + 1));
            let fact = &self.facts[at];
            if text::same(fact.0.as_str(), name) {
                return Some(fact.1.as_str());
            }
            at = at + 1;
        }
        None
    }
}

} // verus!
