//! What an identifier presents: whom an arrival claims to be from, and what
//! was found beside that.

use crate::text;
use vstd::prelude::*;

verus! {

/// A mechanism by which identity is claimed.
#[derive(Clone, Debug, PartialEq, Eq)]
pub struct Mechanism {
    name: String,
}

impl View for Mechanism {
    type V = Seq<char>;

    closed spec fn view(&self) -> Seq<char> {
        self.name@
    }
}

impl Mechanism {
    /// The mechanism of this name.
    pub fn new(name: &str) -> (mechanism: Self)
        ensures
            mechanism@ == name@,
    {
        Mechanism { name: name.to_owned() }
    }

    /// What the mechanism is called.
    pub fn name(&self) -> (name: &str)
        ensures
            name@ == self@,
    {
        self.name.as_str()
    }
}

/// How far a claim is established.
#[derive(Clone, Copy, Debug, PartialEq, Eq, Structural)]
pub enum Established {
    /// Passed on as it was offered, not verified.
    Passed,
}

/// Where in an arrival a claim was found.
#[derive(Clone, Copy, Debug, PartialEq, Eq, Structural)]
pub enum Layer {
    /// In what carried the arrival.
    Transport,
}

/// What is written beside a claim, each entry a name and a value.
pub open spec fn entries(list: Seq<(String, String)>) -> Seq<(Seq<char>, Seq<char>)> {
    list.map_values(|entry: (String, String)| (entry.0@, entry.1@))
}

/// The value of the first of these entries that has this name.
pub open spec fn entry_of(
    list: Seq<(Seq<char>, Seq<char>)>,
    name: Seq<char>,
) -> Option<Seq<char>>
    decreases list.len(),
{
    if list.len() == 0 {
        None
    } else if list[0].0 == name {
        Some(list[0].1)
    } else {
        entry_of(list.drop_first(), name)
    }
}

/// Each entry of a list is taken for the texts it holds, in order.
pub proof fn each_entry_is_taken_for_its_texts(list: Seq<(String, String)>)
    ensures
        entries(list).len() == list.len(),
        forall|i: int|
            0 <= i < list.len() ==> (#[trigger] entries(list)[i]).0 == list[i].0@ && entries(
                list,
            )[i].1 == list[i].1@,
{
}

/// The value found under a name is that of the first entry with the name,
/// however many there are, and none is found only where none has the name.
pub proof fn the_first_entry_of_a_name_is_found(
    list: Seq<(Seq<char>, Seq<char>)>,
    at: int,
    name: Seq<char>,
)
    requires
        0 <= at <= list.len(),
        forall|i: int| 0 <= i < at ==> (#[trigger] list[i]).0 != name,
    ensures
        at < list.len() && list[at].0 == name ==> entry_of(list, name) == Some(list[at].1),
        at == list.len() ==> entry_of(list, name) is None,
    decreases list.len(),
{
    if at > 0 {
        let others = list.drop_first();
        assert forall|i: int| 0 <= i < at - 1 implies (#[trigger] others[i]).0 != name by {
            assert(others[i] == list[i + 1]);
        }
        assert(list[0].0 != name);
        the_first_entry_of_a_name_is_found(others, at - 1, name);
    }
}

/// What a claim says.
#[verifier::ext_equal]
pub struct PresentedView {
    pub mechanism: Seq<char>,
    pub value: Seq<char>,
    pub established: Established,
    pub evidence: Seq<(Seq<char>, Seq<char>)>,
    pub proofs: Seq<(Seq<char>, Seq<char>)>,
}

/// How far a claim is established, in a word.
pub open spec fn word_for(established: Established) -> Seq<char> {
    match established {
        Established::Passed => "passed"@,
    }
}

/// An entry in print: its name, an equals sign and its value.
pub open spec fn printed_entry(entry: (Seq<char>, Seq<char>)) -> Seq<char> {
    entry.0 + "="@ + entry.1
}

/// The parts of a claim in print: its mechanism, its value, how far it is
/// established and what was found beside it, but not what proves it.
pub open spec fn printed_parts(claim: PresentedView) -> Seq<Seq<char>> {
    seq![claim.mechanism, claim.value, word_for(claim.established)] + claim.evidence.map_values(
        |entry: (Seq<char>, Seq<char>)| printed_entry(entry),
    )
}

/// A claim in print: its parts, with commas between them.
pub open spec fn printed_form(claim: PresentedView) -> Seq<char> {
    text::joined(printed_parts(claim), ", "@)
}

/// A claim. What proves it is for the next gate alone, so `printed`, which
/// leaves that out, is the one way to print a claim.
pub struct Presented {
    /// The mechanism it is made under.
    pub mechanism: Mechanism,
    /// Whom it is about.
    pub value: String,
    /// How far it is established.
    pub established: Established,
    /// What was found beside it.
    pub evidence: Vec<(String, String)>,
    /// What proves it.
    pub proofs: Vec<(String, String)>,
}

impl View for Presented {
    type V = PresentedView;

    open spec fn view(&self) -> PresentedView {
        PresentedView {
            mechanism: self.mechanism@,
            value: self.value@,
            established: self.established,
            evidence: entries(self.evidence@),
            proofs: entries(self.proofs@),
        }
    }
}

/// A claim says what its fields hold.
pub proof fn a_claim_says_what_it_holds(claim: Presented)
    ensures
        claim@.mechanism == claim.mechanism@,
        claim@.value == claim.value@,
        claim@.established == claim.established,
        claim@.evidence == entries(claim.evidence@),
        claim@.proofs == entries(claim.proofs@),
{
}

/// A claim with nothing beside it is printed as its mechanism, its value and
/// how far it is established.
pub proof fn a_claim_alone_in_print(claim: PresentedView)
    requires
        claim.evidence.len() == 0,
    ensures
        printed_form(claim) == claim.mechanism + ", "@ + claim.value + ", "@ + "passed"@,
{
    let parts = printed_parts(claim);
    assert(parts =~= seq![claim.mechanism, claim.value, "passed"@]);
    assert(parts.drop_last() =~= seq![claim.mechanism, claim.value]);
    assert(parts.drop_last().drop_last() =~= seq![claim.mechanism]);
    reveal_with_fuel(text::joined, 4);
}

/// One entry more beside a claim is printed behind all the others, by its
/// name and its value.
pub proof fn one_entry_more_in_print(claim: PresentedView, name: Seq<char>, value: Seq<char>)
    ensures
        printed_form((PresentedView { evidence: claim.evidence.push((name, value)), ..claim }))
            == printed_form(claim) + ", "@ + (name + "="@ + value),
{
    let more = PresentedView { evidence: claim.evidence.push((name, value)), ..claim };
    assert(printed_parts(more).drop_last() =~= printed_parts(claim));
}

impl Presented {
    /// A claim passed on as it was offered, with nothing beside it.
    pub fn passed(mechanism: Mechanism, value: String) -> (claim: Self)
        ensures
            claim@ == (PresentedView {
                mechanism: mechanism@,
                value: value@,
                established: Established::Passed,
                evidence: Seq::empty(),
                proofs: Seq::empty(),
            }),
    {
        let claim = Presented {
            mechanism,
            value,
            established: Established::Passed,
            evidence: Vec::new(),
            proofs: Vec::new(),
        };
        assert(entries(claim.evidence@) =~= Seq::empty());
        claim
    }

    /// The claim with one entry more beside it.
    pub fn with_evidence(self, name: &str, value: &str) -> (claim: Self)
        ensures
            claim@ == (PresentedView { evidence: self@.evidence.push((name@, value@)), ..self@ }),
    {
        let mut claim = self;
        let ghost before = claim.evidence@;
        claim.evidence.push((name.to_owned(), value.to_owned()));
        assert(entries(claim.evidence@) =~= entries(before).push((name@, value@)));
        claim
    }

    /// The claim with one entry more that proves it.
    pub fn with_proof(self, name: &str, value: &str) -> (claim: Self)
        ensures
            claim@ == (PresentedView { proofs: self@.proofs.push((name@, value@)), ..self@ }),
    {
        let mut claim = self;
        let ghost before = claim.proofs@;
        claim.proofs.push((name.to_owned(), value.to_owned()));
        assert(entries(claim.proofs@) =~= entries(before).push((name@, value@)));
        claim
    }

    /// What proves the claim under this name.
    pub fn proof_of(&self, name: &str) -> (value: Option<&str>)
        ensures
            entry_of(self@.proofs, name@) == match value {
                Some(value) => Some(value@),
                None => None,
            },
            match value {
                Some(value) => exists|at: int|
                    {
                        &&& 0 <= at < self.proofs@.len()
                        &&& (#[trigger] self.proofs@[at]).0@ == name@
                        &&& self.proofs@[at].1@ == value@
                        &&& forall|i: int| 0 <= i < at ==> (#[trigger] self.proofs@[i]).0@ != name@
                    },
                None => forall|i: int|
                    0 <= i < self.proofs@.len() ==> (#[trigger] self.proofs@[i]).0@ != name@,
            },
    {
        let mut at: usize = 0;
        assert(self@.proofs.skip(0) =~= self@.proofs);
        while at < self.proofs.len()
            invariant
                at <= self.proofs.len() == self@.proofs.len(),
                forall|i: int| 0 <= i < at ==> (#[trigger] self.proofs@[i]).0@ != name@,
                entry_of(self@.proofs, name@) == entry_of(self@.proofs.skip(at as int), name@),
            decreases self.proofs.len() - at,
        {
            assert(self@.proofs.skip(at as int).drop_first() =~= self@.proofs.skip(at + 1));
            let entry = &self.proofs[at];
            if text::same(entry.0.as_str(), name) {
                return Some(entry.1.as_str());
            }
            at = at + 1;
        }
        None
    }

    /// The claim in print: all of it but what proves it.
    pub fn printed(&self) -> (printed: String)
        ensures
            printed@ == printed_form(self@),
    {
        let mut parts: Vec<String> = Vec::new();
        parts.push(self.mechanism.name().to_owned());
        parts.push(self.value.as_str().to_owned());
        parts.push(
            match self.established {
                Established::Passed => "passed".to_owned(),
            },
        );
        let mut at: usize = 0;
        assert(text::texts(parts@) =~= printed_parts(self@).take(3));
        while at < self.evidence.len()
            invariant
                at <= self.evidence.len() == self@.evidence.len(),
                text::texts(parts@) == printed_parts(self@).take(3 + at),
            decreases self.evidence.len() - at,
        {
            let ghost before = parts@;
            let entry = &self.evidence[at];
            let mut part = entry.0.as_str().to_owned();
            part.append("=");
            part.append(entry.1.as_str());
            assert(part@ == printed_parts(self@)[3 + at]);
            parts.push(part);
            assert(text::texts(parts@) =~= text::texts(before).push(part@));
            assert(text::texts(parts@) =~= printed_parts(self@).take(3 + at + 1));
            at = at + 1;
        }
        assert(printed_parts(self@).take(3 + at) =~= printed_parts(self@));
        text::join(&parts, ", ")
    }

    /// Where the claim was found.
    pub fn layer(&self) -> (layer: Layer)
        ensures
            layer == Layer::Transport,
    {
        Layer::Transport
    }
}

} // verus!
