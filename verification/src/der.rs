//! The DER a Kerberos token is, named the way RFC 4120 names it.
//!
//! An element is a tag, a length and that many octets of contents (X.690
//! section 8.1), under the rules DER adds to it: a length is definite and in
//! its shortest form, and so is an integer. Every tag here is one octet, and
//! every field of a Kerberos `SEQUENCE` is explicitly tagged and constructed,
//! so a context tag here is always the constructed one.

use crate::error;
use crate::error::IdentifyError;
use crate::text;
use vstd::prelude::*;
use vstd::slice::slice_subrange;
use vstd::utf8::*;

verus! {

/// The tag of an `INTEGER`.
pub const INTEGER: u8 = 0x02;

/// The tag of an `OCTET STRING`.
pub const OCTET_STRING: u8 = 0x04;

/// The tag of an `OBJECT IDENTIFIER`.
pub const OID: u8 = 0x06;

/// The tag of a `GeneralString`, which every Kerberos string is.
pub const GENERAL_STRING: u8 = 0x1b;

/// The tag of a `SEQUENCE`.
pub const SEQUENCE: u8 = 0x30;

/// The tag of `[n]`, context-specific and constructed.
#[verifier::allow_in_spec]
pub fn context(number: u8) -> u8
    returns
        0xa0u8 | number,
{
    0xa0u8 | number
}

/// The tag of `[APPLICATION n]`, constructed.
#[verifier::allow_in_spec]
pub fn application(number: u8) -> u8
    returns
        0x60u8 | number,
{
    0x60u8 | number
}

/// What an element says: its tag and its contents.
#[verifier::ext_equal]
pub struct Tlv {
    pub tag: u8,
    pub content: Seq<u8>,
}

/// The number that octets spell, the most significant first.
pub open spec fn number(octets: Seq<u8>) -> nat
    decreases octets.len(),
{
    if octets.len() == 0 {
        0
    } else {
        number(octets.drop_last()) * 256 + octets.last() as nat
    }
}

/// The element whose contents are the `length` octets from `start` on, with
/// what follows it.
pub open spec fn element_at(bytes: Seq<u8>, start: int, length: nat) -> Result<
    (Tlv, Seq<u8>),
    Seq<char>,
> {
    if bytes.len() < start + length {
        Err("an element ends inside its contents"@)
    } else {
        Ok(
            (
                Tlv { tag: bytes[0], content: bytes.subrange(start, start + length) },
                bytes.skip(start + length),
            ),
        )
    }
}

/// The element that bytes start with and what follows it, or why they start
/// with none.
pub open spec fn first_element(bytes: Seq<u8>) -> Result<(Tlv, Seq<u8>), Seq<char>> {
    if bytes.len() == 0 {
        Err("an element ends before its tag"@)
    } else if bytes[0] % 32 == 31 {
        Err("an element has a tag of more than one octet"@)
    } else if bytes.len() == 1 {
        Err("an element ends before its length"@)
    } else if bytes[1] < 128 {
        element_at(bytes, 2, bytes[1] as nat)
    } else if bytes[1] == 128 {
        Err("an element has no definite length"@)
    } else {
        let start = 2 + (bytes[1] - 128);
        let length = number(bytes.subrange(2, start));
        if bytes.len() < start {
            Err("an element ends inside its length"@)
        } else if bytes[2] == 0 || length < 128 {
            Err("an element has a length that is not in its shortest form"@)
        } else {
            element_at(bytes, start, length)
        }
    }
}

/// The elements that bytes are, one after another to the last octet.
pub open spec fn elements(bytes: Seq<u8>) -> Result<Seq<Tlv>, Seq<char>>
    decreases bytes.len(),
{
    if bytes.len() == 0 {
        Ok(Seq::empty())
    } else {
        match first_element(bytes) {
            Err(why) => Err(why),
            Ok((first, rest)) => match elements(rest) {
                Err(why) => Err(why),
                Ok(others) => Ok(seq![first] + others),
            },
        }
    }
}

/// The element that bytes start with, where it has this tag.
pub open spec fn expected(bytes: Seq<u8>, tag: u8, what: Seq<char>) -> Result<Tlv, Seq<char>> {
    match first_element(bytes) {
        Err(why) => Err(why),
        Ok((element, _)) => if element.tag == tag {
            Ok(element)
        } else {
            Err("the tag "@ + text::hexadecimal(element.tag) + " is not that of "@ + what)
        },
    }
}

/// The first of these elements with this tag.
pub open spec fn tagged(elements: Seq<Tlv>, tag: u8) -> Option<Tlv>
    decreases elements.len(),
{
    if elements.len() == 0 {
        None
    } else if elements[0].tag == tag {
        Some(elements[0])
    } else {
        tagged(elements.drop_first(), tag)
    }
}

/// The element inside the field `[number]` of a `SEQUENCE` with these
/// contents.
#[verifier::opaque]
pub open spec fn field_of(content: Seq<u8>, number: u8) -> Result<Option<Tlv>, Seq<char>> {
    match elements(content) {
        Err(why) => Err(why),
        Ok(fields) => match tagged(fields, context(number)) {
            None => Ok(None),
            Some(field) => match first_element(field.content) {
                Err(why) => Err(why),
                Ok((inner, _)) => Ok(Some(inner)),
            },
        },
    }
}

/// Whether octets are the two's complement of a number that is not negative,
/// in its shortest form.
pub open spec fn shortest_natural(octets: Seq<u8>) -> bool {
    &&& octets.len() > 0
    &&& octets[0] < 128
    &&& octets.len() > 1 && octets[0] == 0 ==> octets[1] >= 128
}

/// The number an `INTEGER` is, where it is one of 32 bits without a sign.
pub open spec fn integer_of(element: Tlv) -> Option<u32> {
    if element.tag == INTEGER && shortest_natural(element.content) && number(element.content)
        <= u32::MAX {
        Some(number(element.content) as u32)
    } else {
        None
    }
}

/// The text a `GeneralString` is, where its octets are UTF-8.
pub open spec fn text_of(element: Tlv) -> Option<Seq<char>> {
    if element.tag == GENERAL_STRING && valid_utf8(element.content) {
        Some(decode_utf8(element.content))
    } else {
        None
    }
}

/// One element, its contents borrowed from the bytes it was read out of.
#[derive(Clone, Copy, Debug)]
pub struct Element<'a> {
    /// The identifier octet.
    pub tag: u8,
    /// The contents octets.
    pub content: &'a [u8],
}

impl<'a> View for Element<'a> {
    type V = Tlv;

    open spec fn view(&self) -> Tlv {
        Tlv { tag: self.tag, content: self.content@ }
    }
}

/// What each element of a list says.
pub open spec fn views(elements: Seq<Element>) -> Seq<Tlv> {
    elements.map_values(|element: Element| element@)
}

/// 256 to the power of a count of octets.
pub open spec fn scale(octets: nat) -> nat
    decreases octets,
{
    if octets == 0 {
        1
    } else {
        256 * scale((octets - 1) as nat)
    }
}

/// Octets spell a number below the power of their count, and at least what
/// the first of them stands for.
pub proof fn lemma_number_bounds(octets: Seq<u8>)
    ensures
        number(octets) < scale(octets.len()),
        octets.len() > 0 ==> number(octets) >= octets[0] * scale((octets.len() - 1) as nat),
    decreases octets.len(),
{
    if octets.len() > 0 {
        let front = octets.drop_last();
        lemma_number_bounds(front);
        if octets.len() == 1 {
            assert(number(front) == 0);
            assert(octets[0] * scale(0) == octets[0]) by (nonlinear_arith)
                requires
                    scale(0) == 1,
            ;
        } else {
            let first = octets[0] as int;
            let below = scale((front.len() - 1) as nat) as int;
            assert(front[0] == octets[0]);
            assert(scale(front.len()) == 256 * below);
            assert(first * (256 * below) == (first * below) * 256) by (nonlinear_arith);
            assert(scale((octets.len() - 1) as nat) == 256 * below);
            assert(number(front) >= first * below);
        }
    }
}

/// The powers that bound 32 and 64 bits, and that more octets reach further.
pub proof fn lemma_scale(octets: nat)
    ensures
        scale(4) == 0x1_0000_0000,
        scale(8) == 0x1_0000_0000_0000_0000,
        octets >= 4 ==> scale(octets) >= 0x1_0000_0000,
        octets >= 8 ==> scale(octets) >= 0x1_0000_0000_0000_0000,
        octets < 8 ==> 256 * scale(octets) <= 0x1_0000_0000_0000_0000,
    decreases octets,
{
    reveal_with_fuel(scale, 9);
    if octets > 8 {
        lemma_scale((octets - 1) as nat);
    }
}

/// The number that at most eight octets spell.
fn number_of(octets: &[u8]) -> (value: u64)
    requires
        octets@.len() <= 8,
    ensures
        value == number(octets@),
{
    let mut value: u64 = 0;
    let mut at: usize = 0;
    while at < octets.len()
        invariant
            at <= octets.len() <= 8,
            value == number(octets@.take(at as int)),
        decreases octets.len() - at,
    {
        proof {
            lemma_number_bounds(octets@.take(at as int));
            lemma_scale(at as nat);
            assert(octets@.take(at + 1).drop_last() =~= octets@.take(at as int));
        }
        value = value * 256 + octets[at] as u64;
        at = at + 1;
    }
    assert(octets@.take(at as int) =~= octets@);
    value
}

/// The text that octets are in UTF-8, through `std::str::from_utf8`: some
/// text exactly where the octets are valid UTF-8, and then the text whose
/// encoding they are.
#[verifier::external_body]
fn utf8(octets: &[u8]) -> (text: Option<&str>)
    ensures
        text is Some <==> valid_utf8(octets@),
        text matches Some(text) ==> encode_utf8(text@) == octets@,
{
    std::str::from_utf8(octets).ok()
}

impl<'a> Element<'a> {
    /// The element the bytes start with, and what follows it.
    pub fn read(bytes: &'a [u8]) -> (result: Result<(Element<'a>, &'a [u8]), IdentifyError>)
        ensures
            error::outcome(result) == first_element(bytes@),
    {
        if bytes.len() == 0 {
            return Err(IdentifyError::new("an element ends before its tag"));
        }
        if bytes[0] % 32 == 31 {
            return Err(IdentifyError::new("an element has a tag of more than one octet"));
        }
        if bytes.len() == 1 {
            return Err(IdentifyError::new("an element ends before its length"));
        }
        if bytes[1] < 128 {
            return Self::at(bytes, 2, bytes[1] as u64);
        }
        if bytes[1] == 128 {
            return Err(IdentifyError::new("an element has no definite length"));
        }
        let start: usize = 2 + (bytes[1] - 128) as usize;
        if bytes.len() < start {
            return Err(IdentifyError::new("an element ends inside its length"));
        }
        let octets = slice_subrange(bytes, 2, start);
        if octets[0] == 0 {
            return Err(
                IdentifyError::new("an element has a length that is not in its shortest form"),
            );
        }
        if octets.len() > 8 {
            proof {
                lemma_number_bounds(octets@);
                lemma_scale((octets@.len() - 1) as nat);
                let reach = scale((octets@.len() - 1) as nat);
                assert(octets@[0] * reach >= reach) by (nonlinear_arith)
                    requires
                        octets@[0] >= 1,
                        reach >= 0,
                ;
            }
            return Err(IdentifyError::new("an element ends inside its contents"));
        }
        let length = number_of(octets);
        if length < 128 {
            return Err(
                IdentifyError::new("an element has a length that is not in its shortest form"),
            );
        }
        Self::at(bytes, start, length)
    }

    /// The element with these contents, where the bytes reach that far.
    fn at(bytes: &'a [u8], start: usize, length: u64) -> (result: Result<
        (Element<'a>, &'a [u8]),
        IdentifyError,
    >)
        requires
            2 <= start <= bytes@.len(),
        ensures
            error::outcome(result) == element_at(bytes@, start as int, length as nat),
    {
        if ((bytes.len() - start) as u64) < length {
            return Err(IdentifyError::new("an element ends inside its contents"));
        }
        let end: usize = start + length as usize;
        let element = Element { tag: bytes[0], content: slice_subrange(bytes, start, end) };
        let rest = slice_subrange(bytes, end, bytes.len());
        Ok((element, rest))
    }

    /// The element the bytes start with, which is to have this tag.
    pub fn expect(bytes: &'a [u8], tag: u8, what: &str) -> (result: Result<
        Element<'a>,
        IdentifyError,
    >)
        ensures
            error::outcome(result) == expected(bytes@, tag, what@),
    {
        let (element, _) = Self::read(bytes)?;
        if element.tag == tag {
            return Ok(element);
        }
        let mut message = "the tag ".to_owned();
        message.append(text::hexadecimal_text(element.tag).as_str());
        message.append(" is not that of ");
        message.append(what);
        Err(IdentifyError::new(message.as_str()))
    }

    /// The elements the contents are.
    pub fn children(&self) -> (result: Result<Vec<Element<'a>>, IdentifyError>)
        ensures
            match result {
                Ok(children) => elements(self@.content) == Ok::<Seq<Tlv>, Seq<char>>(
                    views(children@),
                ),
                Err(error) => elements(self@.content) == Err::<Seq<Tlv>, Seq<char>>(error.message@),
            },
    {
        let mut children: Vec<Element<'a>> = Vec::new();
        let mut rest = self.content;
        while rest.len() > 0
            invariant
                match elements(rest@) {
                    Ok(others) => elements(self@.content) == Ok::<Seq<Tlv>, Seq<char>>(
                        views(children@) + others,
                    ),
                    Err(why) => elements(self@.content) == Err::<Seq<Tlv>, Seq<char>>(why),
                },
            decreases rest.len(),
        {
            let ghost so_far = views(children@);
            let (child, after) = Self::read(rest)?;
            children.push(child);
            assert(views(children@) =~= so_far.push(child@));
            proof {
                if let Ok(others) = elements(after@) {
                    assert(so_far + (seq![child@] + others) =~= views(children@) + others);
                }
            }
            rest = after;
        }
        assert(elements(rest@) == Ok::<Seq<Tlv>, Seq<char>>(Seq::empty()));
        assert(views(children@) + Seq::<Tlv>::empty() =~= views(children@));
        Ok(children)
    }

    /// The element inside the field `[number]` of this `SEQUENCE`.
    pub fn field(&self, number: u8) -> (result: Result<Option<Element<'a>>, IdentifyError>)
        ensures
            error::outcome_if_any(result) == field_of(self@.content, number),
    {
        reveal(field_of);
        let fields = self.children()?;
        let mut at: usize = 0;
        assert(views(fields@).skip(0) =~= views(fields@));
        while at < fields.len()
            invariant
                at <= fields.len(),
                elements(self@.content) == Ok::<Seq<Tlv>, Seq<char>>(views(fields@)),
                tagged(views(fields@), context(number)) == tagged(
                    views(fields@).skip(at as int),
                    context(number),
                ),
            decreases fields.len() - at,
        {
            assert(views(fields@).skip(at as int).drop_first() =~= views(fields@).skip(at + 1));
            reveal(field_of);
            if fields[at].tag == context(number) {
                let (inner, _) = Self::read(fields[at].content)?;
                return Ok(Some(inner));
            }
            at = at + 1;
        }
        Ok(None)
    }

    /// The number this `INTEGER` is, where it is one of 32 bits without a
    /// sign.
    pub fn integer(&self) -> (value: Option<u32>)
        ensures
            value == integer_of(self@),
    {
        let octets = self.content;
        if self.tag != INTEGER || octets.len() == 0 || octets[0] >= 128 {
            return None;
        }
        if octets.len() > 1 && octets[0] == 0 && octets[1] < 128 {
            return None;
        }
        if octets.len() > 5 {
            proof {
                lemma_long_natural(octets@);
            }
            return None;
        }
        let value = number_of(octets);
        if value <= u32::MAX as u64 {
            Some(value as u32)
        } else {
            None
        }
    }

    /// The text this `GeneralString` is, where it is UTF-8.
    pub fn text(&self) -> (text: Option<&'a str>)
        ensures
            match text {
                Some(text) => text_of(self@) == Some(text@),
                None => text_of(self@) is None,
            },
    {
        if self.tag != GENERAL_STRING {
            return None;
        }
        let text = utf8(self.content);
        proof {
            if let Some(text) = text {
                encode_utf8_decode_utf8(text@);
            }
        }
        text
    }
}

/// More than five octets in their shortest form spell more than 32 bits.
proof fn lemma_long_natural(octets: Seq<u8>)
    requires
        shortest_natural(octets),
        octets.len() > 5,
    ensures
        number(octets) > u32::MAX,
{
    let reach = scale((octets.len() - 1) as nat);
    lemma_number_bounds(octets);
    lemma_scale((octets.len() - 1) as nat);
    if octets[0] > 0 {
        assert(octets[0] * reach >= reach) by (nonlinear_arith)
            requires
                octets[0] >= 1,
                reach >= 0,
        ;
    } else {
        let tail = octets.drop_first();
        let below = scale((tail.len() - 1) as nat);
        lemma_leading_zero(octets);
        lemma_number_bounds(tail);
        lemma_scale((tail.len() - 1) as nat);
        assert(tail[0] * below >= below) by (nonlinear_arith)
            requires
                tail[0] >= 1,
                below >= 0,
        ;
    }
}

/// A leading zero adds nothing to the number.
pub proof fn lemma_leading_zero(octets: Seq<u8>)
    requires
        octets.len() > 0,
        octets[0] == 0,
    ensures
        number(octets) == number(octets.drop_first()),
    decreases octets.len(),
{
    if octets.len() == 1 {
        assert(octets.drop_last() =~= Seq::empty());
        assert(octets.drop_first() =~= Seq::empty());
    } else {
        lemma_leading_zero(octets.drop_last());
        assert(octets.drop_last().drop_first() =~= octets.drop_first().drop_last());
    }
}

} // verus!
