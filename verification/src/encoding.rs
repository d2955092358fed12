//! How DER is written, and that reading undoes it.

use crate::der;
use crate::der::Element;
use crate::der::Tlv;
use crate::text;
use vstd::arithmetic::power::pow;
use vstd::prelude::*;
use vstd::utf8::*;

verus! {

/// The fewest octets that spell a number, the most significant first.
pub open spec fn octets_of(number: nat) -> Seq<u8>
    decreases number,
{
    if number == 0 {
        Seq::empty()
    } else {
        octets_of(number / 256).push((number % 256) as u8)
    }
}

/// A length: one octet below 128, else the count of its octets and those.
pub open spec fn length_octets(length: nat) -> Seq<u8> {
    if length < 128 {
        seq![length as u8]
    } else {
        seq![(128 + octets_of(length).len()) as u8] + octets_of(length)
    }
}

/// An element: its tag, the length of its contents, and those.
pub open spec fn encoded(element: Tlv) -> Seq<u8> {
    seq![element.tag] + length_octets(element.content.len()) + element.content
}

/// Elements one after another.
pub open spec fn all_encoded(elements: Seq<Tlv>) -> Seq<u8>
    decreases elements.len(),
{
    if elements.len() == 0 {
        Seq::empty()
    } else {
        encoded(elements[0]) + all_encoded(elements.drop_first())
    }
}

/// Whether a tag is whole in its one octet.
pub open spec fn one_octet(tag: u8) -> bool {
    tag % 32 != 31
}

/// The contents of an `INTEGER`: the fewest octets of its two's complement.
pub open spec fn integer_octets(number: nat) -> Seq<u8> {
    let octets = octets_of(number);
    if octets.len() == 0 || octets[0] >= 128 {
        seq![0u8] + octets
    } else {
        octets
    }
}

/// An `INTEGER`.
pub open spec fn integer(number: u32) -> Tlv {
    Tlv { tag: der::INTEGER, content: integer_octets(number as nat) }
}

/// A `GeneralString`.
pub open spec fn general_string(text: Seq<char>) -> Tlv {
    Tlv { tag: der::GENERAL_STRING, content: encode_utf8(text) }
}

/// An `OCTET STRING`.
pub open spec fn octet_string(octets: Seq<u8>) -> Tlv {
    Tlv { tag: der::OCTET_STRING, content: octets }
}

/// A `SEQUENCE` of these elements.
pub open spec fn sequence(elements: Seq<Tlv>) -> Tlv {
    Tlv { tag: der::SEQUENCE, content: all_encoded(elements) }
}

/// An element under the explicit tag `[number]`.
pub open spec fn explicit(number: u8, inner: Tlv) -> Tlv {
    Tlv { tag: der::context(number), content: encoded(inner) }
}

/// The tags of `[n]` and `[APPLICATION n]` are whole in their one octet, and
/// the number is what is added to the class and the form, for every number
/// that fits beside those.
pub proof fn tags_hold_their_number(number: u8)
    requires
        number < 31,
    ensures
        der::context(number) == 0xa0 + number,
        der::application(number) == 0x60 + number,
        one_octet(der::context(number)),
        one_octet(der::application(number)),
{
    assert((0xa0u8 | number) == 0xa0 + number && (0x60u8 | number) == 0x60 + number)
        by (bit_vector)
        requires
            number < 31,
    ;
}

/// The octets of a number spell it, and start with none that is zero.
pub proof fn lemma_octets_of(number: nat)
    ensures
        der::number(octets_of(number)) == number,
        number > 0 ==> octets_of(number).len() > 0 && octets_of(number)[0] != 0,
        number <= u64::MAX ==> octets_of(number).len() <= 8,
    decreases number,
{
    let octets = octets_of(number);
    if number > 0 {
        lemma_octets_of(number / 256);
        assert(octets.drop_last() =~= octets_of(number / 256));
        if number / 256 == 0 {
            assert(octets.len() == 1);
        } else {
            assert(octets[0] == octets_of(number / 256)[0]);
        }
        if number <= u64::MAX && octets.len() > 8 {
            let reach = der::scale((octets.len() - 1) as nat);
            der::lemma_number_bounds(octets);
            der::lemma_scale((octets.len() - 1) as nat);
            assert(octets[0] * reach >= reach) by (nonlinear_arith)
                requires
                    octets[0] >= 1,
                    reach >= 0,
            ;
        }
    }
}

/// Octets that start with none that is zero are those of the number they
/// spell.
pub proof fn lemma_number(octets: Seq<u8>)
    requires
        octets.len() > 0 ==> octets[0] != 0,
    ensures
        octets_of(der::number(octets)) == octets,
    decreases octets.len(),
{
    if octets.len() > 0 {
        let front = octets.drop_last();
        lemma_number(front);
        let high = der::number(front);
        let low = octets.last() as nat;
        assert((high * 256 + low) / 256 == high);
        assert((high * 256 + low) % 256 == low);
        if high * 256 + low == 0 {
            assert(octets_of(high) =~= Seq::empty());
            assert(octets.len() == 1);
        }
        assert(front.push(octets.last()) =~= octets);
    }
}

/// Reading gives back what was written, whatever follows it.
pub proof fn reading_undoes_writing(element: Tlv, rest: Seq<u8>)
    requires
        one_octet(element.tag),
        element.content.len() <= usize::MAX,
    ensures
        der::first_element(encoded(element) + rest) == Ok::<(Tlv, Seq<u8>), Seq<char>>(
            (element, rest),
        ),
{
    let bytes = encoded(element) + rest;
    let length = element.content.len();
    lemma_octets_of(length);
    let octets = octets_of(length);
    if length < 128 {
        assert(bytes[1] == length);
        assert(bytes.subrange(2, 2 + length as int) =~= element.content);
        assert(bytes.skip(2 + length as int) =~= rest);
    } else {
        let start = 2 + octets.len() as int;
        assert(bytes[1] == 128 + octets.len());
        assert(bytes.subrange(2, start) =~= octets);
        assert(bytes[2] == octets[0]);
        assert(bytes.subrange(start, start + length) =~= element.content);
        assert(bytes.skip(start + length) =~= rest);
    }
}

/// What is read is what stands there: an element is read out of nothing but
/// its own encoding.
pub proof fn writing_undoes_reading(bytes: Seq<u8>)
    ensures
        der::first_element(bytes) matches Ok((element, rest)) ==> one_octet(element.tag) && bytes
            == encoded(element) + rest,
{
    if let Ok((element, rest)) = der::first_element(bytes) {
        let length = element.content.len();
        if bytes[1] < 128 {
            assert(length == bytes[1]);
            assert(bytes =~= encoded(element) + rest);
        } else {
            let start = 2 + (bytes[1] - 128);
            let octets = bytes.subrange(2, start);
            assert(octets[0] == bytes[2]);
            lemma_number(octets);
            assert(length == der::number(octets));
            assert(bytes =~= encoded(element) + rest);
        }
    }
}

/// What follows an element does not change how it is read.
pub proof fn reading_stops_at_the_end(bytes: Seq<u8>, more: Seq<u8>)
    ensures
        der::first_element(bytes) matches Ok((element, rest)) ==> der::first_element(bytes + more)
            == Ok::<(Tlv, Seq<u8>), Seq<char>>((element, rest + more)),
{
    if let Ok((element, rest)) = der::first_element(bytes) {
        let all = bytes + more;
        if bytes[1] < 128 {
            let end = 2 + bytes[1] as int;
            assert(all.subrange(2, end) =~= bytes.subrange(2, end));
            assert(all.skip(end) =~= bytes.skip(end) + more);
        } else {
            let start = 2 + (bytes[1] - 128);
            assert(all.subrange(2, start) =~= bytes.subrange(2, start));
            let end = start + der::number(bytes.subrange(2, start));
            assert(all.subrange(start, end) =~= bytes.subrange(start, end));
            assert(all.skip(end) =~= bytes.skip(end) + more);
        }
    }
}

/// An element that is cut short is refused, wherever it is cut.
pub proof fn a_cut_element_is_refused(element: Tlv, at: int)
    requires
        one_octet(element.tag),
        element.content.len() <= usize::MAX,
        0 <= at < encoded(element).len(),
    ensures
        der::first_element(encoded(element).take(at)) is Err,
{
    let whole = encoded(element);
    let cut = whole.take(at);
    if let Ok((_, rest)) = der::first_element(cut) {
        reading_stops_at_the_end(cut, whole.skip(at));
        assert(cut + whole.skip(at) =~= whole);
        reading_undoes_writing(element, Seq::empty());
        assert(whole + Seq::<u8>::empty() =~= whole);
        assert((rest + whole.skip(at)).len() == 0);
    }
}

/// Elements are read back one after another.
pub proof fn reading_undoes_writing_all(elements: Seq<Tlv>)
    requires
        forall|i: int| 0 <= i < elements.len() ==> one_octet((#[trigger] elements[i]).tag),
        all_encoded(elements).len() <= usize::MAX,
    ensures
        der::elements(all_encoded(elements)) == Ok::<Seq<Tlv>, Seq<char>>(elements),
    decreases elements.len(),
{
    if elements.len() > 0 {
        let others = elements.drop_first();
        assert forall|i: int| 0 <= i < others.len() implies one_octet(
            (#[trigger] others[i]).tag,
        ) by {
            assert(others[i] == elements[i + 1]);
        }
        reading_undoes_writing_all(others);
        reading_undoes_writing(elements[0], all_encoded(others));
        assert(seq![elements[0]] + others =~= elements);
    } else {
        assert(elements =~= Seq::empty());
    }
}

/// What bytes are read as, to the last octet, is what they are.
pub proof fn writing_undoes_reading_all(bytes: Seq<u8>)
    ensures
        der::elements(bytes) matches Ok(elements) ==> bytes == all_encoded(elements),
    decreases bytes.len(),
{
    if let Ok(elements) = der::elements(bytes) {
        if bytes.len() > 0 {
            writing_undoes_reading(bytes);
            let (first, rest) = der::first_element(bytes)->Ok_0;
            writing_undoes_reading_all(rest);
            assert(elements.drop_first() =~= der::elements(rest)->Ok_0);
        } else {
            assert(bytes =~= Seq::empty());
        }
    }
}

/// One of several elements is no longer than all of them.
pub proof fn lemma_one_of_all(elements: Seq<Tlv>, at: int)
    requires
        0 <= at < elements.len(),
    ensures
        elements[at].content.len() < encoded(elements[at]).len() <= all_encoded(elements).len(),
    decreases elements.len(),
{
    if at > 0 {
        lemma_one_of_all(elements.drop_first(), at - 1);
        assert(elements.drop_first()[at - 1] == elements[at]);
    }
}

/// The first element with a tag is the one that those before it leave.
proof fn lemma_tagged(elements: Seq<Tlv>, at: int, tag: u8)
    requires
        0 <= at <= elements.len(),
        forall|i: int| 0 <= i < at ==> (#[trigger] elements[i]).tag != tag,
        at < elements.len() ==> elements[at].tag == tag,
    ensures
        der::tagged(elements, tag) == if at < elements.len() {
            Some(elements[at])
        } else {
            None
        },
    decreases elements.len(),
{
    if at > 0 {
        let others = elements.drop_first();
        assert forall|i: int| 0 <= i < at - 1 implies (#[trigger] others[i]).tag != tag by {
            assert(others[i] == elements[i + 1]);
        }
        assert(elements[0].tag != tag);
        lemma_tagged(others, at - 1, tag);
    }
}

/// What stands under an explicit tag is read back as the field of that
/// number, where none before it has the same one.
pub proof fn a_field_is_read_back(elements: Seq<Tlv>, at: int, number: u8, inner: Tlv)
    requires
        forall|i: int| 0 <= i < elements.len() ==> one_octet((#[trigger] elements[i]).tag),
        all_encoded(elements).len() <= usize::MAX,
        0 <= at < elements.len(),
        elements[at] == explicit(number, inner),
        one_octet(inner.tag),
        forall|i: int| 0 <= i < at ==> (#[trigger] elements[i]).tag != der::context(number),
    ensures
        der::field_of(all_encoded(elements), number) == Ok::<Option<Tlv>, Seq<char>>(Some(inner)),
{
    reveal(der::field_of);
    reading_undoes_writing_all(elements);
    lemma_tagged(elements, at, der::context(number));
    lemma_one_of_all(elements, at);
    reading_undoes_writing(inner, Seq::empty());
    assert(encoded(inner) + Seq::<u8>::empty() =~= encoded(inner));
}

/// A field that is not written is read as missing.
pub proof fn a_missing_field_is_missing(elements: Seq<Tlv>, number: u8)
    requires
        forall|i: int| 0 <= i < elements.len() ==> one_octet((#[trigger] elements[i]).tag),
        all_encoded(elements).len() <= usize::MAX,
        forall|i: int|
            0 <= i < elements.len() ==> (#[trigger] elements[i]).tag != der::context(number),
    ensures
        der::field_of(all_encoded(elements), number) == Ok::<Option<Tlv>, Seq<char>>(None),
{
    reveal(der::field_of);
    reading_undoes_writing_all(elements);
    lemma_tagged(elements, elements.len() as int, der::context(number));
}

/// An `INTEGER` is read back as the number it was written for.
pub proof fn an_integer_is_read_back(number: u32)
    ensures
        der::integer_of(integer(number)) == Some(number),
{
    let octets = octets_of(number as nat);
    lemma_octets_of(number as nat);
    if octets.len() == 0 || octets[0] >= 128 {
        let padded = seq![0u8] + octets;
        der::lemma_leading_zero(padded);
        assert(padded.drop_first() =~= octets);
    }
}

/// A `GeneralString` is read back as the text it was written for.
pub proof fn a_text_is_read_back(text: Seq<char>)
    ensures
        der::text_of(general_string(text)) == Some(text),
{
    encode_utf8_valid_utf8(text);
    encode_utf8_decode_utf8(text);
}

/// One octet spells its own value, and octets behind others count as much
/// less as there are more of them, by the powers of 256.
pub proof fn octets_spell_a_number_in_base_256(left: Seq<u8>, right: Seq<u8>, octet: u8)
    ensures
        der::number(seq![octet]) == octet,
        der::number(left + right) == der::number(left) * pow(256, right.len()) + der::number(right),
    decreases right.len(),
{
    assert(seq![octet].drop_last() =~= Seq::empty());
    assert(der::number(Seq::empty()) == 0);
    reveal(pow);
    if right.len() == 0 {
        assert(left + right =~= left);
        assert(der::number(left) * 1 == der::number(left));
    } else {
        let fewer = right.drop_last();
        let high = der::number(left) as int;
        let power = pow(256, fewer.len());
        octets_spell_a_number_in_base_256(left, fewer, octet);
        assert((left + right).drop_last() =~= left + fewer);
        assert((high * power) * 256 == high * (256 * power)) by (nonlinear_arith);
    }
}

/// An element is written as its tag, then its length, in one octet below 128
/// and else in as few octets as spell it behind their count, then its
/// contents.
pub proof fn how_an_element_is_written(element: Tlv)
    requires
        element.content.len() <= usize::MAX,
    ensures
        element.content.len() < 128 ==> encoded(element) == seq![
            element.tag,
            element.content.len() as u8,
        ] + element.content,
        element.content.len() >= 128 ==> exists|octets: Seq<u8>|
            {
                &&& 0 < octets.len() <= 8
                &&& octets[0] != 0
                &&& #[trigger] der::number(octets) == element.content.len()
                &&& encoded(element) == seq![element.tag, (128 + octets.len()) as u8] + octets
                    + element.content
            },
{
    let length = element.content.len();
    if length < 128 {
        assert(encoded(element) =~= seq![element.tag, length as u8] + element.content);
    } else {
        let octets = octets_of(length);
        lemma_octets_of(length);
        assert(encoded(element) =~= seq![element.tag, (128 + octets.len()) as u8] + octets
            + element.content);
    }
}

/// An element of fewer than 128 octets is read behind its tag and its length,
/// up to where its contents end; where they end too early it is refused.
pub proof fn a_short_element_is_read(tag: u8, length: u8, octets: Seq<u8>)
    requires
        tag % 32 != 31,
        length < 128,
    ensures
        der::first_element(seq![tag, length] + octets) == if octets.len() < length {
            Err::<(Tlv, Seq<u8>), Seq<char>>("an element ends inside its contents"@)
        } else {
            Ok((Tlv { tag, content: octets.take(length as int) }, octets.skip(length as int)))
        },
{
    let bytes = seq![tag, length] + octets;
    if octets.len() >= length {
        assert(bytes.subrange(2, 2 + length as int) =~= octets.take(length as int));
        assert(bytes.skip(2 + length as int) =~= octets.skip(length as int));
    }
}

/// An element of 128 octets or more is read behind its tag, the count of the
/// octets of its length and those, up to where its contents end; where they
/// end too early it is refused.
pub proof fn a_long_element_is_read(tag: u8, count: u8, length: Seq<u8>, octets: Seq<u8>)
    requires
        tag % 32 != 31,
        count > 128,
        length.len() == count - 128,
        length[0] != 0,
        der::number(length) >= 128,
    ensures
        der::first_element(seq![tag, count] + length + octets) == if octets.len() < der::number(
            length,
        ) {
            Err::<(Tlv, Seq<u8>), Seq<char>>("an element ends inside its contents"@)
        } else {
            Ok(
                (
                    Tlv { tag, content: octets.take(der::number(length) as int) },
                    octets.skip(der::number(length) as int),
                ),
            )
        },
{
    let bytes = seq![tag, count] + length + octets;
    let start = 2 + (count - 128);
    let size = der::number(length) as int;
    assert(bytes[1] == count);
    assert(bytes.subrange(2, start) =~= length);
    assert(bytes[2] == length[0]);
    if octets.len() >= size {
        assert(bytes.subrange(start, start + size) =~= octets.take(size));
        assert(bytes.skip(start + size) =~= octets.skip(size));
    }
}

/// Bytes that start with no whole tag and length in their shortest form are
/// refused, and the refusal says why.
pub proof fn what_is_no_element_is_refused(bytes: Seq<u8>)
    ensures
        bytes.len() == 0 ==> der::first_element(bytes) == Err::<(Tlv, Seq<u8>), Seq<char>>(
            "an element ends before its tag"@,
        ),
        bytes.len() > 0 && bytes[0] % 32 == 31 ==> der::first_element(bytes) == Err::<
            (Tlv, Seq<u8>),
            Seq<char>,
        >("an element has a tag of more than one octet"@),
        bytes.len() == 1 && bytes[0] % 32 != 31 ==> der::first_element(bytes) == Err::<
            (Tlv, Seq<u8>),
            Seq<char>,
        >("an element ends before its length"@),
        bytes.len() > 1 && bytes[0] % 32 != 31 && bytes[1] == 128 ==> der::first_element(bytes)
            == Err::<(Tlv, Seq<u8>), Seq<char>>("an element has no definite length"@),
        bytes.len() > 1 && bytes[0] % 32 != 31 && bytes[1] > 128 && bytes.len() < bytes[1] - 126
            ==> der::first_element(bytes) == Err::<(Tlv, Seq<u8>), Seq<char>>(
            "an element ends inside its length"@,
        ),
        bytes.len() > 1 && bytes[0] % 32 != 31 && bytes[1] > 128 && bytes.len() >= bytes[1] - 126
            && (bytes[2] == 0 || der::number(bytes.subrange(2, bytes[1] - 126)) < 128)
            ==> der::first_element(bytes) == Err::<(Tlv, Seq<u8>), Seq<char>>(
            "an element has a length that is not in its shortest form"@,
        ),
{
}

/// Where something that is no element follows elements, all are refused for
/// it.
pub proof fn one_that_is_no_element_spoils_all(good: Seq<Tlv>, bad: Seq<u8>, why: Seq<char>)
    requires
        forall|i: int| 0 <= i < good.len() ==> one_octet((#[trigger] good[i]).tag),
        all_encoded(good).len() <= usize::MAX,
        bad.len() > 0,
        der::first_element(bad) == Err::<(Tlv, Seq<u8>), Seq<char>>(why),
    ensures
        der::elements(all_encoded(good) + bad) == Err::<Seq<Tlv>, Seq<char>>(why),
    decreases good.len(),
{
    if good.len() == 0 {
        assert(all_encoded(good) + bad =~= bad);
    } else {
        let others = good.drop_first();
        assert forall|i: int| 0 <= i < others.len() implies one_octet(
            (#[trigger] others[i]).tag,
        ) by {
            assert(others[i] == good[i + 1]);
        }
        one_that_is_no_element_spoils_all(others, bad, why);
        reading_undoes_writing(good[0], all_encoded(others) + bad);
        assert(all_encoded(good) + bad =~= encoded(good[0]) + (all_encoded(others) + bad));
    }
}

/// A field is found by its number: it is the first of the elements with the
/// tag of that number, however many there are, and what it holds is the
/// element it starts with.
pub proof fn a_field_is_found_by_its_number(
    content: Seq<u8>,
    fields: Seq<Tlv>,
    at: int,
    number: u8,
)
    requires
        der::elements(content) == Ok::<Seq<Tlv>, Seq<char>>(fields),
        0 <= at <= fields.len(),
        forall|i: int| 0 <= i < at ==> (#[trigger] fields[i]).tag != (0xa0u8 | number),
        at < fields.len() ==> fields[at].tag == (0xa0u8 | number),
    ensures
        at == fields.len() ==> der::field_of(content, number) == Ok::<Option<Tlv>, Seq<char>>(None),
        at < fields.len() ==> der::field_of(content, number) == match der::first_element(
            fields[at].content,
        ) {
            Ok((inner, _)) => Ok::<Option<Tlv>, Seq<char>>(Some(inner)),
            Err(why) => Err(why),
        },
{
    reveal(der::field_of);
    lemma_tagged(fields, at, der::context(number));
}

/// Where contents are no elements, they have no field either, for the same
/// reason.
pub proof fn what_is_no_elements_has_no_field(content: Seq<u8>, number: u8, why: Seq<char>)
    requires
        der::elements(content) == Err::<Seq<Tlv>, Seq<char>>(why),
    ensures
        der::field_of(content, number) == Err::<Option<Tlv>, Seq<char>>(why),
{
    reveal(der::field_of);
}

/// An element that is to have a tag is taken where it has it, and else
/// refused by the tag it has.
pub proof fn an_element_is_expected_by_its_tag(
    bytes: Seq<u8>,
    element: Tlv,
    rest: Seq<u8>,
    tag: u8,
    what: Seq<char>,
    why: Seq<char>,
)
    ensures
        der::first_element(bytes) == Ok::<(Tlv, Seq<u8>), Seq<char>>((element, rest))
            ==> der::expected(bytes, tag, what) == if element.tag == tag {
            Ok::<Tlv, Seq<char>>(element)
        } else {
            Err("the tag "@ + text::hexadecimal(element.tag) + " is not that of "@ + what)
        },
        der::first_element(bytes) == Err::<(Tlv, Seq<u8>), Seq<char>>(why) ==> der::expected(
            bytes,
            tag,
            what,
        ) == Err::<Tlv, Seq<char>>(why),
{
}

/// An element is a number of 32 bits exactly where it is an `INTEGER` whose
/// octets spell the number, with no sign bit and no octet too many.
pub proof fn an_integer_is_what_its_octets_spell(element: Tlv, value: u32)
    ensures
        der::integer_of(element) == Some(value) <==> {
            &&& element.tag == 0x02
            &&& element.content.len() > 0
            &&& element.content[0] < 128
            &&& element.content.len() > 1 ==> element.content[0] != 0 || element.content[1] >= 128
            &&& der::number(element.content) == value
        },
{
}

/// An element is a text exactly where it is a `GeneralString` whose octets
/// are that text in UTF-8.
pub proof fn a_text_is_what_its_octets_encode(element: Tlv, text: Seq<char>)
    ensures
        der::text_of(element) == Some(text) <==> element.tag == 0x1b && element.content
            == encode_utf8(text),
{
    encode_utf8_valid_utf8(text);
    encode_utf8_decode_utf8(text);
    if der::text_of(element) is Some {
        decode_utf8_encode_utf8(element.content);
    }
}

/// The tags of the kinds of element, as X.690 numbers them.
pub proof fn the_kinds_of_element_have_their_tags()
    ensures
        der::INTEGER == 0x02,
        der::OCTET_STRING == 0x04,
        der::OID == 0x06,
        der::GENERAL_STRING == 0x1b,
        der::SEQUENCE == 0x30,
{
}

/// An element says its tag and its contents, and elements say what each of
/// them says, in order.
pub proof fn an_element_says_what_it_holds(element: Element<'_>, all: Seq<Element<'_>>)
    ensures
        element@.tag == element.tag,
        element@.content == element.content@,
        der::views(all).len() == all.len(),
        forall|i: int| 0 <= i < all.len() ==> #[trigger] der::views(all)[i] == all[i]@,
{
}

} // verus!
