//! The few pieces of text the library writes: joined names, decimal numbers
//! and the tags that errors name.

use vstd::prelude::*;

verus! {

/// The names one after another, with the separator between neighbours.
pub open spec fn joined(names: Seq<Seq<char>>, separator: Seq<char>) -> Seq<char>
    decreases names.len(),
{
    if names.len() == 0 {
        Seq::empty()
    } else if names.len() == 1 {
        names[0]
    } else {
        joined(names.drop_last(), separator) + separator + names.last()
    }
}

/// What each string of a list holds.
pub open spec fn texts(strings: Seq<String>) -> Seq<Seq<char>> {
    strings.map_values(|string: String| string@)
}

/// A digit of base ten or sixteen, in lower case.
pub open spec fn digit_char(digit: nat) -> char {
    if digit < 10 {
        (48 + digit) as char
    } else {
        (87 + digit) as char
    }
}

/// A number in decimal, without leading zeros.
pub open spec fn decimal(number: nat) -> Seq<char>
    decreases number,
{
    if number < 10 {
        seq![digit_char(number)]
    } else {
        decimal(number / 10).push(digit_char(number % 10))
    }
}

/// An octet as `0x` and two digits of base sixteen.
pub open spec fn hexadecimal(octet: u8) -> Seq<char> {
    "0x"@.push(digit_char((octet / 16) as nat)).push(digit_char((octet % 16) as nat))
}

/// The number that a text of decimal digits is read as, from the left.
pub open spec fn decimal_value(text: Seq<char>) -> int
    decreases text.len(),
{
    if text.len() == 0 {
        0
    } else {
        decimal_value(text.drop_last()) * 10 + (text.last() as int - '0' as int)
    }
}

/// The lengths of names, added up.
pub open spec fn total_length(names: Seq<Seq<char>>) -> int
    decreases names.len(),
{
    if names.len() == 0 {
        0
    } else {
        total_length(names.drop_last()) + names.last().len()
    }
}

/// The pieces that a text falls into where it is cut at a character.
pub open spec fn pieces(text: Seq<char>, cut: char) -> Seq<Seq<char>>
    decreases text.len(),
{
    if text.len() == 0 {
        seq![Seq::empty()]
    } else {
        let before = pieces(text.drop_last(), cut);
        if text.last() == cut {
            before.push(Seq::empty())
        } else {
            before.drop_last().push(before.last().push(text.last()))
        }
    }
}

/// A number in decimal is read back as that number. It is written in digits
/// alone, and starts with a zero only where it is zero.
pub proof fn a_number_in_decimal_is_read_back(number: nat)
    ensures
        decimal_value(decimal(number)) == number,
        decimal(number).len() > 0,
        forall|i: int| 0 <= i < decimal(number).len() ==> '0' <= #[trigger] decimal(number)[i] <= '9',
        decimal(number)[0] == '0' ==> number == 0 && decimal(number).len() == 1,
    decreases number,
{
    let text = decimal(number);
    if number < 10 {
        assert(text.drop_last() =~= Seq::empty());
        assert(decimal_value(text.drop_last()) == 0);
    } else {
        a_number_in_decimal_is_read_back(number / 10);
        assert(text.drop_last() =~= decimal(number / 10));
        assert(text[0] == decimal(number / 10)[0]);
    }
}

/// Different numbers are different in decimal.
pub proof fn different_numbers_are_different_in_decimal(left: nat, right: nat)
    requires
        left != right,
    ensures
        decimal(left) != decimal(right),
{
    a_number_in_decimal_is_read_back(left);
    a_number_in_decimal_is_read_back(right);
}

/// An octet is written as `0x` and two digits of base sixteen in lower case,
/// which are read back as the octet.
pub proof fn an_octet_in_hexadecimal_is_read_back(octet: u8)
    ensures
        ({
            let text = hexadecimal(octet);
            let digit = |at: int|
                if '0' <= text[at] <= '9' {
                    text[at] as int - '0' as int
                } else {
                    10 + (text[at] as int - 'a' as int)
                };
            &&& text.len() == 4
            &&& text[0] == '0'
            &&& text[1] == 'x'
            &&& '0' <= text[2] <= '9' || 'a' <= text[2] <= 'f'
            &&& '0' <= text[3] <= '9' || 'a' <= text[3] <= 'f'
            &&& digit(2) * 16 + digit(3) == octet
        }),
{
    reveal_strlit("0x");
}

/// One name alone is joined to itself, and none to nothing.
pub proof fn one_name_is_joined_to_itself(name: Seq<char>, separator: Seq<char>)
    ensures
        joined(seq![name], separator) == name,
        joined(Seq::empty(), separator) == Seq::<char>::empty(),
{
}

/// Names in two groups are joined to what each group is joined to, with one
/// separator between.
pub proof fn groups_are_joined_one_after_the_other(
    left: Seq<Seq<char>>,
    right: Seq<Seq<char>>,
    separator: Seq<char>,
)
    requires
        left.len() > 0,
        right.len() > 0,
    ensures
        joined(left + right, separator) == joined(left, separator) + separator + joined(
            right,
            separator,
        ),
    decreases right.len(),
{
    let all = left + right;
    if right.len() == 1 {
        assert(all.drop_last() =~= left);
    } else {
        groups_are_joined_one_after_the_other(left, right.drop_last(), separator);
        assert(all.drop_last() =~= left + right.drop_last());
        assert(joined(all, separator) =~= joined(left, separator) + separator + joined(
            right,
            separator,
        ));
    }
}

/// Joining leaves nothing out: the joined text is as long as the names and
/// the separators between neighbours.
pub proof fn joining_keeps_every_length(names: Seq<Seq<char>>, separator: Seq<char>)
    requires
        names.len() > 0,
    ensures
        joined(names, separator).len() == total_length(names) + (names.len() - 1)
            * separator.len(),
    decreases names.len(),
{
    if names.len() == 1 {
        assert(names.drop_last() =~= Seq::empty());
        assert(total_length(names.drop_last()) == 0);
    } else {
        let count = names.len() as int;
        let length = separator.len() as int;
        joining_keeps_every_length(names.drop_last(), separator);
        assert((count - 1) * length == (count - 2) * length + length) by (nonlinear_arith);
    }
}

/// What follows without a cut belongs to the last piece.
proof fn lemma_pieces_grow(text: Seq<char>, more: Seq<char>, cut: char)
    requires
        !more.contains(cut),
    ensures
        pieces(text, cut).len() > 0,
        pieces(text + more, cut) == pieces(text, cut).drop_last().push(
            pieces(text, cut).last() + more,
        ),
    decreases text.len() + more.len(),
{
    let before = pieces(text, cut);
    if more.len() == 0 {
        if text.len() > 0 {
            lemma_pieces_grow(text.drop_last(), Seq::empty(), cut);
        }
        assert(text + more =~= text);
        assert(before.last() + more =~= before.last());
        assert(before.drop_last().push(before.last()) =~= before);
    } else {
        let all = text + more;
        let fewer = more.drop_last();
        assert(!fewer.contains(cut)) by {
            if fewer.contains(cut) {
                let i = choose|i: int| 0 <= i < fewer.len() && fewer[i] == cut;
                assert(more[i] == cut);
            }
        }
        lemma_pieces_grow(text, fewer, cut);
        assert(more[more.len() - 1] != cut);
        assert(all.drop_last() =~= text + fewer);
        assert((before.last() + fewer).push(more.last()) =~= before.last() + more);
        assert(pieces(all, cut) =~= before.drop_last().push(before.last() + more));
    }
}

/// Names that are joined by a character that none of them holds are found
/// again, whole and in order, by cutting the text at it.
pub proof fn cutting_undoes_joining(names: Seq<Seq<char>>, cut: char)
    requires
        names.len() > 0,
        forall|i: int| 0 <= i < names.len() ==> !(#[trigger] names[i]).contains(cut),
    ensures
        pieces(joined(names, seq![cut]), cut) == names,
    decreases names.len(),
{
    let last = names.last();
    let empty = Seq::<char>::empty();
    assert(!names[names.len() - 1].contains(cut));
    if names.len() == 1 {
        lemma_pieces_grow(empty, last, cut);
        assert(empty + last =~= last);
        assert(pieces(last, cut) =~= names);
    } else {
        let front = names.drop_last();
        assert forall|i: int| 0 <= i < front.len() implies !(#[trigger] front[i]).contains(cut) by {
            assert(front[i] == names[i]);
        }
        cutting_undoes_joining(front, cut);
        let text = joined(front, seq![cut]) + seq![cut];
        assert(text.drop_last() =~= joined(front, seq![cut]));
        assert(pieces(text, cut) == front.push(empty));
        lemma_pieces_grow(text, last, cut);
        assert(empty + last =~= last);
        assert(front.push(empty).drop_last() =~= front);
        assert(pieces(text + last, cut) =~= names);
    }
}

/// Each string of a list is taken for what it holds, in order.
pub proof fn each_string_is_taken_for_its_text(strings: Seq<String>)
    ensures
        texts(strings).len() == strings.len(),
        forall|i: int| 0 <= i < strings.len() ==> #[trigger] texts(strings)[i] == strings[i]@,
{
}

/// The one-character text of a digit.
fn digit(value: u8) -> (text: &'static str)
    requires
        value < 16,
    ensures
        text@ == seq![digit_char(value as nat)],
{
    proof {
        reveal_strlit("0");
        reveal_strlit("1");
        reveal_strlit("2");
        reveal_strlit("3");
        reveal_strlit("4");
        reveal_strlit("5");
        reveal_strlit("6");
        reveal_strlit("7");
        reveal_strlit("8");
        reveal_strlit("9");
        reveal_strlit("a");
        reveal_strlit("b");
        reveal_strlit("c");
        reveal_strlit("d");
        reveal_strlit("e");
        reveal_strlit("f");
    }
    match value {
        0 => "0",
        1 => "1",
        2 => "2",
        3 => "3",
        4 => "4",
        5 => "5",
        6 => "6",
        7 => "7",
        8 => "8",
        9 => "9",
        10 => "a",
        11 => "b",
        12 => "c",
        13 => "d",
        14 => "e",
        _ => "f",
    }
}

/// A number in decimal.
pub(crate) fn decimal_text(number: u32) -> (text: String)
    ensures
        text@ == decimal(number as nat),
    decreases number,
{
    if number < 10 {
        digit(number as u8).to_owned()
    } else {
        let mut text = decimal_text(number / 10);
        text.append(digit((number % 10) as u8));
        assert(text@ =~= decimal(number as nat));
        text
    }
}

/// An octet as errors name it.
pub(crate) fn hexadecimal_text(octet: u8) -> (text: String)
    ensures
        text@ == hexadecimal(octet),
{
    let mut text = "0x".to_owned();
    text.append(digit(octet / 16));
    text.append(digit(octet % 16));
    assert(text@ =~= hexadecimal(octet));
    text
}

/// The names one after another, with the separator between neighbours.
pub(crate) fn join(names: &Vec<String>, separator: &str) -> (text: String)
    ensures
        text@ == joined(texts(names@), separator@),
{
    let mut text = String::new();
    let mut at: usize = 0;
    while at < names.len()
        invariant
            at <= names.len(),
            text@ == joined(texts(names@).take(at as int), separator@),
        decreases names.len() - at,
    {
        let ghost before = texts(names@).take(at as int);
        let ghost after = texts(names@).take(at + 1);
        assert(after.drop_last() =~= before);
        if at > 0 {
            text.append(separator);
        }
        text.append(names[at].as_str());
        proof {
            if at == 0 {
                assert(text@ =~= after[0]);
            } else {
                assert(text@ =~= joined(before, separator@) + separator@ + after.last());
            }
        }
        at = at + 1;
    }
    assert(texts(names@).take(at as int) =~= texts(names@));
    text
}

/// Whether two strings hold the same characters.
pub(crate) fn same(left: &str, right: &str) -> (equal: bool)
    ensures
        equal == (left@ == right@),
{
    left.to_owned() == right.to_owned()
}

} // verus!
