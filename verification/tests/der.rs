use identify_kerberos::der::{
    application, context, Element, GENERAL_STRING, INTEGER, OCTET_STRING, SEQUENCE,
};

/// Why bytes start with no element.
fn refusal(bytes: &[u8]) -> String {
    Element::read(bytes).expect_err("refused").message
}

#[test]
fn tags_are_one_octet_of_class_form_and_number() {
    assert_eq!(context(0), 0xa0);
    assert_eq!(context(3), 0xa3);
    assert_eq!(application(0), 0x60);
    assert_eq!(application(14), 0x6e);
}

#[test]
fn an_element_is_read_with_what_follows_it() {
    let (element, rest) = Element::read(&[0x04, 0x02, 7, 8, 9]).expect("read");
    assert_eq!(element.tag, OCTET_STRING);
    assert_eq!(element.content, [7, 8]);
    assert_eq!(rest, [9]);

    let mut long = vec![0x04, 0x81, 0x80];
    long.extend([1; 128]);
    let (element, rest) = Element::read(&long).expect("read");
    assert_eq!(element.content, [1; 128]);
    assert!(rest.is_empty());

    let mut longer = vec![0x04, 0x82, 0x01, 0x2c];
    longer.extend([2; 300]);
    longer.push(5);
    let (element, rest) = Element::read(&longer).expect("read");
    assert_eq!(element.content, [2; 300]);
    assert_eq!(rest, [5]);
}

#[test]
fn what_is_not_der_says_why() {
    assert_eq!(refusal(&[]), "an element ends before its tag");
    assert_eq!(
        refusal(&[0x1f, 0x81, 0x01, 0x00]),
        "an element has a tag of more than one octet"
    );
    assert_eq!(refusal(&[0x30]), "an element ends before its length");
    assert_eq!(
        refusal(&[0x30, 0x80, 0, 0]),
        "an element has no definite length"
    );
    assert_eq!(
        refusal(&[0x30, 0x82, 0x01]),
        "an element ends inside its length"
    );
    assert_eq!(
        refusal(&[0x30, 0x81, 0x05, 1, 2, 3, 4, 5]),
        "an element has a length that is not in its shortest form"
    );
    assert_eq!(
        refusal(&[0x30, 0x82, 0x00, 0x80]),
        "an element has a length that is not in its shortest form"
    );
    assert_eq!(
        refusal(&[0x30, 0x02, 1]),
        "an element ends inside its contents"
    );
    assert_eq!(
        refusal(&[0x30, 0x89, 1, 0, 0, 0, 0, 0, 0, 0, 0]),
        "an element ends inside its contents"
    );
    assert_eq!(
        refusal(&[0x30, 0x88, 255, 255, 255, 255, 255, 255, 255, 255]),
        "an element ends inside its contents"
    );
}

#[test]
fn an_expected_tag_is_asked_for_by_name() {
    let bytes = [0x30, 0x00];
    assert_eq!(
        Element::expect(&bytes, SEQUENCE, "a list").expect("read").tag,
        SEQUENCE
    );
    assert_eq!(
        Element::expect(&bytes, INTEGER, "a number")
            .expect_err("refused")
            .to_string(),
        "the tag 0x30 is not that of a number"
    );
}

#[test]
fn children_are_read_to_the_last_octet() {
    let content = [0x02, 0x01, 5, 0x04, 0x00];
    let element = Element {
        tag: SEQUENCE,
        content: &content,
    };
    let children = element.children().expect("read");
    assert_eq!(children.len(), 2);
    assert_eq!(children[0].integer(), Some(5));
    assert_eq!(children[1].tag, OCTET_STRING);

    let cut = Element {
        tag: SEQUENCE,
        content: &content[..4],
    };
    assert_eq!(
        cut.children().expect_err("refused").message,
        "an element ends before its length"
    );
}

#[test]
fn a_field_is_the_element_inside_its_tag() {
    let content = [
        0xa0, 0x03, 0x02, 0x01, 5, 0xa2, 0x03, 0x02, 0x01, 9, 0xa2, 0x03, 0x02, 0x01, 8,
    ];
    let element = Element {
        tag: SEQUENCE,
        content: &content,
    };
    let field = element.field(2).expect("read").expect("there");
    assert_eq!(field.integer(), Some(9));
    assert!(element.field(1).expect("read").is_none());

    let empty = Element {
        tag: SEQUENCE,
        content: &[0xa1, 0x00],
    };
    assert_eq!(
        empty.field(1).expect_err("refused").message,
        "an element ends before its tag"
    );
}

#[test]
fn an_integer_is_a_number_of_32_bits_in_its_shortest_form() {
    let integer = |content: &[u8]| {
        Element {
            tag: INTEGER,
            content,
        }
        .integer()
    };
    assert_eq!(integer(&[0]), Some(0));
    assert_eq!(integer(&[18]), Some(18));
    assert_eq!(integer(&[0, 0x80]), Some(128));
    assert_eq!(integer(&[0x01, 0x00]), Some(256));
    assert_eq!(integer(&[0, 255, 255, 255, 255]), Some(u32::MAX));
    assert_eq!(integer(&[]), None);
    assert_eq!(integer(&[0xff]), None);
    assert_eq!(integer(&[0, 0x7f]), None);
    assert_eq!(integer(&[1, 0, 0, 0, 0]), None);
    assert_eq!(integer(&[1, 0, 0, 0, 0, 0]), None);
    assert_eq!(
        Element {
            tag: OCTET_STRING,
            content: &[18]
        }
        .integer(),
        None
    );
}

#[test]
fn a_text_is_a_general_string_of_utf8() {
    let text = |tag: u8, content: &'static [u8]| Element { tag, content }.text();
    assert_eq!(text(GENERAL_STRING, b"HTTP"), Some("HTTP"));
    assert_eq!(
        text(GENERAL_STRING, &[0xc3, 0xa9]),
        Some("\u{e9}")
    );
    assert_eq!(text(GENERAL_STRING, b""), Some(""));
    assert_eq!(text(GENERAL_STRING, &[0xff]), None);
    assert_eq!(text(OCTET_STRING, b"HTTP"), None);
}
