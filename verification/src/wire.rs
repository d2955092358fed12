//! How an AP-REQ and the wrappings around it are written, and that reading
//! finds what was written.

use crate::ap_req;
use crate::ap_req::ApReqView;
use crate::der;
use crate::der::Tlv;
use crate::encoding;
use vstd::prelude::*;

verus! {

/// The contents of the fields of an AP-REQ that say nothing in the clear, or
/// nothing about whom the ticket is for. They may be any octets.
pub struct Unread {
    /// Of the request's `ap-options`.
    pub options: Seq<u8>,
    /// Of the request's `authenticator`, which is sealed.
    pub authenticator: Seq<u8>,
    /// Of the ticket's `tkt-vno`.
    pub version: Seq<u8>,
    /// Of the service's `name-type`.
    pub kind: Seq<u8>,
    /// Of the ticket's `cipher`, which is sealed.
    pub cipher: Seq<u8>,
}

/// The field `[number]` with these contents.
pub open spec fn field(number: u8, content: Seq<u8>) -> Tlv {
    Tlv { tag: der::context(number), content }
}

/// The fields of an `EncryptedData`.
pub open spec fn encrypted_data_fields(
    encryption_type: u32,
    key_version: Option<u32>,
    cipher: Seq<u8>,
) -> Seq<Tlv> {
    let etype = encoding::explicit(0, encoding::integer(encryption_type));
    match key_version {
        Some(version) => seq![
            etype,
            encoding::explicit(1, encoding::integer(version)),
            field(2, cipher),
        ],
        None => seq![etype, field(2, cipher)],
    }
}

/// The strings of a service's name.
pub open spec fn name_strings(service: Seq<Seq<char>>) -> Seq<Tlv> {
    service.map_values(|component: Seq<char>| encoding::general_string(component))
}

/// The fields of a `PrincipalName`.
pub open spec fn name_fields(kind: Seq<u8>, service: Seq<Seq<char>>) -> Seq<Tlv> {
    seq![field(0, kind), encoding::explicit(1, encoding::sequence(name_strings(service)))]
}

/// The fields of a `Ticket`.
pub open spec fn ticket_fields(says: ApReqView, unread: Unread) -> Seq<Tlv> {
    let name = name_fields(unread.kind, says.service);
    let sealed = encrypted_data_fields(says.encryption_type, says.key_version, unread.cipher);
    seq![
        field(0, unread.version),
        encoding::explicit(1, encoding::general_string(says.realm)),
        encoding::explicit(2, encoding::sequence(name)),
        encoding::explicit(3, encoding::sequence(sealed)),
    ]
}

/// A `Ticket` with these fields.
pub open spec fn ticket(fields: Seq<Tlv>) -> Tlv {
    Tlv { tag: der::application(1), content: encoding::encoded(encoding::sequence(fields)) }
}

/// The fields of an AP-REQ.
pub open spec fn request_fields(says: ApReqView, unread: Unread) -> Seq<Tlv> {
    seq![
        encoding::explicit(0, encoding::integer(5)),
        encoding::explicit(1, encoding::integer(ap_req::AP_REQ as u32)),
        field(2, unread.options),
        encoding::explicit(3, ticket(ticket_fields(says, unread))),
        field(4, unread.authenticator),
    ]
}

/// An AP-REQ with these fields.
pub open spec fn request(fields: Seq<Tlv>) -> Tlv {
    Tlv {
        tag: der::application(ap_req::AP_REQ),
        content: encoding::encoded(encoding::sequence(fields)),
    }
}

/// An AP-REQ that says this in the clear, with these fields besides.
pub open spec fn ap_req_octets(says: ApReqView, unread: Unread) -> Seq<u8> {
    encoding::encoded(request(request_fields(says, unread)))
}

/// What is made of an AP-REQ that says this in the clear: it is taken at its
/// word where it names a realm and a service.
pub open spec fn read_as(says: ApReqView) -> Result<ApReqView, Seq<char>> {
    if says.realm.len() == 0 {
        Err(ap_req::missing("realm in its ticket"@))
    } else if says.service.len() == 0 {
        Err(ap_req::missing("readable service name in its ticket"@))
    } else {
        Ok(says)
    }
}

/// The tags that Kerberos writes, as numbers.
proof fn lemma_tags()
    ensures
        der::context(0) == 0xa0,
        der::context(1) == 0xa1,
        der::context(2) == 0xa2,
        der::context(3) == 0xa3,
        der::context(4) == 0xa4,
        der::application(0) == 0x60,
        der::application(1) == 0x61,
        der::application(14) == 0x6e,
{
    encoding::tags_hold_their_number(0);
    encoding::tags_hold_their_number(1);
    encoding::tags_hold_their_number(2);
    encoding::tags_hold_their_number(3);
    encoding::tags_hold_their_number(4);
    encoding::tags_hold_their_number(14);
}

/// The encryption type and the key version of a sealed part are read back.
proof fn lemma_sealing(encryption_type: u32, key_version: Option<u32>, cipher: Seq<u8>)
    requires
        encoding::all_encoded(encrypted_data_fields(encryption_type, key_version, cipher)).len()
            <= usize::MAX,
    ensures
        ap_req::sealing_of(
            encoding::all_encoded(encrypted_data_fields(encryption_type, key_version, cipher)),
        ) == Ok::<(u32, Option<u32>), Seq<char>>((encryption_type, key_version)),
{
    let fields = encrypted_data_fields(encryption_type, key_version, cipher);
    lemma_tags();
    encoding::a_field_is_read_back(fields, 0, 0, encoding::integer(encryption_type));
    encoding::an_integer_is_read_back(encryption_type);
    match key_version {
        Some(version) => {
            encoding::a_field_is_read_back(fields, 1, 1, encoding::integer(version));
            encoding::an_integer_is_read_back(version);
        },
        None => {
            encoding::a_missing_field_is_missing(fields, 1);
        },
    }
}

/// The components of a name are read back, where there are any.
proof fn lemma_components(kind: Seq<u8>, service: Seq<Seq<char>>)
    requires
        encoding::all_encoded(name_fields(kind, service)).len() <= usize::MAX,
    ensures
        ap_req::components_of(encoding::all_encoded(name_fields(kind, service)))
            == if service.len() > 0 {
            Ok::<Seq<Seq<char>>, Seq<char>>(service)
        } else {
            Err(ap_req::missing("readable service name in its ticket"@))
        },
{
    let fields = name_fields(kind, service);
    let strings = name_strings(service);
    lemma_tags();
    encoding::a_field_is_read_back(fields, 1, 1, encoding::sequence(strings));
    encoding::lemma_one_of_all(fields, 1);
    encoding::reading_undoes_writing_all(strings);
    assert forall|i: int| 0 <= i < strings.len() implies der::text_of(
        #[trigger] strings[i],
    ) == Some(service[i]) by {
        encoding::a_text_is_read_back(service[i]);
    }
    assert(ap_req::texts_of(strings)->0 =~= service);
}

/// What a ticket says is read back.
proof fn lemma_ticket(says: ApReqView, unread: Unread)
    requires
        encoding::all_encoded(ticket_fields(says, unread)).len() <= usize::MAX,
    ensures
        ap_req::ticket_says(encoding::all_encoded(ticket_fields(says, unread))) == read_as(says),
{
    let fields = ticket_fields(says, unread);
    let name = name_fields(unread.kind, says.service);
    let sealed = encrypted_data_fields(says.encryption_type, says.key_version, unread.cipher);
    lemma_tags();
    encoding::a_field_is_read_back(fields, 1, 1, encoding::general_string(says.realm));
    encoding::a_text_is_read_back(says.realm);
    encoding::a_field_is_read_back(fields, 2, 2, encoding::sequence(name));
    encoding::lemma_one_of_all(fields, 2);
    lemma_components(unread.kind, says.service);
    encoding::a_field_is_read_back(fields, 3, 3, encoding::sequence(sealed));
    encoding::lemma_one_of_all(fields, 3);
    lemma_sealing(says.encryption_type, says.key_version, unread.cipher);
}

/// What an AP-REQ says in the clear is read back, whatever else it holds and
/// whatever follows it.
pub proof fn what_an_ap_req_says_is_read_back(says: ApReqView, unread: Unread, rest: Seq<u8>)
    requires
        ap_req_octets(says, unread).len() <= usize::MAX,
    ensures
        ap_req::message_says(ap_req_octets(says, unread) + rest) == read_as(says),
        says.realm.len() > 0 && says.service.len() > 0 ==> ap_req::message_says(
            ap_req_octets(says, unread) + rest,
        ) == Ok::<ApReqView, Seq<char>>(says),
        says.realm.len() == 0 || says.service.len() == 0 ==> ap_req::message_says(
            ap_req_octets(says, unread) + rest,
        ) is Err,
{
    let inner = ticket_fields(says, unread);
    let fields = request_fields(says, unread);
    let outer = request(fields);
    lemma_tags();
    encoding::reading_undoes_writing(outer, rest);
    encoding::reading_undoes_writing(encoding::sequence(fields), Seq::empty());
    assert(outer.content + Seq::<u8>::empty() =~= outer.content);
    encoding::a_field_is_read_back(fields, 0, 0, encoding::integer(5));
    encoding::an_integer_is_read_back(5);
    encoding::a_field_is_read_back(fields, 1, 1, encoding::integer(14));
    encoding::an_integer_is_read_back(14);
    encoding::a_field_is_read_back(fields, 3, 3, ticket(inner));
    encoding::lemma_one_of_all(fields, 3);
    encoding::reading_undoes_writing(encoding::sequence(inner), Seq::empty());
    assert(ticket(inner).content + Seq::<u8>::empty() =~= ticket(inner).content);
    lemma_ticket(says, unread);
}

/// Two AP-REQs for the same service in the same realm, sealed by the same
/// encryption type and key version, read the same, whatever else they hold
/// and whatever follows them.
pub proof fn nothing_else_is_read(
    says: ApReqView,
    unread: Unread,
    rest: Seq<u8>,
    other: Unread,
    other_rest: Seq<u8>,
)
    requires
        ap_req_octets(says, unread).len() <= usize::MAX,
        ap_req_octets(says, other).len() <= usize::MAX,
    ensures
        ap_req::message_says(ap_req_octets(says, unread) + rest) == ap_req::message_says(
            ap_req_octets(says, other) + other_rest,
        ),
{
    what_an_ap_req_says_is_read_back(says, unread, rest);
    what_an_ap_req_says_is_read_back(says, other, other_rest);
}

/// Two AP-REQs that differ in nothing but what is sealed, the cipher text of
/// the ticket and the authenticator, read the same: the client's name, which
/// is in no other place, is not read.
pub proof fn what_is_sealed_is_not_read(
    says: ApReqView,
    unread: Unread,
    cipher: Seq<u8>,
    authenticator: Seq<u8>,
)
    requires
        ap_req_octets(says, unread).len() <= usize::MAX,
        ap_req_octets(says, (Unread { cipher, authenticator, ..unread })).len() <= usize::MAX,
    ensures
        ap_req::message_says(ap_req_octets(says, unread)) == ap_req::message_says(
            ap_req_octets(says, (Unread { cipher, authenticator, ..unread })),
        ),
{
    let other = Unread { cipher, authenticator, ..unread };
    nothing_else_is_read(says, unread, Seq::empty(), other, Seq::empty());
    assert(ap_req_octets(says, unread) + Seq::<u8>::empty() =~= ap_req_octets(says, unread));
    assert(ap_req_octets(says, other) + Seq::<u8>::empty() =~= ap_req_octets(says, other));
}

/// RFC 2743 framing around what a mechanism defines.
pub open spec fn gss(mechanism: Seq<u8>, inner: Seq<u8>) -> Seq<u8> {
    encoding::encoded(
        Tlv {
            tag: der::application(0),
            content: encoding::encoded(Tlv { tag: der::OID, content: mechanism }) + inner,
        },
    )
}

/// A SPNEGO `NegTokenInit` with these fields, in its framing.
pub open spec fn neg_token_init(fields: Seq<Tlv>) -> Seq<u8> {
    gss(
        ap_req::SPNEGO@,
        encoding::encoded(encoding::explicit(0, encoding::sequence(fields))),
    )
}

/// A SPNEGO `NegTokenResp` with these fields.
pub open spec fn neg_token_resp(fields: Seq<Tlv>) -> Seq<u8> {
    encoding::encoded(encoding::explicit(1, encoding::sequence(fields)))
}

/// The fields of a SPNEGO message that hold a token, with what stands before
/// and after it.
pub open spec fn negotiation(before: Seq<Tlv>, token: Seq<u8>, after: Seq<Tlv>) -> Seq<Tlv> {
    before + seq![encoding::explicit(2, encoding::octet_string(token))] + after
}

/// Whether elements may stand beside the token of a SPNEGO message: their
/// tags are whole, and none of them has the token's.
pub open spec fn beside_token(elements: Seq<Tlv>) -> bool {
    forall|i: int|
        0 <= i < elements.len() ==> encoding::one_octet((#[trigger] elements[i]).tag)
            && elements[i].tag != der::context(2)
}

/// A token that does not start with the first octet of an NTLM message is no
/// NTLM message.
proof fn lemma_not_ntlm(token: Seq<u8>)
    requires
        token.len() > 0,
        token[0] != 0x4e,
    ensures
        !ap_req::NTLMSSP@.is_prefix_of(token),
{
    assert(ap_req::NTLMSSP@[0] == 0x4e);
}

/// What the framing of a mechanism holds is read as that mechanism's.
proof fn lemma_gss(mechanism: Seq<u8>, inner: Seq<u8>)
    requires
        gss(mechanism, inner).len() <= usize::MAX,
    ensures
        !ap_req::NTLMSSP@.is_prefix_of(gss(mechanism, inner)),
        ap_req::outer_layer(gss(mechanism, inner)) == ap_req::gss_layer(
            encoding::encoded(Tlv { tag: der::OID, content: mechanism }) + inner,
        ),
        der::first_element(
            encoding::encoded(Tlv { tag: der::OID, content: mechanism }) + inner,
        ) == Ok::<(Tlv, Seq<u8>), Seq<char>>(
            (Tlv { tag: der::OID, content: mechanism }, inner),
        ),
{
    let name = Tlv { tag: der::OID, content: mechanism };
    let outer = Tlv { tag: der::application(0), content: encoding::encoded(name) + inner };
    lemma_tags();
    encoding::reading_undoes_writing(outer, Seq::empty());
    assert(encoding::encoded(outer) + Seq::<u8>::empty() =~= encoding::encoded(outer));
    assert(encoding::encoded(outer)[0] == 0x60);
    lemma_not_ntlm(gss(mechanism, inner));
    encoding::reading_undoes_writing(name, inner);
}

/// Whether an OID is one of those that name Kerberos 5.
pub open spec fn names_kerberos(mechanism: Seq<u8>) -> bool {
    mechanism == ap_req::KERBEROS@ || mechanism == ap_req::KERBEROS_LEGACY@
}

/// Neither OID of Kerberos is that of SPNEGO.
proof fn lemma_mechanisms()
    ensures
        !names_kerberos(ap_req::SPNEGO@),
{
    assert(ap_req::SPNEGO@.len() == 6);
    assert(ap_req::KERBEROS@.len() == 9);
    assert(ap_req::KERBEROS_LEGACY@.len() == 9);
}

/// A message under GSS-API, by either OID of Kerberos, says what it says.
pub proof fn a_message_is_found_under_gss_api(mechanism: Seq<u8>, message: Seq<u8>)
    requires
        names_kerberos(mechanism),
        gss(mechanism, ap_req::TOKEN_AP_REQ@ + message).len() <= usize::MAX,
    ensures
        ap_req::token_says(gss(mechanism, ap_req::TOKEN_AP_REQ@ + message))
            == ap_req::request_if_any(ap_req::message_says(message)),
{
    let inner = ap_req::TOKEN_AP_REQ@ + message;
    lemma_gss(mechanism, inner);
    lemma_mechanisms();
    assert(inner.take(2) =~= ap_req::TOKEN_AP_REQ@);
    assert(inner.skip(2) =~= message);
}

/// A bare AP-REQ says as a token what it says as a message.
pub proof fn a_bare_message_is_found(content: Seq<u8>, rest: Seq<u8>)
    requires
        content.len() <= usize::MAX,
    ensures
        ({
            let message = encoding::encoded(
                Tlv { tag: der::application(ap_req::AP_REQ), content },
            ) + rest;
            ap_req::token_says(message) == ap_req::request_if_any(ap_req::message_says(message))
        }),
{
    let outer = Tlv { tag: der::application(ap_req::AP_REQ), content };
    lemma_tags();
    encoding::reading_undoes_writing(outer, rest);
    assert((encoding::encoded(outer) + rest)[0] == 0x6e);
    lemma_not_ntlm(encoding::encoded(outer) + rest);
}

/// The field that holds the token of a SPNEGO message is read back.
proof fn lemma_negotiation(before: Seq<Tlv>, token: Seq<u8>, after: Seq<Tlv>)
    requires
        beside_token(before),
        beside_token(after),
        encoding::all_encoded(negotiation(before, token, after)).len() <= usize::MAX,
    ensures
        ap_req::negotiation_layer(encoding::all_encoded(negotiation(before, token, after)))
            == ap_req::Inside::Token(token),
{
    let fields = negotiation(before, token, after);
    lemma_tags();
    assert(fields[before.len() as int] == encoding::explicit(2, encoding::octet_string(token)));
    assert forall|i: int| 0 <= i < fields.len() implies encoding::one_octet(
        (#[trigger] fields[i]).tag,
    ) by {
        if i < before.len() {
            assert(fields[i] == before[i]);
        } else if i > before.len() {
            assert(fields[i] == after[i - before.len() - 1]);
        }
    }
    assert forall|i: int| 0 <= i < before.len() implies (#[trigger] fields[i]).tag
        != der::context(2) by {
        assert(fields[i] == before[i]);
    }
    encoding::a_field_is_read_back(
        fields,
        before.len() as int,
        2,
        encoding::octet_string(token),
    );
}

/// What a `NegTokenInit` comes to is what its fields come to.
proof fn lemma_neg_token_init(fields: Seq<Tlv>)
    requires
        neg_token_init(fields).len() <= usize::MAX,
    ensures
        encoding::all_encoded(fields).len() <= usize::MAX,
        ap_req::outer_layer(neg_token_init(fields)) == ap_req::negotiation_layer(
            encoding::all_encoded(fields),
        ),
{
    let init = encoding::explicit(0, encoding::sequence(fields));
    lemma_tags();
    lemma_gss(ap_req::SPNEGO@, encoding::encoded(init));
    encoding::reading_undoes_writing(init, Seq::empty());
    assert(encoding::encoded(init) + Seq::<u8>::empty() =~= encoding::encoded(init));
    encoding::reading_undoes_writing(encoding::sequence(fields), Seq::empty());
    assert(init.content + Seq::<u8>::empty() =~= init.content);
}

/// What a `NegTokenResp` comes to is what its fields come to.
proof fn lemma_neg_token_resp(fields: Seq<Tlv>)
    requires
        neg_token_resp(fields).len() <= usize::MAX,
    ensures
        encoding::all_encoded(fields).len() <= usize::MAX,
        ap_req::outer_layer(neg_token_resp(fields)) == ap_req::negotiation_layer(
            encoding::all_encoded(fields),
        ),
{
    let response = encoding::explicit(1, encoding::sequence(fields));
    lemma_tags();
    encoding::reading_undoes_writing(response, Seq::empty());
    assert(neg_token_resp(fields) + Seq::<u8>::empty() =~= neg_token_resp(fields));
    assert(neg_token_resp(fields)[0] == 0xa1);
    lemma_not_ntlm(neg_token_resp(fields));
    encoding::reading_undoes_writing(encoding::sequence(fields), Seq::empty());
    assert(response.content + Seq::<u8>::empty() =~= response.content);
}

/// A token under SPNEGO says what it says by itself, in the first message of
/// an exchange as in a later one, whatever stands beside it.
pub proof fn a_token_is_found_under_spnego(before: Seq<Tlv>, token: Seq<u8>, after: Seq<Tlv>)
    requires
        beside_token(before),
        beside_token(after),
    ensures
        neg_token_init(negotiation(before, token, after)).len() <= usize::MAX
            ==> ap_req::token_says(neg_token_init(negotiation(before, token, after)))
            == ap_req::token_says(token),
        neg_token_resp(negotiation(before, token, after)).len() <= usize::MAX
            ==> ap_req::token_says(neg_token_resp(negotiation(before, token, after)))
            == ap_req::token_says(token),
{
    if neg_token_init(negotiation(before, token, after)).len() <= usize::MAX {
        lemma_neg_token_init(negotiation(before, token, after));
        lemma_negotiation(before, token, after);
    }
    if neg_token_resp(negotiation(before, token, after)).len() <= usize::MAX {
        lemma_neg_token_resp(negotiation(before, token, after));
        lemma_negotiation(before, token, after);
    }
}

/// A SPNEGO message with no token in it is somebody else's.
pub proof fn a_negotiation_without_a_token_presents_nothing(fields: Seq<Tlv>)
    requires
        beside_token(fields),
    ensures
        neg_token_init(fields).len() <= usize::MAX ==> ap_req::token_says(neg_token_init(fields))
            == Ok::<Option<ApReqView>, Seq<char>>(None),
        neg_token_resp(fields).len() <= usize::MAX ==> ap_req::token_says(neg_token_resp(fields))
            == Ok::<Option<ApReqView>, Seq<char>>(None),
{
    if neg_token_init(fields).len() <= usize::MAX {
        lemma_neg_token_init(fields);
        encoding::a_missing_field_is_missing(fields, 2);
    }
    if neg_token_resp(fields).len() <= usize::MAX {
        lemma_neg_token_resp(fields);
        encoding::a_missing_field_is_missing(fields, 2);
    }
}

/// An NTLM message is somebody else's.
pub proof fn an_ntlm_message_presents_nothing(rest: Seq<u8>)
    ensures
        ap_req::token_says(ap_req::NTLMSSP@ + rest) == Ok::<Option<ApReqView>, Seq<char>>(None),
{
    assert(ap_req::NTLMSSP@.is_prefix_of(ap_req::NTLMSSP@ + rest));
}

/// A Kerberos message of another kind is refused.
pub proof fn another_kerberos_message_is_refused(mechanism: Seq<u8>, inner: Seq<u8>)
    requires
        names_kerberos(mechanism),
        !ap_req::TOKEN_AP_REQ@.is_prefix_of(inner),
        gss(mechanism, inner).len() <= usize::MAX,
    ensures
        ap_req::token_says(gss(mechanism, inner)) == Err::<Option<ApReqView>, Seq<char>>(
            "the Kerberos token is not an AP-REQ: its token id is not 01 00"@,
        ),
{
    lemma_gss(mechanism, inner);
    lemma_mechanisms();
    if inner.len() >= 2 && inner.take(2) == ap_req::TOKEN_AP_REQ@ {
        assert(ap_req::TOKEN_AP_REQ@.is_prefix_of(inner));
    }
}

/// A GSS-API token of another mechanism is refused.
pub proof fn another_mechanism_is_refused(mechanism: Seq<u8>, inner: Seq<u8>)
    requires
        !names_kerberos(mechanism),
        mechanism != ap_req::SPNEGO@,
        gss(mechanism, inner).len() <= usize::MAX,
    ensures
        ap_req::token_says(gss(mechanism, inner)) == Err::<Option<ApReqView>, Seq<char>>(
            "the GSS-API token names a mechanism that is neither SPNEGO nor Kerberos"@,
        ),
{
    lemma_gss(mechanism, inner);
}

/// A token that is cut short is refused, wherever it is cut, unless what is
/// left starts as an NTLM message does.
pub proof fn a_cut_token_is_refused(outer: Tlv, at: int)
    requires
        encoding::one_octet(outer.tag),
        outer.content.len() <= usize::MAX,
        0 <= at < encoding::encoded(outer).len(),
        !ap_req::NTLMSSP@.is_prefix_of(encoding::encoded(outer).take(at)),
    ensures
        ap_req::token_says(encoding::encoded(outer).take(at)) is Err,
{
    encoding::a_cut_element_is_refused(outer, at);
}

/// What is wrapped is shorter than each of its wrappings.
pub proof fn lemma_wrappings_grow(
    mechanism: Seq<u8>,
    before: Seq<Tlv>,
    message: Seq<u8>,
    after: Seq<Tlv>,
)
    ensures
        ({
            let token = gss(mechanism, ap_req::TOKEN_AP_REQ@ + message);
            let fields = negotiation(before, token, after);
            &&& message.len() < token.len()
            &&& token.len() < neg_token_init(fields).len()
            &&& token.len() < neg_token_resp(fields).len()
        }),
{
    let token = gss(mechanism, ap_req::TOKEN_AP_REQ@ + message);
    let fields = negotiation(before, token, after);
    assert(fields[before.len() as int] == encoding::explicit(2, encoding::octet_string(token)));
    encoding::lemma_one_of_all(fields, before.len() as int);
}

/// An AP-REQ is found under SPNEGO, under GSS-API and bare, and says the same
/// each time.
pub proof fn an_ap_req_is_found_under_every_wrapping(
    mechanism: Seq<u8>,
    before: Seq<Tlv>,
    content: Seq<u8>,
    after: Seq<Tlv>,
)
    requires
        names_kerberos(mechanism),
        beside_token(before),
        beside_token(after),
    ensures
        ({
            let message = encoding::encoded(
                Tlv { tag: der::application(ap_req::AP_REQ), content },
            );
            let token = gss(mechanism, ap_req::TOKEN_AP_REQ@ + message);
            let init = neg_token_init(negotiation(before, token, after));
            let response = neg_token_resp(negotiation(before, token, after));
            let found = ap_req::request_if_any(ap_req::message_says(message));
            &&& message.len() <= usize::MAX ==> ap_req::token_says(message) == found
            &&& token.len() <= usize::MAX ==> ap_req::token_says(token) == found
            &&& init.len() <= usize::MAX ==> ap_req::token_says(init) == found
            &&& response.len() <= usize::MAX ==> ap_req::token_says(response) == found
        }),
{
    let message = encoding::encoded(Tlv { tag: der::application(ap_req::AP_REQ), content });
    let token = gss(mechanism, ap_req::TOKEN_AP_REQ@ + message);
    lemma_wrappings_grow(mechanism, before, message, after);
    a_token_is_found_under_spnego(before, token, after);
    if token.len() <= usize::MAX {
        a_message_is_found_under_gss_api(mechanism, message);
    }
    if message.len() <= usize::MAX {
        a_bare_message_is_found(content, Seq::empty());
        assert(message + Seq::<u8>::empty() =~= message);
    }
}

/// Whatever is found in a token names a realm and a service of one component
/// at least.
pub proof fn whatever_is_found_names_a_realm_and_a_service(token: Seq<u8>)
    ensures
        ap_req::token_says(token) matches Ok(Some(request)) ==> request.realm.len() > 0
            && request.service.len() > 0,
    decreases token.len(),
{
    if let ap_req::Inside::Token(inner) = ap_req::outer_layer(token) {
        ap_req::layers_shrink(token);
        whatever_is_found_names_a_realm_and_a_service(inner);
    }
}

} // verus!
