//! What each layer of a token comes to, and where in an AP-REQ each thing it
//! says stands.

use crate::ap_req;
use crate::ap_req::ApReq;
use crate::ap_req::ApReqView;
use crate::der;
use crate::der::Tlv;
use crate::encoding;
use crate::text;
use vstd::prelude::*;

verus! {

/// The numbers that tell messages and mechanisms apart, as RFC 4120, 4121 and
/// 4178 and Windows have them.
pub proof fn messages_and_mechanisms_have_their_numbers()
    ensures
        ap_req::SPNEGO@ == seq![0x2bu8, 0x06, 0x01, 0x05, 0x05, 0x02],
        ap_req::KERBEROS@ == seq![0x2au8, 0x86, 0x48, 0x86, 0xf7, 0x12, 0x01, 0x02, 0x02],
        ap_req::KERBEROS_LEGACY@ == seq![0x2au8, 0x86, 0x48, 0x82, 0xf7, 0x12, 0x01, 0x02, 0x02],
        ap_req::NTLMSSP@ == seq![0x4eu8, 0x54, 0x4c, 0x4d, 0x53, 0x53, 0x50, 0x00],
        ap_req::TOKEN_AP_REQ@ == seq![0x01u8, 0x00],
        ap_req::AP_REQ == 14,
{
    assert(ap_req::SPNEGO@ =~= seq![0x2bu8, 0x06, 0x01, 0x05, 0x05, 0x02]);
    assert(ap_req::KERBEROS@ =~= seq![0x2au8, 0x86, 0x48, 0x86, 0xf7, 0x12, 0x01, 0x02, 0x02]);
    assert(ap_req::KERBEROS_LEGACY@ =~= seq![
        0x2au8,
        0x86,
        0x48,
        0x82,
        0xf7,
        0x12,
        0x01,
        0x02,
        0x02,
    ]);
    assert(ap_req::NTLMSSP@ =~= seq![0x4eu8, 0x54, 0x4c, 0x4d, 0x53, 0x53, 0x50, 0x00]);
    assert(ap_req::TOKEN_AP_REQ@ =~= seq![0x01u8, 0x00]);
}

/// The tags that tell the layers apart, as numbers.
proof fn lemma_layer_tags()
    ensures
        der::application(0) == 0x60,
        der::application(1) == 0x61,
        der::application(14) == 0x6e,
        der::context(0) == 0xa0,
        der::context(1) == 0xa1,
{
    encoding::tags_hold_their_number(0);
    encoding::tags_hold_their_number(1);
    encoding::tags_hold_their_number(14);
}

/// What starts with another octet than an NTLM message is none.
proof fn lemma_starts_otherwise(token: Seq<u8>)
    requires
        token.len() > 0,
        token[0] != 0x4e,
    ensures
        !ap_req::NTLMSSP@.is_prefix_of(token),
{
    assert(ap_req::NTLMSSP@[0] == 0x4e);
}

/// A request says what its fields hold.
pub proof fn a_request_says_what_it_holds(request: ApReq)
    ensures
        request@.realm == request.realm@,
        request@.service.len() == request.service@.len(),
        forall|i: int|
            0 <= i < request.service@.len() ==> #[trigger] request@.service[i]
                == request.service@[i]@,
        request@.encryption_type == request.encryption_type,
        request@.key_version == request.key_version,
{
}

/// A service principal is the service, an at sign and the realm to its end.
/// It takes nothing else from a request: where service and realm are the
/// same, so is the principal.
pub proof fn a_principal_is_the_service_at_the_realm(request: ApReqView, other: ApReqView)
    ensures
        ({
            let principal = ap_req::principal_of(request);
            let service = text::joined(request.service, seq!['/']);
            &&& principal.len() == service.len() + 1 + request.realm.len()
            &&& principal.take(service.len() as int) == service
            &&& principal[service.len() as int] == '@'
            &&& principal.skip(service.len() as int + 1) == request.realm
        }),
        other.service == request.service && other.realm == request.realm ==> ap_req::principal_of(
            other,
        ) == ap_req::principal_of(request),
{
    let principal = ap_req::principal_of(request);
    let service = text::joined(request.service, seq!['/']);
    reveal_strlit("/");
    reveal_strlit("@");
    assert("/"@ =~= seq!['/']);
    assert(principal.take(service.len() as int) =~= service);
    assert(principal.skip(service.len() as int + 1) =~= request.realm);
}

/// A service principal is taken apart again into the components of the
/// service and the realm, where no component holds a slash.
pub proof fn a_principal_is_taken_apart_again(request: ApReqView)
    requires
        request.service.len() > 0,
        forall|i: int|
            0 <= i < request.service.len() ==> !(#[trigger] request.service[i]).contains('/'),
    ensures
        ({
            let principal = ap_req::principal_of(request);
            let at = principal.len() - request.realm.len() - 1;
            &&& 0 <= at < principal.len()
            &&& principal[at] == '@'
            &&& text::pieces(principal.take(at), '/') == request.service
            &&& principal.skip(at + 1) == request.realm
        }),
{
    a_principal_is_the_service_at_the_realm(request, request);
    text::cutting_undoes_joining(request.service, '/');
}

/// What starts with the eight octets of NTLM is somebody else's.
pub proof fn an_ntlm_token_is_somebody_elses(token: Seq<u8>)
    requires
        token.len() >= 8,
        token.take(8) == seq![0x4eu8, 0x54, 0x4c, 0x4d, 0x53, 0x53, 0x50, 0x00],
    ensures
        ap_req::token_says(token) == Ok::<Option<ApReqView>, Seq<char>>(None),
{
    messages_and_mechanisms_have_their_numbers();
    assert(ap_req::NTLMSSP@.is_prefix_of(token)) by {
        assert(token.subrange(0, 8) =~= token.take(8));
    }
}

/// A token that is no NTLM message and no element is refused for what keeps
/// it from being one, and one of no tag of Kerberos' is refused by its tag.
pub proof fn a_token_of_nobody_is_refused(token: Seq<u8>)
    requires
        !(seq![0x4eu8, 0x54, 0x4c, 0x4d, 0x53, 0x53, 0x50, 0x00].is_prefix_of(token)),
    ensures
        match der::first_element(token) {
            Err(why) => ap_req::token_says(token) == Err::<Option<ApReqView>, Seq<char>>(why),
            Ok((outer, _)) => outer.tag != 0x60 && outer.tag != 0x6e && outer.tag != 0xa1
                ==> ap_req::token_says(token) == Err::<Option<ApReqView>, Seq<char>>(
                "the Negotiate token starts with tag "@ + text::hexadecimal(outer.tag)
                    + ", which is neither GSS-API, SPNEGO nor an AP-REQ"@,
            ),
        },
{
    messages_and_mechanisms_have_their_numbers();
    lemma_layer_tags();
}

/// A token that starts with the tag of an AP-REQ is read as that message.
pub proof fn a_bare_token_is_read_as_a_message(token: Seq<u8>, outer: Tlv, rest: Seq<u8>)
    requires
        der::first_element(token) == Ok::<(Tlv, Seq<u8>), Seq<char>>((outer, rest)),
        outer.tag == 0x6e,
    ensures
        ap_req::token_says(token) == match ap_req::message_says(token) {
            Ok(request) => Ok::<Option<ApReqView>, Seq<char>>(Some(request)),
            Err(why) => Err(why),
        },
{
    lemma_layer_tags();
    lemma_starts_otherwise(token);
}

/// A GSS-API token that starts with no OID is refused, as is one of another
/// mechanism. One of Kerberos, by either of its OIDs, is read as the message
/// behind the two octets of an AP-REQ, and refused where they are others.
pub proof fn a_gss_api_token_is_read_by_its_mechanism(
    token: Seq<u8>,
    outer: Tlv,
    rest: Seq<u8>,
)
    requires
        der::first_element(token) == Ok::<(Tlv, Seq<u8>), Seq<char>>((outer, rest)),
        outer.tag == 0x60,
    ensures
        match der::first_element(outer.content) {
            Err(why) => ap_req::token_says(token) == Err::<Option<ApReqView>, Seq<char>>(why),
            Ok((oid, inner)) => {
                let spnego = seq![0x2bu8, 0x06, 0x01, 0x05, 0x05, 0x02];
                let kerberos = seq![0x2au8, 0x86, 0x48, 0x86, 0xf7, 0x12, 0x01, 0x02, 0x02];
                let legacy = seq![0x2au8, 0x86, 0x48, 0x82, 0xf7, 0x12, 0x01, 0x02, 0x02];
                &&& oid.tag != 0x06 ==> ap_req::token_says(token) == Err::<
                    Option<ApReqView>,
                    Seq<char>,
                >("the GSS-API token does not start with a mechanism OID"@)
                &&& oid.tag == 0x06 && (oid.content == kerberos || oid.content == legacy)
                    ==> ap_req::token_says(token) == if inner.len() >= 2 && inner[0] == 0x01
                    && inner[1] == 0x00 {
                    match ap_req::message_says(inner.skip(2)) {
                        Ok(request) => Ok::<Option<ApReqView>, Seq<char>>(Some(request)),
                        Err(why) => Err(why),
                    }
                } else {
                    Err("the Kerberos token is not an AP-REQ: its token id is not 01 00"@)
                }
                &&& oid.tag == 0x06 && oid.content != kerberos && oid.content != legacy
                    && oid.content != spnego ==> ap_req::token_says(token) == Err::<
                    Option<ApReqView>,
                    Seq<char>,
                >("the GSS-API token names a mechanism that is neither SPNEGO nor Kerberos"@)
            },
        },
{
    messages_and_mechanisms_have_their_numbers();
    lemma_layer_tags();
    lemma_starts_otherwise(token);
    if let Ok((oid, inner)) = der::first_element(outer.content) {
        assert(seq![0x2bu8, 0x06, 0x01, 0x05, 0x05, 0x02].len() == 6);
        if inner.len() >= 2 {
            if inner[0] == 0x01 && inner[1] == 0x00 {
                assert(inner.take(2) =~= seq![0x01u8, 0x00]);
            } else {
                assert(inner.take(2)[0] == inner[0] && inner.take(2)[1] == inner[1]);
            }
        }
    }
}

/// What a SPNEGO message with these fields says: what the token in its field
/// `[2]` says, nothing where it has none, and a refusal where that is no
/// `OCTET STRING` or the fields cannot be read.
pub proof fn a_spnego_token_says_what_the_token_in_it_says(
    token: Seq<u8>,
    outer: Tlv,
    rest: Seq<u8>,
    oid: Tlv,
    inner: Seq<u8>,
    init: Tlv,
    after: Seq<u8>,
    fields: Tlv,
    more: Seq<u8>,
)
    requires
        der::first_element(token) == Ok::<(Tlv, Seq<u8>), Seq<char>>((outer, rest)),
        outer.tag == 0x60 ==> {
            &&& der::first_element(outer.content) == Ok::<(Tlv, Seq<u8>), Seq<char>>((oid, inner))
            &&& oid.tag == 0x06
            &&& oid.content == seq![0x2bu8, 0x06, 0x01, 0x05, 0x05, 0x02]
            &&& der::first_element(inner) == Ok::<(Tlv, Seq<u8>), Seq<char>>((init, after))
            &&& init.tag == 0xa0
        },
        outer.tag != 0x60 ==> outer.tag == 0xa1 && init == outer,
        der::first_element(init.content) == Ok::<(Tlv, Seq<u8>), Seq<char>>((fields, more)),
        fields.tag == 0x30,
    ensures
        match der::field_of(fields.content, 2) {
            Err(why) => ap_req::token_says(token) == Err::<Option<ApReqView>, Seq<char>>(why),
            Ok(None) => ap_req::token_says(token) == Ok::<Option<ApReqView>, Seq<char>>(None),
            Ok(Some(held)) => ap_req::token_says(token) == if held.tag == 0x04 {
                ap_req::token_says(held.content)
            } else {
                Err("the SPNEGO mechanism token is not an OCTET STRING"@)
            },
        },
{
    messages_and_mechanisms_have_their_numbers();
    lemma_layer_tags();
    lemma_starts_otherwise(token);
}

/// A SPNEGO message whose parts are not those of a `NegTokenInit` or a
/// `NegTokenResp` is refused for the part that is not.
pub proof fn a_spnego_token_of_other_parts_is_refused(
    token: Seq<u8>,
    outer: Tlv,
    rest: Seq<u8>,
    oid: Tlv,
    inner: Seq<u8>,
)
    requires
        der::first_element(token) == Ok::<(Tlv, Seq<u8>), Seq<char>>((outer, rest)),
    ensures
        outer.tag == 0xa1 ==> match der::expected(outer.content, 0x30, "a NegTokenResp"@) {
            Err(why) => ap_req::token_says(token) == Err::<Option<ApReqView>, Seq<char>>(why),
            Ok(_) => true,
        },
        outer.tag == 0x60 && der::first_element(outer.content) == Ok::<
            (Tlv, Seq<u8>),
            Seq<char>,
        >((oid, inner)) && oid.tag == 0x06 && oid.content == seq![
            0x2bu8,
            0x06,
            0x01,
            0x05,
            0x05,
            0x02,
        ] ==> match der::expected(inner, 0xa0, "a NegTokenInit"@) {
            Err(why) => ap_req::token_says(token) == Err::<Option<ApReqView>, Seq<char>>(why),
            Ok(init) => match der::expected(init.content, 0x30, "a NegTokenInit"@) {
                Err(why) => ap_req::token_says(token) == Err::<Option<ApReqView>, Seq<char>>(why),
                Ok(_) => true,
            },
        },
{
    messages_and_mechanisms_have_their_numbers();
    lemma_layer_tags();
    if token[0] != 0x4e {
        lemma_starts_otherwise(token);
    }
}

/// An AP-REQ says something in the clear exactly where it stands there: the
/// message is that of type 14 of Kerberos 5, its field `[3]` is a ticket,
/// and of the ticket the realm is the text in `[1]`, the service the texts in
/// `[2]`, and the encryption type and the key version the numbers in `[0]`
/// and `[1]` of the sealed part in `[3]`.
pub proof fn an_ap_req_says_what_stands_in_its_fields(message: Seq<u8>, says: ApReqView)
    ensures
        ap_req::message_says(message) == Ok::<ApReqView, Seq<char>>(says) <==> {
            let outer = der::first_element(message);
            let request = der::first_element(outer->Ok_0.0.content);
            let body = request->Ok_0.0.content;
            let version = der::field_of(body, 0);
            let kind = der::field_of(body, 1);
            let ticket = der::field_of(body, 3);
            let fields = der::first_element(ticket->Ok_0->0.content);
            let inside = fields->Ok_0.0.content;
            let realm = der::field_of(inside, 1);
            let name = der::field_of(inside, 2);
            let strings = der::field_of(name->Ok_0->0.content, 1);
            let components = der::elements(strings->Ok_0->0.content);
            let sealed = der::field_of(inside, 3);
            let etype = der::field_of(sealed->Ok_0->0.content, 0);
            let kvno = der::field_of(sealed->Ok_0->0.content, 1);
            &&& outer is Ok && outer->Ok_0.0.tag == 0x6e
            &&& request is Ok && request->Ok_0.0.tag == 0x30
            &&& version is Ok && version->Ok_0 is Some && der::integer_of(version->Ok_0->0) == Some(
                5u32,
            )
            &&& kind is Ok && kind->Ok_0 is Some && der::integer_of(kind->Ok_0->0) == Some(14u32)
            &&& ticket is Ok && ticket->Ok_0 is Some && ticket->Ok_0->0.tag == 0x61
            &&& fields is Ok && fields->Ok_0.0.tag == 0x30
            &&& realm is Ok && realm->Ok_0 is Some && der::text_of(realm->Ok_0->0) == Some(
                says.realm,
            )
            &&& says.realm.len() > 0
            &&& name is Ok && name->Ok_0 is Some
            &&& strings is Ok && strings->Ok_0 is Some
            &&& components is Ok && components->Ok_0.len() == says.service.len()
            &&& says.service.len() > 0
            &&& forall|i: int|
                0 <= i < says.service.len() ==> der::text_of(#[trigger] components->Ok_0[i])
                    == Some(says.service[i])
            &&& sealed is Ok && sealed->Ok_0 is Some
            &&& etype is Ok && etype->Ok_0 is Some && der::integer_of(etype->Ok_0->0) == Some(
                says.encryption_type,
            )
            &&& kvno is Ok && says.key_version == match kvno->Ok_0 {
                Some(number) => der::integer_of(number),
                None => None,
            }
        },
{
    lemma_layer_tags();
    let outer = der::first_element(message);
    let request = der::first_element(outer->Ok_0.0.content);
    let ticket = der::field_of(request->Ok_0.0.content, 3);
    let fields = der::first_element(ticket->Ok_0->0.content);
    let name = der::field_of(fields->Ok_0.0.content, 2);
    let strings = der::field_of(name->Ok_0->0.content, 1);
    let components = der::elements(strings->Ok_0->0.content);
    if components is Ok {
        let texts = ap_req::texts_of(components->Ok_0);
        if texts is Some && texts->0 == says.service {
            assert forall|i: int| 0 <= i < says.service.len() implies der::text_of(
                #[trigger] components->Ok_0[i],
            ) == Some(says.service[i]) by {
                assert(texts->0[i] == der::text_of(components->Ok_0[i])->0);
            }
        }
        if components->Ok_0.len() == says.service.len() && forall|i: int|
            0 <= i < says.service.len() ==> der::text_of(#[trigger] components->Ok_0[i]) == Some(
                says.service[i],
            ) {
            assert(texts->0 =~= says.service);
        }
    }
}

/// A message that is no AP-REQ of Kerberos 5, or holds no ticket, is refused
/// for what it is not or does not hold.
pub proof fn a_message_that_is_no_ap_req_is_refused(message: Seq<u8>)
    ensures
        match der::expected(message, 0x6e, "an AP-REQ"@) {
            Err(why) => ap_req::message_says(message) == Err::<ApReqView, Seq<char>>(why),
            Ok(outer) => match der::expected(outer.content, 0x30, "an AP-REQ"@) {
                Err(why) => ap_req::message_says(message) == Err::<ApReqView, Seq<char>>(why),
                Ok(request) => {
                    let version = der::field_of(request.content, 0);
                    let kind = der::field_of(request.content, 1);
                    let ticket = der::field_of(request.content, 3);
                    let right = {
                        &&& version is Ok && version->Ok_0 is Some
                        &&& der::integer_of(version->Ok_0->0) == Some(5u32)
                        &&& kind is Ok && kind->Ok_0 is Some
                        &&& der::integer_of(kind->Ok_0->0) == Some(14u32)
                    };
                    &&& version matches Err(why) ==> ap_req::message_says(message) == Err::<
                        ApReqView,
                        Seq<char>,
                    >(why)
                    &&& version is Ok ==> (kind matches Err(why) ==> ap_req::message_says(message)
                        == Err::<ApReqView, Seq<char>>(why))
                    &&& version is Ok && kind is Ok && !right ==> ap_req::message_says(message)
                        == Err::<ApReqView, Seq<char>>(
                        "the AP-REQ is not Kerberos 5 message type 14"@,
                    )
                    &&& right ==> match ticket {
                        Err(why) => ap_req::message_says(message) == Err::<ApReqView, Seq<char>>(
                            why,
                        ),
                        Ok(None) => ap_req::message_says(message) == Err::<ApReqView, Seq<char>>(
                            "the AP-REQ has no "@ + "ticket"@,
                        ),
                        Ok(Some(ticket)) => ap_req::message_says(message) == if ticket.tag
                            != 0x61 {
                            Err::<ApReqView, Seq<char>>("the AP-REQ's ticket is not a Ticket"@)
                        } else {
                            match der::expected(ticket.content, 0x30, "a Ticket"@) {
                                Err(why) => Err(why),
                                Ok(fields) => ap_req::ticket_says(fields.content),
                            }
                        },
                    }
                },
            },
        },
{
    lemma_layer_tags();
}

/// A ticket is refused for the first thing it lacks: a realm that is a text
/// and not empty, a service of texts, one at least, a sealed part, and its
/// encryption type.
pub proof fn a_ticket_is_refused_for_what_it_lacks(ticket: Seq<u8>)
    ensures
        ({
            let realm = der::field_of(ticket, 1);
            let name = der::field_of(ticket, 2);
            let strings = der::field_of(name->Ok_0->0.content, 1);
            let components = der::elements(strings->Ok_0->0.content);
            let sealed = der::field_of(ticket, 3);
            let etype = der::field_of(sealed->Ok_0->0.content, 0);
            let kvno = der::field_of(sealed->Ok_0->0.content, 1);
            let says = ap_req::ticket_says(ticket);
            let lacks = |what: Seq<char>| Err::<ApReqView, Seq<char>>("the AP-REQ has no "@ + what);
            let has_realm = {
                &&& realm is Ok && realm->Ok_0 is Some && der::text_of(realm->Ok_0->0) is Some
                &&& der::text_of(realm->Ok_0->0)->0.len() > 0
            };
            let has_name = name is Ok && name->Ok_0 is Some;
            let has_strings = strings is Ok && strings->Ok_0 is Some;
            let has_service = {
                &&& components is Ok && components->Ok_0.len() > 0
                &&& forall|i: int|
                    0 <= i < components->Ok_0.len() ==> der::text_of(
                        #[trigger] components->Ok_0[i],
                    ) is Some
            };
            let has_etype = {
                &&& etype is Ok && etype->Ok_0 is Some
                &&& der::integer_of(etype->Ok_0->0) is Some
            };
            &&& realm matches Err(why) ==> says == Err::<ApReqView, Seq<char>>(why)
            &&& realm is Ok && !has_realm ==> says == lacks("realm in its ticket"@)
            &&& has_realm ==> (name matches Err(why) ==> says == Err::<ApReqView, Seq<char>>(why))
            &&& has_realm && name is Ok && !has_name ==> says == lacks(
                "service name in its ticket"@,
            )
            &&& has_realm && has_name && strings is Ok && !has_strings ==> says == lacks(
                "service name in its ticket"@,
            )
            &&& has_realm && has_name ==> (strings matches Err(why) ==> says == Err::<
                ApReqView,
                Seq<char>,
            >(why))
            &&& has_realm && has_name && has_strings ==> (components matches Err(why) ==> says
                == Err::<ApReqView, Seq<char>>(why))
            &&& has_realm && has_name && has_strings && components is Ok && !has_service ==> says
                == lacks("readable service name in its ticket"@)
            &&& has_realm && has_name && has_strings && has_service ==> {
                &&& sealed matches Err(why) ==> says == Err::<ApReqView, Seq<char>>(why)
                &&& sealed is Ok && sealed->Ok_0 is None ==> says == lacks(
                    "sealed part in its ticket"@,
                )
                &&& sealed is Ok && sealed->Ok_0 is Some ==> {
                    &&& etype matches Err(why) ==> says == Err::<ApReqView, Seq<char>>(why)
                    &&& etype is Ok && !has_etype ==> says == lacks(
                        "encryption type on its ticket"@,
                    )
                    &&& has_etype ==> (kvno matches Err(why) ==> says == Err::<
                        ApReqView,
                        Seq<char>,
                    >(why))
                }
            }
        }),
{
}

} // verus!
