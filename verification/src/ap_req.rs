//! The AP-REQ a `Negotiate` token carries, and what of it is in the clear.
//!
//! RFC 4120 section 5.5.1 and 5.3, with the fields this reads marked:
//!
//! ```text
//! AP-REQ ::= [APPLICATION 14] SEQUENCE {
//!     pvno [0] INTEGER (5),   msg-type [1] INTEGER (14),   ap-options [2],
//!     ticket [3] Ticket,                                   <- read
//!     authenticator [4] EncryptedData }                    <- sealed: holds cname
//! Ticket ::= [APPLICATION 1] SEQUENCE {
//!     tkt-vno [0] INTEGER (5),
//!     realm [1] Realm,  sname [2] PrincipalName,           <- read
//!     enc-part [3] EncryptedData }                         <- etype and kvno read;
//!                                                             the cipher holds cname
//! ```
//!
//! The wrappings around it are RFC 2743 section 3.1 (`[APPLICATION 0]`, a
//! mechanism OID, the token), RFC 4121 section 4.1 (the two octets `01 00`
//! that say AP-REQ) and RFC 4178 (SPNEGO's `NegTokenInit` and
//! `NegTokenResp`, whose `mechToken` or `responseToken` is the same again).

use crate::der;
use crate::der::Element;
use crate::der::Tlv;
use crate::error;
use crate::error::IdentifyError;
use crate::text;
use vstd::prelude::*;
use vstd::slice::slice_subrange;

verus! {

/// 1.3.6.1.5.5.2, SPNEGO.
pub const SPNEGO: [u8; 6] = [0x2b, 0x06, 0x01, 0x05, 0x05, 0x02];

/// 1.2.840.113554.1.2.2, Kerberos 5.
pub const KERBEROS: [u8; 9] = [0x2a, 0x86, 0x48, 0x86, 0xf7, 0x12, 0x01, 0x02, 0x02];

/// 1.2.840.48018.1.2.2, the Kerberos 5 OID older Windows clients send.
pub const KERBEROS_LEGACY: [u8; 9] = [0x2a, 0x86, 0x48, 0x82, 0xf7, 0x12, 0x01, 0x02, 0x02];

/// What an NTLM message starts with, `NTLMSSP` and a zero octet; `Negotiate`
/// carries those too.
pub const NTLMSSP: [u8; 8] = [0x4e, 0x54, 0x4c, 0x4d, 0x53, 0x53, 0x50, 0x00];

/// RFC 4121 section 4.1: the token id of an AP-REQ.
pub const TOKEN_AP_REQ: [u8; 2] = [0x01, 0x00];

/// The `msg-type` of an AP-REQ, and its application tag number.
pub const AP_REQ: u8 = 14;

/// What an AP-REQ says in the clear.
#[verifier::ext_equal]
pub struct ApReqView {
    pub realm: Seq<char>,
    pub service: Seq<Seq<char>>,
    pub encryption_type: u32,
    pub key_version: Option<u32>,
}

/// What an AP-REQ says in the clear: the ticket's realm and the service it
/// is for. The client's name is not among it.
#[derive(Clone, Debug, Eq, PartialEq)]
pub struct ApReq {
    /// The realm that issued the ticket, which is the service's realm.
    pub realm: String,
    /// The service principal's components: `HTTP`, `xmip.example`.
    pub service: Vec<String>,
    /// The encryption type of the ticket's sealed part: 18 is
    /// `aes256-cts-hmac-sha1-96`.
    pub encryption_type: u32,
    /// The version of the service key the ticket is sealed under, where the
    /// KDC said.
    pub key_version: Option<u32>,
}

impl View for ApReq {
    type V = ApReqView;

    open spec fn view(&self) -> ApReqView {
        ApReqView {
            realm: self.realm@,
            service: text::texts(self.service@),
            encryption_type: self.encryption_type,
            key_version: self.key_version,
        }
    }
}

/// The service principal of a request: the components of the service with
/// slashes between them, an at sign and the realm.
pub open spec fn principal_of(request: ApReqView) -> Seq<char> {
    text::joined(request.service, "/"@) + "@"@ + request.realm
}

/// What is said of an AP-REQ that lacks something.
pub open spec fn missing(what: Seq<char>) -> Seq<char> {
    "the AP-REQ has no "@ + what
}

/// The realm a ticket names: the text of its field `[1]`, not empty.
pub open spec fn realm_of(ticket: Seq<u8>) -> Result<Seq<char>, Seq<char>> {
    match der::field_of(ticket, 1) {
        Err(why) => Err(why),
        Ok(Some(realm)) if der::text_of(realm) is Some && der::text_of(realm)->0.len() > 0 => Ok(
            der::text_of(realm)->0,
        ),
        Ok(_) => Err(missing("realm in its ticket"@)),
    }
}

/// The texts that elements are, where each is one.
pub open spec fn texts_of(components: Seq<Tlv>) -> Option<Seq<Seq<char>>> {
    if forall|i: int| 0 <= i < components.len() ==> der::text_of(#[trigger] components[i]) is Some {
        Some(components.map_values(|component: Tlv| der::text_of(component)->0))
    } else {
        None
    }
}

/// The components of a service name: the texts in its field `[1]`, one at
/// least.
pub open spec fn components_of(name: Seq<u8>) -> Result<Seq<Seq<char>>, Seq<char>> {
    match der::field_of(name, 1) {
        Err(why) => Err(why),
        Ok(None) => Err(missing("service name in its ticket"@)),
        Ok(Some(strings)) => match der::elements(strings.content) {
            Err(why) => Err(why),
            Ok(components) => match texts_of(components) {
                Some(texts) if texts.len() > 0 => Ok(texts),
                _ => Err(missing("readable service name in its ticket"@)),
            },
        },
    }
}

/// The components of the service a ticket is for: those of its field `[2]`.
pub open spec fn service_of(ticket: Seq<u8>) -> Result<Seq<Seq<char>>, Seq<char>> {
    match der::field_of(ticket, 2) {
        Err(why) => Err(why),
        Ok(None) => Err(missing("service name in its ticket"@)),
        Ok(Some(name)) => components_of(name.content),
    }
}

/// The encryption type and the key version in the fields `[0]` and `[1]` of
/// a sealed part. The version may be missing.
pub open spec fn sealing_of(sealed: Seq<u8>) -> Result<(u32, Option<u32>), Seq<char>> {
    match der::field_of(sealed, 0) {
        Err(why) => Err(why),
        Ok(Some(etype)) if der::integer_of(etype) is Some => match der::field_of(sealed, 1) {
            Err(why) => Err(why),
            Ok(Some(kvno)) => Ok((der::integer_of(etype)->0, der::integer_of(kvno))),
            Ok(None) => Ok((der::integer_of(etype)->0, None)),
        },
        Ok(_) => Err(missing("encryption type on its ticket"@)),
    }
}

/// What the fields of a ticket say: the realm, the service and how the rest
/// is sealed.
pub open spec fn ticket_says(ticket: Seq<u8>) -> Result<ApReqView, Seq<char>> {
    match (realm_of(ticket), service_of(ticket), der::field_of(ticket, 3)) {
        (Err(why), _, _) => Err(why),
        (_, Err(why), _) => Err(why),
        (_, _, Err(why)) => Err(why),
        (_, _, Ok(None)) => Err(missing("sealed part in its ticket"@)),
        (Ok(realm), Ok(service), Ok(Some(sealed))) => match sealing_of(sealed.content) {
            Err(why) => Err(why),
            Ok((encryption_type, key_version)) => Ok(
                ApReqView { realm, service, encryption_type, key_version },
            ),
        },
    }
}

/// Whether a field holds this number.
pub open spec fn says_number(field: Option<Tlv>, number: u32) -> bool {
    field is Some && der::integer_of(field->0) == Some(number)
}

/// What the fields of an AP-REQ say: that it is Kerberos 5, message type 14,
/// and its ticket.
pub open spec fn request_says(request: Seq<u8>) -> Result<ApReqView, Seq<char>> {
    match (der::field_of(request, 0), der::field_of(request, 1), der::field_of(request, 3)) {
        (Err(why), _, _) => Err(why),
        (_, Err(why), _) => Err(why),
        (Ok(version), Ok(kind), found) => if !says_number(version, 5) || !says_number(
            kind,
            AP_REQ as u32,
        ) {
            Err("the AP-REQ is not Kerberos 5 message type 14"@)
        } else {
            match found {
                Err(why) => Err(why),
                Ok(None) => Err(missing("ticket"@)),
                Ok(Some(ticket)) => if ticket.tag != der::application(1) {
                    Err("the AP-REQ's ticket is not a Ticket"@)
                } else {
                    match der::expected(ticket.content, der::SEQUENCE, "a Ticket"@) {
                        Err(why) => Err(why),
                        Ok(fields) => ticket_says(fields.content),
                    }
                },
            }
        },
    }
}

/// What bytes say that are to be a bare AP-REQ.
pub open spec fn message_says(message: Seq<u8>) -> Result<ApReqView, Seq<char>> {
    match der::expected(message, der::application(AP_REQ), "an AP-REQ"@) {
        Err(why) => Err(why),
        Ok(outer) => match der::expected(outer.content, der::SEQUENCE, "an AP-REQ"@) {
            Err(why) => Err(why),
            Ok(request) => request_says(request.content),
        },
    }
}

/// What one layer of a token comes to.
pub enum Inside {
    /// Somebody else's, or nothing at all.
    Nobody,
    /// Bytes that are to be an AP-REQ.
    Message(Seq<u8>),
    /// A token again.
    Token(Seq<u8>),
    /// Something that cannot be read, and why.
    Refused(Seq<char>),
}

/// What a SPNEGO `mechToken` or `responseToken` comes to: an `OCTET STRING`
/// holding the chosen mechanism's own token.
pub open spec fn mechanism_token_layer(token: Option<Tlv>) -> Inside {
    match token {
        None => Inside::Nobody,
        Some(token) => if token.tag == der::OCTET_STRING {
            Inside::Token(token.content)
        } else {
            Inside::Refused("the SPNEGO mechanism token is not an OCTET STRING"@)
        },
    }
}

/// What the field `[2]` of a SPNEGO message with these contents comes to.
pub open spec fn negotiation_layer(fields: Seq<u8>) -> Inside {
    match der::field_of(fields, 2) {
        Err(why) => Inside::Refused(why),
        Ok(token) => mechanism_token_layer(token),
    }
}

/// What follows the OID of SPNEGO comes to: a `NegTokenInit`.
pub open spec fn spnego_layer(inner: Seq<u8>) -> Inside {
    match der::expected(inner, der::context(0), "a NegTokenInit"@) {
        Err(why) => Inside::Refused(why),
        Ok(init) => match der::expected(init.content, der::SEQUENCE, "a NegTokenInit"@) {
            Err(why) => Inside::Refused(why),
            Ok(init) => negotiation_layer(init.content),
        },
    }
}

/// What the contents of a GSS-API token come to (RFC 2743 section 3.1): an
/// OID, then whatever the mechanism defines.
pub open spec fn gss_layer(content: Seq<u8>) -> Inside {
    match der::first_element(content) {
        Err(why) => Inside::Refused(why),
        Ok((mechanism, inner)) => if mechanism.tag != der::OID {
            Inside::Refused("the GSS-API token does not start with a mechanism OID"@)
        } else if mechanism.content == SPNEGO@ {
            spnego_layer(inner)
        } else if mechanism.content == KERBEROS@ || mechanism.content == KERBEROS_LEGACY@ {
            if inner.len() >= 2 && inner.take(2) == TOKEN_AP_REQ@ {
                Inside::Message(inner.skip(2))
            } else {
                Inside::Refused("the Kerberos token is not an AP-REQ: its token id is not 01 00"@)
            }
        } else {
            Inside::Refused(
                "the GSS-API token names a mechanism that is neither SPNEGO nor Kerberos"@,
            )
        },
    }
}

/// What is said of a token that starts with a tag of nobody's.
pub open spec fn stray_tag(tag: u8) -> Seq<char> {
    "the Negotiate token starts with tag "@ + text::hexadecimal(tag)
        + ", which is neither GSS-API, SPNEGO nor an AP-REQ"@
}

/// What the outermost layer of a token comes to.
pub open spec fn outer_layer(token: Seq<u8>) -> Inside {
    if NTLMSSP@.is_prefix_of(token) {
        Inside::Nobody
    } else {
        match der::first_element(token) {
            Err(why) => Inside::Refused(why),
            Ok((outer, _)) => if outer.tag == der::application(0) {
                gss_layer(outer.content)
            } else if outer.tag == der::application(AP_REQ) {
                Inside::Message(token)
            } else if outer.tag == der::context(1) {
                match der::expected(outer.content, der::SEQUENCE, "a NegTokenResp"@) {
                    Err(why) => Inside::Refused(why),
                    Ok(response) => negotiation_layer(response.content),
                }
            } else {
                Inside::Refused(stray_tag(outer.tag))
            },
        }
    }
}

/// What a token says, its layers taken off one after another.
pub open spec fn token_says(token: Seq<u8>) -> Result<Option<ApReqView>, Seq<char>>
    decreases token.len(),
{
    match outer_layer(token) {
        Inside::Nobody => Ok(None),
        Inside::Message(message) => request_if_any(message_says(message)),
        Inside::Token(inner) => {
            proof {
                layers_shrink(token);
            }
            token_says(inner)
        },
        Inside::Refused(why) => Err(why),
    }
}

/// An AP-REQ that was read is one that was found.
pub open spec fn request_if_any(request: Result<ApReqView, Seq<char>>) -> Result<
    Option<ApReqView>,
    Seq<char>,
> {
    match request {
        Ok(request) => Ok(Some(request)),
        Err(why) => Err(why),
    }
}

/// What a layer says, once what is inside it has been read.
pub open spec fn layer_says(layer: Inside) -> Result<Option<ApReqView>, Seq<char>> {
    match layer {
        Inside::Nobody => Ok(None),
        Inside::Message(message) => request_if_any(message_says(message)),
        Inside::Token(inner) => token_says(inner),
        Inside::Refused(why) => Err(why),
    }
}

impl ApReq {
    /// The service principal as Kerberos writes one: `HTTP/xmip.example@REALM`.
    #[must_use]
    pub fn service_principal(&self) -> (principal: String)
        ensures
            principal@ == principal_of(self@),
    {
        let mut principal = text::join(&self.service, "/");
        principal.append("@");
        principal.append(self.realm.as_str());
        principal
    }

    /// Read a `Negotiate` token: a GSS-API token carrying Kerberos directly
    /// or under SPNEGO, or a bare AP-REQ.
    ///
    /// `None` where the token is somebody else's: an NTLM message, or a
    /// SPNEGO continuation with no token in it.
    ///
    /// # Errors
    ///
    /// Where the token is not DER, names a mechanism that is neither SPNEGO
    /// nor Kerberos, carries a Kerberos message that is not an AP-REQ, or an
    /// AP-REQ whose ticket cannot be read.
    pub fn from_token(token: &[u8]) -> (result: Result<Option<Self>, IdentifyError>)
        ensures
            error::outcome_if_any(result) == token_says(token@),
        decreases token@.len(), 2nat,
    {
        if starts_with(token, NTLMSSP.as_slice()) {
            return Ok(None);
        }
        let (outer, _) = Element::read(token)?;
        if outer.tag == der::application(0) {
            Self::from_gss(outer)
        } else if outer.tag == der::application(AP_REQ) {
            Ok(Some(Self::parse(token)?))
        } else if outer.tag == der::context(1) {
            // The later legs of a SPNEGO exchange.
            let response = Element::expect(outer.content, der::SEQUENCE, "a NegTokenResp")?;
            let inner = response.field(2)?;
            proof {
                lemma_field_is_inside(response@.content, 2);
            }
            Self::from_mechanism_token(inner)
        } else {
            let mut message = "the Negotiate token starts with tag ".to_owned();
            message.append(text::hexadecimal_text(outer.tag).as_str());
            message.append(", which is neither GSS-API, SPNEGO nor an AP-REQ");
            Err(IdentifyError { message })
        }
    }

    /// RFC 2743 section 3.1: an OID, then whatever the mechanism defines.
    fn from_gss(outer: Element<'_>) -> (result: Result<Option<Self>, IdentifyError>)
        ensures
            error::outcome_if_any(result) == layer_says(gss_layer(outer@.content)),
        decreases outer@.content.len(), 1nat,
    {
        let (mechanism, inner) = Element::read(outer.content)?;
        if mechanism.tag != der::OID {
            return Err(IdentifyError::new("the GSS-API token does not start with a mechanism OID"));
        }
        if same_octets(mechanism.content, SPNEGO.as_slice()) {
            let init = Element::expect(inner, der::context(0), "a NegTokenInit")?;
            let init = Element::expect(init.content, der::SEQUENCE, "a NegTokenInit")?;
            let token = init.field(2)?;
            proof {
                lemma_field_is_inside(init@.content, 2);
            }
            Self::from_mechanism_token(token)
        } else if same_octets(mechanism.content, KERBEROS.as_slice()) || same_octets(
            mechanism.content,
            KERBEROS_LEGACY.as_slice(),
        ) {
            if starts_with(inner, TOKEN_AP_REQ.as_slice()) {
                let message = slice_subrange(inner, 2, inner.len());
                Ok(Some(Self::parse(message)?))
            } else {
                Err(
                    IdentifyError::new(
                        "the Kerberos token is not an AP-REQ: its token id is not 01 00",
                    ),
                )
            }
        } else {
            Err(
                IdentifyError::new(
                    "the GSS-API token names a mechanism that is neither SPNEGO nor Kerberos",
                ),
            )
        }
    }

    /// A SPNEGO `mechToken` or `responseToken`: an `OCTET STRING` holding the
    /// chosen mechanism's own token.
    fn from_mechanism_token(token: Option<Element<'_>>) -> (result: Result<
        Option<Self>,
        IdentifyError,
    >)
        ensures
            error::outcome_if_any(result) == layer_says(
                mechanism_token_layer(
                    match token {
                        Some(token) => Some(token@),
                        None => None,
                    },
                ),
            ),
        decreases
                match token {
                    Some(token) => token@.content.len(),
                    None => 0,
                },
                3nat,
    {
        match token {
            None => Ok(None),
            Some(token) => if token.tag == der::OCTET_STRING {
                Self::from_token(token.content)
            } else {
                Err(IdentifyError::new("the SPNEGO mechanism token is not an OCTET STRING"))
            },
        }
    }

    /// Read a bare AP-REQ.
    ///
    /// # Errors
    ///
    /// Where the bytes are not an AP-REQ of Kerberos 5, or its ticket lacks
    /// a realm, a service name or a sealed part.
    pub fn parse(message: &[u8]) -> (result: Result<Self, IdentifyError>)
        ensures
            error::outcome(result) == message_says(message@),
    {
        let request = Element::expect(message, der::application(AP_REQ), "an AP-REQ")?;
        let request = Element::expect(request.content, der::SEQUENCE, "an AP-REQ")?;
        let version = request.field(0)?;
        let kind = request.field(1)?;
        if !Self::is_number(version, 5) || !Self::is_number(kind, AP_REQ as u32) {
            return Err(IdentifyError::new("the AP-REQ is not Kerberos 5 message type 14"));
        }
        let ticket = match request.field(3)? {
            Some(ticket) => ticket,
            None => return Err(Self::lacks("ticket")),
        };
        if ticket.tag != der::application(1) {
            return Err(IdentifyError::new("the AP-REQ's ticket is not a Ticket"));
        }
        let ticket = Element::expect(ticket.content, der::SEQUENCE, "a Ticket")?;

        let realm = Self::realm(&ticket)?;
        let service = Self::service(&ticket)?;
        let sealed = match ticket.field(3)? {
            Some(sealed) => sealed,
            None => return Err(Self::lacks("sealed part in its ticket")),
        };
        let encryption_type: u32 = match Self::number(sealed.field(0)?) {
            Some(etype) => etype,
            None => return Err(Self::lacks("encryption type on its ticket")),
        };
        let key_version: Option<u32> = Self::number(sealed.field(1)?);
        Ok(ApReq { realm, service, encryption_type, key_version })
    }

    /// The error of an AP-REQ that lacks something.
    fn lacks(what: &str) -> (error: IdentifyError)
        ensures
            error.message@ == missing(what@),
    {
        let mut message = "the AP-REQ has no ".to_owned();
        message.append(what);
        IdentifyError { message }
    }

    /// The number in a field, where there is one.
    fn number(field: Option<Element<'_>>) -> (value: Option<u32>)
        ensures
            value == match field {
                Some(field) => der::integer_of(field@),
                None => None,
            },
    {
        match field {
            Some(field) => field.integer(),
            None => None,
        }
    }

    /// Whether a field holds this number.
    fn is_number(field: Option<Element<'_>>, number: u32) -> (same: bool)
        ensures
            same == says_number(
                match field {
                    Some(field) => Some(field@),
                    None => None,
                },
                number,
            ),
    {
        match Self::number(field) {
            Some(value) => value == number,
            None => false,
        }
    }

    /// The realm a ticket names.
    fn realm(ticket: &Element<'_>) -> (result: Result<String, IdentifyError>)
        ensures
            error::outcome(result) == realm_of(ticket@.content),
    {
        match ticket.field(1)? {
            Some(realm) => match realm.text() {
                Some(realm) if !realm.is_empty() => Ok(realm.to_owned()),
                _ => Err(Self::lacks("realm in its ticket")),
            },
            None => Err(Self::lacks("realm in its ticket")),
        }
    }

    /// The components of the service a ticket is for.
    fn service(ticket: &Element<'_>) -> (result: Result<Vec<String>, IdentifyError>)
        ensures
            match result {
                Ok(service) => service_of(ticket@.content) == Ok::<Seq<Seq<char>>, Seq<char>>(
                    text::texts(service@),
                ),
                Err(error) => service_of(ticket@.content) == Err::<Seq<Seq<char>>, Seq<char>>(
                    error.message@,
                ),
            },
    {
        let name = match ticket.field(2)? {
            Some(name) => name,
            None => return Err(Self::lacks("service name in its ticket")),
        };
        let strings = match name.field(1)? {
            Some(strings) => strings,
            None => return Err(Self::lacks("service name in its ticket")),
        };
        let components = strings.children()?;
        let mut service: Vec<String> = Vec::new();
        let mut at: usize = 0;
        while at < components.len()
            invariant
                at <= components.len(),
                service.len() == at,
                service_of(ticket@.content) == components_of(name@.content),
                der::field_of(name@.content, 1) == Ok::<Option<Tlv>, Seq<char>>(Some(strings@)),
                der::elements(strings@.content) == Ok::<Seq<Tlv>, Seq<char>>(
                    der::views(components@),
                ),
                forall|i: int|
                    0 <= i < at ==> der::text_of(#[trigger] der::views(components@)[i]) == Some(
                        service@[i]@,
                    ),
            decreases components.len() - at,
        {
            assert(der::views(components@)[at as int] == components@[at as int]@);
            match components[at].text() {
                Some(component) => service.push(component.to_owned()),
                None => return Err(Self::lacks("readable service name in its ticket")),
            }
            at = at + 1;
        }
        let ghost names = der::views(components@);
        assert(texts_of(names) is Some && texts_of(names)->0 =~= text::texts(service@)) by {
            assert forall|i: int| 0 <= i < names.len() implies der::text_of(
                #[trigger] names[i],
            ) is Some by {
                assert(der::text_of(der::views(components@)[i]) == Some(service@[i]@));
            }
        }
        if service.len() == 0 {
            return Err(Self::lacks("readable service name in its ticket"));
        }
        Ok(service)
    }
}

/// Whether octets start with these.
fn starts_with(octets: &[u8], prefix: &[u8]) -> (starts: bool)
    ensures
        starts == prefix@.is_prefix_of(octets@),
{
    if octets.len() < prefix.len() {
        return false;
    }
    same_octets(slice_subrange(octets, 0, prefix.len()), prefix)
}

/// Whether octets are these.
fn same_octets(left: &[u8], right: &[u8]) -> (same: bool)
    ensures
        same == (left@ == right@),
{
    if left.len() != right.len() {
        return false;
    }
    let mut at: usize = 0;
    while at < left.len()
        invariant
            at <= left.len() == right.len(),
            forall|i: int| 0 <= i < at ==> left@[i] == right@[i],
        decreases left.len() - at,
    {
        if left[at] != right[at] {
            return false;
        }
        at = at + 1;
    }
    assert(left@ =~= right@);
    true
}

/// Each of the elements that bytes are is shorter than the bytes.
proof fn lemma_elements_are_inside(bytes: Seq<u8>, at: int)
    requires
        der::elements(bytes) matches Ok(all) && 0 <= at < all.len(),
    ensures
        der::elements(bytes)->Ok_0[at].content.len() < bytes.len(),
    decreases bytes.len(),
{
    let (_, rest) = der::first_element(bytes)->Ok_0;
    if at > 0 {
        lemma_elements_are_inside(rest, at - 1);
    }
}

/// An element found by its tag is one of those searched.
proof fn lemma_tagged_is_one_of(all: Seq<Tlv>, tag: u8)
    ensures
        der::tagged(all, tag) matches Some(found) ==> exists|i: int|
            0 <= i < all.len() && #[trigger] all[i] == found,
    decreases all.len(),
{
    if all.len() > 0 && all[0].tag != tag {
        lemma_tagged_is_one_of(all.drop_first(), tag);
        if let Some(found) = der::tagged(all, tag) {
            let i = choose|i: int|
                0 <= i < all.drop_first().len() && #[trigger] all.drop_first()[i] == found;
            assert(all[i + 1] == found);
        }
    }
}

/// What a field holds is shorter than the contents it stands in.
proof fn lemma_field_is_inside(content: Seq<u8>, number: u8)
    ensures
        der::field_of(content, number) matches Ok(Some(inner)) ==> inner.content.len()
            < content.len(),
{
    reveal(der::field_of);
    if let Ok(Some(_)) = der::field_of(content, number) {
        let fields = der::elements(content)->Ok_0;
        lemma_tagged_is_one_of(fields, der::context(number));
        let field = der::tagged(fields, der::context(number))->0;
        let at = choose|i: int| 0 <= i < fields.len() && #[trigger] fields[i] == field;
        lemma_elements_are_inside(content, at);
    }
}

/// A token inside a token is shorter.
pub proof fn layers_shrink(token: Seq<u8>)
    ensures
        outer_layer(token) matches Inside::Token(inner) ==> inner.len() < token.len(),
{
    if let Ok((outer, _)) = der::first_element(token) {
        if let Ok(response) = der::expected(outer.content, der::SEQUENCE, "a NegTokenResp"@) {
            lemma_field_is_inside(response.content, 2);
        }
        if let Ok((_, inner)) = der::first_element(outer.content) {
            if let Ok(init) = der::expected(inner, der::context(0), "a NegTokenInit"@) {
                if let Ok(init) = der::expected(init.content, der::SEQUENCE, "a NegTokenInit"@) {
                    lemma_field_is_inside(init.content, 2);
                }
            }
        }
    }
}

} // verus!
