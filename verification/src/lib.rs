//! Identify by kerberos: the ticket a `Negotiate` authorization offers, read
//! as far as it can be read and not verified.
//!
//! RFC 4559 carries Kerberos over HTTP as `Authorization: Negotiate
//! <base64>`: a GSS-API token, almost always SPNEGO, whose mechanism token is
//! a Kerberos AP-REQ: a service ticket the KDC sealed under the service's
//! key, and an authenticator the client sealed under the session key inside
//! it. This identifier unwraps the token, reads the AP-REQ, and presents a
//! claim under the mechanism `kerberos`, passed, with the whole token beside
//! it as the proof `kerberos.ap-req`, to be opened with the node's keytab.
//!
//! **The client principal is not in the clear, and this does not pretend it
//! is.** RFC 4120 puts `cname` in exactly two places in an AP-REQ, the
//! ticket's `EncTicketPart` and the `Authenticator`, and both are sealed.
//! What an AP-REQ does say in the clear is whom the ticket is *for*, so that
//! is what is presented:
//!
//! ```text
//! value                 HTTP/xmip.example@EXAMPLE.COM   the service principal of the ticket
//! kerberos.realm        EXAMPLE.COM                     evidence
//! kerberos.service      HTTP/xmip.example               evidence
//! kerberos.etype        18                              evidence: the ticket's encryption type
//! kerberos.client       sealed                          evidence: said, so nobody looks for it
//! kerberos.kvno         3                               evidence, where the KDC said
//! principal.service     HTTP/xmip.example@example.com   evidence, where the value has that form
//! kerberos.ap-req       the base64 after Negotiate      proof
//! ```
//!
//! The claim reads "somebody holding a ticket for this service in this
//! realm". The same service principal is written beside the value as
//! `principal.service`, in a canonical form that compares with what other
//! mechanisms carry. A name that has no such form gains no such evidence; and
//! the client principal, sealed, gains no `principal.user` here.
//!
//! A `Negotiate` value carrying an NTLM message presents nothing here, as
//! does a SPNEGO continuation with no token in it. A token that is Kerberos
//! and cannot be read is an error saying why. Only a pushed arrival carries a
//! passed claim.
//!
//! How an `Authorization` value is taken apart, how base64 is decoded and
//! which form of a service principal is canonical is for the caller to say:
//! [`Kerberos::identify`] is handed the three as functions, and what it
//! answers is stated for whatever they return.
//!
//! Property this technology reads: `http.header.authorization`.

pub mod ap_req;
pub mod arrival;
pub mod claim;
pub mod der;
pub mod encoding;
pub mod error;
pub mod evidence;
pub mod laws;
pub mod reading;
pub mod text;
pub mod wire;

use crate::ap_req::ApReq;
use crate::ap_req::ApReqView;
use crate::arrival::Arriving;
use crate::arrival::StreamArrival;
use crate::arrival::HTTP_AUTHORIZATION;
use crate::claim::Established;
use crate::claim::Mechanism;
use crate::claim::Presented;
use crate::claim::PresentedView;
use crate::error::IdentifyError;
use vstd::prelude::*;

verus! {

/// The evidence name carrying the ticket's realm.
pub const REALM: &'static str = "kerberos.realm";

/// The evidence name carrying the service the ticket is for, without realm.
pub const SERVICE: &'static str = "kerberos.service";

/// The evidence name carrying the ticket's encryption type number.
pub const ENCRYPTION_TYPE: &'static str = "kerberos.etype";

/// The evidence name carrying the service key's version.
pub const KEY_VERSION: &'static str = "kerberos.kvno";

/// What [`evidence::KERBEROS_CLIENT`] says: inside the sealed parts, unread.
pub const SEALED: &'static str = "sealed";

/// The authorization scheme that offers a ticket.
pub const NEGOTIATE: &'static str = "negotiate";

/// The claim a ticket makes, the token it was read out of as its proof.
pub open spec fn claim_of(request: ApReqView, token: Seq<char>) -> PresentedView {
    PresentedView {
        mechanism: "kerberos"@,
        value: ap_req::principal_of(request),
        established: Established::Passed,
        evidence: seq![
            (REALM@, request.realm),
            (SERVICE@, text::joined(request.service, "/"@)),
            (ENCRYPTION_TYPE@, text::decimal(request.encryption_type as nat)),
            (evidence::KERBEROS_CLIENT@, SEALED@),
        ] + match request.key_version {
            Some(version) => seq![(KEY_VERSION@, text::decimal(version as nat))],
            None => Seq::empty(),
        },
        proofs: seq![(evidence::KERBEROS_AP_REQ@, token)],
    }
}

/// The claim a token makes, given the bytes its base64 stands for, or none
/// where it is not base64.
pub open spec fn offer_of(token: Seq<char>, bytes: Option<Seq<u8>>) -> Result<
    Option<PresentedView>,
    Seq<char>,
> {
    match bytes {
        None => Err("the Negotiate token is not base64"@),
        Some(bytes) => match ap_req::token_says(bytes) {
            Err(why) => Err(why),
            Ok(None) => Ok(None),
            Ok(Some(request)) => Ok(Some(claim_of(request, token))),
        },
    }
}

/// The claim with the canonical form of its service principal beside it,
/// where it has one.
pub open spec fn with_principal(claim: PresentedView, canonical: Option<Seq<char>>) -> PresentedView {
    match canonical {
        Some(service) => PresentedView {
            evidence: claim.evidence.push((evidence::PRINCIPAL_SERVICE@, service)),
            ..claim
        },
        None => claim,
    }
}

/// What is answered to an arrival: `authorization` is the header's value,
/// `token` what stands in it under the scheme, `bytes` what that decodes to,
/// and `canonical` the canonical form of the claimed principal, each of them
/// looked at only where those before it are there.
pub open spec fn answer(
    arriving: Arriving,
    authorization: Option<Seq<char>>,
    token: Option<Seq<char>>,
    bytes: Option<Seq<u8>>,
    canonical: Option<Seq<char>>,
) -> Result<Option<PresentedView>, Seq<char>> {
    if arriving != Arriving::Pushed || authorization is None || token is None {
        Ok(None)
    } else {
        match offer_of(token->0, bytes) {
            Ok(Some(claim)) => Ok(Some(with_principal(claim, canonical))),
            other => other,
        }
    }
}

/// What a string holds, where there is one.
pub open spec fn text_if_any(string: Option<String>) -> Option<Seq<char>> {
    match string {
        Some(string) => Some(string@),
        None => None,
    }
}

/// What a list of octets holds, where there is one.
pub open spec fn octets_if_any(octets: Option<Vec<u8>>) -> Option<Seq<u8>> {
    match octets {
        Some(octets) => Some(octets@),
        None => None,
    }
}

/// Whether `under` may find this token in an authorization value.
pub open spec fn may_find<U>(under: U, value: Seq<char>, token: Option<Seq<char>>) -> bool where
    U: Fn(&str, &str) -> Option<String>,
 {
    exists|given: &str, scheme: &str, found: Option<String>|
        given@ == value && scheme@ == NEGOTIATE@ && text_if_any(found) == token
            && #[trigger] call_ensures(under, (given, scheme), found)
}

/// Whether `decode` may make these octets of a token.
pub open spec fn may_decode<D>(decode: D, token: Seq<char>, bytes: Option<Seq<u8>>) -> bool where
    D: Fn(&str) -> Option<Vec<u8>>,
 {
    exists|given: &str, made: Option<Vec<u8>>|
        given@ == token && octets_if_any(made) == bytes && #[trigger] call_ensures(
            decode,
            (given,),
            made,
        )
}

/// Whether `canonical` may give this form of a principal.
pub open spec fn may_canonicalize<C>(
    canonical: C,
    principal: Seq<char>,
    form: Option<Seq<char>>,
) -> bool where C: Fn(&str) -> Option<String> {
    exists|given: &str, made: Option<String>|
        given@ == principal && text_if_any(made) == form && #[trigger] call_ensures(
            canonical,
            (given,),
            made,
        )
}

/// Reads the Kerberos ticket a `Negotiate` authorization offers.
#[derive(Clone, Copy, Debug, Default)]
pub struct Kerberos;

impl Kerberos {
    /// The mechanism this presents claims under.
    pub fn mechanism(&self) -> (mechanism: Mechanism)
        ensures
            mechanism@ == "kerberos"@,
    {
        Mechanism::new("kerberos")
    }

    /// Present the ticket an arrival's `Authorization` header offers.
    ///
    /// `under` takes what a header value says under a scheme out of it,
    /// `decode` decodes base64, and `canonical` gives the canonical form of a
    /// service principal.
    ///
    /// `None` where the arrival was not pushed, has no such header, has one
    /// of another scheme, or carries somebody else's token.
    ///
    /// # Errors
    ///
    /// Where the token is not base64, or is Kerberos and cannot be read.
    pub fn identify<U, D, C>(
        &self,
        arrival: &StreamArrival<'_>,
        under: U,
        decode: D,
        canonical: C,
    ) -> (result: Result<Option<Presented>, IdentifyError>) where
        U: Fn(&str, &str) -> Option<String>,
        D: Fn(&str) -> Option<Vec<u8>>,
        C: Fn(&str) -> Option<String>,

        requires
            forall|value: &str, scheme: &str| #[trigger] call_requires(under, (value, scheme)),
            forall|token: &str| #[trigger] call_requires(decode, (token,)),
            forall|principal: &str| #[trigger] call_requires(canonical, (principal,)),
        ensures
            ({
                let authorization = arrival::property_of(arrival.facts@, HTTP_AUTHORIZATION@);
                exists|token: Option<Seq<char>>, bytes: Option<Seq<u8>>, form: Option<Seq<char>>|
                    {
                        &&& error::outcome_if_any(result) == #[trigger] answer(
                            arrival.arriving,
                            authorization,
                            token,
                            bytes,
                            form,
                        )
                        &&& arrival.arriving == Arriving::Pushed && authorization is Some ==> {
                            &&& may_find(under, authorization->0, token)
                            &&& token is Some ==> {
                                &&& may_decode(decode, token->0, bytes)
                                &&& offer_of(token->0, bytes) matches Ok(Some(claim))
                                    ==> may_canonicalize(canonical, claim.value, form)
                            }
                        }
                    }
            }),
            arrival.arriving != Arriving::Pushed ==> result matches Ok(None),
            (forall|i: int|
                0 <= i < arrival.facts@.len() ==> (#[trigger] arrival.facts@[i]).0@
                    != "http.header.authorization"@) ==> result matches Ok(None),
            forall|at: int|
                {
                    &&& arrival.arriving == Arriving::Pushed
                    &&& 0 <= at < arrival.facts@.len()
                    &&& (#[trigger] arrival.facts@[at]).0@ == "http.header.authorization"@
                    &&& forall|i: int|
                        0 <= i < at ==> (#[trigger] arrival.facts@[i]).0@
                            != "http.header.authorization"@
                } ==> exists|value: &str, scheme: &str, found: Option<String>|
                    {
                        &&& value@ == arrival.facts@[at].1@
                        &&& scheme@ == "negotiate"@
                        &&& #[trigger] call_ensures(under, (value, scheme), found)
                        &&& match found {
                            None => result matches Ok(None),
                            Some(token) => exists|given: &str, made: Option<Vec<u8>>|
                                {
                                    &&& given@ == token@
                                    &&& #[trigger] call_ensures(decode, (given,), made)
                                    &&& match made {
                                        None => result matches Err(error) && error.message@
                                            == "the Negotiate token is not base64"@,
                                        Some(bytes) => match ap_req::token_says(bytes@) {
                                            Err(why) => result matches Err(error) && error.message@
                                                == why,
                                            Ok(None) => result matches Ok(None),
                                            Ok(Some(request)) => result matches Ok(Some(claim))
                                                && exists|principal: &str, form: Option<String>|
                                                {
                                                    &&& principal@ == ap_req::principal_of(request)
                                                    &&& #[trigger] call_ensures(
                                                        canonical,
                                                        (principal,),
                                                        form,
                                                    )
                                                    &&& claim@ == with_principal(
                                                        claim_of(request, token@),
                                                        text_if_any(form),
                                                    )
                                                },
                                        },
                                    }
                                },
                        }
                    },
    {
        let ghost authorization = arrival::property_of(arrival.facts@, HTTP_AUTHORIZATION@);
        let ghost mut seen: (Option<Seq<char>>, Option<Seq<u8>>, Option<Seq<char>>) = (
            None,
            None,
            None,
        );
        let result = if arrival.arriving() != Arriving::Pushed {
            Ok(None)
        } else {
            match arrival.property(HTTP_AUTHORIZATION) {
                None => Ok(None),
                Some(value) => {
                    let found = under(value, NEGOTIATE);
                    proof {
                        seen.0 = text_if_any(found);
                    }
                    match found {
                        None => Ok(None),
                        Some(token) => {
                            let bytes = decode(token.as_str());
                            proof {
                                seen.1 = octets_if_any(bytes);
                            }
                            match self.offer(token.as_str(), bytes) {
                                Ok(Some(claim)) => {
                                    let form = canonical(claim.value.as_str());
                                    proof {
                                        seen.2 = text_if_any(form);
                                    }
                                    Ok(Some(self.with_service_principal(claim, form)))
                                },
                                other => other,
                            }
                        },
                    }
                },
            }
        };
        assert(error::outcome_if_any(result) == answer(
            arrival.arriving,
            authorization,
            seen.0,
            seen.1,
            seen.2,
        ));
        result
    }

    /// The claim a token makes, given the bytes it decodes to.
    pub fn offer(&self, token: &str, bytes: Option<Vec<u8>>) -> (result: Result<
        Option<Presented>,
        IdentifyError,
    >)
        ensures
            error::outcome_if_any(result) == offer_of(token@, octets_if_any(bytes)),
    {
        let bytes = match bytes {
            Some(bytes) => bytes,
            None => return Err(IdentifyError::new("the Negotiate token is not base64")),
        };
        match ApReq::from_token(bytes.as_slice())? {
            Some(request) => Ok(Some(self.present(&request, token))),
            None => Ok(None),
        }
    }

    /// The claim a ticket makes, the token it was read out of as its proof.
    pub fn present(&self, request: &ApReq, token: &str) -> (claim: Presented)
        ensures
            claim@ == claim_of(request@, token@),
    {
        let principal = request.service_principal();
        let service = text::join(&request.service, "/");
        let etype = text::decimal_text(request.encryption_type);
        let claim = Presented::passed(self.mechanism(), principal).with_evidence(
            REALM,
            request.realm.as_str(),
        ).with_evidence(SERVICE, service.as_str()).with_evidence(
            ENCRYPTION_TYPE,
            etype.as_str(),
        ).with_evidence(evidence::KERBEROS_CLIENT, SEALED).with_proof(
            evidence::KERBEROS_AP_REQ,
            token,
        );
        let claim = match request.key_version {
            Some(version) => claim.with_evidence(KEY_VERSION, text::decimal_text(version).as_str()),
            None => claim,
        };
        assert(claim@ =~= claim_of(request@, token@));
        claim
    }

    /// The claim with the canonical form of its service principal beside it,
    /// where it has one.
    pub fn with_service_principal(&self, claim: Presented, canonical: Option<String>) -> (presented: Presented)
        ensures
            presented@ == with_principal(claim@, text_if_any(canonical)),
    {
        match canonical {
            Some(service) => claim.with_evidence(evidence::PRINCIPAL_SERVICE, service.as_str()),
            None => claim,
        }
    }
}

} // verus!
