//! What holds of every answer to an arrival.

use crate::ap_req;
use crate::ap_req::ApReqView;
use crate::arrival;
use crate::arrival::Arriving;
use crate::claim;
use crate::claim::Established;
use crate::claim::PresentedView;
use crate::der::Tlv;
use crate::evidence;
use crate::reading;
use crate::text;
use crate::wire;
use crate::wire::Unread;
use vstd::prelude::*;

verus! {

/// What is answered to a pushed arrival whose authorization offers a token
/// that stands for these bytes.
pub open spec fn answer_to(
    authorization: Seq<char>,
    token: Seq<char>,
    bytes: Seq<u8>,
    canonical: Option<Seq<char>>,
) -> Result<Option<PresentedView>, Seq<char>> {
    crate::answer(Arriving::Pushed, Some(authorization), Some(token), Some(bytes), canonical)
}

/// Only a pushed arrival carries a claim.
pub proof fn only_a_pushed_arrival_presents(
    arriving: Arriving,
    authorization: Option<Seq<char>>,
    token: Option<Seq<char>>,
    bytes: Option<Seq<u8>>,
    canonical: Option<Seq<char>>,
)
    requires
        arriving != Arriving::Pushed,
    ensures
        crate::answer(arriving, authorization, token, bytes, canonical) == Ok::<
            Option<PresentedView>,
            Seq<char>,
        >(None),
{
}

/// An authorization that offers nothing under the scheme presents nothing,
/// as does none.
pub proof fn nothing_offered_presents_nothing(
    arriving: Arriving,
    authorization: Option<Seq<char>>,
    token: Option<Seq<char>>,
    bytes: Option<Seq<u8>>,
    canonical: Option<Seq<char>>,
)
    requires
        authorization is None || token is None,
    ensures
        crate::answer(arriving, authorization, token, bytes, canonical) == Ok::<
            Option<PresentedView>,
            Seq<char>,
        >(None),
{
}

/// The names of evidence are all different.
proof fn lemma_names()
    ensures
        crate::REALM@ != crate::SERVICE@,
        crate::REALM@ != crate::ENCRYPTION_TYPE@,
        crate::REALM@ != evidence::KERBEROS_CLIENT@,
        crate::REALM@ != crate::KEY_VERSION@,
        crate::REALM@ != evidence::PRINCIPAL_SERVICE@,
        crate::REALM@ != evidence::PRINCIPAL_USER@,
        crate::SERVICE@ != crate::ENCRYPTION_TYPE@,
        crate::SERVICE@ != evidence::KERBEROS_CLIENT@,
        crate::SERVICE@ != crate::KEY_VERSION@,
        crate::SERVICE@ != evidence::PRINCIPAL_SERVICE@,
        crate::SERVICE@ != evidence::PRINCIPAL_USER@,
        crate::ENCRYPTION_TYPE@ != evidence::KERBEROS_CLIENT@,
        crate::ENCRYPTION_TYPE@ != crate::KEY_VERSION@,
        crate::ENCRYPTION_TYPE@ != evidence::PRINCIPAL_SERVICE@,
        crate::ENCRYPTION_TYPE@ != evidence::PRINCIPAL_USER@,
        evidence::KERBEROS_CLIENT@ != crate::KEY_VERSION@,
        evidence::KERBEROS_CLIENT@ != evidence::PRINCIPAL_SERVICE@,
        evidence::KERBEROS_CLIENT@ != evidence::PRINCIPAL_USER@,
        crate::KEY_VERSION@ != evidence::PRINCIPAL_SERVICE@,
        crate::KEY_VERSION@ != evidence::PRINCIPAL_USER@,
        evidence::PRINCIPAL_SERVICE@ != evidence::PRINCIPAL_USER@,
{
    reveal_strlit("kerberos.realm");
    reveal_strlit("kerberos.service");
    reveal_strlit("kerberos.etype");
    reveal_strlit("kerberos.client");
    reveal_strlit("kerberos.kvno");
    reveal_strlit("principal.service");
    reveal_strlit("principal.user");
    assert(crate::REALM@.len() == 14 && crate::SERVICE@.len() == 16);
    assert(crate::ENCRYPTION_TYPE@.len() == 14 && crate::KEY_VERSION@.len() == 13);
    assert(evidence::KERBEROS_CLIENT@.len() == 15);
    assert(evidence::PRINCIPAL_SERVICE@.len() == 17 && evidence::PRINCIPAL_USER@.len() == 14);
    assert(crate::REALM@[9] == 'r' && crate::ENCRYPTION_TYPE@[9] == 'e');
    assert(crate::REALM@[0] == 'k' && crate::ENCRYPTION_TYPE@[0] == 'k');
    assert(evidence::PRINCIPAL_USER@[0] == 'p');
}

/// The value under a name is that of the first entry with the name.
proof fn lemma_entry(list: Seq<(Seq<char>, Seq<char>)>, at: int, name: Seq<char>)
    requires
        0 <= at <= list.len(),
        forall|i: int| 0 <= i < at ==> (#[trigger] list[i]).0 != name,
        at < list.len() ==> list[at].0 == name,
    ensures
        claim::entry_of(list, name) == if at < list.len() {
            Some(list[at].1)
        } else {
            None
        },
{
    claim::the_first_entry_of_a_name_is_found(list, at, name);
}

/// Each piece of evidence beside a claim is what the ticket says, under its
/// own name: the realm, the service, the encryption type, that the client is
/// sealed, the key version where there is one, and the canonical principal
/// where there is one. No user principal is among it.
pub proof fn the_evidence_is_what_the_ticket_says(
    request: ApReqView,
    token: Seq<char>,
    canonical: Option<Seq<char>>,
)
    ensures
        ({
            let beside = crate::with_principal(
                crate::claim_of(request, token),
                canonical,
            ).evidence;
            &&& claim::entry_of(beside, crate::REALM@) == Some(request.realm)
            &&& claim::entry_of(beside, crate::SERVICE@) == Some(
                text::joined(request.service, "/"@),
            )
            &&& claim::entry_of(beside, crate::ENCRYPTION_TYPE@) == Some(
                text::decimal(request.encryption_type as nat),
            )
            &&& claim::entry_of(beside, evidence::KERBEROS_CLIENT@) == Some(crate::SEALED@)
            &&& claim::entry_of(beside, crate::KEY_VERSION@) == match request.key_version {
                Some(version) => Some(text::decimal(version as nat)),
                None => None,
            }
            &&& claim::entry_of(beside, evidence::PRINCIPAL_SERVICE@) == canonical
            &&& claim::entry_of(beside, evidence::PRINCIPAL_USER@) is None
        }),
{
    let beside = crate::with_principal(crate::claim_of(request, token), canonical).evidence;
    let own: int = if request.key_version is Some {
        5
    } else {
        4
    };
    lemma_names();
    assert(own <= beside.len());
    assert(canonical is None <==> own == beside.len());
    lemma_entry(beside, 0, crate::REALM@);
    lemma_entry(beside, 1, crate::SERVICE@);
    lemma_entry(beside, 2, crate::ENCRYPTION_TYPE@);
    lemma_entry(beside, 3, evidence::KERBEROS_CLIENT@);
    lemma_entry(
        beside,
        if own == 5 {
            4
        } else {
            beside.len() as int
        },
        crate::KEY_VERSION@,
    );
    lemma_entry(beside, own, evidence::PRINCIPAL_SERVICE@);
    lemma_entry(beside, beside.len() as int, evidence::PRINCIPAL_USER@);
}

/// Every claim is passed, under the mechanism of Kerberos, and carries the
/// token it was read out of, whole, as its only proof.
pub proof fn every_claim_is_passed_with_its_token(
    arriving: Arriving,
    authorization: Option<Seq<char>>,
    token: Option<Seq<char>>,
    bytes: Option<Seq<u8>>,
    canonical: Option<Seq<char>>,
)
    ensures
        crate::answer(arriving, authorization, token, bytes, canonical) matches Ok(Some(claim))
            ==> {
            &&& token is Some
            &&& claim.mechanism == "kerberos"@
            &&& claim.established == Established::Passed
            &&& claim.proofs == seq![(evidence::KERBEROS_AP_REQ@, token->0)]
        },
{
}

/// A ticket for a service, offered in a pushed arrival under SPNEGO, in the
/// first message of an exchange or a later one, under GSS-API alone or bare,
/// is presented by the service it is for, whatever is sealed in it.
pub proof fn a_ticket_is_presented_by_the_service_it_is_for(
    mechanism: Seq<u8>,
    before: Seq<Tlv>,
    after: Seq<Tlv>,
    says: ApReqView,
    unread: Unread,
    authorization: Seq<char>,
    token: Seq<char>,
    canonical: Option<Seq<char>>,
)
    requires
        says.realm.len() > 0,
        says.service.len() > 0,
        wire::names_kerberos(mechanism),
        wire::beside_token(before),
        wire::beside_token(after),
    ensures
        ({
            let message = wire::ap_req_octets(says, unread);
            let inner = wire::gss(mechanism, ap_req::TOKEN_AP_REQ@ + message);
            let init = wire::neg_token_init(wire::negotiation(before, inner, after));
            let response = wire::neg_token_resp(wire::negotiation(before, inner, after));
            let claim = crate::with_principal(crate::claim_of(says, token), canonical);
            let presented = Ok::<Option<PresentedView>, Seq<char>>(Some(claim));
            &&& message.len() <= usize::MAX ==> answer_to(authorization, token, message, canonical)
                == presented
            &&& inner.len() <= usize::MAX ==> answer_to(authorization, token, inner, canonical)
                == presented
            &&& init.len() <= usize::MAX ==> answer_to(authorization, token, init, canonical)
                == presented
            &&& response.len() <= usize::MAX ==> answer_to(
                authorization,
                token,
                response,
                canonical,
            ) == presented
        }),
{
    let message = wire::ap_req_octets(says, unread);
    let content = wire::request(wire::request_fields(says, unread)).content;
    wire::an_ap_req_is_found_under_every_wrapping(mechanism, before, content, after);
    wire::lemma_wrappings_grow(mechanism, before, message, after);
    if message.len() <= usize::MAX {
        wire::what_an_ap_req_says_is_read_back(says, unread, Seq::empty());
        assert(message + Seq::<u8>::empty() =~= message);
    }
}

/// A claim in print shows nothing of what proves it.
pub proof fn what_proves_a_claim_is_not_printed(
    claim: PresentedView,
    proofs: Seq<(Seq<char>, Seq<char>)>,
)
    ensures
        claim::printed_form((PresentedView { proofs, ..claim })) == claim::printed_form(claim),
{
}

/// Two tokens that say the same in the clear are answered alike, and the
/// claims they make are printed the same: neither a token nor what is sealed
/// in it shows in print.
pub proof fn a_claim_is_printed_by_what_its_ticket_says(
    authorization: Seq<char>,
    token: Seq<char>,
    bytes: Seq<u8>,
    other_authorization: Seq<char>,
    other_token: Seq<char>,
    other_bytes: Seq<u8>,
    canonical: Option<Seq<char>>,
)
    requires
        ap_req::token_says(bytes) == ap_req::token_says(other_bytes),
    ensures
        match (
            answer_to(authorization, token, bytes, canonical),
            answer_to(other_authorization, other_token, other_bytes, canonical),
        ) {
            (Ok(Some(claim)), Ok(Some(other))) => claim::printed_form(claim)
                == claim::printed_form(other),
            (answer, other) => answer == other,
        },
{
}

/// The names under which evidence and proof are written, the property and the
/// scheme they are read from, and what is said of the client.
pub proof fn what_is_written_and_read_has_its_name()
    ensures
        crate::REALM@ == "kerberos.realm"@,
        crate::SERVICE@ == "kerberos.service"@,
        crate::ENCRYPTION_TYPE@ == "kerberos.etype"@,
        crate::KEY_VERSION@ == "kerberos.kvno"@,
        crate::SEALED@ == "sealed"@,
        crate::NEGOTIATE@ == "negotiate"@,
        arrival::HTTP_AUTHORIZATION@ == "http.header.authorization"@,
        evidence::KERBEROS_CLIENT@ == "kerberos.client"@,
        evidence::KERBEROS_AP_REQ@ == "kerberos.ap-req"@,
        evidence::PRINCIPAL_SERVICE@ == "principal.service"@,
        evidence::PRINCIPAL_USER@ == "principal.user"@,
{
}

/// A value that is there is taken for what it holds, whatever that is, and
/// one that is not there for none.
pub proof fn what_is_there_is_taken_for_what_it_holds(string: String, octets: Vec<u8>)
    ensures
        crate::text_if_any(Some(string)) == Some(string@),
        crate::text_if_any(None) is None,
        crate::octets_if_any(Some(octets)) == Some(octets@),
        crate::octets_if_any(None) is None,
{
}

/// What a claim says of a ticket is read back out of it. Its value ends with
/// an at sign and the realm behind the components of the service, and so
/// does the evidence name them; the encryption type and the key version are
/// read back out of their digits; and the token is the one proof.
pub proof fn a_claim_reads_back_as_its_ticket(
    request: ApReqView,
    token: Seq<char>,
    canonical: Option<Seq<char>>,
)
    ensures
        ({
            let claim = crate::with_principal(crate::claim_of(request, token), canonical);
            let beside = claim.evidence;
            let at = claim.value.len() - request.realm.len() - 1;
            let version: int = if request.key_version is Some {
                1
            } else {
                0
            };
            let principal: int = if canonical is Some {
                1
            } else {
                0
            };
            &&& claim.mechanism == "kerberos"@
            &&& claim.established == Established::Passed
            &&& claim.proofs == seq![("kerberos.ap-req"@, token)]
            &&& 0 <= at < claim.value.len()
            &&& claim.value[at] == '@'
            &&& claim.value.skip(at + 1) == request.realm
            &&& claim.value.take(at) == beside[1].1
            &&& beside.len() == 4 + version + principal
            &&& beside[0] == ("kerberos.realm"@, request.realm)
            &&& beside[1].0 == "kerberos.service"@
            &&& beside[2].0 == "kerberos.etype"@
            &&& reads_as(beside[2].1, request.encryption_type)
            &&& beside[3] == ("kerberos.client"@, "sealed"@)
            &&& request.key_version matches Some(number) ==> beside[4].0 == "kerberos.kvno"@
                && reads_as(beside[4].1, number)
            &&& canonical matches Some(form) ==> beside.last() == ("principal.service"@, form)
        }),
{
    reading::a_principal_is_the_service_at_the_realm(request, request);
    reveal_strlit("/");
    assert("/"@ =~= seq!['/']);
    text::a_number_in_decimal_is_read_back(request.encryption_type as nat);
    if let Some(number) = request.key_version {
        text::a_number_in_decimal_is_read_back(number as nat);
    }
}

/// Whether a text is a number in decimal digits alone, with no zero too many.
pub open spec fn reads_as(digits: Seq<char>, number: u32) -> bool {
    &&& digits.len() > 0
    &&& forall|i: int| 0 <= i < digits.len() ==> '0' <= #[trigger] digits[i] <= '9'
    &&& digits[0] == '0' ==> digits.len() == 1
    &&& text::decimal_value(digits) == number
}

/// The service a claim names falls into the components of the ticket's
/// service, whole and in order, where it is cut at its slashes and no
/// component holds one.
pub proof fn a_claim_names_every_component(
    request: ApReqView,
    token: Seq<char>,
    canonical: Option<Seq<char>>,
)
    requires
        request.service.len() > 0,
        forall|i: int|
            0 <= i < request.service.len() ==> !(#[trigger] request.service[i]).contains('/'),
    ensures
        ({
            let claim = crate::with_principal(crate::claim_of(request, token), canonical);
            let at = claim.value.len() - request.realm.len() - 1;
            &&& text::pieces(claim.evidence[1].1, '/') == request.service
            &&& text::pieces(claim.value.take(at), '/') == request.service
        }),
{
    a_claim_reads_back_as_its_ticket(request, token, canonical);
    reading::a_principal_is_taken_apart_again(request);
}

/// A canonical principal is one entry more behind the others, and nothing
/// else of a claim changes for it.
pub proof fn a_principal_beside_a_claim_changes_nothing_else(
    claim: PresentedView,
    form: Seq<char>,
)
    ensures
        crate::with_principal(claim, None) == claim,
        ({
            let with = crate::with_principal(claim, Some(form));
            &&& with.mechanism == claim.mechanism
            &&& with.value == claim.value
            &&& with.established == claim.established
            &&& with.proofs == claim.proofs
            &&& with.evidence.len() == claim.evidence.len() + 1
            &&& with.evidence.last() == ("principal.service"@, form)
            &&& with.evidence.drop_last() == claim.evidence
        }),
{
    let with = crate::with_principal(claim, Some(form));
    assert(with.evidence.drop_last() =~= claim.evidence);
}

/// A token that decodes to nothing is refused, whatever its text is, whatever
/// stands around it and whatever form a principal has.
pub proof fn a_token_that_is_not_base64_is_refused(
    authorization: Seq<char>,
    token: Seq<char>,
    canonical: Option<Seq<char>>,
)
    ensures
        crate::answer(Arriving::Pushed, Some(authorization), Some(token), None, canonical) == Err::<
            Option<PresentedView>,
            Seq<char>,
        >("the Negotiate token is not base64"@),
        crate::offer_of(token, None) == Err::<Option<PresentedView>, Seq<char>>(
            "the Negotiate token is not base64"@,
        ),
{
}

/// A token is answered by itself as it is in a pushed arrival, whatever
/// header offers it, but for the canonical principal.
pub proof fn a_token_is_answered_by_itself_as_in_an_arrival(
    authorization: Seq<char>,
    token: Seq<char>,
    bytes: Option<Seq<u8>>,
    form: Seq<char>,
)
    ensures
        crate::offer_of(token, bytes) == crate::answer(
            Arriving::Pushed,
            Some(authorization),
            Some(token),
            bytes,
            None,
        ),
        match (
            crate::offer_of(token, bytes),
            crate::answer(
                Arriving::Pushed,
                Some(authorization),
                Some(token),
                bytes,
                Some(form),
            ),
        ) {
            (Ok(Some(claim)), Ok(Some(with))) => with.value == claim.value && with.evidence
                == claim.evidence.push(("principal.service"@, form)),
            (offered, answered) => offered == answered,
        },
{
}

/// Nothing is presented, and nothing refused, exactly where the arrival was
/// not pushed, no token is offered, or the bytes of the token are somebody
/// else's.
pub proof fn nothing_is_passed_over_but_what_is_somebody_elses(
    arriving: Arriving,
    authorization: Option<Seq<char>>,
    token: Option<Seq<char>>,
    bytes: Option<Seq<u8>>,
    canonical: Option<Seq<char>>,
)
    ensures
        crate::answer(arriving, authorization, token, bytes, canonical) == Ok::<
            Option<PresentedView>,
            Seq<char>,
        >(None) <==> {
            ||| arriving != Arriving::Pushed
            ||| authorization is None
            ||| token is None
            ||| bytes is Some && ap_req::token_says(bytes->0) == Ok::<
                Option<ApReqView>,
                Seq<char>,
            >(None)
        },
{
}

/// An arrival is refused exactly where it was pushed and offers a token that
/// is not base64, or whose bytes cannot be read, and for that reason.
pub proof fn a_refusal_says_what_is_wrong_with_the_token(
    arriving: Arriving,
    authorization: Option<Seq<char>>,
    token: Option<Seq<char>>,
    bytes: Option<Seq<u8>>,
    canonical: Option<Seq<char>>,
    why: Seq<char>,
)
    ensures
        crate::answer(arriving, authorization, token, bytes, canonical) == Err::<
            Option<PresentedView>,
            Seq<char>,
        >(why) <==> {
            &&& arriving == Arriving::Pushed
            &&& authorization is Some
            &&& token is Some
            &&& {
                ||| bytes is None && why == "the Negotiate token is not base64"@
                ||| bytes is Some && ap_req::token_says(bytes->0) == Err::<
                    Option<ApReqView>,
                    Seq<char>,
                >(why)
            }
        },
{
}

/// A claim is made exactly where the arrival was pushed and offers a token
/// whose bytes hold a ticket, whatever else there is, and it is the claim of
/// that ticket with that token.
pub proof fn a_claim_is_made_of_every_ticket_that_is_read(
    arriving: Arriving,
    authorization: Option<Seq<char>>,
    token: Option<Seq<char>>,
    bytes: Option<Seq<u8>>,
    canonical: Option<Seq<char>>,
    request: ApReqView,
)
    ensures
        crate::answer(arriving, authorization, token, bytes, canonical) matches Ok(Some(_)) ==> {
            &&& arriving == Arriving::Pushed
            &&& authorization is Some
            &&& token is Some
            &&& bytes is Some
            &&& ap_req::token_says(bytes->0) matches Ok(Some(_))
        },
        arriving == Arriving::Pushed && authorization is Some && token is Some && bytes is Some
            && ap_req::token_says(bytes->0) == Ok::<Option<ApReqView>, Seq<char>>(Some(request))
            ==> crate::answer(arriving, authorization, token, bytes, canonical) == Ok::<
            Option<PresentedView>,
            Seq<char>,
        >(Some(crate::with_principal(crate::claim_of(request, token->0), canonical))),
{
}

} // verus!
