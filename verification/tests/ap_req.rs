use identify_kerberos::ap_req::{
    ApReq, AP_REQ, KERBEROS, KERBEROS_LEGACY, SPNEGO as SPNEGO_OID, TOKEN_AP_REQ,
};
use identify_kerberos::der::{
    application, context, GENERAL_STRING, INTEGER, OCTET_STRING, OID, SEQUENCE,
};

/// One element, its length in the shortest form.
fn tlv(tag: u8, content: &[u8]) -> Vec<u8> {
    let mut octets = vec![tag];
    if content.len() < 128 {
        octets.push(content.len() as u8);
    } else {
        let length: Vec<u8> = content
            .len()
            .to_be_bytes()
            .iter()
            .copied()
            .skip_while(|octet| *octet == 0)
            .collect();
        octets.push(128 + length.len() as u8);
        octets.extend(length);
    }
    octets.extend_from_slice(content);
    octets
}

fn field(number: u8, inner: &[u8]) -> Vec<u8> {
    tlv(context(number), inner)
}

fn sealed(kvno: Option<u8>) -> Vec<u8> {
    let mut fields = field(0, &tlv(INTEGER, &[18]));
    if let Some(kvno) = kvno {
        fields.extend(field(1, &tlv(INTEGER, &[kvno])));
    }
    // The cipher text names the client, as it would: nothing may find it.
    fields.extend(field(2, &tlv(OCTET_STRING, b"sealed:alice@EXAMPLE.COM")));
    tlv(SEQUENCE, &fields)
}

/// A ticket with these fields.
fn ticket(fields: &[Vec<u8>]) -> Vec<u8> {
    tlv(application(1), &tlv(SEQUENCE, &fields.concat()))
}

/// An AP-REQ with these fields.
fn request(fields: &[Vec<u8>]) -> Vec<u8> {
    tlv(application(AP_REQ), &tlv(SEQUENCE, &fields.concat()))
}

/// An AP-REQ with this ticket.
fn request_with(ticket: &[u8]) -> Vec<u8> {
    request(&[
        field(0, &tlv(INTEGER, &[5])),
        field(1, &tlv(INTEGER, &[AP_REQ])),
        field(2, &tlv(0x03, &[0, 0, 0, 0, 0])),
        field(3, ticket),
        field(4, &sealed(None)),
    ])
}

fn service_name(service: &[&str]) -> Vec<u8> {
    let names = service
        .iter()
        .map(|component| tlv(GENERAL_STRING, component.as_bytes()))
        .collect::<Vec<_>>()
        .concat();
    tlv(
        SEQUENCE,
        &[
            field(0, &tlv(INTEGER, &[2])),
            field(1, &tlv(SEQUENCE, &names)),
        ]
        .concat(),
    )
}

/// An AP-REQ for `HTTP/xmip.example@EXAMPLE.COM`, as a KDC's ticket and a
/// client's authenticator would make it.
fn ap_req() -> Vec<u8> {
    ap_req_for(&["HTTP", "xmip.example"])
}

/// An AP-REQ for a service of these components, in `EXAMPLE.COM`.
fn ap_req_for(service: &[&str]) -> Vec<u8> {
    request_with(&ticket(&[
        field(0, &tlv(INTEGER, &[5])),
        field(1, &tlv(GENERAL_STRING, b"EXAMPLE.COM")),
        field(2, &service_name(service)),
        field(3, &sealed(Some(3))),
    ]))
}

/// RFC 2743 framing around a mechanism's token.
fn gss(mechanism: &[u8], inner: &[u8]) -> Vec<u8> {
    tlv(
        application(0),
        &[tlv(OID, mechanism), inner.to_vec()].concat(),
    )
}

fn kerberos_token() -> Vec<u8> {
    gss(&KERBEROS, &[TOKEN_AP_REQ.to_vec(), ap_req()].concat())
}

/// What a browser sends: SPNEGO offering Kerberos, the AP-REQ inside.
fn spnego_token(mechanism_token: &[u8]) -> Vec<u8> {
    let init = tlv(
        SEQUENCE,
        &[
            field(0, &tlv(SEQUENCE, &tlv(OID, &KERBEROS))),
            field(2, &tlv(OCTET_STRING, mechanism_token)),
        ]
        .concat(),
    );
    gss(&SPNEGO_OID, &tlv(context(0), &init))
}

/// Why a message is refused.
fn refusal(message: &[u8]) -> String {
    ApReq::parse(message).expect_err("refused").message
}

/// Why a token is refused.
fn token_refusal(token: &[u8]) -> String {
    ApReq::from_token(token).expect_err("refused").message
}

#[test]
fn the_realm_and_the_service_are_read_out_of_the_ticket() {
    let request = ApReq::parse(&ap_req()).expect("an AP-REQ");

    assert_eq!(request.realm, "EXAMPLE.COM");
    assert_eq!(request.service, ["HTTP", "xmip.example"]);
    assert_eq!(request.service_principal(), "HTTP/xmip.example@EXAMPLE.COM");
    assert_eq!(request.encryption_type, 18);
    assert_eq!(request.key_version, Some(3));
}

#[test]
fn an_ap_req_is_found_under_spnego_under_gss_api_and_bare() {
    let expected = ApReq::parse(&ap_req()).expect("an AP-REQ");

    for token in [spnego_token(&kerberos_token()), kerberos_token(), ap_req()] {
        assert_eq!(
            ApReq::from_token(&token).expect("read"),
            Some(expected.clone())
        );
    }

    let legacy = gss(
        &KERBEROS_LEGACY,
        &[TOKEN_AP_REQ.to_vec(), ap_req()].concat(),
    );
    assert_eq!(ApReq::from_token(&legacy).expect("read"), Some(expected));
}

#[test]
fn an_ntlm_message_and_an_empty_continuation_are_somebody_elses() {
    let ntlm = b"NTLMSSP\0\x03\0\0\0";
    let response = tlv(context(1), &tlv(SEQUENCE, &field(0, &tlv(0x0a, &[1]))));

    assert_eq!(ApReq::from_token(ntlm).expect("read"), None);
    assert_eq!(ApReq::from_token(&spnego_token(ntlm)).expect("read"), None);
    assert_eq!(ApReq::from_token(&response).expect("read"), None);
}

#[test]
fn a_kerberos_message_that_is_not_an_ap_req_is_refused_with_the_reason() {
    let reply = gss(&KERBEROS, &[vec![0x02, 0x00], ap_req()].concat());
    let failure = ApReq::from_token(&reply).expect_err("an AP-REP");
    assert!(failure.message.contains("not an AP-REQ"), "{failure:?}");

    let other = gss(&[0x2a, 0x03], &[]);
    let failure = ApReq::from_token(&other).expect_err("another mechanism");
    assert!(failure.message.contains("neither SPNEGO nor Kerberos"));

    let mut truncated = kerberos_token();
    truncated.truncate(40);
    assert!(ApReq::from_token(&truncated).is_err());
}

#[test]
fn every_wrapping_has_its_refusal() {
    assert_eq!(
        token_refusal(&tlv(0x31, &[])),
        "the Negotiate token starts with tag 0x31, which is neither GSS-API, SPNEGO nor an AP-REQ"
    );
    assert_eq!(
        token_refusal(&tlv(0x05, &[])),
        "the Negotiate token starts with tag 0x05, which is neither GSS-API, SPNEGO nor an AP-REQ"
    );
    assert_eq!(
        token_refusal(&tlv(application(0), &tlv(INTEGER, &[1]))),
        "the GSS-API token does not start with a mechanism OID"
    );
    assert_eq!(
        token_refusal(&gss(&KERBEROS, &[0x01])),
        "the Kerberos token is not an AP-REQ: its token id is not 01 00"
    );
    assert_eq!(
        token_refusal(&gss(&[0x2a, 0x03], &[])),
        "the GSS-API token names a mechanism that is neither SPNEGO nor Kerberos"
    );
    assert_eq!(
        token_refusal(&gss(&SPNEGO_OID, &tlv(context(1), &[]))),
        "the tag 0xa1 is not that of a NegTokenInit"
    );
    assert_eq!(
        token_refusal(&gss(&SPNEGO_OID, &tlv(context(0), &tlv(0x31, &[])))),
        "the tag 0x31 is not that of a NegTokenInit"
    );
    assert_eq!(
        token_refusal(&tlv(context(1), &tlv(0x31, &[]))),
        "the tag 0x31 is not that of a NegTokenResp"
    );
    let response = tlv(
        context(1),
        &tlv(SEQUENCE, &field(2, &tlv(INTEGER, &[1]))),
    );
    assert_eq!(
        token_refusal(&response),
        "the SPNEGO mechanism token is not an OCTET STRING"
    );
    assert_eq!(token_refusal(&[]), "an element ends before its tag");
}

#[test]
fn a_later_leg_of_spnego_carries_a_token_too() {
    let response = tlv(
        context(1),
        &tlv(
            SEQUENCE,
            &[
                field(0, &tlv(0x0a, &[1])),
                field(2, &tlv(OCTET_STRING, &kerberos_token())),
            ]
            .concat(),
        ),
    );
    assert_eq!(
        ApReq::from_token(&response).expect("read"),
        ApReq::from_token(&ap_req()).expect("read")
    );
}

#[test]
fn a_message_of_another_version_or_kind_is_refused() {
    for (version, kind) in [(4, AP_REQ), (5, 15)] {
        let message = request(&[
            field(0, &tlv(INTEGER, &[version])),
            field(1, &tlv(INTEGER, &[kind])),
        ]);
        assert_eq!(
            refusal(&message),
            "the AP-REQ is not Kerberos 5 message type 14"
        );
    }
    assert_eq!(
        refusal(&request(&[])),
        "the AP-REQ is not Kerberos 5 message type 14"
    );
    assert_eq!(
        refusal(&tlv(application(15), &[])),
        "the tag 0x6f is not that of an AP-REQ"
    );
    assert_eq!(
        refusal(&tlv(application(AP_REQ), &tlv(0x31, &[]))),
        "the tag 0x31 is not that of an AP-REQ"
    );
}

#[test]
fn a_message_that_lacks_something_says_what() {
    let head = [
        field(0, &tlv(INTEGER, &[5])),
        field(1, &tlv(INTEGER, &[AP_REQ])),
    ];
    assert_eq!(refusal(&request(&head)), "the AP-REQ has no ticket");
    assert_eq!(
        refusal(&request_with(&tlv(application(2), &[]))),
        "the AP-REQ's ticket is not a Ticket"
    );
    assert_eq!(
        refusal(&request_with(&tlv(application(1), &tlv(0x31, &[])))),
        "the tag 0x31 is not that of a Ticket"
    );

    let realm = field(1, &tlv(GENERAL_STRING, b"EXAMPLE.COM"));
    let name = field(2, &service_name(&["HTTP", "xmip.example"]));
    for missing in [
        vec![],
        vec![field(1, &tlv(GENERAL_STRING, b""))],
        vec![field(1, &tlv(GENERAL_STRING, &[0xff]))],
        vec![field(1, &tlv(OCTET_STRING, b"EXAMPLE.COM"))],
    ] {
        assert_eq!(
            refusal(&request_with(&ticket(&missing))),
            "the AP-REQ has no realm in its ticket"
        );
    }
    assert_eq!(
        refusal(&request_with(&ticket(&[realm.clone()]))),
        "the AP-REQ has no service name in its ticket"
    );
    assert_eq!(
        refusal(&request_with(&ticket(&[
            realm.clone(),
            field(2, &tlv(SEQUENCE, &[])),
        ]))),
        "the AP-REQ has no service name in its ticket"
    );
    for unreadable in [
        service_name(&[]),
        tlv(
            SEQUENCE,
            &field(1, &tlv(SEQUENCE, &tlv(GENERAL_STRING, &[0xc0]))),
        ),
        tlv(
            SEQUENCE,
            &field(1, &tlv(SEQUENCE, &tlv(INTEGER, &[1]))),
        ),
    ] {
        assert_eq!(
            refusal(&request_with(&ticket(&[
                realm.clone(),
                field(2, &unreadable),
            ]))),
            "the AP-REQ has no readable service name in its ticket"
        );
    }
    assert_eq!(
        refusal(&request_with(&ticket(&[realm.clone(), name.clone()]))),
        "the AP-REQ has no sealed part in its ticket"
    );
    assert_eq!(
        refusal(&request_with(&ticket(&[
            realm,
            name,
            field(3, &tlv(SEQUENCE, &[])),
        ]))),
        "the AP-REQ has no encryption type on its ticket"
    );
}

#[test]
fn a_key_version_may_be_missing() {
    let message = request_with(&ticket(&[
        field(1, &tlv(GENERAL_STRING, b"EXAMPLE.COM")),
        field(2, &service_name(&["xmip"])),
        field(3, &sealed(None)),
    ]));
    let request = ApReq::parse(&message).expect("an AP-REQ");
    assert_eq!(request.key_version, None);
    assert_eq!(request.service_principal(), "xmip@EXAMPLE.COM");
}

#[test]
fn what_is_sealed_changes_nothing() {
    let parts = |cipher: &[u8], authenticator: Vec<u8>| {
        let sealed = tlv(
            SEQUENCE,
            &[
                field(0, &tlv(INTEGER, &[18])),
                field(2, &tlv(OCTET_STRING, cipher)),
            ]
            .concat(),
        );
        request(&[
            field(0, &tlv(INTEGER, &[5])),
            field(1, &tlv(INTEGER, &[AP_REQ])),
            field(
                3,
                &ticket(&[
                    field(1, &tlv(GENERAL_STRING, b"EXAMPLE.COM")),
                    field(2, &service_name(&["HTTP", "xmip.example"])),
                    field(3, &sealed),
                ]),
            ),
            field(4, &authenticator),
        ])
    };
    let alice = ApReq::parse(&parts(b"alice", sealed(None))).expect("an AP-REQ");
    let bob = ApReq::parse(&parts(&[7; 300], tlv(OCTET_STRING, b"bob"))).expect("an AP-REQ");
    assert_eq!(alice, bob);
}

#[test]
fn a_token_cut_anywhere_is_refused() {
    let token = spnego_token(&kerberos_token());
    for length in 0..token.len() {
        assert!(ApReq::from_token(&token[..length]).is_err(), "{length}");
    }
}

#[test]
fn what_follows_an_ap_req_is_left_alone() {
    let mut message = ap_req();
    message.extend_from_slice(b"more");
    assert_eq!(
        ApReq::parse(&message).expect("an AP-REQ"),
        ApReq::parse(&ap_req()).expect("an AP-REQ")
    );
    assert!(ApReq::from_token(&message).expect("read").is_some());
}

#[test]
fn the_fields_beside_what_an_ap_req_says_change_nothing() {
    let name = [
        field(0, b"any"),
        field(
            1,
            &tlv(
                SEQUENCE,
                &[
                    tlv(GENERAL_STRING, b"HTTP"),
                    tlv(GENERAL_STRING, b"xmip.example"),
                ]
                .concat(),
            ),
        ),
    ]
    .concat();
    let sealed = [
        field(0, &tlv(INTEGER, &[18])),
        field(1, &tlv(INTEGER, &[3])),
        field(2, &[0xff]),
    ]
    .concat();
    let ticket = ticket(&[
        field(0, &tlv(INTEGER, &[4])),
        field(1, &tlv(GENERAL_STRING, b"EXAMPLE.COM")),
        field(2, &tlv(SEQUENCE, &name)),
        field(3, &tlv(SEQUENCE, &sealed)),
    ]);
    let message = request(&[
        field(0, &tlv(INTEGER, &[5])),
        field(1, &tlv(INTEGER, &[AP_REQ])),
        field(2, &[]),
        field(3, &ticket),
        field(4, &[0x1f, 0x80]),
    ]);

    assert_eq!(ApReq::parse(&message), ApReq::parse(&ap_req()));
    assert!(ApReq::parse(&message).is_ok());
}
