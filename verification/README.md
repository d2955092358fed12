# identify_kerberos

Reads the Kerberos ticket that an `Authorization: Negotiate` header offers, as
far as it is in the clear, and presents it as a claim. Verified with Verus.

- `src/der.rs`: the DER reader; `src/encoding.rs`: how DER is written, and that
  reading undoes writing.
- `src/ap_req.rs`: the AP-REQ and its GSS-API and SPNEGO wrappings;
  `src/wire.rs`: how they are written, and that an AP-REQ is found under each.
- `src/arrival.rs`, `src/claim.rs`, `src/evidence.rs`, `src/error.rs`,
  `src/text.rs`: what the identifier reads and what it answers with.
- `src/lib.rs`: the identifier, `Kerberos`; `src/laws.rs`: what holds of every
  answer it gives.
- `app/`: the identifier behind the transport's own trait and types.
- `tests/`: the reader and the identifier on concrete tokens.

The one thing taken on trust is `std::str::from_utf8`, in `src/der.rs`.
