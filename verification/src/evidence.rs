//! The names under which evidence and proof are written beside a claim, where
//! more than one technology writes or reads them.

use vstd::prelude::*;

verus! {

/// What is known of the client principal of a ticket.
pub const KERBEROS_CLIENT: &'static str = "kerberos.client";

/// The token that holds an AP-REQ, as it was offered.
pub const KERBEROS_AP_REQ: &'static str = "kerberos.ap-req";

/// A service principal in canonical form.
pub const PRINCIPAL_SERVICE: &'static str = "principal.service";

/// A user principal in canonical form.
pub const PRINCIPAL_USER: &'static str = "principal.user";

} // verus!
