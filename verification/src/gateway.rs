//! The sync gateway: the authenticated-request boundary. Every progress
//! operation re-proves identity against the credential store before the
//! ledger is touched — an unauthenticated caller never reaches the ledger.
//! Registration bypasses authentication and talks only to the credential
//! store.

use vstd::prelude::*;

use crate::credentials::{
    credentials_match, CredentialStore, RegisterOutcome, VerifyOutcome,
};
use crate::hashing::bcrypt_accepts;
use crate::ledger::{
    ledger_lookup, merged, valid_upsert, FetchOutcome, ProgressLedger, ProgressRecord,
    UpsertOutcome, UpsertRequest,
};

verus! {

/// The transport envelope carries credentials that the store accepts: both
/// header fields are present and the pair matches. A missing or malformed
/// header is treated exactly like a failed credential check.
pub open spec fn header_auth(
    m: Map<Seq<char>, Seq<char>>,
    user_header: Option<Seq<char>>,
    key_header: Option<Seq<char>>,
) -> bool {
    match (user_header, key_header) {
        (Some(u), Some(k)) => credentials_match(m, u, k),
        _ => false,
    }
}

/// The username a present user header carries.
pub open spec fn header_user(user_header: Option<Seq<char>>) -> Seq<char> {
    match user_header {
        Some(u) => u,
        None => Seq::empty(),
    }
}

/// Response to a registration request.
#[derive(Debug, PartialEq, Eq)]
pub enum RegisterResponse {
    /// The account was created.
    Created,
    /// The username is already registered.
    AlreadyRegistered,
    /// Empty username or password.
    InvalidInput,
    /// The store could not complete the write.
    ServerError,
}

/// Response to an authorization probe.
#[derive(Debug, PartialEq, Eq)]
pub enum AuthResponse {
    /// The presented credentials match a stored identity.
    Granted,
    /// Missing headers or non-matching credentials.
    Unauthorized,
}

/// Response to a progress write.
#[derive(Debug)]
pub enum UpsertResponse {
    /// The merge was applied; the carried record is the authoritative stored
    /// record after the call.
    Accepted(ProgressRecord),
    /// Empty document or out-of-range percentage.
    InvalidInput,
    /// Missing headers or non-matching credentials; the ledger was not
    /// touched.
    Unauthorized,
}

/// Response to a progress read.
#[derive(Debug)]
pub enum FetchResponse {
    /// A record is stored for the caller and this document.
    Found(ProgressRecord),
    /// Nothing has been synced yet for the caller and this document.
    NotFound,
    /// Missing headers or non-matching credentials.
    Unauthorized,
}

impl RegisterResponse {
    /// The HTTP-equivalent status of this response.
    pub open spec fn spec_status(&self) -> u16 {
        match self {
            RegisterResponse::Created => 201,
            RegisterResponse::AlreadyRegistered => 402,
            RegisterResponse::InvalidInput => 400,
            RegisterResponse::ServerError => 500,
        }
    }

    /// The HTTP-equivalent status of this response.
    pub fn status_code(&self) -> (c: u16)
        ensures
            c == self.spec_status(),
    {
        match self {
            RegisterResponse::Created => 201,
            RegisterResponse::AlreadyRegistered => 402,
            RegisterResponse::InvalidInput => 400,
            RegisterResponse::ServerError => 500,
        }
    }
}

impl AuthResponse {
    /// The HTTP-equivalent status of this response.
    pub open spec fn spec_status(&self) -> u16 {
        match self {
            AuthResponse::Granted => 200,
            AuthResponse::Unauthorized => 401,
        }
    }

    /// The HTTP-equivalent status of this response.
    pub fn status_code(&self) -> (c: u16)
        ensures
            c == self.spec_status(),
    {
        match self {
            AuthResponse::Granted => 200,
            AuthResponse::Unauthorized => 401,
        }
    }
}

impl UpsertResponse {
    /// The HTTP-equivalent status of this response.
    pub open spec fn spec_status(&self) -> u16 {
        match self {
            UpsertResponse::Accepted(_) => 200,
            UpsertResponse::InvalidInput => 400,
            UpsertResponse::Unauthorized => 401,
        }
    }

    /// The HTTP-equivalent status of this response.
    pub fn status_code(&self) -> (c: u16)
        ensures
            c == self.spec_status(),
    {
        match self {
            UpsertResponse::Accepted(_) => 200,
            UpsertResponse::InvalidInput => 400,
            UpsertResponse::Unauthorized => 401,
        }
    }
}

impl FetchResponse {
    /// The HTTP-equivalent status of this response.
    pub open spec fn spec_status(&self) -> u16 {
        match self {
            FetchResponse::Found(_) => 200,
            FetchResponse::NotFound => 404,
            FetchResponse::Unauthorized => 401,
        }
    }

    /// The HTTP-equivalent status of this response.
    pub fn status_code(&self) -> (c: u16)
        ensures
            c == self.spec_status(),
    {
        match self {
            FetchResponse::Found(_) => 200,
            FetchResponse::NotFound => 404,
            FetchResponse::Unauthorized => 401,
        }
    }
}

/// Check the credential headers against the store; on success hand back the
/// authenticated username, which the caller uses as the owner of every ledger
/// operation.
fn authenticate(
    cred: &CredentialStore,
    user_header: &Option<String>,
    key_header: &Option<String>,
) -> (r: Option<String>)
    requires
        cred.wf(),
    ensures
        match r {
            Some(u) => header_auth(cred@, user_header.deep_view(), key_header.deep_view())
                && u@ == header_user(user_header.deep_view()),
            None => !header_auth(cred@, user_header.deep_view(), key_header.deep_view()),
        },
{
    match (user_header, key_header) {
        (Some(u), Some(k)) => match cred.verify(u, k) {
            VerifyOutcome::Authenticated => Some(u.clone()),
            VerifyOutcome::Rejected => None,
        },
        _ => None,
    }
}

/// Registration: bypasses authentication, calls the credential store
/// directly, and maps its outcome onto a response.
pub fn handle_register(cred: &mut CredentialStore, username: &String, password: &String) -> (r:
    RegisterResponse)
    requires
        old(cred).wf(),
    ensures
        final(cred).wf(),
        (username@.len() == 0 || password@.len() == 0) ==> r == RegisterResponse::InvalidInput
            && final(cred)@ == old(cred)@,
        username@.len() > 0 && password@.len() > 0 && old(cred)@.contains_key(username@)
            ==> r == RegisterResponse::AlreadyRegistered && final(cred)@ == old(cred)@,
        username@.len() > 0 && password@.len() > 0 && !old(cred)@.contains_key(username@)
            ==> (match r {
                RegisterResponse::Created => exists|h: Seq<char>|
                    bcrypt_accepts(password@, h) && final(cred)@ == old(cred)@.insert(
                        username@,
                        h,
                    ),
                RegisterResponse::ServerError => final(cred)@ == old(cred)@,
                _ => false,
            }),
{
    match cred.register(username, password) {
        RegisterOutcome::Created => RegisterResponse::Created,
        RegisterOutcome::AlreadyExists => RegisterResponse::AlreadyRegistered,
        RegisterOutcome::InvalidInput => RegisterResponse::InvalidInput,
        RegisterOutcome::Failure => RegisterResponse::ServerError,
    }
}

/// The authorization probe: granted exactly when both headers are present
/// and the pair matches a stored identity.
pub fn handle_authorize(
    cred: &CredentialStore,
    user_header: &Option<String>,
    key_header: &Option<String>,
) -> (r: AuthResponse)
    requires
        cred.wf(),
    ensures
        r == AuthResponse::Granted <==> header_auth(
            cred@,
            user_header.deep_view(),
            key_header.deep_view(),
        ),
{
    match authenticate(cred, user_header, key_header) {
        Some(_) => AuthResponse::Granted,
        None => AuthResponse::Unauthorized,
    }
}

/// A progress write. Authentication comes first and short-circuits: an
/// unauthenticated caller gets `Unauthorized` and the ledger is untouched.
/// An authenticated caller's write is applied under the merge rule with the
/// authenticated username as owner.
pub fn handle_upsert(
    cred: &CredentialStore,
    ledger: &mut ProgressLedger,
    user_header: &Option<String>,
    key_header: &Option<String>,
    req: &UpsertRequest,
    now: u64,
) -> (r: UpsertResponse)
    requires
        cred.wf(),
        old(ledger).wf(),
    ensures
        final(ledger).wf(),
        !header_auth(cred@, user_header.deep_view(), key_header.deep_view())
            ==> r is Unauthorized && final(ledger)@ == old(ledger)@,
        header_auth(cred@, user_header.deep_view(), key_header.deep_view()) ==> ({
            let owner = header_user(user_header.deep_view());
            &&& owner.len() > 0
            &&& !valid_upsert(owner, req@) ==> r is InvalidInput && final(ledger)@ == old(
                ledger,
            )@
            &&& valid_upsert(owner, req@) ==> final(ledger)@ == old(ledger)@.insert(
                (owner, req@.document),
                merged(ledger_lookup(old(ledger)@, owner, req@.document), owner, req@, now),
            ) && (r matches UpsertResponse::Accepted(rec) && rec@ == merged(
                ledger_lookup(old(ledger)@, owner, req@.document),
                owner,
                req@,
                now,
            ))
        }),
{
    match authenticate(cred, user_header, key_header) {
        None => UpsertResponse::Unauthorized,
        Some(owner) => {
            proof {
                crate::credentials::lemma_known_username_nonempty(cred, owner@);
            }
            match ledger.upsert(&owner, req, now) {
                UpsertOutcome::Accepted(rec) => UpsertResponse::Accepted(rec),
                UpsertOutcome::Rejected => UpsertResponse::InvalidInput,
            }
        },
    }
}

/// A progress read. Authentication comes first and short-circuits; an
/// authenticated caller reads only records owned by the authenticated
/// username.
pub fn handle_fetch(
    cred: &CredentialStore,
    ledger: &ProgressLedger,
    user_header: &Option<String>,
    key_header: &Option<String>,
    document: &String,
) -> (r: FetchResponse)
    requires
        cred.wf(),
        ledger.wf(),
    ensures
        r is Unauthorized <==> !header_auth(
            cred@,
            user_header.deep_view(),
            key_header.deep_view(),
        ),
        header_auth(cred@, user_header.deep_view(), key_header.deep_view()) ==> ({
            let owner = header_user(user_header.deep_view());
            match r {
                FetchResponse::Found(rec) => ledger@.contains_key((owner, document@))
                    && rec@ == ledger@[(owner, document@)],
                FetchResponse::NotFound => !ledger@.contains_key((owner, document@)),
                FetchResponse::Unauthorized => false,
            }
        }),
{
    match authenticate(cred, user_header, key_header) {
        None => FetchResponse::Unauthorized,
        Some(owner) => match ledger.fetch(&owner, document) {
            FetchOutcome::Found(rec) => FetchResponse::Found(rec),
            FetchOutcome::NotFound => FetchResponse::NotFound,
        },
    }
}

} // verus!
