//! The credential store: it owns the identity records, enforces username
//! uniqueness at creation, and verifies a presented username/secret pair
//! against a one-way salted hash.

use vstd::prelude::*;

use crate::hashing::{bcrypt_accepts, check_secret, hash_secret};

verus! {

/// Work factor handed to bcrypt when a new secret is hashed.
pub const HASH_COST: u32 = 8;

/// One stored identity: a unique username and the bcrypt hash string of its
/// secret (the per-record salt is embedded in the hash string).
pub struct UserRecord {
    pub username: String,
    pub secret_hash: String,
}

/// Outcome of a registration attempt.
#[derive(Debug, PartialEq, Eq)]
pub enum RegisterOutcome {
    /// A new identity was stored.
    Created,
    /// The username is taken; nothing was written.
    AlreadyExists,
    /// Empty username or password; nothing was written.
    InvalidInput,
    /// The hashing primitive yielded no hash; nothing was written.
    Failure,
}

/// Outcome of a credential check.
#[derive(Debug, PartialEq, Eq)]
pub enum VerifyOutcome {
    /// The username is known and the password matches its stored hash.
    Authenticated,
    /// Unknown username or non-matching password.
    Rejected,
}

/// The identities of `s`, as a map from username to stored secret hash.
pub open spec fn user_map(s: Seq<UserRecord>) -> Map<Seq<char>, Seq<char>>
    decreases s.len(),
{
    if s.len() == 0 {
        Map::empty()
    } else {
        user_map(s.drop_last()).insert(s.last().username@, s.last().secret_hash@)
    }
}

/// The store holds a matching identity: the username is present and the
/// presented password passes the bcrypt check against its stored hash.
pub open spec fn credentials_match(
    m: Map<Seq<char>, Seq<char>>,
    username: Seq<char>,
    password: Seq<char>,
) -> bool {
    m.contains_key(username) && bcrypt_accepts(password, m[username])
}

proof fn lemma_user_map_contains(s: Seq<UserRecord>, u: Seq<char>)
    ensures
        user_map(s).contains_key(u) <==> exists|i: int|
            0 <= i < s.len() && s[i].username@ == u,
    decreases s.len(),
{
    if s.len() > 0 {
        lemma_user_map_contains(s.drop_last(), u);
        if s.last().username@ == u {
            assert(s[s.len() - 1].username@ == u);
        } else {
            if user_map(s).contains_key(u) {
                let i = choose|i: int| 0 <= i < s.drop_last().len()
                    && s.drop_last()[i].username@ == u;
                assert(s[i].username@ == u);
            }
            if exists|i: int| 0 <= i < s.len() && s[i].username@ == u {
                let i = choose|i: int| 0 <= i < s.len() && s[i].username@ == u;
                assert(i < s.len() - 1);
                assert(s.drop_last()[i].username@ == u);
            }
        }
    }
}

proof fn lemma_user_map_get(s: Seq<UserRecord>, i: int)
    requires
        forall|p: int, q: int|
            0 <= p < q < s.len() ==> s[p].username@ != s[q].username@,
        0 <= i < s.len(),
    ensures
        user_map(s).contains_key(s[i].username@),
        user_map(s)[s[i].username@] == s[i].secret_hash@,
    decreases s.len(),
{
    if i == s.len() - 1 {
        assert(s.last() == s[i]);
    } else {
        assert(forall|p: int, q: int|
            0 <= p < q < s.drop_last().len()
                ==> s.drop_last()[p].username@ != s.drop_last()[q].username@);
        lemma_user_map_get(s.drop_last(), i);
        assert(s.drop_last()[i] == s[i]);
        assert(s.last().username@ != s[i].username@);
    }
}

proof fn lemma_user_map_push(s: Seq<UserRecord>, r: UserRecord)
    ensures
        user_map(s.push(r)) == user_map(s).insert(r.username@, r.secret_hash@),
{
    assert(s.push(r).drop_last() =~= s);
    assert(s.push(r).last() == r);
}

/// The credential store. It is the only owner of identity records; usernames
/// are unique and non-empty.
pub struct CredentialStore {
    users: Vec<UserRecord>,
}

impl View for CredentialStore {
    type V = Map<Seq<char>, Seq<char>>;

    closed spec fn view(&self) -> Map<Seq<char>, Seq<char>> {
        user_map(self.users@)
    }
}

impl CredentialStore {
    /// Usernames are pairwise distinct and non-empty.
    pub closed spec fn wf(&self) -> bool {
        &&& forall|p: int, q: int|
            0 <= p < q < self.users@.len()
                ==> self.users@[p].username@ != self.users@[q].username@
        &&& forall|i: int|
            0 <= i < self.users@.len() ==> self.users@[i].username@.len() > 0
    }

    /// An empty store: no identities at all.
    pub fn new() -> (r: Self)
        ensures
            r.wf(),
            r@ == Map::<Seq<char>, Seq<char>>::empty(),
    {
        CredentialStore { users: Vec::new() }
    }

    /// The index of the record for `username`, if one is stored.
    fn find_user(&self, username: &String) -> (r: Option<usize>)
        requires
            self.wf(),
        ensures
            match r {
                Some(i) => {
                    &&& i < self.users@.len()
                    &&& self.users@[i as int].username@ == username@
                    &&& self@.contains_key(username@)
                    &&& self@[username@] == self.users@[i as int].secret_hash@
                },
                None => !self@.contains_key(username@),
            },
    {
        let mut i: usize = 0;
        while i < self.users.len()
            invariant
                self.wf(),
                i <= self.users@.len(),
                forall|j: int| 0 <= j < i ==> self.users@[j].username@ != username@,
            decreases self.users@.len() - i,
        {
            if self.users[i].username == *username {
                proof {
                    lemma_user_map_get(self.users@, i as int);
                }
                return Some(i);
            }
            i += 1;
        }
        proof {
            lemma_user_map_contains(self.users@, username@);
        }
        None
    }

    /// Store a new identity under an already-derived secret hash. The write
    /// happens only when the username is non-empty and still free; a taken
    /// username is reported as `AlreadyExists` with no change.
    pub fn register_hashed(&mut self, username: &String, secret_hash: String) -> (r:
        RegisterOutcome)
        requires
            old(self).wf(),
        ensures
            final(self).wf(),
            username@.len() == 0 ==> r == RegisterOutcome::InvalidInput
                && final(self)@ == old(self)@,
            username@.len() > 0 && old(self)@.contains_key(username@)
                ==> r == RegisterOutcome::AlreadyExists && final(self)@ == old(self)@,
            username@.len() > 0 && !old(self)@.contains_key(username@)
                ==> r == RegisterOutcome::Created
                && final(self)@ == old(self)@.insert(username@, secret_hash@),
    {
        if username.as_str().is_empty() {
            return RegisterOutcome::InvalidInput;
        }
        match self.find_user(username) {
            Some(_) => RegisterOutcome::AlreadyExists,
            None => {
                let rec = UserRecord { username: username.clone(), secret_hash };
                proof {
                    lemma_user_map_contains(self.users@, username@);
                    lemma_user_map_push(self.users@, rec);
                    assert forall|p: int, q: int|
                        0 <= p < q < self.users@.push(rec).len() implies self.users@.push(
                        rec,
                    )[p].username@ != self.users@.push(rec)[q].username@ by {
                        if q == self.users@.len() {
                            assert(self.users@.push(rec)[p] == self.users@[p]);
                        }
                    }
                }
                self.users.push(rec);
                RegisterOutcome::Created
            },
        }
    }

    /// Register a new identity: hash the password with a fresh random salt and
    /// store it under the username. Empty usernames or passwords are rejected
    /// outright; a taken username is reported as `AlreadyExists`; `Failure`
    /// comes exactly when the hashing primitive yields no hash. In every
    /// outcome but `Created` the store is unchanged.
    pub fn register(&mut self, username: &String, password: &String) -> (r: RegisterOutcome)
        requires
            old(self).wf(),
        ensures
            final(self).wf(),
            (username@.len() == 0 || password@.len() == 0)
                ==> r == RegisterOutcome::InvalidInput && final(self)@ == old(self)@,
            username@.len() > 0 && password@.len() > 0 && old(self)@.contains_key(username@)
                ==> r == RegisterOutcome::AlreadyExists && final(self)@ == old(self)@,
            username@.len() > 0 && password@.len() > 0 && !old(self)@.contains_key(username@)
                ==> (match r {
                    RegisterOutcome::Created => exists|h: Seq<char>|
                        bcrypt_accepts(password@, h)
                            && final(self)@ == old(self)@.insert(username@, h),
                    RegisterOutcome::Failure => final(self)@ == old(self)@,
                    _ => false,
                }),
    {
        if username.as_str().is_empty() || password.as_str().is_empty() {
            return RegisterOutcome::InvalidInput;
        }
        match self.find_user(username) {
            Some(_) => RegisterOutcome::AlreadyExists,
            None => {
                match hash_secret(password.as_str(), HASH_COST) {
                    Some(h) => {
                        self.register_hashed(username, h)
                    },
                    None => RegisterOutcome::Failure,
                }
            },
        }
    }

    /// Check a presented username/secret pair. `Authenticated` comes exactly
    /// when the username is stored and the password passes the bcrypt check
    /// against its stored hash; everything else is `Rejected`. The check never
    /// reveals whether the username exists.
    pub fn verify(&self, username: &String, password: &String) -> (r: VerifyOutcome)
        requires
            self.wf(),
        ensures
            r == VerifyOutcome::Authenticated <==> credentials_match(self@, username@, password@),
            r == VerifyOutcome::Rejected <==> !credentials_match(self@, username@, password@),
    {
        match self.find_user(username) {
            Some(i) => {
                if check_secret(password.as_str(), self.users[i].secret_hash.as_str()) {
                    VerifyOutcome::Authenticated
                } else {
                    VerifyOutcome::Rejected
                }
            },
            None => VerifyOutcome::Rejected,
        }
    }

    /// How many identities are stored: exactly one per registered username.
    pub fn user_count(&self) -> (n: usize)
        requires
            self.wf(),
        ensures
            n == self@.dom().len(),
    {
        proof {
            lemma_user_map_card(self.users@);
        }
        self.users.len()
    }
}

proof fn lemma_user_map_card(s: Seq<UserRecord>)
    requires
        forall|p: int, q: int|
            0 <= p < q < s.len() ==> s[p].username@ != s[q].username@,
    ensures
        user_map(s).dom().finite(),
        user_map(s).dom().len() == s.len(),
    decreases s.len(),
{
    if s.len() > 0 {
        assert(forall|p: int, q: int|
            0 <= p < q < s.drop_last().len()
                ==> s.drop_last()[p].username@ != s.drop_last()[q].username@);
        lemma_user_map_card(s.drop_last());
        lemma_user_map_contains(s.drop_last(), s.last().username@);
        assert(forall|i: int|
            0 <= i < s.drop_last().len() ==> s.drop_last()[i] == s[i]);
        assert(!user_map(s.drop_last()).contains_key(s.last().username@));
        assert(user_map(s).dom() =~= user_map(s.drop_last()).dom().insert(
            s.last().username@,
        ));
    }
}

/// Every username a well-formed store knows is non-empty.
pub proof fn lemma_known_username_nonempty(c: &CredentialStore, u: Seq<char>)
    requires
        c.wf(),
        c@.contains_key(u),
    ensures
        u.len() > 0,
{
    lemma_user_map_contains(c.users@, u);
}

/// Registration is idempotent-safe: once a username is stored, the store's
/// map contains exactly one entry for it, and by `register_hashed`'s contract
/// any further registration under the same username returns `AlreadyExists`
/// and leaves the store exactly as it was.
pub proof fn lemma_registration_idempotent(
    m: Map<Seq<char>, Seq<char>>,
    u: Seq<char>,
    h: Seq<char>,
)
    requires
        !m.contains_key(u),
    ensures
        m.insert(u, h).contains_key(u),
        m.insert(u, h).dom() == m.dom().insert(u),
{
    assert(m.insert(u, h).dom() =~= m.dom().insert(u));
}

/// A password registered under a username verifies: storing a hash that
/// bcrypt accepts for the password makes the credentials match.
pub proof fn lemma_registered_password_verifies(
    m: Map<Seq<char>, Seq<char>>,
    u: Seq<char>,
    password: Seq<char>,
    h: Seq<char>,
)
    requires
        bcrypt_accepts(password, h),
    ensures
        credentials_match(m.insert(u, h), u, password),
{
}

/// An unknown username never matches, whatever the password.
pub proof fn lemma_unknown_username_rejected(
    m: Map<Seq<char>, Seq<char>>,
    u: Seq<char>,
    password: Seq<char>,
)
    requires
        !m.contains_key(u),
    ensures
        !credentials_match(m, u, password),
{
}

/// A password that fails the bcrypt check against the stored hash never
/// matches.
pub proof fn lemma_wrong_password_rejected(
    m: Map<Seq<char>, Seq<char>>,
    u: Seq<char>,
    password: Seq<char>,
)
    requires
        m.contains_key(u),
        !bcrypt_accepts(password, m[u]),
    ensures
        !credentials_match(m, u, password),
{
}

} // verus!
