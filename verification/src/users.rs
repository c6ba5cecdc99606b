//! The user store: users are registered on first login and later
//! authenticated against the Argon2 hash of the password they registered
//! with.

use vstd::prelude::*;

use argon2::password_hash::{PasswordHash, PasswordHasher, PasswordVerifier, SaltString};
use argon2::Argon2;
use rand::rngs::OsRng;

verus! {

/// Whether `password` verifies against the stored PHC hash string `stored`
/// under Argon2 (the value `password_matches` computes).
pub uninterp spec fn password_verifies(password: Seq<char>, stored: Seq<char>) -> bool;

/// Parses `stored` with `password_hash::PasswordHash::new` and checks
/// `password` against it with `Argon2::default().verify_password`. The
/// result is `password_verifies(password, stored)`: false when `stored` does
/// not parse or the recomputed hash differs, true otherwise. The check
/// depends on its two arguments alone (the salt and parameters are read from
/// `stored`).
#[verifier::external_body]
fn password_matches(password: &str, stored: &str) -> (ok: bool)
    ensures
        ok == password_verifies(password@, stored@),
{
    match PasswordHash::new(stored) {
        Ok(parsed) => Argon2::default().verify_password(password.as_bytes(), &parsed).is_ok(),
        Err(_) => false,
    }
}

/// The longest password, in characters, that is always hashed: a character
/// takes at most four bytes in UTF-8, and Argon2 accepts passwords of up to
/// `0xFFFF_FFFF` bytes.
pub open spec fn max_hashed_password_len() -> nat {
    0x3FFF_FFFF
}

/// Hashes `password` with `Argon2::default().hash_password` under a fresh
/// salt from `SaltString::generate(&mut OsRng)`, and returns the PHC string
/// of the hash (`None` if hashing fails). Claimed, from the source of
/// `argon2` 0.5.3 and `password-hash` 0.5.0:
/// - verification recomputes the hash with the algorithm, version,
///   parameters and salt stored in the string and compares the outputs, so
///   the same password verifies against it;
/// - with the default parameters and a generated salt (16 bytes), hashing
///   fails only for a password longer than `0xFFFF_FFFF` bytes, so it
///   succeeds for any password of at most `max_hashed_password_len()`
///   characters.
/// Which hash comes out depends on the random salt; that is left unsaid.
/// `OsRng` panics if the operating system cannot provide randomness.
#[verifier::external_body]
fn hash_with_fresh_salt(password: &str) -> (h: Option<String>)
    ensures
        h matches Some(s) ==> password_verifies(password@, s@),
        password@.len() <= max_hashed_password_len() ==> h is Some,
{
    let salt = SaltString::generate(&mut OsRng);
    match Argon2::default().hash_password(password.as_bytes(), &salt) {
        Ok(hash) => Some(hash.to_string()),
        Err(_) => None,
    }
}

/// The outcome of a login.
#[derive(Debug, Clone, Copy, PartialEq, Eq, Structural)]
pub enum AuthResult {
    /// New user was auto-registered.
    Registered,
    /// Existing user, password matches.
    Authenticated,
    /// Wrong password, or the password could not be hashed.
    Denied,
}

/// A user name and the hash of its password.
#[derive(Debug)]
struct UserRecord {
    name: String,
    hash: String,
}

/// The registered users and their password hashes.
#[derive(Debug)]
pub struct UserStore {
    users: Vec<UserRecord>,
}

/// What a login of `user` with `password` does to the store `before`:
/// `r` is the outcome and `after` the store afterwards.
///
/// A known user is authenticated when the password verifies against its
/// hash and denied otherwise; the store does not change. An unknown user is
/// registered with a hash that the password verifies against; only a
/// password too long to be sure to hash (more than
/// `max_hashed_password_len()` characters) may instead be denied, with the
/// store unchanged.
pub open spec fn login(
    before: Map<Seq<char>, Seq<char>>,
    user: Seq<char>,
    password: Seq<char>,
    r: AuthResult,
    after: Map<Seq<char>, Seq<char>>,
) -> bool {
    if before.contains_key(user) {
        &&& after == before
        &&& r == if password_verifies(password, before[user]) {
            AuthResult::Authenticated
        } else {
            AuthResult::Denied
        }
    } else {
        ||| r == AuthResult::Denied && after == before && password.len() > max_hashed_password_len()
        ||| r == AuthResult::Registered && exists|h: Seq<char>|
            password_verifies(password, h) && #[trigger] before.insert(user, h) == after
    }
}

impl View for UserStore {
    type V = Map<Seq<char>, Seq<char>>;

    /// Each registered user name with the hash of its password.
    closed spec fn view(&self) -> Map<Seq<char>, Seq<char>> {
        Map::new(
            |u: Seq<char>| exists|i: int| 0 <= i < self.users.len() && self.users@[i].name@ == u,
            |u: Seq<char>|
                self.users@[choose|i: int| 0 <= i < self.users.len() && self.users@[i].name@ == u].hash@,
        )
    }
}

impl UserStore {
    /// No user name is registered twice.
    pub closed spec fn wf(self) -> bool {
        forall|i: int, j: int|
            0 <= i < self.users.len() && 0 <= j < self.users.len() && i != j ==> self.users@[i].name@
                != self.users@[j].name@
    }

    /// An empty store.
    pub fn new() -> (s: Self)
        ensures
            s.wf(),
            s@ == Map::<Seq<char>, Seq<char>>::empty(),
    {
        let s = UserStore { users: Vec::new() };
        assert(s@ =~= Map::empty());
        s
    }

    /// Logs `user` in with `password`, registering the user on its first
    /// login.
    pub fn authenticate(&mut self, user: &str, password: &str) -> (r: AuthResult)
        requires
            old(self).wf(),
        ensures
            final(self).wf(),
            login(old(self)@, user@, password@, r, final(self)@),
    {
        let name = user.to_owned();
        let mut i: usize = 0;
        while i < self.users.len()
            invariant
                i <= self.users.len(),
                self.wf(),
                name@ == user@,
                forall|j: int| 0 <= j < i ==> self.users@[j].name@ != user@,
            decreases self.users.len() - i,
        {
            if self.users[i].name == name {
                let ok = password_matches(password, self.users[i].hash.as_str());
                proof {
                    assert(self@.contains_key(user@));
                    let k = choose|k: int| 0 <= k < self.users.len() && self.users@[k].name@ == user@;
                    assert(k == i);
                }
                return if ok {
                    AuthResult::Authenticated
                } else {
                    AuthResult::Denied
                };
            }
            i = i + 1;
        }
        let ghost before = self@;
        let ghost old_users = self.users@;
        assert(!before.contains_key(user@));
        match hash_with_fresh_salt(password) {
            Some(hash) => {
                let ghost h = hash@;
                self.users.push(UserRecord { name, hash });
                proof {
                    assert forall|u: Seq<char>| #[trigger] self@.contains_key(u) <==> before.insert(user@, h).contains_key(u) by {
                        if before.contains_key(u) {
                            let k = choose|k: int| 0 <= k < old_users.len() && old_users[k].name@ == u;
                            assert(self.users@[k].name@ == u);
                        }
                        if u == user@ {
                            assert(self.users@[old_users.len() as int].name@ == u);
                        }
                        if self@.contains_key(u) && u != user@ {
                            let k = choose|k: int| 0 <= k < self.users.len() && self.users@[k].name@ == u;
                            assert(k < old_users.len());
                            assert(old_users[k].name@ == u);
                        }
                    }
                    assert forall|u: Seq<char>| #[trigger] self@.contains_key(u) implies self@[u] == before.insert(user@, h)[u] by {
                        let k = choose|k: int| 0 <= k < self.users.len() && self.users@[k].name@ == u;
                        if u == user@ {
                            assert(k == old_users.len());
                        } else {
                            assert(k < old_users.len());
                            assert(old_users[k].name@ == u);
                            let k2 = choose|k2: int| 0 <= k2 < old_users.len() && old_users[k2].name@ == u;
                            assert(k2 == k);
                        }
                    }
                    assert(self@ =~= before.insert(user@, h));
                }
                AuthResult::Registered
            },
            None => AuthResult::Denied,
        }
    }
}

/// Logs `user` in with `password` in `store`, registering the user on its
/// first login; true unless the login is denied.
pub fn authenticate(store: &mut UserStore, user: &str, password: &str) -> (ok: bool)
    requires
        old(store).wf(),
    ensures
        final(store).wf(),
        exists|r: AuthResult| #[trigger] login(old(store)@, user@, password@, r, final(store)@) && ok == (r
            != AuthResult::Denied),
{
    let r = store.authenticate(user, password);
    match r {
        AuthResult::Denied => false,
        _ => true,
    }
}

/// After a user registers, logging in again with the same password
/// authenticates it and leaves the store as it was.
pub proof fn law_registered_user_authenticates(
    s0: Map<Seq<char>, Seq<char>>,
    s1: Map<Seq<char>, Seq<char>>,
    s2: Map<Seq<char>, Seq<char>>,
    user: Seq<char>,
    password: Seq<char>,
    r2: AuthResult,
)
    requires
        login(s0, user, password, AuthResult::Registered, s1),
        login(s1, user, password, r2, s2),
    ensures
        r2 == AuthResult::Authenticated,
        s2 == s1,
{
    let h = choose|h: Seq<char>| password_verifies(password, h) && #[trigger] s0.insert(user, h) == s1;
    assert(s1[user] == h);
}

/// The first login of a user registers it, unless its password is too long
/// to be sure to hash.
pub proof fn law_unknown_user_registers(
    before: Map<Seq<char>, Seq<char>>,
    user: Seq<char>,
    password: Seq<char>,
    r: AuthResult,
    after: Map<Seq<char>, Seq<char>>,
)
    requires
        login(before, user, password, r, after),
        !before.contains_key(user),
        password.len() <= max_hashed_password_len(),
    ensures
        r == AuthResult::Registered,
        after.contains_key(user),
        password_verifies(password, after[user]),
        forall|u: Seq<char>| u != user ==> after.contains_key(u) == before.contains_key(u) && #[trigger] after[u] == before[u],
{
    let h = choose|h: Seq<char>| password_verifies(password, h) && #[trigger] before.insert(user, h) == after;
    assert(after[user] == h);
}

/// A login never forgets a user nor changes the hash of a known user.
pub proof fn law_login_keeps_known_users(
    before: Map<Seq<char>, Seq<char>>,
    user: Seq<char>,
    password: Seq<char>,
    r: AuthResult,
    after: Map<Seq<char>, Seq<char>>,
)
    requires
        login(before, user, password, r, after),
    ensures
        forall|u: Seq<char>| #[trigger] before.contains_key(u) ==> after.contains_key(u) && after[u] == before[u],
        r == AuthResult::Registered <==> !before.contains_key(user) && after.contains_key(user),
{
    if r == AuthResult::Registered {
        let h = choose|h: Seq<char>| password_verifies(password, h) && #[trigger] before.insert(user, h) == after;
        assert(after.contains_key(user));
    }
}

} // verus!
