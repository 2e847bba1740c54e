//! The authentication gate: credential verification, session issue and
//! check, and the guarded password change. Password hashing and
//! verification are argon2's; the token is random; the clock is the
//! system's. Each outside call stands behind one trusted item, and the
//! decisions around them are verified.
use vstd::prelude::*;

use crate::domain::{AppError, AuthSession, User};
use crate::store::Store;
use argon2::password_hash::{PasswordHash, PasswordHasher, PasswordVerifier, SaltString};
use argon2::Argon2;
use rand::Rng;
use rand_core::OsRng;

verus! {

/// What argon2's verifier decides for a stored hash string in PHC form
/// and an attempted password: a function of the two strings alone.
pub uninterp spec fn verifies(hash: Seq<char>, password: Seq<char>) -> bool;

/// Whether argon2's PHC-string parser (`PasswordHash::new`) accepts a
/// stored hash string: a function of the string alone.
pub uninterp spec fn parseable(hash: Seq<char>) -> bool;

/// A lowercase hexadecimal digit.
pub open spec fn is_lower_hex(c: char) -> bool {
    ('0' <= c && c <= '9') || ('a' <= c && c <= 'f')
}

#[verifier::external_type_specification]
#[verifier::external_body]
pub struct ExPasswordHashError(argon2::password_hash::Error);

#[verifier::external_type_specification]
#[verifier::external_body]
pub struct ExSaltString(SaltString);

/// Relies on password-hash's `SaltString::generate` over the operating
/// system's randomness: a fresh salt; nothing is assumed of its value.
#[verifier::external_body]
fn generate_salt() -> (r: SaltString) {
    SaltString::generate(&mut OsRng)
}

/// Relies on argon2's `PasswordHasher::hash_password` and on the
/// password-hash round trip: whatever the salt, it emits a PHC string
/// that the parser accepts and that verifies against the hashed
/// password.
#[verifier::external_body]
fn argon2_hash(password: &str, salt: &SaltString) -> (r: Result<
    String,
    argon2::password_hash::Error,
>)
    ensures
        r matches Ok(h) ==> verifies(h@, password@) && parseable(h@),
{
    Ok(Argon2::default().hash_password(password.as_bytes(), salt)?.to_string())
}

/// Hashes a password over a fresh random salt; the result is a stored
/// hash the parser accepts, verifying against the password it was made
/// from.
pub fn hash_password(password: &str) -> (r: Result<String, argon2::password_hash::Error>)
    ensures
        r matches Ok(h) ==> verifies(h@, password@) && parseable(h@),
{
    let salt = generate_salt();
    argon2_hash(password, &salt)
}

/// Relies on argon2's `PasswordHash::new` and
/// `PasswordVerifier::verify_password`: parsing the stored string errs
/// exactly when the parser refuses it; otherwise the verdict is a pure
/// function of the stored hash and the attempted password.
#[verifier::external_body]
pub fn verify_password(stored_hash: &str, attempted_password: &str) -> (r: Result<
    bool,
    argon2::password_hash::Error,
>)
    ensures
        r matches Ok(b) ==> b == verifies(stored_hash@, attempted_password@),
        r is Err <==> !parseable(stored_hash@),
{
    let parsed = PasswordHash::new(stored_hash)?;
    Ok(Argon2::default().verify_password(attempted_password.as_bytes(), &parsed).is_ok())
}

/// Relies on rand's thread-local generator and on hexadecimal
/// formatting of the drawn word: an opaque random token, rendered as
/// one to thirty-two lowercase hex digits.
#[verifier::external_body]
fn generate_session_token() -> (r: String)
    ensures
        1 <= r@.len() <= 32,
        forall|i: int| 0 <= i < r@.len() ==> is_lower_hex(#[trigger] r@[i]),
{
    let mut rng = rand::thread_rng();
    let n: u128 = rng.gen();
    format!("{:x}", n)
}

/// Relies on chrono's `Utc::now`: the current Unix time in seconds;
/// nothing is assumed of its value.
#[verifier::external_body]
fn now_timestamp() -> (r: i64) {
    chrono::Utc::now().timestamp()
}

/// Seconds in the thirty-day session validity window.
pub const SESSION_WINDOW_SECS: i64 = 30 * 86400;

/// Index of the first user with the given username, or -1.
pub open spec fn first_user_by_name(us: Seq<User>, name: Seq<char>) -> int
    decreases us.len(),
{
    if us.len() == 0 {
        -1
    } else if us[0].username@ == name {
        0
    } else {
        let r = first_user_by_name(us.skip(1), name);
        if r == -1 {
            -1
        } else {
            r + 1
        }
    }
}

pub proof fn lemma_first_user_by_name(us: Seq<User>, name: Seq<char>)
    ensures
        ({
            let k = first_user_by_name(us, name);
            &&& -1 <= k < us.len()
            &&& k >= 0 ==> us[k].username@ == name && (forall|j: int|
                0 <= j < k ==> us[j].username@ != name)
            &&& k == -1 ==> (forall|j: int| 0 <= j < us.len() ==> us[j].username@ != name)
        }),
    decreases us.len(),
{
    if us.len() > 0 && us[0].username@ != name {
        lemma_first_user_by_name(us.skip(1), name);
        let k1 = first_user_by_name(us.skip(1), name);
        if k1 == -1 {
            assert forall|j: int| 0 <= j < us.len() implies us[j].username@ != name by {
                if j > 0 {
                    assert(us[j] == us.skip(1)[j - 1]);
                }
            }
        } else {
            assert(us[k1 + 1] == us.skip(1)[k1]);
            assert forall|j: int| 0 <= j < k1 + 1 implies us[j].username@ != name by {
                if j > 0 {
                    assert(us[j] == us.skip(1)[j - 1]);
                }
            }
        }
    }
}

/// Issues a session: the given token, expiring exactly thirty days
/// after `now`.
pub fn issue_session(token: String, now: i64) -> (r: Result<AuthSession, AppError>)
    ensures
        ({
            match r {
                Ok(s) => {
                    &&& now + SESSION_WINDOW_SECS <= i64::MAX
                    &&& s.token == token
                    &&& s.expires_at == now + SESSION_WINDOW_SECS
                },
                Err(e) => e == AppError::Storage && now + SESSION_WINDOW_SECS > i64::MAX,
            }
        }),
{
    match now.checked_add(SESSION_WINDOW_SECS) {
        Some(exp) => Ok(AuthSession { token, expires_at: exp }),
        None => Err(AppError::Storage),
    }
}

/// Whether a session is valid at the given instant: strictly before
/// its expiry. Checking refreshes nothing.
pub fn session_valid_at(s: &AuthSession, now: i64) -> (b: bool)
    ensures
        b == (now < s.expires_at),
{
    now < s.expires_at
}

/// Whether the presented session, if any, is valid at this moment.
/// True only for a present session that the clock has not passed.
pub fn check_session(session: &Option<AuthSession>) -> (b: bool)
    ensures
        b ==> session.is_some(),
{
    match session {
        Some(s) => session_valid_at(s, now_timestamp()),
        None => false,
    }
}

impl Store {
    /// Finds a user by username.
    #[verifier::loop_isolation(false)]
    pub fn find_user_by_name(&self, username: &String) -> (r: Option<usize>)
        ensures
            ({
                let k = first_user_by_name(self.users@, username@);
                match r {
                    Some(i) => i < self.users@.len() && self.users@[i as int].username@ == username@
                        && k == i as int,
                    None => k == -1,
                }
            }),
    {
        proof {
            lemma_first_user_by_name(self.users@, username@);
        }
        let mut i: usize = 0;
        while i < self.users.len()
            invariant
                i <= self.users@.len(),
                forall|j: int| 0 <= j < i ==> self.users@[j].username@ != username@,
            decreases self.users@.len() - i,
        {
            if self.users[i].username == *username {
                return Some(i);
            }
            i = i + 1;
        }
        None
    }

    /// Verifies the credentials against the stored record and, on
    /// success, issues a fresh session: a random token, expiring
    /// thirty days from now. An unknown user, a wrong password and an
    /// unreadable stored hash all fail with the same authentication
    /// error — and a readable, verifying credential never does; the
    /// store is read only.
    pub fn authenticate(&self, username: &String, password: &str) -> (r: Result<
        AuthSession,
        AppError,
    >)
        ensures
            ({
                let k = first_user_by_name(self.users@, username@);
                match r {
                    Ok(s) => {
                        &&& k >= 0
                        &&& verifies(self.users@[k].password@, password@)
                        &&& 1 <= s.token@.len() <= 32
                        &&& forall|i: int|
                            0 <= i < s.token@.len() ==> is_lower_hex(#[trigger] s.token@[i])
                    },
                    Err(AppError::Storage) => k >= 0 && verifies(
                        self.users@[k].password@,
                        password@,
                    ),
                    Err(e) => e == AppError::Auth,
                }
            }),
            ({
                let k = first_user_by_name(self.users@, username@);
                &&& (k == -1 ==> r == Err::<AuthSession, AppError>(AppError::Auth))
                &&& (k >= 0 && parseable(self.users@[k].password@) && !verifies(
                    self.users@[k].password@,
                    password@,
                ) ==> r == Err::<AuthSession, AppError>(AppError::Auth))
                &&& (k >= 0 && parseable(self.users@[k].password@) && verifies(
                    self.users@[k].password@,
                    password@,
                ) ==> !(r matches Err(AppError::Auth)))
            }),
    {
        let i = match self.find_user_by_name(username) {
            Some(i) => i,
            None => {
                return Err(AppError::Auth);
            },
        };
        match verify_password(self.users[i].password.as_str(), password) {
            Ok(true) => {
                let token = generate_session_token();
                let now = now_timestamp();
                issue_session(token, now)
            },
            Ok(false) => Err(AppError::Auth),
            Err(_) => Err(AppError::Auth),
        }
    }

    /// Re-verifies the current password against the administrator
    /// record (the first user), enforces the eight-character minimum
    /// on the new password, then hashes and stores it. The stored hash
    /// changes only when every check passed; nothing else ever changes.
    pub fn change_password(&mut self, current_password: &str, new_password: &str) -> (r: Result<
        (),
        AppError,
    >)
        requires
            old(self).wf(),
        ensures
            final(self).wf(),
            ({
                match r {
                    Ok(()) => {
                        &&& old(self).users@.len() > 0
                        &&& verifies(old(self).users@[0].password@, current_password@)
                        &&& new_password@.len() >= 8
                        &&& verifies(final(self).users@[0].password@, new_password@)
                        &&& final(self).users@.len() == old(self).users@.len()
                        &&& final(self).users@[0].id == old(self).users@[0].id
                        &&& final(self).users@[0].username == old(self).users@[0].username
                        &&& forall|i: int|
                            1 <= i < old(self).users@.len() ==> final(self).users@[i] == old(
                                self,
                            ).users@[i]
                        &&& final(self).products == old(self).products
                        &&& final(self).sales == old(self).sales
                        &&& final(self).next_product_id == old(self).next_product_id
                        &&& final(self).next_sale_id == old(self).next_sale_id
                    },
                    Err(AppError::NotFound) => old(self).users@.len() == 0 && *final(self) == *old(
                        self,
                    ),
                    Err(AppError::Validation) => {
                        &&& old(self).users@.len() > 0
                        &&& (!verifies(old(self).users@[0].password@, current_password@)
                            || new_password@.len() < 8)
                        &&& *final(self) == *old(self)
                    },
                    Err(AppError::Storage) => {
                        &&& old(self).users@.len() > 0
                        &&& (!parseable(old(self).users@[0].password@) || (verifies(
                            old(self).users@[0].password@,
                            current_password@,
                        ) && new_password@.len() >= 8))
                        &&& *final(self) == *old(self)
                    },
                    Err(_) => false,
                }
            }),
            old(self).users@.len() > 0 && parseable(old(self).users@[0].password@) && !verifies(
                old(self).users@[0].password@,
                current_password@,
            ) ==> r == Err::<(), AppError>(AppError::Validation),
    {
        if self.users.len() == 0 {
            return Err(AppError::NotFound);
        }
        match verify_password(self.users[0].password.as_str(), current_password) {
            Ok(true) => {
                if new_password.unicode_len() < 8 {
                    return Err(AppError::Validation);
                }
                let hashed = match hash_password(new_password) {
                    Ok(h) => h,
                    Err(_) => {
                        return Err(AppError::Storage);
                    },
                };
                let id = self.users[0].id;
                let username = self.users[0].username.clone();
                self.users[0] = User { id, username, password: hashed };
                Ok(())
            },
            Ok(false) => Err(AppError::Validation),
            Err(_) => Err(AppError::Storage),
        }
    }
}

} // verus!
