//! Logging in: the password check, the fresh API key, and where the user
//! lands afterwards.
//!
//! Storing the key in the caller's session lies between deciding and
//! recording, so a login is made in two steps: [`login`] decides and hands
//! out a [`Grant`]; once the caller has put the grant's key into the
//! session, [`Grant::commit`] records it in the identity cache.

use vstd::prelude::*;
use crate::models::User;
use crate::session::{is_key_text, resolve, ApiKey, IdentityCache, LOGIN_PATH};
use crate::text::same_text;

verus! {

/// What a login form carries.
#[derive(Debug, Clone)]
pub struct LoginForm {
    pub login: String,
    pub password: String,
}

/// The SHA-256 digest of the UTF-8 bytes of `input`, written as 64
/// lower-case hexadecimal digits.
pub uninterp spec fn sha256_hex(input: Seq<char>) -> Seq<char>;

/// Digests `input`.
///
/// Trusted: calls `sha256::digest` on a `&str`, which hashes the bytes of
/// the string with SHA-256 and writes the digest in hexadecimal. The
/// contract names that text and claims only that it depends on the input
/// alone.
#[verifier::external_body]
fn sha256_digest(input: &str) -> (digest: String)
    ensures
        digest@ == sha256_hex(input@),
{
    sha256::digest(input)
}

/// The form in which a password is stored and compared.
pub fn hash_password(password: &str) -> (hash: String)
    ensures
        hash@ == sha256_hex(password@),
{
    sha256_digest(password)
}

/// The hash to store for a password that an administrator typed into a
/// user form: none for an empty field, which leaves the password as it is.
pub fn new_password_hash(password: &str) -> (hash: Option<String>)
    ensures
        password@.len() == 0 ==> hash is None,
        password@.len() > 0 ==> hash is Some && hash->0@ == sha256_hex(password@),
{
    if password.is_empty() {
        None
    } else {
        Some(hash_password(password))
    }
}

/// Whether a user lookup and the digest of the typed password make a valid
/// login: the user was found and the digest is the stored hash.
pub open spec fn accepts<E>(user: Result<User, E>, password_digest: Seq<char>) -> bool {
    user matches Ok(found) && found.passwordhash@ == password_digest
}

/// Whether a user lookup and the digest of the typed password make a valid
/// login.
pub fn check_credentials<E>(user: &Result<User, E>, password_digest: &str) -> (valid: bool)
    ensures
        valid == accepts(*user, password_digest@),
{
    match user {
        Err(_) => false,
        Ok(found) => same_text(password_digest, found.passwordhash.as_str()),
    }
}

/// The page that a user of the given role is sent to after logging in.
pub open spec fn landing_path(role: Seq<char>) -> Seq<char> {
    if role == "admin"@ {
        "/admin"@
    } else if role == "master"@ {
        "/master"@
    } else if role == "analyst"@ {
        "/analyst"@
    } else if role == "manager"@ {
        "/manager"@
    } else {
        LOGIN_PATH@
    }
}

/// The page that a user of the given role is sent to after logging in:
/// the role's own page, or the login page for a role that has none.
pub fn landing_page(role: &str) -> (path: &'static str)
    ensures
        path@ == landing_path(role@),
{
    if same_text(role, "admin") {
        "/admin"
    } else if same_text(role, "master") {
        "/master"
    } else if same_text(role, "analyst") {
        "/analyst"
    } else if same_text(role, "manager") {
        "/manager"
    } else {
        LOGIN_PATH
    }
}

/// A login that was accepted and waits to be recorded: the key to put into
/// the session, the user it stands for, and where to send the user.
pub struct Grant {
    api_key: ApiKey,
    user_id: i32,
    landing: &'static str,
}

impl Grant {
    /// The key of this login.
    pub closed spec fn key(&self) -> Seq<char> {
        self.api_key@
    }

    /// The user who logged in.
    pub closed spec fn user(&self) -> i32 {
        self.user_id
    }

    /// The page the user is sent to.
    pub closed spec fn target(&self) -> Seq<char> {
        self.landing@
    }

    /// The key to store in the session under [`crate::session::API_KEY`].
    pub fn api_key(&self) -> (key: &ApiKey)
        ensures
            key@ == self.key(),
    {
        &self.api_key
    }

    /// The user who logged in.
    pub fn user_id(&self) -> (id: i32)
        ensures
            id == self.user(),
    {
        self.user_id
    }

    /// The page the user is sent to.
    pub fn landing(&self) -> (path: &'static str)
        ensures
            path@ == self.target(),
    {
        self.landing
    }

    /// Records the login in the identity cache and gives the page to send
    /// the user to. From now on the key resolves to the user.
    pub fn commit(self, cache: &mut IdentityCache) -> (path: &'static str)
        ensures
            final(cache)@ == old(cache)@.insert(self.key(), self.user()),
            path@ == self.target(),
    {
        cache.insert(self.api_key, self.user_id);
        self.landing
    }
}

/// Accepts the login of `user` under the key `key`.
///
/// The user must carry an id, as every user read from storage does.
pub fn grant(user: &User, key: ApiKey) -> (granted: Grant)
    requires
        user.user_id is Some,
    ensures
        granted.key() == key@,
        granted.user() == user.user_id->0,
        granted.target() == landing_path(user.role@),
{
    Grant {
        api_key: key,
        user_id: user.user_id.unwrap(),
        landing: landing_page(user.role.as_str()),
    }
}

/// How a login attempt ended.
pub enum LoginOutcome {
    /// No such user, or the wrong password: the caller redirects to
    /// [`LOGIN_PATH`] and changes nothing.
    Denied,
    /// The login is valid: the caller stores the grant's key in the session
    /// and commits the grant.
    Granted(Grant),
}

/// Decides a login attempt. `user` is what looking up the form's login name
/// in storage gave.
///
/// The attempt is granted exactly if the user was found and the SHA-256
/// digest of the typed password is the stored hash. A grant carries a fresh
/// random key, the found user's id and the landing page of the user's role.
/// A found user must carry an id, as every user read from storage does.
pub fn login<E>(user: Result<User, E>, form: &LoginForm) -> (outcome: LoginOutcome)
    requires
        user matches Ok(found) ==> found.user_id is Some,
    ensures
        outcome is Granted <==> accepts(user, sha256_hex(form.password@)),
        outcome matches LoginOutcome::Granted(granted) ==> {
            &&& is_key_text(granted.key())
            &&& granted.user() == user->Ok_0.user_id->0
            &&& granted.target() == landing_path(user->Ok_0.role@)
        },
{
    let digest = hash_password(form.password.as_str());
    if check_credentials(&user, digest.as_str()) {
        match user {
            Ok(found) => LoginOutcome::Granted(grant(&found, ApiKey::generate())),
            Err(_) => LoginOutcome::Denied,
        }
    } else {
        LoginOutcome::Denied
    }
}

/// Once a grant is committed, a session that carries its key resolves to
/// the user who logged in.
pub proof fn lemma_login_round_trip<S>(
    before: Map<Seq<char>, i32>,
    granted: Grant,
    key: ApiKey,
)
    requires
        key@ == granted.key(),
    ensures
        resolve::<S>(before.insert(granted.key(), granted.user()), Ok(Some(key))) == Ok::<
            Option<i32>,
            (),
        >(Some(granted.user())),
{
}

} // verus!
