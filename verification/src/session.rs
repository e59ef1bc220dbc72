//! The session-identity resolver: from the API key that a session carries
//! to the user who logged in with it.
//!
//! The cache is an owned value. A lookup borrows it shared and an insertion
//! borrows it exclusively, so a caller that shares one cache between
//! requests keeps it behind a reader/writer lock and holds the lock for no
//! longer than one call of this module.

use vstd::prelude::*;
use vstd::hash_map::StringHashMap;
use crate::decimal::{decimal_text, format_i32, lemma_parse_decimal_text, parse_decimal, parse_i32};
use crate::text::{contains_text, has_substring};

verus! {

/// The name of the session attribute that holds the API key.
pub const API_KEY: &'static str = "apikey";

/// The random key that one login is known by.
#[derive(Debug, Clone)]
pub struct ApiKey(pub String);

impl View for ApiKey {
    type V = Seq<char>;

    open spec fn view(&self) -> Seq<char> {
        self.0@
    }
}

impl Default for ApiKey {
    fn default() -> (key: ApiKey)
        ensures
            key@ == Seq::<char>::empty(),
    {
        ApiKey(String::new())
    }
}

/// Whether `c` is a digit of lower-case hexadecimal.
pub open spec fn is_lower_hex(c: char) -> bool {
    ('0' <= c <= '9') || ('a' <= c <= 'f')
}

/// Whether `c` may stand at `position` of a freshly generated key: a
/// hyphen after the 8th, 12th, 16th and 20th hexadecimal digit, a
/// lower-case hexadecimal digit elsewhere.
pub open spec fn is_key_char(position: int, c: char) -> bool {
    if position == 8 || position == 13 || position == 18 || position == 23 {
        c == '-'
    } else {
        is_lower_hex(c)
    }
}

/// The shape of a freshly generated key: 32 lower-case hexadecimal digits
/// in five groups, 36 characters with the hyphens between them. The third
/// group begins with the version, 4, and the fourth with the variant, one
/// of 8, 9, a and b.
pub open spec fn is_key_text(s: Seq<char>) -> bool {
    &&& s.len() == 36
    &&& forall|i: int| 0 <= i < 36 ==> is_key_char(i, #[trigger] s[i])
    &&& s[14] == '4'
    &&& (s[19] == '8' || s[19] == '9' || s[19] == 'a' || s[19] == 'b')
}

/// Draws a new random key.
///
/// Trusted: calls `uuid::Uuid::new_v4`, which draws 128 random bits and
/// sets the version to 4 and the variant to the two bits `10`, and writes
/// the result with the `Display` of `uuid::Uuid`, which is the hyphenated
/// lower-case form. The contract claims that shape and nothing about which
/// key comes out: two calls need not agree. The call reads the operating
/// system's random source and stops the program if that source fails.
#[verifier::external_body]
fn random_key_text() -> (text: String)
    ensures
        is_key_text(text@),
{
    uuid::Uuid::new_v4().to_string()
}

impl ApiKey {
    /// A fresh random key.
    pub fn generate() -> (key: ApiKey)
        ensures
            is_key_text(key@),
    {
        ApiKey(random_key_text())
    }
}

/// The process-wide memory of who logged in under which API key.
///
/// Each entry keeps the user's id as decimal text. Entries are only ever
/// added, by [`IdentityCache::insert`].
pub struct IdentityCache {
    entries: StringHashMap<String>,
}

impl View for IdentityCache {
    type V = Map<Seq<char>, i32>;

    /// The user id that each known key stands for.
    closed spec fn view(&self) -> Map<Seq<char>, i32> {
        Map::new(
            |key: Seq<char>| self.entries@.contains_key(key),
            |key: Seq<char>| parse_decimal(self.entries@[key]@).unwrap(),
        )
    }
}

impl IdentityCache {
    /// Every stored text is the decimal text of a user id.
    #[verifier::type_invariant]
    spec fn well_formed(self) -> bool {
        forall|key: Seq<char>| #[trigger]
            self.entries@.contains_key(key) ==> exists|id: i32|
                self.entries@[key]@ == decimal_text(id as int)
    }

    /// A cache that knows no key.
    pub fn new() -> (cache: IdentityCache)
        ensures
            cache@ == Map::<Seq<char>, i32>::empty(),
    {
        let cache = IdentityCache { entries: StringHashMap::new() };
        assert(cache@ =~= Map::<Seq<char>, i32>::empty());
        cache
    }

    /// How many keys the cache knows.
    pub fn len(&self) -> (count: usize)
        ensures
            count == self@.len(),
    {
        assert(self@.dom() =~= self.entries@.dom());
        self.entries.len()
    }

    /// Records that `key` stands for `user_id`. A key that was known before
    /// stands for `user_id` from now on; every other key keeps its user.
    pub fn insert(&mut self, key: ApiKey, user_id: i32)
        ensures
            final(self)@ == old(self)@.insert(key@, user_id),
    {
        proof {
            use_type_invariant(&*self);
            lemma_parse_decimal_text(user_id);
        }
        let text = format_i32(user_id);
        // The map is taken out while it grows, so that the cache is well
        // formed at every step.
        let mut entries: StringHashMap<String> = StringHashMap::new();
        std::mem::swap(&mut self.entries, &mut entries);
        entries.insert(key.0, text);
        self.entries = entries;
        assert(self@ =~= old(self)@.insert(key@, user_id));
    }

    /// The text stored under `key`, if the cache knows the key: the decimal
    /// text of the user's id.
    pub fn lookup_text(&self, key: &ApiKey) -> (text: Option<String>)
        ensures
            match text {
                Some(t) => self@.contains_key(key@) && t@ == decimal_text(self@[key@] as int),
                None => !self@.contains_key(key@),
            },
    {
        proof {
            use_type_invariant(self);
        }
        match self.entries.get(key.0.as_str()) {
            None => None,
            Some(text) => {
                proof {
                    let id = choose|id: i32| self.entries@[key@]@ == decimal_text(id as int);
                    lemma_parse_decimal_text(id);
                }
                Some(text.clone())
            },
        }
    }

    /// The user that `key` stands for, if the cache knows the key.
    pub fn lookup(&self, key: &ApiKey) -> (user_id: Option<i32>)
        ensures
            user_id == if self@.contains_key(key@) {
                Some(self@[key@])
            } else {
                None::<i32>
            },
    {
        proof {
            use_type_invariant(self);
        }
        match self.entries.get(key.0.as_str()) {
            None => None,
            Some(text) => {
                proof {
                    let id = choose|id: i32| self.entries@[key@]@ == decimal_text(id as int);
                    lemma_parse_decimal_text(id);
                }
                parse_i32(text.as_str())
            },
        }
    }
}

/// Who a request acts as, given what its session holds under [`API_KEY`]
/// and what the cache knows: a failing session is an error, a session
/// without a key or with a key that the cache does not know is nobody, and
/// a known key is the user it stands for.
pub open spec fn resolve<S>(cache: Map<Seq<char>, i32>, session_key: Result<Option<ApiKey>, S>)
    -> Result<Option<i32>, ()> {
    match session_key {
        Err(_) => Err(()),
        Ok(None) => Ok(None),
        Ok(Some(key)) => if cache.contains_key(key@) {
            Ok(Some(cache[key@]))
        } else {
            Ok(None)
        },
    }
}

/// Resolves the user that a request acts as. `session_key` is what reading
/// the attribute [`API_KEY`] from the request's session gave.
///
/// Nothing is changed. `Ok(None)` says that nobody is logged in; `Err(())`
/// says only that the session could not be read.
pub fn get_user_id<S>(cache: &IdentityCache, session_key: Result<Option<ApiKey>, S>) -> (res:
    Result<Option<i32>, ()>)
    ensures
        res == resolve(cache@, session_key),
        session_key is Err <==> res is Err,
        session_key == Ok::<Option<ApiKey>, S>(None) ==> res == Ok::<Option<i32>, ()>(None),
{
    match session_key {
        Err(_) => Err(()),
        Ok(None) => Ok(None),
        Ok(Some(key)) => Ok(cache.lookup(&key)),
    }
}

/// What a handler that needs a user makes of a resolved identity: the
/// user, or the HTTP status to answer with, 401 where nobody is logged in
/// and 500 where the session could not be read.
pub open spec fn required_user(identity: Result<Option<i32>, ()>) -> Result<i32, u16> {
    match identity {
        Ok(Some(user_id)) => Ok(user_id),
        Ok(None) => Err(401),
        Err(_) => Err(500),
    }
}

/// The user that a request acts as, or the HTTP status that tells the
/// caller why there is none. Nobody being logged in and the session being
/// unreadable are told apart.
pub fn require_user(identity: Result<Option<i32>, ()>) -> (res: Result<i32, u16>)
    ensures
        res == required_user(identity),
{
    match identity {
        Ok(Some(user_id)) => Ok(user_id),
        Ok(None) => Err(401),
        Err(_) => Err(500),
    }
}

/// Where a request that may not pass is sent.
pub const LOGIN_PATH: &'static str = "/login";

/// What happens to a request at the door.
#[derive(Debug, Clone, Copy, PartialEq, Eq, Structural)]
pub enum Admission {
    /// The request goes on to its handler.
    Forward,
    /// The request is answered with a redirect to [`LOGIN_PATH`].
    RedirectToLogin,
}

/// Whether a request for `uri` passes without anybody being logged in: it
/// does where `login` stands somewhere in the address.
pub open spec fn is_open_path(uri: Seq<char>) -> bool {
    has_substring(uri, "login"@)
}

/// Whether a request for `uri` passes without anybody being logged in.
pub fn is_login_path(uri: &str) -> (open: bool)
    ensures
        open == is_open_path(uri@),
{
    contains_text(uri, "login")
}

/// What happens to a request for `uri` made as `identity`: it goes on if
/// the address is open or somebody is logged in, and is sent to the login
/// page otherwise, also where the identity could not be resolved.
pub open spec fn admission(uri: Seq<char>, identity: Result<Option<i32>, ()>) -> Admission {
    if is_open_path(uri) || identity matches Ok(Some(_)) {
        Admission::Forward
    } else {
        Admission::RedirectToLogin
    }
}

/// Decides at the door what happens to a request for `uri` whose identity
/// resolved to `identity`.
pub fn auth_middleware(uri: &str, identity: &Result<Option<i32>, ()>) -> (decision: Admission)
    ensures
        decision == admission(uri@, *identity),
{
    if is_login_path(uri) {
        return Admission::Forward;
    }
    match identity {
        Ok(Some(_)) => Admission::Forward,
        _ => Admission::RedirectToLogin,
    }
}

/// A key resolves to the user it was inserted for, as soon as it is
/// inserted, whatever the cache knew before.
pub proof fn lemma_inserted_key_resolves<S>(cache: Map<Seq<char>, i32>, key: ApiKey, user_id: i32)
    ensures
        resolve::<S>(cache.insert(key@, user_id), Ok(Some(key))) == Ok::<Option<i32>, ()>(
            Some(user_id),
        ),
{
}

/// Inserting one key changes what no other key resolves to.
pub proof fn lemma_other_keys_unchanged<S>(
    cache: Map<Seq<char>, i32>,
    key: ApiKey,
    user_id: i32,
    other: ApiKey,
)
    requires
        other@ != key@,
    ensures
        resolve::<S>(cache.insert(key@, user_id), Ok(Some(other))) == resolve::<S>(
            cache,
            Ok(Some(other)),
        ),
{
}

/// A session without a key resolves to nobody, whatever the cache knows.
pub proof fn lemma_no_key_is_nobody<S>(cache: Map<Seq<char>, i32>)
    ensures
        resolve::<S>(cache, Ok(None)) == Ok::<Option<i32>, ()>(None),
{
}

} // verus!
