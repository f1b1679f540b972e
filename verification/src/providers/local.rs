//! The local directory connector: accounts held in process, passwords kept
//! only as argon2 hashes, and a begin/authenticate flow bound by a challenge
//! state.
use vstd::prelude::*;
use argon2::password_hash::{PasswordHash, PasswordHasher, PasswordVerifier, SaltString};
use argon2::Argon2;
use crate::text::{owned, cat3, i64_decimal, signed_decimal, str_eq, views, utf8};
use crate::boundary::ceremony::random_bytes;
use crate::assoc::{lookup, get_entry, set_entry};
use crate::sorting::{insertion_sort, isort_by, le_of, views_of};
use crate::dsl::model::PasswordPolicy;
use crate::discovery::propose::opt_str;
use super::catalog::{describe, described};
use super::connector::{
    AuthChallenge, AuthConnector, AuthRequest, AuthResponse, ChallengeKind, ConnectorError,
    ConnectorErrorView, ConnectorMetadata, ExternalIdentity, challenge_state, challenge_state_of,
    param_value,
};

verus! {

/// `argon2::password_hash::Error`, what hashing can fail with.
#[verifier::external_type_specification]
#[verifier::external_body]
pub struct ExPasswordHashError(argon2::password_hash::Error);

/// Whether argon2, with its default parameters, accepts `password` against
/// the PHC string `phc`.
pub uninterp spec fn argon2_accepts(password: Seq<char>, phc: Seq<char>) -> bool;

/// A password argon2 takes: at most `0xFFFF_FFFF` bytes in UTF-8.
pub open spec fn hashable(password: Seq<char>) -> bool {
    utf8(password).len() <= 0xFFFF_FFFF
}

/// Hashes `password` with argon2's defaults under the 16 bytes of `salt`
/// (`SaltString::encode_b64`, then `PasswordHasher::hash_password`), as a PHC
/// string. What is stated is what the password-hash crate promises of it:
/// verification accepts the password against it. With the default
/// parameters and a salt of this length, hashing fails only for a password
/// longer than `MAX_PWD_LEN` bytes. The string itself is not stated.
#[verifier::external_body]
fn argon2_hash(password: &str, salt: &[u8]) -> (r: Result<String, argon2::password_hash::Error>)
    requires
        salt@.len() == 16,
    ensures
        r matches Ok(h) ==> argon2_accepts(password@, h@),
        hashable(password@) ==> r is Ok,
{
    match SaltString::encode_b64(salt) {
        Ok(salt) => Argon2::default().hash_password(password.as_bytes(), &salt).map(|hash| hash.to_string()),
        Err(e) => Err(e),
    }
}

/// Parses `phc` (`PasswordHash::new`) and checks `password` against it with
/// `PasswordVerifier::verify_password` under argon2's defaults; a string that
/// does not parse accepts nothing. The result is a function of the two
/// strings alone.
#[verifier::external_body]
fn argon2_verify(password: &str, phc: &str) -> (r: bool)
    ensures
        r == argon2_accepts(password@, phc@),
{
    match PasswordHash::new(phc) {
        Ok(parsed) => Argon2::default().verify_password(password.as_bytes(), &parsed).is_ok(),
        Err(_) => false,
    }
}

/// An account of the local directory.
#[derive(Clone, PartialEq, Eq)]
pub struct LocalAccount {
    pub username: String,
    password_hash: String,
    password_history: Vec<String>,
    password_changed_at: i64,
    pub attributes: Vec<(String, String)>,
}

pub struct AccountView {
    pub username: Seq<char>,
    pub password_hash: Seq<char>,
    pub history: Seq<Seq<char>>,
    pub changed_at: i64,
    pub attributes: Seq<(String, String)>,
}

impl View for LocalAccount {
    type V = AccountView;

    closed spec fn view(&self) -> AccountView {
        AccountView {
            username: self.username@,
            password_hash: self.password_hash@,
            history: views(self.password_history@),
            changed_at: self.password_changed_at,
            attributes: self.attributes@,
        }
    }
}

/// The password matches the current hash or one of the first `count`
/// earlier ones.
pub open spec fn reused(a: AccountView, password: Seq<char>, count: nat) -> bool {
    argon2_accepts(password, a.password_hash) || exists|i: int|
        0 <= i < a.history.len() && i < count && argon2_accepts(password, #[trigger] a.history[i])
}

/// The history after a change away from `a`'s current hash: that hash first,
/// at most `count` kept.
pub open spec fn next_history(a: AccountView, count: nat) -> Seq<Seq<char>> {
    let h = seq![a.password_hash] + a.history;
    if count <= h.len() {
        h.take(count as int)
    } else {
        h
    }
}

/// What replacing `a`'s password with `password` did, by outcome: a reused
/// password is refused and nothing changes; otherwise the new hash accepts
/// the password and the replaced one heads the history, unless hashing
/// failed, which changes nothing. Where a salt was `drawn`, hashing fails
/// only for a password argon2 does not take.
pub open spec fn password_set(
    a: AccountView,
    after: AccountView,
    r: Result<(), ConnectorError>,
    password: Seq<char>,
    count: nat,
    now: i64,
    drawn: bool,
) -> bool {
    if reused(a, password, count) {
        (r matches Err(e) && e@ == ConnectorErrorView::PasswordReused("local"@)) && after == a
    } else {
        match r {
            Ok(()) => {
                &&& after.username == a.username
                &&& after.attributes == a.attributes
                &&& argon2_accepts(password, after.password_hash)
                &&& after.history == next_history(a, count)
                &&& after.changed_at == now
            },
            Err(e) => e@ == ConnectorErrorView::PasswordHashingFailed("local"@) && after == a && !(drawn
                && hashable(password)),
        }
    }
}

impl LocalAccount {
    /// A new account holding only the argon2 hash of `password` under a salt
    /// from the system's generator; fails where the system has no randomness
    /// to give or argon2 does not take the password.
    pub fn new(username: &str, password: &str) -> (r: Result<Self, ConnectorError>)
        ensures
            match r {
                Ok(a) => {
                    &&& a@.username == username@
                    &&& argon2_accepts(password@, a@.password_hash)
                    &&& a@.history.len() == 0
                    &&& a@.changed_at == 0
                    &&& a@.attributes.len() == 0
                },
                Err(e) => e@ == ConnectorErrorView::PasswordHashingFailed("local"@),
            },
    {
        match random_bytes(16) {
            Some(salt) => Self::new_with_salt(username, password, &salt),
            None => Err(ConnectorError::PasswordHashingFailed { connector: owned("local") }),
        }
    }

    /// A new account holding only the argon2 hash of `password` under the
    /// 16 bytes of `salt`; it fails only where argon2 does not take the
    /// password.
    pub fn new_with_salt(username: &str, password: &str, salt: &Vec<u8>) -> (r: Result<Self, ConnectorError>)
        requires
            salt@.len() == 16,
        ensures
            hashable(password@) ==> r is Ok,
            match r {
                Ok(a) => {
                    &&& a@.username == username@
                    &&& argon2_accepts(password@, a@.password_hash)
                    &&& a@.history.len() == 0
                    &&& a@.changed_at == 0
                    &&& a@.attributes.len() == 0
                },
                Err(e) => e@ == ConnectorErrorView::PasswordHashingFailed("local"@),
            },
    {
        match argon2_hash(password, salt.as_slice()) {
            Ok(h) => Ok(LocalAccount {
                username: owned(username),
                password_hash: h,
                password_history: Vec::new(),
                password_changed_at: 0,
                attributes: Vec::new(),
            }),
            Err(_) => Err(ConnectorError::PasswordHashingFailed { connector: owned("local") }),
        }
    }

    pub fn with_attribute(self, key: &str, value: &str) -> (r: Self)
        ensures
            r@.username == self@.username,
            r@.password_hash == self@.password_hash,
            r@.history == self@.history,
            r@.changed_at == self@.changed_at,
            lookup(r@.attributes, key@) matches Some(v) && v@ == value@,
            forall|k: Seq<char>| k != key@ ==> lookup(r@.attributes, k) == lookup(self@.attributes, k),
    {
        let mut s = self;
        set_entry(&mut s.attributes, owned(key), owned(value));
        s
    }

    fn verify_password(&self, password: &str) -> (r: bool)
        ensures
            r == argon2_accepts(password@, self@.password_hash),
    {
        argon2_verify(password, self.password_hash.as_str())
    }

    fn matches_current_or_history(&self, password: &str, history_count: usize) -> (r: bool)
        ensures
            r == reused(self@, password@, history_count as nat),
    {
        if self.verify_password(password) {
            return true;
        }
        let mut i: usize = 0;
        while i < self.password_history.len() && i < history_count
            invariant
                i <= self.password_history@.len(),
                forall|j: int| 0 <= j < i ==> !argon2_accepts(password@, #[trigger] self@.history[j]),
                !argon2_accepts(password@, self@.password_hash),
            decreases self.password_history@.len() - i,
        {
            assert(self@.history[i as int] == self.password_history@[i as int]@);
            if argon2_verify(password, self.password_history[i].as_str()) {
                return true;
            }
            i = i + 1;
        }
        false
    }

    /// Replaces the password, refusing one that matches the current password
    /// or one of the last `password_history_count`; the replaced hash heads
    /// the history. The new hash takes a salt from the system's generator, or,
    /// where `salt` is given, those 16 bytes.
    fn set_password(&mut self, password: &str, salt: Option<&Vec<u8>>, policy: &PasswordPolicy, now: i64) -> (r: Result<
        (),
        ConnectorError,
    >)
        requires
            salt matches Some(s) ==> s@.len() == 16,
        ensures
            password_set(
                old(self)@,
                final(self)@,
                r,
                password@,
                policy.password_history_count as nat,
                now,
                salt is Some,
            ),
    {
        if self.matches_current_or_history(password, policy.password_history_count) {
            return Err(ConnectorError::PasswordReused { connector: owned("local") });
        }
        let drawn = match salt {
            Some(s) => argon2_hash(password, s.as_slice()),
            None => match random_bytes(16) {
                Some(s) => argon2_hash(password, s.as_slice()),
                None => {
                    return Err(ConnectorError::PasswordHashingFailed { connector: owned("local") });
                },
            },
        };
        let h = match drawn {
            Ok(h) => h,
            Err(_) => {
                return Err(ConnectorError::PasswordHashingFailed { connector: owned("local") });
            },
        };
        let ghost before = self@;
        let mut previous = h;
        std::mem::swap(&mut previous, &mut self.password_hash);
        self.password_history.insert(0, previous);
        self.password_history.truncate(policy.password_history_count);
        self.password_changed_at = now;
        proof {
            let full = seq![before.password_hash] + before.history;
            assert(views(self.password_history@) =~= next_history(before, policy.password_history_count as nat)) by {
                assert(full.len() == before.history.len() + 1);
            }
        }
        Ok(())
    }
}

/// The accounts hold distinct usernames.
pub open spec fn distinct_names(a: Seq<AccountView>) -> bool {
    forall|i: int, j: int| 0 <= i < j < a.len() ==> #[trigger] a[i].username != #[trigger] a[j].username
}

pub open spec fn has_account(a: Seq<AccountView>, username: Seq<char>) -> bool {
    exists|i: int| 0 <= i < a.len() && (#[trigger] a[i]).username == username
}

/// The account named `username` (meaningful when there is one).
pub open spec fn account_of(a: Seq<AccountView>, username: Seq<char>) -> AccountView {
    a[choose|i: int| 0 <= i < a.len() && (#[trigger] a[i]).username == username]
}

/// The accounts with `account` put in: over the one with its username, or
/// added last.
pub open spec fn upsert(a: Seq<AccountView>, account: AccountView) -> Seq<AccountView> {
    if has_account(a, account.username) {
        a.update(choose|i: int| 0 <= i < a.len() && (#[trigger] a[i]).username == account.username, account)
    } else {
        a.push(account)
    }
}

/// The directory connector with real behaviour: deterministic and testable
/// without production credentials.
pub struct LocalConnector {
    accounts: Vec<LocalAccount>,
}

impl View for LocalConnector {
    type V = Seq<AccountView>;

    closed spec fn view(&self) -> Seq<AccountView> {
        views_of(self.accounts@)
    }
}

/// The identity an authenticated account proves.
pub open spec fn identity_of(i: ExternalIdentity, a: AccountView) -> bool {
    &&& i.connector@ == "local"@
    &&& i.subject@ == a.username
    &&& lookup(i.attributes@, "password_changed_at"@) matches Some(v) && v@ == signed_decimal(a.changed_at as int)
    &&& forall|k: Seq<char>| k != "password_changed_at"@ ==> lookup(i.attributes@, k) == lookup(a.attributes, k)
}

impl LocalConnector {
    #[verifier::type_invariant]
    spec fn wf(&self) -> bool {
        distinct_names(views_of(self.accounts@))
    }

    pub fn new() -> (r: Self)
        ensures
            r@.len() == 0,
    {
        LocalConnector { accounts: Vec::new() }
    }

    fn find(&self, username: &str) -> (r: Option<usize>)
        ensures
            match r {
                Some(i) => i < self@.len() && self@[i as int].username == username@ && has_account(self@, username@)
                    && account_of(self@, username@) == self@[i as int],
                None => !has_account(self@, username@),
            },
    {
        proof {
            use_type_invariant(self);
        }
        let mut i: usize = 0;
        while i < self.accounts.len()
            invariant
                i <= self.accounts@.len(),
                distinct_names(self@),
                self@ == views_of(self.accounts@),
                forall|j: int| 0 <= j < i ==> (#[trigger] self@[j]).username != username@,
            decreases self.accounts@.len() - i,
        {
            assert(self@[i as int] == self.accounts@[i as int]@);
            if str_eq(self.accounts[i].username.as_str(), username) {
                proof {
                    let k = choose|k: int| 0 <= k < self@.len() && (#[trigger] self@[k]).username == username@;
                    if k != i {
                        if k < i {
                            assert(self@[k].username != self@[i as int].username);
                        } else {
                            assert(self@[i as int].username != self@[k].username);
                        }
                    }
                }
                return Some(i);
            }
            i = i + 1;
        }
        None
    }

    /// The connector with `account` added, replacing an account of the same
    /// username.
    pub fn with_account(self, account: LocalAccount) -> (r: Self)
        ensures
            r@ == upsert(self@, account@),
    {
        proof {
            use_type_invariant(&self);
        }
        let ghost before = self@;
        let ghost av = account@;
        let found = self.find(account.username.as_str());
        let mut accounts = self.accounts;
        match found {
            Some(i) => {
                accounts.set(i, account);
                proof {
                    assert(views_of(accounts@) =~= before.update(i as int, av));
                    assert forall|p: int, q: int| 0 <= p < q < views_of(accounts@).len() implies
                        #[trigger] views_of(accounts@)[p].username != #[trigger] views_of(accounts@)[q].username by {
                        if p != i && q != i {
                            assert(before[p].username != before[q].username);
                        } else if p == i {
                            assert(before[i as int].username != before[q].username);
                        } else {
                            assert(before[p].username != before[i as int].username);
                        }
                    }
                }
            },
            None => {
                accounts.push(account);
                proof {
                    assert(views_of(accounts@) =~= before.push(av));
                    assert forall|p: int, q: int| 0 <= p < q < views_of(accounts@).len() implies
                        #[trigger] views_of(accounts@)[p].username != #[trigger] views_of(accounts@)[q].username by {
                        if q == before.len() {
                            assert(before[p].username != av.username) by {
                                if before[p].username == av.username {
                                    assert(has_account(before, av.username));
                                }
                            }
                        } else {
                            assert(before[p].username != before[q].username);
                        }
                    }
                }
            },
        }
        LocalConnector { accounts }
    }

    /// Adds `account`; an account with its username already exists is an
    /// invalid request and changes nothing.
    pub fn register(&mut self, account: LocalAccount) -> (r: Result<(), ConnectorError>)
        ensures
            has_account(old(self)@, account@.username) ==> {
                &&& r matches Err(e) && e@ == ConnectorErrorView::InvalidRequest(
                    "local"@,
                    "account `"@ + account@.username + "` already exists"@,
                )
                &&& final(self)@ == old(self)@
            },
            !has_account(old(self)@, account@.username) ==> r is Ok && final(self)@ == old(self)@.push(account@),
    {
        proof {
            use_type_invariant(&*self);
        }
        match self.find(account.username.as_str()) {
            Some(_) => Err(ConnectorError::InvalidRequest {
                connector: owned("local"),
                message: cat3("account `", account.username.as_str(), "` already exists"),
            }),
            None => {
                let ghost before = self@;
                let ghost av = account@;
                let mut accounts: Vec<LocalAccount> = Vec::new();
                std::mem::swap(&mut accounts, &mut self.accounts);
                accounts.push(account);
                proof {
                    assert(views_of(accounts@) =~= before.push(av));
                    assert forall|p: int, q: int| 0 <= p < q < views_of(accounts@).len() implies
                        #[trigger] views_of(accounts@)[p].username != #[trigger] views_of(accounts@)[q].username by {
                        if q == before.len() {
                            assert(before[p].username != av.username) by {
                                if before[p].username == av.username {
                                    assert(has_account(before, av.username));
                                }
                            }
                        } else {
                            assert(before[p].username != before[q].username);
                        }
                    }
                }
                self.accounts = accounts;
                Ok(())
            },
        }
    }

    /// The usernames in order.
    pub fn usernames(&self) -> (r: Vec<String>)
        ensures
            views(r@) == isort_by(self@.map_values(|a: AccountView| a.username), le_of::<String>()),
    {
        let mut names: Vec<String> = Vec::new();
        let mut i: usize = 0;
        while i < self.accounts.len()
            invariant
                i <= self.accounts@.len(),
                views(names@) == self@.take(i as int).map_values(|a: AccountView| a.username),
            decreases self.accounts@.len() - i,
        {
            let ghost before = names@;
            let nm = self.accounts[i].username.clone();
            names.push(nm);
            proof {
                assert(self@[i as int] == self.accounts@[i as int]@);
                assert(views(names@) =~= views(before).push(nm@));
                assert(self@.take(i + 1) =~= self@.take(i as int).push(self@[i as int]));
                assert(views(names@) =~= self@.take(i + 1).map_values(|a: AccountView| a.username));
            }
            i = i + 1;
        }
        assert(self@.take(i as int) =~= self@);
        let sorted = insertion_sort(names);
        assert(views_of(sorted@) =~= views(sorted@));
        sorted
    }

    /// The attribute `key` of the account `username`, if both exist.
    pub fn account_attribute(&self, username: &str, key: &str) -> (r: Option<String>)
        ensures
            has_account(self@, username@) ==> match lookup(account_of(self@, username@).attributes, key@) {
                Some(v) => r matches Some(x) && x@ == v@,
                None => r is None,
            },
            !has_account(self@, username@) ==> r is None,
    {
        match self.find(username) {
            Some(i) => {
                assert(self@[i as int] == self.accounts@[i as int]@);
                match get_entry(&self.accounts[i].attributes, key) {
                    Some(v) => Some(v.clone()),
                    None => None,
                }
            },
            None => None,
        }
    }

    /// The address recovery mail goes to: the account's `email` attribute.
    pub fn recovery_address(&self, username: &str) -> (r: Option<String>)
        ensures
            has_account(self@, username@) ==> match lookup(account_of(self@, username@).attributes, "email"@) {
                Some(v) => r matches Some(x) && x@ == v@,
                None => r is None,
            },
            !has_account(self@, username@) ==> r is None,
    {
        self.account_attribute(username, "email")
    }

    fn invalid_credentials() -> (e: ConnectorError)
        ensures
            e@ == ConnectorErrorView::InvalidCredentials("local"@),
    {
        ConnectorError::InvalidCredentials { connector: owned("local") }
    }

    /// Applies `f`'s change to the account at `i`, keeping the usernames.
    fn take_account(&mut self, i: usize) -> (r: (Vec<LocalAccount>, LocalAccount))
        requires
            i < old(self)@.len(),
        ensures
            final(self)@.len() == 0,
            views_of(r.0@) == old(self)@.remove(i as int),
            r.1@ == old(self)@[i as int],
            distinct_names(old(self)@),
    {
        proof {
            use_type_invariant(&*self);
        }
        let mut accounts: Vec<LocalAccount> = Vec::new();
        std::mem::swap(&mut accounts, &mut self.accounts);
        let ghost before = views_of(accounts@);
        let a = accounts.remove(i);
        assert(views_of(accounts@) =~= before.remove(i as int));
        (accounts, a)
    }

    fn put_account(&mut self, accounts: Vec<LocalAccount>, i: usize, account: LocalAccount, Ghost(orig): Ghost<Seq<AccountView>>)
        requires
            old(self)@.len() == 0,
            i < orig.len(),
            i <= accounts@.len(),
            views_of(accounts@) == orig.remove(i as int),
            distinct_names(orig),
            account@.username == orig[i as int].username,
        ensures
            final(self)@ == orig.update(i as int, account@),
    {
        let mut accounts = accounts;
        let ghost av = account@;
        let ghost before = accounts@;
        accounts.insert(i, account);
        proof {
            assert(views_of(accounts@) =~= views_of(before).insert(i as int, av));
            assert(views_of(accounts@) =~= orig.update(i as int, av));
            let n = orig.update(i as int, av);
            assert forall|p: int, q: int| 0 <= p < q < n.len() implies #[trigger] n[p].username != #[trigger] n[q].username by {
                assert(orig[p].username != orig[q].username);
            }
        }
        self.accounts = accounts;
    }

    /// Records that the account's email address was verified.
    pub fn mark_email_verified(&mut self, username: &str) -> (r: Result<(), ConnectorError>)
        ensures
            !has_account(old(self)@, username@) ==> (r matches Err(e) && e@
                == ConnectorErrorView::InvalidCredentials("local"@)) && final(self)@ == old(self)@,
            has_account(old(self)@, username@) ==> r is Ok && exists|i: int|
                0 <= i < old(self)@.len() && old(self)@[i].username == username@ && final(self)@ == old(self)@.update(
                    i,
                    AccountView {
                        attributes: final(self)@[i].attributes,
                        ..old(self)@[i]
                    },
                ) && (lookup(final(self)@[i].attributes, "email_verified"@) matches Some(v) && v@ == "true"@)
                    && forall|k: Seq<char>| k != "email_verified"@ ==> lookup(final(self)@[i].attributes, k)
                        == lookup(old(self)@[i].attributes, k),
    {
        match self.find(username) {
            None => Err(Self::invalid_credentials()),
            Some(i) => {
                let ghost orig = self@;
                let (rest, a) = self.take_account(i);
                assert(rest@.len() == views_of(rest@).len());
                let a2 = a.with_attribute("email_verified", "true");
                self.put_account(rest, i, a2, Ghost(orig));
                assert(self@[i as int] == a2@);
                Ok(())
            },
        }
    }
}

/// What `begin` answers: a request for another connector or without a
/// username is invalid; otherwise a credentials challenge bound to tenant and
/// username, which reveals nothing about whether the account exists.
pub open spec fn begin_outcome(r: Result<AuthChallenge, ConnectorError>, request: AuthRequest) -> bool {
    if request.connector@ != "local"@ {
        r matches Err(e) && e@ == ConnectorErrorView::InvalidRequest(
            "local"@,
            "request targets connector `"@ + request.connector@ + "`"@,
        )
    } else {
        match param_value(request.parameters@, "username"@) {
            None => r matches Err(e) && e@ == ConnectorErrorView::InvalidRequest("local"@, "missing `username`"@),
            Some(u) => r matches Ok(ch) && {
                &&& ch.connector@ == "local"@
                &&& ch.kind is Credentials
                &&& ch.state@ == challenge_state_of("local"@, opt_str(request.tenant), u)
                &&& ch.parameters@.len() == 1
                &&& lookup(ch.parameters@, "username"@) matches Some(v) && v@ == u
            },
        }
    }
}

/// What `authenticate` answers, check by check in order: the connector, the
/// username, the password, the challenge state, the account, the password.
pub open spec fn authenticate_outcome(
    r: Result<ExternalIdentity, ConnectorError>,
    accounts: Seq<AccountView>,
    response: AuthResponse,
) -> bool {
    if response.connector@ != "local"@ {
        r matches Err(e) && e@ == ConnectorErrorView::InvalidRequest(
            "local"@,
            "response targets connector `"@ + response.connector@ + "`"@,
        )
    } else {
        match param_value(response.parameters@, "username"@) {
            None => r matches Err(e) && e@ == ConnectorErrorView::InvalidRequest("local"@, "missing `username`"@),
            Some(u) => match param_value(response.parameters@, "password"@) {
                None => r matches Err(e) && e@ == ConnectorErrorView::InvalidRequest(
                    "local"@,
                    "missing `password`"@,
                ),
                Some(p) => if response.state@ != challenge_state_of("local"@, opt_str(response.tenant), u) {
                    r matches Err(e) && e@ == ConnectorErrorView::ChallengeMismatch("local"@)
                } else if !has_account(accounts, u) || !argon2_accepts(p, account_of(accounts, u).password_hash) {
                    r matches Err(e) && e@ == ConnectorErrorView::InvalidCredentials("local"@)
                } else {
                    r matches Ok(i) && identity_of(i, account_of(accounts, u))
                },
            },
        }
    }
}

/// A password operation on the account named `username`: an unknown account
/// is refused and nothing changes; otherwise only that account changes, as
/// `password_set` says, or, where `check` names a current password that the
/// account does not accept, nothing changes.
pub open spec fn password_operation(
    before: Seq<AccountView>,
    after: Seq<AccountView>,
    r: Result<(), ConnectorError>,
    username: Seq<char>,
    check: Option<Seq<char>>,
    password: Seq<char>,
    count: nat,
    now: i64,
    drawn: bool,
) -> bool {
    if !has_account(before, username) || (check matches Some(c) && !argon2_accepts(
        c,
        account_of(before, username).password_hash,
    )) {
        (r matches Err(e) && e@ == ConnectorErrorView::InvalidCredentials("local"@)) && after == before
    } else {
        exists|i: int|
            0 <= i < before.len() && (#[trigger] before[i]).username == username && after.len() == before.len()
                && after == before.update(i, after[i]) && password_set(before[i], after[i], r, password, count, now, drawn)
    }
}

impl LocalConnector {
    fn begin_local(&self, request: &AuthRequest) -> (r: Result<AuthChallenge, ConnectorError>)
        ensures
            begin_outcome(r, *request),
    {
        if !str_eq(request.connector.as_str(), "local") {
            return Err(ConnectorError::InvalidRequest {
                connector: owned("local"),
                message: cat3("request targets connector `", request.connector.as_str(), "`"),
            });
        }
        let username = match request.parameter("username") {
            Some(u) => u,
            None => {
                return Err(ConnectorError::InvalidRequest {
                    connector: owned("local"),
                    message: owned("missing `username`"),
                });
            },
        };
        let tenant: Option<&str> = match &request.tenant {
            Some(t) => Some(t.as_str()),
            None => None,
        };
        let state = challenge_state("local", tenant, username.as_str());
        let mut parameters: Vec<(String, String)> = Vec::new();
        parameters.push((owned("username"), username));
        proof {
            reveal_strlit("username");
            assert(parameters@[0].0@ == "username"@);
        }
        Ok(AuthChallenge { connector: owned("local"), kind: ChallengeKind::Credentials, state, parameters })
    }

    fn authenticate_local(&self, response: &AuthResponse) -> (r: Result<ExternalIdentity, ConnectorError>)
        ensures
            authenticate_outcome(r, self@, *response),
    {
        if !str_eq(response.connector.as_str(), "local") {
            return Err(ConnectorError::InvalidRequest {
                connector: owned("local"),
                message: cat3("response targets connector `", response.connector.as_str(), "`"),
            });
        }
        let username = match response.parameter("username") {
            Some(u) => u,
            None => {
                return Err(ConnectorError::InvalidRequest {
                    connector: owned("local"),
                    message: owned("missing `username`"),
                });
            },
        };
        let password = match response.parameter("password") {
            Some(p) => p,
            None => {
                return Err(ConnectorError::InvalidRequest {
                    connector: owned("local"),
                    message: owned("missing `password`"),
                });
            },
        };
        let tenant: Option<&str> = match &response.tenant {
            Some(t) => Some(t.as_str()),
            None => None,
        };
        let expected = challenge_state("local", tenant, username.as_str());
        if response.state != expected {
            return Err(ConnectorError::ChallengeMismatch { connector: owned("local") });
        }
        let i = match self.find(username.as_str()) {
            Some(i) => i,
            None => {
                return Err(Self::invalid_credentials());
            },
        };
        let account = &self.accounts[i];
        assert(self@[i as int] == account@);
        if !account.verify_password(password.as_str()) {
            return Err(Self::invalid_credentials());
        }
        let mut identity = ExternalIdentity::new("local", username.as_str());
        identity.attributes = copy_pairs(&account.attributes);
        let stamp = i64_decimal(account.password_changed_at);
        set_entry(&mut identity.attributes, owned("password_changed_at"), stamp);
        Ok(identity)
    }

    fn change_local(
        &mut self,
        username: &str,
        check: Option<&str>,
        new_password: &str,
        salt: Option<&Vec<u8>>,
        policy: &PasswordPolicy,
        now: i64,
    ) -> (r: Result<(), ConnectorError>)
        requires
            salt matches Some(s) ==> s@.len() == 16,
        ensures
            password_operation(
                old(self)@,
                final(self)@,
                r,
                username@,
                match check {
                    Some(c) => Some(c@),
                    None => None,
                },
                new_password@,
                policy.password_history_count as nat,
                now,
                salt is Some,
            ),
    {
        let i = match self.find(username) {
            Some(i) => i,
            None => {
                return Err(Self::invalid_credentials());
            },
        };
        assert(self@[i as int] == self.accounts@[i as int]@);
        match check {
            Some(c) => {
                if !self.accounts[i].verify_password(c) {
                    return Err(Self::invalid_credentials());
                }
            },
            None => {},
        }
        let ghost orig = self@;
        let (rest, a) = self.take_account(i);
        assert(rest@.len() == views_of(rest@).len());
        let mut a = a;
        let r = a.set_password(new_password, salt, policy, now);
        self.put_account(rest, i, a, Ghost(orig));
        proof {
            assert(self@[i as int] == a@);
            assert(self@ == orig.update(i as int, self@[i as int]));
        }
        r
    }
}

impl LocalConnector {
    /// Changes the password of `username`, checked against its current one,
    /// hashing the new one under the 16 bytes of `salt`; hashing fails only
    /// where argon2 does not take the password.
    pub fn change_password_with_salt(
        &mut self,
        username: &str,
        current_password: &str,
        new_password: &str,
        salt: &Vec<u8>,
        policy: &PasswordPolicy,
        now: i64,
    ) -> (r: Result<(), ConnectorError>)
        requires
            salt@.len() == 16,
        ensures
            password_operation(
                old(self)@,
                final(self)@,
                r,
                username@,
                Some(current_password@),
                new_password@,
                policy.password_history_count as nat,
                now,
                true,
            ),
    {
        self.change_local(username, Some(current_password), new_password, Some(salt), policy, now)
    }

    /// Resets the password of `username`, hashing the new one under the 16
    /// bytes of `salt`; hashing fails only where argon2 does not take the
    /// password.
    pub fn reset_password_with_salt(
        &mut self,
        username: &str,
        new_password: &str,
        salt: &Vec<u8>,
        policy: &PasswordPolicy,
        now: i64,
    ) -> (r: Result<(), ConnectorError>)
        requires
            salt@.len() == 16,
        ensures
            password_operation(
                old(self)@,
                final(self)@,
                r,
                username@,
                None,
                new_password@,
                policy.password_history_count as nat,
                now,
                true,
            ),
    {
        self.change_local(username, None, new_password, Some(salt), policy, now)
    }
}

impl AuthConnector for LocalConnector {
    fn id(&self) -> (r: &str)
        ensures
            r@ == "local"@,
    {
        "local"
    }

    fn metadata(&self) -> (r: ConnectorMetadata)
        ensures
            r@ == described("local"@),
    {
        describe("local")
    }

    fn begin(&self, request: &AuthRequest) -> (r: Result<AuthChallenge, ConnectorError>)
        ensures
            begin_outcome(r, *request),
    {
        self.begin_local(request)
    }

    fn authenticate(&self, response: &AuthResponse) -> (r: Result<ExternalIdentity, ConnectorError>)
        ensures
            authenticate_outcome(r, self@, *response),
    {
        self.authenticate_local(response)
    }

    fn supports_password_management(&self) -> (r: bool)
        ensures
            r,
    {
        true
    }

    fn change_password(
        &mut self,
        tenant_id: &str,
        username: &str,
        current_password: &str,
        new_password: &str,
        policy: &PasswordPolicy,
        now: i64,
    ) -> (r: Result<(), ConnectorError>)
        ensures
            password_operation(
                old(self)@,
                final(self)@,
                r,
                username@,
                Some(current_password@),
                new_password@,
                policy.password_history_count as nat,
                now,
                false,
            ),
    {
        self.change_local(username, Some(current_password), new_password, None, policy, now)
    }

    fn reset_password(
        &mut self,
        tenant_id: &str,
        username: &str,
        new_password: &str,
        policy: &PasswordPolicy,
        now: i64,
    ) -> (r: Result<(), ConnectorError>)
        ensures
            password_operation(
                old(self)@,
                final(self)@,
                r,
                username@,
                None,
                new_password@,
                policy.password_history_count as nat,
                now,
                false,
            ),
    {
        self.change_local(username, None, new_password, None, policy, now)
    }
}

fn copy_pairs(v: &Vec<(String, String)>) -> (r: Vec<(String, String)>)
    ensures
        r@ == v@,
{
    let mut out: Vec<(String, String)> = Vec::new();
    let mut i: usize = 0;
    while i < v.len()
        invariant
            i <= v@.len(),
            out@ == v@.take(i as int),
        decreases v@.len() - i,
    {
        out.push((v[i].0.clone(), v[i].1.clone()));
        assert(out@ =~= v@.take(i + 1));
        i = i + 1;
    }
    assert(v@.take(i as int) =~= v@);
    out
}

} // verus!
