//! Mail ceremonies (password reset, email verification): opaque tokens,
//! stored only as SHA-256 digests, that are short-lived and single-use, and
//! the mail port that delivers them.
use vstd::prelude::*;
use rand_core::{OsRng, RngCore};
use sha2::{Digest, Sha256};
use crate::text::{owned, push_char, push_utf8, utf8, hex_digit, hex_n, hex_digit_exec};

verus! {

#[derive(Debug, Clone, Copy, PartialEq, Eq, Structural)]
pub enum CeremonyKind {
    PasswordReset,
    EmailVerification,
}

#[derive(Debug, Clone, PartialEq, Eq)]
pub struct MailMessage {
    pub template: String,
    pub identity: String,
    pub to: String,
    pub tenant: String,
    pub variables: Vec<(String, String)>,
    pub idempotency_key: String,
}

pub struct MailView {
    pub template: Seq<char>,
    pub identity: Seq<char>,
    pub to: Seq<char>,
    pub tenant: Seq<char>,
    pub variables: Seq<(String, String)>,
    pub idempotency_key: Seq<char>,
}

impl View for MailMessage {
    type V = MailView;

    open spec fn view(&self) -> MailView {
        MailView {
            template: self.template@,
            identity: self.identity@,
            to: self.to@,
            tenant: self.tenant@,
            variables: self.variables@,
            idempotency_key: self.idempotency_key@,
        }
    }
}

/// Where ceremony mail leaves the boundary.
pub trait MailPort {
    fn send(&mut self, message: MailMessage) -> Result<(), String>;
}

/// A mail port that keeps what it is given, for development and tests.
#[derive(Default)]
pub struct MemoryMailPort {
    messages: Vec<MailMessage>,
}

impl View for MemoryMailPort {
    type V = Seq<MailView>;

    closed spec fn view(&self) -> Seq<MailView> {
        self.messages@.map_values(|m: MailMessage| m@)
    }
}

fn copy_pairs(v: &Vec<(String, String)>) -> (r: Vec<(String, String)>)
    ensures
        r@ == v@,
{
    let mut out: Vec<(String, String)> = Vec::new();
    let mut i: usize = 0;
    while i < v.len()
        invariant
            i <= v@.len(),
            out@ == v@.take(i as int),
        decreases v@.len() - i,
    {
        out.push((v[i].0.clone(), v[i].1.clone()));
        assert(out@ =~= v@.take(i + 1));
        i = i + 1;
    }
    assert(v@.take(i as int) =~= v@);
    out
}

fn copy_message(m: &MailMessage) -> (r: MailMessage)
    ensures
        r@ == m@,
{
    MailMessage {
        template: m.template.clone(),
        identity: m.identity.clone(),
        to: m.to.clone(),
        tenant: m.tenant.clone(),
        variables: copy_pairs(&m.variables),
        idempotency_key: m.idempotency_key.clone(),
    }
}

impl MemoryMailPort {
    pub fn new() -> (r: Self)
        ensures
            r@.len() == 0,
    {
        MemoryMailPort { messages: Vec::new() }
    }

    /// Every message sent so far, in order.
    pub fn messages(&self) -> (r: Vec<MailMessage>)
        ensures
            r@.map_values(|m: MailMessage| m@) == self@,
    {
        let mut out: Vec<MailMessage> = Vec::new();
        let mut i: usize = 0;
        while i < self.messages.len()
            invariant
                i <= self.messages@.len(),
                out@.map_values(|m: MailMessage| m@) == self@.take(i as int),
            decreases self.messages@.len() - i,
        {
            let c = copy_message(&self.messages[i]);
            let ghost before = out@;
            out.push(c);
            assert(out@.map_values(|m: MailMessage| m@) =~= before.map_values(|m: MailMessage| m@).push(c@));
            assert(out@.map_values(|m: MailMessage| m@) =~= self@.take(i + 1));
            i = i + 1;
        }
        assert(self@.take(i as int) =~= self@);
        out
    }
}

impl MailPort for MemoryMailPort {
    fn send(&mut self, message: MailMessage) -> (r: Result<(), String>)
        ensures
            r is Ok,
            final(self)@ == old(self)@.push(message@),
    {
        let ghost before = self@;
        let ghost mv = message@;
        self.messages.push(message);
        assert(self@ =~= before.push(mv));
        Ok(())
    }
}

/// `n` bytes from the operating system's generator (`RngCore::try_fill_bytes`
/// on `OsRng`), or `None` where the system has no randomness to give. The
/// bytes are random: only their number is stated.
#[verifier::external_body]
pub(crate) fn random_bytes(n: usize) -> (r: Option<Vec<u8>>)
    ensures
        r matches Some(v) ==> v@.len() == n,
{
    let mut bytes = vec![0u8; n];
    match OsRng.try_fill_bytes(&mut bytes) {
        Ok(()) => Some(bytes),
        Err(_) => None,
    }
}

/// The SHA-256 digest of `data`.
pub uninterp spec fn sha256(data: Seq<u8>) -> Seq<u8>;

/// `Sha256::digest`: the SHA-256 digest of `data`, which is 32 bytes long.
#[verifier::external_body]
fn sha256_digest(data: &[u8]) -> (r: Vec<u8>)
    ensures
        r@ == sha256(data@),
        r@.len() == 32,
{
    Sha256::digest(data).to_vec()
}

/// Bytes as lower-case hexadecimal, two digits each.
pub open spec fn hex_bytes(bs: Seq<u8>) -> Seq<char>
    decreases bs.len(),
{
    if bs.len() == 0 {
        Seq::empty()
    } else {
        hex_bytes(bs.drop_last()) + hex_n(bs.last() as nat, 2)
    }
}

fn hex_encode(bs: &Vec<u8>) -> (r: String)
    ensures
        r@ == hex_bytes(bs@),
{
    let mut out = String::new();
    let mut i: usize = 0;
    while i < bs.len()
        invariant
            i <= bs@.len(),
            out@ == hex_bytes(bs@.take(i as int)),
        decreases bs@.len() - i,
    {
        let b = bs[i];
        let hi = (b / 16) as u64;
        let lo = (b % 16) as u64;
        push_char(&mut out, hex_digit_exec(hi));
        push_char(&mut out, hex_digit_exec(lo));
        proof {
            let t = bs@.take(i + 1);
            assert(t.drop_last() =~= bs@.take(i as int));
            assert(t.last() == b);
            assert((b as nat / 16) % 16 == b as nat / 16);
            assert((b as nat / 16) / 16 == 0);
            reveal_with_fuel(hex_n, 3);
            assert(hex_n(b as nat, 2) =~= seq![hex_digit(hi as nat), hex_digit(lo as nat)]);
        }
        i = i + 1;
    }
    assert(bs@.take(i as int) =~= bs@);
    out
}

/// A challenge as stored: what it is for, whom it concerns, until when it
/// is good, and whether it was used or revoked.
#[derive(Debug, Clone)]
pub struct Challenge {
    kind: CeremonyKind,
    tenant: String,
    account: String,
    expires_at: i64,
    consumed: bool,
    revoked: bool,
}

pub struct ChallengeView {
    pub kind: CeremonyKind,
    pub tenant: Seq<char>,
    pub account: Seq<char>,
    pub expires_at: i64,
    pub consumed: bool,
    pub revoked: bool,
}

impl View for Challenge {
    type V = ChallengeView;

    closed spec fn view(&self) -> ChallengeView {
        ChallengeView {
            kind: self.kind,
            tenant: self.tenant@,
            account: self.account@,
            expires_at: self.expires_at,
            consumed: self.consumed,
            revoked: self.revoked,
        }
    }
}

/// Stored challenges, by the digest of their token.
pub type ChallengeTable = Seq<(Seq<u8>, ChallengeView)>;

/// The first entry for digest `d`.
pub open spec fn entry_for(es: ChallengeTable, d: Seq<u8>) -> Option<int>
    decreases es.len(),
{
    if es.len() == 0 {
        None
    } else {
        match entry_for(es.drop_last(), d) {
            Some(i) => Some(i),
            None => if es.last().0 == d {
                Some(es.len() - 1)
            } else {
                None
            },
        }
    }
}

/// The table with `c` stored under `d`, over an earlier entry for `d`.
pub open spec fn stored(es: ChallengeTable, d: Seq<u8>, c: ChallengeView) -> ChallengeTable {
    match entry_for(es, d) {
        Some(i) => es.update(i, (d, c)),
        None => es.push((d, c)),
    }
}

/// A challenge is usable for `kind` at `now` exactly while it is of that
/// kind, unrevoked, unused and unexpired.
pub open spec fn usable(c: ChallengeView, kind: CeremonyKind, now: i64) -> bool {
    c.kind == kind && !c.revoked && !c.consumed && now < c.expires_at
}

/// Consuming the challenge with digest `d`: what is answered and what the
/// table becomes. A usable challenge yields its tenant and account and is
/// used up; anything else is refused and changes nothing.
pub open spec fn consumed(es: ChallengeTable, d: Seq<u8>, kind: CeremonyKind, now: i64) -> (
    Result<(Seq<char>, Seq<char>), Seq<char>>,
    ChallengeTable,
) {
    match entry_for(es, d) {
        None => (Err("invalid recovery challenge"@), es),
        Some(i) => {
            let c = es[i].1;
            if usable(c, kind, now) {
                (Ok((c.tenant, c.account)), es.update(i, (d, ChallengeView { consumed: true, ..c })))
            } else {
                (Err("invalid or expired recovery challenge"@), es)
            }
        },
    }
}

/// Revoking the challenge with digest `d`: whether there was one, and the
/// table after.
pub open spec fn revoked(es: ChallengeTable, d: Seq<u8>) -> (bool, ChallengeTable) {
    match entry_for(es, d) {
        None => (false, es),
        Some(i) => (true, es.update(i, (d, ChallengeView { revoked: true, ..es[i].1 }))),
    }
}

/// The digest a token is stored under.
pub open spec fn token_digest(token: Seq<char>) -> Seq<u8> {
    sha256(utf8(token))
}

/// Single-use ceremony challenges; only digests of tokens are kept.
#[derive(Default)]
pub struct ChallengeStore {
    entries: Vec<(Vec<u8>, Challenge)>,
}

impl View for ChallengeStore {
    type V = ChallengeTable;

    closed spec fn view(&self) -> ChallengeTable {
        self.entries@.map_values(|e: (Vec<u8>, Challenge)| (e.0@, e.1@))
    }
}

fn digest_of(token: &str) -> (r: Vec<u8>)
    ensures
        r@ == token_digest(token@),
{
    let mut bytes: Vec<u8> = Vec::new();
    push_utf8(&mut bytes, token);
    assert(bytes@ =~= utf8(token@));
    sha256_digest(bytes.as_slice())
}

fn bytes_eq(a: &Vec<u8>, b: &Vec<u8>) -> (r: bool)
    ensures
        r == (a@ == b@),
{
    if a.len() != b.len() {
        return false;
    }
    let mut i: usize = 0;
    while i < a.len()
        invariant
            i <= a@.len(),
            a@.len() == b@.len(),
            forall|j: int| 0 <= j < i ==> a@[j] == b@[j],
        decreases a@.len() - i,
    {
        if a[i] != b[i] {
            return false;
        }
        i = i + 1;
    }
    assert(a@ =~= b@);
    true
}

impl ChallengeStore {
    pub fn new() -> (r: Self)
        ensures
            r@.len() == 0,
    {
        let r = ChallengeStore { entries: Vec::new() };
        assert(r@ =~= Seq::<(Seq<u8>, ChallengeView)>::empty());
        r
    }

    fn find(&self, d: &Vec<u8>) -> (r: Option<usize>)
        ensures
            match r {
                Some(i) => entry_for(self@, d@) == Some(i as int) && i < self.entries@.len(),
                None => entry_for(self@, d@) is None,
            },
    {
        let mut i: usize = 0;
        while i < self.entries.len()
            invariant
                i <= self.entries@.len(),
                entry_for(self@.take(i as int), d@) is None,
            decreases self.entries@.len() - i,
        {
            proof {
                let t = self@.take(i + 1);
                assert(t.drop_last() =~= self@.take(i as int));
                assert(t.last() == (self.entries@[i as int].0@, self.entries@[i as int].1@));
            }
            if bytes_eq(&self.entries[i].0, d) {
                proof {
                    lemma_entry_prefix(self@, d@, i as int + 1);
                }
                return Some(i);
            }
            i = i + 1;
        }
        assert(self@.take(i as int) =~= self@);
        None
    }

    /// Issues the challenge whose token is `bytes` in hexadecimal: the token
    /// is returned once and stored only as its digest.
    pub fn issue_with(
        &mut self,
        bytes: &Vec<u8>,
        kind: CeremonyKind,
        tenant: &str,
        account: &str,
        expires_at: i64,
    ) -> (r: String)
        requires
            bytes@.len() == 32,
        ensures
            r@ == hex_bytes(bytes@),
            r@.len() == 64,
            final(self)@ == stored(
                old(self)@,
                token_digest(r@),
                ChallengeView {
                    kind,
                    tenant: tenant@,
                    account: account@,
                    expires_at,
                    consumed: false,
                    revoked: false,
                },
            ),
    {
        let token = hex_encode(bytes);
        proof {
            lemma_hex_len(bytes@);
        }
        let d = digest_of(token.as_str());
        let c = Challenge {
            kind,
            tenant: owned(tenant),
            account: owned(account),
            expires_at,
            consumed: false,
            revoked: false,
        };
        let ghost before = self@;
        let ghost cv = c@;
        let ghost dv = d@;
        match self.find(&d) {
            Some(i) => {
                self.entries.set(i, (d, c));
                assert(self@ =~= before.update(i as int, (dv, cv)));
            },
            None => {
                self.entries.push((d, c));
                assert(self@ =~= before.push((dv, cv)));
            },
        }
        token
    }

    /// Issues a fresh challenge: a token of 32 bytes from the system's
    /// generator, in hexadecimal, returned once and stored only as its
    /// digest. Where the system has no randomness to give, nothing is issued.
    pub fn issue(&mut self, kind: CeremonyKind, tenant: &str, account: &str, expires_at: i64) -> (r: Result<String, String>)
        ensures
            match r {
                Ok(token) => (exists|bytes: Seq<u8>| bytes.len() == 32 && token@ == #[trigger] hex_bytes(bytes))
                    && token@.len() == 64 && final(self)@ == stored(
                    old(self)@,
                    token_digest(token@),
                    ChallengeView {
                        kind,
                        tenant: tenant@,
                        account: account@,
                        expires_at,
                        consumed: false,
                        revoked: false,
                    },
                ),
                Err(e) => e@ == "system randomness unavailable"@ && final(self)@ == old(self)@,
            },
    {
        match random_bytes(32) {
            Some(bytes) => {
                let token = self.issue_with(&bytes, kind, tenant, account, expires_at);
                Ok(token)
            },
            None => Err(owned("system randomness unavailable")),
        }
    }

    /// Uses up the challenge for `token` if it is usable for `kind` at
    /// `now`, answering its tenant and account.
    pub fn consume(&mut self, token: &str, kind: CeremonyKind, now: i64) -> (r: Result<(String, String), String>)
        ensures
            ({
                let (answer, after) = consumed(old(self)@, token_digest(token@), kind, now);
                &&& final(self)@ == after
                &&& match answer {
                    Ok(p) => r matches Ok(x) && x.0@ == p.0 && x.1@ == p.1,
                    Err(m) => r matches Err(x) && x@ == m,
                }
            }),
    {
        let d = digest_of(token);
        let ghost before = self@;
        match self.find(&d) {
            None => Err(owned("invalid recovery challenge")),
            Some(i) => {
                let e = &self.entries[i].1;
                assert(before[i as int].1 == e@);
                if e.kind != kind || e.revoked || e.consumed || now >= e.expires_at {
                    return Err(owned("invalid or expired recovery challenge"));
                }
                let answer = (e.tenant.clone(), e.account.clone());
                let c = Challenge {
                    kind: e.kind,
                    tenant: e.tenant.clone(),
                    account: e.account.clone(),
                    expires_at: e.expires_at,
                    consumed: true,
                    revoked: e.revoked,
                };
                let ghost dv = d@;
                let ghost cv = c@;
                self.entries.set(i, (d, c));
                assert(self@ =~= before.update(i as int, (dv, cv)));
                Ok(answer)
            },
        }
    }

    /// Revokes the challenge for `token`; whether there was one.
    pub fn revoke(&mut self, token: &str) -> (r: bool)
        ensures
            (r, final(self)@) == revoked(old(self)@, token_digest(token@)),
    {
        let d = digest_of(token);
        let ghost before = self@;
        match self.find(&d) {
            None => false,
            Some(i) => {
                let e = &self.entries[i].1;
                assert(before[i as int].1 == e@);
                let c = Challenge {
                    kind: e.kind,
                    tenant: e.tenant.clone(),
                    account: e.account.clone(),
                    expires_at: e.expires_at,
                    consumed: e.consumed,
                    revoked: true,
                };
                let ghost dv = d@;
                let ghost cv = c@;
                self.entries.set(i, (d, c));
                assert(self@ =~= before.update(i as int, (dv, cv)));
                true
            },
        }
    }
}

proof fn lemma_entry_prefix(es: ChallengeTable, d: Seq<u8>, k: int)
    requires
        0 < k <= es.len(),
        entry_for(es.take(k - 1), d) is None,
        es[k - 1].0 == d,
    ensures
        entry_for(es, d) == Some(k - 1),
    decreases es.len(),
{
    if es.len() == k {
        assert(es.drop_last() =~= es.take(k - 1));
    } else {
        assert(es.drop_last().take(k - 1) =~= es.take(k - 1));
        lemma_entry_prefix(es.drop_last(), d, k);
    }
}

proof fn lemma_hex_len(bs: Seq<u8>)
    ensures
        hex_bytes(bs).len() == 2 * bs.len(),
    decreases bs.len(),
{
    if bs.len() > 0 {
        lemma_hex_len(bs.drop_last());
        reveal_with_fuel(hex_n, 3);
        assert(hex_n(bs.last() as nat, 2).len() == 2);
    }
}

/// A challenge serves once: after the challenge for a token was consumed,
/// consuming it again is refused, for any kind and at any time.
pub proof fn lemma_challenge_single_use(es: ChallengeTable, d: Seq<u8>, kind: CeremonyKind, now: i64, kind2: CeremonyKind, later: i64)
    requires
        consumed(es, d, kind, now).0 is Ok,
    ensures
        consumed(consumed(es, d, kind, now).1, d, kind2, later).0 == Err::<(Seq<char>, Seq<char>), Seq<char>>(
            "invalid or expired recovery challenge"@,
        ),
{
    lemma_entry_bounds(es, d);
    let i = entry_for(es, d)->0;
    let after = consumed(es, d, kind, now).1;
    lemma_entry_update(es, d, i, (d, ChallengeView { consumed: true, ..es[i].1 }));
}

/// A revoked challenge is never consumed.
pub proof fn lemma_revoked_never_consumed(es: ChallengeTable, d: Seq<u8>, kind: CeremonyKind, now: i64)
    requires
        entry_for(es, d) is Some,
    ensures
        consumed(revoked(es, d).1, d, kind, now).0 == Err::<(Seq<char>, Seq<char>), Seq<char>>(
            "invalid or expired recovery challenge"@,
        ),
{
    lemma_entry_bounds(es, d);
    let i = entry_for(es, d)->0;
    lemma_entry_update(es, d, i, (d, ChallengeView { revoked: true, ..es[i].1 }));
}

/// A challenge is refused from its expiry instant on.
pub proof fn lemma_expired_refused(es: ChallengeTable, d: Seq<u8>, kind: CeremonyKind, now: i64)
    requires
        entry_for(es, d) matches Some(i) && now >= es[i].1.expires_at,
    ensures
        consumed(es, d, kind, now) == (
            Err::<(Seq<char>, Seq<char>), Seq<char>>("invalid or expired recovery challenge"@),
            es,
        ),
{
    lemma_entry_bounds(es, d);
}

proof fn lemma_entry_update(es: ChallengeTable, d: Seq<u8>, i: int, e: (Seq<u8>, ChallengeView))
    requires
        entry_for(es, d) == Some(i),
        e.0 == d,
    ensures
        entry_for(es.update(i, e), d) == Some(i),
    decreases es.len(),
{
    lemma_entry_bounds(es, d);
    if i < es.len() - 1 {
        assert(es.update(i, e).drop_last() =~= es.drop_last().update(i, e));
        lemma_entry_update(es.drop_last(), d, i, e);
    } else {
        assert(es.update(i, e).drop_last() =~= es.drop_last());
    }
}

proof fn lemma_entry_bounds(es: ChallengeTable, d: Seq<u8>)
    ensures
        entry_for(es, d) matches Some(i) ==> 0 <= i < es.len() && es[i].0 == d,
        entry_for(es, d) matches Some(i) ==> i < es.len() - 1 ==> entry_for(es.drop_last(), d) == Some(i),
        entry_for(es, d) matches Some(i) ==> i == es.len() - 1 ==> entry_for(es.drop_last(), d) is None,
    decreases es.len(),
{
    if es.len() > 0 {
        lemma_entry_bounds(es.drop_last(), d);
    }
}


/// What is stored under a digest is what consuming it finds: a challenge
/// just issued, consumed for its own kind before it expires, yields its
/// tenant and account, and a second consumption of it is refused.
pub proof fn lemma_issued_then_consumed(es: ChallengeTable, d: Seq<u8>, c: ChallengeView, now: i64, kind2: CeremonyKind, later: i64)
    requires
        !c.consumed,
        !c.revoked,
        now < c.expires_at,
    ensures
        consumed(stored(es, d, c), d, c.kind, now).0 == Ok::<(Seq<char>, Seq<char>), Seq<char>>((c.tenant, c.account)),
        consumed(consumed(stored(es, d, c), d, c.kind, now).1, d, kind2, later).0 == Err::<
            (Seq<char>, Seq<char>),
            Seq<char>,
        >("invalid or expired recovery challenge"@),
{
    lemma_entry_bounds(es, d);
    match entry_for(es, d) {
        Some(i) => {
            lemma_entry_update(es, d, i, (d, c));
        },
        None => {
            let t = es.push((d, c));
            assert(t.drop_last() =~= es);
        },
    }
    lemma_challenge_single_use(stored(es, d, c), d, c.kind, now, kind2, later);
}

} // verus!
