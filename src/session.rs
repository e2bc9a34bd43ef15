//! Session tokens: issued after a one-time password is accepted, valid while
//! they stay in the live set, revoked on logout.
use vstd::prelude::*;

verus! {

pub type AuthToken = String;

/// What presenting a token yields.
#[derive(Clone, Copy, Debug, PartialEq, Eq, Structural)]
pub enum AuthStatus {
    Authenticated,
    AuthNotValid,
    AuthExpired,
    NotLoggedIn,
}

/// Number of random bytes behind a session token.
pub const TOKEN_BYTES: usize = 32;

/// Length in seconds of one one-time-password step.
pub const OTP_STEP: u64 = 30;

/// The one-time password that the configured generator (SHA-256, eight
/// digits) gives for the secret at the given step counter.
pub uninterp spec fn totp_code(secret: Seq<u8>, counter: int) -> Seq<char>;

/// The code is the password of the current step, of the one before or of the
/// one after, at `now` seconds since the epoch.
pub open spec fn otp_accepts(secret: Seq<u8>, code: Seq<char>, now: int) -> bool {
    exists|c: int| now / 30 - 1 <= c <= now / 30 + 1 && #[trigger] totp_code(secret, c) == code
}

/// The times at which the window of steps around `now` can be computed.
pub open spec fn otp_time_in_range(now: int) -> bool {
    30 <= now <= u64::MAX - 60
}

/// The lowercase hex digit of a value below 16.
pub open spec fn hex_digit(n: int) -> char {
    if n < 10 {
        ((n + 48) as u8) as char
    } else {
        ((n + 87) as u8) as char
    }
}

/// Two lowercase hex digits per byte, high nibble first.
pub open spec fn hex_of(b: Seq<u8>) -> Seq<char>
    decreases b.len(),
{
    if b.len() == 0 {
        Seq::empty()
    } else {
        hex_of(b.drop_last()) + seq![hex_digit(b.last() as int / 16), hex_digit(b.last() as int % 16)]
    }
}

/// Whether `t` is a token that `hex_of` gives for some byte string of the
/// token length.
pub open spec fn is_token_text(t: Seq<char>) -> bool {
    exists|b: Seq<u8>| b.len() == TOKEN_BYTES && #[trigger] hex_of(b) == t
}

/// The live set after revoking `t`: every copy of it leaves, the rest keep
/// their order.
pub open spec fn without(s: Seq<Seq<char>>, t: Seq<char>) -> Seq<Seq<char>>
    decreases s.len(),
{
    if s.len() == 0 {
        s
    } else if s.last() == t {
        without(s.drop_last(), t)
    } else {
        without(s.drop_last(), t).push(s.last())
    }
}

/// The status that presenting `t` to the live set `live` yields.
pub open spec fn auth_of(live: Seq<Seq<char>>, t: Seq<char>) -> AuthStatus {
    if live.contains(t) {
        AuthStatus::Authenticated
    } else {
        AuthStatus::NotLoggedIn
    }
}

/// Relies on `rand::random::<u8>`, which draws from the thread-local
/// cryptographically secure generator; nothing is known of the byte.
#[verifier::external_body]
fn random_byte() -> (r: u8) {
    rand::random::<u8>()
}

/// Relies on `hex::encode`: two lowercase hex digits per byte, in order.
#[verifier::external_body]
fn hex_encode(b: &Vec<u8>) -> (r: String)
    ensures
        r@ == hex_of(b@),
{
    hex::encode(b)
}

/// Relies on `totp_rs::TOTP::check` with SHA-256, eight digits, a skew of one
/// step and a step of 30 seconds: it accepts exactly the codes that
/// `TOTP::generate` gives for the step of `time`, the one before or the one
/// after. Below 30 s the step before does not exist and the call overflows.
#[verifier::external_body]
fn totp_check(secret: &Vec<u8>, code: &str, time: u64) -> (r: bool)
    requires
        otp_time_in_range(time as int),
    ensures
        r == (exists|c: int|
            time / 30 - 1 <= c <= time / 30 + 1 && #[trigger] totp_code(secret@, c) == code@),
{
    totp_rs::TOTP::new_unchecked(
        totp_rs::Algorithm::SHA256,
        8,
        1,
        OTP_STEP,
        secret.clone(),
        None,
        String::new(),
    ).check(code, time)
}

/// The hex text of the bytes, as a session token carries it.
pub fn encode_token(bytes: &Vec<u8>) -> (r: AuthToken)
    ensures
        r@ == hex_of(bytes@),
{
    hex_encode(bytes)
}

/// A fresh session token: the hex text of 32 random bytes.
pub fn gen_token() -> (r: AuthToken)
    ensures
        is_token_text(r@),
        r@.len() == 2 * TOKEN_BYTES,
{
    let mut bytes: Vec<u8> = Vec::new();
    let mut i: usize = 0;
    while i < TOKEN_BYTES
        invariant
            i <= TOKEN_BYTES,
            bytes@.len() == i,
        decreases TOKEN_BYTES - i,
    {
        bytes.push(random_byte());
        i = i + 1;
    }
    let r = encode_token(&bytes);
    proof {
        lemma_hex_len(bytes@);
    }
    r
}

/// `hex_of` gives two characters per byte.
pub proof fn lemma_hex_len(b: Seq<u8>)
    ensures
        hex_of(b).len() == 2 * b.len(),
    decreases b.len(),
{
    if b.len() > 0 {
        lemma_hex_len(b.drop_last());
    }
}

/// The state of the session manager: the live tokens, the secret that
/// one-time passwords are derived from, and whether checking them is bypassed.
pub struct AppState {
    pub tokens: Vec<AuthToken>,
    pub secret: Vec<u8>,
    pub bypass_otp: bool,
}

impl AppState {
    /// The live tokens, as text.
    pub open spec fn live(&self) -> Seq<Seq<char>> {
        self.tokens@.map_values(|t: String| t@)
    }

    /// A manager with no live token. `bypass_otp` accepts every one-time
    /// password and is meant for test environments only.
    pub fn new(secret: Vec<u8>, bypass_otp: bool) -> (r: AppState)
        ensures
            r.live() == Seq::<Seq<char>>::empty(),
            r.secret@ == secret@,
            r.bypass_otp == bypass_otp,
    {
        let r = AppState { tokens: Vec::new(), secret, bypass_otp };
        proof {
            assert(r.live() =~= Seq::<Seq<char>>::empty());
        }
        r
    }

    /// Whether `code` is a valid one-time password at `now` seconds since the
    /// epoch: within one step of the current one, or anything when bypassed.
    pub fn verify(&self, code: &str, now: u64) -> (r: bool)
        ensures
            r == (self.bypass_otp || (otp_time_in_range(now as int) && otp_accepts(
                self.secret@,
                code@,
                now as int,
            ))),
    {
        if self.bypass_otp {
            return true;
        }
        if now < OTP_STEP || now > u64::MAX - 60 {
            return false;
        }
        totp_check(&self.secret, code, now)
    }

    /// `Authenticated` exactly when the token is live, else `NotLoggedIn`.
    pub fn auth(&self, in_token: &str) -> (r: AuthStatus)
        ensures
            r == auth_of(self.live(), in_token@),
    {
        let t = in_token.to_owned();
        let mut i: usize = 0;
        while i < self.tokens.len()
            invariant
                i <= self.tokens@.len(),
                t@ == in_token@,
                forall|k: int| 0 <= k < i ==> self.live()[k] != t@,
            decreases self.tokens@.len() - i,
        {
            if self.tokens[i] == t {
                proof {
                    assert(self.live()[i as int] == t@);
                }
                return AuthStatus::Authenticated;
            }
            i = i + 1;
        }
        proof {
            assert(!self.live().contains(t@));
        }
        AuthStatus::NotLoggedIn
    }

    /// Issues a fresh token and adds it to the live set.
    pub fn gen_token(&mut self) -> (r: AuthToken)
        ensures
            final(self).live() == old(self).live().push(r@),
            is_token_text(r@),
            final(self).secret == old(self).secret,
            final(self).bypass_otp == old(self).bypass_otp,
    {
        let token = gen_token();
        self.tokens.push(token.clone());
        proof {
            assert(self.live() =~= old(self).live().push(token@));
        }
        token
    }

    /// Revokes a token: every copy of it leaves the live set; revoking one
    /// that is not live changes nothing.
    pub fn clear_token(&mut self, in_token: &str)
        ensures
            final(self).live() == without(old(self).live(), in_token@),
            final(self).secret == old(self).secret,
            final(self).bypass_otp == old(self).bypass_otp,
    {
        let t = in_token.to_owned();
        let mut kept: Vec<AuthToken> = Vec::new();
        let mut i: usize = 0;
        let ghost before = self.live();
        while i < self.tokens.len()
            invariant
                i <= self.tokens@.len(),
                before == self.live(),
                t@ == in_token@,
                kept@.map_values(|s: String| s@) == without(before.subrange(0, i as int), t@),
            decreases self.tokens@.len() - i,
        {
            let ghost prefix = before.subrange(0, i as int);
            proof {
                assert(before.subrange(0, i + 1).drop_last() =~= prefix);
            }
            if self.tokens[i] != t {
                kept.push(self.tokens[i].clone());
                proof {
                    assert(kept@.map_values(|s: String| s@) =~= without(prefix, t@).push(
                        before[i as int],
                    ));
                }
            }
            i = i + 1;
        }
        proof {
            assert(before.subrange(0, self.tokens@.len() as int) =~= before);
        }
        self.tokens = kept;
    }
}

/// A token that was just issued authenticates.
pub proof fn lemma_issued_token_authenticates(live: Seq<Seq<char>>, t: Seq<char>)
    ensures
        auth_of(live.push(t), t) == AuthStatus::Authenticated,
{
    assert(live.push(t)[live.len() as int] == t);
}

/// A revoked token no longer authenticates.
pub proof fn lemma_revoked_token_rejected(live: Seq<Seq<char>>, t: Seq<char>)
    ensures
        auth_of(without(live, t), t) == AuthStatus::NotLoggedIn,
    decreases live.len(),
{
    if live.len() > 0 {
        lemma_revoked_token_rejected(live.drop_last(), t);
    }
}

/// A token that was never issued does not authenticate.
pub proof fn lemma_unknown_token_rejected(live: Seq<Seq<char>>, t: Seq<char>)
    requires
        !live.contains(t),
    ensures
        auth_of(live, t) == AuthStatus::NotLoggedIn,
{
}

/// A code that differs from the password of the current step and of both
/// neighbouring steps is rejected.
pub proof fn lemma_code_outside_window_rejected(secret: Seq<u8>, code: Seq<char>, now: int)
    requires
        forall|c: int| now / 30 - 1 <= c <= now / 30 + 1 ==> totp_code(secret, c) != code,
    ensures
        !otp_accepts(secret, code, now),
{
}

} // verus!
