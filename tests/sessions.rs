use kserver::session::{encode_token, gen_token, AppState, AuthStatus};

const SECRET: &[u8] = b"12345678901234567890123456789012";

fn totp_at(time: u64) -> String {
    totp_rs::TOTP::new_unchecked(totp_rs::Algorithm::SHA256, 8, 1, 30, SECRET.to_vec(), None, String::new())
        .generate(time)
}

#[test]
fn issued_token_authenticates() {
    let mut st = AppState::new(SECRET.to_vec(), false);
    let t = st.gen_token();
    assert_eq!(st.auth(&t), AuthStatus::Authenticated);
}

#[test]
fn revoked_token_is_not_logged_in() {
    let mut st = AppState::new(SECRET.to_vec(), false);
    let t = st.gen_token();
    let other = st.gen_token();
    st.clear_token(&t);
    assert_eq!(st.auth(&t), AuthStatus::NotLoggedIn);
    assert_eq!(st.auth(&other), AuthStatus::Authenticated);
}

#[test]
fn unknown_token_is_not_logged_in() {
    let mut st = AppState::new(SECRET.to_vec(), false);
    assert_eq!(st.auth("deadbeef"), AuthStatus::NotLoggedIn);
    st.gen_token();
    assert_eq!(st.auth("deadbeef"), AuthStatus::NotLoggedIn);
    assert_eq!(st.auth(""), AuthStatus::NotLoggedIn);
}

#[test]
fn revoking_unknown_token_is_a_no_op() {
    let mut st = AppState::new(SECRET.to_vec(), false);
    let t = st.gen_token();
    st.clear_token("not-a-token");
    assert_eq!(st.tokens, vec![t.clone()]);
    assert_eq!(st.auth(&t), AuthStatus::Authenticated);
}

#[test]
fn tokens_are_64_lowercase_hex_digits() {
    let t = gen_token();
    assert_eq!(t.len(), 64);
    assert!(t.chars().all(|c| c.is_ascii_digit() || ('a'..='f').contains(&c)));
    assert_ne!(gen_token(), t);
}

#[test]
fn token_text_is_hex_of_bytes() {
    assert_eq!(encode_token(&vec![0x00, 0xab, 0xff, 0x10]), "00abff10");
    assert_eq!(encode_token(&vec![]), "");
}

#[test]
fn otp_accepted_within_one_step() {
    let st = AppState::new(SECRET.to_vec(), false);
    let now = 1_700_000_015u64;
    assert!(st.verify(&totp_at(now), now));
    assert!(st.verify(&totp_at(now - 30), now));
    assert!(st.verify(&totp_at(now + 30), now));
}

#[test]
fn otp_rejected_outside_window() {
    let st = AppState::new(SECRET.to_vec(), false);
    let now = 1_700_000_015u64;
    assert!(!st.verify(&totp_at(now - 90), now));
    assert!(!st.verify(&totp_at(now + 90), now));
    assert!(!st.verify("not a code", now));
    assert!(!st.verify(&totp_at(45), 10));
}

#[test]
fn otp_bypass_accepts_anything() {
    let st = AppState::new(SECRET.to_vec(), true);
    assert!(st.verify("whatever", 1_700_000_015));
    assert!(st.verify("", 0));
}
