use sha2::Digest;
use yaolist::api::files::common::generate_token;
use yaolist::api::files::download::generate_sign;
use yaolist::auth::{create_session, generate_session_id, new_session, SESSION_COOKIE_NAME};
use yaolist::digest::{hex_encode, random_hex, u64_le_bytes};

fn is_lower_hex(s: &str) -> bool {
    s.chars().all(|c| c.is_ascii_digit() || ('a'..='f').contains(&c))
}

#[test]
fn hex_and_bytes() {
    assert_eq!(hex_encode(&[0x00, 0xab, 0x7f, 0xff]), "00ab7fff");
    assert_eq!(hex_encode(&[]), "");
    assert_eq!(u64_le_bytes(0x0102030405060708), vec![8, 7, 6, 5, 4, 3, 2, 1]);
    assert_eq!(u64_le_bytes((-1i64) as u64), (-1i64).to_le_bytes().to_vec());
    let d = sha2::Sha256::digest(b"abc");
    assert_eq!(hex_encode(&d), "ba7816bf8f01cfea414140de5dae2223b00361a396177a9cb410ff61f20015ad");
}

#[test]
fn random_tokens() {
    let t = generate_token();
    assert_eq!(t.len(), 64);
    assert!(is_lower_hex(&t));
    let s = generate_sign();
    assert_eq!(s.len(), 32);
    assert!(is_lower_hex(&s));
    assert_ne!(random_hex(16), random_hex(16));
}

#[test]
fn sessions() {
    assert_eq!(SESSION_COOKIE_NAME, "yaolist_session");
    let id = generate_session_id();
    assert_eq!(id.len(), 64);
    assert!(is_lower_hex(&id));
    let s = new_session("abc".to_string(), "7", (1_700_000_000, 5));
    assert_eq!(s.id, "abc");
    assert_eq!(s.user_id, "7");
    assert_eq!(s.expires_secs, 1_700_000_000 + 7 * 86400);
    assert_eq!(s.expires_nanos, 5);
    let before = chrono::Utc::now().timestamp();
    let c = create_session("u1");
    let after = chrono::Utc::now().timestamp();
    assert_eq!(c.user_id, "u1");
    assert!(c.expires_secs >= before + 604800 && c.expires_secs <= after + 604800);
}

#[test]
fn first_administrator_password() {
    let p = yaolist::db::generate_random_password(16);
    assert_eq!(p.chars().count(), 16);
    let alphabet = "ABCDEFGHJKLMNPQRSTUVWXYZabcdefghjkmnpqrstuvwxyz23456789!@#$%^&*";
    assert!(p.chars().all(|c| alphabet.contains(c)));
}
