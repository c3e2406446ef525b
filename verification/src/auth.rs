//! Sessions: the cookie that carries them, their ids and their lifetime.

use vstd::prelude::*;
use crate::clock::{current_time, current_millis};
use crate::digest::{hex_lower, hex_encode, sha256, sha256_digest, random_bytes, le_bytes, u64_le_bytes};
use crate::text::copy_str;

verus! {

/// The name of the cookie that carries a session id.
pub const SESSION_COOKIE_NAME: &'static str = "yaolist_session";

/// A login session: its id, its user, and when it ends (seconds and
/// nanoseconds since 1970-01-01T00:00:00Z).
#[derive(Debug, Clone)]
pub struct Session {
    pub id: String,
    pub user_id: String,
    pub expires_secs: i64,
    pub expires_nanos: u32,
}

/// A session id: the SHA-256 of 32 random bytes followed by the present
/// in milliseconds (little-endian), in lower-case hexadecimal.
pub fn generate_session_id() -> (r: String)
    ensures
        exists|rnd: Seq<u8>, ms: i64| rnd.len() == 32
            && r@ == #[trigger] hex_lower(sha256(rnd + le_bytes(ms as u64, 8))),
        r@.len() == 64,
{
    let rnd = random_bytes(32);
    let ms = current_millis();
    let tail = u64_le_bytes(ms as u64);
    let mut input = rnd.clone();
    let mut t = tail.clone();
    input.append(&mut t);
    assert(input@ == rnd@ + le_bytes(ms as u64, 8));
    let d = sha256_digest(input.as_slice());
    let r = hex_encode(d.as_slice());
    assert(r@ == hex_lower(sha256(rnd@ + le_bytes(ms as u64, 8))));
    r
}

/// How long a session lasts: seven days, in seconds.
pub open spec fn session_lifetime() -> int {
    604800int
}

/// The session `id` of `user_id` opened at `now`: it ends seven days later.
pub fn new_session(id: String, user_id: &str, now: (i64, u32)) -> (r: Session)
    requires
        now.0 + session_lifetime() <= i64::MAX,
    ensures
        r.id == id,
        r.user_id@ == user_id@,
        r.expires_secs == now.0 + session_lifetime(),
        r.expires_nanos == now.1,
{
    Session { id, user_id: copy_str(user_id), expires_secs: now.0 + 604800, expires_nanos: now.1 }
}

/// A new session of `user_id` with a fresh id, ending seven days from the
/// present: its end lies seven days past a time in `chrono`'s range.
pub fn create_session(user_id: &str) -> (r: Session)
    ensures
        r.user_id@ == user_id@,
        r.id@.len() == 64,
        -8_300_000_000_000 + session_lifetime() <= r.expires_secs <= 8_300_000_000_000 + session_lifetime(),
        r.expires_nanos < 2_000_000_000,
{
    let id = generate_session_id();
    let now = current_time();
    new_session(id, user_id, now)
}

} // verus!
