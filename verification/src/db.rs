//! The database's first data: the random password of the first
//! administrator.

use vstd::prelude::*;
use crate::digest::random_text;
use crate::text::chars_of;

verus! {

/// The characters of a generated password: letters and digits that are
/// not easily confused, and `!@#$%^&*`.
pub open spec fn password_charset() -> Seq<char> {
    "ABCDEFGHJKLMNPQRSTUVWXYZabcdefghjkmnpqrstuvwxyz23456789!@#$%^&*"@
}

/// A random password of `length` characters of the password alphabet.
pub fn generate_random_password(length: usize) -> (r: String)
    ensures
        r@.len() == length,
        forall|k: int| 0 <= k < length ==> password_charset().contains(#[trigger] r@[k]),
{
    let charset = chars_of("ABCDEFGHJKLMNPQRSTUVWXYZabcdefghjkmnpqrstuvwxyz23456789!@#$%^&*");
    proof {
        reveal_strlit("ABCDEFGHJKLMNPQRSTUVWXYZabcdefghjkmnpqrstuvwxyz23456789!@#$%^&*");
    }
    random_text(&charset, length)
}

} // verus!
