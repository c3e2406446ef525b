//! Usage statistics: what a download or a transfer adds to a user's
//! traffic.

use vstd::prelude::*;

verus! {

/// What a transfer of `bytes` adds to the traffic: nothing when it moved
/// no byte, else the count as stored (a 64-bit signed number).
pub fn traffic_increment(bytes: u64) -> (r: Option<i64>)
    ensures
        bytes == 0 ==> r is None,
        bytes != 0 ==> r == Some(bytes as i64),
{
    if bytes == 0 { None } else { Some(bytes as i64) }
}

/// What a download adds to the traffic: the file's size as stored, or 0
/// when it is unknown.
pub fn download_traffic(file_size: Option<u64>) -> (r: i64)
    ensures
        r == (match file_size {
            Some(s) => s as i64,
            None => 0i64,
        }),
{
    match file_size {
        Some(s) => s as i64,
        None => 0,
    }
}

} // verus!
