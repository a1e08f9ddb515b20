//! Connection-related decisions: how far away a chunk is meshed in detail,
//! and how a connection error is worded for the player.
use vstd::prelude::*;

use crate::text::{contains_seq, contains_text};

verus! {

use vstd::string::StringExecFns;

/// The absolute value of `x`, which always fits in a `u32`.
fn abs_u32(x: i32) -> (r: u32)
    ensures
        r == if x >= 0 {
            x as int
        } else {
            -(x as int)
        },
{
    if x >= 0 {
        x as u32
    } else {
        (-(x as i64)) as u32
    }
}

/// The level of detail a chunk is meshed with, by its distance in chunks
/// (the larger of the two axis distances) from the player's chunk: full
/// detail up to 8, reduced up to 16, lowest beyond.
pub open spec fn lod_for(dist: int) -> u32 {
    if dist <= 8 {
        0
    } else if dist <= 16 {
        1
    } else {
        2
    }
}

/// The level of detail of the chunk at `(x, z)` seen from the player's chunk `(px, pz)`.
pub fn chunk_lod(x: i32, z: i32, px: i32, pz: i32) -> (r: u32)
    requires
        i32::MIN <= x - px <= i32::MAX,
        i32::MIN <= z - pz <= i32::MAX,
    ensures
        ({
            let dx = if x >= px { x - px } else { px - x };
            let dz = if z >= pz { z - pz } else { pz - z };
            r == lod_for(if dx >= dz { dx } else { dz })
        }),
{
    let dx = abs_u32(x - px);
    let dz = abs_u32(z - pz);
    let dist = if dx >= dz { dx } else { dz };
    if dist <= 8 {
        0
    } else if dist <= 16 {
        1
    } else {
        2
    }
}

/// A farther chunk is never meshed in more detail.
pub proof fn law_lod_grows_with_distance(a: int, b: int)
    requires
        a <= b,
    ensures
        lod_for(a) <= lod_for(b),
        lod_for(b) <= 2,
{
}

/// The wording of a connection error for the player, from the error's text.
pub open spec fn friendly_reason(msg: Seq<char>) -> Seq<char> {
    if contains_seq(msg, "connection refused"@) || contains_seq(msg, "Connection refused"@) {
        "Connection refused"@
    } else if contains_seq(msg, "Connection closed"@) || contains_seq(msg, "connection reset"@)
        || contains_seq(msg, "broken pipe"@) {
        "Server closed"@
    } else if contains_seq(msg, "timed out"@) || contains_seq(msg, "Timed out"@) {
        "Connection timed out"@
    } else if contains_seq(msg, "no addresses found"@) || contains_seq(msg, "failed to lookup"@) {
        "Unknown host"@
    } else {
        msg
    }
}

/// The wording of a connection error for the player: a short reason for the
/// common failures, otherwise the error's own text.
pub fn friendly_error_reason(msg: &str) -> (r: String)
    ensures
        r@ == friendly_reason(msg@),
{
    if contains_text(msg, "connection refused") || contains_text(msg, "Connection refused") {
        String::from_str("Connection refused")
    } else if contains_text(msg, "Connection closed") || contains_text(msg, "connection reset")
        || contains_text(msg, "broken pipe") {
        String::from_str("Server closed")
    } else if contains_text(msg, "timed out") || contains_text(msg, "Timed out") {
        String::from_str("Connection timed out")
    } else if contains_text(msg, "no addresses found") || contains_text(msg, "failed to lookup") {
        String::from_str("Unknown host")
    } else {
        String::from_str(msg)
    }
}

} // verus!
