use vstd::prelude::*;

verus! {

/// How long an external message stays valid.
#[derive(Debug, Clone, Copy, PartialEq, Eq, Structural)]
pub enum Expiration {
    Never,
    /// Valid until this time, in seconds.
    Timestamp(u32),
    /// Valid for this many seconds after the reference time.
    Timeout(u32),
}

/// The expiry time, in seconds, of a message built at `now_ms`
/// milliseconds. A time past the last second that a `u32` holds is
/// clamped to it.
pub open spec fn expire_timestamp(e: Expiration, now_ms: u64) -> u32 {
    match e {
        Expiration::Never => u32::MAX,
        Expiration::Timestamp(t) => t,
        Expiration::Timeout(t) => if now_ms / 1000 + t > u32::MAX {
            u32::MAX
        } else {
            (now_ms / 1000 + t) as u32
        },
    }
}

/// An expiration rule together with the time it gives.
#[derive(Debug, Clone, Copy, PartialEq, Eq, Structural)]
pub struct ExpireAt {
    pub expiration: Expiration,
    pub timestamp: u32,
}

impl ExpireAt {
    /// The expiry of a message built at the reference time `now_ms`, in
    /// milliseconds. The reference time is the caller's: nothing here reads
    /// a clock.
    pub fn new_from_millis(expiration: Expiration, now_ms: u64) -> (r: ExpireAt)
        ensures
            r.expiration == expiration,
            r.timestamp == expire_timestamp(expiration, now_ms),
    {
        let timestamp = match expiration {
            Expiration::Never => u32::MAX,
            Expiration::Timestamp(t) => t,
            Expiration::Timeout(t) => {
                let secs = now_ms / 1000;
                if secs > u32::MAX as u64 - t as u64 {
                    u32::MAX
                } else {
                    (secs + t as u64) as u32
                }
            },
        };
        ExpireAt { expiration, timestamp }
    }
}

/// The header of an external call: the reference time in milliseconds,
/// the expiry in seconds, and the public key, absent when unsigned.
#[derive(Debug, PartialEq, Eq)]
pub struct CallHeader {
    pub time: u64,
    pub expire: u32,
    pub pubkey: Option<Vec<u8>>,
}

/// The header of an external call built at the reference time `now_ms`
/// that stays valid for `timeout` seconds.
pub fn call_header(now_ms: u64, timeout: u32, pubkey: Option<Vec<u8>>) -> (r: CallHeader)
    ensures
        r.time == now_ms,
        r.expire == expire_timestamp(Expiration::Timeout(timeout), now_ms),
        r.pubkey == pubkey,
{
    let expire_at = ExpireAt::new_from_millis(Expiration::Timeout(timeout), now_ms);
    CallHeader { time: now_ms, expire: expire_at.timestamp, pubkey }
}

/// An external message before its body is encoded: its destination, its
/// header, and the state-init blob to attach, if any.
#[derive(Debug, PartialEq, Eq)]
pub struct ExternalCall {
    pub dst: String,
    pub header: CallHeader,
    pub state_init: Option<String>,
}

/// Plans an unsigned external message: the public-key header stays absent
/// and the state-init blob is attached whenever it is given.
pub fn unsigned_external_call(dst: String, state_init: Option<String>, now_ms: u64, timeout: u32) -> (r:
    ExternalCall)
    ensures
        r.dst == dst,
        r.state_init == state_init,
        r.header.time == now_ms,
        r.header.expire == expire_timestamp(Expiration::Timeout(timeout), now_ms),
        r.header.pubkey is None,
{
    ExternalCall { dst, header: call_header(now_ms, timeout, None), state_init }
}

/// The expiry that a message built at the reference time gets depends on
/// that time and the timeout alone: it is the reference second plus the
/// timeout, wherever that fits a `u32`.
pub proof fn expiry_is_reference_plus_timeout(now_ms: u64, timeout: u32)
    requires
        now_ms / 1000 + timeout <= u32::MAX,
    ensures
        expire_timestamp(Expiration::Timeout(timeout), now_ms) == now_ms / 1000 + timeout,
{
}

} // verus!
