use vstd::prelude::*;

verus! {

/// Default cap on how many members a single user may manage.
pub const DEFAULT_MEMBER_NUM: usize = 2;

/// Default listing window for records, in calendar months.
pub const DEFAULT_RECORD_MONTH: u32 = 2;

/// Default lifetime of a session token, in seconds.
pub const DEFAULT_JWT_EXPIRE: u64 = 3600;

/// Upper bound on timestamps the service works with (seconds since the epoch,
/// far beyond any realistic clock reading), so that time arithmetic stays in
/// range.
pub const MAX_TIMESTAMP: i64 = 253_402_300_799;

/// A timestamp the service accepts as a clock reading.
pub open spec fn valid_time(t: i64) -> bool {
    0 <= t <= MAX_TIMESTAMP
}

/// Process-wide configuration, loaded once at startup and passed by reference
/// into every operation: the membership quota, the record listing window, the
/// token lifetime and the token signing secret.
pub struct Config {
    pub member_num: usize,
    pub record_month: u32,
    pub jwt_expire: u64,
    pub jwt_secret: Vec<u8>,
}

impl Config {
    /// Bounds under which the window and expiry arithmetic cannot overflow.
    pub open spec fn wf(self) -> bool {
        &&& self.record_month <= 12_000
        &&& self.jwt_expire <= 0x7fff_ffff
    }

    /// Builds a configuration from explicit values.
    pub fn new(member_num: usize, record_month: u32, jwt_expire: u64, jwt_secret: Vec<u8>) -> (c:
        Config)
        requires
            record_month <= 12_000,
            jwt_expire <= 0x7fff_ffff,
        ensures
            c.wf(),
            c.member_num == member_num,
            c.record_month == record_month,
            c.jwt_expire == jwt_expire,
            c.jwt_secret == jwt_secret,
    {
        Config { member_num, record_month, jwt_expire, jwt_secret }
    }

    /// Builds a configuration with the default quota, window and lifetime.
    pub fn with_defaults(jwt_secret: Vec<u8>) -> (c: Config)
        ensures
            c.wf(),
            c.member_num == DEFAULT_MEMBER_NUM,
            c.record_month == DEFAULT_RECORD_MONTH,
            c.jwt_expire == DEFAULT_JWT_EXPIRE,
            c.jwt_secret == jwt_secret,
    {
        Config {
            member_num: DEFAULT_MEMBER_NUM,
            record_month: DEFAULT_RECORD_MONTH,
            jwt_expire: DEFAULT_JWT_EXPIRE,
            jwt_secret,
        }
    }
}

} // verus!
