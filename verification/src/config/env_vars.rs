//! Environment variable names, all of them.

use vstd::prelude::*;

verus! {

pub const HOST: &'static str = "SYNO_CLEAN_HOST";

pub const PORT: &'static str = "SYNO_CLEAN_PORT";

pub const HTTPS: &'static str = "SYNO_CLEAN_HTTPS";

pub const INSECURE: &'static str = "SYNO_CLEAN_INSECURE";

pub const USERNAME: &'static str = "SYNO_CLEAN_USERNAME";

pub const PASSWORD: &'static str = "SYNO_CLEAN_PASSWORD";

pub const OTP: &'static str = "SYNO_CLEAN_OTP";

pub const REFRESH_SECS: &'static str = "SYNO_CLEAN_REFRESH_SECS";

} // verus!
