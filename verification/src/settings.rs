//! What the environment says about the worker, and what the worker finds in its
//! own environment.

use vstd::prelude::*;

use crate::text;

verus! {

/// Nanoseconds in a millisecond.
pub const NANOS_PER_MILLI: u128 = 1_000_000;

/// Nanoseconds in a second.
pub const NANOS_PER_SEC: u128 = 1_000_000_000;

/// The values of the environment variables that set the worker up: `None` where one
/// is not set. A value that is not text counts as empty.
pub struct WorkerEnv {
    /// `WRAPPER_WORKER_TIMEOUT_SECS`
    pub request_timeout_secs: Option<String>,
    /// `WRAPPER_WORKER_STARTUP_TIMEOUT_SECS`
    pub startup_timeout_secs: Option<String>,
    /// `WRAPPER_WORKER_BUSY_TIMEOUT_MS`
    pub busy_timeout_ms: Option<String>,
    /// `WRAPPER_WORKER_MAX_WAITERS`
    pub max_waiters: Option<String>,
    /// `WRAPPER_WORKER_MAX_RESTARTS`
    pub max_restarts: Option<String>,
    /// `WRAPPER_EXIT_ON_STARTUP_FAILURE`
    pub exit_on_startup_failure: Option<String>,
}

/// How the worker is to be supervised.
#[derive(Debug, Clone, Copy, PartialEq, Eq, Structural)]
pub struct Settings {
    /// The time for one request to the worker.
    pub request_timeout_secs: u64,
    /// How long a worker that was just started may take to answer the readiness
    /// probe.
    pub startup_timeout_secs: u64,
    /// How long a request waits for the worker while another is in flight.
    pub busy_timeout_ms: u64,
    /// How many requests may wait behind the current one.
    pub max_waiters: u32,
    /// How many startups in a row may fail before the supervisor gives up.
    pub max_startup_failures: u32,
    /// Whether the process then exits, so that the platform restarts it.
    pub exit_on_startup_failure: bool,
}

/// The text of a variable, if it is set.
pub open spec fn var(value: Option<String>) -> Option<Seq<char>> {
    match value {
        Some(s) => Some(s@),
        None => None,
    }
}

/// The number that a variable sets: at least one and no more than `max`.
/// Anything else, and no value at all, sets `default`.
pub open spec fn number_setting(value: Option<Seq<char>>, max: nat, default: nat) -> nat {
    match value {
        Some(s) => match text::parse_number(s, max) {
            Some(n) => if n > 0 {
                n
            } else {
                default
            },
            None => default,
        },
        None => default,
    }
}

/// Whether a variable switches something on that is on unless it is set: only
/// nothing, `0`, `false` and `no` switch it off.
pub open spec fn switch_setting(value: Option<Seq<char>>) -> bool {
    match value {
        Some(s) => {
            let word = text::trimmed(s);
            word != ""@ && word != "0"@ && word != "false"@ && word != "no"@
        },
        None => true,
    }
}

/// Reads a number from a variable.
pub fn read_number(value: &Option<String>, max: u64, default: u64) -> (r: u64)
    ensures
        r == number_setting(var(*value), max as nat, default as nat),
{
    match value {
        Some(s) => match text::parse_unsigned(s.as_str(), max) {
            Some(n) => if n > 0 {
                n
            } else {
                default
            },
            None => default,
        },
        None => default,
    }
}

/// Reads a switch from a variable.
pub fn read_switch(value: &Option<String>) -> (r: bool)
    ensures
        r == switch_setting(var(*value)),
{
    match value {
        Some(s) => {
            let word = text::trim(s.as_str());
            word != "".to_string() && word != "0".to_string() && word != "false".to_string() && word
                != "no".to_string()
        },
        None => true,
    }
}

/// The time for one request to the worker: a minute, unless set.
pub fn worker_timeout(env: &WorkerEnv) -> (secs: u64)
    ensures
        secs == number_setting(var(env.request_timeout_secs), u64::MAX as nat, 60),
{
    read_number(&env.request_timeout_secs, u64::MAX, 60)
}

/// The time for the readiness probe: half a minute, unless set.
pub fn worker_startup_timeout(env: &WorkerEnv) -> (secs: u64)
    ensures
        secs == number_setting(var(env.startup_timeout_secs), u64::MAX as nat, 30),
{
    read_number(&env.startup_timeout_secs, u64::MAX, 30)
}

/// How long a request waits for the worker: ten seconds, unless set.
pub fn worker_busy_timeout(env: &WorkerEnv) -> (millis: u64)
    ensures
        millis == number_setting(var(env.busy_timeout_ms), u64::MAX as nat, 10_000),
{
    read_number(&env.busy_timeout_ms, u64::MAX, 10_000)
}

/// How many requests may wait: sixteen, unless set.
pub fn worker_max_waiters(env: &WorkerEnv) -> (r: u32)
    ensures
        r == number_setting(var(env.max_waiters), u32::MAX as nat, 16),
{
    read_number(&env.max_waiters, u32::MAX as u64, 16) as u32
}

/// How many startups in a row may fail: three, unless set.
pub fn worker_max_startup_failures(env: &WorkerEnv) -> (r: u32)
    ensures
        r == number_setting(var(env.max_restarts), u32::MAX as nat, 3),
{
    read_number(&env.max_restarts, u32::MAX as u64, 3) as u32
}

/// Whether to exit after too many failed startups: yes, unless switched off.
pub fn worker_exit_on_startup_failure(env: &WorkerEnv) -> (r: bool)
    ensures
        r == switch_setting(var(env.exit_on_startup_failure)),
{
    read_switch(&env.exit_on_startup_failure)
}

impl Settings {
    /// Every bound lets something through: no timeout is zero, some request may
    /// wait, and some startup is tried.
    pub open spec fn usable(self) -> bool {
        &&& self.request_timeout_secs > 0
        &&& self.startup_timeout_secs > 0
        &&& self.busy_timeout_ms > 0
        &&& self.max_waiters > 0
        &&& self.max_startup_failures > 0
    }

    /// The settings that the environment asks for. Whatever it holds, they are
    /// usable.
    pub fn from_env(env: &WorkerEnv) -> (r: Settings)
        ensures
            r.request_timeout_secs == number_setting(
                var(env.request_timeout_secs),
                u64::MAX as nat,
                60,
            ),
            r.startup_timeout_secs == number_setting(
                var(env.startup_timeout_secs),
                u64::MAX as nat,
                30,
            ),
            r.busy_timeout_ms == number_setting(var(env.busy_timeout_ms), u64::MAX as nat, 10_000),
            r.max_waiters == number_setting(var(env.max_waiters), u32::MAX as nat, 16),
            r.max_startup_failures == number_setting(var(env.max_restarts), u32::MAX as nat, 3),
            r.exit_on_startup_failure == switch_setting(var(env.exit_on_startup_failure)),
            r.usable(),
    {
        Settings {
            request_timeout_secs: worker_timeout(env),
            startup_timeout_secs: worker_startup_timeout(env),
            busy_timeout_ms: worker_busy_timeout(env),
            max_waiters: worker_max_waiters(env),
            max_startup_failures: worker_max_startup_failures(env),
            exit_on_startup_failure: worker_exit_on_startup_failure(env),
        }
    }

    /// The time for one request, in nanoseconds.
    pub open spec fn request_nanos(self) -> nat {
        (self.request_timeout_secs * NANOS_PER_SEC) as nat
    }

    /// The time for the readiness probe, in nanoseconds.
    pub open spec fn startup_nanos(self) -> nat {
        (self.startup_timeout_secs * NANOS_PER_SEC) as nat
    }

    /// The time that a request waits, in nanoseconds.
    pub open spec fn busy_nanos(self) -> nat {
        (self.busy_timeout_ms * NANOS_PER_MILLI) as nat
    }

    /// When a request that comes at `now` has run out of time.
    pub fn request_deadline(&self, now: u64) -> (r: u128)
        ensures
            r == now + self.request_nanos(),
    {
        now as u128 + self.request_timeout_secs as u128 * NANOS_PER_SEC
    }

    /// When a probe sent at `now` has run out of time.
    pub fn startup_deadline(&self, now: u64) -> (r: u128)
        ensures
            r == now + self.startup_nanos(),
    {
        now as u128 + self.startup_timeout_secs as u128 * NANOS_PER_SEC
    }

    /// When a request that starts to wait at `now` gives up waiting.
    pub fn busy_deadline(&self, now: u64) -> (r: u128)
        ensures
            r == now + self.busy_nanos(),
    {
        now as u128 + self.busy_timeout_ms as u128 * NANOS_PER_MILLI
    }
}

/// A variable that the worker needs in its environment.
pub struct EnvDefault {
    pub name: &'static str,
    pub value: &'static str,
    /// Set it even where it has a value.
    pub overwrite: bool,
}

/// The variables that the worker needs: name, value, whether it is forced.
pub open spec fn bionic_table() -> Seq<(Seq<char>, Seq<char>, bool)> {
    seq![
        ("ANDROID_DNS_MODE"@, "local"@, true),
        ("ANDROID_DATA"@, "/data"@, false),
        ("ANDROID_ROOT"@, "/system"@, false),
        ("SSL_CERT_FILE"@, "/etc/ssl/certs/ca-certificates.crt"@, false),
        ("CURL_CA_BUNDLE"@, "/etc/ssl/certs/ca-certificates.crt"@, false),
    ]
}

/// The variables that the worker needs, in the order in which they are set.
pub fn bionic_env() -> (r: Vec<EnvDefault>)
    ensures
        r@.len() == bionic_table().len(),
        forall|i: int|
            0 <= i < r@.len() ==> ((#[trigger] r@[i]).name@, r@[i].value@, r@[i].overwrite)
                == bionic_table()[i],
{
    let mut r: Vec<EnvDefault> = Vec::new();
    r.push(EnvDefault { name: "ANDROID_DNS_MODE", value: "local", overwrite: true });
    r.push(EnvDefault { name: "ANDROID_DATA", value: "/data", overwrite: false });
    r.push(EnvDefault { name: "ANDROID_ROOT", value: "/system", overwrite: false });
    r.push(
        EnvDefault {
            name: "SSL_CERT_FILE",
            value: "/etc/ssl/certs/ca-certificates.crt",
            overwrite: false,
        },
    );
    r.push(
        EnvDefault {
            name: "CURL_CA_BUNDLE",
            value: "/etc/ssl/certs/ca-certificates.crt",
            overwrite: false,
        },
    );
    r
}

impl EnvDefault {
    /// Whether to set this variable where it now has the value `current`: always
    /// where it is forced, else where it has no value or an empty one.
    pub fn applies(&self, current: &Option<String>) -> (r: bool)
        ensures
            r == (self.overwrite || var(*current) is None || var(*current)->0.len() == 0),
    {
        let missing = match current {
            Some(s) => s.as_str().is_empty(),
            None => true,
        };
        self.overwrite || missing
    }
}

/// The variables that tell the process that it is started as the worker.
pub open spec fn launch_table() -> Seq<(Seq<char>, Seq<char>)> {
    seq![("WRAPPER_MODE"@, "ipc-worker"@), ("ANDROID_DNS_MODE"@, "local"@)]
}

/// The variables given to the worker process alone.
pub fn launch_env() -> (r: Vec<(&'static str, &'static str)>)
    ensures
        r@.len() == launch_table().len(),
        forall|i: int|
            0 <= i < r@.len() ==> ((#[trigger] r@[i]).0@, r@[i].1@) == launch_table()[i],
{
    let mut r: Vec<(&'static str, &'static str)> = Vec::new();
    r.push(("WRAPPER_MODE", "ipc-worker"));
    r.push(("ANDROID_DNS_MODE", "local"));
    r
}

/// The directory that the worker needs: `mpl_db` below the base directory that
/// is given, or below the usual one where none or an empty one is.
pub fn apple_state_dir(base_dir: &Option<String>) -> (r: String)
    ensures
        r@ == (if var(*base_dir) is Some && var(*base_dir)->0.len() > 0 {
            var(*base_dir)->0
        } else {
            "/data/data/com.apple.android.music/files"@
        }) + "/mpl_db"@,
{
    let base = match base_dir {
        Some(s) => if s.as_str().is_empty() {
            "/data/data/com.apple.android.music/files".to_string()
        } else {
            s.clone()
        },
        None => "/data/data/com.apple.android.music/files".to_string(),
    };
    base.concat("/mpl_db")
}

/// A variable sets the number that it spells, where that is at least one and no more than
/// is allowed; not set, or set to anything else, it leaves the default.
pub proof fn law_number_set(s: Seq<char>, n: nat, max: nat, default: nat)
    ensures
        number_setting(None, max, default) == default,
        0 < n <= max ==> number_setting(Some(text::decimal(n)), max, default) == n,
        n > max ==> number_setting(Some(text::decimal(n)), max, default) == default,
        number_setting(Some(text::decimal(0)), max, default) == default,
        text::parse_number(s, max) is None ==> number_setting(Some(s), max, default) == default,
        text::parse_number(s, max) matches Some(m) ==> number_setting(Some(s), max, default) == (if m
            == 0 {
            default
        } else {
            m
        }),
{
    text::law_number_read_back(n, max);
    text::law_number_read_back(0, max);
}

/// A switch is on unless its variable is set to one of four words, with or without white
/// space around them: nothing, `0`, `false` or `no`.
pub proof fn law_switch_set(s: Seq<char>)
    ensures
        switch_setting(None),
        switch_setting(Some(s)) <==> !(text::trimmed(s) == ""@ || text::trimmed(s) == "0"@
            || text::trimmed(s) == "false"@ || text::trimmed(s) == "no"@),
{
}

/// Seconds and milliseconds count as many nanoseconds as they have.
pub proof fn law_time_units(s: Settings)
    ensures
        s.request_nanos() == 1000000000 * s.request_timeout_secs,
        s.startup_nanos() == 1000000000 * s.startup_timeout_secs,
        s.busy_nanos() == 1000000 * s.busy_timeout_ms,
{
}

/// A variable has the text that it is set to.
pub proof fn law_variable(s: String)
    ensures
        var(Some(s)) == Some(s@),
        var(None) is None,
{
}

} // verus!
