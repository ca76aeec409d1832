use wrapper_supervisor::settings::{
    apple_state_dir, bionic_env, launch_env, worker_busy_timeout, worker_exit_on_startup_failure,
    worker_max_startup_failures, worker_max_waiters, worker_startup_timeout, worker_timeout,
    EnvDefault, Settings, WorkerEnv,
};

fn unset() -> WorkerEnv {
    WorkerEnv {
        request_timeout_secs: None,
        startup_timeout_secs: None,
        busy_timeout_ms: None,
        max_waiters: None,
        max_restarts: None,
        exit_on_startup_failure: None,
    }
}

fn text(s: &str) -> Option<String> {
    Some(s.to_string())
}

#[test]
fn documented_defaults() {
    let s = Settings::from_env(&unset());
    assert_eq!(s.request_timeout_secs, 60);
    assert_eq!(s.startup_timeout_secs, 30);
    assert_eq!(s.busy_timeout_ms, 10_000);
    assert_eq!(s.max_waiters, 16);
    assert_eq!(s.max_startup_failures, 3);
    assert!(s.exit_on_startup_failure);
}

#[test]
fn values_that_are_set() {
    let s = Settings::from_env(&WorkerEnv {
        request_timeout_secs: text("5"),
        startup_timeout_secs: text("+06"),
        busy_timeout_ms: text("18446744073709551615"),
        max_waiters: text("4294967295"),
        max_restarts: text("1"),
        exit_on_startup_failure: text("0"),
    });
    assert_eq!(s.request_timeout_secs, 5);
    assert_eq!(s.startup_timeout_secs, 6);
    assert_eq!(s.busy_timeout_ms, 18446744073709551615);
    assert_eq!(s.max_waiters, 4294967295);
    assert_eq!(s.max_startup_failures, 1);
    assert!(!s.exit_on_startup_failure);
}

#[test]
fn values_that_are_no_numbers_set_nothing() {
    for bad in
        ["", "0", "-1", " 5", "5 ", "5s", "+", "++5", "0x5", "\u{665}", "18446744073709551616"]
    {
        let env = WorkerEnv {
            request_timeout_secs: text(bad),
            startup_timeout_secs: text(bad),
            busy_timeout_ms: text(bad),
            max_waiters: text(bad),
            max_restarts: text(bad),
            exit_on_startup_failure: None,
        };
        assert_eq!(worker_timeout(&env), 60);
        assert_eq!(worker_startup_timeout(&env), 30);
        assert_eq!(worker_busy_timeout(&env), 10_000);
        assert_eq!(worker_max_waiters(&env), 16);
        assert_eq!(worker_max_startup_failures(&env), 3);
    }
    let mut env = unset();
    env.max_waiters = text("4294967296");
    assert_eq!(worker_max_waiters(&env), 16);
}

#[test]
fn only_a_few_words_switch_the_exit_off() {
    let mut env = unset();
    for off in ["", "0", "false", "no", " 0\n", "\tfalse ", "\u{a0}no\u{2003}", "   "] {
        env.exit_on_startup_failure = text(off);
        assert!(!worker_exit_on_startup_failure(&env));
    }
    for on in ["1", "true", "yes", "00", "No", "FALSE", "n o", "0 0"] {
        env.exit_on_startup_failure = text(on);
        assert!(worker_exit_on_startup_failure(&env));
    }
}

#[test]
fn deadlines() {
    let mut s = Settings::from_env(&unset());
    assert_eq!(s.request_deadline(7), 60_000_000_007);
    assert_eq!(s.startup_deadline(7), 30_000_000_007);
    assert_eq!(s.busy_deadline(7), 10_000_000_007);
    s.request_timeout_secs = u64::MAX;
    assert_eq!(s.request_deadline(u64::MAX), u64::MAX as u128 * 1_000_000_001);
}

#[test]
fn worker_environment() {
    let table = bionic_env();
    let rows: Vec<(&str, &str, bool)> =
        table.iter().map(|e| (e.name, e.value, e.overwrite)).collect();
    assert_eq!(
        rows,
        vec![
            ("ANDROID_DNS_MODE", "local", true),
            ("ANDROID_DATA", "/data", false),
            ("ANDROID_ROOT", "/system", false),
            ("SSL_CERT_FILE", "/etc/ssl/certs/ca-certificates.crt", false),
            ("CURL_CA_BUNDLE", "/etc/ssl/certs/ca-certificates.crt", false),
        ]
    );
    assert_eq!(launch_env(), vec![("WRAPPER_MODE", "ipc-worker"), ("ANDROID_DNS_MODE", "local")]);
}

#[test]
fn variables_are_set_where_they_are_missing() {
    let soft = EnvDefault { name: "A", value: "b", overwrite: false };
    assert!(soft.applies(&None));
    assert!(soft.applies(&text("")));
    assert!(!soft.applies(&text("x")));
    let forced = EnvDefault { name: "A", value: "b", overwrite: true };
    assert!(forced.applies(&text("x")));
}

#[test]
fn state_directory() {
    let usual = "/data/data/com.apple.android.music/files/mpl_db";
    assert_eq!(apple_state_dir(&None), usual);
    assert_eq!(apple_state_dir(&text("")), usual);
    assert_eq!(apple_state_dir(&text("/tmp/x")), "/tmp/x/mpl_db");
}
