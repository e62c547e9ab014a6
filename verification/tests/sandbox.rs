use serenade::sandbox::output::{decode_json, GuestFailure, GuestOutput};
use serenade::sandbox::package::{ensure_webc_payload, wasmer_cache_root_from, PackageRun};

#[test]
fn cache_root_from_env_override() {
    let root = wasmer_cache_root_from(Some(String::from("/tmp/serenade-wasmer-cache")));
    assert_eq!(root, "/tmp/serenade-wasmer-cache");
}

#[test]
fn cache_root_default_is_relative_wasmer() {
    let root = wasmer_cache_root_from(None);
    assert_eq!(root, ".wasmer");
}

#[test]
fn decode_json_success() {
    let output = GuestOutput {
        stdout: br#"{"ok":true}"#.to_vec(),
        stderr: Vec::new(),
        success: true,
    };
    let parsed = decode_json(&output).expect("json");
    assert_eq!(parsed["ok"], serde_json::Value::Bool(true));
}

#[test]
fn decode_json_rejects_failed_guest() {
    let output = GuestOutput {
        stdout: Vec::new(),
        stderr: b"boom".to_vec(),
        success: false,
    };
    let err = decode_json(&output).expect_err("failed guest");
    assert_eq!(err.kind, GuestFailure::Failed);
    assert!(err.message.contains("boom"));
}

#[test]
fn decode_json_reports_missing_stdout_and_bad_json() {
    let quiet = GuestOutput {
        stdout: Vec::new(),
        stderr: b"warn".to_vec(),
        success: true,
    };
    assert_eq!(decode_json(&quiet).expect_err("no stdout").kind, GuestFailure::NoStdout);
    let garbled = GuestOutput {
        stdout: b"{nope".to_vec(),
        stderr: Vec::new(),
        success: true,
    };
    let err = decode_json(&garbled).expect_err("bad json");
    assert_eq!(err.kind, GuestFailure::NotJson);
    assert!(err.message.starts_with("parse guest JSON from stdout `{nope`"));
}

#[test]
fn small_webc_download_rejected() {
    assert_eq!(
        ensure_webc_payload(&[0u8; 10]),
        Err(String::from(
            "Wasmer package download looks too small (10 bytes); check Accept header"
        ))
    );
    assert_eq!(ensure_webc_payload(&[0u8; 1024]), Ok(()));
    let run = PackageRun {
        stdin_bytes: b"{}",
        cache_root: ".wasmer",
        package_url: "https://registry.example/pkg",
        cache_name: "pkg.webc",
        command: "main",
        args: vec![String::from("--json")],
    };
    assert_eq!(run.command, "main");
}

#[test]
fn decode_json_failure_messages_quote_stdio() {
    let failed = GuestOutput {
        stdout: b"partial".to_vec(),
        stderr: b"boom".to_vec(),
        success: false,
    };
    assert_eq!(
        decode_json(&failed).expect_err("failed").message,
        "Wasmer guest failed; stderr: boom; stdout: partial"
    );
    let quiet = GuestOutput {
        stdout: Vec::new(),
        stderr: b"warn".to_vec(),
        success: true,
    };
    assert_eq!(
        decode_json(&quiet).expect_err("quiet").message,
        "guest produced no stdout; stderr: warn"
    );
    let garbled = GuestOutput {
        stdout: b"{nope".to_vec(),
        stderr: b"e".to_vec(),
        success: true,
    };
    let why = serde_json::from_slice::<serde_json::Value>(b"{nope")
        .expect_err("bad")
        .to_string();
    let err = decode_json(&garbled).expect_err("garbled");
    assert_eq!(err.message, "parse guest JSON from stdout `{nope` (stderr: e)");
    assert_eq!(err.cause, why);
}

#[test]
fn decode_json_reads_stdout_not_stderr() {
    let output = GuestOutput {
        stdout: br#"{"from":"stdout"}"#.to_vec(),
        stderr: br#"{"from":"stderr"}"#.to_vec(),
        success: true,
    };
    let parsed = decode_json(&output).expect("json");
    assert_eq!(parsed["from"], serde_json::Value::String(String::from("stdout")));
}

#[test]
fn sandbox_version_is_nonempty() {
    assert_ne!(serenade::version(), "");
}
