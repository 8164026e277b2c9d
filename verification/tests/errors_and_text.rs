use k8sdesk::error::{scrub, AppError};
use k8sdesk::text::{int_to_string, parse_i32, parse_i64, split_words, trim};

#[test]
fn error_messages() {
    assert_eq!(AppError::NotFound.message(), "cluster not found");
    assert_eq!(AppError::Crypto.message(), "crypto error");
    assert_eq!(AppError::BadConfirmation.message(), "invalid or expired confirmation token");
    assert_eq!(AppError::ConfirmationRequired.message(), "confirmation required");
    assert_eq!(AppError::Storage("x".into()).message(), "storage error: x");
    assert_eq!(AppError::Keyring("k".into()).message(), "keyring error: k");
    assert_eq!(AppError::BadInput("b".into()).message(), "invalid input: b");
    assert_eq!(AppError::KubeconfigRejected("r".into()).message(), "kubeconfig import rejected: r");
    assert_eq!(AppError::Kube("e".into()).message(), "kubernetes error: e");
    assert_eq!(AppError::Forbidden("f".into()).message(), "forbidden command: f");
    assert_eq!(AppError::Parse("p".into()).message(), "parse error: p");
}

#[test]
fn scrub_redacts_token_like_words() {
    assert_eq!(
        scrub("unauthorized  bearer eyJhbGciOiJSUzI1NiIsImtpZCI6Ik.x_y-z\n end"),
        "unauthorized bearer [redacted] end"
    );
    // exactly 24 characters is kept, and anything with other characters too
    assert_eq!(scrub("abcdefghijklmnopqrstuvwx"), "abcdefghijklmnopqrstuvwx");
    assert_eq!(scrub("https://example.test/api?token=abcdefghijklmnopqrstuvwxyz"), "https://example.test/api?token=abcdefghijklmnopqrstuvwxyz");
    assert_eq!(scrub(""), "");
    assert!(matches!(
        AppError::from_kube_message("401 abcdefghijklmnopqrstuvwxyz0123"),
        AppError::Kube(m) if m == "401 [redacted]"
    ));
    assert!(matches!(AppError::from_json_message("eof"), AppError::Storage(m) if m == "json: eof"));
    assert!(matches!(AppError::from_yaml_message("bad"), AppError::KubeconfigRejected(m) if m == "yaml: bad"));
}

#[test]
fn words_and_numbers() {
    let ws = split_words(&"  a\tbc \u{3000}d ".chars().collect::<Vec<char>>());
    let ws: Vec<String> = ws.iter().map(|w| w.iter().collect()).collect();
    assert_eq!(ws, vec!["a", "bc", "d"]);
    let c = |s: &str| s.chars().collect::<Vec<char>>();
    assert_eq!(parse_i64(&c("-9223372036854775808")), Some(i64::MIN));
    assert_eq!(parse_i64(&c("9223372036854775808")), None);
    assert_eq!(parse_i64(&c("+12")), Some(12));
    assert_eq!(parse_i64(&c("-")), None);
    assert_eq!(parse_i64(&c("1_0")), None);
    assert_eq!(parse_i32(&c("2147483647")), Some(i32::MAX));
    assert_eq!(parse_i32(&c("2147483648")), None);
    assert_eq!(int_to_string(-42), "-42");
    assert_eq!(int_to_string(i64::MIN), "-9223372036854775808");
}

#[test]
fn more_error_texts() {
    assert!(matches!(
        AppError::from_kubeconfig_yaml_message("eof"),
        AppError::KubeconfigRejected(m) if m == "invalid yaml: eof"
    ));
    assert!(matches!(
        AppError::kube_failure("failed to open browser", "no display"),
        AppError::Kube(m) if m == "failed to open browser: no display"
    ));
}

#[test]
fn scrub_twice_is_scrub_once() {
    let s = "error  token eyJhbGciOiJSUzI1NiIsImtpZCI6Ik \t for  [redacted] user";
    let once = scrub(s);
    assert_eq!(once, "error token [redacted] for [redacted] user");
    assert_eq!(scrub(&once), once);
}

#[test]
fn trims_whitespace_at_both_ends() {
    assert_eq!(trim("  key\n"), "key");
    assert_eq!(trim("\t a b \r\n"), "a b");
    assert_eq!(trim("   "), "");
    assert_eq!(trim(""), "");
    assert_eq!(trim("x"), "x");
}
