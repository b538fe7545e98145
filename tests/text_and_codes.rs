use forum_core::activation::{hash_code, ActivationStore};
use forum_core::credentials::{hash_password, verify_password, PasswordError};
use forum_core::errors::{CustomAppError, ErrorContext};
use forum_core::render::{convert_markdown_to_html, slugify};
use forum_core::routes::parse_tag_ids;
use forum_core::session::{compute_expiry, SessionStore};
use forum_core::settings::{minutes_to_seconds, Environment, Secret};
use forum_core::startup::Application;
use forum_core::responses::SuccessResponse;
use forum_core::text::{
    constant_time_eq, dedup_keep_first, join_words_lowercase, split_at_commas, to_decimal,
    to_hex_lower, trim_whitespace,
};
use sha2::Digest;

fn strings(v: &[&str]) -> Vec<String> {
    v.iter().map(|s| s.to_string()).collect()
}

#[test]
fn slug_drops_punctuation_and_joins_words() {
    assert_eq!(slugify("Hello, World!"), "hello-world");
    assert_eq!(slugify("  Rust   is  FUN  "), "rust-is-fun");
    assert_eq!(slugify("C++ & Rust?"), "c-rust");
    assert_eq!(slugify("Why?"), "why");
    assert_eq!(slugify(""), "");
    assert_eq!(slugify("!!!"), "");
}

#[test]
fn slug_is_deterministic() {
    let title = "What is a Lifetime-Bound, really?";
    assert_eq!(slugify(title), slugify(title));
    assert_eq!(slugify(title), "what-is-a-lifetimebound-really");
}

#[test]
fn words_are_joined_without_touching_punctuation() {
    assert_eq!(join_words_lowercase(" A\tb\nC "), "a-b-c");
    assert_eq!(join_words_lowercase("x.y"), "x.y");
}

#[test]
fn markdown_is_rendered() {
    assert_eq!(convert_markdown_to_html("# Hi"), "<h1>Hi</h1>\n");
    assert_eq!(convert_markdown_to_html("Because."), "<p>Because.</p>\n");
}

#[test]
fn hex_and_decimal_encodings() {
    assert_eq!(to_hex_lower(&[0x00, 0xab, 0x10, 0xff]), "00ab10ff");
    assert_eq!(to_hex_lower(&[]), "");
    assert_eq!(to_decimal(0), "0");
    assert_eq!(to_decimal(482913), "482913");
    assert_eq!(to_decimal(u32::MAX), "4294967295");
}

#[test]
fn code_hash_is_sha256_hex() {
    let expected = format!("{:x}", sha2::Sha256::digest(b"482913"));
    assert_eq!(hash_code("482913"), expected);
    assert_eq!(hash_code("482913").len(), 64);
    assert_ne!(hash_code("482913"), hash_code("482914"));
}

#[test]
fn constant_time_comparison() {
    assert!(constant_time_eq("abc", "abc"));
    assert!(!constant_time_eq("abc", "abd"));
    assert!(!constant_time_eq("abc", "ab"));
    assert!(constant_time_eq("", ""));
}

#[test]
fn trimming_and_splitting() {
    assert_eq!(trim_whitespace("  a b \t"), "a b");
    assert_eq!(trim_whitespace("\u{3000}x\u{A0}"), "x");
    assert_eq!(trim_whitespace("   "), "");
    assert_eq!(split_at_commas("a,,b"), strings(&["a", "", "b"]));
    assert_eq!(split_at_commas(""), strings(&[""]));
    assert_eq!(split_at_commas("rust, web"), strings(&["rust", " web"]));
}

#[test]
fn dedup_keeps_first_occurrence() {
    assert_eq!(dedup_keep_first(strings(&["a", "a", "b"])), strings(&["a", "b"]));
    assert_eq!(dedup_keep_first(strings(&["b", "a", "b", "a"])), strings(&["b", "a"]));
    assert_eq!(dedup_keep_first(Vec::new()), Vec::<String>::new());
}

#[test]
fn tag_text_is_normalised() {
    assert_eq!(parse_tag_ids("rust, web"), Ok(strings(&["rust", "web"])));
    assert_eq!(parse_tag_ids("a,a,b"), Ok(strings(&["a", "b"])));
    assert_eq!(parse_tag_ids(" a , b ,c,d"), Ok(strings(&["a", "b", "c", "d"])));
}

#[test]
fn empty_tag_pieces_are_malformed() {
    assert_eq!(parse_tag_ids("a,,b"), Err(CustomAppError::InvalidInput));
    assert_eq!(parse_tag_ids("rust,"), Err(CustomAppError::InvalidInput));
    assert_eq!(parse_tag_ids(" , "), Err(CustomAppError::InvalidInput));
}

#[test]
fn slugs_have_no_stray_hyphens() {
    assert_eq!(slugify("a - b"), "a-b");
    assert_eq!(slugify("--x--"), "x");
    assert_eq!(slugify(" -- Rust -- 2024 -- "), "rust-2024");
}

#[test]
fn five_tags_are_too_many() {
    assert_eq!(parse_tag_ids("a,b,c,d,e"), Err(CustomAppError::InvalidInput));
    assert_eq!(parse_tag_ids("a,a,b,c,d"), Err(CustomAppError::InvalidInput));
}

#[test]
fn status_codes_follow_the_category() {
    assert_eq!(CustomAppError::Unauthenticated.status_code(), 401);
    assert_eq!(CustomAppError::UnauthorizedOrNotFound.status_code(), 404);
    assert_eq!(CustomAppError::InvalidInput.status_code(), 400);
    assert_eq!(CustomAppError::InvalidTag.status_code(), 404);
    assert_eq!(CustomAppError::InvalidOrExpired.status_code(), 400);
    assert_eq!(CustomAppError::Conflict.status_code(), 400);
    assert_eq!(CustomAppError::InternalError.status_code(), 500);
    assert_eq!(
        CustomAppError::from_context(ErrorContext::UnauthorizedAccess),
        CustomAppError::Unauthenticated
    );
    assert_eq!(
        CustomAppError::from_context(ErrorContext::InternalServerError),
        CustomAppError::InternalError
    );
    assert_eq!(CustomAppError::from_context(ErrorContext::BadRequest), CustomAppError::InvalidInput);
    assert_eq!(
        CustomAppError::from_context(ErrorContext::NotFound),
        CustomAppError::UnauthorizedOrNotFound
    );
}

#[test]
fn session_round_trip_and_revocation() {
    let mut store = SessionStore::new();
    let token = store.create_session(7, 600, 1000).unwrap();
    assert_eq!(store.resolve_session(token, 1000), Ok(7));
    assert_eq!(store.resolve_session(token, 1599), Ok(7));
    store.revoke_session(token);
    assert_eq!(store.resolve_session(token, 1000), Err(CustomAppError::Unauthenticated));
    store.revoke_session(token);
}

#[test]
fn sessions_expire_and_unknown_tokens_fail() {
    let mut store = SessionStore::new();
    assert_eq!(store.create_session_with_token(42, 9, 60, 100), Ok(()));
    assert_eq!(store.resolve_session(42, 159), Ok(9));
    assert_eq!(store.resolve_session(42, 160), Err(CustomAppError::Unauthenticated));
    assert_eq!(store.resolve_session(43, 100), Err(CustomAppError::Unauthenticated));
    assert_eq!(
        store.create_session_with_token(42, 10, 60, 100),
        Err(CustomAppError::InternalError)
    );
    assert_eq!(store.resolve_session(42, 100), Ok(9));
}

#[test]
fn random_session_tokens_are_version_four() {
    let mut store = SessionStore::new();
    let a = store.create_session(1, 60, 0).unwrap();
    let b = store.create_session(1, 60, 0).unwrap();
    assert_ne!(a, b);
    assert_eq!(a & 0xF000C000000000000000u128, 0x40008000000000000000u128);
    assert_eq!(store.resolve_session(a, 0), Ok(1));
    assert_eq!(store.resolve_session(b, 0), Ok(1));
}

#[test]
fn expiry_saturates() {
    assert_eq!(compute_expiry(10, 5), 15);
    assert_eq!(compute_expiry(u64::MAX - 1, 5), u64::MAX);
}

#[test]
fn activation_code_is_single_use() {
    let mut codes = ActivationStore::new();
    let code = codes.issue_code(5, 382913, 600, 0);
    assert_eq!(code, "482913");
    assert_eq!(codes.consume(5, "482913", 10), Ok(()));
    assert_eq!(codes.consume(5, "482913", 10), Err(CustomAppError::InvalidOrExpired));
}

#[test]
fn activation_code_range() {
    let mut codes = ActivationStore::new();
    assert_eq!(codes.issue_code(1, 0, 60, 0), "100000");
    assert_eq!(codes.issue_code(2, 899999, 60, 0), "999999");
    assert_eq!(codes.issue_code(3, 900000, 60, 0), "100000");
    let random = codes.issue(4, 60, 0);
    assert_eq!(random.len(), 6);
    assert!(random.chars().all(|c| c.is_ascii_digit()));
    assert_eq!(codes.consume(4, &random, 1), Ok(()));
}

#[test]
fn wrong_or_expired_codes_are_refused() {
    let mut codes = ActivationStore::new();
    let code = codes.issue_code(5, 1, 60, 100);
    assert_eq!(code, "100001");
    assert_eq!(codes.consume(5, "100002", 110), Err(CustomAppError::InvalidOrExpired));
    assert_eq!(codes.consume(6, "100001", 110), Err(CustomAppError::InvalidOrExpired));
    assert_eq!(codes.consume(5, "100001", 160), Err(CustomAppError::InvalidOrExpired));
    assert_eq!(codes.consume(5, "100001", 159), Ok(()));
}

#[test]
fn reissuing_replaces_the_old_code() {
    let mut codes = ActivationStore::new();
    codes.issue_code(5, 1, 60, 0);
    codes.issue_code(5, 2, 60, 0);
    assert_eq!(codes.consume(5, "100001", 1), Err(CustomAppError::InvalidOrExpired));
    assert_eq!(codes.consume(5, "100002", 1), Ok(()));
}

#[test]
fn password_hash_verifies_only_its_password() {
    let stored = hash_password(b"correct horse").unwrap();
    assert!(stored.starts_with("$argon2id$"));
    assert_eq!(verify_password(&stored, b"correct horse"), Ok(()));
    assert_eq!(verify_password(&stored, b"correct horsf"), Err(PasswordError::Mismatch));
    assert_eq!(verify_password(&stored, b""), Err(PasswordError::Mismatch));
    let empty = hash_password(b"").unwrap();
    assert_eq!(verify_password(&empty, b""), Ok(()));
}

#[test]
fn malformed_hash_is_not_a_mismatch() {
    assert_eq!(verify_password("not a hash", b"pw"), Err(PasswordError::Malformed));
}

#[test]
fn lifetimes_in_seconds() {
    assert_eq!(minutes_to_seconds(15), Some(900));
    assert_eq!(minutes_to_seconds(0), Some(0));
    assert_eq!(minutes_to_seconds(-1), None);
    assert_eq!(minutes_to_seconds(i64::MAX), None);
    let secret = Secret { token_expiration: 15, cookie_expiration: 60 };
    assert_eq!(secret.activation_ttl_seconds(), Some(900));
    assert_eq!(secret.session_ttl_seconds(), Some(3600));
}

#[test]
fn environment_names() {
    assert_eq!(Environment::Development.as_str(), "development");
    assert_eq!(Environment::Production.as_str(), "production");
    assert_eq!(Environment::try_from("Production".to_string()), Ok(Environment::Production));
    assert_eq!(Environment::try_from("development".to_string()), Ok(Environment::Development));
    assert_eq!(
        Environment::try_from("Staging".to_string()),
        Err("staging is not a supported environment. Use either `development` or `production`."
            .to_string())
    );
}

#[test]
fn application_port_and_default_response() {
    assert_eq!(Application::new(5001).port(), 5001);
    let r = SuccessResponse::default();
    assert_eq!(r.message, "Success");
    assert_eq!(r.status_code, 200);
    assert_eq!(r.user_id, None);
}
