use dredger::envfile::{check_env_content, updated_env_content};
use dredger::errors::{DredgerError, TokenizerError};
use dredger::remote::validation_outcome;
use dredger::text::{str_contains, u64_to_dec};

#[test]
fn env_check_missing_file() {
    assert_eq!(check_env_content(None), Err("Missing .env file"));
}

#[test]
fn env_check_missing_token() {
    assert_eq!(
        check_env_content(Some("OTHER=1\n")),
        Err("Missing GITHUB_PAT in .env file")
    );
}

#[test]
fn env_check_with_token() {
    assert_eq!(check_env_content(Some("GITHUB_PAT=abc\n")), Ok(()));
}

#[test]
fn env_update_replaces_existing_token_line() {
    let updated = updated_env_content("A=1\nGITHUB_PAT=old\nB=2", "new");
    assert_eq!(updated, "A=1\nGITHUB_PAT=new\nB=2");
}

#[test]
fn env_update_appends_to_existing_content() {
    assert_eq!(updated_env_content("A=1", "tok"), "A=1\nGITHUB_PAT=tok\n");
}

#[test]
fn env_update_fills_empty_file() {
    assert_eq!(updated_env_content("", "tok"), "GITHUB_PAT=tok\n");
}

#[test]
fn validation_accepts_success_statuses() {
    assert!(validation_outcome(200, "{\"login\": \"someone\"}").is_ok());
    assert!(validation_outcome(299, "").is_ok());
}

#[test]
fn validation_rejects_unauthorized() {
    let err = validation_outcome(401, "bad credentials").unwrap_err();
    assert_eq!(
        err,
        DredgerError::GithubClientError(
            "Request failed with status 401: bad credentials".to_string()
        )
    );
}

#[test]
fn validation_rejects_server_errors() {
    assert!(validation_outcome(500, "").is_err());
    assert!(validation_outcome(199, "").is_err());
}

#[test]
fn error_messages_render() {
    assert_eq!(
        TokenizerError::FileNotFound("p.json".to_string()).message(),
        "Tokenizer file not found: p.json"
    );
    assert_eq!(
        DredgerError::TokenizerError(TokenizerError::LoadError("bad".to_string())).message(),
        "Tokenizer Error: Failed to load tokenizer: bad"
    );
    assert_eq!(
        DredgerError::OllamaClientError("down".to_string()).message(),
        "Ollama Client Error: down"
    );
    assert_eq!(
        DredgerError::OtherError("x".to_string()).message(),
        "Other Error: x"
    );
}

#[test]
fn substring_search_finds_pattern() {
    assert!(str_contains("abcGITHUB_PAT=1", "GITHUB_PAT="));
    assert!(!str_contains("abc", "GITHUB_PAT="));
    assert!(str_contains("anything", ""));
}

#[test]
fn decimal_rendering() {
    assert_eq!(u64_to_dec(0), "0");
    assert_eq!(u64_to_dec(407), "407");
    assert_eq!(u64_to_dec(18446744073709551615), "18446744073709551615");
}
