use base64::engine::general_purpose::URL_SAFE_NO_PAD;
use base64::Engine;
use jose::account::{tokens_from_response, AuthData, Config, PkceCodes, TokenError, Tokens};
use jose::command::{chat_prompt, command_prompt, conversation, parse_reply};
use jose::jwt::{jwt_payload, parse_jwt_claims};
use jose::log::{colorize, tagged, CYAN, GREEN};
use jose::oauth::{build_auth_url, exchange_body, redirect_uri, state_token, success_uri};
use jose::shell::{detect_shell, os_name, Platform, ShellEnv, ShellType, TargetOs};
use jose::state::session_id;
use jose::stream::{read_line, trim, SseLine};

fn env(shell: Option<&str>, parent: Option<&str>, powershell: bool, comspec: Option<&str>) -> ShellEnv {
    ShellEnv {
        shell: shell.map(str::to_string),
        parent: parent.map(str::to_string),
        powershell,
        comspec: comspec.map(str::to_string),
    }
}

fn token_with(claims: &str) -> String {
    format!("header.{}.signature", URL_SAFE_NO_PAD.encode(claims))
}

#[test]
fn session_ids_are_formatted_in_decimal() {
    assert_eq!(session_id(42, 1700000000000), "jose-42-1700000000000");
    assert_eq!(session_id(0, 0), "jose-0-0");
    assert_eq!(session_id(u32::MAX, u64::MAX), format!("jose-{}-{}", u32::MAX, u64::MAX));
}

#[test]
fn shell_names() {
    assert_eq!(ShellType::Bash.name(), "Bash");
    assert_eq!(ShellType::Zsh.name(), "Zsh");
    assert_eq!(ShellType::Fish.name(), "Fish");
    assert_eq!(ShellType::PowerShell.name(), "PowerShell");
    assert_eq!(ShellType::Cmd.name(), "CMD");
    assert_eq!(ShellType::Sh.name(), "sh");
    assert_eq!(ShellType::Unknown.name(), "shell");
    assert_eq!(os_name(TargetOs::MacOs), "macOS");
    assert_eq!(os_name(TargetOs::Linux), "Linux");
    assert_eq!(os_name(TargetOs::Windows), "Windows");
    assert_eq!(os_name(TargetOs::Other), "Unix");
}

#[test]
fn unix_shell_detection() {
    let unix = |shell, parent| detect_shell(Platform::Unix, &env(shell, parent, false, None));
    assert_eq!(unix(Some("/bin/zsh"), None), ShellType::Zsh);
    assert_eq!(unix(Some("/usr/bin/BASH"), None), ShellType::Bash);
    assert_eq!(unix(Some("/usr/local/bin/fish"), None), ShellType::Fish);
    assert_eq!(unix(Some("/bin/sh"), None), ShellType::Sh);
    assert_eq!(unix(Some("/bin/tcsh"), None), ShellType::Unknown);
    assert_eq!(unix(Some("/bin/tcsh"), Some("fish\n")), ShellType::Fish);
    assert_eq!(unix(None, Some("bash")), ShellType::Bash);
    assert_eq!(unix(Some("/bin/zsh"), Some("bash")), ShellType::Zsh);
    assert_eq!(unix(Some("/opt/bash-or-zsh"), None), ShellType::Zsh);
    assert_eq!(unix(None, None), ShellType::Unknown);
    assert_eq!(unix(Some(""), None), ShellType::Unknown);
}

#[test]
fn windows_shell_detection() {
    let win = |ps, comspec, shell| detect_shell(Platform::Windows, &env(shell, None, ps, comspec));
    assert_eq!(win(true, Some("C:\\Windows\\System32\\cmd.exe"), None), ShellType::PowerShell);
    assert_eq!(win(false, Some("C:\\Windows\\System32\\CMD.EXE"), None), ShellType::Cmd);
    assert_eq!(win(false, Some("C:\\other.exe"), Some("/usr/bin/bash")), ShellType::Bash);
    assert_eq!(win(false, None, Some("/usr/bin/zsh")), ShellType::Zsh);
    assert_eq!(win(false, None, Some("/usr/bin/fish")), ShellType::Cmd);
    assert_eq!(win(false, None, None), ShellType::Cmd);
    assert_eq!(
        detect_shell(Platform::Other, &env(Some("/bin/zsh"), None, true, None)),
        ShellType::Unknown
    );
}

#[test]
fn reply_is_read_as_command_and_alternatives() {
    let reply = parse_reply("ls -la\n\ngrep x\r\n  \nfind .").unwrap();
    assert_eq!(reply.command, "ls -la");
    assert_eq!(reply.alternatives, vec!["grep x", "find ."]);
    let one = parse_reply("one").unwrap();
    assert_eq!(one.command, "one");
    assert!(one.alternatives.is_empty());
    let ended = parse_reply("one\n").unwrap();
    assert_eq!(ended.command, "one");
    assert!(ended.alternatives.is_empty());
    let late = parse_reply("\nfoo").unwrap();
    assert_eq!(late.command, "");
    assert_eq!(late.alternatives, vec!["foo"]);
    let bare = parse_reply("a\r").unwrap();
    assert_eq!(bare.command, "a\r");
    let only = parse_reply("\n").unwrap();
    assert_eq!(only.command, "");
    assert!(only.alternatives.is_empty());
    assert!(parse_reply("").is_none());
}

#[test]
fn reply_lines_agree_with_std() {
    for text in ["a\nb", "a\r\nb\r\n", "a\n\n\nb\n", "x\ry\n z \n", "\r\n", "tail\r"] {
        let reply = parse_reply(text).unwrap();
        let lines: Vec<&str> = text.lines().collect();
        assert_eq!(reply.command, *lines.first().unwrap_or(&""));
        let rest: Vec<&str> =
            lines.iter().skip(1).filter(|l| !l.trim().is_empty()).copied().collect();
        assert_eq!(reply.alternatives, rest);
    }
}

#[test]
fn messages_are_coloured_when_enabled() {
    assert_eq!(colorize("x", GREEN, true), "\u{1b}[32mx\u{1b}[0m");
    assert_eq!(colorize("x", GREEN, false), "x");
    assert_eq!(tagged("[*]", CYAN, "msg", false), "[*] msg");
    assert_eq!(tagged("[*]", CYAN, "msg", true), "\u{1b}[36m[*]\u{1b}[0m msg");
}

#[test]
fn prompts() {
    assert_eq!(
        command_prompt("Linux", ShellType::Bash),
        "You are an expert shell command generator for Linux using Bash.\nRespond with ONLY the exact shell command. No explanation. No markdown. No backticks.\nIf there are alternatives, put them on separate lines."
    );
    assert!(chat_prompt().starts_with("You are Jose, a helpful technical assistant"));
    assert!(chat_prompt().ends_with("explanations by default."));
    let history = vec![
        ("user".to_string(), "hi".to_string()),
        ("assistant".to_string(), "hello".to_string()),
    ];
    let turns = conversation("next", &history);
    assert_eq!(turns.len(), 3);
    assert_eq!(turns[..2], history[..]);
    assert_eq!(turns[2], ("user".to_string(), "next".to_string()));
}

#[test]
fn auth_url_escapes_its_values() {
    let pkce = PkceCodes { code_verifier: "v".to_string(), code_challenge: "abc-_~".to_string() };
    assert_eq!(
        build_auth_url(&pkce, "s t/1é"),
        "https://auth.openai.com/oauth/authorize?response_type=code&client_id=app_EMoamEEZ73f0CkXaXp7hrann&redirect_uri=http%3A%2F%2Flocalhost%3A1455%2Fauth%2Fcallback&scope=openid%20profile%20email%20offline_access&code_challenge=abc-_~&code_challenge_method=S256&id_token_add_organizations=true&codex_cli_simplified_flow=true&state=s%20t%2F1%C3%A9"
    );
    assert_eq!(redirect_uri(), "http://localhost:1455/auth/callback");
    assert_eq!(success_uri(), "http://localhost:1455/success");
    assert_eq!(
        exchange_body("c+d", &pkce),
        "grant_type=authorization_code&code=c%2Bd&redirect_uri=http%3A%2F%2Flocalhost%3A1455%2Fauth%2Fcallback&client_id=app_EMoamEEZ73f0CkXaXp7hrann&code_verifier=v"
    );
}

#[test]
fn pkce_challenge_is_the_hash_of_the_verifier() {
    let codes = PkceCodes::from_verifier("dBjftJeZ4CVP-mB92K27uhbUJU1p1r_wW1gFWFOEjXk".to_string());
    assert_eq!(codes.code_verifier, "dBjftJeZ4CVP-mB92K27uhbUJU1p1r_wW1gFWFOEjXk");
    assert_eq!(codes.code_challenge, "E9Melhoa2OwvFrEMTJguCHaoeK1t8URWbuGJSstw-cM");
}

#[test]
fn generated_codes_are_random_letters_and_digits() {
    let codes = PkceCodes::generate();
    assert_eq!(codes.code_verifier.chars().count(), 128);
    assert!(codes.code_verifier.chars().all(|c| c.is_ascii_alphanumeric()));
    assert_eq!(codes.code_challenge.len(), 43);
    let again = PkceCodes::from_verifier(codes.code_verifier.clone());
    assert_eq!(again.code_challenge, codes.code_challenge);
    let state = state_token();
    assert_eq!(state.chars().count(), 64);
    assert!(state.chars().all(|c| c.is_ascii_alphanumeric()));
}

#[test]
fn jwt_payload_needs_three_parts() {
    assert_eq!(jwt_payload("a.b.c"), Some("b".to_string()));
    assert_eq!(jwt_payload("a..c"), Some(String::new()));
    assert_eq!(jwt_payload(".."), Some(String::new()));
    assert_eq!(jwt_payload("a.b"), None);
    assert_eq!(jwt_payload("a.b.c.d"), None);
    assert_eq!(jwt_payload("abc"), None);
    assert_eq!(jwt_payload(""), None);
}

#[test]
fn jwt_claims_are_read_from_the_payload() {
    let token = token_with(
        "{\"exp\":1700000000,\"https://api.openai.com/auth\":{\"chatgpt_account_id\":\"acct_1\"}}",
    );
    let claims = parse_jwt_claims(&token).unwrap();
    assert_eq!(claims.exp, Some(1700000000));
    assert_eq!(claims.account_id, Some("acct_1".to_string()));
    let bare = parse_jwt_claims(&token_with("{\"exp\":\"soon\"}")).unwrap();
    assert_eq!(bare.exp, None);
    assert_eq!(bare.account_id, None);
    assert!(parse_jwt_claims(&token_with("[1,2]")).is_some());
    assert!(parse_jwt_claims(&token_with("not json")).is_none());
    assert!(parse_jwt_claims("a.!!!.c").is_none());
    assert!(parse_jwt_claims("a.b").is_none());
    assert!(parse_jwt_claims(&format!("{}.x", token)).is_none());
}

fn auth_with(access_token: String) -> AuthData {
    AuthData {
        tokens: Tokens {
            id_token: String::new(),
            access_token,
            refresh_token: String::new(),
            account_id: String::new(),
        },
        last_refresh: String::new(),
    }
}

#[test]
fn refresh_is_due_five_minutes_before_expiry() {
    let auth = auth_with(token_with("{\"exp\":1000}"));
    assert!(!auth.needs_refresh(699));
    assert!(auth.needs_refresh(700));
    assert!(auth.needs_refresh(5000));
    assert!(auth.needs_refresh(i64::MAX));
    assert!(auth_with(token_with("{}")).needs_refresh(0));
    assert!(auth_with("garbage".to_string()).needs_refresh(0));
}

#[test]
fn default_model() {
    assert_eq!(Config::default().default_model, "gpt-5-codex");
}

#[test]
fn tokens_are_read_from_a_response() {
    let id = token_with("{\"https://api.openai.com/auth\":{\"chatgpt_account_id\":\"acct_9\"}}");
    let body = format!(
        "{{\"id_token\":\"{}\",\"access_token\":\"acc\",\"refresh_token\":\"ref\"}}",
        id
    );
    let tokens = tokens_from_response(body.as_bytes(), None).unwrap();
    assert_eq!(tokens.id_token, id);
    assert_eq!(tokens.access_token, "acc");
    assert_eq!(tokens.refresh_token, "ref");
    assert_eq!(tokens.account_id, "acct_9");
    let kept = tokens_from_response(b"{\"id_token\":\"i\",\"access_token\":\"a\"}", Some("old"))
        .unwrap();
    assert_eq!(kept.refresh_token, "old");
    assert_eq!(kept.account_id, "");
    let fresh = tokens_from_response(body.as_bytes(), Some("old")).unwrap();
    assert_eq!(fresh.refresh_token, "ref");
}

#[test]
fn faulty_token_responses() {
    let fault = |body: &str, previous| tokens_from_response(body.as_bytes(), previous).err();
    assert_eq!(fault("nonsense", None), Some(TokenError::NotJson));
    assert_eq!(fault("{}", None), Some(TokenError::MissingIdToken));
    assert_eq!(fault("[]", None), Some(TokenError::MissingIdToken));
    assert_eq!(fault("{\"id_token\":5,\"access_token\":\"a\"}", None), Some(TokenError::MissingIdToken));
    assert_eq!(fault("{\"id_token\":\"i\"}", None), Some(TokenError::MissingAccessToken));
    assert_eq!(
        fault("{\"id_token\":\"i\",\"access_token\":\"a\"}", None),
        Some(TokenError::MissingRefreshToken)
    );
    assert_eq!(TokenError::MissingIdToken.message(), "Missing id_token");
    assert_eq!(TokenError::MissingAccessToken.message(), "Missing access_token");
    assert_eq!(TokenError::MissingRefreshToken.message(), "Missing refresh_token");
}

fn delta(line: &str) -> Option<String> {
    match read_line(line) {
        SseLine::Delta(t) => Some(t),
        _ => None,
    }
}

#[test]
fn stream_lines() {
    assert!(matches!(read_line("data: [DONE]"), SseLine::Done));
    assert!(matches!(read_line(""), SseLine::Skip));
    assert!(matches!(read_line(": keep-alive"), SseLine::Skip));
    assert!(matches!(read_line("data:[DONE]"), SseLine::Skip));
    assert!(matches!(read_line("data: not json"), SseLine::Skip));
    assert!(matches!(read_line("data: {\"type\":\"other\"}"), SseLine::Skip));
    assert_eq!(
        delta("data: {\"type\":\"response.output_text.delta\",\"delta\":\"Hi é\"}"),
        Some("Hi é".to_string())
    );
    assert_eq!(delta("data: {\"delta\":{\"text\":\"yo\"}}"), Some("yo".to_string()));
    assert_eq!(delta("data: {\"delta\":\"plain\"}"), Some("plain".to_string()));
    assert_eq!(
        delta("data: {\"type\":\"response.output_text.delta\",\"delta\":{\"text\":\"x\"}}"),
        None
    );
    assert_eq!(delta("data: {\"type\":\"x\",\"delta\":{\"text\":\"t\"}}"), Some("t".to_string()));
}

#[test]
fn trimming() {
    assert_eq!(trim("  a b \n"), "a b");
    assert_eq!(trim(""), "");
    assert_eq!(trim(" \t\n"), "");
    assert_eq!(trim("x"), "x");
    assert_eq!(trim("\u{a0}é \u{2003}"), "é");
}
