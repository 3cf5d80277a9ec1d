use kaku::codex_connection::{
    checked_retries, checked_retry_attempts, codex_login, required_env, resolve_codex_connection,
    CodexAuth, CodexConnection, CodexCredential, CodexError, CodexLogin, Environment,
};
use kaku::json::parse_json;
use kaku::web::Pair;

fn api_key_auth() -> CodexLogin {
    codex_login(
        &parse_json("{\"auth_mode\":\"apikey\",\"OPENAI_API_KEY\":\"sk-test\"}").unwrap(),
        None,
    )
}

fn chatgpt_auth() -> CodexLogin {
    codex_login(
        &parse_json(
            "{\"auth_mode\":\"chatgpt\",\"tokens\":{\"access_token\":\"oauth-test\",\"account_id\":\"account-test\"}}",
        )
        .unwrap(),
        Some(CodexAuth {
            access_token: "oauth-test".to_string(),
            account_id: Some("account-test".to_string()),
        }),
    )
}

fn no_env() -> Environment {
    Environment { vars: vec![] }
}

fn failure(raw: &str) -> CodexError {
    match resolve_codex_connection(raw, None, &no_env()) {
        Err(e) => e,
        Ok(_) => panic!("must fail"),
    }
}

fn provider(extra: &str) -> String {
    format!(
        "model_provider = \"p\"\n[model_providers.p]\nbase_url = \"https://example.com/v1\"\nwire_api = \"responses\"\n{}",
        extra
    )
}

#[test]
fn builtin_openai_uses_api_key_login_and_responses() {
    let auth = api_key_auth();
    let connection = resolve_codex_connection("model = \"gpt-test\"", Some(&auth), &no_env())
        .expect("resolve built-in OpenAI");
    assert_eq!(connection.model.as_deref(), Some("gpt-test"));
    assert_eq!(connection.endpoint(), "https://api.openai.com/v1/responses");
    assert!(matches!(connection.credential, CodexCredential::Bearer(_)));
}

#[test]
fn builtin_chatgpt_uses_codex_backend_and_honors_override() {
    let auth = chatgpt_auth();
    let connection = resolve_codex_connection(
        "chatgpt_base_url = \"https://proxy.example.com/backend-api/\"",
        Some(&auth),
        &no_env(),
    )
    .expect("resolve ChatGPT Codex");
    assert_eq!(
        connection.endpoint(),
        "https://proxy.example.com/backend-api/codex/responses"
    );
    match connection.credential {
        CodexCredential::ChatGpt(auth) => {
            assert_eq!(auth.access_token, "oauth-test");
            assert_eq!(auth.account_id.as_deref(), Some("account-test"));
        }
        _ => panic!("expected ChatGPT credential"),
    }
}

#[test]
fn custom_provider_preserves_connection_fields_without_openai_auth() {
    let auth = api_key_auth();
    let raw = r#"
model = "gpt-custom"
model_provider = "local"

[model_providers.local]
base_url = "http://localhost:58424/v1"
wire_api = "responses"
requires_openai_auth = false
query_params = { tenant = "kaku" }
http_headers = { x-static = "yes" }
env_http_headers = { x-secret = "SECRET_HEADER" }
request_max_retries = 4
stream_max_retries = 2
stream_idle_timeout_ms = 30000
"#;
    let env = Environment {
        vars: vec![Pair {
            name: "SECRET_HEADER".to_string(),
            value: "secret-value".to_string(),
        }],
    };
    let connection =
        resolve_codex_connection(raw, Some(&auth), &env).expect("resolve custom provider");
    assert_eq!(connection.endpoint(), "http://localhost:58424/v1/responses");
    assert!(matches!(connection.credential, CodexCredential::Anonymous));
    assert_eq!(connection.request_max_attempts, 5);
    assert_eq!(connection.stream_max_retries, 2);
    assert_eq!(connection.stream_idle_timeout_ms, Some(30_000));
    assert!(connection
        .headers
        .iter()
        .any(|h| h.name == "x-secret" && h.value == "secret-value"));
    assert_eq!(connection.query_params.len(), 1);
    assert_eq!(connection.query_params[0].name, "tenant");
    assert_eq!(connection.query_params[0].value, "kaku");
    assert!(connection.models_endpoint().starts_with("http://localhost:58424/v1"));
}

#[test]
fn missing_provider_environment_fails_closed_without_secret_value() {
    let raw = r#"
model_provider = "custom"
[model_providers.custom]
base_url = "https://example.com/v1"
wire_api = "responses"
env_key = "MISSING_KEY"
"#;
    let error = failure(raw).message();
    assert!(error.contains("MISSING_KEY"));
    assert!(!error.contains("Bearer"));
}

#[test]
fn unsupported_auth_field_fails_before_request() {
    let raw = r#"
model_provider = "aws"
[model_providers.aws]
base_url = "https://bedrock.example.com/v1"
wire_api = "responses"
aws = { region = "us-east-1" }
"#;
    let error = failure(raw).message();
    assert!(error.contains("unsupported authentication field `aws`"));
}

#[test]
fn non_responses_provider_fails_closed() {
    let raw = r#"
model_provider = "legacy"
[model_providers.legacy]
base_url = "https://example.com/v1"
wire_api = "chat"
"#;
    let error = failure(raw).message();
    assert!(error.contains("unsupported wire_api `chat`"));
}

#[test]
fn unusable_configurations_are_refused_for_a_reason() {
    assert!(matches!(failure("model ="), CodexError::ConfigUnreadable));
    assert!(matches!(failure("model = 3"), CodexError::NotText(_)));
    assert!(matches!(failure("model_provider = \"x\""), CodexError::NoProviderTable(_)));
    assert!(matches!(failure(""), CodexError::NotLoggedIn));
    assert!(matches!(
        failure(&provider("requires_openai_auth = true")),
        CodexError::ProviderNeedsLogin
    ));
    assert!(matches!(
        failure(&provider("requires_openai_auth = 3")),
        CodexError::NotBoolean(_)
    ));
    assert!(matches!(
        failure(&provider("http_headers = 3")),
        CodexError::NotTable(_)
    ));
    assert!(matches!(
        failure(&provider("http_headers = { a = 3 }")),
        CodexError::EntryNotText { .. }
    ));
    assert!(matches!(
        failure(&provider("request_max_retries = -1")),
        CodexError::NotUnsigned(_)
    ));
    assert!(matches!(
        failure(&provider("request_max_retries = 11")),
        CodexError::TooManyRetries { .. }
    ));
    assert!(matches!(
        failure(
            "model_provider = \"p\"\n[model_providers.p]\nwire_api = \"responses\"\n"
        ),
        CodexError::MissingField { .. }
    ));
    assert!(matches!(
        failure(
            "model_provider = \"p\"\n[model_providers.p]\nbase_url = \"ftp://x\"\nwire_api = \"responses\"\n"
        ),
        CodexError::NotHttpBaseUrl(_)
    ));
}

#[test]
fn logins_are_refused_for_a_reason() {
    let login = |mode: &str| CodexLogin {
        auth_mode: Some(mode.to_string()),
        api_key: None,
        chatgpt: None,
    };
    let refuse = |login: &CodexLogin| match resolve_codex_connection("", Some(login), &no_env()) {
        Err(e) => e,
        Ok(_) => panic!("must fail"),
    };
    assert!(matches!(refuse(&login("apikey")), CodexError::NoApiKey));
    assert!(matches!(refuse(&login("chatgpt")), CodexError::ChatGptIncomplete));
    assert!(matches!(refuse(&login("odd")), CodexError::UnsupportedAuthMode(_)));
}

#[test]
fn retries_are_bounded() {
    assert_eq!(checked_retries(10, "p").ok(), Some(10));
    assert!(checked_retries(11, "p").is_err());
    assert_eq!(checked_retry_attempts(10, "p").ok(), Some(11));
    assert!(matches!(
        required_env(&no_env(), "K", "p"),
        Err(CodexError::MissingEnvironment { .. })
    ));
}

#[test]
fn headers_stand_sorted_by_name() {
    let raw = provider("http_headers = { b = \"1\", a = \"2\", B = \"3\" }\nenv_http_headers = { aa = \"V\", b = \"V\" }");
    let env = Environment {
        vars: vec![Pair {
            name: "V".to_string(),
            value: "v".to_string(),
        }],
    };
    let connection = resolve_codex_connection(&raw, None, &env).unwrap();
    let headers: Vec<(&str, &str)> = connection
        .headers
        .iter()
        .map(|h| (h.name.as_str(), h.value.as_str()))
        .collect();
    assert_eq!(headers, vec![("B", "3"), ("a", "2"), ("aa", "v"), ("b", "v")]);
}

#[test]
fn configured_models_are_read() {
    let connection: CodexConnection =
        resolve_codex_connection("model = \" gpt \"", Some(&api_key_auth()), &no_env()).unwrap();
    assert!(connection.configured_model().is_some());
}
