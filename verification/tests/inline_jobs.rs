use kaku::inline_ai::{
    admit_request, auth_is_configured, classify_config_load_error, completion_model, conclude,
    job_paths, parse_request, persist_outcome, plan_completion,
    plan_job, request_failed, ClaimError, CompletionConfig, CompletionError,
    CompletionOutcome, FileContent, FileWrite, InFlightJobs, RequestError, MAX_REQUEST_BYTES,
};
use kaku::inline_ai_control::{
    capability_file_text, capability_of, decode_control_value,
    decode_control_value_with_capability, encode_control_value, generate_capability,
    is_privileged_user_var, is_valid_capability, must_create_capability, read_capability_file,
    CapabilityError, CapabilityFile, CAPABILITY_BYTES,
};
use kaku::json::JsonValue;
use kaku::local_hostname::is_local_file_host;

fn text_of<'a>(writes: &'a Vec<FileWrite>, path: &str) -> Option<&'a str> {
    writes.iter().find(|w| w.path == path).map(|w| match &w.content {
        FileContent::Text(t) => t.as_str(),
        FileContent::Json(_) => panic!("expected text"),
    })
}

fn json_of<'a>(writes: &'a Vec<FileWrite>, path: &str) -> Option<&'a JsonValue> {
    writes.iter().find(|w| w.path == path).map(|w| match &w.content {
        FileContent::Json(v) => v,
        FileContent::Text(_) => panic!("expected JSON"),
    })
}

#[test]
fn auth_accepts_codex_without_api_key() {
    assert!(auth_is_configured("codex", ""));
    assert!(auth_is_configured("copilot", ""));
    assert!(auth_is_configured("api_key", "token"));
    assert!(!auth_is_configured("api_key", ""));
    assert!(!auth_is_configured("custom", ""));
}

#[test]
fn missing_config_file_is_not_reported_as_transport_failure() {
    assert!(matches!(
        classify_config_load_error(false),
        CompletionError::NotConfigured
    ));
    assert!(matches!(
        classify_config_load_error(true),
        CompletionError::Failed(_)
    ));
}

#[test]
fn job_reuses_completion_transport_and_writes_lua_response_shape() {
    let paths = job_paths("/jobs", "1721827200-1").unwrap();
    let raw = "{\"messages\":[{\"role\":\"system\",\"content\":\"Return JSON\"},{\"role\":\"user\",\"content\":\"list files\"}],\"timeout_secs\":9}";
    let request = plan_job(Some(raw)).unwrap();
    assert_eq!(request.messages.len(), 2);
    assert_eq!(request.messages[1].get_str("content"), Some("list files"));
    assert_eq!(request.timeout_secs, 9);

    let answer = r#"{"summary":"List files","command":"ls"}"#;
    let writes = persist_outcome(&paths, conclude(Ok(answer.to_string())));
    assert_eq!(text_of(&writes, &paths.status), Some("0"));
    assert_eq!(writes.last().unwrap().path, paths.status);
    let response = json_of(&writes, &paths.response).unwrap();
    let choice = &response.get_array("choices").unwrap()[0];
    assert_eq!(
        choice.get("message").unwrap().get_str("content"),
        Some(answer)
    );
}

#[test]
fn job_reports_missing_api_configuration_without_network_request() {
    let paths = job_paths("/jobs", "1721827200-2").unwrap();
    let writes = persist_outcome(&paths, conclude(Err(CompletionError::NotConfigured)));
    assert_eq!(text_of(&writes, &paths.status), Some("78"));
    assert!(!writes.iter().any(|w| w.path == paths.response));
}

#[test]
fn oversized_request_is_rejected_before_transport() {
    let paths = job_paths("/jobs", "1721827200-3").unwrap();
    let admitted = admit_request(MAX_REQUEST_BYTES + 1, Some("x".to_string()));
    assert!(admitted.is_none());
    let outcome = match plan_job(admitted.as_deref()) {
        Err(outcome) => outcome,
        Ok(_) => panic!("oversized request reached transport"),
    };
    let writes = persist_outcome(&paths, outcome);
    assert_eq!(text_of(&writes, &paths.status), Some("1"));
    assert_eq!(
        text_of(&writes, &paths.stderr),
        Some("invalid inline AI request")
    );
}

#[test]
fn job_id_cannot_escape_jobs_directory() {
    for invalid in ["", "../1-1", "1", "1-2-3", "abc-1", "1-x"] {
        assert!(job_paths("/jobs", invalid).is_none());
    }
}

#[test]
fn job_claim_requires_one_unfinished_regular_request() {
    let mut jobs = InFlightJobs::new();
    let job_id = "1721827200-99991";

    assert!(matches!(
        jobs.claim_job(job_id, None, false),
        Err(ClaimError::RequestMissing)
    ));
    assert!(jobs.claim_job(job_id, Some(true), false).is_ok());
    assert!(matches!(
        jobs.claim_job(job_id, Some(true), false),
        Err(ClaimError::AlreadyRunning)
    ));
    jobs.release(job_id);
    assert!(matches!(
        jobs.claim_job(job_id, Some(true), true),
        Err(ClaimError::AlreadyComplete)
    ));
    assert!(matches!(
        jobs.claim_job("../1-1", Some(true), false),
        Err(ClaimError::InvalidId)
    ));
}

#[test]
fn job_claim_rejects_symlinked_request() {
    let mut jobs = InFlightJobs::new();
    assert!(matches!(
        jobs.claim_job("1721827200-99992", Some(false), false),
        Err(ClaimError::NotRegular)
    ));
}

#[test]
fn completion_errors_written_for_lua_are_redacted() {
    let paths = job_paths("/jobs", "1721827200-4").unwrap();
    let writes = persist_outcome(
        &paths,
        conclude(Err(CompletionError::Failed("assistant request failed"))),
    );
    assert_eq!(
        text_of(&writes, &paths.stderr),
        Some("assistant request failed")
    );
}

#[test]
fn requests_are_refused_for_a_reason() {
    assert!(matches!(parse_request("{"), Err(RequestError::NotJson)));
    assert!(matches!(parse_request("{}"), Err(RequestError::MissingMessages)));
    assert!(matches!(
        parse_request("{\"messages\":[{\"content\":\"x\"}]}"),
        Err(RequestError::InvalidMessage)
    ));
    assert!(matches!(
        plan_job(None),
        Err(CompletionOutcome::Failed(_))
    ));
    assert_eq!(completion_model(Some("fast"), "deep"), "fast");
    assert_eq!(completion_model(None, "deep"), "deep");
}

#[test]
fn job_files_stand_in_the_jobs_directory() {
    let paths = job_paths("/jobs", "12-3").unwrap();
    for path in [&paths.request, &paths.response, &paths.stderr, &paths.status] {
        assert!(path.starts_with("/jobs/"));
        assert!(path.contains("12-3"));
    }
}

#[test]
fn privileged_user_vars_require_the_active_capability() {
    let capability = capability_of(&vec![7u8; CAPABILITY_BYTES]);
    assert_eq!(capability, "BwcHBwcHBwcHBwcHBwcHBwcHBwcHBwcHBwcHBwcHBwc");
    let value = format!("{}:[mode:auto] list files", capability);

    assert_eq!(
        decode_control_value_with_capability("kaku_ai_query", &value, Some(capability.as_str())),
        Some("[mode:auto] list files")
    );
    assert_eq!(
        decode_control_value_with_capability("kaku_ai_query", &value, Some("wrong")),
        None
    );
    assert_eq!(
        decode_control_value_with_capability("kaku_ai_query", &value, None),
        None
    );
    assert_eq!(
        decode_control_value_with_capability("unrelated", "plain", None),
        Some("plain")
    );
    assert_eq!(decode_control_value("unrelated", "plain", None), Some("plain"));
    assert!(is_privileged_user_var("kaku_ai_query"));
    assert!(!is_privileged_user_var("unrelated"));
}

fn capability_file(content: &str, mode: u32) -> CapabilityFile {
    CapabilityFile {
        is_symlink: false,
        is_file: true,
        len: content.len() as u64,
        mode,
        content: Some(content.to_string()),
    }
}

#[test]
fn capability_file_round_trips_with_private_contents() {
    let capability = capability_of(&vec![9u8; CAPABILITY_BYTES]);
    let text = capability_file_text(&capability);
    let file = capability_file(&text, 0o600);
    assert_eq!(read_capability_file(Some(&file)).ok(), Some(capability.clone()));
    let encoded = encode_control_value("kaku_ai_query", "hi", Some(&file)).ok().unwrap();
    assert_eq!(encoded, format!("{}:hi", capability));
    assert_eq!(
        decode_control_value("kaku_ai_query", &encoded, Some(&capability)),
        Some("hi")
    );
    assert_eq!(encode_control_value("other", "hi", None).ok(), Some("hi".to_string()));
}

#[test]
fn capability_creation_does_not_replace_an_existing_secret() {
    assert!(must_create_capability(false, false));
    assert!(!must_create_capability(false, true));
    assert!(!must_create_capability(true, false));
}

#[test]
fn capability_files_are_refused_for_a_reason() {
    let capability = capability_of(&vec![9u8; CAPABILITY_BYTES]);
    let refuse = |file: Option<&CapabilityFile>| match read_capability_file(file) {
        Err(e) => e,
        Ok(_) => panic!("must refuse"),
    };
    assert!(matches!(refuse(None), CapabilityError::Missing));
    let mut link = capability_file(&capability, 0o600);
    link.is_symlink = true;
    assert!(matches!(refuse(Some(&link)), CapabilityError::NotRegular));
    let mut large = capability_file(&capability, 0o600);
    large.len = 1_000;
    assert!(matches!(refuse(Some(&large)), CapabilityError::TooLarge));
    assert!(matches!(
        refuse(Some(&capability_file(&capability, 0o644))),
        CapabilityError::TooBroad
    ));
    let mut unreadable = capability_file(&capability, 0o600);
    unreadable.content = None;
    assert!(matches!(refuse(Some(&unreadable)), CapabilityError::Unreadable));
    assert!(matches!(
        refuse(Some(&capability_file("short", 0o600))),
        CapabilityError::Invalid
    ));
}

#[test]
fn generated_capabilities_are_valid_and_differ() {
    let a = generate_capability().unwrap();
    let b = generate_capability().unwrap();
    assert!(is_valid_capability(&a));
    assert!(is_valid_capability(&b));
    assert_ne!(a, b);
    assert!(!is_valid_capability("short"));
}

#[test]
fn local_file_hosts_require_an_exact_identity() {
    assert!(is_local_file_host(None, Some("mac.local")));
    assert!(is_local_file_host(Some("localhost"), Some("mac.local")));
    assert!(is_local_file_host(Some("MAC.LOCAL."), Some("mac.local")));

    assert!(!is_local_file_host(Some("mac"), Some("mac.local")));
    assert!(!is_local_file_host(
        Some("mac.corp.example"),
        Some("mac.local")
    ));
    assert!(!is_local_file_host(Some("mac.local"), None));
}

#[test]
fn completions_need_a_configuration() {
    assert!(matches!(plan_completion(None, false), Err(CompletionError::NotConfigured)));
    assert!(matches!(plan_completion(None, true), Err(CompletionError::Failed(_))));
    let mut config = CompletionConfig {
        auth_type: "api_key".to_string(),
        api_key: " ".to_string(),
        fast_model: None,
        chat_model: "deep".to_string(),
    };
    assert!(matches!(
        plan_completion(Some(&config), true),
        Err(CompletionError::NotConfigured)
    ));
    config.api_key = "k".to_string();
    assert_eq!(plan_completion(Some(&config), true).ok(), Some("deep".to_string()));
    assert!(matches!(
        request_failed(),
        CompletionError::Failed("assistant request failed")
    ));
}
