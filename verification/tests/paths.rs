use kaku::json::{json_string, JsonField, JsonValue};
use kaku::paths::{
    blocked_locations, expand_user_prefix, has_source_or_doc_extension,
    is_credential_named_source_file, is_sensitive_directory_name, is_sensitive_filename,
    optional_path_arg, pin_read_arg, reject_if_sensitive, reject_relative_cwd_escape,
    requires_read_approval, resolve, resolve_checked_arg, resolve_checked_optional_arg,
    resolve_checked_path, sensitive_search_globs, Ancestor, EscapeFacts, PathError, PathFacts,
};

const HOME: &str = "/home/ada";

fn blocked() -> Vec<String> {
    blocked_locations(Some(HOME), Some("/home/ada/.config/kaku"))
}

fn no_escape() -> EscapeFacts {
    EscapeFacts {
        cwd: None,
        target: None,
        ancestor: None,
    }
}

fn facts() -> PathFacts {
    PathFacts {
        home: Some(HOME.to_string()),
        blocked: blocked(),
        escape: no_escape(),
    }
}

fn path_args(path: &str) -> JsonValue {
    JsonValue::Object(vec![JsonField {
        key: "path".to_string(),
        value: json_string(path),
    }])
}

fn no_args() -> JsonValue {
    JsonValue::Object(vec![])
}

/// What is on disk when `cwd` exists, and nothing below it but `ancestor`.
fn on_disk(cwd: &str, ancestor: &str) -> EscapeFacts {
    EscapeFacts {
        cwd: Some(cwd.to_string()),
        target: None,
        ancestor: Some(Ancestor {
            path: ancestor.to_string(),
            canonical: Some(ancestor.to_string()),
        }),
    }
}

#[test]
fn resolve_expands_tilde() {
    assert_eq!(
        resolve("~/foo", "/tmp", Some(HOME)).unwrap(),
        "/home/ada/foo"
    );
    assert_eq!(resolve("~", "/tmp", Some(HOME)).unwrap(), HOME);
}

#[test]
fn resolve_absolute_unchanged() {
    assert_eq!(
        resolve("/etc/passwd", "/tmp", Some(HOME)).unwrap(),
        "/etc/passwd"
    );
}

#[test]
fn resolve_checked_arg_resolves_normal_path() {
    let args = path_args("/tmp");
    assert_eq!(
        resolve_checked_arg(&args, "/tmp", &facts()).unwrap(),
        "/tmp"
    );
}

#[test]
fn resolve_checked_path_resolves_normal_path() {
    assert_eq!(
        resolve_checked_path("/tmp", "/tmp", &facts()).unwrap(),
        "/tmp"
    );
}

#[test]
fn resolve_checked_optional_arg_defaults_to_cwd() {
    let args = no_args();
    assert_eq!(
        resolve_checked_optional_arg(&args, "/tmp", &facts()).unwrap(),
        "/tmp"
    );
}

#[test]
fn optional_path_arg_preserves_raw_relative_path() {
    let args = path_args("src");
    assert_eq!(optional_path_arg(&args, "/tmp/project"), "src");
}

#[test]
fn resolve_checked_arg_rejects_sensitive_path() {
    let args = path_args("/home/ada/.ssh/id_rsa");
    let err = resolve_checked_arg(&args, "/tmp", &facts()).unwrap_err();
    assert!(err.message().contains("protected") || err.message().contains("credential"));
}

#[test]
fn resolve_checked_arg_requires_path_arg() {
    let args = no_args();
    let err = resolve_checked_arg(&args, "/tmp", &facts()).unwrap_err();
    assert!(err.message().contains("missing path"));
}

#[test]
fn pin_read_arg_replaces_symlink_with_approved_target() {
    let mut facts = facts();
    facts.escape = EscapeFacts {
        cwd: Some("/tmp/root".to_string()),
        target: Some("/tmp/root/prod_credentials.py".to_string()),
        ancestor: None,
    };
    let args = pin_read_arg(path_args("/tmp/root/safe.py"), "/tmp/root", &facts).unwrap();
    assert_eq!(args.get_str("path"), Some("/tmp/root/prod_credentials.py"));
    assert!(requires_read_approval(
        "/tmp/root/prod_credentials.py",
        Some("/tmp/root/prod_credentials.py")
    ));
}

#[test]
fn pin_read_arg_needs_a_target() {
    let err = pin_read_arg(path_args("/tmp/root/gone.py"), "/tmp/root", &facts()).unwrap_err();
    assert!(matches!(err, PathError::ReadTargetUnresolved(_)));
}

#[test]
fn resolve_relative_to_cwd() {
    assert_eq!(
        resolve("src/main.rs", "/project", Some(HOME)).unwrap(),
        "/project/src/main.rs"
    );
}

#[test]
fn reject_if_sensitive_blocks_ssh() {
    let err = reject_if_sensitive("/home/ada/.ssh", None, &blocked()).unwrap_err();
    assert!(err.message().contains("protected secret location"));
}

#[test]
fn reject_if_sensitive_blocks_assistant_config() {
    let err = reject_if_sensitive("/home/ada/.config/kaku/assistant.toml", None, &blocked())
        .unwrap_err();
    assert!(err.message().contains("protected secret location"));
}

#[test]
fn reject_if_sensitive_blocks_actual_xdg_assistant_config() {
    let blocked = blocked_locations(Some(HOME), Some("/xdg/kaku"));
    let err = reject_if_sensitive("/xdg/kaku/assistant.toml", None, &blocked).unwrap_err();
    assert!(err.message().contains("protected") || err.message().contains("credential"));
}

#[test]
fn reject_if_sensitive_blocks_token_dotfiles_in_any_directory() {
    for name in [".npmrc", ".pypirc", ".netrc", ".git-credentials"] {
        let path = format!("/tmp/dir/{}", name);
        let err = reject_if_sensitive(&path, None, &blocked()).unwrap_err();
        assert!(err.message().contains("credential"));
    }
}

#[test]
fn reject_if_sensitive_allows_normal_paths() {
    assert!(reject_if_sensitive("/tmp", None, &blocked()).is_ok());
}

#[test]
fn credentials_named_source_files_stay_readable() {
    for name in ["credentials.rs", "credentials_test.go", "credentials.md"] {
        let path = format!("/tmp/dir/{}", name);
        assert!(
            reject_if_sensitive(&path, Some(&path), &blocked()).is_ok(),
            "{} is source/doc, must stay readable",
            name
        );
    }
    for name in ["credentials", "credentials.json", "aws_credentials.toml"] {
        let path = format!("/tmp/dir/{}", name);
        assert!(
            reject_if_sensitive(&path, Some(&path), &blocked()).is_err(),
            "{} is a credential data file, must stay blocked",
            name
        );
    }
}

#[test]
fn relative_cwd_escape_rejects_parent_traversal_outside_cwd() {
    let err = reject_relative_cwd_escape(
        "../outside.txt",
        "/tmp/dir/project",
        &on_disk("/tmp/dir/project", "/tmp/dir"),
    )
    .unwrap_err();
    assert!(err.message().contains("outside the working directory"));
}

#[test]
fn relative_cwd_escape_allows_nested_missing_paths() {
    reject_relative_cwd_escape(
        "src/generated/file.txt",
        "/tmp/dir/project",
        &on_disk("/tmp/dir/project", "/tmp/dir/project"),
    )
    .unwrap();
}

#[test]
fn reject_if_sensitive_blocks_aws_credentials() {
    let err = reject_if_sensitive("/home/ada/.aws/credentials", None, &blocked()).unwrap_err();
    assert!(err.message().contains("protected secret location"));
}

#[test]
fn reject_if_sensitive_blocks_gnupg() {
    let err = reject_if_sensitive("/home/ada/.gnupg", None, &blocked()).unwrap_err();
    assert!(err.message().contains("protected secret location"));
}

#[test]
fn reject_if_sensitive_blocks_common_cli_token_stores() {
    for relative in [
        ".config/gh/hosts.yml",
        ".docker/config.json",
        ".git-credentials",
        ".netrc",
        ".npmrc",
        ".pypirc",
    ] {
        let path = format!("{}/{}", HOME, relative);
        let err = reject_if_sensitive(&path, None, &blocked()).unwrap_err();
        assert!(err.message().contains("protected secret location"));
    }
}

#[test]
fn reject_if_sensitive_blocks_descendant_of_sensitive_dir() {
    let err = reject_if_sensitive("/home/ada/.ssh/id_rsa", None, &blocked()).unwrap_err();
    assert!(err.message().contains("protected secret location"));
}

#[test]
fn reject_if_sensitive_blocks_etc_shadow_via_private_alias() {
    let err = reject_if_sensitive("/private/etc/sudoers", None, &blocked()).unwrap_err();
    assert!(err.message().contains("protected secret location"));
}

#[test]
fn reject_if_sensitive_follows_symlink_to_blocked_dir() {
    let err =
        reject_if_sensitive("/tmp/dir/ssh_link", Some("/home/ada/.ssh"), &blocked()).unwrap_err();
    assert!(err.message().contains("protected secret location"));
}

#[test]
fn relative_cwd_escape_rejects_deep_parent_traversal() {
    let err = reject_relative_cwd_escape(
        "../../../../etc/passwd",
        "/tmp/dir/project",
        &on_disk("/tmp/dir/project", "/"),
    )
    .unwrap_err();
    assert!(err.message().contains("outside the working directory"));
}

#[test]
fn relative_cwd_escape_rejects_mixed_traversal() {
    let err = reject_relative_cwd_escape(
        "./foo/../../escape.txt",
        "/tmp/dir/project",
        &on_disk("/tmp/dir/project", "/tmp/dir/project"),
    )
    .unwrap_err();
    assert!(err.message().contains("outside the working directory"));
}

#[test]
fn relative_cwd_escape_allows_within_cwd_traversal() {
    reject_relative_cwd_escape(
        "foo/../bar.txt",
        "/tmp/dir/project",
        &on_disk("/tmp/dir/project", "/tmp/dir/project"),
    )
    .unwrap();
}

#[test]
fn relative_cwd_escape_rejects_links_out_of_cwd() {
    let facts = EscapeFacts {
        cwd: Some("/tmp/dir/project".to_string()),
        target: Some("/etc/passwd".to_string()),
        ancestor: None,
    };
    let err = reject_relative_cwd_escape("link", "/tmp/dir/project", &facts).unwrap_err();
    assert!(matches!(err, PathError::OutsideWorkingDirectory(_)));
}

#[test]
fn reject_if_sensitive_blocks_project_env_file() {
    assert!(
        reject_if_sensitive("/tmp/dir/.env", Some("/tmp/dir/.env"), &blocked()).is_err(),
        "a project-local .env must be refused"
    );
}

#[test]
fn read_approval_follows_symlink_to_credential_source() {
    assert!(requires_read_approval("/tmp/dir/prod_credentials.py", None));
    assert!(requires_read_approval(
        "/tmp/dir/safe.py",
        Some("/tmp/dir/prod_credentials.py")
    ));
    assert!(!requires_read_approval("/tmp/dir/safe.py", None));
}

#[test]
fn reject_if_sensitive_blocks_dotenv_variants_and_keys() {
    for name in [
        ".env.local",
        ".env.production",
        "server.pem",
        "tls.key",
        "id_rsa",
        "id_ed25519",
    ] {
        let path = format!("/tmp/dir/{}", name);
        assert!(
            reject_if_sensitive(&path, Some(&path), &blocked()).is_err(),
            "{} should be refused as a credential file",
            name
        );
    }
}

#[test]
fn reject_if_sensitive_allows_env_examples_and_public_keys() {
    for name in [
        ".env.example",
        ".env.sample",
        "config.pem.template",
        "id_rsa.pub",
        "README.md",
    ] {
        let path = format!("/tmp/dir/{}", name);
        assert!(
            reject_if_sensitive(&path, Some(&path), &blocked()).is_ok(),
            "{} should remain readable",
            name
        );
    }
}

#[test]
fn home_prefix_needs_a_home() {
    assert_eq!(expand_user_prefix("~/x", Some("/h")), Some("/h/x".to_string()));
    assert_eq!(expand_user_prefix("~", Some("/h")), Some("/h".to_string()));
    assert_eq!(expand_user_prefix("plain", Some("/h")), None);
    assert!(matches!(resolve("~/x", "/tmp", None), Err(PathError::HomeUnset)));
}

#[test]
fn sensitive_names_are_told_apart() {
    assert!(is_sensitive_filename("ID_RSA"));
    assert!(is_sensitive_filename("Assistant.TOML"));
    assert!(!is_sensitive_filename("main.rs"));
    assert!(is_sensitive_directory_name("Secrets"));
    assert!(!is_sensitive_directory_name("src"));
    assert!(is_credential_named_source_file("Prod_Credentials.py"));
    assert!(!is_credential_named_source_file("credentials.json"));
    assert!(has_source_or_doc_extension("a.rs"));
    assert!(!has_source_or_doc_extension("a.json"));
}

#[test]
fn search_globs_exclude_blocked_locations_below_the_root() {
    let globs = sensitive_search_globs(HOME, &blocked());
    assert!(globs.iter().any(|g| g.contains(".ssh")));
    assert!(globs.iter().all(|g| g.starts_with('!')));
    let elsewhere = sensitive_search_globs("/srv", &blocked());
    assert!(elsewhere.len() < globs.len());
}
