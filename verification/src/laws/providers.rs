//! The providers that are asked: what the configuration says is what is used.
use crate::chat_prompt::first_manifest;
use crate::codex_connection::{
    CodexErrorView, CodexLogin, ConnectionView, CredentialView, Environment, SettingsView, TomlView,
    base_url_verdict, builtin_connection, connection_of, env_headers, listed_toml, login_credential,
    lookup_pair, provider_connection, provider_headers, provider_url, provider_limits, retry_verdict, settings_of,
    small_field, text_entries, unsigned_field,
};
use crate::confirm::{Question, question_text};
use crate::commands::{Translations, translated};
use crate::json::{JsonView, field_of};
use crate::laws::jobs::{setting, tables_of_texts_read_back};
use crate::net::{UrlView, url_parts};
use crate::web::pair_views;
use crate::web_search::{brave_items, pipellm_items, tavily_items};
use vstd::prelude::*;
use vstd::string::*;

verus! {

// ---------------------------------------------------------------------------
// Fields
// ---------------------------------------------------------------------------

/// A field of the configuration is the first one under its name.
pub proof fn settings_are_found_by_name(
    fields: Seq<(Seq<char>, TomlView)>,
    key: Seq<char>,
    i: int,
)
    ensures
        0 <= i < fields.len() && fields[i].0 == key && (forall|k: int|
            0 <= k < i ==> (#[trigger] fields[k]).0 != key) ==> listed_toml(fields, key) == Some(
            fields[i].1,
        ),
        (forall|k: int| 0 <= k < fields.len() ==> (#[trigger] fields[k]).0 != key)
            ==> listed_toml(fields, key) is None,
    decreases fields.len(),
{
    if fields.len() > 0 {
        let rest = fields.drop_first();
        settings_are_found_by_name(rest, key, i - 1);
        assert(forall|k: int| 0 <= k < rest.len() ==> #[trigger] rest[k] == fields[k + 1]);
    }
}

/// Numbers are taken as they are; a negative one is refused, and so is one that
/// is too large to count with.
pub proof fn numbers_are_taken_as_they_are(n: i64, field: Seq<char>)
    ensures
        n >= 0 ==> unsigned_field(Some(TomlView::Integer(n)), field) == Ok::<
            Option<u64>,
            CodexErrorView,
        >(Some(n as u64)),
        n < 0 ==> unsigned_field(Some(TomlView::Integer(n)), field) == Err::<
            Option<u64>,
            CodexErrorView,
        >(CodexErrorView::NotUnsigned(field)),
        n < 0 ==> small_field(Some(TomlView::Integer(n)), field) is Err,
        0 <= n <= 0xffff_ffff ==> small_field(Some(TomlView::Integer(n)), field) == Ok::<
            Option<u32>,
            CodexErrorView,
        >(Some(n as u32)),
        n > 0xffff_ffff ==> small_field(Some(TomlView::Integer(n)), field) == Err::<
            Option<u32>,
            CodexErrorView,
        >(CodexErrorView::TooLarge(field)),
        unsigned_field(None, field) == Ok::<Option<u64>, CodexErrorView>(None),
{
}

/// Whether a field is a text or missing.
pub open spec fn text_or_missing(root: Seq<(Seq<char>, TomlView)>, name: Seq<char>) -> bool {
    match listed_toml(root, name) {
        None => true,
        Some(TomlView::Text(_)) => true,
        Some(_) => false,
    }
}

/// The settings can be read exactly where each of them is a text or missing, and
/// they are those texts.
pub proof fn settings_are_texts(root: Seq<(Seq<char>, TomlView)>)
    ensures
        settings_of(root) is Ok <==> text_or_missing(root, "model"@) && text_or_missing(
            root,
            "model_reasoning_effort"@,
        ) && text_or_missing(root, "model_reasoning_summary"@) && text_or_missing(
            root,
            "openai_base_url"@,
        ) && text_or_missing(root, "chatgpt_base_url"@) && text_or_missing(root, "model_provider"@),
        settings_of(root) matches Ok(s) ==> {
            &&& s.openai_base_url == setting(root, "openai_base_url"@)
            &&& s.chatgpt_base_url == setting(root, "chatgpt_base_url"@)
            &&& s.provider == setting(root, "model_provider"@)
        },
{
}

// ---------------------------------------------------------------------------
// Providers
// ---------------------------------------------------------------------------

/// Without a provider, or with the built-in one, the built-in one is asked; any
/// other is asked as its own table says, and must have one.
pub proof fn the_named_provider_is_asked(
    root: Seq<(Seq<char>, TomlView)>,
    auth: Option<CodexLogin>,
    env: Environment,
    name: Seq<char>,
)
    requires
        settings_of(root) is Ok,
    ensures
        setting(root, "model_provider"@) is None || setting(root, "model_provider"@) == Some(
            "openai"@,
        ) ==> connection_of(TomlView::Table(root), auth, env) == builtin_connection(
            settings_of(root)->Ok_0,
            auth,
        ),
        setting(root, "model_provider"@) == Some(name) && name != "openai"@ ==> {
            &&& connection_of(TomlView::Table(root), auth, env) is Ok ==> (listed_toml(
                root,
                "model_providers"@,
            ) matches Some(TomlView::Table(all)) && listed_toml(all, name) is Some)
            &&& listed_toml(root, "model_providers"@) is None ==> connection_of(
                TomlView::Table(root),
                auth,
                env,
            ) == Err::<ConnectionView, CodexErrorView>(CodexErrorView::NoProviderTable(name))
        },
{
}

/// A provider is asked at its own URL, over the one interface that is supported.
pub proof fn providers_are_asked_at_their_url(
    s: SettingsView,
    table: Seq<(Seq<char>, TomlView)>,
    auth: Option<CodexLogin>,
    env: Environment,
    provider: Seq<char>,
)
    requires
        provider_connection(s, table, auth, env, provider) is Ok,
    ensures
        ({
            let c = provider_connection(s, table, auth, env, provider)->Ok_0;
            &&& setting(table, "base_url"@) == Some(c.base_url)
            &&& setting(table, "wire_api"@) is None || setting(table, "wire_api"@) == Some(
                "responses"@,
            )
            &&& url_parts(c.base_url) matches Some(u) && (u.scheme == "http"@ || u.scheme
                == "https"@) && !(u.host is Missing)
            &&& listed_toml(table, "experimental_bearer_token"@) is None
            &&& listed_toml(table, "aws"@) is None
            &&& listed_toml(table, "auth"@) is None
            &&& c.model == s.model
        }),
{
}

/// A provider needs no more than a URL that will do; the interface may be named or
/// left out. A way to log in that is not supported is refused by its name.
pub proof fn providers_need_only_a_url(
    table: Seq<(Seq<char>, TomlView)>,
    provider: Seq<char>,
    url: Seq<char>,
)
    ensures
        listed_toml(table, "base_url"@) == Some(TomlView::Text(url)) && base_url_verdict(
            url_parts(url),
            provider,
        ) is Ok && (listed_toml(table, "wire_api"@) is None || listed_toml(table, "wire_api"@)
            == Some(TomlView::Text("responses"@))) && listed_toml(
            table,
            "experimental_bearer_token"@,
        ) is None && listed_toml(table, "aws"@) is None && listed_toml(table, "auth"@) is None
            ==> provider_url(table, provider) == Ok::<Seq<char>, CodexErrorView>(url),
        listed_toml(table, "experimental_bearer_token"@) is Some ==> provider_url(table, provider)
            == Err::<Seq<char>, CodexErrorView>(
            CodexErrorView::UnsupportedAuth { provider, field: "experimental_bearer_token"@ },
        ),
        listed_toml(table, "experimental_bearer_token"@) is None && listed_toml(table, "aws"@)
            is Some ==> provider_url(table, provider) == Err::<Seq<char>, CodexErrorView>(
            CodexErrorView::UnsupportedAuth { provider, field: "aws"@ },
        ),
{
}

/// A URL will do exactly where it can be read, is one for HTTP or HTTPS, and has
/// a host.
pub proof fn base_urls_are_absolute(url: Option<UrlView>, provider: Seq<char>)
    ensures
        base_url_verdict(url, provider) is Ok <==> (url matches Some(u) && (u.scheme == "http"@
            || u.scheme == "https"@) && !(u.host is Missing)),
        url is None ==> base_url_verdict(url, provider) == Err::<(), CodexErrorView>(
            CodexErrorView::InvalidBaseUrl(provider),
        ),
{
}

/// The parameters of every request, and the fixed headers, are those of the
/// provider's table.
pub proof fn providers_get_their_parameters(
    s: SettingsView,
    table: Seq<(Seq<char>, TomlView)>,
    auth: Option<CodexLogin>,
    env: Environment,
    provider: Seq<char>,
    fields: Seq<(Seq<char>, TomlView)>,
    i: int,
)
    requires
        provider_connection(s, table, auth, env, provider) is Ok,
        0 <= i < fields.len(),
        forall|k: int| i < k < fields.len() ==> (#[trigger] fields[k]).0 != fields[i].0,
    ensures
        ({
            let c = provider_connection(s, table, auth, env, provider)->Ok_0;
            &&& listed_toml(table, "query_params"@) is None ==> c.query_params.len() == 0
            &&& listed_toml(table, "query_params"@) == Some(TomlView::Table(fields)) ==> (
            fields[i].1 matches TomlView::Text(v) && lookup_pair(c.query_params, fields[i].0)
                == Some(v))
            &&& listed_toml(table, "http_headers"@) is None && listed_toml(
                table,
                "env_http_headers"@,
            ) is None ==> c.headers.len() == 0
            &&& listed_toml(table, "http_headers"@) == Some(TomlView::Table(fields)) && listed_toml(
                table,
                "env_http_headers"@,
            ) is None ==> (fields[i].1 matches TomlView::Text(v) && lookup_pair(
                c.headers,
                fields[i].0,
            ) == Some(v))
        }),
{
    if listed_toml(table, "query_params"@) == Some(TomlView::Table(fields)) {
        tables_of_texts_read_back(fields, "query_params"@, fields.len(), i);
    }
    if listed_toml(table, "http_headers"@) == Some(TomlView::Table(fields)) {
        tables_of_texts_read_back(fields, "http_headers"@, fields.len(), i);
    }
}

/// Where the table names one header and the variable that holds its value, the
/// header is sent with the value of the variable, which has to be there.
pub proof fn header_variables_have_to_be_set(
    table: Seq<(Seq<char>, TomlView)>,
    env: Environment,
    provider: Seq<char>,
    header: Seq<char>,
    name: Seq<char>,
)
    requires
        listed_toml(table, "http_headers"@) is None,
        listed_toml(table, "env_http_headers"@) == Some(
            TomlView::Table(seq![(header, TomlView::Text(name))]),
        ),
    ensures
        provider_headers(table, env, provider) is Ok <==> (lookup_pair(
            pair_views(env.vars@),
            name,
        ) matches Some(v) && v.len() > 0),
        provider_headers(table, env, provider) matches Ok(headers) ==> lookup_pair(headers, header)
            == lookup_pair(pair_views(env.vars@), name),
        provider_headers(table, env, provider) matches Err(e) ==> e
            == (CodexErrorView::MissingEnvironment { provider, name }),
{
    let fields = seq![(header, TomlView::Text(name))];
    reveal_with_fuel(text_entries, 3);
    reveal_with_fuel(env_headers, 3);
    let none = Seq::<(Seq<char>, Seq<char>)>::empty();
    crate::codex_connection::with_pair_reads_back(none, header, name, header);
    let from_env = crate::codex_connection::with_pair(none, header, name);
    assert(from_env =~= seq![(header, name)]);
    assert(text_entries(fields, "env_http_headers"@, 1) == Ok::<
        Seq<(Seq<char>, Seq<char>)>,
        CodexErrorView,
    >(from_env));
    if let Some(v) = lookup_pair(pair_views(env.vars@), name) {
        crate::codex_connection::with_pair_reads_back(none, header, v, header);
    }
}

/// Up to ten retries are allowed, and as many are made; the built-in provider is
/// tried as often as one whose table says nothing of it.
pub proof fn retries_are_limited(
    s: SettingsView,
    auth: Option<CodexLogin>,
    table: Seq<(Seq<char>, TomlView)>,
    provider: Seq<char>,
    n: u32,
)
    ensures
        n <= 10 ==> retry_verdict(n, provider) == Ok::<u32, CodexErrorView>(n),
        n > 10 ==> retry_verdict(n, provider) is Err,
        listed_toml(table, "request_max_retries"@) is None && listed_toml(
            table,
            "stream_max_retries"@,
        ) is None && listed_toml(table, "stream_idle_timeout_ms"@) is None ==> (provider_limits(
            table,
            provider,
        ) matches Ok((attempts, stream, idle)) && attempts == 3 && stream == 0 && idle is None && (
        builtin_connection(s, auth) matches Ok(c) ==> c.request_max_attempts == attempts
            && c.stream_max_retries == stream && c.stream_idle_timeout_ms == idle)),
{
}

/// A provider that wants the login gets what the login holds: the tokens of a
/// ChatGPT login, else the key; a login that is missing or cannot be used is an
/// error.
pub proof fn logins_are_used_as_they_are(login: CodexLogin)
    ensures
        login_credential(None) is Err,
        login.auth_mode is None ==> login_credential(Some(login)) is Err,
        login_credential(Some(login)) matches Ok(CredentialView::Bearer(key)) ==> (login.api_key
            matches Some(k) && k@ == key),
        login_credential(Some(login)) matches Ok(CredentialView::ChatGpt(token, account)) ==> (
        login.chatgpt matches Some(a) && a.access_token@ == token && crate::text::opt_view(
            a.account_id,
        ) == account),
        !(login_credential(Some(login)) matches Ok(CredentialView::Anonymous)),
        login.auth_mode matches Some(mode) ==> (mode@ == "chatgpt"@ && login.chatgpt is Some
            ==> login_credential(Some(login)) matches Ok(CredentialView::ChatGpt(_, _))),
{
}

// ---------------------------------------------------------------------------
// Results
// ---------------------------------------------------------------------------

/// The results of a search are the items of the list that the provider puts them
/// in: under its name at the top, or one level below.
pub proof fn results_are_the_items_of_the_list(json: JsonView, inner: JsonView, items: Seq<JsonView>)
    ensures
        field_of(json, "results"@) == Some(JsonView::Array(items)) ==> tavily_items(json) == items
            && brave_items(json, true) == items,
        field_of(json, "web"@) == Some(inner) && field_of(inner, "results"@) == Some(
            JsonView::Array(items),
        ) ==> brave_items(json, false) == items,
        field_of(json, "organic"@) == Some(JsonView::Array(items)) ==> pipellm_items(json) == items,
        field_of(json, "organic"@) is None && field_of(json, "data"@) == Some(inner) && field_of(
            inner,
            "organic"@,
        ) == Some(JsonView::Array(items)) ==> pipellm_items(json) == items,
        field_of(json, "results"@) is None ==> tavily_items(json).len() == 0 && brave_items(
            json,
            true,
        ).len() == 0,
        field_of(json, "web"@) is None ==> brave_items(json, false).len() == 0,
{
}

/// The manifest that is shown is one of those that are there, and none where none
/// of the known ones is; that of Rust comes before all others.
pub proof fn manifests_are_looked_for(files: Seq<Seq<char>>)
    ensures
        first_manifest(files, 0) matches Some(name) ==> files.contains(name),
        first_manifest(files, 0) is None <==> !files.contains("Cargo.toml"@) && !files.contains(
            "package.json"@,
        ) && !files.contains("pyproject.toml"@) && !files.contains("go.mod"@) && !files.contains(
            "Makefile"@,
        ) && !files.contains("justfile"@),
        files.contains("Cargo.toml"@) ==> first_manifest(files, 0) == Some("Cargo.toml"@),
{
    reveal_with_fuel(first_manifest, 8);
}

/// Each question is asked in the words that its own key stands for.
pub proof fn questions_are_asked_in_their_own_words(q: Question, t: Translations)
    ensures
        q is ClosePane ==> question_text(q, t) == translated(
            t.entries@,
            "overlay.confirm_close.pane"@,
        ),
        q is CloseTab ==> question_text(q, t) == translated(
            t.entries@,
            "overlay.confirm_close.tab"@,
        ),
        q is CloseWindow ==> question_text(q, t) == translated(
            t.entries@,
            "overlay.confirm_close.window"@,
        ),
        q is QuitProgram ==> question_text(q, t) == translated(
            t.entries@,
            "overlay.confirm_close.quit"@,
        ),
{
}

} // verus!
