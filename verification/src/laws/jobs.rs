//! Inline AI jobs, control messages, the connection to Codex, and this machine's
//! name.
use crate::codex_connection::{
    CodexErrorView, CodexLogin, ConnectionView, CredentialView, Environment, SettingsView, TomlView,
    builtin_connection, connection_of, env_headers, is_http_base, listed_toml, login_credential,
    lookup_pair, needed_env, provider_credential, provider_limits, sorted_by_name, text_entries,
    with_pair_reads_back,
};
use crate::inline_ai::{
    ContentView, JobPaths, OutcomeView, RequestError, is_number, job_file, outcome_writes,
    request_of, response_json, valid_job_id, valid_message,
};
use crate::inline_ai_control::{
    CapabilityError, CapabilityFile, decoded, encoded, file_capability, privileged,
    valid_capability,
};
use crate::json::{JsonView, field_of, items_of, text_of, unsigned_of};
use crate::laws::guards::lemma_split_join;
use crate::local_hostname::local_host;
use crate::net::url_parts;
use crate::text::{is_digit, lowered, opt_view, split_on, trimmed};
use crate::web::pair_views;
use vstd::prelude::*;
use vstd::string::*;

verus! {

// ---------------------------------------------------------------------------
// Jobs
// ---------------------------------------------------------------------------

proof fn lemma_unsplit(a: Seq<char>)
    requires
        forall|i: int| 0 <= i < a.len() ==> is_digit(#[trigger] a[i]),
    ensures
        split_on(a, '-') == seq![a],
    decreases a.len(),
{
    if a.len() > 0 {
        let rest = a.drop_last();
        assert forall|i: int| 0 <= i < rest.len() implies is_digit(#[trigger] rest[i]) by {
            assert(rest[i] == a[i]);
        }
        lemma_unsplit(rest);
        assert(is_digit(a[a.len() - 1]));
        assert(rest.push(a.last()) =~= a);
        assert(split_on(a, '-') =~= seq![a]);
    } else {
        assert(a =~= Seq::<char>::empty());
        assert(split_on(a, '-') =~= seq![a]);
    }
}

/// A job is named by two numbers with a dash between them, of a bounded length;
/// each such name is one, and three numbers are none.
pub proof fn jobs_are_named_by_two_numbers(a: Seq<char>, b: Seq<char>, c: Seq<char>)
    requires
        is_number(a),
        is_number(b),
        is_number(c),
    ensures
        valid_job_id(a + seq!['-'] + b) <==> a.len() + b.len() <= 47,
        !valid_job_id(a),
        !valid_job_id(a + seq!['-'] + b + seq!['-'] + c),
        !valid_job_id(seq!['-'] + b),
{
    lemma_unsplit(a);
    lemma_unsplit(b);
    lemma_unsplit(c);
    lemma_split_join(a, b, '-');
    let id = a + seq!['-'] + b;
    assert(split_on(id, '-') =~= seq![a, b]);
    lemma_split_join(id, c, '-');
    assert(split_on(id + seq!['-'] + c, '-').len() == 3);
    let none = Seq::<char>::empty();
    lemma_unsplit(none);
    lemma_split_join(none, b, '-');
    assert(none + seq!['-'] + b =~= seq!['-'] + b);
    assert(split_on(seq!['-'] + b, '-')[0] == none);
}

/// The files of a job lie in the directory of jobs, under its name and the
/// ending that says what they hold.
pub proof fn job_files_are_named_after_the_job(dir: Seq<char>, id: Seq<char>, ending: Seq<char>)
    requires
        dir.len() > 0,
        dir.last() != '/',
    ensures
        job_file(dir, id, ending) == dir + "/ai_fix_"@ + id + ending,
{
    reveal_strlit("ai_fix_");
    reveal_strlit("/ai_fix_");
    assert(("ai_fix_"@ + id + ending)[0] == 'a');
    assert(job_file(dir, id, ending) =~= dir + "/ai_fix_"@ + id + ending);
}

/// A request hands on all of its messages as they are. It is refused only where
/// it has none, or where one has no role.
pub proof fn requests_hand_on_their_messages(payload: JsonView, i: int)
    ensures
        match request_of(payload) {
            Ok((messages, timeout)) => {
                &&& items_of(field_of(payload, "messages"@)) == Some(messages)
                &&& messages.len() > 0
                &&& 0 <= i < messages.len() ==> text_of(field_of(messages[i], "role"@)) is Some
                &&& 1 <= timeout <= 600
                &&& unsigned_of(field_of(payload, "timeout_secs"@)) is None ==> timeout == 30
                &&& unsigned_of(field_of(payload, "timeout_secs"@)) matches Some(n) ==> (1 <= n
                    <= 600 ==> timeout == n)
            },
            Err(RequestError::MissingMessages) => items_of(field_of(payload, "messages"@)) matches Some(
                m,
            ) ==> m.len() == 0,
            Err(RequestError::InvalidMessage) => items_of(field_of(payload, "messages"@)) matches Some(
                m,
            ) && exists|k: int| 0 <= k < m.len() && !valid_message(#[trigger] m[k]),
            Err(RequestError::NotJson) => false,
        },
{
    if let Some(m) = items_of(field_of(payload, "messages"@)) {
        if 0 <= i < m.len() && crate::inline_ai::all_valid(m) {
            assert(valid_message(m[i]));
        }
    }
}

/// A completion is written whole where it will be looked for, and its status
/// says that it went well; an error is written for the log, and the status says
/// so.
pub proof fn completions_are_written_whole(paths: JobPaths, text: Seq<char>)
    ensures
        outcome_writes(paths, OutcomeView::Success(text))[0] == (
            paths.response@,
            ContentView::Json(response_json(text)),
        ),
        outcome_writes(paths, OutcomeView::Success(text)).last() == (
            paths.status@,
            ContentView::Text("0"@),
        ),
        items_of(field_of(response_json(text), "choices"@)) matches Some(choices) && choices.len()
            == 1 && (field_of(choices[0], "message"@) matches Some(message) && text_of(
            field_of(message, "content"@),
        ) == Some(text) && text_of(field_of(message, "role"@)) == Some("assistant"@)),
        outcome_writes(paths, OutcomeView::Failed(text))[0] == (
            paths.stderr@,
            ContentView::Text(text),
        ),
        outcome_writes(paths, OutcomeView::Failed(text)).last() == (
            paths.status@,
            ContentView::Text("1"@),
        ),
        outcome_writes(paths, OutcomeView::NotConfigured) == seq![
            (paths.status@, ContentView::Text("78"@)),
        ],
{
    reveal_with_fuel(crate::json::listed_field, 3);
    reveal_strlit("role");
    reveal_strlit("content");
    assert("role"@.len() != "content"@.len());
    if let JsonView::Object(f) = response_json(text) {
        assert(f[0].0 == "choices"@);
        let choices = items_of(field_of(response_json(text), "choices"@))->0;
        if let JsonView::Object(g) = choices[0] {
            assert(g[0].0 == "message"@);
            if let JsonView::Object(h) = g[0].1 {
                assert(h[0].0 == "role"@);
                assert(h.drop_first()[0] == h[1]);
                assert(h[1].0 == "content"@);
            }
        }
    }
}

// ---------------------------------------------------------------------------
// Control messages
// ---------------------------------------------------------------------------

/// The capability is read from a regular file that is small, that no one else
/// may touch, and that holds nothing else; from no other.
pub proof fn capabilities_come_from_private_files(f: CapabilityFile)
    ensures
        file_capability(None) == Err::<Seq<char>, CapabilityError>(CapabilityError::Missing),
        file_capability(Some(f)) is Ok <==> {
            &&& f.is_file && !f.is_symlink
            &&& f.len <= 128
            &&& f.mode & 0o77 == 0
            &&& opt_view(f.content) matches Some(text) && valid_capability(trimmed(text))
        },
        file_capability(Some(f)) matches Ok(c) ==> (opt_view(f.content) matches Some(text) && c
            == trimmed(text) && c.len() == 43),
{
}

/// A control value is let through exactly where the capability stands before it;
/// what is let through is the value itself. Names that control nothing are let
/// through as they are.
pub proof fn control_values_need_their_capability(
    name: Seq<char>,
    value: Seq<char>,
    inner: Seq<char>,
    capability: Seq<char>,
)
    ensures
        name == "kaku_ai_query"@ || name == "kaku_last_cmd"@ || name == "kaku_last_exit_code"@
            || name == "kaku_open_ai_chat"@ || name == "kaku_user_typing"@ <==> privileged(name),
        privileged(name) ==> (decoded(name, value, Some(capability)) == Some(inner) <==> value
            == capability + seq![':'] + inner),
        !privileged(name) ==> decoded(name, value, Some(capability)) == Some(value) && decoded(
            name,
            value,
            None,
        ) == Some(value),
        privileged(name) ==> encoded(name, value, capability) == capability + seq![':'] + value,
{
    reveal_strlit(":");
    assert(":"@ =~= seq![':']);
    if privileged(name) {
        let whole = capability + seq![':'] + inner;
        if value == whole {
            assert(value.subrange(0, capability.len() as int) =~= capability);
            assert(value.skip(capability.len() as int + 1) =~= inner);
        }
        if decoded(name, value, Some(capability)) == Some(inner) {
            assert(value.subrange(0, capability.len() as int) == capability);
            assert(value =~= capability + seq![':'] + value.skip(capability.len() as int + 1));
        }
    }
}

// ---------------------------------------------------------------------------
// Codex
// ---------------------------------------------------------------------------

/// What a setting says, read from the root of the configuration.
pub open spec fn setting(root: Seq<(Seq<char>, TomlView)>, name: Seq<char>) -> Option<Seq<char>> {
    match listed_toml(root, name) {
        Some(TomlView::Text(s)) => Some(s),
        _ => None,
    }
}

/// A connection carries the model and the reasoning that the configuration asks
/// for, whichever provider serves it.
pub proof fn connections_carry_the_settings(
    root: Seq<(Seq<char>, TomlView)>,
    auth: Option<CodexLogin>,
    env: Environment,
)
    requires
        connection_of(TomlView::Table(root), auth, env) is Ok,
    ensures
        ({
            let c = connection_of(TomlView::Table(root), auth, env)->Ok_0;
            &&& c.model == setting(root, "model"@)
            &&& c.reasoning_effort == setting(root, "model_reasoning_effort"@)
            &&& c.reasoning_summary == setting(root, "model_reasoning_summary"@)
        }),
{
}

/// The built-in provider is reached where the login belongs: with a ChatGPT login
/// at its backend, with a key at the API, each unless the configuration names
/// another place; without a login, not at all.
pub proof fn the_builtin_provider_follows_the_login(s: SettingsView, auth: CodexLogin)
    ensures
        builtin_connection(s, None) == Err::<ConnectionView, CodexErrorView>(
            CodexErrorView::NotLoggedIn,
        ),
        builtin_connection(s, Some(auth)) matches Ok(c) ==> {
            &&& opt_view(auth.auth_mode) == Some("chatgpt"@) ==> (auth.chatgpt matches Some(a)
                && c.credential == CredentialView::ChatGpt(a.access_token@, opt_view(a.account_id))
                && "/codex"@.is_suffix_of(c.base_url))
            &&& opt_view(auth.auth_mode) != Some("chatgpt"@) ==> (opt_view(auth.api_key) matches Some(
                key,
            ) && c.credential == CredentialView::Bearer(key) && trimmed(key).len() > 0)
            &&& opt_view(auth.auth_mode) != Some("chatgpt"@) ==> c.base_url == (match s.openai_base_url {
                Some(url) => url,
                None => "https://api.openai.com/v1"@,
            })
            &&& c.headers.len() == 0 && c.query_params.len() == 0
            &&& url_parts(c.base_url) matches Some(u) && is_http_base(u)
        },
{
    if let Ok(c) = builtin_connection(s, Some(auth)) {
        if opt_view(auth.auth_mode) == Some("chatgpt"@) {
            let url = c.base_url;
            assert(url.subrange(url.len() - "/codex"@.len(), url.len() as int) =~= "/codex"@);
        }
    }
}

/// A provider is sent the headers that the configuration fixes, and those whose
/// values it has from the environment; where both name one, the environment
/// counts.
pub proof fn headers_from_the_environment_count(
    headers: Seq<(Seq<char>, Seq<char>)>,
    from_env: Seq<(Seq<char>, Seq<char>)>,
    env: Environment,
    provider: Seq<char>,
    n: nat,
    name: Seq<char>,
    i: int,
)
    requires
        n <= from_env.len(),
        sorted_by_name(from_env),
        env_headers(headers, from_env, env, provider, n) is Ok,
    ensures
        ({
            let sent = env_headers(headers, from_env, env, provider, n)->Ok_0;
            &&& 0 <= i < n ==> (needed_env(env, from_env[i].1, provider) matches Ok(value)
                && lookup_pair(sent, from_env[i].0) == Some(value))
            &&& (forall|k: int| 0 <= k < n ==> (#[trigger] from_env[k]).0 != name) ==> lookup_pair(
                sent,
                name,
            ) == lookup_pair(headers, name)
        }),
    decreases n,
{
    if n > 0 {
        let before = env_headers(headers, from_env, env, provider, (n - 1) as nat)->Ok_0;
        let last = from_env[n - 1];
        let value = needed_env(env, last.1, provider)->Ok_0;
        headers_from_the_environment_count(
            headers,
            from_env,
            env,
            provider,
            (n - 1) as nat,
            name,
            i,
        );
        with_pair_reads_back(before, last.0, value, name);
        if 0 <= i < n - 1 {
            with_pair_reads_back(before, last.0, value, from_env[i].0);
            assert(from_env[i].0 != from_env[n - 1].0);
        }
        if forall|k: int| 0 <= k < n ==> (#[trigger] from_env[k]).0 != name {
            assert(from_env[n - 1].0 != name);
        }
    }
}

/// A table of texts says under each name what it was written to say.
pub proof fn tables_of_texts_read_back(
    fields: Seq<(Seq<char>, TomlView)>,
    field: Seq<char>,
    n: nat,
    i: int,
)
    requires
        n <= fields.len(),
        0 <= i < n,
        forall|k: int| i < k < n ==> (#[trigger] fields[k]).0 != fields[i].0,
        text_entries(fields, field, n) is Ok,
    ensures
        fields[i].1 matches TomlView::Text(v) && lookup_pair(
            text_entries(fields, field, n)->Ok_0,
            fields[i].0,
        ) == Some(v),
    decreases n,
{
    let before = text_entries(fields, field, (n - 1) as nat)->Ok_0;
    let last = fields[n - 1];
    if let TomlView::Text(v) = last.1 {
        with_pair_reads_back(before, last.0, v, fields[i].0);
        if i < n - 1 {
            tables_of_texts_read_back(fields, field, (n - 1) as nat, i);
            assert(fields[n - 1].0 != fields[i].0);
        }
    }
}

/// A provider gets the credential that it asks for: the variable that it names,
/// else the login where it wants that, else none.
pub proof fn providers_get_the_credential_they_ask_for(
    table: Seq<(Seq<char>, TomlView)>,
    env: Environment,
    auth: Option<CodexLogin>,
    provider: Seq<char>,
)
    requires
        provider_credential(table, env, auth, provider) is Ok,
    ensures
        ({
            let c = provider_credential(table, env, auth, provider)->Ok_0;
            match setting(table, "env_key"@) {
                Some(name) => lookup_pair(pair_views(env.vars@), name) matches Some(v) && c
                    == CredentialView::Bearer(v) && v.len() > 0,
                None => match listed_toml(table, "requires_openai_auth"@) {
                    Some(TomlView::Boolean(true)) => login_credential(auth) == Ok::<
                        CredentialView,
                        CodexErrorView,
                    >(c),
                    _ => c == CredentialView::Anonymous,
                },
            }
        }),
{
}

/// A provider is tried once more than it may be retried; more retries than ten
/// are refused, not cut down.
pub proof fn retries_are_as_configured(table: Seq<(Seq<char>, TomlView)>, provider: Seq<char>)
    ensures
        provider_limits(table, provider) matches Ok((attempts, stream, idle)) ==> {
            &&& listed_toml(table, "request_max_retries"@) matches Some(TomlView::Integer(n))
                ==> attempts == n + 1 && n <= 10
            &&& listed_toml(table, "stream_max_retries"@) matches Some(TomlView::Integer(n))
                ==> stream == n && n <= 10
            &&& listed_toml(table, "stream_idle_timeout_ms"@) matches Some(TomlView::Integer(n))
                ==> idle == Some(n as u64)
            &&& listed_toml(table, "stream_idle_timeout_ms"@) is None ==> idle is None
        },
{
}

// ---------------------------------------------------------------------------
// This machine
// ---------------------------------------------------------------------------

/// A host is this machine where none is named, where it is called localhost, or
/// where it has the full name of the machine, in whatever case and with or
/// without a dot at its end. The first part of a name is not enough.
pub proof fn hosts_are_known_by_their_full_name(host: Seq<char>, local: Seq<char>)
    requires
        host.len() > 0,
        host.last() != '.',
        local.len() > 0,
        local.last() != '.',
    ensures
        local_host(None, Some(local)),
        lowered(host) == "localhost"@ ==> local_host(Some(host), Some(local)) && local_host(
            Some(host),
            None,
        ),
        lowered(host) != "localhost"@ ==> (local_host(Some(host), Some(local)) <==> lowered(host)
            == lowered(local)),
        lowered(host) != "localhost"@ ==> !local_host(Some(host), None),
        local_host(Some(host.push('.')), Some(local)) == local_host(Some(host), Some(local)),
        local_host(Some(host), Some(local.push('.'))) == local_host(Some(host), Some(local)),
{
    assert(host.push('.').drop_last() =~= host);
    assert(local.push('.').drop_last() =~= local);
    reveal_strlit("localhost");
    assert(lowered("localhost"@) =~= "localhost"@);
}

} // verus!
