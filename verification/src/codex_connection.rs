//! Resolve the user-level Codex model-provider connection for Kaku Assistant.
//!
//! This is intentionally a concrete Codex module, not a provider abstraction.
//! It never applies project config, profiles, or CLI overrides.
use crate::json::{JsonValue, field_of, opt_str, text_of};
use crate::net::{HostView, ParsedUrl, UrlHost, UrlView, opt_url, parse_url, url_parts};
use crate::text::{
    clone_opt, concat2, concat3, concat4, concat5, decimal, decimal_of, lemma_text_le_antisymmetric,
    lemma_text_le_total, lemma_text_le_transitive, opt_view, same, text_at_most, text_le, trim,
    trimmed,
};
use crate::web::{Pair, pair_views, trim_end_char, without_end};
use vstd::prelude::*;
use vstd::string::*;

verus! {

pub const DEFAULT_REQUEST_RETRIES: u32 = 2;

pub const MAX_CONFIGURED_RETRIES: u32 = 10;

// ---------------------------------------------------------------------------
// TOML
// ---------------------------------------------------------------------------

/// A TOML value. Floats, dates and arrays are not told apart: no field of the
/// configuration is one.
#[derive(Debug)]
pub enum TomlValue {
    Text(String),
    Integer(i64),
    Boolean(bool),
    Table(Vec<TomlField>),
    Other,
}

#[derive(Debug)]
pub struct TomlField {
    pub key: String,
    pub value: TomlValue,
}

pub enum TomlView {
    Text(Seq<char>),
    Integer(i64),
    Boolean(bool),
    Table(Seq<(Seq<char>, TomlView)>),
    Other,
}

pub open spec fn toml_fields(fields: Seq<TomlField>) -> Seq<(Seq<char>, TomlView)>
    decreases fields,
{
    Seq::new(
        fields.len(),
        |i: int|
            if 0 <= i < fields.len() {
                (fields[i].key@, toml_view(fields[i].value))
            } else {
                arbitrary()
            },
    )
}

pub open spec fn toml_view(value: TomlValue) -> TomlView
    decreases value,
{
    match value {
        TomlValue::Text(s) => TomlView::Text(s@),
        TomlValue::Integer(n) => TomlView::Integer(n),
        TomlValue::Boolean(b) => TomlView::Boolean(b),
        TomlValue::Table(fields) => TomlView::Table(toml_fields(fields@)),
        TomlValue::Other => TomlView::Other,
    }
}

impl View for TomlValue {
    type V = TomlView;

    open spec fn view(&self) -> TomlView {
        toml_view(*self)
    }
}

/// A TOML value of the `toml` crate.
#[verifier::external_type_specification]
#[verifier::external_body]
pub struct ExTomlValue(toml::Value);

/// What a value of the `toml` crate holds.
pub uninterp spec fn toml_contents(value: toml::Value) -> TomlView;

/// What `str::parse::<toml::Value>` reads from a text; nothing where it
/// rejects it.
pub uninterp spec fn toml_document(text: Seq<char>) -> Option<TomlView>;

/// Parses a document with the `FromStr` impl of `toml::Value`. What comes back
/// is a function of the text: a value with these contents, or nothing. The
/// grammar is not restated.
#[verifier::external_body]
fn read_toml(text: &str) -> (r: Option<toml::Value>)
    ensures
        r matches Some(v) ==> toml_document(text@) == Some(toml_contents(v)),
        r is None ==> toml_document(text@) is None,
{
    text.parse::<toml::Value>().ok()
}

/// Takes a value of the `toml` crate apart, variant by variant, into the value
/// of this crate with the same contents.
#[verifier::external_body]
fn open_toml(value: toml::Value) -> (r: TomlValue)
    ensures
        r@ == toml_contents(value),
{
    match value {
        toml::Value::String(s) => TomlValue::Text(s),
        toml::Value::Integer(n) => TomlValue::Integer(n),
        toml::Value::Boolean(b) => TomlValue::Boolean(b),
        toml::Value::Float(_) => TomlValue::Other,
        toml::Value::Datetime(_) => TomlValue::Other,
        toml::Value::Array(_) => TomlValue::Other,
        toml::Value::Table(t) => TomlValue::Table(
            t.into_iter().map(|(key, v)| TomlField { key, value: open_toml(v) }).collect(),
        ),
    }
}

/// The first value listed under `key`.
pub open spec fn listed_toml(fields: Seq<(Seq<char>, TomlView)>, key: Seq<char>) -> Option<
    TomlView,
>
    decreases fields.len(),
{
    if fields.len() == 0 {
        None
    } else if fields[0].0 == key {
        Some(fields[0].1)
    } else {
        listed_toml(fields.drop_first(), key)
    }
}

pub open spec fn opt_toml(o: Option<&TomlValue>) -> Option<TomlView> {
    match o {
        Some(v) => Some(v@),
        None => None,
    }
}

fn get_toml<'a>(fields: &'a Vec<TomlField>, key: &str) -> (r: Option<&'a TomlValue>)
    ensures
        opt_toml(r) == listed_toml(toml_fields(fields@), key@),
{
    let ghost all = toml_fields(fields@);
    let mut i: usize = 0;
    assert(all.skip(0) =~= all);
    while i < fields.len()
        invariant
            i <= fields.len(),
            all == toml_fields(fields@),
            listed_toml(all, key@) == listed_toml(all.skip(i as int), key@),
        decreases fields.len() - i,
    {
        assert(all.skip(i as int)[0] == (fields@[i as int].key@, fields@[i as int].value@));
        if same(fields[i].key.as_str(), key) {
            return Some(&fields[i].value);
        }
        assert(all.skip(i as int).drop_first() =~= all.skip(i + 1));
        i += 1;
    }
    None
}

// ---------------------------------------------------------------------------
// Errors
// ---------------------------------------------------------------------------

/// Why there is no connection.
#[derive(Debug)]
pub enum CodexError {
    ConfigUnreadable,
    RootNotTable,
    NotText(String),
    NoProviderTable(String),
    UnsupportedAuth { provider: String, field: String },
    UnsupportedWireApi { provider: String, wire_api: String },
    MissingField { provider: String, field: String },
    InvalidBaseUrl(String),
    NotHttpBaseUrl(String),
    NotTable(String),
    EntryNotText { field: String, key: String },
    MissingEnvironment { provider: String, name: String },
    NotBoolean(String),
    ChatGptIncomplete,
    NoApiKey,
    NoApiKeyForProvider,
    UnsupportedAuthMode(String),
    UnsupportedAuthModeForProvider(String),
    NotLoggedIn,
    ProviderNeedsLogin,
    NotUnsigned(String),
    TooLarge(String),
    TooManyRetries { provider: String, retries: u32 },
}

#[allow(inconsistent_fields)]
pub enum CodexErrorView {
    ConfigUnreadable,
    RootNotTable,
    NotText(Seq<char>),
    NoProviderTable(Seq<char>),
    UnsupportedAuth { provider: Seq<char>, field: Seq<char> },
    UnsupportedWireApi { provider: Seq<char>, wire_api: Seq<char> },
    MissingField { provider: Seq<char>, field: Seq<char> },
    InvalidBaseUrl(Seq<char>),
    NotHttpBaseUrl(Seq<char>),
    NotTable(Seq<char>),
    EntryNotText { field: Seq<char>, key: Seq<char> },
    MissingEnvironment { provider: Seq<char>, name: Seq<char> },
    NotBoolean(Seq<char>),
    ChatGptIncomplete,
    NoApiKey,
    NoApiKeyForProvider,
    UnsupportedAuthMode(Seq<char>),
    UnsupportedAuthModeForProvider(Seq<char>),
    NotLoggedIn,
    ProviderNeedsLogin,
    NotUnsigned(Seq<char>),
    TooLarge(Seq<char>),
    TooManyRetries { provider: Seq<char>, retries: u32 },
}

impl View for CodexError {
    type V = CodexErrorView;

    open spec fn view(&self) -> CodexErrorView {
        match *self {
            CodexError::ConfigUnreadable => CodexErrorView::ConfigUnreadable,
            CodexError::RootNotTable => CodexErrorView::RootNotTable,
            CodexError::NotText(f) => CodexErrorView::NotText(f@),
            CodexError::NoProviderTable(p) => CodexErrorView::NoProviderTable(p@),
            CodexError::UnsupportedAuth { provider, field } => CodexErrorView::UnsupportedAuth {
                provider: provider@,
                field: field@,
            },
            CodexError::UnsupportedWireApi { provider, wire_api } => {
                CodexErrorView::UnsupportedWireApi { provider: provider@, wire_api: wire_api@ }
            },
            CodexError::MissingField { provider, field } => CodexErrorView::MissingField {
                provider: provider@,
                field: field@,
            },
            CodexError::InvalidBaseUrl(p) => CodexErrorView::InvalidBaseUrl(p@),
            CodexError::NotHttpBaseUrl(p) => CodexErrorView::NotHttpBaseUrl(p@),
            CodexError::NotTable(f) => CodexErrorView::NotTable(f@),
            CodexError::EntryNotText { field, key } => CodexErrorView::EntryNotText {
                field: field@,
                key: key@,
            },
            CodexError::MissingEnvironment { provider, name } => {
                CodexErrorView::MissingEnvironment { provider: provider@, name: name@ }
            },
            CodexError::NotBoolean(p) => CodexErrorView::NotBoolean(p@),
            CodexError::ChatGptIncomplete => CodexErrorView::ChatGptIncomplete,
            CodexError::NoApiKey => CodexErrorView::NoApiKey,
            CodexError::NoApiKeyForProvider => CodexErrorView::NoApiKeyForProvider,
            CodexError::UnsupportedAuthMode(m) => CodexErrorView::UnsupportedAuthMode(m@),
            CodexError::UnsupportedAuthModeForProvider(m) => {
                CodexErrorView::UnsupportedAuthModeForProvider(m@)
            },
            CodexError::NotLoggedIn => CodexErrorView::NotLoggedIn,
            CodexError::ProviderNeedsLogin => CodexErrorView::ProviderNeedsLogin,
            CodexError::NotUnsigned(f) => CodexErrorView::NotUnsigned(f@),
            CodexError::TooLarge(f) => CodexErrorView::TooLarge(f@),
            CodexError::TooManyRetries { provider, retries } => CodexErrorView::TooManyRetries {
                provider: provider@,
                retries,
            },
        }
    }
}

/// What an error says.
pub open spec fn codex_error_text(e: CodexErrorView) -> Seq<char> {
    match e {
        CodexErrorView::ConfigUnreadable => "parse Codex config.toml"@,
        CodexErrorView::RootNotTable => "Codex config.toml root must be a table"@,
        CodexErrorView::NotText(f) => "Codex field `"@ + f + "` must be a string"@,
        CodexErrorView::NoProviderTable(p) => "Codex model_provider `"@ + p
            + "` has no [model_providers."@ + p + "] table"@,
        CodexErrorView::UnsupportedAuth { provider, field } => "Codex provider `"@ + provider
            + "` uses unsupported authentication field `"@ + field + "`; Kaku sent no request"@,
        CodexErrorView::UnsupportedWireApi { provider, wire_api } => "Codex provider `"@ + provider
            + "` uses unsupported wire_api `"@ + wire_api + "`; Kaku sent no request"@,
        CodexErrorView::MissingField { provider, field } => "Codex provider `"@ + provider
            + "` is missing required field `"@ + field + "`"@,
        CodexErrorView::InvalidBaseUrl(p) => "Codex provider `"@ + p + "` has invalid base_url"@,
        CodexErrorView::NotHttpBaseUrl(p) => "Codex provider `"@ + p
            + "` base_url must be an absolute HTTP(S) URL"@,
        CodexErrorView::NotTable(f) => "Codex provider field `"@ + f + "` must be a table"@,
        CodexErrorView::EntryNotText { field, key } => "Codex provider field `"@ + field + "."@
            + key + "` must be a string"@,
        CodexErrorView::MissingEnvironment { provider, name } => "Codex provider `"@ + provider
            + "` requires environment variable `"@ + name + "` in the Kaku process"@,
        CodexErrorView::NotBoolean(p) => "Codex provider `"@ + p
            + "` field `requires_openai_auth` must be boolean"@,
        CodexErrorView::ChatGptIncomplete => {
            "Codex ChatGPT login is incomplete; run `codex login` again"@
        },
        CodexErrorView::NoApiKey => {
            "Codex API-key login has no OPENAI_API_KEY; run `codex login --with-api-key`"@
        },
        CodexErrorView::NoApiKeyForProvider => "Codex API-key login has no OPENAI_API_KEY"@,
        CodexErrorView::UnsupportedAuthMode(m) => "Codex auth_mode `"@ + m
            + "` is unsupported; Kaku sent no request"@,
        CodexErrorView::UnsupportedAuthModeForProvider(m) => "Codex auth_mode `"@ + m
            + "` is unsupported"@,
        CodexErrorView::NotLoggedIn => "Codex is not logged in; run `codex login`"@,
        CodexErrorView::ProviderNeedsLogin => {
            "Codex provider requires OpenAI auth, but Codex is not logged in"@
        },
        CodexErrorView::NotUnsigned(f) => "Codex field `"@ + f
            + "` must be a non-negative integer"@,
        CodexErrorView::TooLarge(f) => "Codex field `"@ + f + "` is too large"@,
        CodexErrorView::TooManyRetries { provider, retries } => "Codex provider `"@ + provider
            + "` configures "@ + decimal(retries as nat) + " retries; maximum supported is "@
            + decimal(MAX_CONFIGURED_RETRIES as nat),
    }
}

impl CodexError {
    pub fn message(&self) -> (r: String)
        ensures
            r@ == codex_error_text(self@),
    {
        match self {
            CodexError::ConfigUnreadable => "parse Codex config.toml".to_owned(),
            CodexError::RootNotTable => "Codex config.toml root must be a table".to_owned(),
            CodexError::NotText(f) => concat3("Codex field `", f.as_str(), "` must be a string"),
            CodexError::NoProviderTable(p) => concat5(
                "Codex model_provider `",
                p.as_str(),
                "` has no [model_providers.",
                p.as_str(),
                "] table",
            ),
            CodexError::UnsupportedAuth { provider, field } => concat5(
                "Codex provider `",
                provider.as_str(),
                "` uses unsupported authentication field `",
                field.as_str(),
                "`; Kaku sent no request",
            ),
            CodexError::UnsupportedWireApi { provider, wire_api } => concat5(
                "Codex provider `",
                provider.as_str(),
                "` uses unsupported wire_api `",
                wire_api.as_str(),
                "`; Kaku sent no request",
            ),
            CodexError::MissingField { provider, field } => concat5(
                "Codex provider `",
                provider.as_str(),
                "` is missing required field `",
                field.as_str(),
                "`",
            ),
            CodexError::InvalidBaseUrl(p) => concat3(
                "Codex provider `",
                p.as_str(),
                "` has invalid base_url",
            ),
            CodexError::NotHttpBaseUrl(p) => concat3(
                "Codex provider `",
                p.as_str(),
                "` base_url must be an absolute HTTP(S) URL",
            ),
            CodexError::NotTable(f) => concat3(
                "Codex provider field `",
                f.as_str(),
                "` must be a table",
            ),
            CodexError::EntryNotText { field, key } => concat5(
                "Codex provider field `",
                field.as_str(),
                ".",
                key.as_str(),
                "` must be a string",
            ),
            CodexError::MissingEnvironment { provider, name } => concat5(
                "Codex provider `",
                provider.as_str(),
                "` requires environment variable `",
                name.as_str(),
                "` in the Kaku process",
            ),
            CodexError::NotBoolean(p) => concat3(
                "Codex provider `",
                p.as_str(),
                "` field `requires_openai_auth` must be boolean",
            ),
            CodexError::ChatGptIncomplete => {
                "Codex ChatGPT login is incomplete; run `codex login` again".to_owned()
            },
            CodexError::NoApiKey => {
                "Codex API-key login has no OPENAI_API_KEY; run `codex login --with-api-key`".to_owned()
            },
            CodexError::NoApiKeyForProvider => {
                "Codex API-key login has no OPENAI_API_KEY".to_owned()
            },
            CodexError::UnsupportedAuthMode(m) => concat3(
                "Codex auth_mode `",
                m.as_str(),
                "` is unsupported; Kaku sent no request",
            ),
            CodexError::UnsupportedAuthModeForProvider(m) => concat3(
                "Codex auth_mode `",
                m.as_str(),
                "` is unsupported",
            ),
            CodexError::NotLoggedIn => "Codex is not logged in; run `codex login`".to_owned(),
            CodexError::ProviderNeedsLogin => {
                "Codex provider requires OpenAI auth, but Codex is not logged in".to_owned()
            },
            CodexError::NotUnsigned(f) => concat3(
                "Codex field `",
                f.as_str(),
                "` must be a non-negative integer",
            ),
            CodexError::TooLarge(f) => concat3("Codex field `", f.as_str(), "` is too large"),
            CodexError::TooManyRetries { provider, retries } => {
                let head = concat4(
                    "Codex provider `",
                    provider.as_str(),
                    "` configures ",
                    decimal_of(*retries as u128).as_str(),
                );
                concat3(
                    head.as_str(),
                    " retries; maximum supported is ",
                    decimal_of(MAX_CONFIGURED_RETRIES as u128).as_str(),
                )
            },
        }
    }
}

// ---------------------------------------------------------------------------
// Fields
// ---------------------------------------------------------------------------

pub open spec fn text_field(value: Option<TomlView>, field: Seq<char>) -> Result<
    Option<Seq<char>>,
    CodexErrorView,
> {
    match value {
        None => Ok(None),
        Some(TomlView::Text(s)) => Ok(Some(s)),
        Some(_) => Err(CodexErrorView::NotText(field)),
    }
}

pub open spec fn text_outcome(r: Result<Option<String>, CodexError>) -> Result<
    Option<Seq<char>>,
    CodexErrorView,
> {
    match r {
        Ok(o) => Ok(opt_view(o)),
        Err(e) => Err(e@),
    }
}

fn optional_string(value: Option<&TomlValue>, field: &str) -> (r: Result<
    Option<String>,
    CodexError,
>)
    ensures
        text_outcome(r) == text_field(opt_toml(value), field@),
{
    match value {
        None => Ok(None),
        Some(TomlValue::Text(s)) => Ok(Some(s.clone())),
        Some(_) => Err(CodexError::NotText(field.to_owned())),
    }
}

pub open spec fn unsigned_field(value: Option<TomlView>, field: Seq<char>) -> Result<
    Option<u64>,
    CodexErrorView,
> {
    match value {
        None => Ok(None),
        Some(TomlView::Integer(n)) => if n >= 0 {
            Ok(Some(n as u64))
        } else {
            Err(CodexErrorView::NotUnsigned(field))
        },
        Some(_) => Err(CodexErrorView::NotUnsigned(field)),
    }
}

fn optional_u64(value: Option<&TomlValue>, field: &str) -> (r: Result<Option<u64>, CodexError>)
    ensures
        (match r {
            Ok(o) => Ok(o),
            Err(e) => Err(e@),
        }) == unsigned_field(opt_toml(value), field@),
{
    match value {
        None => Ok(None),
        Some(TomlValue::Integer(n)) => if *n >= 0 {
            Ok(Some(*n as u64))
        } else {
            Err(CodexError::NotUnsigned(field.to_owned()))
        },
        Some(_) => Err(CodexError::NotUnsigned(field.to_owned())),
    }
}

pub open spec fn small_field(value: Option<TomlView>, field: Seq<char>) -> Result<
    Option<u32>,
    CodexErrorView,
> {
    match unsigned_field(value, field) {
        Err(e) => Err(e),
        Ok(None) => Ok(None),
        Ok(Some(n)) => if n <= u32::MAX {
            Ok(Some(n as u32))
        } else {
            Err(CodexErrorView::TooLarge(field))
        },
    }
}

fn optional_u32(value: Option<&TomlValue>, field: &str) -> (r: Result<Option<u32>, CodexError>)
    ensures
        (match r {
            Ok(o) => Ok(o),
            Err(e) => Err(e@),
        }) == small_field(opt_toml(value), field@),
{
    match optional_u64(value, field) {
        Err(e) => Err(e),
        Ok(None) => Ok(None),
        Ok(Some(n)) => if n <= u32::MAX as u64 {
            Ok(Some(n as u32))
        } else {
            Err(CodexError::TooLarge(field.to_owned()))
        },
    }
}

/// The first `n` entries of a table of texts, sorted by name; an error from the
/// first that is no text.
pub open spec fn text_entries(
    fields: Seq<(Seq<char>, TomlView)>,
    field: Seq<char>,
    n: nat,
) -> Result<Seq<(Seq<char>, Seq<char>)>, CodexErrorView>
    decreases n,
{
    if n == 0 || n > fields.len() {
        Ok(seq![])
    } else {
        match text_entries(fields, field, (n - 1) as nat) {
            Err(e) => Err(e),
            Ok(before) => match fields[n - 1].1 {
                TomlView::Text(v) => Ok(with_pair(before, fields[n - 1].0, v)),
                _ => Err(CodexErrorView::EntryNotText { field, key: fields[n - 1].0 }),
            },
        }
    }
}

/// A table of texts; a missing one is empty.
pub open spec fn text_table(value: Option<TomlView>, field: Seq<char>) -> Result<
    Seq<(Seq<char>, Seq<char>)>,
    CodexErrorView,
> {
    match value {
        None => Ok(seq![]),
        Some(TomlView::Table(fields)) => text_entries(fields, field, fields.len()),
        Some(_) => Err(CodexErrorView::NotTable(field)),
    }
}

pub open spec fn pairs_outcome(r: Result<Vec<Pair>, CodexError>) -> Result<
    Seq<(Seq<char>, Seq<char>)>,
    CodexErrorView,
> {
    match r {
        Ok(p) => Ok(pair_views(p@)),
        Err(e) => Err(e@),
    }
}

proof fn lemma_entries_fail(
    fields: Seq<(Seq<char>, TomlView)>,
    field: Seq<char>,
    n: nat,
    m: nat,
)
    requires
        n <= m <= fields.len(),
        text_entries(fields, field, n) is Err,
    ensures
        text_entries(fields, field, m) == text_entries(fields, field, n),
    decreases m,
{
    if n < m {
        lemma_entries_fail(fields, field, n, (m - 1) as nat);
    }
}

fn string_map(value: Option<&TomlValue>, field: &str) -> (r: Result<Vec<Pair>, CodexError>)
    ensures
        pairs_outcome(r) == text_table(opt_toml(value), field@),
{
    let mut out: Vec<Pair> = Vec::new();
    assert(pair_views(out@) =~= seq![]);
    match value {
        None => Ok(out),
        Some(TomlValue::Table(fields)) => {
            let ghost all = toml_fields(fields@);
            let mut i: usize = 0;
            while i < fields.len()
                invariant
                    i <= fields.len(),
                    all == toml_fields(fields@),
                    opt_toml(value) == Some(TomlView::Table(all)),
                    text_entries(all, field@, i as nat) == Ok::<
                        Seq<(Seq<char>, Seq<char>)>,
                        CodexErrorView,
                    >(pair_views(out@)),
                decreases fields.len() - i,
            {
                assert(all[i as int] == (fields@[i as int].key@, fields@[i as int].value@));
                match &fields[i].value {
                    TomlValue::Text(v) => {
                        set_pair(&mut out, fields[i].key.as_str(), v.clone());
                    },
                    _ => {
                        proof {
                            lemma_entries_fail(all, field@, (i + 1) as nat, all.len());
                        }
                        return Err(
                            CodexError::EntryNotText {
                                field: field.to_owned(),
                                key: fields[i].key.clone(),
                            },
                        );
                    },
                }
                i += 1;
            }
            Ok(out)
        },
        Some(_) => Err(CodexError::NotTable(field.to_owned())),
    }
}

// ---------------------------------------------------------------------------
// Sorted maps
// ---------------------------------------------------------------------------

/// The value listed under a name.
pub open spec fn lookup_pair(list: Seq<(Seq<char>, Seq<char>)>, name: Seq<char>) -> Option<
    Seq<char>,
>
    decreases list.len(),
{
    if list.len() == 0 {
        None
    } else if list[0].0 == name {
        Some(list[0].1)
    } else {
        lookup_pair(list.drop_first(), name)
    }
}

/// A list sorted by name with the value under `name` set: replaced where the
/// name is there, put in its place otherwise.
pub open spec fn with_pair(
    list: Seq<(Seq<char>, Seq<char>)>,
    name: Seq<char>,
    value: Seq<char>,
) -> Seq<(Seq<char>, Seq<char>)>
    decreases list.len(),
{
    if list.len() == 0 {
        seq![(name, value)]
    } else if list[0].0 == name {
        list.update(0, (name, value))
    } else if text_le(name, list[0].0) {
        seq![(name, value)] + list
    } else {
        seq![list[0]] + with_pair(list.drop_first(), name, value)
    }
}

/// The place of a name in a sorted list: where it is, or where it goes.
pub open spec fn is_slot(list: Seq<(Seq<char>, Seq<char>)>, name: Seq<char>, at: int) -> bool {
    &&& 0 <= at <= list.len()
    &&& forall|k: int| 0 <= k < at ==> list[k].0 != name && !text_le(name, (#[trigger] list[k]).0)
    &&& at < list.len() ==> list[at].0 == name || text_le(name, list[at].0)
}

proof fn lemma_with_pair(
    list: Seq<(Seq<char>, Seq<char>)>,
    name: Seq<char>,
    value: Seq<char>,
    at: int,
)
    requires
        is_slot(list, name, at),
    ensures
        with_pair(list, name, value) == if at < list.len() && list[at].0 == name {
            list.update(at, (name, value))
        } else {
            list.insert(at, (name, value))
        },
    decreases list.len(),
{
    if list.len() == 0 {
        assert(list.insert(0, (name, value)) =~= seq![(name, value)]);
    } else if at == 0 {
        assert(list.insert(0, (name, value)) =~= seq![(name, value)] + list);
    } else {
        assert(list[0].0 != name && !text_le(name, list[0].0));
        let rest = list.drop_first();
        assert forall|k: int| 0 <= k < at - 1 implies rest[k].0 != name && !text_le(
            name,
            (#[trigger] rest[k]).0,
        ) by {
            assert(rest[k] == list[k + 1]);
        }
        lemma_with_pair(rest, name, value, at - 1);
        if at < list.len() && list[at].0 == name {
            assert(seq![list[0]] + rest.update(at - 1, (name, value)) =~= list.update(
                at,
                (name, value),
            ));
        } else {
            assert(seq![list[0]] + rest.insert(at - 1, (name, value)) =~= list.insert(
                at,
                (name, value),
            ));
        }
    }
}

/// What was set is read back, and other names keep their values.
pub proof fn with_pair_reads_back(
    list: Seq<(Seq<char>, Seq<char>)>,
    name: Seq<char>,
    value: Seq<char>,
    other: Seq<char>,
)
    ensures
        lookup_pair(with_pair(list, name, value), name) == Some(value),
        other != name ==> lookup_pair(with_pair(list, name, value), other) == lookup_pair(
            list,
            other,
        ),
    decreases list.len(),
{
    let after = with_pair(list, name, value);
    if list.len() == 0 {
        assert(after.drop_first() =~= list);
    } else if list[0].0 == name {
        assert(after.drop_first() =~= list.drop_first());
    } else if text_le(name, list[0].0) {
        assert(after.drop_first() =~= list);
    } else {
        with_pair_reads_back(list.drop_first(), name, value, other);
        assert(after.drop_first() =~= with_pair(list.drop_first(), name, value));
    }
}

fn set_pair(list: &mut Vec<Pair>, name: &str, value: String)
    ensures
        pair_views(final(list)@) == with_pair(pair_views(old(list)@), name@, value@),
{
    let ghost all = pair_views(list@);
    let mut at: usize = 0;
    while at < list.len() && !same(list[at].name.as_str(), name) && !text_at_most(
        name,
        list[at].name.as_str(),
    )
        invariant
            at <= list.len(),
            all == pair_views(list@),
            forall|k: int|
                0 <= k < at ==> all[k].0 != name@ && !text_le(name@, (#[trigger] all[k]).0),
        decreases list.len() - at,
    {
        at += 1;
    }
    proof {
        if at < list.len() {
            assert(all[at as int].0 == list@[at as int].name@);
        }
        lemma_with_pair(all, name@, value@, at as int);
    }
    if at < list.len() && same(list[at].name.as_str(), name) {
        list.set(at, Pair { name: name.to_owned(), value });
        assert(pair_views(list@) =~= all.update(at as int, (name@, value@)));
    } else {
        list.insert(at, Pair { name: name.to_owned(), value });
        assert(pair_views(list@) =~= all.insert(at as int, (name@, value@)));
    }
}

// ---------------------------------------------------------------------------
// The connection
// ---------------------------------------------------------------------------

/// A ChatGPT login.
#[derive(Debug)]
pub struct CodexAuth {
    pub access_token: String,
    pub account_id: Option<String>,
}

/// What the login file of Codex says.
#[derive(Debug)]
pub struct CodexLogin {
    pub auth_mode: Option<String>,
    pub api_key: Option<String>,
    /// The ChatGPT login, where it is complete.
    pub chatgpt: Option<CodexAuth>,
}

#[derive(Debug)]
pub enum CodexCredential {
    ChatGpt(CodexAuth),
    Bearer(String),
    Anonymous,
}

pub enum CredentialView {
    ChatGpt(Seq<char>, Option<Seq<char>>),
    Bearer(Seq<char>),
    Anonymous,
}

impl View for CodexCredential {
    type V = CredentialView;

    open spec fn view(&self) -> CredentialView {
        match *self {
            CodexCredential::ChatGpt(a) => CredentialView::ChatGpt(
                a.access_token@,
                opt_view(a.account_id),
            ),
            CodexCredential::Bearer(key) => CredentialView::Bearer(key@),
            CodexCredential::Anonymous => CredentialView::Anonymous,
        }
    }
}

#[derive(Debug)]
pub struct CodexConnection {
    pub model: Option<String>,
    pub reasoning_effort: Option<String>,
    pub reasoning_summary: Option<String>,
    pub base_url: String,
    pub headers: Vec<Pair>,
    pub query_params: Vec<Pair>,
    pub credential: CodexCredential,
    pub request_max_attempts: u32,
    pub stream_max_retries: u32,
    pub stream_idle_timeout_ms: Option<u64>,
}

pub struct ConnectionView {
    pub model: Option<Seq<char>>,
    pub reasoning_effort: Option<Seq<char>>,
    pub reasoning_summary: Option<Seq<char>>,
    pub base_url: Seq<char>,
    pub headers: Seq<(Seq<char>, Seq<char>)>,
    pub query_params: Seq<(Seq<char>, Seq<char>)>,
    pub credential: CredentialView,
    pub request_max_attempts: u32,
    pub stream_max_retries: u32,
    pub stream_idle_timeout_ms: Option<u64>,
}

impl View for CodexConnection {
    type V = ConnectionView;

    open spec fn view(&self) -> ConnectionView {
        ConnectionView {
            model: opt_view(self.model),
            reasoning_effort: opt_view(self.reasoning_effort),
            reasoning_summary: opt_view(self.reasoning_summary),
            base_url: self.base_url@,
            headers: pair_views(self.headers@),
            query_params: pair_views(self.query_params@),
            credential: self.credential@,
            request_max_attempts: self.request_max_attempts,
            stream_max_retries: self.stream_max_retries,
            stream_idle_timeout_ms: self.stream_idle_timeout_ms,
        }
    }
}

impl CodexConnection {
    /// Where requests are sent.
    pub fn endpoint(&self) -> (r: String)
        ensures
            r@ == without_end(self.base_url@, '/') + "/responses"@,
    {
        concat2(trim_end_char(self.base_url.as_str(), '/').as_str(), "/responses")
    }

    /// Where the models are listed.
    pub fn models_endpoint(&self) -> (r: String)
        ensures
            r@ == without_end(self.base_url@, '/') + "/models"@,
    {
        concat2(trim_end_char(self.base_url.as_str(), '/').as_str(), "/models")
    }

    /// The configured model, where there is one that is not blank.
    pub fn configured_model(&self) -> (r: Option<String>)
        ensures
            opt_view(r) == (match opt_view(self.model) {
                Some(m) => if trimmed(m).len() > 0 {
                    Some(m)
                } else {
                    None
                },
                None => None,
            }),
    {
        match &self.model {
            Some(m) => if !trim(m.as_str()).as_str().is_empty() {
                Some(m.clone())
            } else {
                None
            },
            None => None,
        }
    }
}

/// Whether a URL is an absolute HTTP(S) one.
pub open spec fn is_http_base(u: UrlView) -> bool {
    (u.scheme == "http"@ || u.scheme == "https"@) && !(u.host matches HostView::Missing)
}

/// Whether a URL is an absolute HTTP(S) one, or why not.
pub open spec fn base_url_verdict(url: Option<UrlView>, provider: Seq<char>) -> Result<
    (),
    CodexErrorView,
> {
    match url {
        None => Err(CodexErrorView::InvalidBaseUrl(provider)),
        Some(u) => if is_http_base(u) {
            Ok(())
        } else {
            Err(CodexErrorView::NotHttpBaseUrl(provider))
        },
    }
}

/// Judges a parsed base URL.
pub fn judge_base_url(parsed: &Option<ParsedUrl>, provider_id: &str) -> (r: Result<(), CodexError>)
    ensures
        (match r {
            Ok(()) => Ok(()),
            Err(e) => Err(e@),
        }) == base_url_verdict(opt_url(*parsed), provider_id@),
{
    match parsed {
        None => Err(CodexError::InvalidBaseUrl(provider_id.to_owned())),
        Some(u) => {
            let http = same(u.scheme.as_str(), "http") || same(u.scheme.as_str(), "https");
            let hosted = match u.host {
                UrlHost::Missing => false,
                _ => true,
            };
            if http && hosted {
                Ok(())
            } else {
                Err(CodexError::NotHttpBaseUrl(provider_id.to_owned()))
            }
        },
    }
}

fn validate_base_url(base_url: &str, provider_id: &str) -> (r: Result<(), CodexError>)
    ensures
        (match r {
            Ok(()) => Ok(()),
            Err(e) => Err(e@),
        }) == base_url_verdict(url_parts(base_url@), provider_id@),
{
    let parsed = parse_url(base_url);
    judge_base_url(&parsed, provider_id)
}

/// The variables of the process.
#[derive(Debug)]
pub struct Environment {
    pub vars: Vec<Pair>,
}

fn env_value(env: &Environment, name: &str) -> (r: Option<String>)
    ensures
        opt_view(r) == lookup_pair(pair_views(env.vars@), name@),
{
    let ghost all = pair_views(env.vars@);
    let mut i: usize = 0;
    assert(all.skip(0) =~= all);
    while i < env.vars.len()
        invariant
            i <= env.vars.len(),
            all == pair_views(env.vars@),
            lookup_pair(all, name@) == lookup_pair(all.skip(i as int), name@),
        decreases env.vars.len() - i,
    {
        assert(all.skip(i as int)[0] == (env.vars@[i as int].name@, env.vars@[i as int].value@));
        if same(env.vars[i].name.as_str(), name) {
            return Some(env.vars[i].value.clone());
        }
        assert(all.skip(i as int).drop_first() =~= all.skip(i + 1));
        i += 1;
    }
    None
}

/// A variable that has to be set, and not to the empty text.
pub open spec fn needed_env(env: Environment, name: Seq<char>, provider: Seq<char>) -> Result<
    Seq<char>,
    CodexErrorView,
> {
    match lookup_pair(pair_views(env.vars@), name) {
        Some(v) => if v.len() > 0 {
            Ok(v)
        } else {
            Err(CodexErrorView::MissingEnvironment { provider, name })
        },
        None => Err(CodexErrorView::MissingEnvironment { provider, name }),
    }
}

pub fn required_env(env: &Environment, name: &str, provider_id: &str) -> (r: Result<
    String,
    CodexError,
>)
    ensures
        (match r {
            Ok(v) => Ok(v@),
            Err(e) => Err(e@),
        }) == needed_env(*env, name@, provider_id@),
{
    match env_value(env, name) {
        Some(v) => if !v.as_str().is_empty() {
            Ok(v)
        } else {
            Err(
                CodexError::MissingEnvironment {
                    provider: provider_id.to_owned(),
                    name: name.to_owned(),
                },
            )
        },
        None => Err(
            CodexError::MissingEnvironment {
                provider: provider_id.to_owned(),
                name: name.to_owned(),
            },
        ),
    }
}

pub open spec fn retry_verdict(retries: u32, provider: Seq<char>) -> Result<u32, CodexErrorView> {
    if retries > MAX_CONFIGURED_RETRIES {
        Err(CodexErrorView::TooManyRetries { provider, retries })
    } else {
        Ok(retries)
    }
}

pub fn checked_retries(retries: u32, provider_id: &str) -> (r: Result<u32, CodexError>)
    ensures
        (match r {
            Ok(n) => Ok(n),
            Err(e) => Err(e@),
        }) == retry_verdict(retries, provider_id@),
{
    if retries > MAX_CONFIGURED_RETRIES {
        Err(CodexError::TooManyRetries { provider: provider_id.to_owned(), retries })
    } else {
        Ok(retries)
    }
}

/// The attempts that a number of retries allows: one more.
pub fn checked_retry_attempts(retries: u32, provider_id: &str) -> (r: Result<u32, CodexError>)
    ensures
        (match r {
            Ok(n) => Ok(n),
            Err(e) => Err(e@),
        }) == (match retry_verdict(retries, provider_id@) {
            Ok(n) => Ok((n + 1) as u32),
            Err(e) => Err(e),
        }),
{
    match checked_retries(retries, provider_id) {
        Ok(n) => Ok(n + 1),
        Err(e) => Err(e),
    }
}

/// Headers with the values of variables added: each name is set to the value of
/// its variable.
pub open spec fn env_headers(
    headers: Seq<(Seq<char>, Seq<char>)>,
    from_env: Seq<(Seq<char>, Seq<char>)>,
    env: Environment,
    provider: Seq<char>,
    n: nat,
) -> Result<Seq<(Seq<char>, Seq<char>)>, CodexErrorView>
    decreases n,
{
    if n == 0 || n > from_env.len() {
        Ok(headers)
    } else {
        match env_headers(headers, from_env, env, provider, (n - 1) as nat) {
            Err(e) => Err(e),
            Ok(before) => match needed_env(env, from_env[n - 1].1, provider) {
                Err(e) => Err(e),
                Ok(value) => Ok(with_pair(before, from_env[n - 1].0, value)),
            },
        }
    }
}

proof fn lemma_env_fail(
    headers: Seq<(Seq<char>, Seq<char>)>,
    from_env: Seq<(Seq<char>, Seq<char>)>,
    env: Environment,
    provider: Seq<char>,
    n: nat,
    m: nat,
)
    requires
        n <= m <= from_env.len(),
        env_headers(headers, from_env, env, provider, n) is Err,
    ensures
        env_headers(headers, from_env, env, provider, m) == env_headers(
            headers,
            from_env,
            env,
            provider,
            n,
        ),
    decreases m,
{
    if n < m {
        lemma_env_fail(headers, from_env, env, provider, n, (m - 1) as nat);
    }
}

fn add_env_headers(
    headers: Vec<Pair>,
    from_env: &Vec<Pair>,
    env: &Environment,
    provider_id: &str,
) -> (r: Result<Vec<Pair>, CodexError>)
    ensures
        pairs_outcome(r) == env_headers(
            pair_views(headers@),
            pair_views(from_env@),
            *env,
            provider_id@,
            from_env@.len(),
        ),
{
    let ghost start = pair_views(headers@);
    let ghost names = pair_views(from_env@);
    let mut out = headers;
    let mut i: usize = 0;
    while i < from_env.len()
        invariant
            i <= from_env.len(),
            start == pair_views(headers@),
            names == pair_views(from_env@),
            env_headers(start, names, *env, provider_id@, i as nat) == Ok::<
                Seq<(Seq<char>, Seq<char>)>,
                CodexErrorView,
            >(pair_views(out@)),
        decreases from_env.len() - i,
    {
        assert(names[i as int] == (from_env@[i as int].name@, from_env@[i as int].value@));
        match required_env(env, from_env[i].value.as_str(), provider_id) {
            Err(e) => {
                proof {
                    lemma_env_fail(
                        start,
                        names,
                        *env,
                        provider_id@,
                        (i + 1) as nat,
                        names.len(),
                    );
                }
                return Err(e);
            },
            Ok(value) => set_pair(&mut out, from_env[i].name.as_str(), value),
        }
        i += 1;
    }
    Ok(out)
}

pub open spec fn login_mode(auth: Option<CodexLogin>) -> Option<Seq<char>> {
    match auth {
        Some(login) => opt_view(login.auth_mode),
        None => None,
    }
}

pub open spec fn is_api_key_mode(mode: Seq<char>) -> bool {
    mode == "apikey"@ || mode == "api-key"@ || mode == "api_key"@
}

/// The API key of a login that is not blank.
pub open spec fn login_key(auth: Option<CodexLogin>) -> Option<Seq<char>> {
    match auth {
        Some(login) => match opt_view(login.api_key) {
            Some(key) => if trimmed(key).len() > 0 {
                Some(key)
            } else {
                None
            },
            None => None,
        },
        None => None,
    }
}

pub open spec fn chatgpt_credential(auth: Option<CodexLogin>) -> Option<CredentialView> {
    match auth {
        Some(login) => match login.chatgpt {
            Some(a) => Some(CredentialView::ChatGpt(a.access_token@, opt_view(a.account_id))),
            None => None,
        },
        None => None,
    }
}

/// The credential of a provider that uses the OpenAI login.
pub open spec fn login_credential(auth: Option<CodexLogin>) -> Result<
    CredentialView,
    CodexErrorView,
> {
    match login_mode(auth) {
        None => Err(CodexErrorView::ProviderNeedsLogin),
        Some(mode) => if mode == "chatgpt"@ {
            match chatgpt_credential(auth) {
                Some(c) => Ok(c),
                None => Err(CodexErrorView::ChatGptIncomplete),
            }
        } else if is_api_key_mode(mode) {
            match login_key(auth) {
                Some(key) => Ok(CredentialView::Bearer(key)),
                None => Err(CodexErrorView::NoApiKeyForProvider),
            }
        } else {
            Err(CodexErrorView::UnsupportedAuthModeForProvider(mode))
        },
    }
}

pub open spec fn opt_login(auth: Option<&CodexLogin>) -> Option<CodexLogin> {
    match auth {
        Some(login) => Some(*login),
        None => None,
    }
}

fn auth_mode<'a>(auth: Option<&'a CodexLogin>) -> (r: Option<&'a str>)
    ensures
        opt_str(r) == login_mode(opt_login(auth)),
{
    match auth {
        Some(login) => match &login.auth_mode {
            Some(m) => Some(m.as_str()),
            None => None,
        },
        None => None,
    }
}

fn api_key(auth: Option<&CodexLogin>) -> (r: Option<String>)
    ensures
        opt_view(r) == login_key(opt_login(auth)),
{
    match auth {
        Some(login) => match &login.api_key {
            Some(key) => if !trim(key.as_str()).as_str().is_empty() {
                Some(key.clone())
            } else {
                None
            },
            None => None,
        },
        None => None,
    }
}

fn chatgpt_login(auth: Option<&CodexLogin>) -> (r: Option<CodexCredential>)
    ensures
        (match r {
            Some(c) => Some(c@),
            None => None,
        }) == chatgpt_credential(opt_login(auth)),
{
    match auth {
        Some(login) => match &login.chatgpt {
            Some(a) => Some(
                CodexCredential::ChatGpt(
                    CodexAuth {
                        access_token: a.access_token.clone(),
                        account_id: clone_opt(&a.account_id),
                    },
                ),
            ),
            None => None,
        },
        None => None,
    }
}

fn is_key_mode(mode: &str) -> (r: bool)
    ensures
        r == is_api_key_mode(mode@),
{
    same(mode, "apikey") || same(mode, "api-key") || same(mode, "api_key")
}

pub open spec fn credential_outcome(r: Result<CodexCredential, CodexError>) -> Result<
    CredentialView,
    CodexErrorView,
> {
    match r {
        Ok(c) => Ok(c@),
        Err(e) => Err(e@),
    }
}

fn credential_from_auth(auth: Option<&CodexLogin>) -> (r: Result<CodexCredential, CodexError>)
    ensures
        credential_outcome(r) == login_credential(opt_login(auth)),
{
    let mode = match auth_mode(auth) {
        Some(m) => m,
        None => {
            return Err(CodexError::ProviderNeedsLogin);
        },
    };
    if same(mode, "chatgpt") {
        match chatgpt_login(auth) {
            Some(c) => Ok(c),
            None => Err(CodexError::ChatGptIncomplete),
        }
    } else if is_key_mode(mode) {
        match api_key(auth) {
            Some(key) => Ok(CodexCredential::Bearer(key)),
            None => Err(CodexError::NoApiKeyForProvider),
        }
    } else {
        Err(CodexError::UnsupportedAuthModeForProvider(mode.to_owned()))
    }
}

/// The settings at the root of the configuration.
struct Settings {
    model: Option<String>,
    effort: Option<String>,
    summary: Option<String>,
    openai_base_url: Option<String>,
    chatgpt_base_url: Option<String>,
    provider: Option<String>,
}

pub struct SettingsView {
    pub model: Option<Seq<char>>,
    pub effort: Option<Seq<char>>,
    pub summary: Option<Seq<char>>,
    pub openai_base_url: Option<Seq<char>>,
    pub chatgpt_base_url: Option<Seq<char>>,
    pub provider: Option<Seq<char>>,
}

impl View for Settings {
    type V = SettingsView;

    closed spec fn view(&self) -> SettingsView {
        SettingsView {
            model: opt_view(self.model),
            effort: opt_view(self.effort),
            summary: opt_view(self.summary),
            openai_base_url: opt_view(self.openai_base_url),
            chatgpt_base_url: opt_view(self.chatgpt_base_url),
            provider: opt_view(self.provider),
        }
    }
}

pub open spec fn root_text(root: Seq<(Seq<char>, TomlView)>, field: Seq<char>) -> Result<
    Option<Seq<char>>,
    CodexErrorView,
> {
    text_field(listed_toml(root, field), field)
}

/// The settings at the root, read in this order up to the first error.
pub open spec fn settings_of(root: Seq<(Seq<char>, TomlView)>) -> Result<
    SettingsView,
    CodexErrorView,
> {
    match root_text(root, "model"@) {
        Err(e) => Err(e),
        Ok(model) => match root_text(root, "model_reasoning_effort"@) {
            Err(e) => Err(e),
            Ok(effort) => match root_text(root, "model_reasoning_summary"@) {
                Err(e) => Err(e),
                Ok(summary) => match root_text(root, "openai_base_url"@) {
                    Err(e) => Err(e),
                    Ok(openai_base_url) => match root_text(root, "chatgpt_base_url"@) {
                        Err(e) => Err(e),
                        Ok(chatgpt_base_url) => match root_text(root, "model_provider"@) {
                            Err(e) => Err(e),
                            Ok(provider) => Ok(
                                SettingsView {
                                    model,
                                    effort,
                                    summary,
                                    openai_base_url,
                                    chatgpt_base_url,
                                    provider,
                                },
                            ),
                        },
                    },
                },
            },
        },
    }
}

fn read_text(root: &Vec<TomlField>, field: &str) -> (r: Result<Option<String>, CodexError>)
    ensures
        text_outcome(r) == root_text(toml_fields(root@), field@),
{
    optional_string(get_toml(root, field), field)
}

fn read_settings(root: &Vec<TomlField>) -> (r: Result<Settings, CodexError>)
    ensures
        (match r {
            Ok(s) => Ok(s@),
            Err(e) => Err(e@),
        }) == settings_of(toml_fields(root@)),
{
    let model = match read_text(root, "model") {
        Ok(v) => v,
        Err(e) => {
            return Err(e);
        },
    };
    let effort = match read_text(root, "model_reasoning_effort") {
        Ok(v) => v,
        Err(e) => {
            return Err(e);
        },
    };
    let summary = match read_text(root, "model_reasoning_summary") {
        Ok(v) => v,
        Err(e) => {
            return Err(e);
        },
    };
    let openai_base_url = match read_text(root, "openai_base_url") {
        Ok(v) => v,
        Err(e) => {
            return Err(e);
        },
    };
    let chatgpt_base_url = match read_text(root, "chatgpt_base_url") {
        Ok(v) => v,
        Err(e) => {
            return Err(e);
        },
    };
    let provider = match read_text(root, "model_provider") {
        Ok(v) => v,
        Err(e) => {
            return Err(e);
        },
    };
    Ok(Settings { model, effort, summary, openai_base_url, chatgpt_base_url, provider })
}

pub open spec fn or_text(value: Option<Seq<char>>, default: Seq<char>) -> Seq<char> {
    match value {
        Some(v) => v,
        None => default,
    }
}

/// The base URL and the credential of the built-in provider.
pub open spec fn builtin_target(s: SettingsView, auth: Option<CodexLogin>) -> Result<
    (Seq<char>, CredentialView),
    CodexErrorView,
> {
    match login_mode(auth) {
        None => Err(CodexErrorView::NotLoggedIn),
        Some(mode) => if mode == "chatgpt"@ {
            match chatgpt_credential(auth) {
                None => Err(CodexErrorView::ChatGptIncomplete),
                Some(c) => Ok(
                    (
                        without_end(
                            or_text(s.chatgpt_base_url, "https://chatgpt.com/backend-api"@),
                            '/',
                        ) + "/codex"@,
                        c,
                    ),
                ),
            }
        } else if is_api_key_mode(mode) {
            match login_key(auth) {
                None => Err(CodexErrorView::NoApiKey),
                Some(key) => Ok(
                    (
                        or_text(s.openai_base_url, "https://api.openai.com/v1"@),
                        CredentialView::Bearer(key),
                    ),
                ),
            }
        } else {
            Err(CodexErrorView::UnsupportedAuthMode(mode))
        },
    }
}

/// The connection of the built-in provider.
pub open spec fn builtin_connection(s: SettingsView, auth: Option<CodexLogin>) -> Result<
    ConnectionView,
    CodexErrorView,
> {
    match builtin_target(s, auth) {
        Err(e) => Err(e),
        Ok((base_url, credential)) => match base_url_verdict(url_parts(base_url), "openai"@) {
            Err(e) => Err(e),
            Ok(()) => Ok(
                ConnectionView {
                    model: s.model,
                    reasoning_effort: s.effort,
                    reasoning_summary: s.summary,
                    base_url,
                    headers: seq![],
                    query_params: seq![],
                    credential,
                    request_max_attempts: (DEFAULT_REQUEST_RETRIES + 1) as u32,
                    stream_max_retries: 0,
                    stream_idle_timeout_ms: None,
                },
            ),
        },
    }
}

pub open spec fn connection_outcome(r: Result<CodexConnection, CodexError>) -> Result<
    ConnectionView,
    CodexErrorView,
> {
    match r {
        Ok(c) => Ok(c@),
        Err(e) => Err(e@),
    }
}

fn builtin_base_and_credential(s: &Settings, auth: Option<&CodexLogin>) -> (r: Result<
    (String, CodexCredential),
    CodexError,
>)
    ensures
        (match r {
            Ok((u, c)) => Ok((u@, c@)),
            Err(e) => Err(e@),
        }) == builtin_target(s@, opt_login(auth)),
{
    let mode = match auth_mode(auth) {
        Some(m) => m,
        None => {
            return Err(CodexError::NotLoggedIn);
        },
    };
    if same(mode, "chatgpt") {
        let credential = match chatgpt_login(auth) {
            Some(c) => c,
            None => {
                return Err(CodexError::ChatGptIncomplete);
            },
        };
        let base = match &s.chatgpt_base_url {
            Some(u) => u.as_str(),
            None => "https://chatgpt.com/backend-api",
        };
        Ok((concat2(trim_end_char(base, '/').as_str(), "/codex"), credential))
    } else if is_key_mode(mode) {
        let key = match api_key(auth) {
            Some(k) => k,
            None => {
                return Err(CodexError::NoApiKey);
            },
        };
        let base = match &s.openai_base_url {
            Some(u) => u.clone(),
            None => "https://api.openai.com/v1".to_owned(),
        };
        Ok((base, CodexCredential::Bearer(key)))
    } else {
        Err(CodexError::UnsupportedAuthMode(mode.to_owned()))
    }
}

fn resolve_builtin_openai(s: Settings, auth: Option<&CodexLogin>) -> (r: Result<
    CodexConnection,
    CodexError,
>)
    ensures
        connection_outcome(r) == builtin_connection(s@, opt_login(auth)),
{
    let (base_url, credential) = match builtin_base_and_credential(&s, auth) {
        Ok(t) => t,
        Err(e) => {
            return Err(e);
        },
    };
    if let Err(e) = validate_base_url(base_url.as_str(), "openai") {
        return Err(e);
    }
    let connection = CodexConnection {
        model: s.model,
        reasoning_effort: s.effort,
        reasoning_summary: s.summary,
        base_url,
        headers: Vec::new(),
        query_params: Vec::new(),
        credential,
        request_max_attempts: DEFAULT_REQUEST_RETRIES + 1,
        stream_max_retries: 0,
        stream_idle_timeout_ms: None,
    };
    assert(connection@.headers =~= seq![]);
    assert(connection@.query_params =~= seq![]);
    Ok(connection)
}

/// The table of the provider, among the tables of all providers.
pub open spec fn provider_table(root: Seq<(Seq<char>, TomlView)>, provider: Seq<char>) -> Result<
    Seq<(Seq<char>, TomlView)>,
    CodexErrorView,
> {
    match listed_toml(root, "model_providers"@) {
        Some(TomlView::Table(providers)) => match listed_toml(providers, provider) {
            Some(TomlView::Table(table)) => Ok(table),
            _ => Err(CodexErrorView::NoProviderTable(provider)),
        },
        _ => Err(CodexErrorView::NoProviderTable(provider)),
    }
}

fn find_provider<'a>(root: &'a Vec<TomlField>, provider_id: &str) -> (r: Result<
    &'a Vec<TomlField>,
    CodexError,
>)
    ensures
        (match r {
            Ok(t) => Ok(toml_fields(t@)),
            Err(e) => Err(e@),
        }) == provider_table(toml_fields(root@), provider_id@),
{
    match get_toml(root, "model_providers") {
        Some(TomlValue::Table(providers)) => match get_toml(providers, provider_id) {
            Some(TomlValue::Table(table)) => Ok(table),
            _ => Err(CodexError::NoProviderTable(provider_id.to_owned())),
        },
        _ => Err(CodexError::NoProviderTable(provider_id.to_owned())),
    }
}

/// Authentication that is not supported is refused, whatever its value.
pub open spec fn auth_fields_verdict(
    table: Seq<(Seq<char>, TomlView)>,
    provider: Seq<char>,
) -> Result<
    (),
    CodexErrorView,
> {
    if listed_toml(table, "experimental_bearer_token"@) is Some {
        Err(
            CodexErrorView::UnsupportedAuth { provider, field: "experimental_bearer_token"@ },
        )
    } else if listed_toml(table, "aws"@) is Some {
        Err(CodexErrorView::UnsupportedAuth { provider, field: "aws"@ })
    } else if listed_toml(table, "auth"@) is Some {
        Err(CodexErrorView::UnsupportedAuth { provider, field: "auth"@ })
    } else {
        Ok(())
    }
}

fn unsupported_auth(provider_id: &str, field: &str) -> (r: CodexError)
    ensures
        r@ == (CodexErrorView::UnsupportedAuth { provider: provider_id@, field: field@ }),
{
    CodexError::UnsupportedAuth { provider: provider_id.to_owned(), field: field.to_owned() }
}

fn reject_unsupported_auth(provider: &Vec<TomlField>, provider_id: &str) -> (r: Result<
    (),
    CodexError,
>)
    ensures
        (match r {
            Ok(()) => Ok(()),
            Err(e) => Err(e@),
        }) == auth_fields_verdict(toml_fields(provider@), provider_id@),
{
    if get_toml(provider, "experimental_bearer_token").is_some() {
        return Err(unsupported_auth(provider_id, "experimental_bearer_token"));
    }
    if get_toml(provider, "aws").is_some() {
        return Err(unsupported_auth(provider_id, "aws"));
    }
    if get_toml(provider, "auth").is_some() {
        return Err(unsupported_auth(provider_id, "auth"));
    }
    Ok(())
}

/// The base URL of a provider: its wire API has to be the supported one, the
/// URL to be there, and to be an absolute HTTP(S) one.
pub open spec fn provider_url(table: Seq<(Seq<char>, TomlView)>, provider: Seq<char>) -> Result<
    Seq<char>,
    CodexErrorView,
> {
    match auth_fields_verdict(table, provider) {
        Err(e) => Err(e),
        Ok(()) => match root_text(table, "wire_api"@) {
            Err(e) => Err(e),
            Ok(api) => {
                let wire_api = or_text(api, "responses"@);
                if wire_api != "responses"@ {
                    Err(CodexErrorView::UnsupportedWireApi { provider, wire_api })
                } else {
                    match root_text(table, "base_url"@) {
                        Err(e) => Err(e),
                        Ok(None) => Err(
                            CodexErrorView::MissingField { provider, field: "base_url"@ },
                        ),
                        Ok(Some(base_url)) => match base_url_verdict(
                            url_parts(base_url),
                            provider,
                        ) {
                            Err(e) => Err(e),
                            Ok(()) => Ok(base_url),
                        },
                    }
                }
            },
        },
    }
}

fn read_provider_url(provider: &Vec<TomlField>, provider_id: &str) -> (r: Result<
    String,
    CodexError,
>)
    ensures
        (match r {
            Ok(u) => Ok(u@),
            Err(e) => Err(e@),
        }) == provider_url(toml_fields(provider@), provider_id@),
{
    if let Err(e) = reject_unsupported_auth(provider, provider_id) {
        return Err(e);
    }
    let wire_api = match read_text(provider, "wire_api") {
        Err(e) => {
            return Err(e);
        },
        Ok(Some(api)) => api,
        Ok(None) => "responses".to_owned(),
    };
    if !same(wire_api.as_str(), "responses") {
        return Err(
            CodexError::UnsupportedWireApi { provider: provider_id.to_owned(), wire_api },
        );
    }
    let base_url = match read_text(provider, "base_url") {
        Err(e) => {
            return Err(e);
        },
        Ok(Some(url)) => url,
        Ok(None) => {
            return Err(
                CodexError::MissingField {
                    provider: provider_id.to_owned(),
                    field: "base_url".to_owned(),
                },
            );
        },
    };
    match validate_base_url(base_url.as_str(), provider_id) {
        Err(e) => Err(e),
        Ok(()) => Ok(base_url),
    }
}

/// The headers of a provider: the fixed ones, and those from the environment.
pub open spec fn provider_headers(
    table: Seq<(Seq<char>, TomlView)>,
    env: Environment,
    provider: Seq<char>,
) -> Result<Seq<(Seq<char>, Seq<char>)>, CodexErrorView> {
    match text_table(listed_toml(table, "http_headers"@), "http_headers"@) {
        Err(e) => Err(e),
        Ok(fixed) => match text_table(listed_toml(table, "env_http_headers"@), "env_http_headers"@) {
            Err(e) => Err(e),
            Ok(from_env) => env_headers(fixed, from_env, env, provider, from_env.len()),
        },
    }
}

fn read_headers(provider: &Vec<TomlField>, env: &Environment, provider_id: &str) -> (r: Result<
    Vec<Pair>,
    CodexError,
>)
    ensures
        pairs_outcome(r) == provider_headers(toml_fields(provider@), *env, provider_id@),
{
    let fixed = match string_map(get_toml(provider, "http_headers"), "http_headers") {
        Ok(v) => v,
        Err(e) => {
            return Err(e);
        },
    };
    let from_env = match string_map(get_toml(provider, "env_http_headers"), "env_http_headers") {
        Ok(v) => v,
        Err(e) => {
            return Err(e);
        },
    };
    assert(pair_views(from_env@).len() == from_env@.len());
    add_env_headers(fixed, &from_env, env, provider_id)
}

pub open spec fn wants_login(table: Seq<(Seq<char>, TomlView)>, provider: Seq<char>) -> Result<
    bool,
    CodexErrorView,
> {
    match listed_toml(table, "requires_openai_auth"@) {
        None => Ok(false),
        Some(TomlView::Boolean(b)) => Ok(b),
        Some(_) => Err(CodexErrorView::NotBoolean(provider)),
    }
}

/// The credential of a provider: a variable, the OpenAI login, or none.
pub open spec fn provider_credential(
    table: Seq<(Seq<char>, TomlView)>,
    env: Environment,
    auth: Option<CodexLogin>,
    provider: Seq<char>,
) -> Result<CredentialView, CodexErrorView> {
    match wants_login(table, provider) {
        Err(e) => Err(e),
        Ok(login) => match root_text(table, "env_key"@) {
            Err(e) => Err(e),
            Ok(Some(name)) => match needed_env(env, name, provider) {
                Err(e) => Err(e),
                Ok(value) => Ok(CredentialView::Bearer(value)),
            },
            Ok(None) => if login {
                login_credential(auth)
            } else {
                Ok(CredentialView::Anonymous)
            },
        },
    }
}

fn read_credential(
    provider: &Vec<TomlField>,
    env: &Environment,
    auth: Option<&CodexLogin>,
    provider_id: &str,
) -> (r: Result<CodexCredential, CodexError>)
    ensures
        credential_outcome(r) == provider_credential(
            toml_fields(provider@),
            *env,
            opt_login(auth),
            provider_id@,
        ),
{
    let requires_openai_auth = match get_toml(provider, "requires_openai_auth") {
        None => false,
        Some(TomlValue::Boolean(b)) => *b,
        Some(_) => {
            return Err(CodexError::NotBoolean(provider_id.to_owned()));
        },
    };
    match read_text(provider, "env_key") {
        Err(e) => Err(e),
        Ok(Some(name)) => match required_env(env, name.as_str(), provider_id) {
            Err(e) => Err(e),
            Ok(value) => Ok(CodexCredential::Bearer(value)),
        },
        Ok(None) => if requires_openai_auth {
            credential_from_auth(auth)
        } else {
            Ok(CodexCredential::Anonymous)
        },
    }
}

/// The attempts, the retries of a stream, and its idle timeout.
pub open spec fn provider_limits(table: Seq<(Seq<char>, TomlView)>, provider: Seq<char>) -> Result<
    (u32, u32, Option<u64>),
    CodexErrorView,
> {
    match small_field(listed_toml(table, "request_max_retries"@), "request_max_retries"@) {
        Err(e) => Err(e),
        Ok(request) => match small_field(
            listed_toml(table, "stream_max_retries"@),
            "stream_max_retries"@,
        ) {
            Err(e) => Err(e),
            Ok(stream) => match unsigned_field(
                listed_toml(table, "stream_idle_timeout_ms"@),
                "stream_idle_timeout_ms"@,
            ) {
                Err(e) => Err(e),
                Ok(idle) => match retry_verdict(
                    match request {
                        Some(n) => n,
                        None => DEFAULT_REQUEST_RETRIES,
                    },
                    provider,
                ) {
                    Err(e) => Err(e),
                    Ok(retries) => match retry_verdict(
                        match stream {
                            Some(n) => n,
                            None => 0,
                        },
                        provider,
                    ) {
                        Err(e) => Err(e),
                        Ok(stream_retries) => Ok(((retries + 1) as u32, stream_retries, idle)),
                    },
                },
            },
        },
    }
}

fn read_limits(provider: &Vec<TomlField>, provider_id: &str) -> (r: Result<
    (u32, u32, Option<u64>),
    CodexError,
>)
    ensures
        (match r {
            Ok(l) => Ok(l),
            Err(e) => Err(e@),
        }) == provider_limits(toml_fields(provider@), provider_id@),
{
    let request: u32 = match optional_u32(
        get_toml(provider, "request_max_retries"),
        "request_max_retries",
    ) {
        Err(e) => {
            return Err(e);
        },
        Ok(Some(n)) => n,
        Ok(None) => DEFAULT_REQUEST_RETRIES,
    };
    let stream: u32 = match optional_u32(
        get_toml(provider, "stream_max_retries"),
        "stream_max_retries",
    ) {
        Err(e) => {
            return Err(e);
        },
        Ok(Some(n)) => n,
        Ok(None) => 0,
    };
    let idle = match optional_u64(
        get_toml(provider, "stream_idle_timeout_ms"),
        "stream_idle_timeout_ms",
    ) {
        Err(e) => {
            return Err(e);
        },
        Ok(v) => v,
    };
    let attempts = match checked_retry_attempts(request, provider_id) {
        Err(e) => {
            return Err(e);
        },
        Ok(n) => n,
    };
    match checked_retries(stream, provider_id) {
        Err(e) => Err(e),
        Ok(n) => Ok((attempts, n, idle)),
    }
}

/// The connection of a provider that the configuration describes.
pub open spec fn provider_connection(
    s: SettingsView,
    table: Seq<(Seq<char>, TomlView)>,
    auth: Option<CodexLogin>,
    env: Environment,
    provider: Seq<char>,
) -> Result<ConnectionView, CodexErrorView> {
    match provider_url(table, provider) {
        Err(e) => Err(e),
        Ok(base_url) => match provider_headers(table, env, provider) {
            Err(e) => Err(e),
            Ok(headers) => match text_table(listed_toml(table, "query_params"@), "query_params"@) {
                Err(e) => Err(e),
                Ok(query_params) => match provider_credential(table, env, auth, provider) {
                    Err(e) => Err(e),
                    Ok(credential) => match provider_limits(table, provider) {
                        Err(e) => Err(e),
                        Ok((attempts, stream, idle)) => Ok(
                            ConnectionView {
                                model: s.model,
                                reasoning_effort: s.effort,
                                reasoning_summary: s.summary,
                                base_url,
                                headers,
                                query_params,
                                credential,
                                request_max_attempts: attempts,
                                stream_max_retries: stream,
                                stream_idle_timeout_ms: idle,
                            },
                        ),
                    },
                },
            },
        },
    }
}

fn resolve_provider(
    s: Settings,
    provider: &Vec<TomlField>,
    auth: Option<&CodexLogin>,
    env: &Environment,
    provider_id: &str,
) -> (r: Result<CodexConnection, CodexError>)
    ensures
        connection_outcome(r) == provider_connection(
            s@,
            toml_fields(provider@),
            opt_login(auth),
            *env,
            provider_id@,
        ),
{
    let base_url = match read_provider_url(provider, provider_id) {
        Ok(v) => v,
        Err(e) => {
            return Err(e);
        },
    };
    let headers = match read_headers(provider, env, provider_id) {
        Ok(v) => v,
        Err(e) => {
            return Err(e);
        },
    };
    let query_params = match string_map(get_toml(provider, "query_params"), "query_params") {
        Ok(v) => v,
        Err(e) => {
            return Err(e);
        },
    };
    let credential = match read_credential(provider, env, auth, provider_id) {
        Ok(v) => v,
        Err(e) => {
            return Err(e);
        },
    };
    match read_limits(provider, provider_id) {
        Err(e) => Err(e),
        Ok((attempts, stream, idle)) => Ok(
            CodexConnection {
                model: s.model,
                reasoning_effort: s.effort,
                reasoning_summary: s.summary,
                base_url,
                headers,
                query_params,
                credential,
                request_max_attempts: attempts,
                stream_max_retries: stream,
                stream_idle_timeout_ms: idle,
            },
        ),
    }
}

/// The connection that a configuration and a login describe.
pub open spec fn connection_of(
    config: TomlView,
    auth: Option<CodexLogin>,
    env: Environment,
) -> Result<ConnectionView, CodexErrorView> {
    match config {
        TomlView::Table(root) => match settings_of(root) {
            Err(e) => Err(e),
            Ok(s) => {
                let provider = or_text(s.provider, "openai"@);
                if provider == "openai"@ {
                    builtin_connection(s, auth)
                } else {
                    match provider_table(root, provider) {
                        Err(e) => Err(e),
                        Ok(table) => provider_connection(s, table, auth, env, provider),
                    }
                }
            },
        },
        _ => Err(CodexErrorView::RootNotTable),
    }
}

/// Resolves the connection of a configuration that was read.
pub fn connect(config: &TomlValue, auth: Option<&CodexLogin>, env: &Environment) -> (r: Result<
    CodexConnection,
    CodexError,
>)
    ensures
        connection_outcome(r) == connection_of(config@, opt_login(auth), *env),
{
    let root = match config {
        TomlValue::Table(root) => root,
        _ => {
            return Err(CodexError::RootNotTable);
        },
    };
    let settings = match read_settings(root) {
        Ok(s) => s,
        Err(e) => {
            return Err(e);
        },
    };
    let provider_id = match &settings.provider {
        Some(p) => p.clone(),
        None => "openai".to_owned(),
    };
    if same(provider_id.as_str(), "openai") {
        return resolve_builtin_openai(settings, auth);
    }
    match find_provider(root, provider_id.as_str()) {
        Err(e) => Err(e),
        Ok(table) => resolve_provider(settings, table, auth, env, provider_id.as_str()),
    }
}

/// What a configuration file says: a blank one says nothing.
pub open spec fn config_contents(raw: Seq<char>) -> Option<TomlView> {
    if trimmed(raw).len() == 0 {
        Some(TomlView::Table(seq![]))
    } else {
        toml_document(raw)
    }
}

/// Resolves the connection from the text of the configuration file, the login
/// and the environment.
pub fn resolve_codex_connection(
    config_raw: &str,
    auth: Option<&CodexLogin>,
    env: &Environment,
) -> (r: Result<CodexConnection, CodexError>)
    ensures
        connection_outcome(r) == (match config_contents(config_raw@) {
            None => Err(CodexErrorView::ConfigUnreadable),
            Some(config) => connection_of(config, opt_login(auth), *env),
        }),
{
    if trim(config_raw).as_str().is_empty() {
        let fields: Vec<TomlField> = Vec::new();
        assert(toml_fields(fields@) =~= seq![]);
        return connect(&TomlValue::Table(fields), auth, env);
    }
    match read_toml(config_raw) {
        None => Err(CodexError::ConfigUnreadable),
        Some(value) => connect(&open_toml(value), auth, env),
    }
}

/// The parts of the login file that decide, with the ChatGPT login that was
/// read from it.
pub fn codex_login(auth: &JsonValue, chatgpt: Option<CodexAuth>) -> (r: CodexLogin)
    ensures
        opt_view(r.auth_mode) == text_of(field_of(auth@, "auth_mode"@)),
        opt_view(r.api_key) == text_of(field_of(auth@, "OPENAI_API_KEY"@)),
        r.chatgpt == chatgpt,
{
    let auth_mode = match auth.get_str("auth_mode") {
        Some(s) => Some(s.to_owned()),
        None => None,
    };
    let api_key = match auth.get_str("OPENAI_API_KEY") {
        Some(s) => Some(s.to_owned()),
        None => None,
    };
    CodexLogin { auth_mode, api_key, chatgpt }
}

// ---------------------------------------------------------------------------
// Laws
// ---------------------------------------------------------------------------

/// Whatever is configured, a connection makes between one and eleven attempts,
/// retries a stream at most ten times, and talks to an absolute HTTP(S) URL.
pub proof fn connections_are_bounded(
    config: TomlView,
    auth: Option<CodexLogin>,
    env: Environment,
)
    requires
        connection_of(config, auth, env) is Ok,
    ensures
        ({
            let c = connection_of(config, auth, env)->Ok_0;
            &&& 1 <= c.request_max_attempts <= MAX_CONFIGURED_RETRIES + 1
            &&& c.stream_max_retries <= MAX_CONFIGURED_RETRIES
            &&& url_parts(c.base_url) matches Some(u) && is_http_base(u)
        }),
{
}

/// Whether a list is strictly sorted by name: no name stands in it twice.
pub open spec fn sorted_by_name(list: Seq<(Seq<char>, Seq<char>)>) -> bool {
    forall|i: int, j: int|
        0 <= i < j < list.len() ==> text_le((#[trigger] list[i]).0, (#[trigger] list[j]).0)
            && list[i].0 != list[j].0
}

proof fn lemma_with_pair_sorted(
    list: Seq<(Seq<char>, Seq<char>)>,
    name: Seq<char>,
    value: Seq<char>,
)
    requires
        sorted_by_name(list),
    ensures
        sorted_by_name(with_pair(list, name, value)),
        forall|k: int|
            0 <= k < with_pair(list, name, value).len() ==> (#[trigger] with_pair(
                list,
                name,
                value,
            )[k]).0 == name || exists|m: int|
                0 <= m < list.len() && (#[trigger] list[m]).0 == with_pair(list, name, value)[k].0,
    decreases list.len(),
{
    let after = with_pair(list, name, value);
    if list.len() == 0 {
    } else if list[0].0 == name {
        assert forall|k: int| 0 <= k < after.len() implies (#[trigger] after[k]).0
            == list[k].0 by {}
        assert forall|i: int, j: int| 0 <= i < j < after.len() implies text_le(
            (#[trigger] after[i]).0,
            (#[trigger] after[j]).0,
        ) && after[i].0 != after[j].0 by {
            assert(text_le(list[i].0, list[j].0) && list[i].0 != list[j].0);
        }
    } else if text_le(name, list[0].0) {
        assert forall|k: int| 1 <= k < after.len() implies (#[trigger] after[k]) == list[k - 1] by {
        }
        assert forall|i: int, j: int| 0 <= i < j < after.len() implies text_le(
            (#[trigger] after[i]).0,
            (#[trigger] after[j]).0,
        ) && after[i].0 != after[j].0 by {
            if i == 0 {
                if j > 1 {
                    assert(text_le(list[0].0, list[j - 1].0));
                    lemma_text_le_transitive(name, list[0].0, list[j - 1].0);
                    if name == list[j - 1].0 {
                        lemma_text_le_antisymmetric(name, list[0].0);
                    }
                }
            } else {
                assert(text_le(list[i - 1].0, list[j - 1].0));
            }
        }
    } else {
        let rest = list.drop_first();
        assert forall|i: int, j: int| 0 <= i < j < rest.len() implies text_le(
            (#[trigger] rest[i]).0,
            (#[trigger] rest[j]).0,
        ) && rest[i].0 != rest[j].0 by {
            assert(rest[i] == list[i + 1] && rest[j] == list[j + 1]);
        }
        lemma_with_pair_sorted(rest, name, value);
        let tail = with_pair(rest, name, value);
        lemma_text_le_total(name, list[0].0);
        assert forall|k: int| 1 <= k < after.len() implies (#[trigger] after[k]) == tail[k - 1] by {
        }
        assert forall|k: int| 0 <= k < tail.len() implies text_le(
            list[0].0,
            (#[trigger] tail[k]).0,
        ) && list[0].0 != tail[k].0 && (tail[k].0 == name || exists|m: int|
            0 <= m < list.len() && (#[trigger] list[m]).0 == tail[k].0) by {
            if tail[k].0 != name {
                let m = choose|m: int| 0 <= m < rest.len() && (#[trigger] rest[m]).0 == tail[k].0;
                assert(list[m + 1] == rest[m]);
            }
        }
        assert forall|i: int, j: int| 0 <= i < j < after.len() implies text_le(
            (#[trigger] after[i]).0,
            (#[trigger] after[j]).0,
        ) && after[i].0 != after[j].0 by {
            if i == 0 {
                assert(after[j] == tail[j - 1]);
            } else {
                assert(after[i] == tail[i - 1] && after[j] == tail[j - 1]);
            }
        }
    }
}

proof fn lemma_entries_sorted(fields: Seq<(Seq<char>, TomlView)>, field: Seq<char>, n: nat)
    ensures
        text_entries(fields, field, n) matches Ok(list) ==> sorted_by_name(list),
    decreases n,
{
    if 0 < n <= fields.len() {
        lemma_entries_sorted(fields, field, (n - 1) as nat);
        if let Ok(before) = text_entries(fields, field, (n - 1) as nat) {
            if let TomlView::Text(v) = fields[n - 1].1 {
                lemma_with_pair_sorted(before, fields[n - 1].0, v);
            }
        }
    }
}

proof fn lemma_table_sorted(value: Option<TomlView>, field: Seq<char>)
    ensures
        text_table(value, field) matches Ok(list) ==> sorted_by_name(list),
{
    if let Some(TomlView::Table(fields)) = value {
        lemma_entries_sorted(fields, field, fields.len());
    }
}

proof fn lemma_env_sorted(
    headers: Seq<(Seq<char>, Seq<char>)>,
    from_env: Seq<(Seq<char>, Seq<char>)>,
    env: Environment,
    provider: Seq<char>,
    n: nat,
)
    requires
        sorted_by_name(headers),
    ensures
        env_headers(headers, from_env, env, provider, n) matches Ok(list) ==> sorted_by_name(list),
    decreases n,
{
    if 0 < n <= from_env.len() {
        lemma_env_sorted(headers, from_env, env, provider, (n - 1) as nat);
        if let Ok(before) = env_headers(headers, from_env, env, provider, (n - 1) as nat) {
            if let Ok(value) = needed_env(env, from_env[n - 1].1, provider) {
                lemma_with_pair_sorted(before, from_env[n - 1].0, value);
            }
        }
    }
}

proof fn lemma_provider_sorted(
    table: Seq<(Seq<char>, TomlView)>,
    env: Environment,
    provider: Seq<char>,
)
    ensures
        provider_headers(table, env, provider) matches Ok(list) ==> sorted_by_name(list),
        text_table(listed_toml(table, "query_params"@), "query_params"@) matches Ok(list)
            ==> sorted_by_name(list),
{
    lemma_table_sorted(listed_toml(table, "http_headers"@), "http_headers"@);
    lemma_table_sorted(listed_toml(table, "env_http_headers"@), "env_http_headers"@);
    lemma_table_sorted(listed_toml(table, "query_params"@), "query_params"@);
    if let Ok(fixed) = text_table(listed_toml(table, "http_headers"@), "http_headers"@) {
        if let Ok(from_env) = text_table(
            listed_toml(table, "env_http_headers"@),
            "env_http_headers"@,
        ) {
            lemma_env_sorted(fixed, from_env, env, provider, from_env.len());
        }
    }
}

/// The headers and the query parameters of a connection stand strictly sorted
/// by name.
pub proof fn headers_are_sorted(config: TomlView, auth: Option<CodexLogin>, env: Environment)
    requires
        connection_of(config, auth, env) is Ok,
    ensures
        sorted_by_name(connection_of(config, auth, env)->Ok_0.headers),
        sorted_by_name(connection_of(config, auth, env)->Ok_0.query_params),
{
    if let TomlView::Table(root) = config {
        if let Ok(s) = settings_of(root) {
            let provider = or_text(s.provider, "openai"@);
            if let Ok(table) = provider_table(root, provider) {
                lemma_provider_sorted(table, env, provider);
            }
        }
    }
}

/// A provider with authentication that is not supported never yields a
/// connection, whatever else it says.
pub proof fn unsupported_auth_fails_closed(
    s: SettingsView,
    table: Seq<(Seq<char>, TomlView)>,
    auth: Option<CodexLogin>,
    env: Environment,
    provider: Seq<char>,
)
    requires
        listed_toml(table, "experimental_bearer_token"@) is Some || listed_toml(
            table,
            "aws"@,
        ) is Some || listed_toml(table, "auth"@) is Some,
    ensures
        provider_connection(s, table, auth, env, provider) matches Err(
            CodexErrorView::UnsupportedAuth { .. },
        ),
{
}

/// A provider that does not ask for the OpenAI login never gets it: its
/// credential is a variable of its own or none at all.
pub proof fn login_is_not_shared_unasked(
    table: Seq<(Seq<char>, TomlView)>,
    env: Environment,
    a: Option<CodexLogin>,
    b: Option<CodexLogin>,
    provider: Seq<char>,
)
    requires
        wants_login(table, provider) == Ok::<bool, CodexErrorView>(false),
    ensures
        provider_credential(table, env, a, provider) == provider_credential(
            table,
            env,
            b,
            provider,
        ),
{
}

} // verus!
