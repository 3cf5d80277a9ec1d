//! Path-resolution and sensitive-path guards used by every fs / search tool.
//!
//! Nothing here touches the disk: what only the file system can tell (the
//! canonical form of a path, the nearest ancestor that exists, `$HOME`) comes
//! in as an argument.
use crate::json::{
    JsonValue, JsonView, field_of, opt_str, text_of, value_with, value_with_reads_back,
};
use crate::text::{
    char_replaced, chars_of, concat2, concat3, contains, ends_with, join, joined, lowered, occurs,
    opt_view, replace_char, same, split_char, split_on, starts_with, string_of_range,
    to_ascii_lowercase, views,
};
use vstd::prelude::*;
use vstd::string::*;

verus! {

// ---------------------------------------------------------------------------
// Paths as text
// ---------------------------------------------------------------------------

pub open spec fn is_absolute(path: Seq<char>) -> bool {
    path.len() > 0 && path[0] == '/'
}

/// `PathBuf::join`: an absolute path replaces the base, any other is appended
/// to it behind one separator.
pub open spec fn path_join(base: Seq<char>, path: Seq<char>) -> Seq<char> {
    if is_absolute(path) || base.len() == 0 {
        path
    } else if base.last() == '/' {
        base + path
    } else {
        base + seq!['/'] + path
    }
}

pub fn join_path(base: &str, path: &str) -> (r: String)
    ensures
        r@ == path_join(base@, path@),
{
    let b = chars_of(base);
    let p = chars_of(path);
    if (p.len() > 0 && p[0] == '/') || b.len() == 0 {
        path.to_owned()
    } else if b[b.len() - 1] == '/' {
        concat2(base, path)
    } else {
        proof {
            reveal_strlit("/");
            assert("/"@ =~= seq!['/']);
        }
        concat3(base, "/", path)
    }
}

/// Whether a piece between separators is a component: empty pieces and dots
/// are not, but for a dot that starts a relative path.
pub open spec fn is_part(piece: Seq<char>, leading: bool) -> bool {
    piece.len() > 0 && (piece != seq!['.'] || leading)
}

/// The components among the first `n` pieces of a path.
pub open spec fn parts_among(pieces: Seq<Seq<char>>, n: nat) -> Seq<Seq<char>>
    decreases n,
{
    if n == 0 || n > pieces.len() {
        seq![]
    } else {
        let before = parts_among(pieces, (n - 1) as nat);
        if is_part(pieces[n - 1], n == 1) {
            before.push(pieces[n - 1])
        } else {
            before
        }
    }
}

/// The named components of a path, in order: `Path::components` without the
/// root.
pub open spec fn named_parts(path: Seq<char>) -> Seq<Seq<char>> {
    parts_among(split_on(path, '/'), split_on(path, '/').len())
}

pub(crate) fn name_parts(path: &str) -> (r: Vec<String>)
    ensures
        views(r@) == named_parts(path@),
{
    let pieces = split_char(path, '/');
    let ghost all = split_on(path@, '/');
    let mut out: Vec<String> = Vec::new();
    let mut i: usize = 0;
    assert(views(out@) =~= seq![]);
    while i < pieces.len()
        invariant
            i <= pieces.len(),
            all == views(pieces@),
            views(out@) == parts_among(all, i as nat),
        decreases pieces.len() - i,
    {
        let piece = pieces[i].as_str();
        assert(all[i as int] == piece@);
        let dot = is_dot(piece);
        let ghost before = views(out@);
        if !piece.is_empty() && (!dot || i == 0) {
            out.push(pieces[i].clone());
            assert(views(out@) =~= before.push(piece@));
        }
        i += 1;
    }
    out
}

fn is_dot(piece: &str) -> (r: bool)
    ensures
        r == (piece@ == seq!['.']),
{
    let cs = chars_of(piece);
    let r = cs.len() == 1 && cs[0] == '.';
    proof {
        if r {
            assert(piece@ =~= seq!['.']);
        }
    }
    r
}

fn is_dot_dot(piece: &str) -> (r: bool)
    ensures
        r == (piece@ == seq!['.', '.']),
{
    let cs = chars_of(piece);
    let r = cs.len() == 2 && cs[0] == '.' && cs[1] == '.';
    proof {
        if r {
            assert(piece@ =~= seq!['.', '.']);
        }
    }
    r
}

/// Whether `path` is `base` or lies below it: `Path::starts_with`, component
/// by component.
pub open spec fn path_within(path: Seq<char>, base: Seq<char>) -> bool {
    is_absolute(path) == is_absolute(base) && named_parts(base).is_prefix_of(named_parts(path))
}

fn is_within(path: &str, base: &str) -> (r: bool)
    ensures
        r == path_within(path@, base@),
{
    let abs = starts_with_slash(path) == starts_with_slash(base);
    let p = name_parts(path);
    let b = name_parts(base);
    abs && is_strings_prefix(&b, &p)
}

pub(crate) fn starts_with_slash(path: &str) -> (r: bool)
    ensures
        r == is_absolute(path@),
{
    let cs = chars_of(path);
    cs.len() > 0 && cs[0] == '/'
}

fn is_strings_prefix(a: &Vec<String>, b: &Vec<String>) -> (r: bool)
    ensures
        r == views(a@).is_prefix_of(views(b@)),
{
    if a.len() > b.len() {
        return false;
    }
    let ghost x = views(a@);
    let ghost y = views(b@);
    let mut i: usize = 0;
    while i < a.len()
        invariant
            i <= a.len() <= b.len(),
            x == views(a@),
            y == views(b@),
            forall|k: int| 0 <= k < i ==> #[trigger] x[k] == y[k],
        decreases a.len() - i,
    {
        if !same(a[i].as_str(), b[i].as_str()) {
            assert(x[i as int] != y[i as int]);
            assert(y.subrange(0, x.len() as int)[i as int] == y[i as int]);
            return false;
        }
        i += 1;
    }
    assert(y.subrange(0, x.len() as int) =~= x);
    true
}

/// The final component, where it is a name: `Path::file_name`.
pub open spec fn file_name_of(path: Seq<char>) -> Option<Seq<char>> {
    let parts = named_parts(path);
    if parts.len() == 0 || parts.last() == seq!['.', '.'] || parts.last() == seq!['.'] {
        None
    } else {
        Some(parts.last())
    }
}

pub fn file_name(path: &str) -> (r: Option<String>)
    ensures
        opt_view(r) == file_name_of(path@),
{
    let parts = name_parts(path);
    if parts.len() == 0 {
        return None;
    }
    let last = parts[parts.len() - 1].as_str();
    assert(named_parts(path@).last() == last@);
    if is_dot_dot(last) || is_dot(last) {
        None
    } else {
        Some(last.to_owned())
    }
}

// ---------------------------------------------------------------------------
// Sensitive names
// ---------------------------------------------------------------------------

/// Names that mark a file as a placeholder.
pub open spec fn placeholder_name(lower: Seq<char>) -> bool {
    ".example"@.is_suffix_of(lower) || ".sample"@.is_suffix_of(lower) || ".template"@.is_suffix_of(
        lower,
    ) || ".dist"@.is_suffix_of(lower)
}

/// The text behind the last dot: the second half of `str::rsplit_once`.
pub open spec fn extension_of(name: Seq<char>) -> Option<Seq<char>> {
    let pieces = split_on(name, '.');
    if pieces.len() < 2 {
        None
    } else {
        Some(pieces.last())
    }
}

pub open spec fn code_extension(ext: Seq<char>) -> bool {
    ext == "rs"@ || ext == "go"@ || ext == "py"@ || ext == "ts"@ || ext == "tsx"@ || ext == "js"@
        || ext == "jsx"@ || ext == "mjs"@ || ext == "cjs"@ || ext == "java"@ || ext == "kt"@ || ext
        == "swift"@ || ext == "c"@ || ext == "h"@ || ext == "cpp"@ || ext == "hpp"@ || ext == "cc"@
        || ext == "cs"@ || ext == "rb"@ || ext == "php"@ || ext == "ex"@ || ext == "exs"@ || ext
        == "erl"@ || ext == "hs"@ || ext == "ml"@ || ext == "scala"@ || ext == "lua"@ || ext
        == "md"@ || ext == "mdx"@ || ext == "rst"@ || ext == "html"@ || ext == "css"@ || ext
        == "scss"@ || ext == "vue"@ || ext == "svelte"@ || ext == "sql"@ || ext == "proto"@
}

/// Whether a lowercase name has an extension of source code or documentation.
pub open spec fn source_or_doc(lower: Seq<char>) -> bool {
    extension_of(lower) matches Some(ext) && code_extension(ext)
}

/// Extensions that indicate source code or documentation rather than a
/// credential data file. Data/config extensions (json, toml, yml, ini, csv,
/// txt, no extension, ...) deliberately stay outside this list so they remain
/// blocked when the name mentions credentials.
pub fn has_source_or_doc_extension(lower_name: &str) -> (r: bool)
    ensures
        r == source_or_doc(lower_name@),
{
    let pieces = split_char(lower_name, '.');
    if pieces.len() < 2 {
        return false;
    }
    let e = pieces[pieces.len() - 1].as_str();
    assert(split_on(lower_name@, '.').last() == e@);
    same(e, "rs") || same(e, "go") || same(e, "py") || same(e, "ts") || same(e, "tsx") || same(
        e,
        "js",
    ) || same(e, "jsx") || same(e, "mjs") || same(e, "cjs") || same(e, "java") || same(e, "kt")
        || same(e, "swift") || same(e, "c") || same(e, "h") || same(e, "cpp") || same(e, "hpp")
        || same(e, "cc") || same(e, "cs") || same(e, "rb") || same(e, "php") || same(e, "ex")
        || same(e, "exs") || same(e, "erl") || same(e, "hs") || same(e, "ml") || same(e, "scala")
        || same(e, "lua") || same(e, "md") || same(e, "mdx") || same(e, "rst") || same(e, "html")
        || same(e, "css") || same(e, "scss") || same(e, "vue") || same(e, "svelte") || same(
        e,
        "sql",
    ) || same(e, "proto")
}

/// Names of files that keep tokens, and of private keys.
pub open spec fn token_file(lower: Seq<char>) -> bool {
    lower == ".git-credentials"@ || lower == ".netrc"@ || lower == ".npmrc"@ || lower == ".pypirc"@
        || lower == "assistant.toml"@ || lower == "id_rsa"@ || lower == "id_dsa"@ || lower
        == "id_ecdsa"@ || lower == "id_ed25519"@
}

/// Whether a file name commonly holds secrets, whatever its directory.
pub open spec fn sensitive_name(name: Seq<char>) -> bool {
    let lower = lowered(name);
    &&& !placeholder_name(lower)
    &&& {
        ||| lower == ".env"@
        ||| ".env."@.is_prefix_of(lower)
        ||| ".pem"@.is_suffix_of(lower)
        ||| ".key"@.is_suffix_of(lower)
        ||| occurs(lower, "credentials"@) && !source_or_doc(lower)
        ||| token_file(lower)
    }
}

/// File-name patterns that commonly hold secrets regardless of directory
/// (`.env`, private keys, PEM material). Obvious example/template files are
/// allowed because they are committed to repos on purpose and carry no
/// secrets.
pub fn is_sensitive_filename(name: &str) -> (r: bool)
    ensures
        r == sensitive_name(name@),
{
    let lower = to_ascii_lowercase(name);
    let l = lower.as_str();
    // `.env.example`, `config.pem.sample`, `secrets.key.template`, ... are
    // placeholders, not real credentials.
    if ends_with(l, ".example") || ends_with(l, ".sample") || ends_with(l, ".template")
        || ends_with(l, ".dist") {
        return false;
    }
    // Dotenv files: `.env`, `.env.local`, `.env.production`, ...
    if same(l, ".env") || starts_with(l, ".env.") {
        return true;
    }
    // Private key material by extension.
    if ends_with(l, ".pem") || ends_with(l, ".key") {
        return true;
    }
    // Credential stores: block data/config shapes ("credentials",
    // "aws_credentials.json", ...) but keep source code and docs that merely
    // have "credentials" in the name readable.
    if contains(l, "credentials") && !has_source_or_doc_extension(l) {
        return true;
    }
    same(l, ".git-credentials") || same(l, ".netrc") || same(l, ".npmrc") || same(l, ".pypirc")
        || same(l, "assistant.toml") || same(l, "id_rsa") || same(l, "id_dsa") || same(
        l,
        "id_ecdsa",
    ) || same(l, "id_ed25519")
}

/// Whether a name mentions credentials but is source code or documentation.
pub open spec fn credential_source(name: Seq<char>) -> bool {
    occurs(lowered(name), "credentials"@) && source_or_doc(lowered(name))
}

/// Credential-named source/doc files (`credentials.py`, `credentials.md`)
/// are readable, but only behind a per-file approval prompt: they often hold
/// real secrets in source form, so a prompt-injected read must not be silent.
pub fn is_credential_named_source_file(name: &str) -> (r: bool)
    ensures
        r == credential_source(name@),
{
    let lower = to_ascii_lowercase(name);
    contains(lower.as_str(), "credentials") && has_source_or_doc_extension(lower.as_str())
}

/// Directory names whose contents are refused.
pub open spec fn sensitive_directory(name: Seq<char>) -> bool {
    lowered(name) == ".ssh"@ || lowered(name) == ".gnupg"@ || lowered(name) == "secrets"@
}

pub fn is_sensitive_directory_name(name: &str) -> (r: bool)
    ensures
        r == sensitive_directory(name@),
{
    let lower = to_ascii_lowercase(name);
    same(lower.as_str(), ".ssh") || same(lower.as_str(), ".gnupg") || same(
        lower.as_str(),
        "secrets",
    )
}

/// A name that mentions credentials is refused or at least asked about, unless
/// it is a placeholder: no such file is read in silence.
pub proof fn credential_names_are_never_silent(name: Seq<char>)
    requires
        occurs(lowered(name), "credentials"@),
        !placeholder_name(lowered(name)),
    ensures
        sensitive_name(name) || credential_source(name),
{
}

// ---------------------------------------------------------------------------
// Guards
// ---------------------------------------------------------------------------

/// Why a path is refused.
#[derive(Debug)]
pub enum PathError {
    HomeUnset,
    MissingPath,
    Protected(String),
    CredentialDirectory(String),
    CredentialFile(String),
    OutsideWorkingDirectory(String),
    WorkingDirectoryUnresolved(String),
    AncestorUnresolved(String),
    ReadTargetUnresolved(String),
}

pub enum PathErrorView {
    HomeUnset,
    MissingPath,
    Protected(Seq<char>),
    CredentialDirectory(Seq<char>),
    CredentialFile(Seq<char>),
    OutsideWorkingDirectory(Seq<char>),
    WorkingDirectoryUnresolved(Seq<char>),
    AncestorUnresolved(Seq<char>),
    ReadTargetUnresolved(Seq<char>),
}

impl View for PathError {
    type V = PathErrorView;

    open spec fn view(&self) -> PathErrorView {
        match *self {
            PathError::HomeUnset => PathErrorView::HomeUnset,
            PathError::MissingPath => PathErrorView::MissingPath,
            PathError::Protected(p) => PathErrorView::Protected(p@),
            PathError::CredentialDirectory(p) => PathErrorView::CredentialDirectory(p@),
            PathError::CredentialFile(p) => PathErrorView::CredentialFile(p@),
            PathError::OutsideWorkingDirectory(p) => PathErrorView::OutsideWorkingDirectory(p@),
            PathError::WorkingDirectoryUnresolved(p) => PathErrorView::WorkingDirectoryUnresolved(
                p@,
            ),
            PathError::AncestorUnresolved(p) => PathErrorView::AncestorUnresolved(p@),
            PathError::ReadTargetUnresolved(p) => PathErrorView::ReadTargetUnresolved(p@),
        }
    }
}

/// What an error says.
pub open spec fn path_error_text(e: PathErrorView) -> Seq<char> {
    match e {
        PathErrorView::HomeUnset => "HOME not set"@,
        PathErrorView::MissingPath => "missing path"@,
        PathErrorView::Protected(p) => "refused: '"@ + p + "' is a protected secret location"@,
        PathErrorView::CredentialDirectory(p) => "refused: '"@ + p
            + "' is inside a credential directory"@,
        PathErrorView::CredentialFile(p) => "refused: '"@ + p + "' looks like a credential file"@,
        PathErrorView::OutsideWorkingDirectory(p) => "path '"@ + p
            + "' resolves outside the working directory; use an absolute path to access it"@,
        PathErrorView::WorkingDirectoryUnresolved(p) => "resolve working directory '"@ + p + "'"@,
        PathErrorView::AncestorUnresolved(p) => "resolve '"@ + p + "'"@,
        PathErrorView::ReadTargetUnresolved(p) => "resolve read target '"@ + p + "'"@,
    }
}

impl PathError {
    /// What the error says.
    pub fn message(&self) -> (r: String)
        ensures
            r@ == path_error_text(self@),
    {
        match self {
            PathError::HomeUnset => "HOME not set".to_owned(),
            PathError::MissingPath => "missing path".to_owned(),
            PathError::Protected(p) => concat3(
                "refused: '",
                p.as_str(),
                "' is a protected secret location",
            ),
            PathError::CredentialDirectory(p) => concat3(
                "refused: '",
                p.as_str(),
                "' is inside a credential directory",
            ),
            PathError::CredentialFile(p) => concat3(
                "refused: '",
                p.as_str(),
                "' looks like a credential file",
            ),
            PathError::OutsideWorkingDirectory(p) => concat3(
                "path '",
                p.as_str(),
                "' resolves outside the working directory; use an absolute path to access it",
            ),
            PathError::WorkingDirectoryUnresolved(p) => concat3(
                "resolve working directory '",
                p.as_str(),
                "'",
            ),
            PathError::AncestorUnresolved(p) => concat3("resolve '", p.as_str(), "'"),
            PathError::ReadTargetUnresolved(p) => concat3("resolve read target '", p.as_str(), "'"),
        }
    }
}

pub open spec fn path_result(r: Result<String, PathError>) -> Result<Seq<char>, PathErrorView> {
    match r {
        Ok(s) => Ok(s@),
        Err(e) => Err(e@),
    }
}

pub open spec fn guard_result(r: Result<(), PathError>) -> Result<(), PathErrorView> {
    match r {
        Ok(()) => Ok(()),
        Err(e) => Err(e@),
    }
}

/// The home directory forms at the start of a text, expanded.
pub open spec fn user_expanded(s: Seq<char>, home: Option<Seq<char>>) -> Option<Seq<char>> {
    match home {
        None => None,
        Some(h) => if s == "~"@ || s == "$HOME"@ || s == "${HOME}"@ {
            Some(h)
        } else if "~/"@.is_prefix_of(s) {
            Some(path_join(h, s.skip("~/"@.len() as int)))
        } else if "$HOME/"@.is_prefix_of(s) {
            Some(path_join(h, s.skip("$HOME/"@.len() as int)))
        } else if "${HOME}/"@.is_prefix_of(s) {
            Some(path_join(h, s.skip("${HOME}/"@.len() as int)))
        } else {
            None
        },
    }
}

fn skip_prefix(s: &str, prefix: &str) -> (r: Option<String>)
    ensures
        opt_view(r) == if prefix@.is_prefix_of(s@) {
            Some(s@.skip(prefix@.len() as int))
        } else {
            None
        },
{
    if !starts_with(s, prefix) {
        return None;
    }
    let cs = chars_of(s);
    let p = chars_of(prefix);
    let rest = string_of_range(&cs, p.len(), cs.len());
    assert(rest@ =~= s@.skip(prefix@.len() as int));
    Some(rest)
}

/// Expand a leading `~`, `~/`, `$HOME`, `$HOME/`, `${HOME}`, or `${HOME}/`
/// in `s` to the user's home directory. Returns `None` when `s` carries
/// none of those forms (caller decides the fallback) or when `$HOME` is
/// unset.
pub fn expand_user_prefix(s: &str, home: Option<&str>) -> (r: Option<String>)
    ensures
        opt_view(r) == user_expanded(s@, opt_str(home)),
{
    match home {
        None => None,
        Some(home) => {
            if same(s, "~") || same(s, "$HOME") || same(s, "${HOME}") {
                return Some(home.to_owned());
            }
            if let Some(rest) = skip_prefix(s, "~/") {
                return Some(join_path(home, rest.as_str()));
            }
            if let Some(rest) = skip_prefix(s, "$HOME/") {
                return Some(join_path(home, rest.as_str()));
            }
            if let Some(rest) = skip_prefix(s, "${HOME}/") {
                return Some(join_path(home, rest.as_str()));
            }
            None
        },
    }
}

/// The secret locations below the home directory.
pub open spec fn home_secrets() -> Seq<Seq<char>> {
    seq![
        ".ssh"@,
        ".aws/credentials"@,
        ".gnupg"@,
        ".config/gh"@,
        ".config/kaku/assistant.toml"@,
        ".config/kaku/secrets"@,
        ".docker/config.json"@,
        ".git-credentials"@,
        ".netrc"@,
        ".npmrc"@,
        ".pypirc"@,
    ]
}

pub open spec fn system_secrets() -> Seq<Seq<char>> {
    seq![
        "/etc/shadow"@,
        "/etc/sudoers"@,
        "/etc/sudoers.d"@,
        "/private/etc/shadow"@,
        "/private/etc/sudoers"@,
        "/private/etc/sudoers.d"@,
    ]
}

/// The locations that are never read: those of the system, of the user, and of
/// the active configuration.
pub open spec fn blocked_set(home: Option<Seq<char>>, config_dir: Option<Seq<char>>) -> Seq<
    Seq<char>,
> {
    system_secrets() + match home {
        Some(h) => home_secrets().map_values(|rel: Seq<char>| path_join(h, rel)),
        None => seq![],
    } + match config_dir {
        Some(d) => seq![path_join(d, "assistant.toml"@), path_join(d, "secrets"@)],
        None => seq![],
    }
}

fn add_string(list: &mut Vec<String>, s: &str)
    ensures
        views(final(list)@) == views(old(list)@).push(s@),
{
    list.push(s.to_owned());
    assert(views(list@) =~= views(old(list)@).push(s@));
}

fn home_secret_names() -> (r: Vec<String>)
    ensures
        views(r@) == home_secrets(),
{
    let mut list: Vec<String> = Vec::new();
    assert(views(list@) =~= Seq::empty());
    add_string(&mut list, ".ssh");
    add_string(&mut list, ".aws/credentials");
    add_string(&mut list, ".gnupg");
    add_string(&mut list, ".config/gh");
    add_string(&mut list, ".config/kaku/assistant.toml");
    add_string(&mut list, ".config/kaku/secrets");
    add_string(&mut list, ".docker/config.json");
    add_string(&mut list, ".git-credentials");
    add_string(&mut list, ".netrc");
    add_string(&mut list, ".npmrc");
    add_string(&mut list, ".pypirc");
    list
}

/// The locations that are never read.
pub fn blocked_locations(home: Option<&str>, config_dir: Option<&str>) -> (r: Vec<String>)
    ensures
        views(r@) == blocked_set(opt_str(home), opt_str(config_dir)),
{
    let mut blocked: Vec<String> = Vec::new();
    assert(views(blocked@) =~= Seq::empty());
    add_string(&mut blocked, "/etc/shadow");
    add_string(&mut blocked, "/etc/sudoers");
    add_string(&mut blocked, "/etc/sudoers.d");
    add_string(&mut blocked, "/private/etc/shadow");
    add_string(&mut blocked, "/private/etc/sudoers");
    add_string(&mut blocked, "/private/etc/sudoers.d");
    assert(views(blocked@) =~= system_secrets());
    if let Some(home) = home {
        let names = home_secret_names();
        let ghost below = home_secrets().map_values(|rel: Seq<char>| path_join(home@, rel));
        let mut i: usize = 0;
        assert(views(blocked@) =~= system_secrets() + below.take(0));
        while i < names.len()
            invariant
                i <= names.len(),
                views(names@) == home_secrets(),
                below == home_secrets().map_values(|rel: Seq<char>| path_join(home@, rel)),
                views(blocked@) == system_secrets() + below.take(i as int),
            decreases names.len() - i,
        {
            assert(home_secrets()[i as int] == names@[i as int]@);
            add_string(&mut blocked, join_path(home, names[i].as_str()).as_str());
            i += 1;
            assert(views(blocked@) =~= system_secrets() + below.take(i as int));
        }
        assert(below.take(i as int) =~= below);
    }
    if let Some(dir) = config_dir {
        add_string(&mut blocked, join_path(dir, "assistant.toml").as_str());
        add_string(&mut blocked, join_path(dir, "secrets").as_str());
    }
    assert(views(blocked@) =~= blocked_set(opt_str(home), opt_str(config_dir)));
    blocked
}

/// Whether a path is or lies below one of the blocked locations.
pub open spec fn in_blocked(path: Seq<char>, blocked: Seq<Seq<char>>) -> bool {
    exists|i: int| 0 <= i < blocked.len() && path_within(path, #[trigger] blocked[i])
}

/// Whether a component of the path is a credential directory.
pub open spec fn has_sensitive_part(path: Seq<char>) -> bool {
    exists|i: int|
        0 <= i < named_parts(path).len() && sensitive_directory(#[trigger] named_parts(path)[i])
}

pub open spec fn has_sensitive_name(path: Seq<char>) -> bool {
    file_name_of(path) matches Some(name) && sensitive_name(name)
}

/// The canonical form of a path, or the path itself where it has none.
pub open spec fn canonical_or(path: Seq<char>, canonical: Option<Seq<char>>) -> Seq<char> {
    match canonical {
        Some(c) => c,
        None => path,
    }
}

/// The verdict on one form of the path.
pub open spec fn name_guard(path: Seq<char>, candidate: Seq<char>) -> Result<(), PathErrorView> {
    if has_sensitive_part(candidate) {
        Err(PathErrorView::CredentialDirectory(path))
    } else if has_sensitive_name(candidate) {
        Err(PathErrorView::CredentialFile(path))
    } else {
        Ok(())
    }
}

/// Whether a path is refused, and why. `blocked` holds the canonical forms of
/// the blocked locations.
pub open spec fn sensitivity(
    path: Seq<char>,
    canonical: Option<Seq<char>>,
    blocked: Seq<Seq<char>>,
) -> Result<(), PathErrorView> {
    let canon = canonical_or(path, canonical);
    if in_blocked(canon, blocked) {
        Err(PathErrorView::Protected(path))
    } else if name_guard(path, path) is Err {
        name_guard(path, path)
    } else {
        name_guard(path, canon)
    }
}

fn is_blocked(path: &str, blocked: &Vec<String>) -> (r: bool)
    ensures
        r == in_blocked(path@, views(blocked@)),
{
    let mut i: usize = 0;
    while i < blocked.len()
        invariant
            i <= blocked.len(),
            forall|k: int| 0 <= k < i ==> !path_within(path@, #[trigger] views(blocked@)[k]),
        decreases blocked.len() - i,
    {
        assert(views(blocked@)[i as int] == blocked@[i as int]@);
        if is_within(path, blocked[i].as_str()) {
            return true;
        }
        i += 1;
    }
    false
}

fn crosses_sensitive_directory(path: &str) -> (r: bool)
    ensures
        r == has_sensitive_part(path@),
{
    let parts = name_parts(path);
    let mut i: usize = 0;
    while i < parts.len()
        invariant
            i <= parts.len(),
            views(parts@) == named_parts(path@),
            forall|k: int| 0 <= k < i ==> !sensitive_directory(#[trigger] named_parts(path@)[k]),
        decreases parts.len() - i,
    {
        assert(named_parts(path@)[i as int] == parts@[i as int]@);
        if is_sensitive_directory_name(parts[i].as_str()) {
            return true;
        }
        i += 1;
    }
    false
}

fn guard_name(path: &str, candidate: &str) -> (r: Result<(), PathError>)
    ensures
        guard_result(r) == name_guard(path@, candidate@),
{
    if crosses_sensitive_directory(candidate) {
        return Err(PathError::CredentialDirectory(path.to_owned()));
    }
    if let Some(name) = file_name(candidate) {
        if is_sensitive_filename(name.as_str()) {
            return Err(PathError::CredentialFile(path.to_owned()));
        }
    }
    Ok(())
}

/// Refuse reads of well-known credential / system-secret locations, even when
/// the caller passes an absolute or `~/`-prefixed path (both of which bypass
/// the cwd sandbox). Where the path has no canonical form the raw path is
/// compared, so a file about to be created in a blocked directory is still
/// caught.
pub fn reject_if_sensitive(path: &str, canonical: Option<&str>, blocked: &Vec<String>) -> (r: Result<
    (),
    PathError,
>)
    ensures
        guard_result(r) == sensitivity(path@, opt_str(canonical), views(blocked@)),
{
    let canon = match canonical {
        Some(c) => c,
        None => path,
    };
    if is_blocked(canon, blocked) {
        return Err(PathError::Protected(path.to_owned()));
    }
    // Name-pattern guard: credential files live anywhere, not just in the
    // fixed locations above. Check both the requested name and the
    // canonicalized name so a symlink cannot launder a `.env` past the guard.
    match guard_name(path, path) {
        Err(e) => Err(e),
        Ok(()) => guard_name(path, canon),
    }
}

/// Whether reading the path has to be approved.
pub open spec fn read_needs_approval(path: Seq<char>, canonical: Option<Seq<char>>) -> bool {
    (file_name_of(path) matches Some(name) && credential_source(name)) || (file_name_of(
        canonical_or(path, canonical),
    ) matches Some(name) && credential_source(name))
}

fn has_credential_source_name(path: &str) -> (r: bool)
    ensures
        r == (file_name_of(path@) matches Some(name) && credential_source(name)),
{
    match file_name(path) {
        Some(name) => is_credential_named_source_file(name.as_str()),
        None => false,
    }
}

/// Credential-named source and documentation files are allowed by the hard
/// path guard, but reading them must be visible to the user. Check both the
/// requested path and its canonical target so a harmless-looking symlink
/// cannot turn an approved-path decision into a different read at execution.
pub fn requires_read_approval(path: &str, canonical: Option<&str>) -> (r: bool)
    ensures
        r == read_needs_approval(path@, opt_str(canonical)),
{
    let canon = match canonical {
        Some(c) => c,
        None => path,
    };
    has_credential_source_name(path) || has_credential_source_name(canon)
}

// ---------------------------------------------------------------------------
// Search exclusions
// ---------------------------------------------------------------------------

/// The exclusions that hold in every search.
pub open spec fn standard_globs() -> Seq<Seq<char>> {
    seq![
        "!**/.env"@,
        "!**/.env.*"@,
        "!**/*.pem"@,
        "!**/*.key"@,
        "!**/id_rsa"@,
        "!**/id_dsa"@,
        "!**/id_ecdsa"@,
        "!**/id_ed25519"@,
        "!**/.git-credentials"@,
        "!**/.netrc"@,
        "!**/.npmrc"@,
        "!**/.pypirc"@,
        "!**/assistant.toml"@,
        "!**/*credentials*"@,
        "!**/.ssh/**"@,
        "!**/.gnupg/**"@,
        "!**/secrets/**"@,
    ]
}

/// The components of `path` below `root`, with slashes between them; nothing
/// where the path is not strictly below the root.
pub open spec fn below(path: Seq<char>, root: Seq<char>) -> Option<Seq<char>> {
    let rest = named_parts(path).skip(named_parts(root).len() as int);
    if path_within(path, root) && rest.len() > 0 {
        Some(char_replaced(joined(rest, "/"@), '\\', '/'))
    } else {
        None
    }
}

/// The exclusions for the blocked locations below the root: the location
/// itself and everything in it.
pub open spec fn location_globs(root: Seq<char>, blocked: Seq<Seq<char>>) -> Seq<Seq<char>>
    decreases blocked.len(),
{
    if blocked.len() == 0 {
        seq![]
    } else {
        let before = location_globs(root, blocked.drop_last());
        match below(blocked.last(), root) {
            Some(rel) => before.push("!"@ + rel).push("!"@ + rel + "/**"@),
            None => before,
        }
    }
}

fn relative_below(path: &str, root: &str) -> (r: Option<String>)
    ensures
        opt_view(r) == below(path@, root@),
{
    if !is_within(path, root) {
        return None;
    }
    let p = name_parts(path);
    let b = name_parts(root);
    let ghost rest = named_parts(path@).skip(named_parts(root@).len() as int);
    if p.len() <= b.len() {
        assert(rest.len() == 0);
        return None;
    }
    let mut out: Vec<String> = Vec::new();
    let mut i: usize = b.len();
    assert(views(out@) =~= rest.take(0));
    while i < p.len()
        invariant
            b.len() <= i <= p.len(),
            views(p@) == named_parts(path@),
            views(b@) == named_parts(root@),
            rest == named_parts(path@).skip(named_parts(root@).len() as int),
            views(out@) == rest.take(i - b.len()),
        decreases p.len() - i,
    {
        assert(named_parts(path@)[i as int] == p@[i as int]@);
        add_string(&mut out, p[i].as_str());
        i += 1;
        assert(views(out@) =~= rest.take(i - b.len()));
    }
    assert(rest.take(i - b.len()) =~= rest);
    Some(replace_char(join(&out, "/").as_str(), '\\', '/'))
}

fn standard_glob_list() -> (r: Vec<String>)
    ensures
        views(r@) == standard_globs(),
{
    let mut globs: Vec<String> = Vec::new();
    assert(views(globs@) =~= Seq::empty());
    add_string(&mut globs, "!**/.env");
    add_string(&mut globs, "!**/.env.*");
    add_string(&mut globs, "!**/*.pem");
    add_string(&mut globs, "!**/*.key");
    add_string(&mut globs, "!**/id_rsa");
    add_string(&mut globs, "!**/id_dsa");
    add_string(&mut globs, "!**/id_ecdsa");
    add_string(&mut globs, "!**/id_ed25519");
    add_string(&mut globs, "!**/.git-credentials");
    add_string(&mut globs, "!**/.netrc");
    add_string(&mut globs, "!**/.npmrc");
    add_string(&mut globs, "!**/.pypirc");
    add_string(&mut globs, "!**/assistant.toml");
    add_string(&mut globs, "!**/*credentials*");
    add_string(&mut globs, "!**/.ssh/**");
    add_string(&mut globs, "!**/.gnupg/**");
    add_string(&mut globs, "!**/secrets/**");
    globs
}

/// Ripgrep exclusions for sensitive descendants of an otherwise-readable
/// search root. Root validation alone is insufficient for recursive search.
/// Both `root` and the locations are canonical where they have such a form;
/// the caller sees to that.
pub fn sensitive_search_globs(root: &str, blocked: &Vec<String>) -> (r: Vec<String>)
    ensures
        views(r@) == standard_globs() + location_globs(root@, views(blocked@)),
{
    let mut globs = standard_glob_list();
    let ghost all = views(blocked@);
    let mut i: usize = 0;
    assert(views(globs@) =~= standard_globs() + location_globs(root@, all.take(0)));
    while i < blocked.len()
        invariant
            i <= blocked.len(),
            all == views(blocked@),
            views(globs@) == standard_globs() + location_globs(root@, all.take(i as int)),
        decreases blocked.len() - i,
    {
        let ghost before = location_globs(root@, all.take(i as int));
        proof {
            assert(all.take(i + 1).drop_last() =~= all.take(i as int));
            assert(all.take(i + 1).last() == blocked@[i as int]@);
        }
        if let Some(rel) = relative_below(blocked[i].as_str(), root) {
            add_string(&mut globs, concat2("!", rel.as_str()).as_str());
            add_string(&mut globs, concat3("!", rel.as_str(), "/**").as_str());
            assert(views(globs@) =~= standard_globs() + before.push("!"@ + rel@).push(
                "!"@ + rel@ + "/**"@,
            ));
        }
        i += 1;
    }
    assert(all.take(i as int) =~= all);
    globs
}

// ---------------------------------------------------------------------------
// Resolution
// ---------------------------------------------------------------------------

/// Whether a tool path starts in the home directory.
pub open spec fn from_home(path: Seq<char>) -> bool {
    path == "~"@ || "~/"@.is_prefix_of(path)
}

/// The path that a tool path stands for.
pub open spec fn resolved(path: Seq<char>, cwd: Seq<char>, home: Option<Seq<char>>) -> Result<
    Seq<char>,
    PathErrorView,
> {
    if from_home(path) {
        match home {
            None => Err(PathErrorView::HomeUnset),
            Some(h) => if path == "~"@ {
                Ok(h)
            } else {
                Ok(path_join(h, path.skip(2)))
            },
        }
    } else if is_absolute(path) {
        Ok(path)
    } else {
        Ok(path_join(cwd, path))
    }
}

/// Handles `~/…` expansion and relative paths (resolved against `cwd`).
///
/// Tool paths only accept `~` / `~/`; `$HOME` is not expanded here because
/// AI models do not pass shell-variable references through this path,
/// and silently expanding them would change tool-call semantics.
pub fn resolve(path: &str, cwd: &str, home: Option<&str>) -> (r: Result<String, PathError>)
    ensures
        path_result(r) == resolved(path@, cwd@, opt_str(home)),
{
    proof {
        reveal_strlit("~/");
    }
    if same(path, "~") || starts_with(path, "~/") {
        return match home {
            None => Err(PathError::HomeUnset),
            Some(home) => if same(path, "~") {
                Ok(home.to_owned())
            } else {
                match skip_prefix(path, "~/") {
                    Some(rest) => Ok(join_path(home, rest.as_str())),
                    None => Ok(home.to_owned()),
                }
            },
        };
    }
    if starts_with_slash(path) {
        Ok(path.to_owned())
    } else {
        Ok(join_path(cwd, path))
    }
}

/// What the file system says about a relative path.
#[derive(Debug)]
pub struct EscapeFacts {
    /// The canonical working directory.
    pub cwd: Option<String>,
    /// The canonical target, where it exists.
    pub target: Option<String>,
    /// The nearest ancestor that exists, where there is one.
    pub ancestor: Option<Ancestor>,
}

/// An existing ancestor of a path.
#[derive(Debug)]
pub struct Ancestor {
    pub path: String,
    /// Its canonical form, where it could be had.
    pub canonical: Option<String>,
}

/// How deep below its start a relative path is after its first `n`
/// components, or nothing where it climbed out. Climbing from the root stays
/// there.
pub open spec fn depth_after(parts: Seq<Seq<char>>, at_root: bool, n: nat) -> Option<nat>
    decreases n,
{
    if n == 0 || n > parts.len() {
        Some(0)
    } else {
        match depth_after(parts, at_root, (n - 1) as nat) {
            None => None,
            Some(d) => if parts[n - 1] == seq!['.', '.'] {
                if d > 0 {
                    Some((d - 1) as nat)
                } else if at_root {
                    Some(0)
                } else {
                    None
                }
            } else if parts[n - 1] == seq!['.'] {
                Some(d)
            } else {
                Some(d + 1)
            },
        }
    }
}

/// Whether a relative path climbs out of the directory that it starts in.
pub open spec fn climbs_out(raw: Seq<char>, cwd: Seq<char>) -> bool {
    depth_after(named_parts(raw), named_parts(cwd).len() == 0, named_parts(raw).len()) is None
}

/// The verdict on a tool path: those that are absolute or start in the home
/// directory are explicit opt-ins, others must stay in the working directory.
pub open spec fn escape_verdict(raw: Seq<char>, cwd: Seq<char>, facts: EscapeFacts) -> Result<
    (),
    PathErrorView,
> {
    if is_absolute(raw) || from_home(raw) {
        Ok(())
    } else if facts.cwd is None {
        Err(PathErrorView::WorkingDirectoryUnresolved(cwd))
    } else if facts.target is Some {
        if path_within(facts.target->0@, facts.cwd->0@) {
            Ok(())
        } else {
            Err(PathErrorView::OutsideWorkingDirectory(raw))
        }
    } else if facts.ancestor matches Some(a) && a.canonical is None {
        Err(PathErrorView::AncestorUnresolved(facts.ancestor->0.path@))
    } else if facts.ancestor matches Some(a) && !path_within(a.canonical->0@, facts.cwd->0@) {
        Err(PathErrorView::OutsideWorkingDirectory(raw))
    } else if climbs_out(raw, facts.cwd->0@) {
        Err(PathErrorView::OutsideWorkingDirectory(raw))
    } else {
        Ok(())
    }
}

proof fn lemma_climbed_out(parts: Seq<Seq<char>>, at_root: bool, n: nat, m: nat)
    requires
        n <= m <= parts.len(),
        depth_after(parts, at_root, n) is None,
    ensures
        depth_after(parts, at_root, m) is None,
    decreases m,
{
    if n < m {
        lemma_climbed_out(parts, at_root, n, (m - 1) as nat);
    }
}

fn path_climbs_out(raw: &str, cwd: &str) -> (r: bool)
    ensures
        r == climbs_out(raw@, cwd@),
{
    let parts = name_parts(raw);
    let at_root = name_parts(cwd).len() == 0;
    let ghost all = named_parts(raw@);
    let mut depth: usize = 0;
    let mut i: usize = 0;
    while i < parts.len()
        invariant
            i <= parts.len(),
            all == views(parts@),
            all == named_parts(raw@),
            at_root == (named_parts(cwd@).len() == 0),
            depth <= i,
            depth_after(all, at_root, i as nat) == Some(depth as nat),
        decreases parts.len() - i,
    {
        let part = parts[i].as_str();
        assert(all[i as int] == part@);
        if is_dot_dot(part) {
            if depth > 0 {
                depth -= 1;
            } else if !at_root {
                proof {
                    lemma_climbed_out(all, at_root, (i + 1) as nat, all.len());
                }
                return true;
            }
        } else if !is_dot(part) {
            depth += 1;
        }
        i += 1;
    }
    false
}

/// Relative tool paths must stay inside the current project. Absolute and
/// `~/` paths remain explicit opt-ins, but `../../…` should not quietly mutate
/// files outside the pane's cwd while the approval prompt shows a relative path.
pub fn reject_relative_cwd_escape(raw_path: &str, cwd: &str, facts: &EscapeFacts) -> (r: Result<
    (),
    PathError,
>)
    ensures
        guard_result(r) == escape_verdict(raw_path@, cwd@, *facts),
{
    if starts_with_slash(raw_path) || starts_with(raw_path, "~/") || same(raw_path, "~") {
        return Ok(());
    }
    let canon_cwd = match &facts.cwd {
        Some(c) => c.as_str(),
        None => {
            return Err(PathError::WorkingDirectoryUnresolved(cwd.to_owned()));
        },
    };
    if let Some(target) = &facts.target {
        if !is_within(target.as_str(), canon_cwd) {
            return Err(PathError::OutsideWorkingDirectory(raw_path.to_owned()));
        }
        return Ok(());
    }
    if let Some(existing) = &facts.ancestor {
        match &existing.canonical {
            None => {
                return Err(PathError::AncestorUnresolved(existing.path.clone()));
            },
            Some(canon_existing) => {
                if !is_within(canon_existing.as_str(), canon_cwd) {
                    return Err(PathError::OutsideWorkingDirectory(raw_path.to_owned()));
                }
            },
        }
    }
    if path_climbs_out(raw_path, canon_cwd) {
        return Err(PathError::OutsideWorkingDirectory(raw_path.to_owned()));
    }
    Ok(())
}

/// What the file system and the environment say about a tool path.
#[derive(Debug)]
pub struct PathFacts {
    pub home: Option<String>,
    /// The blocked locations, canonical where they exist.
    pub blocked: Vec<String>,
    pub escape: EscapeFacts,
}

/// The verdict of all guards on a tool path.
pub open spec fn checked(raw: Seq<char>, cwd: Seq<char>, facts: PathFacts) -> Result<
    Seq<char>,
    PathErrorView,
> {
    match resolved(raw, cwd, opt_view(facts.home)) {
        Err(e) => Err(e),
        Ok(path) => match sensitivity(
            path,
            opt_view(facts.escape.target),
            views(facts.blocked@),
        ) {
            Err(e) => Err(e),
            Ok(()) => match escape_verdict(raw, cwd, facts.escape) {
                Err(e) => Err(e),
                Ok(()) => Ok(path),
            },
        },
    }
}

fn as_str_opt(o: &Option<String>) -> (r: Option<&str>)
    ensures
        opt_str(r) == opt_view(*o),
{
    match o {
        Some(s) => Some(s.as_str()),
        None => None,
    }
}

/// Resolve an explicit raw tool path against `cwd` and run both sandbox guards.
///
/// Single source of truth for the path-validation preamble shared by every
/// fs / search / tree tool: resolve `~`/relative paths, then
/// `reject_if_sensitive` before `reject_relative_cwd_escape`. Collapsing
/// identical copies here keeps the guard sequence from drifting between call
/// sites.
pub fn resolve_checked_path(raw_path: &str, cwd: &str, facts: &PathFacts) -> (r: Result<
    String,
    PathError,
>)
    ensures
        path_result(r) == checked(raw_path@, cwd@, *facts),
{
    match resolve(raw_path, cwd, as_str_opt(&facts.home)) {
        Err(e) => Err(e),
        Ok(path) => match reject_if_sensitive(
            path.as_str(),
            as_str_opt(&facts.escape.target),
            &facts.blocked,
        ) {
            Err(e) => Err(e),
            Ok(()) => match reject_relative_cwd_escape(raw_path, cwd, &facts.escape) {
                Err(e) => Err(e),
                Ok(()) => Ok(path),
            },
        },
    }
}

/// The path argument of a tool call, or the working directory.
pub open spec fn path_arg_or(args: JsonView, cwd: Seq<char>) -> Seq<char> {
    match text_of(field_of(args, "path"@)) {
        Some(p) => p,
        None => cwd,
    }
}

/// Return optional `args["path"]`, defaulting to `cwd`, without resolving it.
pub fn optional_path_arg<'a>(args: &'a JsonValue, cwd: &'a str) -> (r: &'a str)
    ensures
        r@ == path_arg_or(args@, cwd@),
{
    match args.get_str("path") {
        Some(p) => p,
        None => cwd,
    }
}

/// Resolve optional `args["path"]`, defaulting to `cwd`, and run both guards.
pub fn resolve_checked_optional_arg(args: &JsonValue, cwd: &str, facts: &PathFacts) -> (r: Result<
    String,
    PathError,
>)
    ensures
        path_result(r) == checked(path_arg_or(args@, cwd@), cwd@, *facts),
{
    resolve_checked_path(optional_path_arg(args, cwd), cwd, facts)
}

/// The verdict on the required path argument.
pub open spec fn checked_arg(args: JsonView, cwd: Seq<char>, facts: PathFacts) -> Result<
    Seq<char>,
    PathErrorView,
> {
    match text_of(field_of(args, "path"@)) {
        None => Err(PathErrorView::MissingPath),
        Some(raw) => checked(raw, cwd, facts),
    }
}

/// Resolve required `args["path"]` against `cwd` and run both guards.
pub fn resolve_checked_arg(args: &JsonValue, cwd: &str, facts: &PathFacts) -> (r: Result<
    String,
    PathError,
>)
    ensures
        path_result(r) == checked_arg(args@, cwd@, *facts),
{
    match args.get_str("path") {
        None => Err(PathError::MissingPath),
        Some(raw) => resolve_checked_path(raw, cwd, facts),
    }
}

/// The arguments with the read target pinned: the path is the canonical one
/// behind the argument.
pub open spec fn pinned(args: JsonView, cwd: Seq<char>, facts: PathFacts) -> Result<
    JsonView,
    PathErrorView,
> {
    match checked_arg(args, cwd, facts) {
        Err(e) => Err(e),
        Ok(path) => match facts.escape.target {
            None => Err(PathErrorView::ReadTargetUnresolved(path)),
            Some(canonical) => Ok(value_with(args, "path"@, JsonView::Text(canonical@))),
        },
    }
}

pub open spec fn args_result(r: Result<JsonValue, PathError>) -> Result<JsonView, PathErrorView> {
    match r {
        Ok(v) => Ok(v@),
        Err(e) => Err(e@),
    }
}

/// Resolve a read path once before approval and replace the model-supplied
/// argument with its canonical target. Approval text and execution then refer
/// to the same file rather than following a symlink twice across the prompt.
pub fn pin_read_arg(args: JsonValue, cwd: &str, facts: &PathFacts) -> (r: Result<
    JsonValue,
    PathError,
>)
    ensures
        args_result(r) == pinned(args@, cwd@, *facts),
{
    match resolve_checked_arg(&args, cwd, facts) {
        Err(e) => Err(e),
        Ok(path) => match &facts.escape.target {
            None => Err(PathError::ReadTargetUnresolved(path)),
            Some(canonical) => Ok(
                args.replace_field("path", JsonValue::Text(canonical.clone())),
            ),
        },
    }
}

// ---------------------------------------------------------------------------
// Laws
// ---------------------------------------------------------------------------

/// A pinned read argument reads back as the canonical target, and the other
/// arguments stay as they were.
pub proof fn pinned_path_reads_back(
    args: JsonView,
    cwd: Seq<char>,
    facts: PathFacts,
    other: Seq<char>,
)
    requires
        pinned(args, cwd, facts) is Ok,
        other != "path"@,
    ensures
        text_of(field_of(pinned(args, cwd, facts)->Ok_0, "path"@)) == Some(
            facts.escape.target->0@,
        ),
        field_of(pinned(args, cwd, facts)->Ok_0, other) == field_of(args, other),
{
    match args {
        JsonView::Object(fields) => {
            value_with_reads_back(
                fields,
                "path"@,
                JsonView::Text(facts.escape.target->0@),
                other,
            );
        },
        _ => {},
    }
}


/// A path that passes the guards is neither in a blocked location nor in a
/// credential directory, and neither its own name nor that of its canonical
/// target is a credential file.
pub proof fn checked_paths_are_not_sensitive(raw: Seq<char>, cwd: Seq<char>, facts: PathFacts)
    requires
        checked(raw, cwd, facts) is Ok,
    ensures
        ({
            let path = checked(raw, cwd, facts)->Ok_0;
            let canon = canonical_or(path, opt_view(facts.escape.target));
            &&& !in_blocked(canon, views(facts.blocked@))
            &&& !has_sensitive_part(path) && !has_sensitive_part(canon)
            &&& !has_sensitive_name(path) && !has_sensitive_name(canon)
        }),
{
}

/// A relative path that passes the guards stays in the working directory: its
/// canonical target is below it, or, where there is no target yet, its nearest
/// existing ancestor is, and the path never climbs out.
pub proof fn checked_relative_paths_stay_inside(raw: Seq<char>, cwd: Seq<char>, facts: PathFacts)
    requires
        checked(raw, cwd, facts) is Ok,
        !is_absolute(raw),
        !from_home(raw),
    ensures
        facts.escape.cwd is Some,
        match facts.escape.target {
            Some(target) => path_within(target@, facts.escape.cwd->0@),
            None => {
                &&& facts.escape.ancestor matches Some(a) ==> a.canonical is Some && path_within(
                    a.canonical->0@,
                    facts.escape.cwd->0@,
                )
                &&& !climbs_out(raw, facts.escape.cwd->0@)
            },
        },
{
}

/// A blocked location blocks everything below it.
pub proof fn blocked_locations_block_descendants(
    path: Seq<char>,
    canonical: Option<Seq<char>>,
    blocked: Seq<Seq<char>>,
    i: int,
)
    requires
        0 <= i < blocked.len(),
        path_within(canonical_or(path, canonical), blocked[i]),
    ensures
        sensitivity(path, canonical, blocked) == Err::<(), PathErrorView>(
            PathErrorView::Protected(path),
        ),
{
}

} // verus!
