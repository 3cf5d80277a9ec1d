//! Authenticates shell-to-GUI control messages used by inline AI features.
//!
//! Terminal output can emit OSC 1337 user variables, so privileged messages
//! carry a local capability before they are allowed to reach Lua or GUI actions.
use crate::json::opt_str;
use crate::text::{
    chars_of, concat2, concat3, is_alnum, is_ascii_alphanumeric, opt_view, same, starts_with, trim,
    trimmed,
};
use base64::Engine;
use vstd::prelude::*;
use vstd::string::*;

verus! {

pub const CAPABILITY_BYTES: usize = 32;

pub const CAPABILITY_ENCODED_LEN: usize = 43;

/// The largest capability file that is read, in bytes.
pub const CAPABILITY_FILE_MAX: u64 = 128;

// ---------------------------------------------------------------------------
// Capabilities
// ---------------------------------------------------------------------------

pub open spec fn is_capability_char(c: char) -> bool {
    is_alnum(c) || c == '-' || c == '_'
}

/// Whether a text has the shape of a capability.
pub open spec fn valid_capability(value: Seq<char>) -> bool {
    &&& value.len() == CAPABILITY_ENCODED_LEN
    &&& forall|i: int| 0 <= i < value.len() ==> is_capability_char(#[trigger] value[i])
}

pub fn is_valid_capability(value: &str) -> (r: bool)
    ensures
        r == valid_capability(value@),
{
    let cs = chars_of(value);
    if cs.len() != CAPABILITY_ENCODED_LEN {
        return false;
    }
    let mut i: usize = 0;
    while i < cs.len()
        invariant
            i <= cs.len(),
            cs@ == value@,
            forall|k: int| 0 <= k < i ==> is_capability_char(#[trigger] value@[k]),
        decreases cs.len() - i,
    {
        if !(is_ascii_alphanumeric(cs[i]) || cs[i] == '-' || cs[i] == '_') {
            assert(!is_capability_char(value@[i as int]));
            return false;
        }
        i += 1;
    }
    true
}

/// The byte at `i`, or zero behind the end.
pub open spec fn byte_or_zero(bytes: Seq<u8>, i: int) -> int {
    if 0 <= i < bytes.len() {
        bytes[i] as int
    } else {
        0
    }
}

/// The six bits that character `k` of an encoding stands for.
pub open spec fn sextet(bytes: Seq<u8>, k: int) -> int {
    let at = 3 * (k / 4);
    let group = byte_or_zero(bytes, at) * 65536 + byte_or_zero(bytes, at + 1) * 256 + byte_or_zero(
        bytes,
        at + 2,
    );
    if k % 4 == 0 {
        group / 262144
    } else if k % 4 == 1 {
        (group / 4096) % 64
    } else if k % 4 == 2 {
        (group / 64) % 64
    } else {
        group % 64
    }
}

/// The URL-safe alphabet of RFC 4648.
pub open spec fn sextet_char(v: int) -> char {
    if v < 26 {
        ((v + 65) as u8) as char
    } else if v < 52 {
        ((v + 71) as u8) as char
    } else if v < 62 {
        ((v - 4) as u8) as char
    } else if v == 62 {
        '-'
    } else {
        '_'
    }
}

/// The URL-safe base64 encoding of some bytes, without padding.
pub open spec fn base64_url(bytes: Seq<u8>) -> Seq<char> {
    Seq::new(((4 * bytes.len() + 2) / 3) as nat, |k: int| sextet_char(sextet(bytes, k)))
}

/// Encodes bytes with the `URL_SAFE_NO_PAD` engine of `base64`: one character
/// of the URL-safe alphabet for each six bits, the last ones filled up with
/// zeros, and no padding. The encoder panics where the length of its output
/// does not fit in a `usize`.
#[verifier::external_body]
fn encode_base64_url(bytes: &Vec<u8>) -> (r: String)
    requires
        bytes.len() <= 0x4000_0000,
    ensures
        r@ == base64_url(bytes@),
{
    base64::engine::general_purpose::URL_SAFE_NO_PAD.encode(bytes)
}

/// Fills a buffer of `n` bytes with `getrandom::fill`; nothing where the system
/// has no random bytes to give. Only the length of the result is stated: which
/// bytes come is chance.
#[verifier::external_body]
fn random_bytes(n: usize) -> (r: Option<Vec<u8>>)
    requires
        n <= 0x4000_0000,
    ensures
        r matches Some(bytes) ==> bytes.len() == n,
{
    let mut bytes = vec![0u8; n];
    getrandom::fill(&mut bytes).ok()?;
    Some(bytes)
}

/// The encoding of as many bytes as a capability has is a valid capability.
pub proof fn encoded_bytes_are_a_capability(bytes: Seq<u8>)
    requires
        bytes.len() == CAPABILITY_BYTES,
    ensures
        valid_capability(base64_url(bytes)),
{
    let text = base64_url(bytes);
    assert forall|k: int| 0 <= k < text.len() implies is_capability_char(#[trigger] text[k]) by {
        let v = sextet(bytes, k);
        let at = 3 * (k / 4);
        let group = byte_or_zero(bytes, at) * 65536 + byte_or_zero(bytes, at + 1) * 256
            + byte_or_zero(bytes, at + 2);
        assert(0 <= group < 16777216);
        assert(0 <= v < 64);
        assert(text[k] == sextet_char(v));
    }
}

/// The capability that some bytes stand for.
pub fn capability_of(bytes: &Vec<u8>) -> (r: String)
    requires
        bytes.len() == CAPABILITY_BYTES,
    ensures
        r@ == base64_url(bytes@),
        valid_capability(r@),
{
    proof {
        encoded_bytes_are_a_capability(bytes@);
    }
    encode_base64_url(bytes)
}

/// A new capability, from random bytes; nothing where there are none.
pub fn generate_capability() -> (r: Option<String>)
    ensures
        r matches Some(c) ==> valid_capability(c@) && exists|bytes: Seq<u8>|
            bytes.len() == CAPABILITY_BYTES && c@ == #[trigger] base64_url(bytes),
{
    match random_bytes(CAPABILITY_BYTES) {
        Some(bytes) => Some(capability_of(&bytes)),
        None => None,
    }
}

// ---------------------------------------------------------------------------
// The capability file
// ---------------------------------------------------------------------------

/// What the file system says about the capability file.
#[derive(Debug)]
pub struct CapabilityFile {
    pub is_symlink: bool,
    pub is_file: bool,
    pub len: u64,
    /// The permission bits.
    pub mode: u32,
    /// The text of the file, where it could be read.
    pub content: Option<String>,
}

/// Why there is no capability.
#[derive(Clone, Copy, Debug, PartialEq, Eq, Structural)]
pub enum CapabilityError {
    Missing,
    NotRegular,
    TooLarge,
    TooBroad,
    Unreadable,
    Invalid,
}

impl CapabilityError {
    pub fn message(&self) -> (r: &'static str)
        ensures
            r@ == (match *self {
                CapabilityError::Missing => "inspect inline AI capability file"@,
                CapabilityError::NotRegular => {
                    "inline AI capability path is not a regular file"@
                },
                CapabilityError::TooLarge => "inline AI capability file is too large"@,
                CapabilityError::TooBroad => {
                    "inline AI capability file permissions are too broad"@
                },
                CapabilityError::Unreadable => "read inline AI capability file"@,
                CapabilityError::Invalid => "inline AI capability file is invalid"@,
            }),
    {
        match *self {
            CapabilityError::Missing => "inspect inline AI capability file",
            CapabilityError::NotRegular => "inline AI capability path is not a regular file",
            CapabilityError::TooLarge => "inline AI capability file is too large",
            CapabilityError::TooBroad => "inline AI capability file permissions are too broad",
            CapabilityError::Unreadable => "read inline AI capability file",
            CapabilityError::Invalid => "inline AI capability file is invalid",
        }
    }
}

/// The capability that a file holds: a regular file of its owner alone, not too
/// large, whose text is a capability, but for surrounding space.
pub open spec fn file_capability(file: Option<CapabilityFile>) -> Result<
    Seq<char>,
    CapabilityError,
> {
    match file {
        None => Err(CapabilityError::Missing),
        Some(f) => if f.is_symlink || !f.is_file {
            Err(CapabilityError::NotRegular)
        } else if f.len > CAPABILITY_FILE_MAX {
            Err(CapabilityError::TooLarge)
        } else if f.mode & 0o77 != 0 {
            Err(CapabilityError::TooBroad)
        } else {
            match f.content {
                None => Err(CapabilityError::Unreadable),
                Some(text) => if valid_capability(trimmed(text@)) {
                    Ok(trimmed(text@))
                } else {
                    Err(CapabilityError::Invalid)
                },
            }
        },
    }
}

pub open spec fn opt_file(file: Option<&CapabilityFile>) -> Option<CapabilityFile> {
    match file {
        Some(f) => Some(*f),
        None => None,
    }
}

pub open spec fn capability_outcome(r: Result<String, CapabilityError>) -> Result<
    Seq<char>,
    CapabilityError,
> {
    match r {
        Ok(c) => Ok(c@),
        Err(e) => Err(e),
    }
}

/// Takes the capability out of its file.
pub fn read_capability_file(file: Option<&CapabilityFile>) -> (r: Result<String, CapabilityError>)
    ensures
        capability_outcome(r) == file_capability(opt_file(file)),
{
    let f = match file {
        Some(f) => f,
        None => {
            return Err(CapabilityError::Missing);
        },
    };
    if f.is_symlink || !f.is_file {
        return Err(CapabilityError::NotRegular);
    }
    if f.len > CAPABILITY_FILE_MAX {
        return Err(CapabilityError::TooLarge);
    }
    if f.mode & 0o77 != 0 {
        return Err(CapabilityError::TooBroad);
    }
    match &f.content {
        None => Err(CapabilityError::Unreadable),
        Some(text) => {
            let capability = trim(text.as_str());
            if is_valid_capability(capability.as_str()) {
                Ok(capability)
            } else {
                Err(CapabilityError::Invalid)
            }
        },
    }
}

/// The text of a new capability file. The line feed matters: zsh's `read`
/// reports EOF as failure when the last line is unterminated.
pub fn capability_file_text(capability: &str) -> (r: String)
    ensures
        r@ == capability@ + "\n"@,
{
    concat2(capability, "\n")
}

/// Whether the file has to be created: never where there is one, so that a
/// value another Kaku process may already be using is not replaced.
pub fn must_create_capability(active: bool, file_exists: bool) -> (r: bool)
    ensures
        r == (!active && !file_exists),
{
    !active && !file_exists
}

proof fn lemma_trimmed_capability(capability: Seq<char>)
    requires
        valid_capability(capability),
    ensures
        trimmed(capability + "\n"@) == capability,
{
    reveal_strlit("\n");
    let text = capability + "\n"@;
    assert(is_capability_char(capability[0]));
    assert(is_capability_char(capability[capability.len() - 1]));
    assert(text[0] == capability[0]);
    assert(crate::text::trimmed_start(text) == text);
    assert(text.last() == '\n');
    assert(text.drop_last() =~= capability);
    assert(crate::text::trimmed_end(text) == crate::text::trimmed_end(capability));
    assert(crate::text::trimmed_end(capability) == capability);
}

/// A capability that was written to a private regular file is read back.
pub proof fn capability_file_round_trips(capability: Seq<char>, file: CapabilityFile)
    requires
        valid_capability(capability),
        !file.is_symlink,
        file.is_file,
        file.len <= CAPABILITY_FILE_MAX,
        file.mode & 0o77 == 0,
        opt_view(file.content) == Some(capability + "\n"@),
    ensures
        file_capability(Some(file)) == Ok::<Seq<char>, CapabilityError>(capability),
{
    lemma_trimmed_capability(capability);
}

// ---------------------------------------------------------------------------
// Control values
// ---------------------------------------------------------------------------

/// The user variables that need the capability.
pub open spec fn privileged(name: Seq<char>) -> bool {
    name == "kaku_ai_query"@ || name == "kaku_last_cmd"@ || name == "kaku_last_exit_code"@ || name
        == "kaku_open_ai_chat"@ || name == "kaku_user_typing"@
}

pub fn is_privileged_user_var(name: &str) -> (r: bool)
    ensures
        r == privileged(name@),
{
    same(name, "kaku_ai_query") || same(name, "kaku_last_cmd") || same(name, "kaku_last_exit_code")
        || same(name, "kaku_open_ai_chat") || same(name, "kaku_user_typing")
}

/// The value of a user variable: a privileged one has to start with the
/// capability and a colon, which are taken off.
pub open spec fn decoded(
    name: Seq<char>,
    value: Seq<char>,
    capability: Option<Seq<char>>,
) -> Option<
    Seq<char>,
> {
    if !privileged(name) {
        Some(value)
    } else {
        match capability {
            None => None,
            Some(c) => if c.is_prefix_of(value) && value.len() > c.len() && value[c.len() as int]
                == ':' {
                Some(value.skip(c.len() as int + 1))
            } else {
                None
            },
        }
    }
}

/// The value of a privileged user variable that is sent.
pub open spec fn encoded(name: Seq<char>, value: Seq<char>, capability: Seq<char>) -> Seq<char> {
    if privileged(name) {
        capability + ":"@ + value
    } else {
        value
    }
}

pub fn decode_control_value_with_capability<'a>(
    name: &str,
    value: &'a str,
    capability: Option<&str>,
) -> (r: Option<&'a str>)
    ensures
        opt_str(r) == decoded(name@, value@, opt_str(capability)),
{
    if !is_privileged_user_var(name) {
        return Some(value);
    }
    match capability {
        None => None,
        Some(c) => {
            if !starts_with(value, c) {
                return None;
            }
            let v = chars_of(value);
            let n = chars_of(c).len();
            if n >= v.len() || v[n] != ':' {
                return None;
            }
            let rest = value.substring_char(n + 1, v.len());
            assert(rest@ =~= value@.skip(c@.len() as int + 1));
            Some(rest)
        },
    }
}

/// Validates and strips the capability from a privileged user variable.
/// `active` is the capability of this process, once it is initialized.
pub fn decode_control_value<'a>(name: &str, value: &'a str, active: Option<&str>) -> (r: Option<
    &'a str,
>)
    ensures
        opt_str(r) == decoded(name@, value@, opt_str(active)),
{
    decode_control_value_with_capability(name, value, active)
}

/// Adds the local capability before a trusted helper emits a control variable.
/// `file` is the capability file, where there is one.
pub fn encode_control_value(name: &str, value: &str, file: Option<&CapabilityFile>) -> (r: Result<
    String,
    CapabilityError,
>)
    ensures
        capability_outcome(r) == (if !privileged(name@) {
            Ok(value@)
        } else {
            match file_capability(opt_file(file)) {
                Ok(c) => Ok(encoded(name@, value@, c)),
                Err(e) => Err(e),
            }
        }),
{
    if !is_privileged_user_var(name) {
        return Ok(value.to_owned());
    }
    match read_capability_file(file) {
        Ok(capability) => Ok(concat3(capability.as_str(), ":", value)),
        Err(e) => Err(e),
    }
}

/// What is encoded under a capability is decoded under it.
pub proof fn encoded_values_decode(name: Seq<char>, value: Seq<char>, capability: Seq<char>)
    ensures
        decoded(name, encoded(name, value, capability), Some(capability)) == Some(value),
{
    reveal_strlit(":");
    if privileged(name) {
        let sent = encoded(name, value, capability);
        assert(sent.subrange(0, capability.len() as int) =~= capability);
        assert(sent[capability.len() as int] == ':');
        assert(sent.skip(capability.len() as int + 1) =~= value);
    }
}

/// A privileged value is not accepted without a capability, nor under another
/// valid capability than the one it was encoded under.
pub proof fn privileged_values_need_the_capability(
    name: Seq<char>,
    value: Seq<char>,
    capability: Seq<char>,
    other: Seq<char>,
)
    requires
        privileged(name),
        valid_capability(capability),
        valid_capability(other),
        other != capability,
    ensures
        decoded(name, value, None) is None,
        decoded(name, encoded(name, value, capability), Some(other)) is None,
{
    let sent = encoded(name, value, capability);
    if other.is_prefix_of(sent) {
        assert(sent.subrange(0, other.len() as int) =~= capability);
    }
}

} // verus!
