//! What tools may touch: paths, names and destinations that are refused, and
//! those that are not.
use crate::net::{HostView, UrlView, public_bits, public_v4, public_v6};
use crate::paths::{
    EscapeFacts, PathErrorView, PathFacts, blocked_set, checked, credential_source, escape_verdict,
    file_name_of, from_home, has_sensitive_part, in_blocked, is_absolute, named_parts, parts_among,
    path_join, path_within, read_needs_approval, resolved, sensitive_directory, sensitive_name,
    sensitivity,
};
use crate::text::{lowered, opt_view, split_on, views};
use crate::web::{DestinationView, HttpErrorView, destination_of, without_end};
use vstd::prelude::*;
use vstd::string::*;

verus! {

// ---------------------------------------------------------------------------
// Paths
// ---------------------------------------------------------------------------

/// A relative path is put behind its base with one slash between them; an
/// absolute one stands for itself.
pub proof fn relative_paths_go_behind_their_base(base: Seq<char>, path: Seq<char>)
    ensures
        path.len() > 0 && path[0] == '/' ==> path_join(base, path) == path,
        base.len() > 0 && !(path.len() > 0 && path[0] == '/') ==> {
            &&& base.is_prefix_of(path_join(base, path))
            &&& path.is_suffix_of(path_join(base, path))
            &&& path_join(base, path).len() == base.len() + path.len() + (if base.last() == '/' {
                0int
            } else {
                1
            })
            &&& path_join(base, path)[path_join(base, path).len() - path.len() - 1] == '/'
        },
{
    let r = path_join(base, path);
    if base.len() > 0 && !(path.len() > 0 && path[0] == '/') {
        assert(r.subrange(0, base.len() as int) =~= base);
        assert(r.subrange(r.len() - path.len(), r.len() as int) =~= path);
    }
}

/// A tool path stands for itself where it is absolute, for a place in the home
/// directory where it starts with a tilde, and else for a place in the working
/// directory. It has no meaning only where it needs a home and there is none.
pub proof fn tool_paths_resolve(path: Seq<char>, rest: Seq<char>, cwd: Seq<char>, home: Seq<char>)
    ensures
        path.len() > 0 && path[0] == '/' ==> resolved(path, cwd, Some(home)) == Ok::<
            Seq<char>,
            PathErrorView,
        >(path) && resolved(path, cwd, None) == Ok::<Seq<char>, PathErrorView>(path),
        resolved(seq!['~'], cwd, Some(home)) == Ok::<Seq<char>, PathErrorView>(home),
        resolved(seq!['~', '/'] + rest, cwd, Some(home)) == Ok::<Seq<char>, PathErrorView>(
            path_join(home, rest),
        ),
        resolved(seq!['~', '/'] + rest, cwd, None) == Err::<Seq<char>, PathErrorView>(
            PathErrorView::HomeUnset,
        ),
        path.len() > 0 && path[0] != '/' && path[0] != '~' ==> resolved(path, cwd, None) == Ok::<
            Seq<char>,
            PathErrorView,
        >(path_join(cwd, path)),
{
    reveal_strlit("~");
    reveal_strlit("~/");
    assert(seq!['~'] =~= "~"@);
    let t = seq!['~', '/'] + rest;
    assert(t.subrange(0, 2) =~= "~/"@);
    assert(t.skip(2) =~= rest);
    assert(t.len() >= 2);
    if from_home(path) {
        if "~/"@.is_prefix_of(path) {
            assert(path.subrange(0, 2)[0] == path[0]);
        }
    }
}

pub(crate) proof fn lemma_split_join(a: Seq<char>, b: Seq<char>, c: char)
    ensures
        split_on(a + seq![c] + b, c) == split_on(a, c) + split_on(b, c),
    decreases b.len(),
{
    let s = a + seq![c] + b;
    if b.len() == 0 {
        assert(s.drop_last() =~= a);
        assert(s.last() == c);
        assert(split_on(s, c) =~= split_on(a, c) + split_on(b, c));
    } else {
        lemma_split_join(a, b.drop_last(), c);
        assert(s.drop_last() =~= a + seq![c] + b.drop_last());
        assert(s.last() == b.last());
        crate::text::lemma_split_on_nonempty(b.drop_last(), c);
        crate::text::lemma_split_on_nonempty(a, c);
        assert(split_on(s, c) =~= split_on(a, c) + split_on(b, c));
    }
}

proof fn lemma_parts_extend(a: Seq<Seq<char>>, b: Seq<Seq<char>>, n: nat)
    requires
        n <= b.len(),
    ensures
        parts_among(a, a.len()).is_prefix_of(parts_among(a + b, a.len() + n)),
    decreases n,
{
    if n == 0 {
        lemma_parts_same(a, b, a.len());
        let p = parts_among(a, a.len());
        assert(p.subrange(0, p.len() as int) =~= p);
    } else {
        lemma_parts_extend(a, b, (n - 1) as nat);
        let p = parts_among(a, a.len());
        let before = parts_among(a + b, (a.len() + n - 1) as nat);
        let after = parts_among(a + b, a.len() + n);
        assert(after.subrange(0, p.len() as int) =~= before.subrange(0, p.len() as int));
    }
}

proof fn lemma_parts_same(a: Seq<Seq<char>>, b: Seq<Seq<char>>, n: nat)
    requires
        n <= a.len(),
    ensures
        parts_among(a + b, n) == parts_among(a, n),
    decreases n,
{
    if n > 0 {
        lemma_parts_same(a, b, (n - 1) as nat);
        assert((a + b)[n - 1] == a[n - 1]);
    }
}

/// Whatever stands behind a slash lies below: a path within a location by its
/// text is within it by its components.
pub proof fn what_follows_a_slash_lies_below(base: Seq<char>, rest: Seq<char>)
    requires
        base.len() > 0,
    ensures
        path_within(base + seq!['/'] + rest, base),
        path_within(base, base),
{
    lemma_split_join(base, rest, '/');
    let a = split_on(base, '/');
    let b = split_on(rest, '/');
    lemma_parts_extend(a, b, b.len());
    let p = base + seq!['/'] + rest;
    assert(split_on(p, '/') == a + b);
    assert(p[0] == base[0]);
    let own = named_parts(base);
    assert(own.subrange(0, own.len() as int) =~= own);
}

/// The name of a file is what stands behind the last slash; a directory without a
/// name has none.
pub proof fn files_are_named_behind_the_last_slash(dir: Seq<char>, name: Seq<char>)
    requires
        name.len() > 0,
        !name.contains('/'),
        name != seq!['.'],
        name != seq!['.', '.'],
    ensures
        file_name_of(dir + seq!['/'] + name) == Some(name),
        file_name_of(name) == Some(name),
        file_name_of(dir + seq!['/'] + seq!['.', '.']) is None,
{
    lemma_named_last(dir, name);
    let up = seq!['.', '.'];
    assert(!up.contains('/')) by {
        if up.contains('/') {
            let k = choose|k: int| 0 <= k < up.len() && up[k] == '/';
            assert(k == 0 || k == 1);
        }
    }
    lemma_named_last(dir, up);
    crate::laws::texts::splits_join_back(name, seq![], '/');
    reveal_with_fuel(parts_among, 2);
    assert(parts_among(seq![name], 1).last() == name);
}

proof fn lemma_named_last(dir: Seq<char>, name: Seq<char>)
    requires
        name.len() > 0,
        !name.contains('/'),
        name != seq!['.'],
    ensures
        named_parts(dir + seq!['/'] + name).len() > 0,
        named_parts(dir + seq!['/'] + name).last() == name,
{
    lemma_split_join(dir, name, '/');
    crate::laws::texts::splits_join_back(name, seq![], '/');
    let pieces = split_on(dir + seq!['/'] + name, '/');
    assert(pieces == split_on(dir, '/') + seq![name]);
    assert(pieces[pieces.len() - 1] == name);
}

/// A slash or a dot at the end of a path names nothing more.
pub proof fn trailing_slashes_and_dots_name_nothing(path: Seq<char>)
    ensures
        named_parts(path + seq!['/']) == named_parts(path),
        named_parts(path + seq!['/', '.']) == named_parts(path),
{
    let none = Seq::<char>::empty();
    let dot = seq!['.'];
    lemma_split_join(path, none, '/');
    lemma_split_join(path, dot, '/');
    assert(path + seq!['/'] + none =~= path + seq!['/']);
    assert(path + seq!['/'] + dot =~= path + seq!['/', '.']);
    let a = split_on(path, '/');
    assert(!dot.contains('/')) by {
        if dot.contains('/') {
            let k = choose|k: int| 0 <= k < dot.len() && dot[k] == '/';
            assert(k == 0);
        }
    }
    crate::laws::texts::splits_join_back(dot, none, '/');
    crate::laws::texts::splits_join_back(none, none, '/');
    crate::text::lemma_split_on_nonempty(path, '/');
    lemma_parts_same(a, seq![none], a.len());
    lemma_parts_same(a, seq![dot], a.len());
    let b = a + seq![none];
    let c = a + seq![dot];
    assert(split_on(none, '/') =~= seq![none]);
    assert(b[b.len() - 1] == none);
    assert(c[c.len() - 1] == dot);
    assert(parts_among(b, b.len()) == parts_among(b, a.len()));
    assert(parts_among(c, c.len()) == parts_among(c, a.len()));
}

/// The places below the home directory that hold secrets.
pub open spec fn secret_places() -> Seq<Seq<char>> {
    seq![
        ".ssh"@,
        ".aws/credentials"@,
        ".gnupg"@,
        ".config/gh"@,
        ".config/kaku/assistant.toml"@,
        ".config/kaku/secrets"@,
        ".docker/config.json"@,
        ".git-credentials"@,
        ".netrc"@,
        ".npmrc"@,
        ".pypirc"@,
    ]
}

/// The places of the system that hold secrets.
pub open spec fn system_places() -> Seq<Seq<char>> {
    seq![
        "/etc/shadow"@,
        "/etc/sudoers"@,
        "/etc/sudoers.d"@,
        "/private/etc/shadow"@,
        "/private/etc/sudoers"@,
        "/private/etc/sudoers.d"@,
    ]
}

/// The secrets of the user, of the system and of the active configuration are
/// refused under whatever name a path has for them, and so is all that lies
/// below them.
pub proof fn secret_places_are_refused(
    path: Seq<char>,
    home: Seq<char>,
    config_dir: Seq<char>,
    rest: Seq<char>,
    i: int,
)
    requires
        home.len() > 0,
        config_dir.len() > 0,
    ensures
        0 <= i < 11 ==> sensitivity(
            path,
            Some(path_join(home, secret_places()[i])),
            blocked_set(Some(home), Some(config_dir)),
        ) is Err && sensitivity(
            path,
            Some(path_join(home, secret_places()[i]) + seq!['/'] + rest),
            blocked_set(Some(home), None),
        ) is Err,
        0 <= i < 6 ==> sensitivity(path, Some(system_places()[i]), blocked_set(None, None)) is Err
            && sensitivity(
            path,
            Some(system_places()[i] + seq!['/'] + rest),
            blocked_set(Some(home), Some(config_dir)),
        ) is Err,
        sensitivity(
            path,
            Some(path_join(config_dir, "assistant.toml"@)),
            blocked_set(None, Some(config_dir)),
        ) is Err,
        sensitivity(
            path,
            Some(path_join(config_dir, "secrets"@) + seq!['/'] + rest),
            blocked_set(Some(home), Some(config_dir)),
        ) is Err,
{
    reveal_strlit("/etc/shadow");
    reveal_strlit("/etc/sudoers");
    reveal_strlit("/etc/sudoers.d");
    reveal_strlit("/private/etc/shadow");
    reveal_strlit("/private/etc/sudoers");
    reveal_strlit("/private/etc/sudoers.d");
    reveal_strlit("assistant.toml");
    reveal_strlit("secrets");
    let both = blocked_set(Some(home), Some(config_dir));
    let of_home = blocked_set(Some(home), None);
    let of_config = blocked_set(None, Some(config_dir));
    let of_system = blocked_set(None, None);
    if 0 <= i < 11 {
        let p = path_join(home, secret_places()[i]);
        lemma_joined_some(home, secret_places()[i]);
        what_follows_a_slash_lies_below(p, rest);
        assert(both[6 + i] == p);
        assert(of_home[6 + i] == p);
        assert(in_blocked(p, both));
        assert(in_blocked(p + seq!['/'] + rest, of_home));
    }
    if 0 <= i < 6 {
        let p = system_places()[i];
        assert(p.len() > 0);
        what_follows_a_slash_lies_below(p, rest);
        assert(of_system[i] == p);
        assert(both[i] == p);
        assert(in_blocked(p, of_system));
        assert(in_blocked(p + seq!['/'] + rest, both));
    }
    let a = path_join(config_dir, "assistant.toml"@);
    let s = path_join(config_dir, "secrets"@);
    lemma_joined_some(config_dir, "assistant.toml"@);
    lemma_joined_some(config_dir, "secrets"@);
    what_follows_a_slash_lies_below(a, rest);
    what_follows_a_slash_lies_below(s, rest);
    assert(of_config[6] == a);
    assert(both[18] == s);
    assert(in_blocked(a, of_config));
    assert(in_blocked(s + seq!['/'] + rest, both));
}

proof fn lemma_joined_some(base: Seq<char>, path: Seq<char>)
    requires
        base.len() > 0,
    ensures
        path_join(base, path).len() > 0,
{
}

/// Whether a name, in lowercase, is that of a placeholder.
pub open spec fn is_placeholder(lower: Seq<char>) -> bool {
    ".example"@.is_suffix_of(lower) || ".sample"@.is_suffix_of(lower) || ".template"@.is_suffix_of(
        lower,
    ) || ".dist"@.is_suffix_of(lower)
}

/// Names of environment files, of keys and of token files are refused, in
/// whatever case they are written; placeholders are not.
pub proof fn secret_names_are_refused(name: Seq<char>)
    ensures
        is_placeholder(lowered(name)) ==> !sensitive_name(name),
        !is_placeholder(lowered(name)) ==> {
            &&& lowered(name) == ".env"@ ==> sensitive_name(name)
            &&& ".env."@.is_prefix_of(lowered(name)) ==> sensitive_name(name)
            &&& ".pem"@.is_suffix_of(lowered(name)) ==> sensitive_name(name)
            &&& ".key"@.is_suffix_of(lowered(name)) ==> sensitive_name(name)
            &&& lowered(name) == ".git-credentials"@ || lowered(name) == ".netrc"@ || lowered(name)
                == ".npmrc"@ || lowered(name) == ".pypirc"@ || lowered(name) == "assistant.toml"@
                ==> sensitive_name(name)
            &&& lowered(name) == "id_rsa"@ || lowered(name) == "id_dsa"@ || lowered(name)
                == "id_ecdsa"@ || lowered(name) == "id_ed25519"@ ==> sensitive_name(name)
        },
        lowered(name) == ".ssh"@ || lowered(name) == ".gnupg"@ || lowered(name) == "secrets"@
            <==> sensitive_directory(name),
{
}

/// A path is refused by its own name and by the name of what it leads to, so a
/// link cannot hide a secret; and it is refused for no other reason.
pub proof fn links_hide_no_secret(
    path: Seq<char>,
    target: Seq<char>,
    blocked: Seq<Seq<char>>,
    i: int,
)
    ensures
        0 <= i < named_parts(path).len() && sensitive_directory(named_parts(path)[i])
            ==> sensitivity(path, Some(target), blocked) is Err,
        0 <= i < named_parts(target).len() && sensitive_directory(named_parts(target)[i])
            ==> sensitivity(path, Some(target), blocked) is Err,
        file_name_of(path) matches Some(n) ==> (sensitive_name(n) ==> sensitivity(
            path,
            Some(target),
            blocked,
        ) is Err),
        file_name_of(target) matches Some(n) ==> (sensitive_name(n) ==> sensitivity(
            path,
            Some(target),
            blocked,
        ) is Err),
        sensitivity(path, Some(target), blocked) is Err ==> {
            ||| exists|k: int| 0 <= k < blocked.len() && path_within(target, #[trigger] blocked[k])
            ||| exists|k: int|
                0 <= k < named_parts(path).len() && sensitive_directory(
                    #[trigger] named_parts(path)[k],
                )
            ||| exists|k: int|
                0 <= k < named_parts(target).len() && sensitive_directory(
                    #[trigger] named_parts(target)[k],
                )
            ||| file_name_of(path) matches Some(n) && sensitive_name(n)
            ||| file_name_of(target) matches Some(n) && sensitive_name(n)
        },
        file_name_of(path) matches Some(n) ==> (credential_source(n) ==> read_needs_approval(
            path,
            Some(target),
        )),
        file_name_of(target) matches Some(n) ==> (credential_source(n) ==> read_needs_approval(
            path,
            Some(target),
        )),
{
    if 0 <= i < named_parts(path).len() && sensitive_directory(named_parts(path)[i]) {
        assert(has_sensitive_part(path));
    }
    if 0 <= i < named_parts(target).len() && sensitive_directory(named_parts(target)[i]) {
        assert(has_sensitive_part(target));
    }
}

/// A relative path whose target exists may be used exactly where the target lies
/// in the working directory; an absolute one, or one from the home directory, is
/// asked for by name and may always be.
pub proof fn relative_paths_stay_in_the_directory(
    raw: Seq<char>,
    cwd: Seq<char>,
    facts: EscapeFacts,
)
    ensures
        raw.len() > 0 && raw[0] == '/' ==> escape_verdict(raw, cwd, facts) is Ok,
        !is_absolute(raw) && !from_home(raw) ==> (match (facts.cwd, facts.target) {
            (Some(dir), Some(target)) => escape_verdict(raw, cwd, facts) is Ok <==> path_within(
                target@,
                dir@,
            ),
            (None, _) => escape_verdict(raw, cwd, facts) is Err,
            (Some(dir), None) => facts.ancestor matches Some(a) ==> (a.canonical matches Some(c)
                ==> (!path_within(c@, dir@) ==> escape_verdict(raw, cwd, facts) is Err)),
        }),
{
}

/// A path that passes is the path that was asked for, resolved and nothing else.
pub proof fn checked_paths_are_the_ones_asked_for(raw: Seq<char>, cwd: Seq<char>, facts: PathFacts)
    ensures
        checked(raw, cwd, facts) matches Ok(path) ==> resolved(raw, cwd, opt_view(facts.home))
            == Ok::<Seq<char>, PathErrorView>(path),
        checked(raw, cwd, facts) is Ok <==> {
            &&& resolved(raw, cwd, opt_view(facts.home)) matches Ok(path) && sensitivity(
                path,
                opt_view(facts.escape.target),
                views(facts.blocked@),
            ) is Ok
            &&& escape_verdict(raw, cwd, facts.escape) is Ok
        },
{
}

// ---------------------------------------------------------------------------
// Destinations
// ---------------------------------------------------------------------------

/// An IPv4 address as a number.
pub open spec fn v4_number(o: Seq<u8>) -> int {
    o[0] * 16777216 + o[1] * 65536 + o[2] * 256 + o[3]
}

/// Whether a number lies in the range of `bits` leading bits that starts there.
pub open spec fn in_range(n: int, a: int, b: int, c: int, size: int) -> bool {
    let start = a * 16777216 + b * 65536 + c * 256;
    start <= n < start + size
}

/// An IPv4 address is public exactly where it lies in none of the ranges that
/// are kept for this host, private networks, carriers, links, protocols,
/// documentation, benchmarks, relays, groups and the future.
pub proof fn public_addresses_are_the_rest(o: Seq<u8>)
    requires
        o.len() == 4,
    ensures
        ({
            let n = v4_number(o);
            public_v4(o) <==> !({
                ||| in_range(n, 0, 0, 0, 16777216)
                ||| in_range(n, 10, 0, 0, 16777216)
                ||| in_range(n, 127, 0, 0, 16777216)
                ||| in_range(n, 172, 16, 0, 1048576)
                ||| in_range(n, 192, 168, 0, 65536)
                ||| in_range(n, 169, 254, 0, 65536)
                ||| in_range(n, 100, 64, 0, 4194304)
                ||| in_range(n, 192, 0, 0, 256)
                ||| in_range(n, 192, 0, 2, 256)
                ||| in_range(n, 192, 88, 99, 256)
                ||| in_range(n, 198, 18, 0, 131072)
                ||| in_range(n, 198, 51, 100, 256)
                ||| in_range(n, 203, 0, 113, 256)
                ||| n >= 224 * 16777216
            })
        }),
{
}

/// An IPv6 address is not public where it is unspecified, loopback, unique
/// local, link or site local, a group, for documentation or for local
/// translation; where it embeds an IPv4 address, that one decides; every other
/// is public.
pub proof fn public_v6_addresses_are_the_rest(s: Seq<u16>)
    requires
        s.len() == 8,
    ensures
        s == seq![0u16, 0, 0, 0, 0, 0, 0, 0] ==> !public_v6(s),
        s == seq![0u16, 0, 0, 0, 0, 0, 0, 1] ==> !public_v6(s),
        s[0] / 512 == 0x7e ==> !public_v6(s),
        s[0] / 64 == 0x3fa || s[0] / 64 == 0x3fb ==> !public_v6(s),
        s[0] / 256 == 0xff ==> !public_v6(s),
        s[0] == 0x2001 && s[1] == 0xdb8 ==> !public_v6(s),
        s[0] == 0x64 && s[1] == 0xff9b && s[2] == 1 ==> !public_v6(s),
        s[0] / 0x2000 == 1 && s[0] != 0x2002 && !(s[0] == 0x2001 && s[1] == 0xdb8) ==> public_v6(s),
        s[0] == 0x2002 ==> public_v6(s) == public_v4(
            seq![
                (s[1] / 256) as u8,
                (s[1] % 256) as u8,
                (s[2] / 256) as u8,
                (s[2] % 256) as u8,
            ],
        ),
        s.take(6) == seq![0u16, 0, 0, 0, 0, 0xffff] || s.take(6) == seq![0x64u16, 0xff9b, 0, 0, 0, 0]
            ==> public_v6(s) == public_v4(
            seq![
                (s[6] / 256) as u8,
                (s[6] % 256) as u8,
                (s[7] / 256) as u8,
                (s[7] % 256) as u8,
            ],
        ),
{
    let t = s.take(6);
    assert(t[0] == s[0] && t[1] == s[1] && t[2] == s[2] && t[3] == s[3] && t[4] == s[4] && t[5]
        == s[5]);
}

/// A request goes to the host and port of its URL, and to no other; it is
/// refused only for its scheme, for credentials in it, for a missing port or
/// host, or because the host is not on the public network.
pub proof fn requests_go_where_their_url_says(u: UrlView)
    ensures
        ({
            let ok = (u.scheme == "http"@ || u.scheme == "https"@) && u.username.len() == 0
                && !u.has_password && u.port is Some;
            match u.host {
                HostView::Ip(bits, text) => (destination_of(Some(u)) is Ok <==> ok && public_bits(
                    bits,
                )) && (destination_of(Some(u)) matches Ok(d) ==> d == DestinationView::Address(
                    bits,
                    text,
                    u.port->0,
                )),
                HostView::Domain(name) => {
                    let host = lowered(without_end(name, '.'));
                    let local = host == "localhost"@ || ".localhost"@.is_suffix_of(host) || host
                        == "local"@ || ".local"@.is_suffix_of(host);
                    &&& destination_of(Some(u)) is Ok <==> ok && !local
                    &&& destination_of(Some(u)) matches Ok(d) ==> d == DestinationView::Name(
                        name,
                        u.port->0,
                    )
                },
                HostView::Missing => destination_of(Some(u)) is Err,
            }
        }),
        destination_of(None) == Err::<DestinationView, HttpErrorView>(HttpErrorView::InvalidUrl),
{
}

/// A trailing dot, or any number of them, does not disguise a host.
pub proof fn trailing_dots_disguise_nothing(host: Seq<char>, c: char)
    ensures
        without_end(host.push(c), c) == without_end(host, c),
        host.len() > 0 && host.last() != c ==> without_end(host, c) == host,
{
    assert(host.push(c).drop_last() =~= host);
}

/// The path that is checked is the one in the arguments; without one the call is
/// refused.
pub proof fn the_path_argument_is_checked(
    args: crate::json::JsonView,
    cwd: Seq<char>,
    facts: PathFacts,
    raw: Seq<char>,
)
    ensures
        crate::json::field_of(args, "path"@) == Some(crate::json::JsonView::Text(raw))
            ==> crate::paths::checked_arg(args, cwd, facts) == checked(raw, cwd, facts),
        crate::json::field_of(args, "path"@) is None ==> crate::paths::checked_arg(
            args,
            cwd,
            facts,
        ) == Err::<Seq<char>, PathErrorView>(PathErrorView::MissingPath),
{
}

/// The extensions of source code and documentation.
pub open spec fn readable_extensions() -> Seq<Seq<char>> {
    seq![
        "rs"@, "go"@, "py"@, "ts"@, "tsx"@, "js"@, "jsx"@, "mjs"@, "cjs"@, "java"@, "kt"@, "swift"@,
        "c"@, "h"@, "cpp"@, "hpp"@, "cc"@, "cs"@, "rb"@, "php"@, "ex"@, "exs"@, "erl"@, "hs"@,
        "ml"@, "scala"@, "lua"@, "md"@, "mdx"@, "rst"@, "html"@, "css"@, "scss"@, "vue"@,
        "svelte"@, "sql"@, "proto"@,
    ]
}

/// Source code and documentation are known by their extension.
pub proof fn sources_are_known_by_extension(k: int)
    requires
        0 <= k < readable_extensions().len(),
    ensures
        crate::paths::code_extension(readable_extensions()[k]),
{
}

} // verus!
