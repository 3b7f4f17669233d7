//! Installed ELPA packages: where package.el keeps them, how a package
//! directory name splits into name and version, and each package's stable id.
use vstd::prelude::*;
use vstd::utf8::encode_utf8;
use crate::paths::{join_path, joined};
use crate::text::{hyphenated, hyphenated_string, is_ascii_digit, is_digit_char, law_hyphenated_layout};

verus! {

/// An installed package: its stable id, name and version.
pub struct PackageEntry {
    pub id: String,
    pub name: String,
    pub version: String,
}

// ── directory name parsing ───────────────────────────────────────────────────

/// `i` splits `s` into a package name and a version: the character before
/// `i` is `-` and the character at `i` is a decimal digit.
pub open spec fn is_version_split(s: Seq<char>, i: int) -> bool {
    &&& 1 <= i < s.len()
    &&& s[i - 1] == '-'
    &&& is_digit_char(s[i])
}

/// `i` is the last split point of `s`.
pub open spec fn is_last_split(s: Seq<char>, i: int) -> bool {
    is_version_split(s, i) && forall|j: int| i < j ==> !is_version_split(s, j)
}

/// The name and version of a package directory name: the parts before and
/// after the last `-` that is immediately followed by a decimal digit; none
/// when there is no such `-`.
pub open spec fn name_version(s: Seq<char>) -> Option<(Seq<char>, Seq<char>)> {
    if exists|i: int| is_version_split(s, i) {
        let i = choose|i: int| is_last_split(s, i);
        Some((s.subrange(0, i - 1), s.subrange(i, s.len() as int)))
    } else {
        None
    }
}

/// Parse `"magit-20240101.123"` into `("magit", "20240101.123")`: the split
/// is at the last `-` that is immediately followed by a decimal digit.
pub fn parse_name_version(s: &str) -> (r: Option<(&str, &str)>)
    ensures
        match r {
            None => name_version(s@) is None && forall|i: int| !is_version_split(s@, i),
            Some((name, version)) => {
                &&& name_version(s@) == Some((name@, version@))
                &&& exists|i: int|
                    {
                        &&& #[trigger] is_last_split(s@, i)
                        &&& name@ == s@.subrange(0, i - 1)
                        &&& version@ == s@.subrange(i, s@.len() as int)
                    }
            },
        },
{
    let n = s.unicode_len();
    let mut i = n;
    while i > 1
        invariant
            n == s@.len(),
            1 <= i <= n || (i == n && n == 0),
            forall|j: int| i <= j ==> !is_version_split(s@, j),
        decreases i,
    {
        i = i - 1;
        if s.get_char(i - 1) == '-' && is_ascii_digit(s.get_char(i)) {
            let name = s.substring_char(0, i - 1);
            let version = s.substring_char(i, n);
            proof {
                assert(is_last_split(s@, i as int));
                let c = choose|c: int| is_last_split(s@, c);
                assert(c == i as int);
            }
            return Some((name, version));
        }
    }
    None
}

/// A directory name made of a package name, `-`, and a version that starts
/// with a decimal digit (`0` to `9`) and has no `-` followed by a decimal
/// digit, splits into exactly that name and that version.
pub proof fn law_name_version_split(name: Seq<char>, version: Seq<char>)
    requires
        version.len() > 0,
        '0' <= version[0] && version[0] <= '9',
        forall|j: int| 1 <= j < version.len() && version[j - 1] == '-' ==> !('0' <= #[trigger] version[j] && version[j] <= '9'),
    ensures
        name_version(name + seq!['-'] + version) == Some((name, version)),
{
    let s = name + seq!['-'] + version;
    let k: int = name.len() as int + 1;
    assert(s[k - 1] == '-');
    assert(s[k] == version[0]);
    assert(is_version_split(s, k));
    assert forall|c: int| k < c implies !is_version_split(s, c) by {
        if is_version_split(s, c) {
            let j = c - k;
            assert(s[c - 1] == version[j - 1]);
            assert(s[c] == version[j]);
        }
    }
    assert(is_last_split(s, k));
    let c = choose|c: int| is_last_split(s, c);
    assert(is_last_split(s, c));
    if c < k {
        assert(!is_version_split(s, k));
    }
    assert(c == k);
    assert(s.subrange(0, k - 1) =~= name);
    assert(s.subrange(k, s.len() as int) =~= version);
}

// ── stable ID generation ─────────────────────────────────────────────────────

/// The bytes of `Uuid::new_v5(&Uuid::NAMESPACE_OID, name)`.
pub uninterp spec fn uuid_v5_oid(name: Seq<u8>) -> Seq<u8>;

/// Calls `uuid::Uuid::new_v5` with the OID namespace and takes its bytes:
/// the SHA-1 name-based UUID of `name`, whose version nibble is 5 and whose
/// variant bits are `10`.
#[verifier::external_body]
fn uuid_v5_oid_bytes(name: &[u8]) -> (r: [u8; 16])
    ensures
        r@ == uuid_v5_oid(name@),
        r@[6] / 16 == 5,
        r@[8] / 64 == 2,
{
    uuid::Uuid::new_v5(&uuid::Uuid::NAMESPACE_OID, name).into_bytes()
}

/// The key a package's id is derived from: `"<name>-<version>"`.
pub open spec fn package_key(name: Seq<char>, version: Seq<char>) -> Seq<char> {
    name + seq!['-'] + version
}

/// The stable id of a package: the hyphenated UUID v5 (OID namespace) of
/// the UTF-8 bytes of `"<name>-<version>"`.
pub open spec fn spec_stable_id(name: Seq<char>, version: Seq<char>) -> Seq<char> {
    hyphenated(uuid_v5_oid(encode_utf8(package_key(name, version))))
}

/// UUID v5 (SHA-1 name hash) of `"<name>-<version>"`: the same id for the
/// same package in every database. It is a 36-character hyphenated UUID
/// whose version digit is `5`.
pub fn stable_id(name: &str, version: &str) -> (r: String)
    ensures
        r@ == spec_stable_id(name@, version@),
        r@.len() == 36,
        r@[14] == '5',
{
    let mut key = String::from_str(name);
    proof { reveal_strlit("-"); }
    key.append("-");
    key.append(version);
    assert(key@ =~= package_key(name@, version@));
    let key_str = key.as_str();
    let key_bytes = key_str.as_bytes();
    assert(key_bytes@ == encode_utf8(package_key(name@, version@)));
    let bytes = uuid_v5_oid_bytes(key_bytes);
    proof { law_hyphenated_layout(bytes@); }
    hyphenated_string(&bytes)
}

// ── package listing ──────────────────────────────────────────────────────────

/// The `(id, name, version)` of each package directory among `names`, in
/// order; names that do not parse are skipped.
pub open spec fn package_rows(names: Seq<Seq<char>>) -> Seq<(Seq<char>, Seq<char>, Seq<char>)>
    decreases names.len(),
{
    if names.len() == 0 {
        Seq::empty()
    } else {
        let rest = package_rows(names.drop_last());
        match name_version(names.last()) {
            Some((n, v)) => rest.push((spec_stable_id(n, v), n, v)),
            None => rest,
        }
    }
}

/// A package entry as plain text.
pub open spec fn entry_view(e: PackageEntry) -> (Seq<char>, Seq<char>, Seq<char>) {
    (e.id@, e.name@, e.version@)
}

/// The packages installed under an ELPA directory, given the names of its
/// subdirectories in listing order.
pub fn packages_from_dir_names(names: &Vec<String>) -> (r: Vec<PackageEntry>)
    ensures
        r@.map_values(|e: PackageEntry| entry_view(e)) == package_rows(
            names@.map_values(|s: String| s@),
        ),
{
    let ghost views = names@.map_values(|s: String| s@);
    let mut out: Vec<PackageEntry> = Vec::new();
    let mut i: usize = 0;
    while i < names.len()
        invariant
            i <= names.len(),
            views == names@.map_values(|s: String| s@),
            out@.map_values(|e: PackageEntry| entry_view(e)) == package_rows(views.take(i as int)),
        decreases names.len() - i,
    {
        let ghost before = out@;
        proof {
            assert(views.take(i + 1).drop_last() =~= views.take(i as int));
            assert(views.take(i + 1).last() == names@[i as int]@);
        }
        match parse_name_version(names[i].as_str()) {
            Some((name, version)) => {
                let entry = PackageEntry {
                    id: stable_id(name, version),
                    name: String::from_str(name),
                    version: String::from_str(version),
                };
                out.push(entry);
                assert(out@.map_values(|e: PackageEntry| entry_view(e)) =~= before.map_values(
                    |e: PackageEntry| entry_view(e),
                ).push(entry_view(entry)));
            },
            None => {},
        }
        i = i + 1;
    }
    assert(views.take(names.len() as int) =~= views);
    out
}

// ── elpa path discovery ──────────────────────────────────────────────────────

/// Where package.el may keep packages, in the order they are tried:
/// `<home>/.emacs.d/elpa`, `<home>/.config/emacs/elpa`, then
/// `<XDG_CONFIG_HOME>/emacs/elpa` when that variable is set.
pub open spec fn elpa_candidate_paths(home: Seq<char>, xdg_config_home: Option<Seq<char>>) -> Seq<Seq<char>> {
    let first = seq![
        joined(joined(home, ".emacs.d"@), "elpa"@),
        joined(joined(joined(home, ".config"@), "emacs"@), "elpa"@),
    ];
    match xdg_config_home {
        Some(x) => first.push(joined(joined(x, "emacs"@), "elpa"@)),
        None => first,
    }
}

/// The candidate ELPA directories for a home directory and the value of
/// `XDG_CONFIG_HOME` (if set); the first that is a directory is used.
pub fn elpa_candidates(home: &str, xdg_config_home: Option<&str>) -> (r: Vec<String>)
    ensures
        r@.map_values(|s: String| s@) == elpa_candidate_paths(
            home@,
            match xdg_config_home { Some(x) => Some(x@), None => None },
        ),
{
    let mut out: Vec<String> = Vec::new();
    let emacs_d = join_path(home, ".emacs.d");
    out.push(join_path(emacs_d.as_str(), "elpa"));
    let config = join_path(home, ".config");
    let config_emacs = join_path(config.as_str(), "emacs");
    out.push(join_path(config_emacs.as_str(), "elpa"));
    match xdg_config_home {
        Some(x) => {
            let xdg_emacs = join_path(x, "emacs");
            out.push(join_path(xdg_emacs.as_str(), "elpa"));
        },
        None => {},
    }
    assert(out@.map_values(|s: String| s@) =~= elpa_candidate_paths(
        home@,
        match xdg_config_home { Some(x) => Some(x@), None => None },
    ));
    out
}

} // verus!
