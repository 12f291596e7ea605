//! Addon packages are plain ZIP archives holding one addon, with
//! `manifest.toml` at the archive root or inside one top-level folder.
//! Reading and extracting the archive is the caller's (filesystem) work; this
//! module decides, from the entry names alone, which entry is the manifest
//! and whether every entry sits under one top-level folder that extraction
//! strips, and where an addon is installed.

use super::manifest::MANIFEST_FILENAME;
use crate::text::str_eq;
use vstd::prelude::*;
use vstd::string::{StrSliceExecFns, StringExecFns};

verus! {

broadcast use vstd::string::to_string_from_display_ensures_for_str;

/// The suffix that marks a manifest inside a folder of the archive.
pub const NESTED_MANIFEST_SUFFIX: &'static str = "/manifest.toml";

/// Whether `suffix` ends `s`.
pub open spec fn ends_with(s: Seq<char>, suffix: Seq<char>) -> bool {
    s.len() >= suffix.len() && s.subrange(s.len() - suffix.len(), s.len() as int) == suffix
}

/// A manifest entry: `manifest.toml` itself or any path ending in
/// `/manifest.toml`.
pub open spec fn is_manifest_entry(name: Seq<char>) -> bool {
    name == MANIFEST_FILENAME@ || ends_with(name, NESTED_MANIFEST_SUFFIX@)
}

fn has_suffix(s: &str, suffix: &str) -> (r: bool)
    ensures
        r == ends_with(s@, suffix@),
{
    let n = s.unicode_len();
    let m = suffix.unicode_len();
    if n < m {
        return false;
    }
    let mut i: usize = 0;
    while i < m
        invariant
            n == s@.len(),
            m == suffix@.len(),
            m <= n,
            i <= m,
            forall|k: int| 0 <= k < i ==> s@[n - m + k] == suffix@[k],
        decreases m - i,
    {
        if s.get_char(n - m + i) != suffix.get_char(i) {
            assert(s@.subrange(n - m, n as int)[i as int] != suffix@[i as int]);
            return false;
        }
        i = i + 1;
    }
    assert(s@.subrange(n - m, n as int) =~= suffix@);
    true
}

/// A path joined onto a directory, as a path is joined on Unix: an absolute
/// `rel` replaces `dir`; otherwise a separator is put between them unless
/// `dir` is empty or already ends with one.
pub open spec fn joined(dir: Seq<char>, rel: Seq<char>) -> Seq<char> {
    if rel.len() > 0 && rel[0] == '/' {
        rel
    } else if dir.len() == 0 || dir.last() == '/' {
        dir + rel
    } else {
        dir + "/"@ + rel
    }
}

/// The directory an addon with `id` extracts into: `id` under the addons
/// root.
pub fn install_path(addons_root: &str, id: &str) -> (r: String)
    ensures
        r@ == joined(addons_root@, id@),
{
    let id_len = id.unicode_len();
    if id_len > 0 && id.get_char(0) == '/' {
        return id.to_string();
    }
    let root_len = addons_root.unicode_len();
    if root_len == 0 || addons_root.get_char(root_len - 1) == '/' {
        addons_root.to_string().concat(id)
    } else {
        addons_root.to_string().concat("/").concat(id)
    }
}

fn has_prefix(s: &str, prefix: &str) -> (r: bool)
    ensures
        r == (prefix@.len() <= s@.len() && s@.subrange(0, prefix@.len() as int) == prefix@),
{
    let n = s.unicode_len();
    let m = prefix.unicode_len();
    if n < m {
        return false;
    }
    let mut i: usize = 0;
    while i < m
        invariant
            n == s@.len(),
            m == prefix@.len(),
            m <= n,
            i <= m,
            forall|k: int| 0 <= k < i ==> s@[k] == prefix@[k],
        decreases m - i,
    {
        if s.get_char(i) != prefix.get_char(i) {
            assert(s@.subrange(0, m as int)[i as int] != prefix@[i as int]);
            return false;
        }
        i = i + 1;
    }
    assert(s@.subrange(0, m as int) =~= prefix@);
    true
}

/// An entry's path once the package's common root folder `root` is taken
/// off: what follows `root/`, unless nothing does (the root folder's own
/// entry stays as it is); a path outside `root` stays as it is.
pub open spec fn entry_under_root(rel: Seq<char>, root: Seq<char>) -> Seq<char> {
    let p = root + "/"@;
    if rel.len() > p.len() && rel.subrange(0, p.len() as int) == p {
        rel.subrange(p.len() as int, rel.len() as int)
    } else {
        rel
    }
}

/// Where an entry goes inside the addon directory when the package wraps
/// everything in the folder `root` ([`entry_under_root`]).
pub fn strip_root(rel: &str, root: &str) -> (r: String)
    ensures
        r@ == entry_under_root(rel@, root@),
{
    let p = root.to_string().concat("/");
    let n = rel.unicode_len();
    let m = p.as_str().unicode_len();
    if n > m && has_prefix(rel, p.as_str()) {
        rel.substring_char(m, n).to_string()
    } else {
        rel.to_string()
    }
}

/// The first entry, in archive order, that is a manifest.
pub fn manifest_entry(names: &[String]) -> (r: Option<usize>)
    ensures
        r matches Some(i) ==> i < names@.len() && is_manifest_entry(names@[i as int]@)
            && forall|k: int| 0 <= k < i ==> !is_manifest_entry(#[trigger] names@[k]@),
        r is None ==> forall|k: int| 0 <= k < names@.len() ==> !is_manifest_entry(#[trigger] names@[k]@),
{
    let mut i: usize = 0;
    while i < names.len()
        invariant
            i <= names@.len(),
            forall|k: int| 0 <= k < i ==> !is_manifest_entry(#[trigger] names@[k]@),
        decreases names@.len() - i,
    {
        let name = names[i].as_str();
        if str_eq(name, MANIFEST_FILENAME) || has_suffix(name, NESTED_MANIFEST_SUFFIX) {
            return Some(i);
        }
        i = i + 1;
    }
    None
}

/// The position of the first `/` in `s`, or its length when it has none.
pub open spec fn first_slash(s: Seq<char>) -> int
    decreases s.len(),
{
    if s.len() == 0 {
        0
    } else if s[0] == '/' {
        0
    } else {
        1 + first_slash(s.drop_first())
    }
}

/// The first component of an entry name: everything before its first `/`.
pub open spec fn first_component(s: Seq<char>) -> Seq<char> {
    s.subrange(0, first_slash(s))
}

proof fn lemma_first_slash_unique(s: Seq<char>, j: int)
    requires
        0 <= j <= s.len(),
        forall|k: int| 0 <= k < j ==> s[k] != '/',
        j < s.len() ==> s[j] == '/',
    ensures
        first_slash(s) == j,
    decreases s.len(),
{
    if s.len() > 0 && s[0] != '/' {
        let t = s.drop_first();
        assert forall|k: int| 0 <= k < j - 1 implies t[k] != '/' by {
            assert(t[k] == s[k + 1]);
        }
        if j - 1 < t.len() {
            assert(t[j - 1] == s[j]);
        }
        lemma_first_slash_unique(t, j - 1);
    }
}

/// The first component of an entry name.
pub fn first_component_of(name: &str) -> (r: String)
    ensures
        r@ == first_component(name@),
{
    let n = name.unicode_len();
    let mut i: usize = 0;
    while i < n && name.get_char(i) != '/'
        invariant
            n == name@.len(),
            i <= n,
            forall|k: int| 0 <= k < i ==> name@[k] != '/',
        decreases n - i,
    {
        i = i + 1;
    }
    proof { lemma_first_slash_unique(name@, i as int); }
    name.substring_char(0, i).to_string()
}

/// The top-level folder every entry sits under, when all entries share one
/// first component; `None` for no entries or several.
pub fn common_root(names: &[String]) -> (r: Option<String>)
    ensures
        names@.len() == 0 ==> r is None,
        names@.len() > 0 ==> {
            let first = first_component(names@[0]@);
            &&& (r is Some <==> forall|k: int| 0 <= k < names@.len() ==> first_component(#[trigger] names@[k]@) == first)
            &&& r matches Some(root) ==> root@ == first
        },
{
    if names.len() == 0 {
        return None;
    }
    let root = first_component_of(names[0].as_str());
    let mut i: usize = 1;
    while i < names.len()
        invariant
            1 <= i <= names@.len(),
            root@ == first_component(names@[0]@),
            forall|k: int| 0 <= k < i ==> first_component(#[trigger] names@[k]@) == root@,
        decreases names@.len() - i,
    {
        let c = first_component_of(names[i].as_str());
        if !str_eq(c.as_str(), root.as_str()) {
            return None;
        }
        i = i + 1;
    }
    Some(root)
}

} // verus!
