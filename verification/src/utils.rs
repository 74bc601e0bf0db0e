//! Naming conventions of the build cache: identifiers in file names, package
//! names and profile directories.

use vstd::prelude::*;
use crate::text::{push_char, str_eq};

verus! {

/// A package name with every `-` replaced by `_`.
pub open spec fn normalized(name: Seq<char>) -> Seq<char> {
    name.map_values(|c: char| if c == '-' { '_' } else { c })
}

/// The on-disk directory that holds the outputs of a build profile.
pub open spec fn profile_dir_name(profile: Seq<char>) -> Seq<char> {
    if profile == "dev"@ {
        "debug"@
    } else {
        profile
    }
}

/// Normalize a package name to the underscore form used for storage.
pub fn normalize_package_name(name: &str) -> (r: String)
    ensures
        r@ == normalized(name@),
{
    let mut out = String::new();
    for c in it: name.chars()
        invariant
            it.seq() == name@,
            out@ == normalized(name@.take(it.index())),
    {
        if c == '-' {
            push_char(&mut out, '_');
        } else {
            push_char(&mut out, c);
        }
    }
    out
}

/// Map a profile name to the directory its outputs are stored in: `dev` builds
/// into `debug`, every other profile into a directory of its own name.
pub fn profile_to_dir(profile: &str) -> (r: &str)
    ensures
        r@ == profile_dir_name(profile@),
{
    if str_eq(profile, "dev") {
        "debug"
    } else {
        profile
    }
}

/// The position of the last `-` in `s`, or `-1` where it has none.
pub open spec fn last_dash(s: Seq<char>) -> int
    decreases s.len(),
{
    if s.len() == 0 {
        -1
    } else if s.last() == '-' {
        s.len() - 1
    } else {
        last_dash(s.drop_last())
    }
}

/// The identifier that an entry name carries: the name before its last `-`
/// and the hash behind it. A name without `-` carries none.
pub open spec fn parse_identifier(s: Seq<char>) -> Option<(Seq<char>, Seq<char>)> {
    let at = last_dash(s);
    if at < 0 {
        None
    } else {
        Some((s.subrange(0, at), s.subrange(at + 1, s.len() as int)))
    }
}

/// `last_dash` points at a `-` behind which no other follows.
pub proof fn lemma_last_dash(s: Seq<char>)
    ensures
        -1 <= last_dash(s) < s.len(),
        last_dash(s) >= 0 ==> s[last_dash(s)] == '-',
        forall|i: int| last_dash(s) < i < s.len() ==> s[i] != '-',
    decreases s.len(),
{
    if s.len() > 0 && s.last() != '-' {
        let front = s.drop_last();
        lemma_last_dash(front);
        assert forall|i: int| last_dash(s) < i < s.len() implies s[i] != '-' by {
            if i < front.len() {
                assert(front[i] == s[i]);
            }
        }
    }
}

/// Split an entry name into package name and hash at its last `-`.
pub fn extract_fingerprint(file_stem: &str) -> (r: Option<(String, String)>)
    ensures
        r.deep_view() == parse_identifier(file_stem@),
{
    let n: usize = file_stem.unicode_len();
    let mut at: Option<usize> = None;
    let mut pos: usize = 0;
    for c in it: file_stem.chars()
        invariant
            it.seq() == file_stem@,
            n == file_stem@.len(),
            pos == it.index(),
            match at {
                Some(p) => p < pos && last_dash(file_stem@.take(pos as int)) == p,
                None => last_dash(file_stem@.take(pos as int)) == -1,
            },
    {
        proof {
            let next = file_stem@.take(pos + 1);
            assert(next.drop_last() =~= file_stem@.take(pos as int));
        }
        if c == '-' {
            at = Some(pos);
        }
        pos += 1;
    }
    assert(file_stem@.take(pos as int) =~= file_stem@);
    match at {
        Some(p) => {
            let name = file_stem.substring_char(0, p).to_owned();
            let hash = file_stem.substring_char(p + 1, n).to_owned();
            Some((name, hash))
        },
        None => None,
    }
}

/// An entry name with a `-` splits at the rightmost one: name, `-` and hash
/// put together give the entry name back, and the hash holds no `-`.
pub proof fn lemma_parse_splits_at_rightmost_dash(f: Seq<char>)
    requires
        f.contains('-'),
    ensures
        parse_identifier(f) is Some,
        ({
            let (name, hash) = parse_identifier(f)->0;
            name + seq!['-'] + hash == f && !hash.contains('-')
        }),
{
    lemma_last_dash(f);
    assert(f[last_dash(f)] == '-');
}

/// An entry name without `-` carries no identifier.
pub proof fn lemma_parse_rejects_dashless(f: Seq<char>)
    requires
        !f.contains('-'),
    ensures
        parse_identifier(f) is None,
{
    lemma_last_dash(f);
}

/// The split is the only one: whatever name and dash-free hash an entry name
/// is put together from, parsing gives them back.
pub proof fn lemma_parse_of_joined(name: Seq<char>, hash: Seq<char>)
    requires
        !hash.contains('-'),
    ensures
        parse_identifier(name + seq!['-'] + hash) == Some((name, hash)),
{
    let f = name + seq!['-'] + hash;
    lemma_last_dash(f);
    assert(f[name.len() as int] == '-');
    assert(last_dash(f) == name.len());
}

/// Normalizing a name twice is the same as normalizing it once, and a
/// normalized name holds no `-`.
pub proof fn lemma_normalize_idempotent(name: Seq<char>)
    ensures
        normalized(normalized(name)) == normalized(name),
        !normalized(name).contains('-'),
{
}

} // verus!
