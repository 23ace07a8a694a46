//! The deterministic compose-project slug derived from a worktree path.

use vstd::prelude::*;

use crate::strutil::concat_str;

verus! {

/// What `str::to_lowercase` returns: a function of the characters alone.
pub uninterp spec fn lower_of(s: Seq<char>) -> Seq<char>;

/// Relies on `str::to_lowercase`: the result depends on the input characters
/// alone (Unicode lowercasing without tailoring, no locale or environment
/// input), and an empty string stays empty.
#[verifier::external_body]
fn lowercase(s: &str) -> (r: String)
    ensures
        r@ == lower_of(s@),
        s@.len() == 0 ==> r@.len() == 0,
{
    s.to_lowercase()
}

/// Characters a compose-project slug may contain: `[a-z0-9-_]`.
pub open spec fn slug_char_ok(c: char) -> bool {
    (97 <= c as int && c as int <= 122)  // 'a'..='z'
        || (48 <= c as int && c as int <= 57)  // '0'..='9'
        || c == '-' || c == '_'
}

/// Keep only the characters a slug may contain.
pub open spec fn spec_filter_slug(s: Seq<char>) -> Seq<char>
    decreases s.len(),
{
    if s.len() == 0 {
        Seq::empty()
    } else {
        let rest = spec_filter_slug(s.drop_last());
        if slug_char_ok(s.last()) {
            rest.push(s.last())
        } else {
            rest
        }
    }
}

/// Index of the last `/` in a path, or `-1` when there is none.
pub open spec fn last_slash(p: Seq<char>) -> int
    decreases p.len(),
{
    if p.len() == 0 {
        -1
    } else if p.last() == '/' {
        p.len() - 1
    } else {
        last_slash(p.drop_last())
    }
}

/// The path's final component: everything after the last `/`.
pub open spec fn basename_of(p: Seq<char>) -> Seq<char> {
    p.subrange(last_slash(p) + 1, p.len() as int)
}

/// The slug of a worktree path: `{basename}_devcontainer`, lowercased, with
/// every character outside `[a-z0-9-_]` dropped.
pub open spec fn spec_slug(p: Seq<char>) -> Seq<char> {
    spec_filter_slug(lower_of(basename_of(p) + "_devcontainer"@))
}

proof fn lemma_last_slash_bounds(p: Seq<char>)
    ensures
        -1 <= last_slash(p) < p.len(),
    decreases p.len(),
{
    if p.len() > 0 && p.last() != '/' {
        lemma_last_slash_bounds(p.drop_last());
    }
}

/// Every character a slug filter keeps is a slug character.
pub proof fn lemma_filter_slug_ok(s: Seq<char>)
    ensures
        forall|i: int| 0 <= i < spec_filter_slug(s).len() ==> slug_char_ok(
            #[trigger] spec_filter_slug(s)[i],
        ),
    decreases s.len(),
{
    if s.len() > 0 {
        lemma_filter_slug_ok(s.drop_last());
        let rest = spec_filter_slug(s.drop_last());
        assert forall|i: int| 0 <= i < spec_filter_slug(s).len() implies slug_char_ok(
            spec_filter_slug(s)[i],
        ) by {
            if slug_char_ok(s.last()) {
                assert(spec_filter_slug(s) == rest.push(s.last()));
                if i < rest.len() {
                    assert(spec_filter_slug(s)[i] == rest[i]);
                } else {
                    assert(spec_filter_slug(s)[i] == s.last());
                }
            }
        }
    }
}

/// Whether a character may appear in a compose-project slug.
pub fn is_slug_char(c: char) -> (r: bool)
    ensures
        r == slug_char_ok(c),
{
    let u = c as u32;
    (97 <= u && u <= 122) || (48 <= u && u <= 57) || c == '-' || c == '_'
}

/// The path's final component, as executable code.
pub fn basename(path: &str) -> (r: &str)
    ensures
        r@ == basename_of(path@),
{
    let len = path.unicode_len();
    let mut from: usize = 0;
    let mut i: usize = 0;
    while i < len
        invariant
            0 <= i <= len,
            len == path@.len(),
            from == last_slash(path@.take(i as int)) + 1,
            0 <= from <= i,
        decreases len - i,
    {
        proof {
            assert(path@.take(i + 1).drop_last() =~= path@.take(i as int));
            assert(path@.take(i + 1).last() == path@[i as int]);
        }
        if path.get_char(i) == '/' {
            from = i + 1;
        }
        i += 1;
    }
    proof {
        assert(path@.take(len as int) =~= path@);
        lemma_last_slash_bounds(path@);
    }
    path.substring_char(from, len)
}

/// The compose-project slug for a worktree path, matching the devcontainer
/// CLI convention: `{basename}_devcontainer`, lowercased, keeping only
/// `[a-z0-9-_]`. The result is a pure function of the path, so repeated calls
/// agree, and every character of the result is in `[a-z0-9-_]`.
pub fn compose_project_name(worktree_path: &str) -> (r: String)
    ensures
        r@ == spec_slug(worktree_path@),
        forall|i: int| 0 <= i < r@.len() ==> slug_char_ok(#[trigger] r@[i]),
{
    let base = basename(worktree_path);
    let raw = concat_str(String::from_str(base), "_devcontainer");
    let lowered = lowercase(raw.as_str());
    let llen = lowered.as_str().unicode_len();
    let mut out = String::new();
    let mut i: usize = 0;
    while i < llen
        invariant
            0 <= i <= llen,
            llen == lowered@.len(),
            out@ == spec_filter_slug(lowered@.take(i as int)),
        decreases llen - i,
    {
        proof {
            assert(lowered@.take(i + 1).drop_last() =~= lowered@.take(i as int));
            assert(lowered@.take(i + 1).last() == lowered@[i as int]);
        }
        let c = lowered.as_str().get_char(i);
        if is_slug_char(c) {
            out.push(c);
        }
        i += 1;
    }
    proof {
        assert(lowered@.take(llen as int) =~= lowered@);
        lemma_filter_slug_ok(lowered@);
    }
    out
}

} // verus!
