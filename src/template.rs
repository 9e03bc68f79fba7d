//! Path templates: expansion of `{provider}`, `{owner}` and `{repo}`
//! placeholders, and of a leading `~`, into the local path of a repository.

use vstd::prelude::*;
use crate::address::{Identity, RepoMeta};
use crate::text::{append_chars, chars_of, same_chars, slice_chars, string_of};

verus! {

/// Position of the `}` that closes a placeholder whose name starts at `i`:
/// the first `}` from `i` on, unless a line break comes before it.
pub open spec fn closing_brace(t: Seq<char>, i: int) -> Option<int>
    decreases t.len() - i,
{
    if i < 0 || i >= t.len() {
        None
    } else if t[i] == '}' {
        Some(i)
    } else if t[i] == '\n' {
        None
    } else {
        closing_brace(t, i + 1)
    }
}

/// The value of the placeholder `{name}`: unknown names stand for nothing.
pub open spec fn placeholder_value(name: Seq<char>, id: Identity) -> Seq<char> {
    if name == "repo"@ {
        id.repo
    } else if name == "owner"@ {
        id.owner
    } else if name == "provider"@ {
        id.provider
    } else {
        Seq::empty()
    }
}

/// The template `t` from position `i` on, each placeholder replaced by its
/// value, scanning left to right; other text is kept as it is.
pub open spec fn expand_from(t: Seq<char>, id: Identity, i: int) -> Seq<char>
    decreases t.len() - i,
    via expand_from_decreases
{
    if i < 0 || i >= t.len() {
        Seq::empty()
    } else if t[i] == '{' && closing_brace(t, i + 1) is Some {
        let j = closing_brace(t, i + 1)->0;
        placeholder_value(t.subrange(i + 1, j), id) + expand_from(t, id, j + 1)
    } else {
        seq![t[i]] + expand_from(t, id, i + 1)
    }
}

/// A closing brace found from `i` on lies at or after `i`, within `t`.
pub proof fn lemma_closing_brace(t: Seq<char>, i: int)
    ensures
        closing_brace(t, i) matches Some(j) ==> 0 <= i <= j < t.len() && t[j] == '}',
    decreases t.len() - i,
{
    if 0 <= i < t.len() && t[i] != '}' && t[i] != '\n' {
        lemma_closing_brace(t, i + 1);
    }
}

#[via_fn]
proof fn expand_from_decreases(t: Seq<char>, id: Identity, i: int) {
    lemma_closing_brace(t, i + 1);
}

/// The home directory as a sequence, where there is one.
pub open spec fn home_view(home: Option<&str>) -> Option<Seq<char>> {
    match home {
        Some(h) => Some(h@),
        None => None,
    }
}

/// The path that template `t` gives for identity `id`; a leading `~` stands
/// for the home directory, when there is one.
pub open spec fn resolved(t: Seq<char>, id: Identity, home: Option<Seq<char>>) -> Seq<char> {
    if home is Some && t.len() > 0 && t[0] == '~' {
        home->0 + expand_from(t, id, 1)
    } else {
        expand_from(t, id, 0)
    }
}

/// The value of the placeholder named `name`.
fn placeholder_value_exec(name: &Vec<char>, meta: &RepoMeta) -> (r: Vec<char>)
    ensures
        r@ == placeholder_value(name@, meta@),
{
    if same_chars(name, &chars_of("repo")) {
        chars_of(meta.repo.as_str())
    } else if same_chars(name, &chars_of("owner")) {
        chars_of(meta.owner.as_str())
    } else if same_chars(name, &chars_of("provider")) {
        chars_of(meta.provider.as_str())
    } else {
        Vec::new()
    }
}

/// Expands `template_str` for `repo_meta` into a path: see `resolved`.
/// `home` is the home directory of the current user, where the platform has one.
pub fn build_target_path(template_str: &str, repo_meta: &RepoMeta, home: Option<&str>) -> (r:
    String)
    ensures
        r@ == resolved(template_str@, repo_meta@, home_view(home)),
{
    let t = chars_of(template_str);
    let mut out: Vec<char> = Vec::new();
    let mut i: usize = 0;
    if let Some(h) = home {
        if t.len() > 0 && t[0] == '~' {
            out = chars_of(h);
            i = 1;
        }
    }
    while i < t.len()
        invariant
            i <= t.len(),
            t@ == template_str@,
            out@ + expand_from(t@, repo_meta@, i as int) == resolved(
                template_str@,
                repo_meta@,
                home_view(home),
            ),
        decreases t.len() - i,
    {
        let ghost before = out@;
        let mut j: usize = i + 1;
        if t[i] == '{' {
            while j < t.len() && t[j] != '}' && t[j] != '\n'
                invariant
                    i < j <= t.len(),
                    closing_brace(t@, i + 1) == closing_brace(t@, j as int),
                decreases t.len() - j,
            {
                j = j + 1;
            }
        }
        if t[i] == '{' && j < t.len() && t[j] == '}' {
            let name = slice_chars(&t, i + 1, j);
            let value = placeholder_value_exec(&name, repo_meta);
            append_chars(&mut out, &value);
            assert(before + expand_from(t@, repo_meta@, i as int) == out@ + expand_from(
                t@,
                repo_meta@,
                j + 1,
            ));
            i = j + 1;
        } else {
            out.push(t[i]);
            assert(before + expand_from(t@, repo_meta@, i as int) == out@ + expand_from(
                t@,
                repo_meta@,
                i + 1,
            ));
            i = i + 1;
        }
    }
    assert(out@ + expand_from(t@, repo_meta@, i as int) == out@);
    string_of(&out)
}

} // verus!
