//! Project discovery: where on disk the clones made with a template live.

use vstd::prelude::*;
use crate::config::AppConfig;
use crate::template::home_view;
use crate::text::{
    append_chars, chars_of, contains_char, lemma_segment_parts, same_chars, segment_head,
    segment_rest, slice_chars, split_once, string_of,
};

verus! {

/// Whether a template segment is a placeholder: it holds both `{` and `}`.
pub open spec fn is_placeholder(seg: Seq<char>) -> bool {
    seg.contains('{') && seg.contains('}')
}

/// `path` extended by the segment `seg`, with one `/` between them.
pub open spec fn join_path(path: Seq<char>, seg: Seq<char>) -> Seq<char> {
    if path.len() == 0 || path.last() == '/' {
        path + seg
    } else {
        path + seq!['/'] + seg
    }
}

/// `path` extended by the segments of `template` (separated by `/`) that come
/// before its first placeholder segment.
pub open spec fn static_prefix(path: Seq<char>, template: Seq<char>) -> Seq<char>
    decreases template.len(),
    via static_prefix_decreases
{
    let seg = segment_head(template, '/');
    if is_placeholder(seg) {
        path
    } else {
        match segment_rest(template, '/') {
            Some(rest) => static_prefix(join_path(path, seg), rest),
            None => join_path(path, seg),
        }
    }
}

#[via_fn]
proof fn static_prefix_decreases(path: Seq<char>, template: Seq<char>) {
    lemma_segment_parts(template, '/');
}

/// Where a listing of `template` under `path` starts: its static prefix, or
/// `NoStaticPrefix` when its first segment is already a placeholder.
pub open spec fn prefix_result(path: Seq<char>, template: Seq<char>) -> Result<
    Seq<char>,
    ListError,
> {
    if is_placeholder(segment_head(template, '/')) {
        Err(ListError::NoStaticPrefix)
    } else {
        Ok(static_prefix(path, template))
    }
}

/// Where a listing of template `t` starts: a leading `~` stands for `home`,
/// where there is one; the rest is read under an empty path.
pub open spec fn root_result(t: Seq<char>, home: Option<Seq<char>>) -> Result<Seq<char>, ListError> {
    if home is Some && t.len() > 0 && t[0] == '~' {
        prefix_result(home->0, t.subrange(1, t.len() as int))
    } else {
        prefix_result(Seq::empty(), t)
    }
}

/// The segments of `t`, separated by `/`.
pub open spec fn segments(t: Seq<char>) -> Seq<Seq<char>>
    decreases t.len(),
    via segments_decreases
{
    match segment_rest(t, '/') {
        Some(r) => seq![segment_head(t, '/')] + segments(r),
        None => seq![t],
    }
}

#[via_fn]
proof fn segments_decreases(t: Seq<char>) {
    lemma_segment_parts(t, '/');
}

/// The segments of `t` from its first placeholder segment on; none when no
/// segment is a placeholder.
pub open spec fn open_segments(t: Seq<char>) -> Seq<Seq<char>>
    decreases t.len(),
    via open_segments_decreases
{
    if is_placeholder(segment_head(t, '/')) {
        segments(t)
    } else {
        match segment_rest(t, '/') {
            Some(r) => open_segments(r),
            None => Seq::empty(),
        }
    }
}

#[via_fn]
proof fn open_segments_decreases(t: Seq<char>) {
    lemma_segment_parts(t, '/');
}

/// Whether the directory names `dirs`, below the static prefix, follow
/// `pattern` so far: a placeholder segment takes any name, any other segment
/// only itself.
pub open spec fn follows(pattern: Seq<Seq<char>>, dirs: Seq<Seq<char>>) -> bool {
    dirs.len() <= pattern.len() && forall|i: int|
        0 <= i < dirs.len() ==> is_placeholder(pattern[i]) || pattern[i] == dirs[i]
}

/// What to do with a directory reached while listing the projects of a template.
#[derive(Debug, Clone, Copy, PartialEq, Eq, Structural)]
pub enum Descent {
    /// it is a project: every segment of the template is bound
    Project,
    /// it matches so far: look in its subdirectories
    Descend,
    /// it does not match the template
    Skip,
}

/// The step for the directory reached through the names `dirs` below the
/// static prefix of `template`.
pub open spec fn descent_of(template: Seq<char>, dirs: Seq<Seq<char>>) -> Descent {
    let pattern = open_segments(template);
    if !follows(pattern, dirs) {
        Descent::Skip
    } else if dirs.len() == pattern.len() {
        Descent::Project
    } else {
        Descent::Descend
    }
}

/// The names of `dirs`, as sequences.
pub open spec fn names_view(dirs: Seq<String>) -> Seq<Seq<char>> {
    dirs.map_values(|d: String| d@)
}

/// A listing never descends below the depth of its template: a directory to
/// descend into lies fewer levels below the static prefix than the template
/// has open segments, so a walk that follows these steps ends, whatever links
/// the directory tree holds.
pub proof fn lemma_descent_bounded(template: Seq<char>, dirs: Seq<Seq<char>>)
    ensures
        descent_of(template, dirs) != Descent::Skip ==> dirs.len() <= open_segments(
            template,
        ).len(),
        descent_of(template, dirs) == Descent::Descend ==> dirs.len() < open_segments(
            template,
        ).len(),
{
}

/// The segments of `t` from its first placeholder segment on.
fn open_segments_exec(t: &Vec<char>) -> (r: Vec<Vec<char>>)
    ensures
        r@.map_values(|v: Vec<char>| v@) == open_segments(t@),
{
    let mut out: Vec<Vec<char>> = Vec::new();
    let mut rest = slice_chars(t, 0, t.len());
    let mut collecting = false;
    assert(t@.subrange(0, t@.len() as int) =~= t@);
    loop
        invariant
            !collecting ==> open_segments(rest@) == open_segments(t@) && out@.len() == 0,
            collecting ==> out@.map_values(|v: Vec<char>| v@) + segments(rest@) == open_segments(
                t@,
            ),
        decreases rest.len(),
    {
        let (seg, after) = split_once(&rest, '/');
        proof {
            lemma_segment_parts(rest@, '/');
        }
        let placeholder = contains_char(&seg, '{') && contains_char(&seg, '}');
        if !collecting && !placeholder {
            match after {
                Some(a) => {
                    rest = a;
                },
                None => {
                    return out;
                },
            }
        } else {
            collecting = true;
            let ghost before = out@.map_values(|v: Vec<char>| v@);
            out.push(seg);
            assert(out@.map_values(|v: Vec<char>| v@) =~= before.push(seg@));
            match after {
                Some(a) => {
                    assert(before + segments(rest@) =~= before.push(seg@) + segments(a@));
                    rest = a;
                },
                None => {
                    assert(before + segments(rest@) =~= before.push(seg@));
                    return out;
                },
            }
        }
    }
}

/// Why a template gives no directory to start a listing from.
#[derive(Debug, Clone, Copy, PartialEq, Eq, Structural)]
pub enum ListError {
    /// The template's first segment is already a placeholder.
    NoStaticPrefix,
}

/// Lists the projects cloned with one template.
pub struct ListProjects {
    /// name of the template whose projects are listed
    pub template: String,
}

impl ListProjects {
    /// A listing of the projects of the default template.
    pub fn new(config: &AppConfig) -> (r: Self)
        ensures
            r.template@ == config.default_name(),
    {
        ListProjects { template: config.default_template().clone() }
    }

    /// Where this listing starts: the template that `self.template` selects
    /// in `config`, and the directory under which its projects lie.
    pub fn command(&self, config: &AppConfig, home: Option<&str>) -> (r: Result<
        (String, String),
        ListError,
    >)
        requires
            config.wf(),
            config.can_answer(self.template@),
        ensures
            match r {
                Ok((t, root)) => t@ == config.template_for(self.template@) && root_result(
                    t@,
                    home_view(home),
                ) == Ok::<Seq<char>, ListError>(root@),
                Err(e) => root_result(config.template_for(self.template@), home_view(home))
                    == Err::<Seq<char>, ListError>(e),
            },
    {
        let template = config.get_template(self.template.as_str());
        match ListProjects::root(&template, home) {
            Ok(root) => Ok((template, root)),
            Err(e) => Err(e),
        }
    }

    /// The step to take at the directory reached through the names `dirs`
    /// below the static prefix of `template`: see `descent_of`.
    pub fn descent(template: &String, dirs: &Vec<String>) -> (r: Descent)
        ensures
            r == descent_of(template@, names_view(dirs@)),
    {
        let pattern = open_segments_exec(&chars_of(template.as_str()));
        let ghost pv = pattern@.map_values(|v: Vec<char>| v@);
        let ghost dv = names_view(dirs@);
        if dirs.len() > pattern.len() {
            return Descent::Skip;
        }
        let mut i: usize = 0;
        while i < dirs.len()
            invariant
                i <= dirs.len() <= pattern.len(),
                pv == open_segments(template@),
                pv == pattern@.map_values(|v: Vec<char>| v@),
                dv == names_view(dirs@),
                forall|j: int| 0 <= j < i ==> is_placeholder(pv[j]) || pv[j] == dv[j],
            decreases dirs.len() - i,
        {
            let seg = &pattern[i];
            assert(seg@ == pv[i as int]);
            let placeholder = contains_char(seg, '{') && contains_char(seg, '}');
            if !placeholder && !same_chars(seg, &chars_of(dirs[i].as_str())) {
                return Descent::Skip;
            }
            i = i + 1;
        }
        if dirs.len() == pattern.len() {
            Descent::Project
        } else {
            Descent::Descend
        }
    }

    /// The directory a listing of `template` starts from: a leading `~`
    /// stands for `home`, where there is one; the rest is read as
    /// `build_path` reads a template under an empty path.
    pub fn root(template: &String, home: Option<&str>) -> (r: Result<String, ListError>)
        ensures
            match r {
                Ok(p) => root_result(template@, home_view(home)) == Ok::<Seq<char>, ListError>(
                    p@,
                ),
                Err(e) => root_result(template@, home_view(home)) == Err::<Seq<char>, ListError>(
                    e,
                ),
            },
    {
        let t = chars_of(template.as_str());
        if let Some(h) = home {
            if t.len() > 0 && t[0] == '~' {
                let rest = string_of(&slice_chars(&t, 1, t.len()));
                return ListProjects::build_path(h.to_owned(), &rest);
            }
        }
        ListProjects::build_path(String::new(), template)
    }

    /// The directory under `path` from which the projects of `template` are
    /// found: `path` extended by the template's segments up to its first
    /// placeholder. Fails when the first segment is a placeholder.
    pub fn build_path(path: String, template: &String) -> (r: Result<String, ListError>)
        ensures
            match r {
                Ok(p) => prefix_result(path@, template@) == Ok::<Seq<char>, ListError>(p@),
                Err(e) => prefix_result(path@, template@) == Err::<Seq<char>, ListError>(e),
            },
    {
        let mut built = chars_of(path.as_str());
        let mut rest = chars_of(template.as_str());
        let mut first = true;
        loop
            invariant
                static_prefix(built@, rest@) == static_prefix(path@, template@),
                first ==> built@ == path@ && rest@ == template@,
                !first ==> !is_placeholder(segment_head(template@, '/')),
            decreases rest.len(),
        {
            let (seg, after) = split_once(&rest, '/');
            proof {
                lemma_segment_parts(rest@, '/');
            }
            if contains_char(&seg, '{') && contains_char(&seg, '}') {
                if first {
                    return Err(ListError::NoStaticPrefix);
                }
                return Ok(string_of(&built));
            }
            let ghost before = built@;
            if built.len() > 0 && built[built.len() - 1] != '/' {
                built.push('/');
            }
            append_chars(&mut built, &seg);
            assert(built@ == join_path(before, seg@));
            first = false;
            match after {
                Some(a) => {
                    rest = a;
                },
                None => {
                    return Ok(string_of(&built));
                },
            }
        }
    }
}

} // verus!
