//! Properties that relate the classifier, the extractor, the address builder
//! and the template resolver.

use vstd::prelude::*;
use crate::address::{
    address_of, kind_of, lemma_without_git, meta_of, regex_captures, strip_https, without_git,
    Identity, RepoType, DOMAIN_PATTERN,
};
use crate::template::{closing_brace, expand_from, placeholder_value, resolved};
use crate::text::{
    first_index_from, lemma_first_index_from, occurs_at, occurs_in, remove_all, segment_head,
    segment_rest,
};

verus! {

/// The template `{owner}/{repo}` expands to owner, `/` and repository, for
/// any identity.
pub proof fn lemma_owner_repo_template(id: Identity, home: Option<Seq<char>>)
    ensures
        resolved("{owner}/{repo}"@, id, home) == id.owner + "/"@ + id.repo,
{
    reveal_strlit("{owner}/{repo}");
    reveal_strlit("owner");
    reveal_strlit("repo");
    reveal_strlit("/");
    let t = "{owner}/{repo}"@;
    reveal_with_fuel(closing_brace, 8);
    assert(closing_brace(t, 1) == Some(6int));
    assert(closing_brace(t, 9) == Some(13int));
    assert(t.subrange(1, 6) =~= "owner"@);
    assert(t.subrange(9, 13) =~= "repo"@);
    assert(placeholder_value(t.subrange(1, 6), id) == id.owner);
    assert(placeholder_value(t.subrange(9, 13), id) == id.repo);
    assert(expand_from(t, id, 14) == Seq::<char>::empty());
    assert(expand_from(t, id, 8) =~= id.repo);
    assert(expand_from(t, id, 7) =~= seq!['/'] + id.repo);
    assert(expand_from(t, id, 0) =~= id.owner + seq!['/'] + id.repo);
    assert(resolved(t, id, home) == expand_from(t, id, 0));
    assert("/"@ =~= seq!['/']);
}

/// Classification is total and deterministic: every identifier gets one of
/// the three kinds, and equal identifiers get the same kind.
pub proof fn lemma_classify_total_deterministic(a: Seq<char>, b: Seq<char>)
    requires
        a == b,
    ensures
        kind_of(a) == kind_of(b),
        kind_of(a) == RepoType::Http || kind_of(a) == RepoType::Ssh || kind_of(a)
            == RepoType::Github,
{
}

/// Text that a segment of an identifier may hold: no separator, no `@`, no
/// `http` and no `.git`.
pub open spec fn plain_segment(x: Seq<char>) -> bool {
    &&& !x.contains('/')
    &&& !x.contains(':')
    &&& !x.contains('@')
    &&& !occurs_in(x, "http"@)
    &&& !occurs_in(x, ".git"@)
}

/// The repository segment as written: the name, with `.git` after it or not.
pub open spec fn written_repo(n: Seq<char>, dotgit: bool) -> Seq<char> {
    if dotgit {
        n + ".git"@
    } else {
        n
    }
}

/// A shorthand identifier `o/n[.git]`.
pub open spec fn shorthand_text(o: Seq<char>, n: Seq<char>, dotgit: bool) -> Seq<char> {
    o + seq!['/'] + written_repo(n, dotgit)
}

/// A web identifier `https://h/o/n[.git]`.
pub open spec fn web_text(h: Seq<char>, o: Seq<char>, n: Seq<char>, dotgit: bool) -> Seq<char> {
    "https://"@ + (h + seq!['/'] + (o + seq!['/'] + written_repo(n, dotgit)))
}

/// An ssh identifier `u@h:o/n[.git]`.
pub open spec fn ssh_text(u: Seq<char>, h: Seq<char>, o: Seq<char>, n: Seq<char>, dotgit: bool) -> Seq<
    char,
> {
    (u + seq!['@'] + h) + seq![':'] + (o + seq!['/'] + written_repo(n, dotgit))
}

proof fn lemma_split_joined(a: Seq<char>, sep: char, b: Seq<char>)
    requires
        !a.contains(sep),
    ensures
        segment_head(a + seq![sep] + b, sep) == a,
        segment_rest(a + seq![sep] + b, sep) == Some(b),
{
    let s = a + seq![sep] + b;
    lemma_first_index_from(s, sep, 0);
    assert(s[a.len() as int] == sep);
    match first_index_from(s, sep, 0) {
        Some(i) => {
            if i < a.len() {
                assert(a[i] == sep);
            }
            assert(i == a.len());
        },
        None => {},
    }
    assert(s.subrange(0, a.len() as int) =~= a);
    assert(s.subrange(a.len() + 1int, s.len() as int) =~= b);
}

proof fn lemma_split_whole(a: Seq<char>, sep: char)
    requires
        !a.contains(sep),
    ensures
        segment_head(a, sep) == a,
        segment_rest(a, sep) is None,
{
    lemma_first_index_from(a, sep, 0);
    if let Some(i) = first_index_from(a, sep, 0) {
        assert(a[i] == sep);
    }
}

proof fn lemma_contains_joined(a: Seq<char>, c: char, b: Seq<char>, x: char)
    requires
        !a.contains(x),
        !b.contains(x),
        c != x,
    ensures
        !(a + seq![c] + b).contains(x),
{
    let s = a + seq![c] + b;
    if s.contains(x) {
        let i = choose|i: int| 0 <= i < s.len() && s[i] == x;
        if i < a.len() {
            assert(a[i] == x);
        } else if i > a.len() {
            assert(b[i - a.len() - 1] == x);
        }
    }
}

proof fn lemma_occurs_joined(a: Seq<char>, c: char, b: Seq<char>, p: Seq<char>)
    requires
        !occurs_in(a, p),
        !occurs_in(b, p),
        !p.contains(c),
    ensures
        !occurs_in(a + seq![c] + b, p),
{
    let s = a + seq![c] + b;
    if occurs_in(s, p) {
        let i = choose|i: int| occurs_at(s, p, i);
        if i + p.len() <= a.len() {
            assert(a.subrange(i, i + p.len()) =~= s.subrange(i, i + p.len()));
            assert(occurs_at(a, p, i));
        } else if i > a.len() {
            let j = i - a.len() - 1;
            assert(b.subrange(j, j + p.len()) =~= s.subrange(i, i + p.len()));
            assert(occurs_at(b, p, j));
        } else {
            let k = a.len() - i;
            assert(s.subrange(i, i + p.len())[k] == s[a.len() as int]);
            assert(p[k] == c);
        }
    }
}

/// Taking `.git` out of a name that holds none changes nothing.
proof fn lemma_without_git_plain(n: Seq<char>)
    requires
        !occurs_in(n, ".git"@),
    ensures
        without_git(n) == n,
{
}

/// Removing the occurrences of `.git` from `n.git` leaves `n`, when `n` holds none.
proof fn lemma_remove_git_suffix(n: Seq<char>)
    requires
        !occurs_in(n, ".git"@),
    ensures
        remove_all(n + ".git"@, ".git"@) == n,
    decreases n.len(),
{
    reveal_strlit(".git");
    let g = ".git"@;
    let s = n + g;
    if n.len() == 0 {
        assert(s =~= g);
        assert(s.subrange(0, 4) =~= g);
        assert(occurs_at(s, g, 0));
        assert(s.subrange(4, s.len() as int) =~= Seq::<char>::empty());
        assert(remove_all(Seq::<char>::empty(), g) == Seq::<char>::empty());
        assert(remove_all(s, g) == remove_all(s.subrange(4, s.len() as int), g));
        assert(n =~= Seq::<char>::empty());
    } else {
        if occurs_at(s, g, 0) {
            if n.len() >= 4 {
                assert(n.subrange(0, 4) =~= s.subrange(0, 4));
                assert(occurs_at(n, g, 0));
            } else {
                let k = n.len() as int;
                assert(s[k] == '.');
                assert(s.subrange(0, 4)[k] == g[k]);
            }
        }
        let t = n.subrange(1, n.len() as int);
        if occurs_in(t, g) {
            let i = choose|i: int| occurs_at(t, g, i);
            assert(n.subrange(i + 1, i + 1 + 4) =~= t.subrange(i, i + 4));
            assert(occurs_at(n, g, i + 1));
        }
        lemma_remove_git_suffix(t);
        assert(s.subrange(1, s.len() as int) =~= t + g);
        assert(remove_all(s, g) == seq![s[0]] + remove_all(s.subrange(1, s.len() as int), g));
        assert(seq![s[0]] + t =~= n);
    }
}

proof fn lemma_contains_dotgit(n: Seq<char>, x: char)
    requires
        !n.contains(x),
        x != '.' && x != 'g' && x != 'i' && x != 't',
    ensures
        !(n + ".git"@).contains(x),
{
    reveal_strlit(".git");
    let s = n + ".git"@;
    if s.contains(x) {
        let i = choose|i: int| 0 <= i < s.len() && s[i] == x;
        if i < n.len() {
            assert(n[i] == x);
        } else {
            assert(".git"@[i - n.len()] == x);
        }
    }
}

proof fn lemma_without_git_suffix(n: Seq<char>)
    requires
        !occurs_in(n, ".git"@),
    ensures
        without_git(n + ".git"@) == n,
{
    reveal_strlit(".git");
    let s = n + ".git"@;
    assert(s.subrange(n.len() as int, n.len() + 4int) =~= ".git"@);
    assert(occurs_at(s, ".git"@, n.len() as int));
    lemma_remove_git_suffix(n);
    assert(without_git(s) == without_git(remove_all(s, ".git"@)));
    lemma_without_git_plain(n);
}

proof fn lemma_repo_segment(n: Seq<char>, dotgit: bool)
    requires
        plain_segment(n),
    ensures
        without_git(written_repo(n, dotgit)) == n,
        !written_repo(n, dotgit).contains('/'),
        !written_repo(n, dotgit).contains(':'),
        !written_repo(n, dotgit).contains('@'),
{
    if dotgit {
        lemma_without_git_suffix(n);
        lemma_contains_dotgit(n, '/');
        lemma_contains_dotgit(n, ':');
        lemma_contains_dotgit(n, '@');
    }
}

/// A shorthand identifier `o/n[.git]` reads as owner `o` and repository `n`
/// on github, and `{owner}/{repo}` resolves to `o/n`.
pub proof fn lemma_shorthand_round_trip(
    o: Seq<char>,
    n: Seq<char>,
    dotgit: bool,
    home: Option<Seq<char>>,
)
    requires
        plain_segment(o),
        plain_segment(n),
    ensures
        ({
            let raw = shorthand_text(o, n, dotgit);
            &&& kind_of(raw) == RepoType::Github
            &&& meta_of(raw, RepoType::Github) == Some(
                Identity { repo: n, owner: o, provider: "github"@, host: "github.com"@ },
            )
            &&& resolved("{owner}/{repo}"@, meta_of(raw, RepoType::Github)->0, home) == o
                + "/"@ + n
        }),
{
    reveal_strlit("http");
    reveal_strlit("/");
    let r = written_repo(n, dotgit);
    let raw = shorthand_text(o, n, dotgit);
    lemma_repo_segment(n, dotgit);
    lemma_split_joined(o, '/', r);
    lemma_split_whole(r, '/');
    lemma_contains_joined(o, '/', r, '@');
    assert(!occurs_in(r, "http"@)) by {
        if dotgit {
            reveal_strlit(".git");
            lemma_occurs_tail(n, ".git"@, "http"@);
        }
    }
    lemma_occurs_joined(o, '/', r, "http"@);
    lemma_owner_repo_template(meta_of(raw, RepoType::Github)->0, home);
}

/// `http` occurs in neither `n` nor `.git`, nor so in `n.git`.
proof fn lemma_occurs_tail(n: Seq<char>, g: Seq<char>, p: Seq<char>)
    requires
        g == ".git"@,
        p == "http"@,
        !occurs_in(n, p),
    ensures
        !occurs_in(n + g, p),
{
    reveal_strlit(".git");
    reveal_strlit("http");
    let s = n + g;
    if occurs_in(s, p) {
        let i = choose|i: int| occurs_at(s, p, i);
        if i + 4 <= n.len() {
            assert(n.subrange(i, i + 4) =~= s.subrange(i, i + 4));
            assert(occurs_at(n, p, i));
        } else {
            assert(s.subrange(i, i + 4)[3] == s[i + 3]);
            assert(s[i + 3] == 'p');
            assert(i + 3 >= n.len());
            assert(g[i + 3 - n.len()] == 'p');
        }
    }
}

/// A web identifier `https://h/o/n[.git]` reads as owner `o` and repository
/// `n`, with the host and provider that the domain search finds in `h`; and
/// `{owner}/{repo}` resolves to `o/n`, whatever the host.
pub proof fn lemma_web_round_trip(
    h: Seq<char>,
    o: Seq<char>,
    n: Seq<char>,
    dotgit: bool,
    home: Option<Seq<char>>,
)
    requires
        !h.contains('/'),
        plain_segment(o),
        plain_segment(n),
        regex_captures(DOMAIN_PATTERN@, h) matches Some((_, Some(_))),
    ensures
        ({
            let raw = web_text(h, o, n, dotgit);
            let found = regex_captures(DOMAIN_PATTERN@, h)->0;
            &&& kind_of(raw) == RepoType::Http
            &&& meta_of(raw, RepoType::Http) == Some(
                Identity { repo: n, owner: o, provider: found.1->0, host: found.0 },
            )
            &&& resolved("{owner}/{repo}"@, meta_of(raw, RepoType::Http)->0, home) == o + "/"@
                + n
        }),
{
    reveal_strlit("https://");
    reveal_strlit("http");
    let r = written_repo(n, dotgit);
    let rest = h + seq!['/'] + (o + seq!['/'] + r);
    let raw = web_text(h, o, n, dotgit);
    lemma_repo_segment(n, dotgit);
    assert(raw.subrange(0, 8) =~= "https://"@);
    assert(raw.subrange(8, raw.len() as int) =~= rest);
    assert(raw.subrange(0, 4) =~= "http"@);
    assert(occurs_at(raw, "http"@, 0));
    lemma_split_joined(h, '/', o + seq!['/'] + r);
    lemma_split_joined(o, '/', r);
    lemma_split_whole(r, '/');
    lemma_owner_repo_template(meta_of(raw, RepoType::Http)->0, home);
}

/// An ssh identifier `u@h:o/n[.git]` reads as owner `o` and repository `n`,
/// with the host and provider that the domain search finds in `u@h`; and
/// `{owner}/{repo}` resolves to `o/n`, whatever the host.
pub proof fn lemma_ssh_round_trip(
    u: Seq<char>,
    h: Seq<char>,
    o: Seq<char>,
    n: Seq<char>,
    dotgit: bool,
    home: Option<Seq<char>>,
)
    requires
        plain_segment(u),
        !h.contains('/'),
        !h.contains(':'),
        !occurs_in(h, "http"@),
        plain_segment(o),
        plain_segment(n),
        regex_captures(DOMAIN_PATTERN@, u + seq!['@'] + h) matches Some((_, Some(_))),
    ensures
        ({
            let raw = ssh_text(u, h, o, n, dotgit);
            let found = regex_captures(DOMAIN_PATTERN@, u + seq!['@'] + h)->0;
            &&& kind_of(raw) == RepoType::Ssh
            &&& meta_of(raw, RepoType::Ssh) == Some(
                Identity { repo: n, owner: o, provider: found.1->0, host: found.0 },
            )
            &&& resolved("{owner}/{repo}"@, meta_of(raw, RepoType::Ssh)->0, home) == o + "/"@
                + n
        }),
{
    reveal_strlit("http");
    let r = written_repo(n, dotgit);
    let auth = u + seq!['@'] + h;
    let path = o + seq!['/'] + r;
    let raw = ssh_text(u, h, o, n, dotgit);
    lemma_repo_segment(n, dotgit);
    lemma_contains_joined(u, '@', h, ':');
    lemma_contains_joined(o, '/', r, ':');
    lemma_split_joined(auth, ':', path);
    lemma_split_whole(path, ':');
    lemma_split_joined(o, '/', r);
    lemma_split_whole(r, '/');
    assert(raw[u.len() as int] == '@');
    assert(!occurs_in(r, "http"@)) by {
        if dotgit {
            reveal_strlit(".git");
            lemma_occurs_tail(n, ".git"@, "http"@);
        }
    }
    lemma_occurs_joined(u, '@', h, "http"@);
    lemma_occurs_joined(o, '/', r, "http"@);
    lemma_occurs_joined(auth, ':', path, "http"@);
    lemma_owner_repo_template(meta_of(raw, RepoType::Ssh)->0, home);
}

/// The three grammars agree on the identity of one repository: where the
/// domain search finds the same host and provider in `h` and in `u@h`, the
/// web and ssh identifiers read alike, and when that host is `github.com`
/// with provider `github`, the shorthand `o/n` reads alike too.
pub proof fn lemma_schemes_agree(
    u: Seq<char>,
    h: Seq<char>,
    o: Seq<char>,
    n: Seq<char>,
    host: Seq<char>,
    provider: Seq<char>,
)
    requires
        plain_segment(u),
        !h.contains('/'),
        !h.contains(':'),
        !occurs_in(h, "http"@),
        plain_segment(o),
        plain_segment(n),
        regex_captures(DOMAIN_PATTERN@, h) == Some((host, Some(provider))),
        regex_captures(DOMAIN_PATTERN@, u + seq!['@'] + h) == Some((host, Some(provider))),
    ensures
        meta_of(web_text(h, o, n, true), RepoType::Http) == Some(
            Identity { repo: n, owner: o, provider, host },
        ),
        meta_of(ssh_text(u, h, o, n, true), RepoType::Ssh) == Some(
            Identity { repo: n, owner: o, provider, host },
        ),
        host == "github.com"@ && provider == "github"@ ==> meta_of(
            shorthand_text(o, n, false),
            RepoType::Github,
        ) == meta_of(web_text(h, o, n, true), RepoType::Http),
{
    lemma_web_round_trip(h, o, n, true, None);
    lemma_ssh_round_trip(u, h, o, n, true, None);
    lemma_shorthand_round_trip(o, n, false, None);
}

/// Whatever the scheme, a repository name read from an identifier holds no
/// `.git`.
pub proof fn lemma_repository_without_git(raw: Seq<char>, kind: RepoType)
    requires
        meta_of(raw, kind) is Some,
    ensures
        !occurs_in(meta_of(raw, kind)->0.repo, ".git"@),
{
    match kind {
        RepoType::Github => {
            lemma_without_git(segment_head(segment_rest(raw, '/')->0, '/'));
        },
        RepoType::Http => {
            let path = strip_https(raw);
            let r2 = segment_rest(segment_rest(path, '/')->0, '/')->0;
            lemma_without_git(segment_head(r2, '/'));
        },
        RepoType::Ssh => {
            let path = segment_head(segment_rest(raw, ':')->0, ':');
            lemma_without_git(segment_head(segment_rest(path, '/')->0, '/'));
        },
    }
}

/// Without ssh, the address of an identifier that is not shorthand is the
/// identifier itself.
pub proof fn lemma_plain_address_unchanged(
    raw: Seq<char>,
    kind: RepoType,
    id: Identity,
    user: Option<Seq<char>>,
)
    requires
        kind != RepoType::Github,
    ensures
        address_of(raw, kind, false, id, user) == raw,
{
}

/// Resolving a template against an identity is a function of the two: doing
/// it twice gives the same path.
pub proof fn lemma_resolve_idempotent(
    t: Seq<char>,
    id: Identity,
    home: Option<Seq<char>>,
    first: Seq<char>,
    second: Seq<char>,
)
    requires
        first == resolved(t, id, home),
        second == resolved(t, id, home),
    ensures
        first == second,
{
}

} // verus!
