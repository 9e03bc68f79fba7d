//! The template store: named path templates, one of them the default.

use vstd::prelude::*;
use crate::text::{chars_of, contains_char};

verus! {

/// The map that a list of (name, template) entries stands for.
pub open spec fn entries_map(e: Seq<(String, String)>) -> Map<Seq<char>, Seq<char>>
    decreases e.len(),
{
    if e.len() == 0 {
        Map::empty()
    } else {
        entries_map(e.drop_last()).insert(e.last().0@, e.last().1@)
    }
}

/// No two entries share a name.
pub open spec fn names_distinct(e: Seq<(String, String)>) -> bool {
    forall|i: int, j: int| 0 <= i < j < e.len() ==> e[i].0@ != e[j].0@
}

/// With distinct names, the map holds exactly the entries' names, each with
/// its entry's template.
pub proof fn lemma_entries_map(e: Seq<(String, String)>)
    requires
        names_distinct(e),
    ensures
        forall|k: Seq<char>|
            #![trigger entries_map(e).contains_key(k)]
            entries_map(e).contains_key(k) <==> exists|i: int| 0 <= i < e.len() && e[i].0@ == k,
        forall|i: int|
            #![trigger e[i]]
            0 <= i < e.len() ==> entries_map(e)[e[i].0@] == e[i].1@,
    decreases e.len(),
{
    if e.len() > 0 {
        let p = e.drop_last();
        assert(names_distinct(p));
        lemma_entries_map(p);
        assert forall|k: Seq<char>|
            #![trigger entries_map(e).contains_key(k)]
            entries_map(e).contains_key(k) <==> exists|i: int| 0 <= i < e.len() && e[i].0@ == k by {
            if entries_map(p).contains_key(k) {
                let i = choose|i: int| 0 <= i < p.len() && p[i].0@ == k;
                assert(e[i] == p[i]);
            }
            if exists|i: int| 0 <= i < e.len() && e[i].0@ == k {
                let i = choose|i: int| 0 <= i < e.len() && e[i].0@ == k;
                if i < e.len() - 1 {
                    assert(p[i] == e[i]);
                }
            }
        }
        assert forall|i: int| #![trigger e[i]] 0 <= i < e.len() implies entries_map(e)[e[i].0@]
            == e[i].1@ by {
            if i < e.len() - 1 {
                assert(p[i] == e[i]);
            }
        }
    }
}

/// Replacing the template of an entry replaces it in the map.
pub proof fn lemma_entries_update(e: Seq<(String, String)>, i: int, p: (String, String))
    requires
        names_distinct(e),
        0 <= i < e.len(),
        p.0@ == e[i].0@,
    ensures
        names_distinct(e.update(i, p)),
        entries_map(e.update(i, p)) == entries_map(e).insert(p.0@, p.1@),
{
    let f = e.update(i, p);
    assert forall|a: int, b: int| 0 <= a < b < f.len() implies f[a].0@ != f[b].0@ by {
        assert(e[a].0@ != e[b].0@);
    }
    lemma_entries_map(e);
    lemma_entries_map(f);
    let m = entries_map(e).insert(p.0@, p.1@);
    assert forall|k: Seq<char>| entries_map(f).contains_key(k) <==> m.contains_key(k) by {
        if entries_map(e).contains_key(k) {
            let j = choose|j: int| 0 <= j < e.len() && e[j].0@ == k;
            assert(f[j].0@ == k);
        }
        if entries_map(f).contains_key(k) {
            let j = choose|j: int| 0 <= j < f.len() && f[j].0@ == k;
            assert(e[j].0@ == k);
        }
    }
    assert forall|k: Seq<char>| #[trigger] entries_map(f).contains_key(k) implies entries_map(f)[k]
        == m[k] by {
        let j = choose|j: int| 0 <= j < f.len() && f[j].0@ == k;
        assert(f[j] == f[j]);
        if j != i {
            assert(e[j] == e[j]);
        }
    }
    assert(entries_map(f) =~= m);
}

/// Adding an entry under a new name adds it to the map.
pub proof fn lemma_entries_push(e: Seq<(String, String)>, p: (String, String))
    requires
        names_distinct(e),
        !entries_map(e).contains_key(p.0@),
    ensures
        names_distinct(e.push(p)),
        entries_map(e.push(p)) == entries_map(e).insert(p.0@, p.1@),
{
    lemma_entries_map(e);
    let f = e.push(p);
    assert forall|a: int, b: int| 0 <= a < b < f.len() implies f[a].0@ != f[b].0@ by {
        if b == e.len() {
            assert(f[a] == e[a]);
            assert(e[a] == e[a]);
        } else {
            assert(e[a].0@ != e[b].0@);
        }
    }
    assert(f.drop_last() =~= e);
}

/// Removing an entry removes its name from the map.
pub proof fn lemma_entries_remove(e: Seq<(String, String)>, i: int)
    requires
        names_distinct(e),
        0 <= i < e.len(),
    ensures
        names_distinct(e.remove(i)),
        entries_map(e.remove(i)) == entries_map(e).remove(e[i].0@),
{
    let f = e.remove(i);
    assert forall|a: int, b: int| 0 <= a < b < f.len() implies f[a].0@ != f[b].0@ by {
        if b < i {
            assert(e[a].0@ != e[b].0@);
        } else if a < i {
            assert(e[a].0@ != e[b + 1].0@);
        } else {
            assert(e[a + 1].0@ != e[b + 1].0@);
        }
    }
    lemma_entries_map(e);
    lemma_entries_map(f);
    let m = entries_map(e).remove(e[i].0@);
    assert forall|k: Seq<char>| entries_map(f).contains_key(k) <==> m.contains_key(k) by {
        if m.contains_key(k) {
            let j = choose|j: int| 0 <= j < e.len() && e[j].0@ == k;
            assert(j != i);
            if j < i {
                assert(f[j] == e[j]);
            } else {
                assert(f[j - 1] == e[j]);
            }
        }
        if entries_map(f).contains_key(k) {
            let j = choose|j: int| 0 <= j < f.len() && f[j].0@ == k;
            if j < i {
                assert(f[j] == e[j]);
                assert(e[j].0@ != e[i].0@);
            } else {
                assert(f[j] == e[j + 1]);
                assert(e[i].0@ != e[j + 1].0@);
            }
        }
    }
    assert forall|k: Seq<char>| #[trigger] entries_map(f).contains_key(k) implies entries_map(f)[k]
        == m[k] by {
        let j = choose|j: int| 0 <= j < f.len() && f[j].0@ == k;
        assert(f[j] == f[j]);
        if j < i {
            assert(f[j] == e[j]);
            assert(e[j] == e[j]);
        } else {
            assert(f[j] == e[j + 1]);
            assert(e[j + 1] == e[j + 1]);
        }
    }
    assert(entries_map(f) =~= m);
}

/// Entries with the same names and templates, position by position, stand for
/// the same map.
pub proof fn lemma_same_entries(a: Seq<(String, String)>, b: Seq<(String, String)>)
    requires
        a.len() == b.len(),
        forall|j: int| 0 <= j < a.len() ==> a[j].0@ == b[j].0@ && a[j].1@ == b[j].1@,
    ensures
        entries_map(a) == entries_map(b),
        names_distinct(a) == names_distinct(b),
    decreases a.len(),
{
    if a.len() > 0 {
        lemma_same_entries(a.drop_last(), b.drop_last());
    }
}

/// The rows that list the templates: the default one's name is marked with
/// a `*`.
pub open spec fn listing_row(entry: (Seq<char>, Seq<char>), default: Seq<char>) -> (
    Seq<char>,
    Seq<char>,
) {
    if entry.0 == default {
        (entry.0 + "*"@, entry.1)
    } else {
        entry
    }
}

/// The rows that list `entries`, the default template's name marked.
pub fn listing_rows(entries: &Vec<(String, String)>, default: &String) -> (r: Vec<(String, String)>)
    ensures
        r.len() == entries.len(),
        forall|i: int|
            0 <= i < r.len() ==> (r@[i].0@, r@[i].1@) == listing_row(
                (entries@[i].0@, entries@[i].1@),
                default@,
            ),
{
    let mut r: Vec<(String, String)> = Vec::new();
    let mut i: usize = 0;
    while i < entries.len()
        invariant
            i <= entries.len(),
            r.len() == i,
            forall|j: int|
                0 <= j < i ==> (r@[j].0@, r@[j].1@) == listing_row(
                    (entries@[j].0@, entries@[j].1@),
                    default@,
                ),
        decreases entries.len() - i,
    {
        let mut name = entries[i].0.clone();
        if name == *default {
            name.append("*");
        }
        r.push((name, entries[i].1.clone()));
        i = i + 1;
    }
    r
}

/// Whether a template name is itself written as a template: it holds a
/// placeholder's braces or a path separator.
pub open spec fn written_as_template(name: Seq<char>) -> bool {
    (name.contains('{') && name.contains('}')) || name.contains('/')
}

/// The template a new installation starts with, on Windows or elsewhere.
pub open spec fn standard_template_text(windows: bool) -> Seq<char> {
    if windows {
        "C:\\git\\{provider}\\{owner}\\{repo}"@
    } else {
        "~/git/{provider}/{owner}/{repo}"@
    }
}

/// The template a new installation starts with, on Windows or elsewhere.
pub fn standard_template(windows: bool) -> (r: String)
    ensures
        r@ == standard_template_text(windows),
{
    if windows {
        "C:\\git\\{provider}\\{owner}\\{repo}".to_owned()
    } else {
        "~/git/{provider}/{owner}/{repo}".to_owned()
    }
}

/// The path templates of the user, by name, with the name of the default one.
pub struct AppConfig {
    version: String,
    default_template: String,
    templates: Vec<(String, String)>,
}

impl View for AppConfig {
    type V = Map<Seq<char>, Seq<char>>;

    closed spec fn view(&self) -> Map<Seq<char>, Seq<char>> {
        entries_map(self.templates@)
    }
}

impl AppConfig {
    /// Well-formed: no two templates share a name.
    pub closed spec fn wf(&self) -> bool {
        names_distinct(self.templates@)
    }

    /// The name of the default template.
    pub closed spec fn default_name(&self) -> Seq<char> {
        self.default_template@
    }

    /// The version of the configuration format.
    pub closed spec fn version_text(&self) -> Seq<char> {
        self.version@
    }

    /// The template that a request for `name` gives: `name` itself when it is
    /// written as a template, else the template stored under it, else the
    /// default template.
    pub open spec fn template_for(&self, name: Seq<char>) -> Seq<char> {
        if written_as_template(name) {
            name
        } else if self@.contains_key(name) {
            self@[name]
        } else {
            self@[self.default_name()]
        }
    }

    /// Whether a request for `name` can be answered: the default template
    /// must exist where neither of the other two cases applies.
    pub open spec fn can_answer(&self, name: Seq<char>) -> bool {
        written_as_template(name) || self@.contains_key(name) || self@.contains_key(
            self.default_name(),
        )
    }

    /// A store with no templates.
    pub fn new(version: String, default_template: String) -> (r: Self)
        ensures
            r.wf(),
            r@ == Map::<Seq<char>, Seq<char>>::empty(),
            r.version_text() == version@,
            r.default_name() == default_template@,
    {
        AppConfig { version, default_template, templates: Vec::new() }
    }

    /// The store that a new installation starts with: a template named
    /// `default`, the platform's standard one, which is also the default.
    pub fn default_for(windows: bool) -> (r: Self)
        ensures
            r.wf(),
            r@ == Map::<Seq<char>, Seq<char>>::empty().insert(
                "default"@,
                standard_template_text(windows),
            ),
            r.default_name() == "default"@,
            r.version_text() == "0.1.0"@,
    {
        let mut c = AppConfig::new("0.1.0".to_owned(), "default".to_owned());
        c.add_template("default", standard_template(windows).as_str());
        c
    }

    /// The version of the configuration format.
    pub fn version(&self) -> (r: &String)
        ensures
            r@ == self.version_text(),
    {
        &self.version
    }

    /// The name of the default template.
    pub fn default_template(&self) -> (r: &String)
        ensures
            r@ == self.default_name(),
    {
        &self.default_template
    }

    /// The stored templates as (name, template) pairs, one per name.
    pub fn entries(&self) -> (r: Vec<(String, String)>)
        requires
            self.wf(),
        ensures
            names_distinct(r@),
            entries_map(r@) == self@,
    {
        let mut r: Vec<(String, String)> = Vec::new();
        let mut i: usize = 0;
        while i < self.templates.len()
            invariant
                i <= self.templates.len(),
                r.len() == i,
                forall|j: int|
                    0 <= j < i ==> r@[j].0@ == self.templates@[j].0@ && r@[j].1@
                        == self.templates@[j].1@,
            decreases self.templates.len() - i,
        {
            let (name, template) = (self.templates[i].0.clone(), self.templates[i].1.clone());
            r.push((name, template));
            i = i + 1;
        }
        proof {
            lemma_same_entries(r@, self.templates@);
        }
        r
    }

    /// Index of the entry named `name`, if there is one.
    fn position(&self, name: &String) -> (r: Option<usize>)
        requires
            self.wf(),
        ensures
            match r {
                Some(i) => i < self.templates.len() && self.templates@[i as int].0@ == name@,
                None => !self@.contains_key(name@),
            },
    {
        proof {
            lemma_entries_map(self.templates@);
        }
        let mut i: usize = 0;
        while i < self.templates.len()
            invariant
                i <= self.templates.len(),
                forall|j: int| 0 <= j < i ==> self.templates@[j].0@ != name@,
            decreases self.templates.len() - i,
        {
            if self.templates[i].0 == *name {
                return Some(i);
            }
            i = i + 1;
        }
        None
    }

    /// The template stored under `name`, if any.
    pub fn lookup(&self, name: &str) -> (r: Option<String>)
        requires
            self.wf(),
        ensures
            match r {
                Some(t) => self@.contains_key(name@) && t@ == self@[name@],
                None => !self@.contains_key(name@),
            },
    {
        proof {
            lemma_entries_map(self.templates@);
        }
        match self.position(&name.to_owned()) {
            Some(i) => Some(self.templates[i].1.clone()),
            None => None,
        }
    }

    /// The default template.
    pub fn get_default_template(&self) -> (r: String)
        requires
            self.wf(),
            self@.contains_key(self.default_name()),
        ensures
            r@ == self@[self.default_name()],
    {
        match self.lookup(self.default_template.as_str()) {
            Some(t) => t,
            None => String::new(),
        }
    }

    /// Whether a request for the template `name` can be answered: see
    /// `can_answer`.
    pub fn answers(&self, name: &str) -> (r: bool)
        requires
            self.wf(),
        ensures
            r == self.can_answer(name@),
    {
        let n = chars_of(name);
        if (contains_char(&n, '{') && contains_char(&n, '}')) || contains_char(&n, '/') {
            return true;
        }
        self.lookup(name).is_some() || self.lookup(self.default_template.as_str()).is_some()
    }

    /// The template to use for a request of `name`: see `template_for`.
    pub fn get_template(&self, name: &str) -> (r: String)
        requires
            self.wf(),
            self.can_answer(name@),
        ensures
            r@ == self.template_for(name@),
    {
        let n = chars_of(name);
        if (contains_char(&n, '{') && contains_char(&n, '}')) || contains_char(&n, '/') {
            return name.to_owned();
        }
        match self.lookup(name) {
            Some(t) => t,
            None => self.get_default_template(),
        }
    }

    /// Makes `name` the default template's name.
    pub fn set_default_template(&mut self, name: &str)
        requires
            old(self).wf(),
        ensures
            final(self).wf(),
            final(self)@ == old(self)@,
            final(self).default_name() == name@,
            final(self).version_text() == old(self).version_text(),
    {
        self.default_template = name.to_owned();
    }
    /// Stores `template` under `name`, replacing any template stored there.
    pub fn add_template(&mut self, name: &str, template: &str)
        requires
            old(self).wf(),
        ensures
            final(self).wf(),
            final(self)@ == old(self)@.insert(name@, template@),
            final(self).default_name() == old(self).default_name(),
            final(self).version_text() == old(self).version_text(),
    {
        let key = name.to_owned();
        let entry = (name.to_owned(), template.to_owned());
        match self.position(&key) {
            Some(i) => {
                proof {
                    lemma_entries_update(self.templates@, i as int, entry);
                }
                self.templates.set(i, entry);
            },
            None => {
                proof {
                    lemma_entries_push(self.templates@, entry);
                }
                self.templates.push(entry);
            },
        }
    }

    /// Removes the template stored under `name`, if there is one.
    pub fn remove_template(&mut self, name: &str)
        requires
            old(self).wf(),
        ensures
            final(self).wf(),
            final(self)@ == old(self)@.remove(name@),
            final(self).default_name() == old(self).default_name(),
            final(self).version_text() == old(self).version_text(),
    {
        let key = name.to_owned();
        match self.position(&key) {
            Some(i) => {
                proof {
                    lemma_entries_remove(self.templates@, i as int);
                }
                self.templates.remove(i);
            },
            None => {
                assert(self@.remove(name@) =~= self@);
            },
        }
    }
}

impl Default for AppConfig {
    /// The store of a new installation on a platform other than Windows.
    fn default() -> (r: Self)
        ensures
            r.wf(),
            r@ == Map::<Seq<char>, Seq<char>>::empty().insert(
                "default"@,
                standard_template_text(false),
            ),
            r.default_name() == "default"@,
            r.version_text() == "0.1.0"@,
    {
        AppConfig::default_for(false)
    }
}

} // verus!
