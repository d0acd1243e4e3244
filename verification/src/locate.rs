//! The call-site locator: given a file and a line, walks the file's
//! line-to-symbol index backward to compose a `::`-joined symbol path,
//! building and caching one index per file on first use.
use vstd::prelude::*;
use vstd::string::*;
use crate::symbols::{call_map_spec, entry_at, next, prev_entry_line, CallMap, Type};

verus! {

/// A resolved call site: the file, the line, and the `::`-joined symbol
/// path of the enclosing declarations.
#[derive(Debug)]
pub struct ErrDetails {
    pub file: String,
    pub line: u32,
    pub function: String,
}

impl ErrDetails {
    /// An already-resolved call site, taken as given.
    pub fn new(file: String, line: u32, function: String) -> (r: ErrDetails)
        ensures
            r.file@ == file@,
            r.line == line,
            r.function@ == function@,
    {
        ErrDetails { file, line, function }
    }

    /// A structural copy.
    pub fn duplicate(&self) -> (r: ErrDetails)
        ensures
            r == *self,
    {
        ErrDetails { file: self.file.clone(), line: self.line, function: self.function.clone() }
    }
}

/// Spec-level image of an optional owned segment.
pub open spec fn opt_view(o: Option<String>) -> Option<Seq<char>> {
    match o {
        Some(s) => Some(s@),
        None => None,
    }
}

/// The backward walk from line `l`: the first function entry fills the
/// function segment, the first impl or trait entry fills the middle
/// segment, and the first module entry fills the module segment and stops
/// the walk; the walk also stops at the top of the file.
pub open spec fn walk_spec(
    m: Seq<Option<(Seq<char>, Type)>>,
    l: int,
    f: Option<Seq<char>>,
    t: Option<Seq<char>>,
) -> (Option<Seq<char>>, Option<Seq<char>>, Option<Seq<char>>)
    decreases l,
{
    if l <= 0 {
        (f, t, None)
    } else {
        let p = prev_entry_line(m, l);
        if p <= 0 || p > l {
            (f, t, None)
        } else {
            match entry_at(m, p) {
                None => (f, t, None),
                Some(e) => match e.1 {
                    Type::Mod => (f, t, Some(e.0)),
                    Type::Fn => walk_spec(
                        m,
                        p - 1,
                        if f is None {
                            Some(e.0)
                        } else {
                            f
                        },
                        t,
                    ),
                    _ => walk_spec(
                        m,
                        p - 1,
                        f,
                        if t is None {
                            Some(e.0)
                        } else {
                            t
                        },
                    ),
                },
            }
        }
    }
}

/// The nearest entry line lies between `0` and the starting line, and
/// when it is positive it holds an entry.
pub proof fn lemma_prev_entry_range(m: Seq<Option<(Seq<char>, Type)>>, l: int)
    requires
        l >= 0,
    ensures
        0 <= prev_entry_line(m, l) <= l,
        prev_entry_line(m, l) > 0 ==> entry_at(m, prev_entry_line(m, l)) is Some,
    decreases l,
{
    if l > 0 && !(entry_at(m, l) is Some) {
        lemma_prev_entry_range(m, l - 1);
    }
}

/// Walks the index backward from `line` and returns the function,
/// impl-or-trait, and module segments found.
pub fn resolve_symbols(map: &CallMap, line: u32) -> (r: (
    Option<String>,
    Option<String>,
    Option<String>,
))
    ensures
        (opt_view(r.0), opt_view(r.1), opt_view(r.2)) == walk_spec(map@, line as int, None, None),
{
    let mut l: u32 = line;
    let mut func: Option<String> = None;
    let mut it: Option<String> = None;
    loop
        invariant
            walk_spec(map@, line as int, None, None) == walk_spec(
                map@,
                l as int,
                opt_view(func),
                opt_view(it),
            ),
        decreases l,
    {
        if l == 0 {
            return (func, it, None);
        }
        proof {
            lemma_prev_entry_range(map@, l as int);
        }
        match next(map, &mut l) {
            None => {
                return (func, it, None);
            },
            Some(e) => {
                if l == 0 {
                    return (func, it, None);
                }
                match e.1 {
                    Type::Mod => {
                        return (func, it, Some(e.0));
                    },
                    Type::Fn => {
                        if func.is_none() {
                            func = Some(e.0);
                        }
                        l = l - 1;
                    },
                    _ => {
                        if it.is_none() {
                            it = Some(e.0);
                        }
                        l = l - 1;
                    },
                }
            },
        }
    }
}

/// The `::`-joined symbol path: the module segment, then the impl or
/// trait segment, each followed by `::` when present, then the function
/// segment.
pub open spec fn join_path_spec(
    f: Option<Seq<char>>,
    t: Option<Seq<char>>,
    m: Option<Seq<char>>,
) -> Seq<char> {
    (match m {
        Some(x) => x + "::"@,
        None => Seq::empty(),
    }) + (match t {
        Some(x) => x + "::"@,
        None => Seq::empty(),
    }) + (match f {
        Some(x) => x,
        None => Seq::empty(),
    })
}

/// Joins the three segments as `join_path_spec` describes.
pub fn join_path(f: &Option<String>, t: &Option<String>, m: &Option<String>) -> (r: String)
    ensures
        r@ == join_path_spec(opt_view_ref(f), opt_view_ref(t), opt_view_ref(m)),
{
    let mut out = String::new();
    match m {
        Some(x) => {
            out.append(x.as_str());
            out.append("::");
        },
        None => {},
    }
    match t {
        Some(x) => {
            out.append(x.as_str());
            out.append("::");
        },
        None => {},
    }
    match f {
        Some(x) => {
            out.append(x.as_str());
        },
        None => {},
    }
    proof {
        assert(out@ =~= join_path_spec(opt_view_ref(f), opt_view_ref(t), opt_view_ref(m)));
    }
    out
}

/// Spec-level image of a borrowed optional segment.
pub open spec fn opt_view_ref(o: &Option<String>) -> Option<Seq<char>> {
    match o {
        Some(s) => Some(s@),
        None => None,
    }
}

/// The symbol-path label of `line` within the source text `src`.
pub open spec fn label_of(src: Seq<char>, line: int) -> Seq<char> {
    let w = walk_spec(call_map_spec(src), line, None, None);
    join_path_spec(w.0, w.1, w.2)
}

/// The text of the first registered source named `file`.
pub open spec fn source_of(sources: Seq<(Seq<char>, Seq<char>)>, file: Seq<char>) -> Option<
    Seq<char>,
>
    decreases sources.len(),
{
    if sources.len() == 0 {
        None
    } else if sources[0].0 == file {
        Some(sources[0].1)
    } else {
        source_of(sources.drop_first(), file)
    }
}

/// The index of the first cached file named `file`.
pub open spec fn cache_lookup(
    c: Seq<(Seq<char>, Seq<Option<(Seq<char>, Type)>>)>,
    file: Seq<char>,
) -> Option<Seq<Option<(Seq<char>, Type)>>>
    decreases c.len(),
{
    if c.len() == 0 {
        None
    } else if c[0].0 == file {
        Some(c[0].1)
    } else {
        cache_lookup(c.drop_first(), file)
    }
}

/// A first-match search that finds its witness at index `i` after
/// mismatches everywhere before returns that entry.
proof fn lemma_source_first_match(sources: Seq<(Seq<char>, Seq<char>)>, file: Seq<char>, i: int)
    requires
        0 <= i < sources.len(),
        sources[i].0 == file,
        forall|j: int| 0 <= j < i ==> sources[j].0 != file,
    ensures
        source_of(sources, file) == Some(sources[i].1),
    decreases i,
{
    if i > 0 {
        lemma_source_first_match(sources.drop_first(), file, i - 1);
    }
}

/// A first-match search that mismatches everywhere returns nothing.
proof fn lemma_source_no_match(sources: Seq<(Seq<char>, Seq<char>)>, file: Seq<char>)
    requires
        forall|j: int| 0 <= j < sources.len() ==> sources[j].0 != file,
    ensures
        source_of(sources, file) is None,
    decreases sources.len(),
{
    if sources.len() > 0 {
        lemma_source_no_match(sources.drop_first(), file);
    }
}

/// A first-match cache search that finds its witness at index `i` after
/// mismatches everywhere before returns that entry.
proof fn lemma_cache_first_match(
    c: Seq<(Seq<char>, Seq<Option<(Seq<char>, Type)>>)>,
    file: Seq<char>,
    i: int,
)
    requires
        0 <= i < c.len(),
        c[i].0 == file,
        forall|j: int| 0 <= j < i ==> c[j].0 != file,
    ensures
        cache_lookup(c, file) == Some(c[i].1),
    decreases i,
{
    if i > 0 {
        lemma_cache_first_match(c.drop_first(), file, i - 1);
    }
}

/// The label the locator owes for `(file, line)` against a source table:
/// the symbol path within the named source, or empty when no source of
/// that name is registered.
pub open spec fn spec_label(
    sources: Seq<(Seq<char>, Seq<char>)>,
    file: Seq<char>,
    line: int,
) -> Seq<char> {
    match source_of(sources, file) {
        Some(txt) => label_of(txt, line),
        None => Seq::empty(),
    }
}

/// The call-site locator: a table of source texts, and a cache holding
/// the line-to-symbol index of each file already looked up.
pub struct Locator {
    sources: Vec<(String, String)>,
    cache: Vec<(String, CallMap)>,
}

impl Locator {
    /// The registered source table.
    pub closed spec fn sources_view(&self) -> Seq<(Seq<char>, Seq<char>)> {
        self.sources@.map_values(|p: (String, String)| (p.0@, p.1@))
    }

    /// The cache contents: file names with their built indexes.
    pub closed spec fn cache_view(&self) -> Seq<(Seq<char>, Seq<Option<(Seq<char>, Type)>>)> {
        self.cache@.map_values(|p: (String, CallMap)| (p.0@, p.1@))
    }

    /// Every cached index is the index of the first registered source of
    /// its name.
    pub closed spec fn wf(&self) -> bool {
        forall|i: int|
            0 <= i < self.cache_view().len() ==> (#[trigger] self.cache_view()[i]).1
                == call_map_spec(source_of(self.sources_view(), self.cache_view()[i].0)->0)
                && source_of(self.sources_view(), self.cache_view()[i].0) is Some
    }

    /// A locator over the given `(file name, source text)` table, with an
    /// empty cache.
    pub fn new(sources: Vec<(String, String)>) -> (r: Locator)
        ensures
            r.wf(),
            r.sources_view() == sources@.map_values(|p: (String, String)| (p.0@, p.1@)),
            r.cache_view().len() == 0,
    {
        Locator { sources, cache: Vec::new() }
    }

    /// How many files have a cached index.
    pub fn cache_len(&self) -> (r: usize)
        ensures
            r == self.cache_view().len(),
    {
        self.cache.len()
    }

    /// Resolves `(file, line)` to a call site. The label is the symbol
    /// path of `line` within the registered source named `file`, or empty
    /// when no such source exists. The file's index is built on the first
    /// lookup and reused afterwards: a file already cached leaves the
    /// cache untouched, one registered but not yet cached is cached, and
    /// an unknown file never fails and caches nothing.
    pub fn locate(&mut self, file: &str, line: u32) -> (r: ErrDetails)
        requires
            old(self).wf(),
        ensures
            final(self).wf(),
            final(self).sources_view() == old(self).sources_view(),
            r.file@ == file@,
            r.line == line,
            r.function@ == spec_label(old(self).sources_view(), file@, line as int),
            cache_lookup(old(self).cache_view(), file@) is Some ==> final(self).cache_view()
                == old(self).cache_view(),
            cache_lookup(old(self).cache_view(), file@) is None && source_of(
                old(self).sources_view(),
                file@,
            ) is Some ==> final(self).cache_view() == old(self).cache_view().push(
                (file@, call_map_spec(source_of(old(self).sources_view(), file@)->0)),
            ),
            cache_lookup(old(self).cache_view(), file@) is None && source_of(
                old(self).sources_view(),
                file@,
            ) is None ==> final(self).cache_view() == old(self).cache_view(),
    {
        let ghost sources0 = self.sources_view();
        let ghost cache0 = self.cache_view();
        let mut ci: usize = 0;
        let clen: usize = self.cache.len();
        while ci < clen
            invariant
                old(self).wf(),
                *self == *old(self),
                cache0 == old(self).cache_view(),
                sources0 == old(self).sources_view(),
                clen == self.cache@.len(),
                ci <= clen,
                forall|j: int| 0 <= j < ci ==> self.cache_view()[j].0 != file@,
            decreases clen - ci,
        {
            let hit = crate::text::str_eq(self.cache[ci].0.as_str(), file);
            if hit {
                proof {
                    assert(self.cache_view()[ci as int].0 == self.cache@[ci as int].0@);
                    lemma_cache_first_match(self.cache_view(), file@, ci as int);
                }
                let w = resolve_symbols(&self.cache[ci].1, line);
                let function = join_path(&w.0, &w.1, &w.2);
                return ErrDetails { file: file.to_owned(), line, function };
            }
            proof {
                assert(self.cache_view()[ci as int].0 == self.cache@[ci as int].0@);
            }
            ci = ci + 1;
        }
        proof {
            if cache_lookup(cache0, file@) is Some {
                lemma_cache_none(cache0, file@);
            }
        }
        let mut si: usize = 0;
        let slen: usize = self.sources.len();
        while si < slen
            invariant
                old(self).wf(),
                *self == *old(self),
                cache0 == old(self).cache_view(),
                sources0 == old(self).sources_view(),
                cache_lookup(cache0, file@) is None,
                slen == self.sources@.len(),
                si <= slen,
                forall|j: int| 0 <= j < si ==> self.sources_view()[j].0 != file@,
            decreases slen - si,
        {
            let hit = crate::text::str_eq(self.sources[si].0.as_str(), file);
            if hit {
                proof {
                    assert(self.sources_view()[si as int].0 == self.sources@[si as int].0@);
                    assert(self.sources_view()[si as int].1 == self.sources@[si as int].1@);
                    lemma_source_first_match(self.sources_view(), file@, si as int);
                }
                let map = CallMap::new(self.sources[si].1.as_str());
                let w = resolve_symbols(&map, line);
                let function = join_path(&w.0, &w.1, &w.2);
                let ghost cache_before = self.cache_view();
                self.cache.push((file.to_owned(), map));
                proof {
                    assert(self.cache_view() =~~= cache_before.push(
                        (file@, call_map_spec(source_of(sources0, file@)->0)),
                    ));
                    assert forall|i: int| 0 <= i < self.cache_view().len() implies (
                    #[trigger] self.cache_view()[i]).1 == call_map_spec(
                        source_of(self.sources_view(), self.cache_view()[i].0)->0,
                    ) && source_of(self.sources_view(), self.cache_view()[i].0) is Some by {
                        if i < cache_before.len() {
                            assert(self.cache_view()[i] == cache_before[i]);
                        }
                    }
                }
                return ErrDetails { file: file.to_owned(), line, function };
            }
            proof {
                assert(self.sources_view()[si as int].0 == self.sources@[si as int].0@);
            }
            si = si + 1;
        }
        proof {
            lemma_source_no_match(self.sources_view(), file@);
        }
        ErrDetails { file: file.to_owned(), line, function: String::new() }
    }
}

/// A first-match cache search that mismatches everywhere returns nothing.
proof fn lemma_cache_none(c: Seq<(Seq<char>, Seq<Option<(Seq<char>, Type)>>)>, file: Seq<char>)
    requires
        forall|j: int| 0 <= j < c.len() ==> c[j].0 != file,
    ensures
        cache_lookup(c, file) is None,
    decreases c.len(),
{
    if c.len() > 0 {
        lemma_cache_none(c.drop_first(), file);
    }
}

/// A walk whose function segment is already filled keeps it to the end.
proof fn lemma_walk_keeps_fn(
    m: Seq<Option<(Seq<char>, Type)>>,
    l: int,
    f: Option<Seq<char>>,
    t: Option<Seq<char>>,
)
    requires
        f is Some,
    ensures
        walk_spec(m, l, f, t).0 == f,
    decreases l,
{
    if l > 0 {
        let p = prev_entry_line(m, l);
        if !(p <= 0 || p > l) {
            match entry_at(m, p) {
                None => {},
                Some(e) => match e.1 {
                    Type::Mod => {},
                    Type::Fn => {
                        lemma_walk_keeps_fn(m, p - 1, f, t);
                    },
                    _ => {
                        lemma_walk_keeps_fn(
                            m,
                            p - 1,
                            f,
                            if t is None {
                                Some(e.0)
                            } else {
                                t
                            },
                        );
                    },
                },
            }
        }
    }
}

/// Law: locating a line whose nearest structural line at or before it is
/// a function declaration resolves a function segment holding that
/// function's name.
pub proof fn lemma_nearest_fn_resolves(m: Seq<Option<(Seq<char>, Type)>>, l: int, n: Seq<char>)
    requires
        l >= 0,
        prev_entry_line(m, l) > 0,
        entry_at(m, prev_entry_line(m, l)) == Some((n, Type::Fn)),
    ensures
        walk_spec(m, l, None, None).0 == Some(n),
        ({
            let w = walk_spec(m, l, None, None);
            let lab = join_path_spec(w.0, w.1, w.2);
            lab.len() >= n.len() && lab.skip(lab.len() - n.len()) == n
        }),
{
    lemma_prev_entry_range(m, l);
    lemma_walk_keeps_fn(m, prev_entry_line(m, l) - 1, Some(n), None);
    let w = walk_spec(m, l, None, None);
    let lab = join_path_spec(w.0, w.1, w.2);
    assert(lab.skip(lab.len() - n.len()) =~= n);
}

/// Law: the label of a lookup is a function of the source table, the file
/// and the line alone - and a lookup leaves the source table as it was -
/// so two lookups of the same pair return identical labels.
pub proof fn lemma_lookup_labels_agree(
    sources: Seq<(Seq<char>, Seq<char>)>,
    file: Seq<char>,
    line: u32,
    label1: Seq<char>,
    label2: Seq<char>,
)
    requires
        label1 == spec_label(sources, file, line as int),
        label2 == spec_label(sources, file, line as int),
    ensures
        label1 == label2,
{
}

/// Law: locating a line whose nearest structural line at or before it is
/// a module declaration resolves a symbol path that ends at the module
/// segment only.
pub proof fn lemma_nearest_mod_resolves(m: Seq<Option<(Seq<char>, Type)>>, l: int, n: Seq<char>)
    requires
        l >= 0,
        prev_entry_line(m, l) > 0,
        entry_at(m, prev_entry_line(m, l)) == Some((n, Type::Mod)),
    ensures
        walk_spec(m, l, None, None) == (
            None::<Seq<char>>,
            None::<Seq<char>>,
            Some(n),
        ),
        join_path_spec(None, None, Some(n)) == n + "::"@,
{
    lemma_prev_entry_range(m, l);
    assert(join_path_spec(None, None, Some(n)) =~= n + "::"@);
}

/// Law: locating a line at or below `1` in a file whose first line holds
/// no structural entry yields the empty symbol path; the walk is a total
/// function, so the lookup neither fails nor loops.
pub proof fn lemma_locate_floor(m: Seq<Option<(Seq<char>, Type)>>, l: int)
    requires
        l <= 1,
        entry_at(m, 1) is None,
    ensures
        walk_spec(m, l, None, None) == (
            None::<Seq<char>>,
            None::<Seq<char>>,
            None::<Seq<char>>,
        ),
        join_path_spec(None, None, None) == Seq::<char>::empty(),
{
    assert(join_path_spec(None, None, None) =~= Seq::<char>::empty());
}

/// A call site that can resolve itself to an attributed location through
/// a locator.
pub trait ExtLocation {
    /// The file the site names.
    spec fn spec_file(&self) -> Seq<char>;

    /// The line the site names.
    spec fn spec_line(&self) -> u32;

    /// Resolves this site against the locator's source table.
    fn as_place(&self, locator: &mut Locator) -> (r: ErrDetails)
        requires
            old(locator).wf(),
        ensures
            final(locator).wf(),
            final(locator).sources_view() == old(locator).sources_view(),
            r.file@ == self.spec_file(),
            r.line == self.spec_line(),
            r.function@ == spec_label(
                old(locator).sources_view(),
                self.spec_file(),
                self.spec_line() as int,
            ),
    ;
}

/// A call site as its caller states it: a file name and a 1-based line.
pub struct Site {
    pub file: String,
    pub line: u32,
}

impl ExtLocation for Site {
    open spec fn spec_file(&self) -> Seq<char> {
        self.file@
    }

    open spec fn spec_line(&self) -> u32 {
        self.line
    }

    fn as_place(&self, locator: &mut Locator) -> (r: ErrDetails) {
        locator.locate(self.file.as_str(), self.line)
    }
}

} // verus!
