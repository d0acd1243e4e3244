//! The symbol scanner: classifies each line of a source file by the
//! declaration marker that begins earliest in it, extracts the declared
//! name, and collects the results into a per-file line-to-symbol index.
use vstd::prelude::*;
use vstd::string::*;
use crate::text::{
    find_from_spec, find_spec, find_sub, occurs_at, to_char_vec, trim_in, trim_spec,
};

verus! {

/// The four declaration kinds a line can be classified as.
#[derive(Clone, Copy, PartialEq, Eq, Structural, Debug)]
pub enum Type {
    Fn,
    Impl,
    Trait,
    Mod,
}

impl Type {
    /// The marker text that opens a declaration of this kind.
    pub open spec fn marker(self) -> Seq<char> {
        match self {
            Type::Fn => seq!['f', 'n', ' '],
            Type::Impl => seq!['i', 'm', 'p', 'l', ' '],
            Type::Trait => seq!['t', 'r', 'a', 'i', 't', ' '],
            Type::Mod => seq!['m', 'o', 'd', ' '],
        }
    }

    /// The marker text of this kind, as a string slice.
    pub fn as_str(&self) -> (r: &'static str)
        ensures
            r@ == self.marker(),
    {
        match self {
            Type::Fn => {
                let r = "fn ";
                proof {
                    reveal_strlit("fn ");
                    assert(r@ =~= seq!['f', 'n', ' ']);
                }
                r
            },
            Type::Impl => {
                let r = "impl ";
                proof {
                    reveal_strlit("impl ");
                    assert(r@ =~= seq!['i', 'm', 'p', 'l', ' ']);
                }
                r
            },
            Type::Trait => {
                let r = "trait ";
                proof {
                    reveal_strlit("trait ");
                    assert(r@ =~= seq!['t', 'r', 'a', 'i', 't', ' ']);
                }
                r
            },
            Type::Mod => {
                let r = "mod ";
                proof {
                    reveal_strlit("mod ");
                    assert(r@ =~= seq!['m', 'o', 'd', ' ']);
                }
                r
            },
        }
    }

    /// The marker text of this kind, as characters.
    pub fn marker_chars(&self) -> (v: Vec<char>)
        ensures
            v@ == self.marker(),
    {
        match self {
            Type::Fn => vec!['f', 'n', ' '],
            Type::Impl => vec!['i', 'm', 'p', 'l', ' '],
            Type::Trait => vec!['t', 'r', 'a', 'i', 't', ' '],
            Type::Mod => vec!['m', 'o', 'd', ' '],
        }
    }

    /// The marker that begins earliest in `line`, with its offset; on an
    /// equal offset the earlier kind in `Fn, Impl, Trait, Mod` wins.
    pub fn find_closest(line: &str) -> (r: Option<(usize, Type)>)
        ensures
            match r {
                Some(p) => find_closest_spec(line@) == Some((p.0 as int, p.1)),
                None => find_closest_spec(line@) is None,
            },
    {
        let chars = to_char_vec(line);
        let mut best: Option<(usize, Type)> = None;
        let c0 = find_sub(&chars, &Type::Fn.marker_chars(), 0);
        best = better_step(best, c0, Type::Fn);
        let c1 = find_sub(&chars, &Type::Impl.marker_chars(), 0);
        best = better_step(best, c1, Type::Impl);
        let c2 = find_sub(&chars, &Type::Trait.marker_chars(), 0);
        best = better_step(best, c2, Type::Trait);
        let c3 = find_sub(&chars, &Type::Mod.marker_chars(), 0);
        best = better_step(best, c3, Type::Mod);
        best
    }
}

/// Keeps `best` unless `cand` is a strictly earlier offset.
pub open spec fn better(best: Option<(int, Type)>, cand: Option<int>, t: Type) -> Option<
    (int, Type),
> {
    match (best, cand) {
        (Some(b), Some(v)) => if v < b.0 {
            Some((v, t))
        } else {
            best
        },
        (None, Some(v)) => Some((v, t)),
        _ => best,
    }
}

/// The earliest-starting declaration marker in `line`, ties broken in the
/// order `Fn, Impl, Trait, Mod`.
pub open spec fn find_closest_spec(line: Seq<char>) -> Option<(int, Type)> {
    better(
        better(
            better(
                better(None, find_spec(line, Type::Fn.marker()), Type::Fn),
                find_spec(line, Type::Impl.marker()),
                Type::Impl,
            ),
            find_spec(line, Type::Trait.marker()),
            Type::Trait,
        ),
        find_spec(line, Type::Mod.marker()),
        Type::Mod,
    )
}

/// Executable step of the earliest-offset fold.
fn better_step(best: Option<(usize, Type)>, cand: Option<usize>, t: Type) -> (r: Option<
    (usize, Type),
>)
    ensures
        lift_best(r) == better(lift_best(best), lift_cand(cand), t),
{
    match (best, cand) {
        (Some(b), Some(v)) => if v < b.0 {
            Some((v, t))
        } else {
            Some(b)
        },
        (None, Some(v)) => Some((v, t)),
        _ => best,
    }
}

/// Spec-level image of an executable best-so-far pair.
pub open spec fn lift_best(b: Option<(usize, Type)>) -> Option<(int, Type)> {
    match b {
        Some(p) => Some((p.0 as int, p.1)),
        None => None,
    }
}

/// Spec-level image of an executable candidate offset.
pub open spec fn lift_cand(c: Option<usize>) -> Option<int> {
    match c {
        Some(v) => Some(v as int),
        None => None,
    }
}

/// One step of the earliest-pattern fold over a pattern list: the result
/// keeps the position of the earliest occurrence together with the index
/// of the pattern that produced it.
pub open spec fn better_idx(best: Option<(int, int)>, cand: Option<int>, k: int) -> Option<
    (int, int),
> {
    match (best, cand) {
        (Some(b), Some(v)) => if v < b.0 {
            Some((v, k))
        } else {
            best
        },
        (None, Some(v)) => Some((v, k)),
        _ => best,
    }
}

/// Earliest occurrence in `hay` of any pattern in `pats[k..]`, folded onto
/// `best`; ties keep the earlier pattern.
pub open spec fn closest_from(
    hay: Seq<char>,
    pats: Seq<Seq<char>>,
    k: int,
    best: Option<(int, int)>,
) -> Option<(int, int)>
    decreases pats.len() - k,
{
    if k < 0 || k >= pats.len() {
        best
    } else {
        closest_from(hay, pats, k + 1, better_idx(best, find_spec(hay, pats[k]), k))
    }
}

/// Position and pattern index of the earliest occurrence in `hay` of any
/// pattern in `pats`.
pub open spec fn closest_list_spec(hay: Seq<char>, pats: Seq<Seq<char>>) -> Option<(int, int)> {
    closest_from(hay, pats, 0, None)
}

/// Spec-level image of an executable position/index pair.
pub open spec fn lift_pair(b: Option<(usize, usize)>) -> Option<(int, int)> {
    match b {
        Some(p) => Some((p.0 as int, p.1 as int)),
        None => None,
    }
}

/// The position in `line` of the earliest occurrence of any string in
/// `ary`, together with that string; ties keep the earlier array element.
pub fn closet_str<'a, const N: usize>(line: &'a str, ary: [&'a str; N]) -> (r: Option<
    (usize, &'a str),
>)
    requires
        forall|k: int| 0 <= k < N ==> ary@[k]@.len() >= 1,
    ensures
        ({
            let pats = ary@.map_values(|p: &str| p@);
            match r {
                Some(q) => exists|idx: int|
                    0 <= idx < N && closest_list_spec(line@, pats) == Some((q.0 as int, idx))
                        && q.1@ == pats[idx],
                None => closest_list_spec(line@, pats) is None,
            }
        }),
{
    let ghost pats = ary@.map_values(|p: &str| p@);
    let chars = to_char_vec(line);
    let mut best: Option<(usize, usize)> = None;
    let mut k: usize = 0;
    while k < N
        invariant
            k <= N,
            pats == ary@.map_values(|p: &str| p@),
            chars@ == line@,
            forall|j: int| 0 <= j < N ==> ary@[j]@.len() >= 1,
            closest_from(line@, pats, k as int, lift_pair(best)) == closest_list_spec(
                line@,
                pats,
            ),
            match best {
                Some(b) => b.1 < k,
                None => true,
            },
        decreases N - k,
    {
        let pat = to_char_vec(ary[k]);
        let cand = find_sub(&chars, &pat, 0);
        proof {
            assert(pats[k as int] == ary@[k as int]@);
        }
        best = match (best, cand) {
            (Some(b), Some(v)) => if v < b.0 {
                Some((v, k))
            } else {
                Some(b)
            },
            (None, Some(v)) => Some((v, k)),
            (b, _) => b,
        };
        k = k + 1;
    }
    match best {
        Some(b) => {
            proof {
                assert(ary@[b.1 as int]@ == pats[b.1 as int]);
            }
            Some((b.0, ary[b.1]))
        },
        None => None,
    }
}

/// The pattern `<`.
pub open spec fn lt_pat() -> Seq<char> {
    seq!['<']
}

/// The pattern `(`.
pub open spec fn lp_pat() -> Seq<char> {
    seq!['(']
}

/// The pattern `{`.
pub open spec fn brace_pat() -> Seq<char> {
    seq!['{']
}

/// The pattern `:`.
pub open spec fn colon_pat() -> Seq<char> {
    seq![':']
}

/// The pattern `>`.
pub open spec fn gt_pat() -> Seq<char> {
    seq!['>']
}

/// The pattern `for`.
pub open spec fn for_pat() -> Seq<char> {
    seq!['f', 'o', 'r']
}

/// A result of the earliest-pattern fold names a pattern of the list and
/// an occurrence of it that fits inside `hay`.
pub proof fn lemma_closest_bounds(hay: Seq<char>, pats: Seq<Seq<char>>, k: int, best: Option<(int, int)>)
    requires
        match best {
            Some(b) => 0 <= b.1 < pats.len() && 0 <= b.0 && b.0 + pats[b.1].len() <= hay.len(),
            None => true,
        },
    ensures
        match closest_from(hay, pats, k, best) {
            Some(b) => 0 <= b.1 < pats.len() && 0 <= b.0 && b.0 + pats[b.1].len() <= hay.len(),
            None => true,
        },
    decreases pats.len() - k,
{
    if k < 0 || k >= pats.len() {
    } else {
        crate::text::lemma_find_from_some(hay, pats[k], 0);
        lemma_closest_bounds(hay, pats, k + 1, better_idx(best, find_spec(hay, pats[k]), k));
    }
}

/// The name declared by a function line: the text after the `fn ` marker,
/// cut at the first `<` or `(`, trimmed.
pub open spec fn extract_fn_spec(line: Seq<char>) -> Option<Seq<char>> {
    match find_spec(line, Type::Fn.marker()) {
        None => None,
        Some(i) => {
            let rest = line.subrange(i + 3, line.len() as int);
            match closest_list_spec(rest, seq![lt_pat(), lp_pat()]) {
                None => None,
                Some(e) => Some(trim_spec(rest.take(e.0))),
            }
        },
    }
}

/// The name declared by an impl-block line, which must also hold an
/// opening brace: the text after the `impl ` marker, from right after a
/// closing `>` if one occurs (else from the start), cut at the first `for`
/// or `{`, trimmed; absent unless the start lies strictly before the cut.
pub open spec fn extract_impl_spec(line: Seq<char>) -> Option<Seq<char>> {
    match find_spec(line, Type::Impl.marker()) {
        None => None,
        Some(i) => if find_spec(line, brace_pat()) is None {
            None
        } else {
            let rest = line.subrange(i + 5, line.len() as int);
            let start = match find_spec(rest, gt_pat()) {
                Some(g) => g + 1,
                None => 0,
            };
            match closest_list_spec(rest, seq![for_pat(), brace_pat()]) {
                None => None,
                Some(e) => if start >= e.0 {
                    None
                } else {
                    Some(trim_spec(rest.subrange(start, e.0)))
                },
            }
        },
    }
}

/// The name declared by a trait line, which must also hold an opening
/// brace: the text after the `trait ` marker, cut at the first `<`, `{`
/// or `:`, trimmed.
pub open spec fn extract_trait_spec(line: Seq<char>) -> Option<Seq<char>> {
    match find_spec(line, Type::Trait.marker()) {
        None => None,
        Some(i) => if find_spec(line, brace_pat()) is None {
            None
        } else {
            let rest = line.subrange(i + 6, line.len() as int);
            match closest_list_spec(rest, seq![lt_pat(), brace_pat(), colon_pat()]) {
                None => None,
                Some(e) => Some(trim_spec(rest.take(e.0))),
            }
        },
    }
}

/// The name declared by a module line: the text after the `mod ` marker,
/// cut at the first `{`, trimmed.
pub open spec fn extract_mod_spec(line: Seq<char>) -> Option<Seq<char>> {
    match find_spec(line, Type::Mod.marker()) {
        None => None,
        Some(i) => {
            let rest = line.subrange(i + 4, line.len() as int);
            match find_spec(rest, brace_pat()) {
                None => None,
                Some(e) => Some(trim_spec(rest.take(e))),
            }
        },
    }
}

/// Extracts a function name as `extract_fn_spec` describes.
pub fn extract_fn(line: &str) -> (r: Option<&str>)
    ensures
        match extract_fn_spec(line@) {
            Some(name) => r is Some && r.unwrap()@ == name,
            None => r is None,
        },
{
    let chars = to_char_vec(line);
    let found = find_sub(&chars, &Type::Fn.marker_chars(), 0);
    match found {
        None => None,
        Some(i) => {
            proof {
                crate::text::lemma_find_from_some(line@, Type::Fn.marker(), 0);
            }
            let n = line.unicode_len();
            let rest = line.substring_char(i + 3, n);
            let ary = ["<", "("];
            proof {
                reveal_strlit("<");
                reveal_strlit("(");
                assert(ary@.map_values(|p: &str| p@) =~~= seq![lt_pat(), lp_pat()]);
            }
            let e = closet_str(rest, ary);
            match e {
                None => None,
                Some(q) => {
                    proof {
                        lemma_closest_bounds(rest@, seq![lt_pat(), lp_pat()], 0, None);
                        assert(rest@.take(q.0 as int) =~= rest@.subrange(0, q.0 as int));
                    }
                    let rchars = to_char_vec(rest);
                    Some(trim_in(rest, &rchars, 0, q.0))
                },
            }
        },
    }
}

/// Extracts an impl-block name as `extract_impl_spec` describes.
pub fn extract_impl(line: &str) -> (r: Option<&str>)
    ensures
        match extract_impl_spec(line@) {
            Some(name) => r is Some && r.unwrap()@ == name,
            None => r is None,
        },
{
    let chars = to_char_vec(line);
    let found = find_sub(&chars, &Type::Impl.marker_chars(), 0);
    match found {
        None => None,
        Some(i) => {
            proof {
                crate::text::lemma_find_from_some(line@, Type::Impl.marker(), 0);
                reveal_strlit("{");
            }
            let brv = vec!['{'];
            proof {
                assert(brv@ =~= brace_pat());
            }
            if find_sub(&chars, &brv, 0).is_none() {
                return None;
            }
            let n = line.unicode_len();
            let rest = line.substring_char(i + 5, n);
            let rchars = to_char_vec(rest);
            let gtv = vec!['>'];
            proof {
                assert(gtv@ =~= gt_pat());
            }
            let start: usize = match find_sub(&rchars, &gtv, 0) {
                Some(g) => {
                    proof {
                        crate::text::lemma_find_from_some(rest@, gt_pat(), 0);
                    }
                    g + 1
                },
                None => 0,
            };
            let ary = ["for", "{"];
            proof {
                reveal_strlit("for");
                assert(ary@.map_values(|p: &str| p@) =~~= seq![for_pat(), brace_pat()]);
            }
            let e = closet_str(rest, ary);
            match e {
                None => None,
                Some(q) => {
                    if start >= q.0 {
                        None
                    } else {
                        proof {
                            lemma_closest_bounds(rest@, seq![for_pat(), brace_pat()], 0, None);
                        }
                        Some(trim_in(rest, &rchars, start, q.0))
                    }
                },
            }
        },
    }
}

/// Extracts a trait name as `extract_trait_spec` describes.
pub fn extract_trait(line: &str) -> (r: Option<&str>)
    ensures
        match extract_trait_spec(line@) {
            Some(name) => r is Some && r.unwrap()@ == name,
            None => r is None,
        },
{
    let chars = to_char_vec(line);
    let found = find_sub(&chars, &Type::Trait.marker_chars(), 0);
    match found {
        None => None,
        Some(i) => {
            proof {
                crate::text::lemma_find_from_some(line@, Type::Trait.marker(), 0);
                reveal_strlit("{");
            }
            let brv = vec!['{'];
            proof {
                assert(brv@ =~= brace_pat());
            }
            if find_sub(&chars, &brv, 0).is_none() {
                return None;
            }
            let n = line.unicode_len();
            let rest = line.substring_char(i + 6, n);
            let ary = ["<", "{", ":"];
            proof {
                reveal_strlit("<");
                reveal_strlit(":");
                assert(ary@.map_values(|p: &str| p@) =~~= seq![lt_pat(), brace_pat(), colon_pat()]);
            }
            let e = closet_str(rest, ary);
            match e {
                None => None,
                Some(q) => {
                    proof {
                        lemma_closest_bounds(
                            rest@,
                            seq![lt_pat(), brace_pat(), colon_pat()],
                            0,
                            None,
                        );
                        assert(rest@.take(q.0 as int) =~= rest@.subrange(0, q.0 as int));
                    }
                    let rchars = to_char_vec(rest);
                    Some(trim_in(rest, &rchars, 0, q.0))
                },
            }
        },
    }
}

/// Extracts a module name as `extract_mod_spec` describes.
pub fn extract_mod(line: &str) -> (r: Option<&str>)
    ensures
        match extract_mod_spec(line@) {
            Some(name) => r is Some && r.unwrap()@ == name,
            None => r is None,
        },
{
    let chars = to_char_vec(line);
    let found = find_sub(&chars, &Type::Mod.marker_chars(), 0);
    match found {
        None => None,
        Some(i) => {
            proof {
                crate::text::lemma_find_from_some(line@, Type::Mod.marker(), 0);
                reveal_strlit("{");
            }
            let n = line.unicode_len();
            let rest = line.substring_char(i + 4, n);
            let rchars = to_char_vec(rest);
            let brv = vec!['{'];
            proof {
                assert(brv@ =~= brace_pat());
            }
            match find_sub(&rchars, &brv, 0) {
                None => None,
                Some(e) => {
                    proof {
                        crate::text::lemma_find_from_some(rest@, brace_pat(), 0);
                        assert(rest@.take(e as int) =~= rest@.subrange(0, e as int));
                    }
                    Some(trim_in(rest, &rchars, 0, e))
                },
            }
        },
    }
}

/// Classification and extraction for one line: the earliest marker picks
/// the kind, and the kind's extractor yields the entry, if any.
pub open spec fn line_entry_spec(line: Seq<char>) -> Option<(Seq<char>, Type)> {
    match find_closest_spec(line) {
        None => None,
        Some(p) => match p.1 {
            Type::Fn => match extract_fn_spec(line) {
                Some(n) => Some((n, Type::Fn)),
                None => None,
            },
            Type::Impl => match extract_impl_spec(line) {
                Some(n) => Some((n, Type::Impl)),
                None => None,
            },
            Type::Trait => match extract_trait_spec(line) {
                Some(n) => Some((n, Type::Trait)),
                None => None,
            },
            Type::Mod => match extract_mod_spec(line) {
                Some(n) => Some((n, Type::Mod)),
                None => None,
            },
        },
    }
}

/// Classifies one line and extracts its declared name.
pub fn line_entry(line: &str) -> (r: Option<(String, Type)>)
    ensures
        entry_view(r) == line_entry_spec(line@),
{
    match Type::find_closest(line) {
        None => None,
        Some(p) => match p.1 {
            Type::Fn => match extract_fn(line) {
                Some(n) => Some((n.to_owned(), Type::Fn)),
                None => None,
            },
            Type::Impl => match extract_impl(line) {
                Some(n) => Some((n.to_owned(), Type::Impl)),
                None => None,
            },
            Type::Trait => match extract_trait(line) {
                Some(n) => Some((n.to_owned(), Type::Trait)),
                None => None,
            },
            Type::Mod => match extract_mod(line) {
                Some(n) => Some((n.to_owned(), Type::Mod)),
                None => None,
            },
        },
    }
}

/// Spec-level image of a stored entry.
pub open spec fn entry_view(e: Option<(String, Type)>) -> Option<(Seq<char>, Type)> {
    match e {
        Some(p) => Some((p.0@, p.1)),
        None => None,
    }
}

/// The pattern `\n`.
pub open spec fn nl_pat() -> Seq<char> {
    seq!['\n']
}

/// The lines of `s`, split at every newline; a trailing newline yields a
/// final empty line, and an empty text yields one empty line.
pub open spec fn split_lines_spec(s: Seq<char>) -> Seq<Seq<char>>
    decreases s.len(),
{
    match find_spec(s, nl_pat()) {
        Some(i) => if 0 <= i < s.len() {
            seq![s.take(i)] + split_lines_spec(s.skip(i + 1))
        } else {
            seq![s]
        },
        None => seq![s],
    }
}

/// The line-to-symbol index of a whole source text: position `l` holds
/// the entry of line `l`, lines counted from 1; position `0` is empty.
pub open spec fn call_map_spec(src: Seq<char>) -> Seq<Option<(Seq<char>, Type)>> {
    let lines = split_lines_spec(src);
    Seq::new(
        lines.len() + 1,
        |i: int|
            if i == 0 {
                None
            } else {
                line_entry_spec(lines[i - 1])
            },
    )
}

/// A source file's line-to-symbol index: one optional entry per line,
/// indexed by 1-based line number.
pub struct CallMap {
    entries: Vec<Option<(String, Type)>>,
}

impl View for CallMap {
    type V = Seq<Option<(Seq<char>, Type)>>;

    closed spec fn view(&self) -> Seq<Option<(Seq<char>, Type)>> {
        self.entries@.map_values(|e: Option<(String, Type)>| entry_view(e))
    }
}

/// The entry of line `l` in index `m`; lines outside the index are empty.
pub open spec fn entry_at(m: Seq<Option<(Seq<char>, Type)>>, l: int) -> Option<(Seq<char>, Type)> {
    if 0 <= l < m.len() {
        m[l]
    } else {
        None
    }
}

/// The nearest line at or before `l` that holds an entry, else `0`.
pub open spec fn prev_entry_line(m: Seq<Option<(Seq<char>, Type)>>, l: int) -> int
    decreases l,
{
    if l <= 0 {
        0
    } else if entry_at(m, l) is Some {
        l
    } else {
        prev_entry_line(m, l - 1)
    }
}

impl CallMap {
    /// Builds the index of one source text, line by line.
    #[verifier::rlimit(30)]
    pub fn new(src: &str) -> (c: CallMap)
        ensures
            c@ == call_map_spec(src@),
    {
        let ghost lines = split_lines_spec(src@);
        let chars = to_char_vec(src);
        let n = src.unicode_len();
        let nlv = vec!['\n'];
        proof {
            assert(nlv@ =~= nl_pat());
        }
        let mut entries: Vec<Option<(String, Type)>> = Vec::new();
        entries.push(None);
        proof {
            assert(entries@.map_values(|e: Option<(String, Type)>| entry_view(e)) =~~= call_map_spec(
                src@,
            ).take(1));
            assert(lines.skip(0) =~~= lines);
            assert(src@.skip(0) =~= src@);
        }
        let mut pos: usize = 0;
        loop
            invariant
                nlv@ == nl_pat(),
                chars@ == src@,
                n == src@.len(),
                pos <= n,
                lines == split_lines_spec(src@),
                1 <= entries@.len() <= lines.len(),
                lines.skip(entries@.len() - 1) == split_lines_spec(src@.skip(pos as int)),
                entries@.map_values(|e: Option<(String, Type)>| entry_view(e)) == call_map_spec(
                    src@,
                ).take(entries@.len() as int),
            decreases n - pos,
        {
            let ghost k = entries@.len();
            let ghost rem = src@.skip(pos as int);
            match find_sub(&chars, &nlv, pos) {
                Some(j) => {
                    proof {
                        crate::text::lemma_find_from_some(src@, nl_pat(), pos as int);
                        crate::text::lemma_find_from_skip(src@, nl_pat(), pos as int, 0);
                    }
                    let line = src.substring_char(pos, j);
                    let e = line_entry(line);
                    let ghost before = entries@;
                    entries.push(e);
                    proof {
                        let tail = split_lines_spec(src@.skip(j + 1));
                        assert(rem.take(j - pos) =~= line@);
                        assert(rem.skip(j - pos + 1) =~= src@.skip(j + 1));
                        assert(split_lines_spec(rem) == seq![line@] + tail);
                        assert(lines.skip(k - 1) == seq![line@] + tail);
                        assert(lines.skip(k - 1).len() == lines.len() - (k - 1));
                        assert((seq![line@] + tail).len() == 1 + tail.len());
                        assert(lines.len() - k == tail.len());
                        assert(lines.skip(k as int) =~~= tail) by {
                            assert forall|ii: int| 0 <= ii < tail.len() implies lines.skip(
                                k as int,
                            )[ii] == tail[ii] by {
                                assert(lines.skip(k - 1)[ii + 1] == (seq![line@] + tail)[ii + 1]);
                            }
                        }
                        assert(lines[k - 1] == lines.skip(k - 1)[0]);
                        assert(lines[k - 1] == line@);
                        assert(call_map_spec(src@)[k as int] == line_entry_spec(line@));
                        assert(entries@.map_values(|e2: Option<(String, Type)>| entry_view(e2))
                            =~~= call_map_spec(src@).take(entries@.len() as int)) by {
                            assert(before.map_values(|e2: Option<(String, Type)>| entry_view(e2))
                                == call_map_spec(src@).take(k as int));
                            assert forall|ii: int| 0 <= ii < k + 1 implies entry_view(
                                entries@[ii],
                            ) == call_map_spec(src@).take(k as int + 1)[ii] by {
                                if ii < k {
                                    assert(entries@[ii] == before[ii]);
                                    assert(before.map_values(
                                        |e2: Option<(String, Type)>| entry_view(e2),
                                    )[ii] == entry_view(before[ii]));
                                }
                            }
                        }
                    }
                    pos = j + 1;
                },
                None => {
                    proof {
                        crate::text::lemma_find_from_skip(src@, nl_pat(), pos as int, 0);
                        assert(split_lines_spec(rem) == seq![rem]);
                        assert(k == lines.len());
                    }
                    let line = src.substring_char(pos, n);
                    let e = line_entry(line);
                    let ghost before = entries@;
                    entries.push(e);
                    proof {
                        assert(line@ =~= rem);
                        assert(lines.skip(k - 1) == seq![rem]);
                        assert(lines[k - 1] == lines.skip(k - 1)[0]);
                        assert(lines[k - 1] == line@);
                        assert(call_map_spec(src@)[k as int] == line_entry_spec(line@));
                        assert(entries@.map_values(|e2: Option<(String, Type)>| entry_view(e2))
                            =~~= call_map_spec(src@)) by {
                            assert(before.map_values(|e2: Option<(String, Type)>| entry_view(e2))
                                == call_map_spec(src@).take(k as int));
                            assert(call_map_spec(src@).len() == k + 1);
                            assert forall|ii: int| 0 <= ii < k + 1 implies entry_view(
                                entries@[ii],
                            ) == call_map_spec(src@)[ii] by {
                                if ii < k {
                                    assert(entries@[ii] == before[ii]);
                                    assert(before.map_values(
                                        |e2: Option<(String, Type)>| entry_view(e2),
                                    )[ii] == entry_view(before[ii]));
                                    assert(call_map_spec(src@).take(k as int)[ii]
                                        == call_map_spec(src@)[ii]);
                                }
                            }
                        }
                    }
                    return CallMap { entries };
                },
            }
        }
    }

    /// Whether line `l` holds an entry.
    pub fn has_entry(&self, l: u32) -> (r: bool)
        ensures
            r == (entry_at(self@, l as int) is Some),
    {
        if (l as usize) < self.entries.len() {
            let ghost li = l as int;
            proof {
                assert(self@[li] == entry_view(self.entries@[li]));
            }
            self.entries[l as usize].is_some()
        } else {
            false
        }
    }

    /// The number of lines the index covers, the index's own slot `0`
    /// included.
    pub fn len(&self) -> (r: usize)
        ensures
            r == self@.len(),
    {
        self.entries.len()
    }
}

/// Moves `i` down to the nearest line at or before it that holds an
/// entry, and returns that line's entry; `i` comes to rest at `0` when no
/// such line exists.
pub fn next(map: &CallMap, i: &mut u32) -> (r: Option<(String, Type)>)
    ensures
        *final(i) as int == prev_entry_line(map@, *old(i) as int),
        entry_view(r) == entry_at(map@, *final(i) as int),
{
    while *i > 0 && !map.has_entry(*i)
        invariant
            prev_entry_line(map@, *old(i) as int) == prev_entry_line(map@, *i as int),
        decreases *i,
    {
        *i = *i - 1;
    }
    if (*i as usize) < map.entries.len() {
        let ghost li = *i as int;
        proof {
            assert(map@[li] == entry_view(map.entries@[li]));
        }
        match &map.entries[*i as usize] {
            Some(p) => Some((p.0.clone(), p.1)),
            None => None,
        }
    } else {
        None
    }
}

} // verus!
