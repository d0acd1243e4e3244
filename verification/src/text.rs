//! Character-level utilities shared by the symbol scanner and the
//! renderers: substring search, whitespace trimming, decimal rendering,
//! and string equality, each with an exact functional contract.
use vstd::prelude::*;
use vstd::string::*;

verus! {

/// ASCII whitespace, the only whitespace this library trims.
pub open spec fn is_ws(c: char) -> bool {
    c == ' ' || c == '\t' || c == '\r' || c == '\n'
}

/// `pat` occurs in `s` at offset `i`.
pub open spec fn occurs_at(s: Seq<char>, pat: Seq<char>, i: int) -> bool {
    0 <= i && i + pat.len() <= s.len() && s.subrange(i, i + pat.len()) == pat
}

/// Offset of the first occurrence of `pat` in `s` at or after `from`.
pub open spec fn find_from_spec(s: Seq<char>, pat: Seq<char>, from: int) -> Option<int>
    decreases s.len() - from + 1,
{
    if from < 0 || from + pat.len() > s.len() {
        None
    } else if occurs_at(s, pat, from) {
        Some(from)
    } else {
        find_from_spec(s, pat, from + 1)
    }
}

/// Offset of the first occurrence of `pat` in `s`.
pub open spec fn find_spec(s: Seq<char>, pat: Seq<char>) -> Option<int> {
    find_from_spec(s, pat, 0)
}

/// The characters of `s`, one by one.
pub fn to_char_vec(s: &str) -> (v: Vec<char>)
    ensures
        v@ == s@,
{
    let n: usize = s.unicode_len();
    let mut v: Vec<char> = Vec::new();
    let mut i: usize = 0;
    while i < n
        invariant
            i <= n,
            n == s@.len(),
            v@ == s@.take(i as int),
        decreases n - i,
    {
        let c = s.get_char(i);
        v.push(c);
        i = i + 1;
        proof {
            assert(v@ =~= s@.take(i as int));
        }
    }
    proof {
        assert(s@.take(n as int) =~= s@);
    }
    v
}

/// First occurrence of `pat` in `hay` at or after `from`, if any.
pub fn find_sub(hay: &Vec<char>, pat: &Vec<char>, from: usize) -> (r: Option<usize>)
    requires
        pat@.len() >= 1,
    ensures
        match r {
            Some(i) => find_from_spec(hay@, pat@, from as int) == Some(i as int),
            None => find_from_spec(hay@, pat@, from as int) is None,
        },
{
    if pat.len() > hay.len() || from > hay.len() - pat.len() {
        return None;
    }
    let last: usize = hay.len() - pat.len();
    let mut i: usize = from;
    while i <= last
        invariant
            from <= i,
            i <= last + 1,
            last == hay.len() - pat.len(),
            1 <= pat.len() <= hay.len(),
            find_from_spec(hay@, pat@, from as int) == find_from_spec(hay@, pat@, i as int),
        decreases last + 1 - i,
    {
        let mut j: usize = 0;
        let mut matched: bool = true;
        while j < pat.len()
            invariant
                i + pat.len() <= hay.len(),
                j <= pat.len(),
                matched ==> forall|k: int| 0 <= k < j ==> hay@[i + k] == pat@[k],
                !matched ==> !occurs_at(hay@, pat@, i as int),
            decreases pat.len() - j,
        {
            if hay[i + j] != pat[j] {
                proof {
                    if occurs_at(hay@, pat@, i as int) {
                        assert(hay@.subrange(i as int, i + pat@.len())[j as int] == pat@[j as int]);
                    }
                }
                matched = false;
                j = pat.len();
            } else {
                j = j + 1;
            }
        }
        if matched {
            proof {
                assert(hay@.subrange(i as int, i + pat@.len()) =~= pat@);
            }
            return Some(i);
        }
        proof {
            assert(find_from_spec(hay@, pat@, i as int) == find_from_spec(hay@, pat@, i + 1));
        }
        i = i + 1;
    }
    None
}

/// A found occurrence lies at or after the starting offset and within `s`.
pub proof fn lemma_find_from_some(s: Seq<char>, pat: Seq<char>, from: int)
    ensures
        match find_from_spec(s, pat, from) {
            Some(i) => from <= i && occurs_at(s, pat, i),
            None => true,
        },
    decreases s.len() - from + 1,
{
    if from < 0 || from + pat.len() > s.len() {
    } else if occurs_at(s, pat, from) {
    } else {
        lemma_find_from_some(s, pat, from + 1);
    }
}

/// Searching `s` from `pos + d` finds exactly what searching the suffix
/// `s.skip(pos)` from `d` finds, shifted by `pos`.
pub proof fn lemma_find_from_skip(s: Seq<char>, pat: Seq<char>, pos: int, d: int)
    requires
        0 <= pos <= s.len(),
        0 <= d,
    ensures
        find_from_spec(s, pat, pos + d) == match find_from_spec(s.skip(pos), pat, d) {
            Some(i) => Some(i + pos),
            None => None::<int>,
        },
    decreases s.len() - pos - d + 1,
{
    let t = s.skip(pos);
    if d + pat.len() > t.len() {
    } else {
        assert(s.subrange(pos + d, pos + d + pat.len()) =~= t.subrange(d, d + pat.len()));
        if occurs_at(t, pat, d) {
        } else {
            lemma_find_from_skip(s, pat, pos, d + 1);
        }
    }
}

/// First offset at or after `i` holding a non-whitespace character, else `s.len()`.
pub open spec fn ws_prefix_end(s: Seq<char>, i: int) -> int
    decreases s.len() - i + 1,
{
    if i < 0 || i >= s.len() {
        s.len() as int
    } else if is_ws(s[i]) {
        ws_prefix_end(s, i + 1)
    } else {
        i
    }
}

/// Largest offset `k <= j` such that `s[k - 1]` is not whitespace, else `0`.
pub open spec fn ws_suffix_start(s: Seq<char>, j: int) -> int
    decreases j + 1,
{
    if j <= 0 || j > s.len() {
        0
    } else if is_ws(s[j - 1]) {
        ws_suffix_start(s, j - 1)
    } else {
        j
    }
}

/// `s` without its leading and trailing whitespace.
pub open spec fn trim_spec(s: Seq<char>) -> Seq<char> {
    let a = ws_prefix_end(s, 0);
    let b = ws_suffix_start(s, s.len() as int);
    if a >= b {
        Seq::empty()
    } else {
        s.subrange(a, b)
    }
}

/// The slice of `line` between `start` and `end`, trimmed of surrounding
/// whitespace. `chars` must spell out `line`.
pub fn trim_in<'a>(line: &'a str, chars: &Vec<char>, start: usize, end: usize) -> (r: &'a str)
    requires
        chars@ == line@,
        start <= end <= line@.len(),
    ensures
        r@ == trim_spec(line@.subrange(start as int, end as int)),
{
    let ghost t = line@.subrange(start as int, end as int);
    let mut a: usize = start;
    while a < end && is_ws_exec(chars[a])
        invariant
            start <= a <= end <= chars@.len(),
            chars@ == line@,
            t == line@.subrange(start as int, end as int),
            ws_prefix_end(t, 0) == ws_prefix_end(t, a - start),
        decreases end - a,
    {
        proof {
            assert(t[a - start] == chars@[a as int]);
        }
        a = a + 1;
    }
    proof {
        if a < end {
            assert(t[a - start] == chars@[a as int]);
        }
        assert(ws_prefix_end(t, a - start) == a - start || a == end);
    }
    let mut b: usize = end;
    while b > a && is_ws_exec(chars[b - 1])
        invariant
            start <= a <= b <= end <= chars@.len(),
            chars@ == line@,
            t == line@.subrange(start as int, end as int),
            ws_suffix_start(t, end - start) == ws_suffix_start(t, b - start),
        decreases b,
    {
        proof {
            assert(t[b - start - 1] == chars@[b - 1]);
        }
        b = b - 1;
    }
    let r = line.substring_char(a, b);
    proof {
        if b > a {
            assert(t[b - start - 1] == chars@[b - 1]);
            assert(ws_suffix_start(t, b - start) == b - start);
            assert(r@ =~= t.subrange(a - start, b - start));
        } else {
            lemma_ws_suffix_at_most(t, a - start);
            assert(r@ =~= Seq::<char>::empty());
        }
    }
    r
}

/// `ws_suffix_start` never exceeds its starting offset.
proof fn lemma_ws_suffix_at_most(s: Seq<char>, j: int)
    ensures
        ws_suffix_start(s, j) <= j || j < 0,
    decreases j + 1,
{
    if 0 < j <= s.len() && is_ws(s[j - 1]) {
        lemma_ws_suffix_at_most(s, j - 1);
    }
}

/// Whitespace test on one character.
pub fn is_ws_exec(c: char) -> (r: bool)
    ensures
        r == is_ws(c),
{
    c == ' ' || c == '\t' || c == '\r' || c == '\n'
}

/// The decimal digit `d` as a character.
pub open spec fn digit_char(d: int) -> char {
    if d == 0 {
        '0'
    } else if d == 1 {
        '1'
    } else if d == 2 {
        '2'
    } else if d == 3 {
        '3'
    } else if d == 4 {
        '4'
    } else if d == 5 {
        '5'
    } else if d == 6 {
        '6'
    } else if d == 7 {
        '7'
    } else if d == 8 {
        '8'
    } else {
        '9'
    }
}

/// The usual decimal rendering of `n`, most significant digit first.
pub open spec fn dec_rep(n: nat) -> Seq<char>
    decreases n,
{
    if n < 10 {
        seq![digit_char(n as int)]
    } else {
        dec_rep(n / 10).push(digit_char((n % 10) as int))
    }
}

/// Renders `n` in decimal.
pub fn u64_to_string(n: u64) -> (s: String)
    ensures
        s@ == dec_rep(n as nat),
    decreases n,
{
    let digits = "0123456789";
    proof {
        reveal_strlit("0123456789");
    }
    if n < 10 {
        let d = digits.substring_char(n as usize, n as usize + 1);
        proof {
            assert(d@ =~= seq![digit_char(n as int)]);
        }
        d.to_owned()
    } else {
        let head = u64_to_string(n / 10);
        let d = digits.substring_char((n % 10) as usize, (n % 10) as usize + 1);
        let s = head.concat(d);
        proof {
            assert(d@ =~= seq![digit_char((n % 10) as int)]);
            assert(s@ =~= dec_rep((n / 10) as nat).push(digit_char((n % 10) as int)));
        }
        s
    }
}

/// Character-by-character string equality.
pub fn str_eq(a: &str, b: &str) -> (r: bool)
    ensures
        r == (a@ == b@),
{
    let na: usize = a.unicode_len();
    let nb: usize = b.unicode_len();
    if na != nb {
        return false;
    }
    let mut i: usize = 0;
    while i < na
        invariant
            i <= na,
            na == a@.len(),
            na == b@.len(),
            forall|j: int| 0 <= j < i ==> a@[j] == b@[j],
        decreases na - i,
    {
        if a.get_char(i) != b.get_char(i) {
            return false;
        }
        i = i + 1;
    }
    proof {
        assert(a@ =~= b@);
    }
    true
}

} // verus!
