use vstd::prelude::*;
use vstd::std_specs::iter::IteratorSpec;
use vstd::string::StrSliceExecFns;

verus! {

broadcast use vstd::string::group_string_axioms;

/// ASCII whitespace: space, tab, line feed, form feed, carriage return.
pub open spec fn is_ws(c: char) -> bool {
    c == ' ' || c == '\t' || c == '\n' || c == '\x0C' || c == '\r'
}

/// Unicode White_Space: the ASCII whitespace controls U+0009 to U+000D, space,
/// U+0085, U+00A0, U+1680, U+2000 to U+200A, U+2028, U+2029, U+202F, U+205F and U+3000.
pub open spec fn is_unicode_ws(c: char) -> bool {
    ('\t' <= c && c <= '\r') || c == ' ' || c == '\u{85}' || c == '\u{A0}' || c == '\u{1680}'
        || ('\u{2000}' <= c && c <= '\u{200A}') || c == '\u{2028}' || c == '\u{2029}'
        || c == '\u{202F}' || c == '\u{205F}' || c == '\u{3000}'
}

/// A line without one trailing carriage return.
pub open spec fn strip_cr(l: Seq<char>) -> Seq<char> {
    if l.len() > 0 && l.last() == '\r' {
        l.drop_last()
    } else {
        l
    }
}

/// `s` without trailing Unicode whitespace.
pub open spec fn trim_end_ws(s: Seq<char>) -> Seq<char>
    decreases s.len(),
{
    if s.len() > 0 && is_unicode_ws(s.last()) {
        trim_end_ws(s.drop_last())
    } else {
        s
    }
}

/// `s` without leading Unicode whitespace.
pub open spec fn trim_start_ws(s: Seq<char>) -> Seq<char>
    decreases s.len(),
{
    if s.len() > 0 && is_unicode_ws(s[0]) {
        trim_start_ws(s.drop_first())
    } else {
        s
    }
}

/// The pieces of `cs` between line feeds, in order; the last piece is what
/// follows the last line feed (empty when `cs` ends with one).
pub open spec fn split_lines(cs: Seq<char>) -> Seq<Seq<char>>
    decreases cs.len(),
{
    if cs.len() == 0 {
        seq![Seq::empty()]
    } else {
        let prev = split_lines(cs.drop_last());
        if cs.last() == '\n' {
            prev.push(Seq::empty())
        } else {
            prev.update(prev.len() - 1, prev.last().push(cs.last()))
        }
    }
}

/// The line feed at `j` ends an empty line (or one holding only a carriage
/// return) that is not the first line.
pub open spec fn is_blank_end(cs: Seq<char>, j: int) -> bool {
    &&& 0 <= j < cs.len()
    &&& cs[j] == '\n'
    &&& (j >= 1 && cs[j - 1] == '\n') || (j >= 2 && cs[j - 1] == '\r' && cs[j - 2] == '\n')
}

/// The first line feed that ends a blank line.
pub open spec fn first_blank_end(cs: Seq<char>, j: int) -> bool {
    is_blank_end(cs, j) && forall|k: int| 0 <= k < j ==> !is_blank_end(cs, k)
}

/// Where the blank line that separates head and body ends, if there is one.
pub open spec fn blank_end(cs: Seq<char>) -> Option<int> {
    if exists|j: int| first_blank_end(cs, j) {
        Some(choose|j: int| first_blank_end(cs, j))
    } else {
        None
    }
}

/// The request line and the header lines, each ending with its line feed:
/// everything before the blank line, or the whole input when there is none.
pub open spec fn head_part(cs: Seq<char>) -> Seq<char> {
    match blank_end(cs) {
        Some(j) => if cs[j - 1] == '\r' {
            cs.take(j - 1)
        } else {
            cs.take(j)
        },
        None => cs,
    }
}

/// The lines of `x`, carriage returns stripped; a last piece that is empty is no line.
pub open spec fn lines_of(x: Seq<char>) -> Seq<Seq<char>> {
    let p = split_lines(x).map_values(|l: Seq<char>| strip_cr(l));
    if p.last().len() == 0 {
        p.drop_last()
    } else {
        p
    }
}

/// The lines of the head.
pub open spec fn head_lines(cs: Seq<char>) -> Seq<Seq<char>> {
    lines_of(head_part(cs))
}

/// The request line, without trailing whitespace; empty when there is no line.
pub open spec fn request_line(cs: Seq<char>) -> Seq<char> {
    let ls = head_lines(cs);
    if ls.len() > 0 {
        trim_end_ws(ls[0])
    } else {
        Seq::empty()
    }
}

/// The header lines: the lines of the head after the request line.
pub open spec fn header_lines(cs: Seq<char>) -> Seq<Seq<char>> {
    let ls = head_lines(cs);
    if ls.len() > 0 {
        ls.drop_first()
    } else {
        Seq::empty()
    }
}

/// Everything after the blank line, when there is a blank line and something follows it.
pub open spec fn body_of(cs: Seq<char>) -> Option<Seq<char>> {
    match blank_end(cs) {
        Some(j) => if j + 1 < cs.len() {
            Some(cs.skip(j + 1))
        } else {
            None
        },
        None => None,
    }
}

pub proof fn lemma_split_lines_nonempty(cs: Seq<char>)
    ensures
        split_lines(cs).len() >= 1,
    decreases cs.len(),
{
    if cs.len() > 0 {
        lemma_split_lines_nonempty(cs.drop_last());
    }
}

/// The characters of `s`.
pub fn chars_of(s: &str) -> (r: Vec<char>)
    ensures
        r@ == s@,
{
    let mut it = s.chars();
    let mut out: Vec<char> = Vec::new();
    loop
        invariant
            out@ + it.remaining() == s@,
            it.obeys_prophetic_iter_laws(),
            it.decrease() is Some,
        ensures
            out@ == s@,
        decreases it.decrease()->0,
    {
        match it.next() {
            Some(c) => {
                out.push(c);
            },
            None => {
                assert(out@ =~= s@);
                break;
            },
        }
    }
    out
}

/// `j` is the first index of `c` in `s`.
pub open spec fn is_first_index(s: Seq<char>, c: char, j: int) -> bool {
    0 <= j < s.len() && s[j] == c && forall|k: int| 0 <= k < j ==> s[k] != c
}

/// The first index of `c` in `s`, if `c` occurs.
pub open spec fn first_index(s: Seq<char>, c: char) -> Option<int> {
    if exists|j: int| is_first_index(s, c, j) {
        Some(choose|j: int| is_first_index(s, c, j))
    } else {
        None
    }
}

/// A header line split at its first colon: the name without trailing
/// whitespace, the value without leading whitespace.
pub open spec fn header_of(line: Seq<char>) -> Option<(Seq<char>, Seq<char>)> {
    match first_index(line, ':') {
        Some(i) => Some((trim_end_ws(line.take(i)), trim_start_ws(line.skip(i + 1)))),
        None => None,
    }
}

/// The first index at or after `i` that is not whitespace, or the length.
pub open spec fn skip_ws(cs: Seq<char>, i: int) -> int
    decreases cs.len() - i,
{
    if i < 0 || i >= cs.len() {
        cs.len() as int
    } else if is_ws(cs[i]) {
        skip_ws(cs, i + 1)
    } else {
        i
    }
}

/// The first index at or after `i` that is whitespace, or the length.
pub open spec fn token_end(cs: Seq<char>, i: int) -> int
    decreases cs.len() - i,
{
    if i < 0 || i >= cs.len() {
        cs.len() as int
    } else if is_ws(cs[i]) {
        i
    } else {
        token_end(cs, i + 1)
    }
}

pub proof fn lemma_skip_ws(cs: Seq<char>, i: int)
    requires
        0 <= i <= cs.len(),
    ensures
        i <= skip_ws(cs, i) <= cs.len(),
        skip_ws(cs, i) < cs.len() ==> !is_ws(cs[skip_ws(cs, i)]),
    decreases cs.len() - i,
{
    if i < cs.len() && is_ws(cs[i]) {
        lemma_skip_ws(cs, i + 1);
    }
}

pub proof fn lemma_token_end(cs: Seq<char>, i: int)
    requires
        0 <= i <= cs.len(),
    ensures
        i <= token_end(cs, i) <= cs.len(),
        i < cs.len() && !is_ws(cs[i]) ==> i < token_end(cs, i),
    decreases cs.len() - i,
{
    if i < cs.len() && !is_ws(cs[i]) {
        lemma_token_end(cs, i + 1);
    }
}

#[via_fn]
proof fn tokens_from_decreases(cs: Seq<char>, i: int) {
    if 0 <= i <= cs.len() {
        lemma_skip_ws(cs, i);
        let a = skip_ws(cs, i);
        if a < cs.len() {
            lemma_token_end(cs, a);
        }
    }
}

/// The whitespace-separated tokens of `cs` from index `i` on.
pub open spec fn tokens_from(cs: Seq<char>, i: int) -> Seq<Seq<char>>
    decreases cs.len() - i
        via tokens_from_decreases
{
    if i < 0 || i > cs.len() {
        Seq::empty()
    } else {
        let a = skip_ws(cs, i);
        if a >= cs.len() {
            Seq::empty()
        } else {
            let b = token_end(cs, a);
            seq![cs.subrange(a, b)] + tokens_from(cs, b)
        }
    }
}

/// The whitespace-separated tokens of `cs`.
pub open spec fn tokens(cs: Seq<char>) -> Seq<Seq<char>> {
    tokens_from(cs, 0)
}

/// Whether `c` is Unicode whitespace.
pub fn is_unicode_whitespace(c: char) -> (r: bool)
    ensures
        r == is_unicode_ws(c),
{
    ('\t' <= c && c <= '\r') || c == ' ' || c == '\u{85}' || c == '\u{A0}' || c == '\u{1680}'
        || ('\u{2000}' <= c && c <= '\u{200A}') || c == '\u{2028}' || c == '\u{2029}'
        || c == '\u{202F}' || c == '\u{205F}' || c == '\u{3000}'
}

/// Whether `c` is ASCII whitespace.
pub fn is_ascii_ws(c: char) -> (r: bool)
    ensures
        r == is_ws(c),
{
    c == ' ' || c == '\t' || c == '\n' || c == '\x0C' || c == '\r'
}

/// The end of `cs[a..b]` once trailing Unicode whitespace is dropped.
pub fn trim_end_index(cs: &Vec<char>, a: usize, b: usize) -> (e: usize)
    requires
        a <= b <= cs@.len(),
    ensures
        a <= e <= b,
        cs@.subrange(a as int, e as int) == trim_end_ws(cs@.subrange(a as int, b as int)),
{
    let mut e = b;
    while e > a && is_unicode_whitespace(cs[e - 1])
        invariant
            a <= e <= b <= cs@.len(),
            trim_end_ws(cs@.subrange(a as int, e as int)) == trim_end_ws(cs@.subrange(a as int, b as int)),
        decreases e,
    {
        assert(cs@.subrange(a as int, e as int).drop_last() =~= cs@.subrange(a as int, e - 1));
        e = e - 1;
    }
    e
}

/// The start of `cs[a..b]` once leading Unicode whitespace is dropped.
pub fn trim_start_index(cs: &Vec<char>, a: usize, b: usize) -> (s: usize)
    requires
        a <= b <= cs@.len(),
    ensures
        a <= s <= b,
        cs@.subrange(s as int, b as int) == trim_start_ws(cs@.subrange(a as int, b as int)),
{
    let mut s = a;
    while s < b && is_unicode_whitespace(cs[s])
        invariant
            a <= s <= b <= cs@.len(),
            trim_start_ws(cs@.subrange(s as int, b as int)) == trim_start_ws(cs@.subrange(a as int, b as int)),
        decreases b - s,
    {
        assert(cs@.subrange(s as int, b as int).drop_first() =~= cs@.subrange(s + 1, b as int));
        s = s + 1;
    }
    s
}

/// Where the blank line that separates head and body ends, if there is one.
fn find_blank_end(cs: &Vec<char>) -> (r: Option<usize>)
    ensures
        r matches Some(j) ==> blank_end(cs@) == Some(j as int),
        r is None ==> blank_end(cs@) is None,
{
    let n = cs.len();
    let mut i: usize = 0;
    while i < n
        invariant
            n == cs@.len(),
            i <= n,
            forall|k: int| 0 <= k < i ==> !is_blank_end(cs@, k),
        decreases n - i,
    {
        if cs[i] == '\n' && ((i >= 1 && cs[i - 1] == '\n') || (i >= 2 && cs[i - 1] == '\r' && cs[i - 2] == '\n')) {
            proof {
                assert(first_blank_end(cs@, i as int));
                let j = choose|j: int| first_blank_end(cs@, j);
                assert(j == i);
            }
            return Some(i);
        }
        i = i + 1;
    }
    None
}

/// The lines of `cs[..h]`, as ranges of `cs`.
fn line_ranges(cs: &Vec<char>, h: usize) -> (r: Vec<(usize, usize)>)
    requires
        h <= cs@.len(),
    ensures
        r@.len() == lines_of(cs@.take(h as int)).len(),
        forall|k: int| 0 <= k < r@.len() ==> {
            &&& (#[trigger] r@[k]).0 <= r@[k].1 <= h
            &&& cs@.subrange(r@[k].0 as int, r@[k].1 as int) == lines_of(cs@.take(h as int))[k]
        },
{
    let mut r: Vec<(usize, usize)> = Vec::new();
    let mut ls: usize = 0;
    let mut i: usize = 0;
    proof {
        assert(cs@.take(0) =~= Seq::<char>::empty());
        assert(cs@.subrange(0, 0) =~= Seq::<char>::empty());
    }
    while i < h
        invariant
            h <= cs@.len(),
            ls <= i <= h,
            split_lines(cs@.take(i as int)).len() == r@.len() + 1,
            split_lines(cs@.take(i as int)).last() == cs@.subrange(ls as int, i as int),
            forall|k: int| 0 <= k < r@.len() ==> {
                &&& (#[trigger] r@[k]).0 <= r@[k].1 <= ls
                &&& cs@.subrange(r@[k].0 as int, r@[k].1 as int) == strip_cr(split_lines(cs@.take(i as int))[k])
            },
        decreases h - i,
    {
        let ghost prev = split_lines(cs@.take(i as int));
        proof {
            assert(cs@.take(i + 1).drop_last() =~= cs@.take(i as int));
            lemma_split_lines_nonempty(cs@.take(i as int));
        }
        if cs[i] == '\n' {
            let e = if i > ls && cs[i - 1] == '\r' { i - 1 } else { i };
            proof {
                assert(cs@.subrange(ls as int, e as int) =~= strip_cr(cs@.subrange(ls as int, i as int)));
            }
            r.push((ls, e));
            ls = i + 1;
            proof {
                assert(cs@.subrange(ls as int, i + 1) =~= Seq::<char>::empty());
            }
        } else {
            proof {
                assert(cs@.subrange(ls as int, i + 1) =~= cs@.subrange(ls as int, i as int).push(cs@[i as int]));
            }
        }
        i = i + 1;
    }
    let ghost p = split_lines(cs@.take(h as int)).map_values(|l: Seq<char>| strip_cr(l));
    let e = if h > ls && cs[h - 1] == '\r' { h - 1 } else { h };
    proof {
        assert(cs@.subrange(ls as int, e as int) =~= strip_cr(cs@.subrange(ls as int, h as int)));
        assert(p.last() == cs@.subrange(ls as int, e as int));
    }
    if e > ls {
        r.push((ls, e));
    }
    proof {
        if e > ls {
            assert(lines_of(cs@.take(h as int)) == p);
        } else {
            assert(lines_of(cs@.take(h as int)) == p.drop_last());
        }
    }
    r
}

/// Splits a request into its request line (trailing whitespace dropped), its
/// header lines (carriage returns dropped) and its body: what follows the first
/// blank line, absent when there is no blank line or nothing after it.
pub fn parse_http_request(value: &str) -> (r: (String, Vec<String>, Option<&str>))
    ensures
        r.0@ == request_line(value@),
        r.1@.len() == header_lines(value@).len(),
        forall|k: int| 0 <= k < r.1@.len() ==> (#[trigger] r.1@[k])@ == header_lines(value@)[k],
        r.2 matches Some(b) ==> body_of(value@) == Some(b@),
        r.2 is None ==> body_of(value@) is None,
{
    let cs = chars_of(value);
    let n = cs.len();
    let blank = find_blank_end(&cs);
    let head_end: usize = match blank {
        Some(j) => if cs[j - 1] == '\r' { j - 1 } else { j },
        None => n,
    };
    proof {
        assert(cs@.take(head_end as int) == head_part(value@));
        assert(cs@.take(n as int) =~= cs@);
    }
    let ranges = line_ranges(&cs, head_end);
    let first = if ranges.len() > 0 {
        let (a, b) = ranges[0];
        let e = trim_end_index(&cs, a, b);
        value.substring_char(a, e).to_string()
    } else {
        String::new()
    };
    let mut headers: Vec<String> = Vec::new();
    let mut k: usize = 1;
    while k < ranges.len()
        invariant
            1 <= k <= ranges@.len() || (ranges@.len() == 0 && k == 1),
            ranges@.len() == head_lines(value@).len(),
            headers@.len() == k - 1,
            forall|m: int| 0 <= m < ranges@.len() ==> {
                &&& (#[trigger] ranges@[m]).0 <= ranges@[m].1 <= head_end
                &&& cs@.subrange(ranges@[m].0 as int, ranges@[m].1 as int) == head_lines(value@)[m]
            },
            head_end <= cs@.len(),
            cs@ == value@,
            forall|m: int| 0 <= m < headers@.len() ==> (#[trigger] headers@[m])@ == head_lines(value@)[m + 1],
        decreases ranges@.len() - k,
    {
        let (a, b) = ranges[k];
        headers.push(value.substring_char(a, b).to_string());
        k = k + 1;
    }
    let body = match blank {
        Some(j) => if j + 1 < n {
            Some(value.substring_char(j + 1, n))
        } else {
            None
        },
        None => None,
    };
    (first, headers, body)
}

/// Splits a header line at its first colon into a name, without trailing
/// whitespace, and a value, without leading whitespace. A line without a colon
/// is an error.
pub fn parse_header(value: &str) -> (r: Result<(String, String), &'static str>)
    ensures
        r is Err <==> header_of(value@) is None,
        r matches Ok(h) ==> header_of(value@) == Some((h.0@, h.1@)),
{
    let cs = chars_of(value);
    let n = cs.len();
    let mut i: usize = 0;
    while i < n
        invariant
            n == cs@.len(),
            cs@ == value@,
            i <= n,
            forall|k: int| 0 <= k < i ==> cs@[k] != ':',
        decreases n - i,
    {
        if cs[i] == ':' {
            proof {
                assert(is_first_index(cs@, ':', i as int));
                let j = choose|j: int| is_first_index(cs@, ':', j);
                assert(j == i);
            }
            let e = trim_end_index(&cs, 0, i);
            let s = trim_start_index(&cs, i + 1, n);
            proof {
                assert(cs@.subrange(0, i as int) =~= cs@.take(i as int));
                assert(cs@.subrange(i + 1, n as int) =~= cs@.skip(i + 1));
            }
            let name = value.substring_char(0, e).to_string();
            let val = value.substring_char(s, n).to_string();
            return Ok((name, val));
        }
        i = i + 1;
    }
    Err("The header parse error")
}

/// The first `limit` tokens of `cs` at most, as ranges of `cs`.
pub fn token_ranges(cs: &Vec<char>, limit: usize) -> (r: Vec<(usize, usize)>)
    ensures
        r@.len() <= limit,
        r@.len() == limit || r@.len() == tokens(cs@).len(),
        r@.len() <= tokens(cs@).len(),
        forall|k: int| 0 <= k < r@.len() ==> {
            &&& (#[trigger] r@[k]).0 <= r@[k].1 <= cs@.len()
            &&& cs@.subrange(r@[k].0 as int, r@[k].1 as int) == tokens(cs@)[k]
        },
{
    let n = cs.len();
    let mut r: Vec<(usize, usize)> = Vec::new();
    let mut i: usize = 0;
    let mut done = false;
    while !done && r.len() < limit
        invariant
            n == cs@.len(),
            i <= n,
            done ==> tokens_from(cs@, i as int) =~= Seq::<Seq<char>>::empty(),
            r@.len() <= limit,
            tokens(cs@) == r@.map_values(|p: (usize, usize)| cs@.subrange(p.0 as int, p.1 as int)) + tokens_from(cs@, i as int),
            forall|k: int| 0 <= k < r@.len() ==> (#[trigger] r@[k]).0 <= r@[k].1 <= cs@.len(),
        decreases limit - r@.len() + (if done { 0int } else { 1int }),
    {
        let mut a = i;
        while a < n && is_ascii_ws(cs[a])
            invariant
                i <= a <= n,
                n == cs@.len(),
                skip_ws(cs@, a as int) == skip_ws(cs@, i as int),
            decreases n - a,
        {
            a = a + 1;
        }
        if a >= n {
            done = true;
        } else {
            let mut b = a;
            while b < n && !is_ascii_ws(cs[b])
                invariant
                    a <= b <= n,
                    n == cs@.len(),
                    token_end(cs@, b as int) == token_end(cs@, a as int),
                decreases n - b,
            {
                b = b + 1;
            }
            let ghost before = r@;
            r.push((a, b));
            proof {
                assert(r@.map_values(|p: (usize, usize)| cs@.subrange(p.0 as int, p.1 as int))
                    =~= before.map_values(|p: (usize, usize)| cs@.subrange(p.0 as int, p.1 as int)).push(cs@.subrange(a as int, b as int)));
            }
            i = b;
        }
    }
    proof {
        let m = r@.map_values(|p: (usize, usize)| cs@.subrange(p.0 as int, p.1 as int));
        assert forall|k: int| 0 <= k < r@.len() implies cs@.subrange((#[trigger] r@[k]).0 as int, r@[k].1 as int) == tokens(cs@)[k] by {
            assert(m[k] == cs@.subrange(r@[k].0 as int, r@[k].1 as int));
        }
    }
    r
}

} // verus!
