//! Text operations on which the rest of the crate is built.

use vstd::prelude::*;
use vstd::std_specs::iter::IteratorSpec;
use vstd::string::*;

verus! {

/// `String::push` appends one character to the end of the string.
pub assume_specification[ String::push ](s: &mut String, c: char)
    ensures
        final(s)@ == old(s)@.push(c),
;

/// The characters of `s`, in order.
pub fn chars_of(s: &str) -> (v: Vec<char>)
    ensures
        v@ == s@,
{
    let mut v: Vec<char> = Vec::new();
    let mut it = s.chars();
    loop
        invariant
            it.obeys_prophetic_iter_laws(),
            v@ + it.remaining() == s@,
        ensures
            v@ == s@,
        decreases s@.len() - v@.len(),
    {
        match it.next() {
            Some(c) => {
                v.push(c);
            },
            None => {
                assert(v@ + it.remaining() =~= v@);
                break;
            },
        }
    }
    v
}

/// The string made of the characters of `v`, in order.
pub fn string_of(v: &Vec<char>) -> (s: String)
    ensures
        s@ == v@,
{
    let mut s = String::new();
    let mut i: usize = 0;
    while i < v.len()
        invariant
            i <= v.len(),
            s@ == v@.take(i as int),
        decreases v.len() - i,
    {
        s.push(v[i]);
        i = i + 1;
        assert(v@.take(i as int) == v@.take(i - 1).push(v@[i - 1]));
    }
    assert(v@.take(v.len() as int) == v@);
    s
}

/// Appends the characters of `more` to `out`.
pub fn push_all(out: &mut Vec<char>, more: &Vec<char>)
    ensures
        final(out)@ == old(out)@ + more@,
{
    let mut i: usize = 0;
    while i < more.len()
        invariant
            i <= more.len(),
            out@ == old(out)@ + more@.take(i as int),
        decreases more.len() - i,
    {
        out.push(more[i]);
        i = i + 1;
        assert(more@.take(i as int) == more@.take(i - 1).push(more@[i - 1]));
    }
    assert(more@.take(more.len() as int) == more@);
}

/// Whether `pattern` stands in `text` at position `at`.
pub fn matches_at(text: &Vec<char>, at: usize, pattern: &Vec<char>) -> (r: bool)
    requires
        at <= text.len(),
    ensures
        r == pattern@.is_prefix_of(text@.skip(at as int)),
{
    if pattern.len() > text.len() - at {
        return false;
    }
    let mut j: usize = 0;
    while j < pattern.len()
        invariant
            j <= pattern.len(),
            at + pattern.len() <= text.len(),
            forall|k: int| 0 <= k < j ==> pattern@[k] == text@[at + k],
        decreases pattern.len() - j,
    {
        if pattern[j] != text[at + j] {
            assert(text@.skip(at as int)[j as int] != pattern@[j as int]);
            return false;
        }
        j = j + 1;
    }
    assert(pattern@ =~= text@.skip(at as int).subrange(0, pattern@.len() as int));
    true
}

/// `text` with `between` put before each character and after the last one.
pub open spec fn interleaved(text: Seq<char>, between: Seq<char>) -> Seq<char>
    decreases text.len(),
{
    if text.len() == 0 {
        between
    } else {
        between + seq![text[0]] + interleaved(text.skip(1), between)
    }
}

/// `text` with every occurrence of `from` replaced by `to`. Occurrences are
/// found from the left and do not overlap; an empty `from` occurs before each
/// character and at the end.
pub open spec fn replaced(text: Seq<char>, from: Seq<char>, to: Seq<char>) -> Seq<char>
    decreases text.len(),
{
    if from.len() == 0 {
        interleaved(text, to)
    } else if from.is_prefix_of(text) {
        to + replaced(text.skip(from.len() as int), from, to)
    } else if text.len() == 0 {
        text
    } else {
        seq![text[0]] + replaced(text.skip(1), from, to)
    }
}

/// Replaces every occurrence of `from` in `text` by `to`.
pub fn replace_all(text: &str, from: &str, to: &str) -> (r: String)
    ensures
        r@ == replaced(text@, from@, to@),
{
    let t = chars_of(text);
    let f = chars_of(from);
    let w = chars_of(to);
    let mut out: Vec<char> = Vec::new();
    let mut i: usize = 0;
    assert(t@.skip(0) == t@);
    assert(out@ + replaced(t@, f@, w@) =~= replaced(t@, f@, w@));
    if f.len() == 0 {
        while i < t.len()
            invariant
                i <= t.len(),
                f@.len() == 0,
                out@ + interleaved(t@.skip(i as int), w@) == interleaved(t@, w@),
            decreases t.len() - i,
        {
            let ghost rest = t@.skip(i as int);
            let ghost before = out@;
            push_all(&mut out, &w);
            out.push(t[i]);
            i = i + 1;
            assert(rest.skip(1) == t@.skip(i as int));
            assert(out@ + interleaved(t@.skip(i as int), w@) =~= before + interleaved(rest, w@));
        }
        push_all(&mut out, &w);
    } else {
        while i < t.len()
            invariant
                i <= t.len(),
                f@.len() > 0,
                out@ + replaced(t@.skip(i as int), f@, w@) == replaced(t@, f@, w@),
            decreases t.len() - i,
        {
            let ghost rest = t@.skip(i as int);
            let ghost before = out@;
            if matches_at(&t, i, &f) {
                push_all(&mut out, &w);
                i = i + f.len();
                assert(rest.skip(f@.len() as int) == t@.skip(i as int));
            } else {
                out.push(t[i]);
                i = i + 1;
                assert(rest.skip(1) == t@.skip(i as int));
            }
            assert(out@ + replaced(t@.skip(i as int), f@, w@) =~= before + replaced(rest, f@, w@));
        }
        assert(out@ + replaced(t@.skip(i as int), f@, w@) =~= out@);
    }
    string_of(&out)
}

/// Whether `text` begins with `prefix`.
pub fn starts_with(text: &str, prefix: &str) -> (r: bool)
    ensures
        r == prefix@.is_prefix_of(text@),
{
    let t = chars_of(text);
    let p = chars_of(prefix);
    assert(t@.skip(0) == t@);
    matches_at(&t, 0, &p)
}

/// Whether `c` has the Unicode property White_Space: the controls from the
/// tabulator to the carriage return, the space, the next line control, the no
/// break space, the ogham space mark, the spaces from the en quad to the hair
/// space, the line and the paragraph separator, the narrow no break space, the
/// medium mathematical space and the ideographic space.
pub open spec fn white_space(c: char) -> bool {
    let code: u32 = c as u32;
    ||| 0x0009 <= code <= 0x000D
    ||| code == 0x0020
    ||| code == 0x0085
    ||| code == 0x00A0
    ||| code == 0x1680
    ||| 0x2000 <= code <= 0x200A
    ||| code == 0x2028
    ||| code == 0x2029
    ||| code == 0x202F
    ||| code == 0x205F
    ||| code == 0x3000
}

/// Whether `c` is white space.
pub fn is_white_space(c: char) -> (r: bool)
    ensures
        r == white_space(c),
{
    let code: u32 = c as u32;
    (0x0009 <= code && code <= 0x000D) || code == 0x0020 || code == 0x0085 || code == 0x00A0
        || code == 0x1680 || (0x2000 <= code && code <= 0x200A) || code == 0x2028 || code
        == 0x2029 || code == 0x202F || code == 0x205F || code == 0x3000
}

/// `text` without its leading white space.
pub open spec fn trimmed_start(text: Seq<char>) -> Seq<char>
    decreases text.len(),
{
    if text.len() > 0 && white_space(text[0]) {
        trimmed_start(text.skip(1))
    } else {
        text
    }
}

/// `text` without its trailing white space.
pub open spec fn trimmed_end(text: Seq<char>) -> Seq<char>
    decreases text.len(),
{
    if text.len() > 0 && white_space(text.last()) {
        trimmed_end(text.drop_last())
    } else {
        text
    }
}

/// `text` without its leading and trailing white space.
pub open spec fn trimmed(text: Seq<char>) -> Seq<char> {
    trimmed_end(trimmed_start(text))
}

/// The characters of `text` from position `from` up to, not including, `to`.
pub fn string_of_range(text: &Vec<char>, from: usize, to: usize) -> (r: String)
    requires
        from <= to <= text.len(),
    ensures
        r@ == text@.subrange(from as int, to as int),
{
    let mut r = String::new();
    let mut i: usize = from;
    while i < to
        invariant
            from <= i <= to <= text.len(),
            r@ == text@.subrange(from as int, i as int),
        decreases to - i,
    {
        r.push(text[i]);
        i = i + 1;
        assert(text@.subrange(from as int, i as int) == text@.subrange(from as int, i - 1).push(
            text@[i - 1],
        ));
    }
    r
}

/// Removes leading and trailing white space.
pub fn trim(text: &str) -> (r: String)
    ensures
        r@ == trimmed(text@),
{
    let t = chars_of(text);
    let mut start: usize = 0;
    assert(t@.skip(0) == t@);
    while start < t.len() && is_white_space(t[start])
        invariant
            start <= t.len(),
            trimmed_start(t@) == trimmed_start(t@.skip(start as int)),
        decreases t.len() - start,
    {
        assert(t@.skip(start as int).skip(1) == t@.skip(start + 1));
        start = start + 1;
    }
    assert(trimmed_start(t@) == t@.skip(start as int));
    let mut end: usize = t.len();
    assert(t@.subrange(start as int, end as int) == t@.skip(start as int));
    while end > start && is_white_space(t[end - 1])
        invariant
            start <= end <= t.len(),
            trimmed(t@) == trimmed_end(t@.subrange(start as int, end as int)),
        decreases end - start,
    {
        assert(t@.subrange(start as int, end as int).drop_last() == t@.subrange(
            start as int,
            end - 1,
        ));
        end = end - 1;
    }
    string_of_range(&t, start, end)
}

/// Whether `a` and `b` are the same text.
pub fn same(a: &str, b: &str) -> (r: bool)
    ensures
        r == (a@ == b@),
{
    let left = a.to_owned();
    let right = b.to_owned();
    left == right
}

/// `a` followed by `b`.
pub fn chain(a: &str, b: &str) -> (r: String)
    ensures
        r@ == a@ + b@,
{
    let mut r = a.to_owned();
    r.append(b);
    r
}

/// `a`, `b` and `c`, one after the other.
pub fn chain3(a: &str, b: &str, c: &str) -> (r: String)
    ensures
        r@ == a@ + b@ + c@,
{
    let mut r = a.to_owned();
    r.append(b);
    r.append(c);
    r
}

/// The texts of a sequence of strings.
pub open spec fn texts(strings: Seq<String>) -> Seq<Seq<char>> {
    strings.map_values(|s: String| s@)
}

/// How many characters stand before the first line feed of `text`; its length
/// where it has none.
pub open spec fn first_line_len(text: Seq<char>) -> nat
    decreases text.len(),
{
    if text.len() == 0 || text[0] == '\n' {
        0
    } else {
        1 + first_line_len(text.skip(1))
    }
}

/// `line` without the carriage return at its end, if it has one.
pub open spec fn without_cr(line: Seq<char>) -> Seq<char> {
    if line.len() > 0 && line.last() == '\r' {
        line.drop_last()
    } else {
        line
    }
}

/// The lines of `text`. A line ends at a line feed, or at a carriage return
/// directly before one; neither belongs to the line. What follows the last
/// line feed is a line only if it is not empty.
pub open spec fn lines_of(text: Seq<char>) -> Seq<Seq<char>>
    decreases text.len(),
{
    let n = first_line_len(text) as int;
    if text.len() == 0 {
        Seq::empty()
    } else if n >= text.len() {
        seq![text]
    } else {
        seq![without_cr(text.take(n))] + lines_of(text.skip(n + 1))
    }
}

/// `first_line_len` is `n` when the first line feed of `text` stands at `n`,
/// or when `text` has `n` characters and no line feed.
pub proof fn lemma_first_line_len(text: Seq<char>, n: int)
    requires
        0 <= n <= text.len(),
        forall|k: int| 0 <= k < n ==> text[k] != '\n',
        n == text.len() || text[n] == '\n',
    ensures
        first_line_len(text) == n,
    decreases n,
{
    if n > 0 {
        lemma_first_line_len(text.skip(1), n - 1);
    }
}

/// Splits `text` into its lines.
pub fn split_lines(text: &str) -> (r: Vec<String>)
    ensures
        texts(r@) == lines_of(text@),
{
    let t = chars_of(text);
    let mut out: Vec<String> = Vec::new();
    let mut start: usize = 0;
    let mut i: usize = 0;
    assert(t@.skip(0) == t@);
    assert(texts(out@) + lines_of(t@) =~= lines_of(t@));
    while i < t.len()
        invariant
            start <= i <= t.len(),
            texts(out@) + lines_of(t@.skip(start as int)) == lines_of(t@),
            forall|k: int| start <= k < i ==> t@[k] != '\n',
        decreases t.len() - i,
    {
        if t[i] == '\n' {
            let ghost rest = t@.skip(start as int);
            let ghost before = out@;
            proof {
                lemma_first_line_len(rest, i - start);
            }
            let mut end: usize = i;
            if end > start && t[end - 1] == '\r' {
                end = end - 1;
            }
            let line = string_of_range(&t, start, end);
            assert(rest.take(i - start) == t@.subrange(start as int, i as int));
            assert(line@ == without_cr(rest.take(i - start))) by {
                if i > start && t@[i - 1] == '\r' {
                    assert(t@.subrange(start as int, i as int).drop_last() == t@.subrange(
                        start as int,
                        i - 1,
                    ));
                }
            }
            out.push(line);
            assert(rest.skip(i - start + 1) == t@.skip(i + 1));
            start = i + 1;
            assert(texts(out@) =~= texts(before) + seq![line@]);
            assert(texts(out@) + lines_of(t@.skip(start as int)) =~= texts(before) + lines_of(rest));
        }
        i = i + 1;
    }
    if start < t.len() {
        let ghost rest = t@.skip(start as int);
        let ghost before = out@;
        proof {
            lemma_first_line_len(rest, t@.len() - start);
        }
        let line = string_of_range(&t, start, t.len());
        assert(line@ == rest);
        out.push(line);
        assert(texts(out@) =~= texts(before) + seq![rest]);
    } else {
        assert(texts(out@) + lines_of(t@.skip(start as int)) =~= texts(out@));
    }
    out
}

/// The part of `path` up to and including its last `/`; empty where it has none.
pub open spec fn dir_prefix(path: Seq<char>) -> Seq<char>
    decreases path.len(),
{
    if path.len() == 0 || path.last() == '/' {
        path
    } else {
        dir_prefix(path.drop_last())
    }
}

/// The directory part of `path`, with the `/` that ends it.
pub fn dir_of(path: &str) -> (r: String)
    ensures
        r@ == dir_prefix(path@),
{
    let t = chars_of(path);
    let mut end: usize = t.len();
    assert(t@.take(end as int) == t@);
    while end > 0 && t[end - 1] != '/'
        invariant
            end <= t.len(),
            dir_prefix(t@) == dir_prefix(t@.take(end as int)),
        decreases end,
    {
        assert(t@.take(end as int).drop_last() == t@.take(end - 1));
        end = end - 1;
    }
    string_of_range(&t, 0, end)
}

} // verus!
