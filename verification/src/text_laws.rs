//! What holds of the text operations: of replacing, and of writing lines
//! out and reading them back.

use crate::line::{rendered, LineView};
use crate::text::{
    first_line_len, interleaved, lemma_first_line_len, lines_of, replaced, without_cr,
};
use vstd::prelude::*;

verus! {

/// Whether `pattern` occurs somewhere in `text`.
pub open spec fn occurs_in(pattern: Seq<char>, text: Seq<char>) -> bool {
    exists|at: int| 0 <= at <= text.len() && pattern.is_prefix_of(#[trigger] text.skip(at))
}

/// Whether `a` and `b` have no character in common.
pub open spec fn disjoint(a: Seq<char>, b: Seq<char>) -> bool {
    forall|i: int, j: int| 0 <= i < a.len() && 0 <= j < b.len() ==> a[i] != b[j]
}

/// Putting the empty text between the characters of a text changes nothing.
pub proof fn lemma_interleaved_with_nothing(text: Seq<char>)
    ensures
        interleaved(text, Seq::empty()) == text,
    decreases text.len(),
{
    if text.len() > 0 {
        lemma_interleaved_with_nothing(text.skip(1));
        assert(Seq::<char>::empty() + seq![text[0]] + text.skip(1) =~= text);
    } else {
        assert(text =~= Seq::<char>::empty());
    }
}

/// Replacing a token by itself changes nothing.
pub proof fn lemma_replaced_by_itself(text: Seq<char>, token: Seq<char>)
    ensures
        replaced(text, token, token) == text,
    decreases text.len(),
{
    if token.len() == 0 {
        lemma_interleaved_with_nothing(text);
        assert(token =~= Seq::<char>::empty());
    } else if token.is_prefix_of(text) {
        lemma_replaced_by_itself(text.skip(token.len() as int), token);
        assert(token + text.skip(token.len() as int) =~= text);
    } else if text.len() > 0 {
        lemma_replaced_by_itself(text.skip(1), token);
        assert(seq![text[0]] + text.skip(1) =~= text);
    }
}

/// A beginning of the replaced text that has no character of the
/// replacement is a beginning of the text itself.
proof fn lemma_untouched_prefix(text: Seq<char>, from: Seq<char>, to: Seq<char>, prefix: Seq<char>)
    requires
        from.len() > 0,
        to.len() > 0,
        disjoint(prefix, to),
        prefix.is_prefix_of(replaced(text, from, to)),
    ensures
        prefix.is_prefix_of(text),
    decreases text.len(),
{
    let out = replaced(text, from, to);
    if prefix.len() > 0 {
        assert(out[0] == prefix[0]);
        if from.is_prefix_of(text) {
            assert(out[0] == to[0]);
        } else if text.len() > 0 {
            let rest = replaced(text.skip(1), from, to);
            assert(out =~= seq![text[0]] + rest);
            assert forall|k: int| 0 <= k < prefix.len() - 1 implies prefix.skip(1)[k] == rest[k] by {
                assert(prefix[k + 1] == out[k + 1]);
            }
            assert(prefix.skip(1) =~= rest.subrange(0, prefix.len() - 1));
            lemma_untouched_prefix(text.skip(1), from, to, prefix.skip(1));
            assert forall|k: int| 0 <= k < prefix.len() implies prefix[k] == text[k] by {
                if k > 0 {
                    assert(prefix.skip(1)[k - 1] == text.skip(1)[k - 1]);
                }
            }
            assert(prefix =~= text.subrange(0, prefix.len() as int));
        }
    }
}

/// Where a token and what replaces it have no character in common, the
/// token does not occur in the replaced text.
pub proof fn lemma_replaced_has_no_token(text: Seq<char>, from: Seq<char>, to: Seq<char>)
    requires
        from.len() > 0,
        to.len() > 0,
        disjoint(from, to),
    ensures
        !occurs_in(from, replaced(text, from, to)),
    decreases text.len(),
{
    let out = replaced(text, from, to);
    assert forall|at: int| 0 <= at <= out.len() implies !from.is_prefix_of(
        #[trigger] out.skip(at),
    ) by {
        if from.is_prefix_of(out.skip(at)) {
            assert(out.skip(at)[0] == from[0]);
            if from.is_prefix_of(text) {
                let rest = replaced(text.skip(from.len() as int), from, to);
                lemma_replaced_has_no_token(text.skip(from.len() as int), from, to);
                if at < to.len() {
                    assert(out[at] == to[at]);
                } else {
                    assert(out.skip(at) =~= rest.skip(at - to.len()));
                }
            } else if text.len() > 0 {
                let rest = replaced(text.skip(1), from, to);
                lemma_replaced_has_no_token(text.skip(1), from, to);
                if at == 0 {
                    assert(out.skip(0) =~= out);
                    lemma_untouched_prefix(text, from, to, from);
                } else {
                    assert(out.skip(at) =~= rest.skip(at - 1));
                }
            }
        }
    }
}

/// The texts of `lines`, as a file holds them.
pub open spec fn line_texts(lines: Seq<LineView>) -> Seq<Seq<char>> {
    lines.map_values(|line: LineView| line.text())
}

/// Whether `text` can be a line of a file: it holds no line feed, and no
/// carriage return at its end.
pub open spec fn fits_a_line(text: Seq<char>) -> bool {
    &&& forall|k: int| 0 <= k < text.len() ==> text[k] != '\n'
    &&& text.len() > 0 ==> text.last() != '\r'
}

/// Whether every line of `text` ends with a line feed, and none with a
/// carriage return before it.
pub open spec fn ends_lines_plainly(text: Seq<char>) -> bool {
    &&& text.len() > 0 ==> text.last() == '\n'
    &&& forall|k: int| 0 < k < text.len() && #[trigger] text[k] == '\n' ==> text[k - 1] != '\r'
}

/// The text of a file begins with its first line.
pub proof fn lemma_rendered_from_first(first: LineView, rest: Seq<LineView>)
    ensures
        rendered(seq![first] + rest) == first.text() + "\n"@ + rendered(rest),
    decreases rest.len(),
{
    let whole = seq![first] + rest;
    if rest.len() == 0 {
        assert(whole.drop_last() =~= Seq::<LineView>::empty());
        assert(whole.last() == first);
        assert(rendered(whole.drop_last()) =~= Seq::<char>::empty());
        assert(rendered(rest) =~= Seq::<char>::empty());
        assert(rendered(whole) =~= first.text() + "\n"@ + rendered(rest));
    } else {
        assert(whole.drop_last() =~= seq![first] + rest.drop_last());
        assert(whole.last() == rest.last());
        lemma_rendered_from_first(first, rest.drop_last());
        assert(rendered(whole) =~= first.text() + "\n"@ + rendered(rest));
    }
}

/// The first line of a text ends at the first line feed.
pub proof fn lemma_first_line(text: Seq<char>)
    ensures
        first_line_len(text) <= text.len(),
        forall|k: int| 0 <= k < first_line_len(text) ==> text[k] != '\n',
        first_line_len(text) < text.len() ==> text[first_line_len(text) as int] == '\n',
    decreases text.len(),
{
    if text.len() > 0 && text[0] != '\n' {
        lemma_first_line(text.skip(1));
        assert forall|k: int| 0 <= k < first_line_len(text) implies text[k] != '\n' by {
            if k > 0 {
                assert(text[k] == text.skip(1)[k - 1]);
            }
        }
    }
}

/// A file that is written out and read again has the lines that were
/// written: where each of the lines can be a line of a file, the lines of
/// the text of the file are the texts of the lines.
pub proof fn lemma_rendered_lines_are_read_back(lines: Seq<LineView>)
    requires
        forall|k: int| 0 <= k < lines.len() ==> fits_a_line(#[trigger] lines[k].text()),
    ensures
        lines_of(rendered(lines)) == line_texts(lines),
    decreases lines.len(),
{
    reveal_strlit("\n");
    if lines.len() == 0 {
        assert(lines_of(rendered(lines)) =~= line_texts(lines));
    } else {
        let first = lines[0];
        let rest = lines.skip(1);
        assert(seq![first] + rest =~= lines);
        lemma_rendered_from_first(first, rest);
        assert forall|k: int| 0 <= k < rest.len() implies fits_a_line(
            #[trigger] rest[k].text(),
        ) by {
            assert(rest[k] == lines[k + 1]);
        }
        lemma_rendered_lines_are_read_back(rest);
        let text = rendered(lines);
        let n = first.text().len() as int;
        assert(fits_a_line(lines[0].text()));
        assert(text =~= first.text() + seq!['\n'] + rendered(rest));
        lemma_first_line_len(text, n);
        assert(text.take(n) =~= first.text());
        assert(text.skip(n + 1) =~= rendered(rest));
        assert(without_cr(first.text()) == first.text());
        assert(lines_of(text) =~= seq![first.text()] + lines_of(rendered(rest)));
        assert(line_texts(lines) =~= seq![first.text()] + line_texts(rest));
    }
}

/// A file whose lines are kept as they are is written out as it was read:
/// where every line of `text` ends with a line feed, and none with a
/// carriage return before it, lines that have the texts of the lines of
/// `text` are written out as `text`.
pub proof fn lemma_kept_lines_are_the_text(text: Seq<char>, lines: Seq<LineView>)
    requires
        ends_lines_plainly(text),
        line_texts(lines) == lines_of(text),
    ensures
        rendered(lines) == text,
    decreases text.len(),
{
    reveal_strlit("\n");
    lemma_first_line(text);
    let n = first_line_len(text) as int;
    if text.len() == 0 {
        assert(line_texts(lines).len() == 0);
        assert(lines =~= Seq::<LineView>::empty());
        assert(rendered(lines) =~= text);
    } else {
        assert(n < text.len());
        let after = text.skip(n + 1);
        assert(line_texts(lines).len() == lines.len());
        assert(lines.len() > 0);
        let first = lines[0];
        let rest = lines.skip(1);
        assert(seq![first] + rest =~= lines);
        lemma_rendered_from_first(first, rest);
        assert(line_texts(lines)[0] == first.text());
        assert(without_cr(text.take(n)) == text.take(n)) by {
            if n > 0 {
                assert(text.take(n).last() == text[n - 1]);
            }
        }
        assert(first.text() == text.take(n));
        assert(line_texts(rest) =~= lines_of(after)) by {
            assert(lines_of(text) =~= seq![text.take(n)] + lines_of(after));
            assert forall|k: int| 0 <= k < rest.len() implies line_texts(rest)[k] == lines_of(
                after,
            )[k] by {
                assert(line_texts(rest)[k] == line_texts(lines)[k + 1]);
            }
        }
        assert(ends_lines_plainly(after)) by {
            if after.len() > 0 {
                assert(after.last() == text.last());
            }
            assert forall|k: int| 0 < k < after.len() && #[trigger] after[k] == '\n' implies after[k
                - 1] != '\r' by {
                assert(after[k] == text[n + 1 + k]);
                assert(after[k - 1] == text[n + k]);
            }
        }
        lemma_kept_lines_are_the_text(after, rest);
        assert(text =~= text.take(n) + seq!['\n'] + after);
    }
}

} // verus!
