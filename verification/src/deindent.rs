//! De-indentation of a block of text.

use vstd::prelude::*;
use vstd::string::StrSliceExecFns;
use vstd::string::StringExecFns;

use crate::text::after;
use crate::text::begins_with;
use crate::text::char_is_whitespace;
use crate::text::chars_of;
use crate::text::is_whitespace;

verus! {

/// `text` without its first character, if that is a newline.
pub open spec fn without_leading_newline(text: Seq<char>) -> Seq<char> {
    if begins_with(text, '\n') {
        after(text, 1)
    } else {
        text
    }
}

/// How many whitespace characters `text` ends with.
pub open spec fn trailing_whitespace(text: Seq<char>) -> nat
    decreases text.len(),
{
    if text.len() > 0 && is_whitespace(text.last()) {
        1 + trailing_whitespace(text.drop_last())
    } else {
        0
    }
}

/// `text` without the whitespace at its end.
pub open spec fn trimmed_end(text: Seq<char>) -> Seq<char> {
    text.take(text.len() - trailing_whitespace(text))
}

/// How many space characters `text` begins with.
pub open spec fn leading_spaces(text: Seq<char>) -> nat
    decreases text.len(),
{
    if text.len() > 0 && text[0] == ' ' {
        1 + leading_spaces(text.drop_first())
    } else {
        0
    }
}

/// The length of the first line of `text`: the position of its first
/// newline, or its length where it has none.
pub open spec fn line_length(text: Seq<char>) -> nat
    decreases text.len(),
{
    if text.len() == 0 || text[0] == '\n' {
        0
    } else {
        1 + line_length(text.drop_first())
    }
}

/// Whether `line` begins with `indent` space characters.
pub open spec fn has_indent(line: Seq<char>, indent: nat) -> bool {
    indent <= line.len() && forall|i: int| 0 <= i < indent ==> line[i] == ' '
}

/// `line` without the `indent` space characters it begins with, or `line`
/// itself if it does not begin with that many.
pub open spec fn without_indent(line: Seq<char>, indent: nat) -> Seq<char> {
    if has_indent(line, indent) {
        line.skip(indent as int)
    } else {
        line
    }
}

/// `line` without the carriage return at its end, if it has one.
pub open spec fn without_carriage_return(line: Seq<char>) -> Seq<char> {
    if line.len() > 0 && line.last() == '\r' {
        line.drop_last()
    } else {
        line
    }
}

/// The lines of `text`, each without the indentation `indent`, joined by
/// newlines. A line ends at a newline, or at a carriage return followed by
/// a newline; a newline at the very end of `text` begins no further line.
pub open spec fn deindented_lines(text: Seq<char>, indent: nat) -> Seq<char>
    decreases text.len(),
{
    if text.len() == 0 {
        Seq::empty()
    } else {
        let length = line_length(text);
        if length >= text.len() {
            without_indent(text, indent)
        } else {
            let line = without_indent(without_carriage_return(text.take(length as int)), indent);
            let rest = text.skip(length as int + 1);
            if rest.len() == 0 {
                line
            } else {
                line + seq!['\n'] + deindented_lines(rest, indent)
            }
        }
    }
}

/// `source` de-indented: one leading newline and the whitespace at the end
/// are dropped; then the run of spaces that the first line begins with is
/// taken off every line that begins with it.
pub open spec fn deindented(source: Seq<char>) -> Seq<char> {
    let body = trimmed_end(without_leading_newline(source));
    deindented_lines(body, leading_spaces(body))
}

proof fn lemma_trailing_whitespace(text: Seq<char>, kept: int)
    requires
        0 <= kept <= text.len(),
        forall|i: int| kept <= i < text.len() ==> is_whitespace(text[i]),
        kept > 0 ==> !is_whitespace(text[kept - 1]),
    ensures
        trailing_whitespace(text) == text.len() - kept,
    decreases text.len(),
{
    if kept < text.len() {
        lemma_trailing_whitespace(text.drop_last(), kept);
    }
}

proof fn lemma_leading_spaces(text: Seq<char>, count: int)
    requires
        0 <= count <= text.len(),
        forall|i: int| 0 <= i < count ==> text[i] == ' ',
        count < text.len() ==> text[count] != ' ',
    ensures
        leading_spaces(text) == count,
    decreases text.len(),
{
    if count > 0 {
        lemma_leading_spaces(text.drop_first(), count - 1);
    }
}

proof fn lemma_line_length(text: Seq<char>, length: int)
    requires
        0 <= length <= text.len(),
        forall|i: int| 0 <= i < length ==> text[i] != '\n',
        length < text.len() ==> text[length] == '\n',
    ensures
        line_length(text) == length,
    decreases text.len(),
{
    if length > 0 {
        lemma_line_length(text.drop_first(), length - 1);
    }
}

/// Where the body of the text begins and ends: after one leading newline
/// and before the whitespace at the end.
fn body_bounds(chars: &Vec<char>) -> (bounds: (usize, usize))
    ensures
        bounds.0 <= bounds.1 <= chars@.len(),
        chars@.subrange(bounds.0 as int, bounds.1 as int) == trimmed_end(
            without_leading_newline(chars@),
        ),
{
    let total = chars.len();
    let start: usize = if total > 0 && chars[0] == '\n' {
        1
    } else {
        0
    };
    let mut end: usize = total;
    while end > start && char_is_whitespace(chars[end - 1])
        invariant
            start <= end <= total,
            total == chars@.len(),
            forall|i: int| end <= i < total ==> is_whitespace(chars@[i]),
        decreases end,
    {
        end -= 1;
    }
    proof {
        let stripped = without_leading_newline(chars@);
        assert(stripped == chars@.skip(start as int));
        lemma_trailing_whitespace(stripped, end - start);
        assert(chars@.subrange(start as int, end as int) == trimmed_end(stripped));
    }
    (start, end)
}

/// How many spaces the text between `start` and `end` begins with.
fn count_spaces(chars: &Vec<char>, start: usize, end: usize) -> (count: usize)
    requires
        start <= end <= chars@.len(),
    ensures
        count == leading_spaces(chars@.subrange(start as int, end as int)),
{
    let mut count: usize = 0;
    while start + count < end && chars[start + count] == ' '
        invariant
            start <= start + count <= end <= chars@.len(),
            forall|i: int| start <= i < start + count ==> chars@[i] == ' ',
        decreases end - start - count,
    {
        count += 1;
    }
    proof {
        lemma_leading_spaces(chars@.subrange(start as int, end as int), count as int);
    }
    count
}

/// Where the line that begins at `at` stops: at its newline, or at `end`.
fn line_stop(chars: &Vec<char>, at: usize, end: usize) -> (stop: usize)
    requires
        at <= end <= chars@.len(),
    ensures
        at <= stop <= end,
        stop - at == line_length(chars@.subrange(at as int, end as int)),
        stop < end ==> chars@[stop as int] == '\n',
{
    let mut stop: usize = at;
    while stop < end && chars[stop] != '\n'
        invariant
            at <= stop <= end <= chars@.len(),
            forall|i: int| at <= i < stop ==> chars@[i] != '\n',
        decreases end - stop,
    {
        stop += 1;
    }
    proof {
        lemma_line_length(chars@.subrange(at as int, end as int), stop - at);
    }
    stop
}

/// Where the line between `at` and `line_end` begins once its indentation
/// is taken off.
fn after_indent(chars: &Vec<char>, at: usize, line_end: usize, indent: usize) -> (from: usize)
    requires
        at <= line_end <= chars@.len(),
    ensures
        at <= from <= line_end,
        chars@.subrange(from as int, line_end as int) == without_indent(
            chars@.subrange(at as int, line_end as int),
            indent as nat,
        ),
{
    let ghost line = chars@.subrange(at as int, line_end as int);
    let mut spaces: usize = 0;
    while spaces < indent && at + spaces < line_end && chars[at + spaces] == ' '
        invariant
            at <= at + spaces <= line_end <= chars@.len(),
            spaces <= indent,
            forall|i: int| at <= i < at + spaces ==> chars@[i] == ' ',
        decreases indent - spaces,
    {
        spaces += 1;
    }
    if spaces == indent {
        proof {
            assert forall|i: int| 0 <= i < indent implies line[i] == ' ' by {
                assert(line[i] == chars@[at + i]);
            }
            assert(chars@.subrange(at + indent, line_end as int) == line.skip(indent as int));
        }
        at + indent
    } else {
        proof {
            if has_indent(line, indent as nat) {
                assert(line[spaces as int] == ' ');
                assert(line[spaces as int] == chars@[at + spaces]);
            }
        }
        at
    }
}

/// What the first line of a text and the rest of it de-indent to.
proof fn lemma_deindented_lines_step(text: Seq<char>, indent: nat)
    requires
        text.len() > 0,
    ensures
        line_length(text) >= text.len() ==> deindented_lines(text, indent) == without_indent(
            text,
            indent,
        ),
        line_length(text) < text.len() && text.skip(line_length(text) as int + 1).len() == 0
            ==> deindented_lines(text, indent) == without_indent(
            without_carriage_return(text.take(line_length(text) as int)),
            indent,
        ),
        line_length(text) < text.len() && text.skip(line_length(text) as int + 1).len() > 0
            ==> deindented_lines(text, indent) == without_indent(
            without_carriage_return(text.take(line_length(text) as int)),
            indent,
        ) + seq!['\n'] + deindented_lines(text.skip(line_length(text) as int + 1), indent),
{
}

/// De-indents `source`.
pub fn deindent(source: &str) -> (text: String)
    ensures
        text@ == deindented(source@),
{
    let chars = chars_of(source);
    let (start, end) = body_bounds(&chars);
    let indent = count_spaces(&chars, start, end);
    let ghost body = chars@.subrange(start as int, end as int);
    let mut text = String::new();
    let mut at: usize = start;
    assert(body.skip(0) == body);
    while at < end
        invariant
            start <= at <= end <= chars@.len(),
            chars@ == source@,
            body == chars@.subrange(start as int, end as int),
            deindented_lines(body, indent as nat) == text@ + deindented_lines(
                body.skip(at - start),
                indent as nat,
            ),
        decreases end - at,
    {
        let ghost rest = body.skip(at - start);
        let ghost before = text@;
        let stop = line_stop(&chars, at, end);
        let line_end: usize = if stop < end && stop > at && chars[stop - 1] == '\r' {
            stop - 1
        } else {
            stop
        };
        let from = after_indent(&chars, at, line_end, indent);
        let ghost line = chars@.subrange(from as int, line_end as int);
        proof {
            assert(rest == chars@.subrange(at as int, end as int));
            lemma_deindented_lines_step(rest, indent as nat);
            if stop < end {
                assert(rest.take(stop - at) == chars@.subrange(at as int, stop as int));
                assert(chars@.subrange(at as int, line_end as int) == without_carriage_return(
                    rest.take(stop - at),
                ));
                assert(rest.skip(stop - at + 1) == body.skip(stop + 1 - start));
            } else {
                assert(chars@.subrange(at as int, line_end as int) == rest);
            }
        }
        let piece = source.substring_char(from, line_end);
        text.append(piece);
        assert(text@ == before + line);
        if stop < end {
            at = stop + 1;
            if at < end {
                text.append("\n");
                proof {
                    reveal_strlit("\n");
                    assert("\n"@ == seq!['\n']);
                    assert(text@ == before + line + seq!['\n']);
                }
            } else {
                assert(deindented_lines(body.skip(at - start), indent as nat) == Seq::<
                    char,
                >::empty());
            }
        } else {
            at = end;
            assert(deindented_lines(body.skip(at - start), indent as nat) == Seq::<char>::empty());
        }
    }
    assert(body.skip(at - start).len() == 0);
    text
}

} // verus!
