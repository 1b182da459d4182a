//! The shape of the markup that the highlighting engine writes: text
//! without angle brackets between `<pre>` and `<span>` tags that carry one
//! quoted `style` attribute, never more than two of them open at once.

use vstd::prelude::*;

use crate::text::chars_of;

verus! {

/// The characters of which the engine makes a style: lower-case letters,
/// digits, and `#`, `-`, `:` and `;`.
pub open spec fn is_style_char(c: char) -> bool {
    let n = c as u32;
    ||| 0x61 <= n <= 0x7A
    ||| 0x30 <= n <= 0x39
    ||| c == '#'
    ||| c == '-'
    ||| c == ':'
    ||| c == ';'
}

/// Whether `tag`, the text between `<` and `>`, is `opening`, a style, and
/// a closing double quote.
pub open spec fn styled_tag(tag: Seq<char>, opening: Seq<char>) -> bool {
    &&& tag.len() > opening.len()
    &&& tag.take(opening.len() as int) == opening
    &&& tag.last() == '"'
    &&& forall|i: int| opening.len() <= i < tag.len() - 1 ==> is_style_char(#[trigger] tag[i])
}

/// Whether `tag`, the text between `<` and `>`, is one of the two closing
/// tags of the engine.
pub open spec fn closing_tag(tag: Seq<char>) -> bool {
    tag == "/pre"@ || tag == "/span"@
}

/// Whether `tag`, the text between `<` and `>`, is one of the two opening
/// tags of the engine.
pub open spec fn opening_tag(tag: Seq<char>) -> bool {
    styled_tag(tag, "pre style=\""@) || styled_tag(tag, "span style=\""@)
}

/// How many elements the engine has open at once, at most: a `<span>`
/// within the `<pre>`.
pub const MAX_OPEN: usize = 2;

/// How many characters stand before the first `>` of `text`.
pub open spec fn tag_length(text: Seq<char>) -> nat
    decreases text.len(),
{
    if text.len() == 0 || text[0] == '>' {
        0
    } else {
        1 + tag_length(text.drop_first())
    }
}

/// Whether `html`, read with `open` elements open before it, is made of
/// nothing but text without angle brackets and the tags of the engine,
/// with never more than `MAX_OPEN` elements open and none closed that was
/// not opened.
pub open spec fn plain_from(html: Seq<char>, open: nat) -> bool
    decreases html.len(),
{
    if html.len() == 0 {
        true
    } else if html[0] == '>' {
        false
    } else if html[0] != '<' {
        plain_from(html.drop_first(), open)
    } else {
        let inside = html.drop_first();
        let length = tag_length(inside);
        let tag = inside.take(length as int);
        let rest = inside.skip(length as int + 1);
        length < inside.len() && if closing_tag(tag) {
            open > 0 && plain_from(rest, (open - 1) as nat)
        } else {
            opening_tag(tag) && open < MAX_OPEN && plain_from(rest, open + 1)
        }
    }
}

/// Whether `html` has the plain shape of the engine's markup.
pub open spec fn plain_fragment(html: Seq<char>) -> bool {
    plain_from(html, 0)
}

proof fn lemma_tag_length(text: Seq<char>, length: int)
    requires
        0 <= length <= text.len(),
        forall|i: int| 0 <= i < length ==> text[i] != '>',
        length < text.len() ==> text[length] == '>',
    ensures
        tag_length(text) == length,
    decreases text.len(),
{
    if length > 0 {
        lemma_tag_length(text.drop_first(), length - 1);
    }
}

fn style_char(c: char) -> (yes: bool)
    ensures
        yes == is_style_char(c),
{
    let n: u32 = c as u32;
    (0x61 <= n && n <= 0x7A) || (0x30 <= n && n <= 0x39) || c == '#' || c == '-' || c == ':' || c
        == ';'
}

/// Whether the characters from `from` on begin with `prefix`, before `to`.
fn begins_at(chars: &Vec<char>, from: usize, to: usize, prefix: &Vec<char>) -> (yes: bool)
    requires
        from <= to <= chars@.len(),
    ensures
        yes == (to - from >= prefix@.len() && chars@.subrange(from as int, to as int).take(
            prefix@.len() as int,
        ) == prefix@),
{
    if to - from < prefix.len() {
        return false;
    }
    let ghost tag = chars@.subrange(from as int, to as int);
    let mut i: usize = 0;
    while i < prefix.len()
        invariant
            i <= prefix.len() <= to - from,
            from <= to <= chars@.len(),
            tag == chars@.subrange(from as int, to as int),
            forall|j: int| 0 <= j < i ==> tag[j] == prefix@[j],
        decreases prefix.len() - i,
    {
        if chars[from + i] != prefix[i] {
            assert(tag.take(prefix@.len() as int)[i as int] != prefix@[i as int]);
            return false;
        }
        i += 1;
    }
    assert(tag.take(prefix@.len() as int) == prefix@);
    true
}

/// Whether the characters between `from` and `to` are `opening`, a style,
/// and a closing double quote.
fn is_styled_tag(chars: &Vec<char>, from: usize, to: usize, opening: &str) -> (yes: bool)
    requires
        from <= to <= chars@.len(),
    ensures
        yes == styled_tag(chars@.subrange(from as int, to as int), opening@),
{
    let ghost tag = chars@.subrange(from as int, to as int);
    let prefix = chars_of(opening);
    if !begins_at(chars, from, to, &prefix) {
        return false;
    }
    if to - from <= prefix.len() || chars[to - 1] != '"' {
        return false;
    }
    let mut i: usize = from + prefix.len();
    while i < to - 1
        invariant
            from + prefix.len() <= i <= to - 1,
            from <= to <= chars@.len(),
            prefix@ == opening@,
            tag == chars@.subrange(from as int, to as int),
            forall|j: int| prefix@.len() <= j < i - from ==> is_style_char(#[trigger] tag[j]),
        decreases to - i,
    {
        if !style_char(chars[i]) {
            assert(!is_style_char(tag[i - from]));
            return false;
        }
        i += 1;
    }
    true
}

/// Whether the characters between `from` and `to` are exactly `literal`.
fn is_tag(chars: &Vec<char>, from: usize, to: usize, literal: &str) -> (yes: bool)
    requires
        from <= to <= chars@.len(),
    ensures
        yes == (chars@.subrange(from as int, to as int) == literal@),
{
    let whole = chars_of(literal);
    let ghost tag = chars@.subrange(from as int, to as int);
    if to - from != whole.len() {
        return false;
    }
    assert(tag.take(whole@.len() as int) == tag);
    begins_at(chars, from, to, &whole)
}

/// Whether the characters between `from` and `to` are a closing tag.
fn is_closing_tag(chars: &Vec<char>, from: usize, to: usize) -> (yes: bool)
    requires
        from <= to <= chars@.len(),
    ensures
        yes == closing_tag(chars@.subrange(from as int, to as int)),
{
    is_tag(chars, from, to, "/pre") || is_tag(chars, from, to, "/span")
}

/// Whether the characters between `from` and `to` are an opening tag.
fn is_opening_tag(chars: &Vec<char>, from: usize, to: usize) -> (yes: bool)
    requires
        from <= to <= chars@.len(),
    ensures
        yes == opening_tag(chars@.subrange(from as int, to as int)),
{
    is_styled_tag(chars, from, to, "pre style=\"") || is_styled_tag(
        chars,
        from,
        to,
        "span style=\"",
    )
}

/// Whether `html` has the plain shape of the engine's markup.
pub fn is_plain_fragment(html: &str) -> (plain: bool)
    ensures
        plain == plain_fragment(html@),
{
    let chars = chars_of(html);
    let mut at: usize = 0;
    let mut open: usize = 0;
    assert(chars@.skip(0) == chars@);
    while at < chars.len()
        invariant
            at <= chars@.len(),
            open <= MAX_OPEN,
            chars@ == html@,
            plain_fragment(html@) == plain_from(chars@.skip(at as int), open as nat),
        decreases chars.len() - at,
    {
        let ghost rest = chars@.skip(at as int);
        assert(rest[0] == chars@[at as int]);
        assert(rest.drop_first() == chars@.skip(at + 1));
        let c = chars[at];
        if c == '>' {
            return false;
        }
        if c != '<' {
            at += 1;
        } else {
            let ghost inside = rest.drop_first();
            let mut stop: usize = at + 1;
            while stop < chars.len() && chars[stop] != '>'
                invariant
                    at < stop <= chars@.len(),
                    forall|i: int| at < i < stop ==> chars@[i] != '>',
                decreases chars.len() - stop,
            {
                stop += 1;
            }
            proof {
                lemma_tag_length(inside, stop - at - 1);
                assert(inside.take(stop - at - 1) == chars@.subrange(at + 1, stop as int));
            }
            if stop >= chars.len() {
                return false;
            }
            proof {
                assert(inside.skip(stop - at - 1 + 1) == chars@.skip(stop + 1));
            }
            if is_closing_tag(&chars, at + 1, stop) {
                if open == 0 {
                    return false;
                }
                open -= 1;
            } else {
                if !is_opening_tag(&chars, at + 1, stop) || open >= MAX_OPEN {
                    return false;
                }
                open += 1;
            }
            at = stop + 1;
        }
    }
    assert(chars@.skip(at as int).len() == 0);
    true
}

} // verus!
