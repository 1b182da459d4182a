//! Small verified helpers over `str`, stated over the `Seq<char>` view.

use vstd::prelude::*;
use vstd::string::StrSliceExecFns;
use vstd::string::StringExecFns;
use vstd::string::StringSliceAdditionalSpecFns;
use vstd::utf8::encode_utf8_decode_utf8;

verus! {

/// Whether `text` begins with the character `c`.
pub open spec fn begins_with(text: Seq<char>, c: char) -> bool {
    text.len() > 0 && text[0] == c
}

/// The characters of `text` after the first `n`.
pub open spec fn after(text: Seq<char>, n: int) -> Seq<char>
    recommends
        0 <= n <= text.len(),
{
    text.subrange(n, text.len() as int)
}

/// Equality of two string slices, decided on their UTF-8 bytes.
pub fn str_eq(a: &str, b: &str) -> (same: bool)
    ensures
        same == (a@ == b@),
{
    let x = a.as_bytes();
    let y = b.as_bytes();
    proof {
        encode_utf8_decode_utf8(a@);
        encode_utf8_decode_utf8(b@);
    }
    if x.len() != y.len() {
        return false;
    }
    let mut i: usize = 0;
    while i < x.len()
        invariant
            i <= x.len(),
            x.len() == y.len(),
            x@ == a.spec_bytes(),
            y@ == b.spec_bytes(),
            x@.take(i as int) == y@.take(i as int),
        decreases x.len() - i,
    {
        if x[i] != y[i] {
            assert(x@[i as int] != y@[i as int]);
            return false;
        }
        assert(x@.take(i + 1) == x@.take(i as int).push(x@[i as int]));
        assert(y@.take(i + 1) == y@.take(i as int).push(y@[i as int]));
        i += 1;
    }
    assert(x@ == x@.take(x.len() as int));
    assert(y@ == y@.take(y.len() as int));
    true
}

/// Whether `text` begins with the character `c`.
pub fn starts_with_char(text: &str, c: char) -> (yes: bool)
    ensures
        yes == begins_with(text@, c),
{
    !text.is_empty() && text.get_char(0) == c
}

/// The text after its first character; an empty text stays as it is.
pub fn without_first_char(text: &str) -> (rest: &str)
    ensures
        rest@ == if text@.len() > 0 {
            after(text@, 1)
        } else {
            text@
        },
{
    if text.is_empty() {
        return text;
    }
    let n = text.unicode_len();
    text.substring_char(1, n)
}

/// `a` followed by `b`.
pub fn followed_by(a: &str, b: &str) -> (joined: String)
    ensures
        joined@ == a@ + b@,
{
    let mut joined = String::from_str(a);
    joined.append(b);
    joined
}

/// The characters of `text`, one by one.
pub fn chars_of(text: &str) -> (chars: Vec<char>)
    ensures
        chars@ == text@,
{
    let mut chars: Vec<char> = Vec::new();
    for c in it: text.chars()
        invariant
            chars@ == it.seq().take(it.index() as int),
    {
        chars.push(c);
    }
    chars
}

/// The characters that `char::is_whitespace` accepts: the code points with
/// the Unicode property `White_Space`.
pub open spec fn is_whitespace(c: char) -> bool {
    let n = c as u32;
    ||| 0x09 <= n <= 0x0D
    ||| n == 0x20
    ||| n == 0x85
    ||| n == 0xA0
    ||| n == 0x1680
    ||| 0x2000 <= n <= 0x200A
    ||| n == 0x2028
    ||| n == 0x2029
    ||| n == 0x202F
    ||| n == 0x205F
    ||| n == 0x3000
}

/// Whether every character of `text` is whitespace.
pub open spec fn is_blank(text: Seq<char>) -> bool {
    forall|i: int| 0 <= i < text.len() ==> is_whitespace(#[trigger] text[i])
}

pub fn char_is_whitespace(c: char) -> (yes: bool)
    ensures
        yes == is_whitespace(c),
{
    let n: u32 = c as u32;
    (0x09 <= n && n <= 0x0D) || n == 0x20 || n == 0x85 || n == 0xA0 || n == 0x1680 || (0x2000 <= n
        && n <= 0x200A) || n == 0x2028 || n == 0x2029 || n == 0x202F || n == 0x205F || n == 0x3000
}

/// Whether `text` holds whitespace only; the empty text does.
pub fn str_is_blank(text: &str) -> (yes: bool)
    ensures
        yes == is_blank(text@),
{
    let mut blank = true;
    for c in it: text.chars()
        invariant
            it.seq() == text@,
            blank == is_blank(text@.take(it.index() as int)),
    {
        let ghost before = text@.take(it.index() as int);
        let ghost now = text@.take(it.index() + 1);
        assert(now == before.push(c));
        if !char_is_whitespace(c) {
            blank = false;
            assert(!is_whitespace(now[it.index() as int]));
        } else {
            assert(is_blank(before) ==> is_blank(now)) by {
                if is_blank(before) {
                    assert forall|i: int| 0 <= i < now.len() implies is_whitespace(
                        #[trigger] now[i],
                    ) by {
                        if i < before.len() {
                            assert(now[i] == before[i]);
                        }
                    }
                }
            }
            assert(!is_blank(before) ==> !is_blank(now)) by {
                if !is_blank(before) {
                    let j = choose|j: int| 0 <= j < before.len() && !is_whitespace(before[j]);
                    assert(now[j] == before[j]);
                }
            }
        }
    }
    assert(text@.take(text@.len() as int) == text@);
    blank
}


/// The texts `parts`, one after the other, with `separator` between each
/// two of them.
pub open spec fn joined(parts: Seq<Seq<char>>, separator: Seq<char>) -> Seq<char>
    decreases parts.len(),
{
    if parts.len() == 0 {
        Seq::empty()
    } else if parts.len() == 1 {
        parts[0]
    } else {
        joined(parts.drop_last(), separator) + separator + parts.last()
    }
}

/// Joins `parts` with `separator` between each two of them.
pub fn join(parts: &Vec<String>, separator: &str) -> (text: String)
    ensures
        text@ == joined(parts.deep_view(), separator@),
{
    let ghost all = parts.deep_view();
    let mut text = String::new();
    let mut i: usize = 0;
    while i < parts.len()
        invariant
            i <= parts.len(),
            all == parts.deep_view(),
            text@ == joined(all.take(i as int), separator@),
        decreases parts.len() - i,
    {
        proof {
            let upto = all.take(i + 1);
            assert(upto.drop_last() == all.take(i as int));
            assert(upto.last() == parts@[i as int]@);
            if i == 0 {
                assert(upto[0] == upto.last());
                assert(text@ + parts@[i as int]@ == parts@[i as int]@);
            }
        }
        if i > 0 {
            text.append(separator);
        }
        text.append(parts[i].as_str());
        i += 1;
    }
    assert(all.take(i as int) == all);
    text
}

} // verus!
