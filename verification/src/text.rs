//! Operations on query text, stated over sequences of characters.

use vstd::prelude::*;
use vstd::string::*;

verus! {

/// Whether `prefix` is the beginning of `text`.
pub open spec fn has_prefix(text: Seq<char>, prefix: Seq<char>) -> bool {
    prefix.len() <= text.len() && text.subrange(0, prefix.len() as int) == prefix
}

/// What is left of `text` after its first `n` characters.
pub open spec fn after(text: Seq<char>, n: nat) -> Seq<char>
    recommends
        n <= text.len(),
{
    text.subrange(n as int, text.len() as int)
}

/// The characters that count as white space: the Unicode property `White_Space`.
pub open spec fn is_white_space(c: char) -> bool {
    let n = c as u32;
    ||| 0x09 <= n <= 0x0D
    ||| n == 0x20
    ||| n == 0x85
    ||| n == 0xA0
    ||| n == 0x1680
    ||| 0x2000 <= n <= 0x200A
    ||| n == 0x2028
    ||| n == 0x2029
    ||| n == 0x202F
    ||| n == 0x205F
    ||| n == 0x3000
}

/// The number of white-space characters at the beginning of `text`.
pub open spec fn leading_white_space(text: Seq<char>) -> nat
    decreases text.len(),
{
    if text.len() > 0 && is_white_space(text[0]) {
        1 + leading_white_space(text.drop_first())
    } else {
        0
    }
}

/// `text` without the white space at its beginning.
pub open spec fn trimmed_start(text: Seq<char>) -> Seq<char> {
    after(text, leading_white_space(text))
}

/// A run of `n` white-space characters followed by the end or by another
/// character is exactly the leading white space.
pub proof fn lemma_leading_white_space_is(text: Seq<char>, n: nat)
    requires
        n <= text.len(),
        forall|i: int| 0 <= i < n ==> is_white_space(#[trigger] text[i]),
        n < text.len() ==> !is_white_space(text[n as int]),
    ensures
        leading_white_space(text) == n,
    decreases text.len(),
{
    if n > 0 {
        let rest = text.drop_first();
        assert(is_white_space(text[0]));
        assert forall|i: int| 0 <= i < n - 1 implies is_white_space(#[trigger] rest[i]) by {
            assert(rest[i] == text[i + 1]);
        }
        if n - 1 < rest.len() {
            assert(rest[n - 1] == text[n as int]);
        }
        lemma_leading_white_space_is(rest, (n - 1) as nat);
    }
}

/// Tells whether `c` is white space.
pub fn white_space(c: char) -> (r: bool)
    ensures
        r == is_white_space(c),
{
    let n: u32 = c as u32;
    (0x09 <= n && n <= 0x0D) || n == 0x20 || n == 0x85 || n == 0xA0 || n == 0x1680 || (0x2000 <= n
        && n <= 0x200A) || n == 0x2028 || n == 0x2029 || n == 0x202F || n == 0x205F || n == 0x3000
}

/// Tells whether two texts hold the same characters.
pub fn same_text(a: &str, b: &str) -> (r: bool)
    ensures
        r == (a@ == b@),
{
    let n: usize = a.unicode_len();
    if n != b.unicode_len() {
        return false;
    }
    let mut i: usize = 0;
    while i < n
        invariant
            n == a@.len(),
            n == b@.len(),
            i <= n,
            forall|k: int| 0 <= k < i ==> a@[k] == b@[k],
        decreases n - i,
    {
        if a.get_char(i) != b.get_char(i) {
            return false;
        }
        i += 1;
    }
    assert(a@ =~= b@);
    true
}

/// Tells whether `text` begins with `prefix`.
pub fn starts_with(text: &str, prefix: &str) -> (r: bool)
    ensures
        r == has_prefix(text@, prefix@),
{
    let n: usize = prefix.unicode_len();
    if n > text.unicode_len() {
        return false;
    }
    let mut i: usize = 0;
    while i < n
        invariant
            n == prefix@.len(),
            n <= text@.len(),
            i <= n,
            forall|k: int| 0 <= k < i ==> text@[k] == prefix@[k],
        decreases n - i,
    {
        if text.get_char(i) != prefix.get_char(i) {
            assert(text@.subrange(0, n as int)[i as int] != prefix@[i as int]);
            return false;
        }
        i += 1;
    }
    assert(text@.subrange(0, n as int) =~= prefix@);
    true
}

/// Removes `prefix` from the beginning of `text`, where it stands there.
pub fn strip_prefix<'a>(text: &'a str, prefix: &str) -> (r: Option<&'a str>)
    ensures
        r is Some <==> has_prefix(text@, prefix@),
        r matches Some(rest) ==> rest@ == after(text@, prefix@.len()),
{
    if starts_with(text, prefix) {
        Some(text.substring_char(prefix.unicode_len(), text.unicode_len()))
    } else {
        None
    }
}

/// Removes the white space at the beginning of `text`.
pub fn trim_start<'a>(text: &'a str) -> (r: &'a str)
    ensures
        r@ == trimmed_start(text@),
{
    let n: usize = text.unicode_len();
    let mut i: usize = 0;
    while i < n && white_space(text.get_char(i))
        invariant
            n == text@.len(),
            i <= n,
            forall|k: int| 0 <= k < i ==> is_white_space(#[trigger] text@[k]),
        decreases n - i,
    {
        i += 1;
    }
    proof {
        lemma_leading_white_space_is(text@, i as nat);
    }
    text.substring_char(i, n)
}

/// Joins two texts.
pub fn join2(a: &str, b: &str) -> (r: String)
    ensures
        r@ == a@ + b@,
{
    let mut out = String::from_str(a);
    out.append(b);
    out
}

/// Whether `sep` stands in `text` at position `at`.
pub open spec fn occurs_at(text: Seq<char>, sep: Seq<char>, at: int) -> bool {
    0 <= at && at + sep.len() <= text.len() && text.subrange(at, at + sep.len()) == sep
}

/// The pieces of `text` from position `start` on, cut at each occurrence of
/// `sep` that is found when reading on from position `at`; occurrences are
/// taken from the left and do not overlap.
pub open spec fn pieces_from(text: Seq<char>, sep: Seq<char>, start: int, at: int) -> Seq<Seq<char>>
    recommends
        0 <= start <= at <= text.len(),
        sep.len() > 0,
    decreases text.len() - at,
{
    if sep.len() == 0 || at < 0 || at + sep.len() > text.len() {
        seq![text.subrange(start, text.len() as int)]
    } else if occurs_at(text, sep, at) {
        seq![text.subrange(start, at)] + pieces_from(text, sep, at + sep.len(), at + sep.len())
    } else {
        pieces_from(text, sep, start, at + 1)
    }
}

/// The pieces into which `sep` cuts `text`: at least one, and one more for each
/// occurrence of the separator. An empty separator cuts nothing.
pub open spec fn pieces(text: Seq<char>, sep: Seq<char>) -> Seq<Seq<char>> {
    pieces_from(text, sep, 0, 0)
}

/// `parts` joined, with `sep` between each two of them.
pub open spec fn joined(parts: Seq<Seq<char>>, sep: Seq<char>) -> Seq<char>
    decreases parts.len(),
{
    if parts.len() == 0 {
        Seq::<char>::empty()
    } else if parts.len() == 1 {
        parts[0]
    } else {
        joined(parts.drop_last(), sep) + sep + parts.last()
    }
}

/// Tells whether `sep` stands in `text` at position `at`.
pub fn found_at(text: &str, sep: &str, at: usize) -> (r: bool)
    ensures
        r == occurs_at(text@, sep@, at as int),
{
    let n: usize = sep.unicode_len();
    let len: usize = text.unicode_len();
    if at > len || n > len - at {
        return false;
    }
    let mut i: usize = 0;
    while i < n
        invariant
            n == sep@.len(),
            len == text@.len(),
            at + n <= len,
            i <= n,
            forall|k: int| 0 <= k < i ==> text@[at + k] == sep@[k],
        decreases n - i,
    {
        if text.get_char(at + i) != sep.get_char(i) {
            assert(text@.subrange(at as int, at + n)[i as int] != sep@[i as int]);
            return false;
        }
        i += 1;
    }
    assert(text@.subrange(at as int, at + n) =~= sep@);
    true
}

/// Cuts `text` at each occurrence of `sep`.
pub fn split(text: &str, sep: &str) -> (parts: Vec<String>)
    ensures
        parts@.map_values(|p: String| p@) == pieces(text@, sep@),
        parts@.len() >= 1,
{
    let len: usize = text.unicode_len();
    let n: usize = sep.unicode_len();
    let mut parts: Vec<String> = Vec::new();
    let mut start: usize = 0;
    let mut at: usize = 0;
    while n > 0 && at <= len && n <= len - at
        invariant
            len == text@.len(),
            n == sep@.len(),
            start <= at <= len,
            pieces(text@, sep@) == parts@.map_values(|p: String| p@) + pieces_from(
                text@,
                sep@,
                start as int,
                at as int,
            ),
        decreases len - at,
    {
        if found_at(text, sep, at) {
            let piece = String::from_str(text.substring_char(start, at));
            let ghost before = parts@.map_values(|p: String| p@);
            parts.push(piece);
            assert(parts@.map_values(|p: String| p@) =~= before.push(piece@));
            at = at + n;
            start = at;
        } else {
            at = at + 1;
        }
    }
    let piece = String::from_str(text.substring_char(start, len));
    let ghost before = parts@.map_values(|p: String| p@);
    parts.push(piece);
    assert(parts@.map_values(|p: String| p@) =~= before.push(piece@));
    parts
}

/// Joins `parts`, with `sep` between each two of them.
pub fn join(parts: &Vec<String>, sep: &str) -> (text: String)
    ensures
        text@ == joined(parts@.map_values(|p: String| p@), sep@),
{
    let mut text = String::new();
    let mut i: usize = 0;
    while i < parts.len()
        invariant
            i <= parts.len(),
            text@ == joined(parts@.map_values(|p: String| p@).subrange(0, i as int), sep@),
        decreases parts.len() - i,
    {
        let ghost all = parts@.map_values(|p: String| p@);
        if i > 0 {
            text.append(sep);
        }
        text.append(parts[i].as_str());
        assert(all.subrange(0, i + 1).drop_last() =~= all.subrange(0, i as int));
        assert(all.subrange(0, i + 1).last() == parts[i as int]@);
        i += 1;
    }
    assert(parts@.map_values(|p: String| p@).subrange(0, i as int) =~= parts@.map_values(
        |p: String| p@,
    ));
    text
}

} // verus!
