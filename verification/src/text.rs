//! Text handling on sequences of characters.

use vstd::prelude::*;

verus! {

/// `String::push` appends one character at the end and leaves the rest as it was.
pub assume_specification[ String::push ](text: &mut String, ch: char)
    ensures
        final(text)@ == old(text)@.push(ch),
;

/// The characters of `text`, in order.
pub fn chars_of(text: &str) -> (r: Vec<char>)
    ensures
        r@ == text@,
{
    let mut r: Vec<char> = Vec::new();
    for ch in it: text.chars()
        invariant
            r@.len() == it.index(),
            forall|i: int| 0 <= i < r@.len() ==> r@[i] == it.seq()[i],
            it.seq() == text@,
    {
        r.push(ch);
    }
    r
}

/// The text made of `chars`, in order.
pub fn string_of(chars: &Vec<char>) -> (r: String)
    ensures
        r@ == chars@,
{
    let mut r = String::new();
    let mut i: usize = 0;
    while i < chars.len()
        invariant
            i <= chars@.len(),
            r@ == chars@.take(i as int),
        decreases chars@.len() - i,
    {
        r.push(chars[i]);
        proof {
            assert(chars@.take(i + 1) =~= chars@.take(i as int).push(chars@[i as int]));
        }
        i = i + 1;
    }
    proof {
        assert(chars@.take(i as int) =~= chars@);
    }
    r
}

/// Whether two texts hold the same characters.
pub fn text_eq(a: &str, b: &str) -> (r: bool)
    ensures
        r == (a@ == b@),
{
    a.to_owned() == b.to_owned()
}

/// Whether `text` begins with `prefix`.
pub open spec fn begins_with(text: Seq<char>, prefix: Seq<char>) -> bool {
    prefix.len() <= text.len() && text.take(prefix.len() as int) == prefix
}

/// Whether `text` begins with `prefix`.
pub fn starts_with(text: &str, prefix: &str) -> (r: bool)
    ensures
        r == begins_with(text@, prefix@),
{
    let t = chars_of(text);
    let p = chars_of(prefix);
    if p.len() > t.len() {
        return false;
    }
    let mut i: usize = 0;
    while i < p.len()
        invariant
            i <= p@.len() <= t@.len(),
            t@ == text@,
            p@ == prefix@,
            forall|k: int| 0 <= k < i ==> t@[k] == p@[k],
        decreases p@.len() - i,
    {
        if t[i] != p[i] {
            proof {
                assert(t@.take(p@.len() as int)[i as int] != p@[i as int]);
            }
            return false;
        }
        i = i + 1;
    }
    proof {
        assert(t@.take(p@.len() as int) =~= p@);
    }
    true
}

/// `text` without `prefix`, where it begins with it.
pub fn strip_prefix(text: &str, prefix: &str) -> (r: Option<String>)
    ensures
        r is Some <==> begins_with(text@, prefix@),
        r matches Some(rest) ==> rest@ == text@.skip(prefix@.len() as int),
{
    if !starts_with(text, prefix) {
        return None;
    }
    let t = chars_of(text);
    let skipped = prefix.unicode_len();
    let mut rest: Vec<char> = Vec::new();
    let mut i: usize = skipped;
    while i < t.len()
        invariant
            skipped <= i <= t@.len(),
            rest@ == t@.subrange(skipped as int, i as int),
        decreases t@.len() - i,
    {
        rest.push(t[i]);
        proof {
            assert(t@.subrange(skipped as int, i + 1) =~= t@.subrange(
                skipped as int,
                i as int,
            ).push(t@[i as int]));
        }
        i = i + 1;
    }
    proof {
        assert(t@.subrange(skipped as int, i as int) =~= t@.skip(skipped as int));
    }
    Some(string_of(&rest))
}

/// `text` cut at every `sep`: one piece more than there are separators.
pub open spec fn split_on(text: Seq<char>, sep: char) -> Seq<Seq<char>>
    decreases text.len(),
{
    if text.len() == 0 {
        seq![Seq::empty()]
    } else {
        let pieces = split_on(text.drop_last(), sep);
        if text.last() == sep {
            pieces.push(Seq::empty())
        } else {
            pieces.drop_last().push(pieces.last().push(text.last()))
        }
    }
}

/// The piece number `n` of `text` cut at every `sep`, counted from zero.
pub open spec fn piece(text: Seq<char>, sep: char, n: int) -> Option<Seq<char>> {
    let pieces = split_on(text, sep);
    if 0 <= n < pieces.len() {
        Some(pieces[n])
    } else {
        None
    }
}

/// Splitting gives at least one piece.
pub proof fn lemma_split_nonempty(text: Seq<char>, sep: char)
    ensures
        split_on(text, sep).len() >= 1,
    decreases text.len(),
{
    if text.len() > 0 {
        lemma_split_nonempty(text.drop_last(), sep);
    }
}

/// `text` cut at every `sep`.
pub fn split(text: &str, sep: char) -> (r: Vec<Vec<char>>)
    ensures
        r@.len() == split_on(text@, sep).len(),
        forall|k: int| 0 <= k < r@.len() ==> (#[trigger] r@[k])@ == split_on(text@, sep)[k],
{
    let t = chars_of(text);
    let mut done: Vec<Vec<char>> = Vec::new();
    let mut current: Vec<char> = Vec::new();
    let mut i: usize = 0;
    proof {
        assert(t@.take(0) =~= Seq::empty());
    }
    while i < t.len()
        invariant
            i <= t@.len(),
            t@ == text@,
            split_on(t@.take(i as int), sep).len() == done@.len() + 1,
            forall|k: int|
                0 <= k < done@.len() ==> (#[trigger] done@[k])@ == split_on(
                    t@.take(i as int),
                    sep,
                )[k],
            current@ == split_on(t@.take(i as int), sep).last(),
        decreases t@.len() - i,
    {
        let ghost before = split_on(t@.take(i as int), sep);
        proof {
            assert(t@.take(i + 1).drop_last() =~= t@.take(i as int));
            assert(t@.take(i + 1).last() == t@[i as int]);
        }
        if t[i] == sep {
            done.push(current);
            current = Vec::new();
        } else {
            current.push(t[i]);
        }
        i = i + 1;
    }
    proof {
        assert(t@.take(i as int) =~= t@);
    }
    done.push(current);
    done
}

/// The piece number `n` of `text` cut at every `sep`, counted from zero.
pub fn nth_piece(text: &str, sep: char, n: usize) -> (r: Option<String>)
    ensures
        (match r {
            Some(found) => piece(text@, sep, n as int) == Some(found@),
            None => piece(text@, sep, n as int) is None,
        }),
{
    let pieces = split(text, sep);
    if n < pieces.len() {
        Some(string_of(&pieces[n]))
    } else {
        None
    }
}

/// The pieces put together again with `sep` between each two.
pub open spec fn join_with(pieces: Seq<Seq<char>>, sep: char) -> Seq<char>
    decreases pieces.len(),
{
    if pieces.len() == 0 {
        Seq::empty()
    } else if pieces.len() == 1 {
        pieces[0]
    } else {
        join_with(pieces.drop_last(), sep).push(sep) + pieces.last()
    }
}

/// Cutting a text at a separator loses nothing: no piece holds the separator, and the pieces
/// joined with it give the text back.
pub proof fn law_split_then_join(text: Seq<char>, sep: char)
    ensures
        join_with(split_on(text, sep), sep) == text,
        forall|k: int|
            0 <= k < split_on(text, sep).len() ==> !(#[trigger] split_on(text, sep)[k]).contains(
                sep,
            ),
    decreases text.len(),
{
    lemma_split_nonempty(text, sep);
    if text.len() > 0 {
        let head = text.drop_last();
        law_split_then_join(head, sep);
        lemma_split_nonempty(head, sep);
        let before = split_on(head, sep);
        let after = split_on(text, sep);
        assert(head.push(text.last()) =~= text);
        if text.last() == sep {
            assert(after.drop_last() =~= before);
            assert(join_with(after, sep) =~= text);
        } else {
            assert(after.drop_last() =~= before.drop_last());
            if before.len() > 1 {
                assert(join_with(after, sep) =~= join_with(before.drop_last(), sep).push(sep)
                    + before.last().push(text.last()));
                assert(join_with(after, sep) =~= text);
            } else {
                assert(join_with(after, sep) =~= text);
            }
            let tail = before.last().push(text.last());
            assert(!tail.contains(sep)) by {
                if tail.contains(sep) {
                    let j = choose|j: int| 0 <= j < tail.len() && tail[j] == sep;
                    assert(before[before.len() - 1].contains(sep)) by {
                        assert(before.last()[j] == sep);
                    }
                }
            }
            assert forall|k: int| 0 <= k < after.len() implies !(#[trigger] after[k]).contains(
                sep,
            ) by {
                if k < before.len() - 1 {
                    assert(after[k] == before[k]);
                }
            }
        }
    }
}

/// A piece without separators put behind a separator is cut off again.
proof fn lemma_split_last_piece(head: Seq<char>, sep: char, tail: Seq<char>)
    requires
        !tail.contains(sep),
    ensures
        split_on(head.push(sep) + tail, sep) == split_on(head, sep).push(tail),
    decreases tail.len(),
{
    let text = head.push(sep) + tail;
    if tail.len() == 0 {
        assert(text.drop_last() =~= head);
        assert(tail =~= Seq::empty());
    } else {
        let shorter = tail.drop_last();
        assert(!shorter.contains(sep)) by {
            if shorter.contains(sep) {
                let j = choose|j: int| 0 <= j < shorter.len() && shorter[j] == sep;
                assert(tail[j] == sep);
            }
        }
        lemma_split_last_piece(head, sep, shorter);
        assert(text.drop_last() =~= head.push(sep) + shorter);
        assert(text.last() == tail.last());
        assert(tail[tail.len() - 1] != sep);
        assert(split_on(text, sep) =~= split_on(head, sep).push(shorter.push(tail.last())));
        assert(shorter.push(tail.last()) =~= tail);
    }
}

/// A text without separators is one piece.
proof fn lemma_split_whole(text: Seq<char>, sep: char)
    requires
        !text.contains(sep),
    ensures
        split_on(text, sep) == seq![text],
    decreases text.len(),
{
    if text.len() == 0 {
        assert(text =~= Seq::empty());
    } else {
        let shorter = text.drop_last();
        assert(!shorter.contains(sep)) by {
            if shorter.contains(sep) {
                let j = choose|j: int| 0 <= j < shorter.len() && shorter[j] == sep;
                assert(text[j] == sep);
            }
        }
        lemma_split_whole(shorter, sep);
        assert(text[text.len() - 1] != sep);
        assert(shorter.push(text.last()) =~= text);
        assert(split_on(text, sep) =~= seq![text]);
    }
}

/// Pieces that hold no separator are the pieces of what they make when joined with it.
pub proof fn law_join_then_split(pieces: Seq<Seq<char>>, sep: char)
    requires
        pieces.len() > 0,
        forall|k: int| 0 <= k < pieces.len() ==> !(#[trigger] pieces[k]).contains(sep),
    ensures
        split_on(join_with(pieces, sep), sep) == pieces,
    decreases pieces.len(),
{
    assert(!pieces[pieces.len() - 1].contains(sep));
    if pieces.len() == 1 {
        lemma_split_whole(pieces[0], sep);
        assert(seq![pieces[0]] =~= pieces);
    } else {
        let shorter = pieces.drop_last();
        assert forall|k: int| 0 <= k < shorter.len() implies !(#[trigger] shorter[k]).contains(
            sep,
        ) by {
            assert(!pieces[k].contains(sep));
        }
        law_join_then_split(shorter, sep);
        lemma_split_last_piece(join_with(shorter, sep), sep, pieces.last());
        assert(shorter.push(pieces.last()) =~= pieces);
    }
}

/// The characters with the Unicode property White_Space.
pub open spec fn is_space(ch: char) -> bool {
    ||| '\u{9}' <= ch <= '\u{d}'
    ||| ch == ' '
    ||| ch == '\u{85}'
    ||| ch == '\u{a0}'
    ||| ch == '\u{1680}'
    ||| '\u{2000}' <= ch <= '\u{200a}'
    ||| ch == '\u{2028}'
    ||| ch == '\u{2029}'
    ||| ch == '\u{202f}'
    ||| ch == '\u{205f}'
    ||| ch == '\u{3000}'
}

/// Whether `ch` is white space.
pub fn space(ch: char) -> (r: bool)
    ensures
        r == is_space(ch),
{
    ('\u{9}' <= ch && ch <= '\u{d}') || ch == ' ' || ch == '\u{85}' || ch == '\u{a0}' || ch
        == '\u{1680}' || ('\u{2000}' <= ch && ch <= '\u{200a}') || ch == '\u{2028}' || ch
        == '\u{2029}' || ch == '\u{202f}' || ch == '\u{205f}' || ch == '\u{3000}'
}

/// `text` without the white space at its start.
pub open spec fn trim_left(text: Seq<char>) -> Seq<char>
    decreases text.len(),
{
    if text.len() > 0 && is_space(text[0]) {
        trim_left(text.skip(1))
    } else {
        text
    }
}

/// `text` without the white space at its end.
pub open spec fn trim_right(text: Seq<char>) -> Seq<char>
    decreases text.len(),
{
    if text.len() > 0 && is_space(text.last()) {
        trim_right(text.drop_last())
    } else {
        text
    }
}

/// `text` without the white space at both ends.
pub open spec fn trimmed(text: Seq<char>) -> Seq<char> {
    trim_right(trim_left(text))
}

/// A text that neither starts nor ends with white space has none to take off.
pub proof fn lemma_nothing_to_trim(text: Seq<char>)
    requires
        text.len() > 0,
        !is_space(text[0]),
        !is_space(text.last()),
    ensures
        trimmed(text) == text,
{
}

/// `chars` without the white space at both ends.
pub fn trim(chars: &Vec<char>) -> (r: Vec<char>)
    ensures
        r@ == trimmed(chars@),
{
    let mut start: usize = 0;
    proof {
        assert(chars@.skip(0) =~= chars@);
    }
    while start < chars.len() && space(chars[start])
        invariant
            start <= chars@.len(),
            trim_left(chars@.skip(start as int)) == trim_left(chars@),
        decreases chars@.len() - start,
    {
        proof {
            assert(chars@.skip(start as int).skip(1) =~= chars@.skip(start + 1));
        }
        start = start + 1;
    }
    let ghost left = chars@.skip(start as int);
    let mut end: usize = chars.len();
    proof {
        assert(trim_left(chars@) == left);
        assert(chars@.subrange(start as int, end as int) =~= left);
    }
    while end > start && space(chars[end - 1])
        invariant
            start <= end <= chars@.len(),
            trim_right(chars@.subrange(start as int, end as int)) == trim_right(left),
        decreases end,
    {
        proof {
            assert(chars@.subrange(start as int, end as int).drop_last() =~= chars@.subrange(
                start as int,
                end - 1,
            ));
        }
        end = end - 1;
    }
    let mut r: Vec<char> = Vec::new();
    let mut i: usize = start;
    while i < end
        invariant
            start <= i <= end <= chars@.len(),
            r@ == chars@.subrange(start as int, i as int),
        decreases end - i,
    {
        r.push(chars[i]);
        proof {
            assert(chars@.subrange(start as int, i + 1) =~= chars@.subrange(
                start as int,
                i as int,
            ).push(chars@[i as int]));
        }
        i = i + 1;
    }
    r
}

/// A text begins with a prefix exactly where it is the prefix and something behind it.
pub proof fn law_prefix(prefix: Seq<char>, rest: Seq<char>, text: Seq<char>)
    ensures
        begins_with(prefix + rest, prefix),
        begins_with(text, prefix) ==> text =~= prefix + text.skip(prefix.len() as int),
{
    assert((prefix + rest).take(prefix.len() as int) =~= prefix);
}

/// The piece of a text at a place is what was put there when the text was joined, where something
/// was.
pub proof fn law_piece_by_place(pieces: Seq<Seq<char>>, sep: char, n: int)
    requires
        pieces.len() > 0,
        forall|k: int| 0 <= k < pieces.len() ==> !(#[trigger] pieces[k]).contains(sep),
    ensures
        0 <= n < pieces.len() ==> piece(join_with(pieces, sep), sep, n) == Some(pieces[n]),
        n >= pieces.len() ==> piece(join_with(pieces, sep), sep, n) is None,
{
    law_join_then_split(pieces, sep);
}

/// White space is what Unicode gives the property of that name: the controls from tab to carriage
/// return, the next line control, the space and the no-break space, and the spaces and separators
/// beyond.
pub proof fn law_white_space(ch: char)
    ensures
        is_space(ch) <==> set![
            0x9int,
            0xa,
            0xb,
            0xc,
            0xd,
            0x20,
            0x85,
            0xa0,
            0x1680,
            0x2000,
            0x2001,
            0x2002,
            0x2003,
            0x2004,
            0x2005,
            0x2006,
            0x2007,
            0x2008,
            0x2009,
            0x200a,
            0x2028,
            0x2029,
            0x202f,
            0x205f,
            0x3000,
        ].contains(ch as int),
{
}

proof fn lemma_trim_left(text: Seq<char>)
    ensures
        ({
            let cut = text.len() - trim_left(text).len();
            &&& 0 <= cut <= text.len()
            &&& trim_left(text) =~= text.skip(cut)
            &&& forall|i: int| 0 <= i < cut ==> is_space(#[trigger] text[i])
            &&& trim_left(text).len() > 0 ==> !is_space(trim_left(text)[0])
        }),
    decreases text.len(),
{
    if text.len() > 0 && is_space(text[0]) {
        let rest = text.skip(1);
        lemma_trim_left(rest);
        let cut = rest.len() - trim_left(rest).len();
        assert(rest.skip(cut) =~= text.skip(cut + 1));
        assert forall|i: int| 0 <= i < cut + 1 implies is_space(#[trigger] text[i]) by {
            if i > 0 {
                assert(rest[i - 1] == text[i]);
            }
        }
    }
}

proof fn lemma_trim_right(text: Seq<char>)
    ensures
        ({
            let kept = trim_right(text).len() as int;
            &&& 0 <= kept <= text.len()
            &&& trim_right(text) =~= text.take(kept)
            &&& forall|i: int| kept <= i < text.len() ==> is_space(#[trigger] text[i])
            &&& kept > 0 ==> !is_space(trim_right(text).last())
        }),
    decreases text.len(),
{
    if text.len() > 0 && is_space(text.last()) {
        let rest = text.drop_last();
        lemma_trim_right(rest);
        let kept = trim_right(rest).len() as int;
        assert(rest.take(kept) =~= text.take(kept));
        assert forall|i: int| kept <= i < text.len() implies is_space(#[trigger] text[i]) by {
            if i < rest.len() {
                assert(rest[i] == text[i]);
            }
        }
    }
}

/// Trimming takes white space off both ends and nothing else: what is left is a part of the text
/// with white space alone before and behind it, and neither starts nor ends with any.
pub proof fn law_trimming_takes_spaces(text: Seq<char>)
    ensures
        exists|start: int, end: int|
            0 <= start <= end <= text.len() && trimmed(text) =~= #[trigger] text.subrange(
                start,
                end,
            ) && (forall|i: int| 0 <= i < start ==> is_space(#[trigger] text[i])) && (forall|i: int|
                end <= i < text.len() ==> is_space(#[trigger] text[i])),
        trimmed(text).len() > 0 ==> !is_space(trimmed(text)[0]) && !is_space(trimmed(text).last()),
{
    let left = trim_left(text);
    lemma_trim_left(text);
    lemma_trim_right(left);
    let start = text.len() - left.len();
    let end = start + trimmed(text).len();
    assert(trimmed(text) =~= text.subrange(start, end));
    assert forall|i: int| end <= i < text.len() implies is_space(#[trigger] text[i]) by {
        assert(left[i - start] == text[i]);
    }
    if trimmed(text).len() > 0 {
        assert(trimmed(text)[0] == left[0]);
    }
}

/// Nothing is left of white space alone.
pub proof fn law_blank_is_trimmed_away(text: Seq<char>)
    requires
        forall|i: int| 0 <= i < text.len() ==> is_space(#[trigger] text[i]),
    ensures
        trimmed(text).len() == 0,
{
    lemma_trim_left(text);
    lemma_trim_right(trim_left(text));
    if trim_left(text).len() > 0 {
        let cut = text.len() - trim_left(text).len();
        assert(trim_left(text)[0] == text[cut]);
    }
}

/// Where nothing is left there was white space alone.
pub proof fn law_trimmed_away_is_blank(text: Seq<char>)
    requires
        trimmed(text).len() == 0,
    ensures
        forall|i: int| 0 <= i < text.len() ==> is_space(#[trigger] text[i]),
{
    let left = trim_left(text);
    lemma_trim_left(text);
    lemma_trim_right(left);
    let cut = text.len() - left.len();
    assert forall|i: int| 0 <= i < text.len() implies is_space(#[trigger] text[i]) by {
        if i >= cut {
            assert(left[i - cut] == text[i]);
        }
    }
}

} // verus!
