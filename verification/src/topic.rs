//! MQTT topics, cleaned of the terminal escape sequences that may have slipped into them.

use vstd::prelude::*;
use crate::text::{chars_of, string_of};

verus! {

/// The escape character, which opens a terminal escape sequence.
pub const ESCAPE: char = '\u{1b}';

/// `text` with every "^[" turned into the escape character that it stands for.
pub open spec fn with_escapes(text: Seq<char>) -> Seq<char>
    decreases text.len(),
{
    if text.len() == 0 {
        Seq::empty()
    } else if text.len() >= 2 && text[0] == '^' && text[1] == '[' {
        seq![ESCAPE] + with_escapes(text.skip(2))
    } else {
        seq![text[0]] + with_escapes(text.skip(1))
    }
}

/// The letters of ASCII.
pub open spec fn is_letter(ch: char) -> bool {
    'a' <= ch <= 'z' || 'A' <= ch <= 'Z'
}

/// The characters of ASCII that leave a mark.
pub open spec fn is_graphic(ch: char) -> bool {
    '!' <= ch <= '~'
}

/// Whether an escape sequence is still open behind `ch`, where `open` says whether one was before
/// it: the escape character opens one, a letter closes it.
pub open spec fn open_after(ch: char, open: bool) -> bool {
    ch == ESCAPE || (open && !is_letter(ch))
}

/// Whether an escape sequence is still open at the end of `text`, where `open` says whether one
/// was at its start.
pub open spec fn open_at_end(text: Seq<char>, open: bool) -> bool
    decreases text.len(),
{
    if text.len() == 0 {
        open
    } else {
        open_at_end(text.skip(1), open_after(text[0], open))
    }
}

/// The graphic characters of `text` that lie outside escape sequences; `open` says whether one is
/// open at its start.
pub open spec fn outside_escapes(text: Seq<char>, open: bool) -> Seq<char>
    decreases text.len(),
{
    if text.len() == 0 {
        Seq::empty()
    } else {
        let rest = outside_escapes(text.skip(1), open_after(text[0], open));
        if !open && text[0] != ESCAPE && is_graphic(text[0]) {
            seq![text[0]] + rest
        } else {
            rest
        }
    }
}

/// A topic without terminal escape sequences and without characters that leave no mark.
pub open spec fn cleaned(topic: Seq<char>) -> Seq<char> {
    outside_escapes(with_escapes(topic), false)
}

/// `chars` with every "^[" turned into the escape character.
fn put_escapes(chars: &Vec<char>) -> (r: Vec<char>)
    ensures
        r@ == with_escapes(chars@),
{
    let mut r: Vec<char> = Vec::new();
    let mut i: usize = 0;
    proof {
        assert(chars@.skip(0) =~= chars@);
        assert(with_escapes(chars@) =~= r@ + with_escapes(chars@.skip(0)));
    }
    while i < chars.len()
        invariant
            i <= chars@.len(),
            with_escapes(chars@) == r@ + with_escapes(chars@.skip(i as int)),
        decreases chars@.len() - i,
    {
        let ghost rest = chars@.skip(i as int);
        let ghost before = r@;
        if chars[i] == '^' && i + 1 < chars.len() && chars[i + 1] == '[' {
            r.push(ESCAPE);
            proof {
                assert(rest[1] == '[');
                assert(rest.skip(2) =~= chars@.skip(i + 2));
                assert(before + (seq![ESCAPE] + with_escapes(rest.skip(2))) =~= r@ + with_escapes(
                    chars@.skip(i + 2),
                ));
            }
            i = i + 2;
        } else {
            r.push(chars[i]);
            proof {
                assert(rest.len() >= 2 ==> rest[1] == chars@[i + 1]);
                assert(rest.skip(1) =~= chars@.skip(i + 1));
                assert(before + (seq![rest[0]] + with_escapes(rest.skip(1))) =~= r@ + with_escapes(
                    chars@.skip(i + 1),
                ));
            }
            i = i + 1;
        }
    }
    proof {
        assert(chars@.skip(i as int) =~= Seq::empty());
        assert(r@ + Seq::<char>::empty() =~= r@);
    }
    r
}

/// A topic without terminal escape sequences and without characters that leave no mark.
pub fn clean(topic: &str) -> (r: String)
    ensures
        r@ == cleaned(topic@),
{
    let chars = put_escapes(&chars_of(topic));
    let mut r: Vec<char> = Vec::new();
    let mut open: bool = false;
    let mut i: usize = 0;
    proof {
        assert(chars@.skip(0) =~= chars@);
        assert(outside_escapes(chars@, false) =~= r@ + outside_escapes(chars@.skip(0), false));
    }
    while i < chars.len()
        invariant
            i <= chars@.len(),
            outside_escapes(chars@, false) == r@ + outside_escapes(chars@.skip(i as int), open),
        decreases chars@.len() - i,
    {
        let ghost rest = chars@.skip(i as int);
        let ghost before = r@;
        let ghost was = open;
        let ch: char = chars[i];
        let letter: bool = ('a' <= ch && ch <= 'z') || ('A' <= ch && ch <= 'Z');
        if ch == ESCAPE {
            open = true;
        } else if open && letter {
            open = false;
        } else if !open && '!' <= ch && ch <= '~' {
            r.push(ch);
        }
        proof {
            assert(rest[0] == ch);
            assert(rest.skip(1) =~= chars@.skip(i + 1));
            assert(open == open_after(ch, was));
            assert(before + outside_escapes(rest, was) =~= r@ + outside_escapes(
                chars@.skip(i + 1),
                open,
            ));
        }
        i = i + 1;
    }
    proof {
        assert(chars@.skip(i as int) =~= Seq::empty());
        assert(r@ + Seq::<char>::empty() =~= r@);
    }
    string_of(&r)
}

proof fn lemma_outside_is_graphic(text: Seq<char>, open: bool)
    ensures
        forall|i: int|
            0 <= i < outside_escapes(text, open).len() ==> is_graphic(
                #[trigger] outside_escapes(text, open)[i],
            ),
    decreases text.len(),
{
    if text.len() > 0 {
        let rest = outside_escapes(text.skip(1), open_after(text[0], open));
        lemma_outside_is_graphic(text.skip(1), open_after(text[0], open));
        assert forall|i: int| 0 <= i < outside_escapes(text, open).len() implies is_graphic(
            #[trigger] outside_escapes(text, open)[i],
        ) by {
            if outside_escapes(text, open) != rest {
                if i > 0 {
                    assert(outside_escapes(text, open)[i] == rest[i - 1]);
                }
            }
        }
    }
}

/// A cleaned topic holds graphic ASCII characters alone, so no escape character and no white
/// space.
pub proof fn law_cleaned_is_graphic(topic: Seq<char>)
    ensures
        forall|i: int| 0 <= i < cleaned(topic).len() ==> is_graphic(#[trigger] cleaned(topic)[i]),
{
    lemma_outside_is_graphic(with_escapes(topic), false);
}

/// Whether a topic is clean as it is: graphic characters alone, and no "^[" among them.
pub open spec fn is_clean(topic: Seq<char>) -> bool {
    &&& forall|i: int| 0 <= i < topic.len() ==> is_graphic(#[trigger] topic[i])
    &&& forall|i: int| 0 <= i < topic.len() - 1 ==> !(#[trigger] topic[i] == '^' && topic[i + 1] == '[')
}

proof fn lemma_no_escapes(topic: Seq<char>)
    requires
        forall|i: int| 0 <= i < topic.len() - 1 ==> !(#[trigger] topic[i] == '^' && topic[i + 1] == '['),
    ensures
        with_escapes(topic) == topic,
    decreases topic.len(),
{
    if topic.len() > 0 {
        let rest = topic.skip(1);
        assert forall|i: int| 0 <= i < rest.len() - 1 implies !(#[trigger] rest[i] == '^' && rest[i
            + 1] == '[') by {
            assert(rest[i] == topic[i + 1]);
            assert(rest[i + 1] == topic[i + 2]);
        }
        lemma_no_escapes(rest);
        if topic.len() >= 2 {
            assert(!(topic[0] == '^' && topic[1] == '['));
        }
        assert(seq![topic[0]] + rest =~= topic);
    } else {
        assert(topic =~= Seq::empty());
    }
}

proof fn lemma_graphic_stays(text: Seq<char>)
    requires
        forall|i: int| 0 <= i < text.len() ==> is_graphic(#[trigger] text[i]),
    ensures
        outside_escapes(text, false) == text,
    decreases text.len(),
{
    if text.len() > 0 {
        let rest = text.skip(1);
        assert forall|i: int| 0 <= i < rest.len() implies is_graphic(#[trigger] rest[i]) by {
            assert(rest[i] == text[i + 1]);
        }
        assert(is_graphic(text[0]));
        lemma_graphic_stays(rest);
        assert(seq![text[0]] + rest =~= text);
    } else {
        assert(text =~= Seq::empty());
    }
}

/// Cleaning leaves a clean topic as it is.
pub proof fn law_clean_topic_stays(topic: Seq<char>)
    requires
        is_clean(topic),
    ensures
        cleaned(topic) == topic,
{
    lemma_no_escapes(topic);
    lemma_graphic_stays(topic);
}

proof fn lemma_escapes_append(a: Seq<char>, b: Seq<char>)
    requires
        !(a.len() > 0 && a.last() == '^' && b.len() > 0 && b[0] == '['),
    ensures
        with_escapes(a + b) == with_escapes(a) + with_escapes(b),
    decreases a.len(),
{
    if a.len() == 0 {
        assert(a + b =~= b);
        assert(with_escapes(a) + with_escapes(b) =~= with_escapes(b));
    } else {
        let whole = a + b;
        if a.len() >= 2 && a[0] == '^' && a[1] == '[' {
            assert(whole.skip(2) =~= a.skip(2) + b);
            lemma_escapes_append(a.skip(2), b);
            assert(with_escapes(whole) =~= with_escapes(a) + with_escapes(b));
        } else {
            assert(whole.skip(1) =~= a.skip(1) + b);
            lemma_escapes_append(a.skip(1), b);
            assert(whole[0] == a[0]);
            if a.len() == 1 {
                assert(a.last() == a[0]);
            } else {
                assert(whole[1] == a[1]);
            }
            assert(with_escapes(whole) =~= with_escapes(a) + with_escapes(b));
        }
    }
}

proof fn lemma_outside_append(a: Seq<char>, b: Seq<char>, open: bool)
    ensures
        outside_escapes(a + b, open) == outside_escapes(a, open) + outside_escapes(
            b,
            open_at_end(a, open),
        ),
        open_at_end(a + b, open) == open_at_end(b, open_at_end(a, open)),
    decreases a.len(),
{
    if a.len() == 0 {
        assert(a + b =~= b);
        assert(outside_escapes(a, open) + outside_escapes(b, open) =~= outside_escapes(b, open));
    } else {
        assert((a + b).skip(1) =~= a.skip(1) + b);
        lemma_outside_append(a.skip(1), b, open_after(a[0], open));
        assert(outside_escapes(a + b, open) =~= outside_escapes(a, open) + outside_escapes(
            b,
            open_at_end(a, open),
        ));
    }
}

/// Inside an escape sequence nothing shows, and it stays open as long as no letter comes.
proof fn lemma_inside(body: Seq<char>)
    requires
        forall|i: int| 0 <= i < body.len() ==> !is_letter(#[trigger] body[i]),
    ensures
        outside_escapes(body, true) == Seq::<char>::empty(),
        open_at_end(body, true),
    decreases body.len(),
{
    if body.len() > 0 {
        let rest = body.skip(1);
        assert forall|i: int| 0 <= i < rest.len() implies !is_letter(#[trigger] rest[i]) by {
            assert(rest[i] == body[i + 1]);
        }
        assert(!is_letter(body[0]));
        lemma_inside(rest);
    }
}

proof fn lemma_with_escapes_letters(body: Seq<char>)
    requires
        forall|i: int| 0 <= i < body.len() ==> !is_letter(#[trigger] body[i]),
    ensures
        forall|i: int|
            0 <= i < with_escapes(body).len() ==> !is_letter(#[trigger] with_escapes(body)[i]),
    decreases body.len(),
{
    if body.len() > 0 {
        assert(!is_letter(body[0]));
        let n: int = if body.len() >= 2 && body[0] == '^' && body[1] == '[' {
            2
        } else {
            1
        };
        let rest = body.skip(n);
        assert forall|i: int| 0 <= i < rest.len() implies !is_letter(#[trigger] rest[i]) by {
            assert(rest[i] == body[i + n]);
        }
        lemma_with_escapes_letters(rest);
        assert forall|i: int| 0 <= i < with_escapes(body).len() implies !is_letter(
            #[trigger] with_escapes(body)[i],
        ) by {
            if i > 0 {
                assert(with_escapes(body)[i] == with_escapes(rest)[i - 1]);
            }
        }
    }
}

/// An escape sequence in a topic: the escape character, or the "^[" that stands for it, then
/// characters that are no letters, and one letter.
pub open spec fn escape_sequence(literal: bool, body: Seq<char>, letter: char) -> Seq<char> {
    (if literal {
        seq!['^', '[']
    } else {
        seq![ESCAPE]
    }) + body + seq![letter]
}

/// An escape sequence is taken out of a topic whole, and what stands before and behind it is
/// cleaned as if it were alone.
pub proof fn law_escape_sequence_removed(
    before: Seq<char>,
    literal: bool,
    body: Seq<char>,
    letter: char,
    behind: Seq<char>,
)
    requires
        !open_at_end(with_escapes(before), false),
        forall|i: int| 0 <= i < body.len() ==> !is_letter(#[trigger] body[i]),
        is_letter(letter),
    ensures
        cleaned(before + escape_sequence(literal, body, letter) + behind) == cleaned(before)
            + cleaned(behind),
{
    let intro: Seq<char> = if literal {
        seq!['^', '[']
    } else {
        seq![ESCAPE]
    };
    let empty = Seq::<char>::empty();
    assert(with_escapes(intro) =~= seq![ESCAPE]) by {
        if literal {
            assert(intro.skip(2) =~= empty);
            assert(with_escapes(empty) =~= empty);
        } else {
            assert(intro.skip(1) =~= empty);
            assert(with_escapes(empty) =~= empty);
        }
    }
    assert(with_escapes(seq![letter]) =~= seq![letter]) by {
        assert(seq![letter].skip(1) =~= empty);
        assert(with_escapes(empty) =~= empty);
    }
    let tail = seq![letter] + behind;
    lemma_escapes_append(seq![letter], behind);
    assert((body + tail).len() > 0);
    lemma_escapes_append(body, tail);
    lemma_escapes_append(intro, body + tail);
    lemma_escapes_append(before, intro + (body + tail));
    assert(before + escape_sequence(literal, body, letter) + behind =~= before + (intro + (body
        + tail)));
    let shown = with_escapes(body);
    let last = with_escapes(behind);
    lemma_with_escapes_letters(body);
    lemma_inside(shown);
    let mark = seq![ESCAPE];
    assert(mark.skip(1) =~= empty);
    assert(open_at_end(mark, false)) by {
        assert(open_at_end(empty, true));
    }
    assert(outside_escapes(mark, false) =~= empty) by {
        assert(outside_escapes(empty, true) =~= empty);
    }
    let close = seq![letter];
    assert(close.skip(1) =~= empty);
    assert(!open_at_end(close, true)) by {
        assert(!open_at_end(empty, false));
    }
    assert(outside_escapes(close, true) =~= empty) by {
        assert(outside_escapes(empty, false) =~= empty);
    }
    lemma_outside_append(close, last, true);
    lemma_outside_append(shown, close + last, true);
    lemma_outside_append(mark, shown + (close + last), false);
    lemma_outside_append(with_escapes(before), mark + (shown + (close + last)), false);
    assert(empty + (empty + (empty + cleaned(behind))) =~= cleaned(behind));
}

proof fn lemma_graphic_is_closed(text: Seq<char>)
    requires
        forall|i: int| 0 <= i < text.len() ==> is_graphic(#[trigger] text[i]),
    ensures
        !open_at_end(text, false),
    decreases text.len(),
{
    if text.len() > 0 {
        let rest = text.skip(1);
        assert forall|i: int| 0 <= i < rest.len() implies is_graphic(#[trigger] rest[i]) by {
            assert(rest[i] == text[i + 1]);
        }
        assert(is_graphic(text[0]));
        lemma_graphic_is_closed(rest);
    }
}

/// What a cleaned topic holds is from '!' to '~'; and a topic that holds nothing else, and no '['
/// right behind a '^', stays as it is.
pub proof fn law_marks_alone(topic: Seq<char>)
    ensures
        forall|i: int|
            0 <= i < cleaned(topic).len() ==> '!' <= #[trigger] cleaned(topic)[i] <= '~',
        (forall|i: int| 0 <= i < topic.len() ==> '!' <= #[trigger] topic[i] <= '~') && (forall|i: int|
            0 < i < topic.len() && #[trigger] topic[i] == '[' ==> topic[i - 1] != '^') ==> cleaned(
            topic,
        ) == topic,
{
    law_cleaned_is_graphic(topic);
    assert forall|i: int| 0 <= i < cleaned(topic).len() implies '!' <= #[trigger] cleaned(topic)[i]
        <= '~' by {
        assert(is_graphic(cleaned(topic)[i]));
    }
    if (forall|i: int| 0 <= i < topic.len() ==> '!' <= #[trigger] topic[i] <= '~') && (forall|i: int|
        0 < i < topic.len() && #[trigger] topic[i] == '[' ==> topic[i - 1] != '^') {
        assert forall|i: int| 0 <= i < topic.len() - 1 implies !(#[trigger] topic[i] == '^'
            && topic[i + 1] == '[') by {
            if topic[i + 1] == '[' {
                assert(topic[i + 1 - 1] != '^');
            }
        }
        law_clean_topic_stays(topic);
    }
}

/// In a topic whose start is clean, an escape character or a '^' with a '[' behind it hides what
/// follows up to and with the first letter, and no more.
pub proof fn law_escapes_end_with_a_letter(
    before: Seq<char>,
    body: Seq<char>,
    letter: char,
    behind: Seq<char>,
)
    requires
        forall|i: int| 0 <= i < before.len() ==> '!' <= #[trigger] before[i] <= '~',
        forall|i: int| 0 <= i < before.len() - 1 ==> !(#[trigger] before[i] == '^' && before[i + 1]
            == '['),
        forall|i: int|
            0 <= i < body.len() ==> !('a' <= #[trigger] body[i] <= 'z' || 'A' <= body[i] <= 'Z'),
        'a' <= letter <= 'z' || 'A' <= letter <= 'Z',
    ensures
        cleaned(before + (seq!['\u{1b}'] + body + seq![letter]) + behind) == before + cleaned(behind),
        cleaned(before + (seq!['^', '['] + body + seq![letter]) + behind) == before + cleaned(behind),
{
    assert(is_clean(before)) by {
        assert forall|i: int| 0 <= i < before.len() implies is_graphic(#[trigger] before[i]) by {}
    }
    law_clean_topic_stays(before);
    lemma_no_escapes(before);
    lemma_graphic_is_closed(before);
    assert forall|i: int| 0 <= i < body.len() implies !is_letter(#[trigger] body[i]) by {}
    law_escape_sequence_removed(before, false, body, letter, behind);
    law_escape_sequence_removed(before, true, body, letter, behind);
}

/// An escape that no letter ends hides the rest of the topic.
pub proof fn law_open_escape_hides_the_rest(before: Seq<char>, rest: Seq<char>)
    requires
        forall|i: int| 0 <= i < before.len() ==> '!' <= #[trigger] before[i] <= '~',
        forall|i: int| 0 <= i < before.len() - 1 ==> !(#[trigger] before[i] == '^' && before[i + 1]
            == '['),
        forall|i: int|
            0 <= i < rest.len() ==> !('a' <= #[trigger] rest[i] <= 'z' || 'A' <= rest[i] <= 'Z'),
    ensures
        cleaned(before + (seq!['\u{1b}'] + rest)) == before,
{
    let empty = Seq::<char>::empty();
    let mark = seq!['\u{1b}'];
    assert(is_clean(before)) by {
        assert forall|i: int| 0 <= i < before.len() implies is_graphic(#[trigger] before[i]) by {}
    }
    law_clean_topic_stays(before);
    lemma_no_escapes(before);
    lemma_graphic_is_closed(before);
    assert(with_escapes(mark) =~= mark) by {
        assert(mark.skip(1) =~= empty);
        assert(with_escapes(empty) =~= empty);
    }
    lemma_escapes_append(mark, rest);
    lemma_escapes_append(before, mark + rest);
    let shown = with_escapes(rest);
    assert forall|i: int| 0 <= i < rest.len() implies !is_letter(#[trigger] rest[i]) by {}
    lemma_with_escapes_letters(rest);
    lemma_inside(shown);
    assert(mark.skip(1) =~= empty);
    assert(open_at_end(mark, false)) by {
        assert(open_at_end(empty, true));
    }
    assert(outside_escapes(mark, false) =~= empty) by {
        assert(outside_escapes(empty, true) =~= empty);
    }
    lemma_outside_append(mark, shown, false);
    lemma_outside_append(before, mark + shown, false);
    assert(before + (empty + empty) =~= before);
}

/// A character that leaves no mark, and is no escape character, goes alone.
pub proof fn law_unmarked_goes_alone(before: Seq<char>, ch: char, behind: Seq<char>)
    requires
        forall|i: int| 0 <= i < before.len() ==> '!' <= #[trigger] before[i] <= '~',
        forall|i: int| 0 <= i < before.len() - 1 ==> !(#[trigger] before[i] == '^' && before[i + 1]
            == '['),
        ch < '!' || ch > '~',
        ch != '\u{1b}',
    ensures
        cleaned(before + (seq![ch] + behind)) == before + cleaned(behind),
{
    let empty = Seq::<char>::empty();
    let one = seq![ch];
    assert(is_clean(before)) by {
        assert forall|i: int| 0 <= i < before.len() implies is_graphic(#[trigger] before[i]) by {}
    }
    law_clean_topic_stays(before);
    lemma_no_escapes(before);
    lemma_graphic_is_closed(before);
    assert(with_escapes(one) =~= one) by {
        assert(one.skip(1) =~= empty);
        assert(with_escapes(empty) =~= empty);
    }
    lemma_escapes_append(one, behind);
    lemma_escapes_append(before, one + behind);
    let shown = with_escapes(behind);
    assert(one.skip(1) =~= empty);
    assert(!open_at_end(one, false)) by {
        assert(!open_at_end(empty, false));
    }
    assert(outside_escapes(one, false) =~= empty) by {
        assert(outside_escapes(empty, false) =~= empty);
    }
    lemma_outside_append(one, shown, false);
    lemma_outside_append(before, one + shown, false);
    assert(before + (empty + cleaned(behind)) =~= before + cleaned(behind));
}

} // verus!
