//! Terminal colours, as the `colored` crate renders them, and the padding
//! that comes with them.

use colored::Colorize;
use vstd::prelude::*;

verus! {

/// The foreground colours that the output uses.
pub enum Tint {
    Red,
    Green,
    Blue,
    Cyan,
}

/// The two digits that select a foreground colour in an escape sequence.
pub open spec fn tint_code(tint: Tint) -> Seq<char> {
    match tint {
        Tint::Red => seq!['3', '1'],
        Tint::Green => seq!['3', '2'],
        Tint::Blue => seq!['3', '4'],
        Tint::Cyan => seq!['3', '6'],
    }
}

/// The escape sequence that switches a foreground colour on.
pub open spec fn style_mark(tint: Tint) -> Seq<char> {
    seq!['\x1b', '['] + tint_code(tint) + seq!['m']
}

/// The escape sequence that switches every style off.
pub open spec fn reset_mark() -> Seq<char> {
    seq!['\x1b', '[', '0', 'm']
}

/// Whether `text` holds the reset sequence somewhere.
pub open spec fn holds_reset(text: Seq<char>) -> bool {
    exists|i: int| 0 <= i && i + 4 <= text.len() && #[trigger] text.subrange(i, i + 4) == reset_mark()
}

/// What a coloured `text` may print as. Whether colours are switched on is a
/// setting of the process: with colours off the text prints as it is, with
/// colours on it stands between the colour's mark and the reset mark. Should
/// the setting be turned off while the text is being printed, the reset mark
/// alone may follow it.
pub open spec fn is_painted(out: Seq<char>, text: Seq<char>, tint: Tint) -> bool {
    out == text || out == style_mark(tint) + text + reset_mark() || out == text + reset_mark()
}

/// `text` as the `colored` crate prepares it for printing in a colour: after
/// each reset sequence in the text, from left to right, stands the colour's
/// mark again, so that the colour goes on behind it.
pub open spec fn restyled(text: Seq<char>, style: Seq<char>) -> Seq<char>
    decreases text.len(),
{
    if text.len() == 0 {
        text
    } else if text.len() >= 4 && text.subrange(0, 4) == reset_mark() {
        reset_mark() + style + restyled(text.skip(4), style)
    } else {
        seq![text[0]] + restyled(text.skip(1), style)
    }
}

/// What a coloured `text` may print as, whatever it holds. With colours off
/// it prints as it is. With colours on it is prepared as `restyled` says and
/// stands between the colour's mark and the reset mark. Should the setting
/// change while the text is being printed, the mark in front or the marks
/// inside may be missing; the reset mark at the end is there.
pub open spec fn is_highlighted(out: Seq<char>, text: Seq<char>, tint: Tint) -> bool {
    ||| is_painted(out, text, tint)
    ||| out == style_mark(tint) + restyled(text, style_mark(tint)) + reset_mark()
    ||| out == restyled(text, style_mark(tint)) + reset_mark()
}

/// `n` spaces.
pub open spec fn spaces(n: nat) -> Seq<char> {
    Seq::new(n, |i: int| ' ')
}

/// `text` moved to the right end of a field of `width` characters; a longer
/// text is left as it is.
pub open spec fn align_right(text: Seq<char>, width: nat) -> Seq<char> {
    if text.len() >= width {
        text
    } else {
        spaces((width - text.len()) as nat) + text
    }
}

/// `text` at the left end of a field of `width` characters; a longer text is
/// left as it is.
pub open spec fn align_left(text: Seq<char>, width: nat) -> Seq<char> {
    if text.len() >= width {
        text
    } else {
        text + spaces((width - text.len()) as nat)
    }
}

/// Whether `part` stands somewhere inside `whole`, as one run of characters.
pub open spec fn occurs_in(part: Seq<char>, whole: Seq<char>) -> bool {
    exists|i: int|
        0 <= i && i + part.len() <= whole.len() && #[trigger] whole.subrange(i, i + part.len())
            == part
}

/// A text without the escape character holds no reset sequence.
pub proof fn no_escape_no_reset(text: Seq<char>)
    requires
        forall|i: int| 0 <= i < text.len() ==> text[i] != '\x1b',
    ensures
        !holds_reset(text),
{
    assert forall|i: int| 0 <= i && i + 4 <= text.len() implies #[trigger] text.subrange(i, i + 4)
        != reset_mark() by {
        assert(text.subrange(i, i + 4)[0] == text[i]);
        assert(reset_mark()[0] == '\x1b');
    }
}

/// However a text was painted, it stands inside what was printed.
pub proof fn painted_holds_text(out: Seq<char>, text: Seq<char>, tint: Tint)
    requires
        is_painted(out, text, tint),
    ensures
        occurs_in(text, out),
{
    if out == text {
        assert(out.subrange(0int, 0int + text.len()) =~= text);
    } else if out == style_mark(tint) + text + reset_mark() {
        let k = style_mark(tint).len() as int;
        assert(out.subrange(k, k + text.len()) =~= text);
    } else {
        assert(out.subrange(0int, 0int + text.len()) =~= text);
    }
}

/// What stands inside a part of a text stands inside the text.
pub proof fn occurs_in_part(part: Seq<char>, mid: Seq<char>, whole: Seq<char>)
    requires
        occurs_in(part, mid),
        occurs_in(mid, whole),
    ensures
        occurs_in(part, whole),
{
    let i = choose|i: int|
        0 <= i && i + part.len() <= mid.len() && #[trigger] mid.subrange(i, i + part.len())
            == part;
    let j = choose|j: int|
        0 <= j && j + mid.len() <= whole.len() && #[trigger] whole.subrange(j, j + mid.len())
            == mid;
    assert(whole.subrange(i + j, i + j + part.len()) =~= mid.subrange(i, i + part.len()));
}

/// A text stands inside any text that it was put into.
pub proof fn occurs_in_middle(front: Seq<char>, part: Seq<char>, back: Seq<char>)
    ensures
        occurs_in(part, front + part + back),
{
    let whole = front + part + back;
    let k = front.len() as int;
    assert(whole.subrange(k, k + part.len()) =~= part);
}

/// A text stands inside its field, whichever way it is aligned.
pub proof fn aligned_holds_text(text: Seq<char>, width: nat)
    ensures
        occurs_in(text, align_right(text, width)),
        occurs_in(text, align_left(text, width)),
        align_right(text, width).len() >= width,
        align_left(text, width).len() >= width,
{
    if text.len() >= width {
        occurs_in_middle(Seq::empty(), text, Seq::empty());
        assert(Seq::<char>::empty() + text + Seq::<char>::empty() =~= text);
    } else {
        let pad = spaces((width - text.len()) as nat);
        occurs_in_middle(pad, text, Seq::empty());
        assert(pad + text + Seq::<char>::empty() =~= pad + text);
        occurs_in_middle(Seq::empty(), text, pad);
        assert(Seq::<char>::empty() + text + pad =~= text + pad);
    }
}

/// A text without a reset sequence is printed without marks inside: to
/// highlight it is to paint it.
pub proof fn restyled_keeps_plain_text(text: Seq<char>, style: Seq<char>)
    requires
        !holds_reset(text),
    ensures
        restyled(text, style) == text,
    decreases text.len(),
{
    if text.len() > 0 {
        assert(text.len() >= 4 ==> text.subrange(0int, 0int + 4) != reset_mark());
        let rest = text.skip(1);
        assert forall|i: int| 0 <= i && i + 4 <= rest.len() implies #[trigger] rest.subrange(
            i,
            i + 4,
        ) != reset_mark() by {
            assert(rest.subrange(i, i + 4) =~= text.subrange(i + 1, i + 1 + 4));
        }
        restyled_keeps_plain_text(rest, style);
        assert(seq![text[0]] + rest =~= text);
    }
}

/// `Colorize::blue` of the `colored` crate, printed right-aligned in `width`
/// columns. The crate pads the text itself, inside the colour marks; a text
/// that holds a reset sequence is rewritten by it, and nothing is claimed of
/// that case.
#[verifier::external_body]
pub(crate) fn blue_right(text: &str, width: u8) -> (out: String)
    ensures
        !holds_reset(text@) ==> is_painted(out@, align_right(text@, width as nat), Tint::Blue),
{
    format!("{:>width$}", text.blue(), width = usize::from(width))
}

/// `Colorize::cyan` of the `colored` crate, printed left-aligned in `width`
/// columns. The crate pads the text itself, inside the colour marks; a text
/// that holds a reset sequence is rewritten by it, and nothing is claimed of
/// that case.
#[verifier::external_body]
pub(crate) fn cyan_left(text: &str, width: u8) -> (out: String)
    ensures
        !holds_reset(text@) ==> is_painted(out@, align_left(text@, width as nat), Tint::Cyan),
{
    format!("{:<width$}", text.cyan(), width = usize::from(width))
}

/// `Colorize::red` of the `colored` crate, printed without padding: the
/// text as it is, or between the marks of red and of reset, with the mark of
/// red again after each reset sequence inside.
#[verifier::external_body]
pub(crate) fn red(text: &str) -> (out: String)
    ensures
        is_highlighted(out@, text@, Tint::Red),
{
    text.red().to_string()
}

/// `Colorize::green` of the `colored` crate, printed without padding: the
/// text as it is, or between the marks of green and of reset, with the mark
/// of green again after each reset sequence inside.
#[verifier::external_body]
pub(crate) fn green(text: &str) -> (out: String)
    ensures
        is_highlighted(out@, text@, Tint::Green),
{
    text.green().to_string()
}

} // verus!
