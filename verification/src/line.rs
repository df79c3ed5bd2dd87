//! One matching line, rendered: its number, the character column at which the
//! match starts, and the line's text with the match highlighted.

use crate::paint::{
    align_left, align_right, aligned_holds_text, blue_right, cyan_left, is_highlighted, is_painted,
    no_escape_no_reset, occurs_in, occurs_in_middle, occurs_in_part, painted_holds_text, red,
    reset_mark, restyled, style_mark, Tint,
};
use std::ops::Range;
use vstd::prelude::*;
use vstd::string::*;
use vstd::utf8::*;

verus! {

/// The width of the field that holds the line number.
pub const NUMBER_WIDTH: u8 = 6;

/// The width of the field that holds the column.
pub const COLUMN_WIDTH: u8 = 3;

/// The character that writes the digit `d`.
pub open spec fn digit_char(d: nat) -> char {
    if d == 0 {
        '0'
    } else if d == 1 {
        '1'
    } else if d == 2 {
        '2'
    } else if d == 3 {
        '3'
    } else if d == 4 {
        '4'
    } else if d == 5 {
        '5'
    } else if d == 6 {
        '6'
    } else if d == 7 {
        '7'
    } else if d == 8 {
        '8'
    } else {
        '9'
    }
}

/// `n` written in decimal, without leading zeros.
pub open spec fn decimal(n: nat) -> Seq<char>
    decreases n,
{
    if n < 10 {
        seq![digit_char(n)]
    } else {
        decimal(n / 10) + seq![digit_char(n % 10)]
    }
}

/// The digit that a character writes; a character that is no digit counts
/// as nine.
pub open spec fn digit_value(c: char) -> nat {
    if c == '0' {
        0
    } else if c == '1' {
        1
    } else if c == '2' {
        2
    } else if c == '3' {
        3
    } else if c == '4' {
        4
    } else if c == '5' {
        5
    } else if c == '6' {
        6
    } else if c == '7' {
        7
    } else if c == '8' {
        8
    } else {
        9
    }
}

/// The number that a row of digits writes in base ten.
pub open spec fn number_of(digits: Seq<char>) -> nat
    decreases digits.len(),
{
    if digits.len() == 0 {
        0
    } else {
        number_of(digits.drop_last()) * 10 + digit_value(digits.last())
    }
}

/// The characters that the bytes `from..to` of `line`'s encoding spell.
pub open spec fn piece(line: Seq<char>, from: int, to: int) -> Seq<char> {
    decode_utf8(encode_utf8(line).subrange(from, to))
}

/// The number of bytes that `line` takes.
pub open spec fn byte_len(line: Seq<char>) -> int {
    encode_utf8(line).len() as int
}

/// Whether the bytes `start..end` of `line`'s encoding are a run of whole
/// characters.
pub open spec fn is_span(line: Seq<char>, start: int, end: int) -> bool {
    start <= end && is_char_boundary(encode_utf8(line), start) && is_char_boundary(
        encode_utf8(line),
        end,
    )
}

/// The column of the byte offset `start`: one more than the number of
/// characters before it.
pub open spec fn column_of(line: Seq<char>, start: int) -> nat {
    piece(line, 0, start).len() + 1
}

/// A rendered line, from its parts.
pub open spec fn layout(
    number: Seq<char>,
    column: Seq<char>,
    before: Seq<char>,
    hit: Seq<char>,
    after: Seq<char>,
) -> Seq<char> {
    number + seq![':'] + column + seq![' '] + before + hit + after
}

/// Whether `out` renders the match `start..end` in line `lineno`: the blue
/// number in its field, a colon, the cyan column in its field, a space, and
/// the line with the match in red.
pub open spec fn is_formatted(
    out: Seq<char>,
    line: Seq<char>,
    lineno: nat,
    start: int,
    end: int,
) -> bool {
    exists|number: Seq<char>, column: Seq<char>, hit: Seq<char>|
        #[trigger] is_rendering(out, line, lineno, start, end, number, column, hit)
}

/// Whether `out` is the rendering with these three painted parts.
pub open spec fn is_rendering(
    out: Seq<char>,
    line: Seq<char>,
    lineno: nat,
    start: int,
    end: int,
    number: Seq<char>,
    column: Seq<char>,
    hit: Seq<char>,
) -> bool {
    &&& is_painted(number, align_right(decimal(lineno), NUMBER_WIDTH as nat), Tint::Blue)
    &&& is_painted(
        column,
        align_left(decimal(column_of(line, start)), COLUMN_WIDTH as nat),
        Tint::Cyan,
    )
    &&& is_highlighted(hit, piece(line, start, end), Tint::Red)
    &&& out == layout(
        number,
        column,
        piece(line, 0, start),
        hit,
        piece(line, end, byte_len(line)),
    )
}

/// The text of one digit.
fn digit_text(d: u128) -> (out: &'static str)
    requires
        d < 10,
    ensures
        out@ == seq![digit_char(d as nat)],
{
    proof {
        reveal_strlit("0");
        reveal_strlit("1");
        reveal_strlit("2");
        reveal_strlit("3");
        reveal_strlit("4");
        reveal_strlit("5");
        reveal_strlit("6");
        reveal_strlit("7");
        reveal_strlit("8");
        reveal_strlit("9");
    }
    let out = if d == 0 {
        "0"
    } else if d == 1 {
        "1"
    } else if d == 2 {
        "2"
    } else if d == 3 {
        "3"
    } else if d == 4 {
        "4"
    } else if d == 5 {
        "5"
    } else if d == 6 {
        "6"
    } else if d == 7 {
        "7"
    } else if d == 8 {
        "8"
    } else {
        "9"
    };
    assert(out@ =~= seq![digit_char(d as nat)]);
    out
}

/// Writes `n` in decimal.
pub fn decimal_text(n: u128) -> (out: String)
    ensures
        out@ == decimal(n as nat),
    decreases n,
{
    if n < 10 {
        digit_text(n).to_owned()
    } else {
        decimal_text(n / 10).concat(digit_text(n % 10))
    }
}

/// `decimal` is the usual notation: read in base ten it gives the number
/// back, and but for zero itself it does not start with a zero.
pub proof fn decimal_reads_back(n: nat)
    ensures
        number_of(decimal(n)) == n,
        decimal(n).len() >= 1,
        n > 0 ==> decimal(n)[0] != '0',
    decreases n,
{
    if n < 10 {
        assert(decimal(n).drop_last() =~= Seq::<char>::empty());
        assert(number_of(decimal(n)) == number_of(Seq::<char>::empty()) * 10 + digit_value(
            digit_char(n),
        ));
    } else {
        decimal_reads_back(n / 10);
        assert(decimal(n).drop_last() =~= decimal(n / 10));
        assert(decimal(n)[0] == decimal(n / 10)[0]);
    }
}

/// A decimal number is made of digits, so the escape character is not in it.
pub proof fn decimal_has_no_escape(n: nat)
    ensures
        decimal(n).len() >= 1,
        forall|i: int| 0 <= i < decimal(n).len() ==> #[trigger] decimal(n)[i] != '\x1b',
    decreases n,
{
    if n >= 10 {
        decimal_has_no_escape(n / 10);
    }
}

/// Puts a rendered line together from its five parts: the number, a colon,
/// the column, a space, and the three pieces of the line.
pub fn assemble_line(number: &str, column: &str, before: &str, hit: &str, after: &str) -> (out:
    String)
    ensures
        out@ == layout(number@, column@, before@, hit@, after@),
{
    proof {
        reveal_strlit(":");
        reveal_strlit(" ");
    }
    let mut out = String::new();
    out.append(number);
    out.append(":");
    out.append(column);
    out.append(" ");
    out.append(before);
    out.append(hit);
    out.append(after);
    assert(out@ =~= layout(number@, column@, before@, hit@, after@));
    out
}

/// A boundary of a line that lies at or after another boundary is a boundary
/// of what follows that one.
proof fn boundary_in_rest(bytes: Seq<u8>, start: int, end: int)
    requires
        valid_utf8(bytes),
        start <= end,
        is_char_boundary(bytes, start),
        is_char_boundary(bytes, end),
    ensures
        0 <= start <= end <= bytes.len(),
        valid_utf8(bytes.subrange(start, bytes.len() as int)),
        is_char_boundary(bytes.subrange(start, bytes.len() as int), end - start),
{
    let rest = bytes.subrange(start, bytes.len() as int);
    valid_utf8_split(bytes, start);
    if end == start {
    } else if end == bytes.len() {
        is_char_boundary_start_end_of_seq(rest);
    } else {
        is_char_boundary_iff_not_is_continuation_byte(bytes, end);
        assert(rest[end - start] == bytes[end]);
        is_char_boundary_iff_not_is_continuation_byte(rest, end - start);
    }
}

/// Whether `range` is a run of whole characters of `line`, so that it can
/// be rendered as a match.
pub fn is_match_range(line: &str, range: &Range<usize>) -> (ok: bool)
    ensures
        ok == is_span(line@, range.start as int, range.end as int),
{
    range.start <= range.end && line.is_char_boundary(range.start) && line.is_char_boundary(
        range.end,
    )
}

/// Renders the match `range` (byte offsets of whole characters) in `line`,
/// which is line `lineno` of its file.
pub fn format_line(line: &str, lineno: usize, range: Range<usize>) -> (out: String)
    requires
        is_span(line@, range.start as int, range.end as int),
    ensures
        is_formatted(out@, line@, lineno as nat, range.start as int, range.end as int),
{
    let start = range.start;
    let end = range.end;
    let ghost bytes = line.spec_bytes();
    proof {
        encode_utf8_valid_utf8(line@);
        boundary_in_rest(bytes, start as int, end as int);
    }
    let (before, rest) = line.split_at(start);
    proof {
        encode_utf8_valid_utf8(rest@);
        assert(rest.spec_bytes() =~= bytes.subrange(start as int, bytes.len() as int));
    }
    let (hit, after) = rest.split_at(end - start);
    proof {
        assert(before.spec_bytes() =~= bytes.subrange(0, start as int));
        assert(hit.spec_bytes() =~= bytes.subrange(start as int, end as int));
        assert(after.spec_bytes() =~= bytes.subrange(end as int, bytes.len() as int));
        encode_utf8_decode_utf8(before@);
        encode_utf8_decode_utf8(hit@);
        encode_utf8_decode_utf8(after@);
        assert(before@ == piece(line@, 0, start as int));
        assert(hit@ == piece(line@, start as int, end as int));
        assert(after@ == piece(line@, end as int, byte_len(line@)));
    }
    let number_text = decimal_text(lineno as u128);
    let column_text = decimal_text(before.unicode_len() as u128 + 1);
    proof {
        decimal_has_no_escape(lineno as nat);
        decimal_has_no_escape(column_of(line@, start as int));
        no_escape_no_reset(decimal(lineno as nat));
        no_escape_no_reset(decimal(column_of(line@, start as int)));
    }
    let number = blue_right(number_text.as_str(), NUMBER_WIDTH);
    let column = cyan_left(column_text.as_str(), COLUMN_WIDTH);
    let painted = red(hit);
    let out = assemble_line(number.as_str(), column.as_str(), before, painted.as_str(), after);
    assert(is_rendering(
        out@,
        line@,
        lineno as nat,
        start as int,
        end as int,
        number@,
        column@,
        painted@,
    ));
    out
}

/// A rendered line shows the line's number in decimal, right-aligned in its
/// field, and the column in decimal: one more than the number of characters
/// before the match.
pub proof fn formatted_line_shows_number_and_column(
    out: Seq<char>,
    line: Seq<char>,
    lineno: nat,
    start: int,
    end: int,
)
    requires
        is_formatted(out, line, lineno, start, end),
    ensures
        occurs_in(align_right(decimal(lineno), NUMBER_WIDTH as nat), out),
        occurs_in(decimal(lineno), out),
        occurs_in(align_left(decimal(column_of(line, start)), COLUMN_WIDTH as nat), out),
        occurs_in(decimal(column_of(line, start)), out),
{
    let (number, column, hit) = choose|number: Seq<char>, column: Seq<char>, hit: Seq<char>|
        #[trigger] is_rendering(out, line, lineno, start, end, number, column, hit);
    let number_field = align_right(decimal(lineno), NUMBER_WIDTH as nat);
    let column_field = align_left(decimal(column_of(line, start)), COLUMN_WIDTH as nat);
    let tail = seq![' '] + piece(line, 0, start) + hit + piece(line, end, byte_len(line));
    occurs_in_middle(Seq::empty(), number, seq![':'] + column + tail);
    assert(Seq::<char>::empty() + number + (seq![':'] + column + tail) =~= out);
    occurs_in_middle(number + seq![':'], column, tail);
    assert(number + seq![':'] + column + tail =~= out);
    painted_holds_text(number, number_field, Tint::Blue);
    painted_holds_text(column, column_field, Tint::Cyan);
    occurs_in_part(number_field, number, out);
    occurs_in_part(column_field, column, out);
    aligned_holds_text(decimal(lineno), NUMBER_WIDTH as nat);
    aligned_holds_text(decimal(column_of(line, start)), COLUMN_WIDTH as nat);
    occurs_in_part(decimal(lineno), number_field, out);
    occurs_in_part(decimal(column_of(line, start)), column_field, out);
}

/// The column counts characters, not bytes: the characters before a match
/// that starts at the byte offset `start` are the first `column - 1`
/// characters of the line.
pub proof fn column_counts_characters(line: Seq<char>, start: int)
    requires
        is_char_boundary(encode_utf8(line), start),
    ensures
        column_of(line, start) - 1 <= line.len(),
        piece(line, 0, start) == line.subrange(0, column_of(line, start) - 1),
{
    let bytes = encode_utf8(line);
    encode_utf8_valid_utf8(line);
    encode_utf8_decode_utf8(line);
    decode_utf8_split(bytes, start);
    let front = decode_utf8(bytes.subrange(0, start));
    let back = decode_utf8(bytes.subrange(start, bytes.len() as int));
    assert(line =~= front + back);
    assert(line.subrange(0, front.len() as int) =~= front);
}

/// The three pieces of a rendered line, taken together, are the line: what
/// stands before the match, the match, and what follows it.
pub proof fn pieces_make_line(line: Seq<char>, start: int, end: int)
    requires
        is_span(line, start, end),
    ensures
        piece(line, 0, start) + piece(line, start, end) + piece(line, end, byte_len(line))
            == line,
{
    let bytes = encode_utf8(line);
    let rest = bytes.subrange(start, bytes.len() as int);
    encode_utf8_valid_utf8(line);
    encode_utf8_decode_utf8(line);
    boundary_in_rest(bytes, start, end);
    decode_utf8_split(bytes, start);
    decode_utf8_split(rest, end - start);
    assert(rest.subrange(0, end - start) =~= bytes.subrange(start, end));
    assert(rest.subrange(end - start, rest.len() as int) =~= bytes.subrange(
        end,
        bytes.len() as int,
    ));
    assert(piece(line, 0, start) + piece(line, start, end) + piece(line, end, byte_len(line))
        =~= line);
}

/// Whether the escape character stands in `text`.
pub open spec fn has_escape(text: Seq<char>) -> bool {
    exists|i: int| 0 <= i < text.len() && #[trigger] text[i] == '\x1b'
}

/// The rendering with colours switched off: every part as it is.
pub open spec fn plain_line(line: Seq<char>, lineno: nat, start: int, end: int) -> Seq<char> {
    layout(
        align_right(decimal(lineno), NUMBER_WIDTH as nat),
        align_left(decimal(column_of(line, start)), COLUMN_WIDTH as nat),
        piece(line, 0, start),
        piece(line, start, end),
        piece(line, end, byte_len(line)),
    )
}

/// A text that was printed in a colour and holds no escape character is
/// the text as it was.
proof fn unpainted(out: Seq<char>, text: Seq<char>, tint: Tint)
    requires
        is_highlighted(out, text, tint),
        !has_escape(out),
    ensures
        out == text,
{
    let body = restyled(text, style_mark(tint));
    if out == style_mark(tint) + text + reset_mark() || out == style_mark(tint) + body
        + reset_mark() {
        assert(out[0] == '\x1b');
    } else if out == text + reset_mark() {
        assert(out[text.len() as int] == '\x1b');
    } else if out == body + reset_mark() {
        assert(out[body.len() as int] == '\x1b');
    }
}

/// A rendering without colour marks is the plain rendering: a line, a
/// number and a range have exactly one rendering in which the escape
/// character does not stand.
pub proof fn plain_rendering_is_determined(
    out: Seq<char>,
    line: Seq<char>,
    lineno: nat,
    start: int,
    end: int,
)
    requires
        is_formatted(out, line, lineno, start, end),
        !has_escape(out),
    ensures
        out == plain_line(line, lineno, start, end),
{
    let (number, column, hit) = choose|number: Seq<char>, column: Seq<char>, hit: Seq<char>|
        #[trigger] is_rendering(out, line, lineno, start, end, number, column, hit);
    let before = piece(line, 0, start);
    assert forall|i: int| 0 <= i < number.len() implies #[trigger] number[i] != '\x1b' by {
        assert(out[i] == number[i]);
    }
    assert forall|i: int| 0 <= i < column.len() implies #[trigger] column[i] != '\x1b' by {
        assert(out[number.len() + 1 + i] == column[i]);
    }
    assert forall|i: int| 0 <= i < hit.len() implies #[trigger] hit[i] != '\x1b' by {
        assert(out[number.len() + 1 + column.len() + 1 + before.len() + i] == hit[i]);
    }
    unpainted(number, align_right(decimal(lineno), NUMBER_WIDTH as nat), Tint::Blue);
    unpainted(
        column,
        align_left(decimal(column_of(line, start)), COLUMN_WIDTH as nat),
        Tint::Cyan,
    );
    unpainted(hit, piece(line, start, end), Tint::Red);
}

/// Rendering is repeatable: two renderings of the same line, number and
/// range that carry no colour marks are the same text.
pub proof fn plain_renderings_agree(
    first: Seq<char>,
    second: Seq<char>,
    line: Seq<char>,
    lineno: nat,
    start: int,
    end: int,
)
    requires
        is_formatted(first, line, lineno, start, end),
        is_formatted(second, line, lineno, start, end),
        !has_escape(first),
        !has_escape(second),
    ensures
        first == second,
{
    plain_rendering_is_determined(first, line, lineno, start, end);
    plain_rendering_is_determined(second, line, lineno, start, end);
}

} // verus!
