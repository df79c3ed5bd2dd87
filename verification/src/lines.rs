//! The lines of a file: its bytes cut after each line feed, each piece
//! decoded and freed of its line break.

use vstd::prelude::*;
use vstd::string::*;
use vstd::utf8::*;

verus! {

/// The lines of a file as texts; a line that could not be read or decoded
/// has none.
pub open spec fn texts(lines: Seq<Option<String>>) -> Seq<Option<Seq<char>>> {
    lines.map_values(
        |l: Option<String>|
            match l {
                Some(s) => Some(s@),
                None => None,
            },
    )
}

/// The byte that ends a line.
pub const LINE_FEED: u8 = 10;

/// The byte that may stand before the line feed and belongs to the break.
pub const CARRIAGE_RETURN: u8 = 13;

/// The bytes of a file, cut after each line feed. What follows the last
/// line feed is a chunk of its own if it is not empty.
pub open spec fn chunks(bytes: Seq<u8>) -> Seq<Seq<u8>>
    decreases bytes.len(),
{
    if bytes.len() == 0 {
        Seq::empty()
    } else {
        let earlier = chunks(bytes.drop_last());
        if earlier.len() > 0 && earlier.last().last() != LINE_FEED {
            earlier.drop_last().push(earlier.last().push(bytes.last()))
        } else {
            earlier.push(seq![bytes.last()])
        }
    }
}

/// A chunk without its line break: without the line feed at its end and
/// the carriage return before that. A carriage return that no line feed
/// follows stays.
pub open spec fn strip_break(chunk: Seq<u8>) -> Seq<u8> {
    if chunk.len() > 0 && chunk.last() == LINE_FEED {
        let head = chunk.drop_last();
        if head.len() > 0 && head.last() == CARRIAGE_RETURN {
            head.drop_last()
        } else {
            head
        }
    } else {
        chunk
    }
}

/// The text of a chunk: what its bytes spell, without the line break. A
/// chunk that is not UTF-8 has no text.
pub open spec fn line_text(chunk: Seq<u8>) -> Option<Seq<char>> {
    if valid_utf8(chunk) {
        Some(decode_utf8(strip_break(chunk)))
    } else {
        None
    }
}

/// The lines of a file: the text of each chunk, in order.
pub open spec fn lines_of(bytes: Seq<u8>) -> Seq<Option<Seq<char>>> {
    chunks(bytes).map_values(|chunk: Seq<u8>| line_text(chunk))
}

/// `std::str::from_utf8`: the bytes as a string slice, if they are UTF-8.
#[verifier::external_body]
pub(crate) fn decode<'a>(bytes: &'a [u8]) -> (r: Option<&'a str>)
    ensures
        r is Some <==> valid_utf8(bytes@),
        r matches Some(text) ==> text.spec_bytes() == bytes@,
{
    std::str::from_utf8(bytes).ok()
}

/// Takes the line break off the end of a chunk's text.
fn without_break(text: &str) -> (out: &str)
    ensures
        out.spec_bytes() == strip_break(text.spec_bytes()),
{
    let bytes = text.as_bytes();
    let n = bytes.len();
    proof {
        encode_utf8_valid_utf8(text@);
    }
    if n > 0 && bytes[n - 1] == LINE_FEED {
        proof {
            is_char_boundary_iff_not_is_continuation_byte(bytes@, n - 1);
        }
        let (head, _) = text.split_at(n - 1);
        assert(head.spec_bytes() =~= bytes@.drop_last());
        let head_bytes = head.as_bytes();
        let m = head_bytes.len();
        if m > 0 && head_bytes[m - 1] == CARRIAGE_RETURN {
            proof {
                encode_utf8_valid_utf8(head@);
                is_char_boundary_iff_not_is_continuation_byte(head_bytes@, m - 1);
            }
            let (front, _) = head.split_at(m - 1);
            assert(front.spec_bytes() =~= head_bytes@.drop_last());
            front
        } else {
            head
        }
    } else {
        text
    }
}

/// Reads one chunk: its text without the line break, or nothing where the
/// chunk is not UTF-8.
pub fn read_chunk(chunk: &[u8]) -> (line: Option<String>)
    ensures
        match line {
            Some(text) => line_text(chunk@) == Some(text@),
            None => line_text(chunk@) is None,
        },
{
    match decode(chunk) {
        Some(text) => {
            let stripped = without_break(text);
            proof {
                encode_utf8_decode_utf8(stripped@);
            }
            Some(stripped.to_owned())
        },
        None => None,
    }
}

/// Splits the bytes of a file into its lines. A line ends with a line
/// feed; what follows the last line feed is a line too, unless it is empty.
/// A line that is not UTF-8 is `None`, and the lines after it are read as
/// usual.
pub fn split_lines(content: &[u8]) -> (lines: Vec<Option<String>>)
    ensures
        texts(lines@) == lines_of(content@),
{
    let mut lines: Vec<Option<String>> = Vec::new();
    let mut begin: usize = 0;
    let mut i: usize = 0;
    assert(content@.take(0) =~= Seq::empty());
    while i < content.len()
        invariant
            0 <= begin <= i <= content.len(),
            begin == i ==> chunks(content@.take(i as int)).len() == lines.len(),
            begin == i && lines.len() > 0 ==> chunks(content@.take(i as int)).last().last()
                == LINE_FEED,
            begin < i ==> chunks(content@.take(i as int)).len() == lines.len() + 1,
            begin < i ==> chunks(content@.take(i as int)).last() == content@.subrange(
                begin as int,
                i as int,
            ),
            begin < i ==> content@[i - 1] != LINE_FEED,
            forall|k: int|
                0 <= k < lines.len() ==> #[trigger] texts(lines@)[k] == line_text(
                    chunks(content@.take(i as int))[k],
                ),
        decreases content.len() - i,
    {
        let ghost before = chunks(content@.take(i as int));
        let ghost now = chunks(content@.take(i + 1));
        let ghost chunk = content@.subrange(begin as int, i + 1);
        proof {
            assert(content@.take(i + 1).drop_last() =~= content@.take(i as int));
            assert(content@.take(i + 1).last() == content@[i as int]);
            if begin < i {
                assert(content@.subrange(begin as int, i as int).last() == content@[i - 1]);
                assert(now == before.drop_last().push(before.last().push(content@[i as int])));
                assert(before.last().push(content@[i as int]) =~= chunk);
            } else {
                assert(now == before.push(seq![content@[i as int]]));
                assert(seq![content@[i as int]] =~= chunk);
            }
            assert(now.len() == lines.len() + 1);
            assert(now.last() == chunk);
            assert forall|k: int| 0 <= k < lines.len() implies now[k] == before[k] by {}
        }
        if content[i] == LINE_FEED {
            let ghost old_lines = texts(lines@);
            let line = read_chunk(&content[begin..i + 1]);
            lines.push(line);
            begin = i + 1;
            proof {
                assert(chunk.last() == LINE_FEED);
                assert forall|k: int| 0 <= k < lines.len() implies #[trigger] texts(lines@)[k]
                    == line_text(now[k]) by {
                    if k < lines.len() - 1 {
                        assert(texts(lines@)[k] == old_lines[k]);
                    }
                }
            }
        }
        i += 1;
    }
    assert(content@.take(i as int) =~= content@);
    if begin < i {
        let ghost old_lines = texts(lines@);
        let line = read_chunk(&content[begin..i]);
        lines.push(line);
        proof {
            assert forall|k: int| 0 <= k < lines.len() implies #[trigger] texts(lines@)[k]
                == line_text(chunks(content@)[k]) by {
                if k < lines.len() - 1 {
                    assert(texts(lines@)[k] == old_lines[k]);
                }
            }
        }
    }
    assert(texts(lines@) =~= lines_of(content@));
    lines
}

/// The chunks are the file, cut after its line feeds and nowhere else:
/// put in a row they give the bytes back, none is empty, a line feed stands
/// only at the end of a chunk, and only the last chunk may lack it.
pub proof fn chunks_cut_after_line_feeds(bytes: Seq<u8>)
    ensures
        chunks(bytes).flatten() == bytes,
        forall|k: int| 0 <= k < chunks(bytes).len() ==> (#[trigger] chunks(bytes)[k]).len() > 0,
        forall|k: int, j: int|
            0 <= k < chunks(bytes).len() && 0 <= j < chunks(bytes)[k].len() - 1
                ==> #[trigger] chunks(bytes)[k][j] != LINE_FEED,
        forall|k: int|
            0 <= k < chunks(bytes).len() - 1 ==> (#[trigger] chunks(bytes)[k]).last()
                == LINE_FEED,
    decreases bytes.len(),
{
    let now = chunks(bytes);
    now.lemma_flatten_and_flatten_alt_are_equivalent();
    if bytes.len() > 0 {
        let earlier = chunks(bytes.drop_last());
        let b = bytes.last();
        chunks_cut_after_line_feeds(bytes.drop_last());
        earlier.lemma_flatten_and_flatten_alt_are_equivalent();
        if earlier.len() > 0 && earlier.last().last() != LINE_FEED {
            let grown = earlier.last().push(b);
            assert(now.drop_last() =~= earlier.drop_last());
            assert(now.last() == grown);
            assert(now.flatten_alt() =~= earlier.flatten_alt().push(b));
            assert forall|k: int| 0 <= k < now.len() - 1 implies now[k] == earlier[k] by {}
            assert forall|k: int, j: int|
                0 <= k < now.len() && 0 <= j < now[k].len() - 1 implies #[trigger] now[k][j]
                != LINE_FEED by {
                if k == now.len() - 1 {
                    if j < earlier.last().len() - 1 {
                        assert(now[k][j] == earlier[k][j]);
                    } else {
                        assert(now[k][j] == earlier.last().last());
                    }
                } else {
                    assert(now[k][j] == earlier[k][j]);
                }
            }
        } else {
            assert(now.drop_last() =~= earlier);
            assert(now.last() == seq![b]);
            assert(now.flatten_alt() =~= earlier.flatten_alt().push(b));
            assert forall|k: int| 0 <= k < now.len() - 1 implies now[k] == earlier[k] by {}
            assert forall|k: int, j: int|
                0 <= k < now.len() && 0 <= j < now[k].len() - 1 implies #[trigger] now[k][j]
                != LINE_FEED by {
                if k < now.len() - 1 {
                    assert(now[k][j] == earlier[k][j]);
                }
            }
            assert forall|k: int| 0 <= k < now.len() - 1 implies (#[trigger] now[k]).last()
                == LINE_FEED by {
                if k < earlier.len() - 1 {
                    assert(earlier[k].last() == LINE_FEED);
                }
            }
        }
        assert(bytes.drop_last().push(b) =~= bytes);
    } else {
        assert(now.flatten_alt() =~= bytes);
    }
}

} // verus!
