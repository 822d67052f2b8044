//! Framing of a byte stream into text lines.
//!
//! A line ends at a line feed. The line feed is not part of the line, and
//! neither is one carriage return directly before it. What follows the last
//! line feed is unfinished: it becomes a line of its own only when the stream
//! ends, and then as it stands. Bytes that are not UTF-8 never stop a line:
//! they are replaced.

use vstd::prelude::*;
use vstd::slice::slice_subrange;
use vstd::utf8::{
    char_is_scalar, char_u32_cast, decode_utf8, encode_scalar, encode_utf8,
    encode_utf8_decode_utf8, encode_utf8_valid_utf8, is_scalar, valid_utf8,
};

verus! {

/// The byte that ends a line.
pub const LINE_FEED: u8 = 0x0A;

/// The byte that is tolerated before a line feed.
pub const CARRIAGE_RETURN: u8 = 0x0D;

/// The text that `String::from_utf8_lossy` makes of `bytes`: the decoded
/// characters, with U+FFFD in place of what is not UTF-8.
pub uninterp spec fn lossy_text(bytes: Seq<u8>) -> Seq<char>;

/// Decodes `bytes` with `String::from_utf8_lossy`. The result is a function
/// of the bytes alone; on valid UTF-8 it is the plain decoding.
#[verifier::external_body]
fn decode_lossy(bytes: &[u8]) -> (text: String)
    ensures
        text@ == lossy_text(bytes@),
        valid_utf8(bytes@) ==> text@ == decode_utf8(bytes@),
{
    String::from_utf8_lossy(bytes).into_owned()
}

/// The text that stands for `bytes`: their decoding where they are UTF-8,
/// else the decoding with replacements.
pub open spec fn text_of(bytes: Seq<u8>) -> Seq<char> {
    if valid_utf8(bytes) {
        decode_utf8(bytes)
    } else {
        lossy_text(bytes)
    }
}

/// The text of `bytes`, with replacements for what is not UTF-8.
pub fn decode(bytes: &[u8]) -> (text: String)
    ensures
        text@ == text_of(bytes@),
{
    decode_lossy(bytes)
}

/// Whether `bytes` holds no line feed.
pub open spec fn no_line_feed(bytes: Seq<u8>) -> bool {
    forall|i: int| 0 <= i < bytes.len() ==> bytes[i] != LINE_FEED
}

/// The number of bytes before the first line feed, or the length of `bytes`
/// where there is none.
pub open spec fn line_len(bytes: Seq<u8>) -> nat
    decreases bytes.len(),
{
    if bytes.len() == 0 || bytes.first() == LINE_FEED {
        0
    } else {
        1 + line_len(bytes.drop_first())
    }
}

/// The finished lines of `bytes`, in order, each without its line feed.
pub open spec fn raw_lines(bytes: Seq<u8>) -> Seq<Seq<u8>>
    decreases bytes.len(),
{
    let end = line_len(bytes) as int;
    if end >= bytes.len() {
        Seq::empty()
    } else {
        seq![bytes.take(end)] + raw_lines(bytes.skip(end + 1))
    }
}

/// What follows the last line feed of `bytes`; all of `bytes` where there is
/// none.
pub open spec fn unfinished(bytes: Seq<u8>) -> Seq<u8>
    decreases bytes.len(),
{
    let end = line_len(bytes) as int;
    if end >= bytes.len() {
        bytes
    } else {
        unfinished(bytes.skip(end + 1))
    }
}

/// A finished line without the carriage return that may end it.
pub open spec fn without_carriage_return(line: Seq<u8>) -> Seq<u8> {
    if line.len() > 0 && line.last() == CARRIAGE_RETURN {
        line.drop_last()
    } else {
        line
    }
}

/// The text of a finished line.
pub open spec fn line_text(line: Seq<u8>) -> Seq<char> {
    text_of(without_carriage_return(line))
}

/// The texts of finished lines.
pub open spec fn texts_of_lines(lines: Seq<Seq<u8>>) -> Seq<Seq<char>> {
    lines.map_values(|line: Seq<u8>| line_text(line))
}

/// The texts of the finished lines of `bytes`.
pub open spec fn line_texts(bytes: Seq<u8>) -> Seq<Seq<char>> {
    texts_of_lines(raw_lines(bytes))
}

/// The texts of all lines of a stream that ended after `bytes`: the finished
/// lines, then what was left unfinished, unless that is empty.
pub open spec fn output_texts(bytes: Seq<u8>) -> Seq<Seq<char>> {
    if unfinished(bytes).len() > 0 {
        line_texts(bytes).push(text_of(unfinished(bytes)))
    } else {
        line_texts(bytes)
    }
}

/// The texts that a sequence of strings holds.
pub open spec fn texts(lines: Seq<String>) -> Seq<Seq<char>> {
    lines.map_values(|line: String| line@)
}

/// The first line feed is where `line_len` says, and nowhere before.
pub proof fn lemma_line_len(bytes: Seq<u8>)
    ensures
        line_len(bytes) <= bytes.len(),
        no_line_feed(bytes.take(line_len(bytes) as int)),
        line_len(bytes) < bytes.len() ==> bytes[line_len(bytes) as int] == LINE_FEED,
    decreases bytes.len(),
{
    if bytes.len() == 0 || bytes.first() == LINE_FEED {
    } else {
        let rest = bytes.drop_first();
        lemma_line_len(rest);
        let end = line_len(bytes) as int;
        assert forall|i: int| 0 <= i < bytes.take(end).len() implies bytes.take(end)[i]
            != LINE_FEED by {
            if i > 0 {
                assert(rest.take(end - 1)[i - 1] == bytes[i]);
            }
        }
    }
}

/// An index with a line feed, or the end, and with no line feed before it is
/// the one that `line_len` gives.
pub proof fn lemma_line_len_is(bytes: Seq<u8>, end: int)
    requires
        0 <= end <= bytes.len(),
        no_line_feed(bytes.take(end)),
        end < bytes.len() ==> bytes[end] == LINE_FEED,
    ensures
        line_len(bytes) == end,
{
    lemma_line_len(bytes);
    let found = line_len(bytes) as int;
    if found < end {
        assert(bytes.take(end)[found] == bytes[found]);
    } else if found > end {
        assert(bytes.take(found)[end] == bytes[end]);
    }
}

/// Bytes without a line feed hold no finished line and are unfinished as a
/// whole.
pub proof fn lemma_no_line_feed(bytes: Seq<u8>)
    requires
        no_line_feed(bytes),
    ensures
        raw_lines(bytes) == Seq::<Seq<u8>>::empty(),
        unfinished(bytes) == bytes,
{
    assert(bytes.take(bytes.len() as int) =~= bytes);
    lemma_line_len_is(bytes, bytes.len() as int);
}

/// What is left unfinished holds no line feed.
pub proof fn lemma_unfinished_has_no_line_feed(bytes: Seq<u8>)
    ensures
        no_line_feed(unfinished(bytes)),
    decreases bytes.len(),
{
    lemma_line_len(bytes);
    let end = line_len(bytes) as int;
    if end >= bytes.len() {
        assert(bytes.take(end) =~= bytes);
    } else {
        lemma_unfinished_has_no_line_feed(bytes.skip(end + 1));
    }
}

/// No finished line holds a line feed.
pub proof fn lemma_lines_have_no_line_feed(bytes: Seq<u8>, i: int)
    requires
        0 <= i < raw_lines(bytes).len(),
    ensures
        no_line_feed(raw_lines(bytes)[i]),
    decreases bytes.len(),
{
    lemma_line_len(bytes);
    let end = line_len(bytes) as int;
    if i > 0 {
        lemma_lines_have_no_line_feed(bytes.skip(end + 1), i - 1);
    }
}

/// A line without a line feed, followed by a line feed and more bytes: the
/// line is the first finished line, and the rest is framed on its own.
pub proof fn lemma_first_line(line: Seq<u8>, rest: Seq<u8>)
    requires
        no_line_feed(line),
    ensures
        raw_lines(line.push(LINE_FEED) + rest) == seq![line] + raw_lines(rest),
        unfinished(line.push(LINE_FEED) + rest) == unfinished(rest),
{
    let bytes = line.push(LINE_FEED) + rest;
    let end = line.len() as int;
    assert(bytes.take(end) =~= line);
    assert(bytes.skip(end + 1) =~= rest);
    lemma_line_len_is(bytes, end);
}

/// The framing does not depend on how the stream is cut into pieces: the
/// finished lines of two pieces in a row are those of the first piece, then
/// those of what the first piece left unfinished followed by the second.
pub proof fn lemma_framing_in_pieces(first: Seq<u8>, second: Seq<u8>)
    ensures
        raw_lines(first + second) == raw_lines(first) + raw_lines(unfinished(first) + second),
        line_texts(first + second) == line_texts(first) + line_texts(unfinished(first) + second),
        unfinished(first + second) == unfinished(unfinished(first) + second),
    decreases first.len(),
{
    assert(texts_of_lines(raw_lines(first) + raw_lines(unfinished(first) + second))
        =~= texts_of_lines(raw_lines(first)) + texts_of_lines(
        raw_lines(unfinished(first) + second),
    ));
    lemma_line_len(first);
    let end = line_len(first) as int;
    if end >= first.len() {
        assert(first.take(end) =~= first);
        lemma_no_line_feed(first);
        assert(raw_lines(first) + raw_lines(first + second) =~= raw_lines(first + second));
    } else {
        let line = first.take(end);
        let rest = first.skip(end + 1);
        assert(first =~= line.push(LINE_FEED) + rest);
        assert(first + second =~= line.push(LINE_FEED) + (rest + second));
        lemma_first_line(line, rest);
        lemma_first_line(line, rest + second);
        lemma_framing_in_pieces(rest, second);
        assert(seq![line] + (raw_lines(rest) + raw_lines(unfinished(rest) + second)) =~= (seq![
            line,
        ] + raw_lines(rest)) + raw_lines(unfinished(rest) + second));
    }
}

/// Collects the bytes of a stream as they arrive and hands out each line as
/// soon as its line feed has come.
pub struct LineAssembler {
    /// The bytes since the last line feed.
    pending: Vec<u8>,
}

impl View for LineAssembler {
    type V = Seq<u8>;

    /// The bytes that arrived since the last line feed.
    closed spec fn view(&self) -> Seq<u8> {
        self.pending@
    }
}

impl LineAssembler {
    /// What is held back never holds a line feed.
    #[verifier::type_invariant]
    spec fn inv(self) -> bool {
        no_line_feed(self.pending@)
    }

    /// An assembler at the start of a stream.
    pub fn new() -> (assembler: Self)
        ensures
            assembler@ == Seq::<u8>::empty(),
    {
        LineAssembler { pending: Vec::new() }
    }

    /// Takes the next piece of the stream and returns the lines that it
    /// finishes, in order. The bytes after its last line feed are held back
    /// for the next piece.
    pub fn feed(&mut self, chunk: &[u8]) -> (lines: Vec<String>)
        ensures
            texts(lines@) == line_texts(old(self)@ + chunk@),
            final(self)@ == unfinished(old(self)@ + chunk@),
    {
        proof {
            use_type_invariant(&*self);
        }
        let ghost stream = self.pending@ + chunk@;
        let ghost mut done: Seq<Seq<u8>> = Seq::empty();
        let mut pending: Vec<u8> = Vec::new();
        core::mem::swap(&mut self.pending, &mut pending);
        let mut lines: Vec<String> = Vec::new();
        let mut i: usize = 0;
        assert(chunk@.skip(0) =~= chunk@);
        while i < chunk.len()
            invariant
                i <= chunk.len(),
                no_line_feed(pending@),
                raw_lines(stream) == done + raw_lines(pending@ + chunk@.skip(i as int)),
                unfinished(stream) == unfinished(pending@ + chunk@.skip(i as int)),
                texts(lines@) == texts_of_lines(done),
            decreases chunk.len() - i,
        {
            let byte = chunk[i];
            let ghost held = pending@;
            let ghost rest = chunk@.skip(i as int + 1);
            if byte == LINE_FEED {
                let line = finished_line(&pending);
                proof {
                    assert(held + chunk@.skip(i as int) =~= held.push(LINE_FEED) + rest);
                    lemma_first_line(held, rest);
                    assert(Seq::<u8>::empty() + rest =~= rest);
                    assert(done + (seq![held] + raw_lines(rest)) =~= done.push(held) + raw_lines(
                        rest,
                    ));
                    assert(texts(lines@.push(line)) =~= texts_of_lines(done.push(held))) by {
                        assert(texts(lines@).len() == texts_of_lines(done).len());
                        assert forall|k: int| 0 <= k < lines@.len() implies texts(
                            lines@.push(line),
                        )[k] == texts_of_lines(done.push(held))[k] by {
                            assert(texts(lines@)[k] == texts_of_lines(done)[k]);
                        }
                    }
                    done = done.push(held);
                }
                lines.push(line);
                pending.clear();
            } else {
                pending.push(byte);
                proof {
                    assert(held.push(byte) + rest =~= held + chunk@.skip(i as int));
                }
            }
            i += 1;
        }
        proof {
            assert(pending@ + chunk@.skip(i as int) =~= pending@);
            lemma_no_line_feed(pending@);
            assert(done + Seq::<Seq<u8>>::empty() =~= done);
        }
        self.pending = pending;
        lines
    }

    /// Ends the stream: what was held back is the last line, as it stands,
    /// unless nothing was held back. Afterwards the assembler is at the
    /// start of a stream again.
    pub fn finish(&mut self) -> (last: Option<String>)
        ensures
            old(self)@.len() == 0 ==> last is None,
            old(self)@.len() > 0 ==> last is Some && last->0@ == text_of(old(self)@),
            final(self)@ == Seq::<u8>::empty(),
    {
        let mut pending: Vec<u8> = Vec::new();
        core::mem::swap(&mut self.pending, &mut pending);
        if pending.len() == 0 {
            None
        } else {
            Some(decode(pending.as_slice()))
        }
    }
}

/// The text of the finished line whose bytes, without the line feed, are
/// `line`.
fn finished_line(line: &Vec<u8>) -> (text: String)
    ensures
        text@ == line_text(line@),
{
    let len = line.len();
    let end = if len > 0 && line[len - 1] == CARRIAGE_RETURN {
        len - 1
    } else {
        len
    };
    let kept = slice_subrange(line.as_slice(), 0, end);
    assert(kept@ =~= without_carriage_return(line@));
    decode(kept)
}

/// The lines of a stream that ended after `output`.
pub fn lines_of_output(output: &[u8]) -> (lines: Vec<String>)
    ensures
        texts(lines@) == output_texts(output@),
{
    let mut assembler = LineAssembler::new();
    let mut lines = assembler.feed(output);
    assert(Seq::<u8>::empty() + output@ =~= output@);
    let ghost finished = lines@;
    match assembler.finish() {
        Some(last) => {
            lines.push(last);
            assert(texts(lines@) =~= texts(finished).push(last@));
        },
        None => {},
    }
    lines
}

/// A text that a writer can emit as one line and get back unchanged: it
/// holds no line feed and does not end in a carriage return.
pub open spec fn is_plain_line(text: Seq<char>) -> bool {
    &&& forall|i: int| 0 <= i < text.len() ==> text[i] != '\n'
    &&& text.len() > 0 ==> text.last() != '\r'
}

/// The bytes that a writer emits for `lines`: each line in UTF-8, followed by
/// a line feed.
pub open spec fn written(lines: Seq<Seq<char>>) -> Seq<u8>
    decreases lines.len(),
{
    if lines.len() == 0 {
        Seq::empty()
    } else {
        encode_utf8(lines.first()).push(LINE_FEED) + written(lines.drop_first())
    }
}

/// The encoding of a scalar below 0x80 is that one byte; every byte of the
/// encoding of another scalar is 0x80 or more.
proof fn lemma_encode_scalar(scalar: u32)
    requires
        is_scalar(scalar),
    ensures
        scalar < 0x80 ==> encode_scalar(scalar) == seq![scalar as u8],
        scalar >= 0x80 ==> forall|i: int|
            0 <= i < encode_scalar(scalar).len() ==> encode_scalar(scalar)[i] >= 0x80,
        encode_scalar(scalar).len() > 0,
{
    assert(scalar < 0x80 ==> (scalar & 0x7F) as u8 == scalar as u8) by (bit_vector);
    assert(forall|x: u8| (0x80u8 | x) >= 0x80u8) by (bit_vector);
    assert(forall|x: u8| (0xC0u8 | x) >= 0x80u8) by (bit_vector);
    assert(forall|x: u8| (0xE0u8 | x) >= 0x80u8) by (bit_vector);
    assert(forall|x: u8| (0xF0u8 | x) >= 0x80u8) by (bit_vector);
}

/// A byte below 0x80 occurs in the encoding of a text only where the text
/// holds the character with that code, and ends the encoding only where
/// that character ends the text.
proof fn lemma_low_byte_in_encoding(text: Seq<char>, byte: u8)
    requires
        byte < 0x80,
    ensures
        (forall|i: int| 0 <= i < text.len() ==> text[i] as u32 != byte as u32) ==> (forall|
            k: int,
        | 0 <= k < encode_utf8(text).len() ==> encode_utf8(text)[k] != byte),
        text.len() > 0 && text.last() as u32 != byte as u32 ==> encode_utf8(text).len() > 0
            && encode_utf8(text).last() != byte,
        text.len() == 0 ==> encode_utf8(text).len() == 0,
    decreases text.len(),
{
    if text.len() > 0 {
        let head = encode_scalar(text[0] as u32);
        let rest = text.drop_first();
        let tail = encode_utf8(rest);
        char_is_scalar(text[0]);
        lemma_encode_scalar(text[0] as u32);
        lemma_low_byte_in_encoding(rest, byte);
        assert(encode_utf8(text) == head + tail);
        if forall|i: int| 0 <= i < text.len() ==> text[i] as u32 != byte as u32 {
            assert forall|k: int| 0 <= k < encode_utf8(text).len() implies encode_utf8(text)[k]
                != byte by {
                if k < head.len() {
                    assert(text[0] as u32 != byte as u32);
                    assert(head[k] != byte);
                } else {
                    assert forall|i: int| 0 <= i < rest.len() implies rest[i] as u32
                        != byte as u32 by {
                        assert(rest[i] == text[i + 1]);
                    }
                    assert(tail[k - head.len()] != byte);
                }
            }
        }
        if text.last() as u32 != byte as u32 {
            if rest.len() > 0 {
                assert(rest.last() == text.last());
                assert(encode_utf8(text).last() == tail.last());
            } else {
                assert(encode_utf8(text).last() == head.last());
            }
        }
    }
}

/// The encoding of a plain line holds no line feed and does not end in a
/// carriage return.
pub proof fn lemma_plain_line_bytes(text: Seq<char>)
    requires
        is_plain_line(text),
    ensures
        no_line_feed(encode_utf8(text)),
        without_carriage_return(encode_utf8(text)) == encode_utf8(text),
        line_text(encode_utf8(text)) == text,
{
    lemma_low_byte_in_encoding(text, LINE_FEED);
    lemma_low_byte_in_encoding(text, CARRIAGE_RETURN);
    assert('\n' as u32 == LINE_FEED as u32);
    assert('\r' as u32 == CARRIAGE_RETURN as u32);
    assert forall|i: int| 0 <= i < text.len() implies text[i] as u32 != LINE_FEED as u32 by {
        char_u32_cast(text[i], text[i] as u32);
        char_u32_cast('\n', '\n' as u32);
    }
    if text.len() > 0 {
        char_u32_cast(text.last(), text.last() as u32);
        char_u32_cast('\r', '\r' as u32);
    }
    encode_utf8_valid_utf8(text);
    encode_utf8_decode_utf8(text);
}

/// Lines come back as they were written: a writer that emits plain lines,
/// each followed by a line feed, is read as exactly those lines, in the
/// same order, with none lost and none added.
pub proof fn lemma_lines_round_trip(lines: Seq<Seq<char>>)
    requires
        forall|i: int| 0 <= i < lines.len() ==> is_plain_line(#[trigger] lines[i]),
    ensures
        output_texts(written(lines)) == lines,
        line_texts(written(lines)) == lines,
        unfinished(written(lines)) == Seq::<u8>::empty(),
    decreases lines.len(),
{
    if lines.len() == 0 {
        lemma_no_line_feed(Seq::<u8>::empty());
        assert(line_texts(written(lines)) =~= lines);
    } else {
        let first = encode_utf8(lines.first());
        let rest = lines.drop_first();
        assert(is_plain_line(lines[0]));
        assert forall|i: int| 0 <= i < rest.len() implies is_plain_line(#[trigger] rest[i]) by {
            assert(rest[i] == lines[i + 1]);
        }
        lemma_plain_line_bytes(lines.first());
        lemma_lines_round_trip(rest);
        lemma_first_line(first, written(rest));
        assert(line_texts(written(lines)) =~= seq![lines.first()] + line_texts(written(rest)));
        assert(seq![lines.first()] + rest =~= lines);
    }
}

/// The pieces of a stream, put together again.
pub open spec fn joined(chunks: Seq<Seq<u8>>) -> Seq<u8>
    decreases chunks.len(),
{
    if chunks.len() == 0 {
        Seq::empty()
    } else {
        chunks.first() + joined(chunks.drop_first())
    }
}

/// The texts that an assembler holding `held` hands out while it is fed
/// `chunks` one after the other.
pub open spec fn fed_texts(held: Seq<u8>, chunks: Seq<Seq<u8>>) -> Seq<Seq<char>>
    decreases chunks.len(),
{
    if chunks.len() == 0 {
        Seq::empty()
    } else {
        let stream = held + chunks.first();
        line_texts(stream) + fed_texts(unfinished(stream), chunks.drop_first())
    }
}

/// What that assembler holds back after the last of `chunks`.
pub open spec fn fed_rest(held: Seq<u8>, chunks: Seq<Seq<u8>>) -> Seq<u8>
    decreases chunks.len(),
{
    if chunks.len() == 0 {
        held
    } else {
        fed_rest(unfinished(held + chunks.first()), chunks.drop_first())
    }
}

/// Lines are handed out in the order in which their bytes arrived, whatever
/// the pieces in which the stream came: feeding the pieces one by one gives
/// the lines of the whole, and holds back what the whole leaves unfinished.
pub proof fn lemma_fed_in_chunks(held: Seq<u8>, chunks: Seq<Seq<u8>>)
    requires
        no_line_feed(held),
    ensures
        fed_texts(held, chunks) == line_texts(held + joined(chunks)),
        fed_rest(held, chunks) == unfinished(held + joined(chunks)),
    decreases chunks.len(),
{
    if chunks.len() == 0 {
        assert(held + joined(chunks) =~= held);
        lemma_no_line_feed(held);
        assert(line_texts(held) =~= Seq::<Seq<char>>::empty());
    } else {
        let stream = held + chunks.first();
        let rest = chunks.drop_first();
        lemma_unfinished_has_no_line_feed(stream);
        lemma_fed_in_chunks(unfinished(stream), rest);
        lemma_framing_in_pieces(stream, joined(rest));
        assert(stream + joined(rest) =~= held + joined(chunks));
    }
}

} // verus!
