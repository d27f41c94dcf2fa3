//! Reading one line from a source of bytes or of text.

use vstd::prelude::*;
use vstd::utf8::{decode_utf8, encode_utf8, valid_utf8};
use vstd::utf8::{encode_utf8_decode_utf8, encode_utf8_valid_utf8};
use crate::error::ReadlnError;
use crate::line::{first_line, line_len, stripped_line, without_line_ending, CR, LF};
use crate::line::{lemma_first_line_keeps_end, lemma_first_line_without_end};
use crate::line::{lemma_line_len_bound, lemma_line_len_unique};
use crate::text::{lemma_decode_with_line_feed, lemma_encode_first_line};
use crate::text::{lemma_encode_last_ascii, lemma_prefix_ends_on_boundary};

verus! {

/// What a source of bytes answers when asked for its next byte.
#[derive(Debug)]
pub enum ReadEvent {
    /// The next byte.
    Byte(u8),
    /// The source is exhausted.
    End,
    /// The source failed.
    Failed(std::io::Error),
}

/// Where the reading of a line stands after an answer of the source.
#[derive(Debug)]
pub enum ReadStep {
    /// The line is not complete: ask the source for another byte.
    Pending(LineBuffer),
    /// The reading is over, with the line or the reason why there is none.
    Done(Result<String, ReadlnError>),
}

/// The bytes of a line that is still being read. It never holds a line feed:
/// the byte that completes a line also ends the reading.
#[derive(Debug)]
pub struct LineBuffer {
    bytes: Vec<u8>,
}

/// The outcome of decoding the bytes of a line: the text they encode, or a
/// decoding failure where they encode none.
pub open spec fn decodes_to(bytes: Seq<u8>, outcome: Result<String, ReadlnError>) -> bool {
    match outcome {
        Ok(text) => valid_utf8(bytes) && text@ == decode_utf8(bytes),
        Err(error) => !valid_utf8(bytes) && error is Utf8,
    }
}

impl LineBuffer {
    /// The bytes read so far.
    pub closed spec fn view(&self) -> Seq<u8> {
        self.bytes@
    }

    #[verifier::type_invariant]
    spec fn no_line_feed(&self) -> bool {
        !self.bytes@.contains(LF)
    }

    /// A buffer that holds nothing yet.
    pub fn new() -> (buffer: LineBuffer)
        ensures
            buffer@ == Seq::<u8>::empty(),
            !buffer@.contains(LF),
    {
        LineBuffer { bytes: Vec::new() }
    }

    /// Takes the source's answer to the request for one more byte. A byte
    /// other than the line feed joins the buffer and the reading goes on. A
    /// line feed completes the line and the end of the source ends it as it
    /// is: the bytes are then decoded. A failure of the source ends the
    /// reading with that failure as its cause.
    pub fn feed(self, event: ReadEvent) -> (step: ReadStep)
        ensures
            match event {
                ReadEvent::Byte(byte) => if byte == LF {
                    step matches ReadStep::Done(outcome) && decodes_to(self@.push(LF), outcome)
                } else {
                    step matches ReadStep::Pending(buffer) && buffer@ == self@.push(byte)
                        && !buffer@.contains(LF)
                },
                ReadEvent::End => step matches ReadStep::Done(outcome) && decodes_to(
                    self@,
                    outcome,
                ),
                ReadEvent::Failed(cause) => step == ReadStep::Done(Err(ReadlnError::Io(cause))),
            },
    {
        proof {
            use_type_invariant(&self);
        }
        let mut bytes = self.bytes;
        match event {
            ReadEvent::Byte(byte) => {
                bytes.push(byte);
                if byte == LF {
                    ReadStep::Done(decode(bytes))
                } else {
                    assert forall|i: int| 0 <= i < bytes@.len() implies bytes@[i] != LF by {
                        if i < bytes@.len() - 1 {
                            assert(self.bytes@[i] == bytes@[i]);
                            assert(self.bytes@.contains(bytes@[i]));
                        }
                    }
                    ReadStep::Pending(LineBuffer { bytes })
                }
            },
            ReadEvent::End => ReadStep::Done(decode(bytes)),
            ReadEvent::Failed(cause) => ReadStep::Done(Err(ReadlnError::from(cause))),
        }
    }
}

/// Decodes the bytes of a line as UTF-8.
fn decode(bytes: Vec<u8>) -> (outcome: Result<String, ReadlnError>)
    ensures
        decodes_to(bytes@, outcome),
{
    match String::from_utf8(bytes) {
        Ok(text) => {
            proof {
                encode_utf8_decode_utf8(text@);
            }
            Ok(text)
        },
        Err(cause) => Err(ReadlnError::from(cause)),
    }
}

/// Reads a line from the bytes of `source`, one byte at a time, until a line
/// feed is found or the source is exhausted, and decodes it as UTF-8. The
/// line ending is preserved. Bytes after the line are not looked at.
pub fn readln(source: &[u8]) -> (outcome: Result<String, ReadlnError>)
    ensures
        decodes_to(first_line(source@, LF), outcome),
{
    let mut buffer = LineBuffer::new();
    let mut next: usize = 0;
    loop
        invariant
            next <= source@.len(),
            buffer@ == source@.take(next as int),
            !buffer@.contains(LF),
        decreases source@.len() - next,
    {
        let event = if next < source.len() {
            ReadEvent::Byte(source[next])
        } else {
            ReadEvent::End
        };
        proof {
            assert forall|j: int| 0 <= j < next implies source@[j] != LF by {
                assert(buffer@[j] == source@[j]);
                assert(buffer@.contains(source@[j]));
            }
            if next < source@.len() {
                assert(source@.take(next as int).push(source@[next as int]) =~= source@.take(
                    next + 1,
                ));
                if source@[next as int] == LF {
                    lemma_line_len_unique(source@, LF, next + 1);
                }
            } else {
                assert(source@.take(next as int) =~= source@);
                lemma_line_len_unique(source@, LF, next as int);
            }
        }
        match buffer.feed(event) {
            ReadStep::Pending(longer) => {
                buffer = longer;
                next = next + 1;
            },
            ReadStep::Done(outcome) => {
                return outcome;
            },
        }
    }
}

/// Read from the UTF-8 encoding of a text, the line is the first line of the
/// text with its line ending, and no decoding failure arises.
pub proof fn lemma_line_of_encoded_text(text: Seq<char>, outcome: Result<String, ReadlnError>)
    requires
        decodes_to(first_line(encode_utf8(text), LF), outcome),
    ensures
        outcome matches Ok(line) && line@ == first_line(text, '\n'),
{
    lemma_encode_first_line(text);
    encode_utf8_valid_utf8(first_line(text, '\n'));
    encode_utf8_decode_utf8(first_line(text, '\n'));
}

/// A line that ends with a line feed is returned with it, whatever follows
/// in the source: the text is that of the bytes before the line feed, then
/// the line feed. It is a decoding failure exactly when those bytes are not
/// valid UTF-8.
pub proof fn lemma_line_keeps_its_ending(
    body: Seq<u8>,
    rest: Seq<u8>,
    outcome: Result<String, ReadlnError>,
)
    requires
        !body.contains(LF),
        decodes_to(first_line(body + seq![LF] + rest, LF), outcome),
    ensures
        match outcome {
            Ok(line) => valid_utf8(body) && line@ == decode_utf8(body).push('\n'),
            Err(error) => !valid_utf8(body) && error is Utf8,
        },
{
    lemma_first_line_keeps_end(body, rest, LF);
    lemma_decode_with_line_feed(body);
    assert(body + seq![LF] =~= body.push(LF));
}

/// A source that ends without a line feed is returned whole: the text is
/// that of all its bytes, and an empty source gives an empty line. It is a
/// decoding failure exactly when the bytes are not valid UTF-8.
pub proof fn lemma_line_without_ending(source: Seq<u8>, outcome: Result<String, ReadlnError>)
    requires
        !source.contains(LF),
        decodes_to(first_line(source, LF), outcome),
    ensures
        decodes_to(source, outcome),
        source.len() == 0 ==> (outcome matches Ok(line) && line@.len() == 0),
{
    lemma_first_line_without_end(source, LF);
}

/// Length of the first line of `bytes`, its line feed included.
fn first_line_len(bytes: &[u8]) -> (len: usize)
    ensures
        len == line_len(bytes@, LF),
{
    let mut at: usize = 0;
    while at < bytes.len() && bytes[at] != LF
        invariant
            at <= bytes@.len(),
            forall|j: int| 0 <= j < at ==> bytes@[j] != LF,
        decreases bytes@.len() - at,
    {
        at = at + 1;
    }
    if at < bytes.len() {
        proof {
            lemma_line_len_unique(bytes@, LF, at + 1);
        }
        at + 1
    } else {
        proof {
            lemma_line_len_unique(bytes@, LF, at as int);
        }
        at
    }
}

/// The line without its line ending: a final line feed is removed, and then
/// a carriage return that directly preceded it.
pub fn strip_line_ending(line: &str) -> (stripped: &str)
    ensures
        stripped@ == without_line_ending(line@),
{
    let bytes = line.as_bytes();
    let mut end: usize = bytes.len();
    let ghost mut kept: Seq<char> = line@;
    proof {
        lemma_encode_last_ascii(line@, LF);
    }
    if end > 0 && bytes[end - 1] == LF {
        end = end - 1;
        proof {
            kept = line@.drop_last();
            lemma_encode_last_ascii(kept, CR);
        }
        if end > 0 && bytes[end - 1] == CR {
            end = end - 1;
            proof {
                kept = kept.drop_last();
            }
        }
    }
    proof {
        assert(kept == without_line_ending(line@));
        assert(encode_utf8(kept) =~= bytes@.subrange(0, end as int));
        let rest = line@.skip(kept.len() as int);
        assert(kept + rest =~= line@);
        lemma_prefix_ends_on_boundary(kept, rest);
    }
    let (stripped, _) = line.split_at(end);
    proof {
        encode_utf8_decode_utf8(stripped@);
        encode_utf8_decode_utf8(kept);
    }
    stripped
}

/// Reads a line from `input`: the text up to the first line feed, or all of
/// it where there is none. The line ending, a line feed alone or one with a
/// carriage return before it, is not returned.
pub fn inputln(input: &str) -> (line: String)
    ensures
        line@ == stripped_line(input@),
{
    let bytes = input.as_bytes();
    let len = first_line_len(bytes);
    proof {
        let first = first_line(input@, '\n');
        let rest = input@.skip(first.len() as int);
        lemma_line_len_bound(input@, '\n');
        lemma_encode_first_line(input@);
        assert(first + rest =~= input@);
        lemma_prefix_ends_on_boundary(first, rest);
        lemma_line_len_bound(bytes@, LF);
    }
    let (first, _) = input.split_at(len);
    proof {
        encode_utf8_decode_utf8(first@);
        encode_utf8_decode_utf8(first_line(input@, '\n'));
    }
    strip_line_ending(first).to_owned()
}

} // verus!
