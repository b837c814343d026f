//! The line-buffer decoder.
//!
//! A [`StreamDecoder`] turns an arbitrary sequence of byte chunks into
//! tokens. Each chunk is decoded as UTF-8 text with invalid sequences
//! replaced, appended to a growing text buffer, and every complete
//! newline-terminated line found is removed from the front of the buffer
//! and interpreted as one record; any trailing partial line waits for the
//! next chunk. Blank lines and lines that are not valid JSON are discarded
//! silently (lenient decode: upstream framing noise must not abort a
//! stream). As soon as a record carries the completion flag the decoder is
//! finished: buffered text is dropped and later chunks yield nothing.
//!
//! The function [`drain`] is the mathematical model: what feeding a text
//! into a buffer yields. All contracts and laws speak in terms of it.

use vstd::prelude::*;
use vstd::string::*;

use crate::record::decode_line;
use crate::record::interpret;
use crate::record::line_record;
use crate::record::opt_record_view;
use crate::record::opt_str_view;
use crate::record::spec_token;

verus! {

/// Whether the text holds a newline separator.
pub open spec fn has_newline(s: Seq<char>) -> bool {
    exists|i: int| 0 <= i < s.len() && s[i] == '\n'
}

/// The index of the first newline separator of the text.
pub open spec fn first_newline(s: Seq<char>) -> int
    decreases s.len(),
{
    if s.len() == 0 {
        0
    } else if s[0] == '\n' {
        0
    } else {
        1 + first_newline(s.drop_first())
    }
}

/// Where a text holds a newline at all, `first_newline` names its first
/// one: a valid index, a newline, and nothing before it is one.
pub proof fn lemma_first_newline(s: Seq<char>)
    requires
        has_newline(s),
    ensures
        0 <= first_newline(s) < s.len(),
        s[first_newline(s)] == '\n',
        forall|j: int| 0 <= j < first_newline(s) ==> s[j] != '\n',
    decreases s.len(),
{
    if s.len() == 0 {
    } else if s[0] == '\n' {
    } else {
        let w = choose|i: int| 0 <= i < s.len() && s[i] == '\n';
        assert(s.drop_first()[w - 1] == '\n');
        lemma_first_newline(s.drop_first());
        let f = first_newline(s);
        assert forall|j: int| 0 <= j < f implies s[j] != '\n' by {
            if j >= 1 {
                assert(s.drop_first()[j - 1] != '\n');
            }
        }
    }
}

/// What feeding a text into a buffer yields: the tokens emitted, the
/// trailing partial line kept for the next chunk, and whether a completion
/// flag was observed.
#[verifier::ext_equal]
pub struct DrainResult {
    pub tokens: Seq<Seq<char>>,
    pub buf: Seq<char>,
    pub done: bool,
}

/// The tokens one complete line contributes: zero or one.
pub open spec fn line_tokens(l: Seq<char>) -> Seq<Seq<char>> {
    match line_record(l) {
        Some(v) => match spec_token(v) {
            Some(t) => seq![t],
            None => seq![],
        },
        None => seq![],
    }
}

/// Whether one complete line carries the completion flag. A line that
/// yields no record carries none.
pub open spec fn line_done(l: Seq<char>) -> bool {
    match line_record(l) {
        Some(v) => v.done,
        None => false,
    }
}

/// The model of the decoder: repeatedly split the first complete line off
/// the buffer and interpret it, stopping at a completion flag (everything
/// still buffered is then discarded) or when no newline is left (the
/// remainder waits for the next chunk).
pub open spec fn drain(b: Seq<char>, done: bool) -> DrainResult
    decreases b.len(),
    via drain_decreases
{
    if done {
        DrainResult { tokens: seq![], buf: seq![], done: true }
    } else if !has_newline(b) {
        DrainResult { tokens: seq![], buf: b, done: false }
    } else {
        let i = first_newline(b);
        let line = b.take(i);
        let rest = b.skip(i + 1);
        let sub = drain(rest, line_done(line));
        DrainResult { tokens: line_tokens(line) + sub.tokens, buf: sub.buf, done: sub.done }
    }
}

#[via_fn]
proof fn drain_decreases(b: Seq<char>, done: bool) {
    if !done && has_newline(b) {
        lemma_first_newline(b);
    }
}

/// Draining a concatenation splits: the tokens of `b1 + b2` are the tokens
/// of `b1` followed by the tokens of what `b1` leaves buffered extended by
/// `b2`, and buffer and flag end up the same either way.
pub proof fn lemma_drain_append(b1: Seq<char>, done: bool, b2: Seq<char>)
    ensures
        ({
            let r1 = drain(b1, done);
            let r2 = drain(r1.buf + b2, r1.done);
            let r = drain(b1 + b2, done);
            &&& r.tokens == r1.tokens + r2.tokens
            &&& r.buf == r2.buf
            &&& r.done == r2.done
        }),
    decreases b1.len(),
{
    let r1 = drain(b1, done);
    let r2 = drain(r1.buf + b2, r1.done);
    let r = drain(b1 + b2, done);
    if done {
        assert(r.tokens =~= r1.tokens + r2.tokens);
    } else if !has_newline(b1) {
        assert(r1.buf + b2 =~= b1 + b2);
        assert(r.tokens =~= r1.tokens + r2.tokens);
    } else {
        lemma_first_newline(b1);
        let i = first_newline(b1);
        assert((b1 + b2)[i] == '\n');
        assert(has_newline(b1 + b2));
        lemma_first_newline(b1 + b2);
        assert(first_newline(b1 + b2) == i) by {
            let f = first_newline(b1 + b2);
            if f < i {
                assert((b1 + b2)[f] == b1[f]);
            }
            if f > i {
                assert((b1 + b2)[i] == '\n');
            }
        }
        let line = b1.take(i);
        let rest = b1.skip(i + 1);
        assert((b1 + b2).take(i) =~= line);
        assert((b1 + b2).skip(i + 1) =~= rest + b2);
        let d = line_done(line);
        lemma_drain_append(rest, d, b2);
        let s1 = drain(rest, d);
        let s2 = drain(s1.buf + b2, s1.done);
        assert(r.tokens == line_tokens(line) + drain(rest + b2, d).tokens);
        assert(drain(rest + b2, d).tokens == s1.tokens + s2.tokens);
        assert(line_tokens(line) + (s1.tokens + s2.tokens) =~= (line_tokens(line) + s1.tokens)
            + s2.tokens);
    }
}

/// The concatenation of a sequence of text chunks.
pub open spec fn concat_all(chunks: Seq<Seq<char>>) -> Seq<char>
    decreases chunks.len(),
{
    if chunks.len() == 0 {
        seq![]
    } else {
        concat_all(chunks.drop_last()) + chunks.last()
    }
}

/// What a fresh decoder yields when fed a sequence of text chunks one at a
/// time: the tokens of every feed in order, and the final buffer and flag.
pub open spec fn drain_all(chunks: Seq<Seq<char>>) -> DrainResult
    decreases chunks.len(),
{
    if chunks.len() == 0 {
        DrainResult { tokens: seq![], buf: seq![], done: false }
    } else {
        let r = drain_all(chunks.drop_last());
        let s = drain(r.buf + chunks.last(), r.done);
        DrainResult { tokens: r.tokens + s.tokens, buf: s.buf, done: s.done }
    }
}

/// Law: however a text is split into chunks, feeding the chunks one at a
/// time into a fresh decoder yields exactly the tokens of the concatenated
/// text, in original order — the records whose JSON parses, blank and
/// malformed lines discarded, nothing past a completion flag — and leaves
/// the same trailing buffer and completion state.
pub proof fn lemma_chunking_irrelevant(chunks: Seq<Seq<char>>)
    ensures
        drain_all(chunks).tokens == drain(concat_all(chunks), false).tokens,
        drain_all(chunks).buf == drain(concat_all(chunks), false).buf,
        drain_all(chunks).done == drain(concat_all(chunks), false).done,
    decreases chunks.len(),
{
    if chunks.len() == 0 {
        assert(!has_newline(concat_all(chunks)));
        assert(drain_all(chunks).tokens =~= drain(concat_all(chunks), false).tokens);
        assert(drain_all(chunks).buf =~= drain(concat_all(chunks), false).buf);
    } else {
        let pre = chunks.drop_last();
        lemma_chunking_irrelevant(pre);
        lemma_drain_append(concat_all(pre), false, chunks.last());
    }
}

/// Law: a completion flag ends interpretation. Where draining a text
/// observes the flag, any further text — bytes already buffered behind the
/// flagged record or chunks arriving later — yields zero further tokens,
/// all trailing buffered data is discarded, and the decoder stays
/// finished.
pub proof fn lemma_completion_stops_interpretation(b: Seq<char>, more: Seq<char>)
    requires
        drain(b, false).done,
    ensures
        drain(b + more, false).tokens == drain(b, false).tokens,
        drain(b + more, false).done,
        drain(b, false).buf == Seq::<char>::empty(),
        drain(b + more, false).buf == Seq::<char>::empty(),
{
    lemma_drain_append(b, false, more);
    let r1 = drain(b, false);
    let r2 = drain(r1.buf + more, r1.done);
    assert(r2.tokens =~= Seq::<Seq<char>>::empty());
    assert(r1.tokens + Seq::<Seq<char>>::empty() =~= r1.tokens);
    lemma_drain_append(b, false, Seq::<char>::empty());
    assert(b + Seq::<char>::empty() =~= b);
}

/// The replacement decoding of a byte sequence as UTF-8 text: invalid
/// sequences become replacement characters rather than errors. The result
/// depends on the bytes alone.
pub uninterp spec fn lossy_of(bytes: Seq<u8>) -> Seq<char>;

/// Relies on `String::from_utf8_lossy`: decodes the bytes as UTF-8 text,
/// replacing invalid sequences; the result is a function of the bytes
/// alone, named [`lossy_of`].
#[verifier::external_body]
fn lossy_decode(bytes: &[u8]) -> (r: String)
    ensures
        r@ == lossy_of(bytes@),
{
    String::from_utf8_lossy(bytes).into_owned()
}

/// The mathematical value of a [`StreamDecoder`]: the buffered trailing
/// partial line and whether a completion flag has been observed.
#[verifier::ext_equal]
pub struct DecoderView {
    pub buf: Seq<char>,
    pub done: bool,
}

/// The stateful accumulator of one streaming task. Restartable only by
/// constructing a fresh decoder.
pub struct StreamDecoder {
    buf: String,
    done: bool,
}

impl View for StreamDecoder {
    type V = DecoderView;

    closed spec fn view(&self) -> DecoderView {
        DecoderView { buf: self.buf@, done: self.done }
    }
}

/// Find the first newline of a text, if it has one.
fn find_newline(s: &str) -> (r: Option<usize>)
    ensures
        match r {
            Some(i) => i < s@.len() && s@[i as int] == '\n' && forall|j: int|
                0 <= j < i ==> s@[j] != '\n',
            None => !has_newline(s@),
        },
{
    let n = s.unicode_len();
    let mut i: usize = 0;
    let mut found = false;
    while !found && i < n
        invariant
            n == s@.len(),
            i <= n,
            forall|j: int| 0 <= j < i ==> s@[j] != '\n',
            found ==> i < n && s@[i as int] == '\n',
        decreases n - i + (if found { 0int } else { 1int }),
    {
        if s.get_char(i) == '\n' {
            found = true;
        } else {
            i = i + 1;
        }
    }
    if found {
        Some(i)
    } else {
        None
    }
}

impl StreamDecoder {
    /// A fresh decoder: empty buffer, no completion flag observed.
    pub fn new() -> (d: StreamDecoder)
        ensures
            d@ == (DecoderView { buf: Seq::<char>::empty(), done: false }),
    {
        StreamDecoder { buf: String::new(), done: false }
    }

    /// Whether a completion flag has been observed.
    pub fn is_done(&self) -> (r: bool)
        ensures
            r == self@.done,
    {
        self.done
    }

    /// Feed one chunk of already-decoded text: append it to the buffer and
    /// interpret every complete line, exactly as [`drain`] says.
    pub fn feed_text(&mut self, text: &str) -> (tokens: Vec<String>)
        ensures
            ({
                let r = drain(old(self)@.buf + text@, old(self)@.done);
                &&& tokens.deep_view() == r.tokens
                &&& final(self)@.buf == r.buf
                &&& final(self)@.done == r.done
            }),
    {
        let mut out: Vec<String> = Vec::new();
        if self.done {
            self.buf = String::new();
            proof {
                assert(out.deep_view() =~= Seq::<Seq<char>>::empty());
            }
            return out;
        }
        self.buf.append(text);
        let ghost total = self.buf@;
        proof {
            assert(out.deep_view() =~= Seq::<Seq<char>>::empty());
            assert(Seq::<Seq<char>>::empty() + drain(total, false).tokens =~= drain(
                total,
                false,
            ).tokens);
        }
        let mut scanning = true;
        while scanning
            invariant
                scanning ==> !self@.done,
                drain(total, false).tokens == out.deep_view() + drain(
                    self@.buf,
                    self@.done,
                ).tokens,
                drain(total, false).buf == drain(self@.buf, self@.done).buf,
                drain(total, false).done == drain(self@.buf, self@.done).done,
                !scanning ==> drain(self@.buf, self@.done) == (DrainResult {
                    tokens: Seq::<Seq<char>>::empty(),
                    buf: self@.buf,
                    done: self@.done,
                }),
            decreases self@.buf.len() + (if scanning { 1int } else { 0int }),
        {
            let ghost b = self@.buf;
            match find_newline(self.buf.as_str()) {
                None => {
                    scanning = false;
                    proof {
                        assert(drain(b, false) =~= DrainResult {
                            tokens: Seq::<Seq<char>>::empty(),
                            buf: b,
                            done: false,
                        });
                    }
                },
                Some(i) => {
                    proof {
                        assert(has_newline(b));
                        lemma_first_newline(b);
                        assert(first_newline(b) == i as int);
                    }
                    let n = self.buf.as_str().unicode_len();
                    let rest = String::from_str(self.buf.as_str().substring_char(i + 1, n));
                    let rec = decode_line(self.buf.as_str().substring_char(0, i));
                    let ghost lineseq = b.take(i as int);
                    let ghost restseq = b.skip(i as int + 1);
                    let ghost sub = drain(restseq, line_done(lineseq));
                    let ghost out0 = out.deep_view();
                    proof {
                        assert(drain(b, false).tokens == line_tokens(lineseq) + sub.tokens);
                        assert(drain(b, false).buf == sub.buf);
                        assert(drain(b, false).done == sub.done);
                        assert(opt_record_view(rec) == line_record(lineseq));
                    }
                    self.buf = rest;
                    let mut done_flag = false;
                    match rec {
                        Some(r) => {
                            done_flag = r.done;
                            proof {
                                assert(line_done(lineseq) == r@.done);
                            }
                            match interpret(&r) {
                                Some(t) => {
                                    proof {
                                        assert(line_tokens(lineseq) =~= seq![t@]);
                                        assert(out.deep_view().push(t@) =~= out0 + line_tokens(
                                            lineseq,
                                        ));
                                    }
                                    out.push(t);
                                    proof {
                                        assert(out.deep_view() =~= out0 + line_tokens(lineseq));
                                    }
                                },
                                None => {
                                    proof {
                                        assert(line_tokens(lineseq) =~= Seq::<Seq<char>>::empty());
                                        assert(out.deep_view() =~= out0 + line_tokens(lineseq));
                                    }
                                },
                            }
                        },
                        None => {
                            proof {
                                assert(!line_done(lineseq));
                                assert(line_tokens(lineseq) =~= Seq::<Seq<char>>::empty());
                                assert(out.deep_view() =~= out0 + line_tokens(lineseq));
                            }
                        },
                    }
                    if done_flag {
                        self.done = true;
                        self.buf = String::new();
                        scanning = false;
                        proof {
                            assert(sub =~= DrainResult {
                                tokens: Seq::<Seq<char>>::empty(),
                                buf: Seq::<char>::empty(),
                                done: true,
                            });
                            assert(drain(self@.buf, self@.done) =~= sub);
                        }
                    } else {
                        proof {
                            assert(self@.buf == restseq);
                            assert(drain(self@.buf, self@.done) == sub);
                        }
                    }
                    proof {
                        assert(out.deep_view() + drain(self@.buf, self@.done).tokens =~= (out0
                            + line_tokens(lineseq)) + sub.tokens);
                        assert((out0 + line_tokens(lineseq)) + sub.tokens =~= out0 + (line_tokens(
                            lineseq,
                        ) + sub.tokens));
                        assert(drain(total, false).tokens == out.deep_view() + drain(
                            self@.buf,
                            self@.done,
                        ).tokens);
                    }
                },
            }
        }
        proof {
            assert(out.deep_view() + Seq::<Seq<char>>::empty() =~= out.deep_view());
        }
        out
    }

    /// Feed one chunk of raw bytes: decode it leniently as UTF-8 text and
    /// feed the text.
    pub fn feed_chunk(&mut self, chunk: &[u8]) -> (tokens: Vec<String>)
        ensures
            ({
                let r = drain(old(self)@.buf + lossy_of(chunk@), old(self)@.done);
                &&& tokens.deep_view() == r.tokens
                &&& final(self)@.buf == r.buf
                &&& final(self)@.done == r.done
            }),
    {
        let text = lossy_decode(chunk);
        self.feed_text(text.as_str())
    }
}

} // verus!
