//! The request payload and its wire framing: fixed-length bytes sent
//! verbatim, or chunked transfer coding with a hexadecimal length line
//! before every block and a zero-length terminator chunk at the end.

use vstd::prelude::*;
use vstd::string::StrSliceExecFns;
use crate::header::{find_header, has_header, Request, RequestV};
use crate::text::{eq_nocase, str_eq_nocase};

verus! {

/// Block size of the bounded copy loop, and the size above which a known
/// payload is sent chunked rather than with fixed framing.
pub const CHUNK_SIZE: usize = 1024 * 1024;

/// The payload of one request: nothing, a byte source whose total size is
/// known in advance, or one whose size is not.
pub enum Payload {
    Empty,
    Sized(Vec<u8>),
    Unsized(Vec<u8>),
}

/// Mathematical model of a payload.
pub enum PayloadV {
    Empty,
    Sized(Seq<u8>),
    Unsized(Seq<u8>),
}

impl View for Payload {
    type V = PayloadV;

    open spec fn view(&self) -> PayloadV {
        match self {
            Payload::Empty => PayloadV::Empty,
            Payload::Sized(d) => PayloadV::Sized(d@),
            Payload::Unsized(d) => PayloadV::Unsized(d@),
        }
    }
}

/// The bytes a payload produces.
pub open spec fn payload_data(p: PayloadV) -> Seq<u8> {
    match p {
        PayloadV::Empty => Seq::empty(),
        PayloadV::Sized(d) => d,
        PayloadV::Unsized(d) => d,
    }
}

/// The size a payload knows of itself in advance, if any.
pub open spec fn payload_size(p: PayloadV) -> Option<int> {
    match p {
        PayloadV::Empty => Some(0),
        PayloadV::Sized(d) => Some(d.len() as int),
        PayloadV::Unsized(d) => None,
    }
}

/// Copies every byte of `reader` onto the end of `writer`, as the bounded
/// copy loop between a payload source and the transport does.
pub fn pipe(reader: &Vec<u8>, writer: &mut Vec<u8>)
    ensures
        final(writer)@ == old(writer)@ + reader@,
{
    proof {
        assert(writer@ =~= old(writer)@ + reader@.take(0));
    }
    let mut i: usize = 0;
    while i < reader.len()
        invariant
            i <= reader@.len(),
            writer@ == old(writer)@ + reader@.take(i as int),
        decreases reader@.len() - i,
    {
        writer.push(reader[i]);
        proof {
            assert(writer@ =~= old(writer)@ + reader@.take(i + 1));
        }
        i += 1;
    }
    proof {
        assert(reader@.take(reader@.len() as int) =~= reader@);
    }
}

/// A decimal digit.
pub open spec fn is_digit(c: char) -> bool {
    48 <= c as u32 && c as u32 <= 57
}

pub open spec fn all_digits(s: Seq<char>) -> bool {
    forall|i: int| 0 <= i < s.len() ==> is_digit(#[trigger] s[i])
}

/// Value of a digit string read in base ten.
pub open spec fn dec_val(s: Seq<char>) -> int
    decreases s.len(),
{
    if s.len() == 0 {
        0
    } else {
        dec_val(s.drop_last()) * 10 + (s.last() as u32 - 48)
    }
}

/// The digits of a decimal literal, with one optional leading plus sign
/// stripped, as the integer parser of std accepts it.
pub open spec fn digits_part(s: Seq<char>) -> Seq<char> {
    if s.len() > 0 && s[0] == '+' {
        s.drop_first()
    } else {
        s
    }
}

/// What parsing a content-length header value yields: the number it spells
/// when it is a well-formed decimal that fits a machine word, else zero.
pub open spec fn parse_len_of(s: Seq<char>) -> int {
    let t = digits_part(s);
    if t.len() > 0 && all_digits(t) && dec_val(t) <= usize::MAX {
        dec_val(t)
    } else {
        0
    }
}

proof fn lemma_dec_val_nonneg(t: Seq<char>)
    requires
        all_digits(t),
    ensures
        dec_val(t) >= 0,
    decreases t.len(),
{
    if t.len() > 0 {
        assert(all_digits(t.drop_last())) by {
            assert(forall|i: int|
                0 <= i < t.drop_last().len() ==> #[trigger] t.drop_last()[i] == t[i]);
        }
        lemma_dec_val_nonneg(t.drop_last());
        assert(is_digit(t.last()));
    }
}

proof fn lemma_dec_val_take_le(t: Seq<char>, i: int)
    requires
        all_digits(t),
        0 <= i <= t.len(),
    ensures
        dec_val(t.take(i)) <= dec_val(t),
    decreases t.len() - i,
{
    if i == t.len() {
        assert(t.take(i) =~= t);
    } else {
        assert(t.take(i + 1).drop_last() =~= t.take(i));
        assert(t.take(i + 1).last() == t[i]);
        assert(all_digits(t.take(i))) by {
            assert(forall|j: int| 0 <= j < i ==> #[trigger] t.take(i)[j] == t[j]);
        }
        lemma_dec_val_nonneg(t.take(i));
        assert(dec_val(t.take(i + 1)) == dec_val(t.take(i)) * 10 + (t[i] as u32 - 48));
        assert(dec_val(t.take(i)) * 10 >= dec_val(t.take(i)));
        assert(is_digit(t[i]));
        lemma_dec_val_take_le(t, i + 1);
    }
}

/// Reads a content-length value: the spelled number, or zero when the text
/// is not a decimal that fits a machine word.
pub fn parse_content_length(s: &str) -> (r: usize)
    ensures
        r as int == parse_len_of(s@),
{
    let n: usize = s.unicode_len();
    let ghost t = digits_part(s@);
    let mut i: usize = 0;
    if n > 0 && s.get_char(0) == '+' {
        i = 1;
    }
    let ghost start = i as int;
    proof {
        assert(t =~= s@.subrange(start, n as int));
    }
    if i == n {
        return 0;
    }
    let mut acc: usize = 0;
    while i < n
        invariant
            start <= i as int <= n,
            n == s@.len(),
            0 <= start,
            t == digits_part(s@),
            t == s@.subrange(start, n as int),
            t.len() == n - start,
            forall|j: int| 0 <= j < i - start ==> is_digit(#[trigger] t[j]),
            acc as int == dec_val(t.take(i - start)),
        decreases n - i,
    {
        let c = s.get_char(i);
        let code: u32 = c as u32;
        proof {
            assert(s@.subrange(start, n as int)[i - start] == s@[i as int]);
            assert(t[i - start] == s@[i as int]);
            assert(t.take(i - start + 1).drop_last() =~= t.take(i - start));
            assert(t.take(i - start + 1).last() == t[i - start]);
        }
        if code < 48 || code > 57 {
            proof {
                assert(!is_digit(t[i - start]));
                assert(!all_digits(t));
                assert(parse_len_of(s@) == 0);
            }
            return 0;
        }
        let d: usize = (code - 48) as usize;
        if acc > (usize::MAX - d) / 10 {
            proof {
                assert(acc * 10 + d > usize::MAX) by (nonlinear_arith)
                    requires
                        acc > (usize::MAX - d) / 10,
                        d <= 9,
                ;
                assert(dec_val(t.take(i - start + 1)) == acc * 10 + d);
                if all_digits(t) {
                    lemma_dec_val_take_le(t, i - start + 1);
                    assert(dec_val(t) > usize::MAX);
                }
                assert(parse_len_of(s@) == 0);
            }
            return 0;
        }
        proof {
            assert(acc * 10 + d <= usize::MAX) by (nonlinear_arith)
                requires
                    acc <= (usize::MAX - d) / 10,
                    d <= 9,
            ;
        }
        acc = acc * 10 + d;
        i += 1;
    }
    proof {
        assert(t.take(t.len() as int) =~= t);
        assert(all_digits(t));
        assert(t.len() > 0);
    }
    acc
}

/// Hexadecimal digit of a value below sixteen, lower case.
pub open spec fn hex_digit(d: int) -> u8 {
    if d < 10 {
        (48 + d) as u8
    } else {
        (87 + d) as u8
    }
}

/// The hexadecimal spelling of a number, most significant digit first,
/// no leading zeros except for the number zero itself.
pub open spec fn hex_rep(n: nat) -> Seq<u8>
    decreases n,
{
    if n < 16 {
        seq![hex_digit(n as int)]
    } else {
        hex_rep(n / 16).push(hex_digit((n % 16) as int))
    }
}

fn hex_digit_exec(d: usize) -> (r: u8)
    requires
        d < 16,
    ensures
        r == hex_digit(d as int),
{
    if d < 10 {
        48 + (d as u8)
    } else {
        87 + (d as u8)
    }
}

fn push_hex(out: &mut Vec<u8>, n: usize)
    ensures
        final(out)@ == old(out)@ + hex_rep(n as nat),
    decreases n,
{
    if n < 16 {
        out.push(hex_digit_exec(n));
        proof {
            assert(out@ =~= old(out)@ + hex_rep(n as nat));
        }
    } else {
        push_hex(out, n / 16);
        out.push(hex_digit_exec(n % 16));
        proof {
            assert(out@ =~= old(out)@ + hex_rep(n as nat));
        }
    }
}

/// Carriage return and line feed.
pub open spec fn crlf() -> Seq<u8> {
    seq![13u8, 10u8]
}

/// One chunk: the block length in hexadecimal, a line break, the block,
/// a line break.
pub open spec fn chunk_of(block: Seq<u8>) -> Seq<u8> {
    hex_rep(block.len()) + crlf() + block + crlf()
}

/// The zero-length terminator chunk.
pub open spec fn chunk_terminator() -> Seq<u8> {
    seq![48u8, 13u8, 10u8, 13u8, 10u8]
}

/// The chunked transfer coding of a byte sequence, cut into blocks of at
/// most the copy-loop block size, closed by the terminator chunk.
pub open spec fn chunked_body(data: Seq<u8>) -> Seq<u8>
    decreases data.len(),
{
    if data.len() == 0 {
        chunk_terminator()
    } else {
        let k = if data.len() <= CHUNK_SIZE {
            data.len() as int
        } else {
            CHUNK_SIZE as int
        };
        chunk_of(data.take(k)) + chunked_body(data.skip(k))
    }
}

/// Encodes a byte sequence with chunked transfer coding.
pub fn frame_chunked(data: &Vec<u8>) -> (r: Vec<u8>)
    ensures
        r@ == chunked_body(data@),
{
    let mut out: Vec<u8> = Vec::new();
    let mut i: usize = 0;
    proof {
        assert(data@.skip(0) =~= data@);
        assert(out@ + chunked_body(data@.skip(0)) =~= chunked_body(data@));
    }
    while i < data.len()
        invariant
            i <= data@.len(),
            out@ + chunked_body(data@.skip(i as int)) == chunked_body(data@),
        decreases data@.len() - i,
    {
        let remaining: usize = data.len() - i;
        let k: usize = if remaining <= CHUNK_SIZE {
            remaining
        } else {
            CHUNK_SIZE
        };
        let ghost rest = data@.skip(i as int);
        let ghost block = data@.subrange(i as int, i + k);
        proof {
            assert(rest.take(k as int) =~= block);
            assert(rest.skip(k as int) =~= data@.skip(i + k));
            assert(chunked_body(rest) == chunk_of(block) + chunked_body(data@.skip(i + k)));
        }
        let ghost out0 = out@;
        push_hex(&mut out, k);
        out.push(13);
        out.push(10);
        let end: usize = i + k;
        let mut j: usize = i;
        while j < end
            invariant
                i <= j <= end,
                end == i + k,
                i + k <= data@.len(),
                block == data@.subrange(i as int, i + k),
                out@ == out0 + hex_rep(k as nat) + crlf() + data@.subrange(i as int, j as int),
            decreases i + k - j,
        {
            out.push(data[j]);
            proof {
                assert(out@ =~= out0 + hex_rep(k as nat) + crlf() + data@.subrange(
                    i as int,
                    j + 1,
                ));
            }
            j += 1;
        }
        out.push(13);
        out.push(10);
        proof {
            assert(out@ =~= out0 + chunk_of(block));
            assert(out@ + chunked_body(data@.skip(i + k)) =~= chunked_body(data@));
        }
        i += k;
    }
    proof {
        assert(data@.skip(data@.len() as int) =~= Seq::<u8>::empty());
        assert(chunked_body(Seq::<u8>::empty()) == chunk_terminator());
    }
    out.push(48);
    out.push(13);
    out.push(10);
    out.push(13);
    out.push(10);
    proof {
        assert(out@ =~= chunked_body(data@));
    }
    out
}

/// Whether a payload is sent chunked: an explicit transfer-encoding header
/// decides literally; else a known size within the threshold, from the
/// payload itself or from a content-length header, selects fixed framing;
/// with no known size, chunked is assumed.
pub open spec fn do_chunk_spec(req: RequestV, p: PayloadV) -> bool {
    match find_header(req.headers, "transfer-encoding"@) {
        Some(v) => eq_nocase(v, "chunked"@),
        None => match payload_size(p) {
            Some(n) => n > CHUNK_SIZE,
            None => match find_header(req.headers, "content-length"@) {
                Some(v) => parse_len_of(v) > CHUNK_SIZE,
                None => true,
            },
        },
    }
}

/// The bytes that transmitting a payload writes to the transport.
pub open spec fn framed_spec(req: RequestV, p: PayloadV) -> Seq<u8> {
    if do_chunk_spec(req, p) {
        chunked_body(payload_data(p))
    } else {
        payload_data(p)
    }
}

/// Decides the framing of a payload for a request.
pub fn do_chunk(req: &Request, payload: &Payload) -> (r: bool)
    ensures
        r == do_chunk_spec(req@, payload@),
{
    match req.header("transfer-encoding") {
        Some(v) => str_eq_nocase(v.as_str(), "chunked"),
        None => {
            let size: Option<usize> = match payload {
                Payload::Empty => Some(0),
                Payload::Sized(d) => Some(d.len()),
                Payload::Unsized(_) => None,
            };
            match size {
                Some(n) => n > CHUNK_SIZE,
                None => match req.header("content-length") {
                    Some(v) => parse_content_length(v.as_str()) > CHUNK_SIZE,
                    None => true,
                },
            }
        },
    }
}

/// Produces the exact bytes that sending the payload writes to the
/// transport: the payload verbatim under fixed framing, its chunked
/// transfer coding otherwise. An empty payload yields zero bytes, or the
/// bare terminator chunk when chunked framing was selected.
pub fn frame_payload(req: &Request, payload: &Payload) -> (r: Vec<u8>)
    ensures
        r@ == framed_spec(req@, payload@),
{
    let chunked = do_chunk(req, payload);
    let empty_data: Vec<u8> = Vec::new();
    let data: &Vec<u8> = match payload {
        Payload::Empty => &empty_data,
        Payload::Sized(d) => d,
        Payload::Unsized(d) => d,
    };
    proof {
        assert(data@ =~= payload_data(payload@));
    }
    if chunked {
        frame_chunked(data)
    } else {
        let mut out: Vec<u8> = Vec::new();
        pipe(data, &mut out);
        proof {
            assert(out@ =~= payload_data(payload@));
        }
        out
    }
}

/// A payload whose size is known in advance and within the threshold,
/// with no explicit transfer-encoding header, is sent with fixed framing:
/// its bytes go out verbatim.
pub proof fn lemma_known_small_sends_fixed(req: RequestV, p: PayloadV, n: int)
    requires
        !has_header(req.headers, "transfer-encoding"@),
        payload_size(p) == Some(n),
        n <= CHUNK_SIZE,
    ensures
        framed_spec(req, p) == payload_data(p),
{
}

/// A payload of unknown size, with no explicit framing headers, is sent
/// with chunked transfer coding: a hexadecimal length line before every
/// block and the zero-length terminator chunk at the end.
pub proof fn lemma_unknown_size_sends_chunked(req: RequestV, p: PayloadV)
    requires
        !has_header(req.headers, "transfer-encoding"@),
        !has_header(req.headers, "content-length"@),
        payload_size(p) is None,
    ensures
        framed_spec(req, p) == chunked_body(payload_data(p)),
{
}

/// A nonempty payload within one block chunks into exactly one length
/// line, the data, and the terminator chunk.
pub proof fn lemma_chunked_single_block(data: Seq<u8>)
    requires
        0 < data.len() <= CHUNK_SIZE,
    ensures
        chunked_body(data) == hex_rep(data.len()) + crlf() + data + crlf() + chunk_terminator(),
{
    let k = data.len() as int;
    assert(data.take(k) =~= data);
    assert(data.skip(k) =~= Seq::<u8>::empty());
    assert(chunked_body(Seq::<u8>::empty()) == chunk_terminator());
    assert(chunked_body(data) == chunk_of(data.take(k)) + chunked_body(data.skip(k)));
    assert(chunked_body(data) =~= hex_rep(data.len()) + crlf() + data + crlf()
        + chunk_terminator());
}

} // verus!
