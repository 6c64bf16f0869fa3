//! The `Content-Length` framing of LSP messages.
use vstd::prelude::*;
use crate::files::operations::decimal_chars;
use crate::text::{
    all_digits, chars_of, copy_range, decimal_value, has_prefix, leading_ws, lemma_first_newline, lines_of,
    parse_usize, parse_usize_spec, split_lines, starts_with_chars, strip_cr, trailing_ws, trim, trim_seq,
    whitespace,
};

verus! {

/// The decimal digits of `n`, most significant first.
pub open spec fn decimal_digits(n: nat) -> Seq<u8>
    decreases n,
{
    if n < 10 {
        seq![(n + 48) as u8]
    } else {
        decimal_digits(n / 10).push(((n % 10) + 48) as u8)
    }
}

/// The ASCII bytes of `Content-Length: `.
pub open spec fn header_prefix() -> Seq<u8> {
    seq![67u8, 111, 110, 116, 101, 110, 116, 45, 76, 101, 110, 103, 116, 104, 58, 32]
}

/// The ASCII bytes of `\r\n\r\n`.
pub open spec fn header_end() -> Seq<u8> {
    seq![13u8, 10, 13, 10]
}

/// A framed message: the header with the body's length, then the body.
pub open spec fn framed(body: Seq<u8>) -> Seq<u8> {
    header_prefix() + decimal_digits(body.len()) + header_end() + body
}

/// The decimal digits of `n` as ASCII bytes.
pub fn decimal_bytes(n: usize) -> (r: Vec<u8>)
    ensures
        r@ == decimal_digits(n as nat),
    decreases n,
{
    if n < 10 {
        let mut v: Vec<u8> = Vec::new();
        v.push((n + 48) as u8);
        assert(v@ =~= seq![(n + 48) as u8]);
        v
    } else {
        let mut v = decimal_bytes(n / 10);
        v.push(((n % 10) + 48) as u8);
        v
    }
}

fn push_all(out: &mut Vec<u8>, bytes: &[u8])
    ensures
        final(out)@ == old(out)@ + bytes@,
{
    let mut i: usize = 0;
    while i < bytes.len()
        invariant
            i <= bytes.len(),
            out@ == old(out)@ + bytes@.take(i as int),
        decreases bytes.len() - i,
    {
        out.push(bytes[i]);
        assert(old(out)@ + bytes@.take(i + 1) =~= (old(out)@ + bytes@.take(i as int)).push(bytes@[i as int]));
        i += 1;
    }
    assert(bytes@.take(bytes.len() as int) =~= bytes@);
}

/// Format an LSP message (body bytes) with the `Content-Length` header.
pub fn format_lsp_message(body: &[u8]) -> (r: Vec<u8>)
    ensures
        r@ == framed(body@),
{
    let mut out: Vec<u8> = Vec::new();
    let prefix: [u8; 16] = [67, 111, 110, 116, 101, 110, 116, 45, 76, 101, 110, 103, 116, 104, 58, 32];
    push_all(&mut out, &prefix);
    assert(out@ =~= header_prefix());
    let digits = decimal_bytes(body.len());
    push_all(&mut out, digits.as_slice());
    let end: [u8; 4] = [13, 10, 13, 10];
    push_all(&mut out, &end);
    assert(end@ =~= header_end());
    push_all(&mut out, body);
    out
}

/// The header value the first `Content-Length:` line gives, if it parses.
pub open spec fn header_length(lines: Seq<Seq<char>>, key: Seq<char>) -> Option<usize>
    decreases lines.len(),
{
    if lines.len() == 0 {
        None
    } else {
        let t = trim_seq(lines[0]);
        if has_prefix(t, key) {
            parse_usize_spec(trim_seq(t.subrange(key.len() as int, t.len() as int)))
        } else {
            header_length(lines.drop_first(), key)
        }
    }
}

/// Parse the `Content-Length` value from a raw LSP header block: the value
/// on the first line that starts with `Content-Length:` after trimming.
pub fn parse_content_length(header: &str) -> (r: Option<usize>)
    ensures
        r == header_length(split_lines(header@), "Content-Length:"@),
{
    let key = chars_of("Content-Length:");
    let text = chars_of(header);
    let lines = lines_of(text.as_slice());
    let ghost ls = lines.deep_view();
    let mut i: usize = 0;
    assert(ls.subrange(0, ls.len() as int) =~= ls);
    while i < lines.len()
        invariant
            i <= lines.len(),
            ls == lines.deep_view(),
            ls == split_lines(header@),
            key@ == "Content-Length:"@,
            header_length(ls, key@) == header_length(ls.subrange(i as int, ls.len() as int), key@),
        decreases lines.len() - i,
    {
        let t = trim(lines[i].as_slice());
        let ghost rest = ls.subrange(i as int, ls.len() as int);
        assert(lines[i as int]@ =~= ls[i as int]);
        assert(rest[0] == ls[i as int]);
        if starts_with_chars(t.as_slice(), key.as_slice()) {
            let tail = copy_range(t.as_slice(), key.len(), t.len());
            let value = trim(tail.as_slice());
            return parse_usize(value.as_slice());
        }
        assert(rest.drop_first() =~= ls.subrange(i + 1, ls.len() as int));
        i += 1;
    }
    None
}

/// What one line of a header block says.
#[derive(Debug, Clone, Copy, PartialEq, Eq, Structural)]
pub enum HeaderLine {
    /// A blank line: the headers end.
    End,
    /// The `Content-Length` header, with its value if it is a number.
    ContentLength(Option<usize>),
    /// Any other header.
    Other,
}

/// What a header line says, once trimmed.
pub open spec fn header_line_of(line: Seq<char>) -> HeaderLine {
    let t = trim_seq(line);
    if t.len() == 0 {
        HeaderLine::End
    } else if has_prefix(t, "Content-Length:"@) {
        HeaderLine::ContentLength(parse_usize_spec(trim_seq(t.subrange("Content-Length:"@.len() as int, t.len() as int))))
    } else {
        HeaderLine::Other
    }
}

/// Read one line of a header block.
pub fn header_line(line: &str) -> (r: HeaderLine)
    ensures
        r == header_line_of(line@),
{
    let key = chars_of("Content-Length:");
    let t = trim(chars_of(line).as_slice());
    if t.len() == 0 {
        HeaderLine::End
    } else if starts_with_chars(t.as_slice(), key.as_slice()) {
        let tail = copy_range(t.as_slice(), key.len(), t.len());
        let value = trim(tail.as_slice());
        HeaderLine::ContentLength(parse_usize(value.as_slice()))
    } else {
        HeaderLine::Other
    }
}

/// The kinds of message a language server sends.
#[derive(Debug, Clone, Copy, PartialEq, Eq, Structural)]
pub enum MessageKind {
    /// The answer to one of our requests: an `id` and no `method`.
    Response,
    /// A notice that wants no answer: a `method` and no `id`.
    Notification,
    /// A request of the server's own: both an `id` and a `method`.
    ServerRequest,
    /// Neither.
    Unrecognised,
}

/// The kind of a message, by whether it has an `id` and a `method`.
pub fn message_kind(has_id: bool, has_method: bool) -> (r: MessageKind)
    ensures
        r == (if has_id && !has_method {
            MessageKind::Response
        } else if has_method && !has_id {
            MessageKind::Notification
        } else if has_id && has_method {
            MessageKind::ServerRequest
        } else {
            MessageKind::Unrecognised
        }),
{
    if has_id && !has_method {
        MessageKind::Response
    } else if has_method && !has_id {
        MessageKind::Notification
    } else if has_id && has_method {
        MessageKind::ServerRequest
    } else {
        MessageKind::Unrecognised
    }
}

/// The header `format_lsp_message` writes for a body of `n` bytes, as text:
/// `Content-Length: `, the decimal digits of `n`, then `\r\n\r\n`.
pub open spec fn header_text(n: nat) -> Seq<char> {
    "Content-Length: "@ + decimal_chars(n) + seq!['\r', '\n', '\r', '\n']
}

/// The bytes of an ASCII text.
pub open spec fn ascii_bytes(s: Seq<char>) -> Seq<u8> {
    s.map_values(|c: char| c as u8)
}

proof fn lemma_decimal_chars(n: nat)
    ensures
        decimal_chars(n).len() > 0,
        all_digits(decimal_chars(n)),
        decimal_value(decimal_chars(n)) == n,
        ascii_bytes(decimal_chars(n)) == decimal_digits(n),
    decreases n,
{
    if n < 10 {
        let s = decimal_chars(n);
        assert(s =~= seq![(n + 48) as char]);
        assert(s.drop_last() =~= Seq::<char>::empty());
        assert(((n + 48) as char) as nat == n + 48);
        assert(decimal_value(s) == decimal_value(s.drop_last()) * 10 + ((s.last() as nat) - ('0' as nat)) as nat);
        assert(ascii_bytes(s) =~= seq![(n + 48) as u8]);
    } else {
        lemma_decimal_chars(n / 10);
        let s = decimal_chars(n);
        let d = ((n % 10) + 48) as char;
        assert(s == decimal_chars(n / 10).push(d));
        assert(s.drop_last() =~= decimal_chars(n / 10));
        assert(d as nat == (n % 10) + 48);
        assert(decimal_value(s) == decimal_value(s.drop_last()) * 10 + ((s.last() as nat) - ('0' as nat)) as nat);
        assert(decimal_value(s) == (n / 10) * 10 + n % 10);
        assert(ascii_bytes(s) =~= ascii_bytes(decimal_chars(n / 10)).push(((n % 10) + 48) as u8));
        assert forall|k: int| 0 <= k < s.len() implies '0' <= #[trigger] s[k] <= '9' by {
            if k < s.len() - 1 {
                assert(s[k] == decimal_chars(n / 10)[k]);
            }
        }
    }
}

/// Reading the header of a framed message gives back the body's length:
/// the header text `format_lsp_message` writes (its bytes are those of
/// `framed`) is parsed by `parse_content_length` to `n`.
pub proof fn lemma_header_round_trip(n: usize)
    ensures
        ascii_bytes(header_text(n as nat)) == header_prefix() + decimal_digits(n as nat) + header_end(),
        header_length(split_lines(header_text(n as nat)), "Content-Length:"@) == Some(n),
{
    reveal_strlit("Content-Length: ");
    reveal_strlit("Content-Length:");
    let k = "Content-Length: "@;
    let key = "Content-Length:"@;
    let d = decimal_chars(n as nat);
    lemma_decimal_chars(n as nat);
    let t = header_text(n as nat);
    assert(ascii_bytes(t) =~= ascii_bytes(k) + ascii_bytes(d) + ascii_bytes(seq!['\r', '\n', '\r', '\n']));
    assert(ascii_bytes(k) =~= header_prefix());
    assert(ascii_bytes(seq!['\r', '\n', '\r', '\n']) =~= header_end());
    let m = k + d;
    let j: int = m.len() as int + 1;
    assert forall|i: int| 0 <= i < j implies t[i] != '\n' by {
        if i >= k.len() && i < m.len() {
            assert(t[i] == d[i - k.len()]);
        }
    }
    assert(t[j] == '\n');
    lemma_first_newline(t, j);
    assert(t.subrange(0, j) =~= m.push('\r'));
    assert(strip_cr(m.push('\r')) =~= m);
    let lines = split_lines(t);
    assert(lines[0] == m);
    assert(leading_ws(m) == 0);
    assert(whitespace(m.last()) == false);
    assert(trailing_ws(m) == 0);
    assert(trim_seq(m) =~= m);
    assert(m.subrange(0, key.len() as int) =~= key);
    assert(has_prefix(m, key));
    let v = m.subrange(key.len() as int, m.len() as int);
    assert(v =~= seq![' '] + d);
    assert(v.drop_first() =~= d);
    assert(leading_ws(d) == 0);
    assert(leading_ws(v) == 1);
    assert(trailing_ws(v) == 0);
    assert(trim_seq(v) =~= d);
    assert(parse_usize_spec(d) == Some(n));
}

} // verus!
