//! The one response that the server sends to every client.
use vstd::prelude::*;
use vstd::utf8::{encode_utf8, is_ascii_chars, is_ascii_chars_encode_utf8};

verus! {

/// The character of the decimal digit `d`.
pub open spec fn digit_char(d: nat) -> char
    recommends
        d < 10,
{
    ((48 + d) as u8) as char
}

/// The decimal representation of `n`, most significant digit first, without
/// leading zeros (zero itself is `"0"`).
pub open spec fn decimal(n: nat) -> Seq<char>
    decreases n,
{
    if n < 10 {
        seq![digit_char(n)]
    } else {
        decimal(n / 10).push(digit_char(n % 10))
    }
}

/// UTF-8 encoding distributes over concatenation.
pub proof fn lemma_encode_utf8_concat(a: Seq<char>, b: Seq<char>)
    ensures
        encode_utf8(a + b) == encode_utf8(a) + encode_utf8(b),
    decreases a.len(),
{
    if a.len() == 0 {
        assert(a + b =~= b);
    } else {
        lemma_encode_utf8_concat(a.drop_first(), b);
        assert((a + b).drop_first() =~= a.drop_first() + b);
        assert(encode_utf8(a + b) =~= encode_utf8(a) + encode_utf8(b));
    }
}

/// The encoding of a digit is its one byte.
proof fn lemma_encode_digit(d: nat)
    requires
        d < 10,
    ensures
        encode_utf8(seq![digit_char(d)]) == seq![(48 + d) as u8],
{
    let s = seq![digit_char(d)];
    assert(is_ascii_chars(s));
    is_ascii_chars_encode_utf8(s);
    assert(encode_utf8(s) =~= seq![(48 + d) as u8]);
}

/// Appends the decimal digits of `n` to `out`.
pub fn push_decimal(out: &mut Vec<u8>, n: usize)
    ensures
        final(out)@ == old(out)@ + encode_utf8(decimal(n as nat)),
    decreases n,
{
    if n >= 10 {
        push_decimal(out, n / 10);
    }
    let d: u8 = (n % 10) as u8;
    out.push(48u8 + d);
    proof {
        lemma_encode_digit(d as nat);
        if n >= 10 {
            lemma_encode_utf8_concat(decimal((n / 10) as nat), seq![digit_char(d as nat)]);
            assert(decimal(n as nat) =~= decimal((n / 10) as nat) + seq![digit_char(d as nat)]);
        }
        assert(out@ =~= old(out)@ + encode_utf8(decimal(n as nat)));
    }
}

/// Appends the UTF-8 encoding of `s` to `out`.
pub fn push_text(out: &mut Vec<u8>, s: &str)
    ensures
        final(out)@ == old(out)@ + encode_utf8(s@),
{
    let bytes: &[u8] = s.as_bytes();
    let mut i: usize = 0;
    while i < bytes.len()
        invariant
            i <= bytes@.len(),
            bytes@ == encode_utf8(s@),
            out@ == old(out)@ + bytes@.subrange(0, i as int),
        decreases bytes@.len() - i,
    {
        out.push(bytes[i]);
        i = i + 1;
        assert(out@ =~= old(out)@ + bytes@.subrange(0, i as int));
    }
    assert(bytes@.subrange(0, i as int) =~= bytes@);
}

/// The text of the status line and the headers of a response whose body is
/// `body_len` bytes long, up to and including the blank line that ends them.
pub open spec fn head_text(body_len: nat, content_type: Seq<char>) -> Seq<char> {
    "HTTP/1.1 200 OK\r\nContent-Length: "@ + decimal(body_len) + "\r\nContent-Type: "@
        + content_type + "\r\nConnection: close\r\n\r\n"@
}

/// The bytes of the whole response: the encoded head, then the body verbatim.
pub open spec fn response_bytes(body: Seq<u8>, content_type: Seq<char>) -> Seq<u8> {
    encode_utf8(head_text(body.len(), content_type)) + body
}

/// The encoded head of a response with a body of `body_len` bytes.
pub fn build_head(body_len: usize, content_type: &str) -> (r: Vec<u8>)
    ensures
        r@ == encode_utf8(head_text(body_len as nat, content_type@)),
{
    let mut out: Vec<u8> = Vec::new();
    push_text(&mut out, "HTTP/1.1 200 OK\r\nContent-Length: ");
    push_decimal(&mut out, body_len);
    push_text(&mut out, "\r\nContent-Type: ");
    push_text(&mut out, content_type);
    push_text(&mut out, "\r\nConnection: close\r\n\r\n");
    proof {
        let a = "HTTP/1.1 200 OK\r\nContent-Length: "@;
        let b = decimal(body_len as nat);
        let c = "\r\nContent-Type: "@;
        let d = content_type@;
        let e = "\r\nConnection: close\r\n\r\n"@;
        lemma_encode_utf8_concat(a, b);
        lemma_encode_utf8_concat(a + b, c);
        lemma_encode_utf8_concat(a + b + c, d);
        lemma_encode_utf8_concat(a + b + c + d, e);
        assert(out@ =~= encode_utf8(a + b + c + d + e));
    }
    out
}

/// The full response to any request: the head, whose `Content-Length` is the
/// length of `body` and whose `Content-Type` is `content_type`, then `body`.
pub fn build_response(body: &[u8], content_type: &str) -> (r: Vec<u8>)
    ensures
        r@ == response_bytes(body@, content_type@),
{
    let mut out = build_head(body.len(), content_type);
    let mut i: usize = 0;
    let ghost head = out@;
    while i < body.len()
        invariant
            i <= body@.len(),
            out@ == head + body@.subrange(0, i as int),
        decreases body@.len() - i,
    {
        out.push(body[i]);
        i = i + 1;
        assert(out@ =~= head + body@.subrange(0, i as int));
    }
    assert(body@.subrange(0, i as int) =~= body@);
    out
}

} // verus!
