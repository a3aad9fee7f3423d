//! What a reader of the MJPEG stream gets back.
use crate::relay::{part_bytes, part_head};
use crate::text::{decimal, digit_char, lemma_encode_concat};
use vstd::prelude::*;
use vstd::string::*;
use vstd::utf8::{encode_utf8, is_ascii_chars, is_ascii_chars_encode_utf8};

verus! {

/// A decimal digit in ASCII.
pub open spec fn is_digit(b: u8) -> bool {
    48 <= b <= 57
}

/// How many digits `s` starts with.
pub open spec fn digit_run(s: Seq<u8>) -> nat
    decreases s.len(),
{
    if s.len() > 0 && is_digit(s[0]) {
        1 + digit_run(s.drop_first())
    } else {
        0
    }
}

/// The number that a sequence of digits stands for.
pub open spec fn digits_value(s: Seq<u8>) -> nat
    decreases s.len(),
{
    if s.len() == 0 {
        0
    } else {
        digits_value(s.drop_last()) * 10 + (s.last() - 48) as nat
    }
}

/// What stands in front of the length in the head of an image.
pub open spec fn lead() -> Seq<u8> {
    encode_utf8("--vcshareframe\r\nContent-Type: image/jpeg\r\nContent-Length: "@)
}

/// Reads one image off the stream: its head with the length, that many bytes,
/// and the line break behind them. Gives the image and what follows, or `None`
/// where the stream does not start with an image.
pub open spec fn read_image(s: Seq<u8>) -> Option<(Seq<u8>, Seq<u8>)> {
    let at = lead().len() as int;
    let digits = digit_run(s.skip(at)) as int;
    let body = at + digits + 4;
    let len = digits_value(s.subrange(at, at + digits)) as int;
    if at <= s.len() && s.take(at) == lead() && digits > 0 && body + len + 2 <= s.len()
        && s.subrange(at + digits, body) == seq![13u8, 10u8, 13u8, 10u8] && s.subrange(
        body + len,
        body + len + 2,
    ) == seq![13u8, 10u8] {
        Some((s.subrange(body, body + len), s.skip(body + len + 2)))
    } else {
        None
    }
}

/// Images one after the other on the stream.
pub open spec fn stream_of(images: Seq<Seq<u8>>) -> Seq<u8>
    decreases images.len(),
{
    if images.len() == 0 {
        Seq::empty()
    } else {
        part_bytes(images[0]) + stream_of(images.drop_first())
    }
}

/// Reads `n` images off the stream, as far as there are any.
pub open spec fn read_images(s: Seq<u8>, n: nat) -> Seq<Seq<u8>>
    decreases n,
{
    if n == 0 {
        Seq::empty()
    } else {
        match read_image(s) {
            Some((image, rest)) => seq![image] + read_images(rest, (n - 1) as nat),
            None => Seq::empty(),
        }
    }
}

/// A number in decimal is made of digits that stand for it.
proof fn lemma_decimal_bytes(n: nat)
    ensures
        is_ascii_chars(decimal(n)),
        encode_utf8(decimal(n)).len() == decimal(n).len() > 0,
        forall|i: int| 0 <= i < decimal(n).len() ==> is_digit(#[trigger] encode_utf8(decimal(n))[i]),
        digits_value(encode_utf8(decimal(n))) == n,
    decreases n,
{
    if n < 10 {
        let c = digit_char(n as int);
        assert(decimal(n) == seq![c]);
        assert(is_ascii_chars(decimal(n)));
        is_ascii_chars_encode_utf8(decimal(n));
        let b = encode_utf8(decimal(n));
        assert(b[0] == c as u8);
        assert(b.drop_last() =~= Seq::empty());
        assert(digits_value(b.drop_last()) == 0);
    } else {
        lemma_decimal_bytes(n / 10);
        let c = digit_char((n % 10) as int);
        assert(decimal(n) == decimal(n / 10).push(c));
        assert(is_ascii_chars(decimal(n)));
        is_ascii_chars_encode_utf8(decimal(n));
        is_ascii_chars_encode_utf8(decimal(n / 10));
        let b = encode_utf8(decimal(n));
        assert(b.drop_last() =~= encode_utf8(decimal(n / 10)));
        assert(b.last() == c as u8);
    }
}

/// A run of digits ends where no digit follows.
proof fn lemma_digit_run(d: Seq<u8>, t: Seq<u8>)
    requires
        forall|i: int| 0 <= i < d.len() ==> is_digit(#[trigger] d[i]),
        t.len() == 0 || !is_digit(t[0]),
    ensures
        digit_run(d + t) == d.len(),
    decreases d.len(),
{
    if d.len() == 0 {
        assert(d + t =~= t);
    } else {
        assert((d + t).drop_first() =~= d.drop_first() + t);
        lemma_digit_run(d.drop_first(), t);
    }
}

/// An image that was put on the stream is read back, and what follows it is
/// left.
pub proof fn law_image_reads_back(jpeg: Seq<u8>, rest: Seq<u8>)
    ensures
        read_image(part_bytes(jpeg) + rest) == Some((jpeg, rest)),
{
    let text = "--vcshareframe\r\nContent-Type: image/jpeg\r\nContent-Length: "@;
    let n = jpeg.len();
    let d = encode_utf8(decimal(n));
    let crlf2 = seq![13u8, 10u8, 13u8, 10u8];
    let s = part_bytes(jpeg) + rest;
    let at = lead().len() as int;
    lemma_decimal_bytes(n);
    lemma_encode_concat(text + decimal(n), "\r\n\r\n"@);
    lemma_encode_concat(text, decimal(n));
    assert(encode_utf8("\r\n\r\n"@) =~= crlf2) by {
        reveal_strlit("\r\n\r\n");
        assert(is_ascii_chars("\r\n\r\n"@));
        is_ascii_chars_encode_utf8("\r\n\r\n"@);
    }
    assert(encode_utf8(part_head(n)) =~= lead() + d + crlf2);
    let tail = crlf2 + jpeg + seq![13u8, 10u8] + rest;
    assert(s =~= lead() + (d + tail));
    assert(s.take(at) =~= lead());
    assert(s.skip(at) =~= d + tail);
    lemma_digit_run(d, tail);
    let digits = d.len() as int;
    assert(s.subrange(at, at + digits) =~= d);
    let body = at + digits + 4;
    assert(s.subrange(at + digits, body) =~= crlf2);
    assert(s.subrange(body, body + n) =~= jpeg);
    assert(s.subrange(body + n, body + n + 2) =~= seq![13u8, 10u8]);
    assert(s.skip(body + n + 2) =~= rest);
}

/// A reader of the stream gets back every image that was put on it, in order.
pub proof fn law_stream_reads_back(images: Seq<Seq<u8>>)
    ensures
        read_images(stream_of(images), images.len()) == images,
    decreases images.len(),
{
    if images.len() == 0 {
        assert(read_images(stream_of(images), 0) =~= images);
    } else {
        let rest = images.drop_first();
        law_image_reads_back(images[0], stream_of(rest));
        law_stream_reads_back(rest);
        assert(seq![images[0]] + rest =~= images);
    }
}

} // verus!
