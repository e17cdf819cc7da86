use vstd::prelude::*;
use vstd::string::{is_ascii, is_ascii_spec_bytes, StringSliceAdditionalSpecFns};

verus! {

/// Relies on `String::push`: the char is appended at the end.
pub assume_specification[ String::push ](s: &mut String, ch: char)
    ensures
        final(s)@ == old(s)@.push(ch),
;

/// Bytes that pass through a query value unchanged: `A-Z a-z 0-9 - _ . ~`.
pub open spec fn is_unreserved(b: u8) -> bool {
    (0x41 <= b && b <= 0x5a) || (0x61 <= b && b <= 0x7a) || (0x30 <= b && b <= 0x39) || b
        == 0x2d || b == 0x5f || b == 0x2e || b == 0x7e
}

/// Uppercase hexadecimal digit of `n < 16`.
pub open spec fn hex_digit(n: u8) -> char {
    if n < 10 {
        (0x30 + n) as char
    } else {
        (0x41 + n - 10) as char
    }
}

/// What one byte of a query value becomes.
pub open spec fn escape_byte(b: u8) -> Seq<char> {
    if is_unreserved(b) {
        seq![b as char]
    } else {
        seq!['%', hex_digit(b / 16), hex_digit(b % 16)]
    }
}

/// Percent-encoding of a byte string, byte by byte.
pub open spec fn percent_encoded(bs: Seq<u8>) -> Seq<char>
    decreases bs.len(),
{
    if bs.len() == 0 {
        Seq::empty()
    } else {
        percent_encoded(bs.drop_last()) + escape_byte(bs.last())
    }
}

/// Chars that are unreserved bytes in their UTF-8 encoding.
pub open spec fn is_unreserved_char(c: char) -> bool {
    ('A' <= c && c <= 'Z') || ('a' <= c && c <= 'z') || ('0' <= c && c <= '9') || c == '-' || c
        == '_' || c == '.' || c == '~'
}

/// Uppercase hexadecimal digits.
pub open spec fn is_upper_hex(c: char) -> bool {
    ('0' <= c && c <= '9') || ('A' <= c && c <= 'F')
}

/// Value of an uppercase hexadecimal digit.
pub open spec fn upper_hex_value(c: char) -> int {
    if c <= '9' {
        (c as u32) as int - 0x30
    } else {
        (c as u32) as int - 0x41 + 10
    }
}

/// Every reserved byte is written as `%` followed by two uppercase hex digits
/// that spell the byte, high nibble first.
pub proof fn lemma_escape_shape(b: u8)
    requires
        !is_unreserved(b),
    ensures
        escape_byte(b).len() == 3,
        escape_byte(b)[0] == '%',
        is_upper_hex(escape_byte(b)[1]),
        is_upper_hex(escape_byte(b)[2]),
        upper_hex_value(escape_byte(b)[1]) * 16 + upper_hex_value(escape_byte(b)[2]) == b,
{
    let e = escape_byte(b);
    assert(e[1] == hex_digit(b / 16));
    assert(e[2] == hex_digit(b % 16));
}

proof fn lemma_encode_unreserved_bytes(cs: Seq<char>)
    requires
        forall|i: int| 0 <= i < cs.len() ==> is_unreserved_char(#[trigger] cs[i]),
    ensures
        percent_encoded(Seq::new(cs.len(), |i: int| cs[i] as u8)) == cs,
    decreases cs.len(),
{
    let bs = Seq::new(cs.len(), |i: int| cs[i] as u8);
    if cs.len() > 0 {
        let init = cs.drop_last();
        lemma_encode_unreserved_bytes(init);
        assert(bs.drop_last() =~= Seq::new(init.len(), |i: int| init[i] as u8));
        let c = cs.last();
        assert(is_unreserved_char(c));
        assert(bs.last() == c as u8);
        assert((c as u8) as char == c);
        assert(escape_byte(bs.last()) =~= seq![c]);
        assert(cs =~= init + seq![c]);
    } else {
        assert(percent_encoded(bs) =~= cs);
    }
}

/// Encoding a string made only of unreserved chars gives the same string back,
/// so encoding is a no-op on text that is already safe.
pub proof fn lemma_encode_unreserved_identity(s: &str)
    requires
        forall|i: int| 0 <= i < s@.len() ==> is_unreserved_char(#[trigger] s@[i]),
    ensures
        percent_encoded(s.spec_bytes()) == s@,
{
    assert(is_ascii(s)) by {
        assert forall|i: int| 0 <= i < s@.len() implies '\0' <= #[trigger] s@[i] <= '\u{7f}' by {
            assert(is_unreserved_char(s@[i]));
        }
    }
    is_ascii_spec_bytes(s);
    lemma_encode_unreserved_bytes(s@);
}

fn push_hex_digit(out: &mut String, n: u8)
    requires
        n < 16,
    ensures
        final(out)@ == old(out)@.push(hex_digit(n)),
{
    if n < 10 {
        out.push((0x30 + n) as char);
    } else {
        out.push((0x41 + n - 10) as char);
    }
}

/// Percent-encodes the UTF-8 bytes of `data`: unreserved bytes pass through,
/// every other byte becomes `%` and two uppercase hex digits.
pub fn encode(data: &str) -> (r: String)
    ensures
        r@ == percent_encoded(data.spec_bytes()),
{
    let bytes = data.as_bytes();
    let mut out = String::new();
    let mut i: usize = 0;
    while i < bytes.len()
        invariant
            bytes@ == data.spec_bytes(),
            i <= bytes@.len(),
            out@ == percent_encoded(bytes@.subrange(0, i as int)),
        decreases bytes@.len() - i,
    {
        let b = bytes[i];
        proof {
            let pre = bytes@.subrange(0, i as int + 1);
            assert(pre.drop_last() =~= bytes@.subrange(0, i as int));
            assert(pre.last() == b);
        }
        if (0x41 <= b && b <= 0x5a) || (0x61 <= b && b <= 0x7a) || (0x30 <= b && b <= 0x39) || b
            == 0x2d || b == 0x5f || b == 0x2e || b == 0x7e {
            out.push(b as char);
        } else {
            out.push('%');
            push_hex_digit(&mut out, b / 16);
            push_hex_digit(&mut out, b % 16);
        }
        i = i + 1;
    }
    assert(bytes@.subrange(0, bytes@.len() as int) =~= bytes@);
    out
}

} // verus!
