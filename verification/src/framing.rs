//! What a reader makes of the bytes of a response.
use vstd::prelude::*;

use crate::http::reason;
use crate::http::response_bytes;
use crate::http::response_head;
use crate::text::decimal;
use crate::text::digit;
use crate::text::signed_decimal;
use vstd::utf8::encode_scalar;
use vstd::utf8::encode_utf8;
use vstd::utf8::is_ascii_chars;
use vstd::utf8::is_ascii_chars_encode_utf8;

verus! {

/// Whether the blank line that ends the head of a response starts at `i`.
pub open spec fn blank_line_at(bytes: Seq<u8>, i: int) -> bool {
    &&& 0 <= i && i + 4 <= bytes.len()
    &&& bytes[i] == 13 && bytes[i + 1] == 10
    &&& bytes[i + 2] == 13 && bytes[i + 3] == 10
}

/// The number that a text of decimal digits stands for.
pub open spec fn decimal_value(digits: Seq<char>) -> nat
    decreases digits.len(),
{
    if digits.len() == 0 {
        0
    } else {
        10 * decimal_value(digits.drop_last()) + (digits.last() as nat - 48) as nat
    }
}

/// A number in decimal reads back as itself, and holds nothing but digits.
pub proof fn law_decimal_reads_back(n: nat)
    ensures
        decimal_value(decimal(n)) == n,
        decimal(n).len() > 0,
        forall|i: int|
            0 <= i < decimal(n).len() ==> '0' <= #[trigger] decimal(n)[i] && decimal(n)[i] <= '9',
    decreases n,
{
    if n < 10 {
        assert(decimal(n).drop_last() == Seq::<char>::empty());
        assert(decimal_value(Seq::<char>::empty()) == 0);
    } else {
        law_decimal_reads_back(n / 10);
        assert(decimal(n).drop_last() == decimal(n / 10));
        assert forall|i: int| 0 <= i < decimal(n).len() implies '0' <= #[trigger] decimal(n)[i]
            && decimal(n)[i] <= '9' by {
            if i < decimal(n).len() - 1 {
                assert(decimal(n)[i] == decimal(n / 10)[i]);
            }
        }
    }
}

proof fn lemma_encode_joins(a: Seq<char>, b: Seq<char>)
    ensures
        encode_utf8(a + b) == encode_utf8(a) + encode_utf8(b),
    decreases a.len(),
{
    if a.len() == 0 {
        assert(a + b == b);
    } else {
        assert((a + b).drop_first() == a.drop_first() + b);
        lemma_encode_joins(a.drop_first(), b);
        assert(encode_utf8(a + b) == encode_utf8(a) + encode_utf8(b));
    }
}

proof fn lemma_encode_scalar_without_return(character: char)
    requires
        character != '\r',
    ensures
        forall|i: int|
            0 <= i < encode_scalar(character as u32).len() ==> #[trigger] encode_scalar(
                character as u32,
            )[i] != 13,
{
    let c = character as u32;
    assert(c <= 0x7f ==> (c & 0x7f) as u8 != 13) by (bit_vector)
        requires
            c != 13,
    ;
    assert(0xC0 | ((c >> 6) & 0x1F) as u8 != 13) by (bit_vector);
    assert(0xE0 | ((c >> 12) & 0x0F) as u8 != 13) by (bit_vector);
    assert(0xF0 | ((c >> 18) & 0x7) as u8 != 13) by (bit_vector);
    assert(0x80 | (c & 0x3F) as u8 != 13) by (bit_vector);
    assert(0x80 | ((c >> 6) & 0x3F) as u8 != 13) by (bit_vector);
    assert(0x80 | ((c >> 12) & 0x3F) as u8 != 13) by (bit_vector);
}

proof fn lemma_encode_without_return(s: Seq<char>)
    requires
        !s.contains('\r'),
    ensures
        forall|i: int| 0 <= i < encode_utf8(s).len() ==> encode_utf8(s)[i] != 13,
    decreases s.len(),
{
    if s.len() > 0 {
        let rest = s.drop_first();
        assert(s.contains(s[0]));
        assert(!rest.contains('\r')) by {
            assert forall|k: int| 0 <= k < rest.len() implies rest[k] != '\r' by {
                assert(s.contains(s[k + 1]));
            }
        }
        lemma_encode_without_return(rest);
        lemma_encode_scalar_without_return(s[0]);
        let first = encode_scalar(s[0] as u32);
        assert(encode_utf8(s) == first + encode_utf8(rest));
        assert forall|i: int| 0 <= i < encode_utf8(s).len() implies encode_utf8(s)[i] != 13 by {
            if i >= first.len() {
                assert(encode_utf8(s)[i] == encode_utf8(rest)[i - first.len()]);
            }
        }
    }
}

/// The first blank line of a response is the one that ends its head, and what
/// follows it is the body, whatever the body holds. The length that the head
/// gives is that of the body.
pub proof fn law_response_frames_its_body(status: u16, content_type: Seq<char>, body: Seq<u8>)
    requires
        !content_type.contains('\r'),
    ensures
        ({
            let bytes = response_bytes(status, content_type, body);
            let n = bytes.len() - body.len();
            &&& blank_line_at(bytes, n - 4)
            &&& forall|i: int| blank_line_at(bytes, i) ==> n - 4 <= i
            &&& bytes.skip(n) == body
        }),
        exists|front: Seq<char>, back: Seq<char>|
            #[trigger] (front + "\r\nContent-Length: "@ + decimal(body.len()) + back)
                == response_head(status, content_type, body.len()),
        decimal_value(decimal(body.len())) == body.len(),
{
    reveal_strlit("HTTP/1.1 ");
    reveal_strlit(" ");
    reveal_strlit("OK");
    reveal_strlit("Method Not Allowed");
    reveal_strlit("Internal Server Error");
    reveal_strlit("\r\nContent-Type: ");
    reveal_strlit("\r\nContent-Length: ");
    reveal_strlit("\r\nConnection: close\r\n\r\n");
    law_decimal_reads_back(status as nat);
    law_decimal_reads_back(body.len());
    let a = "HTTP/1.1 "@ + decimal(status as nat) + " "@ + reason(status);
    let b = "\r\nContent-Type: "@;
    let c = "\r\nContent-Length: "@;
    let length = decimal(body.len());
    let d = "\r\nConnection: close\r\n\r\n"@;
    let head = response_head(status, content_type, body.len());
    assert(head == (a + b + content_type) + c + length + d);
    assert(!a.contains('\r')) by {
        let x = "HTTP/1.1 "@;
        let y = decimal(status as nat);
        assert forall|i: int| 0 <= i < a.len() implies a[i] != '\r' by {
            if x.len() <= i < x.len() + y.len() {
                assert(a[i] == y[i - x.len()]);
            }
        }
    }
    lemma_encode_joins(a + b + content_type + c + length, d);
    lemma_encode_joins(a + b + content_type + c, length);
    lemma_encode_joins(a + b + content_type, c);
    lemma_encode_joins(a + b, content_type);
    lemma_encode_joins(a, b);
    lemma_encode_without_return(a);
    lemma_encode_without_return(content_type);
    lemma_encode_without_return(length);
    assert(is_ascii_chars(b));
    assert(is_ascii_chars(c));
    assert(is_ascii_chars(d));
    is_ascii_chars_encode_utf8(b);
    is_ascii_chars_encode_utf8(c);
    is_ascii_chars_encode_utf8(d);
    let ea = encode_utf8(a);
    let eb = encode_utf8(b);
    let et = encode_utf8(content_type);
    let ec = encode_utf8(c);
    let el = encode_utf8(length);
    let ed = encode_utf8(d);
    let bytes = response_bytes(status, content_type, body);
    assert(bytes == ea + eb + et + ec + el + ed + body);
    let n = bytes.len() - body.len();
    assert(bytes.skip(n) == body);
    let p = ea.len() as int;
    let q = p + eb.len() + et.len();
    let r = q + ec.len() + el.len();
    assert forall|k: int| 0 <= k < 23 implies bytes[r + k] == d[k] as u8 by {
        assert(bytes[r + k] == ed[k]);
    }
    assert(d[19] == '\r' && d[20] == '\n' && d[21] == '\r' && d[22] == '\n');
    assert(bytes[r + 19] == 13 && bytes[r + 20] == 10 && bytes[r + 21] == 13 && bytes[r + 22] == 10);
    assert forall|i: int| blank_line_at(bytes, i) implies n - 4 <= i by {
        if i < p {
            assert(bytes[i] == ea[i]);
        } else if i < p + eb.len() {
            assert(bytes[i] == eb[i - p]);
            assert(eb[i - p] == b[i - p] as u8);
            if i == p {
                assert(bytes[i + 2] == eb[2]);
                assert(eb[2] == b[2] as u8);
            }
        } else if i < q {
            assert(bytes[i] == et[i - p - eb.len()]);
        } else if i < q + ec.len() {
            assert(bytes[i] == ec[i - q]);
            assert(ec[i - q] == c[i - q] as u8);
            if i == q {
                assert(bytes[i + 2] == ec[2]);
                assert(ec[2] == c[2] as u8);
            }
        } else if i < r {
            assert(bytes[i] == el[i - q - ec.len()]);
        } else {
            assert(bytes[i] == bytes[r + (i - r)]);
            if i == r {
                assert(bytes[r + 2] == d[2] as u8);
            }
        }
    }
}

/// A number in decimal has no leading zeros: only zero starts with one.
pub proof fn law_decimal_has_no_leading_zeros(n: nat)
    ensures
        decimal(n).len() > 0,
        n > 0 ==> decimal(n)[0] != '0',
        n == 0 ==> decimal(n) == seq!['0'],
    decreases n,
{
    if n >= 10 {
        law_decimal_has_no_leading_zeros(n / 10);
        assert(decimal(n)[0] == decimal(n / 10)[0]);
    }
}

/// A number with a sign reads back as itself: a negative one is a minus sign and
/// its size, any other one its size alone.
pub proof fn law_signed_decimal_reads_back(n: int)
    ensures
        n < 0 ==> signed_decimal(n).len() > 0 && signed_decimal(n)[0] == '-' && decimal_value(
            signed_decimal(n).skip(1),
        ) == -n,
        n >= 0 ==> decimal_value(signed_decimal(n)) == n,
        n >= 0 ==> signed_decimal(n) == decimal(n as nat),
        n < 0 ==> signed_decimal(n).skip(1) == decimal((-n) as nat),
{
    if n < 0 {
        law_decimal_reads_back((-n) as nat);
        assert(signed_decimal(n).skip(1) == decimal((-n) as nat));
    } else {
        law_decimal_reads_back(n as nat);
    }
}

} // verus!
