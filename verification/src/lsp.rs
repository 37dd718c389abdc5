//! The framing of the messages that the server exchanges with a language
//! server: a header that gives the length of the content, an empty line, the
//! content.

use vstd::prelude::*;
use vstd::string::StringSliceAdditionalSpecFns;
use crate::routes::append_bytes;
use crate::text::next_byte;

verus! {

/// The name of the header that gives the length of the content.
pub const CONTENT_LENGTH: &'static str = "Content-Length";

/// What the bytes received so far hold.
#[derive(Clone, Copy, Debug, PartialEq, Eq, Structural)]
pub enum Frame {
    /// Not yet a whole message: more bytes are needed.
    Incomplete,
    /// No message: a header without a colon, no length, or a length that is
    /// no number.
    Malformed,
    /// A whole message: its content starts at `body_start` and is
    /// `content_len` bytes long.
    Complete { body_start: usize, content_len: usize },
}

/// A blank: a space, a tab, a line feed, a vertical tab, a form feed or a
/// carriage return.
pub open spec fn is_blank(b: u8) -> bool {
    b == 32 || (9 <= b <= 13)
}

/// The first position in `[from, to)` that holds no blank; `to` if all do.
pub open spec fn skip_blanks(bytes: Seq<u8>, from: int, to: int) -> int
    decreases to - from,
{
    if from >= to {
        to
    } else if is_blank(bytes[from]) {
        skip_blanks(bytes, from + 1, to)
    } else {
        from
    }
}

/// The end of `[from, to)` once the blanks at its end are dropped.
pub open spec fn drop_blanks(bytes: Seq<u8>, from: int, to: int) -> int
    decreases to - from,
{
    if to <= from {
        from
    } else if is_blank(bytes[to - 1]) {
        drop_blanks(bytes, from, to - 1)
    } else {
        to
    }
}

/// The number that the decimal digits in `[from, to)` spell; `None` if one
/// of the bytes is no digit.
pub open spec fn decimal(bytes: Seq<u8>, from: int, to: int) -> Option<int>
    decreases to - from,
{
    if to <= from {
        Some(0)
    } else {
        match decimal(bytes, from, to - 1) {
            Some(v) => if 48 <= bytes[to - 1] <= 57 {
                Some(v * 10 + (bytes[to - 1] - 48))
            } else {
                None
            },
            None => None,
        }
    }
}

/// The length that the value in `[from, to)` gives: blanks around it
/// dropped, an optional `+`, then at least one digit, and the number fits.
pub open spec fn length_of(bytes: Seq<u8>, from: int, to: int) -> Option<usize> {
    let a = skip_blanks(bytes, from, to);
    let b = drop_blanks(bytes, a, to);
    let start = if a < b && bytes[a] == 43 {
        a + 1
    } else {
        a
    };
    if start >= b {
        None
    } else {
        match decimal(bytes, start, b) {
            Some(v) => if v <= usize::MAX {
                Some(v as usize)
            } else {
                None
            },
            None => None,
        }
    }
}

/// What the bytes hold, read from the header line that starts at `from`,
/// with the length that the headers before it gave. A line ends at a line
/// feed; the byte before the line feed belongs to the line ending. An empty
/// line ends the headers. The last length counts.
pub open spec fn frame_from(bytes: Seq<u8>, from: int, content_len: Option<usize>) -> Frame
    decreases bytes.len() - from,
{
    let nl = next_byte(bytes, 10, from);
    if from < 0 || nl >= bytes.len() || nl < from {
        Frame::Incomplete
    } else if nl - from <= 1 {
        match content_len {
            None => Frame::Malformed,
            Some(n) => if bytes.len() - (nl + 1) >= n {
                Frame::Complete { body_start: (nl + 1) as usize, content_len: n }
            } else {
                Frame::Incomplete
            },
        }
    } else {
        let end = nl - 1;
        let colon = next_byte(bytes, 58, from);
        if colon >= end {
            Frame::Malformed
        } else if bytes.subrange(from, colon) == CONTENT_LENGTH.spec_bytes() {
            match length_of(bytes, colon + 1, end) {
                Some(n) => frame_from(bytes, nl + 1, Some(n)),
                None => Frame::Malformed,
            }
        } else {
            frame_from(bytes, nl + 1, content_len)
        }
    }
}

/// What the bytes received so far hold.
pub open spec fn frame_of(bytes: Seq<u8>) -> Frame {
    frame_from(bytes, 0, None)
}

/// Once the digits spell a number, more digits spell no smaller one.
pub proof fn lemma_decimal_grows(bytes: Seq<u8>, from: int, mid: int, to: int)
    requires
        from <= mid <= to,
        decimal(bytes, from, to) is Some,
    ensures
        decimal(bytes, from, mid) is Some,
        0 <= decimal(bytes, from, mid).unwrap() <= decimal(bytes, from, to).unwrap(),
    decreases to - mid,
{
    if mid < to {
        lemma_decimal_grows(bytes, from, mid, to - 1);
        lemma_decimal_grows(bytes, from, to - 1, to - 1);
    } else {
        lemma_decimal_nonnegative(bytes, from, to);
    }
}

/// The digits spell no negative number.
pub proof fn lemma_decimal_nonnegative(bytes: Seq<u8>, from: int, to: int)
    requires
        decimal(bytes, from, to) is Some,
    ensures
        decimal(bytes, from, to).unwrap() >= 0,
    decreases to - from,
{
    if to > from {
        lemma_decimal_nonnegative(bytes, from, to - 1);
    }
}

/// Finds the first position at or after `from` that holds the byte.
pub fn find_in(bytes: &[u8], sep: u8, from: usize) -> (r: usize)
    requires
        from <= bytes@.len(),
    ensures
        r == next_byte(bytes@, sep, from as int),
        from <= r <= bytes@.len(),
{
    let mut i: usize = from;
    while i < bytes.len()
        invariant
            from <= i <= bytes@.len(),
            next_byte(bytes@, sep, from as int) == next_byte(bytes@, sep, i as int),
        decreases bytes.len() - i,
    {
        if bytes[i] == sep {
            return i;
        }
        i += 1;
    }
    i
}

/// Whether a byte is a blank.
pub fn blank(b: u8) -> (r: bool)
    ensures
        r == is_blank(b),
{
    b == 32 || (9 <= b && b <= 13)
}

/// Reads the length that the value in `[from, to)` gives.
pub fn parse_length(bytes: &[u8], from: usize, to: usize) -> (r: Option<usize>)
    requires
        from <= to <= bytes@.len(),
    ensures
        r == length_of(bytes@, from as int, to as int),
{
    let mut a: usize = from;
    while a < to && blank(bytes[a])
        invariant
            from <= a <= to <= bytes@.len(),
            skip_blanks(bytes@, from as int, to as int) == skip_blanks(bytes@, a as int, to as int),
        decreases to - a,
    {
        a += 1;
    }
    let mut b: usize = to;
    while b > a && blank(bytes[b - 1])
        invariant
            a <= b <= to <= bytes@.len(),
            drop_blanks(bytes@, a as int, to as int) == drop_blanks(bytes@, a as int, b as int),
        decreases b - a,
    {
        b -= 1;
    }
    let start = if a < b && bytes[a] == 43 {
        a + 1
    } else {
        a
    };
    if start >= b {
        return None;
    }
    let mut value: usize = 0;
    let mut i: usize = start;
    while i < b
        invariant
            start <= i <= b <= bytes@.len(),
            start < b,
            a == skip_blanks(bytes@, from as int, to as int),
            b == drop_blanks(bytes@, a as int, to as int),
            start == if a < b && bytes@[a as int] == 43 {
                a + 1
            } else {
                a as int
            },
            decimal(bytes@, start as int, i as int) == Some(value as int),
        decreases b - i,
    {
        let d = bytes[i];
        if d < 48 || d > 57 {
            proof {
                if decimal(bytes@, start as int, b as int) is Some {
                    lemma_decimal_grows(bytes@, start as int, i + 1, b as int);
                }
            }
            return None;
        }
        let digit = (d - 48) as usize;
        if value > (usize::MAX - digit) / 10 {
            proof {
                assert(value * 10 + digit > usize::MAX);
                if decimal(bytes@, start as int, b as int) is Some {
                    lemma_decimal_grows(bytes@, start as int, i + 1, b as int);
                }
            }
            return None;
        }
        value = value * 10 + digit;
        i += 1;
    }
    Some(value)
}

/// Whether the bytes in `[from, to)` are the name of the length header.
pub fn is_content_length(bytes: &[u8], from: usize, to: usize) -> (r: bool)
    requires
        from <= to <= bytes@.len(),
    ensures
        r == (bytes@.subrange(from as int, to as int) == CONTENT_LENGTH.spec_bytes()),
{
    let name = CONTENT_LENGTH.as_bytes();
    if to - from != name.len() {
        return false;
    }
    let mut i: usize = 0;
    while i < name.len()
        invariant
            from <= to <= bytes@.len(),
            to - from == name@.len(),
            name@ == CONTENT_LENGTH.spec_bytes(),
            i <= name@.len(),
            forall|j: int| 0 <= j < i ==> bytes@[from + j] == name@[j],
        decreases name.len() - i,
    {
        if bytes[from + i] != name[i] {
            assert(bytes@.subrange(from as int, to as int)[i as int] != name@[i as int]);
            return false;
        }
        i += 1;
    }
    assert(bytes@.subrange(from as int, to as int) =~= name@);
    true
}

/// Says what the bytes received so far hold: a whole message, and where its
/// content is; not yet a whole message; or no message at all.
pub fn parse_frame(buf: &[u8]) -> (r: Frame)
    ensures
        r == frame_of(buf@),
        r matches Frame::Complete { body_start, content_len } ==> body_start + content_len
            <= buf@.len(),
{
    let mut from: usize = 0;
    let mut content_len: Option<usize> = None;
    while from <= buf.len()
        invariant
            from <= buf@.len(),
            frame_of(buf@) == frame_from(buf@, from as int, content_len),
        decreases buf@.len() - from,
    {
        let nl = find_in(buf, 10, from);
        if nl >= buf.len() {
            return Frame::Incomplete;
        }
        if nl - from <= 1 {
            return match content_len {
                None => Frame::Malformed,
                Some(n) => {
                    if buf.len() - (nl + 1) >= n {
                        Frame::Complete { body_start: nl + 1, content_len: n }
                    } else {
                        Frame::Incomplete
                    }
                },
            };
        }
        let end = nl - 1;
        let colon = find_in(buf, 58, from);
        if colon >= end {
            return Frame::Malformed;
        }
        if is_content_length(buf, from, colon) {
            match parse_length(buf, colon + 1, end) {
                Some(n) => {
                    content_len = Some(n);
                },
                None => {
                    return Frame::Malformed;
                },
            }
        }
        from = nl + 1;
    }
    Frame::Incomplete
}

/// The decimal digits of a number.
pub open spec fn digits_of(n: nat) -> Seq<u8>
    decreases n,
{
    if n < 10 {
        seq![(48 + n) as u8]
    } else {
        digits_of(n / 10).push((48 + n % 10) as u8)
    }
}

/// The header of a message of `content_len` bytes: the length header and
/// the empty line.
pub open spec fn header_of(content_len: nat) -> Seq<u8> {
    CONTENT_LENGTH.spec_bytes() + seq![58u8, 32u8] + digits_of(content_len) + seq![
        13u8,
        10u8,
        13u8,
        10u8,
    ]
}

/// The decimal digits of a number.
pub fn decimal_digits(n: usize) -> (r: Vec<u8>)
    ensures
        r@ == digits_of(n as nat),
    decreases n,
{
    if n < 10 {
        let mut r: Vec<u8> = Vec::new();
        r.push(48 + (n as u8));
        assert(r@ =~= digits_of(n as nat));
        r
    } else {
        let mut r = decimal_digits(n / 10);
        r.push(48 + ((n % 10) as u8));
        r
    }
}

/// The header to send before a message of `content_len` bytes.
pub fn frame_header(content_len: usize) -> (r: Vec<u8>)
    ensures
        r@ == header_of(content_len as nat),
{
    let mut r: Vec<u8> = Vec::new();
    let name = CONTENT_LENGTH.as_bytes();
    let mut i: usize = 0;
    while i < name.len()
        invariant
            i <= name@.len(),
            name@ == CONTENT_LENGTH.spec_bytes(),
            r@ == name@.take(i as int),
        decreases name.len() - i,
    {
        r.push(name[i]);
        assert(name@.take(i + 1) =~= name@.take(i as int).push(name@[i as int]));
        i += 1;
    }
    assert(name@.take(name@.len() as int) =~= name@);
    r.push(58);
    r.push(32);
    let digits = decimal_digits(content_len);
    append_bytes(&mut r, &digits);
    r.push(13);
    r.push(10);
    r.push(13);
    r.push(10);
    assert(r@ =~= header_of(content_len as nat));
    r
}

/// The bytes of the name of the length header: fourteen of them, none a
/// line feed, a colon or a blank.
pub proof fn lemma_name_bytes()
    ensures
        CONTENT_LENGTH.spec_bytes().len() == 14,
        forall|i: int|
            0 <= i < 14 ==> {
                let b = #[trigger] CONTENT_LENGTH.spec_bytes()[i];
                b != 10 && b != 58 && !is_blank(b)
            },
{
    reveal_strlit("Content-Length");
    let name = "Content-Length";
    assert(vstd::string::is_ascii(name)) by {
        assert forall|i: int| 0 <= i < name@.len() implies (name@[i] as nat) < 128 by {
            if i == 0 {
            } else if i == 1 {
            } else if i == 2 {
            } else if i == 3 {
            } else if i == 4 {
            } else if i == 5 {
            } else if i == 6 {
            } else if i == 7 {
            } else if i == 8 {
            } else if i == 9 {
            } else if i == 10 {
            } else if i == 11 {
            } else if i == 12 {
            } else {
            }
        }
    }
    vstd::string::is_ascii_spec_bytes(name);
    assert(name.spec_bytes().len() == 14);
    assert forall|i: int| 0 <= i < 14 implies {
        let b = #[trigger] name.spec_bytes()[i];
        b != 10 && b != 58 && !is_blank(b)
    } by {
        assert(name.spec_bytes()[i] == name@[i] as u8);
    }
}

/// The first position at or after `from` that holds the byte is `at` if
/// `at` holds it and nothing between `from` and `at` does.
pub proof fn lemma_next_byte_is(bytes: Seq<u8>, sep: u8, from: int, at: int)
    requires
        0 <= from <= at < bytes.len(),
        bytes[at] == sep,
        forall|j: int| from <= j < at ==> bytes[j] != sep,
    ensures
        next_byte(bytes, sep, from) == at,
    decreases at - from,
{
    if from < at {
        lemma_next_byte_is(bytes, sep, from + 1, at);
    }
}

/// The digits of a number are decimal digits, at least one.
pub proof fn lemma_digits(n: nat)
    ensures
        digits_of(n).len() >= 1,
        forall|i: int| 0 <= i < digits_of(n).len() ==> 48 <= #[trigger] digits_of(n)[i] <= 57,
    decreases n,
{
    if n >= 10 {
        lemma_digits(n / 10);
    }
}

/// Where the bytes from `from` on are the digits of a number, they spell
/// that number.
pub proof fn lemma_decimal_of_digits(bytes: Seq<u8>, from: int, n: nat)
    requires
        0 <= from,
        from + digits_of(n).len() <= bytes.len(),
        bytes.subrange(from, from + digits_of(n).len()) == digits_of(n),
    ensures
        decimal(bytes, from, from + digits_of(n).len()) == Some(n as int),
    decreases n,
{
    let digits = digits_of(n);
    let to = from + digits.len();
    lemma_digits(n);
    assert(bytes[to - 1] == digits[digits.len() - 1]) by {
        assert(bytes.subrange(from, to)[digits.len() - 1] == bytes[to - 1]);
    }
    if n < 10 {
        assert(digits.len() == 1);
        assert(decimal(bytes, from, from) == Some(0int));
    } else {
        let fewer = digits_of(n / 10);
        assert(digits.drop_last() =~= fewer);
        assert(bytes.subrange(from, to - 1) =~= bytes.subrange(from, to).drop_last());
        lemma_decimal_of_digits(bytes, from, n / 10);
    }
}

/// Where every byte of `[from, to)` is a digit, no blank is skipped and
/// none dropped.
pub proof fn lemma_no_blanks_among_digits(bytes: Seq<u8>, from: int, to: int)
    requires
        0 <= from < to <= bytes.len(),
        forall|j: int| from <= j < to ==> 48 <= #[trigger] bytes[j] <= 57,
    ensures
        skip_blanks(bytes, from, to) == from,
        drop_blanks(bytes, from, to) == to,
{
    assert(!is_blank(bytes[from]));
    assert(!is_blank(bytes[to - 1]));
}

/// A message that starts with the header for its length is read as a whole
/// message of that length, its content right behind the header.
pub proof fn lemma_header_is_read_back(content_len: usize, body: Seq<u8>)
    requires
        body.len() >= content_len,
        header_of(content_len as nat).len() <= usize::MAX,
    ensures
        frame_of(header_of(content_len as nat) + body) == (Frame::Complete {
            body_start: header_of(content_len as nat).len() as usize,
            content_len,
        }),
{
    let n = content_len as nat;
    let name = CONTENT_LENGTH.spec_bytes();
    let digits = digits_of(n);
    let header = header_of(n);
    let bytes = header + body;
    lemma_name_bytes();
    lemma_digits(n);
    let d = digits.len() as int;
    // Name, colon, space, digits, and the two line endings.
    assert(header.len() == 14 + 2 + d + 4);
    assert forall|j: int| 0 <= j < 14 implies bytes[j] == name[j] by {}
    assert(bytes[14] == 58 && bytes[15] == 32);
    assert forall|j: int| 0 <= j < d implies bytes[16 + j] == digits[j] by {}
    assert(bytes[16 + d] == 13 && bytes[17 + d] == 10 && bytes[18 + d] == 13 && bytes[19 + d]
        == 10);
    let nl = 17 + d;
    assert forall|j: int| 0 <= j < nl implies bytes[j] != 10 by {
        if j < 14 {
            assert(bytes[j] == name[j]);
        } else if 16 <= j < 16 + d {
            assert(bytes[j] == digits[j - 16]);
        }
    }
    lemma_next_byte_is(bytes, 10, 0, nl);
    assert forall|j: int| 0 <= j < 14 implies bytes[j] != 58 by {
        assert(bytes[j] == name[j]);
    }
    lemma_next_byte_is(bytes, 58, 0, 14);
    assert(bytes.subrange(0, 14) =~= name);
    // The value: a space and the digits.
    let end = nl - 1;
    assert(is_blank(bytes[15]));
    assert forall|j: int| 16 <= j < end implies 48 <= #[trigger] bytes[j] <= 57 by {
        assert(bytes[j] == digits[j - 16]);
    }
    lemma_no_blanks_among_digits(bytes, 16, end);
    assert(skip_blanks(bytes, 15, end) == skip_blanks(bytes, 16, end));
    assert(bytes.subrange(16, 16 + d) =~= digits);
    lemma_decimal_of_digits(bytes, 16, n);
    assert(length_of(bytes, 15, end) == Some(content_len));
    // The empty line.
    lemma_next_byte_is(bytes, 10, nl + 1, nl + 2);
    assert(frame_from(bytes, nl + 1, Some(content_len)) == (Frame::Complete {
        body_start: (nl + 3) as usize,
        content_len,
    }));
}

/// What came in from the language server.
#[derive(Clone, Copy, Debug, PartialEq, Eq, Structural)]
pub enum Incoming {
    /// An answer, with its id if the id is a number.
    Response(Option<u64>),
    /// A notification or a request of the language server.
    Call,
    /// Something that is neither.
    Undecodable,
}

/// Where what came in goes.
#[derive(Clone, Copy, Debug, PartialEq, Eq, Structural)]
pub enum Delivery {
    /// To the caller that waits under this id.
    ToCaller(usize),
    /// To the queue of what the language server asks and announces.
    ToServerRequests,
    /// Nowhere.
    Dropped,
}

/// Where what came in goes: an answer with a numeric id to the caller that
/// waits under that id, a call to the queue; anything else is dropped.
pub fn deliver(incoming: Incoming) -> (r: Delivery)
    ensures
        r == match incoming {
            Incoming::Response(Some(id)) => if id <= usize::MAX {
                Delivery::ToCaller(id as usize)
            } else {
                Delivery::Dropped
            },
            Incoming::Response(None) => Delivery::Dropped,
            Incoming::Call => Delivery::ToServerRequests,
            Incoming::Undecodable => Delivery::Dropped,
        },
{
    match incoming {
        Incoming::Response(Some(id)) => {
            if id <= usize::MAX as u64 {
                Delivery::ToCaller(id as usize)
            } else {
                Delivery::Dropped
            }
        },
        Incoming::Response(None) => Delivery::Dropped,
        Incoming::Call => Delivery::ToServerRequests,
        Incoming::Undecodable => Delivery::Dropped,
    }
}

} // verus!
