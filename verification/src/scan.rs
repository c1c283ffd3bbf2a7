//! A look over a JSON text before it is handed to the parser of
//! `rustc_serialize`.
//!
//! That parser does not return on every text:
//! - Where a comma stands before the brace that closes an object, the brace
//!   takes one entry too many from the parser's record of the values that
//!   are open, and the parser may panic later on.
//! - It calls itself once for every bracket and brace that is open.
//! - It keeps the keys of the objects that are open one after another in a
//!   buffer and holds their places in sixteen bits.
//! - It computes the exponent of a number without a guard against overflow.
//!
//! A text is tame where none of this can happen. Outside its strings it
//! holds brackets, braces, commas, colons, digits and white space only, so
//! that it holds no exponent. No comma stands before a closing brace. At
//! most eight brackets and braces are open at a time. And its keys, the
//! strings that a colon follows, are so short that as many of them as
//! brackets and braces are open take fewer than 65536 bytes together; a key
//! has at most as many bytes as stand between its quotes.
//!
//! What is inside a string is told by the rule of the parser: a string
//! runs from a double quote to the next double quote that no backslash
//! escapes, and a backslash escapes the one byte after it. As long as the
//! parser goes on it reads every byte in turn, so it is inside a string
//! exactly where the look is.

use vstd::prelude::*;
use vstd::utf8::encode_utf8;

verus! {

/// What the look knows after some bytes of a text.
pub struct Scan {
    /// The last byte was inside a string.
    pub in_string: bool,
    /// The last byte was a backslash that escapes the next byte.
    pub escaped: bool,
    /// Outside strings and white space, the last byte was a comma.
    pub after_comma: bool,
    /// Outside white space, the last byte closed a string.
    pub after_string: bool,
    /// How many brackets and braces are open.
    pub depth: nat,
    /// How many were open at most.
    pub max_depth: nat,
    /// The number of bytes of the string that is open or was closed last.
    pub string_len: nat,
    /// The number of bytes of the longest string that a colon followed.
    pub max_key: nat,
    /// No byte was met outside strings that a tame text does not hold
    /// there, and no comma before a closing brace.
    pub ok: bool,
}

/// What the look knows before the first byte.
pub open spec fn start() -> Scan {
    Scan {
        in_string: false,
        escaped: false,
        after_comma: false,
        after_string: false,
        depth: 0,
        max_depth: 0,
        string_len: 0,
        max_key: 0,
        ok: true,
    }
}

/// The byte is white space to the parser: a space, a line feed, a tab or a
/// carriage return.
pub open spec fn is_blank(b: u8) -> bool {
    b == 0x20 || b == 0x0a || b == 0x09 || b == 0x0d
}

/// The larger of two numbers.
pub open spec fn larger(a: nat, b: nat) -> nat {
    if a >= b {
        a
    } else {
        b
    }
}

/// What the look knows after one more byte.
pub open spec fn step(s: Scan, b: u8) -> Scan {
    if s.in_string {
        if s.escaped {
            Scan { escaped: false, string_len: s.string_len + 1, ..s }
        } else if b == 0x5c {
            Scan { escaped: true, string_len: s.string_len + 1, ..s }
        } else if b == 0x22 {
            Scan { in_string: false, after_string: true, after_comma: false, ..s }
        } else {
            Scan { string_len: s.string_len + 1, ..s }
        }
    } else if is_blank(b) {
        s
    } else if b == 0x22 {
        Scan { in_string: true, string_len: 0, after_comma: false, after_string: false, ..s }
    } else if b == 0x7b || b == 0x5b {
        Scan {
            depth: s.depth + 1,
            max_depth: larger(s.max_depth, s.depth + 1),
            after_comma: false,
            after_string: false,
            ..s
        }
    } else if b == 0x7d {
        Scan {
            depth: if s.depth > 0 {
                (s.depth - 1) as nat
            } else {
                0
            },
            ok: s.ok && !s.after_comma,
            after_comma: false,
            after_string: false,
            ..s
        }
    } else if b == 0x5d {
        Scan {
            depth: if s.depth > 0 {
                (s.depth - 1) as nat
            } else {
                0
            },
            after_comma: false,
            after_string: false,
            ..s
        }
    } else if b == 0x2c {
        Scan { after_comma: true, after_string: false, ..s }
    } else if b == 0x3a {
        Scan {
            max_key: if s.after_string {
                larger(s.max_key, s.string_len)
            } else {
                s.max_key
            },
            after_comma: false,
            after_string: false,
            ..s
        }
    } else if 0x30 <= b <= 0x39 {
        Scan { after_comma: false, after_string: false, ..s }
    } else {
        Scan { ok: false, after_comma: false, after_string: false, ..s }
    }
}

/// What the look knows after all the bytes.
pub open spec fn scan(bytes: Seq<u8>) -> Scan
    decreases bytes.len(),
{
    if bytes.len() == 0 {
        start()
    } else {
        step(scan(bytes.drop_last()), bytes.last())
    }
}

/// The longest key that a text of the given depth may hold: as many keys as
/// the text is deep then take fewer than 65536 bytes together.
pub open spec fn key_limit(depth: nat) -> nat {
    if depth <= 1 {
        65535
    } else if depth <= 2 {
        32767
    } else if depth <= 4 {
        16383
    } else {
        8191
    }
}

/// The bytes are those of a tame text.
pub open spec fn tame_bytes(bytes: Seq<u8>) -> bool {
    &&& bytes.len() <= 0xffff_ffff
    &&& scan(bytes).ok
    &&& scan(bytes).max_depth <= 8
    &&& scan(bytes).max_key <= key_limit(scan(bytes).max_depth)
}

/// The text is tame: the parser can be handed it.
pub open spec fn tame(text: Seq<char>) -> bool {
    tame_bytes(encode_utf8(text))
}

/// Whether the text is tame.
pub fn is_tame(text: &str) -> (r: bool)
    ensures
        r == tame(text@),
{
    let bytes = text.as_bytes();
    let n = bytes.len();
    let mut in_string = false;
    let mut escaped = false;
    let mut after_comma = false;
    let mut after_string = false;
    let mut depth: usize = 0;
    let mut max_depth: usize = 0;
    let mut string_len: usize = 0;
    let mut max_key: usize = 0;
    let mut ok = true;
    let mut i: usize = 0;
    assert(bytes@.take(0) =~= Seq::<u8>::empty());
    while i < n
        invariant
            i <= n,
            n == bytes@.len(),
            depth <= i,
            max_depth <= i,
            string_len <= i,
            max_key <= i,
            scan(bytes@.take(i as int)) == (Scan {
                in_string,
                escaped,
                after_comma,
                after_string,
                depth: depth as nat,
                max_depth: max_depth as nat,
                string_len: string_len as nat,
                max_key: max_key as nat,
                ok,
            }),
        decreases n - i,
    {
        let b = bytes[i];
        proof {
            let next = bytes@.take(i + 1);
            assert(next.drop_last() =~= bytes@.take(i as int));
            assert(next.last() == b);
        }
        if in_string {
            if escaped {
                escaped = false;
                string_len += 1;
            } else if b == 0x5c {
                escaped = true;
                string_len += 1;
            } else if b == 0x22 {
                in_string = false;
                after_string = true;
                after_comma = false;
            } else {
                string_len += 1;
            }
        } else if b == 0x20 || b == 0x0a || b == 0x09 || b == 0x0d {
        } else if b == 0x22 {
            in_string = true;
            string_len = 0;
            after_comma = false;
            after_string = false;
        } else if b == 0x7b || b == 0x5b {
            depth += 1;
            if depth > max_depth {
                max_depth = depth;
            }
            after_comma = false;
            after_string = false;
        } else if b == 0x7d {
            if depth > 0 {
                depth -= 1;
            }
            if after_comma {
                ok = false;
            }
            after_comma = false;
            after_string = false;
        } else if b == 0x5d {
            if depth > 0 {
                depth -= 1;
            }
            after_comma = false;
            after_string = false;
        } else if b == 0x2c {
            after_comma = true;
            after_string = false;
        } else if b == 0x3a {
            if after_string && string_len > max_key {
                max_key = string_len;
            }
            after_comma = false;
            after_string = false;
        } else if 0x30 <= b && b <= 0x39 {
            after_comma = false;
            after_string = false;
        } else {
            ok = false;
            after_comma = false;
            after_string = false;
        }
        i += 1;
    }
    assert(bytes@.take(i as int) =~= bytes@);
    if !ok || max_depth > 8 {
        return false;
    }
    let limit: usize = if max_depth <= 1 {
        65535
    } else if max_depth <= 2 {
        32767
    } else if max_depth <= 4 {
        16383
    } else {
        8191
    };
    max_key <= limit && fits(n)
}

/// Whether a number of bytes is at most the largest number of thirty-two
/// bits.
fn fits(n: usize) -> (r: bool)
    ensures
        r == (n <= 0xffff_ffff),
{
    n as u64 <= 0xffff_ffff
}

} // verus!
