//! Percent-encoding for the group-name path segment of the daemon's
//! member-selection request.
//!
//! A group name goes into the request path verbatim, so controls, space,
//! `"`, `<`, `>`, the backtick and every non-ASCII byte are escaped as `%`
//! followed by two uppercase hexadecimal digits.

use vstd::prelude::*;

verus! {

/// Bytes that must not appear bare in a path segment.
pub open spec fn must_escape(b: u8) -> bool {
    b <= 0x20 || b >= 0x7f || b == 0x22 || b == 0x3c || b == 0x3e || b == 0x60
}

/// The uppercase hexadecimal digit for a value below sixteen.
pub open spec fn hex_digit(n: u8) -> u8
    recommends
        n < 16,
{
    if n < 10 {
        (0x30 + n) as u8
    } else {
        (0x41 + (n - 10)) as u8
    }
}

/// How one byte appears in the encoded segment.
pub open spec fn escape_byte(b: u8) -> Seq<u8> {
    if must_escape(b) {
        seq![0x25u8, hex_digit(b / 16), hex_digit(b % 16)]
    } else {
        seq![b]
    }
}

/// The percent-encoded form of a byte sequence.
pub open spec fn escaped(s: Seq<u8>) -> Seq<u8>
    decreases s.len(),
{
    if s.len() == 0 {
        Seq::empty()
    } else {
        escaped(s.drop_last()) + escape_byte(s.last())
    }
}

fn hex_digit_of(n: u8) -> (r: u8)
    requires
        n < 16,
    ensures
        r == hex_digit(n),
{
    if n < 10 {
        0x30 + n
    } else {
        0x41 + (n - 10)
    }
}

/// Percent-encodes a group name for use as a request path segment.
pub fn escape_path_segment(name: &[u8]) -> (r: Vec<u8>)
    ensures
        r@ == escaped(name@),
{
    let mut out: Vec<u8> = Vec::new();
    let mut i: usize = 0;
    while i < name.len()
        invariant
            i <= name@.len(),
            out@ == escaped(name@.subrange(0, i as int)),
        decreases name@.len() - i,
    {
        let b = name[i];
        if b <= 0x20 || b >= 0x7f || b == 0x22 || b == 0x3c || b == 0x3e || b == 0x60 {
            out.push(0x25);
            out.push(hex_digit_of(b / 16));
            out.push(hex_digit_of(b % 16));
        } else {
            out.push(b);
        }
        proof {
            let head = name@.subrange(0, i as int);
            let step = name@.subrange(0, i + 1);
            assert(step.drop_last() =~= head);
            assert(step.last() == name@[i as int]);
            assert(out@ =~= escaped(head) + escape_byte(name@[i as int]));
        }
        i = i + 1;
    }
    proof {
        assert(name@.subrange(0, name@.len() as int) =~= name@);
    }
    out
}

} // verus!
