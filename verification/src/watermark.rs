//! The text burned into frames.

use vstd::prelude::*;
use crate::text::chars_of;

verus! {

/// A letter that may follow a percent sign in a time format.
pub open spec fn is_time_field(c: char) -> bool {
    c == 'Y' || c == 'm' || c == 'd' || c == 'H' || c == 'M' || c == 'S' || c == 'F' || c == 'T'
        || c == '%'
}

/// Whether every percent sign in a text, read from the left, starts a known
/// time field.
pub open spec fn is_time_format(f: Seq<char>) -> bool
    decreases f.len(),
{
    if f.len() == 0 {
        true
    } else if f[0] != '%' {
        is_time_format(f.skip(1))
    } else {
        f.len() >= 2 && is_time_field(f[1]) && is_time_format(f.skip(2))
    }
}

/// Tests a time format.
pub fn valid_timestamp_format(format: &str) -> (valid: bool)
    ensures
        valid == is_time_format(format@),
{
    let c = chars_of(format);
    let mut i: usize = 0;
    proof {
        assert(c@.skip(0) =~= c@);
    }
    while i < c.len()
        invariant
            i <= c.len(),
            c@ == format@,
            is_time_format(format@) == is_time_format(c@.skip(i as int)),
        decreases c.len() - i,
    {
        let ghost rest = c@.skip(i as int);
        proof {
            assert(rest[0] == c@[i as int]);
            assert(rest.skip(1) =~= c@.skip(i + 1));
        }
        if c[i] != '%' {
            i = i + 1;
        } else {
            if i + 1 >= c.len() {
                return false;
            }
            let x = c[i + 1];
            proof {
                assert(rest[1] == x);
                assert(rest.skip(2) =~= c@.skip(i + 2));
            }
            if !(x == 'Y' || x == 'm' || x == 'd' || x == 'H' || x == 'M' || x == 'S' || x == 'F'
                || x == 'T' || x == '%') {
                return false;
            }
            i = i + 2;
        }
    }
    true
}

} // verus!
