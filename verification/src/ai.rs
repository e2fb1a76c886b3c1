//! Names of detection models.

use vstd::prelude::*;
use crate::text::chars_of;

verus! {

/// A lower-case ASCII letter or a digit.
pub open spec fn is_model_char(c: char) -> bool {
    'a' <= c <= 'z' || '0' <= c <= '9'
}

/// Whether a text may name a model: one to 64 lower-case letters, digits and
/// hyphens, the first no hyphen.
pub open spec fn is_model_id(id: Seq<char>) -> bool {
    &&& 1 <= id.len() <= 64
    &&& is_model_char(id[0])
    &&& forall|i: int| 0 <= i < id.len() ==> is_model_char(#[trigger] id[i]) || id[i] == '-'
}

/// Tests the name of a model.
pub fn valid_model_id(id: &str) -> (valid: bool)
    ensures
        valid == is_model_id(id@),
{
    let c = chars_of(id);
    if c.len() == 0 || c.len() > 64 || c[0] == '-' {
        return false;
    }
    let mut i: usize = 0;
    while i < c.len()
        invariant
            i <= c.len(),
            c@ == id@,
            forall|k: int| 0 <= k < i ==> is_model_char(#[trigger] id@[k]) || id@[k] == '-',
        decreases c.len() - i,
    {
        let x = c[i];
        if !(('a' <= x && x <= 'z') || ('0' <= x && x <= '9') || x == '-') {
            proof {
                assert(!(is_model_char(id@[i as int]) || id@[i as int] == '-'));
            }
            return false;
        }
        i = i + 1;
    }
    true
}

} // verus!
