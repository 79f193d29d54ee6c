//! Short names of types: the last segment of a path.
use vstd::prelude::*;
use vstd::string::StringSliceAdditionalSpecFns;
use vstd::utf8::{
    is_char_boundary,
    length_of_first_scalar,
    pop_first_scalar,
    valid_utf8,
    encode_utf8_valid_utf8,
};

verus! {

/// The byte of `:`.
pub const COLON: u8 = 58;

/// The start of the last `::` within `s[..end]`, if there is one.
pub open spec fn last_separator_before(s: Seq<u8>, end: int) -> Option<int>
    decreases end,
{
    if end < 2 {
        None
    } else if s[end - 2] == COLON && s[end - 1] == COLON {
        Some(end - 2)
    } else {
        last_separator_before(s, end - 1)
    }
}

/// The start of the last `::` in `s`, if there is one.
pub open spec fn last_separator(s: Seq<u8>) -> Option<int> {
    last_separator_before(s, s.len() as int)
}

/// The bytes of the last segment of the path `s`: what follows its last `::`, or all of it.
pub open spec fn last_segment(s: Seq<u8>) -> Seq<u8> {
    match last_separator(s) {
        Some(i) => s.subrange(i + 2, s.len() as int),
        None => s,
    }
}

/// The separator found lies within the searched prefix.
proof fn lemma_last_separator_before_bounds(s: Seq<u8>, end: int)
    requires
        end <= s.len(),
    ensures
        last_separator_before(s, end) matches Some(i) ==> {
            &&& 0 <= i
            &&& i + 2 <= end
            &&& s[i] == COLON
            &&& s[i + 1] == COLON
        },
    decreases end,
{
    if end >= 2 && !(s[end - 2] == COLON && s[end - 1] == COLON) {
        lemma_last_separator_before_bounds(s, end - 1);
    }
}

/// The last separator found lies at or after `from` when one lies there; none lies after it.
proof fn lemma_last_separator_before_is_last(s: Seq<u8>, end: int, j: int)
    requires
        end <= s.len(),
        0 <= j,
        j + 2 <= end,
        s[j] == COLON,
        s[j + 1] == COLON,
    ensures
        last_separator_before(s, end) matches Some(i) && j <= i,
    decreases end,
{
    if !(s[end - 2] == COLON && s[end - 1] == COLON) {
        lemma_last_separator_before_is_last(s, end - 1, j);
    }
}

/// The last segment of a path holds no `::`.
pub proof fn law_last_segment_has_no_separator(s: Seq<u8>)
    ensures
        last_separator(last_segment(s)) is None,
{
    let t = last_segment(s);
    if let Some(j) = last_separator(t) {
        lemma_last_separator_before_bounds(t, t.len() as int);
        lemma_last_separator_before_bounds(s, s.len() as int);
        if let Some(i) = last_separator(s) {
            assert(s[i + 2 + j] == t[j]);
            assert(s[i + 2 + j + 1] == t[j + 1]);
            lemma_last_separator_before_is_last(s, s.len() as int, i + 2 + j);
        } else {
            lemma_last_separator_before_is_last(s, s.len() as int, j);
        }
    }
}

/// In valid UTF-8, the position after an ASCII byte is a character boundary.
proof fn lemma_boundary_after_ascii(b: Seq<u8>, k: int)
    requires
        valid_utf8(b),
        0 <= k < b.len(),
        b[k] < 0x80,
    ensures
        is_char_boundary(b, k + 1),
    decreases b.len(),
{
    let len = length_of_first_scalar(b);
    let rest = pop_first_scalar(b);
    assert(rest.len() == b.len() - len);
    if k < len {
        assert(k == 0);
        assert(len == 1);
        assert(is_char_boundary(rest, 0));
    } else {
        assert(rest[k - len] == b[k]);
        lemma_boundary_after_ascii(rest, k - len);
    }
}

/// The last segment of the path `name`: what follows its last `::`, or the whole name when it
/// has none. `std::any::type_name::<T>()` passed through it gives the name of `T` without its
/// module path.
pub fn short_type_name(name: &str) -> (r: &str)
    ensures
        r.spec_bytes() == last_segment(name.spec_bytes()),
{
    let bytes = name.as_bytes();
    let ghost s = name.spec_bytes();
    let n = bytes.len();
    let mut end: usize = n;
    while end >= 2
        invariant
            end <= n,
            n == s.len(),
            bytes@ == s,
            s == name.spec_bytes(),
            last_separator(s) == last_separator_before(s, end as int),
        decreases end,
    {
        if bytes[end - 2] == COLON && bytes[end - 1] == COLON {
            let start = end - 2;
            proof {
                encode_utf8_valid_utf8(name@);
                lemma_last_separator_before_bounds(s, end as int);
                lemma_boundary_after_ascii(s, start + 1);
            }
            let (_, tail) = name.split_at(start + 2);
            return tail;
        }
        end = end - 1;
    }
    name
}

} // verus!
