//! Small string-building helpers shared by the codec and the scanner.

use vstd::prelude::*;

verus! {

/// Relies on `String::push`: appends exactly the given character.
#[verifier::external_body]
pub fn push_char(s: &mut String, c: char)
    ensures
        final(s)@ == old(s)@.push(c),
{
    s.push(c)
}

/// Equality of two string slices by contents.
pub fn str_eq(a: &str, b: &str) -> (r: bool)
    ensures
        r == (a@ == b@),
{
    let n = a.unicode_len();
    let m = b.unicode_len();
    if n != m {
        proof {
            assert(a@ != b@) by {
                if a@ == b@ {
                    assert(a@.len() == b@.len());
                }
            }
        }
        return false;
    }
    let mut i: usize = 0;
    while i < n
        invariant
            n == a@.len(),
            n == b@.len(),
            0 <= i <= n,
            forall|k: int| 0 <= k < i ==> a@[k] == b@[k],
        decreases n - i,
    {
        if a.get_char(i) != b.get_char(i) {
            proof {
                assert(a@ != b@) by {
                    if a@ == b@ {
                        assert(a@[i as int] == b@[i as int]);
                    }
                }
            }
            return false;
        }
        i += 1;
    }
    proof {
        assert(a@ =~= b@);
    }
    true
}


/// A path shortened for display: unchanged when it fits, else its tail
/// behind an ellipsis.
pub fn truncate_path(path: &str, max_chars: usize) -> (r: String)
    ensures
        path@.len() <= max_chars ==> r@ == path@,
        path@.len() > max_chars ==> r@ == "..."@ + path@.skip(
            path@.len() - (if max_chars >= 3 {
                (max_chars - 3) as int
            } else {
                0
            }),
        ),
{
    let n = path.unicode_len();
    if n <= max_chars {
        return path.to_owned();
    }
    let keep: usize = if max_chars >= 3 {
        max_chars - 3
    } else {
        0
    };
    let start = n - keep;
    let tail = path.substring_char(start, n);
    let mut r = String::from_str("...");
    r.append(tail);
    proof {
        assert(r@ =~= "..."@ + path@.skip(start as int));
    }
    r
}

} // verus!
