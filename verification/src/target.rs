use vstd::prelude::*;
use vstd::string::StrSliceExecFns;

use crate::errors::RunError;

verus! {

pub open spec fn is_digit(c: char) -> bool {
    let u = c as u32;
    0x30 <= u && u <= 0x39
}

/// The characters a run-target slug is made of: ASCII letters, digits,
/// underscore and hyphen. Any other character ends the slug.
pub open spec fn is_slug_char(c: char) -> bool {
    let u = c as u32;
    (0x61 <= u && u <= 0x7A) || (0x41 <= u && u <= 0x5A) || (0x30 <= u && u <= 0x39) || u == 0x5F
        || u == 0x2D
}

fn is_digit_char(c: char) -> (r: bool)
    ensures
        r == is_digit(c),
{
    let u = c as u32;
    0x30 <= u && u <= 0x39
}

fn is_slug_char_exec(c: char) -> (r: bool)
    ensures
        r == is_slug_char(c),
{
    let u = c as u32;
    (0x61 <= u && u <= 0x7A) || (0x41 <= u && u <= 0x5A) || (0x30 <= u && u <= 0x39) || u == 0x5F
        || u == 0x2D
}

/// The fixed prefix of the path pattern a run target is derived from.
pub open spec fn marker() -> Seq<char> {
    "/fiction/"@
}

/// The end of the maximal digit run starting at `i`.
pub open spec fn digits_end(s: Seq<char>, i: int) -> int
    decreases s.len() - i,
{
    if 0 <= i < s.len() && is_digit(s[i]) {
        digits_end(s, i + 1)
    } else {
        i
    }
}

/// The end of the maximal slug-character run starting at `i`.
pub open spec fn slug_end(s: Seq<char>, i: int) -> int
    decreases s.len() - i,
{
    if 0 <= i < s.len() && is_slug_char(s[i]) {
        slug_end(s, i + 1)
    } else {
        i
    }
}

/// Whether the pattern `/fiction/<digits>/<slug>` matches at position `i`:
/// the marker, at least one digit, a slash, and at least one slug character.
pub open spec fn match_at(s: Seq<char>, i: int) -> bool {
    &&& 0 <= i
    &&& i + marker().len() <= s.len()
    &&& s.subrange(i, i + marker().len()) == marker()
    &&& {
        let d = digits_end(s, i + marker().len());
        &&& d > i + marker().len()
        &&& d < s.len()
        &&& s[d] == '/'
        &&& slug_end(s, d + 1) > d + 1
    }
}

/// The slug captured by a match at position `i`: the maximal slug-character
/// run after the second slash.
pub open spec fn slug_at(s: Seq<char>, i: int) -> Seq<char> {
    let d = digits_end(s, i + marker().len());
    s.subrange(d + 1, slug_end(s, d + 1))
}

/// The position of the leftmost match at or after `i`.
pub open spec fn first_match_from(s: Seq<char>, i: int) -> Option<int>
    decreases s.len() - i,
{
    if !(0 <= i <= s.len()) {
        None
    } else if match_at(s, i) {
        Some(i)
    } else if i == s.len() {
        None
    } else {
        first_match_from(s, i + 1)
    }
}

/// The run target of an initial URL: the slug of the leftmost occurrence of
/// the pattern `/fiction/<digits>/<slug>`, or nothing when the pattern does
/// not occur.
pub open spec fn run_target_of(s: Seq<char>) -> Option<Seq<char>> {
    match first_match_from(s, 0) {
        Some(i) => Some(slug_at(s, i)),
        None => None,
    }
}

proof fn lemma_digits_end_at(s: Seq<char>, a: int, d: int)
    requires
        0 <= a <= d <= s.len(),
        forall|k: int| a <= k < d ==> is_digit(s[k]),
        d == s.len() || !is_digit(s[d]),
    ensures
        digits_end(s, a) == d,
    decreases d - a,
{
    if a < d {
        lemma_digits_end_at(s, a + 1, d);
    }
}

proof fn lemma_slug_end_at(s: Seq<char>, a: int, d: int)
    requires
        0 <= a <= d <= s.len(),
        forall|k: int| a <= k < d ==> is_slug_char(s[k]),
        d == s.len() || !is_slug_char(s[d]),
    ensures
        slug_end(s, a) == d,
    decreases d - a,
{
    if a < d {
        lemma_slug_end_at(s, a + 1, d);
    }
}

proof fn lemma_first_match_prefix(s: Seq<char>, i: int)
    requires
        0 <= i <= s.len(),
        forall|j: int| 0 <= j < i ==> !match_at(s, j),
    ensures
        first_match_from(s, 0) == first_match_from(s, i),
    decreases i,
{
    if i > 0 {
        lemma_first_match_prefix(s, i - 1);
    }
}

proof fn lemma_first_match_tail_none(s: Seq<char>, i: int)
    requires
        0 <= i <= s.len(),
        forall|j: int| i <= j <= s.len() ==> !match_at(s, j),
    ensures
        first_match_from(s, i) is None,
    decreases s.len() - i,
{
    if i < s.len() {
        lemma_first_match_tail_none(s, i + 1);
    }
}

/// Derives the run target from an initial chapter URL. It succeeds exactly
/// when the URL contains the path pattern `/fiction/<digits>/<slug>`, and
/// then returns the slug of the leftmost occurrence; otherwise the run fails
/// before any fetch, with `InvalidRunTarget`.
pub fn derive_run_target(url: &str) -> (r: Result<String, RunError>)
    ensures
        match r {
            Ok(slug) => run_target_of(url@) == Some(slug@),
            Err(e) => e == RunError::InvalidRunTarget && run_target_of(url@) is None,
        },
{
    proof {
        reveal_strlit("/fiction/");
    }
    let m = "/fiction/";
    let n = url.unicode_len();
    let mut i: usize = 0;
    while n >= 9 && i <= n - 9
        invariant
            0 <= i <= n,
            n == url@.len(),
            m@ == marker(),
            m@.len() == 9,
            forall|j: int| 0 <= j < i ==> !match_at(url@, j),
        decreases n - i,
    {
        let mut k: usize = 0;
        let mut marker_here = true;
        while k < 9 && marker_here
            invariant
                0 <= k <= 9,
                i + 9 <= n,
                n == url@.len(),
                m@ == marker(),
                m@.len() == 9,
                marker_here ==> forall|t: int| 0 <= t < k ==> url@[i + t] == m@[t],
                !marker_here ==> url@.subrange(i as int, i + 9) != marker(),
            decreases 9 - k + (if marker_here { 1int } else { 0int }),
        {
            if url.get_char(i + k) != m.get_char(k) {
                proof {
                    assert(url@.subrange(i as int, i + 9)[k as int] != marker()[k as int]);
                }
                marker_here = false;
            } else {
                k += 1;
            }
        }
        if marker_here {
            proof {
                assert(url@.subrange(i as int, i + 9) =~= marker());
            }
            // scan the digit run after the marker
            let mut d: usize = i + 9;
            while d < n && is_digit_char(url.get_char(d))
                invariant
                    i + 9 <= d <= n,
                    n == url@.len(),
                    forall|t: int| i + 9 <= t < d ==> is_digit(url@[t]),
                decreases n - d,
            {
                d += 1;
            }
            proof {
                lemma_digits_end_at(url@, i + 9, d as int);
            }
            if d > i + 9 && d < n && url.get_char(d) == '/' {
                // scan the slug run after the slash
                let mut e: usize = d + 1;
                while e < n && is_slug_char_exec(url.get_char(e))
                    invariant
                        d + 1 <= e <= n,
                        n == url@.len(),
                        forall|t: int| d + 1 <= t < e ==> is_slug_char(url@[t]),
                    decreases n - e,
                {
                    e += 1;
                }
                proof {
                    lemma_slug_end_at(url@, d + 1, e as int);
                }
                if e > d + 1 {
                    proof {
                        assert(match_at(url@, i as int));
                        lemma_first_match_prefix(url@, i as int);
                        assert(first_match_from(url@, i as int) == Some(i as int));
                    }
                    let slug = url.substring_char(d + 1, e).to_owned();
                    return Ok(slug);
                } else {
                    proof {
                        assert(!match_at(url@, i as int));
                    }
                }
            } else {
                proof {
                    assert(!match_at(url@, i as int));
                }
            }
        }
        i += 1;
    }
    proof {
        assert(forall|j: int| i <= j <= url@.len() ==> !match_at(url@, j)) by {
            assert forall|j: int| i <= j <= url@.len() implies !match_at(url@, j) by {
                assert(j + 9 > url@.len());
            }
        }
        lemma_first_match_prefix(url@, i as int);
        lemma_first_match_tail_none(url@, i as int);
    }
    Err(RunError::InvalidRunTarget)
}

} // verus!
