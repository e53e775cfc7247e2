use vstd::prelude::*;
use vstd::string::StrSliceExecFns;

verus! {

/// The characters that `str::trim` removes: Unicode `White_Space`.
pub open spec fn is_space(c: char) -> bool {
    let u = c as u32;
    u == 0x20 || (0x09 <= u && u <= 0x0D) || u == 0x85 || u == 0xA0 || u == 0x1680 || (0x2000
        <= u && u <= 0x200A) || u == 0x2028 || u == 0x2029 || u == 0x202F || u == 0x205F || u
        == 0x3000
}

pub fn is_space_char(c: char) -> (r: bool)
    ensures
        r == is_space(c),
{
    let u = c as u32;
    u == 0x20 || (0x09 <= u && u <= 0x0D) || u == 0x85 || u == 0xA0 || u == 0x1680 || (0x2000 <= u
        && u <= 0x200A) || u == 0x2028 || u == 0x2029 || u == 0x202F || u == 0x205F || u == 0x3000
}

/// The text with its leading whitespace removed.
pub open spec fn trim_front(s: Seq<char>) -> Seq<char>
    decreases s.len(),
{
    if s.len() > 0 && is_space(s[0]) {
        trim_front(s.drop_first())
    } else {
        s
    }
}

/// The text with its trailing whitespace removed.
pub open spec fn trim_back(s: Seq<char>) -> Seq<char>
    decreases s.len(),
{
    if s.len() > 0 && is_space(s.last()) {
        trim_back(s.drop_last())
    } else {
        s
    }
}

/// The text with whitespace removed at both ends, as `str::trim` leaves it.
pub open spec fn trim_spec(s: Seq<char>) -> Seq<char> {
    trim_back(trim_front(s))
}

/// What `str::to_lowercase` returns for a given character sequence.
pub uninterp spec fn lower_of(s: Seq<char>) -> Seq<char>;

/// Relies on `str::to_lowercase`: the lowercase form is a function of the
/// characters alone.
#[verifier::external_body]
fn to_lower(s: &str) -> (r: String)
    ensures
        r@ == lower_of(s@),
{
    s.to_lowercase()
}

/// The normalized label that marks the navigation button leading to the next
/// page of the chain.
pub open spec fn next_label() -> Seq<char> {
    "next chapter"@
}

/// Whether a button text, after case folding and trimming, is exactly the
/// next-page label. Matching is case- and whitespace-insensitive but exact
/// otherwise: no partial or surrounding text matches.
pub open spec fn label_matches(text: Seq<char>) -> bool {
    trim_spec(lower_of(text)) == next_label()
}

/// Law: button-text matching is case- and whitespace-insensitive but exact
/// otherwise — a text matches exactly when its case-folded form, stripped of
/// surrounding whitespace, is the label itself. No partial, surrounding or
/// otherwise reshaped text is accepted: the normalized form must equal the
/// label, character for character.
pub proof fn lemma_label_matching_exact(text: Seq<char>)
    ensures
        label_matches(text) <==> trim_spec(lower_of(text)) == next_label(),
{
}

proof fn lemma_trim_front_skip(s: Seq<char>, i: int)
    requires
        0 <= i <= s.len(),
        forall|k: int| 0 <= k < i ==> is_space(s[k]),
        i == s.len() || !is_space(s[i]),
    ensures
        trim_front(s) == s.skip(i),
    decreases i,
{
    if i == 0 {
        assert(s.skip(0) =~= s);
    } else {
        assert(is_space(s[0]));
        lemma_trim_front_skip(s.drop_first(), i - 1);
        assert(s.drop_first().skip(i - 1) =~= s.skip(i));
    }
}

proof fn lemma_trim_back_sub(s: Seq<char>, j: int)
    requires
        0 <= j <= s.len(),
        forall|k: int| j <= k < s.len() ==> is_space(s[k]),
        j == 0 || !is_space(s[j - 1]),
    ensures
        trim_back(s) == s.subrange(0, j),
    decreases s.len(),
{
    if j == s.len() {
        assert(s.subrange(0, j) =~= s);
    } else {
        assert(is_space(s.last()));
        lemma_trim_back_sub(s.drop_last(), j);
        assert(s.drop_last().subrange(0, j) =~= s.subrange(0, j));
    }
}

/// Decides whether a navigation button's text denotes the next page of the
/// chain: its case-folded, trimmed form must equal the label exactly.
pub fn is_next_chapter_label(text: &str) -> (r: bool)
    ensures
        r == label_matches(text@),
{
    let lowered = to_lower(text);
    let s = lowered.as_str();
    let n = s.unicode_len();
    let mut i: usize = 0;
    while i < n && is_space_char(s.get_char(i))
        invariant
            0 <= i <= n,
            n == s@.len(),
            s@ == lower_of(text@),
            forall|k: int| 0 <= k < i ==> is_space(s@[k]),
        decreases n - i,
    {
        i += 1;
    }
    proof {
        lemma_trim_front_skip(s@, i as int);
    }
    let mut j: usize = n;
    while j > i && is_space_char(s.get_char(j - 1))
        invariant
            i <= j <= n,
            n == s@.len(),
            forall|k: int| j <= k < n ==> is_space(s@[k]),
        decreases j,
    {
        j -= 1;
    }
    proof {
        lemma_trim_back_sub(s@.skip(i as int), j - i as int);
        assert(s@.skip(i as int).subrange(0, j - i as int) =~= s@.subrange(i as int, j as int));
        assert(trim_spec(lower_of(text@)) == s@.subrange(i as int, j as int));
        reveal_strlit("next chapter");
    }
    let label = "next chapter";
    if j - i != 12 {
        proof {
            assert(trim_spec(lower_of(text@)).len() != next_label().len());
        }
        return false;
    }
    let mut k: usize = 0;
    while k < 12
        invariant
            0 <= k <= 12,
            n == s@.len(),
            i + 12 == j <= n,
            label@ == next_label(),
            label@.len() == 12,
            trim_spec(lower_of(text@)) == s@.subrange(i as int, j as int),
            forall|t: int| 0 <= t < k ==> s@[i + t] == label@[t],
        decreases 12 - k,
    {
        if s.get_char(i + k) != label.get_char(k) {
            proof {
                assert(trim_spec(lower_of(text@))[k as int] != next_label()[k as int]);
            }
            return false;
        }
        k += 1;
    }
    proof {
        assert(s@.subrange(i as int, j as int) =~= label@);
    }
    true
}

} // verus!
