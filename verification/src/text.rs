//! Character sequences: the vocabulary that the contracts of this crate share,
//! and the string scans that the executable code is built from.

use vstd::prelude::*;
use vstd::std_specs::iter::IteratorSpec;
use vstd::string::*;

verus! {

/// How often `c` occurs in `s`.
pub open spec fn count_char(s: Seq<char>, c: char) -> nat
    decreases s.len(),
{
    if s.len() == 0 {
        0
    } else {
        count_char(s.drop_last(), c) + if s.last() == c {
            1nat
        } else {
            0nat
        }
    }
}

/// The index at which `c` first occurs in `s`; `s.len()` if it does not occur.
pub open spec fn first_index_of(s: Seq<char>, c: char) -> nat
    decreases s.len(),
{
    if s.len() == 0 || s[0] == c {
        0
    } else {
        1 + first_index_of(s.drop_first(), c)
    }
}

/// `s` without the run of `-` that it starts with. The rest may be empty.
pub open spec fn strip_dashes(s: Seq<char>) -> Seq<char>
    decreases s.len(),
{
    if s.len() > 0 && s[0] == '-' {
        strip_dashes(s.drop_first())
    } else {
        s
    }
}

/// `first_index_of` is the one index with `c` on it and none before it.
pub proof fn lemma_first_index_of(s: Seq<char>, c: char, k: int)
    requires
        0 <= k <= s.len(),
        forall|j: int| 0 <= j < k ==> s[j] != c,
        k < s.len() ==> s[k] == c,
    ensures
        first_index_of(s, c) == k,
    decreases k,
{
    if k > 0 {
        lemma_first_index_of(s.drop_first(), c, k - 1);
    }
}

/// Stripping drops exactly the dashes before the first other character.
pub proof fn lemma_strip_dashes(s: Seq<char>, k: int)
    requires
        0 <= k <= s.len(),
        forall|j: int| 0 <= j < k ==> s[j] == '-',
        k < s.len() ==> s[k] != '-',
    ensures
        strip_dashes(s) == s.skip(k),
    decreases k,
{
    if k > 0 {
        lemma_strip_dashes(s.drop_first(), k - 1);
        assert(s.drop_first().skip(k - 1) =~= s.skip(k));
    } else {
        assert(s.skip(0) =~= s);
    }
}

/// What stripping leaves does not start with a dash, and differs from the
/// token only by dashes in front.
pub proof fn lemma_strip_dashes_result(s: Seq<char>)
    ensures
        strip_dashes(s).len() <= s.len(),
        strip_dashes(s) == s.skip(s.len() - strip_dashes(s).len()),
        strip_dashes(s).len() > 0 ==> strip_dashes(s)[0] != '-',
        forall|j: int| 0 <= j < s.len() - strip_dashes(s).len() ==> s[j] == '-',
    decreases s.len(),
{
    if s.len() > 0 && s[0] == '-' {
        let t = s.drop_first();
        lemma_strip_dashes_result(t);
        let d = t.len() - strip_dashes(t).len();
        assert(t.skip(d) =~= s.skip(d + 1));
        assert forall|j: int| 0 <= j < s.len() - strip_dashes(s).len() implies s[j] == '-' by {
            if j > 0 {
                assert(s[j] == t[j - 1]);
            }
        }
    } else {
        assert(s.skip(0) =~= s);
    }
}

/// In a sequence of one character, that character is counted once.
pub proof fn lemma_count_char_one(x: char, c: char)
    ensures
        count_char(seq![x], c) == if x == c {
            1nat
        } else {
            0nat
        },
{
    assert(count_char(seq![x].drop_last(), c) == 0);
}

/// Counting is additive over a split of the sequence.
pub proof fn lemma_count_char_add(a: Seq<char>, b: Seq<char>, c: char)
    ensures
        count_char(a + b, c) == count_char(a, c) + count_char(b, c),
    decreases b.len(),
{
    if b.len() == 0 {
        assert(a + b =~= a);
    } else {
        lemma_count_char_add(a, b.drop_last(), c);
        assert((a + b).drop_last() =~= a + b.drop_last());
    }
}

/// A character is counted zero times exactly if it stands nowhere.
pub proof fn lemma_count_char_zero(s: Seq<char>, c: char)
    ensures
        count_char(s, c) == 0 <==> !s.contains(c),
    decreases s.len(),
{
    if s.len() > 0 {
        let t = s.drop_last();
        lemma_count_char_zero(t, c);
        if s.last() == c {
            assert(s[s.len() - 1] == c);
        } else if t.contains(c) {
            let i = choose|i: int| 0 <= i < t.len() && t[i] == c;
            assert(s[i] == c);
        } else if s.contains(c) {
            let i = choose|i: int| 0 <= i < s.len() && s[i] == c;
            assert(t[i] == c);
        }
    }
}

/// Where a character first stands in a string, and whether it stands there
/// more than once.
#[derive(Clone, Copy, Debug, PartialEq, Eq)]
pub struct Occurrence {
    /// The index of the first occurrence, counted in characters.
    pub first: usize,
    /// Whether there is a second occurrence.
    pub repeated: bool,
}

/// Whether two strings hold the same characters.
pub fn str_equal(a: &str, b: &str) -> (same: bool)
    ensures
        same == (a@ == b@),
{
    broadcast use group_string_axioms;

    let mut xs = a.chars();
    let mut ys = b.chars();
    let ghost mut k: int = 0;
    loop
        invariant
            0 <= k <= a@.len(),
            k <= b@.len(),
            xs.remaining() == a@.skip(k),
            ys.remaining() == b@.skip(k),
            a@.take(k) == b@.take(k),
        decreases a@.len() - k,
    {
        match (xs.next(), ys.next()) {
            (None, None) => {
                assert(a@ == a@.take(k));
                assert(b@ == b@.take(k));
                return true;
            },
            (Some(x), Some(y)) => {
                if x != y {
                    assert(a@[k] != b@[k]);
                    return false;
                }
                proof {
                    assert(a@.take(k + 1) == a@.take(k).push(a@[k]));
                    assert(b@.take(k + 1) == b@.take(k).push(b@[k]));
                    assert(a@.skip(k).drop_first() == a@.skip(k + 1));
                    assert(b@.skip(k).drop_first() == b@.skip(k + 1));
                    k = k + 1;
                }
            },
            _ => {
                assert(a@.len() != b@.len());
                return false;
            },
        }
    }
}

/// Scans `s` once for `c`.
pub fn find_char(s: &str, c: char) -> (found: Option<Occurrence>)
    ensures
        found is None <==> count_char(s@, c) == 0,
        found matches Some(o) ==> {
            &&& o.first == first_index_of(s@, c)
            &&& o.first < s@.len()
            &&& s@[o.first as int] == c
            &&& o.repeated == (count_char(s@, c) >= 2)
        },
{
    let n = s.unicode_len();
    let mut k: usize = 0;
    let mut found: Option<Occurrence> = None;
    for x in it: s.chars()
        invariant
            it.seq() == s@,
            n == s@.len(),
            k == it.index(),
            found is None <==> count_char(s@.take(k as int), c) == 0,
            found is None ==> forall|j: int| 0 <= j < k ==> s@[j] != c,
            found matches Some(o) ==> {
                &&& o.first < k
                &&& s@[o.first as int] == c
                &&& forall|j: int| 0 <= j < o.first ==> s@[j] != c
                &&& o.repeated == (count_char(s@.take(k as int), c) >= 2)
            },
    {
        assert(s@.take(k + 1).drop_last() == s@.take(k as int));
        if x == c {
            found =
            match found {
                None => Some(Occurrence { first: k, repeated: false }),
                Some(o) => Some(Occurrence { first: o.first, repeated: true }),
            };
        }
        k += 1;
    }
    proof {
        assert(s@.take(k as int) == s@);
        if let Some(o) = found {
            lemma_first_index_of(s@, c, o.first as int);
        }
    }
    found
}

} // verus!
