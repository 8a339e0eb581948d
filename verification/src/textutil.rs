//! Small text helpers the dashboard configuration uses: topic strings of
//! the form `kind_name` are split at their underscores.
use vstd::prelude::*;
use vstd::string::StrSliceExecFns;
use vstd::string::StringExecFns;

verus! {

/// The position of the first `'_'` in `s` at or after `from`, or the length
/// of `s` when there is none.
pub open spec fn first_underscore(s: Seq<char>, from: int) -> int
    decreases s.len() - from,
{
    if from < 0 || from >= s.len() {
        s.len() as int
    } else if s[from] == '_' {
        from
    } else {
        first_underscore(s, from + 1)
    }
}

/// `first_underscore` names the first underscore at or after `from` exactly
/// when one exists.
pub proof fn lemma_first_underscore(s: Seq<char>, from: int)
    requires
        0 <= from <= s.len(),
    ensures
        from <= first_underscore(s, from) <= s.len(),
        first_underscore(s, from) < s.len() ==> s[first_underscore(s, from)] == '_',
        forall|j: int| from <= j < first_underscore(s, from) ==> s[j] != '_',
    decreases s.len() - from,
{
    if from < s.len() && s[from] != '_' {
        lemma_first_underscore(s, from + 1);
    }
}

/// Whether two string slices hold the same characters.
pub fn str_eq(a: &str, b: &str) -> (r: bool)
    ensures
        r == (a@ == b@),
{
    let alen = a.unicode_len();
    let blen = b.unicode_len();
    if alen != blen {
        proof {
            assert(a@ != b@);
        }
        return false;
    }
    let mut i: usize = 0;
    while i < alen
        invariant
            alen == a@.len(),
            alen == b@.len(),
            i <= alen,
            forall|j: int| 0 <= j < i ==> a@[j] == b@[j],
        decreases alen - i,
    {
        if a.get_char(i) != b.get_char(i) {
            proof {
                assert(a@[i as int] != b@[i as int]);
            }
            return false;
        }
        i += 1;
    }
    proof {
        assert(a@ =~= b@);
    }
    true
}

/// Lexicographic order on character sequences, by code point.
pub open spec fn lex_le(a: Seq<char>, b: Seq<char>) -> bool
    decreases a.len(),
{
    if a.len() == 0 {
        true
    } else if b.len() == 0 {
        false
    } else if (a[0] as u32) < (b[0] as u32) {
        true
    } else if (a[0] as u32) > (b[0] as u32) {
        false
    } else {
        lex_le(a.drop_first(), b.drop_first())
    }
}

/// The lexicographic order is total.
pub proof fn lemma_lex_le_total(a: Seq<char>, b: Seq<char>)
    ensures
        lex_le(a, b) || lex_le(b, a),
    decreases a.len(),
{
    if a.len() > 0 && b.len() > 0 && a[0] as u32 == b[0] as u32 {
        lemma_lex_le_total(a.drop_first(), b.drop_first());
    }
}

/// The lexicographic order is transitive.
pub proof fn lemma_lex_le_trans(a: Seq<char>, b: Seq<char>, c: Seq<char>)
    requires
        lex_le(a, b),
        lex_le(b, c),
    ensures
        lex_le(a, c),
    decreases a.len(),
{
    if a.len() > 0 && b.len() > 0 && c.len() > 0 && a[0] as u32 == b[0] as u32 && b[0] as u32
        == c[0] as u32 {
        lemma_lex_le_trans(a.drop_first(), b.drop_first(), c.drop_first());
    }
}

/// Whether `a` sorts at or before `b` lexicographically, by code point.
pub fn str_le(a: &str, b: &str) -> (r: bool)
    ensures
        r == lex_le(a@, b@),
{
    let alen = a.unicode_len();
    let blen = b.unicode_len();
    let shorter = if alen < blen {
        alen
    } else {
        blen
    };
    let mut i: usize = 0;
    proof {
        assert(a@.skip(0) =~= a@);
        assert(b@.skip(0) =~= b@);
    }
    while i < shorter
        invariant
            alen == a@.len(),
            blen == b@.len(),
            shorter == if alen < blen {
                alen
            } else {
                blen
            },
            i <= shorter,
            lex_le(a@, b@) == lex_le(a@.skip(i as int), b@.skip(i as int)),
            lex_le(b@, a@) == lex_le(b@.skip(i as int), a@.skip(i as int)),
        decreases shorter - i,
    {
        let ca = a.get_char(i) as u32;
        let cb = b.get_char(i) as u32;
        proof {
            assert(a@.skip(i as int)[0] == a@[i as int]);
            assert(b@.skip(i as int)[0] == b@[i as int]);
        }
        if ca < cb {
            return true;
        }
        if ca > cb {
            return false;
        }
        proof {
            assert(a@.skip(i as int).drop_first() =~= a@.skip(i as int + 1));
            assert(b@.skip(i as int).drop_first() =~= b@.skip(i as int + 1));
        }
        i += 1;
    }
    proof {
        if alen <= blen {
            assert(a@.skip(i as int).len() == 0);
        } else {
            assert(b@.skip(i as int).len() == 0);
            assert(a@.skip(i as int).len() > 0);
        }
    }
    alen <= blen
}

/// The position of the first `'_'` in `s` at or after `from`, or the length
/// of `s` when there is none.
fn find_underscore(s: &str, from: usize) -> (r: usize)
    requires
        from <= s@.len(),
    ensures
        r == first_underscore(s@, from as int),
{
    proof {
        lemma_first_underscore(s@, from as int);
    }
    let n = s.unicode_len();
    let mut i: usize = from;
    while i < n
        invariant
            n == s@.len(),
            from <= i <= n,
            forall|j: int| from <= j < i ==> s@[j] != '_',
            first_underscore(s@, from as int) >= i || first_underscore(s@, from as int) == s@.len(),
        decreases n - i,
    {
        proof {
            lemma_first_underscore(s@, from as int);
        }
        if s.get_char(i) == '_' {
            proof {
                lemma_first_underscore(s@, from as int);
                if first_underscore(s@, from as int) > i {
                    assert(s@[i as int] != '_');
                }
            }
            return i;
        }
        i += 1;
    }
    proof {
        lemma_first_underscore(s@, from as int);
        if first_underscore(s@, from as int) < s@.len() {
            assert(s@[first_underscore(s@, from as int)] == '_');
        }
    }
    n
}

/// Splits a configuration name at its underscores: the first result is the
/// text before the first `'_'` (the whole string when there is none), the
/// second is the text between the first and the second `'_'` (up to the end
/// when there is no second), or nothing when the string has no `'_'` at
/// all.
pub fn split_underscore(s: &String) -> (r: (Option<String>, Option<String>))
    ensures
        ({
            let u0 = first_underscore(s@, 0);
            &&& r.0 matches Some(p) && p@ == s@.subrange(0, u0)
            &&& (u0 == s@.len() ==> r.1 is None)
            &&& (u0 < s@.len() ==> (r.1 matches Some(q) && q@ == s@.subrange(
                u0 + 1,
                first_underscore(s@, u0 + 1),
            )))
        }),
{
    proof {
        lemma_first_underscore(s@, 0);
    }
    let slice = s.as_str();
    let n = slice.unicode_len();
    let u0 = find_underscore(slice, 0);
    let head = String::from_str(slice.substring_char(0, u0));
    if u0 == n {
        (Some(head), None)
    } else {
        proof {
            lemma_first_underscore(s@, u0 as int + 1);
        }
        let u1 = find_underscore(slice, u0 + 1);
        let tail = String::from_str(slice.substring_char(u0 + 1, u1));
        (Some(head), Some(tail))
    }
}

} // verus!
