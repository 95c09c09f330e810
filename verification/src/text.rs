use vstd::prelude::*;

verus! {

/// Strict lexicographic order on character sequences, by code point.
pub open spec fn seq_char_lt(a: Seq<char>, b: Seq<char>) -> bool
    decreases a.len(),
{
    if b.len() == 0 {
        false
    } else if a.len() == 0 {
        true
    } else if a[0] == b[0] {
        seq_char_lt(a.drop_first(), b.drop_first())
    } else {
        (a[0] as u32) < (b[0] as u32)
    }
}

/// Comparing from position `i` on, with equal prefixes, is comparing the
/// whole sequences.
proof fn lemma_seq_char_lt_skip(a: Seq<char>, b: Seq<char>, i: int)
    requires
        0 <= i,
        i < a.len(),
        i < b.len(),
        a[i] == b[i],
    ensures
        seq_char_lt(a.skip(i), b.skip(i)) == seq_char_lt(a.skip(i + 1), b.skip(i + 1)),
{
    assert(a.skip(i).drop_first() =~= a.skip(i + 1));
    assert(b.skip(i).drop_first() =~= b.skip(i + 1));
    assert(a.skip(i)[0] == a[i] && b.skip(i)[0] == b[i]);
}

/// Decides `seq_char_lt` on the views of two strings.
pub fn str_lt(a: &String, b: &String) -> (r: bool)
    ensures
        r == seq_char_lt(a@, b@),
{
    let alen = a.as_str().unicode_len();
    let blen = b.as_str().unicode_len();
    let n = if alen < blen {
        alen
    } else {
        blen
    };
    proof {
        assert(a@.skip(0) =~= a@);
        assert(b@.skip(0) =~= b@);
    }
    for i in 0..n
        invariant
            n == if alen < blen {
                alen
            } else {
                blen
            },
            alen == a@.len(),
            blen == b@.len(),
            seq_char_lt(a@, b@) == seq_char_lt(a@.skip(i as int), b@.skip(i as int)),
    {
        let ca = a.as_str().get_char(i);
        let cb = b.as_str().get_char(i);
        if ca != cb {
            proof {
                assert(a@.skip(i as int)[0] == a@[i as int]);
                assert(b@.skip(i as int)[0] == b@[i as int]);
            }
            return (ca as u32) < (cb as u32);
        }
        proof {
            lemma_seq_char_lt_skip(a@, b@, i as int);
        }
    }
    proof {
        if alen < blen {
            assert(a@.skip(n as int) =~= Seq::<char>::empty());
            assert(b@.skip(n as int).len() > 0);
        } else {
            assert(b@.skip(n as int) =~= Seq::<char>::empty());
        }
    }
    alen < blen
}

/// ASCII case folding of one character; every other character stands as it
/// is. This is the folding the fuzzy search uses.
pub open spec fn lower_char(c: char) -> char {
    if 'A' <= c && c <= 'Z' {
        (((c as u32) + 32) as char)
    } else {
        c
    }
}

/// Pointwise ASCII case folding.
pub open spec fn lower_seq(s: Seq<char>) -> Seq<char> {
    Seq::new(s.len(), |i: int| lower_char(s[i]))
}

fn lower_char_exec(c: char) -> (r: char)
    ensures
        r == lower_char(c),
{
    if c >= 'A' && c <= 'Z' {
        (((c as u32) + 32) as u8) as char
    } else {
        c
    }
}

/// The needle occurs at position `i` of the haystack, comparing case-folded.
pub open spec fn matches_at(hay: Seq<char>, needle: Seq<char>, i: int) -> bool {
    &&& 0 <= i
    &&& i + needle.len() <= hay.len()
    &&& lower_seq(hay).subrange(i, i + needle.len()) == lower_seq(needle)
}

/// Case-insensitive substring containment: what the tag search means by a
/// match.
pub open spec fn fuzzy_matches(hay: Seq<char>, needle: Seq<char>) -> bool {
    exists|i: int| matches_at(hay, needle, i)
}

/// Decides `fuzzy_matches` on the views of two strings.
pub fn contains_fragment(hay: &String, needle: &String) -> (r: bool)
    ensures
        r == fuzzy_matches(hay@, needle@),
{
    let hlen = hay.as_str().unicode_len();
    let nlen = needle.as_str().unicode_len();
    if nlen > hlen {
        proof {
            assert forall|i: int| !matches_at(hay@, needle@, i) by {}
        }
        return false;
    }
    if nlen == 0 {
        proof {
            assert(lower_seq(hay@).subrange(0, 0) =~= lower_seq(needle@));
            assert(matches_at(hay@, needle@, 0));
        }
        return true;
    }
    let last = hlen - nlen;
    for i in 0..last + 1
        invariant
            hlen == hay@.len(),
            nlen == needle@.len(),
            nlen <= hlen,
            last == hlen - nlen,
            forall|k: int| 0 <= k < i ==> !matches_at(hay@, needle@, k),
    {
        let mut all_eq = true;
        for j in 0..nlen
            invariant
                hlen == hay@.len(),
                nlen == needle@.len(),
                i + nlen <= hlen,
                all_eq ==> forall|k: int|
                    0 <= k < j ==> lower_char(hay@[i + k]) == lower_char(needle@[k]),
                !all_eq ==> !matches_at(hay@, needle@, i as int),
        {
            if all_eq {
                let ch = lower_char_exec(hay.as_str().get_char(i + j));
                let cn = lower_char_exec(needle.as_str().get_char(j));
                if ch != cn {
                    proof {
                        if matches_at(hay@, needle@, i as int) {
                            assert(lower_seq(hay@).subrange(
                                i as int,
                                i + needle@.len(),
                            )[j as int] == lower_seq(needle@)[j as int]);
                            assert(lower_char(hay@[i + j]) == lower_char(needle@[j as int]));
                        }
                    }
                    all_eq = false;
                }
            }
        }
        if all_eq {
            proof {
                assert(lower_seq(hay@).subrange(i as int, i + needle@.len()) =~= lower_seq(
                    needle@,
                ));
                assert(matches_at(hay@, needle@, i as int));
            }
            return true;
        }
    }
    proof {
        assert forall|k: int| !matches_at(hay@, needle@, k) by {
            if 0 <= k <= last as int {
            }
        }
    }
    false
}

} // verus!
