use vstd::prelude::*;

verus! {

/// Split a string at every occurrence of `c`: separators are dropped, empty
/// segments are kept, and the result always holds one more segment than there
/// are separators.
pub open spec fn split_on(s: Seq<char>, c: char) -> Seq<Seq<char>>
    decreases s.len(),
{
    if s.len() == 0 {
        seq![Seq::<char>::empty()]
    } else {
        let rest = split_on(s.skip(1), c);
        if s[0] == c {
            seq![Seq::<char>::empty()] + rest
        } else {
            seq![seq![s[0]] + rest[0]] + rest.skip(1)
        }
    }
}

pub proof fn lemma_split_on_len(s: Seq<char>, c: char)
    ensures
        split_on(s, c).len() >= 1,
    decreases s.len(),
{
    if s.len() > 0 {
        lemma_split_on_len(s.skip(1), c);
    }
}

/// A string free of the separator is a single segment.
pub proof fn lemma_split_on_whole(s: Seq<char>, c: char)
    requires
        forall|i: int| 0 <= i < s.len() ==> s[i] != c,
    ensures
        split_on(s, c) == seq![s],
    decreases s.len(),
{
    if s.len() == 0 {
        assert(s =~= Seq::<char>::empty());
        assert(split_on(s, c) =~= seq![s]);
    } else {
        assert forall|j: int| 0 <= j < s.skip(1).len() implies s.skip(1)[j] != c by {
            assert(s.skip(1)[j] == s[j + 1]);
        }
        lemma_split_on_whole(s.skip(1), c);
        lemma_split_on_len(s.skip(1), c);
        let rest = split_on(s.skip(1), c);
        assert(rest[0] == s.skip(1));
        assert(seq![s[0]] + s.skip(1) =~= s);
        assert(rest.skip(1) =~= Seq::<Seq<char>>::empty());
        assert(split_on(s, c) =~= seq![s]);
    }
}

/// Splitting takes the segment before the first separator, then splits the
/// remainder.
pub proof fn lemma_split_on_step(a: Seq<char>, b: Seq<char>, c: char)
    requires
        forall|i: int| 0 <= i < a.len() ==> a[i] != c,
    ensures
        split_on(a + seq![c] + b, c) == seq![a] + split_on(b, c),
    decreases a.len(),
{
    let s = a + seq![c] + b;
    if a.len() == 0 {
        assert(s[0] == c);
        assert(s.skip(1) =~= b);
        assert(a =~= Seq::<char>::empty());
        assert(split_on(s, c) =~= seq![a] + split_on(b, c));
    } else {
        assert forall|j: int| 0 <= j < a.skip(1).len() implies a.skip(1)[j] != c by {
            assert(a.skip(1)[j] == a[j + 1]);
        }
        lemma_split_on_step(a.skip(1), b, c);
        lemma_split_on_len(b, c);
        assert(s[0] == a[0]);
        assert(s[0] != c);
        assert(s.skip(1) =~= a.skip(1) + seq![c] + b);
        let rest = split_on(s.skip(1), c);
        assert(rest == seq![a.skip(1)] + split_on(b, c));
        assert(rest[0] == a.skip(1));
        assert(seq![s[0]] + rest[0] =~= a);
        assert(rest.skip(1) =~= split_on(b, c));
        assert(split_on(s, c) =~= seq![a] + split_on(b, c));
    }
}

/// No segment of a split contains the separator.
pub proof fn lemma_split_on_parts_free(s: Seq<char>, c: char)
    ensures
        forall|k: int, i: int|
            0 <= k < split_on(s, c).len() && 0 <= i < split_on(s, c)[k].len() ==> split_on(
                s,
                c,
            )[k][i] != c,
    decreases s.len(),
{
    if s.len() > 0 {
        lemma_split_on_parts_free(s.skip(1), c);
        lemma_split_on_len(s.skip(1), c);
        let rest = split_on(s.skip(1), c);
        let parts = split_on(s, c);
        assert forall|k: int, i: int|
            0 <= k < parts.len() && 0 <= i < parts[k].len() implies parts[k][i] != c by {
            if s[0] == c {
                if k >= 1 {
                    assert(parts[k] == rest[k - 1]);
                }
            } else {
                if k == 0 {
                    assert(parts[0] == seq![s[0]] + rest[0]);
                    if i >= 1 {
                        assert(parts[0][i] == rest[0][i - 1]);
                    }
                } else {
                    assert(parts[k] == rest.skip(1)[k - 1]);
                    assert(rest.skip(1)[k - 1] == rest[k]);
                }
            }
        }
    }
}

/// The views of the collected segments.
pub open spec fn views_of(parts: Seq<&str>) -> Seq<Seq<char>> {
    parts.map_values(|t: &str| t@)
}

/// Split a string at every occurrence of `c`, exactly as [`split_on`]
/// describes.
pub fn split_str<'a>(s: &'a str, c: char) -> (r: Vec<&'a str>)
    ensures
        views_of(r@) == split_on(s@, c),
{
    let n = s.unicode_len();
    let mut parts: Vec<&'a str> = Vec::new();
    let mut start: usize = 0;
    let mut i: usize = 0;
    proof {
        assert(views_of(parts@) =~= Seq::<Seq<char>>::empty());
        assert(s@.skip(0) =~= s@);
        assert(views_of(parts@) + split_on(s@.skip(0), c) =~= split_on(s@, c));
    }
    while i < n
        invariant
            n == s@.len(),
            start <= i <= n,
            forall|j: int| start <= j < i ==> s@[j] != c,
            views_of(parts@) + split_on(s@.skip(start as int), c) == split_on(s@, c),
        decreases n - i,
    {
        let ch = s.get_char(i);
        if ch == c {
            let part = s.substring_char(start, i);
            proof {
                let a = s@.subrange(start as int, i as int);
                let b = s@.skip(i as int + 1);
                assert(s@.skip(start as int) =~= a + seq![c] + b);
                lemma_split_on_step(a, b, c);
                assert(views_of(parts@.push(part)) =~= views_of(parts@) + seq![part@]);
                assert((views_of(parts@) + seq![a]) + split_on(b, c) =~= views_of(parts@) + (
                seq![a] + split_on(b, c)));
            }
            parts.push(part);
            start = i + 1;
        }
        i = i + 1;
    }
    let last = s.substring_char(start, n);
    proof {
        let a = s@.subrange(start as int, n as int);
        assert(s@.skip(start as int) =~= a);
        lemma_split_on_whole(a, c);
        assert(views_of(parts@.push(last)) =~= views_of(parts@) + seq![a]);
    }
    parts.push(last);
    parts
}

/// Character-for-character string equality.
pub fn str_eq(a: &str, b: &str) -> (r: bool)
    ensures
        r == (a@ == b@),
{
    let na = a.unicode_len();
    let nb = b.unicode_len();
    if na != nb {
        return false;
    }
    let mut i: usize = 0;
    while i < na
        invariant
            na == a@.len(),
            na == b@.len(),
            i <= na,
            forall|j: int| 0 <= j < i ==> a@[j] == b@[j],
        decreases na - i,
    {
        if a.get_char(i) != b.get_char(i) {
            return false;
        }
        i = i + 1;
    }
    proof {
        assert(a@ =~= b@);
    }
    true
}

} // verus!
