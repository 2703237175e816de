//! Splitting captured output into lines: the segments between newline
//! characters, exactly as splitting text on `'\n'` yields them.

use vstd::prelude::*;

verus! {

/// The segments of `s` between `'\n'` characters, in order. Empty text has
/// one empty segment; a trailing newline yields a trailing empty segment.
pub open spec fn split_lines(s: Seq<char>) -> Seq<Seq<char>>
    decreases s.len(),
{
    if s.len() == 0 {
        seq![Seq::<char>::empty()]
    } else if s[0] == '\n' {
        seq![Seq::<char>::empty()] + split_lines(s.skip(1))
    } else {
        let rest = split_lines(s.skip(1));
        seq![seq![s[0]] + rest[0]] + rest.skip(1)
    }
}

/// A split always yields at least one segment.
pub proof fn lemma_split_lines_nonempty(s: Seq<char>)
    ensures
        split_lines(s).len() >= 1,
    decreases s.len(),
{
    if s.len() == 0 {
    } else {
        lemma_split_lines_nonempty(s.skip(1));
    }
}

/// Text without a newline is a single segment: itself.
proof fn lemma_split_lines_no_newline(s: Seq<char>)
    requires
        forall|j: int| 0 <= j < s.len() ==> s[j] != '\n',
    ensures
        split_lines(s) == seq![s],
    decreases s.len(),
{
    if s.len() == 0 {
        assert(s =~= Seq::<char>::empty());
        assert(split_lines(s) =~= seq![s]);
    } else {
        lemma_split_lines_no_newline(s.skip(1));
        lemma_split_lines_nonempty(s.skip(1));
        assert(seq![s[0]] + s.skip(1) =~= s);
        assert(split_lines(s) =~= seq![s]);
    }
}

/// Splitting at the first newline: the text before it is the first segment,
/// and the rest of the split is the split of what follows it.
proof fn lemma_split_lines_first_newline(s: Seq<char>, k: int)
    requires
        0 <= k < s.len(),
        s[k] == '\n',
        forall|j: int| 0 <= j < k ==> s[j] != '\n',
    ensures
        split_lines(s) == seq![s.take(k)] + split_lines(s.skip(k + 1)),
    decreases k,
{
    if k == 0 {
        assert(s.take(0) =~= Seq::<char>::empty());
        assert(split_lines(s) =~= seq![s.take(0)] + split_lines(s.skip(1)));
    } else {
        let t = s.skip(1);
        assert(t[k - 1] == '\n');
        assert(forall|j: int| 0 <= j < k - 1 ==> t[j] != '\n');
        lemma_split_lines_first_newline(t, k - 1);
        lemma_split_lines_nonempty(t.skip(k));
        assert(t.take(k - 1) =~= s.take(k).skip(1));
        assert(seq![s[0]] + s.take(k).skip(1) =~= s.take(k));
        assert(t.skip(k) =~= s.skip(k + 1));
        assert((seq![t.take(k - 1)] + split_lines(t.skip(k))).skip(1) =~= split_lines(
            s.skip(k + 1),
        ));
        assert(split_lines(s) =~= seq![s.take(k)] + split_lines(s.skip(k + 1)));
    }
}

/// Split `s` on newline characters, keeping empty segments.
pub fn split_lines_exec(s: &str) -> (r: Vec<String>)
    ensures
        r.deep_view() == split_lines(s@),
{
    let len = s.unicode_len();
    let mut r: Vec<String> = Vec::new();
    let mut start: usize = 0;
    let mut i: usize = 0;
    proof {
        assert(s@.skip(0) =~= s@);
        assert(r.deep_view() =~= Seq::<Seq<char>>::empty());
        assert(r.deep_view() + split_lines(s@.skip(0)) =~= split_lines(s@));
    }
    while i < len
        invariant
            start <= i <= len,
            len == s@.len(),
            forall|j: int| start <= j < i ==> s@[j] != '\n',
            r.deep_view() + split_lines(s@.skip(start as int)) == split_lines(s@),
        decreases len - i,
    {
        if s.get_char(i) == '\n' {
            let seg = s.substring_char(start, i).to_owned();
            let ghost prev = r.deep_view();
            r.push(seg);
            proof {
                let tail = s@.skip(start as int);
                assert(forall|j: int|
                    0 <= j < i - start ==> tail[j] == s@[j + start] && tail[j] != '\n');
                assert(tail[i - start] == '\n');
                lemma_split_lines_first_newline(tail, i - start);
                assert(tail.take(i - start) =~= s@.subrange(start as int, i as int));
                assert(tail.skip(i - start + 1) =~= s@.skip(i + 1));
                assert(r.deep_view() =~= prev.push(seg@));
                assert(r.deep_view() + split_lines(s@.skip(i + 1)) =~= split_lines(s@));
            }
            start = i + 1;
        }
        i += 1;
    }
    let seg = s.substring_char(start, len).to_owned();
    let ghost prev = r.deep_view();
    r.push(seg);
    proof {
        let tail = s@.skip(start as int);
        assert(forall|j: int| 0 <= j < tail.len() ==> tail[j] == s@[j + start] && tail[j] != '\n');
        lemma_split_lines_no_newline(tail);
        assert(tail =~= s@.subrange(start as int, len as int));
        assert(r.deep_view() =~= prev.push(seg@));
        assert(r.deep_view() =~= split_lines(s@));
    }
    r
}

} // verus!
