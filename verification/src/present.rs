//! The presenter: optionally collapse each path to its containing
//! directory, join the list with single spaces, and prepend the optional
//! caller-supplied command prefix.

use vstd::prelude::*;

verus! {

/// A path collapsed to its containing directory: trailing characters are
/// stripped back to the last `'/'`, which is kept, so `/repo/src/a.go`
/// becomes `/repo/src/`. A path without any `'/'` collapses to the empty
/// string; a path already ending in `'/'` is unchanged.
pub open spec fn collapse(s: Seq<char>) -> Seq<char>
    decreases s.len(),
{
    if s.len() == 0 {
        s
    } else if s[s.len() - 1] == '/' {
        s
    } else {
        collapse(s.drop_last())
    }
}

/// A collapsed path is empty or ends with `'/'`.
pub proof fn lemma_collapse_shape(s: Seq<char>)
    ensures
        collapse(s).len() == 0 || collapse(s)[collapse(s).len() - 1] == '/',
    decreases s.len(),
{
    if s.len() == 0 {
    } else if s[s.len() - 1] == '/' {
    } else {
        lemma_collapse_shape(s.drop_last());
    }
}

/// Collapsing is idempotent: a path already collapsed to a bare directory
/// collapses to itself.
pub proof fn lemma_collapse_idempotent(s: Seq<char>)
    ensures
        collapse(collapse(s)) == collapse(s),
{
    lemma_collapse_shape(s);
}

/// Characters beyond the last `'/'` do not change what a path collapses
/// to.
proof fn lemma_collapse_take(s: Seq<char>, j: int)
    requires
        0 <= j <= s.len(),
        forall|t: int| j <= t < s.len() ==> s[t] != '/',
    ensures
        collapse(s) == collapse(s.take(j)),
    decreases s.len() - j,
{
    if j == s.len() {
        assert(s.take(j) =~= s);
    } else {
        assert(s[s.len() - 1] != '/');
        assert(s.drop_last() =~= s.take(s.len() - 1));
        lemma_collapse_take(s.take(s.len() - 1), j);
        assert(s.take(s.len() - 1).take(j) =~= s.take(j));
    }
}

/// Collapse one path to its containing directory, by the rule of
/// [`collapse`].
pub fn collapse_to_dir(p: &str) -> (r: String)
    ensures
        r@ == collapse(p@),
{
    let len = p.unicode_len();
    let mut j: usize = len;
    while j > 0 && p.get_char(j - 1) != '/'
        invariant
            j <= len,
            len == p@.len(),
            forall|t: int| j <= t < len ==> p@[t] != '/',
        decreases j,
    {
        j -= 1;
    }
    proof {
        lemma_collapse_take(p@, j as int);
        if j > 0 {
            assert(p@.take(j as int)[j - 1] == '/');
        } else {
            assert(p@.take(0) =~= Seq::<char>::empty());
        }
        assert(collapse(p@) == p@.take(j as int));
    }
    p.substring_char(0, j).to_owned()
}

/// Collapse every path in the list, keeping order and length.
pub fn collapse_all(paths: Vec<String>) -> (r: Vec<String>)
    ensures
        r.deep_view() == paths.deep_view().map_values(|p: Seq<char>| collapse(p)),
{
    let mut r: Vec<String> = Vec::new();
    let mut k: usize = 0;
    while k < paths.len()
        invariant
            k <= paths.len(),
            r@.len() == k,
            forall|t: int| 0 <= t < k ==> r.deep_view()[t] == collapse(paths.deep_view()[t]),
        decreases paths.len() - k,
    {
        let ghost prev = r.deep_view();
        r.push(collapse_to_dir(paths[k].as_str()));
        proof {
            assert(r.deep_view() =~= prev.push(collapse(paths.deep_view()[k as int])));
        }
        k += 1;
    }
    proof {
        assert(r.deep_view() =~= paths.deep_view().map_values(|p: Seq<char>| collapse(p)));
    }
    r
}

/// The list joined with single spaces: empty for no paths, and one space
/// between neighbours otherwise.
pub open spec fn join_spaces(paths: Seq<Seq<char>>) -> Seq<char>
    decreases paths.len(),
{
    if paths.len() == 0 {
        Seq::empty()
    } else if paths.len() == 1 {
        paths[0]
    } else {
        join_spaces(paths.drop_last()) + seq![' '] + paths.last()
    }
}

/// Join the paths with single spaces, by the rule of [`join_spaces`].
pub fn join_with_spaces(paths: &Vec<String>) -> (r: String)
    ensures
        r@ == join_spaces(paths.deep_view()),
{
    let mut r = String::new();
    let mut k: usize = 0;
    proof {
        assert(paths.deep_view().take(0) =~= Seq::<Seq<char>>::empty());
    }
    while k < paths.len()
        invariant
            k <= paths.len(),
            r@ == join_spaces(paths.deep_view().take(k as int)),
        decreases paths.len() - k,
    {
        if k > 0 {
            r.append(" ");
        }
        r.append(paths[k].as_str());
        proof {
            reveal_strlit(" ");
            assert(" "@ =~= seq![' ']);
            let cur = paths.deep_view().take(k + 1);
            assert(cur.drop_last() =~= paths.deep_view().take(k as int));
            assert(cur.last() == paths.deep_view()[k as int]);
            if k == 0 {
                assert(r@ =~= join_spaces(cur));
            } else {
                assert(r@ =~= join_spaces(cur));
            }
        }
        k += 1;
    }
    proof {
        assert(paths.deep_view().take(paths@.len() as int) =~= paths.deep_view());
    }
    r
}

/// The single output line: the paths, collapsed to directories in folder
/// mode, joined with single spaces, and prefixed by the command and one
/// space when a command prefix was supplied (even when the joined list is
/// empty).
pub open spec fn spec_present(
    paths: Seq<Seq<char>>,
    folder_mode: bool,
    prefix: Option<Seq<char>>,
) -> Seq<char> {
    let shown = if folder_mode {
        paths.map_values(|p: Seq<char>| collapse(p))
    } else {
        paths
    };
    let joined = join_spaces(shown);
    match prefix {
        None => joined,
        Some(c) => c + seq![' '] + joined,
    }
}

/// Build the output line, by the rule of [`spec_present`].
pub fn present(paths: Vec<String>, folder_mode: bool, prefix: Option<&str>) -> (r: String)
    ensures
        r@ == spec_present(
            paths.deep_view(),
            folder_mode,
            match prefix {
                None => None,
                Some(c) => Some(c@),
            },
        ),
{
    let shown: Vec<String> = if folder_mode {
        collapse_all(paths)
    } else {
        paths
    };
    let joined = join_with_spaces(&shown);
    match prefix {
        None => joined,
        Some(c) => {
            proof {
                reveal_strlit(" ");
                assert(" "@ =~= seq![' ']);
            }
            let r = c.to_owned().concat(" ").concat(joined.as_str());
            proof {
                assert(r@ =~= c@ + seq![' '] + joined@);
            }
            r
        },
    }
}

} // verus!
