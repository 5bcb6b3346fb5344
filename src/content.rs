//! Content-path rules: which matches of a pattern are kept, in which order,
//! and when a pattern is refused; and the exact text a protected file holds.
use vstd::prelude::*;
use vstd::string::{StrSliceExecFns, StringExecFns};

use crate::text::push_char;

verus! {

/// Why a pattern could not be resolved.
#[derive(Debug, PartialEq, Eq)]
pub enum MatchError {
    /// The directory the pattern is rooted in does not exist.
    NoValidParent,
}

/// The values of the entries that hold one, in order.
pub open spec fn present<T>(s: Seq<Option<T>>) -> Seq<T>
    decreases s.len(),
{
    if s.len() == 0 {
        Seq::empty()
    } else {
        match s[0] {
            Some(x) => seq![x] + present(s.drop_first()),
            None => present(s.drop_first()),
        }
    }
}

/// Lexical order of paths, character by character; a proper prefix comes first.
pub open spec fn path_lt(a: Seq<char>, b: Seq<char>) -> bool
    decreases a.len(),
{
    if b.len() == 0 {
        false
    } else if a.len() == 0 {
        true
    } else if a[0] != b[0] {
        (a[0] as u32) < (b[0] as u32)
    } else {
        path_lt(a.drop_first(), b.drop_first())
    }
}

/// Each path comes strictly before the next.
pub open spec fn ascending(s: Seq<Seq<char>>) -> bool {
    forall|i: int, j: int| 0 <= i < j < s.len() ==> path_lt(#[trigger] s[i], #[trigger] s[j])
}

/// Each path comes strictly after the next.
pub open spec fn descending(s: Seq<Seq<char>>) -> bool {
    forall|i: int, j: int| 0 <= i < j < s.len() ==> path_lt(#[trigger] s[j], #[trigger] s[i])
}

/// Resolves the expansion of a pattern. Where the pattern's parent directory
/// does not exist the pattern is refused, whatever `entries` holds. Else the
/// entries that were read are kept (those that failed to read are skipped)
/// and handed back last first, so that time-ordered names come newest first.
pub fn order_matches<T>(parent_exists: bool, entries: Vec<Option<T>>) -> (r: Result<
    Vec<T>,
    MatchError,
>)
    ensures
        !parent_exists ==> r == Err::<Vec<T>, MatchError>(MatchError::NoValidParent),
        parent_exists ==> r is Ok && r->Ok_0@ == present(entries@).reverse(),
{
    if !parent_exists {
        return Err(MatchError::NoValidParent);
    }
    let ghost all = entries@;
    let mut rest = entries;
    let mut out: Vec<T> = Vec::new();
    while rest.len() > 0
        invariant
            rest@.len() <= all.len(),
            rest@ == all.subrange(0, rest@.len() as int),
            out@ == present(all.subrange(rest@.len() as int, all.len() as int)).reverse(),
        decreases rest@.len(),
    {
        let ghost m = rest@.len() as int;
        let e = rest.pop();
        proof {
            let tail = all.subrange(m - 1, all.len() as int);
            assert(tail.drop_first() =~= all.subrange(m, all.len() as int));
            assert(rest@ =~= all.subrange(0, m - 1));
        }
        match e {
            Some(Some(x)) => {
                proof {
                    let prev = present(all.subrange(m, all.len() as int));
                    assert((seq![x] + prev).reverse() =~= prev.reverse().push(x));
                }
                out.push(x);
            },
            _ => {},
        }
    }
    proof {
        assert(all.subrange(0, all.len() as int) =~= all);
    }
    Ok(out)
}

/// Handing matches back last first turns names that came in ascending order
/// into names in strictly descending order.
pub proof fn lemma_matches_descending(entries: Seq<Option<Seq<char>>>)
    requires
        ascending(present(entries)),
    ensures
        descending(present(entries).reverse()),
{
    let p = present(entries);
    let q = p.reverse();
    assert forall|i: int, j: int| 0 <= i < j < q.len() implies path_lt(
        #[trigger] q[j],
        #[trigger] q[i],
    ) by {
        assert(q[j] == p[p.len() - 1 - j]);
        assert(q[i] == p[p.len() - 1 - i]);
    }
}

/// The text of `content` as it is stored: a newline is added at the end
/// where it does not already end with one.
pub open spec fn terminated(content: Seq<char>) -> Seq<char> {
    if content.len() > 0 && content.last() == '\n' {
        content
    } else {
        content.push('\n')
    }
}

/// Returns the exact text a protected file is written with: `content`,
/// followed by a newline unless it already ends with one.
pub fn newline_terminated(content: &str) -> (r: String)
    ensures
        r@ == terminated(content@),
{
    let n = content.unicode_len();
    let mut out = String::from_str(content);
    if n == 0 || content.get_char(n - 1) != '\n' {
        push_char(&mut out, '\n');
    }
    out
}

} // verus!
