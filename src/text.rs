//! Text rules: Unicode whitespace, ASCII lower-casing, topic slugs, trimming
//! and comma-separated lists.
use vstd::prelude::*;
use vstd::string::StrSliceExecFns;

verus! {

/// Characters with the Unicode `White_Space` property.
pub open spec fn is_ws(c: char) -> bool {
    let u = c as u32;
    (0x09 <= u && u <= 0x0d) || u == 0x20 || u == 0x85 || u == 0xa0 || u == 0x1680
        || (0x2000 <= u && u <= 0x200a) || u == 0x2028 || u == 0x2029 || u == 0x202f
        || u == 0x205f || u == 0x3000
}

/// ASCII case rules only: `A`..`Z` become `a`..`z`, every other character stays.
pub open spec fn lower_char(c: char) -> char {
    if 'A' <= c && c <= 'Z' {
        ((c as u32) + 32) as char
    } else {
        c
    }
}

/// One character of a slug: whitespace becomes a hyphen, the rest is lower-cased.
pub open spec fn slug_char(c: char) -> char {
    if is_ws(c) {
        '-'
    } else {
        lower_char(c)
    }
}

/// The slug of a topic name, character for character.
pub open spec fn slug_of(s: Seq<char>) -> Seq<char> {
    s.map_values(|c: char| slug_char(c))
}

/// Whether `c` is whitespace (Unicode `White_Space`).
pub fn is_space(c: char) -> (r: bool)
    ensures
        r == is_ws(c),
{
    let u = c as u32;
    (0x09 <= u && u <= 0x0d) || u == 0x20 || u == 0x85 || u == 0xa0 || u == 0x1680
        || (0x2000 <= u && u <= 0x200a) || u == 0x2028 || u == 0x2029 || u == 0x202f
        || u == 0x205f || u == 0x3000
}

/// Relies on `String::push`: appends one character at the end.
#[verifier::external_body]
pub(crate) fn push_char(s: &mut String, c: char)
    ensures
        final(s)@ == old(s)@.push(c),
{
    s.push(c)
}

/// Relies on `char::to_ascii_lowercase`: maps `A`..`Z` to `a`..`z` and leaves
/// every other character unchanged.
#[verifier::external_body]
fn ascii_lower(c: char) -> (r: char)
    ensures
        r == lower_char(c),
{
    c.to_ascii_lowercase()
}

/// Converts a topic name into a filesystem- and URL-safe token: ASCII letters
/// are lower-cased and every whitespace character becomes one hyphen. Nothing
/// is trimmed, collapsed or removed.
pub fn slugify(topic: &str) -> (r: String)
    ensures
        r@ == slug_of(topic@),
{
    let n = topic.unicode_len();
    let mut out = String::new();
    let mut i: usize = 0;
    while i < n
        invariant
            n == topic@.len(),
            i <= n,
            out@ == slug_of(topic@.subrange(0, i as int)),
        decreases n - i,
    {
        let c = topic.get_char(i);
        let d = if is_space(c) {
            '-'
        } else {
            ascii_lower(c)
        };
        push_char(&mut out, d);
        proof {
            assert(topic@.subrange(0, i + 1) =~= topic@.subrange(0, i as int).push(c));
            assert(slug_of(topic@.subrange(0, i + 1)) =~= slug_of(topic@.subrange(0, i as int)).push(d));
        }
        i += 1;
    }
    proof {
        assert(topic@.subrange(0, n as int) =~= topic@);
    }
    out
}

/// `s` without its leading whitespace.
pub open spec fn trim_start(s: Seq<char>) -> Seq<char>
    decreases s.len(),
{
    if s.len() > 0 && is_ws(s[0]) {
        trim_start(s.drop_first())
    } else {
        s
    }
}

/// `s` without its trailing whitespace.
pub open spec fn trim_end(s: Seq<char>) -> Seq<char>
    decreases s.len(),
{
    if s.len() > 0 && is_ws(s.last()) {
        trim_end(s.drop_last())
    } else {
        s
    }
}

/// `s` without whitespace at either end.
pub open spec fn trimmed(s: Seq<char>) -> Seq<char> {
    trim_end(trim_start(s))
}

/// The pieces of `s` between commas, in order; `n` commas give `n + 1` pieces.
pub open spec fn split_commas(s: Seq<char>) -> Seq<Seq<char>>
    decreases s.len(),
{
    if s.len() == 0 {
        seq![Seq::empty()]
    } else {
        let p = split_commas(s.drop_last());
        if s.last() == ',' {
            p.push(Seq::empty())
        } else {
            p.update(p.len() - 1, p.last().push(s.last()))
        }
    }
}

/// The topics of a comma-separated list: each piece trimmed on its own,
/// empty pieces kept.
pub open spec fn csv_fields(s: Seq<char>) -> Seq<Seq<char>> {
    split_commas(s).map_values(|p: Seq<char>| trimmed(p))
}

proof fn lemma_split_nonempty(s: Seq<char>)
    ensures
        split_commas(s).len() >= 1,
    decreases s.len(),
{
    if s.len() > 0 {
        lemma_split_nonempty(s.drop_last());
    }
}

/// Returns `s` without leading and trailing whitespace.
pub fn trim(s: &str) -> (r: String)
    ensures
        r@ == trimmed(s@),
{
    let n = s.unicode_len();
    let ghost v = s@;
    let mut lo: usize = 0;
    proof {
        assert(v.subrange(0, n as int) =~= v);
    }
    while lo < n && is_space(s.get_char(lo))
        invariant
            n == v.len(),
            v == s@,
            lo <= n,
            trim_start(v) == trim_start(v.subrange(lo as int, n as int)),
        decreases n - lo,
    {
        proof {
            assert(v.subrange(lo as int, n as int).drop_first() =~= v.subrange(lo + 1, n as int));
        }
        lo += 1;
    }
    proof {
        if lo < n {
            assert(!is_ws(v.subrange(lo as int, n as int)[0]));
        }
        assert(trim_start(v) == v.subrange(lo as int, n as int));
    }
    let mut hi: usize = n;
    while hi > lo && is_space(s.get_char(hi - 1))
        invariant
            n == v.len(),
            v == s@,
            lo <= hi <= n,
            trim_start(v) == v.subrange(lo as int, n as int),
            trimmed(v) == trim_end(v.subrange(lo as int, hi as int)),
        decreases hi,
    {
        proof {
            assert(v.subrange(lo as int, hi as int).drop_last() =~= v.subrange(lo as int, hi - 1));
        }
        hi -= 1;
    }
    let mut out = String::new();
    let mut i: usize = lo;
    while i < hi
        invariant
            n == v.len(),
            v == s@,
            lo <= i <= hi <= n,
            out@ == v.subrange(lo as int, i as int),
        decreases hi - i,
    {
        let c = s.get_char(i);
        push_char(&mut out, c);
        proof {
            assert(v.subrange(lo as int, i + 1) =~= v.subrange(lo as int, i as int).push(c));
        }
        i += 1;
    }
    out
}

/// Splits a comma-separated list into its topics: the text is cut at every
/// comma and each piece is trimmed of surrounding whitespace. Empty pieces
/// (from a trailing comma, say) are kept.
pub fn csv_to_vec(csv: &str) -> (r: Vec<String>)
    ensures
        r@.len() == csv_fields(csv@).len(),
        forall|k: int| 0 <= k < r@.len() ==> #[trigger] r@[k]@ == csv_fields(csv@)[k],
{
    let n = csv.unicode_len();
    let ghost v = csv@;
    let mut parts: Vec<String> = Vec::new();
    let mut cur = String::new();
    let mut i: usize = 0;
    while i < n
        invariant
            n == v.len(),
            v == csv@,
            i <= n,
            split_commas(v.subrange(0, i as int)).len() == parts@.len() + 1,
            split_commas(v.subrange(0, i as int)).last() == cur@,
            forall|k: int|
                0 <= k < parts@.len() ==> #[trigger] parts@[k]@ == trimmed(
                    split_commas(v.subrange(0, i as int))[k],
                ),
        decreases n - i,
    {
        let c = csv.get_char(i);
        proof {
            assert(v.subrange(0, i + 1).drop_last() =~= v.subrange(0, i as int));
            lemma_split_nonempty(v.subrange(0, i as int));
        }
        if c == ',' {
            let t = trim(cur.as_str());
            parts.push(t);
            cur = String::new();
        } else {
            push_char(&mut cur, c);
        }
        i += 1;
    }
    let t = trim(cur.as_str());
    parts.push(t);
    proof {
        assert(v.subrange(0, n as int) =~= v);
    }
    parts
}

/// Slugging is idempotent: the slug of a slug is that slug again.
pub proof fn lemma_slug_idempotent(s: Seq<char>)
    ensures
        slug_of(slug_of(s)) == slug_of(s),
{
    assert(slug_of(slug_of(s)) =~= slug_of(s));
}

} // verus!
