//! The three things that the lookup does with strings: cutting a path at
//! its dots, putting steps together with dots, and replacing the first
//! occurrence of a pattern.

use vstd::prelude::*;

verus! {

/// What each of `strs` holds.
pub open spec fn views(strs: Seq<&str>) -> Seq<Seq<char>> {
    Seq::new(strs.len(), |i: int| strs[i]@)
}

/// The pieces that the dots of `s` cut it into, in order. There is one
/// piece more than `s` has dots, and a piece may be empty.
pub open spec fn dotted(s: Seq<char>) -> Seq<Seq<char>>
    decreases s.len(),
{
    if s.len() == 0 {
        seq![Seq::empty()]
    } else {
        let before = dotted(s.drop_last());
        if s.last() == '.' {
            before.push(Seq::empty())
        } else {
            before.drop_last().push(before.last().push(s.last()))
        }
    }
}

/// `parts` with a dot between each two of them.
pub open spec fn joined(parts: Seq<Seq<char>>) -> Seq<char>
    decreases parts.len(),
{
    if parts.len() == 0 {
        Seq::empty()
    } else if parts.len() == 1 {
        parts[0]
    } else {
        joined(parts.drop_last()) + seq!['.'] + parts.last()
    }
}

/// `pattern` stands in `s` at `i`.
pub open spec fn found_at(s: Seq<char>, pattern: Seq<char>, i: int) -> bool {
    0 <= i && i + pattern.len() <= s.len() && s.subrange(i, i + pattern.len()) == pattern
}

/// `i` is the first place in `s` at which `pattern` stands.
pub open spec fn first_at(s: Seq<char>, pattern: Seq<char>, i: int) -> bool {
    found_at(s, pattern, i) && forall|j: int| 0 <= j < i ==> !found_at(s, pattern, j)
}

/// `s` with the first occurrence of `pattern` replaced by `with`, and `s`
/// itself where `pattern` does not occur.
pub open spec fn replaced_first(s: Seq<char>, pattern: Seq<char>, with: Seq<char>) -> Seq<char> {
    if exists|i: int| first_at(s, pattern, i) {
        let i = choose|i: int| first_at(s, pattern, i);
        s.take(i) + with + s.skip(i + pattern.len())
    } else {
        s
    }
}

/// Cutting a path at its dots loses nothing: the pieces, joined by dots, are
/// the path again.
pub proof fn lemma_joined_dotted(s: Seq<char>)
    ensures
        joined(dotted(s)) == s,
    decreases s.len(),
{
    if s.len() > 0 {
        let before = dotted(s.drop_last());
        lemma_joined_dotted(s.drop_last());
        if s.last() == '.' {
            assert(before.push(Seq::empty()).drop_last() =~= before);
        } else {
            let now = before.drop_last().push(before.last().push(s.last()));
            assert(now.drop_last() =~= before.drop_last());
            assert(s.drop_last().push(s.last()) =~= s);
        }
    }
}

/// The characters of `s`, to be read by index.
fn chars_of(s: &str) -> (chars: Vec<char>)
    ensures
        chars@ == s@,
{
    let mut chars: Vec<char> = Vec::new();
    for c in it: s.chars()
        invariant
            chars@ == it.seq().take(it.index()),
            it.seq() == s@,
    {
        chars.push(c);
    }
    chars
}

/// Cuts `path` at its dots.
pub fn split_dots<'a>(path: &'a str) -> (steps: Vec<&'a str>)
    ensures
        views(steps@) == dotted(path@),
{
    let chars = chars_of(path);
    let n: usize = chars.len();
    let mut steps: Vec<&'a str> = Vec::new();
    let mut start: usize = 0;
    let mut i: usize = 0;
    assert(dotted(path@.take(0)) =~= views(steps@).push(path@.subrange(0, 0))) by {
        assert(path@.subrange(0, 0) =~= Seq::<char>::empty());
    }
    while i < n
        invariant
            start <= i <= n,
            chars@ == path@,
            n == chars@.len(),
            dotted(path@.take(i as int)) == views(steps@).push(
                path@.subrange(start as int, i as int),
            ),
        decreases n - i,
    {
        let ghost seen = path@.take(i as int);
        let ghost next = path@.take(i + 1);
        let ghost piece = path@.subrange(start as int, i as int);
        assert(next.drop_last() =~= seen);
        if chars[i] == '.' {
            steps.push(path.substring_char(start, i));
            start = i + 1;
            assert(path@.subrange(start as int, i + 1) =~= Seq::<char>::empty());
        } else {
            assert(piece.push(path@[i as int]) =~= path@.subrange(start as int, i + 1));
        }
        i += 1;
    }
    assert(path@.take(n as int) =~= path@);
    steps.push(path.substring_char(start, n));
    steps
}

/// Puts `steps` together with a dot between each two of them.
pub fn join_dots(steps: &Vec<&str>) -> (path: String)
    ensures
        path@ == joined(views(steps@)),
{
    let mut path = String::new();
    let mut i: usize = 0;
    while i < steps.len()
        invariant
            i <= steps@.len(),
            path@ == joined(views(steps@).take(i as int)),
        decreases steps@.len() - i,
    {
        let ghost before = views(steps@).take(i as int);
        let ghost now = views(steps@).take(i + 1);
        assert(now.drop_last() =~= before);
        if i > 0 {
            proof {
                reveal_strlit(".");
            }
            path.append(".");
        }
        path.append(steps[i]);
        i += 1;
    }
    assert(views(steps@).take(steps@.len() as int) =~= views(steps@));
    path
}

/// Whether `pattern` stands in `text` at `i`.
fn stands_at(text: &Vec<char>, pattern: &Vec<char>, i: usize) -> (found: bool)
    requires
        i + pattern@.len() <= text@.len(),
    ensures
        found == found_at(text@, pattern@, i as int),
{
    let n: usize = text.len();
    let mut k: usize = 0;
    while k < pattern.len()
        invariant
            k <= pattern@.len(),
            n == text@.len(),
            i + pattern@.len() <= text@.len(),
            forall|j: int| 0 <= j < k ==> text@[i + j] == pattern@[j],
        decreases pattern@.len() - k,
    {
        if text[i + k] != pattern[k] {
            return false;
        }
        k += 1;
    }
    assert(text@.subrange(i as int, i + pattern@.len()) =~= pattern@);
    true
}

/// Replaces the first occurrence of `pattern` in `text` by `with`.
pub fn replace_first(text: &str, pattern: &str, with: &str) -> (out: String)
    ensures
        out@ == replaced_first(text@, pattern@, with@),
{
    let t = chars_of(text);
    let p = chars_of(pattern);
    let n: usize = t.len();
    let m: usize = p.len();
    if m <= n {
        let mut i: usize = 0;
        while i <= n - m
            invariant
                m <= n,
                n == t@.len(),
                m == p@.len(),
                t@ == text@,
                p@ == pattern@,
                i <= n - m + 1,
                forall|j: int| 0 <= j < i ==> !found_at(text@, pattern@, j),
            decreases n - m + 1 - i,
        {
            if stands_at(&t, &p, i) {
                let mut out = text.substring_char(0, i).to_owned();
                out.append(with);
                out.append(text.substring_char(i + m, n));
                assert(first_at(text@, pattern@, i as int));
                return out;
            }
            assert(m > 0) by {
                if m == 0 {
                    assert(text@.subrange(i as int, i as int) =~= pattern@);
                }
            }
            i += 1;
        }
    }
    text.to_owned()
}

} // verus!
