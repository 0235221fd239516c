//! Text helpers: comparing, splitting and joining strings by their characters.

use vstd::prelude::*;
use vstd::string::*;

verus! {

/// The characters of each string of a sequence.
pub open spec fn texts(v: Seq<String>) -> Seq<Seq<char>> {
    v.map_values(|s: String| s@)
}

/// The characters of an optional string.
pub open spec fn text_of(text: Option<String>) -> Option<Seq<char>> {
    match text {
        Some(text) => Some(text@),
        None => None,
    }
}

/// The pieces of `s` between occurrences of `sep`. There is always at least
/// one piece; two adjacent separators enclose an empty piece.
pub open spec fn split(s: Seq<char>, sep: char) -> Seq<Seq<char>>
    decreases s.len(),
{
    if s.len() == 0 {
        seq![Seq::<char>::empty()]
    } else {
        let init = split(s.drop_last(), sep);
        if s.last() == sep {
            init.push(Seq::<char>::empty())
        } else {
            init.update(init.len() - 1, init.last().push(s.last()))
        }
    }
}

/// The pieces one after another, with `sep` between each two neighbours.
pub open spec fn join(parts: Seq<Seq<char>>, sep: Seq<char>) -> Seq<char>
    decreases parts.len(),
{
    if parts.len() == 0 {
        Seq::<char>::empty()
    } else if parts.len() == 1 {
        parts[0]
    } else {
        join(parts.drop_last(), sep) + sep + parts.last()
    }
}

/// `s` with every occurrence of `from` replaced by `to`.
pub open spec fn replaced(s: Seq<char>, from: char, to: char) -> Seq<char> {
    s.map_values(
        |c: char|
            if c == from {
                to
            } else {
                c
            },
    )
}

/// Splitting never yields an empty list of pieces.
pub proof fn lemma_split_nonempty(s: Seq<char>, sep: char)
    ensures
        split(s, sep).len() >= 1,
    decreases s.len(),
{
    if s.len() > 0 {
        lemma_split_nonempty(s.drop_last(), sep);
    }
}

/// Joining a list that starts with `head` puts `head` and one separator in
/// front of the joined rest.
pub proof fn lemma_join_front(head: Seq<char>, rest: Seq<Seq<char>>, sep: Seq<char>)
    requires
        rest.len() >= 1,
    ensures
        join(seq![head] + rest, sep) == head + sep + join(rest, sep),
    decreases rest.len(),
{
    let all = seq![head] + rest;
    if rest.len() == 1 {
        assert(all.drop_last() =~= seq![head]);
        assert(join(seq![head], sep) == head);
    } else {
        lemma_join_front(head, rest.drop_last(), sep);
        assert(all.drop_last() =~= seq![head] + rest.drop_last());
    }
}

/// Splitting on one character and joining with another replaces every
/// occurrence of the first by the second and changes nothing else.
pub proof fn lemma_join_split_replaces(s: Seq<char>, from: char, to: char)
    ensures
        join(split(s, from), seq![to]) == replaced(s, from, to),
    decreases s.len(),
{
    if s.len() > 0 {
        let init = split(s.drop_last(), from);
        lemma_split_nonempty(s.drop_last(), from);
        lemma_join_split_replaces(s.drop_last(), from, to);
        assert(replaced(s, from, to) =~= replaced(s.drop_last(), from, to).push(
            if s.last() == from {
                to
            } else {
                s.last()
            },
        ));
        if s.last() == from {
            assert(init.push(Seq::<char>::empty()).drop_last() =~= init);
        } else if init.len() > 1 {
            let all = init.update(init.len() - 1, init.last().push(s.last()));
            assert(all.drop_last() =~= init.drop_last());
        }
    }
}

/// What follows a common front decides whether two texts are equal.
pub proof fn lemma_same_front(front: Seq<char>, first: Seq<char>, second: Seq<char>)
    requires
        front + first == front + second,
    ensures
        first == second,
{
    assert((front + second).len() == front.len() + second.len());
    assert forall|i: int| 0 <= i < first.len() implies first[i] == second[i] by {
        assert((front + second)[front.len() + i] == second[i]);
    }
}

/// Replacing one character by another that neither text holds keeps
/// different texts different.
pub proof fn lemma_replaced_apart(first: Seq<char>, second: Seq<char>, from: char, to: char)
    requires
        !first.contains(to),
        !second.contains(to),
        replaced(first, from, to) == replaced(second, from, to),
    ensures
        first == second,
{
    assert(replaced(second, from, to).len() == second.len());
    assert forall|i: int| 0 <= i < first.len() implies first[i] == second[i] by {
        assert(replaced(first, from, to)[i] == if first[i] == from {
            to
        } else {
            first[i]
        });
        assert(replaced(second, from, to)[i] == if second[i] == from {
            to
        } else {
            second[i]
        });
    }
}

/// The characters of a string, in order.
pub fn chars_of(s: &str) -> (out: Vec<char>)
    ensures
        out@ == s@,
{
    let mut out: Vec<char> = Vec::new();
    for c in it: s.chars()
        invariant
            out@ == it.seq().take(it.index()),
    {
        out.push(c);
    }
    out
}

/// Whether two strings hold the same characters.
pub fn text_eq(a: &str, b: &str) -> (same: bool)
    ensures
        same == (a@ == b@),
{
    let left = chars_of(a);
    let right = chars_of(b);
    if left.len() != right.len() {
        return false;
    }
    let mut i: usize = 0;
    while i < left.len()
        invariant
            left@ == a@,
            right@ == b@,
            i <= left.len(),
            left.len() == right.len(),
            forall|k: int| 0 <= k < i ==> left@[k] == right@[k],
        decreases left.len() - i,
    {
        if left[i] != right[i] {
            return false;
        }
        i += 1;
    }
    assert(left@ =~= right@);
    true
}

/// Splits `s` at every occurrence of `sep`, as `split` describes.
pub fn split_on(s: &str, sep: char) -> (parts: Vec<String>)
    ensures
        texts(parts@) == split(s@, sep),
{
    let chars = chars_of(s);
    let mut parts: Vec<String> = Vec::new();
    let mut start: usize = 0;
    let mut i: usize = 0;
    assert(s@.take(0) =~= Seq::<char>::empty());
    while i < chars.len()
        invariant
            chars@ == s@,
            start <= i <= chars.len(),
            texts(parts@) + seq![s@.subrange(start as int, i as int)] == split(
                s@.take(i as int),
                sep,
            ),
        decreases chars.len() - i,
    {
        let ghost before = texts(parts@);
        let ghost current = s@.subrange(start as int, i as int);
        assert(s@.take(i + 1).drop_last() =~= s@.take(i as int));
        if chars[i] == sep {
            let piece = s.substring_char(start, i);
            parts.push(piece.to_owned());
            start = i + 1;
            proof {
                assert(s@.subrange(start as int, i + 1) =~= Seq::<char>::empty());
                assert(texts(parts@) + seq![s@.subrange(start as int, i + 1)] =~= (before
                    + seq![current]).push(Seq::<char>::empty()));
            }
        } else {
            proof {
                let init = before + seq![current];
                assert(s@.subrange(start as int, i + 1) =~= current.push(s@[i as int]));
                assert(init.update(init.len() - 1, init.last().push(s@[i as int])) =~= before
                    + seq![s@.subrange(start as int, i + 1)]);
            }
        }
        i += 1;
    }
    let piece = s.substring_char(start, i);
    parts.push(piece.to_owned());
    assert(s@.take(i as int) =~= s@);
    parts
}

/// Joins the strings of `parts` with `sep` between them, as `join` describes.
pub fn join_with(parts: &Vec<String>, sep: &str) -> (out: String)
    ensures
        out@ == join(texts(parts@), sep@),
{
    let mut out = String::new();
    let mut i: usize = 0;
    while i < parts.len()
        invariant
            i <= parts.len(),
            out@ == join(texts(parts@).take(i as int), sep@),
        decreases parts.len() - i,
    {
        assert(texts(parts@).take(i + 1).drop_last() =~= texts(parts@).take(i as int));
        if i > 0 {
            out.append(sep);
        }
        out.append(parts[i].as_str());
        i += 1;
    }
    assert(texts(parts@).take(i as int) =~= texts(parts@));
    out
}

} // verus!
