use vstd::prelude::*;
use vstd::string::*;

verus! {

/// The character sequences of a list of strings, in order.
pub open spec fn views(items: Seq<String>) -> Seq<Seq<char>> {
    Seq::new(items.len(), |i: int| items[i]@)
}

/// A run of `n` blanks.
pub open spec fn blanks(n: nat) -> Seq<char> {
    Seq::new(n, |i: int| ' ')
}

/// The pieces of `s` between occurrences of `sep`. A text with `k`
/// separators has `k + 1` pieces; pieces may be empty.
pub open spec fn split(s: Seq<char>, sep: char) -> Seq<Seq<char>>
    decreases s.len(),
{
    if s.len() == 0 {
        seq![Seq::<char>::empty()]
    } else {
        let before = split(s.drop_last(), sep);
        if s.last() == sep {
            before.push(Seq::<char>::empty())
        } else {
            before.drop_last().push(before.last().push(s.last()))
        }
    }
}

/// Whether `i` is the first position of `items` whose item occurs again
/// later in the list.
pub open spec fn first_repeated_at<T>(items: Seq<T>, i: int) -> bool {
    &&& 0 <= i < items.len()
    &&& exists|j: int| i < j < items.len() && items[j] == items[i]
    &&& forall|a: int, b: int| 0 <= a < i && a < b < items.len() ==> items[a] != items[b]
}

/// The pieces written one after another, with `sep` between each two.
pub open spec fn join(parts: Seq<Seq<char>>, sep: char) -> Seq<char>
    decreases parts.len(),
{
    if parts.len() == 0 {
        Seq::<char>::empty()
    } else if parts.len() == 1 {
        parts[0]
    } else {
        join(parts.drop_last(), sep).push(sep) + parts.last()
    }
}

/// Splitting loses nothing and leaves no separator behind: there is at
/// least one piece, no piece holds the separator, and the pieces joined by
/// the separator are the text again.
pub proof fn lemma_split_undoes_join(s: Seq<char>, sep: char)
    ensures
        split(s, sep).len() >= 1,
        forall|i: int| 0 <= i < split(s, sep).len() ==> !(#[trigger] split(s, sep)[i]).contains(sep),
        join(split(s, sep), sep) == s,
    decreases s.len(),
{
    if s.len() > 0 {
        let before = split(s.drop_last(), sep);
        lemma_split_undoes_join(s.drop_last(), sep);
        let parts = split(s, sep);
        if s.last() == sep {
            assert(parts.drop_last() =~= before);
            assert(join(parts, sep) =~= s.drop_last().push(sep));
            assert(s.drop_last().push(sep) =~= s);
        } else {
            let grown = before.last().push(s.last());
            assert forall|i: int| 0 <= i < parts.len() implies !(#[trigger] parts[i]).contains(
                sep,
            ) by {
                if i < parts.len() - 1 {
                    assert(parts[i] == before[i]);
                } else {
                    if grown.contains(sep) {
                        let k = choose|k: int| 0 <= k < grown.len() && grown[k] == sep;
                        assert(before.last()[k] == sep);
                    }
                }
            }
            if parts.len() == 1 {
                assert(join(before, sep) == before[0]);
                assert(join(parts, sep) =~= s.drop_last().push(s.last()));
            } else {
                assert(parts.drop_last() =~= before.drop_last());
                assert(join(parts, sep) =~= join(before, sep).push(s.last()));
            }
            assert(s.drop_last().push(s.last()) =~= s);
        }
    } else {
        assert(split(s, sep)[0] =~= s);
    }
}

/// Whether the two texts are the same, letter for letter.
pub fn same_text(a: &str, b: &str) -> (same: bool)
    ensures
        same == (a@ == b@),
{
    a.to_owned() == b.to_owned()
}

/// Cuts `s` at every occurrence of `sep`.
pub fn split_text(s: &str, sep: char) -> (parts: Vec<String>)
    ensures
        views(parts@) == split(s@, sep),
{
    let total = s.unicode_len();
    let mut parts: Vec<String> = Vec::new();
    let mut start: usize = 0;
    let mut pos: usize = 0;
    assert(s@.take(0) =~= Seq::<char>::empty());
    assert(views(parts@).push(s@.subrange(0, 0)) =~= seq![Seq::<char>::empty()]);
    for c in it: s.chars()
        invariant
            it.seq() == s@,
            total == s@.len(),
            pos == it.index(),
            start <= pos <= total,
            split(s@.take(pos as int), sep) == views(parts@).push(
                s@.subrange(start as int, pos as int),
            ),
    {
        let ghost before = s@.take(pos as int);
        let ghost now = s@.take(pos as int + 1);
        let ghost old_parts = views(parts@);
        assert(now.drop_last() =~= before);
        assert(now.last() == c);
        if c == sep {
            let piece = s.substring_char(start, pos).to_owned();
            parts.push(piece);
            start = pos + 1;
            assert(views(parts@) =~= old_parts.push(piece@));
            assert(s@.subrange(start as int, pos as int + 1) =~= Seq::<char>::empty());
        } else {
            assert(old_parts.push(s@.subrange(start as int, pos as int)).drop_last()
                =~= old_parts);
            assert(s@.subrange(start as int, pos as int).push(c) =~= s@.subrange(
                start as int,
                pos as int + 1,
            ));
        }
        pos = pos + 1;
    }
    assert(s@.take(pos as int) =~= s@);
    let ghost old_parts = views(parts@);
    let piece = s.substring_char(start, pos).to_owned();
    parts.push(piece);
    assert(views(parts@) =~= old_parts.push(piece@));
    parts
}

} // verus!
