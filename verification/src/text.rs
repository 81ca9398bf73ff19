//! Texts and lists of texts.
use vstd::prelude::*;

verus! {

/// The texts in a list of strings.
pub open spec fn texts(strings: Seq<String>) -> Seq<Seq<char>> {
    Seq::new(strings.len(), |i: int| strings[i]@)
}

/// Whether two texts are equal.
pub fn same_text(a: &str, b: &str) -> (same: bool)
    ensures
        same == (a@ == b@),
{
    a.to_owned() == b.to_owned()
}

/// `lines`, with a line break between each two.
pub open spec fn joined_lines(lines: Seq<Seq<char>>) -> Seq<char>
    decreases lines.len(),
{
    if lines.len() == 0 {
        Seq::empty()
    } else if lines.len() == 1 {
        lines[0]
    } else {
        joined_lines(lines.drop_last()) + "\n"@ + lines.last()
    }
}

/// `lines`, with a line break between each two.
pub fn join_lines(lines: &Vec<String>) -> (text: String)
    ensures
        text@ == joined_lines(texts(lines@)),
{
    let ghost all = texts(lines@);
    let mut text = String::new();
    let mut i: usize = 0;
    while i < lines.len()
        invariant
            i <= lines@.len(),
            all == texts(lines@),
            text@ == joined_lines(all.take(i as int)),
        decreases lines.len() - i,
    {
        assert(all[i as int] == lines@[i as int]@);
        assert(all.take(i + 1).drop_last() == all.take(i as int));
        if i > 0 {
            text.append("\n");
        }
        text.append(lines[i].as_str());
        assert(text@ == joined_lines(all.take(i + 1)));
        i = i + 1;
    }
    assert(all.take(all.len() as int) == all);
    text
}

/// The texts in a list are those of its strings, one for each, in their order.
pub proof fn law_texts(strings: Seq<String>, i: int)
    ensures
        texts(strings).len() == strings.len(),
        0 <= i < strings.len() ==> texts(strings)[i] == strings[i]@,
{
}

/// Joined lines are all there, in their order, with one line break between each two and
/// none before the first or behind the last.
pub proof fn law_joined_lines(line: Seq<char>, front: Seq<Seq<char>>, back: Seq<Seq<char>>)
    ensures
        joined_lines(Seq::empty()) == Seq::<char>::empty(),
        joined_lines(seq![line]) == line,
        front.len() > 0 && back.len() > 0 ==> joined_lines(front + back) == joined_lines(front)
            + seq!['\n'] + joined_lines(back),
    decreases back.len(),
{
    reveal_strlit("\n");
    assert("\n"@ == seq!['\n']);
    assert(joined_lines(seq![line]) == line);
    if front.len() > 0 && back.len() > 0 {
        let all = front + back;
        assert(all.drop_last() == front + back.drop_last());
        assert(all.last() == back.last());
        if back.len() == 1 {
            assert(front + back.drop_last() == front);
        } else {
            law_joined_lines(line, front, back.drop_last());
            assert(joined_lines(front) + seq!['\n'] + joined_lines(back.drop_last()) + seq!['\n']
                + back.last() == joined_lines(front) + seq!['\n'] + (joined_lines(back.drop_last())
                + seq!['\n'] + back.last()));
        }
    }
}

} // verus!
