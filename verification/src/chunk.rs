//! A range of the lines of a file, as one text.

use vstd::prelude::*;
use vstd::string::StringExecFns;

verus! {

/// What was read at each line: the line's characters, or nothing where the
/// line could not be read.
pub open spec fn readings_of(lines: Seq<Option<String>>) -> Seq<Option<Seq<char>>> {
    Seq::new(
        lines.len(),
        |i: int|
            match lines[i] {
                Some(text) => Some(text@),
                None => None,
            },
    )
}

/// The lines of `lines` that could be read and whose number, counted from 1,
/// is at least `start_line` and at most `end_line`.
pub open spec fn chunk_lines(lines: Seq<Option<Seq<char>>>, start_line: usize, end_line: usize) -> Seq<
    Seq<char>,
>
    decreases lines.len(),
{
    if lines.len() == 0 {
        Seq::empty()
    } else {
        let before = chunk_lines(lines.drop_last(), start_line, end_line);
        match lines.last() {
            Some(text) => if start_line <= lines.len() <= end_line {
                before.push(text)
            } else {
                before
            },
            None => before,
        }
    }
}

/// `lines` with a line feed between each two of them.
pub open spec fn joined(lines: Seq<Seq<char>>) -> Seq<char>
    decreases lines.len(),
{
    if lines.len() == 0 {
        Seq::empty()
    } else if lines.len() == 1 {
        lines[0]
    } else {
        joined(lines.drop_last()) + seq!['\n'] + lines.last()
    }
}

/// The lines numbered `start_line` to `end_line`, both included and counted
/// from 1, joined by line feeds. A line that could not be read keeps its
/// number and is left out. Where no line has such a number the text is empty.
pub fn select_chunk(lines: &Vec<Option<String>>, start_line: usize, end_line: usize) -> (chunk:
    String)
    ensures
        chunk@ == joined(chunk_lines(readings_of(lines@), start_line, end_line)),
{
    let ghost all = readings_of(lines@);
    let mut chunk = String::new();
    let mut any = false;
    let mut i: usize = 0;
    while i < lines.len()
        invariant
            i <= lines.len(),
            all == readings_of(lines@),
            chunk@ == joined(chunk_lines(all.take(i as int), start_line, end_line)),
            any == (chunk_lines(all.take(i as int), start_line, end_line).len() > 0),
        decreases lines.len() - i,
    {
        let ghost before = chunk_lines(all.take(i as int), start_line, end_line);
        proof {
            assert(all.take(i + 1).drop_last() =~= all.take(i as int));
            assert(all.take(i + 1).last() == all[i as int]);
        }
        if start_line <= i + 1 && i + 1 <= end_line {
            match &lines[i] {
                Some(text) => {
                    if any {
                        proof {
                            reveal_strlit("\n");
                            assert("\n"@ =~= seq!['\n']);
                        }
                        chunk.append("\n");
                    }
                    chunk.append(text.as_str());
                    proof {
                        assert(before.push(text@).drop_last() =~= before);
                        assert(Seq::<char>::empty() + text@ =~= text@);
                    }
                    any = true;
                },
                None => {},
            }
        }
        i += 1;
    }
    proof {
        assert(all.take(i as int) =~= all);
    }
    chunk
}

} // verus!
