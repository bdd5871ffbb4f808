//! Command lines: those of the helper programs that are launched, and those
//! that the argument generator prints.

use vstd::prelude::*;

use crate::text::{split, trim};

verus! {

/// The exit code by which an oracle says that the search is over.
pub const ORACLE_STOP: i32 = 1;

/// The word in the place of the program's name in a generated argument list.
pub open spec fn program_word() -> Seq<char> {
    "first"@
}

/// The argument list that one line of the generator's output stands for: its
/// words, behind a first word in the place of the program's name.
pub open spec fn line_args(line: Seq<char>) -> Seq<Seq<char>> {
    seq![program_word()] + crate::text::pieces(line, ' ')
}

/// The argument lists that the lines of an output stand for, once the white
/// space at its ends is cut off.
pub open spec fn output_args(stdout: Seq<char>) -> Seq<Seq<Seq<char>>> {
    crate::text::pieces(crate::text::trimmed(stdout), '\n').map_values(|line: Seq<char>| line_args(line))
}

/// The texts of a list of argument lists.
pub open spec fn arg_texts(lists: Seq<Vec<String>>) -> Seq<Seq<Seq<char>>> {
    lists.map_values(|list: Vec<String>| crate::text::texts(list@))
}

/// The words of a command: the program and its arguments.
pub fn split_command(command: &str) -> (words: Vec<String>)
    ensures
        crate::text::texts(words@) == crate::text::pieces(command@, ' '),
        words@.len() >= 1,
{
    split(command, ' ')
}

/// Reads the output of an argument generator: one argument list for each line
/// of the trimmed output.
pub fn get_args(stdout: &str) -> (lists: Vec<Vec<String>>)
    ensures
        arg_texts(lists@) == output_args(stdout@),
        lists@.len() >= 1,
        forall|i: int|
            0 <= i < lists@.len() ==> (#[trigger] lists@[i])@.len() >= 2 && lists@[i]@[0]@
                == program_word(),
{
    let inner: &str = trim(stdout);
    let lines: Vec<String> = split(inner, '\n');
    let mut lists: Vec<Vec<String>> = Vec::new();
    let mut i: usize = 0;
    while i < lines.len()
        invariant
            i <= lines@.len(),
            lists@.len() == i,
            crate::text::texts(lines@) == crate::text::pieces(inner@, '\n'),
            forall|k: int|
                #![trigger lists@[k]]
                0 <= k < i ==> crate::text::texts(lists@[k]@) == line_args(lines@[k]@)
                    && lists@[k]@.len() >= 2 && lists@[k]@[0]@ == program_word(),
        decreases lines@.len() - i,
    {
        let mut words: Vec<String> = split(lines[i].as_str(), ' ');
        let ghost tail = words@;
        words.insert(0, "first".to_owned());
        assert(words@[0]@ == program_word());
        assert(crate::text::texts(words@) =~= seq![program_word()] + crate::text::texts(tail));
        lists.push(words);
        i = i + 1;
    }
    proof {
        assert forall|k: int| 0 <= k < lists@.len() implies #[trigger] arg_texts(lists@)[k]
            == output_args(stdout@)[k] by {
            assert(crate::text::texts(lines@)[k] == lines@[k]@);
            assert(crate::text::texts(lists@[k]@) == line_args(lines@[k]@));
        }
        assert(arg_texts(lists@) =~= output_args(stdout@));
    }
    lists
}

/// The command line that launches the oracle on a WebAssembly file: the words
/// of the oracle's command, then the file.
pub fn oracle_command(oracle: &str, wasm_file: &str) -> (words: Vec<String>)
    ensures
        crate::text::texts(words@) == crate::text::pieces(oracle@, ' ').push(wasm_file@),
        words@.len() >= 2,
{
    let mut words: Vec<String> = split_command(oracle);
    let ghost before = words@;
    words.push(wasm_file.to_owned());
    assert(crate::text::texts(words@) =~= crate::text::texts(before).push(wasm_file@));
    words
}

/// Whether the oracle's exit code says that the search is over.
pub fn oracle_stops(code: i32) -> (stop: bool)
    ensures
        stop == (code == 1),
{
    code == ORACLE_STOP
}

/// The words of every argument list, joined by spaces, are the generator's
/// line behind the word for the program's name: no argument is lost or cut.
pub proof fn law_line_args_keep_the_line(line: Seq<char>)
    ensures
        line_args(line).len() >= 2,
        crate::text::joined(line_args(line).skip(1), ' ') == line,
{
    crate::text::law_split_then_join(line, ' ');
    assert(line_args(line).skip(1) =~= crate::text::pieces(line, ' '));
}

/// The texts of argument lists are those of their strings, list by list.
pub proof fn law_arg_texts_are_list_by_list(lists: Seq<Vec<String>>)
    ensures
        arg_texts(lists).len() == lists.len(),
        forall|i: int, j: int|
            0 <= i < lists.len() && 0 <= j < lists[i]@.len() ==> arg_texts(lists)[i].len()
                == lists[i]@.len() && #[trigger] arg_texts(lists)[i][j] == lists[i]@[j]@,
{
}

/// The argument lists that an output stands for cover it line by line: each one
/// begins with the word for the program's name, the words after it, joined by
/// spaces, are a line, and the lines put together are the output without the
/// white space at its ends.
pub proof fn law_output_args_cover_the_output(stdout: Seq<char>) -> (lines: Seq<Seq<char>>)
    ensures
        output_args(stdout).len() == lines.len() >= 1,
        crate::text::joined(lines, '\n') == crate::text::trimmed(stdout),
        forall|i: int| 0 <= i < lines.len() ==> !(#[trigger] lines[i]).contains('\n'),
        forall|i: int|
            0 <= i < lines.len() ==> {
                let list = #[trigger] output_args(stdout)[i];
                &&& list.len() >= 2
                &&& list[0] == "first"@
                &&& crate::text::joined(list.skip(1), ' ') == lines[i]
                &&& forall|j: int| 1 <= j < list.len() ==> !(#[trigger] list[j]).contains(' ')
            },
{
    let lines = crate::text::pieces(crate::text::trimmed(stdout), '\n');
    crate::text::law_split_then_join(crate::text::trimmed(stdout), '\n');
    crate::text::law_pieces_hold_no_separator(crate::text::trimmed(stdout), '\n');
    assert forall|i: int| 0 <= i < lines.len() implies {
        let list = #[trigger] output_args(stdout)[i];
        &&& list.len() >= 2
        &&& list[0] == "first"@
        &&& crate::text::joined(list.skip(1), ' ') == lines[i]
        &&& forall|j: int| 1 <= j < list.len() ==> !(#[trigger] list[j]).contains(' ')
    } by {
        let list = output_args(stdout)[i];
        assert(list == line_args(lines[i]));
        law_line_args_keep_the_line(lines[i]);
        crate::text::law_pieces_hold_no_separator(lines[i], ' ');
        assert forall|j: int| 1 <= j < list.len() implies !(#[trigger] list[j]).contains(' ') by {
            assert(list[j] == crate::text::pieces(lines[i], ' ')[j - 1]);
        }
    }
    lines
}

} // verus!
