//! Names of the files that hold the saved frames.

use vstd::prelude::*;
use crate::decimal::{append_decimal, decimal, decimal_value, lemma_decimal_injective, lemma_decimal_round_trip};

verus! {

/// What stands between the output directory and the frame number: `/frame`.
pub open spec fn frame_name_prefix() -> Seq<char> {
    seq!['/', 'f', 'r', 'a', 'm', 'e']
}

/// The extension of a saved frame: `.hevc`.
pub open spec fn frame_name_suffix() -> Seq<char> {
    seq!['.', 'h', 'e', 'v', 'c']
}

/// The path of the frame numbered `index` in `dir`: `<dir>/frame<index>.hevc`.
pub open spec fn frame_file_path(dir: Seq<char>, index: nat) -> Seq<char> {
    dir + frame_name_prefix() + decimal(index) + frame_name_suffix()
}

/// The path under which the frame numbered `index` is saved in `output_dir`.
pub fn frame_path(output_dir: &str, index: usize) -> (path: String)
    ensures
        path@ == output_dir@ + seq!['/', 'f', 'r', 'a', 'm', 'e'] + decimal(index as nat) + seq![
            '.',
            'h',
            'e',
            'v',
            'c',
        ],
        path@ == frame_file_path(output_dir@, index as nat),
{
    let mut path = String::from_str(output_dir);
    proof {
        reveal_strlit("/frame");
        reveal_strlit(".hevc");
    }
    path.append("/frame");
    append_decimal(&mut path, index);
    path.append(".hevc");
    assert(path@ =~= frame_file_path(output_dir@, index as nat));
    path
}

/// Two different frames never share a file: within one directory the path
/// determines the frame number.
pub proof fn lemma_frame_paths_distinct(dir: Seq<char>, i: nat, j: nat)
    ensures
        i != j ==> frame_file_path(dir, i) != frame_file_path(dir, j),
{
    if frame_file_path(dir, i) == frame_file_path(dir, j) {
        let p = frame_file_path(dir, i);
        let start: int = dir.len() as int + 6;
        assert(frame_name_prefix().len() == 6);
        assert(frame_name_suffix().len() == 5);
        assert(p.len() == dir.len() + 6 + decimal(i).len() + 5);
        assert(frame_file_path(dir, j).len() == dir.len() + 6 + decimal(j).len() + 5);
        assert(decimal(i).len() == decimal(j).len());
        assert(p.subrange(start, start + decimal(i).len()) =~= decimal(i));
        assert(frame_file_path(dir, j).subrange(start, start + decimal(j).len()) =~= decimal(j));
        lemma_decimal_injective(i, j);
    }
}

/// Every frame file lies in the output directory: its path is the
/// directory, then `/frame`, then the frame number in decimal, then `.hevc`;
/// the part between `/frame` and `.hevc` reads back as the frame number.
pub proof fn lemma_frame_file_path_shape(dir: Seq<char>, index: nat)
    ensures
        frame_file_path(dir, index) == dir + seq!['/', 'f', 'r', 'a', 'm', 'e'] + decimal(index)
            + seq!['.', 'h', 'e', 'v', 'c'],
        frame_file_path(dir, index).len() > dir.len() + 11,
        frame_file_path(dir, index).subrange(0, dir.len() as int) == dir,
        frame_file_path(dir, index)[dir.len() as int] == '/',
        decimal_value(
            frame_file_path(dir, index).subrange(
                dir.len() as int + 6,
                frame_file_path(dir, index).len() - 5,
            ),
        ) == index,
{
    lemma_decimal_round_trip(index);
    let p = frame_file_path(dir, index);
    assert(frame_name_prefix() =~= seq!['/', 'f', 'r', 'a', 'm', 'e']);
    assert(frame_name_suffix() =~= seq!['.', 'h', 'e', 'v', 'c']);
    assert(p.len() == dir.len() + 6 + decimal(index).len() + 5);
    assert(p.subrange(0, dir.len() as int) =~= dir);
    assert(p.subrange(dir.len() as int + 6, p.len() - 5) =~= decimal(index));
}

} // verus!
