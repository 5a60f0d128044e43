//! The block locator: cuts a file into request blocks at separator lines and
//! picks the block that holds a given line.

use vstd::prelude::*;
use crate::error::RunError;
use crate::text::{
    chars_of, join_lines, join_range, lemma_join_concat, lemma_join_first,
    lemma_join_lines_of_plain, lines, lines_of, plain_lines, text_of, trim, trim_chars, views,
};

verus! {

/// The text of a separator line.
pub open spec fn separator() -> Seq<char> {
    seq!['#', '#', '#']
}

/// Whether `line` separates two blocks: apart from whitespace around it, it
/// is exactly `###`.
pub open spec fn is_separator(line: Seq<char>) -> bool {
    trim(line) == separator()
}

/// The first line of the block that holds line `k`: the nearest index at or
/// before `k` that is the first line of the file or follows a separator.
pub open spec fn block_start(ls: Seq<Seq<char>>, k: int) -> int
    decreases k,
{
    if k <= 0 || is_separator(ls[k - 1]) {
        k
    } else {
        block_start(ls, k - 1)
    }
}

/// The end of the block that holds line `k`: the nearest index at or after
/// `k` that is a separator or the end of the file.
pub open spec fn block_end(ls: Seq<Seq<char>>, k: int) -> int
    decreases ls.len() - k,
{
    if k >= ls.len() || is_separator(ls[k]) {
        k
    } else {
        block_end(ls, k + 1)
    }
}

/// Whether the lines `a..b` form a block: a run of at least one line, none of
/// them a separator, that cannot be extended on either side.
pub open spec fn is_block(ls: Seq<Seq<char>>, a: int, b: int) -> bool {
    &&& 0 <= a < b <= ls.len()
    &&& forall|i: int| a <= i < b ==> !is_separator(#[trigger] ls[i])
    &&& (a == 0 || is_separator(ls[a - 1]))
    &&& (b == ls.len() || is_separator(ls[b]))
}

/// The blocks that begin at line `from` or later, in file order, each as the
/// pair of its first line and its end. Line numbers here count from 0.
pub open spec fn blocks_from(ls: Seq<Seq<char>>, from: int) -> Seq<(int, int)>
    decreases ls.len() - from,
    via blocks_from_decreases
{
    if from < 0 || from >= ls.len() {
        Seq::empty()
    } else if is_separator(ls[from]) {
        blocks_from(ls, from + 1)
    } else {
        seq![(from, block_end(ls, from))] + blocks_from(ls, block_end(ls, from))
    }
}

#[via_fn]
proof fn blocks_from_decreases(ls: Seq<Seq<char>>, from: int) {
    if 0 <= from < ls.len() && !is_separator(ls[from]) {
        lemma_block_end(ls, from);
    }
}

/// All blocks of a file, in file order.
pub open spec fn blocks(ls: Seq<Seq<char>>) -> Seq<(int, int)> {
    blocks_from(ls, 0)
}

/// Whether line number `target`, counted from 1, lies in some block: it is a
/// line of the file and no separator.
pub open spec fn in_some_block(ls: Seq<Seq<char>>, target: int) -> bool {
    1 <= target <= ls.len() && !is_separator(ls[target - 1])
}

/// The text of the block that holds line number `target`, counted from 1, or
/// `None` where no block holds it.
pub open spec fn located(text: Seq<char>, target: int) -> Option<Seq<char>> {
    let ls = lines(text);
    if in_some_block(ls, target) {
        Some(block_text(ls, (block_start(ls, target - 1), block_end(ls, target - 1))))
    } else {
        None
    }
}

/// Executable bounds as mathematical ones.
pub open spec fn spans(bs: Seq<(usize, usize)>) -> Seq<(int, int)> {
    bs.map_values(|b: (usize, usize)| (b.0 as int, b.1 as int))
}

/// `block_end` stops at the first separator at or after `k`, or at the end.
pub proof fn lemma_block_end(ls: Seq<Seq<char>>, k: int)
    requires
        0 <= k <= ls.len(),
    ensures
        k <= block_end(ls, k) <= ls.len(),
        forall|i: int| k <= i < block_end(ls, k) ==> !is_separator(#[trigger] ls[i]),
        block_end(ls, k) == ls.len() || is_separator(ls[block_end(ls, k)]),
        k < ls.len() && !is_separator(ls[k]) ==> k < block_end(ls, k),
    decreases ls.len() - k,
{
    if k < ls.len() && !is_separator(ls[k]) {
        lemma_block_end(ls, k + 1);
    }
}

/// Within a block, `block_start` and `block_end` give the block's bounds.
pub proof fn lemma_block_bounds(ls: Seq<Seq<char>>, a: int, b: int, k: int)
    requires
        is_block(ls, a, b),
        a <= k < b,
    ensures
        block_start(ls, k) == a,
        block_end(ls, k) == b,
{
    lemma_start_in_run(ls, a, k);
    lemma_end_in_run(ls, k, b);
}

/// From `k` back to `a` there is no separator, and `a` begins a block.
proof fn lemma_start_in_run(ls: Seq<Seq<char>>, a: int, k: int)
    requires
        0 <= a <= k <= ls.len(),
        forall|i: int| a <= i < k ==> !is_separator(#[trigger] ls[i]),
        a == 0 || is_separator(ls[a - 1]),
    ensures
        block_start(ls, k) == a,
    decreases k - a,
{
    if k > a {
        assert(!is_separator(ls[k - 1]));
        lemma_start_in_run(ls, a, k - 1);
    }
}

/// From `k` on to `b` there is no separator, and `b` ends a block.
proof fn lemma_end_in_run(ls: Seq<Seq<char>>, k: int, b: int)
    requires
        0 <= k <= b <= ls.len(),
        forall|i: int| k <= i < b ==> !is_separator(#[trigger] ls[i]),
        b == ls.len() || is_separator(ls[b]),
    ensures
        block_end(ls, k) == b,
    decreases b - k,
{
    if k < b {
        assert(!is_separator(ls[k]));
        lemma_end_in_run(ls, k + 1, b);
    }
}

/// Every pair that `blocks_from` lists is a block, given that `from` is where
/// a block may begin.
pub proof fn lemma_blocks_sound(ls: Seq<Seq<char>>, from: int, j: int)
    requires
        0 <= from <= ls.len(),
        from == 0 || from == ls.len() || is_separator(ls[from - 1]) || is_separator(ls[from]),
        0 <= j < blocks_from(ls, from).len(),
    ensures
        is_block(ls, blocks_from(ls, from)[j].0, blocks_from(ls, from)[j].1),
        from <= blocks_from(ls, from)[j].0,
    decreases ls.len() - from,
{
    if from >= ls.len() {
    } else if is_separator(ls[from]) {
        lemma_blocks_sound(ls, from + 1, j);
    } else {
        let e = block_end(ls, from);
        lemma_block_end(ls, from);
        if j == 0 {
        } else {
            let rest = blocks_from(ls, e);
            assert(blocks_from(ls, from)[j] == rest[j - 1]);
            lemma_blocks_sound(ls, e, j - 1);
        }
    }
}

/// Every line that is no separator lies in one of the listed blocks.
pub proof fn lemma_blocks_complete(ls: Seq<Seq<char>>, from: int, k: int) -> (j: int)
    requires
        0 <= from <= k < ls.len(),
        !is_separator(ls[k]),
    ensures
        0 <= j < blocks_from(ls, from).len(),
        blocks_from(ls, from)[j].0 <= k < blocks_from(ls, from)[j].1,
    decreases ls.len() - from,
{
    if is_separator(ls[from]) {
        lemma_blocks_complete(ls, from + 1, k)
    } else {
        let e = block_end(ls, from);
        lemma_block_end(ls, from);
        if k < e {
            0
        } else {
            let j = lemma_blocks_complete(ls, e, k);
            assert(blocks_from(ls, from)[j + 1] == blocks_from(ls, e)[j]);
            j + 1
        }
    }
}

/// The lines of the blocks `bs`, block after block, with one separator line
/// between each two neighbours.
pub open spec fn rejoined(ls: Seq<Seq<char>>, bs: Seq<(int, int)>) -> Seq<Seq<char>>
    decreases bs.len(),
{
    if bs.len() == 0 {
        Seq::empty()
    } else if bs.len() == 1 {
        ls.subrange(bs[0].0, bs[0].1)
    } else {
        ls.subrange(bs[0].0, bs[0].1) + seq![separator()] + rejoined(ls, bs.drop_first())
    }
}

/// Whether every separator among `ls` is well formed: it is written as `###`
/// with nothing around it, and it stands between two lines that are no
/// separators, so that no block around it is empty.
pub open spec fn well_separated(ls: Seq<Seq<char>>) -> bool {
    forall|i: int|
        0 <= i < ls.len() && is_separator(#[trigger] ls[i]) ==> {
            &&& ls[i] == separator()
            &&& 0 < i < ls.len() - 1
            &&& !is_separator(ls[i - 1])
            &&& !is_separator(ls[i + 1])
        }
}

/// From a line that is no separator on, the blocks with the separators put
/// back between them are the lines themselves.
proof fn lemma_rejoined_from(ls: Seq<Seq<char>>, from: int)
    requires
        well_separated(ls),
        0 <= from < ls.len(),
        !is_separator(ls[from]),
    ensures
        blocks_from(ls, from).len() > 0,
        rejoined(ls, blocks_from(ls, from)) == ls.skip(from),
    decreases ls.len() - from,
{
    let e = block_end(ls, from);
    lemma_block_end(ls, from);
    let bs = blocks_from(ls, from);
    if e == ls.len() {
        assert(blocks_from(ls, e) =~= Seq::<(int, int)>::empty());
        assert(bs =~= seq![(from, e)]);
        assert(ls.subrange(from, e) =~= ls.skip(from));
    } else {
        assert(is_separator(ls[e]));
        assert(blocks_from(ls, e) == blocks_from(ls, e + 1));
        lemma_rejoined_from(ls, e + 1);
        let rest = blocks_from(ls, e + 1);
        assert(bs =~= seq![(from, e)] + rest);
        assert(bs.drop_first() =~= rest);
        assert(ls.subrange(from, e) + seq![separator()] + ls.skip(e + 1) =~= ls.skip(from));
    }
}

/// Where every separator is well formed, the blocks with the separators put
/// back between them are the lines of the file.
pub proof fn lemma_blocks_rejoin(ls: Seq<Seq<char>>)
    requires
        well_separated(ls),
    ensures
        rejoined(ls, blocks(ls)) == ls,
{
    if ls.len() > 0 {
        if is_separator(ls[0]) {
            assert(false);
        }
        lemma_rejoined_from(ls, 0);
        assert(ls.skip(0) =~= ls);
    } else {
        assert(rejoined(ls, blocks(ls)) =~= ls);
    }
}

/// For a text with bare line feeds whose separators are all well formed, the
/// blocks that the locator finds, written out with a separator line between
/// each two, are the text itself.
pub proof fn lemma_blocks_rejoin_text(text: Seq<char>)
    requires
        plain_lines(text),
        well_separated(lines(text)),
    ensures
        join_lines(rejoined(lines(text), blocks(lines(text)))) == text,
{
    lemma_blocks_rejoin(lines(text));
    lemma_join_lines_of_plain(text);
}

/// The text of the block with the bounds `b`: its lines, joined.
pub open spec fn block_text(ls: Seq<Seq<char>>, b: (int, int)) -> Seq<char> {
    join_lines(ls.subrange(b.0, b.1))
}

/// The texts of the blocks `bs`, one after another, with a separator line
/// between each two neighbours.
pub open spec fn glued(ls: Seq<Seq<char>>, bs: Seq<(int, int)>) -> Seq<char>
    decreases bs.len(),
{
    if bs.len() == 0 {
        Seq::empty()
    } else if bs.len() == 1 {
        block_text(ls, bs[0])
    } else {
        block_text(ls, bs[0]) + seq!['\n'] + separator() + seq!['\n'] + glued(
            ls,
            bs.drop_first(),
        )
    }
}

/// Gluing the texts of blocks, none of them empty, gives what joining their
/// lines and the separator lines between them gives.
proof fn lemma_glued_is_joined(ls: Seq<Seq<char>>, bs: Seq<(int, int)>)
    requires
        forall|j: int| 0 <= j < bs.len() ==> 0 <= (#[trigger] bs[j]).0 < bs[j].1 <= ls.len(),
    ensures
        glued(ls, bs) == join_lines(rejoined(ls, bs)),
        bs.len() > 0 ==> rejoined(ls, bs).len() > 0,
    decreases bs.len(),
{
    if bs.len() > 1 {
        let rest = bs.drop_first();
        assert forall|j: int| 0 <= j < rest.len() implies 0 <= (#[trigger] rest[j]).0 < rest[j].1
            <= ls.len() by {
            assert(rest[j] == bs[j + 1]);
        }
        lemma_glued_is_joined(ls, rest);
        let first = ls.subrange(bs[0].0, bs[0].1);
        let tail = seq![separator()] + rejoined(ls, rest);
        assert(rejoined(ls, bs) =~= first + tail);
        lemma_join_concat(first, tail);
        lemma_join_first(separator(), rejoined(ls, rest));
        assert(glued(ls, bs) =~= join_lines(first) + seq!['\n'] + join_lines(tail));
    } else if bs.len() == 1 {
        assert(0 <= bs[0].0 < bs[0].1 <= ls.len());
    }
}

/// For a text with bare line feeds whose separators are all well formed, the
/// texts of the blocks that the locator finds, glued together with a
/// separator line between each two, are the text itself.
pub proof fn lemma_block_texts_glue_to_text(text: Seq<char>)
    requires
        plain_lines(text),
        well_separated(lines(text)),
    ensures
        glued(lines(text), blocks(lines(text))) == text,
{
    let ls = lines(text);
    assert forall|j: int| 0 <= j < blocks(ls).len() implies 0 <= (#[trigger] blocks(ls)[j]).0
        < blocks(ls)[j].1 <= ls.len() by {
        lemma_blocks_sound(ls, 0, j);
    }
    lemma_glued_is_joined(ls, blocks(ls));
    lemma_blocks_rejoin_text(text);
}

/// A line that lies within the bounds of a listed block is located in that
/// block: the first line of a block as much as its last.
pub proof fn lemma_member_is_located(text: Seq<char>, j: int, target: int)
    requires
        0 <= j < blocks(lines(text)).len(),
        blocks(lines(text))[j].0 < target <= blocks(lines(text))[j].1,
    ensures
        located(text, target) == Some(block_text(lines(text), blocks(lines(text))[j])),
{
    let ls = lines(text);
    lemma_blocks_sound(ls, 0, j);
    lemma_block_bounds(ls, blocks(ls)[j].0, blocks(ls)[j].1, target - 1);
}

/// A separator line belongs to no block: not to the one that it closes, and
/// not to the one that it opens.
pub proof fn lemma_separator_in_no_block(text: Seq<char>, target: int)
    requires
        1 <= target <= lines(text).len(),
        is_separator(lines(text)[target - 1]),
    ensures
        located(text, target) is None,
        forall|j: int|
            0 <= j < blocks(lines(text)).len() ==> !((#[trigger] blocks(lines(text))[j]).0 < target
                <= blocks(lines(text))[j].1),
{
    let ls = lines(text);
    assert forall|j: int| 0 <= j < blocks(ls).len() implies !((#[trigger] blocks(ls)[j]).0 < target
        <= blocks(ls)[j].1) by {
        lemma_blocks_sound(ls, 0, j);
        if blocks(ls)[j].0 < target <= blocks(ls)[j].1 {
            assert(!is_separator(ls[target - 1]));
        }
    }
}

/// A line that is no separator lies in exactly the block that the locator
/// gives for it, and that block is listed.
pub proof fn lemma_located_is_listed(text: Seq<char>, target: int) -> (j: int)
    requires
        in_some_block(lines(text), target),
    ensures
        0 <= j < blocks(lines(text)).len(),
        blocks(lines(text))[j] == (
            block_start(lines(text), target - 1),
            block_end(lines(text), target - 1),
        ),
        blocks(lines(text))[j].0 < target <= blocks(lines(text))[j].1,
{
    let ls = lines(text);
    let j = lemma_blocks_complete(ls, 0, target - 1);
    lemma_blocks_sound(ls, 0, j);
    lemma_block_bounds(ls, blocks(ls)[j].0, blocks(ls)[j].1, target - 1);
    j
}

/// Whether `line` separates two blocks.
pub fn is_separator_line(line: &Vec<char>) -> (b: bool)
    ensures
        b == is_separator(line@),
{
    let t = trim_chars(line);
    let b = t.len() == 3 && t[0] == '#' && t[1] == '#' && t[2] == '#';
    proof {
        if b {
            assert(t@ =~= separator());
        }
    }
    b
}

/// The bounds of all blocks among the lines `ls`, in file order.
pub fn blocks_of(ls: &Vec<Vec<char>>) -> (bs: Vec<(usize, usize)>)
    ensures
        spans(bs@) == blocks(views(ls@)),
{
    let ghost all = views(ls@);
    let n = ls.len();
    let mut bs: Vec<(usize, usize)> = Vec::new();
    let mut block_start: usize = 0;
    let mut i: usize = 0;
    assert(spans(bs@) =~= Seq::<(int, int)>::empty());
    while i < n
        invariant
            block_start <= i <= n == ls.len(),
            all == views(ls@),
            forall|k: int| block_start <= k < i ==> !is_separator(#[trigger] all[k]),
            spans(bs@) + blocks_from(all, block_start as int) == blocks(all),
        decreases n - i,
    {
        if is_separator_line(&ls[i]) {
            assert(is_separator(all[i as int]));
            let ghost before = spans(bs@);
            proof {
                lemma_end_in_run(all, block_start as int, i as int);
            }
            if i > block_start {
                bs.push((block_start, i));
                proof {
                    assert(spans(bs@) =~= before + seq![(block_start as int, i as int)]);
                    assert(blocks_from(all, block_start as int) =~= seq![
                        (block_start as int, i as int),
                    ] + blocks_from(all, i as int));
                    assert(spans(bs@) + blocks_from(all, i as int) =~= before + blocks_from(
                        all,
                        block_start as int,
                    ));
                }
            }
            assert(blocks_from(all, i as int) == blocks_from(all, i + 1));
            block_start = i + 1;
        }
        i += 1;
    }
    let ghost before = spans(bs@);
    if block_start < n {
        proof {
            lemma_end_in_run(all, block_start as int, n as int);
        }
        bs.push((block_start, n));
        proof {
            assert(spans(bs@) =~= before + seq![(block_start as int, n as int)]);
            assert(blocks_from(all, n as int) =~= Seq::<(int, int)>::empty());
            assert(blocks_from(all, block_start as int) =~= seq![(block_start as int, n as int)]);
        }
    } else {
        assert(blocks_from(all, block_start as int) =~= Seq::<(int, int)>::empty());
        assert(spans(bs@) =~= before + Seq::<(int, int)>::empty());
    }
    assert(spans(bs@) =~= blocks(all));
    bs
}

/// The bounds of all request blocks of `content`, in file order: for each
/// block the index of its first line and the index behind its last, both
/// counted from 0.
pub fn request_blocks(content: &str) -> (bs: Vec<(usize, usize)>)
    ensures
        spans(bs@) == blocks(lines(content@)),
{
    let chars = chars_of(content);
    let ls = lines_of(&chars);
    blocks_of(&ls)
}

/// The text of the request block that holds line `target_line` of `content`,
/// lines counted from 1. A separator line belongs to no block, and neither
/// does a line beyond the end of the file.
pub fn find_request_block(content: &str, target_line: usize) -> (r: Result<String, RunError>)
    ensures
        match r {
            Ok(block) => located(content@, target_line as int) == Some(block@),
            Err(e) => located(content@, target_line as int) is None && e
                == RunError::NoRequestBlock(target_line),
        },
{
    let chars = chars_of(content);
    let ls = lines_of(&chars);
    let bs = blocks_of(&ls);
    let ghost all = views(ls@);
    let mut j: usize = 0;
    while j < bs.len()
        invariant
            j <= bs.len(),
            all == views(ls@),
            all == lines(content@),
            spans(bs@) == blocks(all),
            forall|m: int|
                0 <= m < j ==> !((#[trigger] bs@[m]).0 < target_line <= bs@[m].1),
        decreases bs.len() - j,
    {
        let (start, end) = bs[j];
        proof {
            assert(spans(bs@)[j as int] == (start as int, end as int));
            lemma_blocks_sound(all, 0, j as int);
        }
        if target_line > start && target_line <= end {
            proof {
                lemma_block_bounds(all, start as int, end as int, target_line - 1);
            }
            let block = join_range(&ls, start, end);
            return Ok(text_of(&block));
        }
        j += 1;
    }
    proof {
        if in_some_block(all, target_line as int) {
            let m = lemma_blocks_complete(all, 0, target_line - 1);
            assert(spans(bs@)[m] == (bs@[m].0 as int, bs@[m].1 as int));
        }
    }
    Err(RunError::NoRequestBlock(target_line))
}

} // verus!
