//! Grouping of lines into batches, so that the lines of one entry can be
//! processed piecewise and the pieces joined.

use crate::record::{faulty_lines, lemma_batches_compose, lines_output, string_views};
use vstd::prelude::*;

verus! {

/// The lines that are read but not yet handed out, after `lines` have been
/// read with batch size `size`.
pub open spec fn pending_after(lines: Seq<Seq<char>>, size: nat) -> Seq<Seq<char>>
    decreases lines.len(),
{
    if lines.len() == 0 {
        Seq::<Seq<char>>::empty()
    } else {
        let p = pending_after(lines.drop_last(), size).push(lines.last());
        if p.len() >= size {
            Seq::<Seq<char>>::empty()
        } else {
            p
        }
    }
}

/// The full batches handed out while `lines` were read, in order.
pub open spec fn full_batches(lines: Seq<Seq<char>>, size: nat) -> Seq<Seq<Seq<char>>>
    decreases lines.len(),
{
    if lines.len() == 0 {
        Seq::<Seq<Seq<char>>>::empty()
    } else {
        let p = pending_after(lines.drop_last(), size).push(lines.last());
        if p.len() >= size {
            full_batches(lines.drop_last(), size).push(p)
        } else {
            full_batches(lines.drop_last(), size)
        }
    }
}

/// All batches of `lines`: the full ones, then the trailing partial batch if
/// any line is left over.
pub open spec fn all_batches(lines: Seq<Seq<char>>, size: nat) -> Seq<Seq<Seq<char>>> {
    if pending_after(lines, size).len() > 0 {
        full_batches(lines, size).push(pending_after(lines, size))
    } else {
        full_batches(lines, size)
    }
}

/// What a sequence of batches contributes: the output of each, in order.
pub open spec fn batches_output(batches: Seq<Seq<Seq<char>>>) -> Seq<char>
    decreases batches.len(),
{
    if batches.len() == 0 {
        Seq::<char>::empty()
    } else {
        batches_output(batches.drop_last()) + lines_output(batches.last())
    }
}

/// Number of faulty lines in a sequence of batches.
pub open spec fn batches_faulty(batches: Seq<Seq<Seq<char>>>) -> nat
    decreases batches.len(),
{
    if batches.len() == 0 {
        0
    } else {
        batches_faulty(batches.drop_last()) + faulty_lines(batches.last())
    }
}

/// The views of a sequence of batches.
pub open spec fn batch_views(batches: Seq<Vec<String>>) -> Seq<Seq<Seq<char>>> {
    Seq::new(batches.len(), |i: int| string_views(batches[i]@))
}

/// Adds `line` to the pending lines and hands them out as a batch once
/// there are `size` of them.
pub fn batch_step(pending: &mut Vec<String>, line: String, size: usize) -> (full: Option<
    Vec<String>,
>)
    ensures
        full is Some ==> full->0@ == old(pending)@.push(line),
        full is Some ==> full->0@.len() >= size,
        full is Some ==> final(pending)@.len() == 0,
        full is None ==> final(pending)@ == old(pending)@.push(line),
        full is None ==> final(pending)@.len() < size,
{
    pending.push(line);
    if pending.len() >= size {
        let mut batch: Vec<String> = Vec::new();
        core::mem::swap(pending, &mut batch);
        Some(batch)
    } else {
        None
    }
}

/// Hands out the pending lines as the trailing batch, if there are any.
pub fn take_rest(pending: &mut Vec<String>) -> (rest: Option<Vec<String>>)
    ensures
        final(pending)@.len() == 0,
        match rest {
            Some(batch) => batch@ == old(pending)@ && batch@.len() > 0,
            None => old(pending)@.len() == 0,
        },
{
    if pending.len() > 0 {
        let mut batch: Vec<String> = Vec::new();
        core::mem::swap(pending, &mut batch);
        Some(batch)
    } else {
        None
    }
}

/// Groups `lines` into batches of `size` lines, the last one possibly
/// shorter. With `size` 0 every line is a batch of its own.
pub fn batches(lines: &Vec<String>, size: usize) -> (out: Vec<Vec<String>>)
    ensures
        batch_views(out@) == all_batches(string_views(lines@), size as nat),
{
    let ghost all = string_views(lines@);
    let mut out: Vec<Vec<String>> = Vec::new();
    let mut pending: Vec<String> = Vec::new();
    let n: usize = lines.len();
    let mut i: usize = 0;
    assert(batch_views(out@) =~= full_batches(all.take(0), size as nat));
    assert(string_views(pending@) =~= pending_after(all.take(0), size as nat));
    while i < n
        invariant
            i <= n,
            n == lines.len(),
            all == string_views(lines@),
            batch_views(out@) == full_batches(all.take(i as int), size as nat),
            string_views(pending@) == pending_after(all.take(i as int), size as nat),
        decreases n - i,
    {
        let line = lines[i].clone();
        let ghost before = pending@;
        let ghost done = batch_views(out@);
        proof {
            assert(all.take(i + 1).drop_last() =~= all.take(i as int));
            assert(all.take(i + 1).last() == line@);
            assert(string_views(before.push(line)) =~= string_views(before).push(line@));
        }
        match batch_step(&mut pending, line, size) {
            Some(batch) => {
                out.push(batch);
                assert(batch_views(out@) =~= done.push(string_views(before.push(line))));
                assert(string_views(pending@) =~= Seq::<Seq<char>>::empty());
            },
            None => {},
        }
        i += 1;
    }
    assert(all.take(n as int) =~= all);
    let ghost done = batch_views(out@);
    let ghost left = pending@;
    match take_rest(&mut pending) {
        Some(batch) => {
            out.push(batch);
            assert(batch_views(out@) =~= done.push(string_views(left)));
        },
        None => {},
    }
    out
}

proof fn lemma_batching_invariant(lines: Seq<Seq<char>>, size: nat)
    ensures
        batches_output(full_batches(lines, size)) + lines_output(pending_after(lines, size))
            == lines_output(lines),
        batches_faulty(full_batches(lines, size)) + faulty_lines(pending_after(lines, size))
            == faulty_lines(lines),
    decreases lines.len(),
{
    if lines.len() == 0 {
        assert(batches_output(full_batches(lines, size)) + lines_output(
            pending_after(lines, size),
        ) =~= lines_output(lines));
    } else {
        let t = lines.drop_last();
        let x = lines.last();
        lemma_batching_invariant(t, size);
        let p = pending_after(t, size).push(x);
        assert(p.drop_last() =~= pending_after(t, size));
        assert(p.last() == x);
        if p.len() >= size {
            let f = full_batches(t, size).push(p);
            assert(f.drop_last() =~= full_batches(t, size));
            assert(f.last() == p);
            assert(batches_output(f) + lines_output(Seq::<Seq<char>>::empty()) =~= lines_output(
                lines,
            ));
        } else {
            assert(batches_output(full_batches(t, size)) + lines_output(p) =~= lines_output(
                lines,
            ));
        }
    }
}

/// Batching loses and repeats nothing, whatever the batch size and however
/// many lines are left for the trailing batch: the outputs of the batches,
/// joined in order, are the output of the lines, and the faulty lines of
/// the batches add up to those of the lines.
pub proof fn lemma_batching_preserves_output(lines: Seq<Seq<char>>, size: nat)
    ensures
        batches_output(all_batches(lines, size)) == lines_output(lines),
        batches_faulty(all_batches(lines, size)) == faulty_lines(lines),
{
    lemma_batching_invariant(lines, size);
    let f = full_batches(lines, size);
    let rest = pending_after(lines, size);
    if rest.len() > 0 {
        assert(f.push(rest).drop_last() =~= f);
        assert(f.push(rest).last() == rest);
    } else {
        assert(batches_output(f) + lines_output(rest) =~= batches_output(f));
    }
}

/// Every full batch has exactly `size` lines, fewer than `size` lines are
/// left pending, and the trailing batch is the only one that may be short.
pub proof fn lemma_batch_sizes(lines: Seq<Seq<char>>, size: nat)
    requires
        size > 0,
    ensures
        pending_after(lines, size).len() < size,
        forall|i: int|
            0 <= i < full_batches(lines, size).len() ==> (#[trigger] full_batches(
                lines,
                size,
            )[i]).len() == size,
    decreases lines.len(),
{
    if lines.len() > 0 {
        let t = lines.drop_last();
        lemma_batch_sizes(t, size);
        let p = pending_after(t, size).push(lines.last());
        let f = full_batches(lines, size);
        assert forall|i: int| 0 <= i < f.len() implies (#[trigger] f[i]).len() == size by {
            if i < full_batches(t, size).len() {
                assert(f[i] == full_batches(t, size)[i]);
            } else {
                assert(f[i] == p);
            }
        }
    }
}

} // verus!
