//! What the steps on the two ledgers do to the files: a replaced ledger holds
//! the new records and nothing of the old, its target is touched by the
//! rename alone, and an appended ledger keeps what it held.

use crate::common::files::{after_step, after_steps, content_of, FileStepView};
use crate::youtube::filesystem::{
    append_steps, ledger_of, lines_of, records_of, replace_steps,
};
use crate::youtube::round_trip::{is_storable, lemma_appended_ledger_reads_back};
use crate::youtube::song::SongView;
use vstd::prelude::*;

verus! {

/// A single step is taken as it is.
pub proof fn lemma_after_one_step(files: Map<Seq<char>, Seq<char>>, step: FileStepView)
    ensures
        after_steps(files, seq![step]) == after_step(files, step),
{
    let steps = seq![step];
    assert(steps.last() == step);
    assert(steps.drop_last() =~= Seq::<FileStepView>::empty());
    assert(after_steps(files, steps.drop_last()) == files);
}

/// Two steps are taken one after the other.
pub proof fn lemma_after_two_steps(
    files: Map<Seq<char>, Seq<char>>,
    first: FileStepView,
    second: FileStepView,
)
    ensures
        after_steps(files, seq![first, second]) == after_step(after_step(files, first), second),
{
    let steps = seq![first, second];
    assert(steps.last() == second);
    assert(steps.drop_last() =~= seq![first]);
    lemma_after_one_step(files, first);
}

/// After a replacement the target holds exactly the new records: nothing of
/// what it held before is left. The staging file is gone, and no other file
/// has changed.
pub proof fn lemma_replace_supersedes(
    files: Map<Seq<char>, Seq<char>>,
    records: Seq<SongView>,
    target: Seq<char>,
    staging: Seq<char>,
)
    ensures
        after_steps(files, replace_steps(records, target, staging)).contains_key(target),
        after_steps(files, replace_steps(records, target, staging))[target] == ledger_of(records),
        staging != target ==> !after_steps(
            files,
            replace_steps(records, target, staging),
        ).contains_key(staging),
        forall|other: Seq<char>|
            other != target && other != staging ==> {
                &&& after_steps(files, replace_steps(records, target, staging)).contains_key(other)
                    == files.contains_key(other)
                &&& content_of(after_steps(files, replace_steps(records, target, staging)), other)
                    == content_of(files, other)
            },
{
    lemma_after_two_steps(
        files,
        FileStepView::Write { path: staging, text: ledger_of(records) },
        FileStepView::Rename { from: staging, to: target },
    );
}

/// Until the rename, the target is as it was: writing the staging file does
/// not touch it, whatever the write leaves there, even where it fails half
/// way. This needs the staging file to be another file than the target.
pub proof fn lemma_target_untouched_before_rename(
    files: Map<Seq<char>, Seq<char>>,
    target: Seq<char>,
    staging: Seq<char>,
    left: Seq<char>,
)
    requires
        staging != target,
    ensures
        after_step(files, FileStepView::Write { path: staging, text: left }).contains_key(target)
            == files.contains_key(target),
        content_of(after_step(files, FileStepView::Write { path: staging, text: left }), target)
            == content_of(files, target),
{
}

/// Of two replacements in a row the second wins: the target holds the records
/// of the second and none of the first. A second replacement by no records
/// leaves a ledger without lines and without records.
pub proof fn lemma_second_replace_wins(
    files: Map<Seq<char>, Seq<char>>,
    first: Seq<SongView>,
    second: Seq<SongView>,
    target: Seq<char>,
    staging: Seq<char>,
)
    ensures
        content_of(
            after_steps(
                after_steps(files, replace_steps(first, target, staging)),
                replace_steps(second, target, staging),
            ),
            target,
        ) == ledger_of(second),
        second.len() == 0 ==> records_of(lines_of(ledger_of(second))) == Seq::<SongView>::empty(),
{
    lemma_replace_supersedes(
        after_steps(files, replace_steps(first, target, staging)),
        second,
        target,
        staging,
    );
}

/// After an append the ledger holds what it held before, followed by the
/// lines of the new records; a ledger that did not exist holds just these.
/// No other file has changed.
pub proof fn lemma_append_keeps_what_was_there(
    files: Map<Seq<char>, Seq<char>>,
    records: Seq<SongView>,
    target: Seq<char>,
)
    ensures
        after_steps(files, append_steps(records, target)).contains_key(target),
        content_of(after_steps(files, append_steps(records, target)), target) == content_of(
            files,
            target,
        ) + ledger_of(records),
        forall|other: Seq<char>|
            other != target ==> {
                &&& after_steps(files, append_steps(records, target)).contains_key(other)
                    == files.contains_key(other)
                &&& content_of(after_steps(files, append_steps(records, target)), other)
                    == content_of(files, other)
            },
{
    lemma_after_one_step(files, FileStepView::Append { path: target, text: ledger_of(records) });
}

/// Two appends to a ledger that did not exist leave the lines of the first
/// records followed by those of the second; read back, where the records are
/// storable, they are the first records followed by the second.
pub proof fn lemma_two_appends_to_fresh_ledger(
    files: Map<Seq<char>, Seq<char>>,
    first: Seq<SongView>,
    second: Seq<SongView>,
    target: Seq<char>,
)
    requires
        !files.contains_key(target),
    ensures
        content_of(
            after_steps(after_steps(files, append_steps(first, target)), append_steps(second, target)),
            target,
        ) == ledger_of(first) + ledger_of(second),
        (forall|i: int| 0 <= i < first.len() ==> is_storable(#[trigger] first[i])) && (forall|
            i: int,
        |
            0 <= i < second.len() ==> is_storable(#[trigger] second[i])) ==> records_of(
            lines_of(ledger_of(first) + ledger_of(second)),
        ) == first + second,
{
    lemma_append_keeps_what_was_there(files, first, target);
    lemma_append_keeps_what_was_there(
        after_steps(files, append_steps(first, target)),
        second,
        target,
    );
    assert(Seq::<char>::empty() + ledger_of(first) =~= ledger_of(first));
    if (forall|i: int| 0 <= i < first.len() ==> is_storable(#[trigger] first[i])) && (forall|
        i: int,
    |
        0 <= i < second.len() ==> is_storable(#[trigger] second[i])) {
        lemma_appended_ledger_reads_back(first, second);
    }
}

} // verus!
