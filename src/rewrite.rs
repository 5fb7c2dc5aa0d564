//! The backup-then-overwrite protocol, and a model of its effect on the
//! file system.
use vstd::prelude::*;

use crate::detect::DecodeStatus;
use crate::errors::Fault;
use crate::fix::{fix_text, is_mapped, lemma_fix_idempotent, lemma_fix_unmapped};
use crate::paths::{backup_path_of, extension_of};
use crate::pipeline::{decision, Change, Plan};

verus! {

/// One step on the file system.
#[derive(Debug)]
pub enum FsAction {
    /// Copy the bytes of `from` to `to`, replacing what `to` held.
    Copy { from: String, to: String },
    /// Replace the content of `path` with `text`, encoded as UTF-8. The line
    /// endings are written as the text holds them: a rewrite changes the six
    /// letters of the table and nothing else, so that a file keeps whatever
    /// single convention it already had.
    Write { path: String, text: String },
    /// Remove the file at `path`.
    Remove { path: String },
}

/// An `FsAction` as mathematical values.
pub enum Step {
    Copy(Seq<char>, Seq<char>),
    Write(Seq<char>, Seq<char>),
    Remove(Seq<char>),
}

impl View for FsAction {
    type V = Step;

    open spec fn view(&self) -> Step {
        match self {
            FsAction::Copy { from, to } => Step::Copy(from@, to@),
            FsAction::Write { path, text } => Step::Write(path@, text@),
            FsAction::Remove { path } => Step::Remove(path@),
        }
    }
}

/// A file system: the bytes held under each path.
pub type Files = Map<Seq<char>, Seq<u8>>;

/// The effect of one step that succeeds.
pub open spec fn apply(fs: Files, s: Step) -> Files {
    match s {
        Step::Copy(from, to) => fs.insert(to, fs[from]),
        Step::Write(path, text) => fs.insert(path, vstd::utf8::encode_utf8(text)),
        Step::Remove(path) => fs.remove(path),
    }
}

/// The effect of steps taken in order, each succeeding.
pub open spec fn run(fs: Files, steps: Seq<Step>) -> Files
    decreases steps.len(),
{
    if steps.len() == 0 {
        fs
    } else {
        apply(run(fs, steps.drop_last()), steps.last())
    }
}

/// The steps that carry out a change to the file at `path`: nothing for an
/// unchanged file; else a copy to the backup, the rewrite, and the removal
/// of the backup unless backups are kept.
pub open spec fn protocol(path: Seq<char>, change: Change, keep_backups: bool) -> Seq<Step> {
    match change {
        Change::Unchanged => Seq::empty(),
        Change::Rewrite { backup, output } => if keep_backups {
            seq![Step::Copy(path, backup), Step::Write(path, output)]
        } else {
            seq![Step::Copy(path, backup), Step::Write(path, output), Step::Remove(backup)]
        },
    }
}

pub open spec fn steps_of(v: Seq<FsAction>) -> Seq<Step> {
    v.map_values(|a: FsAction| a@)
}

/// The file-system steps that carry out `plan` for the file at `path`, to be
/// taken in order and stopped at the first that fails.
pub fn rewrite_actions(path: &str, plan: &Plan, keep_backups: bool) -> (r: Vec<FsAction>)
    ensures
        steps_of(r@) == protocol(path@, plan@, keep_backups),
{
    let mut r: Vec<FsAction> = Vec::new();
    match plan {
        Plan::Unchanged => {},
        Plan::Rewrite { backup_path, output } => {
            r.push(FsAction::Copy { from: path.to_owned(), to: backup_path.clone() });
            r.push(FsAction::Write { path: path.to_owned(), text: output.clone() });
            if !keep_backups {
                r.push(FsAction::Remove { path: backup_path.clone() });
            }
        },
    }
    assert(steps_of(r@) =~= protocol(path@, plan@, keep_backups));
    r
}

proof fn lemma_backup_differs(path: Seq<char>)
    ensures
        backup_path_of(path) != path,
{
    if extension_of(path) is Some {
        assert(backup_path_of(path).len() == path.len() + 4);
    } else {
        assert(backup_path_of(path).len() == path.len() + 5);
    }
}

proof fn lemma_run_two(fs: Files, a: Step, b: Step)
    ensures
        run(fs, seq![a, b]) == apply(apply(fs, a), b),
{
    reveal_with_fuel(run, 3);
    assert(seq![a, b].drop_last() =~= seq![a]);
    assert(seq![a].drop_last() =~= Seq::<Step>::empty());
}

proof fn lemma_run_three(fs: Files, a: Step, b: Step, c: Step)
    ensures
        run(fs, seq![a, b, c]) == apply(apply(apply(fs, a), b), c),
{
    assert(seq![a, b, c].drop_last() =~= seq![a, b]);
    lemma_run_two(fs, a, b);
}

/// After a file whose text changed is rewritten with backups kept, the
/// backup holds exactly the bytes that the file held before, and the file
/// holds the new text.
pub proof fn law_backup_kept(fs: Files, path: Seq<char>, text: Seq<char>)
    requires
        fs.dom().contains(path),
        decision(path, DecodeStatus::Complete, text) is Ok,
        decision(path, DecodeStatus::Complete, text)->Ok_0 is Rewrite,
    ensures
        ({
            let after = run(fs, protocol(path, decision(path, DecodeStatus::Complete, text)->Ok_0, true));
            &&& after.dom().contains(backup_path_of(path))
            &&& after[backup_path_of(path)] == fs[path]
            &&& after[path] == vstd::utf8::encode_utf8(fix_text(text))
        }),
{
    let backup = backup_path_of(path);
    lemma_backup_differs(path);
    lemma_run_two(fs, Step::Copy(path, backup), Step::Write(path, fix_text(text)));
}

/// After a file whose text changed is rewritten without keeping backups, no
/// backup is left, and the file holds the new text.
pub proof fn law_no_backup_left(fs: Files, path: Seq<char>, text: Seq<char>)
    requires
        fs.dom().contains(path),
        decision(path, DecodeStatus::Complete, text) is Ok,
        decision(path, DecodeStatus::Complete, text)->Ok_0 is Rewrite,
    ensures
        ({
            let after = run(fs, protocol(path, decision(path, DecodeStatus::Complete, text)->Ok_0, false));
            &&& !after.dom().contains(backup_path_of(path))
            &&& after[path] == vstd::utf8::encode_utf8(fix_text(text))
        }),
{
    let backup = backup_path_of(path);
    lemma_backup_differs(path);
    lemma_run_three(
        fs,
        Step::Copy(path, backup),
        Step::Write(path, fix_text(text)),
        Step::Remove(backup),
    );
}

/// Wherever the protocol stops, the file's old bytes survive: either the
/// file still holds them, or its backup does, or every step has been taken.
pub proof fn law_backup_before_overwrite(
    fs: Files,
    path: Seq<char>,
    change: Change,
    keep_backups: bool,
    k: int,
)
    requires
        fs.dom().contains(path),
        change is Rewrite ==> change->backup == backup_path_of(path),
        0 <= k <= protocol(path, change, keep_backups).len(),
    ensures
        ({
            let steps = protocol(path, change, keep_backups);
            let now = run(fs, steps.take(k));
            ||| now.dom().contains(path) && now[path] == fs[path]
            ||| now.dom().contains(backup_path_of(path)) && now[backup_path_of(path)] == fs[path]
            ||| k == steps.len()
        }),
{
    let steps = protocol(path, change, keep_backups);
    let backup = backup_path_of(path);
    lemma_backup_differs(path);
    if k == 0 {
        assert(steps.take(0) =~= Seq::<Step>::empty());
    } else if k == 1 {
        reveal_with_fuel(run, 2);
        assert(steps.take(1) =~= seq![Step::Copy(path, backup)]);
        assert(steps.take(1).drop_last() =~= Seq::<Step>::empty());
    } else if k == 2 {
        let output = change->output;
        assert(steps.take(2) =~= seq![Step::Copy(path, backup), Step::Write(path, output)]);
        lemma_run_two(fs, Step::Copy(path, backup), Step::Write(path, output));
    }
}

/// A file is left alone on the pass after it was rewritten: once its text
/// has been through the substitution, decoding it again to that text leads
/// to no change and no step.
pub proof fn law_second_pass_unchanged(path: Seq<char>, text: Seq<char>, keep_backups: bool)
    ensures
        decision(path, DecodeStatus::Complete, fix_text(text)) == Ok::<Change, Fault>(
            Change::Unchanged,
        ),
        protocol(path, Change::Unchanged, keep_backups).len() == 0,
{
    lemma_fix_idempotent(text);
}

/// A text that holds none of the replaced characters leads to no change and
/// no step on the file system.
pub proof fn law_unmapped_text_unchanged(path: Seq<char>, text: Seq<char>, keep_backups: bool)
    requires
        forall|i: int| 0 <= i < text.len() ==> !is_mapped(#[trigger] text[i]),
    ensures
        decision(path, DecodeStatus::Complete, text) == Ok::<Change, Fault>(Change::Unchanged),
        protocol(path, Change::Unchanged, keep_backups).len() == 0,
{
    lemma_fix_unmapped(text);
}

/// A decode that meets malformed input ends in that error, and no step is
/// taken on the file system.
pub proof fn law_malformed_rejected(path: Seq<char>, text: Seq<char>)
    ensures
        decision(path, DecodeStatus::Malformed, text) == Err::<Change, Fault>(
            Fault::MalformedInput(path),
        ),
{
}

} // verus!
