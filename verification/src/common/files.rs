//! Steps on files, described as plain text, and what they do to the files.
//!
//! The library decides which steps are taken; whoever drives it performs
//! them in order and stops at the first that fails.

use vstd::prelude::*;

verus! {

/// One step on the files.
#[derive(Debug)]
pub enum FileStep {
    /// Make the file at `path` hold `text` and nothing else, creating it where
    /// it does not exist.
    Write { path: String, text: String },
    /// Add `text` at the end of the file at `path`, creating it where it does
    /// not exist.
    Append { path: String, text: String },
    /// Rename the file at `from` to `to`, in place of what was there.
    Rename { from: String, to: String },
}

/// The mathematical value of a [`FileStep`].
pub enum FileStepView {
    Write { path: Seq<char>, text: Seq<char> },
    Append { path: Seq<char>, text: Seq<char> },
    Rename { from: Seq<char>, to: Seq<char> },
}

impl View for FileStep {
    type V = FileStepView;

    open spec fn view(&self) -> FileStepView {
        match self {
            FileStep::Write { path, text } => FileStepView::Write { path: path@, text: text@ },
            FileStep::Append { path, text } => FileStepView::Append { path: path@, text: text@ },
            FileStep::Rename { from, to } => FileStepView::Rename { from: from@, to: to@ },
        }
    }
}

/// The values of a sequence of steps, in order.
pub open spec fn step_views(steps: Seq<FileStep>) -> Seq<FileStepView> {
    steps.map_values(|step: FileStep| step@)
}

/// What the file at `path` holds; nothing where there is no such file.
pub open spec fn content_of(files: Map<Seq<char>, Seq<char>>, path: Seq<char>) -> Seq<char> {
    if files.contains_key(path) {
        files[path]
    } else {
        Seq::empty()
    }
}

/// The files after a step that succeeded. The files are modelled as a map
/// from paths to texts. Renaming a file that does not exist changes nothing.
pub open spec fn after_step(files: Map<Seq<char>, Seq<char>>, step: FileStepView) -> Map<
    Seq<char>,
    Seq<char>,
> {
    match step {
        FileStepView::Write { path, text } => files.insert(path, text),
        FileStepView::Append { path, text } => files.insert(path, content_of(files, path) + text),
        FileStepView::Rename { from, to } => if files.contains_key(from) {
            files.remove(from).insert(to, files[from])
        } else {
            files
        },
    }
}

/// The files after all of `steps` succeeded, one after the other.
pub open spec fn after_steps(files: Map<Seq<char>, Seq<char>>, steps: Seq<FileStepView>) -> Map<
    Seq<char>,
    Seq<char>,
>
    decreases steps.len(),
{
    if steps.len() == 0 {
        files
    } else {
        after_step(after_steps(files, steps.drop_last()), steps.last())
    }
}

} // verus!
