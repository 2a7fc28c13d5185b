//! The steps of converting one source path, as a machine from step and event
//! to next step. The caller performs each step's work and reports the event.
use vstd::prelude::*;
use crate::entry::ConvertError;
use crate::kind::SourceKind;
use crate::naming::{cbz_name, is_cbz_name, views};
use crate::path::{file_name, file_name_chars, last_index, last_index_of, source_form, source_path};
use crate::text::{chars_of, prefix_of, push_all, string_of};

verus! {

/// The directory a finished source is moved into: `old` beside the source.
pub open spec fn old_dir_of(p: Seq<char>) -> Seq<char> {
    let k = last_index_of(p, '/');
    if k < 0 {
        seq!['o', 'l', 'd']
    } else {
        p.subrange(0, k + 1) + seq!['o', 'l', 'd']
    }
}

/// Where a finished source is moved: its own name inside `old_dir_of`.
pub open spec fn old_path_of(p: Seq<char>) -> Seq<char> {
    old_dir_of(p) + seq!['/'] + file_name(p)
}

/// The directory that receives the finished source at `path`, and the path it
/// gets there.
pub fn relocation_paths(path: &str) -> (r: (String, String))
    ensures
        r.0@ == old_dir_of(path@),
        r.1@ == old_path_of(path@),
{
    let p = chars_of(path);
    let _len = p.len();
    let mut dir: Vec<char> = match last_index(&p, '/') {
        Some(k) => prefix_of(&p, k + 1),
        None => Vec::new(),
    };
    dir.push('o');
    dir.push('l');
    dir.push('d');
    assert(dir@ =~= old_dir_of(path@));
    let mut target = dir.clone();
    target.push('/');
    let name = file_name_chars(&p);
    push_all(&mut target, &name);
    assert(target@ =~= old_path_of(path@));
    (string_of(&dir), string_of(&target))
}

/// How the conversion of one source path ended.
#[derive(Debug)]
pub enum Outcome {
    /// The archive was written at the given path and the source moved aside.
    Converted(String),
    /// The archive was written at the given path, but the source could not be
    /// moved aside.
    NotRelocated(String),
    /// The source is of no supported kind; nothing was written or moved.
    NotSupported,
    /// The conversion failed; the source was left where it was.
    Failed(ConvertError),
}

/// Where the conversion of one source path stands.
#[derive(Debug)]
pub enum Step {
    /// Find whether the source is a directory, read it, and sniff its kind.
    Classify,
    /// Convert the source of the given kind and write the archive at `dest`.
    Convert { kind: SourceKind, dest: String },
    /// Move the source to `target`, creating `old_dir` where it is missing.
    Relocate { dest: String, old_dir: String, target: String },
    /// Nothing is left to do.
    Done(Outcome),
}

/// What the caller reports after performing a step.
pub enum Event {
    /// The source does not exist or cannot be read.
    Unreadable,
    /// The source's kind, whether it is a directory, and the paths already
    /// present beside it.
    Classified { kind: SourceKind, is_dir: bool, existing: Vec<String> },
    /// Whether the archive was built and written.
    Written(Result<(), ConvertError>),
    /// Whether the source was moved.
    Moved(bool),
}

/// The step that follows `step` for the source at `path` once `event` came.
/// Paths are read in their `source_form`; `existing` is in that form too.
pub fn next_step(path: &str, step: Step, event: Event) -> (r: Step)
    ensures
        step is Classify && event is Unreadable ==> r == Step::Done(Outcome::Failed(ConvertError::Unreadable)),
        event matches Event::Classified { kind, .. } ==> (step is Classify && kind == SourceKind::Unsupported
            ==> r == Step::Done(Outcome::NotSupported)),
        event matches Event::Classified { kind, is_dir, existing } ==> (step is Classify && kind
            != SourceKind::Unsupported ==> (r matches Step::Convert { kind: k, dest } && k == kind
            && is_cbz_name(source_form(path@), is_dir, views(existing@), dest@))),
        step matches Step::Convert { dest, .. } ==> (event matches Event::Written(Ok(())) ==> (r matches Step::Relocate {
            dest: d,
            old_dir,
            target,
        } && d@ == dest@ && old_dir@ == old_dir_of(source_form(path@)) && target@ == old_path_of(source_form(path@)))),
        event matches Event::Written(Err(e)) ==> (step is Convert ==> r == Step::Done(Outcome::Failed(e))),
        step matches Step::Relocate { dest, .. } ==> (event matches Event::Moved(moved) ==> (r matches Step::Done(o)
            && if moved {
            o matches Outcome::Converted(d) && d@ == dest@
        } else {
            o matches Outcome::NotRelocated(d) && d@ == dest@
        })),
        r is Relocate ==> step is Relocate || (step is Convert && event matches Event::Written(Ok(()))),
        r is Convert ==> step is Convert || (step is Classify && event is Classified),
        step is Done ==> r == step,
{
    match (step, event) {
        (Step::Classify, Event::Unreadable) => Step::Done(Outcome::Failed(ConvertError::Unreadable)),
        (Step::Classify, Event::Classified { kind, is_dir, existing }) => {
            if kind == SourceKind::Unsupported {
                Step::Done(Outcome::NotSupported)
            } else {
                let p = source_path(path);
                Step::Convert { kind, dest: cbz_name(p.as_str(), is_dir, &existing) }
            }
        },
        (Step::Convert { dest, .. }, Event::Written(Ok(()))) => {
            let p = source_path(path);
            let (old_dir, target) = relocation_paths(p.as_str());
            Step::Relocate { dest, old_dir, target }
        },
        (Step::Convert { .. }, Event::Written(Err(e))) => Step::Done(Outcome::Failed(e)),
        (Step::Relocate { dest, .. }, Event::Moved(moved)) => {
            if moved {
                Step::Done(Outcome::Converted(dest))
            } else {
                Step::Done(Outcome::NotRelocated(dest))
            }
        },
        (step, _) => step,
    }
}

} // verus!
