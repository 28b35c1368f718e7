//! A run over the target files, as a machine that asks for one filesystem
//! action at a time and is told how it went.

use vstd::prelude::*;

use crate::error::AnnotateError;
use crate::outside::{ends_with_extension, extension_set, plain_name, views, with_extension};
use crate::laws::fed;
use crate::patterns::{annotated, escaped_all, Annotator};
use crate::text::records_of;

verus! {

/// The extension that names the backup of a target file.
pub const BACKUP_EXTENSION: &'static str = "orig";

/// The resolved configuration of a run.
pub struct Args {
    /// Sources of literal patterns, one pattern per line.
    pub literal_files: Vec<String>,
    /// Sources of regular-expression patterns, one pattern per line.
    pub regex_files: Vec<String>,
    /// The files to annotate, in order.
    pub input_files: Vec<String>,
    /// Whether each backup stays after its file has been rewritten.
    pub keep_orig: bool,
    /// The prefix put in front of matching lines.
    pub marker: String,
}

/// The path under which the original of `target` is kept while it is
/// rewritten: the target with its extension set to `orig`.
pub fn backup_path(target: &str) -> (r: Result<String, AnnotateError>)
    ensures
        r is Ok <==> extension_set(target@, BACKUP_EXTENSION@) is Some,
        r is Ok ==> r->Ok_0@ == extension_set(target@, BACKUP_EXTENSION@)->Some_0,
        target@.len() == 0 ==> r is Err,
        plain_name(target@) ==> r is Ok && r->Ok_0@ == target@ + BACKUP_EXTENSION@.insert(0, '.'),
        r is Ok ==> ends_with_extension(r->Ok_0@, BACKUP_EXTENSION@),
        r is Err ==> (r->Err_0 matches AnnotateError::BackupPathUnrepresentable { path }
            && path@ == target@),
{
    proof {
        reveal_strlit("orig");
    }
    match with_extension(target, BACKUP_EXTENSION) {
        Some(p) => {
            assert(target@ + seq!['.'] + BACKUP_EXTENSION@ =~= target@ + BACKUP_EXTENSION@.insert(0, '.'));
            Ok(p)
        },
        None => Err(AnnotateError::BackupPathUnrepresentable { path: target.to_owned() }),
    }
}

/// What the run waits for on the current target file.
#[derive(PartialEq, Eq, Structural, Clone, Copy, Debug)]
pub enum Stage {
    /// The rename of the target to its backup path.
    Renaming,
    /// The creation of an empty file at the target path.
    CreatingOutput,
    /// The text of the backup.
    ReadingBackup,
    /// The write of the annotated text to the target path.
    WritingOutput,
    /// The removal of the backup.
    DeletingBackup,
    /// Nothing: every target file has been annotated.
    Done,
    /// Nothing: the run stopped on an error.
    Aborted,
}

/// How the last action went.
#[derive(Debug)]
pub enum Event {
    /// It was carried out.
    Succeeded,
    /// It could not be carried out.
    Failed,
    /// The backup was read; this is its text.
    Read(String),
}

/// What the run asks for next.
#[derive(Debug)]
pub enum Action {
    /// Rename `from` to `to`; `to` must not be overwritten silently.
    Rename { from: String, to: String },
    /// Create an empty file at `path`.
    CreateOutput { path: String },
    /// Read the whole of `path` as text.
    ReadBackup { path: String },
    /// Write `content` to the file created at `path`.
    WriteOutput { path: String, content: String },
    /// Remove `path`.
    DeleteBackup { path: String },
    /// The run is complete.
    Finish,
    /// The run stops with this error.
    Abort(AnnotateError),
}

/// A run in progress: the pattern set, the target files, and where the run
/// stands on the current one.
pub struct Run {
    annotator: Annotator,
    targets: Vec<String>,
    keep_orig: bool,
    current: usize,
    backup: String,
    stage: Stage,
    initial: Ghost<Seq<Seq<char>>>,
    read: Ghost<Seq<Seq<char>>>,
}

impl Run {
    /// The pattern set.
    pub closed spec fn annotator_view(&self) -> Annotator {
        self.annotator
    }

    /// The target files, in order.
    pub closed spec fn targets_view(&self) -> Seq<Seq<char>> {
        views(self.targets@)
    }

    /// Whether backups stay after their file has been rewritten.
    pub closed spec fn keeps(&self) -> bool {
        self.keep_orig
    }

    /// The position of the current target file.
    pub closed spec fn index(&self) -> int {
        self.current as int
    }

    /// The backup path of the current target file.
    pub closed spec fn backup_view(&self) -> Seq<char> {
        self.backup@
    }

    /// What the run waits for.
    pub closed spec fn stage_view(&self) -> Stage {
        self.stage
    }

    /// The live fragments when the run was set up.
    pub closed spec fn initial_live(&self) -> Seq<Seq<char>> {
        self.initial@
    }

    /// The texts of the backups read so far, in order.
    pub closed spec fn texts_read(&self) -> Seq<Seq<char>> {
        self.read@
    }

    /// The current target file.
    pub open spec fn target(&self) -> Seq<char> {
        self.targets_view()[self.index()]
    }

    /// The run is over, complete or stopped.
    pub open spec fn finished(&self) -> bool {
        self.stage_view() == Stage::Done || self.stage_view() == Stage::Aborted
    }

    /// The pattern set is well formed and the index stays within the targets;
    /// a run that is not over points at a target file.
    pub open spec fn wf(&self) -> bool {
        &&& self.annotator_view().wf()
        &&& self.annotator_view().live() == fed(self.initial_live(), self.texts_read())
        &&& 0 <= self.index() <= self.targets_view().len()
        &&& !self.finished() ==> self.index() < self.targets_view().len()
        &&& self.stage_view() == Stage::Done ==> self.index() == self.targets_view().len()
    }

    /// The same run, with the same pattern set, targets and policy.
    pub open spec fn same_setup(&self, other: &Run) -> bool {
        &&& self.annotator_view() == other.annotator_view()
        &&& self.initial_live() == other.initial_live()
        &&& self.texts_read() == other.texts_read()
        &&& self.targets_view() == other.targets_view()
        &&& self.keeps() == other.keeps()
    }

    /// What `self` holds and what `r` asks for once the run has moved on to
    /// the target file at its index: the rename of that file to its backup
    /// path, or, past the last file, the end of the run.
    pub open spec fn opened(&self, r: Action) -> bool {
        if self.index() == self.targets_view().len() {
            r is Finish && self.stage_view() == Stage::Done
        } else {
            let backup = extension_set(self.target(), BACKUP_EXTENSION@);
            &&& backup is Some ==> (r matches Action::Rename { from, to } && from@ == self.target()
                && to@ == backup->Some_0 && to@ == self.backup_view() && ends_with_extension(
                to@,
                BACKUP_EXTENSION@,
            ) && self.stage_view() == Stage::Renaming)
            &&& backup is None ==> (r matches Action::Abort(AnnotateError::BackupPathUnrepresentable { path })
                && path@ == self.target() && self.stage_view() == Stage::Aborted)
        }
    }

    /// A run over `targets` with the pattern set `annotator`, before its first
    /// action.
    pub fn new(annotator: Annotator, targets: Vec<String>, keep_orig: bool) -> (r: Run)
        requires
            annotator.wf(),
        ensures
            r.wf(),
            r.annotator_view() == annotator,
            r.targets_view() == views(targets@),
            r.keeps() == keep_orig,
            r.index() == 0,
            r.initial_live() == annotator.live(),
            r.texts_read() == Seq::<Seq<char>>::empty(),
            targets.len() == 0 ==> r.stage_view() == Stage::Done,
            targets.len() > 0 ==> r.stage_view() == Stage::Renaming,
    {
        let stage = if targets.len() == 0 {
            Stage::Done
        } else {
            Stage::Renaming
        };
        let ghost live = annotator.live();
        Run {
            annotator,
            targets,
            keep_orig,
            current: 0,
            backup: String::new(),
            stage,
            initial: Ghost(live),
            read: Ghost(Seq::empty()),
        }
    }

    /// The first action of the run.
    pub fn start(&mut self) -> (r: Action)
        requires
            old(self).wf(),
            old(self).index() == 0,
        ensures
            final(self).wf(),
            final(self).same_setup(old(self)),
            final(self).index() == 0,
            final(self).opened(r),
    {
        self.open_current()
    }

    /// Moves on to the target file at the current index.
    fn open_current(&mut self) -> (r: Action)
        requires
            old(self).annotator_view().wf(),
            old(self).annotator_view().live() == fed(old(self).initial_live(), old(self).texts_read()),
            0 <= old(self).index() <= old(self).targets_view().len(),
        ensures
            final(self).wf(),
            final(self).same_setup(old(self)),
            final(self).index() == old(self).index(),
            final(self).opened(r),
    {
        if self.current == self.targets.len() {
            self.stage = Stage::Done;
            return Action::Finish;
        }
        match backup_path(self.targets[self.current].as_str()) {
            Ok(b) => {
                self.backup = b;
                self.stage = Stage::Renaming;
                Action::Rename { from: self.targets[self.current].clone(), to: self.backup.clone() }
            },
            Err(e) => {
                self.stage = Stage::Aborted;
                Action::Abort(e)
            },
        }
    }

    /// Takes the outcome of the last action and says what to do next. Any
    /// failure stops the run with the error of the step that failed; the
    /// backup is removed only once the rewritten file has been written.
    pub fn step(&mut self, event: Event) -> (r: Action)
        requires
            old(self).wf(),
            !old(self).finished(),
        ensures
            final(self).wf(),
            final(self).targets_view() == old(self).targets_view(),
            final(self).keeps() == old(self).keeps(),
            final(self).initial_live() == old(self).initial_live(),
            old(self).stage_view() == Stage::ReadingBackup ==> (event matches Event::Read(text)
                ==> final(self).texts_read() == old(self).texts_read().push(text@)),
            !(old(self).stage_view() == Stage::ReadingBackup && event is Read)
                ==> final(self).texts_read() == old(self).texts_read(),
            final(self).annotator_view().compiled() == old(self).annotator_view().compiled(),
            final(self).annotator_view().marker_view() == old(self).annotator_view().marker_view(),
            !(old(self).stage_view() == Stage::ReadingBackup && event is Read)
                ==> final(self).annotator_view() == old(self).annotator_view(),
            // Renaming the target to its backup.
            old(self).stage_view() == Stage::Renaming && event is Succeeded ==> (r matches Action::CreateOutput { path }
                && path@ == old(self).target() && final(self).stage_view() == Stage::CreatingOutput),
            old(self).stage_view() == Stage::Renaming && !(event is Succeeded) ==> (r matches Action::Abort(AnnotateError::RenameFailed { from, to })
                && from@ == old(self).target() && to@ == old(self).backup_view()
                && final(self).stage_view() == Stage::Aborted),
            // Creating the new file at the target path.
            old(self).stage_view() == Stage::CreatingOutput && event is Succeeded ==> (r matches Action::ReadBackup { path }
                && path@ == old(self).backup_view() && final(self).stage_view() == Stage::ReadingBackup),
            old(self).stage_view() == Stage::CreatingOutput && !(event is Succeeded) ==> (r matches Action::Abort(AnnotateError::OutputCreateFailed { path })
                && path@ == old(self).target() && final(self).stage_view() == Stage::Aborted),
            // Reading the backup and rewriting its text.
            old(self).stage_view() == Stage::ReadingBackup ==> (event matches Event::Read(text) ==> (r matches Action::WriteOutput { path, content }
                && path@ == old(self).target() && content@ == annotated(
                old(self).annotator_view().compiled(),
                old(self).annotator_view().marker_view(),
                records_of(text@),
            ) && final(self).annotator_view().live() == old(self).annotator_view().live()
                + escaped_all(records_of(text@)) && final(self).stage_view() == Stage::WritingOutput)),
            old(self).stage_view() == Stage::ReadingBackup && !(event is Read) ==> (r matches Action::Abort(AnnotateError::RecordReadFailed { path })
                && path@ == old(self).backup_view() && final(self).stage_view() == Stage::Aborted),
            // Writing the rewritten text.
            old(self).stage_view() == Stage::WritingOutput && event is Succeeded && !old(self).keeps() ==> (r matches Action::DeleteBackup { path }
                && path@ == old(self).backup_view() && final(self).stage_view() == Stage::DeletingBackup),
            old(self).stage_view() == Stage::WritingOutput && event is Succeeded && old(self).keeps() ==> final(self).index()
                == old(self).index() + 1 && final(self).opened(r),
            old(self).stage_view() == Stage::WritingOutput && !(event is Succeeded) ==> (r matches Action::Abort(AnnotateError::WriteFailed { path })
                && path@ == old(self).target() && final(self).stage_view() == Stage::Aborted),
            // Removing the backup.
            old(self).stage_view() == Stage::DeletingBackup && event is Succeeded ==> final(self).index()
                == old(self).index() + 1 && final(self).opened(r),
            old(self).stage_view() == Stage::DeletingBackup && !(event is Succeeded) ==> (r matches Action::Abort(AnnotateError::BackupDeleteFailed { path })
                && path@ == old(self).backup_view() && final(self).stage_view() == Stage::Aborted),
            // The backup goes only after the rewritten file is complete.
            r is DeleteBackup ==> old(self).stage_view() == Stage::WritingOutput && event is Succeeded
                && !old(self).keeps(),
            final(self).index() != old(self).index() ==> final(self).index() == old(self).index() + 1,
    {
        assert(self.current < self.targets.len());
        match self.stage {
            Stage::Renaming => {
                if matches!(event, Event::Succeeded) {
                    self.stage = Stage::CreatingOutput;
                    Action::CreateOutput { path: self.targets[self.current].clone() }
                } else {
                    self.stage = Stage::Aborted;
                    Action::Abort(
                        AnnotateError::RenameFailed {
                            from: self.targets[self.current].clone(),
                            to: self.backup.clone(),
                        },
                    )
                }
            },
            Stage::CreatingOutput => {
                if matches!(event, Event::Succeeded) {
                    self.stage = Stage::ReadingBackup;
                    Action::ReadBackup { path: self.backup.clone() }
                } else {
                    self.stage = Stage::Aborted;
                    Action::Abort(
                        AnnotateError::OutputCreateFailed { path: self.targets[self.current].clone() },
                    )
                }
            },
            Stage::ReadingBackup => {
                match event {
                    Event::Read(text) => {
                        let content = self.annotator.annotate_text(text.as_str());
                        proof {
                            let prev = self.read@;
                            self.read = Ghost(prev.push(text@));
                            assert(self.read@.drop_last() =~= prev);
                        }
                        self.stage = Stage::WritingOutput;
                        Action::WriteOutput { path: self.targets[self.current].clone(), content }
                    },
                    _ => {
                        self.stage = Stage::Aborted;
                        Action::Abort(
                            AnnotateError::RecordReadFailed { path: self.backup.clone() },
                        )
                    },
                }
            },
            Stage::WritingOutput => {
                if !matches!(event, Event::Succeeded) {
                    self.stage = Stage::Aborted;
                    Action::Abort(
                        AnnotateError::WriteFailed { path: self.targets[self.current].clone() },
                    )
                } else if self.keep_orig {
                    self.current = self.current + 1;
                    self.open_current()
                } else {
                    self.stage = Stage::DeletingBackup;
                    Action::DeleteBackup { path: self.backup.clone() }
                }
            },
            _ => {
                if matches!(event, Event::Succeeded) {
                    self.current = self.current + 1;
                    self.open_current()
                } else {
                    self.stage = Stage::Aborted;
                    Action::Abort(AnnotateError::BackupDeleteFailed { path: self.backup.clone() })
                }
            },
        }
    }

    /// The pattern set of the run.
    pub fn annotator(&self) -> (r: &Annotator)
        ensures
            *r == self.annotator_view(),
    {
        &self.annotator
    }
}

} // verus!
