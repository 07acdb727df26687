//! The decisions of the graphical interface: which options the user has made,
//! which steps are open, and what the background worker does next.

use std::path::PathBuf;
use vstd::prelude::*;

use crate::compression::CompressionFormat;
use crate::device::{Removable, WriteTarget};
use crate::hash::HashAlg;

verus! {

/// The user's choices about checking the image against a known hash.
pub struct FileHashOptions {
    pub entered_hash: String,
    pub possible_algorithms: Vec<HashAlg>,
    pub selected_algorithm: Option<HashAlg>,
    pub last_error: String,
    pub skip: bool,
    pub verified: bool,
}

impl Default for FileHashOptions {
    fn default() -> (o: FileHashOptions)
        ensures
            o.entered_hash@ == Seq::<char>::empty(),
            o.possible_algorithms@ == Seq::<HashAlg>::empty(),
            o.selected_algorithm is None,
            o.last_error@ == Seq::<char>::empty(),
            !o.skip,
            !o.verified,
    {
        FileHashOptions {
            entered_hash: String::new(),
            possible_algorithms: Vec::new(),
            selected_algorithm: None,
            last_error: String::new(),
            skip: false,
            verified: false,
        }
    }
}

/// What the hash section shows below the input box.
#[derive(Debug, Clone, Copy, PartialEq, Eq, Structural)]
pub enum HashSection {
    /// The algorithms that fit the input, to choose from, and the verify button.
    ChooseAlgorithm,
    /// Nothing: the input is wrong but hashing is skipped.
    Blank,
    /// The error describing what is wrong with the input.
    ShowError,
}

impl FileHashOptions {
    /// Takes in the result of parsing the entered hash: the algorithms it may be a
    /// hash of, or the text of the error. A single possible algorithm is selected
    /// right away.
    pub fn apply_parsed_input(&mut self, parsed: Result<Vec<HashAlg>, String>)
        ensures
            final(self).entered_hash == old(self).entered_hash,
            final(self).skip == old(self).skip,
            final(self).verified == old(self).verified,
            match parsed {
                Ok(algs) => {
                    &&& final(self).possible_algorithms@ == algs@
                    &&& final(self).selected_algorithm == if algs@.len() == 1 {
                        Some(algs@[0])
                    } else {
                        old(self).selected_algorithm
                    }
                    &&& final(self).last_error@ == Seq::<char>::empty()
                },
                Err(e) => {
                    &&& final(self).possible_algorithms@ == Seq::<HashAlg>::empty()
                    &&& final(self).selected_algorithm is None
                    &&& final(self).last_error == e
                },
            },
    {
        match parsed {
            Ok(algs) => {
                if algs.len() == 1 {
                    self.selected_algorithm = Some(algs[0]);
                }
                self.possible_algorithms = algs;
                self.last_error = String::new();
            },
            Err(e) => {
                self.possible_algorithms = Vec::new();
                self.selected_algorithm = None;
                self.last_error = e;
            },
        }
    }

    /// Whether `alg` is the selected algorithm.
    pub fn is_selected(&self, alg: HashAlg) -> (r: bool)
        ensures
            r == (self.selected_algorithm == Some(alg)),
    {
        match self.selected_algorithm {
            Some(selected) => selected == alg,
            None => false,
        }
    }

    /// The user picks the algorithm at `index` among the possible ones (the
    /// interface offers exactly those to click).
    pub fn select_algorithm(&mut self, index: usize)
        requires
            index < old(self).possible_algorithms@.len(),
        ensures
            final(self).selected_algorithm == Some(old(self).possible_algorithms@[index as int]),
            final(self).possible_algorithms == old(self).possible_algorithms,
            final(self).entered_hash == old(self).entered_hash,
            final(self).last_error == old(self).last_error,
            final(self).skip == old(self).skip,
            final(self).verified == old(self).verified,
    {
        self.selected_algorithm = Some(self.possible_algorithms[index]);
    }

    /// The user asks for the hash to be verified.
    pub fn mark_verified(&mut self)
        ensures
            final(self).verified,
            final(self).selected_algorithm == old(self).selected_algorithm,
            final(self).possible_algorithms == old(self).possible_algorithms,
            final(self).entered_hash == old(self).entered_hash,
            final(self).last_error == old(self).last_error,
            final(self).skip == old(self).skip,
    {
        self.verified = true;
    }

    /// What the hash section shows below the input box.
    pub fn section(&self) -> (s: HashSection)
        ensures
            self.last_error@.len() == 0 ==> s == HashSection::ChooseAlgorithm,
            self.last_error@.len() != 0 && self.skip ==> s == HashSection::Blank,
            self.last_error@.len() != 0 && !self.skip ==> s == HashSection::ShowError,
    {
        if self.last_error.as_str().is_empty() {
            HashSection::ChooseAlgorithm
        } else if self.skip {
            HashSection::Blank
        } else {
            HashSection::ShowError
        }
    }
}

/// Everything the user has chosen so far.
pub struct Options {
    pub picked_image: Option<PathBuf>,
    pub file_hash: FileHashOptions,
    pub detected_compression_format: Option<CompressionFormat>,
    pub possible_write_targets: Vec<WriteTarget>,
    pub selected_write_target: Option<WriteTarget>,
    pub show_all_disks: bool,
    pub has_confirmed_writing: bool,
}

impl Default for Options {
    fn default() -> (o: Options)
        ensures
            o.picked_image is None,
            o.file_hash.entered_hash@ == Seq::<char>::empty(),
            o.file_hash.possible_algorithms@ == Seq::<HashAlg>::empty(),
            o.file_hash.selected_algorithm is None,
            o.file_hash.last_error@ == Seq::<char>::empty(),
            !o.file_hash.skip,
            !o.file_hash.verified,
            o.detected_compression_format is None,
            o.possible_write_targets@ == Seq::<WriteTarget>::empty(),
            o.selected_write_target is None,
            !o.show_all_disks,
            !o.has_confirmed_writing,
    {
        Options {
            picked_image: None,
            file_hash: FileHashOptions::default(),
            detected_compression_format: None,
            possible_write_targets: Vec::new(),
            selected_write_target: None,
            show_all_disks: false,
            has_confirmed_writing: false,
        }
    }
}

/// Whether `target` is offered for writing: removable devices always, the others
/// only when all disks are shown.
pub open spec fn is_offered(show_all_disks: bool, target: WriteTarget) -> bool {
    show_all_disks || target.removable == Removable::Yes
}

/// The test that picks the offered targets.
pub open spec fn offered_test(show_all_disks: bool) -> spec_fn(WriteTarget) -> bool {
    |target: WriteTarget| is_offered(show_all_disks, target)
}

/// A refresh offers every enumerated target exactly as often as it was enumerated
/// when all disks are shown or it is removable (`Removable::Yes`), whatever its size,
/// name, model or kind; every other target is not offered at all.
pub proof fn lemma_offered_targets(show_all_disks: bool, enumerated: Seq<WriteTarget>, t: WriteTarget)
    ensures
        enumerated.filter(offered_test(show_all_disks)).to_multiset().count(t) == if show_all_disks
            || t.removable == Removable::Yes {
            enumerated.to_multiset().count(t)
        } else {
            0
        },
    decreases enumerated.len(),
{
    broadcast use vstd::multiset::group_multiset_axioms;

    let f = offered_test(show_all_disks);
    if enumerated.len() == 0 {
        assert(enumerated.filter(f) =~= Seq::<WriteTarget>::empty()) by {
            reveal(Seq::filter);
        }
        enumerated.to_multiset_ensures();
        enumerated.filter(f).to_multiset_ensures();
        assert(!enumerated.contains(t));
        assert(!enumerated.filter(f).contains(t));
    } else {
        let init = enumerated.drop_last();
        let x = enumerated.last();
        lemma_offered_targets(show_all_disks, init, t);
        assert(init.push(x) =~= enumerated);
        init.lemma_filter_push(x, f);
        vstd::seq_lib::to_multiset_build(init, x);
        vstd::seq_lib::to_multiset_build(init.filter(f), x);
    }
}

/// Which steps of the setup are open to the user.
#[derive(Debug, Clone, Copy, PartialEq, Eq, Structural)]
pub struct SectionAccess {
    /// Checking the image's hash, once an image is picked.
    pub file_hash: bool,
    /// Choosing the target disk, once the hash is verified or skipped.
    pub target_disk: bool,
    /// The writing section, once a target is selected.
    pub begin_writing: bool,
    /// The button that starts writing, once everything is ready.
    pub write_button: bool,
}

impl Options {
    /// The user picks an image file, whose compression format was detected (or
    /// not) from its path.
    pub fn pick_image(&mut self, picked: PathBuf, detected: Option<CompressionFormat>)
        ensures
            final(self).picked_image == Some(picked),
            final(self).detected_compression_format == detected,
            final(self).file_hash == old(self).file_hash,
            final(self).possible_write_targets == old(self).possible_write_targets,
            final(self).selected_write_target == old(self).selected_write_target,
            final(self).show_all_disks == old(self).show_all_disks,
            final(self).has_confirmed_writing == old(self).has_confirmed_writing,
    {
        self.detected_compression_format = detected;
        self.picked_image = Some(picked);
    }

    /// The user selects the target to write to.
    pub fn select_write_target(&mut self, target: WriteTarget)
        ensures
            final(self).selected_write_target == Some(target),
            final(self).picked_image == old(self).picked_image,
            final(self).detected_compression_format == old(self).detected_compression_format,
            final(self).file_hash == old(self).file_hash,
            final(self).possible_write_targets == old(self).possible_write_targets,
            final(self).show_all_disks == old(self).show_all_disks,
            final(self).has_confirmed_writing == old(self).has_confirmed_writing,
    {
        self.selected_write_target = Some(target);
    }

    /// The image, its compression format and the target, to start writing with.
    /// When no compression format was detected, the image is taken as
    /// uncompressed.
    pub fn begin_writing_params(&self) -> (p: (PathBuf, CompressionFormat, WriteTarget))
        requires
            self.picked_image is Some,
            self.selected_write_target is Some,
        ensures
            Some(p.0) == self.picked_image,
            p.1 == match self.detected_compression_format {
                Some(format) => format,
                None => CompressionFormat::Identity,
            },
            Some(p.2) == self.selected_write_target,
    {
        let image = match &self.picked_image {
            Some(image) => image.clone(),
            None => unreached(),
        };
        let compression = match self.detected_compression_format {
            Some(compression) => compression,
            None => CompressionFormat::Identity,
        };
        let target = match &self.selected_write_target {
            Some(target) => target.clone(),
            None => unreached(),
        };
        (image, compression, target)
    }
}

/// Calls `slice::sort` (std) on the targets, which orders them by their derived
/// `Ord`. The sort keeps every target and adds none; the order it produces is not
/// stated here, as the derived comparison is not read by the verifier.
#[verifier::external_body]
fn sort_write_targets(targets: &mut Vec<WriteTarget>)
    ensures
        final(targets)@.to_multiset() == old(targets)@.to_multiset(),
{
    targets.sort()
}

/// The state of the graphical interface that its logic reads and writes.
pub struct App {
    pub options: Options,
}

impl App {
    /// Replaces the offered write targets with the enumerated devices that are
    /// offered, sorted.
    pub fn refresh_devices(&mut self, enumerated: Vec<WriteTarget>)
        ensures
            final(self).options.possible_write_targets@.to_multiset() == enumerated@.filter(
                offered_test(old(self).options.show_all_disks),
            ).to_multiset(),
            forall|t: WriteTarget|
                #[trigger] final(self).options.possible_write_targets@.to_multiset().count(t)
                    == if old(self).options.show_all_disks || t.removable == Removable::Yes {
                    enumerated@.to_multiset().count(t)
                } else {
                    0
                },
            final(self).options.picked_image == old(self).options.picked_image,
            final(self).options.file_hash == old(self).options.file_hash,
            final(self).options.detected_compression_format
                == old(self).options.detected_compression_format,
            final(self).options.selected_write_target == old(self).options.selected_write_target,
            final(self).options.show_all_disks == old(self).options.show_all_disks,
            final(self).options.has_confirmed_writing == old(self).options.has_confirmed_writing,
    {
        let show_all = self.options.show_all_disks;
        let ghost offered = offered_test(show_all);
        let mut kept: Vec<WriteTarget> = Vec::new();
        let mut rest = enumerated;
        let ghost all = rest@;
        let total = rest.len();
        let mut i: usize = 0;
        proof {
            reveal(Seq::filter);
            assert(all.take(0) =~= Seq::<WriteTarget>::empty());
        }
        while rest.len() > 0
            invariant
                rest@ == all.skip(i as int),
                i <= all.len(),
                all.len() == total,
                offered == offered_test(show_all),
                kept@ == all.take(i as int).filter(offered),
            decreases rest.len(),
        {
            let target = rest.remove(0);
            proof {
                assert(target == all[i as int]);
                assert(all.take(i + 1).last() == all[i as int]);
                reveal(Seq::filter);
                assert(all.take(i + 1).drop_last() =~= all.take(i as int));
                assert(all.skip(i + 1) =~= all.skip(i as int).drop_first());
            }
            let keep = show_all || target.removable == Removable::Yes;
            if keep {
                kept.push(target);
            }
            i = i + 1;
        }
        proof {
            assert(all.take(i as int) =~= all);
        }
        sort_write_targets(&mut kept);
        proof {
            assert forall|t: WriteTarget| #[trigger] kept@.to_multiset().count(t) == if show_all
                || t.removable == Removable::Yes {
                all.to_multiset().count(t)
            } else {
                0
            } by {
                lemma_offered_targets(show_all, all, t);
            }
        }
        self.options.possible_write_targets = kept;
    }

    pub fn file_hash_is_verified_or_skipped(&self) -> (r: bool)
        ensures
            r == (self.options.file_hash.verified || self.options.file_hash.skip),
    {
        self.options.file_hash.verified || self.options.file_hash.skip
    }

    pub fn is_ready_for_writing(&self) -> (r: bool)
        ensures
            r == (self.options.picked_image is Some && (self.options.file_hash.verified
                || self.options.file_hash.skip) && self.options.selected_write_target is Some),
    {
        self.options.picked_image.is_some() && self.file_hash_is_verified_or_skipped()
            && self.options.selected_write_target.is_some()
    }

    /// Which steps of the setup are open: each step opens once the one before it is
    /// done.
    pub fn section_access(&self) -> (a: SectionAccess)
        ensures
            a.file_hash == self.options.picked_image is Some,
            a.target_disk == (self.options.file_hash.verified || self.options.file_hash.skip),
            a.begin_writing == self.options.selected_write_target is Some,
            a.write_button == (a.file_hash && a.target_disk && a.begin_writing),
    {
        SectionAccess {
            file_hash: self.options.picked_image.is_some(),
            target_disk: self.file_hash_is_verified_or_skipped(),
            begin_writing: self.options.selected_write_target.is_some(),
            write_button: self.is_ready_for_writing(),
        }
    }
}


/// A message from the interface to its background worker.
pub enum WorkerEvent<W> {
    /// Start writing with this workflow.
    StartWrite(W),
    /// Stop watching the current write, or dismiss a finished one.
    Abort,
}

/// Where the background worker is in its cycle.
#[derive(Debug, Clone, Copy, PartialEq, Eq, Structural)]
pub enum WorkerPhase {
    /// Waiting for a write to start.
    Idle,
    /// A write was asked for and is being started.
    Starting,
    /// A write is running; its state is checked next.
    Watching,
    /// A write is running and the worker has just slept; a message is read next.
    Polling,
    /// The write has finished; the worker waits for the user to dismiss it.
    Finished,
}

/// What the worker observed since its last step.
pub enum WorkerInput<W> {
    /// The message read from the interface, if there was one.
    Message(Option<WorkerEvent<W>>),
    /// Whether starting the write succeeded.
    Started(bool),
    /// Whether the running write has finished.
    Progress(bool),
}

/// How long the worker sleeps between looks at the interface and at a running
/// write, in milliseconds.
pub const REFRESH_PERIOD_MILLIS: u64 = 250;

/// What the worker does after a step.
pub enum WorkerAction<W> {
    /// Nothing before the next step.
    Proceed,
    /// Sleep for this many milliseconds (always [`REFRESH_PERIOD_MILLIS`]).
    Sleep { millis: u64 },
    /// Start writing with this workflow.
    Start(W),
    /// Make the state of the started write visible to the interface.
    PublishState,
    /// Report that the write could not be started.
    ReportStartFailure,
    /// Ask the interface to repaint, then sleep for this many milliseconds (always
    /// [`REFRESH_PERIOD_MILLIS`]).
    RepaintAndSleep { millis: u64 },
    /// Remove the write's state from the interface and ask it to repaint.
    ClearStateAndRepaint,
}

/// Whether `input` is what the worker observes in `phase`: a message when idle,
/// polling or finished, the start's outcome when starting, and the write's progress
/// when watching.
pub open spec fn input_fits<W>(phase: WorkerPhase, input: WorkerInput<W>) -> bool {
    match phase {
        WorkerPhase::Idle | WorkerPhase::Polling | WorkerPhase::Finished => input is Message,
        WorkerPhase::Starting => input is Started,
        WorkerPhase::Watching => input is Progress,
    }
}

/// The worker's next phase and action, for each phase and what it observed there.
pub open spec fn worker_transition<W>(phase: WorkerPhase, input: WorkerInput<W>) -> (
    WorkerPhase,
    WorkerAction<W>,
) {
    match phase {
        // only a request to write starts a write; any other message is dropped
        WorkerPhase::Idle => match input {
            WorkerInput::Message(Some(WorkerEvent::StartWrite(w))) => (
                WorkerPhase::Starting,
                WorkerAction::Start(w),
            ),
            _ => (WorkerPhase::Idle, WorkerAction::Sleep { millis: REFRESH_PERIOD_MILLIS }),
        },
        WorkerPhase::Starting => match input {
            WorkerInput::Started(true) => (WorkerPhase::Watching, WorkerAction::PublishState),
            _ => (WorkerPhase::Idle, WorkerAction::ReportStartFailure),
        },
        WorkerPhase::Watching => match input {
            WorkerInput::Progress(true) => (WorkerPhase::Finished, WorkerAction::Proceed),
            _ => (WorkerPhase::Polling, WorkerAction::RepaintAndSleep { millis: REFRESH_PERIOD_MILLIS }),
        },
        // while writing, only an abort is heeded; a request to write is dropped
        WorkerPhase::Polling => match input {
            WorkerInput::Message(Some(WorkerEvent::Abort)) => (
                WorkerPhase::Idle,
                WorkerAction::ClearStateAndRepaint,
            ),
            _ => (WorkerPhase::Watching, WorkerAction::Proceed),
        },
        // a finished write stays shown until it is dismissed
        WorkerPhase::Finished => match input {
            WorkerInput::Message(Some(WorkerEvent::Abort)) => (
                WorkerPhase::Idle,
                WorkerAction::ClearStateAndRepaint,
            ),
            _ => (WorkerPhase::Finished, WorkerAction::Sleep { millis: REFRESH_PERIOD_MILLIS }),
        },
    }
}

/// The phases the worker goes through from `start` on seeing `inputs`, starting
/// with `start` itself.
pub open spec fn worker_phases<W>(start: WorkerPhase, inputs: Seq<WorkerInput<W>>) -> Seq<
    WorkerPhase,
>
    decreases inputs.len(),
{
    if inputs.len() == 0 {
        seq![start]
    } else {
        let before = worker_phases(start, inputs.drop_last());
        before.push(worker_transition(before.last(), inputs.last()).0)
    }
}

/// Whether the state of a write is visible to the interface in `phase`.
pub open spec fn write_visible(phase: WorkerPhase) -> bool {
    phase == WorkerPhase::Watching || phase == WorkerPhase::Polling || phase
        == WorkerPhase::Finished
}

/// The phases of a run follow one another by the worker's steps.
proof fn lemma_worker_phases_shape<W>(start: WorkerPhase, inputs: Seq<WorkerInput<W>>)
    ensures
        worker_phases(start, inputs).len() == inputs.len() + 1,
        worker_phases(start, inputs)[0] == start,
        forall|i: int|
            0 <= i < inputs.len() ==> worker_phases(start, inputs)[i + 1] == worker_transition(
                #[trigger] worker_phases(start, inputs)[i],
                inputs[i],
            ).0,
    decreases inputs.len(),
{
    if inputs.len() > 0 {
        let init = inputs.drop_last();
        lemma_worker_phases_shape(start, init);
        let before = worker_phases(start, init);
        assert forall|i: int| 0 <= i < inputs.len() implies worker_phases(start, inputs)[i + 1]
            == worker_transition(#[trigger] worker_phases(start, inputs)[i], inputs[i]).0 by {
            if i < init.len() {
                assert(init[i] == inputs[i]);
            }
        }
    }
}

/// Over any run of the worker, whatever the interface sends: a write starts only
/// when the worker is idle, with the workflow of the request it has just read, so
/// at most one write is ever in progress and a request read while busy is never
/// started later; a write is taken for finished only at a step where the running
/// write reported it; the state of a write becomes visible only on a successful start
/// and disappears only on an abort read while writing or when finished.
pub proof fn lemma_worker_runs<W>(start: WorkerPhase, inputs: Seq<WorkerInput<W>>, i: int)
    requires
        0 <= i < inputs.len(),
    ensures
        ({
            let phases = worker_phases(start, inputs);
            let action = worker_transition(phases[i], inputs[i]).1;
            &&& phases[i + 1] == worker_transition(phases[i], inputs[i]).0
            &&& (action matches WorkerAction::Start(w) ==> phases[i] == WorkerPhase::Idle
                && inputs[i] == WorkerInput::Message(Some(WorkerEvent::StartWrite(w))))
            &&& (phases[i + 1] == WorkerPhase::Starting ==> phases[i] == WorkerPhase::Idle)
            &&& (phases[i + 1] == WorkerPhase::Finished && phases[i] != WorkerPhase::Finished
                ==> phases[i] == WorkerPhase::Watching && inputs[i] == WorkerInput::<W>::Progress(
                true,
            ))
            &&& (action is PublishState ==> phases[i] == WorkerPhase::Starting
                && inputs[i] == WorkerInput::<W>::Started(true))
            &&& (action is ClearStateAndRepaint ==> write_visible(phases[i])
                && inputs[i] == WorkerInput::<W>::Message(Some(WorkerEvent::Abort)))
            &&& write_visible(phases[i + 1]) == if action is PublishState {
                true
            } else if action is ClearStateAndRepaint {
                false
            } else {
                write_visible(phases[i])
            }
        }),
{
    lemma_worker_phases_shape(start, inputs);
    assert(worker_phases(start, inputs)[i + 1] == worker_transition(
        worker_phases(start, inputs)[i],
        inputs[i],
    ).0);
}

/// The worker takes a write for finished only when the running write reports that
/// it has finished: it enters `Finished` only from `Watching` on `Progress(true)`
/// (or stays there). While a write runs, a poll that reads anything but an abort
/// goes back to watching the write, without doing anything else.
pub proof fn lemma_worker_finishes_only_when_the_write_does<W>(
    phase: WorkerPhase,
    input: WorkerInput<W>,
)
    ensures
        worker_transition(phase, input).0 == WorkerPhase::Finished ==> (phase
            == WorkerPhase::Watching && input == WorkerInput::<W>::Progress(true)) || phase
            == WorkerPhase::Finished,
        phase == WorkerPhase::Watching && input == WorkerInput::<W>::Progress(true)
            ==> worker_transition(phase, input).0 == WorkerPhase::Finished,
        phase == WorkerPhase::Polling && !(input matches WorkerInput::Message(
            Some(WorkerEvent::Abort),
        )) ==> worker_transition(phase, input).0 == WorkerPhase::Watching && worker_transition(
            phase,
            input,
        ).1 is Proceed,
{
}

/// One step of the background worker: its next phase and what it does.
pub fn worker_step<W>(phase: WorkerPhase, input: WorkerInput<W>) -> (r: (WorkerPhase, WorkerAction<W>))
    requires
        input_fits(phase, input),
    ensures
        r == worker_transition(phase, input),
        r.0 == WorkerPhase::Finished ==> (phase == WorkerPhase::Watching && input
            == WorkerInput::<W>::Progress(true)) || phase == WorkerPhase::Finished,
        phase == WorkerPhase::Polling && !(input matches WorkerInput::Message(
            Some(WorkerEvent::Abort),
        )) ==> r.0 == WorkerPhase::Watching && r.1 is Proceed,
        phase == WorkerPhase::Watching && input == WorkerInput::<W>::Progress(true) ==> r.0
            == WorkerPhase::Finished,
{
    match phase {
        WorkerPhase::Idle => match input {
            WorkerInput::Message(Some(WorkerEvent::StartWrite(w))) => (
                WorkerPhase::Starting,
                WorkerAction::Start(w),
            ),
            _ => (WorkerPhase::Idle, WorkerAction::Sleep { millis: REFRESH_PERIOD_MILLIS }),
        },
        WorkerPhase::Starting => match input {
            WorkerInput::Started(true) => (WorkerPhase::Watching, WorkerAction::PublishState),
            _ => (WorkerPhase::Idle, WorkerAction::ReportStartFailure),
        },
        WorkerPhase::Watching => match input {
            WorkerInput::Progress(true) => (WorkerPhase::Finished, WorkerAction::Proceed),
            _ => (WorkerPhase::Polling, WorkerAction::RepaintAndSleep { millis: REFRESH_PERIOD_MILLIS }),
        },
        WorkerPhase::Polling => match input {
            WorkerInput::Message(Some(WorkerEvent::Abort)) => (
                WorkerPhase::Idle,
                WorkerAction::ClearStateAndRepaint,
            ),
            _ => (WorkerPhase::Watching, WorkerAction::Proceed),
        },
        WorkerPhase::Finished => match input {
            WorkerInput::Message(Some(WorkerEvent::Abort)) => (
                WorkerPhase::Idle,
                WorkerAction::ClearStateAndRepaint,
            ),
            _ => (WorkerPhase::Finished, WorkerAction::Sleep { millis: REFRESH_PERIOD_MILLIS }),
        },
    }
}

} // verus!
