//! The split protocol as the contracts state it: the commands of a run, the
//! replies they admit, and what follows from each reply.
//!
//! For every part, strictly in the order of the plan:
//!
//! 1. a new, empty output document is created;
//! 2. the intro pages, where the plan has any, are copied into it in
//!    ascending order;
//! 3. the body pages of the part are copied after them in ascending order;
//! 4. after every single copy the output must hold exactly one page more
//!    than before;
//! 5. the document is written out;
//! 6. what was written must not be empty.
//!
//! The first reply that does not meet this ends the run.

use vstd::prelude::*;
use crate::error::SplitError;
use crate::model::{Event, PartPlan, SplitPlan};
use crate::naming::part_file_name_of;

verus! {

/// What the driver is asked to do next.
#[derive(Debug, Clone, PartialEq, Eq)]
pub enum Command {
    /// Make sure that `directory`, into which the parts are written, exists.
    /// Answered by `Reply::Done`.
    PrepareOutput { directory: String },
    /// Discard the current output document, if any, and create a new, empty
    /// one. Answered by `Reply::Done`.
    CreateDocument,
    /// Copy the page at `source_index` (0-based) of the source into the
    /// output document at position `dest_index`, which is the number of pages
    /// copied into it so far. Answered by `Reply::Copied` with the number of
    /// pages the output document holds afterwards.
    CopyPage { source_index: usize, dest_index: usize },
    /// Write the output document, which is part `part_index`, to the file
    /// `file_name` in `directory`. Answered by `Reply::Persisted` with where
    /// the file is and how large it is.
    Persist { part_index: usize, directory: String, file_name: String },
    /// The run is complete. Nothing more is to be done.
    Finish,
    /// The run has failed. Nothing more is to be done: parts that were
    /// written stay as they are.
    Abort(SplitError),
}

/// A command as the contracts see it: with its texts as sequences of
/// characters.
pub enum Order {
    PrepareOutput { directory: Seq<char> },
    CreateDocument,
    CopyPage { source_index: usize, dest_index: usize },
    Persist { part_index: usize, directory: Seq<char>, file_name: Seq<char> },
    Finish,
    Abort(SplitError),
}

impl View for Command {
    type V = Order;

    open spec fn view(&self) -> Order {
        match self {
            Command::PrepareOutput { directory } => Order::PrepareOutput { directory: directory@ },
            Command::CreateDocument => Order::CreateDocument,
            Command::CopyPage { source_index, dest_index } => Order::CopyPage {
                source_index: *source_index,
                dest_index: *dest_index,
            },
            Command::Persist { part_index, directory, file_name } => Order::Persist {
                part_index: *part_index,
                directory: directory@,
                file_name: file_name@,
            },
            Command::Finish => Order::Finish,
            Command::Abort(e) => Order::Abort(*e),
        }
    }
}

/// Where the parts of a run go: the directory they are written into and the
/// base name that their file names start with.
pub struct Target {
    pub directory: Seq<char>,
    pub basename: Seq<char>,
}

/// What the driver reports after carrying out a command.
#[derive(Debug, Clone, PartialEq, Eq)]
pub enum Reply {
    /// The command was carried out.
    Done,
    /// The page was copied; the output document now holds `output_pages`.
    Copied { output_pages: usize },
    /// The output document was written to `path`, which now holds `size`
    /// bytes.
    Persisted { path: String, size: u64 },
    /// The command could not be carried out; `detail` says why.
    Failed { detail: String },
}

/// Where a run stands.
pub enum Stage {
    /// `Command::PrepareOutput` has been issued and not yet answered.
    Preparing,
    /// Command `step` of part `part` (both 0-based) has been issued and not
    /// yet answered.
    Working { part: int, step: int },
    /// `Command::Finish` has been issued.
    Finished,
    /// `Command::Abort` has been issued.
    Failed,
}

/// A run as the contracts see it.
pub struct Run {
    pub plan: SplitPlan,
    pub target: Target,
    pub verbose: bool,
    pub stage: Stage,
}

/// The number of commands that produce one part: one to create the
/// document, one for each of its pages, one to write it out.
pub open spec fn part_steps(part: PartPlan) -> int {
    part.page_count() + 2
}

/// Command `step` (0-based) of those that produce `part`: first the document
/// is created, then each of the part's pages is copied to the end of it, the
/// intro pages before the body pages and each group in ascending order, then
/// the document is written out under the name of the part.
pub open spec fn part_command(part: PartPlan, target: Target, step: int) -> Order {
    if step == 0 {
        Order::CreateDocument
    } else if step <= part.page_count() {
        Order::CopyPage { source_index: (part.source_page(step - 1) - 1) as usize, dest_index: (step - 1) as usize }
    } else {
        Order::Persist {
            part_index: part.part_index as usize,
            directory: target.directory,
            file_name: part_file_name_of(target.basename, part.part_index as nat),
        }
    }
}

/// What is wrong with `reply` as an answer to `pending`, a command of
/// `part`; `None` where the run may go on.
///
/// A copy is accepted only if the output holds exactly one page more than
/// before it, a written part only if it is not empty.
pub open spec fn objection(pending: Order, part: PartPlan, reply: Reply) -> Option<SplitError> {
    match pending {
        Order::PrepareOutput { .. } => match reply {
            Reply::Done => None,
            Reply::Failed { detail } => Some(SplitError::OutputDirFailed { detail }),
            _ => Some(SplitError::UnexpectedReply),
        },
        Order::CreateDocument => match reply {
            Reply::Done => None,
            Reply::Failed { detail } => Some(SplitError::Engine { detail }),
            _ => Some(SplitError::UnexpectedReply),
        },
        Order::CopyPage { source_index, dest_index } => match reply {
            Reply::Copied { output_pages } => if output_pages == dest_index + 1 {
                None
            } else {
                Some(
                    SplitError::PageCountMismatch {
                        part_index: part.part_index as usize,
                        page: (source_index + 1) as usize,
                        intro: dest_index < part.intro_len(),
                        expected: (dest_index + 1) as usize,
                        found: output_pages,
                    },
                )
            },
            Reply::Failed { detail } => Some(
                SplitError::CopyFailed {
                    page: (source_index + 1) as usize,
                    intro: dest_index < part.intro_len(),
                    detail,
                },
            ),
            _ => Some(SplitError::UnexpectedReply),
        },
        Order::Persist { .. } => match reply {
            Reply::Persisted { path, size } => if size > 0 {
                None
            } else {
                Some(SplitError::EmptyArtifact { path })
            },
            Reply::Failed { detail } => Some(SplitError::SaveFailed { detail }),
            _ => Some(SplitError::UnexpectedReply),
        },
        _ => Some(SplitError::UnexpectedReply),
    }
}

/// What a verbose run reports when `reply` is accepted as the answer to
/// `pending`, a command of `part`: the progress within the part after each
/// copied page; the part after it has been written; and after the last of
/// the `parts` parts, that the run is complete.
pub open spec fn reports(pending: Order, part: PartPlan, parts: int, reply: Reply) -> Seq<Event> {
    match (pending, reply) {
        (Order::CopyPage { dest_index, .. }, Reply::Copied { .. }) => seq![
            Event::Progress { page: (dest_index + 1) as usize, total: part.page_count() as usize },
        ],
        (Order::Persist { part_index, .. }, Reply::Persisted { path, .. }) => if part.part_index == parts {
            seq![Event::PartComplete { index: part_index, path }, Event::Complete { output_count: parts as usize }]
        } else {
            seq![Event::PartComplete { index: part_index, path }]
        },
        _ => Seq::empty(),
    }
}

impl Run {
    /// The part that is being produced.
    pub open spec fn part(self) -> PartPlan
        recommends
            self.stage is Working,
    {
        self.plan.ranges[self.stage->part]
    }

    /// The command that awaits its answer.
    pub open spec fn pending(self) -> Order {
        self.command_at(self.stage)
    }

    /// The command that is issued on entering `stage`.
    pub open spec fn command_at(self, stage: Stage) -> Order {
        match stage {
            Stage::Preparing => Order::PrepareOutput { directory: self.target.directory },
            Stage::Working { part, step } => part_command(self.plan.ranges[part], self.target, step),
            Stage::Finished => Order::Finish,
            Stage::Failed => Order::Abort(SplitError::UnexpectedReply),
        }
    }

    /// The stage that follows once the pending command has been answered to
    /// satisfaction: the commands of a part in their order, the parts in the
    /// order of the plan, and after the last command of the last part the end
    /// of the run.
    pub open spec fn successor(self) -> Stage {
        match self.stage {
            Stage::Preparing => Stage::Working { part: 0, step: 0 },
            Stage::Working { part, step } => if step + 1 < part_steps(self.plan.ranges[part]) {
                Stage::Working { part, step: step + 1 }
            } else if part + 1 < self.plan.ranges.len() {
                Stage::Working { part: part + 1, step: 0 }
            } else {
                Stage::Finished
            },
            Stage::Finished => Stage::Finished,
            Stage::Failed => Stage::Failed,
        }
    }

    /// Whether the run is over.
    pub open spec fn closed(self) -> bool {
        self.stage is Finished || self.stage is Failed
    }

    /// What is wrong with `reply` as the answer to the pending command.
    pub open spec fn objection(self, reply: Reply) -> Option<SplitError> {
        if self.closed() {
            Some(SplitError::UnexpectedReply)
        } else {
            objection(self.pending(), self.part(), reply)
        }
    }
}

/// What follows from `reply` for `run`: the run as it stands afterwards,
/// what it reports, and the next command.
///
/// A reply that meets with an objection ends the run with `Command::Abort`
/// and reports nothing; so does any reply to a run that is over. Every other
/// reply moves the run to the next stage of the protocol. Only a verbose run
/// reports.
pub open spec fn outcome(run: Run, reply: Reply) -> (Run, Seq<Event>, Order) {
    match run.objection(reply) {
        Some(e) => (Run { stage: Stage::Failed, ..run }, Seq::empty(), Order::Abort(e)),
        None => (
            Run { stage: run.successor(), ..run },
            if run.verbose {
                reports(run.pending(), run.part(), run.plan.parts_to_create, reply)
            } else {
                Seq::empty()
            },
            run.command_at(run.successor()),
        ),
    }
}

impl Run {
    /// What holds of every run: the plan has a part, its parts are numbered
    /// from 1 in their order and are well formed, and a run that is at work
    /// is at a command of one of them.
    pub open spec fn well_formed(self) -> bool {
        let ranges = self.plan.ranges;
        &&& 1 <= ranges.len()
        &&& self.plan.parts_to_create == ranges.len()
        &&& forall|i: int|
            0 <= i < ranges.len() ==> (#[trigger] ranges[i]).well_formed() && ranges[i].part_index == i + 1
        &&& self.stage matches Stage::Working { part, step } ==> 0 <= part < ranges.len() && 0 <= step
            < part_steps(ranges[part])
    }

    /// The place of the pending command in the script of the run.
    pub open spec fn position(self) -> int {
        match self.stage {
            Stage::Preparing => 0,
            Stage::Working { part, step } => 1 + steps_before(self.plan.ranges, part) + step,
            _ => 1 + steps_before(self.plan.ranges, self.plan.ranges.len() as int),
        }
    }
}

/// The commands that produce one part, in the order in which they are
/// issued.
pub open spec fn part_script(part: PartPlan, target: Target) -> Seq<Order> {
    seq![Order::CreateDocument] + Seq::new(
        part.page_count() as nat,
        |k: int| Order::CopyPage { source_index: (part.source_page(k) - 1) as usize, dest_index: k as usize },
    ) + seq![
        Order::Persist {
            part_index: part.part_index as usize,
            directory: target.directory,
            file_name: part_file_name_of(target.basename, part.part_index as nat),
        },
    ]
}

/// The commands that produce the parts in `ranges`, one part after another.
pub open spec fn parts_script(ranges: Seq<PartPlan>, target: Target) -> Seq<Order>
    decreases ranges.len(),
{
    if ranges.len() == 0 {
        Seq::empty()
    } else {
        parts_script(ranges.drop_last(), target) + part_script(ranges.last(), target)
    }
}

/// Everything that a run asks of its driver if no reply meets with an
/// objection: the output is prepared, the parts are produced in the order of
/// the plan, and the run finishes.
pub open spec fn script(plan: SplitPlan, target: Target) -> Seq<Order> {
    seq![Order::PrepareOutput { directory: target.directory }] + parts_script(plan.ranges, target) + seq![
        Order::Finish,
    ]
}

/// The number of commands that produce the parts before part `part`.
pub open spec fn steps_before(ranges: Seq<PartPlan>, part: int) -> int
    decreases part,
{
    if part <= 0 {
        0
    } else {
        steps_before(ranges, part - 1) + part_steps(ranges[part - 1])
    }
}

/// The run that `replies` lead to from `run`, one reply after another.
pub open spec fn run_after(run: Run, replies: Seq<Reply>) -> Run
    decreases replies.len(),
{
    if replies.len() == 0 {
        run
    } else {
        outcome(run_after(run, replies.drop_last()), replies.last()).0
    }
}

/// The script of a part lists the part's commands in their order.
pub proof fn part_script_lists_commands(part: PartPlan, target: Target)
    requires
        part.well_formed(),
    ensures
        part_script(part, target).len() == part_steps(part),
        forall|step: int|
            0 <= step < part_steps(part) ==> #[trigger] part_script(part, target)[step] == part_command(
                part,
                target,
                step,
            ),
{
}

proof fn lemma_steps_before_prefix(ranges: Seq<PartPlan>, shorter: Seq<PartPlan>, part: int)
    requires
        0 <= part <= shorter.len() <= ranges.len(),
        forall|i: int| 0 <= i < shorter.len() ==> shorter[i] == ranges[i],
    ensures
        steps_before(shorter, part) == steps_before(ranges, part),
    decreases part,
{
    if part > 0 {
        lemma_steps_before_prefix(ranges, shorter, part - 1);
    }
}

proof fn lemma_parts_script(ranges: Seq<PartPlan>, target: Target, part: int, step: int)
    requires
        forall|i: int| 0 <= i < ranges.len() ==> (#[trigger] ranges[i]).well_formed(),
        0 <= part < ranges.len(),
        0 <= step < part_steps(ranges[part]),
    ensures
        parts_script(ranges, target).len() == steps_before(ranges, ranges.len() as int),
        0 <= steps_before(ranges, part),
        steps_before(ranges, part) + step < parts_script(ranges, target).len(),
        parts_script(ranges, target)[steps_before(ranges, part) + step] == part_command(ranges[part], target, step),
    decreases ranges.len(),
{
    let last: int = ranges.len() - 1;
    let front = ranges.drop_last();
    part_script_lists_commands(ranges.last(), target);
    lemma_steps_before_prefix(ranges, front, last);
    if last > 0 {
        lemma_parts_script(front, target, 0, 0);
    }
    if part < last {
        lemma_parts_script(front, target, part, step);
        lemma_steps_before_prefix(ranges, front, part);
    }
}

/// A run follows its script. The pending command of a run that is not over
/// is the command at the run's position in the script; a reply that meets
/// with no objection moves the run on by one position, and the command that
/// is then issued is the one that the script has there: the last of them,
/// at the end of the script, `Command::Finish`.
pub proof fn run_follows_script(run: Run, reply: Reply)
    requires
        run.well_formed(),
        !run.closed(),
        run.objection(reply) is None,
    ensures
        0 <= run.position() < script(run.plan, run.target).len() - 1,
        run.pending() == script(run.plan, run.target)[run.position()],
        outcome(run, reply).0.well_formed(),
        outcome(run, reply).0.position() == run.position() + 1,
        outcome(run, reply).2 == script(run.plan, run.target)[run.position() + 1],
        outcome(run, reply).0.stage is Finished <==> run.position() + 1 == script(run.plan, run.target).len() - 1,
{
    let ranges = run.plan.ranges;
    let next = outcome(run, reply).0;
    lemma_parts_script(ranges, run.target, 0, 0);
    match run.stage {
        Stage::Preparing => {},
        Stage::Working { part, step } => {
            lemma_parts_script(ranges, run.target, part, step);
            if step + 1 < part_steps(ranges[part]) {
                lemma_parts_script(ranges, run.target, part, step + 1);
            } else if part + 1 < ranges.len() {
                lemma_parts_script(ranges, run.target, part + 1, 0);
            } else {
                assert(steps_before(ranges, ranges.len() as int) == steps_before(ranges, part) + part_steps(
                    ranges[part],
                ));
            }
        },
        _ => {},
    }
}

/// Whatever the replies, a run keeps its plan, its target and its
/// verbosity, stays well formed, and once over stays over.
pub proof fn run_keeps_plan(run: Run, replies: Seq<Reply>)
    requires
        run.well_formed(),
    ensures
        run_after(run, replies).plan == run.plan,
        run_after(run, replies).target == run.target,
        run_after(run, replies).verbose == run.verbose,
        run_after(run, replies).well_formed(),
        run.closed() ==> run_after(run, replies).closed(),
    decreases replies.len(),
{
    if replies.len() > 0 {
        run_keeps_plan(run, replies.drop_last());
    }
}

} // verus!
