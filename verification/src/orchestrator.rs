//! The split protocol: what to ask of the document engine, in which order,
//! and what to make of each answer.
//!
//! An `Orchestrator` never touches a document. It hands out one `Command` at
//! a time; a driver carries the command out against the engine and the file
//! system and reports back with a `Reply`, on which the orchestrator decides
//! what comes next. A run ends with `Command::Finish` or, at the first
//! failure, with `Command::Abort`.

use vstd::prelude::*;
use vstd::string::*;
use crate::error::SplitError;
use crate::model::{intro_view, Event, PageRange, SplitArgs, SplitResult};
use crate::plan::{
    intro_len, last_planned_page, lemma_planned_range, plan_of, plan_split, planned_range, refusal, valid_intro,
};
use crate::protocol::{
    outcome, part_command, part_steps, run_after, run_keeps_plan, Command, Reply, Run, Stage, Target,
};
use crate::naming::part_file_name;

verus! {

/// What a run does with a request for more parts than there are body pages,
/// which leaves the last parts without a body page.
#[derive(Debug, Clone, Copy, PartialEq, Eq)]
pub enum EmptyParts {
    /// Such parts are produced like any other: they hold the intro pages, or
    /// no page at all.
    Emit,
    /// The request is refused.
    Reject,
}

impl Default for EmptyParts {
    fn default() -> (policy: EmptyParts)
        ensures
            policy == EmptyParts::Emit,
    {
        EmptyParts::Emit
    }
}

/// Why a request is not admitted to a run on a source of `total_pages`
/// pages; `None` where it is.
///
/// What can be told from the request alone is told first: that it asks for
/// no parts, or that its intro range starts before page 1 or ends before it
/// starts. Then comes a source without pages, then an intro range that
/// reaches beyond the source, and last, where parts without a body page are
/// to be rejected, a request for more parts than body pages.
pub open spec fn admission(args: SplitArgs, total_pages: usize, policy: EmptyParts) -> Option<SplitError> {
    if args.malformed() is Some {
        args.malformed()
    } else if total_pages == 0 {
        Some(SplitError::EmptySource)
    } else if refusal(total_pages, args.parts, args.intro_range) is Some {
        refusal(total_pages, args.parts, args.intro_range)
    } else if policy == EmptyParts::Reject && args.parts > total_pages - intro_len(intro_view(args.intro_range)) {
        Some(
            SplitError::TooManyParts {
                parts: args.parts,
                body_pages: (total_pages - intro_len(intro_view(args.intro_range))) as usize,
            },
        )
    } else {
        None
    }
}

/// The run that `args` opens on a source of `total_pages` pages. A dry run
/// is over as soon as it is planned.
pub open spec fn opening(args: SplitArgs, total_pages: usize) -> Run {
    Run {
        plan: plan_of(total_pages as int, args.parts as int, intro_view(args.intro_range)),
        target: Target { directory: args.directory_of(), basename: args.basename_of() },
        verbose: args.verbose,
        stage: if args.dry_run {
            Stage::Finished
        } else {
            Stage::Preparing
        },
    }
}

/// A request that is admitted opens a well-formed run, and no request is
/// admitted that asks for no parts, names an intro range that is not valid,
/// or comes with a source without pages.
pub proof fn opening_is_well_formed(args: SplitArgs, total_pages: usize, policy: EmptyParts)
    requires
        admission(args, total_pages, policy) is None,
    ensures
        args.parts >= 1,
        total_pages >= 1,
        valid_intro(total_pages as int, intro_view(args.intro_range)),
        opening(args, total_pages).well_formed(),
{
    let ranges = opening(args, total_pages).plan.ranges;
    assert forall|i: int| 0 <= i < ranges.len() implies (#[trigger] ranges[i]).well_formed() && ranges[i].part_index
        == i + 1 by {
        lemma_planned_range(total_pages as int, args.parts as int, intro_view(args.intro_range), i);
    }
}

/// A dry run and a real run of the same request end with the same result:
/// a dry run is finished once it is opened, and whatever replies a real run
/// receives, its plan stays the plan of the dry run, which is the plan for
/// the source, the number of parts and the intro range of the request.
pub proof fn dry_run_matches_real_run(args: SplitArgs, total_pages: usize, policy: EmptyParts, replies: Seq<Reply>)
    requires
        admission(args, total_pages, policy) is None,
    ensures
        ({
            let dry = opening(SplitArgs { dry_run: true, ..args }, total_pages);
            let worked = run_after(opening(SplitArgs { dry_run: false, ..args }, total_pages), replies);
            &&& admission(SplitArgs { dry_run: true, ..args }, total_pages, policy) is None
            &&& admission(SplitArgs { dry_run: false, ..args }, total_pages, policy) is None
            &&& dry.stage is Finished
            &&& worked.plan == dry.plan
            &&& dry.plan == plan_of(total_pages as int, args.parts as int, intro_view(args.intro_range))
        }),
{
    let working = SplitArgs { dry_run: false, ..args };
    opening_is_well_formed(working, total_pages, policy);
    run_keeps_plan(opening(working, total_pages), replies);
}

impl SplitArgs {
    /// What is wrong with the request whatever the source holds; `None`
    /// where nothing is.
    pub open spec fn malformed(self) -> Option<SplitError> {
        if self.parts == 0 {
            Some(SplitError::ZeroParts)
        } else {
            match self.intro_range {
                Some((start, end)) => if start < 1 {
                    Some(SplitError::IntroStartOutOfRange { start })
                } else if end < start {
                    Some(SplitError::IntroEndOutOfRange { end })
                } else {
                    None
                },
                None => None,
            }
        }
    }

    /// Checks what can be checked of the request before the source is
    /// opened.
    pub fn check(&self) -> (result: Result<(), SplitError>)
        ensures
            match result {
                Ok(_) => self.malformed() is None,
                Err(e) => self.malformed() == Some(e),
            },
    {
        if self.parts == 0 {
            return Err(SplitError::ZeroParts);
        }
        match self.intro_range {
            Some((start, end)) => {
                if start < 1 {
                    return Err(SplitError::IntroStartOutOfRange { start });
                }
                if end < start {
                    return Err(SplitError::IntroEndOutOfRange { end });
                }
            },
            None => {},
        }
        Ok(())
    }
}

enum Cursor {
    Preparing,
    Working { part: usize, step: usize },
    Finished,
    Failed,
}

/// One run of the split protocol.
pub struct Orchestrator {
    plan: SplitResult,
    intro: Option<(usize, usize)>,
    directory: String,
    basename: String,
    verbose: bool,
    cursor: Cursor,
}

impl View for Cursor {
    type V = Stage;

    closed spec fn view(&self) -> Stage {
        match self {
            Cursor::Preparing => Stage::Preparing,
            Cursor::Working { part, step } => Stage::Working { part: *part as int, step: *step as int },
            Cursor::Finished => Stage::Finished,
            Cursor::Failed => Stage::Failed,
        }
    }
}

impl View for Orchestrator {
    type V = Run;

    closed spec fn view(&self) -> Run {
        Run {
            plan: self.plan@,
            target: Target { directory: self.directory@, basename: self.basename@ },
            verbose: self.verbose,
            stage: self.cursor@,
        }
    }
}

fn intro_pages(range: &PageRange) -> (count: usize)
    requires
        range@.well_formed(),
        range@.fits(),
    ensures
        count == range@.intro_len(),
{
    match (range.intro_start_page, range.intro_end_page) {
        (Some(start), Some(end)) => end - start + 1,
        _ => 0,
    }
}

fn page_count(range: &PageRange) -> (count: usize)
    requires
        range@.well_formed(),
        range@.fits(),
    ensures
        count == range@.page_count(),
{
    intro_pages(range) + (range.end_page + 1 - range.start_page)
}

fn source_page(range: &PageRange, k: usize) -> (page: usize)
    requires
        range@.well_formed(),
        range@.fits(),
        k < range@.page_count(),
    ensures
        page == range@.source_page(k as int),
{
    let intro: usize = intro_pages(range);
    match range.intro_start_page {
        Some(start) if k < intro => start + k,
        _ => range.start_page + (k - intro),
    }
}

fn command_of(range: &PageRange, directory: &String, basename: &String, step: usize) -> (command: Command)
    requires
        range@.well_formed(),
        range@.fits(),
        step < part_steps(range@),
    ensures
        command@ == part_command(range@, Target { directory: directory@, basename: basename@ }, step as int),
{
    if step == 0 {
        Command::CreateDocument
    } else if step <= page_count(range) {
        Command::CopyPage { source_index: source_page(range, step - 1) - 1, dest_index: step - 1 }
    } else {
        Command::Persist {
            part_index: range.part_index,
            directory: directory.clone(),
            file_name: part_file_name(basename.as_str(), range.part_index),
        }
    }
}

impl Orchestrator {
    #[verifier::type_invariant]
    spec fn inv(self) -> bool {
        let total: int = self.plan.total_pages_in_source as int;
        let parts: int = self.plan.parts_to_create as int;
        &&& 1 <= parts
        &&& valid_intro(total, intro_view(self.intro))
        &&& last_planned_page(total, intro_view(self.intro)) < usize::MAX
        &&& self.plan@ == plan_of(total, parts, intro_view(self.intro))
        &&& self.plan.ranges@.len() == parts
        &&& forall|i: int|
            0 <= i < parts ==> (#[trigger] self.plan.ranges@[i])@ == planned_range(
                total,
                parts,
                intro_view(self.intro),
                i,
            )
        &&& self.cursor matches Cursor::Working { part, step } ==> part < parts && step < part_steps(
            self.plan@.ranges[part as int],
        )
    }

    /// Opens a run for `args` on a source of `total_pages` pages, or refuses
    /// the request. Parts without a body page are produced like any other.
    ///
    /// A dry run is planned and finished at once: its first command is
    /// `Command::Finish`. Any other run starts by preparing the output
    /// directory.
    pub fn start(args: &SplitArgs, total_pages: usize) -> (result: Result<(Orchestrator, Command), SplitError>)
        requires
            admission(*args, total_pages, EmptyParts::Emit) is None ==> last_planned_page(
                total_pages as int,
                intro_view(args.intro_range),
            ) < usize::MAX,
        ensures
            match result {
                Ok((run, command)) => {
                    &&& admission(*args, total_pages, EmptyParts::Emit) is None
                    &&& run@ == opening(*args, total_pages)
                    &&& command@ == run@.pending()
                },
                Err(e) => admission(*args, total_pages, EmptyParts::Emit) == Some(e),
            },
    {
        Orchestrator::start_with(args, total_pages, EmptyParts::Emit)
    }

    /// Opens a run as `start` does, with `policy` deciding what becomes of a
    /// request for more parts than there are body pages.
    pub fn start_with(args: &SplitArgs, total_pages: usize, policy: EmptyParts) -> (result: Result<
        (Orchestrator, Command),
        SplitError,
    >)
        requires
            admission(*args, total_pages, policy) is None ==> last_planned_page(
                total_pages as int,
                intro_view(args.intro_range),
            ) < usize::MAX,
        ensures
            match result {
                Ok((run, command)) => {
                    &&& admission(*args, total_pages, policy) is None
                    &&& run@ == opening(*args, total_pages)
                    &&& command@ == run@.pending()
                },
                Err(e) => admission(*args, total_pages, policy) == Some(e),
            },
    {
        match args.check() {
            Err(e) => {
                return Err(e);
            },
            Ok(_) => {},
        }
        if total_pages == 0 {
            return Err(SplitError::EmptySource);
        }
        proof {
            crate::plan::lemma_refusal(total_pages, args.parts, args.intro_range);
        }
        if let Some((start, end)) = args.intro_range {
            if start > total_pages {
                return Err(SplitError::IntroStartOutOfRange { start });
            }
            if end > total_pages {
                return Err(SplitError::IntroEndOutOfRange { end });
            }
        }
        let intro_pages: usize = match args.intro_range {
            Some((start, end)) => end - start + 1,
            None => 0,
        };
        let body_pages: usize = total_pages - intro_pages;
        match policy {
            EmptyParts::Reject => {
                if args.parts > body_pages {
                    return Err(SplitError::TooManyParts { parts: args.parts, body_pages });
                }
            },
            EmptyParts::Emit => {},
        }
        match plan_split(total_pages, args.parts, args.intro_range) {
            Err(e) => Err(e),
            Ok(plan) => {
                let cursor: Cursor = if args.dry_run {
                    Cursor::Finished
                } else {
                    Cursor::Preparing
                };
                let directory: String = String::from_str(args.directory());
                let basename: String = String::from_str(args.basename());
                let command: Command = if args.dry_run {
                    Command::Finish
                } else {
                    Command::PrepareOutput { directory: directory.clone() }
                };
                Ok(
                    (
                        Orchestrator {
                            plan,
                            intro: args.intro_range,
                            directory,
                            basename,
                            verbose: args.verbose,
                            cursor,
                        },
                        command,
                    ),
                )
            },
        }
    }

    /// Takes the driver's reply to the pending command and decides what
    /// comes next: the run as it stands afterwards, the events to report,
    /// in order, and the next command.
    pub fn advance(self, reply: Reply) -> (next: (Orchestrator, Vec<Event>, Command))
        ensures
            next.0@ == outcome(self@, reply).0,
            next.1@ == outcome(self@, reply).1,
            next.2@ == outcome(self@, reply).2,
    {
        proof {
            use_type_invariant(&self);
        }
        let Orchestrator { plan, intro, directory, basename, verbose, cursor } = self;
        let ghost total: int = plan.total_pages_in_source as int;
        let parts: usize = plan.parts_to_create;
        let mut events: Vec<Event> = Vec::new();
        let verdict: Option<SplitError> = match cursor {
            Cursor::Finished | Cursor::Failed => Some(SplitError::UnexpectedReply),
            Cursor::Preparing => match reply {
                Reply::Done => None,
                Reply::Failed { detail } => Some(SplitError::OutputDirFailed { detail }),
                _ => Some(SplitError::UnexpectedReply),
            },
            Cursor::Working { part, step } => {
                proof {
                    lemma_planned_range(total, parts as int, intro_view(intro), part as int);
                }
                let range: PageRange = plan.ranges[part];
                let pages: usize = page_count(&range);
                if step == 0 {
                    match reply {
                        Reply::Done => None,
                        Reply::Failed { detail } => Some(SplitError::Engine { detail }),
                        _ => Some(SplitError::UnexpectedReply),
                    }
                } else if step <= pages {
                    let page: usize = source_page(&range, step - 1);
                    let intro_page: bool = step - 1 < intro_pages(&range);
                    match reply {
                        Reply::Copied { output_pages } => if output_pages == step {
                            if verbose {
                                events.push(Event::Progress { page: step, total: pages });
                            }
                            None
                        } else {
                            Some(
                                SplitError::PageCountMismatch {
                                    part_index: range.part_index,
                                    page,
                                    intro: intro_page,
                                    expected: step,
                                    found: output_pages,
                                },
                            )
                        },
                        Reply::Failed { detail } => Some(SplitError::CopyFailed { page, intro: intro_page, detail }),
                        _ => Some(SplitError::UnexpectedReply),
                    }
                } else {
                    match reply {
                        Reply::Persisted { path, size } => if size > 0 {
                            if verbose {
                                events.push(Event::PartComplete { index: range.part_index, path });
                                if range.part_index == parts {
                                    events.push(Event::Complete { output_count: parts });
                                }
                            }
                            None
                        } else {
                            Some(SplitError::EmptyArtifact { path })
                        },
                        Reply::Failed { detail } => Some(SplitError::SaveFailed { detail }),
                        _ => Some(SplitError::UnexpectedReply),
                    }
                }
            },
        };
        let (cursor, command): (Cursor, Command) = match verdict {
            Some(e) => (Cursor::Failed, Command::Abort(e)),
            None => match cursor {
                Cursor::Working { part, step } => {
                    proof {
                        lemma_planned_range(total, parts as int, intro_view(intro), part as int);
                    }
                    let range: PageRange = plan.ranges[part];
                    if step <= page_count(&range) {
                        (Cursor::Working { part, step: step + 1 }, command_of(&range, &directory, &basename, step + 1))
                    } else if part + 1 < parts {
                        proof {
                            lemma_planned_range(total, parts as int, intro_view(intro), part as int + 1);
                        }
                        (
                            Cursor::Working { part: part + 1, step: 0 },
                            command_of(&plan.ranges[part + 1], &directory, &basename, 0),
                        )
                    } else {
                        (Cursor::Finished, Command::Finish)
                    }
                },
                _ => {
                    proof {
                        lemma_planned_range(total, parts as int, intro_view(intro), 0);
                    }
                    (Cursor::Working { part: 0, step: 0 }, command_of(&plan.ranges[0], &directory, &basename, 0))
                },
            },
        };
        (Orchestrator { plan, intro, directory, basename, verbose, cursor }, events, command)
    }

    /// Ends the run and hands out its result: the plan, once the run has
    /// finished, and nothing before that or after a failure.
    pub fn into_result(self) -> (result: Option<SplitResult>)
        ensures
            match result {
                Some(plan) => self@.stage is Finished && plan@ == self@.plan,
                None => !(self@.stage is Finished),
            },
    {
        match self.cursor {
            Cursor::Finished => Some(self.plan),
            _ => None,
        }
    }
}

} // verus!
