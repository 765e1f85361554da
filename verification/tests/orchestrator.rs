use pdf_splitter::{
    calculate_ranges, Command, EmptyParts, ErrorKind, Event, Orchestrator, Reply, SplitArgs, SplitError,
};

fn request(parts: usize, intro_range: Option<(usize, usize)>, verbose: bool, dry_run: bool) -> SplitArgs {
    SplitArgs {
        file_path: String::from("source.pdf"),
        parts,
        intro_range,
        output_dir: None,
        output_basename: None,
        verbose,
        dry_run,
    }
}

fn prepare(directory: &str) -> Command {
    Command::PrepareOutput { directory: String::from(directory) }
}

fn persist(part_index: usize, directory: &str, file_name: &str) -> Command {
    Command::Persist { part_index, directory: String::from(directory), file_name: String::from(file_name) }
}

/// Drives a run with a collaborator that does everything it is asked to.
fn drive(args: &SplitArgs, total_pages: usize) -> (Vec<Command>, Vec<Event>, Orchestrator) {
    let (mut run, mut command) = Orchestrator::start(args, total_pages).unwrap();
    let mut commands = Vec::new();
    let mut events = Vec::new();
    let mut output_pages = 0;
    loop {
        commands.push(command.clone());
        let reply = match command {
            Command::PrepareOutput { .. } => Reply::Done,
            Command::CreateDocument => {
                output_pages = 0;
                Reply::Done
            }
            Command::CopyPage { dest_index, .. } => {
                assert_eq!(dest_index, output_pages);
                output_pages += 1;
                Reply::Copied { output_pages }
            }
            Command::Persist { directory, file_name, .. } => {
                Reply::Persisted { path: format!("{}/{}", directory, file_name), size: 100 }
            }
            Command::Finish | Command::Abort(_) => return (commands, events, run),
        };
        let (next, reported, following) = run.advance(reply);
        run = next;
        events.extend(reported);
        command = following;
    }
}

#[test]
fn parts_are_produced_in_order() {
    let args = request(2, Some((1, 2)), false, false);
    let (commands, events, run) = drive(&args, 5);
    assert_eq!(
        commands,
        vec![
            prepare("."),
            Command::CreateDocument,
            Command::CopyPage { source_index: 0, dest_index: 0 },
            Command::CopyPage { source_index: 1, dest_index: 1 },
            Command::CopyPage { source_index: 2, dest_index: 2 },
            Command::CopyPage { source_index: 3, dest_index: 3 },
            persist(1, ".", "output_part1.pdf"),
            Command::CreateDocument,
            Command::CopyPage { source_index: 0, dest_index: 0 },
            Command::CopyPage { source_index: 1, dest_index: 1 },
            Command::CopyPage { source_index: 4, dest_index: 2 },
            persist(2, ".", "output_part2.pdf"),
            Command::Finish,
        ]
    );
    assert!(events.is_empty());
    assert_eq!(run.into_result(), Some(calculate_ranges(5, 2, Some((1, 2)))));
}

#[test]
fn verbose_run_reports_progress_parts_and_completion() {
    let args = request(2, Some((1, 1)), true, false);
    let (_, events, run) = drive(&args, 4);
    assert_eq!(
        events,
        vec![
            Event::Progress { page: 1, total: 3 },
            Event::Progress { page: 2, total: 3 },
            Event::Progress { page: 3, total: 3 },
            Event::PartComplete { index: 1, path: String::from("./output_part1.pdf") },
            Event::Progress { page: 1, total: 2 },
            Event::Progress { page: 2, total: 2 },
            Event::PartComplete { index: 2, path: String::from("./output_part2.pdf") },
            Event::Complete { output_count: 2 },
        ]
    );
    assert_eq!(run.into_result(), Some(calculate_ranges(4, 2, Some((1, 1)))));
}

#[test]
fn quiet_run_reports_nothing() {
    let args = request(3, None, false, false);
    let (commands, events, _) = drive(&args, 9);
    assert!(events.is_empty());
    assert_eq!(commands.len(), 1 + 3 * (1 + 3 + 1) + 1);
}

#[test]
fn dry_run_finishes_at_once_with_the_plan() {
    let args = request(4, Some((1, 4)), true, true);
    let (run, command) = Orchestrator::start(&args, 20).unwrap();
    assert_eq!(command, Command::Finish);
    assert_eq!(run.into_result(), Some(calculate_ranges(20, 4, Some((1, 4)))));
}

#[test]
fn dry_run_and_real_run_give_the_same_result() {
    for (total, parts, intro) in [(20, 4, None), (19, 4, None), (20, 4, Some((1, 4))), (3, 5, None)] {
        let (dry, command) = Orchestrator::start(&request(parts, intro, false, true), total).unwrap();
        assert_eq!(command, Command::Finish);
        let (commands, _, worked) = drive(&request(parts, intro, false, false), total);
        assert_eq!(commands.last(), Some(&Command::Finish));
        let dry = dry.into_result();
        assert!(dry.is_some());
        assert_eq!(dry, worked.into_result());
    }
}

#[test]
fn part_without_pages_is_still_created_and_written() {
    let args = request(3, None, false, false);
    let (commands, _, run) = drive(&args, 2);
    assert_eq!(
        commands,
        vec![
            prepare("."),
            Command::CreateDocument,
            Command::CopyPage { source_index: 0, dest_index: 0 },
            persist(1, ".", "output_part1.pdf"),
            Command::CreateDocument,
            Command::CopyPage { source_index: 1, dest_index: 0 },
            persist(2, ".", "output_part2.pdf"),
            Command::CreateDocument,
            persist(3, ".", "output_part3.pdf"),
            Command::Finish,
        ]
    );
    assert!(run.into_result().is_some());
}

#[test]
fn rejecting_empty_parts_refuses_more_parts_than_body_pages() {
    let args = request(3, Some((1, 2)), false, false);
    let err = Orchestrator::start_with(&args, 4, EmptyParts::Reject).err().unwrap();
    assert_eq!(err, SplitError::TooManyParts { parts: 3, body_pages: 2 });
    assert_eq!(err.kind(), ErrorKind::InvalidArgument);
    assert!(Orchestrator::start_with(&args, 5, EmptyParts::Reject).is_ok());
    assert!(Orchestrator::start_with(&args, 4, EmptyParts::Emit).is_ok());
    assert!(Orchestrator::start(&args, 4).is_ok());
    assert_eq!(EmptyParts::default(), EmptyParts::Emit);
}

#[test]
fn zero_parts_is_refused_whatever_else_is_asked() {
    for total in [0usize, 1, 20] {
        for intro in [None, Some((1usize, 4usize)), Some((5, 3))] {
            for dry_run in [false, true] {
                let args = request(0, intro, false, dry_run);
                assert_eq!(args.check(), Err(SplitError::ZeroParts));
                let err = Orchestrator::start(&args, total).err().unwrap();
                assert_eq!(err, SplitError::ZeroParts);
                assert_eq!(err.kind(), ErrorKind::InvalidArgument);
            }
        }
    }
}

#[test]
fn reversed_intro_is_refused() {
    let args = request(4, Some((5, 3)), false, false);
    assert_eq!(args.check(), Err(SplitError::IntroEndOutOfRange { end: 3 }));
    let err = Orchestrator::start(&args, 20).err().unwrap();
    assert_eq!(err, SplitError::IntroEndOutOfRange { end: 3 });
    assert_eq!(err.kind(), ErrorKind::InvalidArgument);
}

#[test]
fn intro_is_checked_against_the_source() {
    let args = request(4, Some((3, 25)), false, false);
    assert_eq!(args.check(), Ok(()));
    assert_eq!(Orchestrator::start(&args, 20).err(), Some(SplitError::IntroEndOutOfRange { end: 25 }));
    let args = request(4, Some((21, 25)), false, false);
    assert_eq!(Orchestrator::start(&args, 20).err(), Some(SplitError::IntroStartOutOfRange { start: 21 }));
    let args = request(4, Some((0, 2)), false, false);
    assert_eq!(args.check(), Err(SplitError::IntroStartOutOfRange { start: 0 }));
    assert_eq!(Orchestrator::start(&args, 20).err(), Some(SplitError::IntroStartOutOfRange { start: 0 }));
}

#[test]
fn source_without_pages_is_refused() {
    let args = request(4, None, false, false);
    let err = Orchestrator::start(&args, 0).err().unwrap();
    assert_eq!(err, SplitError::EmptySource);
    assert_eq!(err.kind(), ErrorKind::DocumentError);
}

#[test]
fn short_copy_aborts_the_run() {
    let args = request(2, Some((1, 1)), true, false);
    let (run, _) = Orchestrator::start(&args, 4).unwrap();
    let (run, _, _) = run.advance(Reply::Done);
    let (run, _, command) = run.advance(Reply::Done);
    assert_eq!(command, Command::CopyPage { source_index: 0, dest_index: 0 });
    let (run, _, command) = run.advance(Reply::Copied { output_pages: 1 });
    assert_eq!(command, Command::CopyPage { source_index: 1, dest_index: 1 });
    // The copy reported success, but the output did not grow.
    let (run, events, command) = run.advance(Reply::Copied { output_pages: 1 });
    assert!(events.is_empty());
    let expected =
        SplitError::PageCountMismatch { part_index: 1, page: 2, intro: false, expected: 2, found: 1 };
    assert_eq!(expected.kind(), ErrorKind::VerificationError);
    assert_eq!(command, Command::Abort(expected));
    assert_eq!(run.into_result(), None);
}

#[test]
fn copy_that_adds_two_pages_aborts_the_run() {
    let args = request(1, Some((1, 2)), false, false);
    let (run, _) = Orchestrator::start(&args, 4).unwrap();
    let (run, _, _) = run.advance(Reply::Done);
    let (run, _, _) = run.advance(Reply::Done);
    let (_, _, command) = run.advance(Reply::Copied { output_pages: 2 });
    assert_eq!(
        command,
        Command::Abort(SplitError::PageCountMismatch { part_index: 1, page: 1, intro: true, expected: 1, found: 2 })
    );
}

#[test]
fn empty_artifact_aborts_the_run() {
    let args = request(2, None, true, false);
    let (run, _) = Orchestrator::start(&args, 2).unwrap();
    let (run, _, _) = run.advance(Reply::Done);
    let (run, _, _) = run.advance(Reply::Done);
    let (run, _, command) = run.advance(Reply::Copied { output_pages: 1 });
    assert_eq!(command, persist(1, ".", "output_part1.pdf"));
    let (run, events, command) = run.advance(Reply::Persisted { path: String::from("a.pdf"), size: 0 });
    assert!(events.is_empty());
    let expected = SplitError::EmptyArtifact { path: String::from("a.pdf") };
    assert_eq!(expected.kind(), ErrorKind::VerificationError);
    assert_eq!(command, Command::Abort(expected));
    assert_eq!(run.into_result(), None);
}

#[test]
fn failures_of_the_collaborators_are_classified() {
    let detail = String::from("boom");
    let args = request(1, None, false, false);

    let (run, _) = Orchestrator::start(&args, 1).unwrap();
    let (_, _, command) = run.advance(Reply::Failed { detail: detail.clone() });
    let expected = SplitError::OutputDirFailed { detail: detail.clone() };
    assert_eq!(expected.kind(), ErrorKind::IoError);
    assert_eq!(command, Command::Abort(expected));

    let (run, _) = Orchestrator::start(&args, 1).unwrap();
    let (run, _, _) = run.advance(Reply::Done);
    let (_, _, command) = run.advance(Reply::Failed { detail: detail.clone() });
    let expected = SplitError::Engine { detail: detail.clone() };
    assert_eq!(expected.kind(), ErrorKind::DocumentError);
    assert_eq!(command, Command::Abort(expected));

    let (run, _) = Orchestrator::start(&args, 1).unwrap();
    let (run, _, _) = run.advance(Reply::Done);
    let (run, _, _) = run.advance(Reply::Done);
    let (_, _, command) = run.advance(Reply::Failed { detail: detail.clone() });
    let expected = SplitError::CopyFailed { page: 1, intro: false, detail: detail.clone() };
    assert_eq!(expected.kind(), ErrorKind::DocumentError);
    assert_eq!(command, Command::Abort(expected));

    let (run, _) = Orchestrator::start(&args, 1).unwrap();
    let (run, _, _) = run.advance(Reply::Done);
    let (run, _, _) = run.advance(Reply::Done);
    let (run, _, _) = run.advance(Reply::Copied { output_pages: 1 });
    let (_, _, command) = run.advance(Reply::Failed { detail: detail.clone() });
    let expected = SplitError::SaveFailed { detail };
    assert_eq!(expected.kind(), ErrorKind::IoError);
    assert_eq!(command, Command::Abort(expected));
}

#[test]
fn reply_of_the_wrong_kind_aborts_the_run() {
    let args = request(1, None, false, false);
    let (run, _) = Orchestrator::start(&args, 1).unwrap();
    let (run, _, command) = run.advance(Reply::Copied { output_pages: 1 });
    assert_eq!(command, Command::Abort(SplitError::UnexpectedReply));
    assert_eq!(run.into_result(), None);

    let (run, _) = Orchestrator::start(&args, 1).unwrap();
    let (run, _, _) = run.advance(Reply::Done);
    let (run, _, _) = run.advance(Reply::Done);
    let (_, _, command) = run.advance(Reply::Done);
    assert_eq!(command, Command::Abort(SplitError::UnexpectedReply));
}

#[test]
fn run_that_is_over_takes_no_more_replies() {
    let args = request(1, None, false, false);
    let (_, _, run) = drive(&args, 1);
    let (run, events, command) = run.advance(Reply::Done);
    assert!(events.is_empty());
    assert_eq!(command, Command::Abort(SplitError::UnexpectedReply));
    assert_eq!(run.into_result(), None);

    let (run, command) = Orchestrator::start(&request(1, None, false, true), 1).unwrap();
    assert_eq!(command, Command::Finish);
    let (_, _, command) = run.advance(Reply::Done);
    assert_eq!(command, Command::Abort(SplitError::UnexpectedReply));
}

#[test]
fn failed_run_stays_failed() {
    let args = request(1, None, false, false);
    let (run, _) = Orchestrator::start(&args, 1).unwrap();
    let (run, _, _) = run.advance(Reply::Failed { detail: String::from("no directory") });
    let (run, _, command) = run.advance(Reply::Done);
    assert_eq!(command, Command::Abort(SplitError::UnexpectedReply));
    assert_eq!(run.into_result(), None);
}

#[test]
fn parts_are_written_where_the_request_says() {
    let mut args = request(2, None, false, false);
    args.output_dir = Some(String::from("out/dir"));
    args.output_basename = Some(String::from("chapter"));
    let (commands, _, _) = drive(&args, 2);
    assert_eq!(
        commands,
        vec![
            prepare("out/dir"),
            Command::CreateDocument,
            Command::CopyPage { source_index: 0, dest_index: 0 },
            persist(1, "out/dir", "chapter_part1.pdf"),
            Command::CreateDocument,
            Command::CopyPage { source_index: 1, dest_index: 0 },
            persist(2, "out/dir", "chapter_part2.pdf"),
            Command::Finish,
        ]
    );
}

#[test]
fn many_parts_are_numbered_without_padding() {
    let args = request(12, None, false, false);
    let (commands, _, _) = drive(&args, 12);
    let names: Vec<String> = commands
        .into_iter()
        .filter_map(|command| match command {
            Command::Persist { file_name, .. } => Some(file_name),
            _ => None,
        })
        .collect();
    let expected: Vec<String> = (1..=12).map(|i| format!("output_part{}.pdf", i)).collect();
    assert_eq!(names, expected);
}

#[test]
fn first_command_prepares_the_output_directory() {
    let (_, command) = Orchestrator::start(&request(1, None, false, false), 1).unwrap();
    assert_eq!(command, prepare("."));
}
