use pdf_splitter::{part_file_name, ErrorKind, SplitArgs, SplitError};

fn request(output_dir: Option<&str>, output_basename: Option<&str>) -> SplitArgs {
    SplitArgs {
        file_path: String::from("source.pdf"),
        parts: 2,
        intro_range: None,
        output_dir: output_dir.map(String::from),
        output_basename: output_basename.map(String::from),
        verbose: false,
        dry_run: false,
    }
}

#[test]
fn part_files_are_numbered_without_padding() {
    assert_eq!(part_file_name("output", 1), "output_part1.pdf");
    assert_eq!(part_file_name("report", 9), "report_part9.pdf");
    assert_eq!(part_file_name("report", 10), "report_part10.pdf");
    assert_eq!(part_file_name("report", 12345), "report_part12345.pdf");
    assert_eq!(part_file_name("", 0), "_part0.pdf");
    assert_eq!(part_file_name("r\u{e9}sum\u{e9}", 307), "r\u{e9}sum\u{e9}_part307.pdf");
}

#[test]
fn largest_part_number_is_written_in_full() {
    assert_eq!(part_file_name("x", usize::MAX), format!("x_part{}.pdf", usize::MAX));
}

#[test]
fn part_numbers_match_the_usual_decimal_notation() {
    for n in (0..2000usize).chain([9_999, 10_000, 10_001, 99_999, 100_000, 1_000_000_007]) {
        assert_eq!(part_file_name("p", n), format!("p_part{}.pdf", n));
    }
}

#[test]
fn output_defaults() {
    let args = request(None, None);
    assert_eq!(args.basename(), "output");
    assert_eq!(args.directory(), ".");
    assert_eq!(args.part_file_name(3), "output_part3.pdf");
}

#[test]
fn output_as_requested() {
    let args = request(Some("out/dir"), Some("chapter"));
    assert_eq!(args.basename(), "chapter");
    assert_eq!(args.directory(), "out/dir");
    assert_eq!(args.part_file_name(12), "chapter_part12.pdf");
}

#[test]
fn every_failure_has_its_class() {
    let s = || String::from("x");
    let cases = vec![
        (SplitError::ZeroParts, ErrorKind::InvalidArgument),
        (SplitError::IntroStartOutOfRange { start: 0 }, ErrorKind::InvalidArgument),
        (SplitError::IntroEndOutOfRange { end: 0 }, ErrorKind::InvalidArgument),
        (SplitError::TooManyParts { parts: 3, body_pages: 2 }, ErrorKind::InvalidArgument),
        (SplitError::SourceNotFound { path: s() }, ErrorKind::NotFound),
        (SplitError::EmptySource, ErrorKind::DocumentError),
        (SplitError::Engine { detail: s() }, ErrorKind::DocumentError),
        (SplitError::CopyFailed { page: 1, intro: true, detail: s() }, ErrorKind::DocumentError),
        (
            SplitError::PageCountMismatch { part_index: 1, page: 1, intro: true, expected: 1, found: 0 },
            ErrorKind::VerificationError,
        ),
        (SplitError::EmptyArtifact { path: s() }, ErrorKind::VerificationError),
        (SplitError::UnexpectedReply, ErrorKind::VerificationError),
        (SplitError::OutputDirFailed { detail: s() }, ErrorKind::IoError),
        (SplitError::SaveFailed { detail: s() }, ErrorKind::IoError),
    ];
    for (error, kind) in cases {
        assert_eq!(error.kind(), kind);
        assert_eq!(error.exit_code(), kind.exit_code());
    }
}

#[test]
fn exit_codes() {
    assert_eq!(ErrorKind::InvalidArgument.exit_code(), 2);
    assert_eq!(ErrorKind::NotFound.exit_code(), 3);
    assert_eq!(ErrorKind::IoError.exit_code(), 3);
    assert_eq!(ErrorKind::DocumentError.exit_code(), 4);
    assert_eq!(ErrorKind::VerificationError.exit_code(), 4);
    assert_eq!(SplitError::ZeroParts.exit_code(), 2);
    assert_eq!(SplitError::SourceNotFound { path: String::from("a.pdf") }.exit_code(), 3);
    assert_eq!(SplitError::EmptySource.exit_code(), 4);
}

#[test]
fn failures_in_words() {
    let detail = || String::from("engine says no");
    assert_eq!(SplitError::ZeroParts.message(), "Invalid parts value, must be a positive integer");
    assert_eq!(SplitError::IntroStartOutOfRange { start: 25 }.message(), "Invalid intro start page: 25");
    assert_eq!(SplitError::IntroEndOutOfRange { end: 3 }.message(), "Invalid intro end page: 3");
    assert_eq!(
        SplitError::TooManyParts { parts: 12, body_pages: 7 }.message(),
        "Cannot split 7 body pages into 12 parts"
    );
    assert_eq!(
        SplitError::SourceNotFound { path: String::from("/tmp/a.pdf") }.message(),
        "File not found at /tmp/a.pdf"
    );
    assert_eq!(SplitError::EmptySource.message(), "Source PDF has no pages");
    assert_eq!(SplitError::Engine { detail: detail() }.message(), "engine says no");
    assert_eq!(
        SplitError::CopyFailed { page: 104, intro: true, detail: detail() }.message(),
        "Failed to copy intro page 104: engine says no"
    );
    assert_eq!(
        SplitError::CopyFailed { page: 7, intro: false, detail: detail() }.message(),
        "Failed to copy content page 7: engine says no"
    );
    assert_eq!(
        SplitError::PageCountMismatch { part_index: 2, page: 30, intro: true, expected: 3, found: 2 }.message(),
        "Failed to verify page copy for intro page 30"
    );
    assert_eq!(
        SplitError::PageCountMismatch { part_index: 2, page: 31, intro: false, expected: 3, found: 2 }.message(),
        "Failed to verify page copy for content page 31"
    );
    assert_eq!(
        SplitError::EmptyArtifact { path: String::from("out/x_part1.pdf") }.message(),
        "Output file out/x_part1.pdf has zero size"
    );
    assert_eq!(SplitError::UnexpectedReply.message(), "Unexpected reply to a command");
    assert_eq!(SplitError::OutputDirFailed { detail: detail() }.message(), "engine says no");
    assert_eq!(SplitError::SaveFailed { detail: detail() }.message(), "Failed to save output file: engine says no");
}
