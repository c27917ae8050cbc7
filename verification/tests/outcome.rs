use errgonomic::DisplayDebugPair;
use errgonomic::DoDisplay;
use errgonomic::DoWrite;
use errgonomic::ErrVec;
use errgonomic::ErrorDisplayer;
use errgonomic::ErrorTree;
use errgonomic::Errgonomic;
use errgonomic::ExitSignal;
use errgonomic::ItemError;
use errgonomic::ZedError;
use errgonomic::decimal_bytes;
use errgonomic::encountered_errors_bytes;
use errgonomic::exit_result;
use errgonomic::exit_results;
use errgonomic::fmt;
use errgonomic::get_root_source;
use errgonomic::partition_result;
use errgonomic::write_error::writeln_error;
use errgonomic::write_error::writeln_error_only;

fn leaf(message: &str) -> ErrorTree {
    ErrorTree::Chain {
        message: message.as_bytes().to_vec(),
        cause: None,
    }
}

fn link(message: &str, cause: ErrorTree) -> ErrorTree {
    ErrorTree::Chain {
        message: message.as_bytes().to_vec(),
        cause: Some(Box::new(cause)),
    }
}

#[test]
fn success_emits_success_signal_and_no_report() {
    let outcome: Result<(), ZedError> = Ok(());
    let (signal, report) = exit_result(outcome);
    assert_eq!(signal, ExitSignal::Success);
    assert!(report.is_none());
}

#[test]
fn failure_emits_failure_signal_and_the_tree() {
    let outcome: Result<(), ZedError> = Err(ZedError::KsaFailed);
    let (signal, report) = exit_result(outcome);
    assert_eq!(signal, ExitSignal::Failure);
    assert_eq!(report, Some(leaf("ksa failed")));
}

#[test]
fn sequence_stops_at_first_failure() {
    let outcomes: Vec<Result<(), ZedError>> = vec![
        Ok(()),
        Err(ZedError::PryFailed),
        Ok(()),
    ];
    let (signal, report) = exit_results(outcomes);
    assert_eq!(signal, ExitSignal::Failure);
    assert_eq!(report, Some(leaf("pry failed")));
}

#[test]
fn sequence_of_successes_emits_success() {
    let outcomes: Vec<Result<(), ZedError>> = vec![Ok(()), Ok(()), Ok(())];
    let (signal, report) = exit_results(outcomes);
    assert_eq!(signal, ExitSignal::Success);
    assert!(report.is_none());
}

#[test]
fn sequence_reports_the_first_of_two_failures() {
    let outcomes: Vec<Result<(), ZedError>> = vec![
        Err(ZedError::KsaFailed),
        Err(ZedError::PryFailed),
    ];
    let (_, report) = exit_results(outcomes);
    assert_eq!(report, Some(leaf("ksa failed")));
}

#[test]
fn partition_keeps_all_values_when_nothing_fails() {
    let results: Vec<Result<u32, &str>> = vec![Ok(1), Ok(2), Ok(3)];
    assert_eq!(partition_result(results), Ok(vec![1, 2, 3]));
}

#[test]
fn partition_collects_all_errors_in_order() {
    let results: Vec<Result<u32, &str>> = vec![Ok(1), Err("a"), Ok(2), Err("b")];
    assert_eq!(partition_result(results), Err(vec!["a", "b"]));
}

#[test]
fn partition_of_empty_input_is_ok_and_empty() {
    let results: Vec<Result<u32, &str>> = vec![];
    assert_eq!(partition_result(results), Ok(vec![]));
}

#[test]
fn root_source_is_the_deepest_cause() {
    let error = link("A", link("B", leaf("C")));
    assert_eq!(get_root_source(&error), &leaf("C"));
}

#[test]
fn root_source_of_leaf_is_itself() {
    let error = leaf("A");
    assert_eq!(get_root_source(&error), &leaf("A"));
}

#[test]
fn root_source_stops_at_an_aggregate() {
    let aggregate = ErrorTree::Aggregate {
        message: b"encountered 1 errors".to_vec(),
        children: vec![leaf("X")],
    };
    let error = link("A", aggregate);
    match get_root_source(&error) {
        ErrorTree::Aggregate { message, .. } => {
            assert_eq!(message, &b"encountered 1 errors".to_vec());
        }
        ErrorTree::Chain { .. } => panic!("root should be the aggregate"),
    }
}

#[test]
fn decimal_rendering_is_exact() {
    assert_eq!(decimal_bytes(0), b"0".to_vec());
    assert_eq!(decimal_bytes(7), b"7".to_vec());
    assert_eq!(decimal_bytes(42), b"42".to_vec());
    assert_eq!(decimal_bytes(1000), b"1000".to_vec());
    assert_eq!(decimal_bytes(987654), b"987654".to_vec());
}

#[test]
fn encountered_message_counts_the_errors() {
    assert_eq!(encountered_errors_bytes(2), b"encountered 2 errors".to_vec());
    assert_eq!(encountered_errors_bytes(0), b"encountered 0 errors".to_vec());
}

#[test]
fn err_vec_new_collects_trees_in_order() {
    let collected = ErrVec::new(vec![ZedError::KsaFailed, ZedError::PryFailed]);
    assert_eq!(collected.inner, vec![leaf("ksa failed"), leaf("pry failed")]);
    let tree = collected.to_error_tree();
    assert_eq!(
        tree,
        ErrorTree::Aggregate {
            message: b"encountered 2 errors".to_vec(),
            children: vec![leaf("ksa failed"), leaf("pry failed")],
        }
    );
}

#[test]
fn fmt_renders_the_whole_trace() {
    let mut out = Vec::new();
    fmt(&ZedError::KsaFailed, &mut out);
    assert_eq!(String::from_utf8(out).unwrap(), "ksa failed\n");
}

#[test]
fn do_write_renders_the_tree() {
    let error = link("A", leaf("B"));
    let mut out = Vec::new();
    error.do_write(&mut out);
    assert_eq!(String::from_utf8(out).unwrap(), "A\nB\n");
}

#[test]
fn do_display_is_the_top_message() {
    let error = link("A", leaf("B"));
    assert_eq!(error.do_display(), b"A".to_vec());
}

#[test]
fn error_displayer_shows_the_trace() {
    let error = ZedError::PryFailed;
    let displayer = ErrorDisplayer::from(&error);
    let mut out = Vec::new();
    displayer.fmt(&mut out);
    assert_eq!(String::from_utf8(out).unwrap(), "pry failed\n");
}

#[test]
fn item_error_names_item_and_source() {
    let error = ItemError {
        item: leaf("row 7"),
        source: ZedError::KsaFailed,
    };
    let tree = error.to_error_tree();
    assert_eq!(
        tree,
        link("error occurred for item row 7: ksa failed", leaf("ksa failed"))
    );
}

#[test]
fn display_debug_pair_captures_the_display_text() {
    let pair = DisplayDebugPair::from(leaf("A"));
    assert_eq!(pair.display, b"A".to_vec());
    assert_eq!(pair.debug, leaf("A"));
}

#[test]
fn plus_variant_renders_plus_bullets() {
    let error = ErrorTree::Aggregate {
        message: b"encountered 2 errors".to_vec(),
        children: vec![leaf("X"), leaf("Y")],
    };
    let mut out = Vec::new();
    writeln_error_only(&error, &mut out);
    assert_eq!(
        String::from_utf8(out).unwrap(),
        "encountered 2 errors\n  + X\n  + Y\n"
    );
}

#[test]
fn plus_variant_report_includes_pointer() {
    let error = leaf("A");
    let mut out = Vec::new();
    writeln_error(&error, &mut out, Ok(b"/tmp/report".to_vec()));
    assert_eq!(
        String::from_utf8(out).unwrap(),
        "A\n\nSee the full error report:\nless /tmp/report\n"
    );
}
