use errgonomic::ErrVec;
use errgonomic::ErrorTree;
use errgonomic::Errgonomic;
use errgonomic::writeln_error_to_writer;
use errgonomic::writeln_error_to_writer_and_file;

fn leaf(message: &str) -> ErrorTree {
    ErrorTree::Chain {
        message: message.as_bytes().to_vec(),
        cause: None,
    }
}

fn link(message: &str, cause: ErrorTree) -> ErrorTree {
    ErrorTree::Chain {
        message: message.as_bytes().to_vec(),
        cause: Some(Box::new(cause)),
    }
}

fn rendering_of(tree: &ErrorTree) -> String {
    let mut output = Vec::new();
    writeln_error_to_writer(tree, &mut output);
    String::from_utf8(output).unwrap()
}

#[test]
fn must_write_error() {
    let row_foo = link(
        "failed to send an i18n request for row 'Foo'",
        link(
            "failed to construct a JSON schema",
            leaf("input must be an object"),
        ),
    );
    let row_bar = link(
        "failed to send a request",
        leaf("address 239.143.73.1 is not available"),
    );
    let rows = ErrVec {
        inner: vec![row_foo, row_bar],
    };
    let error = link(
        "failed to run CLI command",
        link(
            "failed to run i18n update command",
            link("failed to update 2 rows", rows.to_error_tree()),
        ),
    );
    let expected = "failed to run CLI command\n\
                    failed to run i18n update command\n\
                    failed to update 2 rows\n\
                    encountered 2 errors\n\
                    \x20 * failed to send an i18n request for row 'Foo'\n\
                    \x20   failed to construct a JSON schema\n\
                    \x20   input must be an object\n\
                    \x20 * failed to send a request\n\
                    \x20   address 239.143.73.1 is not available\n";
    assert_eq!(rendering_of(&error), expected);
}

#[test]
fn chain_of_three_renders_three_plain_lines() {
    let error = link("A", link("B", leaf("C")));
    assert_eq!(rendering_of(&error), "A\nB\nC\n");
}

#[test]
fn aggregate_of_two_leaves_renders_two_bullets() {
    let error = ErrorTree::Aggregate {
        message: b"encountered 2 errors".to_vec(),
        children: vec![leaf("X"), leaf("Y")],
    };
    assert_eq!(
        rendering_of(&error),
        "encountered 2 errors\n  * X\n  * Y\n"
    );
}

#[test]
fn aggregate_child_chain_continues_without_bullet() {
    let error = ErrorTree::Aggregate {
        message: b"encountered 1 errors".to_vec(),
        children: vec![link("X", leaf("X2"))],
    };
    assert_eq!(
        rendering_of(&error),
        "encountered 1 errors\n  * X\n    X2\n"
    );
}

#[test]
fn nested_aggregate_indents_twice() {
    let inner = ErrorTree::Aggregate {
        message: b"inner".to_vec(),
        children: vec![leaf("W")],
    };
    let outer = ErrorTree::Aggregate {
        message: b"outer".to_vec(),
        children: vec![inner],
    };
    assert_eq!(rendering_of(&outer), "outer\n  * inner\n      * W\n");
}

#[test]
fn report_points_at_persisted_detail() {
    let error = leaf("A");
    let mut output = Vec::new();
    writeln_error_to_writer_and_file(
        &error,
        &mut output,
        Ok(b"/tmp/full-report.txt".to_vec()),
    );
    assert_eq!(
        String::from_utf8(output).unwrap(),
        "A\n\nSee the full error report:\nless /tmp/full-report.txt\n"
    );
}

#[test]
fn report_degrades_to_persistence_failure_text() {
    let error = leaf("A");
    let mut output = Vec::new();
    writeln_error_to_writer_and_file(&error, &mut output, Err(b"disk full".to_vec()));
    assert_eq!(String::from_utf8(output).unwrap(), "A\n\ndisk full\n");
}

#[test]
fn aggregate_without_children_renders_only_its_message() {
    let error = ErrorTree::Aggregate {
        message: b"encountered 0 errors".to_vec(),
        children: vec![],
    };
    assert_eq!(rendering_of(&error), "encountered 0 errors\n");
}

#[test]
fn multi_line_message_gets_continuation_prefix_inside_bullet() {
    let error = ErrorTree::Aggregate {
        message: b"top".to_vec(),
        children: vec![leaf("first\nwrapped")],
    };
    assert_eq!(rendering_of(&error), "top\n  * first\n    wrapped\n");
}
