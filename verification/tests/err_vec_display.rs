use errgonomic::err_vec_display::BarError;
use errgonomic::err_vec_display::ErrVecDisplay;
use errgonomic::err_vec_display::FooError;
use errgonomic::err_vec_display::ZedError;
use errgonomic::err_vec_display::format_error_chain;
use errgonomic::err_vec_display::write_error_chain;
use errgonomic::errgonomic::Errgonomic;

#[test]
fn must_err_vec_try() {
    let error = FooError::BarFailed {
        source: BarError::ZedsFailed {
            source: ErrVecDisplay {
                inner: vec![ZedError::KsaFailed, ZedError::PryFailed],
            },
        },
    };
    let output = format_error_chain(&error, b"- ");
    let expected =
        b"- bar failed\n- zeds failed\n- encountered 2 errors\n  * ksa failed\n  * pry failed";
    assert_eq!(output, expected.to_vec());
}

#[test]
fn format_error_chain_single_leaf() {
    let output = format_error_chain(&ZedError::KsaFailed, b"- ");
    assert_eq!(output, b"- ksa failed".to_vec());
}

#[test]
fn format_error_chain_empty_prefix() {
    let output = format_error_chain(&ZedError::PryFailed, b"");
    assert_eq!(output, b"pry failed".to_vec());
}

#[test]
fn write_error_chain_appends() {
    let tree = ZedError::KsaFailed.to_error_tree();
    let mut output = b"start\n".to_vec();
    write_error_chain(&mut output, &tree, b"> ");
    assert_eq!(output, b"start\n> ksa failed".to_vec());
}

#[test]
fn err_vec_display_fmt_lists_each_error_bulleted() {
    let collection = ErrVecDisplay {
        inner: vec![ZedError::KsaFailed, ZedError::PryFailed],
    };
    let mut output = Vec::new();
    collection.fmt(&mut output);
    assert_eq!(
        String::from_utf8(output).unwrap(),
        "encountered 2 errors\n  * ksa failed\n  * pry failed"
    );
}

#[test]
fn tree_building_is_deterministic() {
    let error = FooError::BarFailed {
        source: BarError::ZedsFailed {
            source: ErrVecDisplay {
                inner: vec![ZedError::KsaFailed, ZedError::PryFailed],
            },
        },
    };
    let first_build = error.to_error_tree();
    let second_build = error.to_error_tree();
    assert_eq!(first_build, second_build);
}
