use errgonomic::Prefixer;
use errgonomic::error_prefixer;

fn star_prefixer() -> Prefixer {
    Prefixer::new(b"  * ".to_vec(), b"    ".to_vec())
}

#[test]
fn prefixes_first_and_next_lines() {
    let mut p = star_prefixer();
    let mut out = Vec::new();
    p.write(b"one\ntwo\nthree", &mut out);
    assert_eq!(
        String::from_utf8(out).unwrap(),
        "  * one\n    two\n    three"
    );
}

#[test]
fn chunking_does_not_change_output() {
    let text = b"alpha\nbeta\n\ngamma";
    let mut whole_out = Vec::new();
    let mut whole = star_prefixer();
    whole.write(text, &mut whole_out);
    for split_at in 0..=text.len() {
        let mut split_out = Vec::new();
        let mut split = star_prefixer();
        split.write(&text[..split_at], &mut split_out);
        split.write(&text[split_at..], &mut split_out);
        assert_eq!(split_out, whole_out);
    }
}

#[test]
fn terminator_on_chunk_boundary() {
    let mut p = star_prefixer();
    let mut out = Vec::new();
    p.write(b"one\n", &mut out);
    p.write(b"two", &mut out);
    assert_eq!(String::from_utf8(out).unwrap(), "  * one\n    two");
}

#[test]
fn empty_write_is_a_no_op() {
    let mut p = star_prefixer();
    let mut out = Vec::new();
    p.write(b"", &mut out);
    assert!(out.is_empty());
    assert!(p.is_first_line);
    assert!(p.needs_prefix);
    p.write(b"x\n", &mut out);
    p.write(b"", &mut out);
    assert_eq!(String::from_utf8(out.clone()).unwrap(), "  * x\n");
    assert!(!p.is_first_line);
    assert!(p.needs_prefix);
}

#[test]
fn line_of_only_terminator_still_gets_prefix() {
    let mut p = star_prefixer();
    let mut out = Vec::new();
    p.write(b"\n\n", &mut out);
    assert_eq!(String::from_utf8(out).unwrap(), "  * \n    \n");
}

#[test]
fn error_prefixer_uses_bullet_and_continuation() {
    let mut p = error_prefixer();
    let mut out = Vec::new();
    p.write(b"a\nb", &mut out);
    assert_eq!(String::from_utf8(out).unwrap(), "  * a\n    b");
}

#[test]
fn write_error_variant_prefixer_uses_plus_bullet() {
    let mut p = errgonomic::write_error::error_prefixer();
    let mut out = Vec::new();
    p.write(b"a\nb", &mut out);
    assert_eq!(String::from_utf8(out).unwrap(), "  + a\n    b");
}
