//! Splitting raw submissions into provenance-tagged segments.

use evcxr_core::code_block::{
    from_original_user_code, is_blank_or_comment, parse_command, CodeKind,
};
use evcxr_core::code_block::count_columns;

fn concat(block: &evcxr_core::CodeBlock) -> String {
    block.code_string()
}

#[test]
fn split_empty_input_gives_empty_block() {
    let block = from_original_user_code("");
    assert!(block.segments.is_empty());
    assert_eq!(concat(&block), "");
}

#[test]
fn split_code_only_is_one_original_segment() {
    let block = from_original_user_code("let x = 1;\n");
    assert_eq!(block.segments.len(), 1);
    match &block.segments[0].kind {
        CodeKind::OriginalUserCode(m) => {
            assert_eq!(m.start_offset, 0);
            assert_eq!(m.start_line, 1);
            assert_eq!(m.column_offset, 0);
        }
        other => panic!("expected original user code, got {:?}", other),
    }
    assert_eq!(block.segments[0].sequence, Some(0));
    assert_eq!(concat(&block), "let x = 1;\n");
}

#[test]
fn split_appends_missing_final_newline() {
    let block = from_original_user_code("let x = 1;");
    assert_eq!(concat(&block), "let x = 1;\n");
}

#[test]
fn split_commands_blanks_comments_then_code() {
    let input = ":dep foo = \"1.0\"\n\n// a comment\nlet x = 1;\n";
    let block = from_original_user_code(input);
    assert_eq!(block.segments.len(), 4);
    match &block.segments[0].kind {
        CodeKind::Command(c) => {
            assert_eq!(c.command, ":dep");
            assert_eq!(c.args.as_deref(), Some("foo = \"1.0\""));
            assert_eq!(c.line_number, 1);
            assert_eq!(c.start_offset, 0);
        }
        other => panic!("expected a command, got {:?}", other),
    }
    assert!(matches!(block.segments[1].kind, CodeKind::OtherUserCode));
    assert!(matches!(block.segments[2].kind, CodeKind::OtherUserCode));
    match &block.segments[3].kind {
        CodeKind::OriginalUserCode(m) => {
            assert_eq!(m.start_line, 4);
        }
        other => panic!("expected original user code, got {:?}", other),
    }
    // Splitting never loses or reorders a byte.
    assert_eq!(concat(&block), input);
}

#[test]
fn split_never_takes_commands_after_code() {
    let input = "let x = 1;\n:dep foo\n";
    let block = from_original_user_code(input);
    assert_eq!(block.segments.len(), 1);
    assert!(matches!(
        block.segments[0].kind,
        CodeKind::OriginalUserCode(_)
    ));
    assert_eq!(concat(&block), input);
}

#[test]
fn split_round_trip_preserves_bytes_exactly() {
    let inputs = [
        ":clear\n",
        ":a\n:b\n:c\n",
        "// only a comment\n",
        "   \n\t\nlet y = 2;",
        ":opt 2\nfn main() {}\n",
        "a\n\nb\n",
    ];
    for input in inputs {
        let block = from_original_user_code(input);
        let mut expected = String::from(input);
        if !expected.is_empty() && !expected.ends_with('\n') {
            expected.push('\n');
        }
        assert_eq!(concat(&block), expected, "round trip of {input:?}");
    }
}

#[test]
fn parse_command_accepts_leading_spaces_and_args() {
    assert_eq!(
        parse_command("  :dep foo"),
        Some((":dep".to_string(), Some("foo".to_string())))
    );
    assert_eq!(parse_command(":clear"), Some((":clear".to_string(), None)));
    assert_eq!(
        parse_command(":cmd   a b "),
        Some((":cmd".to_string(), Some("a b ".to_string())))
    );
    assert_eq!(parse_command("x :dep"), None);
    assert_eq!(parse_command("let x = 1;"), None);
    assert_eq!(parse_command(""), None);
}

#[test]
fn blank_and_comment_lines_are_recognized() {
    assert!(is_blank_or_comment(""));
    assert!(is_blank_or_comment("   \t"));
    assert!(is_blank_or_comment("// text"));
    assert!(!is_blank_or_comment("  // indented comments are code"));
    assert!(!is_blank_or_comment("let x = 1;"));
}

#[test]
fn columns_count_unicode_scalar_values() {
    assert_eq!(count_columns("he\u{301}llo"), 6);
    assert_eq!(count_columns("αβγ"), 3);
    assert_eq!(count_columns(""), 0);
}

#[test]
fn committing_demotes_original_user_code() {
    let mut block = from_original_user_code(":opt 2\nlet x = 1;\n");
    assert!(block
        .segments
        .iter()
        .any(|s| matches!(s.kind, CodeKind::OriginalUserCode(_))));
    block.commit_old_user_code();
    assert!(!block
        .segments
        .iter()
        .any(|s| matches!(s.kind, CodeKind::OriginalUserCode(_))));
    assert!(matches!(block.segments[0].kind, CodeKind::Command(_)));
    assert!(matches!(block.segments[1].kind, CodeKind::OtherUserCode));
}

#[test]
fn segments_are_found_by_sequence_number() {
    let block = from_original_user_code("let x = 1;\n");
    let seg = block.segment_with_index(0).expect("sequence zero exists");
    assert_eq!(seg.code, "let x = 1;\n");
    assert!(block.segment_with_index(1).is_none());
}

#[test]
fn origin_for_line_walks_segment_line_counts() {
    let input = ":dep foo\nlet a = 1;\nlet b = 2;\n";
    let block = from_original_user_code(input);
    // Line 1 is the command; lines 2 and 3 are the user code segment.
    let (seg0, off0) = block.origin_for_line(1).unwrap();
    assert_eq!(seg0, 0);
    assert_eq!(off0, 1);
    let (seg1, off1) = block.origin_for_line(2).unwrap();
    assert_eq!(seg1, 1);
    assert_eq!(off1, 1);
    let (seg2, off2) = block.origin_for_line(3).unwrap();
    assert_eq!(seg2, 1);
    assert_eq!(off2, 2);
    assert!(block.origin_for_line(0).is_none());
    assert!(block.origin_for_line(4).is_none());
}

#[test]
fn offsets_map_between_user_input_and_output() {
    let input = ":dep foo\nlet a = 1;\n";
    let block = from_original_user_code(input);
    // The user segment starts at character 9 of the input and of the
    // block's own text (the command line is retained in both).
    let out = block.user_offset_to_output_offset(9).unwrap();
    assert_eq!(block.output_offset_to_user_offset(out), Some(9));
    let out2 = block.user_offset_to_output_offset(13).unwrap();
    assert_eq!(out2 - out, 4);
    // Offsets before the user code belong to no original segment.
    assert_eq!(block.user_offset_to_output_offset(3), None);
}
