use zkasm_codegen::labels::{classify_line, optimize_labels, LabelError, LabelLine};

fn lines(text: &[&str]) -> Vec<Vec<u8>> {
    text.iter().map(|l| l.as_bytes().to_vec()).collect()
}

fn strings(lines: Vec<Vec<u8>>) -> Vec<String> {
    lines.into_iter().map(|l| String::from_utf8(l).unwrap()).collect()
}

#[test]
fn single_adjacent_use_is_elided_with_its_label() {
    let input = lines(&["  A => B", "  :JMP(label_1)", "label_1:", "  B => C"]);
    let out = strings(optimize_labels(&input, 3).unwrap());
    assert_eq!(out, vec!["  A => B", "  B => C"]);
}

#[test]
fn label_used_twice_stays() {
    let input = lines(&[
        "  A :JMPN(label_2)",
        "  B => A",
        "  :JMP(label_2)",
        "label_2:",
        "  A => B",
    ]);
    let out = strings(optimize_labels(&input, 7).unwrap());
    assert_eq!(
        out,
        vec!["  A :JMPN(label_7_2)", "  B => A", "  :JMP(label_7_2)", "label_7_2:", "  A => B"]
    );
}

#[test]
fn unused_label_definition_is_dropped() {
    let input = lines(&["  A => B", "label_4:", "  B => C"]);
    let out = strings(optimize_labels(&input, 0).unwrap());
    assert_eq!(out, vec!["  A => B", "  B => C"]);
}

#[test]
fn single_use_not_adjacent_stays() {
    let input = lines(&["  :JMP(label_5)", "  A => B", "label_5:"]);
    let out = strings(optimize_labels(&input, 12).unwrap());
    assert_eq!(out, vec!["  :JMP(label_12_5)", "  A => B", "label_12_5:"]);
}

#[test]
fn backward_jump_stays() {
    let input = lines(&["label_0:", "  :JMP(label_0)"]);
    let out = strings(optimize_labels(&input, 1).unwrap());
    assert_eq!(out, vec!["label_1_0:", "  :JMP(label_1_0)"]);
}

#[test]
fn same_label_in_two_functions_gets_two_names() {
    let input = lines(&["  A :JMPZ(label_5)", "  B => A", "label_5:"]);
    let a = strings(optimize_labels(&input, 3).unwrap());
    let b = strings(optimize_labels(&input, 7).unwrap());
    assert_eq!(a[2], "label_3_5:");
    assert_eq!(b[2], "label_7_5:");
    assert_ne!(a, b);
}

#[test]
fn malformed_labels_are_refused() {
    assert_eq!(
        optimize_labels(&lines(&["  A => B", "label_x:"]), 0),
        Err(LabelError::Malformed(1))
    );
    assert_eq!(
        optimize_labels(&lines(&["  :JMP(label_)", "label_1:"]), 0),
        Err(LabelError::Malformed(0))
    );
    assert_eq!(
        optimize_labels(&lines(&["  :JMP(label_99999999999999999999)"]), 0),
        Err(LabelError::Malformed(0))
    );
}

#[test]
fn redefined_label_is_refused() {
    assert_eq!(
        optimize_labels(&lines(&["label_1:", "  :JMP(label_1)", "label_1:"]), 0),
        Err(LabelError::Redefined(2))
    );
}

#[test]
fn empty_text_stays_empty() {
    assert_eq!(optimize_labels(&vec![], 0), Ok(vec![]));
    assert_eq!(optimize_labels(&lines(&[""]), 0), Ok(lines(&[""])));
}

#[test]
fn lines_are_classified() {
    assert_eq!(classify_line(&b"label_12:".to_vec()), Some(LabelLine::Def(12)));
    assert_eq!(
        classify_line(&b"  :JMP(label_3)".to_vec()),
        Some(LabelLine::Use { label: 3, at: 7 })
    );
    assert_eq!(classify_line(&b"  A => B".to_vec()), Some(LabelLine::Plain));
    assert_eq!(classify_line(&b"label_12".to_vec()), None);
}

#[test]
fn undefined_label_is_refused() {
    assert_eq!(
        optimize_labels(&lines(&["  A => B", "  :JMP(label_3)", "label_4:"]), 0),
        Err(LabelError::Undefined(1))
    );
}

#[test]
fn two_labels_on_one_line_are_refused() {
    assert_eq!(
        optimize_labels(&lines(&["label_1:", "  A :JMPZ(label_1) :JMP(label_2)", "label_2:"]), 0),
        Err(LabelError::Malformed(1))
    );
}
