use hyprland_crt_shader::params::parameters;
use hyprland_crt_shader::shader::{find_value, replace_value, write_values, ValueError, ValueFault};
use hyprland_crt_shader::text::{is_white_space, same_text, to_chars};

const SAMPLE: &str = "// CRT shader\n\
const float GLITCH_INTERVAL = 12.0;\n\
  const float GLITCH_DURATION = 0.4; // seconds\n\
const float BROKEN 1.0;\n\
const float NOSEMI = 2.0\n";

fn fault_of(r: Result<String, ValueError>) -> (ValueFault, String) {
    let e = r.unwrap_err();
    (e.fault, e.key)
}

#[test]
fn reads_plain_declaration() {
    assert_eq!(find_value(SAMPLE, "GLITCH_INTERVAL").unwrap(), "12.0");
}

#[test]
fn reads_indented_declaration_before_comment() {
    assert_eq!(find_value(SAMPLE, "GLITCH_DURATION").unwrap(), "0.4");
}

#[test]
fn reads_value_without_semicolon_to_line_end() {
    assert_eq!(find_value(SAMPLE, "NOSEMI").unwrap(), "2.0");
}

#[test]
fn reads_crlf_lines() {
    let text = "const float A = 1.5\r\nconst float B = 2.5;\r\n";
    assert_eq!(find_value(text, "A").unwrap(), "1.5");
    assert_eq!(find_value(text, "B").unwrap(), "2.5");
}

#[test]
fn name_must_end_after_the_key() {
    let text = "const float CURVATURE_X = 1.0;\nconst float CURVATURE = 0.03;";
    assert_eq!(find_value(text, "CURVATURE").unwrap(), "0.03");
    assert_eq!(find_value(text, "CURVATURE_X").unwrap(), "1.0");
    // `const float GLITCH` only opens longer names here.
    assert_eq!(fault_of(find_value(SAMPLE, "GLITCH")).0, ValueFault::Missing);
}

#[test]
fn name_may_end_at_equals_or_tab() {
    assert_eq!(find_value("const float A= 1.0;\n", "A").unwrap(), "1.0");
    assert_eq!(find_value("const float A\t= 2.0;\n", "A").unwrap(), "2.0");
}

#[test]
fn name_without_equals_is_malformed() {
    assert_eq!(fault_of(find_value("const float KEY;\n", "KEY")).0, ValueFault::Malformed);
    assert_eq!(fault_of(find_value("const float KEY", "KEY")).0, ValueFault::Malformed);
    let mut text = String::from("const float B;");
    assert_eq!(replace_value(&mut text, "B", " 1.0").unwrap_err().fault, ValueFault::Malformed);
}

#[test]
fn name_may_end_at_a_comment() {
    assert_eq!(find_value("const float KEY/*x*/= 1;\n", "KEY").unwrap(), "1");
}

#[test]
fn write_and_read_use_the_same_declaration() {
    let mut text = String::from("const float KEY; x = 1;\n// const float KEY = 5;\nconst float KEY = 2;");
    replace_value(&mut text, "KEY", " 9.000000").unwrap();
    assert_eq!(text, "const float KEY; x = 9.000000;\n// const float KEY = 5;\nconst float KEY = 2;");
    assert_eq!(find_value(&text, "KEY").unwrap(), "9.000000");
}

#[test]
fn writer_skips_longer_names() {
    let mut text = String::from("const float CURVATURE_X = 1.0;\nconst float CURVATURE = 0.03;");
    replace_value(&mut text, "CURVATURE", " 0.050000").unwrap();
    assert_eq!(text, "const float CURVATURE_X = 1.0;\nconst float CURVATURE = 0.050000;");
    let mut only_longer = String::from("const float CURVATURE_X = 1.0;\n");
    let e = replace_value(&mut only_longer, "CURVATURE", " 0.050000").unwrap_err();
    assert_eq!(e.fault, ValueFault::Missing);
}

#[test]
fn last_write_wins() {
    let mut twice = String::from(SAMPLE);
    replace_value(&mut twice, "GLITCH_INTERVAL", " 3.000000").unwrap();
    replace_value(&mut twice, "GLITCH_INTERVAL", " 7.500000").unwrap();
    let mut once = String::from(SAMPLE);
    replace_value(&mut once, "GLITCH_INTERVAL", " 7.500000").unwrap();
    assert_eq!(twice, once);
    let before = once.clone();
    replace_value(&mut once, "GLITCH_INTERVAL", " 7.500000").unwrap();
    assert_eq!(once, before);
}

#[test]
fn declaration_in_a_comment_is_not_read() {
    let text = "// const float A = 9.0;\nconst float A = 1.0;\n";
    assert_eq!(find_value(text, "A").unwrap(), "1.0");
}

#[test]
fn missing_constant_is_reported() {
    let (fault, key) = fault_of(find_value(SAMPLE, "CURVATURE"));
    assert_eq!(fault, ValueFault::Missing);
    assert_eq!(key, "CURVATURE");
    assert_eq!(fault_of(find_value("", "A")).0, ValueFault::Missing);
}

#[test]
fn declaration_without_equals_is_malformed() {
    let (fault, key) = fault_of(find_value(SAMPLE, "BROKEN"));
    assert_eq!(fault, ValueFault::Malformed);
    assert_eq!(key, "BROKEN");
}

#[test]
fn empty_value_reads_as_empty_text() {
    assert_eq!(find_value("const float A = ;\n", "A").unwrap(), "");
}

#[test]
fn messages_name_the_constant() {
    assert_eq!(
        ValueError::new(ValueFault::Missing, "CURVATURE").message(),
        "Shader 参数不存在: CURVATURE"
    );
    assert_eq!(
        ValueError::new(ValueFault::Malformed, "BROKEN").message(),
        "Shader 参数格式无效: BROKEN"
    );
    assert_eq!(
        ValueError::new(ValueFault::Invalid, "OVERSCAN").message(),
        "Shader 参数值无效: OVERSCAN"
    );
}

#[test]
fn replace_keeps_everything_but_the_value() {
    let mut text = String::from(SAMPLE);
    replace_value(&mut text, "GLITCH_DURATION", " 0.750000").unwrap();
    let expected = SAMPLE.replace(
        "const float GLITCH_DURATION = 0.4;",
        "const float GLITCH_DURATION = 0.750000;",
    );
    assert_eq!(text, expected);
}

#[test]
fn replace_missing_constant_leaves_text() {
    let mut text = String::from(SAMPLE);
    let e = replace_value(&mut text, "CURVATURE", " 1.000000").unwrap_err();
    assert_eq!(e.fault, ValueFault::Missing);
    assert_eq!(e.key, "CURVATURE");
    assert_eq!(text, SAMPLE);
}

#[test]
fn replace_without_semicolon_is_malformed() {
    let mut text = String::from(SAMPLE);
    let e = replace_value(&mut text, "NOSEMI", " 1.000000").unwrap_err();
    assert_eq!(e.fault, ValueFault::Malformed);
    assert_eq!(text, SAMPLE);
}

#[test]
fn replace_without_equals_is_malformed() {
    let mut text = String::from("const float A 1.0;\n");
    let e = replace_value(&mut text, "A", " 2.000000").unwrap_err();
    assert_eq!(e.fault, ValueFault::Malformed);
    assert_eq!(text, "const float A 1.0;\n");
}

#[test]
fn replace_searches_past_the_line() {
    // The first `=` after the declaration opening may lie on a later line.
    let mut text = String::from("const float A 1.0;\nconst float B = 2.0;\n");
    replace_value(&mut text, "A", " 9.000000").unwrap();
    assert_eq!(text, "const float A 1.0;\nconst float B = 9.000000;\n");
}

#[test]
fn read_after_write_gives_written_value() {
    let mut text = String::from(SAMPLE);
    replace_value(&mut text, "GLITCH_INTERVAL", " 3.500000").unwrap();
    assert_eq!(find_value(&text, "GLITCH_INTERVAL").unwrap(), "3.500000");
    replace_value(&mut text, "GLITCH_DURATION", " -0.100000").unwrap();
    assert_eq!(find_value(&text, "GLITCH_DURATION").unwrap(), "-0.100000");
    assert_eq!(find_value(&text, "GLITCH_INTERVAL").unwrap(), "3.500000");
}

#[test]
fn write_values_rewrites_pairwise() {
    let text = "const float A = 1.0;\nconst float B = 2.0;\nconst float C = 3.0;\n";
    let out = write_values(
        text,
        &["A", "B", "C"],
        &[" 10.000000".to_string(), " 20.000000".to_string()],
    )
    .unwrap();
    assert_eq!(
        out,
        "const float A = 10.000000;\nconst float B = 20.000000;\nconst float C = 3.0;\n"
    );
}

#[test]
fn write_values_stops_at_first_fault() {
    let text = "const float A = 1.0;\nconst float C = 3.0;\n";
    let e = write_values(
        text,
        &["A", "B", "C"],
        &[" 1.0".to_string(), " 2.0".to_string(), " 3.0".to_string()],
    )
    .unwrap_err();
    assert_eq!(e.fault, ValueFault::Missing);
    assert_eq!(e.key, "B");
}

#[test]
fn write_values_with_nothing_to_write_is_identity() {
    let out = write_values(SAMPLE, &[], &[]).unwrap();
    assert_eq!(out, SAMPLE);
}

#[test]
fn all_panel_constants_round_trip() {
    let mut text = String::new();
    for p in parameters() {
        text.push_str(&format!("const float {} = 0.0;\n", p.key));
    }
    let keys: Vec<&str> = parameters().iter().map(|p| p.key).collect();
    let reps: Vec<String> = (0..keys.len()).map(|i| format!(" {}.250000", i)).collect();
    let out = write_values(&text, &keys, &reps).unwrap();
    for (i, k) in keys.iter().enumerate() {
        assert_eq!(find_value(&out, k).unwrap(), format!("{}.250000", i));
    }
}

#[test]
fn white_space_matches_std() {
    for u in 0u32..0x11_0000 {
        if let Some(c) = char::from_u32(u) {
            assert_eq!(is_white_space(c), c.is_whitespace(), "U+{:04X}", u);
        }
    }
}

#[test]
fn trims_unicode_white_space() {
    let text = "\u{3000}const float A =\u{A0}4.0\t;\n";
    assert_eq!(find_value(text, "A").unwrap(), "4.0");
}

#[test]
fn chars_and_text_comparison() {
    assert_eq!(to_chars("aé"), vec!['a', 'é']);
    assert!(same_text("crt", "crt"));
    assert!(!same_text("crt", "crT"));
    assert!(!same_text("crt", "crt "));
}
