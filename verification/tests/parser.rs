use minhypr::fields::FieldMap;
use minhypr::parser::{braces_span, clean_span, fields_from_pairs, parse_loose, parse_window_info};

fn value(fields: &FieldMap, name: &str) -> Option<String> {
    fields.get(name).cloned()
}

#[test]
fn a_json_object_of_strings_is_read_as_it_stands() {
    let fields = parse_window_info("{\"class\":\"kitty\",\"title\":\"shell\"}");
    assert_eq!(value(&fields, "class"), Some("kitty".to_string()));
    assert_eq!(value(&fields, "title"), Some("shell".to_string()));
    assert_eq!(value(&fields, "address"), None);
}

#[test]
fn a_malformed_text_is_read_permissively() {
    let fields = parse_window_info("class:kitty,title:shell");
    assert_eq!(value(&fields, "class"), Some("kitty".to_string()));
    assert_eq!(value(&fields, "title"), Some("shell".to_string()));
    assert_eq!(value(&fields, "address"), None);
}

#[test]
fn both_readings_agree_on_a_simple_object() {
    let text = "{\"class\":\"kitty\",\"title\":\"shell\"}";
    let strict = parse_window_info(text);
    let loose = parse_loose(text);
    for name in ["class", "title", "other"] {
        assert_eq!(value(&strict, name), value(&loose, name));
    }
}

#[test]
fn the_strict_reading_keeps_commas_and_colons_in_values() {
    let text = "{\"title\":\"a, b: c\",\"class\":\"x\"}";
    let strict = parse_window_info(text);
    assert_eq!(value(&strict, "title"), Some("a, b: c".to_string()));
    assert_eq!(value(&strict, "class"), Some("x".to_string()));
}

#[test]
fn the_permissive_reading_cuts_values_at_commas() {
    let loose = parse_loose("{\"title\":\"a, b: c\",\"class\":\"x\"}");
    assert_eq!(value(&loose, "title"), Some("a".to_string()));
    assert_eq!(value(&loose, "b"), Some("c".to_string()));
    assert_eq!(value(&loose, "class"), Some("x".to_string()));
}

#[test]
fn the_strict_reading_reads_escapes() {
    let fields = parse_window_info("{\"title\":\"say \\\"hi\\\"\\n\"}");
    assert_eq!(value(&fields, "title"), Some("say \"hi\"\n".to_string()));
}

#[test]
fn an_object_with_a_value_that_is_no_string_is_read_permissively() {
    let fields = parse_window_info("{\"id\": 3, \"name\": \"web\"}");
    assert_eq!(value(&fields, "id"), Some("3".to_string()));
    assert_eq!(value(&fields, "name"), Some("web".to_string()));
}

#[test]
fn a_value_is_cut_at_its_first_colon_only() {
    let fields = parse_window_info("address:0x55:ab,workspace:special:minimized");
    assert_eq!(value(&fields, "address"), Some("0x55:ab".to_string()));
    assert_eq!(value(&fields, "workspace"), Some("special:minimized".to_string()));
}

#[test]
fn white_space_and_quotes_are_taken_off_names_and_values() {
    let fields = parse_window_info("{ \"class\" : \"kitty\" ,\n\t\"title\":  shell  }");
    assert_eq!(value(&fields, "class"), Some("kitty".to_string()));
    assert_eq!(value(&fields, "title"), Some("shell".to_string()));
}

#[test]
fn white_space_inside_quotes_stays() {
    let fields = parse_loose("title: \" two words \" ");
    assert_eq!(value(&fields, "title"), Some(" two words ".to_string()));
}

#[test]
fn one_layer_of_braces_is_taken_off() {
    let fields = parse_loose("{{a:b}}");
    assert_eq!(value(&fields, "{a"), Some("b}".to_string()));
    assert_eq!(value(&fields, "a"), None);
}

#[test]
fn braces_are_taken_off_independently() {
    let opened = parse_loose("{a:b");
    assert_eq!(value(&opened, "a"), Some("b".to_string()));
    let closed = parse_loose("a:b}");
    assert_eq!(value(&closed, "a"), Some("b".to_string()));
}

#[test]
fn a_brace_behind_white_space_stays() {
    let fields = parse_loose("{a:b}\n");
    assert_eq!(value(&fields, "a"), Some("b}".to_string()));
}

#[test]
fn a_segment_without_colon_is_passed_over() {
    let fields = parse_window_info("class:kitty,nothing here,title:shell");
    assert_eq!(value(&fields, "class"), Some("kitty".to_string()));
    assert_eq!(value(&fields, "title"), Some("shell".to_string()));
    assert_eq!(value(&fields, "nothing here"), None);
}

#[test]
fn a_text_that_cannot_be_read_gives_the_empty_mapping() {
    for text in ["", "{}", "{", "}", "garbage", ",,,", "[1, 2, 3]"] {
        let fields = parse_window_info(text);
        for name in ["", "class", "address", "garbage", "1"] {
            assert_eq!(value(&fields, name), None, "{:?}", text);
        }
    }
}

#[test]
fn an_empty_name_and_an_empty_value_are_kept() {
    let fields = parse_loose(":x,y:");
    assert_eq!(value(&fields, ""), Some("x".to_string()));
    assert_eq!(value(&fields, "y"), Some(String::new()));
}

#[test]
fn of_two_values_for_one_name_the_later_one_counts() {
    let loose = parse_loose("a:1,b:2,a:3");
    assert_eq!(value(&loose, "a"), Some("3".to_string()));
    assert_eq!(value(&loose, "b"), Some("2".to_string()));
    let strict = parse_window_info("{\"a\":\"1\",\"b\":\"2\",\"a\":\"3\"}");
    assert_eq!(value(&strict, "a"), Some("3".to_string()));
    assert_eq!(value(&strict, "b"), Some("2".to_string()));
}

#[test]
fn text_after_a_json_object_makes_the_reading_permissive() {
    let fields = parse_window_info("{\"a\":\"1\"} x");
    assert_eq!(value(&fields, "a"), Some("1\"} x".to_string()));
}

#[test]
fn names_are_compared_exactly() {
    let fields = parse_window_info("Class:kitty");
    assert_eq!(value(&fields, "class"), None);
    assert_eq!(value(&fields, "Class"), Some("kitty".to_string()));
}

#[test]
fn fields_from_pairs_enters_the_pairs_in_order() {
    let pairs = vec![
        ("a".to_string(), "1".to_string()),
        ("b".to_string(), "2".to_string()),
        ("a".to_string(), "3".to_string()),
    ];
    let fields = fields_from_pairs(pairs);
    assert_eq!(value(&fields, "a"), Some("3".to_string()));
    assert_eq!(value(&fields, "b"), Some("2".to_string()));
    assert_eq!(value(&fields, "c"), None);
    let none = fields_from_pairs(Vec::new());
    assert_eq!(value(&none, "a"), None);
}

#[test]
fn braces_span_gives_what_is_between_the_braces() {
    let chars = |text: &str| text.chars().collect::<Vec<char>>();
    assert_eq!(braces_span(&chars("{ab}")), (1, 3));
    assert_eq!(braces_span(&chars("ab")), (0, 2));
    assert_eq!(braces_span(&chars("{")), (1, 1));
    assert_eq!(braces_span(&chars("}")), (0, 0));
    assert_eq!(braces_span(&chars("")), (0, 0));
    assert_eq!(braces_span(&chars("{}")), (1, 1));
    assert_eq!(braces_span(&chars("}{")), (0, 2));
}

#[test]
fn clean_span_takes_off_white_space_and_then_quotes() {
    let text: Vec<char> = "  \"\" a \"  ".chars().collect();
    assert_eq!(clean_span(&text, 0, text.len()), (4, 7));
    let inner: Vec<char> = "\" x \"".chars().collect();
    assert_eq!(clean_span(&inner, 0, inner.len()), (1, 4));
}
