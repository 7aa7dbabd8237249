use zjstatus::text::{chars_of, contains_exec, replace_exec, split_exec, string_of};

#[test]
fn replace_scans_left_to_right_without_overlap() {
    let out = replace_exec(&chars_of("aaaa"), &chars_of("aa"), &chars_of("b"));
    assert_eq!(string_of(&out), "bb");
    let out = replace_exec(&chars_of("{name}-{name}"), &chars_of("{name}"), &chars_of("x"));
    assert_eq!(string_of(&out), "x-x");
    let out = replace_exec(&chars_of("none"), &chars_of("{name}"), &chars_of("x"));
    assert_eq!(string_of(&out), "none");
}

#[test]
fn contains_finds_pattern_anywhere() {
    assert!(contains_exec(&chars_of("ab{mode}"), &chars_of("{mode}")));
    assert!(!contains_exec(&chars_of("{mod"), &chars_of("{mode}")));
    assert!(contains_exec(&chars_of("x"), &chars_of("")));
}

#[test]
fn split_matches_std_split() {
    for (s, p) in [("a#[b#[", "#["), ("", "]"), ("]]", "]"), ("x,y", ","), ("abc", "#[")] {
        let parts: Vec<String> = split_exec(&chars_of(s), &chars_of(p))
            .iter()
            .map(|v| string_of(v))
            .collect();
        let expected: Vec<String> = s.split(p).map(|x| x.to_owned()).collect();
        assert_eq!(parts, expected);
    }
}

#[test]
fn chars_round_trip_unicode() {
    assert_eq!(string_of(&chars_of("héllo ✓")), "héllo ✓");
}
