use kani_driver::metadata::{
    find_proof_harness, mock_proof_harness, sort_harnesses_by_loc, HarnessError, HarnessMetadata,
};

fn harness_at(name: &str, file: &str, start: usize) -> HarnessMetadata {
    HarnessMetadata {
        pretty_name: name.to_string(),
        mangled_name: name.to_string(),
        original_file: file.to_string(),
        original_start_line: start,
        original_end_line: start + 3,
        unwind_value: None,
    }
}

#[test]
fn check_find_proof_harness() {
    let harnesses = vec![
        mock_proof_harness("check_one", None),
        mock_proof_harness("module::check_two", None),
        mock_proof_harness("module::not_check_three", None),
    ];
    assert!(find_proof_harness("check_three", &harnesses).is_err());
    assert!(
        find_proof_harness("check_two", &harnesses).unwrap().mangled_name == "module::check_two"
    );
    assert!(find_proof_harness("check_one", &harnesses).unwrap().mangled_name == "check_one");
}

#[test]
fn query_not_found_names_query() {
    let harnesses = vec![
        mock_proof_harness("check_one", None),
        mock_proof_harness("module::check_two", None),
        mock_proof_harness("module::not_check_three", None),
    ];
    match find_proof_harness("check_three", &harnesses) {
        Err(HarnessError::NotFound { name }) => assert_eq!(name, "check_three"),
        other => panic!("unexpected result {:?}", other.map(|h| h.pretty_name.clone())),
    }
}

#[test]
fn ambiguous_query_names_both() {
    let harnesses = vec![mock_proof_harness("a::f", None), mock_proof_harness("b::f", None)];
    match find_proof_harness("f", &harnesses) {
        Err(HarnessError::Conflicting { name, candidates }) => {
            assert_eq!(name, "f");
            assert_eq!(candidates, vec!["a::f".to_string(), "b::f".to_string()]);
        }
        other => panic!("unexpected result {:?}", other.map(|h| h.pretty_name.clone())),
    }
}

#[test]
fn conflict_names_every_match() {
    let harnesses = vec![
        mock_proof_harness("a::f", None),
        mock_proof_harness("g", None),
        mock_proof_harness("b::f", None),
        mock_proof_harness("f", None),
    ];
    match find_proof_harness("f", &harnesses) {
        Err(HarnessError::Conflicting { name, candidates }) => {
            assert_eq!(name, "f");
            assert_eq!(
                candidates,
                vec!["a::f".to_string(), "b::f".to_string(), "f".to_string()]
            );
        }
        other => panic!("unexpected result {:?}", other.map(|h| h.pretty_name.clone())),
    }
}

#[test]
fn exact_name_matches_whole_path() {
    let harnesses = vec![mock_proof_harness("a::f", None), mock_proof_harness("b::f", None)];
    assert_eq!(find_proof_harness("a::f", &harnesses).unwrap().pretty_name, "a::f");
    assert!(find_proof_harness("::f", &harnesses).is_err());
    assert!(find_proof_harness("", &harnesses).is_err());
}

#[test]
fn suffix_must_follow_separator() {
    let harnesses = vec![mock_proof_harness("module::not_f", None)];
    assert!(find_proof_harness("f", &harnesses).is_err());
    assert!(find_proof_harness("not_f", &harnesses).is_ok());
    let empty: Vec<HarnessMetadata> = vec![];
    assert!(find_proof_harness("f", &empty).is_err());
}

#[test]
fn mock_harness_has_no_provenance() {
    let h = mock_proof_harness("my_fn", Some(4));
    assert_eq!(h.pretty_name, "my_fn");
    assert_eq!(h.mangled_name, "my_fn");
    assert_eq!(h.original_file, "<unknown>");
    assert_eq!(h.original_start_line, 0);
    assert_eq!(h.original_end_line, 0);
    assert_eq!(h.unwind_value, Some(4));
}

#[test]
fn order_for_safe_rewrite() {
    let harnesses = vec![harness_at("x", "A", 10), harness_at("y", "A", 30), harness_at("z", "B", 5)];
    let sorted = sort_harnesses_by_loc(&harnesses);
    let got: Vec<(&str, usize)> =
        sorted.iter().map(|h| (h.original_file.as_str(), h.original_start_line)).collect();
    assert_eq!(got, vec![("A", 30), ("A", 10), ("B", 5)]);
}

#[test]
fn order_for_safe_rewrite_mixed_input() {
    let harnesses = vec![
        harness_at("p", "src/b.rs", 1),
        harness_at("q", "src/a.rs", 5),
        harness_at("r", "src/b.rs", 40),
        harness_at("s", "src/a.rs", 50),
        harness_at("t", "src/a.rs", 20),
        harness_at("u", "src/ab.rs", 7),
    ];
    let sorted = sort_harnesses_by_loc(&harnesses);
    let names: Vec<&str> = sorted.iter().map(|h| h.pretty_name.as_str()).collect();
    assert_eq!(names, vec!["s", "t", "q", "u", "r", "p"]);
    let empty: Vec<HarnessMetadata> = vec![];
    assert!(sort_harnesses_by_loc(&empty).is_empty());
}
