use kani_driver::metadata::{
    is_restrictions_file, link_function_pointer_restrictions, CallSiteInfo, PossibleMethodEntry,
    TraitDefinedMethod, VtableCtxResults,
};

fn method(trait_name: &str, idx: usize) -> TraitDefinedMethod {
    TraitDefinedMethod {
        crate_name: "my_crate".to_string(),
        trait_name: trait_name.to_string(),
        vtable_idx: idx,
    }
}

fn entry(m: TraitDefinedMethod, targets: &[&str]) -> PossibleMethodEntry {
    PossibleMethodEntry {
        trait_method: m,
        possibilities: targets.iter().map(|t| t.to_string()).collect(),
    }
}

fn site(f: &str, label: &str, m: TraitDefinedMethod) -> CallSiteInfo {
    CallSiteInfo { function_name: f.to_string(), label: label.to_string(), trait_method: m }
}

fn strings(v: &[&str]) -> Vec<String> {
    v.iter().map(|s| s.to_string()).collect()
}

#[test]
fn unrecorded_method_gets_empty_list() {
    let units = vec![VtableCtxResults {
        possible_methods: vec![entry(method("Shape", 3), &["circle_area"])],
        call_sites: vec![site("main", "bb1", method("Drawable", 0))],
    }];
    let out = link_function_pointer_restrictions(&units);
    assert_eq!(out.len(), 1);
    assert_eq!(out[0].0, "main.bb1");
    assert!(out[0].1.is_empty());
}

#[test]
fn later_unit_overwrites_possibilities() {
    let units = vec![
        VtableCtxResults {
            possible_methods: vec![entry(method("Shape", 3), &["circle_area", "square_area"])],
            call_sites: vec![site("f", "call0", method("Shape", 3))],
        },
        VtableCtxResults {
            possible_methods: vec![entry(method("Shape", 3), &["triangle_area"])],
            call_sites: vec![site("g", "call1", method("Shape", 3))],
        },
    ];
    let out = link_function_pointer_restrictions(&units);
    assert_eq!(out.len(), 2);
    assert_eq!(out[0].0, "f.call0");
    assert_eq!(out[0].1, strings(&["triangle_area"]));
    assert_eq!(out[1].0, "g.call1");
    assert_eq!(out[1].1, strings(&["triangle_area"]));
}

#[test]
fn keys_differ_by_every_field() {
    let other_crate = TraitDefinedMethod {
        crate_name: "other".to_string(),
        trait_name: "Shape".to_string(),
        vtable_idx: 3,
    };
    let units = vec![VtableCtxResults {
        possible_methods: vec![
            entry(method("Shape", 3), &["a"]),
            entry(method("Shape", 4), &["b"]),
            entry(other_crate, &["c"]),
        ],
        call_sites: vec![
            site("f", "l0", method("Shape", 3)),
            site("f", "l1", method("Shape", 4)),
            site("f", "l2", method("Shape", 5)),
        ],
    }];
    let out = link_function_pointer_restrictions(&units);
    assert_eq!(out.len(), 3);
    assert_eq!(out[0], ("f.l0".to_string(), strings(&["a"])));
    assert_eq!(out[1], ("f.l1".to_string(), strings(&["b"])));
    assert_eq!(out[2], ("f.l2".to_string(), strings(&[])));
}

#[test]
fn empty_input_links_to_nothing() {
    let units: Vec<VtableCtxResults> = vec![];
    assert!(link_function_pointer_restrictions(&units).is_empty());
}

#[test]
fn restrictions_file_suffix() {
    assert!(is_restrictions_file("target/foo.restrictions.json"));
    assert!(is_restrictions_file(".restrictions.json"));
    assert!(!is_restrictions_file("target/foo.json"));
    assert!(!is_restrictions_file("restrictions.json"));
    assert!(!is_restrictions_file(""));
}
