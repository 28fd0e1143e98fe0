use kani_driver::driver::{determine_invocation_type, invocation_type_for, InvocationType};
use kani_driver::lowering::{CurrentFnCtx, LoweringError};

fn x(args: Vec<&str>) -> Vec<String> {
    args.iter().map(|a| a.to_string()).collect()
}

#[test]
fn check_invocation_type() {
    assert_eq!(
        determine_invocation_type(x(vec!["bar", "kani", "foo"])),
        InvocationType::CargoKani(x(vec!["bar", "foo"]))
    );
    assert_eq!(
        determine_invocation_type(x(vec!["cargo-kani", "foo"])),
        InvocationType::CargoKani(x(vec!["cargo-kani", "foo"]))
    );
    assert_eq!(determine_invocation_type(x(vec!["kani", "foo"])), InvocationType::Standalone);
    assert_eq!(determine_invocation_type(x(vec!["foo"])), InvocationType::Standalone);
    assert_eq!(determine_invocation_type(x(vec![])), InvocationType::Standalone);
}

#[test]
fn invocation_type_uses_base_name() {
    assert_eq!(
        determine_invocation_type(x(vec!["/usr/local/bin/cargo-kani", "foo"])),
        InvocationType::CargoKani(x(vec!["/usr/local/bin/cargo-kani", "foo"]))
    );
    assert_eq!(
        invocation_type_for(x(vec!["whatever", "x"]), Some("cargo-kani".to_string())),
        InvocationType::CargoKani(x(vec!["whatever", "x"]))
    );
    assert_eq!(invocation_type_for(x(vec!["kani"]), None), InvocationType::Standalone);
}

#[test]
fn fresh_temps_increase() {
    let mut ctx: CurrentFnCtx<u32, u64, String> = CurrentFnCtx::new(1, "f".to_string(), "fn()".to_string());
    let got: Vec<u64> = (0..5).map(|_| ctx.get_and_incr_counter()).collect();
    assert_eq!(got, vec![0, 1, 2, 3, 4]);
    let mut other: CurrentFnCtx<u32, u64, String> =
        CurrentFnCtx::new(1, "g".to_string(), "fn()".to_string());
    assert_eq!(other.get_and_incr_counter(), 0);
    assert_eq!(ctx.get_and_incr_counter(), 5);
    assert_eq!(other.get_and_incr_counter(), 1);
    assert_eq!(ctx.get_and_incr_counter(), 6);
}

#[test]
fn fresh_temps_skip_nothing_across_other_work() {
    let mut ctx: CurrentFnCtx<u32, u64, String> = CurrentFnCtx::new(1, "f".to_string(), "fn()".to_string());
    let a = ctx.get_and_incr_counter();
    ctx.push_onto_block(5);
    ctx.set_current_bb(2);
    let b = ctx.get_and_incr_counter();
    assert_eq!(ctx.set_labels(vec!["bb0".to_string()]), Ok(()));
    let _ = ctx.extract_block();
    let c = ctx.get_and_incr_counter();
    assert_eq!((a, b, c), (0, 1, 2));
}

#[test]
fn empty_program_name_is_standalone() {
    assert_eq!(determine_invocation_type(x(vec!["", "foo"])), InvocationType::Standalone);
}

#[test]
fn labels_set_once() {
    let mut ctx: CurrentFnCtx<u32, u64, String> = CurrentFnCtx::new(1, "f".to_string(), "fn()".to_string());
    assert_eq!(ctx.set_labels(vec!["bb0".to_string(), "bb1".to_string()]), Ok(()));
    assert_eq!(ctx.set_labels(vec!["other".to_string()]), Err(LoweringError::LabelsAlreadySet));
    assert_eq!(ctx.labels(), &vec!["bb0".to_string(), "bb1".to_string()]);
    assert_eq!(ctx.find_label(1), "bb1");
    let mut empty: CurrentFnCtx<u32, u64, String> =
        CurrentFnCtx::new(1, "g".to_string(), "fn()".to_string());
    assert_eq!(empty.set_labels(vec![]), Ok(()));
    assert_eq!(empty.set_labels(vec![]), Err(LoweringError::LabelsAlreadySet));
}

#[test]
fn current_block_needs_entry() {
    let mut ctx: CurrentFnCtx<u32, u64, String> = CurrentFnCtx::new(1, "f".to_string(), "fn()".to_string());
    assert_eq!(ctx.current_bb(), Err(LoweringError::NoCurrentBlock));
    ctx.set_current_bb(3);
    assert_eq!(ctx.current_bb(), Ok(3));
    ctx.reset_current_bb();
    assert_eq!(ctx.current_bb(), Err(LoweringError::NoCurrentBlock));
}

#[test]
fn statements_accumulate_and_extract() {
    let mut ctx: CurrentFnCtx<u32, u64, String> =
        CurrentFnCtx::new(1, "my_fn".to_string(), "fn(u8) -> u8".to_string());
    ctx.push_onto_block(7);
    ctx.push_onto_block(8);
    assert_eq!(ctx.extract_block(), vec![7, 8]);
    assert!(ctx.extract_block().is_empty());
    ctx.push_onto_block(9);
    assert_eq!(ctx.extract_block(), vec![9]);
    assert_eq!(ctx.name(), "my_fn");
    assert_eq!(*ctx.instance(), 1);
    assert_eq!(ctx.sig(), "fn(u8) -> u8");
}
