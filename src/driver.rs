use vstd::prelude::*;
use crate::metadata::{
    sort_harnesses_by_loc, sorted_for_rewrite, targets_err, targets_ok, HarnessError,
    HarnessMetadata, KaniMetadata, KaniSession, deref_all, strings_view,
};

verus! {

/// How the driver was started.
#[derive(Debug, PartialEq, Eq)]
pub enum InvocationType {
    /// As `cargo kani` or `cargo-kani`, with the arguments to hand on.
    CargoKani(Vec<String>),
    /// As `kani`.
    Standalone,
}

/// Relies on `std::path::Path::file_name` for the base name of the
/// executable. Path syntax depends on the platform, so the one thing stated
/// is that an empty path has no file name.
#[verifier::external_body]
fn executable_basename(argv0: &str) -> (r: Option<String>)
    ensures
        argv0@.len() == 0 ==> r is None,
{
    match std::path::Path::new(argv0).file_name() {
        Some(n) => Some(n.to_string_lossy().into_owned()),
        None => None,
    }
}

/// The invocation type owed for arguments `args` when the program runs under
/// the name `exe`: `kani` as first argument means `cargo kani`, which drops
/// it; else the name `kani` means standalone, the name `cargo-kani` a direct
/// `cargo-kani` with the arguments kept, and anything else standalone.
pub open spec fn invocation_matches(
    args: Seq<Seq<char>>,
    exe: Option<Seq<char>>,
    r: InvocationType,
) -> bool {
    if args.len() > 1 && args[1] == "kani"@ {
        r matches InvocationType::CargoKani(v) && strings_view(v@) == args.remove(1)
    } else if exe == Some("kani"@) {
        r is Standalone
    } else if exe == Some("cargo-kani"@) {
        r matches InvocationType::CargoKani(v) && strings_view(v@) == args
    } else {
        r is Standalone
    }
}

pub open spec fn opt_view(o: Option<String>) -> Option<Seq<char>> {
    match o {
        Some(s) => Some(s@),
        None => None,
    }
}

/// Decides the invocation type from the arguments and the base name `exe`
/// of the executable.
pub fn invocation_type_for(args: Vec<String>, exe: Option<String>) -> (r: InvocationType)
    ensures
        invocation_matches(strings_view(args@), opt_view(exe), r),
{
    let ghost a = strings_view(args@);
    let mut args = args;
    proof {
        reveal_strlit("kani");
    }
    if args.len() > 1 && args[1] == "kani".to_owned() {
        args.remove(1);
        proof {
            assert(strings_view(args@) =~= a.remove(1));
        }
        return InvocationType::CargoKani(args);
    }
    match exe {
        Some(e) => {
            if e == "kani".to_owned() {
                InvocationType::Standalone
            } else if e == "cargo-kani".to_owned() {
                InvocationType::CargoKani(args)
            } else {
                InvocationType::Standalone
            }
        },
        None => InvocationType::Standalone,
    }
}

/// Peeks at the command line (program name first) to tell whether the driver
/// runs as `kani` or as `cargo-kani`.
pub fn determine_invocation_type(args: Vec<String>) -> (r: InvocationType)
    ensures
        exists|exe: Option<Seq<char>>| invocation_matches(strings_view(args@), exe, r),
        args@.len() == 0 || args@[0]@.len() == 0 ==> invocation_matches(
            strings_view(args@),
            None,
            r,
        ),
{
    let exe = if args.len() > 0 {
        executable_basename(args[0].as_str())
    } else {
        None
    };
    invocation_type_for(args, exe)
}

/// The harnesses to verify, in the order in which they are run: the targets
/// that the session selects, ordered so that rewriting source files next to
/// a harness never moves one still to be processed.
pub fn verify_project(project: &KaniMetadata, session: &KaniSession) -> (r: Result<
    Vec<HarnessMetadata>,
    HarnessError,
>)
    ensures
        match r {
            Ok(v) => exists|t: Seq<HarnessMetadata>|
                targets_ok(*session, *project, t) && v@.to_multiset() == t.to_multiset()
                    && sorted_for_rewrite(v@),
            Err(e) => targets_err(*session, *project, e),
        },
{
    let targets = match session.determine_targets(project) {
        Ok(t) => t,
        Err(e) => return Err(e),
    };
    let order = sort_harnesses_by_loc(targets.as_slice());
    let mut out: Vec<HarnessMetadata> = Vec::new();
    let mut k: usize = 0;
    while k < order.len()
        invariant
            0 <= k <= order@.len(),
            out@ == deref_all(order@).take(k as int),
        decreases order@.len() - k,
    {
        out.push(order[k].clone());
        proof {
            assert(out@ =~= deref_all(order@).take(k + 1));
        }
        k = k + 1;
    }
    proof {
        assert(out@ =~= deref_all(order@));
    }
    Ok(out)
}

/// The harnesses that a standalone run verifies: none when it stops after
/// code generation, else those of [`verify_project`].
pub fn standalone_main(project: &KaniMetadata, session: &KaniSession) -> (r: Result<
    Vec<HarnessMetadata>,
    HarnessError,
>)
    ensures
        session.only_codegen ==> r is Ok && r->Ok_0@.len() == 0,
        !session.only_codegen ==> match r {
            Ok(v) => exists|t: Seq<HarnessMetadata>|
                targets_ok(*session, *project, t) && v@.to_multiset() == t.to_multiset()
                    && sorted_for_rewrite(v@),
            Err(e) => targets_err(*session, *project, e),
        },
{
    if session.only_codegen {
        Ok(Vec::new())
    } else {
        verify_project(project, session)
    }
}

} // verus!
