use vstd::prelude::*;
use vstd::string::*;

verus! {

/// One provable entry point.
pub struct HarnessMetadata {
    /// Qualified path of the harness, such as `module::submodule::f`.
    pub pretty_name: String,
    /// The linker-visible symbol that invokes it.
    pub mangled_name: String,
    /// The source file it was found in.
    pub original_file: String,
    /// First line of its definition.
    pub original_start_line: usize,
    /// Last line of its definition.
    pub original_end_line: usize,
    /// Explicit loop unwinding bound, if any.
    pub unwind_value: Option<u32>,
}

impl Clone for HarnessMetadata {
    fn clone(&self) -> (r: Self)
        ensures
            r == *self,
    {
        HarnessMetadata {
            pretty_name: self.pretty_name.clone(),
            mangled_name: self.mangled_name.clone(),
            original_file: self.original_file.clone(),
            original_start_line: self.original_start_line,
            original_end_line: self.original_end_line,
            unwind_value: self.unwind_value,
        }
    }
}

/// Why a harness query could not be resolved.
#[derive(Debug)]
pub enum HarnessError {
    /// No harness carries the queried name.
    NotFound { name: String },
    /// Several harnesses carry the queried name; `candidates` holds the
    /// display name of each, in their order.
    Conflicting { name: String, candidates: Vec<String> },
}

/// `s` ends with `suffix`.
pub open spec fn seq_ends_with(s: Seq<char>, suffix: Seq<char>) -> bool {
    s.len() >= suffix.len() && s.subrange(s.len() - suffix.len(), s.len() as int) == suffix
}

/// A query names a harness if it is its whole qualified name, or the name
/// that follows one of its `::` separators.
pub open spec fn name_matches(pretty: Seq<char>, query: Seq<char>) -> bool {
    pretty == query || seq_ends_with(pretty, seq![':', ':'] + query)
}

/// `query` names harness `h`.
pub open spec fn harness_matches(h: HarnessMetadata, query: Seq<char>) -> bool {
    name_matches(h.pretty_name@, query)
}

/// The harnesses that `query` names, in their order.
pub open spec fn matching_harnesses(hs: Seq<HarnessMetadata>, query: Seq<char>) -> Seq<
    HarnessMetadata,
>
    decreases hs.len(),
{
    if hs.len() == 0 {
        Seq::empty()
    } else {
        let m = matching_harnesses(hs.drop_last(), query);
        if harness_matches(hs.last(), query) {
            m.push(hs.last())
        } else {
            m
        }
    }
}

/// `e` is the error owed for `query` on `hs`: not found where no harness
/// matches, a conflict naming every match where several do.
pub open spec fn resolution_error(hs: Seq<HarnessMetadata>, query: Seq<char>, e: HarnessError) -> bool {
    let ms = matching_harnesses(hs, query);
    match e {
        HarnessError::NotFound { name } => ms.len() == 0 && name@ == query,
        HarnessError::Conflicting { name, candidates } => ms.len() >= 2 && name@ == query
            && strings_view(candidates@) == pretty_names(ms),
    }
}

/// The display name of each harness.
pub open spec fn pretty_names(hs: Seq<HarnessMetadata>) -> Seq<Seq<char>> {
    hs.map_values(|h: HarnessMetadata| h.pretty_name@)
}

/// Whether `t` stands in `s` at character position `off`.
fn chars_equal_at(s: &str, off: usize, t: &str) -> (r: bool)
    requires
        off + t@.len() <= s@.len(),
    ensures
        r == (s@.subrange(off as int, off + t@.len()) == t@),
{
    let n = t.unicode_len();
    let m = s.unicode_len();
    let mut i: usize = 0;
    while i < n
        invariant
            n == t@.len(),
            m == s@.len(),
            off + n <= s@.len(),
            0 <= i <= n,
            forall|k: int| 0 <= k < i ==> s@[off + k] == t@[k],
        decreases n - i,
    {
        if s.get_char(off + i) != t.get_char(i) {
            proof {
                assert(s@.subrange(off as int, off + t@.len())[i as int] != t@[i as int]);
            }
            return false;
        }
        i = i + 1;
    }
    proof {
        assert(s@.subrange(off as int, off + t@.len()) =~= t@);
    }
    true
}

/// Whether `query` names the harness called `pretty`.
fn pretty_name_matches(pretty: &str, query: &str) -> (r: bool)
    ensures
        r == name_matches(pretty@, query@),
{
    let plen = pretty.unicode_len();
    let qlen = query.unicode_len();
    let ghost sep = seq![':', ':'] + query@;
    if plen == qlen && chars_equal_at(pretty, 0, query) {
        proof {
            assert(pretty@.subrange(0, pretty@.len() as int) =~= pretty@);
        }
        return true;
    }
    proof {
        if pretty@ == query@ {
            assert(pretty@.subrange(0, plen as int) =~= pretty@);
        }
    }
    if plen < 2 || plen - 2 < qlen {
        return false;
    }
    let off = plen - qlen;
    let r = pretty.get_char(off - 2) == ':' && pretty.get_char(off - 1) == ':' && chars_equal_at(
        pretty,
        off,
        query,
    );
    proof {
        let tail = pretty@.subrange(off - 2, plen as int);
        if r {
            assert(tail =~= sep);
        }
        if tail == sep {
            assert(tail[0] == ':' && tail[1] == ':');
            assert(pretty@.subrange(off as int, plen as int) =~= tail.subrange(2, tail.len() as int));
            assert(sep.subrange(2, sep.len() as int) =~= query@);
        }
    }
    r
}

/// Looks up the one harness that `name` names: its whole qualified name, or
/// the part after one of its `::` separators. No match, and several matches,
/// are errors; a conflict names every harness that matches.
pub fn find_proof_harness<'a>(name: &str, harnesses: &'a [HarnessMetadata]) -> (r: Result<
    &'a HarnessMetadata,
    HarnessError,
>)
    ensures
        ({
            let ms = matching_harnesses(harnesses@, name@);
            match r {
                Ok(h) => ms.len() == 1 && *h == ms[0],
                Err(e) => resolution_error(harnesses@, name@, e),
            }
        }),
{
    let mut found: Vec<&'a HarnessMetadata> = Vec::new();
    let mut i: usize = 0;
    proof {
        assert(harnesses@.subrange(0, 0) =~= Seq::<HarnessMetadata>::empty());
        assert(deref_all(found@) =~= Seq::<HarnessMetadata>::empty());
    }
    while i < harnesses.len()
        invariant
            0 <= i <= harnesses@.len(),
            deref_all(found@) == matching_harnesses(harnesses@.subrange(0, i as int), name@),
        decreases harnesses@.len() - i,
    {
        let h = &harnesses[i];
        let matches = pretty_name_matches(h.pretty_name.as_str(), name);
        proof {
            assert(harnesses@.subrange(0, i + 1).drop_last() =~= harnesses@.subrange(0, i as int));
        }
        if matches {
            found.push(h);
        }
        proof {
            assert(deref_all(found@) =~= matching_harnesses(harnesses@.subrange(0, i + 1), name@));
        }
        i = i + 1;
    }
    proof {
        assert(harnesses@.subrange(0, i as int) =~= harnesses@);
    }
    if found.len() == 0 {
        return Err(HarnessError::NotFound { name: name.to_owned() });
    }
    if found.len() == 1 {
        return Ok(found[0]);
    }
    let mut candidates: Vec<String> = Vec::new();
    let mut k: usize = 0;
    while k < found.len()
        invariant
            0 <= k <= found@.len(),
            candidates@.len() == k,
            strings_view(candidates@) == pretty_names(deref_all(found@)).take(k as int),
        decreases found@.len() - k,
    {
        let ghost before = candidates@;
        candidates.push(found[k].pretty_name.clone());
        proof {
            assert(candidates@ == before.push(candidates@[k as int]));
            assert(deref_all(found@)[k as int] == *found@[k as int]);
            assert(strings_view(before.push(candidates@[k as int])) =~= strings_view(before).push(
                candidates@[k as int]@,
            ));
            assert(strings_view(candidates@) =~= pretty_names(deref_all(found@)).take(k + 1));
        }
        k = k + 1;
    }
    proof {
        assert(pretty_names(deref_all(found@)).take(k as int) =~= pretty_names(deref_all(found@)));
    }
    Err(HarnessError::Conflicting { name: name.to_owned(), candidates })
}

/// An abstract method, identified by the trait that declares it and its
/// slot in that trait's vtable.
pub struct TraitDefinedMethod {
    pub crate_name: String,
    pub trait_name: String,
    pub vtable_idx: usize,
}

/// The concrete implementations that one unit found reachable for an
/// abstract method.
pub struct PossibleMethodEntry {
    pub trait_method: TraitDefinedMethod,
    pub possibilities: Vec<String>,
}

/// One indirect call site: the function it stands in, its label there, and
/// the abstract method it calls.
pub struct CallSiteInfo {
    pub function_name: String,
    pub label: String,
    pub trait_method: TraitDefinedMethod,
}

/// The call-target facts of one compilation unit.
pub struct VtableCtxResults {
    pub possible_methods: Vec<PossibleMethodEntry>,
    pub call_sites: Vec<CallSiteInfo>,
}

/// Two abstract-method keys name the same method.
pub open spec fn same_method(a: TraitDefinedMethod, b: TraitDefinedMethod) -> bool {
    a.crate_name@ == b.crate_name@ && a.trait_name@ == b.trait_name@ && a.vtable_idx
        == b.vtable_idx
}

/// The text of each string.
pub open spec fn strings_view(v: Seq<String>) -> Seq<Seq<char>> {
    v.map_values(|s: String| s@)
}

/// The possibility set that the last entry for `key` records, if any entry does.
pub open spec fn lookup_entries(entries: Seq<PossibleMethodEntry>, key: TraitDefinedMethod) -> Option<
    Seq<Seq<char>>,
>
    decreases entries.len(),
{
    if entries.len() == 0 {
        None
    } else if same_method(entries.last().trait_method, key) {
        Some(strings_view(entries.last().possibilities@))
    } else {
        lookup_entries(entries.drop_last(), key)
    }
}

/// The possibility set recorded for `key` by the last unit that records one:
/// a later unit overwrites what an earlier one recorded.
pub open spec fn lookup_units(units: Seq<VtableCtxResults>, key: TraitDefinedMethod) -> Option<
    Seq<Seq<char>>,
>
    decreases units.len(),
{
    if units.len() == 0 {
        None
    } else {
        match lookup_entries(units.last().possible_methods@, key) {
            Some(p) => Some(p),
            None => lookup_units(units.drop_last(), key),
        }
    }
}

/// The call sites of all units, unit after unit.
pub open spec fn all_call_sites(units: Seq<VtableCtxResults>) -> Seq<CallSiteInfo>
    decreases units.len(),
{
    if units.len() == 0 {
        Seq::empty()
    } else {
        all_call_sites(units.drop_last()) + units.last().call_sites@
    }
}

/// The solver's name for a call site: `function_name.label`.
pub open spec fn call_site_key(c: CallSiteInfo) -> Seq<char> {
    c.function_name@ + seq!['.'] + c.label@
}

/// The targets allowed at call site `c`: the combined possibility set of its
/// abstract method, and none where no unit records one.
pub open spec fn allowed_targets(units: Seq<VtableCtxResults>, c: CallSiteInfo) -> Seq<Seq<char>> {
    match lookup_units(units, c.trait_method) {
        Some(p) => p,
        None => Seq::empty(),
    }
}

/// The restriction entry that the linker emits for call site `c`.
pub open spec fn restriction_entry(
    units: Seq<VtableCtxResults>,
    c: CallSiteInfo,
    e: (String, Vec<String>),
) -> bool {
    e.0@ == call_site_key(c) && strings_view(e.1@) == allowed_targets(units, c)
}

fn copy_strings(v: &Vec<String>) -> (r: Vec<String>)
    ensures
        strings_view(r@) == strings_view(v@),
{
    let mut r: Vec<String> = Vec::new();
    let mut i: usize = 0;
    while i < v.len()
        invariant
            0 <= i <= v@.len(),
            r@.len() == i,
            forall|k: int| 0 <= k < i ==> r@[k]@ == v@[k]@,
        decreases v@.len() - i,
    {
        r.push(v[i].clone());
        i = i + 1;
    }
    proof {
        assert(strings_view(r@) =~= strings_view(v@));
    }
    r
}

fn method_eq(a: &TraitDefinedMethod, b: &TraitDefinedMethod) -> (r: bool)
    ensures
        r == same_method(*a, *b),
{
    a.vtable_idx == b.vtable_idx && a.crate_name == b.crate_name && a.trait_name == b.trait_name
}

/// The possibility set that the units combined record for `key`.
fn lookup_possibilities<'a>(units: &'a Vec<VtableCtxResults>, key: &TraitDefinedMethod) -> (r:
    Option<&'a Vec<String>>)
    ensures
        match r {
            Some(p) => lookup_units(units@, *key) == Some(strings_view(p@)),
            None => lookup_units(units@, *key) is None,
        },
{
    let mut u: usize = units.len();
    proof {
        assert(units@.subrange(0, u as int) =~= units@);
    }
    while u > 0
        invariant
            u <= units@.len(),
            lookup_units(units@, *key) == lookup_units(units@.subrange(0, u as int), *key),
        decreases u,
    {
        let entries = &units[u - 1].possible_methods;
        let mut e: usize = entries.len();
        proof {
            assert(entries@.subrange(0, e as int) =~= entries@);
            assert(units@.subrange(0, u as int).drop_last() =~= units@.subrange(0, u - 1));
        }
        while e > 0
            invariant
                0 < u <= units@.len(),
                entries@ == units@[u - 1].possible_methods@,
                lookup_units(units@, *key) == lookup_units(units@.subrange(0, u as int), *key),
                units@.subrange(0, u as int).drop_last() == units@.subrange(0, u - 1),
                e <= entries@.len(),
                lookup_entries(entries@, *key) == lookup_entries(entries@.subrange(0, e as int), *key),
            decreases e,
        {
            proof {
                assert(entries@.subrange(0, e as int).drop_last() =~= entries@.subrange(
                    0,
                    e - 1,
                ));
            }
            if method_eq(&entries[e - 1].trait_method, key) {
                return Some(&entries[e - 1].possibilities);
            }
            e = e - 1;
        }
        proof {
            assert(entries@.subrange(0, 0) =~= Seq::<PossibleMethodEntry>::empty());
        }
        u = u - 1;
    }
    None
}

/// Builds the global call restriction: for every call site of every unit, in
/// order, the entry `function_name.label` with the targets its abstract method
/// may resolve to. Where units disagree on an abstract method, the last one
/// wins; where none records it, the site gets no target at all.
pub fn link_function_pointer_restrictions(data_per_crate: &Vec<VtableCtxResults>) -> (r: Vec<
    (String, Vec<String>),
>)
    ensures
        r@.len() == all_call_sites(data_per_crate@).len(),
        forall|k: int|
            0 <= k < r@.len() ==> restriction_entry(
                data_per_crate@,
                #[trigger] all_call_sites(data_per_crate@)[k],
                r@[k],
            ),
{
    let ghost units = data_per_crate@;
    let mut output: Vec<(String, Vec<String>)> = Vec::new();
    let mut u: usize = 0;
    while u < data_per_crate.len()
        invariant
            units == data_per_crate@,
            0 <= u <= units.len(),
            output@.len() == all_call_sites(units.subrange(0, u as int)).len(),
            forall|k: int|
                0 <= k < output@.len() ==> restriction_entry(
                    units,
                    #[trigger] all_call_sites(units.subrange(0, u as int))[k],
                    output@[k],
                ),
        decreases units.len() - u,
    {
        let sites = &data_per_crate[u].call_sites;
        let ghost before = all_call_sites(units.subrange(0, u as int));
        proof {
            assert(units.subrange(0, u + 1).drop_last() =~= units.subrange(0, u as int));
        }
        let mut c: usize = 0;
        while c < sites.len()
            invariant
                units == data_per_crate@,
                0 <= u < units.len(),
                sites@ == units[u as int].call_sites@,
                before == all_call_sites(units.subrange(0, u as int)),
                all_call_sites(units.subrange(0, u + 1)) == before + sites@,
                0 <= c <= sites@.len(),
                output@.len() == before.len() + c,
                forall|k: int|
                    0 <= k < output@.len() ==> restriction_entry(
                        units,
                        #[trigger] (before + sites@)[k],
                        output@[k],
                    ),
            decreases sites@.len() - c,
        {
            let site = &sites[c];
            let mut key = site.function_name.clone();
            key.append(".");
            key.append(site.label.as_str());
            let possibilities = match lookup_possibilities(data_per_crate, &site.trait_method) {
                Some(p) => copy_strings(p),
                None => Vec::new(),
            };
            proof {
                reveal_strlit(".");
                assert(key@ =~= call_site_key(*site));
                assert(strings_view(possibilities@) =~= allowed_targets(units, *site));
                assert((before + sites@)[before.len() + c] == *site);
            }
            output.push((key, possibilities));
            c = c + 1;
        }
        u = u + 1;
    }
    proof {
        assert(units.subrange(0, u as int) =~= units);
    }
    output
}

/// No entry of `entries` names `key`.
pub open spec fn entries_miss(entries: Seq<PossibleMethodEntry>, key: TraitDefinedMethod) -> bool {
    forall|i: int| 0 <= i < entries.len() ==> !same_method(#[trigger] entries[i].trait_method, key)
}

proof fn lemma_entries_miss(entries: Seq<PossibleMethodEntry>, key: TraitDefinedMethod)
    requires
        entries_miss(entries, key),
    ensures
        lookup_entries(entries, key) is None,
    decreases entries.len(),
{
    if entries.len() > 0 {
        assert(entries_miss(entries.drop_last(), key)) by {
            assert forall|i: int| 0 <= i < entries.drop_last().len() implies !same_method(
                #[trigger] entries.drop_last()[i].trait_method,
                key,
            ) by {
                assert(entries.drop_last()[i] == entries[i]);
            }
        }
        lemma_entries_miss(entries.drop_last(), key);
    }
}

proof fn lemma_entries_last(entries: Seq<PossibleMethodEntry>, e: int, key: TraitDefinedMethod)
    requires
        0 <= e < entries.len(),
        same_method(entries[e].trait_method, key),
        forall|i: int| e < i < entries.len() ==> !same_method(#[trigger] entries[i].trait_method, key),
    ensures
        lookup_entries(entries, key) == Some(strings_view(entries[e].possibilities@)),
    decreases entries.len(),
{
    if e < entries.len() - 1 {
        let d = entries.drop_last();
        assert forall|i: int| e < i < d.len() implies !same_method(#[trigger] d[i].trait_method, key) by {
            assert(d[i] == entries[i]);
        }
        lemma_entries_last(d, e, key);
    }
}

/// A call site whose abstract method no unit records keeps its entry in the
/// restriction, with no allowed target.
pub proof fn lemma_unrecorded_method_has_no_target(units: Seq<VtableCtxResults>, c: CallSiteInfo)
    requires
        forall|u: int|
            0 <= u < units.len() ==> entries_miss(#[trigger] units[u].possible_methods@, c.trait_method),
    ensures
        lookup_units(units, c.trait_method) is None,
        allowed_targets(units, c) == Seq::<Seq<char>>::empty(),
    decreases units.len(),
{
    if units.len() > 0 {
        lemma_entries_miss(units.last().possible_methods@, c.trait_method);
        let d = units.drop_last();
        assert forall|u: int| 0 <= u < d.len() implies entries_miss(
            #[trigger] d[u].possible_methods@,
            c.trait_method,
        ) by {
            assert(d[u] == units[u]);
        }
        lemma_unrecorded_method_has_no_target(d, c);
    }
}

/// Where several units record a possibility set for one abstract method, the
/// combined table holds the set of the last of them (and of its last entry
/// for that method): the earlier sets are overwritten whole.
pub proof fn lemma_last_unit_wins(
    units: Seq<VtableCtxResults>,
    j: int,
    e: int,
    key: TraitDefinedMethod,
)
    requires
        0 <= j < units.len(),
        0 <= e < units[j].possible_methods@.len(),
        same_method(units[j].possible_methods@[e].trait_method, key),
        forall|i: int|
            e < i < units[j].possible_methods@.len() ==> !same_method(
                #[trigger] units[j].possible_methods@[i].trait_method,
                key,
            ),
        forall|u: int| j < u < units.len() ==> entries_miss(#[trigger] units[u].possible_methods@, key),
    ensures
        lookup_units(units, key) == Some(strings_view(units[j].possible_methods@[e].possibilities@)),
    decreases units.len(),
{
    if j == units.len() - 1 {
        lemma_entries_last(units[j].possible_methods@, e, key);
    } else {
        lemma_entries_miss(units.last().possible_methods@, key);
        let d = units.drop_last();
        assert(d[j] == units[j]);
        assert forall|u: int| j < u < d.len() implies entries_miss(#[trigger] d[u].possible_methods@, key) by {
            assert(d[u] == units[u]);
        }
        lemma_last_unit_wins(d, j, e, key);
    }
}

/// Whole-program verification metadata, or that of one compilation unit.
pub struct KaniMetadata {
    pub proof_harnesses: Vec<HarnessMetadata>,
    pub unsupported_features: Vec<String>,
    pub test_harnesses: Vec<HarnessMetadata>,
}

/// The proof harnesses of all documents, document after document.
pub open spec fn concat_proof_harnesses(files: Seq<KaniMetadata>) -> Seq<HarnessMetadata>
    decreases files.len(),
{
    if files.len() == 0 {
        Seq::empty()
    } else {
        files[0].proof_harnesses@ + concat_proof_harnesses(files.drop_first())
    }
}

/// The test harnesses of all documents, document after document.
pub open spec fn concat_test_harnesses(files: Seq<KaniMetadata>) -> Seq<HarnessMetadata>
    decreases files.len(),
{
    if files.len() == 0 {
        Seq::empty()
    } else {
        files[0].test_harnesses@ + concat_test_harnesses(files.drop_first())
    }
}

/// The unsupported-feature reports of all documents, every occurrence kept.
pub open spec fn concat_unsupported(files: Seq<KaniMetadata>) -> Seq<String>
    decreases files.len(),
{
    if files.len() == 0 {
        Seq::empty()
    } else {
        files[0].unsupported_features@ + concat_unsupported(files.drop_first())
    }
}

/// The number of proof harnesses over all documents.
pub open spec fn total_proof_harnesses(files: Seq<KaniMetadata>) -> nat
    decreases files.len(),
{
    if files.len() == 0 {
        0
    } else {
        files[0].proof_harnesses@.len() + total_proof_harnesses(files.drop_first())
    }
}

/// `m` is the merge of `files`.
pub open spec fn is_merge_of(m: KaniMetadata, files: Seq<KaniMetadata>) -> bool {
    &&& m.proof_harnesses@ == concat_proof_harnesses(files)
    &&& m.test_harnesses@ == concat_test_harnesses(files)
    &&& m.unsupported_features@ == concat_unsupported(files)
}

/// Merges per-unit metadata into one document by concatenation, in input
/// order: nothing is reordered, deduplicated or reconciled.
pub fn merge_kani_metadata(files: Vec<KaniMetadata>) -> (r: KaniMetadata)
    ensures
        is_merge_of(r, files@),
{
    let ghost all = files@;
    let mut files = files;
    let mut result = KaniMetadata {
        proof_harnesses: Vec::new(),
        unsupported_features: Vec::new(),
        test_harnesses: Vec::new(),
    };
    while files.len() > 0
        invariant
            concat_proof_harnesses(all) == result.proof_harnesses@ + concat_proof_harnesses(files@),
            concat_test_harnesses(all) == result.test_harnesses@ + concat_test_harnesses(files@),
            concat_unsupported(all) == result.unsupported_features@ + concat_unsupported(files@),
        decreases files@.len(),
    {
        let ghost rest = files@;
        let mut md = files.remove(0);
        proof {
            assert(files@ =~= rest.drop_first());
            assert(result.proof_harnesses@ + md.proof_harnesses@ + concat_proof_harnesses(files@)
                =~= result.proof_harnesses@ + (md.proof_harnesses@ + concat_proof_harnesses(
                files@,
            )));
            assert(result.test_harnesses@ + md.test_harnesses@ + concat_test_harnesses(files@)
                =~= result.test_harnesses@ + (md.test_harnesses@ + concat_test_harnesses(files@)));
            assert(result.unsupported_features@ + md.unsupported_features@ + concat_unsupported(
                files@,
            ) =~= result.unsupported_features@ + (md.unsupported_features@ + concat_unsupported(
                files@,
            )));
        }
        result.proof_harnesses.append(&mut md.proof_harnesses);
        result.unsupported_features.append(&mut md.unsupported_features);
        result.test_harnesses.append(&mut md.test_harnesses);
    }
    proof {
        assert(result.proof_harnesses@ + Seq::<HarnessMetadata>::empty() =~= result.proof_harnesses@);
        assert(result.test_harnesses@ + Seq::<HarnessMetadata>::empty() =~= result.test_harnesses@);
        assert(result.unsupported_features@ + Seq::<String>::empty()
            =~= result.unsupported_features@);
    }
    result
}

/// Merging keeps every proof harness: the merged list is as long as the
/// per-unit lists together, and holds them unit after unit, each in its own
/// order.
pub proof fn lemma_merge_keeps_all_harnesses(m: KaniMetadata, files: Seq<KaniMetadata>)
    requires
        is_merge_of(m, files),
    ensures
        m.proof_harnesses@.len() == total_proof_harnesses(files),
        forall|u: int, i: int|
            0 <= u < files.len() && 0 <= i < files[u].proof_harnesses@.len() ==> m.proof_harnesses@[
                total_proof_harnesses(files.take(u)) + i] == #[trigger] files[u].proof_harnesses@[i],
{
    lemma_concat_layout(files);
}

proof fn lemma_concat_layout(files: Seq<KaniMetadata>)
    ensures
        concat_proof_harnesses(files).len() == total_proof_harnesses(files),
        forall|u: int|
            0 <= u < files.len() ==> total_proof_harnesses(#[trigger] files.take(u))
                + files[u].proof_harnesses@.len() <= total_proof_harnesses(files),
        forall|u: int, i: int|
            0 <= u < files.len() && 0 <= i < files[u].proof_harnesses@.len()
                ==> concat_proof_harnesses(files)[total_proof_harnesses(files.take(u)) + i]
                == #[trigger] files[u].proof_harnesses@[i],
    decreases files.len(),
{
    if files.len() > 0 {
        let d = files.drop_first();
        lemma_concat_layout(d);
        assert(files.take(0) =~= Seq::<KaniMetadata>::empty());
        assert forall|u: int| 0 < u < files.len() implies total_proof_harnesses(
            #[trigger] files.take(u),
        ) == files[0].proof_harnesses@.len() + total_proof_harnesses(d.take(u - 1)) by {
            assert(files.take(u).drop_first() =~= d.take(u - 1));
            assert(files.take(u)[0] == files[0]);
        }
        assert forall|u: int|
            0 <= u < files.len() implies total_proof_harnesses(#[trigger] files.take(u))
            + files[u].proof_harnesses@.len() <= total_proof_harnesses(files) by {
            if u > 0 {
                assert(d[u - 1] == files[u]);
                assert(d.take(u - 1) == d.take(u - 1));
            }
        }
        assert forall|u: int, i: int|
            0 <= u < files.len() && 0 <= i < files[u].proof_harnesses@.len() implies concat_proof_harnesses(
            files,
        )[total_proof_harnesses(files.take(u)) + i] == #[trigger] files[u].proof_harnesses@[i] by {
            if u > 0 {
                assert(d[u - 1] == files[u]);
                assert(d.take(u - 1) == d.take(u - 1));
                assert(d[u - 1].proof_harnesses@[i] == files[u].proof_harnesses@[i]);
            }
        }
    }
}

/// The placeholder harness that a dry run reports.
pub open spec fn is_dry_run_harness(h: HarnessMetadata) -> bool {
    &&& h.pretty_name@ == "harness"@
    &&& h.mangled_name@ == "harness"@
    &&& h.original_file@ == "target_file.rs"@
    &&& h.original_start_line == 0
    &&& h.original_end_line == 0
    &&& h.unwind_value is None
}

/// A harness for the raw function `name`, with no real provenance.
pub open spec fn is_mock_harness(h: HarnessMetadata, name: Seq<char>, unwind: Option<u32>) -> bool {
    &&& h.pretty_name@ == name
    &&& h.mangled_name@ == name
    &&& h.original_file@ == "<unknown>"@
    &&& h.original_start_line == 0
    &&& h.original_end_line == 0
    &&& h.unwind_value == unwind
}

/// The placeholder harness that a dry run reports.
pub fn generate_mock_harness() -> (r: HarnessMetadata)
    ensures
        is_dry_run_harness(r),
{
    HarnessMetadata {
        pretty_name: "harness".to_owned(),
        mangled_name: "harness".to_owned(),
        original_file: "target_file.rs".to_owned(),
        original_start_line: 0,
        original_end_line: 0,
        unwind_value: None,
    }
}

/// A harness for the raw function `name`, not looked up in any metadata:
/// unknown file, empty span.
pub fn mock_proof_harness(name: &str, unwind_value: Option<u32>) -> (r: HarnessMetadata)
    ensures
        is_mock_harness(r, name@, unwind_value),
{
    HarnessMetadata {
        pretty_name: name.to_owned(),
        mangled_name: name.to_owned(),
        original_file: "<unknown>".to_owned(),
        original_start_line: 0,
        original_end_line: 0,
        unwind_value,
    }
}

fn copy_harnesses(v: &Vec<HarnessMetadata>) -> (r: Vec<HarnessMetadata>)
    ensures
        r@ == v@,
{
    let mut r: Vec<HarnessMetadata> = Vec::new();
    let mut i: usize = 0;
    while i < v.len()
        invariant
            0 <= i <= v@.len(),
            r@ == v@.subrange(0, i as int),
        decreases v@.len() - i,
    {
        r.push(v[i].clone());
        proof {
            assert(r@ =~= v@.subrange(0, i + 1));
        }
        i = i + 1;
    }
    proof {
        assert(v@.subrange(0, i as int) =~= v@);
    }
    r
}

/// The options of a run that decide what is verified.
pub struct KaniSession {
    /// Report a placeholder harness instead of reading any metadata.
    pub dry_run: bool,
    /// Stop after code generation.
    pub only_codegen: bool,
    /// A raw function to verify, not looked up in the metadata.
    pub function: Option<String>,
    /// A harness to look up by name.
    pub harness: Option<String>,
}

impl KaniSession {
    /// The whole-program metadata: the merge of the per-unit documents, or
    /// in a dry run a document with the one placeholder harness.
    pub fn collect_kani_metadata(&self, files: Vec<KaniMetadata>) -> (r: KaniMetadata)
        ensures
            self.dry_run ==> r.proof_harnesses@.len() == 1 && is_dry_run_harness(
                r.proof_harnesses@[0],
            ) && r.test_harnesses@.len() == 0 && r.unsupported_features@.len() == 0,
            !self.dry_run ==> is_merge_of(r, files@),
    {
        if self.dry_run {
            KaniMetadata {
                proof_harnesses: vec![generate_mock_harness()],
                unsupported_features: Vec::new(),
                test_harnesses: Vec::new(),
            }
        } else {
            merge_kani_metadata(files)
        }
    }

    /// The harnesses to verify: a mock harness for a raw function, else the
    /// one harness that the query names, else every proof harness.
    pub fn determine_targets(&self, metadata: &KaniMetadata) -> (r: Result<
        Vec<HarnessMetadata>,
        HarnessError,
    >)
        ensures
            match r {
                Ok(v) => targets_ok(*self, *metadata, v@),
                Err(e) => targets_err(*self, *metadata, e),
            },
    {
        if let Some(name) = &self.function {
            return Ok(vec![mock_proof_harness(name.as_str(), None)]);
        }
        if let Some(name) = &self.harness {
            let harness = find_proof_harness(name.as_str(), metadata.proof_harnesses.as_slice())?;
            let v = vec![harness.clone()];
            proof {
                assert(v@ =~= seq![*harness]);
            }
            return Ok(v);
        }
        Ok(copy_harnesses(&metadata.proof_harnesses))
    }
}

/// `t` is the target list owed for `session` on `metadata`.
pub open spec fn targets_ok(session: KaniSession, metadata: KaniMetadata, t: Seq<HarnessMetadata>) -> bool {
    match session.function {
        Some(f) => t.len() == 1 && is_mock_harness(t[0], f@, None),
        None => match session.harness {
            Some(q) => {
                let ms = matching_harnesses(metadata.proof_harnesses@, q@);
                ms.len() == 1 && t == seq![ms[0]]
            },
            None => t == metadata.proof_harnesses@,
        },
    }
}

/// `e` is the selection error owed for `session` on `metadata`: only a
/// harness query that names no harness, or several, fails.
pub open spec fn targets_err(session: KaniSession, metadata: KaniMetadata, e: HarnessError) -> bool {
    session.function is None && match session.harness {
        Some(q) => resolution_error(metadata.proof_harnesses@, q@, e),
        None => false,
    }
}

/// Character-wise lexicographic order, the order of `String` comparison.
pub open spec fn str_lt(a: Seq<char>, b: Seq<char>) -> bool
    decreases a.len(),
{
    if a.len() == 0 {
        b.len() > 0
    } else if b.len() == 0 {
        false
    } else if a[0] != b[0] {
        (a[0] as u32) < (b[0] as u32)
    } else {
        str_lt(a.drop_first(), b.drop_first())
    }
}

proof fn lemma_str_lt_irreflexive(a: Seq<char>)
    ensures
        !str_lt(a, a),
    decreases a.len(),
{
    if a.len() > 0 {
        lemma_str_lt_irreflexive(a.drop_first());
    }
}

proof fn lemma_str_lt_transitive(a: Seq<char>, b: Seq<char>, c: Seq<char>)
    requires
        str_lt(a, b),
        str_lt(b, c),
    ensures
        str_lt(a, c),
    decreases a.len(),
{
    if a.len() > 0 && b.len() > 0 && c.len() > 0 && a[0] == b[0] && b[0] == c[0] {
        lemma_str_lt_transitive(a.drop_first(), b.drop_first(), c.drop_first());
    }
}

/// `a` is processed before `b` in a safe-rewrite order: files in ascending
/// order, and within one file the later start line first.
pub open spec fn loc_before(a: HarnessMetadata, b: HarnessMetadata) -> bool {
    str_lt(a.original_file@, b.original_file@) || (a.original_file@ == b.original_file@
        && a.original_start_line > b.original_start_line)
}

proof fn lemma_loc_before_irreflexive(a: HarnessMetadata)
    ensures
        !loc_before(a, a),
{
    lemma_str_lt_irreflexive(a.original_file@);
}

proof fn lemma_loc_before_transitive(a: HarnessMetadata, b: HarnessMetadata, c: HarnessMetadata)
    requires
        loc_before(a, b),
        loc_before(b, c),
    ensures
        loc_before(a, c),
{
    if str_lt(a.original_file@, b.original_file@) && str_lt(b.original_file@, c.original_file@) {
        lemma_str_lt_transitive(a.original_file@, b.original_file@, c.original_file@);
    }
}

/// No harness of `s` stands after one that it must come before.
pub open spec fn sorted_for_rewrite(s: Seq<HarnessMetadata>) -> bool {
    forall|i: int, j: int| 0 <= i < j < s.len() ==> !loc_before(#[trigger] s[j], #[trigger] s[i])
}

/// The harnesses that the references point to.
pub open spec fn deref_all(s: Seq<&HarnessMetadata>) -> Seq<HarnessMetadata> {
    s.map_values(|h: &HarnessMetadata| *h)
}

/// Whether `a` comes before `b` in character-wise lexicographic order.
fn str_less(a: &str, b: &str) -> (r: bool)
    ensures
        r == str_lt(a@, b@),
{
    let alen = a.unicode_len();
    let blen = b.unicode_len();
    let mut i: usize = 0;
    proof {
        assert(a@.skip(0) =~= a@);
        assert(b@.skip(0) =~= b@);
    }
    while i < alen && i < blen
        invariant
            alen == a@.len(),
            blen == b@.len(),
            i <= alen,
            i <= blen,
            str_lt(a@, b@) == str_lt(a@.skip(i as int), b@.skip(i as int)),
        decreases alen - i,
    {
        let ca = a.get_char(i);
        let cb = b.get_char(i);
        proof {
            assert(a@.skip(i as int)[0] == ca);
            assert(b@.skip(i as int)[0] == cb);
            assert(a@.skip(i as int).drop_first() =~= a@.skip(i + 1));
            assert(b@.skip(i as int).drop_first() =~= b@.skip(i + 1));
        }
        if ca != cb {
            return (ca as u32) < (cb as u32);
        }
        i = i + 1;
    }
    i == alen && i < blen
}

/// Whether harness `a` is processed before harness `b`.
fn harness_before(a: &HarnessMetadata, b: &HarnessMetadata) -> (r: bool)
    ensures
        r == loc_before(*a, *b),
{
    if str_less(a.original_file.as_str(), b.original_file.as_str()) {
        return true;
    }
    a.original_file == b.original_file && a.original_start_line > b.original_start_line
}

proof fn lemma_insert_multiset(s: Seq<HarnessMetadata>, p: int, x: HarnessMetadata)
    requires
        0 <= p <= s.len(),
    ensures
        s.insert(p, x).to_multiset() =~= s.to_multiset().insert(x),
{
    let t = s.insert(p, x);
    assert(t.remove(p) =~= s);
    t.to_multiset_ensures();
    assert(t.contains(x)) by {
        assert(t[p] == x);
    }
}

/// The harnesses in the order in which rewriting source files next to them
/// is safe: files in ascending order, and within a file from the last start
/// line up, so that a rewrite never moves a harness still to be processed.
pub fn sort_harnesses_by_loc<'a>(harnesses: &'a [HarnessMetadata]) -> (r: Vec<&'a HarnessMetadata>)
    ensures
        deref_all(r@).to_multiset() == harnesses@.to_multiset(),
        sorted_for_rewrite(deref_all(r@)),
{
    let mut sorted: Vec<&'a HarnessMetadata> = Vec::new();
    let mut i: usize = 0;
    proof {
        assert(harnesses@.take(0) =~= Seq::<HarnessMetadata>::empty());
        assert(deref_all(sorted@) =~= Seq::<HarnessMetadata>::empty());
    }
    while i < harnesses.len()
        invariant
            0 <= i <= harnesses@.len(),
            deref_all(sorted@).to_multiset() == harnesses@.take(i as int).to_multiset(),
            sorted_for_rewrite(deref_all(sorted@)),
            sorted@.len() == i,
        decreases harnesses@.len() - i,
    {
        let x = &harnesses[i];
        let ghost ds = deref_all(sorted@);
        let mut p: usize = 0;
        while p < sorted.len() && !harness_before(x, sorted[p])
            invariant
                ds == deref_all(sorted@),
                p <= sorted@.len(),
                forall|k: int| 0 <= k < p ==> !loc_before(*x, #[trigger] ds[k]),
            decreases sorted@.len() - p,
        {
            p = p + 1;
        }
        sorted.insert(p, x);
        proof {
            let t = ds.insert(p as int, *x);
            assert(deref_all(sorted@) =~= t);
            ds.insert_ensures(p as int, *x);
            lemma_insert_multiset(ds, p as int, *x);
            assert(harnesses@.take(i + 1) =~= harnesses@.take(i as int).push(*x));
            harnesses@.take(i as int).to_multiset_ensures();
            assert forall|a: int, b: int| 0 <= a < b < t.len() implies !loc_before(
                #[trigger] t[b],
                #[trigger] t[a],
            ) by {
                if a < p && b > p {
                    assert(t[a] == ds[a] && t[b] == ds[b - 1]);
                } else if b < p {
                    assert(t[a] == ds[a] && t[b] == ds[b]);
                } else if a > p {
                    assert(t[a] == ds[a - 1] && t[b] == ds[b - 1]);
                } else if a == p {
                    assert(t[b] == ds[b - 1]);
                    if loc_before(ds[b - 1], *x) {
                        lemma_loc_before_transitive(ds[b - 1], *x, ds[p as int]);
                        if b - 1 == p {
                            lemma_loc_before_irreflexive(ds[p as int]);
                        }
                    }
                } else {
                    assert(t[a] == ds[a]);
                }
            }
        }
        i = i + 1;
    }
    proof {
        assert(harnesses@.take(i as int) =~= harnesses@);
    }
    sorted
}

/// Whether `path` names a per-unit call-target document.
pub fn is_restrictions_file(path: &str) -> (r: bool)
    ensures
        r == seq_ends_with(path@, ".restrictions.json"@),
{
    let suffix = ".restrictions.json";
    let plen = path.unicode_len();
    let slen = suffix.unicode_len();
    if plen < slen {
        return false;
    }
    chars_equal_at(path, plen - slen, suffix)
}

} // verus!
