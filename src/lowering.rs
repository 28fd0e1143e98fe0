use vstd::prelude::*;

verus! {

/// A broken invariant of the lowering logic built on top of [`CurrentFnCtx`].
/// Such an error is never the user's fault: the driver aborts the unit.
#[derive(Debug, Clone, Copy, PartialEq, Eq, Structural)]
pub enum LoweringError {
    /// The block label table was set a second time.
    LabelsAlreadySet,
    /// The current basic block was read while no block was entered.
    NoCurrentBlock,
}

/// Lowering context for one function: accumulates statements of type `S`,
/// tracks the basic block being translated and the block label table, and
/// hands out fresh temporary-variable numbers. `I` is the declaration the
/// function comes from and `G` its signature, both fixed at construction.
pub struct CurrentFnCtx<S, I, G> {
    /// The statements built so far for the function.
    block: Vec<S>,
    /// The basic block being translated, if any.
    current_bb: Option<usize>,
    /// One label per basic block, indexed by block number.
    labels: Vec<String>,
    /// Whether the label table has been set.
    labels_set: bool,
    /// The declaration the function comes from.
    instance: I,
    /// The symbol name of the function.
    name: String,
    /// The signature of the function.
    sig: G,
    /// The next temporary-variable number to hand out.
    temp_var_counter: u64,
}

impl<S, I, G> CurrentFnCtx<S, I, G> {
    /// The statements accumulated so far.
    pub closed spec fn spec_block(&self) -> Seq<S> {
        self.block@
    }

    /// The basic block currently entered.
    pub closed spec fn spec_current_bb(&self) -> Option<usize> {
        self.current_bb
    }

    /// The label of each basic block, by block number.
    pub closed spec fn spec_labels(&self) -> Seq<Seq<char>> {
        self.labels@.map_values(|l: String| l@)
    }

    /// Whether the label table has been set.
    pub closed spec fn spec_labels_set(&self) -> bool {
        self.labels_set
    }

    /// The symbol name of the function.
    pub closed spec fn spec_name(&self) -> Seq<char> {
        self.name@
    }

    /// The signature of the function.
    pub closed spec fn spec_sig(&self) -> G {
        self.sig
    }

    /// The declaration the function comes from.
    pub closed spec fn spec_instance(&self) -> I {
        self.instance
    }

    /// The next temporary-variable number.
    pub closed spec fn counter(&self) -> u64 {
        self.temp_var_counter
    }

    /// The temporary-variable numbers this context has handed out so far.
    pub open spec fn issued(&self) -> Set<u64> {
        Set::new(|x: u64| x < self.counter())
    }

    /// Everything but the statement list is as in `other`.
    pub open spec fn same_but_block(&self, other: &Self) -> bool {
        &&& self.spec_current_bb() == other.spec_current_bb()
        &&& self.spec_labels() == other.spec_labels()
        &&& self.spec_labels_set() == other.spec_labels_set()
        &&& self.spec_name() == other.spec_name()
        &&& self.spec_sig() == other.spec_sig()
        &&& self.spec_instance() == other.spec_instance()
        &&& self.counter() == other.counter()
    }

    /// Everything but the current block is as in `other`.
    pub open spec fn same_but_current_bb(&self, other: &Self) -> bool {
        &&& self.spec_block() == other.spec_block()
        &&& self.spec_labels() == other.spec_labels()
        &&& self.spec_labels_set() == other.spec_labels_set()
        &&& self.spec_name() == other.spec_name()
        &&& self.spec_sig() == other.spec_sig()
        &&& self.spec_instance() == other.spec_instance()
        &&& self.counter() == other.counter()
    }

    /// Everything but the label table is as in `other`.
    pub open spec fn same_but_labels(&self, other: &Self) -> bool {
        &&& self.spec_block() == other.spec_block()
        &&& self.spec_current_bb() == other.spec_current_bb()
        &&& self.spec_name() == other.spec_name()
        &&& self.spec_sig() == other.spec_sig()
        &&& self.spec_instance() == other.spec_instance()
        &&& self.counter() == other.counter()
    }

    /// Everything but the temporary counter is as in `other`.
    pub open spec fn same_but_counter(&self, other: &Self) -> bool {
        &&& self.spec_block() == other.spec_block()
        &&& self.spec_current_bb() == other.spec_current_bb()
        &&& self.spec_labels() == other.spec_labels()
        &&& self.spec_labels_set() == other.spec_labels_set()
        &&& self.spec_name() == other.spec_name()
        &&& self.spec_sig() == other.spec_sig()
        &&& self.spec_instance() == other.spec_instance()
    }

    /// A context for the function `name`, declared by `instance`, with
    /// signature `sig`: no statements, no current block, no labels, and no
    /// temporary handed out yet, so numbering starts again from zero.
    pub fn new(instance: I, name: String, sig: G) -> (r: Self)
        ensures
            r.spec_instance() == instance,
            r.issued() == Set::<u64>::empty(),
            r.spec_block() == Seq::<S>::empty(),
            r.spec_current_bb() == None::<usize>,
            r.spec_labels() == Seq::<Seq<char>>::empty(),
            !r.spec_labels_set(),
            r.spec_name() == name@,
            r.spec_sig() == sig,
            r.counter() == 0,
    {
        let r = CurrentFnCtx {
            block: Vec::new(),
            current_bb: None,
            labels: Vec::new(),
            labels_set: false,
            instance,
            name,
            sig,
            temp_var_counter: 0,
        };
        proof {
            assert(r.labels@.map_values(|l: String| l@) =~= Seq::<Seq<char>>::empty());
            assert(r.issued() =~= Set::<u64>::empty());
        }
        r
    }

    /// Hands the accumulated statements to the caller and starts a fresh,
    /// empty sequence.
    pub fn extract_block(&mut self) -> (r: Vec<S>)
        ensures
            r@ == old(self).spec_block(),
            final(self).spec_block() == Seq::<S>::empty(),
            final(self).same_but_block(old(self)),
    {
        let mut r: Vec<S> = Vec::new();
        std::mem::swap(&mut self.block, &mut r);
        r
    }

    /// Returns a temporary-variable number never returned before by this
    /// context and larger than every number it returned before, and moves the
    /// counter past it. Successive calls thus give increasing numbers.
    pub fn get_and_incr_counter(&mut self) -> (r: u64)
        requires
            old(self).counter() < u64::MAX,
        ensures
            r == old(self).counter(),
            final(self).counter() == old(self).counter() + 1,
            !old(self).issued().contains(r),
            fresh_temp_step(*old(self), r, *final(self)),
            final(self).same_but_counter(old(self)),
    {
        let rval = self.temp_var_counter;
        self.temp_var_counter = self.temp_var_counter + 1;
        proof {
            assert(self.issued() =~= old(self).issued().insert(rval));
        }
        rval
    }

    /// Appends one statement.
    pub fn push_onto_block(&mut self, s: S)
        ensures
            final(self).spec_block() == old(self).spec_block().push(s),
            final(self).same_but_block(old(self)),
    {
        self.block.push(s)
    }

    /// Leaves the current basic block.
    pub fn reset_current_bb(&mut self)
        ensures
            final(self).spec_current_bb() == None::<usize>,
            final(self).same_but_current_bb(old(self)),
    {
        self.current_bb = None;
    }

    /// Enters basic block `bb`.
    pub fn set_current_bb(&mut self, bb: usize)
        ensures
            final(self).spec_current_bb() == Some(bb),
            final(self).same_but_current_bb(old(self)),
    {
        self.current_bb = Some(bb);
    }

    /// Sets the label table, one label per basic block. The table is set
    /// once per context: a second call fails and leaves the context as it was.
    pub fn set_labels(&mut self, labels: Vec<String>) -> (r: Result<(), LoweringError>)
        ensures
            r is Ok <==> !old(self).spec_labels_set(),
            old(self).spec_labels_set() <==> r == Err::<(), LoweringError>(
                LoweringError::LabelsAlreadySet,
            ),
            r is Ok ==> final(self).spec_labels() == labels@.map_values(|l: String| l@)
                && final(self).spec_labels_set() && final(self).same_but_labels(old(self)),
            r is Err ==> *final(self) == *old(self),
    {
        if self.labels_set {
            return Err(LoweringError::LabelsAlreadySet);
        }
        self.labels = labels;
        self.labels_set = true;
        Ok(())
    }

    /// The basic block being translated; an error while no block is entered.
    pub fn current_bb(&self) -> (r: Result<usize, LoweringError>)
        ensures
            r == match self.spec_current_bb() {
                Some(bb) => Ok::<usize, LoweringError>(bb),
                None => Err(LoweringError::NoCurrentBlock),
            },
    {
        match self.current_bb {
            Some(bb) => Ok(bb),
            None => Err(LoweringError::NoCurrentBlock),
        }
    }

    /// The label table.
    pub fn labels(&self) -> (r: &Vec<String>)
        ensures
            r@.map_values(|l: String| l@) == self.spec_labels(),
    {
        &self.labels
    }

    /// The symbol name of the function.
    pub fn name(&self) -> (r: String)
        ensures
            r@ == self.spec_name(),
    {
        self.name.clone()
    }

    /// The declaration the function comes from.
    pub fn instance(&self) -> (r: &I)
        ensures
            *r == self.spec_instance(),
    {
        &self.instance
    }

    /// The signature of the function.
    pub fn sig(&self) -> (r: &G)
        ensures
            *r == self.spec_sig(),
    {
        &self.sig
    }

    /// The label of basic block `bb`.
    pub fn find_label(&self, bb: usize) -> (r: String)
        requires
            bb < self.spec_labels().len(),
        ensures
            r@ == self.spec_labels()[bb as int],
    {
        self.labels[bb].clone()
    }
}

/// One call of the temporary counter, as `get_and_incr_counter` states it:
/// `r` was not handed out by `before`, exceeds all that was, and is handed
/// out by `after`.
pub open spec fn fresh_temp_step<S, I, G>(
    before: CurrentFnCtx<S, I, G>,
    r: u64,
    after: CurrentFnCtx<S, I, G>,
) -> bool {
    &&& forall|x: u64| before.issued().contains(x) ==> x < r
    &&& after.issued() == before.issued().insert(r)
}

/// Temporaries handed out by one context come out distinct and in increasing
/// order. `before[i]`, `results[i]` and `after[i]` are the context before the
/// i-th call, its result and the context after it; between two calls the
/// context keeps what it handed out, as every operation on it does.
pub proof fn lemma_fresh_temps_increase<S, I, G>(
    before: Seq<CurrentFnCtx<S, I, G>>,
    results: Seq<u64>,
    after: Seq<CurrentFnCtx<S, I, G>>,
)
    requires
        before.len() == results.len(),
        after.len() == results.len(),
        forall|i: int| 0 <= i < results.len() ==> fresh_temp_step(before[i], results[i], after[i]),
        forall|i: int|
            0 <= i < results.len() - 1 ==> after[i].issued().subset_of(before[i + 1].issued()),
    ensures
        forall|i: int, j: int| 0 <= i < j < results.len() ==> results[i] < results[j],
{
    assert forall|i: int, j: int| 0 <= i < j < results.len() implies results[i] < results[j] by {
        lemma_issued_grows(before, results, after, i, j);
        assert(after[i].issued().contains(results[i]));
    }
}

/// What the i-th call hands out is still handed out before the j-th call.
proof fn lemma_issued_grows<S, I, G>(
    before: Seq<CurrentFnCtx<S, I, G>>,
    results: Seq<u64>,
    after: Seq<CurrentFnCtx<S, I, G>>,
    i: int,
    j: int,
)
    requires
        before.len() == results.len(),
        after.len() == results.len(),
        forall|k: int| 0 <= k < results.len() ==> fresh_temp_step(before[k], results[k], after[k]),
        forall|k: int|
            0 <= k < results.len() - 1 ==> after[k].issued().subset_of(before[k + 1].issued()),
        0 <= i < j < results.len(),
    ensures
        after[i].issued().subset_of(before[j].issued()),
    decreases j - i,
{
    if j > i + 1 {
        lemma_issued_grows(before, results, after, i, j - 1);
        assert(fresh_temp_step(before[j - 1], results[j - 1], after[j - 1]));
        assert(before[j - 1].issued().subset_of(after[j - 1].issued()));
    }
}

} // verus!
