//! Symbol table and scenarios of a symbol scope, for symbolic dimensions.

use vstd::prelude::*;
use std::collections::HashMap;
use vstd::set_lib::*;
use crate::text::{str_eq, decimal, lemma_decimal_injective, usize_to_string};
use vstd::string::*;
use string_interner::Symbol as InternerSymbol;

verus! {

// ---------------------------------------------------------------------------
// The interner: strings interned in order, each once.
// ---------------------------------------------------------------------------

/// The string interner of a scope. It holds `string_interner`'s default
/// interner in a private field; its contents are the interned strings in
/// the order they were interned, and a symbol's index is its position.
#[verifier::external_body]
pub struct SymbolTable {
    table: string_interner::DefaultStringInterner,
}

/// The strings a `SymbolTable` holds, in interning order.
pub uninterp spec fn symbol_table_strings(t: SymbolTable) -> Seq<Seq<char>>;

/// `DefaultStringInterner::new`: an interner that holds no string.
#[verifier::external_body]
fn table_new() -> (t: SymbolTable)
    ensures
        symbol_table_strings(t) == Seq::<Seq<char>>::empty(),
{
    SymbolTable { table: string_interner::DefaultStringInterner::new() }
}

/// `StringInterner::len`: the number of interned strings.
#[verifier::external_body]
fn table_len(t: &SymbolTable) -> (n: usize)
    ensures
        n == symbol_table_strings(*t).len(),
{
    t.table.len()
}

/// `StringInterner::get`: the index of a symbol interned for `name`, or
/// `None` when `name` was never interned. The table is unchanged.
#[verifier::external_body]
fn table_get(t: &SymbolTable, name: &str) -> (r: Option<usize>)
    ensures
        match r {
            Some(i) => i < symbol_table_strings(*t).len() && symbol_table_strings(*t)[i as int] == name@,
            None => !symbol_table_strings(*t).contains(name@),
        },
{
    match t.table.get(name) {
        Some(s) => Some(s.to_usize()),
        None => None,
    }
}

/// `StringInterner::get_or_intern`: a string already interned keeps its
/// index and leaves the table as it was; a new one is appended and gets
/// the next index. The crate's 32-bit symbols panic once `u32::MAX`
/// strings are held, hence the bound.
#[verifier::external_body]
fn table_get_or_intern(t: &mut SymbolTable, name: &str) -> (r: usize)
    requires
        symbol_table_strings(*old(t)).len() < u32::MAX,
    ensures
        symbol_table_strings(*old(t)).contains(name@) ==> {
            &&& symbol_table_strings(*final(t)) == symbol_table_strings(*old(t))
            &&& r < symbol_table_strings(*old(t)).len()
            &&& symbol_table_strings(*old(t))[r as int] == name@
        },
        !symbol_table_strings(*old(t)).contains(name@) ==> {
            &&& symbol_table_strings(*final(t)) == symbol_table_strings(*old(t)).push(name@)
            &&& r == symbol_table_strings(*old(t)).len()
        },
{
    t.table.get_or_intern(name).to_usize()
}

/// `StringInterner::resolve`: the string interned at `index`, or `None`
/// past the end. Symbols are 32-bit, hence the bound on `index`.
#[verifier::external_body]
fn table_resolve(t: &SymbolTable, index: usize) -> (r: Option<&str>)
    requires
        index < u32::MAX,
    ensures
        match r {
            Some(s) => index < symbol_table_strings(*t).len() && s@ == symbol_table_strings(*t)[index as int],
            None => index >= symbol_table_strings(*t).len(),
        },
{
    match string_interner::DefaultSymbol::try_from_usize(index) {
        Some(s) => t.table.resolve(s),
        None => None,
    }
}

// ---------------------------------------------------------------------------
// Symbols
// ---------------------------------------------------------------------------

/// A symbol of a scope: the scope's id and the symbol's index in the
/// scope's table. Symbols compare, for equality and order, by index.
#[derive(Clone, Copy, Debug)]
pub struct Symbol(u64, usize);

impl Symbol {
    pub closed spec fn spec_scope_id(&self) -> u64 {
        self.0
    }

    pub closed spec fn spec_index(&self) -> usize {
        self.1
    }

    /// The id of the scope that made the symbol.
    pub fn scope_id(&self) -> (r: u64)
        ensures
            r == self.spec_scope_id(),
    {
        self.0
    }

    /// The symbol's index in its scope's table.
    pub fn index(&self) -> (r: usize)
        ensures
            r == self.spec_index(),
    {
        self.1
    }
}

/// The index of a looked-up symbol, if one was found.
pub open spec fn symbol_index_of(r: Option<Symbol>) -> Option<usize> {
    match r {
        Some(s) => Some(s.spec_index()),
        None => None,
    }
}

impl PartialEq for Symbol {
    fn eq(&self, other: &Self) -> (r: bool) {
        self.1 == other.1
    }
}

impl vstd::std_specs::cmp::PartialEqSpecImpl for Symbol {
    open spec fn obeys_eq_spec() -> bool {
        true
    }

    open spec fn eq_spec(&self, other: &Self) -> bool {
        self.spec_index() == other.spec_index()
    }
}

impl Eq for Symbol {
}

/// Symbols are ordered by their indices, as interning order has it.
impl PartialOrd for Symbol {
    fn partial_cmp(&self, other: &Self) -> (r: Option<core::cmp::Ordering>) {
        if self.1 < other.1 {
            Some(core::cmp::Ordering::Less)
        } else if self.1 == other.1 {
            Some(core::cmp::Ordering::Equal)
        } else {
            Some(core::cmp::Ordering::Greater)
        }
    }
}

impl vstd::std_specs::cmp::PartialOrdSpecImpl for Symbol {
    open spec fn obeys_partial_cmp_spec() -> bool {
        true
    }

    open spec fn partial_cmp_spec(&self, other: &Self) -> Option<core::cmp::Ordering> {
        if self.spec_index() < other.spec_index() {
            Some(core::cmp::Ordering::Less)
        } else if self.spec_index() == other.spec_index() {
            Some(core::cmp::Ordering::Equal)
        } else {
            Some(core::cmp::Ordering::Greater)
        }
    }
}


// ---------------------------------------------------------------------------
// Fresh names
// ---------------------------------------------------------------------------

/// The `i`-th candidate name derived from `prefix`: `prefix`, `_`, `i`.
pub open spec fn prefixed_name(prefix: Seq<char>, i: nat) -> Seq<char> {
    prefix + seq!['_'] + decimal(i)
}

/// The `i`-th candidate name: the prefix, an underscore and the decimal
/// spelling of `i`.
fn format_prefixed(prefix: &str, i: usize) -> (r: String)
    ensures
        r@ == prefixed_name(prefix@, i as nat),
{
    let digits = usize_to_string(i);
    let mut out = String::from_str(prefix);
    proof {
        reveal_strlit("_");
    }
    out.append("_");
    out.append(digits.as_str());
    out
}

/// Distinct indices give distinct candidate names.
pub proof fn lemma_prefixed_name_injective(prefix: Seq<char>, a: nat, b: nat)
    requires
        prefixed_name(prefix, a) == prefixed_name(prefix, b),
    ensures
        a == b,
{
    let k = prefix.len() + 1;
    assert(prefixed_name(prefix, a).subrange(k as int, prefixed_name(prefix, a).len() as int) =~= decimal(a));
    assert(prefixed_name(prefix, b).subrange(k as int, prefixed_name(prefix, b).len() as int) =~= decimal(b));
    lemma_decimal_injective(a, b);
}

/// A table of `len` strings cannot hold the `n + 1` candidate names
/// `0..=n` unless `n < len`.
pub proof fn lemma_candidates_fit(prefix: Seq<char>, strings: Seq<Seq<char>>, n: nat)
    requires
        forall|j: nat| j <= n ==> strings.contains(#[trigger] prefixed_name(prefix, j)),
    ensures
        n < strings.len(),
{
    let x = set_int_range(0, n as int + 1);
    let f = |j: int| prefixed_name(prefix, j as nat);
    lemma_int_range(0, n as int + 1);
    assert(vstd::relations::injective_on(f, x)) by {
        assert forall|a: int, b: int| x.contains(a) && x.contains(b) && #[trigger] f(a) == #[trigger] f(b)
            implies a == b by {
            lemma_prefixed_name_injective(prefix, a as nat, b as nat);
        }
    }
    let y = x.map(f);
    lemma_map_size(x, y, f);
    assert(y.subset_of(strings.to_set())) by {
        assert forall|s: Seq<char>| y.contains(s) implies strings.to_set().contains(s) by {
            let j = choose|j: int| x.contains(j) && f(j) == s;
            assert(strings.contains(prefixed_name(prefix, j as nat)));
        }
    }
    strings.lemma_cardinality_of_set();
    lemma_len_subset(y, strings.to_set());
}


/// Appending a string absent from a list without duplicates keeps it
/// without duplicates.
pub proof fn lemma_push_fresh_no_duplicates(before: Seq<Seq<char>>, x: Seq<char>)
    requires
        before.no_duplicates(),
        !before.contains(x),
    ensures
        before.push(x).no_duplicates(),
{
    let after = before.push(x);
    assert forall|a: int, b: int| 0 <= a < after.len() && 0 <= b < after.len() && a != b
        implies after[a] != after[b] by {
        if a == before.len() as int {
            assert(before[b] == after[b]);
        } else if b == before.len() as int {
            assert(before[a] == after[a]);
        } else {
            assert(before[a] == after[a] && before[b] == after[b]);
        }
    }
}

/// `name` is the name `new_with_prefix` picks for `prefix` when the names in
/// `taken` are in use: `prefix` itself when free, else the first free
/// candidate `prefix_0`, `prefix_1`, ...
pub open spec fn picked_name(taken: Seq<Seq<char>>, prefix: Seq<char>, name: Seq<char>) -> bool {
    if !taken.contains(prefix) {
        name == prefix
    } else {
        exists|i: nat| #![trigger prefixed_name(prefix, i)]
            name == prefixed_name(prefix, i) && !taken.contains(name)
            && forall|j: nat| j < i ==> taken.contains(#[trigger] prefixed_name(prefix, j))
    }
}

// ---------------------------------------------------------------------------
// Scenario guessing
// ---------------------------------------------------------------------------

/// Some assertion of the scenario is known to fail.
pub open spec fn refuted(c: Seq<Option<bool>>) -> bool {
    exists|j: int| 0 <= j < c.len() && #[trigger] c[j] == Some(false)
}

/// Every assertion of the scenario is known to hold.
pub open spec fn confirmed(c: Seq<Option<bool>>) -> bool {
    forall|j: int| 0 <= j < c.len() ==> #[trigger] c[j] == Some(true)
}

/// The scenario is neither refuted nor confirmed.
pub open spec fn undecided(c: Seq<Option<bool>>) -> bool {
    !refuted(c) && !confirmed(c)
}

/// Scenario `d` ends the search: it is confirmed, or it is the second
/// undecided scenario.
pub open spec fn decisive(cs: Seq<Seq<Option<bool>>>, d: int) -> bool {
    confirmed(cs[d]) || (undecided(cs[d]) && exists|k: int| 0 <= k < d && #[trigger] undecided(cs[k]))
}

/// `d` is the first scenario that ends the search.
pub open spec fn first_decisive(cs: Seq<Seq<Option<bool>>>, d: int) -> bool {
    &&& 0 <= d < cs.len()
    &&& decisive(cs, d)
    &&& forall|k: int| 0 <= k < d ==> !#[trigger] decisive(cs, k)
}

/// The outcomes of the checks, as a matrix of sequences.
pub open spec fn check_matrix(checks: Seq<Vec<Option<bool>>>) -> Seq<Seq<Option<bool>>> {
    checks.map_values(|c: Vec<Option<bool>>| c@)
}

/// `r` is the scenario guessed from the check outcomes `cs`: with no
/// scenario, unknown; the first decisive scenario answers when there is one
/// (itself when confirmed, unknown when it is a second undecided one);
/// otherwise the only undecided scenario, or no possible scenario at all.
pub open spec fn guess_outcome(cs: Seq<Seq<Option<bool>>>, r: Result<Option<usize>, NoPossibleScenario>) -> bool {
    &&& cs.len() == 0 ==> r == Ok::<Option<usize>, NoPossibleScenario>(None)
    &&& forall|d: int| first_decisive(cs, d) && confirmed(cs[d])
            ==> r == Ok::<Option<usize>, NoPossibleScenario>(Some(d as usize))
    &&& forall|d: int| first_decisive(cs, d) && !confirmed(cs[d])
            ==> r == Ok::<Option<usize>, NoPossibleScenario>(None)
    &&& (forall|d: int| 0 <= d < cs.len() ==> !#[trigger] decisive(cs, d)) ==> {
        &&& forall|u: int| 0 <= u < cs.len() && #[trigger] undecided(cs[u])
                ==> r == Ok::<Option<usize>, NoPossibleScenario>(Some(u as usize))
        &&& (cs.len() > 0 && forall|u: int| 0 <= u < cs.len() ==> !#[trigger] undecided(cs[u]))
                ==> r == Err::<Option<usize>, NoPossibleScenario>(NoPossibleScenario)
    }
}

/// No scenario could be the one in use.
#[derive(Clone, Copy, Debug, PartialEq, Eq, Structural)]
pub struct NoPossibleScenario;

fn is_refuted(c: &Vec<Option<bool>>) -> (r: bool)
    ensures
        r == refuted(c@),
{
    let mut j: usize = 0;
    while j < c.len()
        invariant
            j <= c.len(),
            forall|k: int| 0 <= k < j ==> #[trigger] c@[k] != Some(false),
        decreases c.len() - j,
    {
        match c[j] {
            Some(false) => {
                return true;
            },
            _ => {},
        }
        j = j + 1;
    }
    false
}

fn is_confirmed(c: &Vec<Option<bool>>) -> (r: bool)
    ensures
        r == confirmed(c@),
{
    let mut j: usize = 0;
    while j < c.len()
        invariant
            j <= c.len(),
            forall|k: int| 0 <= k < j ==> #[trigger] c@[k] == Some(true),
        decreases c.len() - j,
    {
        match c[j] {
            Some(true) => {},
            _ => {
                return false;
            },
        }
        j = j + 1;
    }
    true
}

/// Picks the scenario a set of symbol values falls in, from the outcome of
/// checking each assertion of each scenario against them (`None` when the
/// values do not decide an assertion). Scenarios are taken in order: a
/// refuted one is skipped, a confirmed one is the answer, and a second
/// undecided one makes the answer unknown (`None`). Failing that, the one
/// undecided scenario is the answer; with no scenario at all the answer is
/// unknown, and when every scenario is refuted there is none.
pub fn guess_scenario_from_checks(checks: &Vec<Vec<Option<bool>>>) -> (r: Result<Option<usize>, NoPossibleScenario>)
    ensures
        guess_outcome(check_matrix(checks@), r),
{
    let ghost cs = check_matrix(checks@);
    if checks.len() == 0 {
        return Ok(None);
    }
    let mut maybe: Option<usize> = None;
    let mut ix: usize = 0;
    while ix < checks.len()
        invariant
            cs == check_matrix(checks@),
            ix <= checks.len(),
            forall|k: int| 0 <= k < ix ==> !#[trigger] decisive(cs, k),
            maybe is None ==> forall|k: int| 0 <= k < ix ==> !#[trigger] undecided(cs[k]),
            maybe matches Some(m) ==> m < ix && undecided(cs[m as int])
                && forall|k: int| 0 <= k < ix && k != m ==> !#[trigger] undecided(cs[k]),
        decreases checks.len() - ix,
    {
        assert(cs[ix as int] == checks@[ix as int]@);
        if is_refuted(&checks[ix]) {
        } else if is_confirmed(&checks[ix]) {
            proof {
                assert(decisive(cs, ix as int));
                assert forall|d: int| first_decisive(cs, d) implies d == ix by {}
            }
            return Ok(Some(ix));
        } else if maybe.is_none() {
            maybe = Some(ix);
        } else {
            proof {
                let m = maybe.unwrap();
                assert(undecided(cs[m as int]));
                assert(decisive(cs, ix as int));
                assert forall|d: int| first_decisive(cs, d) implies d == ix by {}
            }
            return Ok(None);
        }
        ix = ix + 1;
    }
    proof {
        assert forall|d: int| 0 <= d < cs.len() implies !#[trigger] decisive(cs, d) by {}
    }
    match maybe {
        Some(m) => Ok(Some(m)),
        None => Err(NoPossibleScenario),
    }
}

/// `r` answers a lookup of `name` in `strings`: a position holding it, or
/// `None` when no position does.
pub open spec fn lookup_result(strings: Seq<Seq<char>>, name: Seq<char>, r: Option<usize>) -> bool {
    match r {
        Some(i) => i < strings.len() && strings[i as int] == name,
        None => !strings.contains(name),
    }
}

/// Interning `name` into `before` gave `after`, with `name` at position
/// `i`: a known name leaves the strings as they were, a new one is appended.
pub open spec fn sym_effect(before: Seq<Seq<char>>, name: Seq<char>, after: Seq<Seq<char>>, i: usize) -> bool {
    &&& i < after.len()
    &&& after[i as int] == name
    &&& before.contains(name) ==> after == before
    &&& !before.contains(name) ==> after == before.push(name)
}

/// Interning a name twice gives the same symbol, and the second time
/// leaves the table as it was.
pub proof fn lemma_sym_idempotent(
    before: Seq<Seq<char>>,
    name: Seq<char>,
    mid: Seq<Seq<char>>,
    i: usize,
    after: Seq<Seq<char>>,
    j: usize,
)
    requires
        before.no_duplicates(),
        sym_effect(before, name, mid, i),
        sym_effect(mid, name, after, j),
    ensures
        after == mid,
        j == i,
{
    assert(mid.contains(name));
    if !before.contains(name) {
        lemma_push_fresh_no_duplicates(before, name);
    }
}

/// After a name is interned, looking it up finds the symbol interning gave.
pub proof fn lemma_get_after_sym(
    before: Seq<Seq<char>>,
    name: Seq<char>,
    after: Seq<Seq<char>>,
    i: usize,
    r: Option<usize>,
)
    requires
        before.no_duplicates(),
        sym_effect(before, name, after, i),
        lookup_result(after, name, r),
    ensures
        r == Some(i),
{
    assert(after.contains(name));
    if !before.contains(name) {
        lemma_push_fresh_no_duplicates(before, name);
    }
}

/// Interns the first free name among `prefix`, `prefix_0`, `prefix_1`, ...
/// and returns its index.
fn intern_fresh(table: &mut SymbolTable, prefix: &str) -> (k: usize)
    requires
        symbol_table_strings(*old(table)).no_duplicates(),
        symbol_table_strings(*old(table)).len() < u32::MAX,
    ensures
        k == symbol_table_strings(*old(table)).len(),
        symbol_table_strings(*final(table)) == symbol_table_strings(*old(table)).push(
            symbol_table_strings(*final(table))[k as int]),
        !symbol_table_strings(*old(table)).contains(symbol_table_strings(*final(table))[k as int]),
        picked_name(symbol_table_strings(*old(table)), prefix@, symbol_table_strings(*final(table))[k as int]),
        symbol_table_strings(*final(table)).no_duplicates(),
{
    let ghost before = symbol_table_strings(*table);
    if table_get(table, prefix).is_none() {
        let i = table_get_or_intern(table, prefix);
        proof {
            lemma_push_fresh_no_duplicates(before, prefix@);
        }
        return i;
    }
    let mut i: usize = 0;
    loop
        invariant
            symbol_table_strings(*table) == before,
            before == symbol_table_strings(*old(table)),
            before.no_duplicates(),
            before.len() < u32::MAX,
            before.contains(prefix@),
            i <= before.len(),
            forall|j: nat| j < i ==> before.contains(#[trigger] prefixed_name(prefix@, j)),
        decreases before.len() - i,
    {
        let name = format_prefixed(prefix, i);
        if table_get(table, name.as_str()).is_none() {
            let k = table_get_or_intern(table, name.as_str());
            proof {
                lemma_push_fresh_no_duplicates(before, name@);
                assert(prefixed_name(prefix@, i as nat) == name@);
            }
            return k;
        }
        proof {
            assert forall|j: nat| j <= i implies before.contains(#[trigger] prefixed_name(prefix@, j)) by {
                if j == i as nat {
                    assert(name@ == prefixed_name(prefix@, j));
                }
            }
            lemma_candidates_fit(prefix@, before, i as nat);
        }
        i = i + 1;
    }
}

// ---------------------------------------------------------------------------
// Scope data
// ---------------------------------------------------------------------------

/// The data of a symbol scope: its id, its interned symbol names, the
/// assertions that hold in every scenario, and the named scenarios with
/// their own assertions. Assertions are of type `A`.
pub struct SymbolScopeData<A> {
    id: u64,
    table: SymbolTable,
    assertions: Vec<A>,
    scenarios: Vec<(String, Vec<A>)>,
}

/// The names of a list of scenarios.
pub open spec fn names_of<A>(scenarios: Seq<(String, Vec<A>)>) -> Seq<Seq<char>> {
    scenarios.map_values(|sc: (String, Vec<A>)| sc.0@)
}

impl<A> SymbolScopeData<A> {
    /// The scope id stamped on the symbols of this scope.
    pub closed spec fn spec_id(&self) -> u64 {
        self.id
    }

    /// The interned names, a symbol's index being its position.
    pub closed spec fn symbols(&self) -> Seq<Seq<char>> {
        symbol_table_strings(self.table)
    }

    /// The assertions that hold in every scenario.
    pub closed spec fn spec_assertions(&self) -> Seq<A> {
        self.assertions@
    }

    /// The scenarios, in the order they were added.
    pub closed spec fn spec_scenarios(&self) -> Seq<(String, Vec<A>)> {
        self.scenarios@
    }

    /// The names of the scenarios.
    pub open spec fn scenario_names(&self) -> Seq<Seq<char>> {
        names_of(self.spec_scenarios())
    }

    /// Each name is interned once and each scenario name occurs once.
    pub open spec fn well_formed(&self) -> bool {
        &&& self.symbols().no_duplicates()
        &&& self.symbols().len() <= u32::MAX
        &&& self.scenario_names().no_duplicates()
    }

    /// Every scope is well formed: `new` makes it so and each method keeps it.
    #[verifier::type_invariant]
    spec fn scope_invariant(&self) -> bool {
        self.well_formed()
    }

    /// An empty scope with the given id.
    pub fn new(id: u64) -> (res: Self)
        ensures
            res.spec_id() == id,
            res.symbols() == Seq::<Seq<char>>::empty(),
            res.spec_assertions() == Seq::<A>::empty(),
            res.spec_scenarios() == Seq::<(String, Vec<A>)>::empty(),
            res.well_formed(),
    {
        let res = SymbolScopeData { id, table: table_new(), assertions: Vec::new(), scenarios: Vec::new() };
        assert(res.scenario_names() =~= Seq::<Seq<char>>::empty());
        res
    }

    /// The id of this scope.
    pub fn id(&self) -> (r: u64)
        ensures
            r == self.spec_id(),
    {
        self.id
    }

    /// The number of interned names.
    pub fn num_symbols(&self) -> (n: usize)
        ensures
            n == self.symbols().len(),
    {
        table_len(&self.table)
    }

    /// The symbol named `name`, if it was interned.
    pub fn get(&self, name: &str) -> (r: Option<Symbol>)
        ensures
            r matches Some(s) ==> s.spec_scope_id() == self.spec_id(),
            lookup_result(self.symbols(), name@, symbol_index_of(r)),
    {
        proof {
            use_type_invariant(self);
        }
        match table_get(&self.table, name) {
            Some(i) => Some(Symbol(self.id, i)),
            None => None,
        }
    }

    /// The symbol named `name`, interning it when it is new.
    pub fn sym(&mut self, name: &str) -> (r: Symbol)
        requires
            old(self).symbols().len() < u32::MAX,
        ensures
            final(self).well_formed(),
            final(self).spec_id() == old(self).spec_id(),
            final(self).spec_assertions() == old(self).spec_assertions(),
            final(self).spec_scenarios() == old(self).spec_scenarios(),
            r.spec_scope_id() == old(self).spec_id(),
            sym_effect(old(self).symbols(), name@, final(self).symbols(), r.spec_index()),
    {
        proof {
            use_type_invariant(&*self);
        }
        let ghost before = self.symbols();
        let mut table = table_new();
        std::mem::swap(&mut table, &mut self.table);
        let i = table_get_or_intern(&mut table, name);
        proof {
            if !before.contains(name@) {
                lemma_push_fresh_no_duplicates(before, name@);
            }
        }
        self.table = table;
        Symbol(self.id, i)
    }

    /// A new symbol whose name is not yet in use: `prefix` when free, else
    /// the first of `prefix_0`, `prefix_1`, ... that is free.
    pub fn new_with_prefix(&mut self, prefix: &str) -> (r: Symbol)
        requires
            old(self).symbols().len() < u32::MAX,
        ensures
            final(self).well_formed(),
            final(self).spec_id() == old(self).spec_id(),
            final(self).spec_assertions() == old(self).spec_assertions(),
            final(self).spec_scenarios() == old(self).spec_scenarios(),
            r.spec_scope_id() == old(self).spec_id(),
            r.spec_index() == old(self).symbols().len(),
            final(self).symbols() == old(self).symbols().push(final(self).symbols()[r.spec_index() as int]),
            !old(self).symbols().contains(final(self).symbols()[r.spec_index() as int]),
            picked_name(old(self).symbols(), prefix@, final(self).symbols()[r.spec_index() as int]),
    {
        proof {
            use_type_invariant(&*self);
        }
        let mut table = table_new();
        std::mem::swap(&mut table, &mut self.table);
        let i = intern_fresh(&mut table, prefix);
        self.table = table;
        Symbol(self.id, i)
    }

    /// All the symbols of this scope, in interning order.
    pub fn all_symbols(&self) -> (r: Vec<Symbol>)
        ensures
            r@.len() == self.symbols().len(),
            forall|i: int| 0 <= i < r@.len() ==> (#[trigger] r@[i]).spec_scope_id() == self.spec_id()
                && r@[i].spec_index() == i,
    {
        let n = table_len(&self.table);
        let mut r: Vec<Symbol> = Vec::new();
        let mut i: usize = 0;
        while i < n
            invariant
                n == self.symbols().len(),
                i <= n,
                r@.len() == i,
                forall|j: int| 0 <= j < i ==> (#[trigger] r@[j]).spec_scope_id() == self.spec_id()
                    && r@[j].spec_index() == j,
            decreases n - i,
        {
            r.push(Symbol(self.id, i));
            i = i + 1;
        }
        r
    }

    /// The name of a symbol of this table, or `None` when its index is past
    /// the end of the table.
    pub fn resolve(&self, sym: &Symbol) -> (r: Option<&str>)
        ensures
            match r {
                Some(s) => sym.spec_index() < self.symbols().len() && s@ == self.symbols()[sym.spec_index() as int],
                None => sym.spec_index() >= self.symbols().len(),
            },
    {
        proof {
            use_type_invariant(self);
        }
        let n = table_len(&self.table);
        if sym.1 < n {
            table_resolve(&self.table, sym.1)
        } else {
            None
        }
    }
}


impl<A> SymbolScopeData<A> {
    /// The position of the scenario named `name`, if any.
    pub fn find_scenario(&self, name: &str) -> (r: Option<usize>)
        ensures
            match r {
                Some(i) => i < self.scenario_names().len() && self.scenario_names()[i as int] == name@
                    && forall|j: int| 0 <= j < i ==> self.scenario_names()[j] != name@,
                None => !self.scenario_names().contains(name@),
            },
    {
        let mut i: usize = 0;
        while i < self.scenarios.len()
            invariant
                i <= self.scenarios@.len(),
                forall|j: int| 0 <= j < i ==> #[trigger] self.scenario_names()[j] != name@,
            decreases self.scenarios@.len() - i,
        {
            if str_eq(self.scenarios[i].0.as_str(), name) {
                return Some(i);
            }
            i = i + 1;
        }
        proof {
            if self.scenario_names().contains(name@) {
                let j = choose|j: int| 0 <= j < self.scenario_names().len() && self.scenario_names()[j] == name@;
                assert(self.scenario_names()[j] != name@);
            }
        }
        None
    }

    /// Records an assertion that holds in every scenario.
    pub fn add_assertion(&mut self, assertion: A)
        ensures
            final(self).spec_id() == old(self).spec_id(),
            final(self).symbols() == old(self).symbols(),
            final(self).spec_scenarios() == old(self).spec_scenarios(),
            final(self).spec_assertions() == old(self).spec_assertions().push(assertion),
    {
        proof {
            use_type_invariant(&*self);
        }
        let mut list: Vec<A> = Vec::new();
        std::mem::swap(&mut list, &mut self.assertions);
        list.push(assertion);
        self.assertions = list;
    }

    /// The assertions that hold in every scenario.
    pub fn all_assertions(&self) -> (r: &Vec<A>)
        ensures
            r@ == self.spec_assertions(),
    {
        &self.assertions
    }

    /// The scenarios with their assertions, in the order they were added.
    pub fn all_scenarios(&self) -> (r: &Vec<(String, Vec<A>)>)
        ensures
            r@ == self.spec_scenarios(),
    {
        &self.scenarios
    }

    /// The names of the scenarios, in the order they were added.
    pub fn scenarios(&self) -> (r: Vec<&str>)
        ensures
            r@.len() == self.spec_scenarios().len(),
            forall|i: int| 0 <= i < r@.len() ==> (#[trigger] r@[i])@ == self.scenario_names()[i],
    {
        let mut r: Vec<&str> = Vec::new();
        let mut i: usize = 0;
        while i < self.scenarios.len()
            invariant
                i <= self.scenarios@.len(),
                r@.len() == i,
                forall|j: int| 0 <= j < i ==> (#[trigger] r@[j])@ == self.scenario_names()[j],
            decreases self.scenarios@.len() - i,
        {
            r.push(self.scenarios[i].0.as_str());
            i = i + 1;
        }
        r
    }

    /// The assertions of the scenario named `s`, or `None` when there is no
    /// such scenario.
    pub fn scenario(&self, s: &str) -> (r: Option<&Vec<A>>)
        ensures
            match r {
                Some(v) => exists|i: int| 0 <= i < self.spec_scenarios().len()
                    && self.scenario_names()[i] == s@ && v@ == self.spec_scenarios()[i].1@,
                None => !self.scenario_names().contains(s@),
            },
    {
        match self.find_scenario(s) {
            Some(i) => Some(&self.scenarios[i].1),
            None => None,
        }
    }

    /// The assertions in force in `scenario`: those of every scenario, and
    /// those of the scenario itself when it is named and exists.
    pub fn assertions(&self, scenario: Option<&str>) -> (r: (&Vec<A>, Option<&Vec<A>>))
        ensures
            r.0@ == self.spec_assertions(),
            scenario is None ==> r.1 is None,
            scenario matches Some(s) ==> match r.1 {
                Some(v) => exists|i: int| 0 <= i < self.spec_scenarios().len()
                    && self.scenario_names()[i] == s@ && v@ == self.spec_scenarios()[i].1@,
                None => !self.scenario_names().contains(s@),
            },
    {
        match scenario {
            Some(s) => (&self.assertions, self.scenario(s)),
            None => (&self.assertions, None),
        }
    }

    /// Adds a scenario with no assertion, unless one of that name exists.
    pub fn add_scenario(&mut self, scenario: String)
        ensures
            final(self).well_formed(),
            final(self).spec_id() == old(self).spec_id(),
            final(self).symbols() == old(self).symbols(),
            final(self).spec_assertions() == old(self).spec_assertions(),
            old(self).scenario_names().contains(scenario@) ==> final(self).spec_scenarios() == old(self).spec_scenarios(),
            !old(self).scenario_names().contains(scenario@) ==> {
                &&& final(self).spec_scenarios().len() == old(self).spec_scenarios().len() + 1
                &&& final(self).spec_scenarios().drop_last() == old(self).spec_scenarios()
                &&& final(self).spec_scenarios().last().0@ == scenario@
                &&& final(self).spec_scenarios().last().1@ == Seq::<A>::empty()
            },
    {
        proof {
            use_type_invariant(&*self);
        }
        if self.find_scenario(scenario.as_str()).is_none() {
            let ghost before = self.scenario_names();
            let mut list: Vec<(String, Vec<A>)> = Vec::new();
            std::mem::swap(&mut list, &mut self.scenarios);
            list.push((scenario, Vec::new()));
            proof {
                assert(names_of(list@) =~= before.push(scenario@));
                lemma_push_fresh_no_duplicates(before, scenario@);
            }
            self.scenarios = list;
            proof {
                assert(self.spec_scenarios().drop_last() =~= old(self).spec_scenarios());
            }
        }
    }

    /// Adds an assertion to the scenario named `scenario`, creating the
    /// scenario when it does not exist.
    pub fn add_scenario_assertion(&mut self, scenario: String, assertion: A)
        ensures
            final(self).well_formed(),
            final(self).spec_id() == old(self).spec_id(),
            final(self).symbols() == old(self).symbols(),
            final(self).spec_assertions() == old(self).spec_assertions(),
            final(self).scenario_names().contains(scenario@),
            old(self).scenario_names().contains(scenario@) ==> {
                &&& final(self).scenario_names() == old(self).scenario_names()
                &&& forall|i: int| 0 <= i < old(self).spec_scenarios().len() ==> {
                    if old(self).scenario_names()[i] == scenario@ {
                        (#[trigger] final(self).spec_scenarios()[i]).1@ == old(self).spec_scenarios()[i].1@.push(assertion)
                    } else {
                        final(self).spec_scenarios()[i] == old(self).spec_scenarios()[i]
                    }
                }
            },
            !old(self).scenario_names().contains(scenario@) ==> {
                &&& final(self).spec_scenarios().len() == old(self).spec_scenarios().len() + 1
                &&& final(self).spec_scenarios().drop_last() == old(self).spec_scenarios()
                &&& final(self).spec_scenarios().last().0@ == scenario@
                &&& final(self).spec_scenarios().last().1@ == seq![assertion]
            },
    {
        proof {
            use_type_invariant(&*self);
        }
        let ghost before = self.scenario_names();
        let found = self.find_scenario(scenario.as_str());
        let mut all: Vec<(String, Vec<A>)> = Vec::new();
        std::mem::swap(&mut all, &mut self.scenarios);
        match found {
            Some(i) => {
                let (name, mut list) = all.remove(i);
                list.push(assertion);
                all.insert(i, (name, list));
                proof {
                    assert(names_of(all@) =~= before);
                }
                self.scenarios = all;
                proof {
                    assert(self.scenario_names() =~= before);
                    assert forall|k: int| 0 <= k < old(self).spec_scenarios().len() && k != i
                        implies #[trigger] self.spec_scenarios()[k] == old(self).spec_scenarios()[k] by {
                    }
                    assert forall|k: int| 0 <= k < old(self).spec_scenarios().len() && k != i
                        implies old(self).scenario_names()[k] != scenario@ by {
                        assert(old(self).scenario_names()[i as int] == scenario@);
                    }
                }
            },
            None => {
                let mut list = Vec::new();
                list.push(assertion);
                all.push((scenario, list));
                proof {
                    assert(names_of(all@) =~= before.push(scenario@));
                    lemma_push_fresh_no_duplicates(before, scenario@);
                }
                self.scenarios = all;
                proof {
                    assert(self.scenario_names() =~= before.push(scenario@));
                    assert(self.spec_scenarios().drop_last() =~= old(self).spec_scenarios());
                    assert(self.scenario_names()[before.len() as int] == scenario@);
                }
            },
        }
    }

    /// Picks the scenario a set of symbol values falls in; `checks[i][j]`
    /// is the outcome of checking assertion `j` of scenario `i` against the
    /// values. See `guess_scenario_from_checks`.
    pub fn guess_scenario(&self, checks: &Vec<Vec<Option<bool>>>) -> (r: Result<Option<usize>, NoPossibleScenario>)
        requires
            checks@.len() == self.spec_scenarios().len(),
            forall|i: int| 0 <= i < checks@.len() ==> (#[trigger] checks@[i])@.len() == self.spec_scenarios()[i].1@.len(),
        ensures
            guess_outcome(check_matrix(checks@), r),
    {
        guess_scenario_from_checks(checks)
    }
}


// ---------------------------------------------------------------------------
// Symbol values
// ---------------------------------------------------------------------------

/// Values given to symbols, keyed by symbol index (symbols are equal when
/// their indices are).
#[derive(Clone, Debug)]
pub struct SymbolValues {
    values: HashMap<usize, i64>,
}

impl View for SymbolValues {
    type V = Map<usize, i64>;

    closed spec fn view(&self) -> Map<usize, i64> {
        self.values@
    }
}

impl SymbolValues {
    /// No symbol has a value.
    pub fn new() -> (r: Self)
        ensures
            r@ == Map::<usize, i64>::empty(),
    {
        SymbolValues { values: HashMap::new() }
    }

    /// These values with `s` set to `v`.
    pub fn with(self, s: &Symbol, v: i64) -> (r: Self)
        ensures
            r@ == self@.insert(s.spec_index(), v),
    {
        let mut r = self;
        r.set(s, v);
        r
    }

    /// Sets the value of `s` to `v`.
    pub fn set(&mut self, s: &Symbol, v: i64)
        ensures
            final(self)@ == old(self)@.insert(s.spec_index(), v),
    {
        self.values.insert(s.1, v);
    }

    /// The value of `s`, if it has one.
    pub fn get(&self, s: &Symbol) -> (r: Option<i64>)
        ensures
            r == (if self@.contains_key(s.spec_index()) { Some(self@[s.spec_index()]) } else { None }),
    {
        match self.values.get(&s.1) {
            Some(v) => Some(*v),
            None => None,
        }
    }
}

impl Default for SymbolValues {
    fn default() -> (r: Self)
        ensures
            r@ == Map::<usize, i64>::empty(),
    {
        SymbolValues::new()
    }
}

/// A value read back after it was set is the value set; setting one
/// symbol leaves the others' values alone.
pub proof fn lemma_symbol_values_set_get(m: Map<usize, i64>, s: Symbol, t: Symbol, v: i64)
    ensures
        m.insert(s.spec_index(), v)[s.spec_index()] == v,
        m.insert(s.spec_index(), v).contains_key(s.spec_index()),
        t.spec_index() != s.spec_index() ==> (m.insert(s.spec_index(), v).contains_key(t.spec_index())
            == m.contains_key(t.spec_index()) && m.insert(s.spec_index(), v)[t.spec_index()] == m[t.spec_index()]),
{
}


/// How a symbol is written: its name when its scope is known and holds
/// it, else `<Sym` and its index in decimal followed by `>`.
pub open spec fn symbol_text_spec(names: Option<Seq<Seq<char>>>, index: usize) -> Seq<char> {
    match names {
        Some(n) => if index < n.len() {
            n[index as int]
        } else {
            seq!['<', 'S', 'y', 'm'] + decimal(index as nat) + seq!['>']
        },
        None => seq!['<', 'S', 'y', 'm'] + decimal(index as nat) + seq!['>'],
    }
}

/// The text of a symbol that no scope resolves: `<Sym`, its index in
/// decimal, `>`.
fn format_unresolved(index: usize) -> (r: String)
    ensures
        r@ == seq!['<', 'S', 'y', 'm'] + decimal(index as nat) + seq!['>'],
{
    let digits = usize_to_string(index);
    proof {
        reveal_strlit("<Sym");
        reveal_strlit(">");
    }
    let mut out = String::from_str("<Sym");
    out.append(digits.as_str());
    out.append(">");
    out
}

/// The text of a symbol, given the scope it belongs to when that scope is
/// still known.
pub fn symbol_text<A>(scope: Option<&SymbolScopeData<A>>, sym: &Symbol) -> (r: String)
    ensures
        r@ == symbol_text_spec(match scope { Some(s) => Some(s.symbols()), None => None }, sym.spec_index()),
{
    match scope {
        Some(s) => match s.resolve(sym) {
            Some(name) => name.to_string(),
            None => format_unresolved(sym.index()),
        },
        None => format_unresolved(sym.index()),
    }
}

} // verus!
