//! Imports and inheritance across the files of a project.
//!
//! The resolver works on what it was told: which paths exist, and what the
//! files that could be parsed hold. Whoever reads the files records both.

use crate::foundry::{
    contains_name, first_existing, import_candidates_of, FoundryProject, FoundryProjectView,
};
use crate::parser::solar::clone_names;
use crate::parser::syntax::{ContractDef, ContractItem, FunctionKind, SourceItem, SourceUnit};
use vstd::prelude::*;

verus! {

/// A modifier of a contract.
#[derive(Debug)]
pub struct ModifierDef {
    pub name: String,
    pub has_body: bool,
}

impl Clone for ModifierDef {
    fn clone(&self) -> (r: Self)
        ensures
            r.name@ == self.name@,
            r.has_body == self.has_body,
    {
        ModifierDef { name: self.name.clone(), has_body: self.has_body }
    }
}

/// What inheritance needs to know of a contract.
#[derive(Debug)]
pub struct ParsedContract {
    pub name: String,
    /// The contracts it inherits from, in the order they are listed.
    pub parents: Vec<String>,
    /// The modifiers it defines itself.
    pub modifiers: Vec<String>,
}

/// The mathematical value of a [`ParsedContract`].
pub ghost struct ParsedContractView {
    pub name: Seq<char>,
    pub parents: Seq<Seq<char>>,
    pub modifiers: Seq<Seq<char>>,
}

impl View for ParsedContract {
    type V = ParsedContractView;

    open spec fn view(&self) -> ParsedContractView {
        ParsedContractView {
            name: self.name@,
            parents: self.parents.deep_view(),
            modifiers: self.modifiers.deep_view(),
        }
    }
}

impl DeepView for ParsedContract {
    type V = ParsedContractView;

    open spec fn deep_view(&self) -> ParsedContractView {
        self@
    }
}

/// What inheritance needs to know of a file.
#[derive(Debug)]
pub struct ParsedFile {
    pub path: String,
    /// The paths of its import directives, in order.
    pub imports: Vec<String>,
    /// Its contracts, in order.
    pub contracts: Vec<ParsedContract>,
}

/// The mathematical value of a [`ParsedFile`].
pub ghost struct ParsedFileView {
    pub path: Seq<char>,
    pub imports: Seq<Seq<char>>,
    pub contracts: Seq<ParsedContractView>,
}

impl View for ParsedFile {
    type V = ParsedFileView;

    open spec fn view(&self) -> ParsedFileView {
        ParsedFileView {
            path: self.path@,
            imports: self.imports.deep_view(),
            contracts: self.contracts.deep_view(),
        }
    }
}

impl DeepView for ParsedFile {
    type V = ParsedFileView;

    open spec fn deep_view(&self) -> ParsedFileView {
        self@
    }
}

/// The import paths among the items of a file, in order.
pub open spec fn import_paths(items: Seq<SourceItem>) -> Seq<Seq<char>>
    decreases items.len(),
{
    if items.len() == 0 {
        Seq::empty()
    } else {
        import_paths(items.drop_last()) + match items.last() {
            SourceItem::Import(path) => seq![path@],
            _ => Seq::empty(),
        }
    }
}

/// The names of the modifiers that a contract body defines, in order.
pub open spec fn modifier_names(body: Seq<ContractItem>) -> Seq<Seq<char>>
    decreases body.len(),
{
    if body.len() == 0 {
        Seq::empty()
    } else {
        modifier_names(body.drop_last()) + match body.last() {
            ContractItem::Function(f) if f.kind == FunctionKind::Modifier && f.name is Some => seq![
                f.name->0@,
            ],
            _ => Seq::empty(),
        }
    }
}

/// What inheritance needs to know of one contract.
pub open spec fn contract_summary(contract: ContractDef) -> ParsedContractView {
    ParsedContractView {
        name: contract.name@,
        parents: contract.bases.deep_view(),
        modifiers: modifier_names(contract.body@),
    }
}

/// What inheritance needs to know of the contracts among the items of a
/// file, in order.
pub open spec fn contract_summaries(items: Seq<SourceItem>) -> Seq<ParsedContractView>
    decreases items.len(),
{
    if items.len() == 0 {
        Seq::empty()
    } else {
        contract_summaries(items.drop_last()) + match items.last() {
            SourceItem::Contract(c) => seq![contract_summary(c)],
            _ => Seq::empty(),
        }
    }
}

/// What inheritance needs to know of the file at `path`.
pub open spec fn file_summary(path: Seq<char>, items: Seq<SourceItem>) -> ParsedFileView {
    ParsedFileView { path, imports: import_paths(items), contracts: contract_summaries(items) }
}

/// The first of `files` from position `from` on that lies at `path`.
pub open spec fn cached_from(files: Seq<ParsedFileView>, path: Seq<char>, from: int) -> Option<
    ParsedFileView,
>
    decreases files.len() - from,
{
    if from < 0 || from >= files.len() {
        None
    } else if files[from].path == path {
        Some(files[from])
    } else {
        cached_from(files, path, from + 1)
    }
}

/// What is recorded of the file at `path`.
pub open spec fn cached(files: Seq<ParsedFileView>, path: Seq<char>) -> Option<ParsedFileView> {
    cached_from(files, path, 0)
}

/// The first of `contracts` from position `from` on that is named `name`.
pub open spec fn contract_from(contracts: Seq<ParsedContractView>, name: Seq<char>, from: int)
    -> Option<ParsedContractView>
    decreases contracts.len() - from,
{
    if from < 0 || from >= contracts.len() {
        None
    } else if contracts[from].name == name {
        Some(contracts[from])
    } else {
        contract_from(contracts, name, from + 1)
    }
}

/// The contract named `name` in a file.
pub open spec fn contract_in(file: ParsedFileView, name: Seq<char>) -> Option<ParsedContractView> {
    contract_from(file.contracts, name, 0)
}

/// What a resolver knows.
pub ghost struct ResolverView {
    pub project: FoundryProjectView,
    /// The files that were parsed.
    pub files: Seq<ParsedFileView>,
    /// The paths that exist.
    pub existing: Seq<Seq<char>>,
}

/// The file behind an import, as far as the resolver knows which paths
/// exist.
pub open spec fn resolved(r: ResolverView, import: Seq<char>, from_file: Seq<char>) -> Option<
    Seq<char>,
> {
    first_existing(import_candidates_of(r.project, import, from_file), r.existing, 0)
}

/// Whether the import `import` of `from_file` leads to a parsed file that
/// holds the contract `name`.
pub open spec fn import_holds(
    r: ResolverView,
    import: Seq<char>,
    from_file: Seq<char>,
    name: Seq<char>,
) -> bool {
    &&& resolved(r, import, from_file) matches Some(path)
    &&& cached(r.files, path) matches Some(file)
    &&& contract_in(file, name) is Some
}

/// The file behind the first of `imports` from position `from` on that leads
/// to a parsed file holding the contract `name`.
pub open spec fn import_holding(
    r: ResolverView,
    imports: Seq<Seq<char>>,
    from_file: Seq<char>,
    name: Seq<char>,
    from: int,
) -> Option<Seq<char>>
    decreases imports.len() - from,
{
    if from < 0 || from >= imports.len() {
        None
    } else if import_holds(r, imports[from], from_file, name) {
        resolved(r, imports[from], from_file)
    } else {
        import_holding(r, imports, from_file, name, from + 1)
    }
}

/// The file that holds the contract `name`, seen from `from_file`: that file
/// itself, or the first of its imports that holds the contract. Nothing is
/// found from a file that was not parsed.
pub open spec fn contract_file_of(r: ResolverView, name: Seq<char>, from_file: Seq<char>)
    -> Option<Seq<char>> {
    match cached(r.files, from_file) {
        None => None,
        Some(file) => if contract_in(file, name) is Some {
            Some(from_file)
        } else {
            import_holding(r, file.imports, from_file, name, 0)
        },
    }
}

/// The contracts that the contract `name` of the file at `path` inherits
/// from; none where the file or the contract is not known.
pub open spec fn parents_of(r: ResolverView, name: Seq<char>, path: Seq<char>) -> Seq<Seq<char>> {
    match cached(r.files, path) {
        Some(file) => match contract_in(file, name) {
            Some(contract) => contract.parents,
            None => Seq::empty(),
        },
        None => Seq::empty(),
    }
}

/// The modifiers that the contract `name` of the file at `path` defines
/// itself; none where the file or the contract is not known.
pub open spec fn modifiers_of(r: ResolverView, name: Seq<char>, path: Seq<char>) -> Seq<
    Seq<char>,
> {
    match cached(r.files, path) {
        Some(file) => match contract_in(file, name) {
            Some(contract) => contract.modifiers,
            None => Seq::empty(),
        },
        None => Seq::empty(),
    }
}

/// The parents of all of `contracts`, one list after the other.
pub open spec fn contracts_parents(contracts: Seq<ParsedContractView>) -> Seq<Seq<char>>
    decreases contracts.len(),
{
    if contracts.len() == 0 {
        Seq::empty()
    } else {
        contracts_parents(contracts.drop_last()) + contracts.last().parents
    }
}

/// The parents of all contracts of all of `files`, one list after the other.
pub open spec fn files_parents(files: Seq<ParsedFileView>) -> Seq<Seq<char>>
    decreases files.len(),
{
    if files.len() == 0 {
        Seq::empty()
    } else {
        files_parents(files.drop_last()) + contracts_parents(files.last().contracts)
    }
}

/// How many entries of `names` are not among `visited`.
pub open spec fn unvisited(names: Seq<Seq<char>>, visited: Seq<Seq<char>>) -> nat
    decreases names.len(),
{
    if names.len() == 0 {
        0
    } else {
        unvisited(names.drop_last(), visited) + if visited.contains(names.last()) {
            0nat
        } else {
            1nat
        }
    }
}

/// How many contracts a walk from `name` can still enter, at most, once
/// `visited` have been entered: every contract but the first is a parent of
/// a known contract.
pub open spec fn budget(r: ResolverView, name: Seq<char>, visited: Seq<Seq<char>>) -> nat {
    unvisited(files_parents(r.files), visited) + if files_parents(r.files).contains(name) {
        0nat
    } else {
        1nat
    }
}

/// The walk from the contract `name` of `file`, at most `fuel` contracts
/// deep: nothing happens where the contract was visited before; otherwise it
/// is marked visited, its parents are walked in order, and it is put behind
/// them on the chain. Gives the chain and the visited names.
pub open spec fn visit(
    r: ResolverView,
    name: Seq<char>,
    file: Seq<char>,
    chain: Seq<(Seq<char>, Seq<char>)>,
    visited: Seq<Seq<char>>,
    fuel: nat,
) -> (Seq<(Seq<char>, Seq<char>)>, Seq<Seq<char>>)
    decreases fuel, 0nat, 0nat,
{
    if fuel == 0 || visited.contains(name) {
        (chain, visited)
    } else {
        let (c, v) = visit_parents(
            r,
            parents_of(r, name, file),
            file,
            chain,
            visited.push(name),
            (fuel - 1) as nat,
        );
        (c.push((file, name)), v)
    }
}

/// The walks from each of `parents`, in order, seen from `file`; a parent
/// whose file is not found is passed over.
pub open spec fn visit_parents(
    r: ResolverView,
    parents: Seq<Seq<char>>,
    file: Seq<char>,
    chain: Seq<(Seq<char>, Seq<char>)>,
    visited: Seq<Seq<char>>,
    fuel: nat,
) -> (Seq<(Seq<char>, Seq<char>)>, Seq<Seq<char>>)
    decreases fuel, 1nat, parents.len(),
{
    if parents.len() == 0 {
        (chain, visited)
    } else {
        let (c, v) = match contract_file_of(r, parents[0], file) {
            Some(parent_file) => visit(r, parents[0], parent_file, chain, visited, fuel),
            None => (chain, visited),
        };
        visit_parents(r, parents.drop_first(), file, c, v, fuel)
    }
}

/// The inheritance chain of the contract `name` of `file`: each contract
/// with its file, every contract once, the contract itself last. A contract
/// stands behind its ancestors, except where inheritance runs in a circle:
/// there the walk stops at the contract it has entered before.
pub open spec fn inheritance_chain(r: ResolverView, name: Seq<char>, file: Seq<char>) -> Seq<
    (Seq<char>, Seq<char>),
> {
    visit(
        r,
        name,
        file,
        Seq::empty(),
        Seq::empty(),
        files_parents(r.files).len() + 2,
    ).0
}

/// No more entries are unvisited than there are entries.
pub proof fn lemma_unvisited_bound(names: Seq<Seq<char>>, visited: Seq<Seq<char>>)
    ensures
        unvisited(names, visited) <= names.len(),
    decreases names.len(),
{
    if names.len() > 0 {
        lemma_unvisited_bound(names.drop_last(), visited);
    }
}

/// Visiting more leaves no more unvisited.
pub proof fn lemma_unvisited_shrinks(
    names: Seq<Seq<char>>,
    before: Seq<Seq<char>>,
    after: Seq<Seq<char>>,
)
    requires
        forall|x: Seq<char>| before.contains(x) ==> after.contains(x),
    ensures
        unvisited(names, after) <= unvisited(names, before),
    decreases names.len(),
{
    if names.len() > 0 {
        lemma_unvisited_shrinks(names.drop_last(), before, after);
    }
}

/// Visiting an entry that was not visited before leaves fewer unvisited.
pub proof fn lemma_unvisited_drops(names: Seq<Seq<char>>, visited: Seq<Seq<char>>, x: Seq<char>)
    requires
        names.contains(x),
        !visited.contains(x),
    ensures
        unvisited(names, visited.push(x)) < unvisited(names, visited),
    decreases names.len(),
{
    let after = visited.push(x);
    assert(after.last() == x);
    assert forall|y: Seq<char>| visited.contains(y) implies after.contains(y) by {
        let i = choose|i: int| 0 <= i < visited.len() && visited[i] == y;
        assert(after[i] == y);
    }
    if names.last() == x {
        lemma_unvisited_shrinks(names.drop_last(), visited, after);
    } else {
        let i = choose|i: int| 0 <= i < names.len() && names[i] == x;
        assert(names.drop_last()[i] == x);
        lemma_unvisited_drops(names.drop_last(), visited, x);
    }
}

/// The parents of a contract are among the parents of all contracts.
pub proof fn lemma_contract_parents_known(contracts: Seq<ParsedContractView>, j: int, k: int)
    requires
        0 <= j < contracts.len(),
        0 <= k < contracts[j].parents.len(),
    ensures
        contracts_parents(contracts).contains(contracts[j].parents[k]),
    decreases contracts.len(),
{
    let head = contracts_parents(contracts.drop_last());
    if j == contracts.len() - 1 {
        assert(contracts_parents(contracts)[head.len() + k] == contracts[j].parents[k]);
    } else {
        lemma_contract_parents_known(contracts.drop_last(), j, k);
        let at = choose|at: int| 0 <= at < head.len() && head[at] == contracts[j].parents[k];
        assert(contracts_parents(contracts)[at] == contracts[j].parents[k]);
    }
}

/// The parents of the contracts of a file are among the parents of all
/// contracts of all files.
pub proof fn lemma_file_parents_known(files: Seq<ParsedFileView>, i: int, p: Seq<char>)
    requires
        0 <= i < files.len(),
        contracts_parents(files[i].contracts).contains(p),
    ensures
        files_parents(files).contains(p),
    decreases files.len(),
{
    let head = files_parents(files.drop_last());
    if i == files.len() - 1 {
        let tail = contracts_parents(files[i].contracts);
        let at = choose|at: int| 0 <= at < tail.len() && tail[at] == p;
        assert(files_parents(files)[head.len() + at] == p);
    } else {
        lemma_file_parents_known(files.drop_last(), i, p);
        let at = choose|at: int| 0 <= at < head.len() && head[at] == p;
        assert(files_parents(files)[at] == p);
    }
}

/// What is found at a path is one of the files.
pub proof fn lemma_cached_is_a_file(files: Seq<ParsedFileView>, path: Seq<char>, from: int)
    requires
        0 <= from,
        cached_from(files, path, from) is Some,
    ensures
        exists|i: int| from <= i < files.len() && files[i] == cached_from(files, path, from)->0,
    decreases files.len() - from,
{
    if files[from].path == path {
        assert(files[from] == cached_from(files, path, from)->0);
    } else {
        lemma_cached_is_a_file(files, path, from + 1);
    }
}

/// The contract found under a name is one of the contracts.
pub proof fn lemma_found_is_a_contract(
    contracts: Seq<ParsedContractView>,
    name: Seq<char>,
    from: int,
)
    requires
        0 <= from,
        contract_from(contracts, name, from) is Some,
    ensures
        exists|j: int|
            from <= j < contracts.len() && contracts[j] == contract_from(contracts, name, from)->0,
    decreases contracts.len() - from,
{
    if contracts[from].name == name {
        assert(contracts[from] == contract_from(contracts, name, from)->0);
    } else {
        lemma_found_is_a_contract(contracts, name, from + 1);
    }
}

/// Every parent of a known contract is among the parents of all contracts
/// of all files.
pub proof fn lemma_parents_known(r: ResolverView, name: Seq<char>, path: Seq<char>, k: int)
    requires
        0 <= k < parents_of(r, name, path).len(),
    ensures
        files_parents(r.files).contains(parents_of(r, name, path)[k]),
{
    let file = cached(r.files, path)->0;
    lemma_cached_is_a_file(r.files, path, 0);
    let i = choose|i: int| 0 <= i < r.files.len() && r.files[i] == file;
    lemma_found_is_a_contract(file.contracts, name, 0);
    let contract = contract_in(file, name)->0;
    let j = choose|j: int| 0 <= j < file.contracts.len() && file.contracts[j] == contract;
    lemma_contract_parents_known(file.contracts, j, k);
    lemma_file_parents_known(r.files, i, contract.parents[k]);
}

/// What inheritance needs to know of a parsed file.
pub fn summarize(path: &str, source_unit: &SourceUnit) -> (r: ParsedFile)
    ensures
        r@ == file_summary(path@, source_unit.items@),
{
    let mut imports: Vec<String> = Vec::new();
    let mut contracts: Vec<ParsedContract> = Vec::new();
    let mut i: usize = 0;
    assert(imports.deep_view() =~= import_paths(source_unit.items@.take(0)));
    assert(contracts.deep_view() =~= contract_summaries(source_unit.items@.take(0)));
    while i < source_unit.items.len()
        invariant
            i <= source_unit.items@.len(),
            imports.deep_view() == import_paths(source_unit.items@.take(i as int)),
            contracts.deep_view() == contract_summaries(source_unit.items@.take(i as int)),
        decreases source_unit.items@.len() - i,
    {
        proof {
            assert(source_unit.items@.take(i + 1).drop_last() == source_unit.items@.take(i as int));
        }
        let ghost imports_before = imports.deep_view();
        let ghost contracts_before = contracts.deep_view();
        match &source_unit.items[i] {
            SourceItem::Import(import) => {
                imports.push(import.clone());
                assert(imports.deep_view() =~= imports_before.push(import@));
            },
            SourceItem::Contract(contract) => {
                let summary = ParsedContract {
                    name: contract.name.clone(),
                    parents: clone_names(&contract.bases),
                    modifiers: modifiers_defined(contract),
                };
                contracts.push(summary);
                assert(contracts.deep_view() =~= contracts_before.push(summary@));
            },
            _ => {},
        }
        assert(imports.deep_view() =~= import_paths(source_unit.items@.take(i + 1)));
        assert(contracts.deep_view() =~= contract_summaries(source_unit.items@.take(i + 1)));
        i += 1;
    }
    assert(source_unit.items@.take(i as int) == source_unit.items@);
    ParsedFile { path: String::from_str(path), imports, contracts }
}

/// The names of the modifiers that a contract defines itself, in order.
pub fn modifiers_defined(contract: &ContractDef) -> (r: Vec<String>)
    ensures
        r.deep_view() == modifier_names(contract.body@),
{
    let mut names: Vec<String> = Vec::new();
    let mut i: usize = 0;
    assert(names.deep_view() =~= modifier_names(contract.body@.take(0)));
    while i < contract.body.len()
        invariant
            i <= contract.body@.len(),
            names.deep_view() == modifier_names(contract.body@.take(i as int)),
        decreases contract.body@.len() - i,
    {
        proof {
            assert(contract.body@.take(i + 1).drop_last() == contract.body@.take(i as int));
        }
        let ghost before = names.deep_view();
        if let ContractItem::Function(function) = &contract.body[i] {
            if function.kind == FunctionKind::Modifier {
                if let Some(name) = &function.name {
                    names.push(name.clone());
                    assert(names.deep_view() =~= before.push(name@));
                }
            }
        }
        assert(names.deep_view() =~= modifier_names(contract.body@.take(i + 1)));
        i += 1;
    }
    assert(contract.body@.take(i as int) == contract.body@);
    names
}

/// The contract named `name` in a file.
fn find_parsed_contract<'f>(file: &'f ParsedFile, name: &str) -> (r: Option<&'f ParsedContract>)
    ensures
        match contract_in(file@, name@) {
            Some(c) => r is Some && r->0@ == c,
            None => r is None,
        },
{
    let mut i: usize = 0;
    while i < file.contracts.len()
        invariant
            i <= file.contracts@.len(),
            contract_in(file@, name@) == contract_from(file@.contracts, name@, i as int),
        decreases file.contracts@.len() - i,
    {
        assert(file@.contracts[i as int] == file.contracts@[i as int]@);
        if file.contracts[i].name.as_str().eq(name) {
            return Some(&file.contracts[i]);
        }
        i += 1;
    }
    None
}

/// Resolves imports and inheritance over the files it was told of.
pub struct InheritanceResolver<'a> {
    project: &'a FoundryProject,
    file_cache: Vec<ParsedFile>,
    existing: Vec<String>,
}

impl<'a> View for InheritanceResolver<'a> {
    type V = ResolverView;

    closed spec fn view(&self) -> ResolverView {
        ResolverView {
            project: self.project@,
            files: self.file_cache.deep_view(),
            existing: self.existing.deep_view(),
        }
    }
}

impl<'a> InheritanceResolver<'a> {
    /// A resolver for `project` that knows of no file yet.
    pub fn new(project: &'a FoundryProject) -> (r: Self)
        ensures
            r@ == (ResolverView { project: project@, files: Seq::empty(), existing: Seq::empty() }),
    {
        let r = Self { project, file_cache: Vec::new(), existing: Vec::new() };
        assert(r.file_cache.deep_view() =~= Seq::empty());
        assert(r.existing.deep_view() =~= Seq::empty());
        r
    }

    /// Records that a file exists at `path`.
    pub fn note_existing(&mut self, path: &str)
        ensures
            final(self)@ == (ResolverView {
                existing: old(self)@.existing.push(path@),
                ..old(self)@
            }),
    {
        let ghost before = self.existing.deep_view();
        self.existing.push(String::from_str(path));
        assert(self.existing.deep_view() =~= before.push(path@));
    }

    /// Whether the file at `path` was parsed and recorded.
    pub fn is_cached(&self, path: &str) -> (r: bool)
        ensures
            r == cached(self@.files, path@) is Some,
    {
        self.parsed(path).is_some()
    }

    /// Records what the parsed file at `path` holds, unless the file was
    /// recorded before: what was recorded first stays.
    pub fn cache_parsed(&mut self, path: &str, source_unit: &SourceUnit)
        ensures
            final(self)@ == (ResolverView {
                files: if cached(old(self)@.files, path@) is Some {
                    old(self)@.files
                } else {
                    old(self)@.files.push(file_summary(path@, source_unit.items@))
                },
                ..old(self)@
            }),
    {
        if !self.is_cached(path) {
            let ghost before = self.file_cache.deep_view();
            let summary = summarize(path, source_unit);
            self.file_cache.push(summary);
            assert(self.file_cache.deep_view() =~= before.push(summary@));
        }
    }

    /// What is recorded of the file at `path`.
    pub fn parsed(&self, path: &str) -> (r: Option<&ParsedFile>)
        ensures
            match cached(self@.files, path@) {
                Some(f) => r is Some && r->0@ == f,
                None => r is None,
            },
    {
        let mut i: usize = 0;
        while i < self.file_cache.len()
            invariant
                i <= self.file_cache@.len(),
                cached(self@.files, path@) == cached_from(self@.files, path@, i as int),
            decreases self.file_cache@.len() - i,
        {
            assert(self@.files[i as int] == self.file_cache@[i as int]@);
            if self.file_cache[i].path.as_str().eq(path) {
                return Some(&self.file_cache[i]);
            }
            i += 1;
        }
        None
    }

    /// The file behind the import `import_path` of the file `from_file`.
    pub fn resolve_import(&self, import_path: &str, from_file: &str) -> (r: Option<String>)
        ensures
            r.deep_view() == resolved(self@, import_path@, from_file@),
    {
        self.project.resolve_import(import_path, from_file, &self.existing)
    }

    /// The file that holds the contract `contract_name`, seen from
    /// `from_file`: that file itself, or the first of its imports that holds
    /// the contract.
    pub fn find_contract_file(&self, contract_name: &str, from_file: &str) -> (r: Option<String>)
        ensures
            r.deep_view() == contract_file_of(self@, contract_name@, from_file@),
    {
        let file = match self.parsed(from_file) {
            Some(f) => f,
            None => {
                return None;
            },
        };
        if find_parsed_contract(file, contract_name).is_some() {
            return Some(String::from_str(from_file));
        }
        let mut i: usize = 0;
        while i < file.imports.len()
            invariant
                i <= file.imports@.len(),
                contract_file_of(self@, contract_name@, from_file@) == import_holding(
                    self@,
                    file@.imports,
                    from_file@,
                    contract_name@,
                    i as int,
                ),
            decreases file.imports@.len() - i,
        {
            assert(file@.imports[i as int] == file.imports@[i as int]@);
            if let Some(path) = self.resolve_import(file.imports[i].as_str(), from_file) {
                if let Some(imported) = self.parsed(path.as_str()) {
                    if find_parsed_contract(imported, contract_name).is_some() {
                        return Some(path);
                    }
                }
            }
            i += 1;
        }
        None
    }

    /// The inheritance chain of the contract `contract_name` of the file at
    /// `file_path`: pairs of file and contract, from the root ancestors down
    /// to the contract itself.
    pub fn build_inheritance_chain(&self, contract_name: &str, file_path: &str) -> (r: Vec<
        (String, String),
    >)
        ensures
            r.deep_view() == inheritance_chain(self@, contract_name@, file_path@),
    {
        let mut chain: Vec<(String, String)> = Vec::new();
        let mut visited: Vec<String> = Vec::new();
        assert(chain.deep_view() =~= Seq::empty());
        assert(visited.deep_view() =~= Seq::empty());
        proof {
            lemma_unvisited_bound(files_parents(self@.files), Seq::empty());
        }
        self.build_chain_recursive(contract_name, file_path, &mut chain, &mut visited);
        chain
    }

    /// Walks up from one contract: its unvisited ancestors are put on
    /// `chain`, parents first, then the contract itself; every contract
    /// entered is added to `visited`.
    pub fn build_chain_recursive(
        &self,
        contract_name: &str,
        file_path: &str,
        chain: &mut Vec<(String, String)>,
        visited: &mut Vec<String>,
    )
        ensures
            forall|fuel: nat|
                fuel > budget(self@, contract_name@, old(visited).deep_view()) ==> #[trigger] visit(
                    self@,
                    contract_name@,
                    file_path@,
                    old(chain).deep_view(),
                    old(visited).deep_view(),
                    fuel,
                ) == (final(chain).deep_view(), final(visited).deep_view()),
            forall|x: Seq<char>|
                old(visited).deep_view().contains(x) ==> final(visited).deep_view().contains(x),
        decreases budget(self@, contract_name@, old(visited).deep_view()),
    {
        if contains_name(visited, contract_name) {
            return ;
        }
        let ghost known = files_parents(self@.files);
        let ghost limit = budget(self@, contract_name@, old(visited).deep_view());
        let ghost chain_0 = chain.deep_view();
        let ghost visited_0 = visited.deep_view();
        visited.push(String::from_str(contract_name));
        let ghost visited_1 = visited.deep_view();
        proof {
            assert(visited_1 =~= visited_0.push(contract_name@));
            assert forall|x: Seq<char>| visited_0.contains(x) implies visited_1.contains(x) by {
                let i = choose|i: int| 0 <= i < visited_0.len() && visited_0[i] == x;
                assert(visited_1[i] == x);
            }
            lemma_unvisited_shrinks(known, visited_0, visited_1);
            if known.contains(contract_name@) {
                lemma_unvisited_drops(known, visited_0, contract_name@);
            }
            assert(unvisited(known, visited_1) < limit);
        }
        let parents = self.get_parent_names(contract_name, file_path);
        let mut i: usize = 0;
        assert(parents.deep_view().skip(0) =~= parents.deep_view());
        while i < parents.len()
            invariant
                i <= parents@.len(),
                known == files_parents(self@.files),
                parents.deep_view() == parents_of(self@, contract_name@, file_path@),
                unvisited(known, visited_1) < limit,
                limit == budget(self@, contract_name@, old(visited).deep_view()),
                forall|x: Seq<char>| visited_1.contains(x) ==> visited.deep_view().contains(x),
                forall|fuel: nat|
                    fuel >= limit ==> #[trigger] visit_parents(
                        self@,
                        parents.deep_view(),
                        file_path@,
                        chain_0,
                        visited_1,
                        fuel,
                    ) == visit_parents(
                        self@,
                        parents.deep_view().skip(i as int),
                        file_path@,
                        chain.deep_view(),
                        visited.deep_view(),
                        fuel,
                    ),
            decreases parents@.len() - i,
        {
            let ghost chain_before = chain.deep_view();
            let ghost visited_before = visited.deep_view();
            let ghost rest = parents.deep_view().skip(i as int);
            let parent = parents[i].as_str();
            proof {
                assert(rest[0] == parent@);
                assert(rest.drop_first() =~= parents.deep_view().skip(i + 1));
                lemma_parents_known(self@, contract_name@, file_path@, i as int);
                lemma_unvisited_shrinks(known, visited_1, visited_before);
                assert(budget(self@, parent@, visited_before) < limit);
            }
            if let Some(parent_file) = self.find_contract_file(parent, file_path) {
                self.build_chain_recursive(parent, parent_file.as_str(), chain, visited);
                proof {
                    assert forall|fuel: nat| fuel >= limit implies visit_parents(
                        self@,
                        rest,
                        file_path@,
                        chain_before,
                        visited_before,
                        fuel,
                    ) == visit_parents(
                        self@,
                        parents.deep_view().skip(i + 1),
                        file_path@,
                        chain.deep_view(),
                        visited.deep_view(),
                        fuel,
                    ) by {
                        assert(visit(
                            self@,
                            parent@,
                            parent_file@,
                            chain_before,
                            visited_before,
                            fuel,
                        ) == (chain.deep_view(), visited.deep_view()));
                    }
                }
            } else {
                proof {
                    assert forall|fuel: nat| fuel >= limit implies visit_parents(
                        self@,
                        rest,
                        file_path@,
                        chain_before,
                        visited_before,
                        fuel,
                    ) == visit_parents(
                        self@,
                        parents.deep_view().skip(i + 1),
                        file_path@,
                        chain.deep_view(),
                        visited.deep_view(),
                        fuel,
                    ) by {}
                }
            }
            i += 1;
        }
        let ghost chain_2 = chain.deep_view();
        chain.push((String::from_str(file_path), String::from_str(contract_name)));
        proof {
            assert(chain.deep_view() =~= chain_2.push((file_path@, contract_name@)));
            assert(parents.deep_view().skip(i as int) =~= Seq::empty());
            assert forall|fuel: nat| fuel > limit implies #[trigger] visit(
                self@,
                contract_name@,
                file_path@,
                chain_0,
                visited_0,
                fuel,
            ) == (chain.deep_view(), visited.deep_view()) by {
                let less = (fuel - 1) as nat;
                assert(less >= limit);
                assert(visit_parents(
                    self@,
                    parents.deep_view(),
                    file_path@,
                    chain_0,
                    visited_1,
                    less,
                ) == (chain_2, visited.deep_view()));
            }
        }
    }

    /// The contracts that the contract `contract_name` of the file at
    /// `file_path` inherits from.
    pub fn get_parent_names(&self, contract_name: &str, file_path: &str) -> (r: Vec<String>)
        ensures
            r.deep_view() == parents_of(self@, contract_name@, file_path@),
    {
        if let Some(file) = self.parsed(file_path) {
            if let Some(contract) = find_parsed_contract(file, contract_name) {
                return clone_names(&contract.parents);
            }
        }
        let none: Vec<String> = Vec::new();
        assert(none.deep_view() =~= Seq::empty());
        none
    }

    /// The modifiers that the contract `contract_name` of the file at
    /// `file_path` defines itself, inherited ones left out.
    pub fn get_modifier_names(&self, contract_name: &str, file_path: &str) -> (r: Vec<String>)
        ensures
            r.deep_view() == modifiers_of(self@, contract_name@, file_path@),
    {
        if let Some(file) = self.parsed(file_path) {
            if let Some(contract) = find_parsed_contract(file, contract_name) {
                return clone_names(&contract.modifiers);
            }
        }
        let none: Vec<String> = Vec::new();
        assert(none.deep_view() =~= Seq::empty());
        none
    }
}

} // verus!
