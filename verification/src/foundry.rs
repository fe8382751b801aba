//! Project layout, configuration and the lookup of files.
//!
//! Paths are `/`-separated strings. Whatever touches the file system hands
//! the names, and where needed the contents, of the files it found to the
//! functions here.

use crate::text::{concat2, concat3, find, find_chars, lemma_find_from, starts_with, to_chars};
use vstd::prelude::*;

verus! {

/// Why a project, or a contract in it, could not be found.
#[derive(Debug)]
pub enum FoundryError {
    /// No `foundry.toml` in the starting directory or any parent.
    ProjectNotFound,
    /// `foundry.toml` could not be read, with the reason.
    ConfigReadError(String),
    /// `foundry.toml` could not be parsed, with the reason.
    ConfigParseError(String),
    /// No file of the project defines this contract.
    ContractNotFound(String),
}

/// The mathematical value of a [`FoundryError`].
pub ghost enum FoundryErrorView {
    ProjectNotFound,
    ConfigReadError(Seq<char>),
    ConfigParseError(Seq<char>),
    ContractNotFound(Seq<char>),
}

impl View for FoundryError {
    type V = FoundryErrorView;

    open spec fn view(&self) -> FoundryErrorView {
        match self {
            FoundryError::ProjectNotFound => FoundryErrorView::ProjectNotFound,
            FoundryError::ConfigReadError(m) => FoundryErrorView::ConfigReadError(m@),
            FoundryError::ConfigParseError(m) => FoundryErrorView::ConfigParseError(m@),
            FoundryError::ContractNotFound(c) => FoundryErrorView::ContractNotFound(c@),
        }
    }
}

/// The message of an error.
pub open spec fn error_message(e: FoundryErrorView) -> Seq<char> {
    match e {
        FoundryErrorView::ProjectNotFound =>
            "Could not find foundry.toml in current directory or any parent"@,
        FoundryErrorView::ConfigReadError(m) => "Failed to read foundry.toml: "@ + m,
        FoundryErrorView::ConfigParseError(m) => "Failed to parse foundry.toml: "@ + m,
        FoundryErrorView::ContractNotFound(c) => "Contract '"@ + c + "' not found in project"@,
    }
}

impl FoundryError {
    /// The error as a message.
    pub fn to_string(&self) -> (r: String)
        ensures
            r@ == error_message(self@),
    {
        match self {
            FoundryError::ProjectNotFound => String::from_str(
                "Could not find foundry.toml in current directory or any parent",
            ),
            FoundryError::ConfigReadError(m) => concat2(
                "Failed to read foundry.toml: ",
                m.as_str(),
            ),
            FoundryError::ConfigParseError(m) => concat2(
                "Failed to parse foundry.toml: ",
                m.as_str(),
            ),
            FoundryError::ContractNotFound(c) => concat3(
                "Contract '",
                c.as_str(),
                "' not found in project",
            ),
        }
    }
}

/// The path `rel` seen from the directory `base`: `rel` itself where it is
/// absolute, otherwise `base` and `rel` with one `/` between them.
pub open spec fn joined(base: Seq<char>, rel: Seq<char>) -> Seq<char> {
    if rel.len() > 0 && rel[0] == '/' {
        rel
    } else if base.len() == 0 || base.last() == '/' {
        base + rel
    } else {
        base + "/"@ + rel
    }
}

/// The path `rel` seen from the directory `base`.
pub fn join_path(base: &str, rel: &str) -> (r: String)
    ensures
        r@ == joined(base@, rel@),
{
    proof {
        reveal_strlit("/");
    }
    if starts_with(rel, "/") {
        assert(rel@.subrange(0, 1)[0] == "/"@[0]);
        return String::from_str(rel);
    }
    assert(!(rel@.len() > 0 && rel@[0] == '/')) by {
        if rel@.len() > 0 && rel@[0] == '/' {
            assert("/"@ =~= rel@.subrange(0, 1));
        }
    }
    let n = base.unicode_len();
    if n == 0 || base.get_char(n - 1) == '/' {
        concat2(base, rel)
    } else {
        concat3(base, "/", rel)
    }
}

/// Where the first `end` characters of `path` end once what names nothing is
/// dropped from their end: separators, and `.` components behind a
/// separator. A leading `/` stays.
pub open spec fn trimmed_end(path: Seq<char>, end: int) -> int
    decreases end,
{
    if end <= 0 || end > path.len() {
        0
    } else if path[end - 1] == '/' {
        if end == 1 {
            1
        } else {
            trimmed_end(path, end - 1)
        }
    } else if path[end - 1] == '.' && end >= 2 && path[end - 2] == '/' {
        trimmed_end(path, end - 1)
    } else {
        end
    }
}

/// Where the component that ends at `end` starts: behind the last `/` before
/// `end`, or at the start of the path.
pub open spec fn component_start(path: Seq<char>, end: int) -> int
    decreases end,
{
    if end <= 0 || end > path.len() {
        0
    } else if path[end - 1] == '/' {
        end
    } else {
        component_start(path, end - 1)
    }
}

/// The directory that holds `path`: the path without its last component.
/// Separators at the end, repeated separators and `.` components behind a
/// separator name nothing and are passed over, so `a/b`, `a/b/`, `a//b` and
/// `a/./b` all lie in `a`. A bare name lies in the empty directory, a name
/// directly under the root in `/`; the empty path and the root have no
/// directory.
pub open spec fn parent_of(path: Seq<char>) -> Option<Seq<char>> {
    let end = trimmed_end(path, path.len() as int);
    if end == 0 || (end == 1 && path[0] == '/') {
        None
    } else {
        Some(path.subrange(0, trimmed_end(path, component_start(path, end))))
    }
}

/// Where the first `end` characters of `path` end without trailing
/// separators and `.` components.
fn trim_end(path: &Vec<char>, end: usize) -> (r: usize)
    requires
        end <= path@.len(),
    ensures
        r == trimmed_end(path@, end as int),
        r <= end,
{
    let mut at: usize = end;
    while at > 1 && (path[at - 1] == '/' || (path[at - 1] == '.' && path[at - 2] == '/'))
        invariant
            at <= end,
            end <= path@.len(),
            trimmed_end(path@, end as int) == trimmed_end(path@, at as int),
        decreases at,
    {
        at -= 1;
    }
    at
}

/// The directory that holds `path`.
pub fn parent_dir(path: &str) -> (r: Option<String>)
    ensures
        r.deep_view() == parent_of(path@),
{
    let chars = to_chars(path);
    let end = trim_end(&chars, chars.len());
    if end == 0 || (end == 1 && chars[0] == '/') {
        return None;
    }
    let mut start: usize = end;
    while start > 0 && chars[start - 1] != '/'
        invariant
            start <= end,
            end <= chars@.len(),
            component_start(chars@, end as int) == component_start(chars@, start as int),
        decreases start,
    {
        start -= 1;
    }
    let keep = trim_end(&chars, start);
    Some(String::from_str(path.substring_char(0, keep)))
}

/// Whether a file name has the extension `sol`.
pub open spec fn is_solidity_name(file_name: Seq<char>) -> bool {
    file_name.len() > 4 && file_name.subrange(file_name.len() - 4, file_name.len() as int)
        == ".sol"@
}

/// Whether a file name has the extension `sol`.
pub fn is_solidity_file(file_name: &str) -> (r: bool)
    ensures
        r == is_solidity_name(file_name@),
{
    proof {
        reveal_strlit(".sol");
    }
    let n = file_name.unicode_len();
    n > 4 && file_name.substring_char(n - 4, n).eq(".sol")
}

/// A remapping entry `prefix=replacement` as a pair, split at the first `=`.
pub open spec fn remapping_of(entry: Seq<char>) -> Option<(Seq<char>, Seq<char>)> {
    match find(entry, seq!['=']) {
        Some(at) => Some((entry.subrange(0, at), entry.subrange(at + 1, entry.len() as int))),
        None => None,
    }
}

/// The remappings that a list of entries holds, in order; entries without
/// `=` are left out.
pub open spec fn remappings_of(entries: Seq<Seq<char>>) -> Seq<(Seq<char>, Seq<char>)>
    decreases entries.len(),
{
    if entries.len() == 0 {
        Seq::empty()
    } else {
        remappings_of(entries.drop_last()) + match remapping_of(entries.last()) {
            Some(pair) => seq![pair],
            None => Seq::empty(),
        }
    }
}

/// Each of `dirs` seen from `root`.
pub open spec fn joined_all(root: Seq<char>, dirs: Seq<Seq<char>>) -> Seq<Seq<char>> {
    Seq::new(dirs.len(), |i: int| joined(root, dirs[i]))
}

/// A project: where it lives and how its imports are resolved.
#[derive(Debug)]
pub struct FoundryProject {
    pub root: String,
    pub src_dir: String,
    pub lib_dirs: Vec<String>,
    pub remappings: Vec<(String, String)>,
}

/// The mathematical value of a [`FoundryProject`].
pub ghost struct FoundryProjectView {
    pub root: Seq<char>,
    pub src_dir: Seq<char>,
    pub lib_dirs: Seq<Seq<char>>,
    pub remappings: Seq<(Seq<char>, Seq<char>)>,
}

impl View for FoundryProject {
    type V = FoundryProjectView;

    open spec fn view(&self) -> FoundryProjectView {
        FoundryProjectView {
            root: self.root@,
            src_dir: self.src_dir@,
            lib_dirs: self.lib_dirs.deep_view(),
            remappings: self.remappings.deep_view(),
        }
    }
}

/// The project at `root` with the settings of its default profile: the
/// source directory (`src` where none is set), the library directories
/// (`lib` where none are set), and the remapping entries.
pub open spec fn configured(
    root: Seq<char>,
    src: Option<Seq<char>>,
    lib: Option<Seq<Seq<char>>>,
    remappings: Option<Seq<Seq<char>>>,
) -> FoundryProjectView {
    FoundryProjectView {
        root,
        src_dir: joined(
            root,
            match src {
                Some(s) => s,
                None => "src"@,
            },
        ),
        lib_dirs: joined_all(
            root,
            match lib {
                Some(l) => l,
                None => seq!["lib"@],
            },
        ),
        remappings: remappings_of(
            match remappings {
                Some(r) => r,
                None => Seq::empty(),
            },
        ),
    }
}

/// A file of the project, as a directory walk found it.
#[derive(Debug)]
pub struct ProjectFile {
    /// The path of the file.
    pub path: String,
    /// The last component of the path.
    pub file_name: String,
    /// The text of the file, where it was read.
    pub content: Option<String>,
}

/// The name of the file that a contract is looked for first.
pub open spec fn contract_file_name(contract_name: Seq<char>) -> Seq<char> {
    contract_name + ".sol"@
}

/// Whether a file defines a contract, as far as a look at its text tells:
/// a Solidity file whose text holds `contract` and the name.
pub open spec fn mentions_contract(file: ProjectFile, contract_name: Seq<char>) -> bool {
    &&& is_solidity_name(file.file_name@)
    &&& file.content matches Some(text)
    &&& find(text@, "contract "@ + contract_name) is Some
}

/// The first of `files` from position `from` on that is named after the
/// contract.
pub open spec fn first_by_name(files: Seq<ProjectFile>, contract_name: Seq<char>, from: int)
    -> Option<int>
    decreases files.len() - from,
{
    if from < 0 || from >= files.len() {
        None
    } else if files[from].file_name@ == contract_file_name(contract_name) {
        Some(from)
    } else {
        first_by_name(files, contract_name, from + 1)
    }
}

/// The first of `files` from position `from` on whose text mentions the
/// contract.
pub open spec fn first_by_text(files: Seq<ProjectFile>, contract_name: Seq<char>, from: int)
    -> Option<int>
    decreases files.len() - from,
{
    if from < 0 || from >= files.len() {
        None
    } else if mentions_contract(files[from], contract_name) {
        Some(from)
    } else {
        first_by_text(files, contract_name, from + 1)
    }
}

/// The file that holds a contract: the first file named after it, or, where
/// there is none, the first whose text mentions it.
pub open spec fn contract_file(files: Seq<ProjectFile>, contract_name: Seq<char>) -> Option<int> {
    match first_by_name(files, contract_name, 0) {
        Some(at) => Some(at),
        None => first_by_text(files, contract_name, 0),
    }
}

/// The paths of the Solidity files among `files`, in order.
pub open spec fn solidity_paths(files: Seq<ProjectFile>) -> Seq<Seq<char>>
    decreases files.len(),
{
    if files.len() == 0 {
        Seq::empty()
    } else {
        solidity_paths(files.drop_last()) + if is_solidity_name(files.last().file_name@) {
            seq![files.last().path@]
        } else {
            Seq::empty()
        }
    }
}

/// Where the remappings send an import: for each remapping whose prefix
/// opens the import, in order, the import with the prefix replaced, seen
/// from the root.
pub open spec fn remapped_paths(
    root: Seq<char>,
    remappings: Seq<(Seq<char>, Seq<char>)>,
    import: Seq<char>,
) -> Seq<Seq<char>>
    decreases remappings.len(),
{
    if remappings.len() == 0 {
        Seq::empty()
    } else {
        let (prefix, replacement) = remappings.last();
        remapped_paths(root, remappings.drop_last(), import) + if prefix.is_prefix_of(import) {
            seq![joined(root, replacement + import.skip(prefix.len() as int))]
        } else {
            Seq::empty()
        }
    }
}

/// Whether an import is written relative to the importing file.
pub open spec fn is_relative(import: Seq<char>) -> bool {
    "./"@.is_prefix_of(import) || "../"@.is_prefix_of(import)
}

/// Where a relative import points: into the directory of the importing file.
pub open spec fn relative_paths(import: Seq<char>, from_file: Seq<char>) -> Seq<Seq<char>> {
    match parent_of(from_file) {
        Some(dir) if is_relative(import) => seq![joined(dir, import)],
        _ => Seq::empty(),
    }
}

/// Where the library directories hold an import: the import seen from each of
/// them, in order.
pub open spec fn library_paths(lib_dirs: Seq<Seq<char>>, import: Seq<char>) -> Seq<Seq<char>> {
    Seq::new(lib_dirs.len(), |i: int| joined(lib_dirs[i], import))
}

/// The places where an import is looked for, in order: where the remappings
/// send it, beside the importing file where it is relative, and in every
/// library directory.
pub open spec fn import_candidates_of(
    project: FoundryProjectView,
    import: Seq<char>,
    from_file: Seq<char>,
) -> Seq<Seq<char>> {
    remapped_paths(project.root, project.remappings, import) + relative_paths(import, from_file)
        + library_paths(project.lib_dirs, import)
}

/// The first of `candidates` from position `from` on that is among
/// `existing`.
pub open spec fn first_existing(candidates: Seq<Seq<char>>, existing: Seq<Seq<char>>, from: int)
    -> Option<Seq<char>>
    decreases candidates.len() - from,
{
    if from < 0 || from >= candidates.len() {
        None
    } else if existing.contains(candidates[from]) {
        Some(candidates[from])
    } else {
        first_existing(candidates, existing, from + 1)
    }
}

/// Whether `name` is one of `names`.
pub fn contains_name(names: &Vec<String>, name: &str) -> (r: bool)
    ensures
        r == names.deep_view().contains(name@),
{
    let mut i: usize = 0;
    while i < names.len()
        invariant
            i <= names@.len(),
            forall|j: int| 0 <= j < i ==> names.deep_view()[j] != name@,
        decreases names@.len() - i,
    {
        if names[i].as_str().eq(name) {
            assert(names.deep_view()[i as int] == name@);
            return true;
        }
        i += 1;
    }
    false
}

/// Reads a remapping entry `prefix=replacement`.
pub fn parse_remapping(entry: &str) -> (r: Option<(String, String)>)
    ensures
        r.deep_view() == remapping_of(entry@),
{
    let chars = to_chars(entry);
    let n = chars.len();
    let sign = vec!['='];
    assert(sign@ =~= seq!['=']);
    match find_chars(&chars, &sign) {
        Some(at) => {
            proof {
                lemma_find_from(entry@, sign@, 0);
            }
            Some(
                (
                    String::from_str(entry.substring_char(0, at)),
                    String::from_str(entry.substring_char(at + 1, n)),
                ),
            )
        },
        None => None,
    }
}

impl FoundryProject {
    /// The project at `root` with the settings of its default profile; a
    /// missing setting takes its default.
    pub fn from_config(
        root: &str,
        src: Option<&str>,
        lib: Option<&Vec<String>>,
        remappings: Option<&Vec<String>>,
    ) -> (r: Self)
        ensures
            r@ == configured(
                root@,
                match src {
                    Some(s) => Some(s@),
                    None => None,
                },
                match lib {
                    Some(l) => Some(l.deep_view()),
                    None => None,
                },
                match remappings {
                    Some(m) => Some(m.deep_view()),
                    None => None,
                },
            ),
    {
        let src_dir = match src {
            Some(s) => join_path(root, s),
            None => join_path(root, "src"),
        };
        let mut lib_dirs: Vec<String> = Vec::new();
        match lib {
            Some(dirs) => {
                let mut i: usize = 0;
                while i < dirs.len()
                    invariant
                        i <= dirs@.len(),
                        lib_dirs@.len() == i,
                        forall|j: int|
                            0 <= j < i ==> (#[trigger] lib_dirs@[j])@ == joined(root@, dirs@[j]@),
                    decreases dirs@.len() - i,
                {
                    lib_dirs.push(join_path(root, dirs[i].as_str()));
                    i += 1;
                }
                assert(lib_dirs.deep_view() =~= joined_all(root@, dirs.deep_view()));
            },
            None => {
                lib_dirs.push(join_path(root, "lib"));
                assert(lib_dirs.deep_view() =~= joined_all(root@, seq!["lib"@]));
            },
        }
        let mut pairs: Vec<(String, String)> = Vec::new();
        match remappings {
            Some(entries) => {
                let mut i: usize = 0;
                assert(pairs.deep_view() =~= remappings_of(entries.deep_view().take(0)));
                while i < entries.len()
                    invariant
                        i <= entries@.len(),
                        pairs.deep_view() == remappings_of(entries.deep_view().take(i as int)),
                    decreases entries@.len() - i,
                {
                    proof {
                        assert(entries.deep_view().take(i + 1).drop_last()
                            == entries.deep_view().take(i as int));
                        assert(entries.deep_view().take(i + 1).last() == entries@[i as int]@);
                    }
                    let ghost before = pairs.deep_view();
                    if let Some(pair) = parse_remapping(entries[i].as_str()) {
                        pairs.push(pair);
                        assert(pairs.deep_view() =~= before.push(pair.deep_view()));
                    }
                    assert(pairs.deep_view() =~= remappings_of(
                        entries.deep_view().take(i + 1),
                    ));
                    i += 1;
                }
                assert(entries.deep_view().take(i as int) == entries.deep_view());
            },
            None => {
                assert(pairs.deep_view() =~= remappings_of(Seq::empty()));
            },
        }
        FoundryProject { root: String::from_str(root), src_dir, lib_dirs, remappings: pairs }
    }

    /// The project's root directory.
    pub fn root(&self) -> (r: &str)
        ensures
            r@ == self@.root,
    {
        self.root.as_str()
    }

    /// The directory that holds the project's sources.
    pub fn src_dir(&self) -> (r: &str)
        ensures
            r@ == self@.src_dir,
    {
        self.src_dir.as_str()
    }

    /// The import remappings, as pairs of prefix and replacement.
    pub fn remappings(&self) -> (r: &[(String, String)])
        ensures
            r.deep_view() == self@.remappings,
    {
        let pairs = self.remappings.as_slice();
        assert(pairs.deep_view() =~= self.remappings.deep_view());
        pairs
    }

    /// The path of the file that holds the contract `contract_name`: among
    /// the files of the source directory the first that is named after the
    /// contract, or else the first Solidity file whose text mentions it.
    pub fn find_contract(&self, files: &Vec<ProjectFile>, contract_name: &str) -> (r: Result<
        String,
        FoundryError,
    >)
        ensures
            match contract_file(files@, contract_name@) {
                Some(at) => r is Ok && r->Ok_0@ == files@[at].path@,
                None => r is Err && r->Err_0@ == FoundryErrorView::ContractNotFound(contract_name@),
            },
            contract_file(files@, contract_name@) matches Some(at) ==> 0 <= at < files@.len(),
    {
        let expected = concat2(contract_name, ".sol");
        let mut i: usize = 0;
        while i < files.len()
            invariant
                i <= files@.len(),
                expected@ == contract_file_name(contract_name@),
                first_by_name(files@, contract_name@, 0) == first_by_name(
                    files@,
                    contract_name@,
                    i as int,
                ),
            decreases files@.len() - i,
        {
            if files[i].file_name.as_str().eq(expected.as_str()) {
                return Ok(files[i].path.clone());
            }
            i += 1;
        }
        let pattern = to_chars(concat2("contract ", contract_name).as_str());
        let mut k: usize = 0;
        while k < files.len()
            invariant
                k <= files@.len(),
                pattern@ == "contract "@ + contract_name@,
                first_by_name(files@, contract_name@, 0) is None,
                first_by_text(files@, contract_name@, 0) == first_by_text(
                    files@,
                    contract_name@,
                    k as int,
                ),
            decreases files@.len() - k,
        {
            if is_solidity_file(files[k].file_name.as_str()) {
                if let Some(text) = &files[k].content {
                    let chars = to_chars(text.as_str());
                    if find_chars(&chars, &pattern).is_some() {
                        return Ok(files[k].path.clone());
                    }
                }
            }
            k += 1;
        }
        Err(FoundryError::ContractNotFound(String::from_str(contract_name)))
    }

    /// The paths of the Solidity files among the files of the source
    /// directory, in the order they were found.
    pub fn find_all_contracts(&self, files: &Vec<ProjectFile>) -> (r: Vec<String>)
        ensures
            r.deep_view() == solidity_paths(files@),
    {
        let mut contracts: Vec<String> = Vec::new();
        let mut i: usize = 0;
        assert(contracts.deep_view() =~= solidity_paths(files@.take(0)));
        while i < files.len()
            invariant
                i <= files@.len(),
                contracts.deep_view() == solidity_paths(files@.take(i as int)),
            decreases files@.len() - i,
        {
            proof {
                assert(files@.take(i + 1).drop_last() == files@.take(i as int));
            }
            let ghost before = contracts.deep_view();
            if is_solidity_file(files[i].file_name.as_str()) {
                contracts.push(files[i].path.clone());
                assert(contracts.deep_view() =~= before.push(files@[i as int].path@));
            }
            assert(contracts.deep_view() =~= solidity_paths(files@.take(i + 1)));
            i += 1;
        }
        assert(files@.take(i as int) == files@);
        contracts
    }

    /// The places where the import `import_path` of the file `from_file` is
    /// looked for, in the order they are tried.
    pub fn import_candidates(&self, import_path: &str, from_file: &str) -> (r: Vec<String>)
        ensures
            r.deep_view() == import_candidates_of(self@, import_path@, from_file@),
    {
        let mut candidates: Vec<String> = Vec::new();
        let total = import_path.unicode_len();
        let mut i: usize = 0;
        assert(candidates.deep_view() =~= remapped_paths(
            self.root@,
            self.remappings.deep_view().take(0),
            import_path@,
        ));
        while i < self.remappings.len()
            invariant
                i <= self.remappings@.len(),
                total == import_path@.len(),
                candidates.deep_view() == remapped_paths(
                    self.root@,
                    self.remappings.deep_view().take(i as int),
                    import_path@,
                ),
            decreases self.remappings@.len() - i,
        {
            proof {
                assert(self.remappings.deep_view().take(i + 1).drop_last()
                    == self.remappings.deep_view().take(i as int));
                assert(self.remappings.deep_view().take(i + 1).last()
                    == self.remappings@[i as int].deep_view());
            }
            let ghost before = candidates.deep_view();
            let prefix = self.remappings[i].0.as_str();
            let replacement = self.remappings[i].1.as_str();
            if starts_with(import_path, prefix) {
                let rest = import_path.substring_char(prefix.unicode_len(), total);
                let resolved = concat2(replacement, rest);
                let path = join_path(self.root.as_str(), resolved.as_str());
                candidates.push(path);
                assert(import_path@.skip(prefix@.len() as int) =~= rest@);
                assert(candidates.deep_view() =~= before.push(path@));
            }
            assert(candidates.deep_view() =~= remapped_paths(
                self.root@,
                self.remappings.deep_view().take(i + 1),
                import_path@,
            ));
            i += 1;
        }
        assert(self.remappings.deep_view().take(i as int) == self.remappings.deep_view());
        let ghost remapped = candidates.deep_view();
        if starts_with(import_path, "./") || starts_with(import_path, "../") {
            if let Some(parent) = parent_dir(from_file) {
                let path = join_path(parent.as_str(), import_path);
                candidates.push(path);
                assert(candidates.deep_view() =~= remapped.push(path@));
            }
        }
        assert(candidates.deep_view() =~= remapped + relative_paths(import_path@, from_file@));
        let ghost near = candidates.deep_view();
        let mut k: usize = 0;
        while k < self.lib_dirs.len()
            invariant
                k <= self.lib_dirs@.len(),
                candidates.deep_view() == near + library_paths(
                    self.lib_dirs.deep_view(),
                    import_path@,
                ).take(k as int),
            decreases self.lib_dirs@.len() - k,
        {
            let ghost before = candidates.deep_view();
            let path = join_path(self.lib_dirs[k].as_str(), import_path);
            candidates.push(path);
            assert(candidates.deep_view() =~= before.push(path@));
            assert(candidates.deep_view() =~= near + library_paths(
                self.lib_dirs.deep_view(),
                import_path@,
            ).take(k + 1));
            k += 1;
        }
        assert(library_paths(self.lib_dirs.deep_view(), import_path@).take(k as int)
            =~= library_paths(self.lib_dirs.deep_view(), import_path@));
        candidates
    }

    /// The file behind the import `import_path` of the file `from_file`: the
    /// first place the import is looked for that is among `existing`, the
    /// paths known to exist.
    pub fn resolve_import(&self, import_path: &str, from_file: &str, existing: &Vec<String>) -> (r:
        Option<String>)
        ensures
            r.deep_view() == first_existing(
                import_candidates_of(self@, import_path@, from_file@),
                existing.deep_view(),
                0,
            ),
    {
        let candidates = self.import_candidates(import_path, from_file);
        let mut i: usize = 0;
        while i < candidates.len()
            invariant
                i <= candidates@.len(),
                candidates.deep_view() == import_candidates_of(self@, import_path@, from_file@),
                first_existing(candidates.deep_view(), existing.deep_view(), 0) == first_existing(
                    candidates.deep_view(),
                    existing.deep_view(),
                    i as int,
                ),
            decreases candidates@.len() - i,
        {
            if contains_name(existing, candidates[i].as_str()) {
                assert(candidates.deep_view()[i as int] == candidates@[i as int]@);
                return Some(candidates[i].clone());
            }
            i += 1;
        }
        None
    }
}

} // verus!
