//! Imports and inheritance across files.

use acacia::foundry::FoundryProject;
use acacia::parser::resolver::summarize;
use acacia::parser::syntax::{
    ContractDef, ContractItem, FunctionDef, FunctionKind, SourceItem, SourceUnit,
};
use acacia::parser::{InheritanceResolver, ModifierDef};

fn project() -> FoundryProject {
    FoundryProject::from_config("/work", None, None, Some(&vec!["@lib/=deps/".to_string()]))
}

fn modifier(name: &str) -> ContractItem {
    ContractItem::Function(FunctionDef {
        kind: FunctionKind::Modifier,
        name: Some(name.to_string()),
        parameters: vec![],
        visibility: None,
        modifiers: vec![],
        body: Some(vec![]),
    })
}

fn function(name: &str) -> ContractItem {
    ContractItem::Function(FunctionDef {
        kind: FunctionKind::Function,
        name: Some(name.to_string()),
        parameters: vec![],
        visibility: None,
        modifiers: vec![],
        body: Some(vec![]),
    })
}

fn contract(name: &str, bases: &[&str], body: Vec<ContractItem>) -> SourceItem {
    SourceItem::Contract(ContractDef {
        name: name.to_string(),
        bases: bases.iter().map(|b| b.to_string()).collect(),
        body,
    })
}

fn import(path: &str) -> SourceItem {
    SourceItem::Import(path.to_string())
}

/// A project of four files:
/// `/work/src/Vault.sol` holds `Vault is Pausable, Ownable, Missing` and
/// imports the other three; `Ownable.sol` lies beside it and holds `Ownable
/// is Context`; `Pausable.sol` comes from a remapping and holds `Pausable is
/// Context, Ownable`; `Context.sol` holds `Context`.
fn resolver(project: &FoundryProject) -> InheritanceResolver<'_> {
    let mut resolver = InheritanceResolver::new(project);
    resolver.cache_parsed(
        "/work/src/Vault.sol",
        &SourceUnit {
            items: vec![
                import("@lib/Pausable.sol"),
                import("./Ownable.sol"),
                import("./Context.sol"),
                import("./Gone.sol"),
                SourceItem::Other,
                contract(
                    "Vault",
                    &["Pausable", "Ownable", "Missing"],
                    vec![modifier("nonZero"), function("deposit"), modifier("open")],
                ),
                contract("Helper", &[], vec![]),
            ],
        },
    );
    resolver.cache_parsed(
        "/work/src/./Ownable.sol",
        &SourceUnit {
            items: vec![
                import("./Context.sol"),
                contract("Ownable", &["Context"], vec![modifier("onlyOwner")]),
            ],
        },
    );
    resolver.cache_parsed(
        "/work/deps/Pausable.sol",
        &SourceUnit {
            items: vec![
                import("../src/Context.sol"),
                import("../src/Ownable.sol"),
                contract("Pausable", &["Context", "Ownable"], vec![]),
            ],
        },
    );
    resolver.cache_parsed(
        "/work/src/./Context.sol",
        &SourceUnit { items: vec![contract("Context", &[], vec![])] },
    );
    resolver.cache_parsed(
        "/work/deps/../src/Context.sol",
        &SourceUnit { items: vec![contract("Context", &[], vec![])] },
    );
    resolver.cache_parsed(
        "/work/deps/../src/Ownable.sol",
        &SourceUnit {
            items: vec![import("./Context.sol"), contract("Ownable", &["Context"], vec![])],
        },
    );
    resolver.cache_parsed(
        "/work/src/./././Context.sol",
        &SourceUnit { items: vec![contract("Context", &[], vec![])] },
    );
    for path in [
        "/work/deps/Pausable.sol",
        "/work/src/./Ownable.sol",
        "/work/src/./Context.sol",
        "/work/deps/../src/Context.sol",
        "/work/deps/../src/Ownable.sol",
        "/work/src/././Context.sol",
        "/work/deps/../src/./Context.sol",
    ] {
        resolver.note_existing(path);
    }
    resolver
}

#[test]
fn a_file_is_summarized() {
    let summary = summarize(
        "a.sol",
        &SourceUnit {
            items: vec![
                import("./b.sol"),
                contract("A", &["B", "C"], vec![modifier("m"), function("f"), modifier("n")]),
                SourceItem::Other,
                import("c.sol"),
                contract("D", &[], vec![]),
            ],
        },
    );
    assert_eq!(summary.path, "a.sol");
    assert_eq!(summary.imports, vec!["./b.sol", "c.sol"]);
    assert_eq!(summary.contracts.len(), 2);
    assert_eq!(summary.contracts[0].name, "A");
    assert_eq!(summary.contracts[0].parents, vec!["B", "C"]);
    assert_eq!(summary.contracts[0].modifiers, vec!["m", "n"]);
    assert_eq!(summary.contracts[1].name, "D");
    assert!(summary.contracts[1].parents.is_empty());
}

#[test]
fn what_was_recorded_first_stays() {
    let project = project();
    let mut resolver = InheritanceResolver::new(&project);
    assert!(!resolver.is_cached("a.sol"));
    assert!(resolver.parsed("a.sol").is_none());
    resolver.cache_parsed("a.sol", &SourceUnit { items: vec![contract("A", &["B"], vec![])] });
    resolver.cache_parsed("a.sol", &SourceUnit { items: vec![contract("A", &["C"], vec![])] });
    assert!(resolver.is_cached("a.sol"));
    assert_eq!(resolver.get_parent_names("A", "a.sol"), vec!["B"]);
}

#[test]
fn imports_resolve_to_the_first_existing_place() {
    let project = project();
    let resolver = resolver(&project);
    assert_eq!(
        resolver.resolve_import("@lib/Pausable.sol", "/work/src/Vault.sol"),
        Some("/work/deps/Pausable.sol".to_string())
    );
    assert_eq!(
        resolver.resolve_import("./Ownable.sol", "/work/src/Vault.sol"),
        Some("/work/src/./Ownable.sol".to_string())
    );
    assert_eq!(resolver.resolve_import("./Gone.sol", "/work/src/Vault.sol"), None);
}

#[test]
fn a_contract_is_found_in_the_file_or_its_imports() {
    let project = project();
    let resolver = resolver(&project);
    let from = "/work/src/Vault.sol";
    assert_eq!(resolver.find_contract_file("Vault", from), Some(from.to_string()));
    assert_eq!(resolver.find_contract_file("Helper", from), Some(from.to_string()));
    assert_eq!(
        resolver.find_contract_file("Ownable", from),
        Some("/work/src/./Ownable.sol".to_string())
    );
    assert_eq!(
        resolver.find_contract_file("Pausable", from),
        Some("/work/deps/Pausable.sol".to_string())
    );
    assert_eq!(resolver.find_contract_file("Missing", from), None);
    assert_eq!(resolver.find_contract_file("Vault", "/work/src/Unknown.sol"), None);
    assert_eq!(resolver.find_contract_file("Vault", "/work/src/./Context.sol"), None);
}

#[test]
fn parents_and_modifiers_of_a_contract() {
    let project = project();
    let resolver = resolver(&project);
    let file = "/work/src/Vault.sol";
    assert_eq!(resolver.get_parent_names("Vault", file), vec!["Pausable", "Ownable", "Missing"]);
    assert_eq!(resolver.get_modifier_names("Vault", file), vec!["nonZero", "open"]);
    assert!(resolver.get_parent_names("Helper", file).is_empty());
    assert!(resolver.get_parent_names("Nothing", file).is_empty());
    assert!(resolver.get_parent_names("Vault", "/elsewhere.sol").is_empty());
    assert!(resolver.get_modifier_names("Nothing", file).is_empty());
    assert!(resolver.get_modifier_names("Vault", "/elsewhere.sol").is_empty());
}

#[test]
fn the_chain_runs_from_the_root_ancestors_to_the_contract() {
    let project = project();
    let resolver = resolver(&project);
    let chain = resolver.build_inheritance_chain("Vault", "/work/src/Vault.sol");
    let shown: Vec<(&str, &str)> = chain.iter().map(|(f, c)| (f.as_str(), c.as_str())).collect();
    assert_eq!(
        shown,
        vec![
            ("/work/deps/../src/Context.sol", "Context"),
            ("/work/deps/../src/Ownable.sol", "Ownable"),
            ("/work/deps/Pausable.sol", "Pausable"),
            ("/work/src/Vault.sol", "Vault"),
        ]
    );
}

#[test]
fn the_chain_of_an_unknown_contract_is_the_contract() {
    let project = project();
    let resolver = resolver(&project);
    assert_eq!(
        resolver.build_inheritance_chain("Nothing", "/nowhere.sol"),
        vec![("/nowhere.sol".to_string(), "Nothing".to_string())]
    );
    let empty = InheritanceResolver::new(&project);
    assert_eq!(
        empty.build_inheritance_chain("Vault", "/work/src/Vault.sol"),
        vec![("/work/src/Vault.sol".to_string(), "Vault".to_string())]
    );
}

#[test]
fn the_chain_ends_on_a_cycle() {
    let project = project();
    let mut resolver = InheritanceResolver::new(&project);
    resolver.cache_parsed(
        "loop.sol",
        &SourceUnit {
            items: vec![
                contract("A", &["B"], vec![]),
                contract("B", &["C", "A"], vec![]),
                contract("C", &["A", "C"], vec![]),
            ],
        },
    );
    let chain = resolver.build_inheritance_chain("A", "loop.sol");
    let names: Vec<&str> = chain.iter().map(|(_, c)| c.as_str()).collect();
    assert_eq!(names, vec!["C", "B", "A"]);
    let mut chain = Vec::new();
    let mut visited = vec!["B".to_string()];
    resolver.build_chain_recursive("A", "loop.sol", &mut chain, &mut visited);
    assert_eq!(chain, vec![("loop.sol".to_string(), "A".to_string())]);
    assert_eq!(visited, vec!["B", "A"]);
    resolver.build_chain_recursive("A", "loop.sol", &mut chain, &mut visited);
    assert_eq!(chain.len(), 1);
    assert_eq!(visited.len(), 2);
}

#[test]
fn modifier_definitions_can_be_copied() {
    let def = ModifierDef { name: "onlyOwner".to_string(), has_body: true };
    let copy = def.clone();
    assert_eq!(copy.name, "onlyOwner");
    assert!(copy.has_body);
}
