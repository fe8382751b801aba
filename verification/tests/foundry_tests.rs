//! Project settings, paths and the lookup of files.

use acacia::foundry::{
    contains_name, is_solidity_file, join_path, parent_dir, parse_remapping, FoundryError,
    FoundryProject, ProjectFile,
};

fn names(list: &[&str]) -> Vec<String> {
    list.iter().map(|s| s.to_string()).collect()
}

fn file(path: &str, content: Option<&str>) -> ProjectFile {
    ProjectFile {
        path: path.to_string(),
        file_name: path.rsplit('/').next().unwrap().to_string(),
        content: content.map(|c| c.to_string()),
    }
}

fn project() -> FoundryProject {
    FoundryProject::from_config(
        "/work",
        Some("contracts"),
        Some(&names(&["lib", "/opt/deps", "node_modules/"])),
        Some(&names(&["@oz/=lib/oz/contracts/", "broken", "ds-test/=lib/ds-test/src/", "=every/"])),
    )
}

#[test]
fn paths_are_joined_with_one_separator() {
    assert_eq!(join_path("a", "b"), "a/b");
    assert_eq!(join_path("a/", "b"), "a/b");
    assert_eq!(join_path("a", "/b"), "/b");
    assert_eq!(join_path("", "b"), "b");
    assert_eq!(join_path("a", ""), "a/");
    assert_eq!(join_path("/", "b"), "/b");
    assert_eq!(join_path("a/b", "../c.sol"), "a/b/../c.sol");
}

#[test]
fn directory_of_a_file() {
    assert_eq!(parent_dir("src/tokens/Vault.sol"), Some("src/tokens".to_string()));
    assert_eq!(parent_dir("Vault.sol"), Some(String::new()));
    assert_eq!(parent_dir("/Vault.sol"), Some("/".to_string()));
    assert_eq!(parent_dir(""), None);
    assert_eq!(parent_dir("/"), None);
    assert_eq!(parent_dir("a/"), Some(String::new()));
    assert_eq!(parent_dir("a/b/"), Some("a".to_string()));
    assert_eq!(parent_dir("a//b"), Some("a".to_string()));
    assert_eq!(parent_dir("a/./b"), Some("a".to_string()));
    assert_eq!(parent_dir("a/b/."), Some("a".to_string()));
    assert_eq!(parent_dir("a/."), Some(String::new()));
    assert_eq!(parent_dir("./b"), Some(".".to_string()));
    assert_eq!(parent_dir("."), Some(String::new()));
    assert_eq!(parent_dir(".."), Some(String::new()));
    assert_eq!(parent_dir("a/.."), Some("a".to_string()));
    assert_eq!(parent_dir("a/.git"), Some("a".to_string()));
    assert_eq!(parent_dir("//"), None);
    assert_eq!(parent_dir("/."), None);
    assert_eq!(parent_dir("///a"), Some("/".to_string()));
    assert_eq!(parent_dir("/a/b"), Some("/a".to_string()));
}

#[test]
fn directory_of_a_file_is_what_the_standard_library_gives() {
    let paths = [
        "", "/", "//", "/.", ".", "..", "a", "a/", "a/b", "a/b/", "a//b", "a/./b", "a/b/.",
        "a/.", "./b", "././b", "a/..", "a/.git", "/a", "/a/b", "///a", "/a//", "a/b/./", "./",
        "src/tokens/Vault.sol", "../shared/Base.sol", "a/...", "a/.b/.", "/./a",
    ];
    for path in paths {
        let expected = std::path::Path::new(path)
            .parent()
            .map(|p| p.to_string_lossy().into_owned());
        assert_eq!(parent_dir(path), expected);
    }
}

#[test]
fn solidity_files_are_told_by_their_extension() {
    assert!(is_solidity_file("Vault.sol"));
    assert!(is_solidity_file("a.b.sol"));
    assert!(!is_solidity_file(".sol"));
    assert!(!is_solidity_file("sol"));
    assert!(!is_solidity_file("Vault.sol.bak"));
    assert!(!is_solidity_file("Vault.SOL"));
    assert!(!is_solidity_file(""));
    assert!(!is_solidity_file("Vaultsol"));
}

#[test]
fn remappings_split_at_the_first_equals_sign() {
    assert_eq!(parse_remapping("a=b"), Some(("a".to_string(), "b".to_string())));
    assert_eq!(parse_remapping("a=b=c"), Some(("a".to_string(), "b=c".to_string())));
    assert_eq!(parse_remapping("=b"), Some((String::new(), "b".to_string())));
    assert_eq!(parse_remapping("a="), Some(("a".to_string(), String::new())));
    assert_eq!(parse_remapping("ab"), None);
    assert_eq!(parse_remapping(""), None);
}

#[test]
fn settings_have_defaults() {
    let project = FoundryProject::from_config("/work", None, None, None);
    assert_eq!(project.root(), "/work");
    assert_eq!(project.src_dir(), "/work/src");
    assert_eq!(project.lib_dirs, vec!["/work/lib"]);
    assert!(project.remappings().is_empty());
}

#[test]
fn settings_are_taken_from_the_profile() {
    let project = project();
    assert_eq!(project.root(), "/work");
    assert_eq!(project.src_dir(), "/work/contracts");
    assert_eq!(project.lib_dirs, vec!["/work/lib", "/opt/deps", "/work/node_modules/"]);
    assert_eq!(
        project.remappings(),
        &[
            ("@oz/".to_string(), "lib/oz/contracts/".to_string()),
            ("ds-test/".to_string(), "lib/ds-test/src/".to_string()),
            (String::new(), "every/".to_string()),
        ][..]
    );
    let none = FoundryProject::from_config("r", Some("/abs"), Some(&vec![]), Some(&vec![]));
    assert_eq!(none.src_dir(), "/abs");
    assert!(none.lib_dirs.is_empty());
    assert!(none.remappings().is_empty());
}

#[test]
fn imports_are_looked_for_in_order() {
    let project = project();
    assert_eq!(
        project.import_candidates("@oz/token/ERC20.sol", "/work/contracts/Vault.sol"),
        vec![
            "/work/lib/oz/contracts/token/ERC20.sol",
            "/work/every/@oz/token/ERC20.sol",
            "/work/lib/@oz/token/ERC20.sol",
            "/opt/deps/@oz/token/ERC20.sol",
            "/work/node_modules/@oz/token/ERC20.sol",
        ]
    );
    assert_eq!(
        project.import_candidates("./Base.sol", "/work/contracts/Vault.sol"),
        vec![
            "/work/every/./Base.sol",
            "/work/contracts/./Base.sol",
            "/work/lib/./Base.sol",
            "/opt/deps/./Base.sol",
            "/work/node_modules/./Base.sol",
        ]
    );
    let plain = FoundryProject::from_config("/work", None, None, None);
    assert_eq!(
        plain.import_candidates("../shared/Base.sol", "Vault.sol"),
        vec!["../shared/Base.sol", "/work/lib/../shared/Base.sol"]
    );
    assert_eq!(plain.import_candidates("./Base.sol", ""), vec!["/work/lib/./Base.sol"]);
    assert_eq!(plain.import_candidates("Base.sol", "src/Vault.sol"), vec!["/work/lib/Base.sol"]);
}

#[test]
fn the_first_existing_place_resolves_an_import() {
    let project = project();
    let from = "/work/contracts/Vault.sol";
    let all = names(&[
        "/work/node_modules/@oz/token/ERC20.sol",
        "/opt/deps/@oz/token/ERC20.sol",
        "/elsewhere/ERC20.sol",
    ]);
    assert_eq!(
        project.resolve_import("@oz/token/ERC20.sol", from, &all),
        Some("/opt/deps/@oz/token/ERC20.sol".to_string())
    );
    let remapped = names(&["/opt/deps/@oz/token/ERC20.sol", "/work/lib/oz/contracts/token/ERC20.sol"]);
    assert_eq!(
        project.resolve_import("@oz/token/ERC20.sol", from, &remapped),
        Some("/work/lib/oz/contracts/token/ERC20.sol".to_string())
    );
    assert_eq!(project.resolve_import("@oz/token/ERC20.sol", from, &vec![]), None);
    assert_eq!(
        project.resolve_import("./Base.sol", from, &names(&["/work/contracts/./Base.sol"])),
        Some("/work/contracts/./Base.sol".to_string())
    );
    assert_eq!(
        project.resolve_import("Base.sol", from, &names(&["/work/contracts/./Base.sol"])),
        None
    );
}

#[test]
fn a_contract_is_found_by_file_name_before_text() {
    let project = project();
    let files = vec![
        file("/work/contracts/Bank.sol", Some("contract Vault {}")),
        file("/work/contracts/notes.txt", Some("contract Vault")),
        file("/work/contracts/deep/Vault.sol", None),
        file("/work/contracts/Vault.sol", Some("contract Vault {}")),
    ];
    assert_eq!(
        project.find_contract(&files, "Vault").unwrap(),
        "/work/contracts/deep/Vault.sol"
    );
    assert_eq!(project.find_contract(&files, "Bank").unwrap(), "/work/contracts/Bank.sol");
}

#[test]
fn a_contract_is_found_by_its_definition() {
    let project = project();
    let files = vec![
        file("/work/contracts/notes.txt", Some("contract Safe")),
        file("/work/contracts/Unread.sol", None),
        file("/work/contracts/Other.sol", Some("interface Safe {} contract  Safe")),
        file("/work/contracts/Bank.sol", Some("abstract contract SafeBox is Base {}")),
        file("/work/contracts/Late.sol", Some("contract Safe {}")),
    ];
    assert_eq!(project.find_contract(&files, "Safe").unwrap(), "/work/contracts/Bank.sol");
    match project.find_contract(&files, "Missing") {
        Err(FoundryError::ContractNotFound(name)) => assert_eq!(name, "Missing"),
        other => panic!("unexpected result {:?}", other),
    }
    assert!(matches!(
        project.find_contract(&vec![], "Safe"),
        Err(FoundryError::ContractNotFound(_))
    ));
}

#[test]
fn all_solidity_files_are_listed() {
    let project = project();
    let files = vec![
        file("/work/contracts/B.sol", None),
        file("/work/contracts/readme.md", None),
        file("/work/contracts/deep/A.sol", None),
        file("/work/contracts/.sol", None),
    ];
    assert_eq!(
        project.find_all_contracts(&files),
        vec!["/work/contracts/B.sol", "/work/contracts/deep/A.sol"]
    );
    assert!(project.find_all_contracts(&vec![]).is_empty());
}

#[test]
fn foundry_errors_have_messages() {
    assert_eq!(
        FoundryError::ProjectNotFound.to_string(),
        "Could not find foundry.toml in current directory or any parent"
    );
    assert_eq!(
        FoundryError::ConfigReadError("denied".to_string()).to_string(),
        "Failed to read foundry.toml: denied"
    );
    assert_eq!(
        FoundryError::ConfigParseError("line 1".to_string()).to_string(),
        "Failed to parse foundry.toml: line 1"
    );
    assert_eq!(
        FoundryError::ContractNotFound("Vault".to_string()).to_string(),
        "Contract 'Vault' not found in project"
    );
}

#[test]
fn names_are_looked_up_exactly() {
    let list = names(&["a", "b"]);
    assert!(contains_name(&list, "a"));
    assert!(contains_name(&list, "b"));
    assert!(!contains_name(&list, "c"));
    assert!(!contains_name(&list, ""));
    assert!(!contains_name(&vec![], "a"));
}

#[test]
fn joined_paths_are_what_the_standard_library_gives() {
    let parts = ["", "a", "a/", "/", "/a", "a/b", "./a", "../a", "a//", "b.sol", "/b.sol", "."];
    for base in parts {
        for rel in parts {
            let expected =
                std::path::Path::new(base).join(rel).to_string_lossy().into_owned();
            assert_eq!(join_path(base, rel), expected);
        }
    }
}
