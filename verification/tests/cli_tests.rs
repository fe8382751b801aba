use acacia::cli::{parse_target, push_snake_piece, to_snake_case, ParsedTarget};

#[test]
fn test_to_snake_case() {
    assert_eq!(to_snake_case("Vault"), "vault");
    assert_eq!(to_snake_case("VaultABC"), "vault_abc");
    assert_eq!(to_snake_case("HiHello"), "hi_hello");
    assert_eq!(to_snake_case("myFunction"), "my_function");
    assert_eq!(to_snake_case("ABC"), "abc");
    assert_eq!(to_snake_case("A"), "a");
}

#[test]
fn snake_case_keeps_other_characters() {
    assert_eq!(to_snake_case(""), "");
    assert_eq!(to_snake_case("erc20Token"), "erc20token");
    assert_eq!(to_snake_case("ERC20"), "erc20");
    assert_eq!(to_snake_case("a_B"), "a_b");
}

#[test]
fn parse_target_empty_is_all_contracts() {
    assert!(matches!(parse_target(""), ParsedTarget::AllContracts));
}

#[test]
fn parse_target_contract_only() {
    match parse_target("Vault") {
        ParsedTarget::Contract { contract_name } => assert_eq!(contract_name, "Vault"),
        other => panic!("unexpected target {:?}", other),
    }
}

#[test]
fn parse_target_function_without_signature() {
    match parse_target("Vault::deposit") {
        ParsedTarget::Function { contract_name, function_name, signature } => {
            assert_eq!(contract_name, "Vault");
            assert_eq!(function_name, "deposit");
            assert_eq!(signature, None);
        }
        other => panic!("unexpected target {:?}", other),
    }
}

#[test]
fn parse_target_function_with_signature() {
    match parse_target("Vault::transfer(address,uint256)") {
        ParsedTarget::Function { contract_name, function_name, signature } => {
            assert_eq!(contract_name, "Vault");
            assert_eq!(function_name, "transfer");
            assert_eq!(signature, Some("address,uint256".to_string()));
        }
        other => panic!("unexpected target {:?}", other),
    }
}

#[test]
fn parse_target_edge_shapes() {
    match parse_target("Vault::f()") {
        ParsedTarget::Function { function_name, signature, .. } => {
            assert_eq!(function_name, "f");
            assert_eq!(signature, Some(String::new()));
        }
        other => panic!("unexpected target {:?}", other),
    }
    match parse_target("Vault::f(uint256") {
        ParsedTarget::Function { function_name, signature, .. } => {
            assert_eq!(function_name, "f(uint256");
            assert_eq!(signature, None);
        }
        other => panic!("unexpected target {:?}", other),
    }
    match parse_target("::") {
        ParsedTarget::Function { contract_name, function_name, signature } => {
            assert_eq!(contract_name, "");
            assert_eq!(function_name, "");
            assert_eq!(signature, None);
        }
        other => panic!("unexpected target {:?}", other),
    }
    match parse_target("A::B::c") {
        ParsedTarget::Function { contract_name, function_name, .. } => {
            assert_eq!(contract_name, "A");
            assert_eq!(function_name, "B::c");
        }
        other => panic!("unexpected target {:?}", other),
    }
}

#[test]
fn snake_pieces_follow_what_is_known_of_the_character() {
    let mut out = String::from("x");
    push_snake_piece(&mut out, 'V', true, false);
    assert_eq!(out, "xv");
    push_snake_piece(&mut out, 'B', true, true);
    assert_eq!(out, "xv_b");
    push_snake_piece(&mut out, 'C', false, true);
    assert_eq!(out, "xv_bC");
    push_snake_piece(&mut out, '\u{c9}', true, true);
    assert_eq!(out, "xv_bC_\u{c9}");
}

#[test]
fn snake_case_knows_letters_beyond_ascii() {
    assert_eq!(to_snake_case("caf\u{e9}Bar"), "caf\u{e9}_bar");
    assert_eq!(to_snake_case("a\u{c9}"), "a_\u{c9}");
}
