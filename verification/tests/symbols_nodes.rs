use ctxpack::inventory::FileInventoryEntry;
use ctxpack::model::FileRole;
use ctxpack::symbols::{
    code_symbol, grammar_for_file, parsed_symbols, symbol_kind_for_node, symbol_node_name,
    symbols_from_nodes, Grammar, SymbolKind, SyntaxNode,
};

fn file(path: &str, language: Option<&str>) -> FileInventoryEntry {
    FileInventoryEntry {
        path: path.to_string(),
        language: language.map(|l| l.to_string()),
        role: FileRole::Source,
        hash: "h".to_string(),
        size_bytes: 1,
        generated: false,
        ignored: false,
    }
}

#[test]
fn grammars_follow_the_language() {
    assert_eq!(grammar_for_file(&file("a.tsx", Some("typescript"))), Some(Grammar::Tsx));
    assert_eq!(grammar_for_file(&file("a.ts", Some("typescript"))), Some(Grammar::TypeScript));
    assert_eq!(grammar_for_file(&file("a.js", Some("javascript"))), Some(Grammar::Tsx));
    assert_eq!(grammar_for_file(&file("a.kt", Some("kotlin"))), Some(Grammar::Kotlin));
    assert_eq!(grammar_for_file(&file("a.rb", Some("ruby"))), None);
    assert_eq!(grammar_for_file(&file("a", None)), None);
}

#[test]
fn node_names_prefer_the_name_field() {
    assert_eq!(
        symbol_node_name(&Some(" run ".to_string()), &Some("other".to_string())),
        Some("run".to_string())
    );
    assert_eq!(
        symbol_node_name(&Some("  ".to_string()), &Some("other".to_string())),
        Some("other".to_string())
    );
    assert_eq!(symbol_node_name(&None, &None), None);
}

#[test]
fn nodes_become_symbols() {
    let python = Some("python".to_string());
    assert_eq!(
        symbol_kind_for_node(&python, "function_definition", true),
        Some(SymbolKind::Method)
    );
    assert_eq!(
        symbol_kind_for_node(&python, "function_definition", false),
        Some(SymbolKind::Function)
    );
    assert_eq!(symbol_kind_for_node(&python, "comment", false), None);

    let ts = file("src/a.ts", Some("typescript"));
    let content = "export function run() {\n  return 1;\n}\n";
    let symbol = code_symbol(&ts, content, "run", SymbolKind::Function, 1, 0, "export function run() {");
    assert_eq!(symbol.name, "run");
    assert_eq!(symbol.start_line, 1);
    assert_eq!(symbol.end_line, 1);
    assert_eq!(symbol.signature, "export function run() {");
    assert!(symbol.exported);
    assert_eq!(symbol.path, "src/a.ts");
}

#[test]
fn typescript_symbols_come_from_the_syntax_tree() {
    let content = "export function requireSession() {\n  return 1;\n}\nclass Store {}\n";
    let symbols = parsed_symbols(&file("src/auth.ts", Some("typescript")), content).unwrap();
    let session = symbols.iter().find(|s| s.name == "requireSession").unwrap();
    assert_eq!(session.kind, SymbolKind::Function);
    assert_eq!(session.start_line, 1);
    assert_eq!(session.end_line, 3);
    assert_eq!(session.signature, "export function requireSession() {");
    assert!(session.exported);
    let store = symbols.iter().find(|s| s.name == "Store").unwrap();
    assert_eq!(store.kind, SymbolKind::Class);
    assert_eq!(store.start_line, 4);
    assert!(!store.exported);
}

#[test]
fn python_functions_inside_classes_are_methods() {
    let content = "class Cart:\n    def total(self):\n        return 0\n\ndef checkout():\n    pass\n";
    let symbols = parsed_symbols(&file("shop/cart.py", Some("python")), content).unwrap();
    let kinds: Vec<(&str, SymbolKind)> = symbols.iter().map(|s| (s.name.as_str(), s.kind)).collect();
    assert!(kinds.contains(&("Cart", SymbolKind::Class)));
    assert!(kinds.contains(&("total", SymbolKind::Method)));
    assert!(kinds.contains(&("checkout", SymbolKind::Function)));
    assert!(parsed_symbols(&file("notes.txt", None), content).is_none());
}

#[test]
fn nodes_without_a_name_field_use_their_first_identifier() {
    let nodes = vec![
        SyntaxNode {
            kind: "type_spec".to_string(),
            parent: None,
            name_text: None,
            text: Some("Handler func()".to_string()),
            start_row: 2,
            end_row: 2,
        },
        SyntaxNode {
            kind: "type_identifier".to_string(),
            parent: Some(0),
            name_text: None,
            text: Some("Handler".to_string()),
            start_row: 2,
            end_row: 2,
        },
    ];
    let symbols = symbols_from_nodes(&file("a.go", Some("go")), "package a\n\ntype Handler func()\n", &nodes);
    assert_eq!(symbols.len(), 1);
    assert_eq!(symbols[0].name, "Handler");
    assert_eq!(symbols[0].kind, SymbolKind::Type);
    assert_eq!(symbols[0].start_line, 3);
    assert_eq!(symbols[0].signature, "type Handler func()");
    assert!(symbols[0].exported);
}
