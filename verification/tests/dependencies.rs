use ctxpack::dependencies::{
    dependency_edges, edge_anchor_rank, related_dependency_edges, DependencyEdge,
    DependencyOptions,
};
use ctxpack::inventory::FileInventoryEntry;
use ctxpack::model::FileRole;

fn source(path: &str, language: &str) -> FileInventoryEntry {
    FileInventoryEntry {
        path: path.to_string(),
        language: Some(language.to_string()),
        role: FileRole::Source,
        hash: "h".to_string(),
        size_bytes: 1,
        generated: false,
        ignored: false,
    }
}

fn graph(files: &[(&str, &str, &str)], limit: usize) -> Vec<DependencyEdge> {
    let entries: Vec<FileInventoryEntry> =
        files.iter().map(|(path, language, _)| source(path, language)).collect();
    let texts: Vec<Option<String>> = files.iter().map(|(_, _, text)| Some(text.to_string())).collect();
    dependency_edges(&entries, &texts, &Vec::new(), &DependencyOptions { limit })
}

fn python_package_files() -> Vec<(&'static str, &'static str, &'static str)> {
    vec![
        (
            "schema_agent/agents.py",
            "python",
            "from schema_agent.nlp import entity_extractor as ee\nfrom schema_agent.text2r import sql_materializer, triplet_extractor_symbolic\n",
        ),
        (
            "schema_agent/reexport_agent.py",
            "python",
            "from schema_agent.nlp import EntityExtractor\n",
        ),
        (
            "schema_agent/nlp/__init__.py",
            "python",
            "from schema_agent.nlp.entity_extractor import EntityExtractor\n",
        ),
        ("schema_agent/nlp/entity_extractor.py", "python", "class EntityExtractor: pass\n"),
        ("schema_agent/text2r/sql_materializer.py", "python", "class SqlMaterializer: pass\n"),
        (
            "schema_agent/text2r/triplet_extractor_symbolic.py",
            "python",
            "class TripletExtractor: pass\n",
        ),
        (
            "schema_agent/text2r/normalizers/__init__.py",
            "python",
            "from . import currency_normalizer\n",
        ),
        (
            "schema_agent/text2r/normalizers/currency_normalizer.py",
            "python",
            "class CurrencyNormalizer: pass\n",
        ),
    ]
}

#[test]
fn dependency_edges_resolve_python_from_imported_submodules() {
    let edges = graph(&python_package_files(), 20);
    let pairs: Vec<(&str, &str)> = edges
        .iter()
        .map(|edge| (edge.source_path.as_str(), edge.target_path.as_str()))
        .collect();
    assert!(pairs.contains(&("schema_agent/agents.py", "schema_agent/nlp/entity_extractor.py")));
    assert!(pairs.contains(&("schema_agent/reexport_agent.py", "schema_agent/nlp/__init__.py")));
    assert!(pairs.contains(&("schema_agent/agents.py", "schema_agent/text2r/sql_materializer.py")));
    assert!(pairs.contains(&(
        "schema_agent/agents.py",
        "schema_agent/text2r/triplet_extractor_symbolic.py"
    )));
    assert!(pairs.contains(&(
        "schema_agent/text2r/normalizers/__init__.py",
        "schema_agent/text2r/normalizers/currency_normalizer.py"
    )));
}

#[test]
fn python_class_names_resolve_to_no_module() {
    let edges = graph(&python_package_files(), 50);
    assert!(edges
        .iter()
        .all(|edge| !edge.target_path.contains("EntityExtractor")));
    let reexport = edges
        .iter()
        .find(|edge| {
            edge.source_path == "schema_agent/reexport_agent.py" && edge.kind == "python_reexport"
        })
        .unwrap();
    assert_eq!(reexport.target_path, "schema_agent/nlp/entity_extractor.py");
    assert_eq!(reexport.reason, "python re-export through `schema_agent/nlp/__init__.py`");
}

#[test]
fn related_dependency_edges_expand_python_package_reexports() {
    let files = vec![
        ("schema_agent/agent.py", "python", "from schema_agent.nlp import EntityExtractor\n"),
        (
            "schema_agent/nlp/__init__.py",
            "python",
            "from schema_agent.nlp.entity_extractor import EntityExtractor\n",
        ),
        ("schema_agent/nlp/entity_extractor.py", "python", "class EntityExtractor: pass\n"),
    ];
    let full = graph(&files, usize::MAX);
    let edges = related_dependency_edges(
        &full,
        &vec!["schema_agent/agent.py".to_string()],
        &DependencyOptions { limit: 10 },
    );
    let triples: Vec<(&str, &str, &str)> = edges
        .iter()
        .map(|edge| (edge.source_path.as_str(), edge.target_path.as_str(), edge.kind.as_str()))
        .collect();
    assert!(triples.contains(&("schema_agent/agent.py", "schema_agent/nlp/__init__.py", "imports")));
    assert!(triples.contains(&(
        "schema_agent/agent.py",
        "schema_agent/nlp/entity_extractor.py",
        "python_reexport"
    )));
    assert_eq!(
        edges
            .iter()
            .find(|edge| edge.kind == "python_reexport")
            .map(|edge| edge.target_path.as_str()),
        Some("schema_agent/nlp/entity_extractor.py")
    );
}

#[test]
fn related_dependency_edges_return_incoming_and_outgoing_edges() {
    let files = vec![
        (
            "src/app.ts",
            "typescript",
            "import { requireSession } from './auth/session';\nexport const app = requireSession();\n",
        ),
        (
            "src/auth/session.ts",
            "typescript",
            "import { parseCookie } from './cookies';\nexport function requireSession() { return parseCookie(); }\n",
        ),
        ("src/auth/cookies.ts", "typescript", "export function parseCookie() { return true; }\n"),
    ];
    let full = graph(&files, usize::MAX);
    let edges = related_dependency_edges(
        &full,
        &vec!["src/auth/session.ts".to_string()],
        &DependencyOptions { limit: 10 },
    );
    let pairs: Vec<(&str, &str)> = edges
        .iter()
        .map(|edge| (edge.source_path.as_str(), edge.target_path.as_str()))
        .collect();
    assert!(pairs.contains(&("src/auth/session.ts", "src/auth/cookies.ts")));
    assert!(pairs.contains(&("src/app.ts", "src/auth/session.ts")));
    assert_eq!(pairs[0], ("src/app.ts", "src/auth/session.ts"));
    assert_eq!(pairs.len(), 2);

    let none = related_dependency_edges(&full, &vec![String::new()], &DependencyOptions { limit: 10 });
    assert!(none.is_empty());
    let one = related_dependency_edges(
        &full,
        &vec!["src/auth/session.ts".to_string()],
        &DependencyOptions { limit: 0 },
    );
    assert_eq!(one.len(), 1);
}

#[test]
fn anchor_rank_puts_incoming_edges_first() {
    assert_eq!(edge_anchor_rank(false, true), 0);
    assert_eq!(edge_anchor_rank(true, false), 1);
    assert_eq!(edge_anchor_rank(true, true), 2);
    assert_eq!(edge_anchor_rank(false, false), 3);
}
