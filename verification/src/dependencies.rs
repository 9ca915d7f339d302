//! Import discovery and resolution of local dependency edges.
use vstd::prelude::*;

use crate::inventory::{FileEntryView, FileInventoryEntry};
use crate::model::{opt_view, str_views, vec_views, FileRole};
use crate::strs::contains_string;
use crate::text::{is_ws, trim_end, trim_start};
use crate::paths::{
    comp_views, components, components_exec, join, join_exec, join_slash, join_slash_exec,
    normals, normals_exec, parent_comps, parent_exec, part_comp, parts_comps, split_char, split_scan,
    has_root, Comp, CompView, CUR_DIR, NORMAL, PARENT_DIR, ROOT,
};
use crate::text::{
    before_char, before_char_exec, chars_of, char_run, char_run_exec, ends_with, ends_with_str,
    extend_chars, extend_str, first_word, first_word_exec, lemma_char_run_strip,
    lemma_lex_asymmetric, lemma_lex_irreflexive, lemma_lex_total, lemma_lex_transitive, lex_lt,
    lines, lines_exec, quoted_value, quoted_value_exec, replace_char, replace_char_exec,
    replace_str, replace_str_exec, rsplit_once, rsplit_once_str, slice_of, split_once,
    split_once_str, starts_with, starts_with_str, string_of, strip_prefix, strip_prefix_str, trim,
    trim_start_matches, trim_start_matches_str, trim_vec,
};

verus! {

/// The precision edge overlay schema version.
pub const PRECISION_EDGES_SCHEMA_VERSION: u32 = 1;

/// Options for dependency edge queries.
#[derive(Debug, Clone, Copy, PartialEq, Eq, Structural)]
pub struct DependencyOptions {
    pub limit: usize,
}

impl Default for DependencyOptions {
    fn default() -> (o: DependencyOptions)
        ensures
            o.limit == 50,
    {
        DependencyOptions { limit: 50 }
    }
}

/// Where the precision edge overlay of a repository lives, below its
/// canonical root.
pub fn precision_edges_path(canonical_root: &str) -> (r: String)
    ensures
        r@ == join(join(canonical_root@, ".ctxpack"@), "precision-edges.json"@),
{
    let rv = chars_of(canonical_root);
    let a = join_exec(&rv, ".ctxpack");
    let b = join_exec(&a, "precision-edges.json");
    string_of(&b)
}

/// The default precision edge type.
pub fn default_precision_edge_type() -> (r: String)
    ensures
        r@ == "references"@,
{
    String::from_str("references")
}

/// Characters kept in a precision edge type; others become `_`.
pub open spec fn edge_type_char(c: char) -> char {
    if crate::text::is_alnum(c) || c == '_' || c == '-' {
        crate::text::to_lower(c)
    } else {
        '_'
    }
}

/// A precision edge type: trimmed, ASCII-lowercased, with every character
/// other than ASCII alphanumerics, `_` and `-` replaced by `_`; empty becomes
/// `references`.
pub open spec fn edge_type(value: Seq<char>) -> Seq<char> {
    let v = trim(value);
    if v.len() == 0 {
        "references"@
    } else {
        v.map_values(|c: char| edge_type_char(c))
    }
}

/// Executable `edge_type`.
pub fn precision_edge_type(value: &str) -> (r: String)
    ensures
        r@ == edge_type(value@),
{
    let vv = chars_of(value);
    let v = trim_vec(&vv);
    if v.len() == 0 {
        return default_precision_edge_type();
    }
    let mut out: Vec<char> = Vec::new();
    let mut i: usize = 0;
    while i < v.len()
        invariant
            i <= v@.len(),
            out@ == v@.take(i as int).map_values(|c: char| edge_type_char(c)),
        decreases v.len() - i,
    {
        let c = v[i];
        let k = if crate::text::alnum(c) || c == '_' || c == '-' {
            crate::text::lower_char(c)
        } else {
            '_'
        };
        out.push(k);
        i += 1;
        assert(out@ =~= v@.take(i as int).map_values(|c: char| edge_type_char(c)));
    }
    assert(v@.take(v@.len() as int) =~= v@);
    string_of(&out)
}

/// Languages whose imports are resolved.
pub open spec fn dependency_language(l: Seq<char>) -> bool {
    l == "typescript"@ || l == "javascript"@ || l == "python"@ || l == "rust"@ || l == "java"@
        || l == "kotlin"@
}

/// Files that take part in the dependency graph: not generated or ignored,
/// source or test, in a language whose imports are resolved.
pub open spec fn safe_dependency_file(f: FileEntryView) -> bool {
    !f.generated && !f.ignored && (f.role == FileRole::Source || f.role == FileRole::Test) && match
        f.language {
        Some(l) => dependency_language(l),
        None => false,
    }
}

/// Executable `safe_dependency_file`.
pub fn is_safe_dependency_file(f: &FileInventoryEntry) -> (b: bool)
    ensures
        b == safe_dependency_file(f@),
{
    if f.generated || f.ignored || !(f.role == FileRole::Source || f.role == FileRole::Test) {
        return false;
    }
    match &f.language {
        Some(l) => {
            let v = chars_of(l.as_str());
            crate::text::eq_str(&v, "typescript") || crate::text::eq_str(&v, "javascript")
                || crate::text::eq_str(&v, "python") || crate::text::eq_str(&v, "rust")
                || crate::text::eq_str(&v, "java") || crate::text::eq_str(&v, "kotlin")
        },
        None => false,
    }
}

// ---------------------------------------------------------------------
// Imports
// ---------------------------------------------------------------------
/// The bits of the `f32` confidence values of imports.
pub const CONFIDENCE_095: u32 = 0x3f73_3333;

pub const CONFIDENCE_090: u32 = 0x3f66_6666;

pub const CONFIDENCE_080: u32 = 0x3f4c_cccd;

pub const CONFIDENCE_075: u32 = 0x3f40_0000;

pub const CONFIDENCE_070: u32 = 0x3f33_3333;

/// An import found in a file: the raw target, the language label, and the
/// bits of its `f32` confidence.
pub struct ImportRef {
    pub raw: Vec<char>,
    pub language: &'static str,
    pub confidence_bits: u32,
}

pub ghost struct ImportView {
    pub raw: Seq<char>,
    pub language: Seq<char>,
    pub confidence_bits: u32,
}

pub open spec fn import_views(v: Seq<ImportRef>) -> Seq<ImportView> {
    v.map_values(|i: ImportRef| ImportView { raw: i.raw@, language: i.language@, confidence_bits: i.confidence_bits })
}

pub open spec fn imp(raw: Seq<char>, language: Seq<char>, bits: u32) -> Seq<ImportView> {
    seq![ImportView { raw, language, confidence_bits: bits }]
}

pub open spec fn quoted_import(text: Seq<char>, bits: u32) -> Seq<ImportView> {
    match quoted_value(text) {
        Some(raw) => imp(raw, "javascript/typescript"@, bits),
        None => seq![],
    }
}

/// The imports of a JavaScript or TypeScript line: the module of an
/// `import` statement, then any `require(` and `import(` targets.
pub open spec fn js_line_imports(line: Seq<char>) -> Seq<ImportView> {
    let t = trim(line);
    if starts_with(t, "//"@) {
        seq![]
    } else {
        let first = if starts_with(t, "import "@) {
            match rsplit_once(t, " from "@) {
                Some((_, after)) => quoted_import(after, CONFIDENCE_095),
                None => quoted_import(t, CONFIDENCE_090),
            }
        } else {
            seq![]
        };
        let req = match split_once(t, "require("@) {
            Some((_, rest)) => quoted_import(rest, CONFIDENCE_080),
            None => seq![],
        };
        let dynamic = match split_once(t, "import("@) {
            Some((_, rest)) => quoted_import(rest, CONFIDENCE_080),
            None => seq![],
        };
        first + req + dynamic
    }
}

/// Leading dots of a relative Python module become `.` or `..` steps.
pub open spec fn dot_steps(dots: nat) -> Seq<char> {
    if dots <= 1 {
        "."@
    } else {
        join_slash(Seq::new((dots - 1) as nat, |i: int| ".."@))
    }
}

/// A Python module as a path: dots become `/`; a relative module's leading
/// dots become `.` (one dot) or `..` steps (one per extra dot).
pub open spec fn python_module_path(module: Seq<char>) -> Seq<char> {
    if module.len() > 0 && module[0] == '.' {
        let dots = char_run(module, '.');
        let rest = replace_char(trim_start_matches(module, seq!['.']), '.', "/"@);
        if rest.len() > 0 {
            dot_steps(dots) + seq!['/'] + rest
        } else {
            dot_steps(dots)
        }
    } else {
        replace_char(module, '.', "/"@)
    }
}

pub open spec fn py_import(module: Seq<char>, bits: u32) -> Seq<ImportView> {
    imp(python_module_path(module), "python"@, bits)
}

/// The imports of comma-separated `import` parts.
pub open spec fn python_parts_imports(parts: Seq<Seq<char>>) -> Seq<ImportView>
    decreases parts.len(),
{
    if parts.len() == 0 {
        seq![]
    } else {
        let m = first_word(parts.last());
        python_parts_imports(parts.drop_last()) + if m.len() > 0 {
            py_import(m, CONFIDENCE_075)
        } else {
            seq![]
        }
    }
}

/// A name of a `from .. import` list: the first word of the part, with
/// parentheses read as spaces.
pub open spec fn python_import_name(part: Seq<char>) -> Seq<char> {
    first_word(replace_char(replace_char(part, '(', " "@), ')', " "@))
}

/// The names of a `from <module> import <names>` line, each as a possible
/// submodule below the module's path `base`; `*` names none.
pub open spec fn python_from_names(base: Seq<char>, parts: Seq<Seq<char>>) -> Seq<ImportView>
    decreases parts.len(),
{
    if parts.len() == 0 {
        seq![]
    } else {
        let n = python_import_name(parts.last());
        python_from_names(base, parts.drop_last()) + if n.len() > 0 && n != "*"@ {
            imp(base + seq!['/'] + n, "python"@, CONFIDENCE_080)
        } else {
            seq![]
        }
    }
}

/// The imports of a Python line: for `from <module> import <names>`, the
/// module (a package resolves to its `__init__.py`) and then each name as a
/// possible submodule; for `import <modules>`, each module.
pub open spec fn python_line_imports(line: Seq<char>) -> Seq<ImportView> {
    let t = trim(line);
    if starts_with(t, "#"@) {
        seq![]
    } else {
        match strip_prefix(t, "from "@) {
            Some(rest) => match split_once(rest, " import "@) {
                Some((module, names)) => if trim(module).len() > 0 {
                    py_import(trim(module), CONFIDENCE_090) + python_from_names(
                        python_module_path(trim(module)),
                        crate::paths::split_char(names, ','),
                    )
                } else {
                    seq![]
                },
                None => seq![],
            },
            None => match strip_prefix(t, "import "@) {
                Some(rest) => python_parts_imports(crate::paths::split_char(rest, ',')),
                None => seq![],
            },
        }
    }
}

/// The imports of a Rust line: `mod` declarations and `crate::` or
/// `super::` uses.
pub open spec fn rust_line_imports(line: Seq<char>) -> Seq<ImportView> {
    let t0 = trim(line);
    if starts_with(t0, "//"@) {
        seq![]
    } else {
        let t = match strip_prefix(t0, "pub "@) {
            Some(r) => r,
            None => t0,
        };
        match strip_prefix(t, "mod "@) {
            Some(rest) => imp("./"@ + trim(before_char(rest, ';')), "rust"@, CONFIDENCE_090),
            None => match strip_prefix(t, "use "@) {
                Some(rest) => {
                    let path = before_char(rest, ';');
                    if starts_with(path, "crate::"@) || starts_with(path, "super::"@) {
                        imp(trim(path), "rust"@, CONFIDENCE_070)
                    } else {
                        seq![]
                    }
                },
                None => seq![],
            },
        }
    }
}

/// The imports of a Java line: non-wildcard `import` targets as paths.
pub open spec fn java_line_imports(line: Seq<char>) -> Seq<ImportView> {
    let t = trim(line);
    if starts_with(t, "//"@) {
        seq![]
    } else {
        match strip_prefix(t, "import "@) {
            None => seq![],
            Some(rest0) => {
                let rest = match strip_prefix(rest0, "static "@) {
                    Some(r) => r,
                    None => rest0,
                };
                let module = trim(before_char(rest, ';'));
                if module.len() == 0 || ends_with(module, ".*"@) {
                    seq![]
                } else {
                    imp(replace_char(module, '.', "/"@), "java"@, CONFIDENCE_090)
                }
            },
        }
    }
}

/// Replacing a character by a one-character text keeps the length and
/// changes exactly the positions that held that character.
pub proof fn lemma_replace_char_pointwise(s: Seq<char>, c: char, d: char)
    ensures
        replace_char(s, c, seq![d]).len() == s.len(),
        forall|i: int| 0 <= i < s.len() ==> #[trigger] replace_char(s, c, seq![d])[i] == if s[i] == c {
            d
        } else {
            s[i]
        },
    decreases s.len(),
{
    if s.len() > 0 {
        lemma_replace_char_pointwise(s.drop_last(), c, d);
        let r = replace_char(s.drop_last(), c, seq![d]);
        let t = if s.last() == c { seq![d] } else { seq![s.last()] };
        assert forall|i: int| 0 <= i < s.len() implies #[trigger] (r + t)[i] == if s[i] == c { d } else { s[i] } by {
            if i < s.len() - 1 {
                assert((r + t)[i] == r[i]);
                assert(s.drop_last()[i] == s[i]);
            } else {
                assert((r + t)[i] == t[0]);
            }
        }
    }
}

/// A Java import's target never keeps a `.`: every extracted Java import
/// is a path, the module with each `.` read as `/`.
pub proof fn lemma_java_imports_are_paths(line: Seq<char>)
    ensures
        forall|k: int| 0 <= k < java_line_imports(line).len() ==> !(#[trigger] java_line_imports(line)[k]).raw.contains('.'),
{
    reveal_strlit("/");
    assert("/"@ == seq!['/']);
    let t = trim(line);
    if !starts_with(t, "//"@) {
        if let Some(rest0) = strip_prefix(t, "import "@) {
            let rest = match strip_prefix(rest0, "static "@) {
                Some(r) => r,
                None => rest0,
            };
            let module = trim(before_char(rest, ';'));
            lemma_replace_char_pointwise(module, '.', '/');
            let r = replace_char(module, '.', "/"@);
            assert forall|i: int| 0 <= i < r.len() implies r[i] != '.' by {
                assert(r[i] == if module[i] == '.' { '/' } else { module[i] });
            }
        }
    }
}

/// `import <module>;` on a Java line, for a module name without spaces or
/// `;` that is not a wildcard, gives exactly one Java import: the module
/// with each `.` read as `/` (so `import com.acme.util.Strings;` gives
/// `com/acme/util/Strings`).
pub proof fn lemma_java_import_line(m: Seq<char>)
    requires
        m.len() > 0,
        forall|i: int| 0 <= i < m.len() ==> (#[trigger] m[i]) != ';' && !is_ws(m[i]),
        !ends_with(m, ".*"@),
    ensures
        java_line_imports("import "@ + m + ";"@).len() == 1,
        java_line_imports("import "@ + m + ";"@)[0].language == "java"@,
        java_line_imports("import "@ + m + ";"@)[0].raw.len() == m.len(),
        forall|i: int| 0 <= i < m.len() ==> #[trigger] java_line_imports("import "@ + m + ";"@)[0].raw[i]
            == if m[i] == '.' { '/' } else { m[i] },
{
    reveal_strlit("import ");
    reveal_strlit("static ");
    reveal_strlit(";");
    reveal_strlit("//");
    reveal_strlit("/");
    let line = "import "@ + m + ";"@;
    assert(line[0] == 'i');
    assert(line[line.len() - 1] == ';');
    assert(trim_start(line) == line);
    assert(trim_end(line) == line);
    assert(trim(line) == line);
    assert(line[0] != "//"@[0]);
    assert(!starts_with(line, "//"@));
    assert(line.subrange(0, 7) =~= "import "@);
    let rest0 = m + ";"@;
    assert(line.skip(7) =~= rest0);
    assert(strip_prefix(line, "import "@) == Some(rest0));
    if rest0.len() >= 7 {
        if 6 < m.len() {
            assert(rest0[6] == m[6]);
            assert(!is_ws(m[6]));
        } else {
            assert(rest0[6] == ';');
        }
        assert(rest0.subrange(0, 7)[6] != "static "@[6]);
    }
    assert(!starts_with(rest0, "static "@));
    assert(strip_prefix(rest0, "static "@) is None);
    assert(crate::text::matches_at(rest0, seq![';'], m.len() as int)) by {
        assert(rest0.subrange(m.len() as int, (m.len() + 1) as int) =~= seq![';']);
    }
    assert forall|j: int| 0 <= j < m.len() implies !crate::text::matches_at(rest0, seq![';'], j) by {
        assert(rest0.subrange(j, j + 1)[0] == m[j]);
    }
    crate::text::lemma_first_occ_unique(rest0, seq![';'], m.len() as int);
    assert(rest0.take(m.len() as int) =~= m);
    assert(before_char(rest0, ';') == m);
    assert(trim_start(m) == m);
    assert(trim_end(m) == m);
    assert(trim(m) == m);
    assert("/"@ == seq!['/']);
    lemma_replace_char_pointwise(m, '.', '/');
}

/// The imports of a Kotlin line: non-wildcard `import` targets as paths.
pub open spec fn kotlin_line_imports(line: Seq<char>) -> Seq<ImportView> {
    let t = trim(line);
    if starts_with(t, "//"@) {
        seq![]
    } else {
        match strip_prefix(t, "import "@) {
            None => seq![],
            Some(rest) => {
                let module = trim(first_word(rest));
                if module.len() == 0 || ends_with(module, ".*"@) {
                    seq![]
                } else {
                    imp(replace_char(module, '.', "/"@), "kotlin"@, CONFIDENCE_090)
                }
            },
        }
    }
}

/// A Kotlin import's target never keeps a `.` either: it is the module
/// with each `.` read as `/`.
pub proof fn lemma_kotlin_imports_are_paths(line: Seq<char>)
    ensures
        forall|k: int| 0 <= k < kotlin_line_imports(line).len() ==> !(#[trigger] kotlin_line_imports(line)[k]).raw.contains('.'),
{
    reveal_strlit("/");
    assert("/"@ == seq!['/']);
    let t = trim(line);
    if !starts_with(t, "//"@) {
        if let Some(rest) = strip_prefix(t, "import "@) {
            let module = trim(first_word(rest));
            lemma_replace_char_pointwise(module, '.', '/');
            let r = replace_char(module, '.', "/"@);
            assert forall|i: int| 0 <= i < r.len() implies r[i] != '.' by {
                assert(r[i] == if module[i] == '.' { '/' } else { module[i] });
            }
        }
    }
}

/// Import scanners.
#[derive(Debug, Clone, Copy, PartialEq, Eq, Structural)]
pub enum ImportLang {
    JsLike,
    Python,
    Rust,
    Java,
    Kotlin,
}

pub open spec fn line_imports(lang: ImportLang, line: Seq<char>) -> Seq<ImportView> {
    match lang {
        ImportLang::JsLike => js_line_imports(line),
        ImportLang::Python => python_line_imports(line),
        ImportLang::Rust => rust_line_imports(line),
        ImportLang::Java => java_line_imports(line),
        ImportLang::Kotlin => kotlin_line_imports(line),
    }
}

pub open spec fn imports_of_lines(lang: ImportLang, ls: Seq<Seq<char>>) -> Seq<ImportView>
    decreases ls.len(),
{
    if ls.len() == 0 {
        seq![]
    } else {
        imports_of_lines(lang, ls.drop_last()) + line_imports(lang, ls.last())
    }
}

/// The import scanner of a language name.
pub open spec fn import_lang_of(language: Option<Seq<char>>) -> Option<ImportLang> {
    match language {
        Some(l) => if l == "typescript"@ || l == "javascript"@ {
            Some(ImportLang::JsLike)
        } else if l == "python"@ {
            Some(ImportLang::Python)
        } else if l == "rust"@ {
            Some(ImportLang::Rust)
        } else if l == "java"@ {
            Some(ImportLang::Java)
        } else if l == "kotlin"@ {
            Some(ImportLang::Kotlin)
        } else {
            None
        },
        None => None,
    }
}

/// The imports of a file, line by line.
pub open spec fn file_imports(language: Option<Seq<char>>, content: Seq<char>) -> Seq<ImportView> {
    match import_lang_of(language) {
        Some(l) => imports_of_lines(l, lines(content)),
        None => seq![],
    }
}

fn push_import(out: &mut Vec<ImportRef>, raw: Vec<char>, language: &'static str, bits: u32)
    ensures
        import_views(final(out)@) == import_views(old(out)@) + imp(raw@, language@, bits),
{
    out.push(ImportRef { raw, language, confidence_bits: bits });
    assert(import_views(out@) =~= import_views(old(out)@) + imp(raw@, language@, bits));
}

fn push_quoted_import(out: &mut Vec<ImportRef>, text: &[char], bits: u32)
    ensures
        import_views(final(out)@) == import_views(old(out)@) + quoted_import(text@, bits),
{
    match quoted_value_exec(text) {
        Some(raw) => push_import(out, raw, "javascript/typescript", bits),
        None => {
            assert(import_views(out@) =~= import_views(out@) + Seq::<ImportView>::empty());
        },
    }
}

fn js_line_imports_exec(line: &[char], out: &mut Vec<ImportRef>)
    ensures
        import_views(final(out)@) == import_views(old(out)@) + js_line_imports(line@),
{
    let t = trim_vec(line);
    if starts_with_str(&t, "//") {
        assert(import_views(out@) =~= import_views(out@) + Seq::<ImportView>::empty());
        return;
    }
    let ghost o0 = import_views(out@);
    if starts_with_str(&t, "import ") {
        match rsplit_once_str(&t, " from ") {
            Some((_, after)) => push_quoted_import(out, &after, CONFIDENCE_095),
            None => push_quoted_import(out, &t, CONFIDENCE_090),
        }
    }
    let ghost o1 = import_views(out@);
    match split_once_str(&t, "require(") {
        Some((_, rest)) => push_quoted_import(out, &rest, CONFIDENCE_080),
        None => {},
    }
    let ghost o2 = import_views(out@);
    match split_once_str(&t, "import(") {
        Some((_, rest)) => push_quoted_import(out, &rest, CONFIDENCE_080),
        None => {},
    }
    proof {
        let first = if starts_with(t@, "import "@) {
            match rsplit_once(t@, " from "@) {
                Some((_, after)) => quoted_import(after, CONFIDENCE_095),
                None => quoted_import(t@, CONFIDENCE_090),
            }
        } else {
            seq![]
        };
        assert(o1 =~= o0 + first);
        let req = match split_once(t@, "require("@) {
            Some((_, rest)) => quoted_import(rest, CONFIDENCE_080),
            None => seq![],
        };
        assert(o2 =~= o1 + req);
        assert(import_views(out@) =~= o0 + js_line_imports(line@));
    }
}

fn dot_steps_exec(dots: usize) -> (r: Vec<char>)
    ensures
        r@ == dot_steps(dots as nat),
{
    if dots <= 1 {
        let mut v: Vec<char> = Vec::new();
        extend_str(&mut v, ".");
        assert(v@ =~= "."@);
        return v;
    }
    let ghost parts = Seq::new((dots - 1) as nat, |i: int| ".."@);
    let mut out: Vec<char> = Vec::new();
    let mut i: usize = 0;
    while i < dots - 1
        invariant
            dots > 1,
            i <= dots - 1,
            parts == Seq::new((dots - 1) as nat, |i: int| ".."@),
            out@ == join_slash(parts.take(i as int)),
        decreases dots - 1 - i,
    {
        assert(parts.take(i + 1).drop_last() =~= parts.take(i as int));
        if i > 0 {
            out.push('/');
        }
        extend_str(&mut out, "..");
        i += 1;
        assert(out@ =~= join_slash(parts.take(i as int)));
    }
    assert(parts.take(parts.len() as int) =~= parts);
    out
}

/// Executable `python_module_path`.
pub fn python_module_to_path(module: &[char]) -> (r: Vec<char>)
    ensures
        r@ == python_module_path(module@),
{
    if module.len() > 0 && module[0] == '.' {
        let dots = char_run_exec(module, '.');
        proof {
            lemma_char_run_strip(module@, '.');
        }
        let stripped = slice_of(module, dots, module.len());
        let rest = replace_char_exec(&stripped, '.', "/");
        let mut path = dot_steps_exec(dots);
        if rest.len() > 0 {
            path.push('/');
            extend_chars(&mut path, &rest);
        }
        path
    } else {
        replace_char_exec(module, '.', "/")
    }
}

fn python_line_imports_exec(line: &[char], out: &mut Vec<ImportRef>)
    ensures
        import_views(final(out)@) == import_views(old(out)@) + python_line_imports(line@),
{
    let t = trim_vec(line);
    let ghost o0 = import_views(out@);
    if starts_with_str(&t, "#") {
        assert(import_views(out@) =~= o0 + python_line_imports(line@));
        return;
    }
    match strip_prefix_str(&t, "from ") {
        Some(rest) => match split_once_str(&rest, " import ") {
            Some((module, names)) => {
                let m = trim_vec(&module);
                if m.len() > 0 {
                    let p = python_module_to_path(&m);
                    let base = p.clone();
                    push_import(out, p, "python", CONFIDENCE_090);
                    let ghost o1 = import_views(out@);
                    let parts = crate::paths::split_char_exec(&names, ',');
                    let ghost pv = vec_views(parts@);
                    let mut k: usize = 0;
                    while k < parts.len()
                        invariant
                            k <= parts@.len(),
                            pv == vec_views(parts@),
                            base@ == python_module_path(m@),
                            import_views(out@) == o1 + python_from_names(base@, pv.take(k as int)),
                        decreases parts.len() - k,
                    {
                        assert(pv.take(k + 1).drop_last() =~= pv.take(k as int));
                        assert(pv.take(k + 1).last() == parts@[k as int]@);
                        let a = replace_char_exec(&parts[k], '(', " ");
                        let b = replace_char_exec(&a, ')', " ");
                        let n = first_word_exec(&b);
                        if n.len() > 0 && !crate::text::eq_str(&n, "*") {
                            let mut raw = slice_of(&base, 0, base.len());
                            raw.push('/');
                            extend_chars(&mut raw, &n);
                            assert(base@.subrange(0, base@.len() as int) =~= base@);
                            assert(raw@ =~= base@ + seq!['/'] + n@);
                            push_import(out, raw, "python", CONFIDENCE_080);
                        }
                        k += 1;
                        assert(import_views(out@) =~= o1 + python_from_names(base@, pv.take(k as int)));
                    }
                    assert(pv.take(pv.len() as int) =~= pv);
                } else {
                    assert(import_views(out@) =~= o0 + python_line_imports(line@));
                }
            },
            None => {
                assert(import_views(out@) =~= o0 + python_line_imports(line@));
            },
        },
        None => match strip_prefix_str(&t, "import ") {
            Some(rest) => {
                let parts = crate::paths::split_char_exec(&rest, ',');
                let ghost pv = vec_views(parts@);
                let mut k: usize = 0;
                while k < parts.len()
                    invariant
                        k <= parts@.len(),
                        pv == vec_views(parts@),
                        import_views(out@) == o0 + python_parts_imports(pv.take(k as int)),
                    decreases parts.len() - k,
                {
                    assert(pv.take(k + 1).drop_last() =~= pv.take(k as int));
                    assert(pv.take(k + 1).last() == parts@[k as int]@);
                    let m = first_word_exec(&parts[k]);
                    let ghost before = import_views(out@);
                    if m.len() > 0 {
                        let p = python_module_to_path(&m);
                        push_import(out, p, "python", CONFIDENCE_075);
                    }
                    k += 1;
                    assert(import_views(out@) =~= o0 + python_parts_imports(pv.take(k as int)));
                }
                assert(pv.take(pv.len() as int) =~= pv);
            },
            None => {
                assert(import_views(out@) =~= o0 + python_line_imports(line@));
            },
        },
    }
}

fn rust_line_imports_exec(line: &[char], out: &mut Vec<ImportRef>)
    ensures
        import_views(final(out)@) == import_views(old(out)@) + rust_line_imports(line@),
{
    let t0 = trim_vec(line);
    let ghost o0 = import_views(out@);
    if starts_with_str(&t0, "//") {
        assert(import_views(out@) =~= o0 + rust_line_imports(line@));
        return;
    }
    let t = match strip_prefix_str(&t0, "pub ") {
        Some(r) => r,
        None => t0,
    };
    match strip_prefix_str(&t, "mod ") {
        Some(rest) => {
            let b = before_char_exec(&rest, ';');
            let m = trim_vec(&b);
            let mut raw: Vec<char> = Vec::new();
            extend_str(&mut raw, "./");
            extend_chars(&mut raw, &m);
            push_import(out, raw, "rust", CONFIDENCE_090);
        },
        None => match strip_prefix_str(&t, "use ") {
            Some(rest) => {
                let path = before_char_exec(&rest, ';');
                if starts_with_str(&path, "crate::") || starts_with_str(&path, "super::") {
                    let p = trim_vec(&path);
                    push_import(out, p, "rust", CONFIDENCE_070);
                } else {
                    assert(import_views(out@) =~= o0 + rust_line_imports(line@));
                }
            },
            None => {
                assert(import_views(out@) =~= o0 + rust_line_imports(line@));
            },
        },
    }
}

fn java_line_imports_exec(line: &[char], out: &mut Vec<ImportRef>)
    ensures
        import_views(final(out)@) == import_views(old(out)@) + java_line_imports(line@),
{
    let t = trim_vec(line);
    let ghost o0 = import_views(out@);
    if starts_with_str(&t, "//") {
        assert(import_views(out@) =~= o0 + java_line_imports(line@));
        return;
    }
    match strip_prefix_str(&t, "import ") {
        None => {
            assert(import_views(out@) =~= o0 + java_line_imports(line@));
        },
        Some(rest0) => {
            let rest = match strip_prefix_str(&rest0, "static ") {
                Some(r) => r,
                None => rest0,
            };
            let b = before_char_exec(&rest, ';');
            let module = trim_vec(&b);
            if module.len() == 0 || ends_with_str(&module, ".*") {
                assert(import_views(out@) =~= o0 + java_line_imports(line@));
            } else {
                let raw = replace_char_exec(&module, '.', "/");
                push_import(out, raw, "java", CONFIDENCE_090);
            }
        },
    }
}

fn kotlin_line_imports_exec(line: &[char], out: &mut Vec<ImportRef>)
    ensures
        import_views(final(out)@) == import_views(old(out)@) + kotlin_line_imports(line@),
{
    let t = trim_vec(line);
    let ghost o0 = import_views(out@);
    if starts_with_str(&t, "//") {
        assert(import_views(out@) =~= o0 + kotlin_line_imports(line@));
        return;
    }
    match strip_prefix_str(&t, "import ") {
        None => {
            assert(import_views(out@) =~= o0 + kotlin_line_imports(line@));
        },
        Some(rest) => {
            let w = first_word_exec(&rest);
            let module = trim_vec(&w);
            if module.len() == 0 || ends_with_str(&module, ".*") {
                assert(import_views(out@) =~= o0 + kotlin_line_imports(line@));
            } else {
                let raw = replace_char_exec(&module, '.', "/");
                push_import(out, raw, "kotlin", CONFIDENCE_090);
            }
        },
    }
}

fn import_lang_of_exec(language: &Option<String>) -> (r: Option<ImportLang>)
    ensures
        r == import_lang_of(opt_view(*language)),
{
    match language {
        Some(l) => {
            let v = chars_of(l.as_str());
            if crate::text::eq_str(&v, "typescript") || crate::text::eq_str(&v, "javascript") {
                Some(ImportLang::JsLike)
            } else if crate::text::eq_str(&v, "python") {
                Some(ImportLang::Python)
            } else if crate::text::eq_str(&v, "rust") {
                Some(ImportLang::Rust)
            } else if crate::text::eq_str(&v, "java") {
                Some(ImportLang::Java)
            } else if crate::text::eq_str(&v, "kotlin") {
                Some(ImportLang::Kotlin)
            } else {
                None
            }
        },
        None => None,
    }
}

/// The imports of a file, by its language, in line order.
pub fn imports_for_file(language: &Option<String>, content: &str) -> (out: Vec<ImportRef>)
    ensures
        import_views(out@) == file_imports(opt_view(*language), content@),
{
    let mut out: Vec<ImportRef> = Vec::new();
    let lang = match import_lang_of_exec(language) {
        Some(l) => l,
        None => {
            assert(import_views(out@) =~= Seq::<ImportView>::empty());
            return out;
        },
    };
    let cv = chars_of(content);
    let ls = lines_exec(&cv);
    let ghost lv = vec_views(ls@);
    let mut i: usize = 0;
    assert(import_views(out@) =~= Seq::<ImportView>::empty());
    while i < ls.len()
        invariant
            i <= ls@.len(),
            lv == vec_views(ls@),
            lv == lines(content@),
            import_views(out@) == imports_of_lines(lang, lv.take(i as int)),
        decreases ls.len() - i,
    {
        assert(lv.take(i + 1).drop_last() =~= lv.take(i as int));
        assert(lv.take(i + 1).last() == ls@[i as int]@);
        match lang {
            ImportLang::JsLike => js_line_imports_exec(&ls[i], &mut out),
            ImportLang::Python => python_line_imports_exec(&ls[i], &mut out),
            ImportLang::Rust => rust_line_imports_exec(&ls[i], &mut out),
            ImportLang::Java => java_line_imports_exec(&ls[i], &mut out),
            ImportLang::Kotlin => kotlin_line_imports_exec(&ls[i], &mut out),
        }
        i += 1;
    }
    assert(lv.take(lv.len() as int) =~= lv);
    out
}

// ---------------------------------------------------------------------
// Resolution
// ---------------------------------------------------------------------
pub open spec fn join_step(p: Option<Seq<Seq<char>>>, c: CompView) -> Option<Seq<Seq<char>>> {
    match p {
        None => None,
        Some(parts) => if c.0 == NORMAL {
            Some(parts.push(c.1))
        } else if c.0 == CUR_DIR {
            Some(parts)
        } else if c.0 == PARENT_DIR {
            if parts.len() == 0 {
                None
            } else {
                Some(parts.drop_last())
            }
        } else {
            None
        },
    }
}

pub open spec fn join_fold(base: Seq<Seq<char>>, comps: Seq<CompView>) -> Option<Seq<Seq<char>>>
    decreases comps.len(),
{
    if comps.len() == 0 {
        Some(base)
    } else {
        join_step(join_fold(base, comps.drop_last()), comps.last())
    }
}

/// The normal components of `parent` followed by `raw`, where `.` is
/// skipped, `..` drops a component (failing when none is left) and a root
/// fails; joined with `/`.
pub open spec fn join_normalized(parent: Seq<CompView>, raw: Seq<char>) -> Option<Seq<char>> {
    match join_fold(normals(parent), components(raw)) {
        Some(p) => Some(join_slash(p)),
        None => None,
    }
}

/// Executable `join_normalized`.
pub fn join_normalized_exec(parent: &Vec<Comp>, raw: &[char]) -> (r: Option<Vec<char>>)
    ensures
        match r {
            Some(v) => join_normalized(comp_views(parent@), raw@) == Some(v@),
            None => join_normalized(comp_views(parent@), raw@) is None,
        },
{
    let mut parts = normals_exec(parent);
    let rc = components_exec(raw);
    let ghost base = normals(comp_views(parent@));
    let ghost rv = comp_views(rc@);
    let mut i: usize = 0;
    while i < rc.len()
        invariant
            i <= rc@.len(),
            rv == comp_views(rc@),
            rv == components(raw@),
            base == normals(comp_views(parent@)),
            join_fold(base, rv.take(i as int)) == Some(vec_views(parts@)),
        decreases rc.len() - i,
    {
        assert(rv.take(i + 1).drop_last() =~= rv.take(i as int));
        assert(rv.take(i + 1).last() == (rc@[i as int].kind, rc@[i as int].text@));
        let k = rc[i].kind;
        if k == NORMAL {
            parts.push(slice_of(&rc[i].text, 0, rc[i].text.len()));
            assert(rc@[i as int].text@.subrange(0, rc@[i as int].text@.len() as int)
                =~= rc@[i as int].text@);
        } else if k == CUR_DIR {
        } else if k == PARENT_DIR {
            if parts.len() == 0 {
                proof {
                    assert(join_fold(base, rv.take(i + 1)) is None);
                    lemma_join_fold_none_stays(base, rv, i as int + 1);
                    assert(join_fold(base, rv) is None);
                }
                assert(rv.take(rv.len() as int) =~= rv);
                return None;
            }
            parts.pop();
        } else {
            proof {
                assert(join_fold(base, rv.take(i + 1)) is None);
                lemma_join_fold_none_stays(base, rv, i as int + 1);
                assert(join_fold(base, rv) is None);
            }
            assert(rv.take(rv.len() as int) =~= rv);
            return None;
        }
        i += 1;
        assert(vec_views(parts@) =~= join_fold(base, rv.take(i as int))->0);
    }
    assert(rv.take(rv.len() as int) =~= rv);
    Some(join_slash_exec(&parts))
}

pub proof fn lemma_join_fold_none_stays(base: Seq<Seq<char>>, comps: Seq<CompView>, k: int)
    requires
        0 <= k <= comps.len(),
        join_fold(base, comps.take(k)) is None,
    ensures
        join_fold(base, comps) is None,
    decreases comps.len() - k,
{
    if k < comps.len() {
        assert(comps.take(k + 1).drop_last() =~= comps.take(k));
        lemma_join_fold_none_stays(base, comps, k + 1);
    } else {
        assert(comps.take(k) =~= comps);
    }
}

/// A normal path segment: not empty, not `.` or `..`, and without `/`.
pub open spec fn normal_segment(p: Seq<char>) -> bool {
    p.len() > 0 && p != seq!['.'] && p != seq!['.', '.'] && !p.contains('/')
}

/// Components whose normal ones are normal segments.
pub open spec fn normal_comps(c: Seq<CompView>) -> bool {
    forall|i: int| 0 <= i < c.len() && (#[trigger] c[i]).0 == NORMAL ==> normal_segment(c[i].1)
}

proof fn lemma_split_scan_no_sep(s: Seq<char>, sep: char)
    ensures
        forall|i: int| 0 <= i < split_scan(s, sep).0.len() ==> !(#[trigger] split_scan(s, sep).0[i]).contains(sep),
        !split_scan(s, sep).1.contains(sep),
    decreases s.len(),
{
    if s.len() > 0 {
        lemma_split_scan_no_sep(s.drop_last(), sep);
        let (done, cur) = split_scan(s.drop_last(), sep);
        if s.last() == sep {
            assert forall|i: int| 0 <= i < done.push(cur).len() implies !(#[trigger] done.push(cur)[i]).contains(sep) by {
                if i < done.len() {
                    assert(done.push(cur)[i] == done[i]);
                }
            }
            assert(!Seq::<char>::empty().contains(sep));
        } else {
            let c2 = cur.push(s.last());
            assert forall|k: int| 0 <= k < c2.len() implies c2[k] != sep by {
                if k < cur.len() {
                    assert(c2[k] == cur[k]);
                }
            }
        }
    }
}

proof fn lemma_parts_comps_normal(parts: Seq<Seq<char>>, rooted: bool)
    requires
        forall|i: int| 0 <= i < parts.len() ==> !(#[trigger] parts[i]).contains('/'),
    ensures
        normal_comps(parts_comps(parts, rooted)),
    decreases parts.len(),
{
    if parts.len() > 0 {
        let d = parts.drop_last();
        assert forall|i: int| 0 <= i < d.len() implies !(#[trigger] d[i]).contains('/') by {
            assert(d[i] == parts[i]);
        }
        lemma_parts_comps_normal(d, rooted);
        let a = parts_comps(d, rooted);
        let b = part_comp(parts.last(), parts.len() - 1, rooted);
        assert(parts[parts.len() - 1] == parts.last());
        let r = a + b;
        assert forall|i: int| 0 <= i < r.len() && (#[trigger] r[i]).0 == NORMAL implies normal_segment(r[i].1) by {
            if i < a.len() {
                assert(r[i] == a[i]);
            } else {
                assert(r[i] == b[i - a.len()]);
            }
        }
    }
}

proof fn lemma_components_normal(s: Seq<char>)
    ensures
        normal_comps(components(s)),
{
    if has_root(s) {
        let parts = split_char(s.drop_first(), '/');
        lemma_split_scan_no_sep(s.drop_first(), '/');
        let (done, cur) = split_scan(s.drop_first(), '/');
        assert forall|i: int| 0 <= i < parts.len() implies !(#[trigger] parts[i]).contains('/') by {
            if i < done.len() {
                assert(parts[i] == done[i]);
            }
        }
        lemma_parts_comps_normal(parts, true);
        let a = seq![(ROOT, Seq::<char>::empty())];
        let b = parts_comps(parts, true);
        assert forall|i: int| 0 <= i < (a + b).len() && (#[trigger] (a + b)[i]).0 == NORMAL implies normal_segment((a + b)[i].1) by {
            if i > 0 {
                assert((a + b)[i] == b[i - 1]);
            }
        }
    } else {
        let parts = split_char(s, '/');
        lemma_split_scan_no_sep(s, '/');
        let (done, cur) = split_scan(s, '/');
        assert forall|i: int| 0 <= i < parts.len() implies !(#[trigger] parts[i]).contains('/') by {
            if i < done.len() {
                assert(parts[i] == done[i]);
            }
        }
        lemma_parts_comps_normal(parts, false);
    }
}

proof fn lemma_normals_normal(c: Seq<CompView>)
    requires
        normal_comps(c),
    ensures
        forall|i: int| 0 <= i < normals(c).len() ==> normal_segment(#[trigger] normals(c)[i]),
    decreases c.len(),
{
    if c.len() > 0 {
        let d = c.drop_last();
        assert(normal_comps(d)) by {
            assert forall|i: int| 0 <= i < d.len() && (#[trigger] d[i]).0 == NORMAL implies normal_segment(d[i].1) by {
                assert(d[i] == c[i]);
            }
        }
        lemma_normals_normal(d);
        assert(c[c.len() - 1] == c.last());
        let a = normals(d);
        let b = if c.last().0 == NORMAL { seq![c.last().1] } else { Seq::<Seq<char>>::empty() };
        assert forall|i: int| 0 <= i < (a + b).len() implies normal_segment(#[trigger] (a + b)[i]) by {
            if i < a.len() {
                assert((a + b)[i] == a[i]);
            } else {
                assert((a + b)[i] == b[i - a.len()]);
            }
        }
    }
}

proof fn lemma_join_fold_normal(base: Seq<Seq<char>>, comps: Seq<CompView>)
    requires
        forall|i: int| 0 <= i < base.len() ==> normal_segment(#[trigger] base[i]),
        normal_comps(comps),
    ensures
        join_fold(base, comps) matches Some(p) ==> forall|i: int| 0 <= i < p.len() ==> normal_segment(#[trigger] p[i]),
    decreases comps.len(),
{
    if comps.len() > 0 {
        let d = comps.drop_last();
        assert(normal_comps(d)) by {
            assert forall|i: int| 0 <= i < d.len() && (#[trigger] d[i]).0 == NORMAL implies normal_segment(d[i].1) by {
                assert(d[i] == comps[i]);
            }
        }
        lemma_join_fold_normal(base, d);
        assert(comps[comps.len() - 1] == comps.last());
        match join_fold(base, d) {
            Some(parts) => {
                let c = comps.last();
                if c.0 == NORMAL {
                    assert forall|i: int| 0 <= i < parts.push(c.1).len() implies normal_segment(#[trigger] parts.push(c.1)[i]) by {
                        if i < parts.len() {
                            assert(parts.push(c.1)[i] == parts[i]);
                        }
                    }
                } else if c.0 == PARENT_DIR && parts.len() > 0 {
                    assert forall|i: int| 0 <= i < parts.drop_last().len() implies normal_segment(#[trigger] parts.drop_last()[i]) by {
                        assert(parts.drop_last()[i] == parts[i]);
                    }
                }
            },
            None => {},
        }
    }
}

/// A directory joined with a relative path is made only of normal
/// segments joined with `/`: no empty segment, no `.` or `..`, and no
/// leading `/`. A path with a root joins to nothing.
pub proof fn lemma_join_normalized_form(dir: Seq<char>, raw: Seq<char>)
    ensures
        join_normalized(components(dir), raw) is Some ==> exists|p: Seq<Seq<char>>|
            join_normalized(components(dir), raw) == Some(join_slash(p)) && forall|i: int|
                0 <= i < p.len() ==> normal_segment(#[trigger] p[i]),
        has_root(raw) ==> join_normalized(components(dir), raw) is None,
{
    lemma_components_normal(dir);
    lemma_components_normal(raw);
    lemma_normals_normal(components(dir));
    lemma_join_fold_normal(normals(components(dir)), components(raw));
    if has_root(raw) {
        let c = components(raw);
        let base = normals(components(dir));
        assert(c[0].0 == ROOT);
        assert(c.take(1).drop_last() =~= Seq::<CompView>::empty());
        assert(join_fold(base, c.take(1)) is None);
        lemma_join_fold_none_stays(base, c, 1);
    }
    if join_normalized(components(dir), raw) is Some {
        let p = join_fold(normals(components(dir)), components(raw))->0;
        assert(join_normalized(components(dir), raw) == Some(join_slash(p)));
    }
}

pub open spec fn ext_short() -> Seq<Seq<char>> {
    seq![
        "ts"@,
        "tsx"@,
        "js"@,
        "jsx"@,
        "mjs"@,
        "cjs"@,
        "py"@,
        "rs"@,
        "go"@,
        "java"@,
        "kt"@,
        "kts"@,
    ]
}

pub open spec fn ext_index() -> Seq<Seq<char>> {
    seq!["ts"@, "tsx"@, "js"@, "jsx"@, "py"@, "rs"@, "kt"@, "kts"@]
}

/// The candidate paths for an import base, in the order they are tried:
/// the base itself, the base with each file extension, then `index.*` and
/// `mod.*` inside it, and last a Python package's `__init__.py`.
pub open spec fn candidates(base: Seq<char>) -> Seq<Seq<char>> {
    seq![base] + Seq::new(12, |i: int| base + "."@ + ext_short()[i]) + Seq::new(
        16,
        |i: int|
            if i % 2 == 0 {
                base + "/index."@ + ext_index()[i / 2]
            } else {
                base + "/mod."@ + ext_index()[i / 2]
            },
    ) + seq![base + "/__init__.py"@]
}

/// `p` is the least (in string order) safe path ending with `suffix`.
pub open spec fn least_match(safe: Seq<Seq<char>>, suffix: Seq<char>, p: Seq<char>) -> bool {
    safe.contains(p) && ends_with(p, suffix) && forall|j: int|
        0 <= j < safe.len() && ends_with(#[trigger] safe[j], suffix) ==> !lex_lt(safe[j], p)
}

/// A safe path that a candidate names: the candidate itself when it is
/// safe, else the least safe path that ends with `/candidate`.
pub open spec fn hit(c: Seq<char>, safe: Seq<Seq<char>>) -> Option<Seq<char>> {
    if safe.contains(c) {
        Some(c)
    } else if exists|p: Seq<char>| least_match(safe, seq!['/'] + c, p) {
        Some(choose|p: Seq<char>| least_match(safe, seq!['/'] + c, p))
    } else {
        None
    }
}

/// The first hit among the candidates, in order.
pub open spec fn first_hit(cands: Seq<Seq<char>>, safe: Seq<Seq<char>>) -> Option<Seq<char>>
    decreases cands.len(),
{
    if cands.len() == 0 {
        None
    } else {
        match hit(cands[0], safe) {
            Some(p) => Some(p),
            None => first_hit(cands.drop_first(), safe),
        }
    }
}

/// The first safe path among the candidates of `base`.
pub open spec fn first_existing(base: Seq<char>, safe: Seq<Seq<char>>) -> Option<Seq<char>> {
    first_hit(candidates(base), safe)
}

pub proof fn lemma_least_unique(safe: Seq<Seq<char>>, suffix: Seq<char>, p: Seq<char>)
    requires
        least_match(safe, suffix, p),
    ensures
        (choose|q: Seq<char>| least_match(safe, suffix, q)) == p,
{
    let q = choose|q: Seq<char>| least_match(safe, suffix, q);
    assert(least_match(safe, suffix, q));
    let ip = choose|i: int| 0 <= i < safe.len() && safe[i] == p;
    let iq = choose|i: int| 0 <= i < safe.len() && safe[i] == q;
    assert(!lex_lt(safe[iq], p));
    assert(!lex_lt(safe[ip], q));
    lemma_lex_total(p, q);
}

fn hit_exec(c: &[char], safe: &Vec<Vec<char>>) -> (r: Option<Vec<char>>)
    ensures
        match r {
            Some(v) => hit(c@, vec_views(safe@)) == Some(v@),
            None => hit(c@, vec_views(safe@)) is None,
        },
{
    let ghost sv = vec_views(safe@);
    let mut i: usize = 0;
    while i < safe.len()
        invariant
            i <= safe@.len(),
            sv == vec_views(safe@),
            forall|j: int| 0 <= j < i ==> sv[j] != c@,
        decreases safe.len() - i,
    {
        if crate::text::eq_chars(&safe[i], c) {
            assert(sv[i as int] == c@);
            return Some(slice_of(c, 0, c.len()));
        }
        i += 1;
    }
    assert(!sv.contains(c@));
    let mut suffix: Vec<char> = Vec::new();
    suffix.push('/');
    extend_chars(&mut suffix, c);
    assert(suffix@ =~= seq!['/'] + c@);
    let mut best: Option<usize> = None;
    let mut k: usize = 0;
    while k < safe.len()
        invariant
            k <= safe@.len(),
            sv == vec_views(safe@),
            suffix@ == seq!['/'] + c@,
            match best {
                Some(b) => b < k && ends_with(sv[b as int], suffix@) && forall|j: int|
                    0 <= j < k && ends_with(#[trigger] sv[j], suffix@) ==> !lex_lt(sv[j], sv[b as int]),
                None => forall|j: int| 0 <= j < k ==> !ends_with(#[trigger] sv[j], suffix@),
            },
        decreases safe.len() - k,
    {
        if crate::text::ends_with_exec(&safe[k], &suffix) {
            match best {
                None => {
                    proof {
                        lemma_lex_irreflexive(sv[k as int]);
                    }
                    best = Some(k);
                },
                Some(b) => {
                    if crate::text::lex_lt_exec(&safe[k], &safe[b]) {
                        proof {
                            assert forall|j: int|
                                0 <= j < k + 1 && ends_with(#[trigger] sv[j], suffix@) implies !lex_lt(
                                sv[j],
                                sv[k as int],
                            ) by {
                                if j < k {
                                    lemma_lex_transitive(sv[j], sv[k as int], sv[b as int]);
                                } else {
                                    lemma_lex_irreflexive(sv[k as int]);
                                }
                            }
                        }
                        best = Some(k);
                    } else {
                        proof {
                            lemma_lex_total(sv[k as int], sv[b as int]);
                        }
                    }
                },
            }
        }
        k += 1;
    }
    match best {
        Some(b) => {
            proof {
                assert(sv[b as int] == safe@[b as int]@);
                assert(least_match(sv, suffix@, sv[b as int]));
                lemma_least_unique(sv, suffix@, sv[b as int]);
            }
            Some(slice_of(&safe[b], 0, safe[b].len()))
        },
        None => {
            proof {
                assert forall|p: Seq<char>| !least_match(sv, suffix@, p) by {
                    if least_match(sv, suffix@, p) {
                        let i = choose|i: int| 0 <= i < sv.len() && sv[i] == p;
                        assert(ends_with(sv[i], suffix@));
                    }
                }
            }
            None
        },
    }
}

fn candidates_exec(base: &[char]) -> (out: Vec<Vec<char>>)
    ensures
        vec_views(out@) == candidates(base@),
{
    let mut out: Vec<Vec<char>> = Vec::new();
    out.push(slice_of(base, 0, base.len()));
    assert(base@.subrange(0, base@.len() as int) =~= base@);
    let short: [&str; 12] = ["ts", "tsx", "js", "jsx", "mjs", "cjs", "py", "rs", "go", "java", "kt", "kts"];
    let index: [&str; 8] = ["ts", "tsx", "js", "jsx", "py", "rs", "kt", "kts"];
    assert(crate::text::str_seq(short@) =~= ext_short());
    assert(crate::text::str_seq(index@) =~= ext_index());
    let ghost part1 = Seq::new(12, |i: int| base@ + "."@ + ext_short()[i]);
    let ghost part2 = Seq::new(
        16,
        |i: int|
            if i % 2 == 0 {
                base@ + "/index."@ + ext_index()[i / 2]
            } else {
                base@ + "/mod."@ + ext_index()[i / 2]
            },
    );
    let mut i: usize = 0;
    while i < 12
        invariant
            i <= 12,
            crate::text::str_seq(short@) == ext_short(),
            part1 == Seq::new(12, |i: int| base@ + "."@ + ext_short()[i]),
            vec_views(out@) == seq![base@] + part1.take(i as int),
        decreases 12 - i,
    {
        let mut c = slice_of(base, 0, base.len());
        extend_str(&mut c, ".");
        extend_str(&mut c, short[i]);
        assert(c@ =~= base@ + "."@ + ext_short()[i as int]);
        let ghost old_out = vec_views(out@);
        out.push(c);
        proof {
            assert(part1[i as int] == base@ + "."@ + ext_short()[i as int]);
            assert(vec_views(out@) =~= old_out.push(part1[i as int]));
            assert(part1.take(i + 1) =~= part1.take(i as int).push(part1[i as int]));
        }
        i += 1;
        assert(vec_views(out@) =~= seq![base@] + part1.take(i as int));
    }
    let mut j: usize = 0;
    while j < 8
        invariant
            j <= 8,
            crate::text::str_seq(index@) == ext_index(),
            part1 == Seq::new(12, |i: int| base@ + "."@ + ext_short()[i]),
            part2 == Seq::new(
                16,
                |i: int|
                    if i % 2 == 0 {
                        base@ + "/index."@ + ext_index()[i / 2]
                    } else {
                        base@ + "/mod."@ + ext_index()[i / 2]
                    },
            ),
            vec_views(out@) == seq![base@] + part1 + part2.take(2 * j as int),
        decreases 8 - j,
    {
        let mut a = slice_of(base, 0, base.len());
        extend_str(&mut a, "/index.");
        extend_str(&mut a, index[j]);
        let mut b = slice_of(base, 0, base.len());
        extend_str(&mut b, "/mod.");
        extend_str(&mut b, index[j]);
        assert(a@ =~= part2[2 * j as int]);
        assert(b@ =~= part2[2 * j + 1]);
        let ghost old_out = vec_views(out@);
        out.push(a);
        out.push(b);
        proof {
            assert(vec_views(out@) =~= old_out.push(part2[2 * j as int]).push(part2[2 * j + 1]));
            assert(part2.take(2 * j + 2) =~= part2.take(2 * j as int).push(part2[2 * j as int]).push(
                part2[2 * j + 1],
            ));
        }
        j += 1;
        assert(vec_views(out@) =~= seq![base@] + part1 + part2.take(2 * j as int));
    }
    assert(part1.take(12) =~= part1);
    assert(part2.take(16) =~= part2);
    let mut init = slice_of(base, 0, base.len());
    extend_str(&mut init, "/__init__.py");
    let ghost before = vec_views(out@);
    out.push(init);
    assert(vec_views(out@) =~= before.push(base@ + "/__init__.py"@));
    out
}

fn first_existing_exec(base: &[char], safe: &Vec<Vec<char>>) -> (r: Option<Vec<char>>)
    ensures
        match r {
            Some(v) => first_existing(base@, vec_views(safe@)) == Some(v@),
            None => first_existing(base@, vec_views(safe@)) is None,
        },
{
    let cands = candidates_exec(base);
    let ghost cv = vec_views(cands@);
    let ghost sv = vec_views(safe@);
    let mut i: usize = 0;
    assert(cv.skip(0) =~= cv);
    while i < cands.len()
        invariant
            i <= cands@.len(),
            cv == vec_views(cands@),
            cv == candidates(base@),
            sv == vec_views(safe@),
            first_hit(cv, sv) == first_hit(cv.skip(i as int), sv),
        decreases cands.len() - i,
    {
        assert(cv.skip(i as int)[0] == cands@[i as int]@);
        assert(cv.skip(i as int).drop_first() =~= cv.skip(i + 1));
        match hit_exec(&cands[i], safe) {
            Some(p) => {
                return Some(p);
            },
            None => {},
        }
        i += 1;
    }
    None
}

/// Resolves an import to a safe repository path: `crate::` paths from
/// `src/`, `super::` paths from the grandparent directory, relative paths
/// from the importing file's directory, other paths as written.
pub open spec fn resolve_import(
    source_path: Seq<char>,
    raw0: Seq<char>,
    safe: Seq<Seq<char>>,
) -> Option<Seq<char>> {
    let raw = trim(raw0);
    if raw.len() == 0 {
        None
    } else if starts_with(raw, "crate::"@) {
        first_existing(
            "src/"@ + replace_str(trim_start_matches(raw, "crate::"@), "::"@, "/"@),
            safe,
        )
    } else if starts_with(raw, "super::"@) {
        let base = replace_str(trim_start_matches(raw, "super::"@), "::"@, "/"@);
        match parent_comps(components(source_path)) {
            None => None,
            Some(p1) => match parent_comps(p1) {
                None => None,
                Some(p2) => match join_normalized(p2, base) {
                    None => None,
                    Some(b) => first_existing(b, safe),
                },
            },
        }
    } else if raw[0] == '.' {
        let parent = match parent_comps(components(source_path)) {
            Some(p) => p,
            None => seq![],
        };
        match join_normalized(parent, raw) {
            None => None,
            Some(b) => first_existing(b, safe),
        }
    } else {
        first_existing(raw, safe)
    }
}

/// Executable `resolve_import`; `safe` lists the safe repository paths.
pub fn resolve_import_target(source_path: &[char], raw0: &[char], safe: &Vec<Vec<char>>) -> (r:
    Option<Vec<char>>)
    ensures
        match r {
            Some(v) => resolve_import(source_path@, raw0@, vec_views(safe@)) == Some(v@),
            None => resolve_import(source_path@, raw0@, vec_views(safe@)) is None,
        },
{
    let raw = trim_vec(raw0);
    if raw.len() == 0 {
        return None;
    }
    if starts_with_str(&raw, "crate::") {
        let stripped = trim_start_matches_str(&raw, "crate::");
        let replaced = replace_str_exec(&stripped, "::", "/");
        let mut base: Vec<char> = Vec::new();
        extend_str(&mut base, "src/");
        extend_chars(&mut base, &replaced);
        return first_existing_exec(&base, safe);
    }
    if starts_with_str(&raw, "super::") {
        let stripped = trim_start_matches_str(&raw, "super::");
        let base = replace_str_exec(&stripped, "::", "/");
        let sc = components_exec(source_path);
        let p1 = match parent_exec(&sc) {
            None => {
                return None;
            },
            Some(p) => p,
        };
        let p2 = match parent_exec(&p1) {
            None => {
                return None;
            },
            Some(p) => p,
        };
        return match join_normalized_exec(&p2, &base) {
            None => None,
            Some(b) => first_existing_exec(&b, safe),
        };
    }
    if raw[0] == '.' {
        let sc = components_exec(source_path);
        let parent = match parent_exec(&sc) {
            Some(p) => p,
            None => {
                let e: Vec<Comp> = Vec::new();
                assert(comp_views(e@) =~= Seq::<CompView>::empty());
                e
            },
        };
        return match join_normalized_exec(&parent, &raw) {
            None => None,
            Some(b) => first_existing_exec(&b, safe),
        };
    }
    first_existing_exec(&raw, safe)
}

/// Rank of an edge by which of its ends are anchors: incoming 0, outgoing
/// 1, both 2, neither 3.
pub open spec fn anchor_rank(source_is_anchor: bool, target_is_anchor: bool) -> u8 {
    if !source_is_anchor && target_is_anchor {
        0
    } else if source_is_anchor && !target_is_anchor {
        1
    } else if source_is_anchor && target_is_anchor {
        2
    } else {
        3
    }
}

/// Executable `anchor_rank`.
pub fn edge_anchor_rank(source_is_anchor: bool, target_is_anchor: bool) -> (r: u8)
    ensures
        r == anchor_rank(source_is_anchor, target_is_anchor),
{
    match (source_is_anchor, target_is_anchor) {
        (false, true) => 0,
        (true, false) => 1,
        (true, true) => 2,
        (false, false) => 3,
    }
}

// ---------------------------------------------------------------------
// Edges
// ---------------------------------------------------------------------
/// A dependency edge; `confidence_bits` holds the bits of its `f32`
/// confidence.
#[derive(Debug, Clone)]
pub struct DependencyEdge {
    pub source_path: String,
    pub target_path: String,
    pub kind: String,
    pub confidence_bits: u32,
    pub reason: String,
}

pub ghost struct EdgeView {
    pub source_path: Seq<char>,
    pub target_path: Seq<char>,
    pub kind: Seq<char>,
    pub confidence_bits: u32,
    pub reason: Seq<char>,
}

impl View for DependencyEdge {
    type V = EdgeView;

    open spec fn view(&self) -> EdgeView {
        EdgeView {
            source_path: self.source_path@,
            target_path: self.target_path@,
            kind: self.kind@,
            confidence_bits: self.confidence_bits,
            reason: self.reason@,
        }
    }
}

pub open spec fn edge_views(v: Seq<DependencyEdge>) -> Seq<EdgeView> {
    v.map_values(|e: DependencyEdge| e@)
}

/// A loaded precision edge of the overlay, with paths already normalised;
/// `confidence_bits` holds the bits of its clamped `f32` confidence.
#[derive(Debug, Clone)]
pub struct PrecisionEdgeRecord {
    pub source_path: String,
    pub target_path: String,
    pub edge_type: String,
    pub symbol: Option<String>,
    pub confidence_bits: Option<u32>,
    pub reason: Option<String>,
}

pub ghost struct PrecisionView {
    pub source_path: Seq<char>,
    pub target_path: Seq<char>,
    pub edge_type: Seq<char>,
    pub symbol: Option<Seq<char>>,
    pub confidence_bits: Option<u32>,
    pub reason: Option<Seq<char>>,
}

impl View for PrecisionEdgeRecord {
    type V = PrecisionView;

    open spec fn view(&self) -> PrecisionView {
        PrecisionView {
            source_path: self.source_path@,
            target_path: self.target_path@,
            edge_type: self.edge_type@,
            symbol: opt_view(self.symbol),
            confidence_bits: self.confidence_bits,
            reason: opt_view(self.reason),
        }
    }
}

pub open spec fn precision_views(v: Seq<PrecisionEdgeRecord>) -> Seq<PrecisionView> {
    v.map_values(|r: PrecisionEdgeRecord| r@)
}

/// A candidate edge and the third part of its deduplication key (the raw
/// import, or the edge kind of a precision edge).
pub type Cand = (Seq<char>, EdgeView);

/// The candidate edge of one import, if it resolves to another safe file.
pub open spec fn import_cand(path: Seq<char>, i: ImportView, safe: Seq<Seq<char>>) -> Seq<Cand> {
    match resolve_import(path, i.raw, safe) {
        Some(t) => if t == path {
            seq![]
        } else {
            seq![
                (
                    i.raw,
                    EdgeView {
                        source_path: path,
                        target_path: t,
                        kind: "imports"@,
                        confidence_bits: i.confidence_bits,
                        reason: i.language + " import `"@ + i.raw + "`"@,
                    },
                ),
            ]
        },
        None => seq![],
    }
}

pub open spec fn import_cands(path: Seq<char>, imports: Seq<ImportView>, safe: Seq<Seq<char>>) -> Seq<
    Cand,
>
    decreases imports.len(),
{
    if imports.len() == 0 {
        seq![]
    } else {
        import_cands(path, imports.drop_last(), safe) + import_cand(path, imports.last(), safe)
    }
}

/// The paths of the safe dependency files, in inventory order.
pub open spec fn safe_paths(files: Seq<FileEntryView>) -> Seq<Seq<char>>
    decreases files.len(),
{
    if files.len() == 0 {
        seq![]
    } else {
        safe_paths(files.drop_last()) + if safe_dependency_file(files.last()) {
            seq![files.last().path]
        } else {
            seq![]
        }
    }
}

/// The import candidates of every safe dependency file that could be read.
pub open spec fn file_cands(
    files: Seq<FileEntryView>,
    texts: Seq<Option<Seq<char>>>,
    safe: Seq<Seq<char>>,
) -> Seq<Cand>
    decreases files.len(),
{
    if files.len() == 0 {
        seq![]
    } else {
        let n = files.len() - 1;
        file_cands(files.drop_last(), texts.take(n), safe) + if safe_dependency_file(files[n])
            && texts[n] is Some {
            import_cands(files[n].path, file_imports(files[n].language, texts[n]->0), safe)
        } else {
            seq![]
        }
    }
}

/// The reason of a precision edge without its own reason.
pub open spec fn precision_reason(r: PrecisionView) -> Seq<char> {
    match r.reason {
        Some(x) => x,
        None => "source-free precision edge `"@ + r.edge_type + "`"@ + match r.symbol {
            Some(s) => " for `"@ + s + "`"@,
            None => seq![],
        },
    }
}

pub open spec fn precision_cand(r: PrecisionView) -> Cand {
    let kind = "precision:"@ + r.edge_type;
    (
        kind,
        EdgeView {
            source_path: r.source_path,
            target_path: r.target_path,
            kind,
            confidence_bits: match r.confidence_bits {
                Some(b) => b,
                None => CONFIDENCE_095,
            },
            reason: precision_reason(r),
        },
    )
}

pub open spec fn same_key(a: Cand, b: Cand) -> bool {
    a.1.source_path == b.1.source_path && a.1.target_path == b.1.target_path && a.0 == b.0
}

/// Keeps the first candidate of each key (source, target, third part).
pub open spec fn dedup_cands(c: Seq<Cand>) -> Seq<Cand>
    decreases c.len(),
{
    if c.len() == 0 {
        c
    } else {
        let d = dedup_cands(c.drop_last());
        if exists|j: int| 0 <= j < d.len() && same_key(d[j], c.last()) {
            d
        } else {
            d.push(c.last())
        }
    }
}

/// Edge order: by source path, then target path.
pub open spec fn edge_before(a: EdgeView, b: EdgeView) -> bool {
    if a.source_path != b.source_path {
        lex_lt(a.source_path, b.source_path)
    } else {
        lex_lt(a.target_path, b.target_path)
    }
}

pub open spec fn insert_edge(s: Seq<EdgeView>, x: EdgeView) -> Seq<EdgeView>
    decreases s.len(),
{
    if s.len() == 0 || !edge_before(x, s.last()) {
        s.push(x)
    } else {
        insert_edge(s.drop_last(), x).push(s.last())
    }
}

/// Stable sort of edges by source and target path.
pub open spec fn sort_edges(s: Seq<EdgeView>) -> Seq<EdgeView>
    decreases s.len(),
{
    if s.len() == 0 {
        s
    } else {
        insert_edge(sort_edges(s.drop_last()), s.last())
    }
}

pub open spec fn cand_edges(c: Seq<Cand>) -> Seq<EdgeView> {
    c.map_values(|x: Cand| x.1)
}

/// Whether a path is a Python package's `__init__.py`.
pub open spec fn is_package_init(p: Seq<char>) -> bool {
    p == "__init__.py"@ || ends_with(p, "/__init__.py"@)
}

/// The edge that an import `a` of a package's `__init__.py` reaches through
/// the `__init__.py`'s own import `b`.
pub open spec fn reexport_cand(a: EdgeView, b: EdgeView) -> Cand {
    (
        "python_reexport"@,
        EdgeView {
            source_path: a.source_path,
            target_path: b.target_path,
            kind: "python_reexport"@,
            confidence_bits: CONFIDENCE_070,
            reason: "python re-export through `"@ + a.target_path + "`"@,
        },
    )
}

/// The re-export edges of an import `a` of a package's `__init__.py`: one
/// for each import candidate in `c` that leaves that `__init__.py`, in
/// order, except one that leads back to `a`'s source.
pub open spec fn reexports_of(a: EdgeView, c: Seq<Cand>) -> Seq<Cand>
    decreases c.len(),
{
    if c.len() == 0 {
        seq![]
    } else {
        let b = c.last().1;
        reexports_of(a, c.drop_last()) + if b.source_path == a.target_path && b.target_path
            != a.source_path {
            seq![reexport_cand(a, b)]
        } else {
            seq![]
        }
    }
}

/// The re-export edges of the import candidates `c`, each expanded over the
/// import candidates `all`: an import of a package's `__init__.py` also
/// reaches every module that the `__init__.py` imports.
pub open spec fn reexport_cands(c: Seq<Cand>, all: Seq<Cand>) -> Seq<Cand>
    decreases c.len(),
{
    if c.len() == 0 {
        seq![]
    } else {
        reexport_cands(c.drop_last(), all) + if is_package_init(c.last().1.target_path) {
            reexports_of(c.last().1, all)
        } else {
            seq![]
        }
    }
}

/// The dependency graph: import edges of the safe files, then the Python
/// re-export edges that imports of packages reach, then precision edges;
/// the first edge of each key kept; sorted by source and target; at most
/// `max(limit, 1)` edges.
pub open spec fn dependency_graph(
    files: Seq<FileEntryView>,
    texts: Seq<Option<Seq<char>>>,
    overlay: Seq<PrecisionView>,
    limit: usize,
) -> Seq<EdgeView> {
    let safe = safe_paths(files);
    let imports = file_cands(files, texts, safe);
    let cands = imports + reexport_cands(imports, imports) + overlay.map_values(
        |r: PrecisionView| precision_cand(r),
    );
    let sorted = sort_edges(cand_edges(dedup_cands(cands)));
    let keep = if limit == 0 { 1 } else { limit as int };
    if sorted.len() <= keep {
        sorted
    } else {
        sorted.take(keep)
    }
}

// ---------------------------------------------------------------------
// What the dependency graph holds
// ---------------------------------------------------------------------
/// An edge between two different safe files.
pub open spec fn import_edge_ok(e: EdgeView, safe: Seq<Seq<char>>) -> bool {
    e.source_path != e.target_path && safe.contains(e.source_path) && safe.contains(e.target_path)
}

/// An edge of the dependency graph: an import or re-export edge between
/// two different safe files, or a precision edge.
pub open spec fn graph_edge_ok(e: EdgeView, safe: Seq<Seq<char>>) -> bool {
    if e.kind == "imports"@ || e.kind == "python_reexport"@ {
        import_edge_ok(e, safe)
    } else {
        starts_with(e.kind, "precision:"@)
    }
}

/// Edge order, not strict: `a` may come before `b`.
pub open spec fn edge_le(a: EdgeView, b: EdgeView) -> bool {
    !edge_before(b, a)
}

/// Edges in source and target order.
pub open spec fn edges_sorted(s: Seq<EdgeView>) -> bool {
    forall|i: int, j: int| 0 <= i < j < s.len() ==> edge_le(#[trigger] s[i], #[trigger] s[j])
}

proof fn lemma_edge_le_total_transitive(a: EdgeView, b: EdgeView, c: EdgeView)
    ensures
        edge_le(a, b) || edge_le(b, a),
        edge_le(a, b) && edge_le(b, c) ==> edge_le(a, c),
{
    lemma_lex_total(a.source_path, b.source_path);
    lemma_lex_total(b.source_path, c.source_path);
    lemma_lex_total(a.source_path, c.source_path);
    lemma_lex_total(a.target_path, b.target_path);
    lemma_lex_total(b.target_path, c.target_path);
    lemma_lex_total(a.target_path, c.target_path);
    crate::text::lemma_lex_asymmetric(a.source_path, b.source_path);
    crate::text::lemma_lex_asymmetric(b.source_path, c.source_path);
    crate::text::lemma_lex_asymmetric(a.source_path, c.source_path);
    crate::text::lemma_lex_asymmetric(a.target_path, b.target_path);
    crate::text::lemma_lex_asymmetric(b.target_path, c.target_path);
    crate::text::lemma_lex_asymmetric(a.target_path, c.target_path);
    crate::text::lemma_lex_transitive(a.source_path, b.source_path, c.source_path);
    crate::text::lemma_lex_transitive(c.source_path, b.source_path, a.source_path);
    crate::text::lemma_lex_transitive(a.target_path, b.target_path, c.target_path);
    crate::text::lemma_lex_transitive(c.target_path, b.target_path, a.target_path);
    crate::text::lemma_lex_irreflexive(a.source_path);
    crate::text::lemma_lex_irreflexive(a.target_path);
    crate::text::lemma_lex_irreflexive(b.source_path);
}

proof fn lemma_insert_edge(s: Seq<EdgeView>, x: EdgeView)
    requires
        edges_sorted(s),
    ensures
        insert_edge(s, x).len() == s.len() + 1,
        forall|i: int| 0 <= i < insert_edge(s, x).len() ==> #[trigger] insert_edge(s, x)[i] == x
            || s.contains(insert_edge(s, x)[i]),
        edges_sorted(insert_edge(s, x)),
    decreases s.len(),
{
    let r = insert_edge(s, x);
    if s.len() == 0 || !edge_before(x, s.last()) {
        assert forall|i: int| 0 <= i < r.len() implies #[trigger] r[i] == x || s.contains(r[i]) by {
            if i < s.len() {
                assert(r[i] == s[i]);
            }
        }
        assert forall|i: int, j: int| 0 <= i < j < r.len() implies edge_le(#[trigger] r[i], #[trigger] r[j]) by {
            if j == s.len() {
                assert(r[i] == s[i]);
                if i < s.len() - 1 {
                    assert(edge_le(s[i], s[s.len() - 1]));
                    lemma_edge_le_total_transitive(s[i], s[s.len() - 1], x);
                }
            } else {
                assert(r[i] == s[i] && r[j] == s[j]);
            }
        }
    } else {
        let d = s.drop_last();
        assert(edges_sorted(d)) by {
            assert forall|i: int, j: int| 0 <= i < j < d.len() implies edge_le(#[trigger] d[i], #[trigger] d[j]) by {
                assert(d[i] == s[i] && d[j] == s[j]);
            }
        }
        lemma_insert_edge(d, x);
        let q = insert_edge(d, x);
        assert(r == q.push(s.last()));
        lemma_edge_le_total_transitive(x, s.last(), x);
        assert forall|i: int| 0 <= i < r.len() implies #[trigger] r[i] == x || s.contains(r[i]) by {
            if i == q.len() {
                assert(s[s.len() - 1] == r[i]);
            } else {
                assert(r[i] == q[i]);
                if q[i] != x {
                    let k = choose|k: int| 0 <= k < d.len() && d[k] == q[i];
                    assert(s[k] == q[i]);
                }
            }
        }
        assert forall|i: int, j: int| 0 <= i < j < r.len() implies edge_le(#[trigger] r[i], #[trigger] r[j]) by {
            if j == q.len() {
                assert(r[i] == q[i]);
                if q[i] != x {
                    let k = choose|k: int| 0 <= k < d.len() && d[k] == q[i];
                    assert(s[k] == q[i]);
                    assert(edge_le(s[k], s[s.len() - 1]));
                }
            } else {
                assert(r[i] == q[i] && r[j] == q[j]);
            }
        }
    }
}

proof fn lemma_sort_edges(s: Seq<EdgeView>)
    ensures
        sort_edges(s).len() == s.len(),
        forall|i: int| 0 <= i < sort_edges(s).len() ==> s.contains(#[trigger] sort_edges(s)[i]),
        edges_sorted(sort_edges(s)),
    decreases s.len(),
{
    if s.len() > 0 {
        let d = s.drop_last();
        lemma_sort_edges(d);
        let t = sort_edges(d);
        lemma_insert_edge(t, s.last());
        let r = sort_edges(s);
        assert forall|i: int| 0 <= i < r.len() implies s.contains(#[trigger] r[i]) by {
            if r[i] == s.last() {
                assert(s[s.len() - 1] == r[i]);
            } else {
                let k = choose|k: int| 0 <= k < t.len() && t[k] == r[i];
                assert(d.contains(t[k]));
                let m = choose|m: int| 0 <= m < d.len() && d[m] == t[k];
                assert(s[m] == r[i]);
            }
        }
    }
}

proof fn lemma_first_hit_safe(cands: Seq<Seq<char>>, safe: Seq<Seq<char>>)
    ensures
        first_hit(cands, safe) matches Some(p) ==> safe.contains(p),
    decreases cands.len(),
{
    if cands.len() > 0 {
        lemma_first_hit_safe(cands.drop_first(), safe);
    }
}

proof fn lemma_resolve_safe(source: Seq<char>, raw: Seq<char>, safe: Seq<Seq<char>>)
    ensures
        resolve_import(source, raw, safe) matches Some(p) ==> safe.contains(p),
{
    assert forall|b: Seq<char>| #[trigger] first_existing(b, safe) is Some implies safe.contains(
        first_existing(b, safe)->0,
    ) by {
        lemma_first_hit_safe(candidates(b), safe);
    }
}

proof fn lemma_import_cands(path: Seq<char>, imports: Seq<ImportView>, safe: Seq<Seq<char>>)
    ensures
        forall|i: int| 0 <= i < import_cands(path, imports, safe).len() ==> {
            let e = (#[trigger] import_cands(path, imports, safe)[i]).1;
            e.kind == "imports"@ && e.source_path == path && e.target_path != path && safe.contains(
                e.target_path,
            )
        },
    decreases imports.len(),
{
    if imports.len() > 0 {
        lemma_import_cands(path, imports.drop_last(), safe);
        lemma_resolve_safe(path, imports.last().raw, safe);
        let a = import_cands(path, imports.drop_last(), safe);
        let b = import_cand(path, imports.last(), safe);
        assert forall|i: int| 0 <= i < (a + b).len() implies {
            let e = (#[trigger] (a + b)[i]).1;
            e.kind == "imports"@ && e.source_path == path && e.target_path != path && safe.contains(
                e.target_path,
            )
        } by {
            if i >= a.len() {
                assert((a + b)[i] == b[i - a.len()]);
            } else {
                assert((a + b)[i] == a[i]);
            }
        }
    }
}

proof fn lemma_safe_paths_grow(fs: Seq<FileEntryView>)
    ensures
        fs.len() > 0 ==> forall|p: Seq<char>| #[trigger] safe_paths(fs.drop_last()).contains(p) ==> safe_paths(fs).contains(p),
        fs.len() > 0 && safe_dependency_file(fs.last()) ==> safe_paths(fs).contains(fs.last().path),
{
    if fs.len() > 0 {
        let d = safe_paths(fs.drop_last());
        let extra = if safe_dependency_file(fs.last()) { seq![fs.last().path] } else { Seq::<Seq<char>>::empty() };
        assert(safe_paths(fs) == d + extra);
        assert forall|p: Seq<char>| #[trigger] d.contains(p) implies safe_paths(fs).contains(p) by {
            let k = choose|k: int| 0 <= k < d.len() && d[k] == p;
            assert((d + extra)[k] == p);
        }
        if safe_dependency_file(fs.last()) {
            assert((d + extra)[d.len() as int] == fs.last().path);
        }
    }
}

proof fn lemma_file_cands(fs: Seq<FileEntryView>, ts: Seq<Option<Seq<char>>>, safe: Seq<Seq<char>>)
    ensures
        forall|i: int| 0 <= i < file_cands(fs, ts, safe).len() ==> {
            let e = (#[trigger] file_cands(fs, ts, safe)[i]).1;
            e.kind == "imports"@ && e.source_path != e.target_path && safe.contains(e.target_path)
                && safe_paths(fs).contains(e.source_path)
        },
    decreases fs.len(),
{
    if fs.len() > 0 {
        let n = fs.len() - 1;
        lemma_file_cands(fs.drop_last(), ts.take(n), safe);
        lemma_safe_paths_grow(fs);
        assert(fs[n] == fs.last());
        let a = file_cands(fs.drop_last(), ts.take(n), safe);
        let b = if safe_dependency_file(fs[n]) && ts[n] is Some {
            import_cands(fs[n].path, file_imports(fs[n].language, ts[n]->0), safe)
        } else {
            Seq::<Cand>::empty()
        };
        if safe_dependency_file(fs[n]) && ts[n] is Some {
            lemma_import_cands(fs[n].path, file_imports(fs[n].language, ts[n]->0), safe);
        }
        assert(file_cands(fs, ts, safe) == a + b);
        assert forall|i: int| 0 <= i < (a + b).len() implies {
            let e = (#[trigger] (a + b)[i]).1;
            e.kind == "imports"@ && e.source_path != e.target_path && safe.contains(e.target_path)
                && safe_paths(fs).contains(e.source_path)
        } by {
            if i >= a.len() {
                assert((a + b)[i] == b[i - a.len()]);
            } else {
                assert((a + b)[i] == a[i]);
            }
        }
    }
}

proof fn lemma_reexports_of(a: EdgeView, c: Seq<Cand>, safe: Seq<Seq<char>>)
    requires
        safe.contains(a.source_path),
        forall|i: int| 0 <= i < c.len() ==> safe.contains((#[trigger] c[i]).1.target_path),
    ensures
        forall|i: int| 0 <= i < reexports_of(a, c).len() ==> {
            let e = (#[trigger] reexports_of(a, c)[i]).1;
            e.kind == "python_reexport"@ && import_edge_ok(e, safe)
        },
    decreases c.len(),
{
    if c.len() > 0 {
        let d = c.drop_last();
        assert forall|i: int| 0 <= i < d.len() implies safe.contains((#[trigger] d[i]).1.target_path) by {
            assert(d[i] == c[i]);
        }
        lemma_reexports_of(a, d, safe);
        assert(c[c.len() - 1] == c.last());
        let x = reexports_of(a, d);
        let y = if c.last().1.source_path == a.target_path && c.last().1.target_path != a.source_path {
            seq![reexport_cand(a, c.last().1)]
        } else {
            Seq::<Cand>::empty()
        };
        assert(reexports_of(a, c) == x + y);
        assert forall|i: int| 0 <= i < (x + y).len() implies {
            let e = (#[trigger] (x + y)[i]).1;
            e.kind == "python_reexport"@ && import_edge_ok(e, safe)
        } by {
            if i >= x.len() {
                assert((x + y)[i] == y[i - x.len()]);
            } else {
                assert((x + y)[i] == x[i]);
            }
        }
    }
}

proof fn lemma_reexport_cands(c: Seq<Cand>, all: Seq<Cand>, safe: Seq<Seq<char>>)
    requires
        forall|i: int| 0 <= i < c.len() ==> safe.contains((#[trigger] c[i]).1.source_path),
        forall|i: int| 0 <= i < all.len() ==> safe.contains((#[trigger] all[i]).1.target_path),
    ensures
        forall|i: int| 0 <= i < reexport_cands(c, all).len() ==> {
            let e = (#[trigger] reexport_cands(c, all)[i]).1;
            e.kind == "python_reexport"@ && import_edge_ok(e, safe)
        },
    decreases c.len(),
{
    if c.len() > 0 {
        let d = c.drop_last();
        assert forall|i: int| 0 <= i < d.len() implies safe.contains((#[trigger] d[i]).1.source_path) by {
            assert(d[i] == c[i]);
        }
        lemma_reexport_cands(d, all, safe);
        assert(c[c.len() - 1] == c.last());
        lemma_reexports_of(c.last().1, all, safe);
        let x = reexport_cands(d, all);
        let y = if is_package_init(c.last().1.target_path) {
            reexports_of(c.last().1, all)
        } else {
            Seq::<Cand>::empty()
        };
        assert(reexport_cands(c, all) == x + y);
        assert forall|i: int| 0 <= i < (x + y).len() implies {
            let e = (#[trigger] (x + y)[i]).1;
            e.kind == "python_reexport"@ && import_edge_ok(e, safe)
        } by {
            if i >= x.len() {
                assert((x + y)[i] == y[i - x.len()]);
            } else {
                assert((x + y)[i] == x[i]);
            }
        }
    }
}

proof fn lemma_dedup_subset(c: Seq<Cand>)
    ensures
        forall|i: int| 0 <= i < dedup_cands(c).len() ==> c.contains(#[trigger] dedup_cands(c)[i]),
    decreases c.len(),
{
    if c.len() > 0 {
        let d = c.drop_last();
        lemma_dedup_subset(d);
        let r = dedup_cands(c);
        assert forall|i: int| 0 <= i < r.len() implies c.contains(#[trigger] r[i]) by {
            let dd = dedup_cands(d);
            if i < dd.len() {
                assert(r[i] == dd[i]);
                let k = choose|k: int| 0 <= k < d.len() && d[k] == dd[i];
                assert(c[k] == r[i]);
            } else {
                assert(r[i] == c.last());
                assert(c[c.len() - 1] == r[i]);
            }
        }
    }
}

/// What the dependency graph holds: at most `max(limit, 1)` edges, in
/// source and target order; each import or re-export edge joins two
/// different files of the graph's safe files (not generated or ignored,
/// source or test, in a language whose imports are resolved), and every
/// other edge is a precision edge.
pub proof fn lemma_dependency_graph(
    files: Seq<FileEntryView>,
    texts: Seq<Option<Seq<char>>>,
    overlay: Seq<PrecisionView>,
    limit: usize,
)
    ensures
        dependency_graph(files, texts, overlay, limit).len() <= if limit == 0 { 1 } else { limit as int },
        edges_sorted(dependency_graph(files, texts, overlay, limit)),
        forall|i: int| 0 <= i < dependency_graph(files, texts, overlay, limit).len() ==> graph_edge_ok(
            #[trigger] dependency_graph(files, texts, overlay, limit)[i],
            safe_paths(files),
        ),
{
    reveal_strlit("imports");
    reveal_strlit("python_reexport");
    reveal_strlit("precision:");
    let safe = safe_paths(files);
    let imports = file_cands(files, texts, safe);
    lemma_file_cands(files, texts, safe);
    let re = reexport_cands(imports, imports);
    lemma_reexport_cands(imports, imports, safe);
    let pc = overlay.map_values(|r: PrecisionView| precision_cand(r));
    let cands = imports + re + pc;
    assert forall|i: int| 0 <= i < cands.len() implies graph_edge_ok((#[trigger] cands[i]).1, safe) by {
        if i < imports.len() {
            assert(cands[i] == imports[i]);
        } else if i < imports.len() + re.len() {
            assert(cands[i] == re[i - imports.len()]);
        } else {
            let k = i - imports.len() - re.len();
            assert(cands[i] == pc[k]);
            let kind = "precision:"@ + overlay[k].edge_type;
            assert(pc[k].1.kind == kind);
            assert(kind[0] == 'p');
            assert(kind.subrange(0, 10) =~= "precision:"@);
            assert("imports"@[0] == 'i');
            assert("python_reexport"@[1] == 'y');
            assert(kind[1] == 'r');
        }
    }
    let dd = dedup_cands(cands);
    lemma_dedup_subset(cands);
    let ce = cand_edges(dd);
    lemma_sort_edges(ce);
    let sorted = sort_edges(ce);
    let r = dependency_graph(files, texts, overlay, limit);
    assert forall|i: int| 0 <= i < r.len() implies graph_edge_ok(#[trigger] r[i], safe) by {
        assert(r[i] == sorted[i]);
        let k = choose|k: int| 0 <= k < ce.len() && ce[k] == sorted[i];
        assert(ce[k] == dd[k].1);
        let m = choose|m: int| 0 <= m < cands.len() && cands[m] == dd[k];
        assert(graph_edge_ok(cands[m].1, safe));
    }
    assert forall|i: int, j: int| 0 <= i < j < r.len() implies edge_le(#[trigger] r[i], #[trigger] r[j]) by {
        assert(r[i] == sorted[i] && r[j] == sorted[j]);
    }
}

/// Executable candidate.
pub struct EdgeCand {
    pub third: Vec<char>,
    pub edge: DependencyEdge,
}

pub open spec fn cand_views(v: Seq<EdgeCand>) -> Seq<Cand> {
    v.map_values(|c: EdgeCand| (c.third@, c.edge@))
}

fn push_cand(out: &mut Vec<EdgeCand>, third: Vec<char>, edge: DependencyEdge)
    ensures
        cand_views(final(out)@) == cand_views(old(out)@).push((third@, edge@)),
{
    out.push(EdgeCand { third, edge });
    assert(cand_views(out@) =~= cand_views(old(out)@).push((third@, edge@)));
}

fn file_import_cands(path: &String, imports: &Vec<ImportRef>, safe: &Vec<Vec<char>>, out: &mut Vec<
    EdgeCand,
>)
    ensures
        cand_views(final(out)@) == cand_views(old(out)@) + import_cands(
            path@,
            import_views(imports@),
            vec_views(safe@),
        ),
{
    let ghost iv = import_views(imports@);
    let ghost o0 = cand_views(out@);
    let pv = chars_of(path.as_str());
    let mut k: usize = 0;
    while k < imports.len()
        invariant
            k <= imports@.len(),
            iv == import_views(imports@),
            pv@ == path@,
            cand_views(out@) == o0 + import_cands(path@, iv.take(k as int), vec_views(safe@)),
        decreases imports.len() - k,
    {
        assert(iv.take(k + 1).drop_last() =~= iv.take(k as int));
        let imp = &imports[k];
        let ghost ivk = ImportView {
            raw: imp.raw@,
            language: imp.language@,
            confidence_bits: imp.confidence_bits,
        };
        assert(iv.take(k + 1).last() == ivk);
        let ghost before = cand_views(out@);
        match resolve_import_target(&pv, &imp.raw, safe) {
            Some(t) => {
                if !crate::text::eq_chars(&t, &pv) {
                    let mut reason: Vec<char> = Vec::new();
                    extend_str(&mut reason, imp.language);
                    extend_str(&mut reason, " import `");
                    extend_chars(&mut reason, &imp.raw);
                    extend_str(&mut reason, "`");
                    let edge = DependencyEdge {
                        source_path: path.clone(),
                        target_path: string_of(&t),
                        kind: String::from_str("imports"),
                        confidence_bits: imp.confidence_bits,
                        reason: string_of(&reason),
                    };
                    push_cand(out, slice_of(&imp.raw, 0, imp.raw.len()), edge);
                    assert(imp.raw@.subrange(0, imp.raw@.len() as int) =~= imp.raw@);
                    assert(cand_views(out@) =~= before + import_cand(path@, ivk, vec_views(safe@)));
                } else {
                    assert(cand_views(out@) =~= before + import_cand(path@, ivk, vec_views(safe@)));
                }
            },
            None => {
                assert(cand_views(out@) =~= before + import_cand(path@, ivk, vec_views(safe@)));
            },
        }
        k += 1;
        assert(cand_views(out@) =~= o0 + import_cands(path@, iv.take(k as int), vec_views(safe@)));
    }
    assert(iv.take(iv.len() as int) =~= iv);
}

fn safe_paths_exec(files: &Vec<FileInventoryEntry>) -> (out: Vec<Vec<char>>)
    ensures
        vec_views(out@) == safe_paths(crate::symbols::entry_views(files@)),
{
    let ghost fv = crate::symbols::entry_views(files@);
    let mut out: Vec<Vec<char>> = Vec::new();
    let mut i: usize = 0;
    while i < files.len()
        invariant
            i <= files@.len(),
            fv == crate::symbols::entry_views(files@),
            vec_views(out@) == safe_paths(fv.take(i as int)),
        decreases files.len() - i,
    {
        assert(fv.take(i + 1).drop_last() =~= fv.take(i as int));
        assert(fv.take(i + 1).last() == files@[i as int]@);
        if is_safe_dependency_file(&files[i]) {
            out.push(chars_of(files[i].path.as_str()));
        }
        i += 1;
        assert(vec_views(out@) =~= safe_paths(fv.take(i as int)));
    }
    assert(fv.take(fv.len() as int) =~= fv);
    out
}

fn precision_cand_exec(r: &PrecisionEdgeRecord) -> (c: EdgeCand)
    ensures
        (c.third@, c.edge@) == precision_cand(r@),
{
    let mut kind: Vec<char> = Vec::new();
    extend_str(&mut kind, "precision:");
    let et = chars_of(r.edge_type.as_str());
    extend_chars(&mut kind, &et);
    let reason = match &r.reason {
        Some(x) => x.clone(),
        None => {
            let mut v: Vec<char> = Vec::new();
            extend_str(&mut v, "source-free precision edge `");
            extend_chars(&mut v, &et);
            extend_str(&mut v, "`");
            match &r.symbol {
                Some(sy) => {
                    extend_str(&mut v, " for `");
                    extend_str(&mut v, sy.as_str());
                    extend_str(&mut v, "`");
                },
                None => {},
            }
            assert(v@ =~= precision_reason(r@));
            string_of(&v)
        },
    };
    let bits = match r.confidence_bits {
        Some(b) => b,
        None => CONFIDENCE_095,
    };
    let edge = DependencyEdge {
        source_path: r.source_path.clone(),
        target_path: r.target_path.clone(),
        kind: string_of(&kind),
        confidence_bits: bits,
        reason,
    };
    EdgeCand { third: kind, edge }
}

fn key_seen(kept: &Vec<EdgeCand>, c: &EdgeCand) -> (b: bool)
    ensures
        b == exists|j: int| 0 <= j < kept@.len() && same_key(cand_views(kept@)[j], (c.third@, c.edge@)),
{
    let ghost kv = cand_views(kept@);
    let mut j: usize = 0;
    while j < kept.len()
        invariant
            j <= kept@.len(),
            kv == cand_views(kept@),
            forall|m: int| 0 <= m < j ==> !same_key(kv[m], (c.third@, c.edge@)),
        decreases kept.len() - j,
    {
        if crate::text::string_eq(&kept[j].edge.source_path, &c.edge.source_path)
            && crate::text::string_eq(&kept[j].edge.target_path, &c.edge.target_path)
            && crate::text::eq_chars(&kept[j].third, &c.third) {
            assert(same_key(kv[j as int], (c.third@, c.edge@)));
            return true;
        }
        j += 1;
    }
    false
}

fn insert_edge_exec(out: &mut Vec<DependencyEdge>, x: DependencyEdge)
    ensures
        edge_views(final(out)@) == insert_edge(edge_views(old(out)@), x@),
{
    let ghost xv = x@;
    let ghost orig = edge_views(out@);
    let mut j: usize = out.len();
    assert(orig.take(j as int) =~= orig);
    assert(orig.skip(j as int) =~= Seq::<EdgeView>::empty());
    while j > 0 && edge_before_exec(&x, &out[j - 1])
        invariant
            j <= out@.len(),
            orig == edge_views(out@),
            xv == x@,
            insert_edge(orig, xv) == insert_edge(orig.take(j as int), xv) + orig.skip(j as int),
        decreases j,
    {
        let ghost t = orig.take(j as int);
        assert(t.last() == out@[j - 1]@);
        assert(t.drop_last() =~= orig.take(j - 1));
        assert(orig.skip(j - 1) =~= seq![t.last()] + orig.skip(j as int));
        assert(insert_edge(orig.take(j - 1), xv).push(t.last()) + orig.skip(j as int)
            =~= insert_edge(orig.take(j - 1), xv) + orig.skip(j - 1));
        j -= 1;
    }
    out.insert(j, x);
    assert(edge_views(out@) =~= orig.take(j as int).push(xv) + orig.skip(j as int));
}

fn edge_before_exec(a: &DependencyEdge, b: &DependencyEdge) -> (r: bool)
    ensures
        r == edge_before(a@, b@),
{
    if !crate::text::string_eq(&a.source_path, &b.source_path) {
        crate::text::string_lt(&a.source_path, &b.source_path)
    } else {
        crate::text::string_lt(&a.target_path, &b.target_path)
    }
}

fn is_package_init_exec(p: &String) -> (b: bool)
    ensures
        b == is_package_init(p@),
{
    let v = chars_of(p.as_str());
    crate::text::eq_str(&v, "__init__.py") || crate::text::ends_with_str(&v, "/__init__.py")
}

fn reexports_of_exec(a: &DependencyEdge, c: &Vec<EdgeCand>, out: &mut Vec<EdgeCand>)
    ensures
        cand_views(final(out)@) == cand_views(old(out)@) + reexports_of(a@, cand_views(c@)),
{
    let ghost cv = cand_views(c@);
    let ghost o0 = cand_views(out@);
    let mut k: usize = 0;
    while k < c.len()
        invariant
            k <= c@.len(),
            cv == cand_views(c@),
            cand_views(out@) == o0 + reexports_of(a@, cv.take(k as int)),
        decreases c.len() - k,
    {
        assert(cv.take(k + 1).drop_last() =~= cv.take(k as int));
        assert(cv.take(k + 1).last().1 == c@[k as int].edge@);
        let b = &c[k].edge;
        let ghost before = cand_views(out@);
        let same_source = crate::text::eq_chars(&chars_of(b.source_path.as_str()), &chars_of(a.target_path.as_str()));
        let back = crate::text::eq_chars(&chars_of(b.target_path.as_str()), &chars_of(a.source_path.as_str()));
        if same_source && !back {
            let mut reason: Vec<char> = Vec::new();
            extend_str(&mut reason, "python re-export through `");
            extend_str(&mut reason, a.target_path.as_str());
            extend_str(&mut reason, "`");
            let edge = DependencyEdge {
                source_path: a.source_path.clone(),
                target_path: b.target_path.clone(),
                kind: String::from_str("python_reexport"),
                confidence_bits: CONFIDENCE_070,
                reason: string_of(&reason),
            };
            let third = chars_of("python_reexport");
            push_cand(out, third, edge);
            assert(cand_views(out@) =~= before.push(reexport_cand(a@, b@)));
        }
        k += 1;
        assert(cand_views(out@) =~= o0 + reexports_of(a@, cv.take(k as int)));
    }
    assert(cv.take(cv.len() as int) =~= cv);
}

fn reexport_cands_exec(c: &Vec<EdgeCand>, out: &mut Vec<EdgeCand>)
    ensures
        cand_views(final(out)@) == cand_views(old(out)@) + reexport_cands(cand_views(c@), cand_views(c@)),
{
    let ghost cv = cand_views(c@);
    let ghost o0 = cand_views(out@);
    let mut k: usize = 0;
    while k < c.len()
        invariant
            k <= c@.len(),
            cv == cand_views(c@),
            cand_views(out@) == o0 + reexport_cands(cv.take(k as int), cv),
        decreases c.len() - k,
    {
        assert(cv.take(k + 1).drop_last() =~= cv.take(k as int));
        assert(cv.take(k + 1).last().1 == c@[k as int].edge@);
        let ghost before = cand_views(out@);
        if is_package_init_exec(&c[k].edge.target_path) {
            reexports_of_exec(&c[k].edge, c, out);
        } else {
            assert(cand_views(out@) =~= before + Seq::<Cand>::empty());
        }
        k += 1;
        assert(cand_views(out@) =~= o0 + reexport_cands(cv.take(k as int), cv));
    }
    assert(cv.take(cv.len() as int) =~= cv);
}

/// The dependency graph of a repository. `texts[i]` is the safely read text
/// of `files[i]` (`None` when it could not be read); `overlay` holds the
/// loaded precision edges.
pub fn dependency_edges(
    files: &Vec<FileInventoryEntry>,
    texts: &Vec<Option<String>>,
    overlay: &Vec<PrecisionEdgeRecord>,
    options: &DependencyOptions,
) -> (out: Vec<DependencyEdge>)
    requires
        texts@.len() == files@.len(),
    ensures
        edge_views(out@) == dependency_graph(
            crate::symbols::entry_views(files@),
            crate::symbols::opt_str_views(texts@),
            precision_views(overlay@),
            options.limit,
        ),
{
    let ghost fv = crate::symbols::entry_views(files@);
    let ghost tv = crate::symbols::opt_str_views(texts@);
    let safe = safe_paths_exec(files);
    let ghost sv = vec_views(safe@);
    let mut cands: Vec<EdgeCand> = Vec::new();
    let mut i: usize = 0;
    while i < files.len()
        invariant
            i <= files@.len(),
            texts@.len() == files@.len(),
            fv == crate::symbols::entry_views(files@),
            tv == crate::symbols::opt_str_views(texts@),
            sv == vec_views(safe@),
            cand_views(cands@) == file_cands(fv.take(i as int), tv.take(i as int), sv),
        decreases files.len() - i,
    {
        proof {
            assert(fv.take(i + 1).drop_last() =~= fv.take(i as int));
            assert(tv.take(i + 1).take(i as int) =~= tv.take(i as int));
            assert(fv.take(i + 1)[i as int] == files@[i as int]@);
            assert(tv.take(i + 1)[i as int] == opt_view(texts@[i as int]));
        }
        let ghost before = cand_views(cands@);
        if is_safe_dependency_file(&files[i]) {
            match &texts[i] {
                Some(text) => {
                    let imports = imports_for_file(&files[i].language, text.as_str());
                    file_import_cands(&files[i].path, &imports, &safe, &mut cands);
                },
                None => {
                    assert(cand_views(cands@) =~= before + Seq::<Cand>::empty());
                },
            }
        } else {
            assert(cand_views(cands@) =~= before + Seq::<Cand>::empty());
        }
        i += 1;
    }
    assert(fv.take(fv.len() as int) =~= fv);
    assert(tv.take(tv.len() as int) =~= tv);
    let mut reexports: Vec<EdgeCand> = Vec::new();
    reexport_cands_exec(&cands, &mut reexports);
    let ghost fc = cand_views(cands@);
    assert(cand_views(reexports@) =~= reexport_cands(fc, fc));
    let mut r: usize = 0;
    let rn = reexports.len();
    while r < rn
        invariant
            rn == reexports@.len(),
            r <= rn,
            cand_views(cands@) == fc + cand_views(reexports@).take(r as int),
        decreases rn - r,
    {
        let e = &reexports[r];
        let edge = DependencyEdge {
            source_path: e.edge.source_path.clone(),
            target_path: e.edge.target_path.clone(),
            kind: e.edge.kind.clone(),
            confidence_bits: e.edge.confidence_bits,
            reason: e.edge.reason.clone(),
        };
        let c = EdgeCand { third: slice_of(&e.third, 0, e.third.len()), edge };
        assert(e.third@.subrange(0, e.third@.len() as int) =~= e.third@);
        let ghost old_c = cand_views(cands@);
        proof {
            assert(c.edge@ == e.edge@);
            assert(cand_views(reexports@)[r as int] == (e.third@, e.edge@));
            assert(cand_views(reexports@).take(r + 1) =~= cand_views(reexports@).take(r as int).push(
                (e.third@, e.edge@),
            ));
        }
        cands.push(c);
        assert(cand_views(cands@) =~= old_c.push((e.third@, e.edge@)));
        r += 1;
        assert(cand_views(cands@) =~= fc + cand_views(reexports@).take(r as int));
    }
    assert(cand_views(reexports@).take(rn as int) =~= cand_views(reexports@));
    let ghost c0 = cand_views(cands@);
    let ghost ov = precision_views(overlay@);
    let mut k: usize = 0;
    while k < overlay.len()
        invariant
            k <= overlay@.len(),
            ov == precision_views(overlay@),
            cand_views(cands@) == c0 + ov.take(k as int).map_values(|r: PrecisionView| precision_cand(r)),
        decreases overlay.len() - k,
    {
        let c = precision_cand_exec(&overlay[k]);
        let ghost old_c = cand_views(cands@);
        cands.push(c);
        k += 1;
        proof {
            assert(ov[k - 1] == overlay@[k - 1]@);
            assert(cand_views(cands@) =~= old_c.push(precision_cand(ov[k - 1])));
            assert(ov.take(k as int).map_values(|r: PrecisionView| precision_cand(r))
                =~= ov.take(k - 1).map_values(|r: PrecisionView| precision_cand(r)).push(
                precision_cand(ov[k - 1]),
            ));
        }
    }
    assert(ov.take(ov.len() as int) =~= ov);
    let ghost all = cand_views(cands@);
    // keep the first candidate of each key
    let mut kept: Vec<EdgeCand> = Vec::new();
    let n = cands.len();
    let mut rest = cands;
    let mut m: usize = 0;
    while m < n
        invariant
            n == all.len(),
            m <= n,
            rest@.len() == n - m,
            cand_views(rest@) == all.skip(m as int),
            cand_views(kept@) == dedup_cands(all.take(m as int)),
        decreases n - m,
    {
        proof {
            assert(cand_views(rest@)[0] == (rest@[0].third@, rest@[0].edge@));
            assert(all.skip(m as int)[0] == all[m as int]);
            assert(all.take(m + 1).drop_last() =~= all.take(m as int));
        }
        let ghost old_rest = rest@;
        let c = rest.remove(0);
        proof {
            assert(rest@ =~= old_rest.drop_first());
            assert(cand_views(rest@) =~= cand_views(old_rest).drop_first());
            assert(all.skip(m as int).drop_first() =~= all.skip(m + 1));
        }
        if !key_seen(&kept, &c) {
            let ghost old_k = cand_views(kept@);
            kept.push(c);
            assert(cand_views(kept@) =~= old_k.push(all[m as int]));
        }
        m += 1;
    }
    assert(all.take(n as int) =~= all);
    // sort by source and target
    let ghost dv = cand_edges(cand_views(kept@));
    let mut sorted: Vec<DependencyEdge> = Vec::new();
    let kn = kept.len();
    let mut q: usize = 0;
    while q < kn
        invariant
            kn == dv.len(),
            q <= kn,
            kept@.len() == kn - q,
            cand_edges(cand_views(kept@)) == dv.skip(q as int),
            edge_views(sorted@) == sort_edges(dv.take(q as int)),
        decreases kn - q,
    {
        proof {
            assert(cand_edges(cand_views(kept@))[0] == kept@[0].edge@);
            assert(dv.skip(q as int)[0] == dv[q as int]);
            assert(dv.take(q + 1).drop_last() =~= dv.take(q as int));
        }
        let ghost old_kept = kept@;
        let c = kept.remove(0);
        proof {
            assert(kept@ =~= old_kept.drop_first());
            assert(cand_edges(cand_views(kept@)) =~= cand_edges(cand_views(old_kept)).drop_first());
            assert(dv.skip(q as int).drop_first() =~= dv.skip(q + 1));
        }
        insert_edge_exec(&mut sorted, c.edge);
        q += 1;
    }
    assert(dv.take(kn as int) =~= dv);
    let keep = if options.limit == 0 {
        1
    } else {
        options.limit
    };
    if sorted.len() > keep {
        sorted.truncate(keep);
    }
    assert(edge_views(sorted@) =~= dependency_graph(fv, tv, ov, options.limit));
    sorted
}

// ---------------------------------------------------------------------
// Edges around anchors
// ---------------------------------------------------------------------
/// Whether a path is one of the (non-empty) anchors.
pub open spec fn is_anchor(p: Seq<char>, anchors: Seq<Seq<char>>) -> bool {
    p.len() > 0 && anchors.contains(p)
}

/// The anchor rank of an edge.
pub open spec fn edge_rank(e: EdgeView, anchors: Seq<Seq<char>>) -> u8 {
    anchor_rank(is_anchor(e.source_path, anchors), is_anchor(e.target_path, anchors))
}

/// Order of edges around anchors: by anchor rank, then source, then target.
pub open spec fn related_before(a: EdgeView, b: EdgeView, anchors: Seq<Seq<char>>) -> bool {
    if edge_rank(a, anchors) != edge_rank(b, anchors) {
        edge_rank(a, anchors) < edge_rank(b, anchors)
    } else {
        edge_before(a, b)
    }
}

pub open spec fn insert_related(s: Seq<EdgeView>, x: EdgeView, anchors: Seq<Seq<char>>) -> Seq<EdgeView>
    decreases s.len(),
{
    if s.len() == 0 || !related_before(x, s.last(), anchors) {
        s.push(x)
    } else {
        insert_related(s.drop_last(), x, anchors).push(s.last())
    }
}

/// Stable sort of edges in `related_before` order.
pub open spec fn sort_related(s: Seq<EdgeView>, anchors: Seq<Seq<char>>) -> Seq<EdgeView>
    decreases s.len(),
{
    if s.len() == 0 {
        s
    } else {
        insert_related(sort_related(s.drop_last(), anchors), s.last(), anchors)
    }
}

/// The edges with an anchor at either end, in order.
pub open spec fn touching(s: Seq<EdgeView>, anchors: Seq<Seq<char>>) -> Seq<EdgeView>
    decreases s.len(),
{
    if s.len() == 0 {
        s
    } else if edge_rank(s.last(), anchors) < 3 {
        touching(s.drop_last(), anchors).push(s.last())
    } else {
        touching(s.drop_last(), anchors)
    }
}

/// The edges of a dependency graph around anchors: those with an anchor
/// at either end, edges into an anchor first, then edges out of one, then
/// edges between anchors, each group by source and target path; at most
/// `max(limit, 1)` edges.
pub open spec fn related_graph(edges: Seq<EdgeView>, anchors: Seq<Seq<char>>, limit: usize) -> Seq<EdgeView> {
    let sorted = sort_related(touching(edges, anchors), anchors);
    let keep = if limit == 0 { 1 } else { limit as int };
    if sorted.len() <= keep {
        sorted
    } else {
        sorted.take(keep)
    }
}

/// Edges in non-decreasing anchor rank.
pub open spec fn rank_sorted(s: Seq<EdgeView>, anchors: Seq<Seq<char>>) -> bool {
    forall|i: int, j: int| 0 <= i < j < s.len() ==> edge_rank(#[trigger] s[i], anchors) <= edge_rank(
        #[trigger] s[j],
        anchors,
    )
}

proof fn lemma_touching(s: Seq<EdgeView>, anchors: Seq<Seq<char>>)
    ensures
        forall|i: int| 0 <= i < touching(s, anchors).len() ==> s.contains(#[trigger] touching(s, anchors)[i])
            && edge_rank(touching(s, anchors)[i], anchors) < 3,
    decreases s.len(),
{
    if s.len() > 0 {
        lemma_touching(s.drop_last(), anchors);
        let t = touching(s.drop_last(), anchors);
        assert forall|i: int| 0 <= i < t.len() implies s.contains(#[trigger] t[i]) by {
            let k = choose|k: int| 0 <= k < s.drop_last().len() && s.drop_last()[k] == t[i];
            assert(s[k] == t[i]);
        }
        assert(s[s.len() - 1] == s.last());
    }
}

proof fn lemma_insert_related(s: Seq<EdgeView>, x: EdgeView, anchors: Seq<Seq<char>>)
    requires
        rank_sorted(s, anchors),
    ensures
        insert_related(s, x, anchors).len() == s.len() + 1,
        forall|i: int| 0 <= i < insert_related(s, x, anchors).len() ==> #[trigger] insert_related(s, x, anchors)[i]
            == x || s.contains(insert_related(s, x, anchors)[i]),
        rank_sorted(insert_related(s, x, anchors), anchors),
    decreases s.len(),
{
    let r = insert_related(s, x, anchors);
    if s.len() == 0 || !related_before(x, s.last(), anchors) {
        assert forall|i: int| 0 <= i < r.len() implies #[trigger] r[i] == x || s.contains(r[i]) by {
            if i < s.len() {
                assert(r[i] == s[i]);
            }
        }
        assert forall|i: int, j: int| 0 <= i < j < r.len() implies edge_rank(#[trigger] r[i], anchors)
            <= edge_rank(#[trigger] r[j], anchors) by {
            if j == s.len() {
                assert(r[i] == s[i]);
                if i < s.len() - 1 {
                    assert(edge_rank(s[i], anchors) <= edge_rank(s[s.len() - 1], anchors));
                }
            } else {
                assert(r[i] == s[i] && r[j] == s[j]);
            }
        }
    } else {
        let d = s.drop_last();
        assert(rank_sorted(d, anchors)) by {
            assert forall|i: int, j: int| 0 <= i < j < d.len() implies edge_rank(#[trigger] d[i], anchors)
                <= edge_rank(#[trigger] d[j], anchors) by {
                assert(d[i] == s[i] && d[j] == s[j]);
            }
        }
        lemma_insert_related(d, x, anchors);
        let q = insert_related(d, x, anchors);
        assert(r == q.push(s.last()));
        assert forall|i: int| 0 <= i < r.len() implies #[trigger] r[i] == x || s.contains(r[i]) by {
            if i == q.len() {
                assert(s[s.len() - 1] == r[i]);
            } else {
                assert(r[i] == q[i]);
                if q[i] != x {
                    let k = choose|k: int| 0 <= k < d.len() && d[k] == q[i];
                    assert(s[k] == q[i]);
                }
            }
        }
        assert forall|i: int, j: int| 0 <= i < j < r.len() implies edge_rank(#[trigger] r[i], anchors)
            <= edge_rank(#[trigger] r[j], anchors) by {
            if j == q.len() {
                assert(r[i] == q[i]);
                if q[i] == x {
                } else {
                    let k = choose|k: int| 0 <= k < d.len() && d[k] == q[i];
                    assert(s[k] == q[i]);
                    assert(edge_rank(s[k], anchors) <= edge_rank(s[s.len() - 1], anchors));
                }
            } else {
                assert(r[i] == q[i] && r[j] == q[j]);
            }
        }
    }
}

proof fn lemma_sort_related(s: Seq<EdgeView>, anchors: Seq<Seq<char>>)
    ensures
        sort_related(s, anchors).len() == s.len(),
        forall|i: int| 0 <= i < sort_related(s, anchors).len() ==> s.contains(#[trigger] sort_related(s, anchors)[i]),
        rank_sorted(sort_related(s, anchors), anchors),
    decreases s.len(),
{
    if s.len() > 0 {
        let d = s.drop_last();
        lemma_sort_related(d, anchors);
        let t = sort_related(d, anchors);
        lemma_insert_related(t, s.last(), anchors);
        let r = sort_related(s, anchors);
        assert forall|i: int| 0 <= i < r.len() implies s.contains(#[trigger] r[i]) by {
            if r[i] == s.last() {
                assert(s[s.len() - 1] == r[i]);
            } else {
                let k = choose|k: int| 0 <= k < t.len() && t[k] == r[i];
                assert(d.contains(t[k]));
                let m = choose|m: int| 0 <= m < d.len() && d[m] == t[k];
                assert(s[m] == r[i]);
            }
        }
    }
}

/// The edges around anchors: never more than `max(limit, 1)`; each is an
/// edge of the graph with an anchor at one end or both; they come in anchor
/// rank order (into an anchor, out of one, between anchors); and there are
/// none when every anchor is empty.
pub proof fn lemma_related_edges(edges: Seq<EdgeView>, anchors: Seq<Seq<char>>, limit: usize)
    ensures
        related_graph(edges, anchors, limit).len() <= if limit == 0 { 1 } else { limit as int },
        forall|i: int| 0 <= i < related_graph(edges, anchors, limit).len() ==> edges.contains(
            #[trigger] related_graph(edges, anchors, limit)[i],
        ) && edge_rank(related_graph(edges, anchors, limit)[i], anchors) < 3,
        rank_sorted(related_graph(edges, anchors, limit), anchors),
        (forall|k: int| 0 <= k < anchors.len() ==> (#[trigger] anchors[k]).len() == 0) ==> related_graph(
            edges,
            anchors,
            limit,
        ).len() == 0,
{
    let t = touching(edges, anchors);
    lemma_touching(edges, anchors);
    lemma_sort_related(t, anchors);
    let sorted = sort_related(t, anchors);
    let r = related_graph(edges, anchors, limit);
    assert forall|i: int| 0 <= i < r.len() implies edges.contains(#[trigger] r[i]) && edge_rank(r[i], anchors) < 3 by {
        assert(r[i] == sorted[i]);
        let k = choose|k: int| 0 <= k < t.len() && t[k] == sorted[i];
        assert(edge_rank(t[k], anchors) < 3);
    }
    assert forall|i: int, j: int| 0 <= i < j < r.len() implies edge_rank(#[trigger] r[i], anchors) <= edge_rank(
        #[trigger] r[j],
        anchors,
    ) by {
        assert(r[i] == sorted[i] && r[j] == sorted[j]);
    }
    if forall|k: int| 0 <= k < anchors.len() ==> (#[trigger] anchors[k]).len() == 0 {
        if r.len() > 0 {
            assert(r[0] == sorted[0]);
            let k = choose|k: int| 0 <= k < t.len() && t[k] == sorted[0];
            let e = t[k];
            assert(edge_rank(e, anchors) < 3);
            assert(is_anchor(e.source_path, anchors) || is_anchor(e.target_path, anchors));
            if is_anchor(e.source_path, anchors) {
                let m = choose|m: int| 0 <= m < anchors.len() && anchors[m] == e.source_path;
                assert(anchors[m].len() == 0);
            } else {
                let m = choose|m: int| 0 <= m < anchors.len() && anchors[m] == e.target_path;
                assert(anchors[m].len() == 0);
            }
        }
    }
}

fn edge_rank_exec(e: &DependencyEdge, anchors: &Vec<String>) -> (r: u8)
    ensures
        r == edge_rank(e@, str_views(anchors@)),
{
    let s = chars_of(e.source_path.as_str()).len() > 0 && contains_string(anchors, &e.source_path);
    let t = chars_of(e.target_path.as_str()).len() > 0 && contains_string(anchors, &e.target_path);
    edge_anchor_rank(s, t)
}

fn insert_related_exec(out: &mut Vec<DependencyEdge>, x: DependencyEdge, anchors: &Vec<String>)
    ensures
        edge_views(final(out)@) == insert_related(edge_views(old(out)@), x@, str_views(anchors@)),
{
    let ghost av = str_views(anchors@);
    let ghost xv = x@;
    let ghost orig = edge_views(out@);
    let xr = edge_rank_exec(&x, anchors);
    let mut j: usize = out.len();
    assert(orig.take(j as int) =~= orig);
    assert(orig.skip(j as int) =~= Seq::<EdgeView>::empty());
    loop
        invariant
            j <= out@.len(),
            orig == edge_views(out@),
            xv == x@,
            av == str_views(anchors@),
            xr == edge_rank(xv, av),
            insert_related(orig, xv, av) == insert_related(orig.take(j as int), xv, av) + orig.skip(j as int),
        ensures
            j <= out@.len(),
            orig == edge_views(out@),
            insert_related(orig, xv, av) == insert_related(orig.take(j as int), xv, av) + orig.skip(j as int),
            j == 0 || !related_before(xv, orig[j - 1], av),
        decreases j,
    {
        if j == 0 {
            break;
        }
        let yr = edge_rank_exec(&out[j - 1], anchors);
        let before = if xr != yr {
            xr < yr
        } else {
            edge_before_exec(&x, &out[j - 1])
        };
        if !before {
            assert(orig[j - 1] == out@[j - 1]@);
            break;
        }
        let ghost t = orig.take(j as int);
        assert(t.last() == out@[j - 1]@);
        assert(t.drop_last() =~= orig.take(j - 1));
        assert(orig.skip(j - 1) =~= seq![t.last()] + orig.skip(j as int));
        assert(insert_related(orig.take(j - 1), xv, av).push(t.last()) + orig.skip(j as int)
            =~= insert_related(orig.take(j - 1), xv, av) + orig.skip(j - 1));
        j -= 1;
    }
    proof {
        if j > 0 {
            assert(orig.take(j as int).last() == orig[j - 1]);
        }
        assert(insert_related(orig.take(j as int), xv, av) == orig.take(j as int).push(xv));
    }
    out.insert(j, x);
    assert(edge_views(out@) =~= orig.take(j as int).push(xv) + orig.skip(j as int));
}

/// The edges of a dependency graph (`edges`, taken whole) around the
/// anchor paths: edges into an anchor first, then edges out of one, then
/// edges between anchors, each group by source and target path; at most
/// `max(limit, 1)` edges. Empty anchors name nothing.
pub fn related_dependency_edges(
    edges: &Vec<DependencyEdge>,
    anchors: &Vec<String>,
    options: &DependencyOptions,
) -> (out: Vec<DependencyEdge>)
    ensures
        edge_views(out@) == related_graph(edge_views(edges@), str_views(anchors@), options.limit),
{
    let ghost ev = edge_views(edges@);
    let ghost av = str_views(anchors@);
    let mut sorted: Vec<DependencyEdge> = Vec::new();
    let mut i: usize = 0;
    while i < edges.len()
        invariant
            i <= edges@.len(),
            ev == edge_views(edges@),
            av == str_views(anchors@),
            edge_views(sorted@) == sort_related(touching(ev.take(i as int), av), av),
        decreases edges.len() - i,
    {
        let e = &edges[i];
        proof {
            assert(ev.take(i + 1).drop_last() =~= ev.take(i as int));
            assert(ev.take(i + 1).last() == e@);
        }
        if edge_rank_exec(e, anchors) < 3 {
            let c = DependencyEdge {
                source_path: e.source_path.clone(),
                target_path: e.target_path.clone(),
                kind: e.kind.clone(),
                confidence_bits: e.confidence_bits,
                reason: e.reason.clone(),
            };
            assert(c@ == e@);
            insert_related_exec(&mut sorted, c, anchors);
            proof {
                let tk = touching(ev.take(i as int), av);
                assert(touching(ev.take(i + 1), av) == tk.push(e@));
                assert(tk.push(e@).drop_last() =~= tk);
            }
        }
        i += 1;
    }
    assert(ev.take(ev.len() as int) =~= ev);
    let keep = if options.limit == 0 {
        1
    } else {
        options.limit
    };
    if sorted.len() > keep {
        sorted.truncate(keep);
    }
    sorted
}

// ---------------------------------------------------------------------
// Admitting precision edges
// ---------------------------------------------------------------------
/// An optional label kept only when it is not blank.
pub open spec fn nonblank(v: Option<Seq<char>>) -> Option<Seq<char>> {
    match v {
        Some(s) => if trim(s).len() == 0 {
            None
        } else {
            Some(s)
        },
        None => None,
    }
}

/// Whether a precision edge joins two safe files once its paths are read as
/// repository labels.
pub open spec fn edge_admitted(root: Seq<char>, safe: Seq<Seq<char>>, r: PrecisionView) -> bool {
    safe.contains(crate::inventory::input_label(root, r.source_path)) && safe.contains(
        crate::inventory::input_label(root, r.target_path),
    )
}

/// An admitted precision edge: its paths as repository labels and its edge
/// type normalised; on import, blank symbols and reasons are dropped.
pub open spec fn admitted_edge(root: Seq<char>, r: PrecisionView, importing: bool) -> PrecisionView {
    PrecisionView {
        source_path: crate::inventory::input_label(root, r.source_path),
        target_path: crate::inventory::input_label(root, r.target_path),
        edge_type: edge_type(r.edge_type),
        symbol: if importing {
            nonblank(r.symbol)
        } else {
            r.symbol
        },
        confidence_bits: r.confidence_bits,
        reason: if importing {
            nonblank(r.reason)
        } else {
            r.reason
        },
    }
}

/// The admitted edges of a list of records, in order.
pub open spec fn admitted_edges(root: Seq<char>, safe: Seq<Seq<char>>, rs: Seq<PrecisionView>, importing: bool) -> Seq<PrecisionView>
    decreases rs.len(),
{
    if rs.len() == 0 {
        seq![]
    } else if edge_admitted(root, safe, rs.last()) {
        admitted_edges(root, safe, rs.drop_last(), importing).push(
            admitted_edge(root, rs.last(), importing),
        )
    } else {
        admitted_edges(root, safe, rs.drop_last(), importing)
    }
}

/// The number of records that were not admitted.
pub open spec fn rejected_edges(root: Seq<char>, safe: Seq<Seq<char>>, rs: Seq<PrecisionView>) -> nat
    decreases rs.len(),
{
    if rs.len() == 0 {
        0
    } else {
        rejected_edges(root, safe, rs.drop_last()) + if edge_admitted(root, safe, rs.last()) {
            0nat
        } else {
            1
        }
    }
}

fn nonblank_label(v: Option<String>) -> (r: Option<String>)
    ensures
        opt_view(r) == nonblank(opt_view(v)),
{
    match v {
        Some(s) => {
            let c = chars_of(s.as_str());
            if trim_vec(&c).len() == 0 {
                None
            } else {
                Some(s)
            }
        },
        None => None,
    }
}

/// Admits the precision edges whose source and target, read as repository
/// labels under `repo_root`, are both among `safe_paths`, normalising them
/// (on import, `importing`, blank symbols and reasons are dropped), and
/// counts the records left out.
pub fn admit_precision_edges(
    repo_root: &str,
    safe_paths: &Vec<String>,
    records: Vec<PrecisionEdgeRecord>,
    importing: bool,
) -> (r: (Vec<PrecisionEdgeRecord>, usize))
    ensures
        precision_views(r.0@) == admitted_edges(
            repo_root@,
            crate::model::str_views(safe_paths@),
            precision_views(records@),
            importing,
        ),
        r.1 == rejected_edges(
            repo_root@,
            crate::model::str_views(safe_paths@),
            precision_views(records@),
        ),
{
    let ghost safe = crate::model::str_views(safe_paths@);
    let ghost rv = precision_views(records@);
    let mut out: Vec<PrecisionEdgeRecord> = Vec::new();
    let mut rejected: usize = 0;
    let mut rest = records;
    let n = rest.len();
    let mut i: usize = 0;
    while i < n
        invariant
            n == rv.len(),
            i <= n,
            safe == crate::model::str_views(safe_paths@),
            rest@.len() == n - i,
            precision_views(rest@) == rv.skip(i as int),
            precision_views(out@) == admitted_edges(repo_root@, safe, rv.take(i as int), importing),
            rejected == rejected_edges(repo_root@, safe, rv.take(i as int)),
            rejected <= i,
        decreases n - i,
    {
        proof {
            assert(precision_views(rest@)[0] == rest@[0]@);
            assert(rv.skip(i as int)[0] == rv[i as int]);
            assert(rv.take(i + 1).drop_last() =~= rv.take(i as int));
            assert(rv.take(i + 1).last() == rv[i as int]);
        }
        let ghost old_rest = rest@;
        let rec = rest.remove(0);
        proof {
            assert(rest@ =~= old_rest.drop_first());
            assert(precision_views(rest@) =~= precision_views(old_rest).drop_first());
            assert(rv.skip(i as int).drop_first() =~= rv.skip(i + 1));
        }
        let source_path = crate::inventory::normalize_input_path(repo_root, rec.source_path.as_str());
        let target_path = crate::inventory::normalize_input_path(repo_root, rec.target_path.as_str());
        if crate::strs::contains_string(safe_paths, &source_path) && crate::strs::contains_string(
            safe_paths,
            &target_path,
        ) {
            let edge_type = precision_edge_type(rec.edge_type.as_str());
            let symbol = if importing {
                nonblank_label(rec.symbol)
            } else {
                rec.symbol
            };
            let reason = if importing {
                nonblank_label(rec.reason)
            } else {
                rec.reason
            };
            let admitted = PrecisionEdgeRecord {
                source_path,
                target_path,
                edge_type,
                symbol,
                confidence_bits: rec.confidence_bits,
                reason,
            };
            let ghost before = precision_views(out@);
            out.push(admitted);
            assert(precision_views(out@) =~= before.push(out@[out@.len() - 1]@));
        } else {
            rejected += 1;
        }
        i += 1;
    }
    assert(rv.take(n as int) =~= rv);
    (out, rejected)
}

/// The warning about precision records left out, with their number: on
/// import (`importing`) or when the overlay is read.
pub fn precision_rejected_diagnostic(count: usize, importing: bool) -> (d: crate::model::Diagnostic)
    ensures
        d.code@ == "precision_edges_rejected"@,
        d.severity == crate::model::DiagnosticSeverity::Warning,
        d.message@ == if importing {
            "Precision edge import rejected records whose source or target path was not in the safe local inventory."@
        } else {
            "Precision edge overlay ignored records whose source or target path was not in the safe local inventory."@
        },
        d.count == count,
        d.paths@.len() == 0,
{
    crate::model::Diagnostic {
        code: String::from_str("precision_edges_rejected"),
        severity: crate::model::DiagnosticSeverity::Warning,
        message: if importing {
            String::from_str("Precision edge import rejected records whose source or target path was not in the safe local inventory.")
        } else {
            String::from_str("Precision edge overlay ignored records whose source or target path was not in the safe local inventory.")
        },
        count,
        paths: Vec::new(),
    }
}

} // verus!
