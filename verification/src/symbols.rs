//! Line-oriented symbol extraction for the supported languages.
use vstd::prelude::*;

use crate::inventory::FileInventoryEntry;
use crate::model::opt_view;
use crate::text::{
    chars_of, contains, lex_lt, string_eq, string_lt, find, find_char, find_exec, identifier_after, identifier_after_exec,
    last_word, last_word_exec, lines, lines_exec, quoted_value, quoted_value_exec, slice_of,
    split_once, split_once_str, starts_with, starts_with_str, str_seq, strip_modifiers,
    strip_modifiers_exec, strip_prefix, strip_prefix_str, take_chars, take_chars_exec,
    take_identifier, take_identifier_exec, trim, trim_vec,
};

verus! {

/// Options for symbol search.
#[derive(Debug, Clone, Copy, PartialEq, Eq, Structural)]
pub struct SymbolOptions {
    pub limit: usize,
}

impl SymbolOptions {
    /// The default result limit, 20.
    pub fn default_options() -> (o: SymbolOptions)
        ensures
            o.limit == 20,
    {
        SymbolOptions { limit: 20 }
    }
}

impl Default for SymbolOptions {
    fn default() -> (o: SymbolOptions)
        ensures
            o.limit == 20,
    {
        SymbolOptions { limit: 20 }
    }
}

/// The kind of a code symbol.
#[derive(Debug, Clone, Copy, PartialEq, Eq, Structural)]
pub enum SymbolKind {
    Function,
    Method,
    Class,
    Interface,
    Type,
    Constant,
    Import,
    Module,
}

/// A symbol definition found in a source file.
#[derive(Debug, Clone)]
pub struct CodeSymbol {
    pub name: String,
    pub kind: SymbolKind,
    pub path: String,
    pub language: Option<String>,
    pub start_line: u32,
    pub end_line: u32,
    pub signature: String,
    pub exported: bool,
}

/// The mathematical content of a code symbol.
pub ghost struct CodeSymbolView {
    pub name: Seq<char>,
    pub kind: SymbolKind,
    pub path: Seq<char>,
    pub language: Option<Seq<char>>,
    pub start_line: u32,
    pub end_line: u32,
    pub signature: Seq<char>,
    pub exported: bool,
}

impl View for CodeSymbol {
    type V = CodeSymbolView;

    open spec fn view(&self) -> CodeSymbolView {
        CodeSymbolView {
            name: self.name@,
            kind: self.kind,
            path: self.path@,
            language: opt_view(self.language),
            start_line: self.start_line,
            end_line: self.end_line,
            signature: self.signature@,
            exported: self.exported,
        }
    }
}

/// The views of a sequence of symbols.
pub open spec fn symbol_views(v: Seq<CodeSymbol>) -> Seq<CodeSymbolView> {
    v.map_values(|s: CodeSymbol| s@)
}

/// What a single line declares.
pub ghost struct LineFact {
    pub name: Seq<char>,
    pub kind: SymbolKind,
    pub exported: bool,
}

/// Executable form of a line fact.
pub struct LineSym {
    pub name: Vec<char>,
    pub kind: SymbolKind,
    pub exported: bool,
}

pub open spec fn line_sym_view(o: Option<LineSym>) -> Option<LineFact> {
    match o {
        Some(s) => Some(LineFact { name: s.name@, kind: s.kind, exported: s.exported }),
        None => None,
    }
}

pub open spec fn fact(name: Seq<char>, kind: SymbolKind, exported: bool) -> Option<LineFact> {
    Some(LineFact { name, kind, exported })
}

/// `s` starts with one of the patterns.
pub open spec fn starts_with_any(s: Seq<char>, ps: Seq<Seq<char>>) -> bool {
    exists|i: int| 0 <= i < ps.len() && starts_with(s, ps[i])
}

fn starts_with_any_exec(s: &[char], ps: &[&str]) -> (b: bool)
    ensures
        b == starts_with_any(s@, str_seq(ps@)),
{
    let mut i: usize = 0;
    while i < ps.len()
        invariant
            i <= ps@.len(),
            forall|j: int| 0 <= j < i ==> !starts_with(s@, str_seq(ps@)[j]),
        decreases ps.len() - i,
    {
        if starts_with_str(s, ps[i]) {
            assert(starts_with(s@, str_seq(ps@)[i as int]));
            return true;
        }
        i += 1;
    }
    false
}

// ---------------------------------------------------------------------
// JavaScript / TypeScript
// ---------------------------------------------------------------------
pub open spec fn js_mods() -> Seq<Seq<char>> {
    seq![
        "export"@,
        "default"@,
        "declare"@,
        "async"@,
        "public"@,
        "private"@,
        "protected"@,
        "static"@,
        "readonly"@,
    ]
}

/// The module named by an import statement.
pub open spec fn import_name(line: Seq<char>) -> Option<Seq<char>> {
    match split_once(line, " from "@) {
        Some((_, module)) => quoted_value(module),
        None => match strip_prefix(line, "import "@) {
            Some(rest) => quoted_value(rest),
            None => None,
        },
    }
}

/// A `const`, `let` or `var` binding name.
pub open spec fn variable_name(line: Seq<char>) -> Option<Seq<char>> {
    match identifier_after(line, "const "@) {
        Some(n) => Some(n),
        None => match identifier_after(line, "let "@) {
            Some(n) => Some(n),
            None => identifier_after(line, "var "@),
        },
    }
}

pub open spec fn js_disallowed() -> Seq<Seq<char>> {
    seq!["if "@, "for "@, "while "@, "switch "@, "catch "@, "return "@, "function "@]
}

/// The name before the first `(` of a method-like line.
pub open spec fn js_method_name(line: Seq<char>) -> Option<Seq<char>> {
    if starts_with_any(line, js_disallowed()) {
        None
    } else {
        match find(line, seq!['(']) {
            None => None,
            Some(open) => {
                let before = trim(line.take(open));
                if contains(before, seq!['=']) || contains(before, seq![' ']) || before.len()
                    == 0 {
                    None
                } else {
                    take_identifier(before)
                }
            },
        }
    }
}

/// What a JavaScript or TypeScript line declares.
pub open spec fn js_line(line: Seq<char>) -> Option<LineFact> {
    let t = trim(line);
    if t.len() == 0 || starts_with(t, "//"@) {
        None
    } else if starts_with(t, "import "@) {
        match import_name(t) {
            Some(n) => fact(n, SymbolKind::Import, false),
            None => None,
        }
    } else {
        let exported = starts_with(t, "export "@);
        let rest = strip_modifiers(t, js_mods());
        match identifier_after(rest, "function "@) {
            Some(n) => fact(n, SymbolKind::Function, exported),
            None => match identifier_after(rest, "class "@) {
                Some(n) => fact(n, SymbolKind::Class, exported),
                None => match identifier_after(rest, "interface "@) {
                    Some(n) => fact(n, SymbolKind::Interface, exported),
                    None => match identifier_after(rest, "type "@) {
                        Some(n) => fact(n, SymbolKind::Type, exported),
                        None => match variable_name(rest) {
                            Some(n) => fact(n, SymbolKind::Constant, exported),
                            None => match js_method_name(rest) {
                                Some(n) => fact(n, SymbolKind::Method, exported),
                                None => None,
                            },
                        },
                    },
                },
            },
        }
    }
}

fn import_name_exec(line: &[char]) -> (r: Option<Vec<char>>)
    ensures
        match r {
            Some(v) => import_name(line@) == Some(v@),
            None => import_name(line@) is None,
        },
{
    match split_once_str(line, " from ") {
        Some((_, module)) => quoted_value_exec(&module),
        None => match strip_prefix_str(line, "import ") {
            Some(rest) => quoted_value_exec(&rest),
            None => None,
        },
    }
}

fn variable_name_exec(line: &[char]) -> (r: Option<Vec<char>>)
    ensures
        match r {
            Some(v) => variable_name(line@) == Some(v@),
            None => variable_name(line@) is None,
        },
{
    match identifier_after_exec(line, "const ") {
        Some(n) => Some(n),
        None => match identifier_after_exec(line, "let ") {
            Some(n) => Some(n),
            None => identifier_after_exec(line, "var "),
        },
    }
}

fn js_method_name_exec(line: &[char]) -> (r: Option<Vec<char>>)
    ensures
        match r {
            Some(v) => js_method_name(line@) == Some(v@),
            None => js_method_name(line@) is None,
        },
{
    let disallowed: [&str; 7] = ["if ", "for ", "while ", "switch ", "catch ", "return ", "function "];
    assert(str_seq(disallowed@) =~= js_disallowed());
    if starts_with_any_exec(line, &disallowed) {
        return None;
    }
    match find_char(line, '(') {
        None => None,
        Some(open) => {
            let head = slice_of(line, 0, open);
            let before = trim_vec(&head);
            let eq = vec!['='];
            let sp = vec![' '];
            assert(eq@ =~= seq!['=']);
            assert(sp@ =~= seq![' ']);
            let has_eq = match find_exec(&before, &eq) {
                Some(_) => true,
                None => false,
            };
            let has_sp = match find_exec(&before, &sp) {
                Some(_) => true,
                None => false,
            };
            if has_eq || has_sp || before.len() == 0 {
                None
            } else {
                take_identifier_exec(&before)
            }
        },
    }
}

fn sym(name: Vec<char>, kind: SymbolKind, exported: bool) -> (r: Option<LineSym>)
    ensures
        line_sym_view(r) == fact(name@, kind, exported),
{
    Some(LineSym { name, kind, exported })
}

/// Executable `js_line`.
pub fn js_line_exec(line: &[char]) -> (r: Option<LineSym>)
    ensures
        line_sym_view(r) == js_line(line@),
{
    let t = trim_vec(line);
    if t.len() == 0 || starts_with_str(&t, "//") {
        return None;
    }
    if starts_with_str(&t, "import ") {
        return match import_name_exec(&t) {
            Some(n) => sym(n, SymbolKind::Import, false),
            None => None,
        };
    }
    let exported = starts_with_str(&t, "export ");
    let mods: [&str; 9] = [
        "export",
        "default",
        "declare",
        "async",
        "public",
        "private",
        "protected",
        "static",
        "readonly",
    ];
    assert(str_seq(mods@) =~= js_mods());
    let rest = strip_modifiers_exec(&t, &mods);
    if let Some(n) = identifier_after_exec(&rest, "function ") {
        sym(n, SymbolKind::Function, exported)
    } else if let Some(n) = identifier_after_exec(&rest, "class ") {
        sym(n, SymbolKind::Class, exported)
    } else if let Some(n) = identifier_after_exec(&rest, "interface ") {
        sym(n, SymbolKind::Interface, exported)
    } else if let Some(n) = identifier_after_exec(&rest, "type ") {
        sym(n, SymbolKind::Type, exported)
    } else if let Some(n) = variable_name_exec(&rest) {
        sym(n, SymbolKind::Constant, exported)
    } else if let Some(n) = js_method_name_exec(&rest) {
        sym(n, SymbolKind::Method, exported)
    } else {
        None
    }
}

// ---------------------------------------------------------------------
// Python
// ---------------------------------------------------------------------
pub open spec fn python_mods() -> Seq<Seq<char>> {
    seq!["async"@]
}

/// What a Python line declares; indented `def`s are methods.
pub open spec fn python_line(line: Seq<char>) -> Option<LineFact> {
    let t = trim(line);
    if t.len() == 0 || starts_with(t, "#"@) {
        None
    } else {
        let indented = line.len() > 0 && crate::text::is_ws(line[0]);
        let rest = strip_modifiers(t, python_mods());
        match identifier_after(rest, "def "@) {
            Some(n) => fact(
                n,
                if indented {
                    SymbolKind::Method
                } else {
                    SymbolKind::Function
                },
                false,
            ),
            None => match identifier_after(rest, "class "@) {
                Some(n) => fact(n, SymbolKind::Class, false),
                None => None,
            },
        }
    }
}

/// Executable `python_line`.
pub fn python_line_exec(line: &[char]) -> (r: Option<LineSym>)
    ensures
        line_sym_view(r) == python_line(line@),
{
    let t = trim_vec(line);
    if t.len() == 0 || starts_with_str(&t, "#") {
        return None;
    }
    let indented = line.len() > 0 && crate::text::ws(line[0]);
    let mods: [&str; 1] = ["async"];
    assert(str_seq(mods@) =~= python_mods());
    let rest = strip_modifiers_exec(&t, &mods);
    if let Some(n) = identifier_after_exec(&rest, "def ") {
        let kind = if indented {
            SymbolKind::Method
        } else {
            SymbolKind::Function
        };
        sym(n, kind, false)
    } else if let Some(n) = identifier_after_exec(&rest, "class ") {
        sym(n, SymbolKind::Class, false)
    } else {
        None
    }
}

// ---------------------------------------------------------------------
// Rust
// ---------------------------------------------------------------------
pub open spec fn rust_mods() -> Seq<Seq<char>> {
    seq!["pub"@, "async"@, "unsafe"@]
}

/// What a Rust line declares: the first matching item keyword wins.
pub open spec fn rust_line(line: Seq<char>) -> Option<LineFact> {
    let t = trim(line);
    if t.len() == 0 || starts_with(t, "//"@) || starts_with(t, "#["@) {
        None
    } else {
        let e = starts_with(t, "pub "@);
        let rest = strip_modifiers(t, rust_mods());
        match identifier_after(rest, "fn "@) {
            Some(n) => fact(n, SymbolKind::Function, e),
            None => match identifier_after(rest, "struct "@) {
                Some(n) => fact(n, SymbolKind::Class, e),
                None => match identifier_after(rest, "enum "@) {
                    Some(n) => fact(n, SymbolKind::Type, e),
                    None => match identifier_after(rest, "trait "@) {
                        Some(n) => fact(n, SymbolKind::Interface, e),
                        None => match identifier_after(rest, "type "@) {
                            Some(n) => fact(n, SymbolKind::Type, e),
                            None => match identifier_after(rest, "const "@) {
                                Some(n) => fact(n, SymbolKind::Constant, e),
                                None => match identifier_after(rest, "static "@) {
                                    Some(n) => fact(n, SymbolKind::Constant, e),
                                    None => match identifier_after(rest, "mod "@) {
                                        Some(n) => fact(n, SymbolKind::Module, e),
                                        None => None,
                                    },
                                },
                            },
                        },
                    },
                },
            },
        }
    }
}

/// Executable `rust_line`.
pub fn rust_line_exec(line: &[char]) -> (r: Option<LineSym>)
    ensures
        line_sym_view(r) == rust_line(line@),
{
    let t = trim_vec(line);
    if t.len() == 0 || starts_with_str(&t, "//") || starts_with_str(&t, "#[") {
        return None;
    }
    let e = starts_with_str(&t, "pub ");
    let mods: [&str; 3] = ["pub", "async", "unsafe"];
    assert(str_seq(mods@) =~= rust_mods());
    let rest = strip_modifiers_exec(&t, &mods);
    if let Some(n) = identifier_after_exec(&rest, "fn ") {
        sym(n, SymbolKind::Function, e)
    } else if let Some(n) = identifier_after_exec(&rest, "struct ") {
        sym(n, SymbolKind::Class, e)
    } else if let Some(n) = identifier_after_exec(&rest, "enum ") {
        sym(n, SymbolKind::Type, e)
    } else if let Some(n) = identifier_after_exec(&rest, "trait ") {
        sym(n, SymbolKind::Interface, e)
    } else if let Some(n) = identifier_after_exec(&rest, "type ") {
        sym(n, SymbolKind::Type, e)
    } else if let Some(n) = identifier_after_exec(&rest, "const ") {
        sym(n, SymbolKind::Constant, e)
    } else if let Some(n) = identifier_after_exec(&rest, "static ") {
        sym(n, SymbolKind::Constant, e)
    } else if let Some(n) = identifier_after_exec(&rest, "mod ") {
        sym(n, SymbolKind::Module, e)
    } else {
        None
    }
}

// ---------------------------------------------------------------------
// Go
// ---------------------------------------------------------------------
/// Whether a character has the Unicode `Uppercase` property
/// (`char::is_uppercase`).
pub uninterp spec fn unicode_uppercase(c: char) -> bool;

/// Calls `char::is_uppercase`. Its result is named `unicode_uppercase`;
/// the contract also states that on ASCII characters it agrees with
/// `char::is_ascii_uppercase`, as the documentation of both shows. What it
/// returns on other characters (the Unicode tables) is left unsaid.
#[verifier::external_body]
fn char_is_uppercase(c: char) -> (b: bool)
    ensures
        b == unicode_uppercase(c),
        (c as u32) < 128 ==> (b == crate::text::is_upper(c)),
{
    c.is_uppercase()
}

/// Go exports names that start with an uppercase letter.
pub open spec fn is_exported_go(name: Seq<char>) -> bool {
    name.len() > 0 && unicode_uppercase(name[0])
}

fn is_exported_go_exec(name: &[char]) -> (b: bool)
    ensures
        b == is_exported_go(name@),
{
    name.len() > 0 && char_is_uppercase(name[0])
}

/// The function name of a `func` line, skipping a method receiver.
pub open spec fn go_func_name(line: Seq<char>) -> Option<Seq<char>> {
    match strip_prefix(line, "func "@) {
        None => None,
        Some(rest) => if rest.len() > 0 && rest[0] == '(' {
            match find(rest, seq![')']) {
                None => None,
                Some(close) => take_identifier(crate::text::trim_start(rest.skip(close + 1))),
            }
        } else {
            take_identifier(rest)
        },
    }
}

/// What a Go line declares.
pub open spec fn go_line(line: Seq<char>) -> Option<LineFact> {
    let t = trim(line);
    if t.len() == 0 || starts_with(t, "//"@) {
        None
    } else {
        match go_func_name(t) {
            Some(n) => fact(n, SymbolKind::Function, is_exported_go(n)),
            None => match identifier_after(t, "type "@) {
                Some(n) => fact(
                    n,
                    if contains(t, " interface"@) {
                        SymbolKind::Interface
                    } else {
                        SymbolKind::Type
                    },
                    is_exported_go(n),
                ),
                None => None,
            },
        }
    }
}

fn go_func_name_exec(line: &[char]) -> (r: Option<Vec<char>>)
    ensures
        match r {
            Some(v) => go_func_name(line@) == Some(v@),
            None => go_func_name(line@) is None,
        },
{
    match strip_prefix_str(line, "func ") {
        None => None,
        Some(rest) => {
            if rest.len() > 0 && rest[0] == '(' {
                match find_char(&rest, ')') {
                    None => None,
                    Some(close) => {
                        let after = slice_of(&rest, close + 1, rest.len());
                        let t = crate::text::trim_start_vec(&after);
                        take_identifier_exec(&t)
                    },
                }
            } else {
                take_identifier_exec(&rest)
            }
        },
    }
}

/// Executable `go_line`.
pub fn go_line_exec(line: &[char]) -> (r: Option<LineSym>)
    ensures
        line_sym_view(r) == go_line(line@),
{
    let t = trim_vec(line);
    if t.len() == 0 || starts_with_str(&t, "//") {
        return None;
    }
    if let Some(n) = go_func_name_exec(&t) {
        let e = is_exported_go_exec(&n);
        sym(n, SymbolKind::Function, e)
    } else if let Some(n) = identifier_after_exec(&t, "type ") {
        let kind = if crate::text::contains_str(&t, " interface") {
            SymbolKind::Interface
        } else {
            SymbolKind::Type
        };
        let e = is_exported_go_exec(&n);
        sym(n, kind, e)
    } else {
        None
    }
}

// ---------------------------------------------------------------------
// Java
// ---------------------------------------------------------------------
pub open spec fn java_mods() -> Seq<Seq<char>> {
    seq![
        "public"@,
        "protected"@,
        "private"@,
        "abstract"@,
        "static"@,
        "final"@,
        "sealed"@,
        "non-sealed"@,
        "strictfp"@,
        "synchronized"@,
        "native"@,
        "default"@,
    ]
}

pub open spec fn java_is_public(line: Seq<char>) -> bool {
    starts_with(line, "public "@) || contains(line, " public "@)
}

/// The name of a `static` field: the last word before `=`.
pub open spec fn java_constant_name(line: Seq<char>) -> Option<Seq<char>> {
    if !contains(line, " static "@) && !starts_with(line, "static "@) {
        None
    } else {
        match last_word(trim(crate::text::before_char(line, '='))) {
            None => None,
            Some(name) => take_identifier(name),
        }
    }
}

pub open spec fn java_disallowed() -> Seq<Seq<char>> {
    seq![
        "if "@,
        "for "@,
        "while "@,
        "switch "@,
        "catch "@,
        "return "@,
        "throw "@,
        "new "@,
        "else "@,
        "do "@,
    ]
}

/// The method name: the last word before the first `(`.
pub open spec fn java_method_name(line: Seq<char>) -> Option<Seq<char>> {
    if starts_with_any(line, java_disallowed()) {
        None
    } else {
        match find(line, seq!['(']) {
            None => None,
            Some(open) => {
                let before = trim(line.take(open));
                if before.len() == 0 || contains(before, seq!['=']) || crate::text::ends_with(
                    before,
                    seq!['.'],
                ) {
                    None
                } else {
                    match last_word(before) {
                        None => None,
                        Some(name) => take_identifier(name),
                    }
                }
            },
        }
    }
}

/// What a Java line declares.
pub open spec fn java_line(line: Seq<char>) -> Option<LineFact> {
    let t = trim(line);
    if t.len() == 0 || starts_with(t, "//"@) || starts_with(t, "@"@) {
        None
    } else {
        let e = java_is_public(t);
        let rest = strip_modifiers(t, java_mods());
        match identifier_after(rest, "class "@) {
            Some(n) => fact(n, SymbolKind::Class, e),
            None => match identifier_after(rest, "interface "@) {
                Some(n) => fact(n, SymbolKind::Interface, e),
                None => match identifier_after(rest, "enum "@) {
                    Some(n) => fact(n, SymbolKind::Type, e),
                    None => match identifier_after(rest, "record "@) {
                        Some(n) => fact(n, SymbolKind::Type, e),
                        None => match java_constant_name(t) {
                            Some(n) => fact(n, SymbolKind::Constant, e),
                            None => match java_method_name(rest) {
                                Some(n) => fact(n, SymbolKind::Method, e),
                                None => None,
                            },
                        },
                    },
                },
            },
        }
    }
}

fn java_constant_name_exec(line: &[char]) -> (r: Option<Vec<char>>)
    ensures
        match r {
            Some(v) => java_constant_name(line@) == Some(v@),
            None => java_constant_name(line@) is None,
        },
{
    if !crate::text::contains_str(line, " static ") && !starts_with_str(line, "static ") {
        return None;
    }
    let before = crate::text::before_char_exec(line, '=');
    let t = trim_vec(&before);
    match last_word_exec(&t) {
        None => None,
        Some(name) => take_identifier_exec(&name),
    }
}

fn java_method_name_exec(line: &[char]) -> (r: Option<Vec<char>>)
    ensures
        match r {
            Some(v) => java_method_name(line@) == Some(v@),
            None => java_method_name(line@) is None,
        },
{
    let disallowed: [&str; 10] = [
        "if ",
        "for ",
        "while ",
        "switch ",
        "catch ",
        "return ",
        "throw ",
        "new ",
        "else ",
        "do ",
    ];
    assert(str_seq(disallowed@) =~= java_disallowed());
    if starts_with_any_exec(line, &disallowed) {
        return None;
    }
    match find_char(line, '(') {
        None => None,
        Some(open) => {
            let head = slice_of(line, 0, open);
            let before = trim_vec(&head);
            let eq = vec!['='];
            let dot = vec!['.'];
            assert(eq@ =~= seq!['=']);
            assert(dot@ =~= seq!['.']);
            let has_eq = match find_exec(&before, &eq) {
                Some(_) => true,
                None => false,
            };
            if before.len() == 0 || has_eq || crate::text::ends_with_exec(&before, &dot) {
                None
            } else {
                match last_word_exec(&before) {
                    None => None,
                    Some(name) => take_identifier_exec(&name),
                }
            }
        },
    }
}

/// Executable `java_line`.
pub fn java_line_exec(line: &[char]) -> (r: Option<LineSym>)
    ensures
        line_sym_view(r) == java_line(line@),
{
    let t = trim_vec(line);
    if t.len() == 0 || starts_with_str(&t, "//") || starts_with_str(&t, "@") {
        return None;
    }
    let e = starts_with_str(&t, "public ") || crate::text::contains_str(&t, " public ");
    let mods: [&str; 12] = [
        "public",
        "protected",
        "private",
        "abstract",
        "static",
        "final",
        "sealed",
        "non-sealed",
        "strictfp",
        "synchronized",
        "native",
        "default",
    ];
    assert(str_seq(mods@) =~= java_mods());
    let rest = strip_modifiers_exec(&t, &mods);
    if let Some(n) = identifier_after_exec(&rest, "class ") {
        sym(n, SymbolKind::Class, e)
    } else if let Some(n) = identifier_after_exec(&rest, "interface ") {
        sym(n, SymbolKind::Interface, e)
    } else if let Some(n) = identifier_after_exec(&rest, "enum ") {
        sym(n, SymbolKind::Type, e)
    } else if let Some(n) = identifier_after_exec(&rest, "record ") {
        sym(n, SymbolKind::Type, e)
    } else if let Some(n) = java_constant_name_exec(&t) {
        sym(n, SymbolKind::Constant, e)
    } else if let Some(n) = java_method_name_exec(&rest) {
        sym(n, SymbolKind::Method, e)
    } else {
        None
    }
}

// ---------------------------------------------------------------------
// Kotlin
// ---------------------------------------------------------------------
pub open spec fn kotlin_mods() -> Seq<Seq<char>> {
    seq![
        "public"@,
        "internal"@,
        "private"@,
        "protected"@,
        "open"@,
        "abstract"@,
        "sealed"@,
        "data"@,
        "value"@,
        "inner"@,
        "companion"@,
        "inline"@,
        "suspend"@,
        "operator"@,
        "override"@,
        "tailrec"@,
    ]
}

/// A `val` or `var` binding name.
pub open spec fn kotlin_value_name(line: Seq<char>) -> Option<Seq<char>> {
    match identifier_after(line, "val "@) {
        Some(n) => Some(n),
        None => identifier_after(line, "var "@),
    }
}

/// What a Kotlin line declares; everything not `private` is exported.
pub open spec fn kotlin_line(line: Seq<char>) -> Option<LineFact> {
    let t = trim(line);
    if t.len() == 0 || starts_with(t, "//"@) || starts_with(t, "@"@) || t == "}"@ {
        None
    } else {
        let e = !starts_with(t, "private "@);
        let rest = strip_modifiers(t, kotlin_mods());
        match identifier_after(rest, "class "@) {
            Some(n) => fact(n, SymbolKind::Class, e),
            None => match identifier_after(rest, "interface "@) {
                Some(n) => fact(n, SymbolKind::Interface, e),
                None => match identifier_after(rest, "object "@) {
                    Some(n) => fact(n, SymbolKind::Module, e),
                    None => match identifier_after(rest, "typealias "@) {
                        Some(n) => fact(n, SymbolKind::Type, e),
                        None => match identifier_after(rest, "fun "@) {
                            Some(n) => fact(n, SymbolKind::Function, e),
                            None => match kotlin_value_name(rest) {
                                Some(n) => fact(n, SymbolKind::Constant, e),
                                None => None,
                            },
                        },
                    },
                },
            },
        }
    }
}

/// Executable `kotlin_line`.
pub fn kotlin_line_exec(line: &[char]) -> (r: Option<LineSym>)
    ensures
        line_sym_view(r) == kotlin_line(line@),
{
    let t = trim_vec(line);
    if t.len() == 0 || starts_with_str(&t, "//") || starts_with_str(&t, "@") || crate::text::eq_str(
        &t,
        "}",
    ) {
        return None;
    }
    let e = !starts_with_str(&t, "private ");
    let mods: [&str; 16] = [
        "public",
        "internal",
        "private",
        "protected",
        "open",
        "abstract",
        "sealed",
        "data",
        "value",
        "inner",
        "companion",
        "inline",
        "suspend",
        "operator",
        "override",
        "tailrec",
    ];
    assert(str_seq(mods@) =~= kotlin_mods());
    let rest = strip_modifiers_exec(&t, &mods);
    if let Some(n) = identifier_after_exec(&rest, "class ") {
        sym(n, SymbolKind::Class, e)
    } else if let Some(n) = identifier_after_exec(&rest, "interface ") {
        sym(n, SymbolKind::Interface, e)
    } else if let Some(n) = identifier_after_exec(&rest, "object ") {
        sym(n, SymbolKind::Module, e)
    } else if let Some(n) = identifier_after_exec(&rest, "typealias ") {
        sym(n, SymbolKind::Type, e)
    } else if let Some(n) = identifier_after_exec(&rest, "fun ") {
        sym(n, SymbolKind::Function, e)
    } else if let Some(n) = identifier_after_exec(&rest, "val ") {
        sym(n, SymbolKind::Constant, e)
    } else if let Some(n) = identifier_after_exec(&rest, "var ") {
        sym(n, SymbolKind::Constant, e)
    } else {
        None
    }
}

// ---------------------------------------------------------------------
// Whole files
// ---------------------------------------------------------------------
/// The line scanners, one per supported language family.
#[derive(Debug, Clone, Copy, PartialEq, Eq, Structural)]
pub enum ScanLang {
    JsLike,
    Python,
    Rust,
    Go,
    Java,
    Kotlin,
}

pub open spec fn line_fact(lang: ScanLang, line: Seq<char>) -> Option<LineFact> {
    match lang {
        ScanLang::JsLike => js_line(line),
        ScanLang::Python => python_line(line),
        ScanLang::Rust => rust_line(line),
        ScanLang::Go => go_line(line),
        ScanLang::Java => java_line(line),
        ScanLang::Kotlin => kotlin_line(line),
    }
}

fn line_fact_exec(lang: ScanLang, line: &[char]) -> (r: Option<LineSym>)
    ensures
        line_sym_view(r) == line_fact(lang, line@),
{
    match lang {
        ScanLang::JsLike => js_line_exec(line),
        ScanLang::Python => python_line_exec(line),
        ScanLang::Rust => rust_line_exec(line),
        ScanLang::Go => go_line_exec(line),
        ScanLang::Java => java_line_exec(line),
        ScanLang::Kotlin => kotlin_line_exec(line),
    }
}

/// The 1-based line number of a 0-based line index, saturating at `u32::MAX`.
pub open spec fn line_no(index: int) -> u32 {
    if index + 1 <= u32::MAX as int {
        (index + 1) as u32
    } else {
        u32::MAX
    }
}

/// Executable `line_no`.
pub fn line_number(index: usize) -> (n: u32)
    ensures
        n == line_no(index as int),
{
    if index < 4294967295usize {
        (index as u32) + 1
    } else {
        u32::MAX
    }
}

/// The symbol recorded for a declaring line: one-line span and the trimmed
/// line, cut at 200 characters, as signature.
pub open spec fn symbol_at(
    path: Seq<char>,
    language: Option<Seq<char>>,
    line: Seq<char>,
    index: int,
    f: LineFact,
) -> CodeSymbolView {
    CodeSymbolView {
        name: f.name,
        kind: f.kind,
        path,
        language,
        start_line: line_no(index),
        end_line: line_no(index),
        signature: take_chars(trim(line), 200),
        exported: f.exported,
    }
}

/// The symbols of a sequence of lines, in line order.
pub open spec fn scan_lines(
    lang: ScanLang,
    path: Seq<char>,
    language: Option<Seq<char>>,
    ls: Seq<Seq<char>>,
) -> Seq<CodeSymbolView>
    decreases ls.len(),
{
    if ls.len() == 0 {
        seq![]
    } else {
        scan_lines(lang, path, language, ls.drop_last()) + match line_fact(lang, ls.last()) {
            Some(f) => seq![symbol_at(path, language, ls.last(), ls.len() - 1, f)],
            None => seq![],
        }
    }
}

/// The symbols the line scanner of `lang` finds in `content`.
pub open spec fn symbols_for_lang(
    lang: ScanLang,
    file: crate::inventory::FileEntryView,
    content: Seq<char>,
) -> Seq<CodeSymbolView> {
    scan_lines(lang, file.path, file.language, lines(content))
}

/// Scans `content` line by line with the scanner of `lang`.
pub fn scan_symbols(lang: ScanLang, file: &FileInventoryEntry, content: &str) -> (out: Vec<
    CodeSymbol,
>)
    ensures
        symbol_views(out@) == symbols_for_lang(lang, file@, content@),
{
    let cv = chars_of(content);
    let ls = lines_exec(&cv);
    let mut out: Vec<CodeSymbol> = Vec::new();
    let mut i: usize = 0;
    while i < ls.len()
        invariant
            i <= ls@.len(),
            crate::model::vec_views(ls@) == lines(content@),
            symbol_views(out@) == scan_lines(
                lang,
                file.path@,
                opt_view(file.language),
                crate::model::vec_views(ls@).take(i as int),
            ),
        decreases ls.len() - i,
    {
        let ghost prefix = crate::model::vec_views(ls@).take(i + 1);
        assert(prefix.drop_last() =~= crate::model::vec_views(ls@).take(i as int));
        assert(prefix.last() == ls@[i as int]@);
        let line = &ls[i];
        match line_fact_exec(lang, line) {
            Some(f) => {
                let t = trim_vec(line);
                let signature = take_chars_exec(&t, 200);
                let no = line_number(i);
                let s = CodeSymbol {
                    name: crate::text::string_of(&f.name),
                    kind: f.kind,
                    path: file.path.clone(),
                    language: crate::model::clone_opt(&file.language),
                    start_line: no,
                    end_line: no,
                    signature: crate::text::string_of(&signature),
                    exported: f.exported,
                };
                out.push(s);
            },
            None => {},
        }
        i += 1;
        assert(symbol_views(out@) =~= scan_lines(
            lang,
            file.path@,
            opt_view(file.language),
            crate::model::vec_views(ls@).take(i as int),
        ));
    }
    assert(crate::model::vec_views(ls@).take(ls@.len() as int) =~= crate::model::vec_views(ls@));
    out
}

/// Symbols of a JavaScript or TypeScript file.
pub fn symbols_for_js_like(file: &FileInventoryEntry, content: &str) -> (out: Vec<CodeSymbol>)
    ensures
        symbol_views(out@) == symbols_for_lang(ScanLang::JsLike, file@, content@),
{
    scan_symbols(ScanLang::JsLike, file, content)
}

/// Symbols of a Python file.
pub fn symbols_for_python(file: &FileInventoryEntry, content: &str) -> (out: Vec<CodeSymbol>)
    ensures
        symbol_views(out@) == symbols_for_lang(ScanLang::Python, file@, content@),
{
    scan_symbols(ScanLang::Python, file, content)
}

/// Symbols of a Rust file.
pub fn symbols_for_rust(file: &FileInventoryEntry, content: &str) -> (out: Vec<CodeSymbol>)
    ensures
        symbol_views(out@) == symbols_for_lang(ScanLang::Rust, file@, content@),
{
    scan_symbols(ScanLang::Rust, file, content)
}

/// Symbols of a Go file.
pub fn symbols_for_go(file: &FileInventoryEntry, content: &str) -> (out: Vec<CodeSymbol>)
    ensures
        symbol_views(out@) == symbols_for_lang(ScanLang::Go, file@, content@),
{
    scan_symbols(ScanLang::Go, file, content)
}

/// Symbols of a Java file.
pub fn symbols_for_java(file: &FileInventoryEntry, content: &str) -> (out: Vec<CodeSymbol>)
    ensures
        symbol_views(out@) == symbols_for_lang(ScanLang::Java, file@, content@),
{
    scan_symbols(ScanLang::Java, file, content)
}

/// Symbols of a Kotlin file.
pub fn symbols_for_kotlin(file: &FileInventoryEntry, content: &str) -> (out: Vec<CodeSymbol>)
    ensures
        symbol_views(out@) == symbols_for_lang(ScanLang::Kotlin, file@, content@),
{
    scan_symbols(ScanLang::Kotlin, file, content)
}

// ---------------------------------------------------------------------
// Ordering, deduplication and file dispatch
// ---------------------------------------------------------------------
/// Rank of a kind in the order of its name (`Class` < `Constant` <
/// `Function` < `Import` < `Interface` < `Method` < `Module` < `Type`).
pub open spec fn kind_rank(k: SymbolKind) -> u8 {
    match k {
        SymbolKind::Class => 0,
        SymbolKind::Constant => 1,
        SymbolKind::Function => 2,
        SymbolKind::Import => 3,
        SymbolKind::Interface => 4,
        SymbolKind::Method => 5,
        SymbolKind::Module => 6,
        SymbolKind::Type => 7,
    }
}

fn kind_rank_exec(k: SymbolKind) -> (r: u8)
    ensures
        r == kind_rank(k),
{
    match k {
        SymbolKind::Class => 0,
        SymbolKind::Constant => 1,
        SymbolKind::Function => 2,
        SymbolKind::Import => 3,
        SymbolKind::Interface => 4,
        SymbolKind::Method => 5,
        SymbolKind::Module => 6,
        SymbolKind::Type => 7,
    }
}

/// The two symbol orders: by path, start line, end line, name and kind name
/// (`full`), or by path, start line and name.
pub open spec fn sym_before(a: CodeSymbolView, b: CodeSymbolView, full: bool) -> bool {
    if a.path != b.path {
        lex_lt(a.path, b.path)
    } else if a.start_line != b.start_line {
        a.start_line < b.start_line
    } else if full && a.end_line != b.end_line {
        a.end_line < b.end_line
    } else if a.name != b.name {
        lex_lt(a.name, b.name)
    } else if full {
        kind_rank(a.kind) < kind_rank(b.kind)
    } else {
        false
    }
}

fn sym_before_exec(a: &CodeSymbol, b: &CodeSymbol, full: bool) -> (r: bool)
    ensures
        r == sym_before(a@, b@, full),
{
    if !string_eq(&a.path, &b.path) {
        string_lt(&a.path, &b.path)
    } else if a.start_line != b.start_line {
        a.start_line < b.start_line
    } else if full && a.end_line != b.end_line {
        a.end_line < b.end_line
    } else if !string_eq(&a.name, &b.name) {
        string_lt(&a.name, &b.name)
    } else if full {
        kind_rank_exec(a.kind) < kind_rank_exec(b.kind)
    } else {
        false
    }
}

/// Inserts `x` after every element that it does not precede.
pub open spec fn insert_sorted(s: Seq<CodeSymbolView>, x: CodeSymbolView, full: bool) -> Seq<
    CodeSymbolView,
>
    decreases s.len(),
{
    if s.len() == 0 || !sym_before(x, s.last(), full) {
        s.push(x)
    } else {
        insert_sorted(s.drop_last(), x, full).push(s.last())
    }
}

/// Stable sort by insertion: equal elements keep their input order, as
/// with `slice::sort_by`.
pub open spec fn sort_symbols(s: Seq<CodeSymbolView>, full: bool) -> Seq<CodeSymbolView>
    decreases s.len(),
{
    if s.len() == 0 {
        s
    } else {
        insert_sorted(sort_symbols(s.drop_last(), full), s.last(), full)
    }
}

fn insert_symbol(out: &mut Vec<CodeSymbol>, x: CodeSymbol, full: bool)
    ensures
        symbol_views(final(out)@) == insert_sorted(symbol_views(old(out)@), x@, full),
{
    let ghost xv = x@;
    let ghost orig = symbol_views(out@);
    let mut j: usize = out.len();
    assert(orig.take(j as int) =~= orig);
    assert(orig.skip(j as int) =~= Seq::<CodeSymbolView>::empty());
    while j > 0 && sym_before_exec(&x, &out[j - 1], full)
        invariant
            j <= out@.len(),
            orig == symbol_views(out@),
            xv == x@,
            insert_sorted(orig, xv, full) == insert_sorted(orig.take(j as int), xv, full)
                + orig.skip(j as int),
        decreases j,
    {
        let ghost t = orig.take(j as int);
        assert(t.last() == out@[j - 1]@);
        assert(t.drop_last() =~= orig.take(j - 1));
        assert(orig.skip(j - 1) =~= seq![t.last()] + orig.skip(j as int));
        assert(insert_sorted(t, xv, full) == insert_sorted(orig.take(j - 1), xv, full).push(
            t.last(),
        ));
        assert(insert_sorted(orig.take(j - 1), xv, full).push(t.last()) + orig.skip(j as int)
            =~= insert_sorted(orig.take(j - 1), xv, full) + orig.skip(j - 1));
        j -= 1;
    }
    out.insert(j, x);
    assert(symbol_views(out@) =~= orig.take(j as int).push(xv) + orig.skip(j as int));
}

/// Executable `sort_symbols`.
pub fn sort_symbols_exec(v: Vec<CodeSymbol>, full: bool) -> (out: Vec<CodeSymbol>)
    ensures
        symbol_views(out@) == sort_symbols(symbol_views(v@), full),
{
    let ghost sv = symbol_views(v@);
    let mut out: Vec<CodeSymbol> = Vec::new();
    let mut rest = v;
    let mut taken: Vec<CodeSymbol> = Vec::new();
    let mut i: usize = 0;
    let n = rest.len();
    while i < n
        invariant
            n == sv.len(),
            i <= n,
            symbol_views(rest@) == sv.skip(i as int),
            rest@.len() == n - i,
            symbol_views(out@) == sort_symbols(sv.take(i as int), full),
        decreases n - i,
    {
        proof {
            assert(symbol_views(rest@)[0] == rest@[0]@);
            assert(sv.skip(i as int)[0] == sv[i as int]);
        }
        let ghost old_rest = rest@;
        let x = rest.remove(0);
        proof {
            assert(rest@ =~= old_rest.drop_first());
            assert(symbol_views(rest@) =~= symbol_views(old_rest).drop_first());
            assert(sv.skip(i as int).drop_first() =~= sv.skip(i + 1));
        }
        proof {
            assert(x@ == sv[i as int]);
            assert(sv.take(i + 1).drop_last() =~= sv.take(i as int));
            assert(sv.take(i + 1).last() == sv[i as int]);
        }
        insert_symbol(&mut out, x, full);
        i += 1;
        assert(symbol_views(rest@) =~= sv.skip(i as int));
    }
    assert(sv.take(n as int) =~= sv);
    out
}

/// Two symbols are duplicates: same path, name, kind and start line.
pub open spec fn same_symbol(a: CodeSymbolView, b: CodeSymbolView) -> bool {
    a.path == b.path && a.name == b.name && a.kind == b.kind && a.start_line == b.start_line
}

/// `Vec::dedup_by`: drops each element that duplicates the last kept one.
pub open spec fn dedup_symbols(s: Seq<CodeSymbolView>) -> Seq<CodeSymbolView>
    decreases s.len(),
{
    if s.len() == 0 {
        s
    } else {
        let d = dedup_symbols(s.drop_last());
        if d.len() > 0 && same_symbol(s.last(), d.last()) {
            d
        } else {
            d.push(s.last())
        }
    }
}

fn dedup_symbols_exec(v: Vec<CodeSymbol>) -> (out: Vec<CodeSymbol>)
    ensures
        symbol_views(out@) == dedup_symbols(symbol_views(v@)),
{
    let ghost sv = symbol_views(v@);
    let mut rest = v;
    let mut out: Vec<CodeSymbol> = Vec::new();
    let n = rest.len();
    let mut i: usize = 0;
    while i < n
        invariant
            n == sv.len(),
            i <= n,
            symbol_views(rest@) == sv.skip(i as int),
            rest@.len() == n - i,
            symbol_views(out@) == dedup_symbols(sv.take(i as int)),
        decreases n - i,
    {
        proof {
            assert(symbol_views(rest@)[0] == rest@[0]@);
            assert(sv.skip(i as int)[0] == sv[i as int]);
        }
        let ghost old_rest = rest@;
        let x = rest.remove(0);
        proof {
            assert(rest@ =~= old_rest.drop_first());
            assert(symbol_views(rest@) =~= symbol_views(old_rest).drop_first());
            assert(sv.skip(i as int).drop_first() =~= sv.skip(i + 1));
        }
        proof {
            assert(x@ == sv[i as int]);
            assert(sv.take(i + 1).drop_last() =~= sv.take(i as int));
        }
        let k = out.len();
        let dup = k > 0 && string_eq(&x.path, &out[k - 1].path) && string_eq(
            &x.name,
            &out[k - 1].name,
        ) && x.kind == out[k - 1].kind && x.start_line == out[k - 1].start_line;
        if !dup {
            out.push(x);
        }
        i += 1;
        assert(symbol_views(rest@) =~= sv.skip(i as int));
        assert(symbol_views(out@) =~= dedup_symbols(sv.take(i as int)));
    }
    assert(sv.take(n as int) =~= sv);
    out
}

/// The line scanner for a language name.
pub open spec fn lang_of(language: Option<Seq<char>>) -> Option<ScanLang> {
    match language {
        Some(l) => if l == "typescript"@ || l == "javascript"@ {
            Some(ScanLang::JsLike)
        } else if l == "python"@ {
            Some(ScanLang::Python)
        } else if l == "rust"@ {
            Some(ScanLang::Rust)
        } else if l == "go"@ {
            Some(ScanLang::Go)
        } else if l == "java"@ {
            Some(ScanLang::Java)
        } else if l == "kotlin"@ {
            Some(ScanLang::Kotlin)
        } else {
            None
        },
        None => None,
    }
}

fn lang_of_exec(language: &Option<String>) -> (r: Option<ScanLang>)
    ensures
        r == lang_of(opt_view(*language)),
{
    match language {
        Some(l) => {
            let v = chars_of(l.as_str());
            if crate::text::eq_str(&v, "typescript") || crate::text::eq_str(&v, "javascript") {
                Some(ScanLang::JsLike)
            } else if crate::text::eq_str(&v, "python") {
                Some(ScanLang::Python)
            } else if crate::text::eq_str(&v, "rust") {
                Some(ScanLang::Rust)
            } else if crate::text::eq_str(&v, "go") {
                Some(ScanLang::Go)
            } else if crate::text::eq_str(&v, "java") {
                Some(ScanLang::Java)
            } else if crate::text::eq_str(&v, "kotlin") {
                Some(ScanLang::Kotlin)
            } else {
                None
            }
        },
        None => None,
    }
}

/// The line-scanner symbols of a file, by its language.
pub open spec fn fallback_symbols(file: crate::inventory::FileEntryView, content: Seq<char>) -> Seq<
    CodeSymbolView,
> {
    match lang_of(file.language) {
        Some(l) => symbols_for_lang(l, file, content),
        None => seq![],
    }
}

/// The symbols of one file. Parser symbols, when given, are sorted and
/// deduplicated and win when any remain; otherwise the line scanner of the
/// file's language runs.
pub open spec fn file_symbols(
    file: crate::inventory::FileEntryView,
    content: Seq<char>,
    parsed: Option<Seq<CodeSymbolView>>,
) -> Seq<CodeSymbolView> {
    match parsed {
        Some(p) => {
            let d = dedup_symbols(sort_symbols(p, true));
            if d.len() > 0 {
                d
            } else {
                fallback_symbols(file, content)
            }
        },
        None => fallback_symbols(file, content),
    }
}

pub open spec fn opt_symbol_views(o: Option<Vec<CodeSymbol>>) -> Option<Seq<CodeSymbolView>> {
    match o {
        Some(v) => Some(symbol_views(v@)),
        None => None,
    }
}

/// The symbols of one file; `parsed` holds what a syntax-tree parser found,
/// if one ran.
pub fn symbols_for_file(
    file: &FileInventoryEntry,
    content: &str,
    parsed: Option<Vec<CodeSymbol>>,
) -> (out: Vec<CodeSymbol>)
    ensures
        symbol_views(out@) == file_symbols(file@, content@, opt_symbol_views(parsed)),
{
    if let Some(p) = parsed {
        let sorted = sort_symbols_exec(p, true);
        let d = dedup_symbols_exec(sorted);
        if d.len() > 0 {
            return d;
        }
    }
    match lang_of_exec(&file.language) {
        Some(l) => scan_symbols(l, file, content),
        None => Vec::new(),
    }
}

// ---------------------------------------------------------------------
// Repository-wide extraction
// ---------------------------------------------------------------------
/// Files whose symbols are extracted: not generated, sensitive or ignored,
/// and with a known language.
pub open spec fn extractable(f: crate::inventory::FileEntryView) -> bool {
    !f.generated && f.role != crate::model::FileRole::Sensitive && !f.ignored && f.language is Some
}

pub open spec fn entry_views(v: Seq<FileInventoryEntry>) -> Seq<crate::inventory::FileEntryView> {
    v.map_values(|f: FileInventoryEntry| f@)
}

pub open spec fn opt_str_views(v: Seq<Option<String>>) -> Seq<Option<Seq<char>>> {
    v.map_values(|o: Option<String>| opt_view(o))
}

pub open spec fn parsed_views(v: Seq<Option<Vec<CodeSymbol>>>) -> Seq<Option<Seq<CodeSymbolView>>> {
    v.map_values(|o: Option<Vec<CodeSymbol>>| opt_symbol_views(o))
}

/// The symbols of every extractable file that could be read, file by file.
pub open spec fn gather_symbols(
    files: Seq<crate::inventory::FileEntryView>,
    texts: Seq<Option<Seq<char>>>,
    parsed: Seq<Option<Seq<CodeSymbolView>>>,
) -> Seq<CodeSymbolView>
    decreases files.len(),
{
    if files.len() == 0 {
        seq![]
    } else {
        let n = files.len() - 1;
        gather_symbols(files.drop_last(), texts.take(n), parsed.take(n)) + if extractable(files[n])
            && texts[n] is Some {
            file_symbols(files[n], texts[n]->0, parsed[n])
        } else {
            seq![]
        }
    }
}

/// Extracts the symbols of a repository. `texts[i]` is the safely read
/// text of `files[i]` (`None` when it could not be read) and `parsed[i]`
/// what a syntax-tree parser found in it. The result is ordered by path,
/// start line and name.
pub fn extract_symbols(
    files: &Vec<FileInventoryEntry>,
    texts: &Vec<Option<String>>,
    parsed: Vec<Option<Vec<CodeSymbol>>>,
) -> (out: Vec<CodeSymbol>)
    requires
        texts@.len() == files@.len(),
        parsed@.len() == files@.len(),
    ensures
        symbol_views(out@) == sort_symbols(
            gather_symbols(entry_views(files@), opt_str_views(texts@), parsed_views(parsed@)),
            false,
        ),
{
    let ghost fv = entry_views(files@);
    let ghost tv = opt_str_views(texts@);
    let ghost pv = parsed_views(parsed@);
    let mut rest = parsed;
    let mut all: Vec<CodeSymbol> = Vec::new();
    let n = files.len();
    let mut i: usize = 0;
    while i < n
        invariant
            n == files@.len(),
            texts@.len() == n,
            i <= n,
            fv == entry_views(files@),
            tv == opt_str_views(texts@),
            rest@.len() == n - i,
            parsed_views(rest@) == pv.skip(i as int),
            pv.len() == n,
            symbol_views(all@) == gather_symbols(fv.take(i as int), tv.take(i as int), pv.take(
                i as int,
            )),
        decreases n - i,
    {
        proof {
            assert(parsed_views(rest@)[0] == opt_symbol_views(rest@[0]));
            assert(pv.skip(i as int)[0] == pv[i as int]);
        }
        let ghost old_rest = rest@;
        let p = rest.remove(0);
        proof {
            assert(rest@ =~= old_rest.drop_first());
            assert(parsed_views(rest@) =~= parsed_views(old_rest).drop_first());
            assert(pv.skip(i as int).drop_first() =~= pv.skip(i + 1));
            let fi = fv.take(i + 1);
            assert(fi.drop_last() =~= fv.take(i as int));
            assert(tv.take(i + 1).take(i as int) =~= tv.take(i as int));
            assert(pv.take(i + 1).take(i as int) =~= pv.take(i as int));
            assert(fi[i as int] == files@[i as int]@);
            assert(tv.take(i + 1)[i as int] == opt_view(texts@[i as int]));
            assert(pv.take(i + 1)[i as int] == opt_symbol_views(p));
        }
        let file = &files[i];
        let eligible = !file.generated && file.role != crate::model::FileRole::Sensitive
            && !file.ignored && file.language.is_some();
        if eligible {
            match &texts[i] {
                Some(text) => {
                    let found = symbols_for_file(file, text.as_str(), p);
                    let ghost before = symbol_views(all@);
                    let mut k: usize = 0;
                    let mut found = found;
                    let ghost fs = symbol_views(found@);
                    let flen = found.len();
                    while k < flen
                        invariant
                            flen == fs.len(),
                            k <= fs.len(),
                            found@.len() == fs.len() - k,
                            symbol_views(found@) == fs.skip(k as int),
                            symbol_views(all@) == before + fs.take(k as int),
                        decreases fs.len() - k,
                    {
                        proof {
                            assert(symbol_views(found@)[0] == found@[0]@);
                            assert(fs.skip(k as int)[0] == fs[k as int]);
                        }
                        let ghost old_found = found@;
                        let x = found.remove(0);
                        proof {
                            assert(found@ =~= old_found.drop_first());
                            assert(symbol_views(found@) =~= symbol_views(old_found).drop_first());
                            assert(fs.skip(k as int).drop_first() =~= fs.skip(k + 1));
                            assert(x@ == fs[k as int]);
                        }
                        let ghost old_all = all@;
                        all.push(x);
                        proof {
                            assert(symbol_views(all@) =~= symbol_views(old_all).push(fs[k as int]));
                            assert(fs.take(k + 1) =~= fs.take(k as int).push(fs[k as int]));
                        }
                        k += 1;
                        assert(symbol_views(all@) =~= before + fs.take(k as int));
                    }
                    assert(fs.take(fs.len() as int) =~= fs);
                },
                None => {},
            }
        }
        i += 1;
    }
    assert(fv.take(n as int) =~= fv);
    assert(tv.take(n as int) =~= tv);
    assert(pv.take(n as int) =~= pv);
    sort_symbols_exec(all, false)
}

// ---------------------------------------------------------------------
// Syntax-tree node classification
// ---------------------------------------------------------------------
/// The symbol kind of a syntax-tree node kind; Python function definitions
/// inside a class are methods.
pub open spec fn node_symbol_kind(
    language: Option<Seq<char>>,
    node_kind: Seq<char>,
    inside_python_class: bool,
) -> Option<SymbolKind> {
    if node_kind == "function_definition"@ && language == Some("python"@) {
        if inside_python_class {
            Some(SymbolKind::Method)
        } else {
            Some(SymbolKind::Function)
        }
    } else if node_kind == "function_declaration"@ || node_kind == "function_definition"@
        || node_kind == "function_item"@ {
        Some(SymbolKind::Function)
    } else if node_kind == "method_definition"@ || node_kind == "method_declaration"@ {
        Some(SymbolKind::Method)
    } else if node_kind == "class_declaration"@ || node_kind == "class_definition"@ {
        Some(SymbolKind::Class)
    } else if node_kind == "interface_declaration"@ || node_kind == "trait_item"@ {
        Some(SymbolKind::Interface)
    } else if node_kind == "type_alias_declaration"@ || node_kind == "type_alias"@ || node_kind
        == "type_item"@ || node_kind == "enum_declaration"@ || node_kind == "enum_item"@
        || node_kind == "record_declaration"@ || node_kind == "type_declaration"@ || node_kind
        == "type_spec"@ {
        Some(SymbolKind::Type)
    } else if node_kind == "struct_item"@ {
        Some(SymbolKind::Class)
    } else if node_kind == "const_item"@ || node_kind == "static_item"@ || node_kind
        == "lexical_declaration"@ || node_kind == "variable_declarator"@ || node_kind
        == "field_declaration"@ || node_kind == "property_declaration"@ {
        Some(SymbolKind::Constant)
    } else if node_kind == "mod_item"@ || node_kind == "module"@ || node_kind
        == "object_declaration"@ {
        Some(SymbolKind::Module)
    } else {
        None
    }
}

fn is_lang(language: &Option<String>, name: &str) -> (b: bool)
    ensures
        b == (opt_view(*language) == Some(name@)),
{
    match language {
        Some(l) => {
            let v = chars_of(l.as_str());
            crate::text::eq_str(&v, name)
        },
        None => false,
    }
}

/// Executable `node_symbol_kind`.
pub fn symbol_kind_for_node(
    language: &Option<String>,
    node_kind: &str,
    inside_python_class: bool,
) -> (r: Option<SymbolKind>)
    ensures
        r == node_symbol_kind(opt_view(*language), node_kind@, inside_python_class),
{
    let k = chars_of(node_kind);
    if crate::text::eq_str(&k, "function_definition") && is_lang(language, "python") {
        if inside_python_class {
            Some(SymbolKind::Method)
        } else {
            Some(SymbolKind::Function)
        }
    } else if crate::text::eq_str(&k, "function_declaration") || crate::text::eq_str(
        &k,
        "function_definition",
    ) || crate::text::eq_str(&k, "function_item") {
        Some(SymbolKind::Function)
    } else if crate::text::eq_str(&k, "method_definition") || crate::text::eq_str(
        &k,
        "method_declaration",
    ) {
        Some(SymbolKind::Method)
    } else if crate::text::eq_str(&k, "class_declaration") || crate::text::eq_str(
        &k,
        "class_definition",
    ) {
        Some(SymbolKind::Class)
    } else if crate::text::eq_str(&k, "interface_declaration") || crate::text::eq_str(
        &k,
        "trait_item",
    ) {
        Some(SymbolKind::Interface)
    } else if crate::text::eq_str(&k, "type_alias_declaration") || crate::text::eq_str(
        &k,
        "type_alias",
    ) || crate::text::eq_str(&k, "type_item") || crate::text::eq_str(&k, "enum_declaration")
        || crate::text::eq_str(&k, "enum_item") || crate::text::eq_str(&k, "record_declaration")
        || crate::text::eq_str(&k, "type_declaration") || crate::text::eq_str(&k, "type_spec") {
        Some(SymbolKind::Type)
    } else if crate::text::eq_str(&k, "struct_item") {
        Some(SymbolKind::Class)
    } else if crate::text::eq_str(&k, "const_item") || crate::text::eq_str(&k, "static_item")
        || crate::text::eq_str(&k, "lexical_declaration") || crate::text::eq_str(
        &k,
        "variable_declarator",
    ) || crate::text::eq_str(&k, "field_declaration") || crate::text::eq_str(
        &k,
        "property_declaration",
    ) {
        Some(SymbolKind::Constant)
    } else if crate::text::eq_str(&k, "mod_item") || crate::text::eq_str(&k, "module")
        || crate::text::eq_str(&k, "object_declaration") {
        Some(SymbolKind::Module)
    } else {
        None
    }
}

/// Whether a parsed symbol is exported, by language convention.
pub open spec fn node_exported(
    language: Option<Seq<char>>,
    name: Seq<char>,
    signature: Seq<char>,
) -> bool {
    let s = trim(signature);
    if language == Some("typescript"@) || language == Some("javascript"@) {
        starts_with(s, "export "@)
    } else if language == Some("rust"@) {
        starts_with(s, "pub "@)
    } else if language == Some("java"@) {
        starts_with(s, "public "@)
    } else if language == Some("kotlin"@) {
        !starts_with(s, "private "@)
    } else if language == Some("go"@) {
        name.len() > 0 && crate::text::is_upper(name[0])
    } else {
        false
    }
}

/// A Rust symbol is exported exactly when its trimmed signature begins
/// with `pub ` (so `pub fn`, `pub struct`, `pub enum`, `pub trait`,
/// `pub const` and `pub mod` items all count, `pub(crate)` ones do not); a
/// Java one when it begins with `public `; a TypeScript one when it begins
/// with `export `; a Kotlin one unless it begins with `private `; a Go one
/// when its name begins with an ASCII capital letter.
pub proof fn lemma_exported_by_visibility_word(name: Seq<char>, signature: Seq<char>)
    ensures
        node_exported(Some("rust"@), name, signature) <==> (trim(signature).len() >= 4
            && trim(signature)[0] == 'p' && trim(signature)[1] == 'u' && trim(signature)[2] == 'b'
            && trim(signature)[3] == ' '),
        node_exported(Some("java"@), name, signature) <==> (trim(signature).len() >= 7
            && trim(signature).subrange(0, 7) == seq!['p', 'u', 'b', 'l', 'i', 'c', ' ']),
        node_exported(Some("typescript"@), name, signature) <==> (trim(signature).len() >= 7
            && trim(signature).subrange(0, 7) == seq!['e', 'x', 'p', 'o', 'r', 't', ' ']),
        node_exported(Some("kotlin"@), name, signature) <==> !(trim(signature).len() >= 8
            && trim(signature).subrange(0, 8) == seq!['p', 'r', 'i', 'v', 'a', 't', 'e', ' ']),
        node_exported(Some("go"@), name, signature) <==> (name.len() > 0 && 'A' as u32 <= name[0] as u32
            && name[0] as u32 <= 'Z' as u32),
{
    reveal_strlit("pub ");
    reveal_strlit("public ");
    reveal_strlit("export ");
    reveal_strlit("rust");
    reveal_strlit("java");
    reveal_strlit("typescript");
    reveal_strlit("javascript");
    assert("rust"@.len() != "typescript"@.len());
    assert("rust"@.len() != "javascript"@.len());
    assert("java"@.len() != "typescript"@.len());
    assert("java"@.len() != "javascript"@.len());
    assert("java"@[0] != "rust"@[0]);
    assert("pub "@ =~= seq!['p', 'u', 'b', ' ']);
    assert("public "@ =~= seq!['p', 'u', 'b', 'l', 'i', 'c', ' ']);
    assert("export "@ =~= seq!['e', 'x', 'p', 'o', 'r', 't', ' ']);
    reveal_strlit("private ");
    reveal_strlit("kotlin");
    reveal_strlit("go");
    assert("kotlin"@.len() != "typescript"@.len() && "kotlin"@.len() != "javascript"@.len()
        && "kotlin"@.len() != "rust"@.len() && "kotlin"@.len() != "java"@.len());
    assert("go"@.len() != "typescript"@.len() && "go"@.len() != "javascript"@.len()
        && "go"@.len() != "rust"@.len() && "go"@.len() != "java"@.len() && "go"@.len() != "kotlin"@.len());
    assert("private "@ =~= seq!['p', 'r', 'i', 'v', 'a', 't', 'e', ' ']);
    let t = trim(signature);
    if t.len() >= 4 && t[0] == 'p' && t[1] == 'u' && t[2] == 'b' && t[3] == ' ' {
        assert(t.subrange(0, 4) =~= "pub "@);
    }
}

/// Executable `node_exported`.
pub fn exported_symbol(language: &Option<String>, name: &str, signature: &str) -> (b: bool)
    ensures
        b == node_exported(opt_view(*language), name@, signature@),
{
    let sv = chars_of(signature);
    let s = trim_vec(&sv);
    if is_lang(language, "typescript") || is_lang(language, "javascript") {
        starts_with_str(&s, "export ")
    } else if is_lang(language, "rust") {
        starts_with_str(&s, "pub ")
    } else if is_lang(language, "java") {
        starts_with_str(&s, "public ")
    } else if is_lang(language, "kotlin") {
        !starts_with_str(&s, "private ")
    } else if is_lang(language, "go") {
        let nv = chars_of(name);
        nv.len() > 0 && 65 <= (nv[0] as u32) && (nv[0] as u32) <= 90
    } else {
        false
    }
}

/// The signature of a parsed symbol: its first line, trimmed and cut at 200
/// characters, or, when that is blank, the first line of the node's own
/// text, likewise.
pub open spec fn node_signature(content: Seq<char>, start_line: u32, node_text: Seq<char>) -> Seq<
    char,
> {
    let ls = lines(content);
    let idx = if start_line == 0 {
        0
    } else {
        start_line - 1
    };
    let first = if idx < ls.len() {
        trim(ls[idx])
    } else {
        seq![]
    };
    if first.len() > 0 {
        take_chars(first, 200)
    } else {
        let nl = lines(node_text);
        take_chars(
            trim(
                if nl.len() > 0 {
                    nl[0]
                } else {
                    seq![]
                },
            ),
            200,
        )
    }
}

/// Executable `node_signature`.
pub fn signature_for_node(content: &str, start_line: u32, node_text: &str) -> (out: String)
    ensures
        out@ == node_signature(content@, start_line, node_text@),
{
    let cv = chars_of(content);
    let ls = lines_exec(&cv);
    let idx: usize = if start_line == 0 {
        0
    } else {
        (start_line - 1) as usize
    };
    let first = if idx < ls.len() {
        assert(crate::model::vec_views(ls@)[idx as int] == ls@[idx as int]@);
        trim_vec(&ls[idx])
    } else {
        Vec::new()
    };
    if first.len() > 0 {
        let t = take_chars_exec(&first, 200);
        return crate::text::string_of(&t);
    }
    let nv = chars_of(node_text);
    let nl = lines_exec(&nv);
    let head = if nl.len() > 0 {
        assert(crate::model::vec_views(nl@)[0] == nl@[0]@);
        trim_vec(&nl[0])
    } else {
        let e: Vec<char> = Vec::new();
        assert(e@ =~= trim(seq![]));
        e
    };
    let t = take_chars_exec(&head, 200);
    crate::text::string_of(&t)
}

// ---------------------------------------------------------------------
// Grammars
// ---------------------------------------------------------------------
/// The syntax-tree grammars symbols are parsed with.
#[derive(Debug, Clone, Copy, PartialEq, Eq, Structural)]
pub enum Grammar {
    TypeScript,
    Tsx,
    Python,
    Rust,
    Go,
    Java,
    Kotlin,
}

/// The grammar of a file, by its language: TSX for `.tsx` TypeScript and for
/// JavaScript; none for other languages.
pub open spec fn grammar_of(language: Option<Seq<char>>, path: Seq<char>) -> Option<Grammar> {
    match language {
        Some(l) => if l == "typescript"@ {
            if crate::text::ends_with(path, ".tsx"@) {
                Some(Grammar::Tsx)
            } else {
                Some(Grammar::TypeScript)
            }
        } else if l == "javascript"@ {
            Some(Grammar::Tsx)
        } else if l == "python"@ {
            Some(Grammar::Python)
        } else if l == "rust"@ {
            Some(Grammar::Rust)
        } else if l == "go"@ {
            Some(Grammar::Go)
        } else if l == "java"@ {
            Some(Grammar::Java)
        } else if l == "kotlin"@ {
            Some(Grammar::Kotlin)
        } else {
            None
        },
        None => None,
    }
}

/// Executable `grammar_of` for an inventoried file.
pub fn grammar_for_file(file: &FileInventoryEntry) -> (g: Option<Grammar>)
    ensures
        g == grammar_of(opt_view(file.language), file.path@),
{
    match &file.language {
        Some(l) => {
            let lv = chars_of(l.as_str());
            if crate::text::eq_str(&lv, "typescript") {
                let pv = chars_of(file.path.as_str());
                if crate::text::ends_with_str(&pv, ".tsx") {
                    Some(Grammar::Tsx)
                } else {
                    Some(Grammar::TypeScript)
                }
            } else if crate::text::eq_str(&lv, "javascript") {
                Some(Grammar::Tsx)
            } else if crate::text::eq_str(&lv, "python") {
                Some(Grammar::Python)
            } else if crate::text::eq_str(&lv, "rust") {
                Some(Grammar::Rust)
            } else if crate::text::eq_str(&lv, "go") {
                Some(Grammar::Go)
            } else if crate::text::eq_str(&lv, "java") {
                Some(Grammar::Java)
            } else if crate::text::eq_str(&lv, "kotlin") {
                Some(Grammar::Kotlin)
            } else {
                None
            }
        },
        None => None,
    }
}

// ---------------------------------------------------------------------
// Symbols from syntax-tree nodes
// ---------------------------------------------------------------------
/// A trimmed text, kept when not blank.
pub open spec fn nonblank_text(v: Option<Seq<char>>) -> Option<Seq<char>> {
    match v {
        Some(t) => if trim(t).len() == 0 {
            None
        } else {
            Some(trim(t))
        },
        None => None,
    }
}

/// The name of a symbol node: the text of its `name` field, else the text
/// of its first identifier child, each trimmed and not blank.
pub open spec fn node_name(name_field: Option<Seq<char>>, first_identifier: Option<Seq<char>>) -> Option<Seq<char>> {
    match nonblank_text(name_field) {
        Some(n) => Some(n),
        None => nonblank_text(first_identifier),
    }
}

fn nonblank_text_exec(v: &Option<String>) -> (r: Option<String>)
    ensures
        opt_view(r) == nonblank_text(opt_view(*v)),
{
    match v {
        Some(t) => {
            let c = chars_of(t.as_str());
            let tv = crate::text::trim_vec(&c);
            if tv.len() == 0 {
                None
            } else {
                Some(crate::text::string_of(&tv))
            }
        },
        None => None,
    }
}

/// Executable `node_name`.
pub fn symbol_node_name(name_field: &Option<String>, first_identifier: &Option<String>) -> (r: Option<String>)
    ensures
        opt_view(r) == node_name(opt_view(*name_field), opt_view(*first_identifier)),
{
    match nonblank_text_exec(name_field) {
        Some(n) => Some(n),
        None => nonblank_text_exec(first_identifier),
    }
}

/// The symbol a syntax-tree node of `file` stands for, given its name and
/// kind, its first and last line (counting from 1) and its text: the
/// signature from its first line, whether it is exported, and an end line
/// no earlier than the start.
pub fn code_symbol(
    file: &FileInventoryEntry,
    content: &str,
    name: &str,
    kind: SymbolKind,
    start_line: u32,
    end_line: u32,
    node_text: &str,
) -> (s: CodeSymbol)
    ensures
        s.name@ == name@,
        s.kind == kind,
        s.path@ == file.path@,
        opt_view(s.language) == opt_view(file.language),
        s.start_line == start_line,
        s.end_line == if end_line < start_line {
            start_line
        } else {
            end_line
        },
        s.signature@ == node_signature(content@, start_line, node_text@),
        s.exported == node_exported(opt_view(file.language), name@, s.signature@),
{
    let signature = signature_for_node(content, start_line, node_text);
    let exported = exported_symbol(&file.language, name, signature.as_str());
    CodeSymbol {
        name: String::from_str(name),
        kind,
        path: file.path.clone(),
        language: crate::model::clone_opt(&file.language),
        start_line,
        end_line: if end_line < start_line {
            start_line
        } else {
            end_line
        },
        signature,
        exported,
    }
}

// ---------------------------------------------------------------------
// Parsing with tree-sitter
// ---------------------------------------------------------------------
#[verifier::external_type_specification]
#[verifier::external_body]
pub struct ExTreeSitterLanguage(tree_sitter::Language);

#[verifier::external_type_specification]
#[verifier::external_body]
pub struct ExTreeSitterNode<'tree>(tree_sitter::Node<'tree>);

/// A node of a syntax tree as plain values: its kind, the index of its
/// parent in the node list, the text of its `name` field child and its own
/// text (each `None` when not valid UTF-8 or missing), and its first and
/// last row, counting from 0. A tree's nodes are listed in pre-order: a
/// node before its children, children in order.
#[derive(Debug, Clone)]
pub struct SyntaxNode {
    pub kind: String,
    pub parent: Option<usize>,
    pub name_text: Option<String>,
    pub text: Option<String>,
    pub start_row: usize,
    pub end_row: usize,
}

/// The mathematical content of a syntax node.
pub ghost struct SyntaxNodeView {
    pub kind: Seq<char>,
    pub parent: Option<usize>,
    pub name_text: Option<Seq<char>>,
    pub text: Option<Seq<char>>,
    pub start_row: usize,
    pub end_row: usize,
}

impl View for SyntaxNode {
    type V = SyntaxNodeView;

    open spec fn view(&self) -> SyntaxNodeView {
        SyntaxNodeView {
            kind: self.kind@,
            parent: self.parent,
            name_text: opt_view(self.name_text),
            text: opt_view(self.text),
            start_row: self.start_row,
            end_row: self.end_row,
        }
    }
}

pub open spec fn node_views(v: Seq<SyntaxNode>) -> Seq<SyntaxNodeView> {
    v.map_values(|n: SyntaxNode| n@)
}

/// The nodes of the syntax tree that tree-sitter parses from a text with a
/// grammar, in pre-order; `None` when the parser gives no tree.
pub uninterp spec fn syntax_nodes(g: Grammar, content: Seq<char>) -> Option<Seq<SyntaxNodeView>>;

/// The tree-sitter language of a grammar (`LANGUAGE_TSX` for TSX).
#[verifier::external_body]
fn grammar_language(g: Grammar) -> (r: tree_sitter::Language) {
    match g {
        Grammar::TypeScript => tree_sitter_typescript::LANGUAGE_TYPESCRIPT.into(),
        Grammar::Tsx => tree_sitter_typescript::LANGUAGE_TSX.into(),
        Grammar::Python => tree_sitter_python::LANGUAGE.into(),
        Grammar::Rust => tree_sitter_rust::LANGUAGE.into(),
        Grammar::Go => tree_sitter_go::LANGUAGE.into(),
        Grammar::Java => tree_sitter_java::LANGUAGE.into(),
        Grammar::Kotlin => tree_sitter_kotlin_ng::LANGUAGE.into(),
    }
}

/// Copies what is read of one tree-sitter node into a `SyntaxNode`.
#[verifier::external_body]
fn syntax_node_of(node: tree_sitter::Node, parent: Option<usize>, content: &str) -> (r: SyntaxNode) {
    SyntaxNode {
        kind: node.kind().to_string(),
        parent,
        name_text: node.child_by_field_name("name").and_then(|c| c.utf8_text(content.as_bytes()).ok()).map(str::to_string),
        text: node.utf8_text(content.as_bytes()).ok().map(str::to_string),
        start_row: node.start_position().row,
        end_row: node.end_position().row,
    }
}

/// Parses a text with `tree_sitter::Parser` and lists the tree's nodes in
/// pre-order with a `TreeCursor`. The result is named `syntax_nodes`, a
/// function of the grammar and the text.
#[verifier::external_body]
fn parse_nodes(g: Grammar, content: &str) -> (r: Option<Vec<SyntaxNode>>)
    ensures
        match syntax_nodes(g, content@) {
            Some(ns) => r matches Some(v) && node_views(v@) == ns,
            None => r is None,
        },
{
    let mut parser = tree_sitter::Parser::new();
    parser.set_language(&grammar_language(g)).ok()?;
    let tree = parser.parse(content, None)?;
    let (mut cursor, mut out, mut stack) = (tree.walk(), Vec::new(), Vec::new());
    loop {
        let index = out.len();
        out.push(syntax_node_of(cursor.node(), stack.last().copied(), content));
        if cursor.goto_first_child() { stack.push(index); continue; }
        while !cursor.goto_next_sibling() {
            if !cursor.goto_parent() { return Some(out); }
            stack.pop();
        }
    }
}

/// Whether a node lies inside a Python class: an ancestor (reached through
/// parents listed before their children) is a `class_definition`.
pub open spec fn in_class(ns: Seq<SyntaxNodeView>, i: int) -> bool
    decreases i,
{
    if 0 <= i < ns.len() {
        match ns[i].parent {
            Some(p) => if p < i {
                ns[p as int].kind == "class_definition"@ || in_class(ns, p as int)
            } else {
                false
            },
            None => false,
        }
    } else {
        false
    }
}

/// The node kinds that name a symbol when its `name` field is missing.
pub open spec fn identifier_kind(k: Seq<char>) -> bool {
    k == "identifier"@ || k == "type_identifier"@ || k == "property_identifier"@
}

/// The first child of node `i` among the nodes before `n` that is an
/// identifier, by index.
pub open spec fn first_identifier_below(ns: Seq<SyntaxNodeView>, i: int, n: int) -> Option<int>
    decreases n,
{
    if n <= 0 || n > ns.len() {
        None
    } else {
        match first_identifier_below(ns, i, n - 1) {
            Some(j) => Some(j),
            None => if ns[n - 1].parent == Some(i as usize) && identifier_kind(ns[n - 1].kind) {
                Some(n - 1)
            } else {
                None
            },
        }
    }
}

/// The text of the first identifier child of node `i`.
pub open spec fn first_identifier_text(ns: Seq<SyntaxNodeView>, i: int) -> Option<Seq<char>> {
    match first_identifier_below(ns, i, ns.len() as int) {
        Some(j) => ns[j].text,
        None => None,
    }
}

/// A line number counting from 1 of a row counting from 0, as a `u32`
/// (the row is cut to 32 bits and the sum wraps).
pub open spec fn row_line(row: usize) -> u32 {
    let r = row as u32;
    if r == u32::MAX {
        0
    } else {
        (r + 1) as u32
    }
}

/// The symbol a node stands for, if its kind names one and it has a name.
pub open spec fn node_symbol(
    file: crate::inventory::FileEntryView,
    content: Seq<char>,
    ns: Seq<SyntaxNodeView>,
    i: int,
) -> Option<CodeSymbolView> {
    let n = ns[i];
    match node_symbol_kind(file.language, n.kind, in_class(ns, i)) {
        Some(kind) => match node_name(n.name_text, first_identifier_text(ns, i)) {
            Some(name) => {
                let start = row_line(n.start_row);
                let end = row_line(n.end_row);
                let text = match n.text {
                    Some(t) => t,
                    None => Seq::empty(),
                };
                let signature = node_signature(content, start, text);
                Some(
                    CodeSymbolView {
                        name,
                        kind,
                        path: file.path,
                        language: file.language,
                        start_line: start,
                        end_line: if end < start {
                            start
                        } else {
                            end
                        },
                        signature,
                        exported: node_exported(file.language, name, signature),
                    },
                )
            },
            None => None,
        },
        None => None,
    }
}

/// The symbols of the first `n` nodes, in node order.
pub open spec fn tree_symbols(
    file: crate::inventory::FileEntryView,
    content: Seq<char>,
    ns: Seq<SyntaxNodeView>,
    n: int,
) -> Seq<CodeSymbolView>
    decreases n,
{
    if n <= 0 || n > ns.len() {
        seq![]
    } else {
        tree_symbols(file, content, ns, n - 1) + match node_symbol(file, content, ns, n - 1) {
            Some(s) => seq![s],
            None => seq![],
        }
    }
}

fn in_class_exec(nodes: &Vec<SyntaxNode>, i: usize) -> (b: bool)
    requires
        i < nodes@.len(),
    ensures
        b == in_class(node_views(nodes@), i as int),
{
    let ghost ns = node_views(nodes@);
    let mut k: usize = i;
    loop
        invariant
            k < nodes@.len(),
            ns == node_views(nodes@),
            in_class(ns, i as int) == in_class(ns, k as int),
        decreases k,
    {
        assert(ns[k as int] == nodes@[k as int]@);
        match nodes[k].parent {
            Some(p) => {
                if p < k {
                    assert(ns[p as int] == nodes@[p as int]@);
                    if crate::text::eq_str(&chars_of(nodes[p].kind.as_str()), "class_definition") {
                        return true;
                    }
                    k = p;
                } else {
                    return false;
                }
            },
            None => {
                return false;
            },
        }
    }
}

fn first_identifier_exec(nodes: &Vec<SyntaxNode>, i: usize) -> (r: Option<String>)
    requires
        i < nodes@.len(),
    ensures
        opt_view(r) == first_identifier_text(node_views(nodes@), i as int),
{
    let ghost ns = node_views(nodes@);
    let mut j: usize = 0;
    while j < nodes.len()
        invariant
            j <= nodes@.len(),
            ns == node_views(nodes@),
            i < nodes@.len(),
            first_identifier_below(ns, i as int, j as int) is None,
        decreases nodes.len() - j,
    {
        assert(ns[j as int] == nodes@[j as int]@);
        let k = chars_of(nodes[j].kind.as_str());
        let is_ident = crate::text::eq_str(&k, "identifier") || crate::text::eq_str(&k, "type_identifier")
            || crate::text::eq_str(&k, "property_identifier");
        if nodes[j].parent == Some(i) && is_ident {
            proof {
                lemma_first_identifier_stays(ns, i as int, j as int + 1, ns.len() as int);
            }
            return crate::model::clone_opt(&nodes[j].text);
        }
        j += 1;
    }
    None
}

proof fn lemma_first_identifier_stays(ns: Seq<SyntaxNodeView>, i: int, m: int, n: int)
    requires
        0 < m <= n <= ns.len(),
        first_identifier_below(ns, i, m) is Some,
    ensures
        first_identifier_below(ns, i, n) == first_identifier_below(ns, i, m),
    decreases n - m,
{
    if n > m {
        lemma_first_identifier_stays(ns, i, m, n - 1);
    }
}

fn row_line_exec(row: usize) -> (l: u32)
    ensures
        l == row_line(row),
{
    let r = row as u32;
    if r == u32::MAX {
        0
    } else {
        r + 1
    }
}

/// The symbols that the nodes of a parsed file stand for, in node order:
/// each node whose kind names a symbol kind (a Python function inside a
/// class is a method) and that has a name (its `name` field, else its
/// first identifier child).
pub fn symbols_from_nodes(file: &FileInventoryEntry, content: &str, nodes: &Vec<SyntaxNode>) -> (r: Vec<CodeSymbol>)
    ensures
        symbol_views(r@) == tree_symbols(file@, content@, node_views(nodes@), nodes@.len() as int),
{
    let ghost ns = node_views(nodes@);
    let mut out: Vec<CodeSymbol> = Vec::new();
    let mut i: usize = 0;
    while i < nodes.len()
        invariant
            i <= nodes@.len(),
            ns == node_views(nodes@),
            symbol_views(out@) == tree_symbols(file@, content@, ns, i as int),
        decreases nodes.len() - i,
    {
        let n = &nodes[i];
        assert(ns[i as int] == n@);
        let inside = in_class_exec(nodes, i);
        let ghost before = symbol_views(out@);
        match symbol_kind_for_node(&file.language, n.kind.as_str(), inside) {
            Some(kind) => {
                let first = first_identifier_exec(nodes, i);
                match symbol_node_name(&n.name_text, &first) {
                    Some(name) => {
                        let start = row_line_exec(n.start_row);
                        let end = row_line_exec(n.end_row);
                        let text = match &n.text {
                            Some(t) => t.clone(),
                            None => String::new(),
                        };
                        let sym = code_symbol(file, content, name.as_str(), kind, start, end, text.as_str());
                        out.push(sym);
                        proof {
                            assert(node_symbol(file@, content@, ns, i as int) == Some(sym@));
                            assert(symbol_views(out@) =~= before.push(sym@));
                        }
                    },
                    None => {
                        assert(node_symbol(file@, content@, ns, i as int) is None);
                    },
                }
            },
            None => {
                assert(node_symbol(file@, content@, ns, i as int) is None);
            },
        }
        i += 1;
        assert(symbol_views(out@) =~= tree_symbols(file@, content@, ns, i as int));
    }
    out
}

/// The symbols of a file parsed with tree-sitter: `None` when its language
/// has no grammar or the parser gives no tree, else the symbols of the
/// tree's nodes in pre-order.
pub fn parsed_symbols(file: &FileInventoryEntry, content: &str) -> (r: Option<Vec<CodeSymbol>>)
    ensures
        match grammar_of(opt_view(file.language), file.path@) {
            None => r is None,
            Some(g) => match syntax_nodes(g, content@) {
                None => r is None,
                Some(ns) => r matches Some(v) && symbol_views(v@) == tree_symbols(file@, content@, ns, ns.len() as int),
            },
        },
{
    let g = grammar_for_file(file)?;
    let nodes = parse_nodes(g, content)?;
    Some(symbols_from_nodes(file, content, &nodes))
}

} // verus!
