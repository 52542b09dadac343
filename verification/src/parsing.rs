//! The boundary to the biome parser and syntax tree: declarations of the
//! outside types the signatures need, names for what parsing yields, and
//! trusted wrappers around the calls that parse a module and read an import
//! statement's parts.
//!
//! The wrappers that read the tree panic on a malformed node (a missing
//! mandatory slot or a bogus node). Such a tree can only come from a parse
//! that reported errors, and `parse_module` checks the parse outcome before
//! any read runs; a panic here is an internal defect, not a runtime
//! condition.
use biome_js_syntax::{AnyJsCombinedSpecifier, AnyJsImportClause, AnyJsModuleItem, AnyJsNamedImportSpecifier, AnyJsRoot};
use biome_rowan::{AstSeparatedList, BatchMutationExt};
use vstd::prelude::*;

use crate::language::Language;
use crate::model::{
    stmt_views, AssertionEntry, CombinedTail, ImportAssertion, ImportClause, ImportStatement,
    ImportStatementV, NamedSpecifier,
};

verus! {

#[verifier::external_type_specification]
#[verifier::external_body]
pub struct ExJsFileSource(biome_js_syntax::JsFileSource);

#[verifier::external_type_specification]
#[verifier::external_body]
pub struct ExJsModule(biome_js_syntax::JsModule);

#[verifier::external_type_specification]
#[verifier::external_body]
pub struct ExJsImport(biome_js_syntax::JsImport);

#[verifier::external_type_specification]
#[verifier::external_body]
pub struct ExJsImportAssertion(biome_js_syntax::JsImportAssertion);

#[verifier::external_type_specification]
#[verifier::external_body]
pub struct ExJsImportDefaultClause(biome_js_syntax::JsImportDefaultClause);

#[verifier::external_type_specification]
#[verifier::external_body]
pub struct ExJsImportNamedClause(biome_js_syntax::JsImportNamedClause);

#[verifier::external_type_specification]
#[verifier::external_body]
pub struct ExJsImportNamespaceClause(biome_js_syntax::JsImportNamespaceClause);

#[verifier::external_type_specification]
#[verifier::external_body]
pub struct ExJsImportCombinedClause(biome_js_syntax::JsImportCombinedClause);

#[verifier::external_type_specification]
#[verifier::external_body]
pub struct ExJsNamedImportSpecifiers(biome_js_syntax::JsNamedImportSpecifiers);

#[verifier::external_type_specification]
#[verifier::external_body]
pub struct ExAnyJsBinding(biome_js_syntax::AnyJsBinding);

#[verifier::external_type_specification]
#[verifier::external_body]
pub struct ExParseDiagnostic(biome_parser::diagnostic::ParseDiagnostic);

/// Whether the parser rejects the text under the dialect. Parsing is a
/// function of the text and dialect alone; this names its failure.
pub uninterp spec fn parse_fails(text: Seq<char>, lang: Language) -> bool;

/// Whether the text parses, but as something other than a module.
pub uninterp spec fn parse_not_module(text: Seq<char>, lang: Language) -> bool;

/// The import statements of the parsed module, in source order, as the
/// parser yields them for this text and dialect.
pub uninterp spec fn imports_of(text: Seq<char>, lang: Language) -> Seq<ImportStatementV>;

/// The text of the parsed module with its import statements removed and
/// leading blank trivia trimmed, as the tree yields it.
pub uninterp spec fn rest_of(text: Seq<char>, lang: Language) -> Seq<char>;

/// What parsing a text as a module comes to, as plain values.
pub enum ParsedModule {
    /// An error-free module: its import statements, and the text of
    /// everything else.
    Module(Vec<ImportStatement>, String),
    /// The text did not parse; the parser's diagnostics.
    Failed(Vec<biome_parser::diagnostic::ParseDiagnostic>),
    /// The text parsed, but as something other than a module.
    NotModule,
}

/// The clause of an import statement, as nodes of the tree.
pub enum RawClause {
    Bare,
    Default(biome_js_syntax::JsImportDefaultClause),
    Named(biome_js_syntax::JsImportNamedClause),
    Namespace(biome_js_syntax::JsImportNamespaceClause),
    Combined(biome_js_syntax::JsImportCombinedClause),
}

/// The part after the comma of a combined clause, as read from the tree.
pub enum RawCombined {
    Named(biome_js_syntax::JsNamedImportSpecifiers),
    Namespace(String),
}

/// Relies on biome_js_syntax::JsFileSource's module constructors: the file
/// source a dialect is parsed under.
#[verifier::external_body]
fn to_file_source(lang: Language) -> biome_js_syntax::JsFileSource {
    match lang {
        Language::JS => biome_js_syntax::JsFileSource::js_module(),
        Language::JSX => biome_js_syntax::JsFileSource::jsx(),
        Language::TS => biome_js_syntax::JsFileSource::ts(),
        Language::TSX => biome_js_syntax::JsFileSource::tsx(),
    }
}

/// Relies on biome_js_parser::parse and biome_js_parser::Parse::ok, with the
/// tree reads done by `collect_imports`, `extract_statement` and
/// `remaining_text`: the text parsed under the dialect, handed back as plain
/// values. The outcome depends on the text and dialect alone; the named
/// results above stand for it.
#[verifier::external_body]
pub(crate) fn parse_module(text: &str, lang: Language) -> (r: ParsedModule)
    ensures
        r is Failed <==> parse_fails(text@, lang),
        r is NotModule <==> (!parse_fails(text@, lang) && parse_not_module(text@, lang)),
        r matches ParsedModule::Module(imports, rest) ==> (stmt_views(imports@) == imports_of(text@, lang) && rest@ == rest_of(text@, lang) && !parse_fails(text@, lang) && !parse_not_module(text@, lang)),
{
    let parsed = biome_js_parser::parse(text, to_file_source(lang), biome_js_parser::JsParserOptions::default());
    let root = match parsed.ok() {
        Err(diagnostics) => return ParsedModule::Failed(diagnostics),
        Ok(AnyJsRoot::JsModule(module)) => module,
        Ok(_) => return ParsedModule::NotModule,
    };
    let imports = collect_imports(&root);
    let mut stmts = Vec::new();
    for import in imports.iter() {
        stmts.push(extract_statement(import));
    }
    let rest = remaining_text(root, &imports);
    ParsedModule::Module(stmts, rest)
}

/// The semantic parts of one import statement, read off its node through
/// the wrappers below.
fn extract_statement(import: &biome_js_syntax::JsImport) -> ImportStatement {
    let (source, raw, assertion) = import_parts(import);
    let assertion = match assertion {
        Some(a) => Some(assertion_parts(&a)),
        None => None,
    };
    let clause = match raw {
        RawClause::Bare => ImportClause::Bare,
        RawClause::Default(c) => {
            let (type_only, local) = default_parts(&c);
            ImportClause::Default { type_only, local }
        },
        RawClause::Named(c) => {
            let (type_only, specs) = named_parts(&c);
            ImportClause::Named { type_only, specifiers: named_specifier_list(&specs) }
        },
        RawClause::Namespace(c) => {
            let (type_only, local) = namespace_parts(&c);
            ImportClause::Namespace { type_only, local }
        },
        RawClause::Combined(c) => {
            let (local, tail) = combined_parts(&c);
            ImportClause::Combined {
                local,
                tail: match tail {
                    RawCombined::Named(specs) => CombinedTail::Named(named_specifier_list(&specs)),
                    RawCombined::Namespace(ns) => CombinedTail::Namespace(ns),
                },
            }
        },
    };
    ImportStatement { source, clause, assertion }
}

/// Relies on biome_js_syntax::JsModule::items: the module's top-level import
/// statements, in source order.
#[verifier::external_body]
pub fn collect_imports(module: &biome_js_syntax::JsModule) -> Vec<biome_js_syntax::JsImport> {
    let mut out = Vec::new();
    for item in module.items() {
        if let AnyJsModuleItem::JsImport(import) = item {
            out.push(import);
        }
    }
    out
}

/// Relies on biome_js_syntax::JsImport::import_clause,
/// AnyJsImportClause::source and JsModuleSource::value_token: the literal
/// source text of the import (quotes included), its clause, and its
/// assertion, if any.
#[verifier::external_body]
pub(crate) fn import_parts(import: &biome_js_syntax::JsImport) -> (String, RawClause, Option<
    biome_js_syntax::JsImportAssertion,
>) {
    let clause = import.import_clause().unwrap();
    let source = clause.source().unwrap().value_token().unwrap().text_trimmed().to_string();
    let assertion = clause.assertion();
    let raw = match clause {
        AnyJsImportClause::JsImportBareClause(_) => RawClause::Bare,
        AnyJsImportClause::JsImportDefaultClause(c) => RawClause::Default(c),
        AnyJsImportClause::JsImportNamedClause(c) => RawClause::Named(c),
        AnyJsImportClause::JsImportNamespaceClause(c) => RawClause::Namespace(c),
        AnyJsImportClause::JsImportCombinedClause(c) => RawClause::Combined(c),
    };
    (source, raw, assertion)
}

/// Relies on biome_js_syntax::AnyJsBinding: the trimmed text of an
/// identifier binding.
#[verifier::external_body]
pub(crate) fn binding_text(binding: &biome_js_syntax::AnyJsBinding) -> String {
    binding.as_js_identifier_binding().unwrap().name_token().unwrap().text_trimmed().to_string()
}

/// Relies on biome_js_syntax::JsImportDefaultClause: its type token's
/// presence and its default specifier's local binding.
#[verifier::external_body]
pub(crate) fn default_parts(clause: &biome_js_syntax::JsImportDefaultClause) -> (bool, String) {
    (
        clause.type_token().is_some(),
        binding_text(&clause.default_specifier().unwrap().local_name().unwrap()),
    )
}

/// Relies on biome_js_syntax::JsImportNamedClause: its type token's presence
/// and its named specifier list.
#[verifier::external_body]
pub(crate) fn named_parts(clause: &biome_js_syntax::JsImportNamedClause) -> (bool, biome_js_syntax::JsNamedImportSpecifiers) {
    (clause.type_token().is_some(), clause.named_specifiers().unwrap())
}

/// Relies on biome_js_syntax::JsImportNamespaceClause: its type token's
/// presence and its namespace specifier's local binding.
#[verifier::external_body]
pub(crate) fn namespace_parts(clause: &biome_js_syntax::JsImportNamespaceClause) -> (bool, String) {
    (
        clause.type_token().is_some(),
        binding_text(&clause.namespace_specifier().unwrap().local_name().unwrap()),
    )
}

/// Relies on biome_js_syntax::JsImportCombinedClause: its default
/// specifier's local binding and the specifier after the comma.
#[verifier::external_body]
pub(crate) fn combined_parts(clause: &biome_js_syntax::JsImportCombinedClause) -> (String, RawCombined) {
    let local = binding_text(&clause.default_specifier().unwrap().local_name().unwrap());
    let tail = match clause.specifier().unwrap() {
        AnyJsCombinedSpecifier::JsNamedImportSpecifiers(s) => RawCombined::Named(s),
        AnyJsCombinedSpecifier::JsNamespaceImportSpecifier(s) => RawCombined::Namespace(binding_text(&s.local_name().unwrap())),
    };
    (local, tail)
}

/// Relies on biome_js_syntax::JsNamedImportSpecifiers::specifiers: each
/// specifier's type token, imported name and local binding, in list order.
#[verifier::external_body]
pub(crate) fn named_specifier_list(specifiers: &biome_js_syntax::JsNamedImportSpecifiers) -> Vec<
    NamedSpecifier,
> {
    let mut out = Vec::new();
    for sp in specifiers.specifiers().iter() {
        match sp.unwrap() {
            AnyJsNamedImportSpecifier::JsShorthandNamedImportSpecifier(x) => out.push(NamedSpecifier { type_only: x.type_token().is_some(), imported: binding_text(&x.local_name().unwrap()), local: None }),
            AnyJsNamedImportSpecifier::JsNamedImportSpecifier(x) => out.push(NamedSpecifier { type_only: x.type_token().is_some(), imported: x.name().unwrap().value().unwrap().text_trimmed().to_string(), local: Some(binding_text(&x.local_name().unwrap())) }),
            AnyJsNamedImportSpecifier::JsBogusNamedImportSpecifier(_) => out.push(Option::<NamedSpecifier>::None.unwrap()),
        }
    }
    out
}

/// Relies on biome_js_syntax::JsImportAssertion: its keyword token and its
/// `key: value` entries, in list order.
#[verifier::external_body]
pub(crate) fn assertion_parts(assertion: &biome_js_syntax::JsImportAssertion) -> ImportAssertion {
    let mut entries = Vec::new();
    for entry in assertion.assertions().iter() {
        let entry = entry.unwrap();
        let entry = entry.as_js_import_assertion_entry().unwrap();
        entries.push(AssertionEntry {
            key: entry.key().unwrap().text_trimmed().to_string(),
            value: entry.value_token().unwrap().text_trimmed().to_string(),
        });
    }
    ImportAssertion {
        keyword: assertion.assertion_kind().unwrap().text_trimmed().to_string(),
        entries,
    }
}

/// Relies on biome_rowan's BatchMutation (begin, remove_node, commit) and
/// SyntaxNode::trim_leading_trivia: the module's text with the given import
/// statements removed and leading blank trivia trimmed.
#[verifier::external_body]
pub(crate) fn remaining_text(
    module: biome_js_syntax::JsModule,
    imports: &Vec<biome_js_syntax::JsImport>,
) -> String {
    let mut mutation = module.begin();
    for import in imports.iter() {
        mutation.remove_node(import.clone());
    }
    match mutation.commit().trim_leading_trivia() {
        Some(trimmed) => trimmed.text().to_string(),
        None => String::new(),
    }
}

} // verus!
