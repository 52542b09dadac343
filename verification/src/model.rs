//! The semantic parts of one import statement, held as plain values, with
//! mathematical views for the contracts to speak of.
use vstd::prelude::*;

use crate::import_kind::{classify, ImportKind};
use crate::sorting::SortKey;
use crate::text::{lemma_lex_le_total, lemma_lex_le_transitive, lex_le, str_lex_le};

verus! {

/// View of one named specifier: `imported`, or `imported as local`,
/// optionally marked type-only.
pub struct NamedSpecifierV {
    pub type_only: bool,
    pub imported: Seq<char>,
    pub local: Option<Seq<char>>,
}

/// View of the part after the comma of a combined clause.
pub enum CombinedTailV {
    Named(Seq<NamedSpecifierV>),
    Namespace(Seq<char>),
}

/// View of an import clause: which bindings the statement introduces.
pub enum ImportClauseV {
    Bare,
    Default { type_only: bool, local: Seq<char> },
    Named { type_only: bool, specifiers: Seq<NamedSpecifierV> },
    Namespace { type_only: bool, local: Seq<char> },
    Combined { local: Seq<char>, tail: CombinedTailV },
}

/// View of one `key: value` entry of an import assertion.
pub struct AssertionEntryV {
    pub key: Seq<char>,
    pub value: Seq<char>,
}

/// View of an import assertion clause.
pub struct ImportAssertionV {
    pub keyword: Seq<char>,
    pub entries: Seq<AssertionEntryV>,
}

/// View of one import statement.
pub struct ImportStatementV {
    pub source: Seq<char>,
    pub clause: ImportClauseV,
    pub assertion: Option<ImportAssertionV>,
}

/// One named specifier, either shorthand (`local` absent, the binding is the
/// imported name itself) or aliased (`imported as local`).
pub struct NamedSpecifier {
    pub type_only: bool,
    pub imported: String,
    pub local: Option<String>,
}

/// The part after the comma of a combined clause: a named specifier list or
/// a namespace binding.
pub enum CombinedTail {
    Named(Vec<NamedSpecifier>),
    Namespace(String),
}

/// The clause of an import statement, one variant per grammar shape.
pub enum ImportClause {
    Bare,
    Default { type_only: bool, local: String },
    Named { type_only: bool, specifiers: Vec<NamedSpecifier> },
    Namespace { type_only: bool, local: String },
    Combined { local: String, tail: CombinedTail },
}

/// One `key: value` entry of an import assertion.
pub struct AssertionEntry {
    pub key: String,
    pub value: String,
}

/// An import assertion clause: its keyword token and its entries.
pub struct ImportAssertion {
    pub keyword: String,
    pub entries: Vec<AssertionEntry>,
}

/// One import statement: the literal source text (quotes included), the
/// clause, and an optional assertion.
pub struct ImportStatement {
    pub source: String,
    pub clause: ImportClause,
    pub assertion: Option<ImportAssertion>,
}

impl View for NamedSpecifier {
    type V = NamedSpecifierV;

    open spec fn view(&self) -> NamedSpecifierV {
        NamedSpecifierV {
            type_only: self.type_only,
            imported: self.imported@,
            local: match self.local {
                Some(l) => Some(l@),
                None => None,
            },
        }
    }
}

impl View for CombinedTail {
    type V = CombinedTailV;

    open spec fn view(&self) -> CombinedTailV {
        match self {
            CombinedTail::Named(specs) => CombinedTailV::Named(
                specs@.map_values(|s: NamedSpecifier| s@),
            ),
            CombinedTail::Namespace(l) => CombinedTailV::Namespace(l@),
        }
    }
}

impl View for ImportClause {
    type V = ImportClauseV;

    open spec fn view(&self) -> ImportClauseV {
        match self {
            ImportClause::Bare => ImportClauseV::Bare,
            ImportClause::Default { type_only, local } => ImportClauseV::Default {
                type_only: *type_only,
                local: local@,
            },
            ImportClause::Named { type_only, specifiers } => ImportClauseV::Named {
                type_only: *type_only,
                specifiers: specifiers@.map_values(|s: NamedSpecifier| s@),
            },
            ImportClause::Namespace { type_only, local } => ImportClauseV::Namespace {
                type_only: *type_only,
                local: local@,
            },
            ImportClause::Combined { local, tail } => ImportClauseV::Combined {
                local: local@,
                tail: tail@,
            },
        }
    }
}

impl View for AssertionEntry {
    type V = AssertionEntryV;

    open spec fn view(&self) -> AssertionEntryV {
        AssertionEntryV { key: self.key@, value: self.value@ }
    }
}

impl View for ImportAssertion {
    type V = ImportAssertionV;

    open spec fn view(&self) -> ImportAssertionV {
        ImportAssertionV {
            keyword: self.keyword@,
            entries: self.entries@.map_values(|e: AssertionEntry| e@),
        }
    }
}

impl View for ImportStatement {
    type V = ImportStatementV;

    open spec fn view(&self) -> ImportStatementV {
        ImportStatementV {
            source: self.source@,
            clause: self.clause@,
            assertion: match self.assertion {
                Some(a) => Some(a@),
                None => None,
            },
        }
    }
}

/// The views of a statement list, element for element.
pub open spec fn stmt_views(stmts: Seq<ImportStatement>) -> Seq<ImportStatementV> {
    stmts.map_values(|s: ImportStatement| s@)
}

/// The specifier named by a source literal: the text inside its quotes, or
/// the text itself where it is not a quoted literal.
pub open spec fn inner_source(s: Seq<char>) -> Seq<char> {
    if s.len() >= 2 && (s[0] == '\'' || s[0] == '"') && s[s.len() - 1] == s[0] {
        s.subrange(1, s.len() - 1)
    } else {
        s
    }
}

impl ImportStatementV {
    /// The kind this statement's source falls into.
    pub open spec fn kind(self) -> ImportKind {
        classify(inner_source(self.source))
    }
}

impl ImportStatement {
    /// The text inside the source literal's quotes (executable form).
    pub fn inner_source_text(&self) -> (r: String)
        ensures
            r@ == inner_source(self.source@),
    {
        let s = self.source.as_str();
        let n = s.unicode_len();
        if n >= 2 {
            let first = s.get_char(0);
            let last = s.get_char(n - 1);
            if (first == '\'' || first == '"') && last == first {
                return String::from_str(s.substring_char(1, n - 1));
            }
        }
        self.source.clone()
    }
}

impl SortKey for ImportStatement {
    /// Statements order by their literal source text.
    open spec fn le_spec(&self, other: &Self) -> bool {
        lex_le(self.source@, other.source@)
    }

    proof fn lemma_total(a: &Self, b: &Self) {
        lemma_lex_le_total(a.source@, b.source@);
    }

    proof fn lemma_transitive(a: &Self, b: &Self, c: &Self) {
        lemma_lex_le_transitive(a.source@, b.source@, c.source@);
    }

    fn le(&self, other: &Self) -> (r: bool) {
        str_lex_le(self.source.as_str(), other.source.as_str())
    }
}

impl SortKey for NamedSpecifier {
    /// Named specifiers order by their imported name.
    open spec fn le_spec(&self, other: &Self) -> bool {
        lex_le(self.imported@, other.imported@)
    }

    proof fn lemma_total(a: &Self, b: &Self) {
        lemma_lex_le_total(a.imported@, b.imported@);
    }

    proof fn lemma_transitive(a: &Self, b: &Self, c: &Self) {
        lemma_lex_le_transitive(a.imported@, b.imported@, c.imported@);
    }

    fn le(&self, other: &Self) -> (r: bool) {
        str_lex_le(self.imported.as_str(), other.imported.as_str())
    }
}

} // verus!
