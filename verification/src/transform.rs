//! The rebuilder: the canonical textual form of one import statement,
//! reconstructed from its semantic parts with normalized spacing and the
//! named specifiers sorted alphabetically by imported name.
use vstd::prelude::*;

use crate::model::{
    AssertionEntry, AssertionEntryV, CombinedTail, CombinedTailV, ImportAssertion,
    ImportAssertionV, ImportClause, ImportClauseV, ImportStatement, ImportStatementV,
    NamedSpecifier, NamedSpecifierV,
};
use crate::sorting::{lemma_sort_seq_views, sort_seq_by, sort_vec};
use crate::text::{join, lemma_join_push, lex_le};

verus! {

/// Order of named specifiers in a rendered list: by imported name.
pub open spec fn specifier_leq(a: NamedSpecifierV, b: NamedSpecifierV) -> bool {
    lex_le(a.imported, b.imported)
}

/// The specifier order, as a relation value.
pub open spec fn specifier_leq_fn() -> spec_fn(NamedSpecifierV, NamedSpecifierV) -> bool {
    |a: NamedSpecifierV, b: NamedSpecifierV| specifier_leq(a, b)
}

/// The specifier list as it is rendered: stably sorted by imported name.
pub open spec fn sorted_specifiers(specs: Seq<NamedSpecifierV>) -> Seq<NamedSpecifierV> {
    sort_seq_by(specs, specifier_leq_fn())
}

/// Canonical text of one named specifier.
pub open spec fn render_specifier(s: NamedSpecifierV) -> Seq<char> {
    type_prefix(s.type_only) + s.imported + (match s.local {
        Some(l) => " as "@ + l,
        None => Seq::<char>::empty(),
    })
}

/// `type ` where a clause or specifier is type-only, nothing otherwise.
pub open spec fn type_prefix(type_only: bool) -> Seq<char> {
    if type_only {
        "type "@
    } else {
        Seq::<char>::empty()
    }
}

/// Canonical text of a braced named specifier list, specifiers sorted.
pub open spec fn render_specifier_block(specs: Seq<NamedSpecifierV>) -> Seq<char> {
    "{ "@ + join(
        sorted_specifiers(specs).map_values(|s: NamedSpecifierV| render_specifier(s)),
        ", "@,
    ) + " }"@
}

/// Canonical text of one assertion entry.
pub open spec fn render_entry(e: AssertionEntryV) -> Seq<char> {
    e.key + ": "@ + e.value
}

/// Canonical text of an import assertion clause. The keyword follows the
/// source literal directly and no space stands before the closing
/// semicolon: the canonical grammar marks no separator at either place.
pub open spec fn render_assertion(a: ImportAssertionV) -> Seq<char> {
    a.keyword + " { "@ + join(a.entries.map_values(|e: AssertionEntryV| render_entry(e)), ", "@)
        + " }"@
}

/// Canonical text of an optional assertion clause.
pub open spec fn render_assertion_opt(a: Option<ImportAssertionV>) -> Seq<char> {
    match a {
        Some(x) => render_assertion(x),
        None => Seq::<char>::empty(),
    }
}

/// Canonical text of the tail of a combined clause.
pub open spec fn render_tail(t: CombinedTailV) -> Seq<char> {
    match t {
        CombinedTailV::Named(specs) => render_specifier_block(specs),
        CombinedTailV::Namespace(l) => "* as "@ + l,
    }
}

/// Canonical text of a clause together with its source.
pub open spec fn render_clause(c: ImportClauseV, source: Seq<char>) -> Seq<char> {
    match c {
        ImportClauseV::Bare => source,
        ImportClauseV::Default { type_only, local } => type_prefix(type_only) + local + " from "@
            + source,
        ImportClauseV::Named { type_only, specifiers } => type_prefix(type_only)
            + render_specifier_block(specifiers) + " from "@ + source,
        ImportClauseV::Namespace { type_only, local } => type_prefix(type_only) + "* as "@ + local
            + " from "@ + source,
        ImportClauseV::Combined { local, tail } => local + ", "@ + render_tail(tail) + " from "@
            + source,
    }
}

/// Canonical text of one whole import statement.
pub open spec fn render_statement(s: ImportStatementV) -> Seq<char> {
    "import "@ + render_clause(s.clause, s.source) + render_assertion_opt(s.assertion) + ";"@
}

/// A value that can be rebuilt into its canonical text.
pub trait Remake {
    /// The canonical text.
    spec fn canonical(&self) -> Seq<char>;

    /// Rebuild the canonical text.
    fn remake(&self) -> (r: String)
        ensures
            r@ == self.canonical(),
    ;
}

impl Remake for NamedSpecifier {
    open spec fn canonical(&self) -> Seq<char> {
        render_specifier(self@)
    }

    fn remake(&self) -> (r: String) {
        let mut out = String::new();
        if self.type_only {
            out.append("type ");
        }
        out.append(self.imported.as_str());
        match &self.local {
            Some(l) => {
                out.append(" as ");
                out.append(l.as_str());
            },
            None => {},
        }
        proof {
            assert(out@ =~= render_specifier(self@));
        }
        out
    }
}

impl Remake for AssertionEntry {
    open spec fn canonical(&self) -> Seq<char> {
        render_entry(self@)
    }

    fn remake(&self) -> (r: String) {
        let mut out = String::new();
        out.append(self.key.as_str());
        out.append(": ");
        out.append(self.value.as_str());
        proof {
            assert(out@ =~= render_entry(self@));
        }
        out
    }
}

impl Remake for ImportAssertion {
    open spec fn canonical(&self) -> Seq<char> {
        render_assertion(self@)
    }

    fn remake(&self) -> (r: String) {
        let ghost parts = self.entries@.map_values(|e: AssertionEntry| e@).map_values(
            |e: AssertionEntryV| render_entry(e),
        );
        let mut out = String::new();
        out.append(self.keyword.as_str());
        out.append(" { ");
        let ghost head = out@;
        let mut i: usize = 0;
        while i < self.entries.len()
            invariant
                i <= self.entries@.len(),
                parts == self.entries@.map_values(|e: AssertionEntry| e@).map_values(
                    |e: AssertionEntryV| render_entry(e),
                ),
                parts.len() == self.entries@.len(),
                head == self.keyword@ + " { "@,
                out@ == head + join(parts.subrange(0, i as int), ", "@),
            decreases self.entries@.len() - i,
        {
            if i > 0 {
                out.append(", ");
            }
            let piece = self.entries[i].remake();
            out.append(piece.as_str());
            proof {
                lemma_join_push(parts.subrange(0, i as int), ", "@, parts[i as int]);
                assert(parts.subrange(0, i as int).push(parts[i as int]) =~= parts.subrange(
                    0,
                    i + 1,
                ));
                assert(out@ =~= head + join(parts.subrange(0, i + 1), ", "@));
            }
            i += 1;
        }
        out.append(" }");
        proof {
            assert(parts.subrange(0, parts.len() as int) =~= parts);
            assert(self.entries@.map_values(|e: AssertionEntry| e@) == self@.entries);
            assert(out@ =~= render_assertion(self@));
        }
        out
    }
}

/// A copy of a specifier list, element for element.
fn clone_specifiers(v: &Vec<NamedSpecifier>) -> (r: Vec<NamedSpecifier>)
    ensures
        r@ == v@,
{
    let mut r: Vec<NamedSpecifier> = Vec::new();
    let mut i: usize = 0;
    while i < v.len()
        invariant
            i <= v@.len(),
            r@ == v@.subrange(0, i as int),
        decreases v@.len() - i,
    {
        let local = match &v[i].local {
            Some(l) => Some(l.clone()),
            None => None,
        };
        r.push(NamedSpecifier { type_only: v[i].type_only, imported: v[i].imported.clone(), local });
        proof {
            assert(r@.last() == v@[i as int]);
            assert(r@ =~= v@.subrange(0, i + 1));
        }
        i += 1;
    }
    proof {
        assert(v@.subrange(0, v@.len() as int) =~= v@);
    }
    r
}

/// The braced, sorted specifier block of a named clause.
fn specifier_block_text(specs: &Vec<NamedSpecifier>) -> (r: String)
    ensures
        r@ == render_specifier_block(specs@.map_values(|s: NamedSpecifier| s@)),
{
    let sorted = sort_vec(clone_specifiers(specs));
    proof {
        lemma_sort_seq_views::<NamedSpecifier, NamedSpecifierV>(
            specs@,
            |s: NamedSpecifier| s@,
            specifier_leq_fn(),
        );
    }
    let ghost parts = sorted@.map_values(|s: NamedSpecifier| s@).map_values(
        |s: NamedSpecifierV| render_specifier(s),
    );
    let mut out = String::new();
    out.append("{ ");
    let ghost head = out@;
    let mut i: usize = 0;
    while i < sorted.len()
        invariant
            i <= sorted@.len(),
            parts == sorted@.map_values(|s: NamedSpecifier| s@).map_values(
                |s: NamedSpecifierV| render_specifier(s),
            ),
            parts.len() == sorted@.len(),
            head == "{ "@,
            out@ == head + join(parts.subrange(0, i as int), ", "@),
        decreases sorted@.len() - i,
    {
        if i > 0 {
            out.append(", ");
        }
        let piece = sorted[i].remake();
        out.append(piece.as_str());
        proof {
            lemma_join_push(parts.subrange(0, i as int), ", "@, parts[i as int]);
            assert(parts.subrange(0, i as int).push(parts[i as int]) =~= parts.subrange(0, i + 1));
            assert(out@ =~= head + join(parts.subrange(0, i + 1), ", "@));
        }
        i += 1;
    }
    out.append(" }");
    proof {
        assert(parts.subrange(0, parts.len() as int) =~= parts);
        assert(sorted@.map_values(|s: NamedSpecifier| s@) == sorted_specifiers(
            specs@.map_values(|s: NamedSpecifier| s@),
        ));
        assert(out@ =~= render_specifier_block(specs@.map_values(|s: NamedSpecifier| s@)));
    }
    out
}

impl Remake for ImportStatement {
    open spec fn canonical(&self) -> Seq<char> {
        render_statement(self@)
    }

    fn remake(&self) -> (r: String) {
        let mut out = String::new();
        out.append("import ");
        match &self.clause {
            ImportClause::Bare => {
                out.append(self.source.as_str());
            },
            ImportClause::Default { type_only, local } => {
                if *type_only {
                    out.append("type ");
                }
                out.append(local.as_str());
                out.append(" from ");
                out.append(self.source.as_str());
            },
            ImportClause::Named { type_only, specifiers } => {
                if *type_only {
                    out.append("type ");
                }
                let block = specifier_block_text(specifiers);
                out.append(block.as_str());
                out.append(" from ");
                out.append(self.source.as_str());
            },
            ImportClause::Namespace { type_only, local } => {
                if *type_only {
                    out.append("type ");
                }
                out.append("* as ");
                out.append(local.as_str());
                out.append(" from ");
                out.append(self.source.as_str());
            },
            ImportClause::Combined { local, tail } => {
                out.append(local.as_str());
                out.append(", ");
                match tail {
                    CombinedTail::Named(specs) => {
                        let block = specifier_block_text(specs);
                        out.append(block.as_str());
                    },
                    CombinedTail::Namespace(l) => {
                        out.append("* as ");
                        out.append(l.as_str());
                    },
                }
                out.append(" from ");
                out.append(self.source.as_str());
            },
        }
        match &self.assertion {
            Some(a) => {
                let t = a.remake();
                out.append(t.as_str());
            },
            None => {},
        }
        out.append(";");
        proof {
            assert(out@ =~= render_statement(self@));
        }
        out
    }
}

} // verus!
