use tsimports::model::{
    AssertionEntry, CombinedTail, ImportAssertion, ImportClause, ImportStatement, NamedSpecifier,
};
use tsimports::transform::Remake;

fn stmt(source: &str, clause: ImportClause) -> ImportStatement {
    ImportStatement { source: source.to_string(), clause, assertion: None }
}

fn named(type_only: bool, imported: &str, local: Option<&str>) -> NamedSpecifier {
    NamedSpecifier {
        type_only,
        imported: imported.to_string(),
        local: local.map(|l| l.to_string()),
    }
}

#[test]
fn bare_clause() {
    assert_eq!(stmt("'x'", ImportClause::Bare).remake(), "import 'x';");
}

#[test]
fn default_clause() {
    let s = stmt("'mod'", ImportClause::Default { type_only: false, local: "foo".to_string() });
    assert_eq!(s.remake(), "import foo from 'mod';");
    let t = stmt("'mod'", ImportClause::Default { type_only: true, local: "foo".to_string() });
    assert_eq!(t.remake(), "import type foo from 'mod';");
}

#[test]
fn named_clause_sorts_specifiers() {
    let s = stmt(
        "'x'",
        ImportClause::Named {
            type_only: false,
            specifiers: vec![named(false, "b", None), named(false, "a", None)],
        },
    );
    assert_eq!(s.remake(), "import { a, b } from 'x';");
}

#[test]
fn named_clause_aliases_and_type_marks() {
    let s = stmt(
        "'x'",
        ImportClause::Named {
            type_only: true,
            specifiers: vec![named(false, "Foo", None), named(false, "Bar", None)],
        },
    );
    assert_eq!(s.remake(), "import type { Bar, Foo } from 'x';");
    let t = stmt(
        "'x'",
        ImportClause::Named {
            type_only: false,
            specifiers: vec![named(true, "b", None), named(false, "a", Some("c"))],
        },
    );
    assert_eq!(t.remake(), "import { a as c, type b } from 'x';");
}

#[test]
fn empty_named_clause() {
    let s = stmt("'#import'", ImportClause::Named { type_only: false, specifiers: vec![] });
    assert_eq!(s.remake(), "import {  } from '#import';");
}

#[test]
fn namespace_clause() {
    let s = stmt(
        "'x'",
        ImportClause::Namespace { type_only: false, local: "ns".to_string() },
    );
    assert_eq!(s.remake(), "import * as ns from 'x';");
    let t = stmt(
        "'x'",
        ImportClause::Namespace { type_only: true, local: "ns".to_string() },
    );
    assert_eq!(t.remake(), "import type * as ns from 'x';");
}

#[test]
fn combined_clauses() {
    let s = stmt(
        "'x'",
        ImportClause::Combined {
            local: "d".to_string(),
            tail: CombinedTail::Named(vec![named(false, "b", None), named(false, "a", None)]),
        },
    );
    assert_eq!(s.remake(), "import d, { a, b } from 'x';");
    let t = stmt(
        "'x'",
        ImportClause::Combined {
            local: "d".to_string(),
            tail: CombinedTail::Namespace("ns".to_string()),
        },
    );
    assert_eq!(t.remake(), "import d, * as ns from 'x';");
}

#[test]
fn assertion_clause() {
    let s = ImportStatement {
        source: "'data.json'".to_string(),
        clause: ImportClause::Default { type_only: false, local: "data".to_string() },
        assertion: Some(ImportAssertion {
            keyword: "with".to_string(),
            entries: vec![AssertionEntry {
                key: "type".to_string(),
                value: "'json'".to_string(),
            }],
        }),
    };
    assert_eq!(s.remake(), "import data from 'data.json'with { type: 'json' };");
}
