use tsimports::model::{ImportClause, ImportStatement};
use tsimports::organize;

fn default_import(local: &str, source_inner: &str) -> ImportStatement {
    ImportStatement {
        source: format!("'{}'", source_inner),
        clause: ImportClause::Default { type_only: false, local: local.to_string() },
        assertion: None,
    }
}

#[test]
fn groups_ordered_and_sorted() {
    let stmts = vec![
        default_import("bar", "./bar"),
        default_import("lodash", "lodash"),
        default_import("fs", "fs"),
        default_import("chalk", "chalk"),
        default_import("qux", "../qux"),
        default_import("main", "./"),
    ];
    let out = organize(stmts, "const x = 1;\n".to_string());
    let expected = "\
import fs from 'fs';

import chalk from 'chalk';
import lodash from 'lodash';

import qux from '../qux';

import bar from './bar';

import main from './';

const x = 1;
";
    assert_eq!(out, expected);
}

#[test]
fn no_imports_keeps_body_after_separator() {
    let out = organize(vec![], "const x = 1;\n".to_string());
    assert_eq!(out, "\n\nconst x = 1;\n");
}

#[test]
fn duplicate_sources_are_kept() {
    let stmts = vec![default_import("a", "x"), default_import("b", "x")];
    let out = organize(stmts, String::new());
    assert_eq!(out, "import a from 'x';\nimport b from 'x';\n\n");
}

#[test]
fn intra_group_order_is_lexicographic() {
    let stmts = vec![
        default_import("b", "zebra"),
        default_import("a", "Apple"),
        default_import("c", "apple"),
    ];
    let out = organize(stmts, String::new());
    assert_eq!(
        out,
        "import a from 'Apple';\nimport c from 'apple';\nimport b from 'zebra';\n\n"
    );
}

#[test]
fn sort_key_includes_quote_characters() {
    let double = ImportStatement {
        source: "\"b\"".to_string(),
        clause: ImportClause::Default { type_only: false, local: "b".to_string() },
        assertion: None,
    };
    let single = ImportStatement {
        source: "'a'".to_string(),
        clause: ImportClause::Default { type_only: false, local: "a".to_string() },
        assertion: None,
    };
    let out = organize(vec![single, double], String::new());
    assert_eq!(out, "import b from \"b\";\nimport a from 'a';\n\n");
}
