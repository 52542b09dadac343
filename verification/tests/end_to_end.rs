use tsimports::language::Language;
use tsimports::{tsimports, Error};

const SNAPSHOT_INPUT: &str = "\
import fs from 'fs'
import path from 'path'
import _ from 'lodash'
import chalk from 'chalk'
import foo from 'src/foo'
import foo from '../foo'
import qux from '../../foo/qux'
import bar from './bar'
import baz from './bar/baz'
import main from './'
import log = console.log
import type { Foo, Bar } from 'foo'
import userEvent from '@testing-library/user-event'
import { foo, type bar } from '@/my/module'
import * as R from 'remeda'
import * as utils from '~/utils'
import {} from '#import'
";

#[test]
fn snapshot_tests() {
    let out = tsimports(SNAPSHOT_INPUT, Language::TS).unwrap();
    let expected = "\
import fs from 'fs';
import path from 'path';

import userEvent from '@testing-library/user-event';
import chalk from 'chalk';
import type { Bar, Foo } from 'foo';
import _ from 'lodash';
import * as R from 'remeda';
import foo from 'src/foo';

import {  } from '#import';
import { type bar, foo } from '@/my/module';
import * as utils from '~/utils';

import qux from '../../foo/qux';
import foo from '../foo';

import bar from './bar';
import baz from './bar/baz';

import main from './';

import log = console.log";
    assert_eq!(out.trim_end(), expected);
}

#[test]
fn end_to_end_example() {
    let input = "\
import fs from 'fs'
import path from 'path'
import _ from 'lodash'
import chalk from 'chalk'
import foo from 'src/foo'
import foo2 from '../foo'
import qux from '../../foo/qux'
import bar from './bar'
import baz from './bar/baz'
import main from './'
import type { Foo, Bar } from 'foo'
import userEvent from '@testing-library/user-event'
const answer = 42
";
    let out = tsimports(input, Language::TS).unwrap();
    let expected = "\
import fs from 'fs';
import path from 'path';

import userEvent from '@testing-library/user-event';
import chalk from 'chalk';
import type { Bar, Foo } from 'foo';
import _ from 'lodash';
import foo from 'src/foo';

import qux from '../../foo/qux';
import foo2 from '../foo';

import bar from './bar';
import baz from './bar/baz';

import main from './';

const answer = 42";
    assert_eq!(out.trim_end(), expected);
}

#[test]
fn idempotent_on_its_own_output() {
    let out1 = tsimports(SNAPSHOT_INPUT, Language::TS).unwrap();
    let out2 = tsimports(out1.as_str(), Language::TS).unwrap();
    assert_eq!(out1, out2);
}

#[test]
fn assertion_clauses_survive() {
    let input = "import data from './data.json' with { type: 'json' }\nconst x = 1\n";
    let out = tsimports(input, Language::TS).unwrap();
    assert!(out.contains("import data from './data.json'with { type: 'json' };"));
}

#[test]
fn parse_failure_is_reported() {
    let out = tsimports("import {", Language::TS);
    assert!(matches!(out, Err(Error::Parser(_))));
    let err = tsimports("import {", Language::TS).unwrap_err();
    assert_eq!(
        err.message(),
        "Failed to parse the text as a ECMAScript or TypeScript module."
    );
}

#[test]
fn not_module_error_message() {
    let err = Error::NotJSModule;
    assert_eq!(
        err.message(),
        "Only module files (.mjs) or TypeScript files (.ts) are supported."
    );
}

#[test]
fn no_imports_leaves_body_after_blank_lines() {
    let out = tsimports("const x = 1;\n", Language::TS).unwrap();
    assert_eq!(out, "\n\nconst x = 1;\n");
}
