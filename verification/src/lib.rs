//! Reorganizes the import statements of one ECMAScript / TypeScript module:
//! classifies each import by the kind of module it names, orders the groups
//! by a fixed priority, sorts each group by source text, rebuilds every
//! import statement in canonical form, and puts the block before the rest of
//! the module.
pub mod analyze;
pub mod import_kind;
pub mod language;
pub mod model;
pub mod parsing;
pub mod sorting;
pub mod text;
pub mod transform;

use vstd::prelude::*;

use crate::analyze::organized_output;
use crate::language::Language;
use crate::model::stmt_views;
use crate::parsing::{imports_of, parse_fails, parse_module, parse_not_module, rest_of, ParsedModule};

pub use crate::analyze::organize;
pub use crate::import_kind::ImportKind;

verus! {

/// Why organizing failed: the input did not parse, or parsed as something
/// other than a module.
#[derive(Debug)]
pub enum Error {
    /// Parsing failed, with the parser's diagnostics.
    Parser(Vec<biome_parser::diagnostic::ParseDiagnostic>),
    /// The input parsed as a script or snippet, not a module.
    NotJSModule,
}

impl Error {
    /// A short description of the failure, as the driver prints it.
    pub fn message(&self) -> (r: String)
        ensures
            self is Parser ==> r@
                == "Failed to parse the text as a ECMAScript or TypeScript module."@,
            self is NotJSModule ==> r@
                == "Only module files (.mjs) or TypeScript files (.ts) are supported."@,
    {
        match self {
            Error::Parser(_) => String::from_str(
                "Failed to parse the text as a ECMAScript or TypeScript module.",
            ),
            Error::NotJSModule => String::from_str(
                "Only module files (.mjs) or TypeScript files (.ts) are supported.",
            ),
        }
    }
}

/// Parse the text as a module under the given dialect, organize its import
/// statements, and return the reassembled text. Succeeds exactly when the
/// text parses as an error-free module, and then returns the organized form
/// of that module's imports and remainder; otherwise the error says which
/// of the two conditions failed.
pub fn tsimports(input: &str, lang: Language) -> (r: Result<String, Error>)
    ensures
        r is Ok <==> !parse_fails(input@, lang) && !parse_not_module(input@, lang),
        r matches Ok(out) ==> out@ == organized_output(
            imports_of(input@, lang),
            rest_of(input@, lang),
        ),
        r matches Err(e) ==> (e is Parser <==> parse_fails(input@, lang)),
        r matches Err(e) ==> (e is NotJSModule <==> !parse_fails(input@, lang)
            && parse_not_module(input@, lang)),
{
    match parse_module(input, lang) {
        ParsedModule::Failed(diagnostics) => Err(Error::Parser(diagnostics)),
        ParsedModule::NotModule => Err(Error::NotJSModule),
        ParsedModule::Module(imports, rest) => {
            let ghost iv = stmt_views(imports@);
            let ghost restv = rest@;
            let out = organize(imports, rest);
            proof {
                assert(out@ == organized_output(iv, restv));
            }
            Ok(out)
        },
    }
}

} // verus!
