//! Classification of a module specifier into one of six import kinds.
use vstd::prelude::*;

use crate::text::{is_ascii_letter, is_prefix, str_eq_str, str_starts_with};

verus! {

/// The six categories an import's module specifier can fall into, listed in
/// the order the organized output renders them.
#[derive(Copy, Clone, Debug, Eq, Hash, Ord, PartialEq, PartialOrd, Structural)]
pub enum ImportKind {
    Builtin,
    External,
    Internal,
    Parent,
    Sibling,
    Index,
}

impl ImportKind {
    /// Position of this kind in the fixed output order.
    pub open spec fn rank(self) -> int {
        match self {
            ImportKind::Builtin => 0,
            ImportKind::External => 1,
            ImportKind::Internal => 2,
            ImportKind::Parent => 3,
            ImportKind::Sibling => 4,
            ImportKind::Index => 5,
        }
    }
}

/// The specifier names one of the platform's built-in modules.
pub open spec fn is_builtin_module(s: Seq<char>) -> bool {
    ||| s == "assert"@
    ||| s == "assert/strict"@
    ||| s == "async_hooks"@
    ||| s == "buffer"@
    ||| s == "child_process"@
    ||| s == "cluster"@
    ||| s == "console"@
    ||| s == "constants"@
    ||| s == "crypto"@
    ||| s == "dgram"@
    ||| s == "diagnostics_channel"@
    ||| s == "dns"@
    ||| s == "dns/promises"@
    ||| s == "domain"@
    ||| s == "events"@
    ||| s == "fs"@
    ||| s == "fs/promises"@
    ||| s == "http"@
    ||| s == "http2"@
    ||| s == "https"@
    ||| s == "inspector"@
    ||| s == "inspector/promises"@
    ||| s == "module"@
    ||| s == "net"@
    ||| s == "os"@
    ||| s == "path"@
    ||| s == "path/posix"@
    ||| s == "path/win32"@
    ||| s == "perf_hooks"@
    ||| s == "process"@
    ||| s == "punycode"@
    ||| s == "querystring"@
    ||| s == "readline"@
    ||| s == "readline/promises"@
    ||| s == "repl"@
    ||| s == "stream"@
    ||| s == "stream/consumers"@
    ||| s == "stream/promises"@
    ||| s == "stream/web"@
    ||| s == "string_decoder"@
    ||| s == "timers"@
    ||| s == "timers/promises"@
    ||| s == "tls"@
    ||| s == "trace_events"@
    ||| s == "tty"@
    ||| s == "url"@
    ||| s == "util"@
    ||| s == "util/types"@
    ||| s == "v8"@
    ||| s == "vm"@
    ||| s == "wasi"@
    ||| s == "worker_threads"@
    ||| s == "zlib"@
}

/// The specifier is a package name: any run of leading `@` markers followed
/// by an ASCII letter.
pub open spec fn is_external_name(s: Seq<char>) -> bool {
    exists|i: int|
        0 <= i < s.len() && is_ascii_letter(#[trigger] s[i]) && (forall|j: int|
            0 <= j < i ==> s[j] == '@')
}

/// The classification rules, applied as an ordered decision list: the first
/// matching rule names the kind.
pub open spec fn classify(s: Seq<char>) -> ImportKind {
    if s == "bun"@ || is_prefix("node:"@, s) {
        ImportKind::Builtin
    } else if is_builtin_module(s) {
        ImportKind::Builtin
    } else if s == "."@ || s == "./"@ || s == "./index"@ || is_prefix("./index."@, s) {
        ImportKind::Index
    } else if is_prefix("./"@, s) {
        ImportKind::Sibling
    } else if is_prefix("../"@, s) {
        ImportKind::Parent
    } else if is_external_name(s) {
        ImportKind::External
    } else {
        ImportKind::Internal
    }
}

/// The specifier names a built-in module (executable form).
fn is_builtin_module_exec(name: &str) -> (r: bool)
    ensures
        r == is_builtin_module(name@),
{
    str_eq_str(name, "assert") || str_eq_str(name, "assert/strict") || str_eq_str(
        name,
        "async_hooks",
    ) || str_eq_str(name, "buffer") || str_eq_str(name, "child_process") || str_eq_str(
        name,
        "cluster",
    ) || str_eq_str(name, "console") || str_eq_str(name, "constants") || str_eq_str(
        name,
        "crypto",
    ) || str_eq_str(name, "dgram") || str_eq_str(name, "diagnostics_channel") || str_eq_str(
        name,
        "dns",
    ) || str_eq_str(name, "dns/promises") || str_eq_str(name, "domain") || str_eq_str(
        name,
        "events",
    ) || str_eq_str(name, "fs") || str_eq_str(name, "fs/promises") || str_eq_str(
        name,
        "http",
    ) || str_eq_str(name, "http2") || str_eq_str(name, "https") || str_eq_str(
        name,
        "inspector",
    ) || str_eq_str(name, "inspector/promises") || str_eq_str(name, "module") || str_eq_str(
        name,
        "net",
    ) || str_eq_str(name, "os") || str_eq_str(name, "path") || str_eq_str(
        name,
        "path/posix",
    ) || str_eq_str(name, "path/win32") || str_eq_str(name, "perf_hooks") || str_eq_str(
        name,
        "process",
    ) || str_eq_str(name, "punycode") || str_eq_str(name, "querystring") || str_eq_str(
        name,
        "readline",
    ) || str_eq_str(name, "readline/promises") || str_eq_str(name, "repl") || str_eq_str(
        name,
        "stream",
    ) || str_eq_str(name, "stream/consumers") || str_eq_str(name, "stream/promises")
        || str_eq_str(name, "stream/web") || str_eq_str(name, "string_decoder") || str_eq_str(
        name,
        "timers",
    ) || str_eq_str(name, "timers/promises") || str_eq_str(name, "tls") || str_eq_str(
        name,
        "trace_events",
    ) || str_eq_str(name, "tty") || str_eq_str(name, "url") || str_eq_str(
        name,
        "util",
    ) || str_eq_str(name, "util/types") || str_eq_str(name, "v8") || str_eq_str(
        name,
        "vm",
    ) || str_eq_str(name, "wasi") || str_eq_str(name, "worker_threads") || str_eq_str(
        name,
        "zlib",
    )
}

impl ImportKind {
    /// Classify a module specifier. Total: every string falls into exactly
    /// one of the six kinds.
    pub fn guess(name: &str) -> (k: Self)
        ensures
            k == classify(name@),
    {
        if str_eq_str(name, "bun") || str_starts_with(name, "node:") {
            return Self::Builtin;
        }
        if is_builtin_module_exec(name) {
            return Self::Builtin;
        }
        if str_eq_str(name, ".") || str_eq_str(name, "./") || str_eq_str(name, "./index")
            || str_starts_with(name, "./index.") {
            return Self::Index;
        }
        if str_starts_with(name, "./") {
            return Self::Sibling;
        }
        if str_starts_with(name, "../") {
            return Self::Parent;
        }
        let n = name.unicode_len();
        let mut i: usize = 0;
        while i < n
            invariant
                n == name@.len(),
                i <= n,
                forall|j: int| 0 <= j < i ==> name@[j] == '@',
                !(name@ == "bun"@ || is_prefix("node:"@, name@)),
                !is_builtin_module(name@),
                !(name@ == "."@ || name@ == "./"@ || name@ == "./index"@ || is_prefix(
                    "./index."@,
                    name@,
                )),
                !is_prefix("./"@, name@),
                !is_prefix("../"@, name@),
            decreases n - i,
        {
            let c = name.get_char(i);
            if c != '@' {
                let u = c as u32;
                if (97 <= u && u <= 122) || (65 <= u && u <= 90) {
                    assert(is_external_name(name@));
                    return Self::External;
                }
                assert(forall|ii: int|
                    0 <= ii < name@.len() && is_ascii_letter(name@[ii]) ==> !(forall|j: int|
                        0 <= j < ii ==> name@[j] == '@')) by {
                    assert forall|ii: int|
                        0 <= ii < name@.len() && is_ascii_letter(name@[ii]) && (forall|j: int|
                            0 <= j < ii ==> name@[j] == '@') implies false by {
                        if ii < i {
                            assert(name@[ii] == '@');
                            assert(!is_ascii_letter('@'));
                        } else if ii == i {
                            assert(!is_ascii_letter(c));
                        } else {
                            assert(name@[i as int] == '@');
                        }
                    }
                }
                return Self::Internal;
            }
            i += 1;
        }
        assert(!is_external_name(name@)) by {
            assert(forall|ii: int| 0 <= ii < name@.len() ==> name@[ii] == '@');
            assert(!is_ascii_letter('@'));
        }
        Self::Internal
    }
}

} // verus!
