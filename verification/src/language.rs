//! The dialect an input file is parsed under, and how the driver infers it
//! from a file path's extension.
use vstd::prelude::*;

use crate::text::str_eq_str;

verus! {

/// The dialect of an input file.
#[derive(Copy, Clone, Debug, Eq, PartialEq, Structural)]
pub enum Language {
    JS,
    JSX,
    TS,
    TSX,
}

impl Default for Language {
    /// Without any other indication, input is read as an ECMAScript module.
    fn default() -> (r: Self)
        ensures
            r == Language::JS,
    {
        Language::JS
    }
}

/// The dialect a file extension names, if any.
pub open spec fn language_of_extension(ext: Seq<char>) -> Option<Language> {
    if ext == "js"@ || ext == "mjs"@ {
        Some(Language::JS)
    } else if ext == "jsx"@ {
        Some(Language::JSX)
    } else if ext == "ts"@ || ext == "cts"@ || ext == "mts"@ {
        Some(Language::TS)
    } else if ext == "tsx"@ {
        Some(Language::TSX)
    } else {
        None
    }
}

/// Position `d` holds the dot that starts the path's extension: a dot in
/// the final path component, not that component's first character, with no
/// later dot.
pub open spec fn ext_dot_at(p: Seq<char>, d: int) -> bool {
    &&& 0 < d < p.len()
    &&& p[d] == '.'
    &&& p[d - 1] != '/'
    &&& forall|j: int| d < j < p.len() ==> p[j] != '/' && p[j] != '.'
}

/// The path with its trailing separators removed; they do not count when
/// the final component is taken.
pub open spec fn strip_trailing_slashes(p: Seq<char>) -> Seq<char>
    decreases p.len(),
{
    if p.len() > 0 && p.last() == '/' {
        strip_trailing_slashes(p.drop_last())
    } else {
        p
    }
}

/// The extension of a path: what follows the dot that starts it, trailing
/// separators ignored, if there is one.
pub open spec fn path_extension(p: Seq<char>) -> Option<Seq<char>> {
    let q = strip_trailing_slashes(p);
    if exists|d: int| ext_dot_at(q, d) {
        Some(q.subrange((choose|d: int| ext_dot_at(q, d)) + 1, q.len() as int))
    } else {
        None
    }
}

/// Where the trailing separators start, the stripped path ends.
proof fn lemma_strip_at(p: Seq<char>, e: int)
    requires
        0 <= e <= p.len(),
        forall|j: int| e <= j < p.len() ==> p[j] == '/',
        e > 0 ==> p[e - 1] != '/',
    ensures
        strip_trailing_slashes(p) == p.subrange(0, e),
    decreases p.len(),
{
    if p.len() == e {
        assert(p.subrange(0, e) =~= p);
    } else {
        assert(p.last() == '/') by {
            assert(p[p.len() - 1] == '/');
        }
        lemma_strip_at(p.drop_last(), e);
        assert(p.drop_last().subrange(0, e) =~= p.subrange(0, e));
    }
}

/// At most one position can start the extension.
proof fn lemma_ext_dot_unique(p: Seq<char>, d1: int, d2: int)
    requires
        ext_dot_at(p, d1),
        ext_dot_at(p, d2),
    ensures
        d1 == d2,
{
    if d1 < d2 {
        assert(p[d2] == '.');
    } else if d2 < d1 {
        assert(p[d1] == '.');
    }
}

impl Language {
    /// The dialect a file extension names, if any.
    pub fn from_extension(ext: &str) -> (r: Option<Self>)
        ensures
            r == language_of_extension(ext@),
    {
        if str_eq_str(ext, "js") || str_eq_str(ext, "mjs") {
            Some(Language::JS)
        } else if str_eq_str(ext, "jsx") {
            Some(Language::JSX)
        } else if str_eq_str(ext, "ts") || str_eq_str(ext, "cts") || str_eq_str(ext, "mts") {
            Some(Language::TS)
        } else if str_eq_str(ext, "tsx") {
            Some(Language::TSX)
        } else {
            None
        }
    }

    /// The dialect named by the extension of the given path, if any.
    pub fn from_path(path: &str) -> (r: Option<Self>)
        ensures
            r == match path_extension(path@) {
                Some(e) => language_of_extension(e),
                None => None,
            },
    {
        let n = path.unicode_len();
        let mut e: usize = n;
        loop
            invariant
                e <= n,
                n == path@.len(),
                forall|j: int| e <= j < n ==> path@[j] == '/',
            ensures
                e <= n,
                n == path@.len(),
                forall|j: int| e <= j < n ==> path@[j] == '/',
                e == 0 || path@[e - 1] != '/',
            decreases e,
        {
            if e == 0 {
                break;
            }
            if path.get_char(e - 1) != '/' {
                break;
            }
            e -= 1;
        }
        let ghost q = strip_trailing_slashes(path@);
        proof {
            lemma_strip_at(path@, e as int);
        }
        let mut i: usize = e;
        loop
            invariant
                i <= e,
                e <= n,
                n == path@.len(),
                q == path@.subrange(0, e as int),
                forall|j: int| i <= j < e ==> path@[j] != '/' && path@[j] != '.',
            ensures
                i <= e,
                e <= n,
                n == path@.len(),
                q == path@.subrange(0, e as int),
                forall|j: int| i <= j < e ==> path@[j] != '/' && path@[j] != '.',
                i == 0 || path@[i - 1] == '/' || path@[i - 1] == '.',
            decreases i,
        {
            if i == 0 {
                break;
            }
            let c = path.get_char(i - 1);
            if c == '/' || c == '.' {
                break;
            }
            i -= 1;
        }
        proof {
            assert(q.len() == e);
            assert(forall|j: int| 0 <= j < e ==> q[j] == path@[j]);
        }
        if i == 0 || path.get_char(i - 1) == '/' {
            proof {
                assert forall|d: int| !ext_dot_at(q, d) by {
                    if 0 < d < q.len() && q[d] == '.' {
                        assert(d < i);
                        if i > 0 {
                            assert(q[i - 1] == '/');
                        }
                    }
                }
            }
            return None;
        }
        proof {
            assert(q[i - 1] == '.');
        }
        if i == 1 || path.get_char(i - 2) == '/' {
            proof {
                assert forall|d: int| !ext_dot_at(q, d) by {
                    if ext_dot_at(q, d) {
                        if d < i - 1 {
                            assert(q[i - 1] == '.');
                        } else if d > i - 1 {
                            assert(q[d] == '.');
                        } else {
                            assert(q[d - 1] != '/');
                        }
                    }
                }
            }
            return None;
        }
        proof {
            assert(ext_dot_at(q, i - 1));
            let d = choose|d: int| ext_dot_at(q, d);
            lemma_ext_dot_unique(q, d, i - 1);
        }
        let ext = path.substring_char(i, e);
        proof {
            assert(ext@ =~= q.subrange(i as int, q.len() as int));
        }
        Language::from_extension(ext)
    }
}

} // verus!
