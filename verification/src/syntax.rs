//! Identification of the language or file format being edited.

use vstd::prelude::*;

verus! {

/// The `.` byte separating a file name from its extension.
pub const DOT: u8 = 46;

/// The `/` byte separating path components.
pub const SLASH: u8 = 47;

/// Programming language or file format being edited in a buffer.
#[derive(Debug, Clone, Copy, PartialEq, Eq, Hash, Structural)]
pub enum Syntax {
    JavaScript,
    Rust,
}

/// The index of the last occurrence of `b`, or `-1` if there is none.
pub open spec fn last_index(s: Seq<u8>, b: u8) -> int
    decreases s.len(),
{
    if s.len() == 0 {
        -1
    } else if s.last() == b {
        s.len() - 1
    } else {
        last_index(s.drop_last(), b)
    }
}

/// The extension of a path: what follows the last `.` of its final component,
/// provided that component has a non-empty stem before the dot.
pub open spec fn spec_extension(path: Seq<u8>) -> Option<Seq<u8>> {
    let d = last_index(path, DOT);
    let sl = last_index(path, SLASH);
    if d >= 0 && d > sl + 1 {
        Some(path.skip(d + 1))
    } else {
        None
    }
}

/// The syntax identified for a path: decided by its extension alone.
pub open spec fn spec_identify(path: Seq<u8>) -> Option<Syntax> {
    if spec_extension(path) == Some("js"@.map_values(|c: char| c as u8)) {
        Some(Syntax::JavaScript)
    } else if spec_extension(path) == Some("rs"@.map_values(|c: char| c as u8)) {
        Some(Syntax::Rust)
    } else {
        None
    }
}

/// The last occurrence of a byte lies inside the sequence.
pub proof fn lemma_last_index_bound(s: Seq<u8>, b: u8)
    ensures
        -1 <= last_index(s, b) < s.len(),
    decreases s.len(),
{
    if s.len() > 0 && s.last() != b {
        lemma_last_index_bound(s.drop_last(), b);
    }
}

/// Returns the index of the last occurrence of `b` in `s`, if any.
fn rfind_byte(s: &[u8], b: u8) -> (r: Option<usize>)
    ensures
        last_index(s@, b) < 0 ==> r is None,
        last_index(s@, b) >= 0 ==> r == Some(last_index(s@, b) as usize),
{
    let mut j = s.len();
    proof {
        assert(s@.take(j as int) =~= s@);
    }
    while j > 0
        invariant
            j <= s@.len(),
            last_index(s@, b) == last_index(s@.take(j as int), b),
        decreases j,
    {
        if s[j - 1] == b {
            proof {
                assert(s@.take(j as int).last() == b);
            }
            return Some(j - 1);
        }
        proof {
            assert(s@.take(j as int).drop_last() =~= s@.take(j - 1));
            assert(s@.take(j as int).last() != b);
        }
        j = j - 1;
    }
    None
}

impl Syntax {
    /// Attempts to identify the syntax for a file path, by its extension.
    /// Returns `None` for unknown or unsupported formats.
    pub fn identify(path: &[u8]) -> (r: Option<Syntax>)
        ensures
            r == spec_identify(path@),
    {
        let n = path.len();
        proof {
            lemma_last_index_bound(path@, DOT);
            lemma_last_index_bound(path@, SLASH);
        }
        let d = match rfind_byte(path, DOT) {
            Some(d) => d,
            None => {
                return None;
            },
        };
        let after_slash = match rfind_byte(path, SLASH) {
            Some(sl) => {
                proof {
                    assert(sl < n);
                }
                d > sl + 1
            },
            None => d > 0,
        };
        if !after_slash {
            return None;
        }
        let ext = vstd::slice::slice_subrange(path, d + 1, path.len());
        proof {
            assert(ext@ =~= path@.skip(d + 1));
            reveal_strlit("js");
            reveal_strlit("rs");
            assert("js"@.map_values(|c: char| c as u8) =~= seq![106u8, 115u8]);
            assert("rs"@.map_values(|c: char| c as u8) =~= seq![114u8, 115u8]);
        }
        if ext.len() == 2 && ext[0] == 106 && ext[1] == 115 {
            proof {
                assert(ext@ =~= seq![106u8, 115u8]);
            }
            Some(Syntax::JavaScript)
        } else if ext.len() == 2 && ext[0] == 114 && ext[1] == 115 {
            proof {
                assert(ext@ =~= seq![114u8, 115u8]);
            }
            Some(Syntax::Rust)
        } else {
            proof {
                if ext@ == seq![106u8, 115u8] || ext@ == seq![114u8, 115u8] {
                    assert(false);
                }
            }
            None
        }
    }

    /// Converts the syntax to a language identifier as used by language-server
    /// protocol document items.
    pub fn into_language_id(self) -> (r: &'static str)
        ensures
            self == Syntax::JavaScript ==> r@ == "javascript"@,
            self == Syntax::Rust ==> r@ == "rust"@,
    {
        match self {
            Syntax::JavaScript => "javascript",
            Syntax::Rust => "rust",
        }
    }
}

} // verus!
