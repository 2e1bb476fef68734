//! Heuristic classification of a JavaScript source file's module convention.
//!
//! A single left-to-right lexical scan walks the raw bytes of the file,
//! skipping comments, string literals, template literals (with nested
//! `${...}` interpolation) and regex literals, and inspects every remaining
//! position for the keywords that signal ECMAScript module syntax
//! (`import`, `export`, `import.meta`) or CommonJS usage (`require`,
//! `module`, `exports`), while tracking brace scope depth and local
//! shadowing of the three CommonJS identifiers.

use vstd::prelude::*;
use vstd::string::StringSliceAdditionalSpecFns;

pub mod utils;
pub mod walk;

verus! {

/// The verdict of the scan: which module convention the file exhibits.
#[derive(Debug, PartialEq, Eq)]
pub enum JsSyntax {
    ESM,
    CJS,
    Mixed,
    Unknown,
}

/// The verdict as a pure function of the two detection flags: both set is
/// `Mixed`, exactly one gives that convention, neither gives `Unknown`.
pub open spec fn verdict_of(saw_esm: bool, saw_cjs: bool) -> JsSyntax {
    if saw_esm && saw_cjs {
        JsSyntax::Mixed
    } else if saw_esm {
        JsSyntax::ESM
    } else if saw_cjs {
        JsSyntax::CJS
    } else {
        JsSyntax::Unknown
    }
}

/// The classification of a byte sequence: the verdict read off the flags
/// that the whole lexical walk accumulates.
pub open spec fn spec_classify(b: Seq<u8>) -> JsSyntax {
    verdict_of(walk::scan_result(b).saw_esm, walk::scan_result(b).saw_cjs)
}

/// Classify raw source bytes.
pub fn classify_bytes(b: &[u8]) -> (r: JsSyntax)
    ensures
        r == spec_classify(b@),
{
    let st = walk::scan_source(b);
    if st.saw_esm && st.saw_cjs {
        JsSyntax::Mixed
    } else if st.saw_esm {
        JsSyntax::ESM
    } else if st.saw_cjs {
        JsSyntax::CJS
    } else {
        JsSyntax::Unknown
    }
}

/// Detect whether a JavaScript file uses ESM or CJS module syntax.
///
/// The verdict is a pure function of the file's bytes alone — no hidden
/// state — so classifying the same text twice always yields the same
/// verdict.
pub fn guess_js_syntax(s: &str) -> (r: JsSyntax)
    ensures
        r == spec_classify(s.spec_bytes()),
{
    classify_bytes(s.as_bytes())
}

/// The verdict is always exactly one of the four values, and it encodes
/// the two detection flags exactly: `Mixed` iff both an ESM-triggering and
/// a CJS-triggering construct were detected, `ESM`/`CJS` iff exactly the
/// one was, `Unknown` iff neither was.
pub proof fn lemma_verdict_characterization(b: Seq<u8>)
    ensures
        spec_classify(b) == JsSyntax::Mixed <==> (walk::scan_result(b).saw_esm && walk::scan_result(
            b,
        ).saw_cjs),
        spec_classify(b) == JsSyntax::ESM <==> (walk::scan_result(b).saw_esm && !walk::scan_result(
            b,
        ).saw_cjs),
        spec_classify(b) == JsSyntax::CJS <==> (!walk::scan_result(b).saw_esm && walk::scan_result(
            b,
        ).saw_cjs),
        spec_classify(b) == JsSyntax::Unknown <==> (!walk::scan_result(b).saw_esm
            && !walk::scan_result(b).saw_cjs),
{
}

/// Classification is deterministic: the verdict depends on the text alone,
/// so two classifications of equal text agree.
pub proof fn lemma_classify_deterministic(b1: Seq<u8>, b2: Seq<u8>)
    requires
        b1 == b2,
    ensures
        spec_classify(b1) == spec_classify(b2),
{
}

} // verus!
