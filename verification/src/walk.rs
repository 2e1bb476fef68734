//! The lexical walk: a single forward pass over the source bytes that skips
//! comments, string literals, template literals and regex literals, and at
//! every position not inside a skipped construct runs the classifier that
//! looks for module-syntax keywords and tracks scope depth and shadowing.
//!
//! The walk is modelled by a small-step interpreter over [`ScanModel`]:
//! `step` gives the exact state after handling one position, `scan` folds
//! `step` until the cursor reaches the end of the input or both verdict
//! flags are set. The executable scanner is proved to compute exactly
//! `scan` of the initial state. An unterminated construct (a comment,
//! string, template or regex missing its closing delimiter) ends the walk
//! early with whatever flags are already set, modelled by moving the
//! cursor to the end of the input.

use vstd::prelude::*;

use crate::utils::{
    byte_is_alnum, byte_is_alpha, get_nearest_non_whitespace_index_left, is_alnum_byte,
    is_alpha_byte, is_backslash_escaped, is_escaped, is_export_at, is_export_identifier,
    is_exports_at, is_exports_identifier, is_fn_param_at, is_function_param_declaration,
    is_import_at, is_import_identifier, is_meta_at, is_meta_identifier, is_module_at,
    is_module_identifier, is_require_at, is_require_identifier,
    is_slash_preceded_by_regex_possible_keyword, is_var_decl_at, is_var_declaration, nnws_left,
    regex_keyword_before,
};

verus! {

/// The sentinel shadow depth meaning "not shadowed" (conceptually infinity).
pub open spec fn unshadowed() -> int {
    usize::MAX as int
}

/// The complete state of the walk: cursor, the two monotone verdict flags,
/// the template-literal interpolation depth, the brace scope depth, and for
/// each tracked CommonJS identifier the scope depth at which a local
/// declaration shadowed it (`unshadowed()` when none does).
pub struct ScanModel {
    pub i: int,
    pub saw_esm: bool,
    pub saw_cjs: bool,
    pub template_depth: int,
    pub scope_depth: int,
    pub require_shadow: int,
    pub module_shadow: int,
    pub exports_shadow: int,
}

/// The state every walk starts from: cursor at 0, nothing detected, no
/// scopes open, nothing shadowed.
pub open spec fn initial_state() -> ScanModel {
    ScanModel {
        i: 0,
        saw_esm: false,
        saw_cjs: false,
        template_depth: 0,
        scope_depth: 0,
        require_shadow: unshadowed(),
        module_shadow: unshadowed(),
        exports_shadow: unshadowed(),
    }
}

/// Terminate the walk early: the cursor jumps to the end of the input and
/// everything else stands.
pub open spec fn halted(b: Seq<u8>, st: ScanModel) -> ScanModel {
    ScanModel { i: b.len() as int, ..st }
}

/// The first position at or after `j` holding a line terminator (LF or CR).
pub open spec fn find_line_end(b: Seq<u8>, j: int) -> Option<int>
    decreases b.len() - j,
{
    if j < 0 || j >= b.len() {
        None
    } else if b[j] == ('\n' as u8) || b[j] == ('\r' as u8) {
        Some(j)
    } else {
        find_line_end(b, j + 1)
    }
}

/// The first position `p` at or after `j` where `*/` ends, i.e. `b[p]` is
/// `/` directly preceded by `*`.
pub open spec fn find_block_end(b: Seq<u8>, j: int) -> Option<int>
    decreases b.len() - j,
{
    if j < 0 || j >= b.len() {
        None
    } else if j >= 1 && b[j] == ('/' as u8) && b[j - 1] == ('*' as u8) {
        Some(j)
    } else {
        find_block_end(b, j + 1)
    }
}

/// The first position at or after `j` holding an unescaped quote equal to
/// `quote`.
pub open spec fn find_quote_end(b: Seq<u8>, j: int, quote: u8) -> Option<int>
    decreases b.len() - j,
{
    if j < 0 || j >= b.len() {
        None
    } else if b[j] == quote && !is_escaped(b, j) {
        Some(j)
    } else {
        find_quote_end(b, j + 1, quote)
    }
}

/// The first position at or after `j` holding an unescaped `${` opener or
/// an unescaped backtick, the two delimiters that matter while skipping
/// raw template text.
pub open spec fn find_template_delim(b: Seq<u8>, j: int) -> Option<int>
    decreases b.len() - j,
{
    if j < 0 || j >= b.len() {
        None
    } else if b[j] == ('$' as u8) && j + 1 < b.len() && b[j + 1] == ('{' as u8) && !is_escaped(
        b,
        j,
    ) {
        Some(j)
    } else if b[j] == ('`' as u8) && !is_escaped(b, j) {
        Some(j)
    } else {
        find_template_delim(b, j + 1)
    }
}

/// The first position at or after `j` that terminates a regex-literal
/// scan: a bare newline (the slash was division after all) or an unescaped
/// `/` outside a `[...]` character class. `in_bracket` says whether the
/// scan currently stands inside an unclosed character class.
pub open spec fn find_regex_end(b: Seq<u8>, j: int, in_bracket: bool) -> Option<int>
    decreases b.len() - j,
{
    if j < 0 || j >= b.len() {
        None
    } else if b[j] == ('[' as u8) && !is_escaped(b, j) {
        find_regex_end(b, j + 1, true)
    } else if b[j] == (']' as u8) && !is_escaped(b, j) {
        find_regex_end(b, j + 1, false)
    } else if b[j] == ('\n' as u8) {
        Some(j)
    } else if !in_bracket && b[j] == ('/' as u8) && !is_escaped(b, j) {
        Some(j)
    } else {
        find_regex_end(b, j + 1, in_bracket)
    }
}

/// The first position at or after `j` holding a non-alphabetic character,
/// used to step over the modifier flags after a regex literal's closing
/// slash.
pub open spec fn find_non_alpha(b: Seq<u8>, j: int) -> Option<int>
    decreases b.len() - j,
{
    if j < 0 || j >= b.len() {
        None
    } else if !is_alpha_byte(b[j]) {
        Some(j)
    } else {
        find_non_alpha(b, j + 1)
    }
}

/// Looking right from `j` (just past an `import` keyword): a quote, an
/// opening brace or a newline before any `(` marks a static import; a `(`
/// first marks a dynamic `import(...)`, which is not static ESM syntax.
pub open spec fn import_forward_is_static(b: Seq<u8>, j: int) -> bool
    decreases b.len() - j,
{
    if j < 0 || j >= b.len() {
        false
    } else if b[j] == ('\'' as u8) || b[j] == ('"' as u8) || b[j] == ('{' as u8) || b[j] == ('\n'
        as u8) {
        true
    } else if b[j] == ('(' as u8) {
        false
    } else {
        import_forward_is_static(b, j + 1)
    }
}

/// The brace bookkeeping the classifier does for CommonJS scope tracking:
/// `{` opens a scope; `}` closes one (clamped at depth 0), and any shadow
/// recorded at a depth the walk just left is reset to unshadowed.
pub open spec fn brace_update(st: ScanModel, c: u8) -> ScanModel {
    if c == ('{' as u8) {
        ScanModel { scope_depth: st.scope_depth + 1, ..st }
    } else if c == ('}' as u8) {
        let sd = if st.scope_depth > 0 {
            st.scope_depth - 1
        } else {
            0
        };
        ScanModel {
            scope_depth: sd,
            require_shadow: if sd < st.require_shadow {
                unshadowed()
            } else {
                st.require_shadow
            },
            module_shadow: if sd < st.module_shadow {
                unshadowed()
            } else {
                st.module_shadow
            },
            exports_shadow: if sd < st.exports_shadow {
                unshadowed()
            } else {
                st.exports_shadow
            },
            ..st
        }
    } else {
        st
    }
}

/// The classifier's decision at a position the skipper handed back.
///
/// While ESM is undetected, a whole-word `import` either proves ESM on the
/// spot (followed by `.meta`, or by a quote, brace or newline before any
/// `(`) or is a dynamic `import(...)`; a whole-word `export` proves ESM
/// unconditionally. While CJS is undetected, braces adjust the scope
/// depth, and an unshadowed whole-word `require`, `module` or `exports`
/// either records a new shadow (variable or parameter declaration) or
/// proves CJS (a plain reference). The cursor advances by the matched
/// keyword's length, else by one.
pub open spec fn classify_step(b: Seq<u8>, st: ScanModel) -> ScanModel
    recommends
        0 <= st.i < b.len(),
{
    let i = st.i;
    if !st.saw_esm && is_import_at(b, i) {
        if i + 6 < b.len() && b[i + 6] == ('.' as u8) && is_meta_at(b, i + 7) {
            ScanModel { i: i + 11, saw_esm: true, ..st }
        } else {
            ScanModel { i: i + 6, saw_esm: import_forward_is_static(b, i + 6), ..st }
        }
    } else if !st.saw_esm && is_export_at(b, i) {
        ScanModel { i: i + 6, saw_esm: true, ..st }
    } else if !st.saw_cjs {
        let stb = brace_update(st, b[i]);
        if stb.scope_depth < stb.require_shadow && is_require_at(b, i) {
            if is_var_decl_at(b, i) {
                ScanModel { i: i + 7, require_shadow: stb.scope_depth, ..stb }
            } else if is_fn_param_at(b, i, i + 7) {
                ScanModel { i: i + 7, require_shadow: stb.scope_depth + 1, ..stb }
            } else {
                ScanModel { i: i + 7, saw_cjs: true, ..stb }
            }
        } else if stb.scope_depth < stb.module_shadow && is_module_at(b, i) {
            if is_var_decl_at(b, i) {
                ScanModel { i: i + 6, module_shadow: stb.scope_depth, ..stb }
            } else if is_fn_param_at(b, i, i + 6) {
                ScanModel { i: i + 6, module_shadow: stb.scope_depth + 1, ..stb }
            } else {
                ScanModel { i: i + 6, saw_cjs: true, ..stb }
            }
        } else if stb.scope_depth < stb.exports_shadow && is_exports_at(b, i) {
            if is_var_decl_at(b, i) {
                ScanModel { i: i + 7, exports_shadow: stb.scope_depth, ..stb }
            } else if is_fn_param_at(b, i, i + 7) {
                ScanModel { i: i + 7, exports_shadow: stb.scope_depth + 1, ..stb }
            } else {
                ScanModel { i: i + 7, saw_cjs: true, ..stb }
            }
        } else {
            ScanModel { i: i + 1, ..stb }
        }
    } else {
        ScanModel { i: i + 1, ..st }
    }
}

/// Whether a `/` at position `i` may open a regex literal: the nearest
/// non-whitespace character before it is not alphanumeric, or it ends one
/// of the keywords that can legally precede a regex literal.
pub open spec fn regex_heuristic_applies(b: Seq<u8>, i: int) -> bool {
    let l = nnws_left(b, i);
    !is_alnum_byte(b[l]) || regex_keyword_before(b, l)
}

/// One step of the walk at cursor `st.i`: skip a comment, string,
/// template-literal segment or regex literal, or hand the position to the
/// classifier. An unterminated construct halts the walk.
pub open spec fn step(b: Seq<u8>, st: ScanModel) -> ScanModel
    recommends
        0 <= st.i < b.len(),
{
    let i = st.i;
    let c = b[i];
    if c == ('/' as u8) && i + 1 < b.len() && b[i + 1] == ('/' as u8) {
        // line comment: skip past the next line terminator
        match find_line_end(b, i + 2) {
            Some(p) => ScanModel { i: p + 1, ..st },
            None => halted(b, st),
        }
    } else if c == ('/' as u8) && i + 1 < b.len() && b[i + 1] == ('*' as u8) {
        // block comment: skip past the closing */
        match find_block_end(b, i + 3) {
            Some(p) => ScanModel { i: p + 1, ..st },
            None => halted(b, st),
        }
    } else if c == ('\'' as u8) || c == ('"' as u8) {
        // string literal: skip past the matching unescaped quote
        match find_quote_end(b, i + 1, c) {
            Some(p) => ScanModel { i: p + 1, ..st },
            None => halted(b, st),
        }
    } else if c == ('`' as u8) || (st.template_depth > 0 && c == ('}' as u8)) {
        // raw template text, entered by a backtick or by the } that closes
        // an interpolation: skip to the next ${ (entering nested code) or
        // backtick (ending this literal)
        match find_template_delim(b, i + 1) {
            Some(p) => if b[p] == ('$' as u8) {
                ScanModel {
                    i: p + 2,
                    template_depth: if c == ('`' as u8) {
                        st.template_depth + 1
                    } else {
                        st.template_depth
                    },
                    ..st
                }
            } else {
                ScanModel {
                    i: p + 1,
                    template_depth: if c == ('}' as u8) {
                        st.template_depth - 1
                    } else {
                        st.template_depth
                    },
                    ..st
                }
            },
            None => halted(b, st),
        }
    } else if c == ('/' as u8) && regex_heuristic_applies(b, i) {
        // possible regex literal: scan for the closing unescaped / outside
        // any character class; a bare newline first means it was division
        match find_regex_end(b, i + 1, false) {
            Some(p) => if b[p] == ('\n' as u8) {
                ScanModel { i: i + 1, ..st }
            } else {
                match find_non_alpha(b, p + 1) {
                    Some(q) => ScanModel { i: q, ..st },
                    None => halted(b, st),
                }
            },
            None => halted(b, st),
        }
    } else {
        classify_step(b, st)
    }
}

/// Fold `step` from `st` until the cursor leaves the input or both flags
/// are set (the verdict can no longer change). The guards on the recursive
/// call cannot fail for a step from a valid state; they keep the
/// definition well-founded.
pub open spec fn scan(b: Seq<u8>, st: ScanModel) -> ScanModel
    decreases b.len() - st.i,
{
    if !(0 <= st.i < b.len()) || (st.saw_esm && st.saw_cjs) {
        st
    } else {
        let st2 = step(b, st);
        if st.i < st2.i <= b.len() {
            scan(b, st2)
        } else {
            st2
        }
    }
}

/// The final state of the whole walk over `b`.
pub open spec fn scan_result(b: Seq<u8>) -> ScanModel {
    scan(b, initial_state())
}

/// The verdict flags are monotone: once a construct has been detected, the
/// flag stays set for the remainder of the walk and is never reset.
pub proof fn lemma_scan_flags_monotone(b: Seq<u8>, st: ScanModel)
    ensures
        st.saw_esm ==> scan(b, st).saw_esm,
        st.saw_cjs ==> scan(b, st).saw_cjs,
    decreases b.len() - st.i,
{
    if !(0 <= st.i < b.len()) || (st.saw_esm && st.saw_cjs) {
    } else {
        let st2 = step(b, st);
        assert(st.saw_esm ==> st2.saw_esm);
        assert(st.saw_cjs ==> st2.saw_cjs);
        if st.i < st2.i <= b.len() {
            lemma_scan_flags_monotone(b, st2);
        }
    }
}

/// Find the next line terminator at or after `from`.
fn scan_line_end(b: &[u8], from: usize) -> (r: Option<usize>)
    ensures
        r matches Some(p) ==> from <= p < b@.len() && find_line_end(b@, from as int) == Some(
            p as int,
        ),
        r is None ==> find_line_end(b@, from as int) is None,
{
    let n = b.len();
    let mut j = from;
    while j < n
        invariant
            from <= j,
            n == b@.len(),
            find_line_end(b@, from as int) == find_line_end(b@, j as int),
        decreases n - j,
    {
        let c = b[j];
        if c == ('\n' as u8) || c == ('\r' as u8) {
            return Some(j);
        }
        j = j + 1;
    }
    None
}

/// Find the position of the `/` that closes a `*/` at or after `from`.
fn scan_block_end(b: &[u8], from: usize) -> (r: Option<usize>)
    ensures
        r matches Some(p) ==> from <= p < b@.len() && find_block_end(b@, from as int) == Some(
            p as int,
        ),
        r is None ==> find_block_end(b@, from as int) is None,
{
    let n = b.len();
    let mut j = from;
    while j < n
        invariant
            from <= j,
            n == b@.len(),
            find_block_end(b@, from as int) == find_block_end(b@, j as int),
        decreases n - j,
    {
        if j >= 1 && b[j] == ('/' as u8) && b[j - 1] == ('*' as u8) {
            return Some(j);
        }
        j = j + 1;
    }
    None
}

/// Find the unescaped closing quote equal to `quote` at or after `from`.
fn scan_quote_end(b: &[u8], from: usize, quote: u8) -> (r: Option<usize>)
    ensures
        r matches Some(p) ==> from <= p < b@.len() && find_quote_end(b@, from as int, quote)
            == Some(p as int),
        r is None ==> find_quote_end(b@, from as int, quote) is None,
{
    let n = b.len();
    let mut j = from;
    while j < n
        invariant
            from <= j,
            n == b@.len(),
            find_quote_end(b@, from as int, quote) == find_quote_end(b@, j as int, quote),
        decreases n - j,
    {
        if b[j] == quote && !is_backslash_escaped(b, j) {
            return Some(j);
        }
        j = j + 1;
    }
    None
}

/// Find the next unescaped `${` or backtick at or after `from`.
fn scan_template_delim(b: &[u8], from: usize) -> (r: Option<usize>)
    ensures
        r matches Some(p) ==> from <= p < b@.len() && find_template_delim(b@, from as int) == Some(
            p as int,
        ) && (b@[p as int] == ('$' as u8) ==> p + 1 < b@.len()),
        r is None ==> find_template_delim(b@, from as int) is None,
{
    let n = b.len();
    let mut j = from;
    while j < n
        invariant
            from <= j,
            n == b@.len(),
            find_template_delim(b@, from as int) == find_template_delim(b@, j as int),
        decreases n - j,
    {
        if b[j] == ('$' as u8) && j + 1 < n && b[j + 1] == ('{' as u8) && !is_backslash_escaped(
            b,
            j,
        ) {
            return Some(j);
        }
        if b[j] == ('`' as u8) && !is_backslash_escaped(b, j) {
            return Some(j);
        }
        j = j + 1;
    }
    None
}

/// Find the terminator of a regex-literal scan at or after `from`: a bare
/// newline or an unescaped `/` outside a character class.
fn scan_regex_end(b: &[u8], from: usize) -> (r: Option<usize>)
    ensures
        r matches Some(p) ==> from <= p < b@.len() && find_regex_end(b@, from as int, false)
            == Some(p as int),
        r is None ==> find_regex_end(b@, from as int, false) is None,
{
    let n = b.len();
    let mut j = from;
    let mut in_bracket = false;
    while j < n
        invariant
            from <= j,
            n == b@.len(),
            find_regex_end(b@, from as int, false) == find_regex_end(b@, j as int, in_bracket),
        decreases n - j,
    {
        let c = b[j];
        if c == ('[' as u8) && !is_backslash_escaped(b, j) {
            in_bracket = true;
        } else if c == (']' as u8) && !is_backslash_escaped(b, j) {
            in_bracket = false;
        } else if c == ('\n' as u8) {
            return Some(j);
        } else if !in_bracket && c == ('/' as u8) && !is_backslash_escaped(b, j) {
            return Some(j);
        }
        j = j + 1;
    }
    None
}

/// Find the first non-alphabetic character at or after `from`.
fn scan_non_alpha(b: &[u8], from: usize) -> (r: Option<usize>)
    ensures
        r matches Some(p) ==> from <= p < b@.len() && find_non_alpha(b@, from as int) == Some(
            p as int,
        ),
        r is None ==> find_non_alpha(b@, from as int) is None,
{
    let n = b.len();
    let mut j = from;
    while j < n
        invariant
            from <= j,
            n == b@.len(),
            find_non_alpha(b@, from as int) == find_non_alpha(b@, j as int),
        decreases n - j,
    {
        if !byte_is_alpha(b[j]) {
            return Some(j);
        }
        j = j + 1;
    }
    None
}

/// Look right from `from` for a quote, brace or newline before any `(`,
/// which distinguishes a static import from a dynamic `import(...)`.
fn scan_import_forward(b: &[u8], from: usize) -> (r: bool)
    ensures
        r == import_forward_is_static(b@, from as int),
{
    let n = b.len();
    let mut j = from;
    while j < n
        invariant
            from <= j,
            n == b@.len(),
            import_forward_is_static(b@, from as int) == import_forward_is_static(b@, j as int),
        decreases n - j,
    {
        let c = b[j];
        if c == ('\'' as u8) || c == ('"' as u8) || c == ('{' as u8) || c == ('\n' as u8) {
            return true;
        }
        if c == ('(' as u8) {
            return false;
        }
        j = j + 1;
    }
    false
}

/// The executable walk state; its view is the [`ScanModel`] it stands for.
/// The shadow fields use `usize::MAX` as the "unshadowed" sentinel.
pub struct ScanState {
    pub cursor: usize,
    pub saw_esm: bool,
    pub saw_cjs: bool,
    pub template_depth: usize,
    pub scope_depth: usize,
    pub require_shadow: usize,
    pub module_shadow: usize,
    pub exports_shadow: usize,
}

impl View for ScanState {
    type V = ScanModel;

    open spec fn view(&self) -> ScanModel {
        ScanModel {
            i: self.cursor as int,
            saw_esm: self.saw_esm,
            saw_cjs: self.saw_cjs,
            template_depth: self.template_depth as int,
            scope_depth: self.scope_depth as int,
            require_shadow: self.require_shadow as int,
            module_shadow: self.module_shadow as int,
            exports_shadow: self.exports_shadow as int,
        }
    }
}

/// What every reachable walk state satisfies: the cursor stays within the
/// input, and the scope and template depths never exceed the cursor (each
/// level consumed at least one byte), which rules out overflow.
pub open spec fn state_inv(b: Seq<u8>, st: ScanModel) -> bool {
    &&& 0 <= st.i <= b.len()
    &&& 0 <= st.scope_depth <= st.i
    &&& 0 <= st.template_depth <= st.i
}

/// The classifier at one unskipped position: exactly [`classify_step`].
fn classify_at(b: &[u8], st: ScanState) -> (r: ScanState)
    requires
        st@.i < b@.len(),
        state_inv(b@, st@),
        !(st.saw_esm && st.saw_cjs),
    ensures
        r@ == classify_step(b@, st@),
        state_inv(b@, r@),
        st@.i < r@.i,
{
    let n = b.len();
    let i = st.cursor;
    // esm specific detection
    if !st.saw_esm && is_import_identifier(b, i) {
        if i + 6 < n && b[i + 6] == ('.' as u8) && is_meta_identifier(b, i + 7) {
            // import.meta is exclusively an ESM construct
            return ScanState { cursor: i + 11, saw_esm: true, ..st };
        } else {
            let is_static = scan_import_forward(b, i + 6);
            return ScanState { cursor: i + 6, saw_esm: is_static, ..st };
        }
    }
    if !st.saw_esm && is_export_identifier(b, i) {
        return ScanState { cursor: i + 6, saw_esm: true, ..st };
    }
    if !st.saw_cjs {
        let c = b[i];
        // track scope depth; only CJS detection is scope-sensitive
        let mut scope = st.scope_depth;
        let mut rsd = st.require_shadow;
        let mut msd = st.module_shadow;
        let mut esd = st.exports_shadow;
        if c == ('{' as u8) {
            scope = scope + 1;
        } else if c == ('}' as u8) {
            if scope > 0 {
                scope = scope - 1;
            }
            // leaving the scope a shadow was recorded in resets it
            if scope < rsd {
                rsd = usize::MAX;
            }
            if scope < msd {
                msd = usize::MAX;
            }
            if scope < esd {
                esd = usize::MAX;
            }
        }
        // require reference
        if scope < rsd && is_require_identifier(b, i) {
            if is_var_declaration(b, i) {
                return ScanState {
                    cursor: i + 7,
                    scope_depth: scope,
                    require_shadow: scope,
                    module_shadow: msd,
                    exports_shadow: esd,
                    ..st
                };
            } else if is_function_param_declaration(b, i, i + 7) {
                return ScanState {
                    cursor: i + 7,
                    scope_depth: scope,
                    require_shadow: scope + 1,
                    module_shadow: msd,
                    exports_shadow: esd,
                    ..st
                };
            } else {
                return ScanState {
                    cursor: i + 7,
                    saw_cjs: true,
                    scope_depth: scope,
                    require_shadow: rsd,
                    module_shadow: msd,
                    exports_shadow: esd,
                    ..st
                };
            }
        }
        // module reference
        if scope < msd && is_module_identifier(b, i) {
            if is_var_declaration(b, i) {
                return ScanState {
                    cursor: i + 6,
                    scope_depth: scope,
                    require_shadow: rsd,
                    module_shadow: scope,
                    exports_shadow: esd,
                    ..st
                };
            } else if is_function_param_declaration(b, i, i + 6) {
                return ScanState {
                    cursor: i + 6,
                    scope_depth: scope,
                    require_shadow: rsd,
                    module_shadow: scope + 1,
                    exports_shadow: esd,
                    ..st
                };
            } else {
                return ScanState {
                    cursor: i + 6,
                    saw_cjs: true,
                    scope_depth: scope,
                    require_shadow: rsd,
                    module_shadow: msd,
                    exports_shadow: esd,
                    ..st
                };
            }
        }
        // exports reference
        if scope < esd && is_exports_identifier(b, i) {
            if is_var_declaration(b, i) {
                return ScanState {
                    cursor: i + 7,
                    scope_depth: scope,
                    require_shadow: rsd,
                    module_shadow: msd,
                    exports_shadow: scope,
                    ..st
                };
            } else if is_function_param_declaration(b, i, i + 7) {
                return ScanState {
                    cursor: i + 7,
                    scope_depth: scope,
                    require_shadow: rsd,
                    module_shadow: msd,
                    exports_shadow: scope + 1,
                    ..st
                };
            } else {
                return ScanState {
                    cursor: i + 7,
                    saw_cjs: true,
                    scope_depth: scope,
                    require_shadow: rsd,
                    module_shadow: msd,
                    exports_shadow: esd,
                    ..st
                };
            }
        }
        return ScanState {
            cursor: i + 1,
            scope_depth: scope,
            require_shadow: rsd,
            module_shadow: msd,
            exports_shadow: esd,
            ..st
        };
    }
    ScanState { cursor: i + 1, ..st }
}

/// One executable step of the walk: exactly [`step`].
fn scan_step(b: &[u8], st: ScanState) -> (r: ScanState)
    requires
        st@.i < b@.len(),
        state_inv(b@, st@),
        !(st.saw_esm && st.saw_cjs),
    ensures
        r@ == step(b@, st@),
        state_inv(b@, r@),
        st@.i < r@.i,
{
    let n = b.len();
    let i = st.cursor;
    let c = b[i];
    // single line comment, skip past the line terminator
    if c == ('/' as u8) && i + 1 < n && b[i + 1] == ('/' as u8) {
        return match scan_line_end(b, i + 2) {
            Some(p) => ScanState { cursor: p + 1, ..st },
            None => ScanState { cursor: n, ..st },
        };
    }
    // multi line comment, skip past */
    if c == ('/' as u8) && i + 1 < n && b[i + 1] == ('*' as u8) {
        if n - i < 3 {
            // fewer than three bytes remain, the comment cannot close
            assert(find_block_end(b@, st@.i + 3) is None);
            return ScanState { cursor: n, ..st };
        }
        return match scan_block_end(b, i + 3) {
            Some(p) => ScanState { cursor: p + 1, ..st },
            None => ScanState { cursor: n, ..st },
        };
    }
    // single and double quotes, skip past the closing quote
    if c == ('\'' as u8) || c == ('"' as u8) {
        return match scan_quote_end(b, i + 1, c) {
            Some(p) => ScanState { cursor: p + 1, ..st },
            None => ScanState { cursor: n, ..st },
        };
    }
    // template literal text, entered by ` or by the } closing an
    // interpolation: skip to the next ${ or `
    if c == ('`' as u8) || (st.template_depth > 0 && c == ('}' as u8)) {
        return match scan_template_delim(b, i + 1) {
            Some(p) => {
                if b[p] == ('$' as u8) {
                    // only increment for `, since for } the depth is
                    // already counted
                    let td = if c == ('`' as u8) {
                        st.template_depth + 1
                    } else {
                        st.template_depth
                    };
                    ScanState { cursor: p + 2, template_depth: td, ..st }
                } else {
                    // only decrement for }, since for ` the literal just
                    // opened and closed at this depth
                    let td = if c == ('}' as u8) {
                        st.template_depth - 1
                    } else {
                        st.template_depth
                    };
                    ScanState { cursor: p + 1, template_depth: td, ..st }
                }
            },
            None => ScanState { cursor: n, ..st },
        };
    }
    // possible regex literal
    if c == ('/' as u8) {
        let left = get_nearest_non_whitespace_index_left(b, i);
        if !byte_is_alnum(b[left]) || is_slash_preceded_by_regex_possible_keyword(b, left) {
            return match scan_regex_end(b, i + 1) {
                Some(p) => {
                    if b[p] == ('\n' as u8) {
                        // it's a division, not a regex
                        ScanState { cursor: i + 1, ..st }
                    } else {
                        // skip the regex modifier flags too
                        match scan_non_alpha(b, p + 1) {
                            Some(q) => ScanState { cursor: q, ..st },
                            None => ScanState { cursor: n, ..st },
                        }
                    }
                },
                None => ScanState { cursor: n, ..st },
            };
        }
    }
    classify_at(b, st)
}

/// Run the whole walk over `b`, computing exactly [`scan_result`].
pub fn scan_source(b: &[u8]) -> (r: ScanState)
    ensures
        r@ == scan_result(b@),
{
    let mut st = ScanState {
        cursor: 0,
        saw_esm: false,
        saw_cjs: false,
        template_depth: 0,
        scope_depth: 0,
        require_shadow: usize::MAX,
        module_shadow: usize::MAX,
        exports_shadow: usize::MAX,
    };
    proof {
        assert(st@ == initial_state());
    }
    while st.cursor < b.len() && !(st.saw_esm && st.saw_cjs)
        invariant
            state_inv(b@, st@),
            scan(b@, st@) == scan_result(b@),
        decreases b@.len() - st.cursor,
    {
        let ghost prev = st@;
        st = scan_step(b, st);
        proof {
            assert(scan(b@, prev) == scan(b@, st@));
        }
    }
    proof {
        assert(scan(b@, st@) == st@);
    }
    st
}

} // verus!
