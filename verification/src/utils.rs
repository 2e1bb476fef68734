//! Pure byte-level predicates: character classes, word boundaries,
//! whitespace walks, keyword matching, and the declaration/parameter
//! detectors used to recognise shadowing of the CommonJS identifiers.
//!
//! Every offset computation near the ends of the buffer clamps instead of
//! reading out of bounds: a read past either end counts as a word boundary
//! and never as a match.

use vstd::prelude::*;

verus! {

/// An ASCII digit or letter, the characters that can extend an identifier.
pub open spec fn is_alnum_byte(c: u8) -> bool {
    (('0' as u8) <= c && c <= ('9' as u8)) || (('A' as u8) <= c && c <= ('Z' as u8)) || (('a'
        as u8) <= c && c <= ('z' as u8))
}

/// An ASCII letter, as in regex modifier flags.
pub open spec fn is_alpha_byte(c: u8) -> bool {
    (('A' as u8) <= c && c <= ('Z' as u8)) || (('a' as u8) <= c && c <= ('z' as u8))
}

/// ASCII whitespace: space, tab, line feed, form feed, carriage return.
pub open spec fn is_space_byte(c: u8) -> bool {
    c == (' ' as u8) || c == ('\t' as u8) || c == ('\n' as u8) || c == 12u8 || c == ('\r' as u8)
}

/// Exec mirror of `is_alnum_byte`.
pub fn byte_is_alnum(c: u8) -> (r: bool)
    ensures
        r == is_alnum_byte(c),
{
    (('0' as u8) <= c && c <= ('9' as u8)) || (('A' as u8) <= c && c <= ('Z' as u8)) || (('a'
        as u8) <= c && c <= ('z' as u8))
}

/// Exec mirror of `is_alpha_byte`.
pub fn byte_is_alpha(c: u8) -> (r: bool)
    ensures
        r == is_alpha_byte(c),
{
    (('A' as u8) <= c && c <= ('Z' as u8)) || (('a' as u8) <= c && c <= ('z' as u8))
}

/// Exec mirror of `is_space_byte`.
pub fn byte_is_space(c: u8) -> (r: bool)
    ensures
        r == is_space_byte(c),
{
    c == (' ' as u8) || c == ('\t' as u8) || c == ('\n' as u8) || c == 12u8 || c == ('\r' as u8)
}

/// Safe index: clamp `i` to the last valid index of `b`.
pub fn si(i: usize, b: &[u8]) -> (r: usize)
    requires
        b@.len() > 0,
    ensures
        r as int == if i < b@.len() { i as int } else { b@.len() - 1 },
{
    if i < b.len() {
        i
    } else {
        b.len() - 1
    }
}

/// The number of consecutive backslashes immediately before position `j`.
pub open spec fn backslash_run(b: Seq<u8>, j: int) -> int
    decreases j,
{
    if j <= 0 || j > b.len() {
        0
    } else if b[j - 1] == ('\\' as u8) {
        1 + backslash_run(b, j - 1)
    } else {
        0
    }
}

/// The character at position `j` is escaped when an odd number of
/// consecutive backslashes immediately precedes it.
pub open spec fn is_escaped(b: Seq<u8>, j: int) -> bool {
    backslash_run(b, j) % 2 == 1
}

/// Whether the character at `char_index` is escaped: walk backward over the
/// consecutive backslashes just before it; an odd count means escaped.
pub fn is_backslash_escaped(full_str: &[u8], char_index: usize) -> (r: bool)
    requires
        char_index <= full_str@.len(),
    ensures
        r == is_escaped(full_str@, char_index as int),
{
    let mut j: usize = char_index;
    while j > 0 && full_str[j - 1] == ('\\' as u8)
        invariant
            j <= char_index <= full_str@.len(),
            backslash_run(full_str@, char_index as int) == backslash_run(full_str@, j as int) + (
            char_index - j),
        decreases j,
    {
        j = j - 1;
    }
    (char_index - j) % 2 == 1
}

/// Word boundary on both sides: the character just before `start` (if any)
/// and the character at `end` (if any) are not alphanumeric, as in a regex
/// `\b` assertion. Positions outside the buffer count as boundaries.
pub open spec fn word_bounded(b: Seq<u8>, start: int, end: int) -> bool {
    (start <= 0 || !is_alnum_byte(b[start - 1])) && (end >= b.len() || !is_alnum_byte(b[end]))
}

/// Exec mirror of `word_bounded`: the span `start..end` is adjacent to no
/// alphanumeric character.
pub fn is_word_bounded(full_str: &[u8], identifier_start_index: usize, identifier_end_index: usize)
    -> (r: bool)
    requires
        identifier_start_index <= full_str@.len(),
    ensures
        r == word_bounded(full_str@, identifier_start_index as int, identifier_end_index as int),
{
    let left_bounded = identifier_start_index == 0 || !byte_is_alnum(
        full_str[identifier_start_index - 1],
    );
    let right_bounded = identifier_end_index >= full_str.len() || !byte_is_alnum(
        full_str[identifier_end_index],
    );
    left_bounded && right_bounded
}

/// The nearest position strictly left of `j` holding a non-whitespace
/// character; 0 when there is none (or when `j` is at the start).
pub open spec fn nnws_left(b: Seq<u8>, j: int) -> int
    decreases j,
{
    if j <= 0 {
        0
    } else if !is_space_byte(b[j - 1]) {
        j - 1
    } else {
        nnws_left(b, j - 1)
    }
}

/// Walk left from `char_index` to the nearest non-whitespace character;
/// return 0 when every character before it is whitespace.
pub fn get_nearest_non_whitespace_index_left(full_str: &[u8], char_index: usize) -> (r: usize)
    requires
        char_index <= full_str@.len(),
    ensures
        r as int == nnws_left(full_str@, char_index as int),
        r <= char_index,
        r < char_index || r == 0,
{
    let mut j: usize = char_index;
    while j > 0
        invariant
            j <= char_index <= full_str@.len(),
            nnws_left(full_str@, char_index as int) == nnws_left(full_str@, j as int),
        decreases j,
    {
        if !byte_is_space(full_str[j - 1]) {
            return j - 1;
        }
        j = j - 1;
    }
    0
}

/// The nearest position at or right of `j` holding a non-whitespace
/// character; the last index of the buffer when there is none.
pub open spec fn nnws_right(b: Seq<u8>, j: int) -> int
    decreases b.len() - j,
{
    if j >= b.len() - 1 {
        b.len() - 1
    } else if !is_space_byte(b[j]) {
        j
    } else {
        nnws_right(b, j + 1)
    }
}

/// Walk right from `char_index` to the nearest non-whitespace character;
/// return the buffer's last index when every remaining character is
/// whitespace or `char_index` is out of bounds.
pub fn get_nearest_non_whitespace_index_right(full_str: &[u8], char_index: usize) -> (r: usize)
    requires
        full_str@.len() > 0,
    ensures
        r as int == nnws_right(full_str@, char_index as int),
        r < full_str@.len(),
{
    let n = full_str.len();
    if char_index >= n - 1 {
        return n - 1;
    }
    let mut j: usize = char_index;
    while j < n - 1
        invariant
            char_index <= j < n == full_str@.len(),
            nnws_right(full_str@, char_index as int) == nnws_right(full_str@, j as int),
        decreases n - j,
    {
        if !byte_is_space(full_str[j]) {
            return j;
        }
        j = j + 1;
    }
    n - 1
}

/// The word `import` occurs at `i` with a boundary on both sides.
pub open spec fn is_import_at(b: Seq<u8>, i: int) -> bool {
    &&& 0 <= i
    &&& i + 6 <= b.len()
    &&& b[i] == ('i' as u8)
    &&& b[i + 1] == ('m' as u8)
    &&& b[i + 2] == ('p' as u8)
    &&& b[i + 3] == ('o' as u8)
    &&& b[i + 4] == ('r' as u8)
    &&& b[i + 5] == ('t' as u8)
    &&& word_bounded(b, i, i + 6)
}

/// Whole-word match of `import` at `iter_index`.
pub fn is_import_identifier(full_str: &[u8], iter_index: usize) -> (r: bool)
    ensures
        r == is_import_at(full_str@, iter_index as int),
{
    let n = full_str.len();
    if n < 6 || iter_index > n - 6 {
        return false;
    }
    full_str[iter_index] == ('i' as u8) && full_str[iter_index + 1] == ('m' as u8)
        && full_str[iter_index + 2] == ('p' as u8) && full_str[iter_index + 3] == ('o' as u8)
        && full_str[iter_index + 4] == ('r' as u8) && full_str[iter_index + 5] == ('t' as u8)
        && is_word_bounded(full_str, iter_index, iter_index + 6)
}

/// The word `meta` occurs at `i` with a boundary on both sides.
pub open spec fn is_meta_at(b: Seq<u8>, i: int) -> bool {
    &&& 0 <= i
    &&& i + 4 <= b.len()
    &&& b[i] == ('m' as u8)
    &&& b[i + 1] == ('e' as u8)
    &&& b[i + 2] == ('t' as u8)
    &&& b[i + 3] == ('a' as u8)
    &&& word_bounded(b, i, i + 4)
}

/// Whole-word match of `meta` at `iter_index`.
pub fn is_meta_identifier(full_str: &[u8], iter_index: usize) -> (r: bool)
    ensures
        r == is_meta_at(full_str@, iter_index as int),
{
    let n = full_str.len();
    if n < 4 || iter_index > n - 4 {
        return false;
    }
    full_str[iter_index] == ('m' as u8) && full_str[iter_index + 1] == ('e' as u8)
        && full_str[iter_index + 2] == ('t' as u8) && full_str[iter_index + 3] == ('a' as u8)
        && is_word_bounded(full_str, iter_index, iter_index + 4)
}

/// The word `export` occurs at `i` with a boundary on both sides.
pub open spec fn is_export_at(b: Seq<u8>, i: int) -> bool {
    &&& 0 <= i
    &&& i + 6 <= b.len()
    &&& b[i] == ('e' as u8)
    &&& b[i + 1] == ('x' as u8)
    &&& b[i + 2] == ('p' as u8)
    &&& b[i + 3] == ('o' as u8)
    &&& b[i + 4] == ('r' as u8)
    &&& b[i + 5] == ('t' as u8)
    &&& word_bounded(b, i, i + 6)
}

/// Whole-word match of `export` at `iter_index`.
pub fn is_export_identifier(full_str: &[u8], iter_index: usize) -> (r: bool)
    ensures
        r == is_export_at(full_str@, iter_index as int),
{
    let n = full_str.len();
    if n < 6 || iter_index > n - 6 {
        return false;
    }
    full_str[iter_index] == ('e' as u8) && full_str[iter_index + 1] == ('x' as u8)
        && full_str[iter_index + 2] == ('p' as u8) && full_str[iter_index + 3] == ('o' as u8)
        && full_str[iter_index + 4] == ('r' as u8) && full_str[iter_index + 5] == ('t' as u8)
        && is_word_bounded(full_str, iter_index, iter_index + 6)
}

/// The word `require` occurs at `i` with a boundary on both sides.
pub open spec fn is_require_at(b: Seq<u8>, i: int) -> bool {
    &&& 0 <= i
    &&& i + 7 <= b.len()
    &&& b[i] == ('r' as u8)
    &&& b[i + 1] == ('e' as u8)
    &&& b[i + 2] == ('q' as u8)
    &&& b[i + 3] == ('u' as u8)
    &&& b[i + 4] == ('i' as u8)
    &&& b[i + 5] == ('r' as u8)
    &&& b[i + 6] == ('e' as u8)
    &&& word_bounded(b, i, i + 7)
}

/// Whole-word match of `require` at `iter_index`.
pub fn is_require_identifier(full_str: &[u8], iter_index: usize) -> (r: bool)
    ensures
        r == is_require_at(full_str@, iter_index as int),
{
    let n = full_str.len();
    if n < 7 || iter_index > n - 7 {
        return false;
    }
    full_str[iter_index] == ('r' as u8) && full_str[iter_index + 1] == ('e' as u8)
        && full_str[iter_index + 2] == ('q' as u8) && full_str[iter_index + 3] == ('u' as u8)
        && full_str[iter_index + 4] == ('i' as u8) && full_str[iter_index + 5] == ('r' as u8)
        && full_str[iter_index + 6] == ('e' as u8) && is_word_bounded(
        full_str,
        iter_index,
        iter_index + 7,
    )
}

/// The word `module` occurs at `i` with a boundary on both sides.
pub open spec fn is_module_at(b: Seq<u8>, i: int) -> bool {
    &&& 0 <= i
    &&& i + 6 <= b.len()
    &&& b[i] == ('m' as u8)
    &&& b[i + 1] == ('o' as u8)
    &&& b[i + 2] == ('d' as u8)
    &&& b[i + 3] == ('u' as u8)
    &&& b[i + 4] == ('l' as u8)
    &&& b[i + 5] == ('e' as u8)
    &&& word_bounded(b, i, i + 6)
}

/// Whole-word match of `module` at `iter_index`.
pub fn is_module_identifier(full_str: &[u8], iter_index: usize) -> (r: bool)
    ensures
        r == is_module_at(full_str@, iter_index as int),
{
    let n = full_str.len();
    if n < 6 || iter_index > n - 6 {
        return false;
    }
    full_str[iter_index] == ('m' as u8) && full_str[iter_index + 1] == ('o' as u8)
        && full_str[iter_index + 2] == ('d' as u8) && full_str[iter_index + 3] == ('u' as u8)
        && full_str[iter_index + 4] == ('l' as u8) && full_str[iter_index + 5] == ('e' as u8)
        && is_word_bounded(full_str, iter_index, iter_index + 6)
}

/// The word `exports` occurs at `i` with a boundary on both sides.
pub open spec fn is_exports_at(b: Seq<u8>, i: int) -> bool {
    &&& 0 <= i
    &&& i + 7 <= b.len()
    &&& b[i] == ('e' as u8)
    &&& b[i + 1] == ('x' as u8)
    &&& b[i + 2] == ('p' as u8)
    &&& b[i + 3] == ('o' as u8)
    &&& b[i + 4] == ('r' as u8)
    &&& b[i + 5] == ('t' as u8)
    &&& b[i + 6] == ('s' as u8)
    &&& word_bounded(b, i, i + 7)
}

/// Whole-word match of `exports` at `iter_index`.
pub fn is_exports_identifier(full_str: &[u8], iter_index: usize) -> (r: bool)
    ensures
        r == is_exports_at(full_str@, iter_index as int),
{
    let n = full_str.len();
    if n < 7 || iter_index > n - 7 {
        return false;
    }
    full_str[iter_index] == ('e' as u8) && full_str[iter_index + 1] == ('x' as u8)
        && full_str[iter_index + 2] == ('p' as u8) && full_str[iter_index + 3] == ('o' as u8)
        && full_str[iter_index + 4] == ('r' as u8) && full_str[iter_index + 5] == ('t' as u8)
        && full_str[iter_index + 6] == ('s' as u8) && is_word_bounded(
        full_str,
        iter_index,
        iter_index + 7,
    )
}

/// The nearest word left of position `i` is `var`, `let` or `const`
/// (word-bounded), so the identifier at `i` is being declared.
pub open spec fn is_var_decl_at(b: Seq<u8>, i: int) -> bool {
    let p = nnws_left(b, i);
    ||| (p >= 2 && b[p] == ('r' as u8) && b[p - 1] == ('a' as u8) && b[p - 2] == ('v' as u8)
        && word_bounded(b, p - 2, p + 1))
    ||| (p >= 2 && b[p] == ('t' as u8) && b[p - 1] == ('e' as u8) && b[p - 2] == ('l' as u8)
        && word_bounded(b, p - 2, p + 1))
    ||| (p >= 4 && b[p] == ('t' as u8) && b[p - 1] == ('s' as u8) && b[p - 2] == ('n' as u8) && b[p
        - 3] == ('o' as u8) && b[p - 4] == ('c' as u8) && word_bounded(b, p - 4, p + 1))
}

/// Whether the identifier starting at `identifier_start_index` is preceded
/// by `var`, `let` or `const`, i.e. declares a new local binding.
pub fn is_var_declaration(full_str: &[u8], identifier_start_index: usize) -> (r: bool)
    requires
        identifier_start_index <= full_str@.len(),
    ensures
        r == is_var_decl_at(full_str@, identifier_start_index as int),
{
    let p = get_nearest_non_whitespace_index_left(full_str, identifier_start_index);
    if identifier_start_index == 0 {
        // `p` is 0 and no word can end strictly left of the buffer start.
        return false;
    }
    // var
    if p >= 2 && full_str[p] == ('r' as u8) && full_str[p - 1] == ('a' as u8) && full_str[p - 2]
        == ('v' as u8) && is_word_bounded(full_str, p - 2, p + 1) {
        return true;
    }
    // let
    if p >= 2 && full_str[p] == ('t' as u8) && full_str[p - 1] == ('e' as u8) && full_str[p - 2]
        == ('l' as u8) && is_word_bounded(full_str, p - 2, p + 1) {
        return true;
    }
    // const
    if p >= 4 && full_str[p] == ('t' as u8) && full_str[p - 1] == ('s' as u8) && full_str[p - 2]
        == ('n' as u8) && full_str[p - 3] == ('o' as u8) && full_str[p - 4] == ('c' as u8)
        && is_word_bounded(full_str, p - 4, p + 1) {
        return true;
    }
    false
}

/// The identifier spanning `start..end` sits in a function parameter
/// position: right after `(` or `,` (but not after `=`, which would make it
/// a default value), or right before `)`, `,` or `=>`.
pub open spec fn is_fn_param_at(b: Seq<u8>, start: int, end: int) -> bool {
    let p = nnws_left(b, start);
    let q = nnws_right(b, end);
    if b[p] == ('=' as u8) {
        false
    } else if b[p] == ('(' as u8) || b[p] == (',' as u8) {
        true
    } else if b[q] == (')' as u8) || b[q] == (',' as u8) {
        true
    } else {
        b[q] == ('=' as u8) && q + 1 < b.len() && b[q + 1] == ('>' as u8)
    }
}

/// Whether the identifier spanning `identifier_start_index` up to (but not
/// including) `identifier_end_index` is declared as a function parameter.
pub fn is_function_param_declaration(
    full_str: &[u8],
    identifier_start_index: usize,
    identifier_end_index: usize,
) -> (r: bool)
    requires
        0 < full_str@.len(),
        identifier_start_index <= full_str@.len(),
    ensures
        r == is_fn_param_at(
            full_str@,
            identifier_start_index as int,
            identifier_end_index as int,
        ),
{
    let p = get_nearest_non_whitespace_index_left(full_str, identifier_start_index);
    let q = get_nearest_non_whitespace_index_right(full_str, identifier_end_index);
    // function(identifier) {}
    // function(foo, identifier) {}
    // function(foo, identifier, bar) {}
    // function(foo = identifier) {}
    if full_str[p] == ('=' as u8) {
        return false;
    }
    if full_str[p] == ('(' as u8) || full_str[p] == (',' as u8) {
        return true;
    }
    if full_str[q] == (')' as u8) || full_str[q] == (',' as u8) {
        return true;
    }
    // identifier => {}
    if full_str[q] == ('=' as u8) && q + 1 < full_str.len() && full_str[q + 1] == ('>' as u8) {
        return true;
    }
    false
}

/// A keyword from the fixed set that can legally precede a regex literal
/// (`if`, `else`, `return`, `while`, `yield`) ends at position `p`, checked
/// by comparing characters in reverse from `p`.
pub open spec fn regex_keyword_before(b: Seq<u8>, p: int) -> bool {
    ||| (p >= 1 && b[p] == ('f' as u8) && b[p - 1] == ('i' as u8))
    ||| (p >= 3 && b[p] == ('e' as u8) && b[p - 1] == ('s' as u8) && b[p - 2] == ('l' as u8) && b[p
        - 3] == ('e' as u8))
    ||| (p >= 5 && b[p] == ('n' as u8) && b[p - 1] == ('r' as u8) && b[p - 2] == ('u' as u8) && b[p
        - 3] == ('t' as u8) && b[p - 4] == ('e' as u8) && b[p - 5] == ('r' as u8))
    ||| (p >= 4 && b[p] == ('e' as u8) && b[p - 1] == ('l' as u8) && b[p - 2] == ('i' as u8) && b[p
        - 3] == ('h' as u8) && b[p - 4] == ('w' as u8))
    ||| (p >= 4 && b[p] == ('d' as u8) && b[p - 1] == ('l' as u8) && b[p - 2] == ('e' as u8) && b[p
        - 3] == ('i' as u8) && b[p - 4] == ('y' as u8))
}

/// Whether the character at `char_index` is the last character of a keyword
/// that can legally precede a regex literal: `if`, `else`, `return`,
/// `while` or `yield`, compared in reverse.
pub fn is_slash_preceded_by_regex_possible_keyword(full_str: &[u8], char_index: usize) -> (r: bool)
    requires
        char_index < full_str@.len(),
    ensures
        r == regex_keyword_before(full_str@, char_index as int),
{
    let p = char_index;
    // if
    if p >= 1 && full_str[p] == ('f' as u8) && full_str[p - 1] == ('i' as u8) {
        return true;
    }
    // else
    if p >= 3 && full_str[p] == ('e' as u8) && full_str[p - 1] == ('s' as u8) && full_str[p - 2]
        == ('l' as u8) && full_str[p - 3] == ('e' as u8) {
        return true;
    }
    // return
    if p >= 5 && full_str[p] == ('n' as u8) && full_str[p - 1] == ('r' as u8) && full_str[p - 2]
        == ('u' as u8) && full_str[p - 3] == ('t' as u8) && full_str[p - 4] == ('e' as u8)
        && full_str[p - 5] == ('r' as u8) {
        return true;
    }
    // while
    if p >= 4 && full_str[p] == ('e' as u8) && full_str[p - 1] == ('l' as u8) && full_str[p - 2]
        == ('i' as u8) && full_str[p - 3] == ('h' as u8) && full_str[p - 4] == ('w' as u8) {
        return true;
    }
    // yield
    if p >= 4 && full_str[p] == ('d' as u8) && full_str[p - 1] == ('l' as u8) && full_str[p - 2]
        == ('e' as u8) && full_str[p - 3] == ('i' as u8) && full_str[p - 4] == ('y' as u8) {
        return true;
    }
    false
}

} // verus!
