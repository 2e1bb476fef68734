use fmu::utils::{
    get_nearest_non_whitespace_index_left, get_nearest_non_whitespace_index_right,
    is_backslash_escaped, is_export_identifier, is_exports_identifier,
    is_function_param_declaration, is_import_identifier, is_meta_identifier, is_module_identifier,
    is_require_identifier, is_slash_preceded_by_regex_possible_keyword, is_var_declaration,
    is_word_bounded, si,
};

#[test]
fn safe_index_clamps() {
    let b = b"abc";
    assert_eq!(si(0, b), 0);
    assert_eq!(si(2, b), 2);
    assert_eq!(si(3, b), 2);
    assert_eq!(si(100, b), 2);
}

#[test]
fn backslash_escaping_counts_parity() {
    let b = b"a\\'x";
    assert!(is_backslash_escaped(b, 2));
    let b2 = b"a\\\\'x";
    assert!(!is_backslash_escaped(b2, 3));
    let b3 = b"'x";
    assert!(!is_backslash_escaped(b3, 1));
    // a backslash run reaching the start of the buffer still counts
    let b4 = b"\\'";
    assert!(is_backslash_escaped(b4, 1));
}

#[test]
fn word_boundaries() {
    let b = b"a import b";
    assert!(is_word_bounded(b, 2, 8));
    let b2 = b"reimport";
    assert!(!is_word_bounded(b2, 2, 8));
    let b3 = b"import";
    assert!(is_word_bounded(b3, 0, 6));
}

#[test]
fn nearest_non_whitespace_walks() {
    let b = b"x   y   z";
    assert_eq!(get_nearest_non_whitespace_index_left(b, 4), 0);
    assert_eq!(get_nearest_non_whitespace_index_left(b, 0), 0);
    assert_eq!(get_nearest_non_whitespace_index_right(b, 5), 8);
    assert_eq!(get_nearest_non_whitespace_index_right(b, 100), 8);
    let all_ws = b"    ";
    assert_eq!(get_nearest_non_whitespace_index_left(all_ws, 4), 0);
    assert_eq!(get_nearest_non_whitespace_index_right(all_ws, 0), 3);
}

#[test]
fn keyword_matchers_need_whole_words() {
    assert!(is_import_identifier(b"import x", 0));
    assert!(!is_import_identifier(b"imported", 0));
    assert!(!is_import_identifier(b"reimport", 2));
    assert!(!is_import_identifier(b"impo", 0));
    assert!(is_meta_identifier(b"meta.url", 0));
    assert!(is_export_identifier(b"export {}", 0));
    assert!(!is_export_identifier(b"exports", 0));
    assert!(is_exports_identifier(b"exports.a", 0));
    assert!(is_require_identifier(b"require('x')", 0));
    assert!(!is_require_identifier(b"requires", 0));
    assert!(is_module_identifier(b"module.exports", 0));
    assert!(!is_module_identifier(b"modules", 0));
}

#[test]
fn keyword_matchers_clamp_at_end_of_buffer() {
    assert!(is_import_identifier(b"import", 0));
    assert!(!is_import_identifier(b"import", 3));
    assert!(!is_require_identifier(b"requir", 0));
}

#[test]
fn var_declarations() {
    let b = b"const require = 1";
    assert!(is_var_declaration(b, 6));
    let b2 = b"let module = 1";
    assert!(is_var_declaration(b2, 4));
    let b3 = b"var exports = 1";
    assert!(is_var_declaration(b3, 4));
    let b4 = b"x = require('y')";
    assert!(!is_var_declaration(b4, 4));
    // `fconst` is no declaration keyword: the boundary check rejects it
    let b5 = b"fconst require";
    assert!(!is_var_declaration(b5, 7));
}

#[test]
fn function_parameter_declarations() {
    let b = b"function f(require) {}";
    assert!(is_function_param_declaration(b, 11, 18));
    let b2 = b"f(a, require) {}";
    assert!(is_function_param_declaration(b2, 5, 12));
    let b3 = b"require => {}";
    assert!(is_function_param_declaration(b3, 0, 7));
    // a default value's right-hand side is not a parameter name
    let b4 = b"function f(a = require) {}";
    assert!(!is_function_param_declaration(b4, 15, 22));
}

#[test]
fn regex_possible_keywords() {
    let s = b"if /";
    assert!(is_slash_preceded_by_regex_possible_keyword(s, 1));
    let s2 = b"else /";
    assert!(is_slash_preceded_by_regex_possible_keyword(s2, 3));
    let s3 = b"return /";
    assert!(is_slash_preceded_by_regex_possible_keyword(s3, 5));
    let s4 = b"while /";
    assert!(is_slash_preceded_by_regex_possible_keyword(s4, 4));
    let s5 = b"yield /";
    assert!(is_slash_preceded_by_regex_possible_keyword(s5, 4));
    let s6 = b"banana /";
    assert!(!is_slash_preceded_by_regex_possible_keyword(s6, 5));
}
