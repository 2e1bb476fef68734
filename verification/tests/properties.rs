use fmu::{classify_bytes, guess_js_syntax, JsSyntax};

// The stated behaviours of the classifier, each pinned on concrete input.

#[test]
fn verdict_covers_all_four_values() {
    assert_eq!(guess_js_syntax("import x from \"y\";"), JsSyntax::ESM);
    assert_eq!(guess_js_syntax("module.exports = {};"), JsSyntax::CJS);
    assert_eq!(
        guess_js_syntax("export const a = 1;\nconst r = require(\"x\");"),
        JsSyntax::Mixed
    );
    assert_eq!(guess_js_syntax("const a = 1;"), JsSyntax::Unknown);
}

#[test]
fn classifying_twice_gives_the_same_verdict() {
    let sources = [
        "import x from \"y\";",
        "module.exports = {};",
        "export const a = 1;\nconst r = require(\"x\");",
        "const a = 1;",
        "",
    ];
    for s in sources {
        assert_eq!(guess_js_syntax(s), guess_js_syntax(s));
    }
}

#[test]
fn bytes_and_str_entry_points_agree() {
    let sources = [
        "import x from \"y\";",
        "module.exports = {};",
        "const a = 1;",
    ];
    for s in sources {
        assert_eq!(classify_bytes(s.as_bytes()), guess_js_syntax(s));
    }
}

#[test]
fn only_import_is_esm() {
    assert_eq!(guess_js_syntax("import x from \"y\";"), JsSyntax::ESM);
}

#[test]
fn only_module_exports_is_cjs() {
    assert_eq!(guess_js_syntax("module.exports = {};"), JsSyntax::CJS);
}

#[test]
fn export_and_require_is_mixed() {
    assert_eq!(
        guess_js_syntax("export const a = 1;\nconst r = require(\"x\");"),
        JsSyntax::Mixed
    );
}

#[test]
fn parameter_shadows_require_inside_function() {
    assert_eq!(
        guess_js_syntax("function f(require) { return require(1); }"),
        JsSyntax::Unknown
    );
}

#[test]
fn shadow_resets_when_the_declaring_scope_closes() {
    assert_eq!(
        guess_js_syntax("{\n  const require = () => {};\n}\nrequire('x');\n"),
        JsSyntax::CJS
    );
}

#[test]
fn top_level_shadow_persists_to_end_of_file() {
    assert_eq!(
        guess_js_syntax("const require = () => {};\nrequire('x');\n"),
        JsSyntax::Unknown
    );
}

#[test]
fn require_inside_string_literal_is_not_cjs() {
    assert_eq!(
        guess_js_syntax("const s = \"require('x')\";\n"),
        JsSyntax::Unknown
    );
}

#[test]
fn require_after_escaped_quote_stays_inside_string() {
    assert_eq!(
        guess_js_syntax("const s = 'a\\'require(\"x\")';\n"),
        JsSyntax::Unknown
    );
}

#[test]
fn import_inside_regex_literal_is_not_esm() {
    assert_eq!(guess_js_syntax("/import/.test(s);\n"), JsSyntax::Unknown);
}

#[test]
fn regex_after_keyword_is_skipped() {
    assert_eq!(guess_js_syntax("if (ok) return /export/;\n"), JsSyntax::Unknown);
}

#[test]
fn division_is_not_mis_skipped_as_regex() {
    // a / b is division: the next line's import must still be seen
    assert_eq!(
        guess_js_syntax("const x = a / b\nimport z from 'w'\n"),
        JsSyntax::ESM
    );
}

#[test]
fn require_inside_nested_template_literal_is_cjs() {
    assert_eq!(
        guess_js_syntax("`outer ${ `inner ${require(\"x\")}` }`"),
        JsSyntax::CJS
    );
}

#[test]
fn import_inside_template_text_is_not_esm() {
    assert_eq!(
        guess_js_syntax("const s = `import x from \"y\"`;\n"),
        JsSyntax::Unknown
    );
}

#[test]
fn dynamic_import_is_not_static_esm() {
    assert_eq!(guess_js_syntax("import('x').then(go);\n"), JsSyntax::Unknown);
}

#[test]
fn import_meta_alone_is_esm() {
    assert_eq!(guess_js_syntax("import.meta.url;\n"), JsSyntax::ESM);
}

#[test]
fn empty_input_is_unknown() {
    assert_eq!(guess_js_syntax(""), JsSyntax::Unknown);
}

#[test]
fn keywords_inside_comments_are_ignored() {
    assert_eq!(
        guess_js_syntax("// import x from 'y'\n/* module.exports = {} */\n"),
        JsSyntax::Unknown
    );
}

#[test]
fn unterminated_block_comment_ends_the_scan() {
    assert_eq!(guess_js_syntax("/* export default x"), JsSyntax::Unknown);
}

#[test]
fn unterminated_string_keeps_earlier_verdict() {
    assert_eq!(guess_js_syntax("module.exports = 'oops"), JsSyntax::CJS);
}

#[test]
fn crlf_line_comment_terminates() {
    assert_eq!(
        guess_js_syntax("// import x\r\nmodule.exports = {};\r\n"),
        JsSyntax::CJS
    );
}

#[test]
fn stray_closing_brace_is_harmless() {
    assert_eq!(guess_js_syntax("}\nmodule.exports = {};\n"), JsSyntax::CJS);
}

#[test]
fn trailing_slash_is_harmless() {
    assert_eq!(guess_js_syntax("a /"), JsSyntax::Unknown);
}

#[test]
fn non_ascii_text_is_scanned_bytewise() {
    assert_eq!(
        guess_js_syntax("const café = 1;\nmodule.exports = café;\n"),
        JsSyntax::CJS
    );
    assert_eq!(guess_js_syntax("// café\nлет x = 1;\n"), JsSyntax::Unknown);
}

#[test]
fn longer_identifiers_are_not_keyword_matches() {
    assert_eq!(
        guess_js_syntax("const imported = 1;\nconst requires = 2;\nconst exporter = 3;\n"),
        JsSyntax::Unknown
    );
}
