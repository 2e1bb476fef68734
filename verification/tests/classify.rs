use fmu::{guess_js_syntax, JsSyntax};

// Sample sources, one per scenario the classifier must handle.

fn esm_default_export() -> &'static str {
    "export default function () {}\n"
}

fn esm_named_export() -> &'static str {
    "export const a = 1;\n"
}

fn esm_top_level_import() -> &'static str {
    "import x from \"y\";\n"
}

fn esm_import_meta() -> &'static str {
    "console.log(import.meta.url);\n"
}

fn esm_create_require() -> &'static str {
    "import { createRequire } from 'module';\nconst require = createRequire(import.meta.url);\nrequire('x');\n"
}

fn esm_entice_cjs() -> &'static str {
    "// module.exports = require('x')\nconst s = 'require(\"y\")';\nexport const a = 1;\n"
}

fn cjs_require() -> &'static str {
    "const fs = require('fs');\n"
}

fn cjs_require_in_string() -> &'static str {
    "const s = 'require(\"x\")';\nmodule.exports = s;\n"
}

fn cjs_create_require_scope() -> &'static str {
    "function load() {\n  const require = () => {};\n}\nrequire('x');\n"
}

fn cjs_require_check() -> &'static str {
    "if (typeof require !== 'undefined') {\n  module.exports = {};\n}\n"
}

fn cjs_entice_esm() -> &'static str {
    "// export default stuff\nconst s = 'import x from \"y\"';\nmodule.exports = s;\n"
}

fn mixed_source() -> &'static str {
    "export const a = 1;\nconst r = require('x');\n"
}

fn unknown_source() -> &'static str {
    "const a = 1;\n"
}

fn iter_regex_ambiguity() -> &'static str {
    "const re = /import/;\nconst x = 1 / 2;\nexport default re;\n"
}

#[test]
fn esm() {
    assert_eq!(guess_js_syntax(esm_default_export()), JsSyntax::ESM);
    assert_eq!(guess_js_syntax(esm_named_export()), JsSyntax::ESM);
    assert_eq!(guess_js_syntax(esm_top_level_import()), JsSyntax::ESM);
    assert_eq!(guess_js_syntax(esm_import_meta()), JsSyntax::ESM);
    assert_eq!(guess_js_syntax(esm_create_require()), JsSyntax::ESM);
    assert_eq!(guess_js_syntax(esm_entice_cjs()), JsSyntax::ESM);
}

#[test]
fn cjs() {
    assert_eq!(guess_js_syntax(cjs_require()), JsSyntax::CJS);
    assert_eq!(guess_js_syntax(cjs_require_in_string()), JsSyntax::CJS);
    assert_eq!(guess_js_syntax(cjs_create_require_scope()), JsSyntax::CJS);
    assert_eq!(guess_js_syntax(cjs_require_check()), JsSyntax::CJS);
    assert_eq!(guess_js_syntax(cjs_entice_esm()), JsSyntax::CJS);
}

#[test]
fn mixed() {
    assert_eq!(guess_js_syntax(mixed_source()), JsSyntax::Mixed);
}

#[test]
fn unknown() {
    assert_eq!(guess_js_syntax(unknown_source()), JsSyntax::Unknown);
}

#[test]
fn iter() {
    assert_eq!(guess_js_syntax(iter_regex_ambiguity()), JsSyntax::ESM);
}

#[test]
fn quick() {
    assert_eq!(guess_js_syntax(" n     require     "), JsSyntax::CJS);
}
