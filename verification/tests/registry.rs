use syntect::parsing::SyntaxSet;
use whistler::registry::GrammarRegistry;

#[test]
fn resolve_never_fails() {
    let registry = GrammarRegistry::with_defaults();
    assert_eq!(registry.resolve("").name(), "Plain Text");
    assert_eq!(registry.resolve("unknownext").name(), "Plain Text");
    assert_eq!(registry.resolve("rs").name(), "Rust");
}

#[test]
fn resolve_ignores_letter_case() {
    let registry = GrammarRegistry::with_defaults();
    assert_eq!(registry.resolve("RS").name(), "Rust");
    assert_eq!(registry.resolve("RS").name(), registry.resolve("rs").name());
    assert_eq!(registry.resolve("Py").name(), registry.resolve("py").name());
    assert_eq!(registry.resolve("PY").name(), "Python");
}

#[test]
fn resolve_folds_ascii_letters_only() {
    let registry = GrammarRegistry::with_defaults();
    assert_eq!(registry.resolve("ŔS").name(), "Plain Text");
}

#[test]
fn the_minimal_registry_holds_plain_text_alone() {
    let registry = GrammarRegistry::minimal();
    assert_eq!(registry.syntaxes().syntaxes().len(), 1);
    assert_eq!(registry.resolve("rs").name(), "Plain Text");
    assert_eq!(registry.resolve("txt").name(), "Plain Text");
    assert_eq!(registry.resolve("TXT").name(), "Plain Text");
    assert_eq!(registry.resolve("").name(), "Plain Text");
}

#[test]
fn the_default_registry_holds_the_grammars_that_ship() {
    let count = SyntaxSet::load_defaults_newlines().syntaxes().len();
    assert!(count > 1);
    assert_eq!(GrammarRegistry::with_defaults().syntaxes().syntaxes().len(), count);
}
