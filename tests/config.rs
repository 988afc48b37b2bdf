use ungrammar_lsp::config::{config_path, default_rust_log, sandbox_default};

#[test]
fn setting_defaults() {
    assert!(!sandbox_default());
    assert_eq!(default_rust_log(), "debug");
    assert_eq!(config_path(), "ungrammar_lsp.toml");
}
