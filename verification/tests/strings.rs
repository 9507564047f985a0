use nterm::strings::{format_close_tab_message, format_single, same_text, ERROR_LAUNCHING_SHELL};

#[test]
fn format_single_replaces_every_placeholder() {
    assert_eq!(format_single("a {} b {}", "x"), "a x b x");
    assert_eq!(format_single("no placeholder", "x"), "no placeholder");
    assert_eq!(format_single("{}{}", "ab"), "abab");
    assert_eq!(format_single("{{}}", "z"), "{z}");
    assert_eq!(format_single("", "z"), "");
    assert_eq!(format_single("é{}ü", "ß"), "éßü");
    assert_eq!(format_single(ERROR_LAUNCHING_SHELL, "boom"), "Error launching shell: boom");
}

#[test]
fn close_tab_message_names_the_program() {
    assert_eq!(
        format_close_tab_message("vim"),
        "The program 'vim' is running in this tab. Do you really want to close it?"
    );
}

#[test]
fn same_text_compares_characters() {
    assert!(same_text("nord", "nord"));
    assert!(!same_text("nord", "Nord"));
    assert!(!same_text("nord", "nor"));
}
