use jvm_lowering::names::sanitize_name_token;

#[test]
fn generated_name_tokens_preserve_rust_underscores() {
    assert_eq!(sanitize_name_token("Tuple_"), "Tuple");
    assert_eq!(
        sanitize_name_token("Result<Type__Name::Error>"),
        "Result_Type__Name_Error"
    );
    assert_eq!(sanitize_name_token("___"), "Type");
}
