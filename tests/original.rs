use fn_decl::FunctionDecl;

#[test]
fn test_func_simple_one_line() {
    let test = "fn simple_sameline() {}".to_string();
    let funcdecl = FunctionDecl::from_string(test);
    assert_eq!(funcdecl.func_prologue, "");
    assert_eq!(funcdecl.pub_str, "");
    assert_eq!(funcdecl.async_str, "");
    assert_eq!(funcdecl.fn_name, "simple_sameline");
    assert_eq!(funcdecl.fn_decl, "()");
    assert_eq!(funcdecl.fn_body, "");
}

#[test]
fn test_func_simple_new_line() {
    let test = "fn simple_newline() {
        }".to_string();
    let funcdecl = FunctionDecl::from_string(test);
    assert_eq!(funcdecl.func_prologue, "");
    assert_eq!(funcdecl.pub_str, "");
    assert_eq!(funcdecl.async_str, "");
    assert_eq!(funcdecl.fn_name, "simple_newline");
    assert_eq!(funcdecl.fn_decl, "()");
    assert_eq!(funcdecl.ret_decl, "");
    assert_eq!(funcdecl.fn_body, "");
}

#[test]
fn test_func_simple_new_line_brace_new_line() {
    let test = "fn simple_newline_brace()
        {
        }".to_string();
    let funcdecl = FunctionDecl::from_string(test);
    assert_eq!(funcdecl.func_prologue, "");
    assert_eq!(funcdecl.pub_str, "");
    assert_eq!(funcdecl.async_str, "");
    assert_eq!(funcdecl.fn_name, "simple_newline_brace");
    assert_eq!(funcdecl.fn_decl, "()");
    assert_eq!(funcdecl.ret_decl, "");
    assert_eq!(funcdecl.fn_body, "");
}

#[test]
fn test_func_simple_with_params() {
    let test = "fn with_params(_: String) {}".to_string();
    let funcdecl = FunctionDecl::from_string(test);
    assert_eq!(funcdecl.func_prologue, "");
    assert_eq!(funcdecl.pub_str, "");
    assert_eq!(funcdecl.async_str, "");
    assert_eq!(funcdecl.fn_name, "with_params");
    assert_eq!(funcdecl.fn_decl, "(_: String)");
    assert_eq!(funcdecl.ret_decl, "");
    assert_eq!(funcdecl.fn_body, "");
}

#[test]
fn test_func_body_no_return() {
    let test = "fn with_body(_: String) {
            let _ = \"\".to_string();
        }".to_string();
    let funcdecl = FunctionDecl::from_string(test);
    assert_eq!(funcdecl.func_prologue, "");
    assert_eq!(funcdecl.pub_str, "");
    assert_eq!(funcdecl.async_str, "");
    assert_eq!(funcdecl.fn_name, "with_body");
    assert_eq!(funcdecl.fn_decl, "(_: String)");
    assert_eq!(funcdecl.ret_decl, "");
    assert_eq!(funcdecl.fn_body, "let _ = \"\".to_string();");
}

#[test]
fn test_func_body_with_return() {
    let test = "fn with_return(_: String) -> String {
            \"\".to_string()
        }".to_string();
    let funcdecl = FunctionDecl::from_string(test);
    assert_eq!(funcdecl.func_prologue, "");
    assert_eq!(funcdecl.pub_str, "");
    assert_eq!(funcdecl.async_str, "");
    assert_eq!(funcdecl.fn_name, "with_return");
    assert_eq!(funcdecl.fn_decl, "(_: String)");
    assert_eq!(funcdecl.ret_decl, "String");
    assert_eq!(funcdecl.fn_body, "\"\".to_string()");
}

#[test]
fn test_func_pub_with_return() {
    let test = "pub fn with_return(_: String) -> String {
            \"\".to_string()
        }".to_string();
    let funcdecl = FunctionDecl::from_string(test);
    assert_eq!(funcdecl.func_prologue, "");
    assert_eq!(funcdecl.pub_str, "pub");
    assert_eq!(funcdecl.async_str, "");
    assert_eq!(funcdecl.fn_name, "with_return");
    assert_eq!(funcdecl.fn_decl, "(_: String)");
    assert_eq!(funcdecl.ret_decl, "String");
    assert_eq!(funcdecl.fn_body, "\"\".to_string()");
}

#[test]
fn test_func_async_with_return() {
    let test = "async fn with_return(_: String) -> String {
            \"\".to_string()
        }".to_string();
    let funcdecl = FunctionDecl::from_string(test);
    assert_eq!(funcdecl.func_prologue, "");
    assert_eq!(funcdecl.pub_str, "");
    assert_eq!(funcdecl.async_str, "async");
    assert_eq!(funcdecl.fn_name, "with_return");
    assert_eq!(funcdecl.fn_decl, "(_: String)");
    assert_eq!(funcdecl.ret_decl, "String");
    assert_eq!(funcdecl.fn_body, "\"\".to_string()");
}

#[test]
fn test_func_async_pub_with_return() {
    let test = "pub async fn with_return(_: String) -> String {
            \"\".to_string()
        }".to_string();
    let funcdecl = FunctionDecl::from_string(test);
    assert_eq!(funcdecl.func_prologue, "");
    assert_eq!(funcdecl.pub_str, "pub");
    assert_eq!(funcdecl.async_str, "async");
    assert_eq!(funcdecl.fn_name, "with_return");
    assert_eq!(funcdecl.fn_decl, "(_: String)");
    assert_eq!(funcdecl.ret_decl, "String");
    assert_eq!(funcdecl.fn_body, "\"\".to_string()");
}

#[test]
fn test_func_async_pub_prelude_with_return() {
    let test = "#[some_macro]
        pub async fn with_return(_: String) -> String {
            \"\".to_string()
        }".to_string();
    let funcdecl = FunctionDecl::from_string(test);
    assert_eq!(funcdecl.func_prologue, "#[some_macro]\n");
    assert_eq!(funcdecl.pub_str, "pub");
    assert_eq!(funcdecl.async_str, "async");
    assert_eq!(funcdecl.fn_name, "with_return");
    assert_eq!(funcdecl.fn_decl, "(_: String)");
    assert_eq!(funcdecl.ret_decl, "String");
    assert_eq!(funcdecl.fn_body, "\"\".to_string()");
}

#[test]
fn test_func_async_pub_large_body() {
    let test = "#[some_macro]
        pub async fn with_return(_: String) -> String {
            let foo = \"\".to_string();
            let bar = foo.trim();
            bar
        }".to_string();
    let funcdecl = FunctionDecl::from_string(test);
    assert_eq!(funcdecl.func_prologue, "#[some_macro]\n");
    assert_eq!(funcdecl.pub_str, "pub");
    assert_eq!(funcdecl.async_str, "async");
    assert_eq!(funcdecl.fn_name, "with_return");
    assert_eq!(funcdecl.fn_decl, "(_: String)");
    assert_eq!(funcdecl.ret_decl, "String");
    assert_eq!(funcdecl.fn_body, "let foo = \"\".to_string();
            let bar = foo.trim();
            bar");
}

#[test]
fn test_func_async_pub_large_body_into_body() {
    let test = "#[some_macro]
        pub async fn with_return(_: String) -> String {
            let foo = \"\".to_string();
            let bar = foo.trim();
            bar
        }".to_string();
    let funcdecl = FunctionDecl::from_string(test);
    let body = funcdecl.fn_body.clone();
    let expected = "#[some_macro]\npub async fn with_return(_: String) -> String \
            {\nlet foo = \"\".to_string();\n            let bar = foo.trim();\n            bar\n}";
    assert_eq!(funcdecl.into_func_body(body), expected);
}
