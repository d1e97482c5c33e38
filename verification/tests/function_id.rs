use smes::id::function_id;

#[test]
fn function_id_should_return_expected() {
    let id = function_id("utils::id::tests::function_id_should_return_expected::f");
    assert_eq!(id, "utils-id-tests-function_id_should_return_expected");
}

#[test]
fn function_id_strips_closures() {
    let id = function_id("app::run::{{closure}}::{{closure}}::f");
    assert_eq!(id, "app-run");
}

#[test]
fn function_id_without_item_suffix_is_empty() {
    assert_eq!(function_id("app::run"), "");
    assert_eq!(function_id(""), "");
}

#[test]
fn function_id_of_a_nested_item() {
    let id = function_id("function_id::function_id_of_a_nested_item::f");
    assert_eq!(id, "function_id-function_id_of_a_nested_item");
}
