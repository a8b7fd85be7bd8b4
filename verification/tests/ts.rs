use abigen::ts;

#[test]
fn create_class_code() {
    let out = ts::Script::new()
        .expression()
        .field("foo")
        .dot()
        .field("bar")
        .call()
        .param()
        .field("the")
        .param_end()
        .param()
        .string("wailers")
        .param_end()
        .call_end()
        .expression_end()
        .class("Foo", ts::Export::Private, ts::ClassType::Normal)
        .constructor()
        .field("bar", ts::Type::String, true, ts::Visibility::Public)
        .param(
            "_useless",
            ts::Type::Union(vec![ts::Type::Number, ts::Type::String, ts::Type::Null]),
        )
        .method_end()
        .class_end()
        .collect();
    assert_eq!(
        "
foo.bar(the, \"wailers\");
class Foo {
  constructor(public readonly bar: string, _useless: number | string | null) {}
}
",
        out
    );
}

#[test]
fn create_class_with_functions() {
    let out = ts::Script::new()
        .import()
        .by_default("AbstractContract")
        .from("./AbstractContract")
        .import_end()
        .class("MyClass", ts::Export::Private, ts::ClassType::Normal)
        .constructor()
        .field(
            "contract",
            ts::Type::Class("AbstractContract".into()),
            true,
            ts::Visibility::Private,
        )
        .constructor_end()
        .method("myCustomCall", true, ts::Visibility::Public)
        .param("value", ts::Type::Number)
        .body()
        .expression()
        .do_return()
        .do_await()
        .field("this")
        .dot()
        .field("contract")
        .dot()
        .field("call")
        .call()
        .param()
        .string("myCustomCall")
        .param_end()
        .param()
        .field("value")
        .param_end()
        .call_end()
        .expression_end()
        .method_end()
        .class_end()
        .collect();
    assert_eq!(
        "
import AbstractContract from \"./AbstractContract\";
class MyClass {
  constructor(private readonly contract: AbstractContract) {}
  public async myCustomCall(value: number) {
    return await this.contract.call(\"myCustomCall\", value);
  }
}
",
        out
    );
}

#[test]
fn nested_scopes_indent_one_unit_and_pair_up() {
    let out = ts::Script::new()
        .class("Outer", ts::Export::Private, ts::ClassType::Normal)
        .method("m", false, ts::Visibility::Public)
        .body()
        .class("Inner", ts::Export::Private, ts::ClassType::Normal)
        .class_end()
        .method_end()
        .class_end()
        .collect();
    assert_eq!(
        "\nclass Outer {\n  public m() {\n    class Inner {\n    }\n  }\n}\n",
        out
    );
}

#[test]
fn call_without_arguments_has_no_comma() {
    let out = ts::Script::new()
        .expression()
        .field("f")
        .call()
        .call_end()
        .expression_end()
        .collect();
    assert_eq!("\nf();\n", out);
}

#[test]
fn call_arguments_are_comma_separated_in_order() {
    let out = ts::Script::new()
        .expression()
        .field("f")
        .call()
        .param()
        .field("a")
        .param_end()
        .param()
        .field("b")
        .param_end()
        .param()
        .field("c")
        .param_end()
        .call_end()
        .expression_end()
        .collect();
    assert_eq!("\nf(a, b, c);\n", out);
}

#[test]
fn number_arguments_render_in_decimal() {
    let out = ts::Script::new()
        .expression()
        .field("f")
        .call()
        .param()
        .number(0)
        .param_end()
        .param()
        .number(42)
        .param_end()
        .param()
        .number(18446744073709551615)
        .param_end()
        .call_end()
        .expression_end()
        .collect();
    assert_eq!("\nf(0, 42, 18446744073709551615);\n", out);
}

#[test]
fn namespace_import() {
    let out = ts::Script::new()
        .import()
        .by_all("ns")
        .from("some/module")
        .import_end()
        .collect();
    assert_eq!("\nimport * as ns from \"some/module\";\n", out);
}

#[test]
fn abstract_method_with_rest_param() {
    let out = ts::Script::new()
        .class("Sink", ts::Export::Named, ts::ClassType::Abstract)
        .method("push", false, ts::Visibility::Protected)
        .rest_param("items", ts::Type::Array(Box::new(ts::Type::String)))
        .method_end_abstract(ts::Type::Promise(Box::new(ts::Type::Never)))
        .class_end()
        .collect();
    assert_eq!(
        "\nexport abstract class Sink {\n  protected push(...items: Array<string>): Promise<never>;\n}\n",
        out
    );
}

#[test]
fn type_rendering_primitives() {
    assert_eq!(ts::Type::Number.to_string(), "number");
    assert_eq!(ts::Type::String.to_string(), "string");
    assert_eq!(ts::Type::Boolean.to_string(), "boolean");
    assert_eq!(ts::Type::Object.to_string(), "object");
    assert_eq!(ts::Type::Any.to_string(), "any");
    assert_eq!(ts::Type::Unknown.to_string(), "unknown");
    assert_eq!(ts::Type::Never.to_string(), "never");
    assert_eq!(ts::Type::Null.to_string(), "null");
    assert_eq!(ts::Type::Class("Foo".into()).to_string(), "Foo");
}

#[test]
fn type_rendering_wrappers() {
    assert_eq!(
        ts::Type::Array(Box::new(ts::Type::String)).to_string(),
        "Array<string>"
    );
    assert_eq!(
        ts::Type::Partial(Box::new(ts::Type::Number)).to_string(),
        "Partial<number>"
    );
    assert_eq!(
        ts::Type::Promise(Box::new(ts::Type::Any)).to_string(),
        "Promise<any>"
    );
    assert_eq!(
        ts::Type::Record(Box::new(ts::Type::String), Box::new(ts::Type::Number)).to_string(),
        "Record<string, number>"
    );
    assert_eq!(
        ts::Type::Array(Box::new(ts::Type::Array(Box::new(ts::Type::Boolean)))).to_string(),
        "Array<Array<boolean>>"
    );
}

#[test]
fn type_rendering_composites() {
    assert_eq!(ts::Type::Tuple(vec![]).to_string(), "[]");
    assert_eq!(ts::Type::Tuple(vec![ts::Type::Number]).to_string(), "[number]");
    assert_eq!(
        ts::Type::Tuple(vec![ts::Type::Number, ts::Type::String]).to_string(),
        "[number, string]"
    );
    assert_eq!(ts::Type::Union(vec![]).to_string(), "");
    assert_eq!(ts::Type::Union(vec![ts::Type::Null]).to_string(), "null");
    assert_eq!(
        ts::Type::Union(vec![ts::Type::Number, ts::Type::Null]).to_string(),
        "number | null"
    );
    assert_eq!(ts::Type::Interface(vec![]).to_string(), "{  }");
    assert_eq!(
        ts::Type::Interface(vec![
            ("a".to_string(), ts::Type::Number),
            ("b".to_string(), ts::Type::String),
        ])
        .to_string(),
        "{ \"a\": number, \"b\": string }"
    );
}

#[test]
fn modifier_keywords() {
    assert_eq!(ts::Visibility::Public.to_string(), "public");
    assert_eq!(ts::Visibility::Protected.to_string(), "protected");
    assert_eq!(ts::Visibility::Private.to_string(), "private");
    assert_eq!(ts::Visibility::NotSpecified.to_string(), "");
    assert_eq!(ts::Export::Private.to_string(), "");
    assert_eq!(ts::Export::Named.to_string(), "export ");
    assert_eq!(ts::Export::Default.to_string(), "export default ");
    assert_eq!(ts::ClassType::Interface.to_string(), "interface");
    assert_eq!(ts::ClassType::Abstract.to_string(), "abstract class");
    assert_eq!(ts::ClassType::Normal.to_string(), "class");
}
