use mojom_lsp::lexer::{scan_float, scan_integer, scan_number, scan_string, scan_value};
use mojom_lsp::parser::{
    attributes, const_stmt, enum_stmt, import_stmt, interface_stmt, method_stmt, module_stmt,
    parse, struct_stmt, type_range, union_stmt,
};
use mojom_lsp::syntax::{InterfaceMember, Range, StructBody};

fn ast_partial_text<'t>(text: &'t str, range: &Range) -> &'t str {
    &text[range.start..range.end]
}

fn ast_parse_part(scan: fn(&[u8], usize) -> Option<usize>, i: &str) -> &str {
    &i[..scan(i.as_bytes(), 0).unwrap()]
}

fn ast_parse_attributes(i: &str) -> &str {
    &i[..attributes(i.as_bytes(), 0).unwrap().1]
}

fn ast_parse_type(i: &str) -> &str {
    let (range, _) = type_range(i.as_bytes(), 0).unwrap();
    &i[range.start..range.end]
}

#[test]
fn ast_test_comment() {
    let input = "/* block comment */";
    let parsed = parse(&input);
    assert!(parsed.is_ok());

    let input = "// line comment";
    let parsed = parse(&input);
    assert!(parsed.is_ok());
}

#[test]
fn ast_test_integer() {
    assert_eq!("0", ast_parse_part(scan_integer, "0"));
    assert_eq!("123", ast_parse_part(scan_integer, "123"));
    assert_eq!("-42", ast_parse_part(scan_integer, "-42"));
    assert_eq!("0xdeadbeef", ast_parse_part(scan_integer, "0xdeadbeef"));
    assert_eq!("+0X1AB4", ast_parse_part(scan_integer, "+0X1AB4"));
}

#[test]
fn ast_test_float() {
    assert_eq!("0.0", ast_parse_part(scan_float, "0.0"));
    assert_eq!("1.0", ast_parse_part(scan_float, "1.0"));
    assert_eq!("3.141", ast_parse_part(scan_float, "3.141"));
    assert_eq!("+0.123", ast_parse_part(scan_float, "+0.123"));
    assert_eq!("-5.67", ast_parse_part(scan_float, "-5.67"));
    assert_eq!("4e5", ast_parse_part(scan_float, "4e5"));
    assert_eq!("-7e+15", ast_parse_part(scan_float, "-7e+15"));
    assert_eq!("+9e-2", ast_parse_part(scan_float, "+9e-2"));
}

#[test]
fn ast_test_number() {
    assert_eq!("0", ast_parse_part(scan_number, "0"));
    assert_eq!("123", ast_parse_part(scan_number, "123"));
    assert_eq!("-42", ast_parse_part(scan_number, "-42"));
    assert_eq!("0xdeadbeef", ast_parse_part(scan_number, "0xdeadbeef"));
    assert_eq!("+0X1AB4", ast_parse_part(scan_number, "+0X1AB4"));

    assert_eq!("0.0", ast_parse_part(scan_number, "0.0"));
    assert_eq!("1.0", ast_parse_part(scan_number, "1.0"));
    assert_eq!("3.141", ast_parse_part(scan_number, "3.141"));
    assert_eq!("+0.123", ast_parse_part(scan_number, "+0.123"));
    assert_eq!("-5.67", ast_parse_part(scan_number, "-5.67"));
    assert_eq!("4e5", ast_parse_part(scan_number, "4e5"));
    assert_eq!("-7e+15", ast_parse_part(scan_number, "-7e+15"));
    assert_eq!("+9e-2", ast_parse_part(scan_number, "+9e-2"));
}

#[test]
fn ast_test_string_literal() {
    assert_eq!(r#""hello""#, ast_parse_part(scan_string, r#""hello""#));
    assert_eq!(r#""hell\"o""#, ast_parse_part(scan_string, r#""hell\"o""#));
}

#[test]
fn ast_test_literal() {
    assert_eq!("true", ast_parse_part(scan_value, "true"));
    assert_eq!("false", ast_parse_part(scan_value, "false"));
    assert_eq!("default", ast_parse_part(scan_value, "default"));
    assert_eq!("0x12ab", ast_parse_part(scan_value, "0x12ab"));
    assert_eq!(
        r#""string literal \"with\" quote""#,
        ast_parse_part(scan_value, r#""string literal \"with\" quote""#)
    );
}

#[test]
fn ast_test_attribute() {
    assert_eq!("[]", ast_parse_attributes("[]"));
    assert_eq!(
        "[Attr1, Attr2=NameVal, Attr3=123]",
        ast_parse_attributes("[Attr1, Attr2=NameVal, Attr3=123]")
    );
}

#[test]
fn ast_test_types() {
    assert_eq!("bool", ast_parse_type("bool"));
    assert_eq!("int8", ast_parse_type("int8"));
    assert_eq!("uint8", ast_parse_type("uint8"));
    assert_eq!("int16", ast_parse_type("int16"));
    assert_eq!("uint16", ast_parse_type("uint16"));
    assert_eq!("int32", ast_parse_type("int32"));
    assert_eq!("uint32", ast_parse_type("uint32"));
    assert_eq!("int64", ast_parse_type("int64"));
    assert_eq!("uint64", ast_parse_type("uint64"));
    assert_eq!("float", ast_parse_type("float"));
    assert_eq!("double", ast_parse_type("double"));
    assert_eq!("handle", ast_parse_type("handle"));
    assert_eq!("handle<message_pipe>", ast_parse_type("handle<message_pipe>"));
    assert_eq!("string", ast_parse_type("string"));
    assert_eq!("array<uint8>", ast_parse_type("array<uint8>"));
    assert_eq!("array<uint8, 16>", ast_parse_type("array<uint8, 16>"));
    assert_eq!("map<int32, MyInterface>", ast_parse_type("map<int32, MyInterface>"));
    assert_eq!("MyInterface", ast_parse_type("MyInterface"));
    assert_eq!("MyInerface&", ast_parse_type("MyInerface&"));
    assert_eq!("associated MyInterface", ast_parse_type("associated MyInterface"));
    assert_eq!("associated MyInterface&", ast_parse_type("associated MyInterface&"));
    assert_eq!("bool?", ast_parse_type("bool?"));
}

#[test]
fn ast_test_module_stmt() {
    let input = "module my.mod;";
    let (stmt, _) = module_stmt(input.as_bytes(), 0).unwrap();
    assert_eq!("my.mod", ast_partial_text(&input, &stmt.name));
}

#[test]
fn ast_test_import_stmt() {
    let input = r#"import "my.mod";"#;
    let (stmt, _) = import_stmt(input.as_bytes(), 0).unwrap();
    assert_eq!(r#""my.mod""#, ast_partial_text(&input, &stmt.path));

    let input = r#"[Attr] import "my.mod";"#;
    let (stmt, _) = import_stmt(input.as_bytes(), 0).unwrap();
    assert_eq!(r#""my.mod""#, ast_partial_text(&input, &stmt.path));
}

#[test]
fn ast_test_const_stmt() {
    let input = "const uint32 kTheAnswer = 42;";
    let (stmt, _) = const_stmt(input.as_bytes(), 0).unwrap();
    assert_eq!("uint32", ast_partial_text(&input, &stmt.typ));
    assert_eq!("kTheAnswer", ast_partial_text(&input, &stmt.name));
    assert_eq!("42", ast_partial_text(&input, &stmt.value));
}

#[test]
fn ast_test_enum_stmt() {
    let input = "enum MyEnum { kOne, kTwo=2, kThree=IdentValue, };";
    let (stmt, _) = enum_stmt(input.as_bytes(), 0).unwrap();
    assert_eq!("MyEnum", ast_partial_text(&input, &stmt.name));
    let values = &stmt.values;
    assert_eq!(3, values.len());
    assert_eq!("kOne", ast_partial_text(&input, &values[0].name));
    assert_eq!("kTwo", ast_partial_text(&input, &values[1].name));
    assert_eq!("2", ast_partial_text(&input, values[1].value.as_ref().unwrap()));
    assert_eq!("kThree", ast_partial_text(&input, &values[2].name));
    assert_eq!(
        "IdentValue",
        ast_partial_text(&input, values[2].value.as_ref().unwrap())
    );

    let input = "enum MyEnum {};";
    let (stmt, _) = enum_stmt(input.as_bytes(), 0).unwrap();
    assert_eq!("MyEnum", ast_partial_text(&input, &stmt.name));
    assert_eq!(0, stmt.values.len());

    let input = "[Native] enum MyEnum;";
    let (stmt, _) = enum_stmt(input.as_bytes(), 0).unwrap();
    assert_eq!("MyEnum", ast_partial_text(&input, &stmt.name));
    assert_eq!(0, stmt.values.len());
}

#[test]
fn ast_test_method_stmt() {
    let input = "MyMethod(string str_arg, int8 int8_arg) => (uint32 result);";
    let (stmt, _) = method_stmt(input.as_bytes(), 0).unwrap();
    assert_eq!("MyMethod", ast_partial_text(&input, &stmt.name));
    let params = &stmt.params;
    assert_eq!(2, params.len());
    assert_eq!("string", ast_partial_text(&input, &params[0].typ));
    assert_eq!("str_arg", ast_partial_text(&input, &params[0].name));
    assert_eq!("int8", ast_partial_text(&input, &params[1].typ));
    assert_eq!("int8_arg", ast_partial_text(&input, &params[1].name));
    let response = stmt.response.as_ref().unwrap();
    assert_eq!(1, response.params.len());
    assert_eq!("uint32", ast_partial_text(&input, &response.params[0].typ));
    assert_eq!("result", ast_partial_text(&input, &response.params[0].name));

    let input = "MyMethod2();";
    let (stmt, _) = method_stmt(input.as_bytes(), 0).unwrap();
    assert_eq!("MyMethod2", ast_partial_text(&input, &stmt.name));
    assert_eq!(0, stmt.params.len());
    assert!(stmt.response.is_none());
}

#[test]
fn ast_test_struct_stmt() {
    let input = "struct MyStruct {
            const int64 kInvalidId = -1;
            int64 my_id;
            MyInterface? my_interface;
            float my_float_value = 0.1;
        };";
    let (stmt, _) = struct_stmt(input.as_bytes(), 0).unwrap();
    assert_eq!("MyStruct", ast_partial_text(&input, &stmt.name));
    let members = &stmt.members;
    assert_eq!(4, members.len());

    let item = match &members[0] {
        StructBody::Const(item) => item,
        _ => unreachable!(),
    };
    assert_eq!("kInvalidId", ast_partial_text(&input, &item.name));

    let item = match &members[1] {
        StructBody::Field(item) => item,
        _ => unreachable!(),
    };
    assert_eq!("my_id", ast_partial_text(&input, &item.name));

    let item = match &members[2] {
        StructBody::Field(item) => item,
        _ => unreachable!(),
    };
    assert_eq!("my_interface", ast_partial_text(&input, &item.name));

    let item = match &members[3] {
        StructBody::Field(item) => item,
        _ => unreachable!(),
    };
    assert_eq!("my_float_value", ast_partial_text(&input, &item.name));

    let input = "[Native] struct MyStruct;";
    let (stmt, _) = struct_stmt(input.as_bytes(), 0).unwrap();
    assert_eq!("MyStruct", ast_partial_text(&input, &stmt.name));
    assert_eq!(0, stmt.members.len());
}

#[test]
fn ast_test_interface() {
    let input = "interface MyInterface {
            MyMethod();
            enum MyEnum { kMyEnumVal1, kMyEnumVal2 };
        };";
    let (intr, _) = interface_stmt(input.as_bytes(), 0).unwrap();
    assert_eq!("MyInterface", ast_partial_text(&input, &intr.name));
    let members = &intr.members;
    assert_eq!(2, members.len());

    let member = match &members[0] {
        InterfaceMember::Method(member) => member,
        _ => unreachable!(),
    };
    assert_eq!("MyMethod", ast_partial_text(&input, &member.name));

    let member = match &members[1] {
        InterfaceMember::Enum(member) => member,
        _ => unreachable!(),
    };
    assert_eq!("MyEnum", ast_partial_text(&input, &member.name));
}

#[test]
fn ast_test_union_stmt() {
    let input = "union MyUnion {
            string str_field;
            StringPair pair_field;
            int64 int64_field;
        };";
    let (stmt, _) = union_stmt(input.as_bytes(), 0).unwrap();
    assert_eq!("MyUnion", ast_partial_text(&input, &stmt.name));
    let fields = &stmt.fields;
    assert_eq!(3, fields.len());
    assert_eq!("str_field", ast_partial_text(&input, &fields[0].name));
    assert_eq!("pair_field", ast_partial_text(&input, &fields[1].name));
    assert_eq!("int64_field", ast_partial_text(&input, &fields[2].name));
}

#[test]
fn ast_test_parse() {
    let input = r#"
        module test.module;
        import "a.b.c";
        import "a.c.d";

        enum MyEnum;
        enum MyEnum2 { kFoo, kBar, kBaz };

        const string kMyConst = "const_value";
        const int32 kMyConst2 = -1;

        struct MyStruct {};
        struct MyStruct2 {
            uint8 my_uint8_value;
            float my_float_value = 0.1;
        };

        union MyUnion {
            string str_field;
            uint8 uint8_field;
        };
        union MyUnion2 {
            MyInterface myinterface_field;
            uint32 uint32_field;
        };

        // This is MyInterface
        interface MyInterface {
            MyMethod() => (/* empty */);
        };

        interface InterfaceA {};

        // This is comment.
        interface InterfaceB {};

        [Attr]
        interface InterfaceC {};

        interface InterfaceD {
            const string kMessage = "message";
            enum SomeEnum { Foo, Bar, Baz, };
            MethodA(string message) => ();
            MethodB() => (int32 result);
            [Attr2] MethodC(associated InterfaceA assoc) => (map<string, int8> result);
        };
        "#;
    let res = parse(input).unwrap();
    assert_eq!(16, res.stmts.len());
}
