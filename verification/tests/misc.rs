use mojom_lsp::identifier::identifier;
use mojom_lsp::parser::{interface_stmt, parse};
use mojom_lsp::protocol::read_header;
use mojom_lsp::syntax::Range;
use mojom_lsp::traverse::{preorder, Traversal};

fn partial_text<'t>(text: &'t str, range: &Range) -> &'t str {
    &text[range.start..range.end]
}

#[test]
fn test_identifier() {
    let input = "\nhello world";
    let (res, next) = identifier(input).unwrap();
    assert_eq!("hello", res.value());
    assert_eq!("world", &input[next..]);
}

#[test]
fn interface_test_interface() {
    let input = "interface MyInterface {};";
    let (res, _) = interface_stmt(input.as_bytes(), 0).unwrap();
    assert_eq!("MyInterface", partial_text(input, &res.name));
}

#[test]
fn protocol_test_read_header() {
    let input = b"content-length: 208\r\n\r\n";
    let (header, _) = read_header(&input[..]).unwrap();
    assert_eq!(208, header.content_length);
}

#[test]
fn test_preorder() {
    let input = r#"
        module test.mod;
        struct MyStruct {
            const string kMyStructString = "const_value";
        };
        interface MyInterface {
            MyMethod() => ();
        };
        "#;
    let mojom = parse(input).unwrap();

    let mut walk = preorder(&mojom);
    let mut module = None;
    while let Some(t) = walk.next() {
        if let Traversal::Module(m) = t {
            module = Some(m);
            break;
        }
    }
    let module = module.unwrap();
    assert_eq!("test.mod", partial_text(&input, &module.name));

    let mut walk = preorder(&mojom);
    let mut method = None;
    while let Some(t) = walk.next() {
        if let Traversal::Method(m) = t {
            method = Some(m);
            break;
        }
    }
    let method = method.unwrap();
    assert_eq!("MyMethod", partial_text(&input, &method.name));
}
