use mojom_lsp::typespec::{typespec, TypeName};

#[test]
fn test_typespec() {
    typespec("bool").unwrap();
    typespec("int8").unwrap();
    typespec("uint8").unwrap();
    typespec("int16").unwrap();
    typespec("uint16").unwrap();
    typespec("int32").unwrap();
    typespec("uint32").unwrap();
    typespec("int64").unwrap();
    typespec("uint64").unwrap();
    typespec("float").unwrap();
    typespec("double").unwrap();
    typespec("string").unwrap();

    let res = typespec("handle").unwrap();
    match res.name {
        TypeName::Handle(handle_type) => {
            assert!(handle_type.is_none());
        }
        _ => panic!("Expected handle"),
    };

    let res = typespec("handle<message_pipe>").unwrap();
    match res.name {
        TypeName::Handle(handle_type) => {
            assert_eq!(handle_type.unwrap(), "message_pipe");
        }
        _ => panic!("Expected handle"),
    };

    let res = typespec("array<uint8>").unwrap();
    match res.name {
        TypeName::Array(inner_type) => {
            assert_eq!(TypeName::BasicTypeName("uint8".to_owned()), inner_type.name);
        }
        _ => panic!("Expected array"),
    };

    let res = typespec("array<string, 16>").unwrap();
    match res.name {
        TypeName::FixedArray(inner_type, size) => {
            assert_eq!(TypeName::BasicTypeName("string".to_owned()), inner_type.name);
            assert_eq!(16, size);
        }
        _ => panic!("Expected fixed array"),
    };

    let res = typespec("map<int32, MyInterface>").unwrap();
    match res.name {
        TypeName::MapOf(key_type, value_type) => {
            assert_eq!("int32", key_type);
            assert_eq!(TypeName::BasicTypeName("MyInterface".to_owned()), value_type.name);
        }
        _ => panic!("Expected map"),
    };

    typespec("MyInterface").unwrap();

    let res = typespec("MyInterface&").unwrap();
    match res.name {
        TypeName::InterfaceRequest(ident, is_associated) => {
            assert_eq!("MyInterface", ident);
            assert!(!is_associated);
        }
        _ => panic!("Expected interface request"),
    };

    let res = typespec("associated MyInterface&").unwrap();
    match res.name {
        TypeName::InterfaceRequest(ident, is_associated) => {
            assert_eq!("MyInterface", ident);
            assert!(is_associated);
        }
        _ => panic!("Expected interface request"),
    };

    let res = typespec("associated MyInterface").unwrap();
    match res.name {
        TypeName::Associated(ident) => {
            assert_eq!("MyInterface", ident);
        }
        _ => panic!("Expected associated type"),
    };

    let input = "array<int32>?";
    let res = typespec(&input).unwrap();
    assert!(res.is_nullable);
}
