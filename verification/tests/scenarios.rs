use mojom_lsp::diagnostic::{get_identifier, get_offset_from_position, is_identifier_char, Analyzer};
use mojom_lsp::error::{line_col, rule_name, ErrorLocation, LineCol};
use mojom_lsp::grammar::Rule;
use mojom_lsp::imported_files::{
    import_definitions, import_error, import_paths, parse_imported, ImportError, ImportedFiles,
};
use mojom_lsp::initialization::{
    create_server_capabilities, initialize, Handshake, HandshakeAction, TextDocumentSyncKind,
};
use mojom_lsp::lsp::{DiagnosticSeverity, Position};
use mojom_lsp::mojomast::MojomAst;
use mojom_lsp::parser::{method_stmt, parse};
use mojom_lsp::protocol::{
    classify, read_header, write_header, Envelope, ErrorCodes, HeaderError, MessageKind,
};
use mojom_lsp::semantic::check_semantics;
use mojom_lsp::server::{
    did_change_text_document, find_chromium_src_dir, get_root_path, handle_notification,
    handle_request, invalid_request, is_chromium_src_dir, DirProbe, NotificationAction,
    RequestAction, ServerContext, ServerError, State,
};
use mojom_lsp::syntax::{Range, Statement};
use mojom_lsp::traverse::{preorder, Traversal};
use mojom_lsp::typespec::{typespec, TypeName};

fn text_of<'t>(text: &'t str, range: &Range) -> &'t str {
    &text[range.start..range.end]
}

fn position(line: u64, character: u64) -> Position {
    Position { line, character }
}

fn request(id: u64, method: &str) -> Envelope {
    Envelope { id: Some(id), method: Some(method.to_owned()), has_result: false, has_error: false }
}

fn notification(method: &str) -> Envelope {
    Envelope { id: None, method: Some(method.to_owned()), has_result: false, has_error: false }
}

#[test]
fn ranges_lie_inside_the_text() {
    let input = "module a.b;\nimport \"x.mojom\";\nconst int32 kA = 1;\nenum E { kOne = 1, kTwo };";
    let file = parse(input).unwrap();
    assert_eq!(4, file.stmts.len());
    match &file.stmts[0] {
        Statement::Module(m) => {
            assert!(m.name.start < m.name.end && m.name.end <= input.len());
            assert_eq!("a.b", text_of(input, &m.name));
        }
        _ => panic!("expected a module"),
    }
    match &file.stmts[1] {
        Statement::Import(i) => assert_eq!("\"x.mojom\"", text_of(input, &i.path)),
        _ => panic!("expected an import"),
    }
    match &file.stmts[2] {
        Statement::Const(c) => {
            assert_eq!("int32", text_of(input, &c.typ));
            assert_eq!("kA", text_of(input, &c.name));
            assert_eq!("1", text_of(input, &c.value));
        }
        _ => panic!("expected a constant"),
    }
    match &file.stmts[3] {
        Statement::Enum(e) => {
            assert_eq!("E", text_of(input, &e.name));
            assert_eq!(2, e.values.len());
            assert_eq!("kOne", text_of(input, &e.values[0].name));
            assert_eq!("1", text_of(input, e.values[0].value.as_ref().unwrap()));
            assert!(e.values[1].value.is_none());
        }
        _ => panic!("expected an enum"),
    }
}

#[test]
fn point_error_has_zero_width_range() {
    let err = parse("interface Foo { ;").unwrap_err();
    assert_eq!(16, err.offset);
    assert_eq!(Rule::InterfaceBody, err.expected);
    assert_eq!(ErrorLocation::Pos(LineCol { line: 0, col: 16 }), err.location);
    let (start, end) = err.range();
    assert_eq!(start, end);
    assert_eq!(LineCol { line: 0, col: 16 }, start);
    assert_eq!("expected interface_body", err.message());
}

#[test]
fn error_position_counts_lines_and_characters() {
    let input = "module a;\n// caf\u{e9}\n  \u{e9}";
    let err = parse(input).unwrap_err();
    assert_eq!(Rule::Statement, err.expected);
    assert_eq!(ErrorLocation::Pos(LineCol { line: 2, col: 2 }), err.location);
    assert_eq!(input.len() - 2, err.offset);
}

#[test]
fn an_unclosed_block_comment_is_no_comment() {
    let err = parse("module a; /* never closed").unwrap_err();
    assert_eq!(10, err.offset);
    assert_eq!(Rule::Statement, err.expected);
}

#[test]
fn empty_and_forward_declarations_contribute_a_name() {
    for input in ["enum X {};", "struct X {};", "enum X;", "[Native] struct X;"] {
        let file = parse(input).unwrap();
        assert_eq!(1, file.stmts.len());
        let name = match &file.stmts[0] {
            Statement::Enum(e) => {
                assert_eq!(0, e.values.len());
                e.name
            }
            Statement::Struct(s) => {
                assert_eq!(0, s.members.len());
                s.name
            }
            _ => panic!("expected an enum or a struct"),
        };
        assert_eq!("X", text_of(input, &name));
        let ast = MojomAst::new("file:///x.mojom".to_owned(), input.to_owned()).unwrap();
        let defs = import_definitions(&ast);
        assert_eq!(1, defs.len());
        assert_eq!(b"X".to_vec(), defs[0].ident);
    }
}

#[test]
fn a_method_has_a_response_only_after_an_arrow() {
    let (m, _) = method_stmt(b"Ping();", 0).unwrap();
    assert!(m.response.is_none());
    let (m, _) = method_stmt(b"Ping() => ();", 0).unwrap();
    assert_eq!(0, m.response.unwrap().params.len());
    let input = "Get@3(int32 a@0) => (string b);";
    let (m, next) = method_stmt(input.as_bytes(), 0).unwrap();
    assert_eq!(input.len(), next);
    assert_eq!("@3", text_of(input, m.ordinal.as_ref().unwrap()));
    assert_eq!("@0", text_of(input, m.params[0].ordinal.as_ref().unwrap()));
    assert_eq!("b", text_of(input, &m.response.unwrap().params[0].name));
}

#[test]
fn a_trailing_comma_is_accepted() {
    let file = parse("enum E { kA, kB, };").unwrap();
    match &file.stmts[0] {
        Statement::Enum(e) => assert_eq!(2, e.values.len()),
        _ => panic!("expected an enum"),
    }
    let (m, _) = method_stmt(b"M(int32 a, string b,) => (bool ok,);", 0).unwrap();
    assert_eq!(2, m.params.len());
    assert_eq!(1, m.response.unwrap().params.len());
    assert!(parse("enum E { , };").is_err());
    assert!(method_stmt(b"M(int32 a,,);", 0).is_err());
}

#[test]
fn each_syntax_error_names_what_was_expected() {
    let cases: Vec<(&str, usize, Rule)> = vec![
        ("module;", 6, Rule::Identifier),
        ("module a", 8, Rule::Semicolon),
        ("import a;", 7, Rule::StringLiteral),
        ("const int32 = 1;", 12, Rule::Name),
        ("const int32 a 1;", 14, Rule::Equal),
        ("const int32 a = ;", 16, Rule::Literal),
        ("enum E { a = };", 13, Rule::Integer),
        ("enum E { a b };", 11, Rule::RBrace),
        ("enum E { 1 };", 9, Rule::EnumValue),
        ("struct S { 1 };", 11, Rule::StructItem),
        ("union U { 1 };", 10, Rule::UnionField),
        ("union U;", 7, Rule::LBrace),
        ("interface I { M; };", 15, Rule::LParen),
        ("interface I { M(1); };", 16, Rule::Parameter),
        ("interface I { M(int32 a b); };", 24, Rule::RParen),
        ("const array<int8 a = 1;", 17, Rule::RAngleBracket),
        ("const array a = 1;", 12, Rule::LAngleBracket),
        ("const array<int8, x> a = 1;", 18, Rule::Integer),
        ("const map<int8 int8> a = 1;", 15, Rule::Comma),
        ("const associated & a = 1;", 17, Rule::Identifier),
        ("[Attr=] module a;", 6, Rule::Literal),
        ("[Attr module a;", 6, Rule::RBracket),
        ("[1] module a;", 1, Rule::Attribute),
        ("42", 0, Rule::Statement),
        ("[A] 42", 4, Rule::Statement),
    ];
    for (input, offset, rule) in cases {
        let err = parse(input).unwrap_err();
        assert_eq!((offset, rule), (err.offset, err.expected), "input: {}", input);
    }
}

#[test]
fn rule_names_are_readable() {
    assert_eq!("'End of File'", rule_name(Rule::EndOfInput));
    assert_eq!("statement", rule_name(Rule::Statement));
    assert_eq!("','", rule_name(Rule::Comma));
    assert_eq!("';'", rule_name(Rule::Semicolon));
    assert_eq!("'='", rule_name(Rule::Equal));
    assert_eq!("'=>'", rule_name(Rule::Arrow));
    assert_eq!("'('", rule_name(Rule::LParen));
    assert_eq!("')'", rule_name(Rule::RParen));
    assert_eq!("'{'", rule_name(Rule::LBrace));
    assert_eq!("'}'", rule_name(Rule::RBrace));
    assert_eq!("'<'", rule_name(Rule::LAngleBracket));
    assert_eq!("'>'", rule_name(Rule::RAngleBracket));
    assert_eq!("'['", rule_name(Rule::LBracket));
    assert_eq!("']'", rule_name(Rule::RBracket));
    assert_eq!("module", rule_name(Rule::Module));
    assert_eq!("interface", rule_name(Rule::Interface));
    assert_eq!("struct", rule_name(Rule::Struct));
    assert_eq!("union", rule_name(Rule::Union));
    assert_eq!("const", rule_name(Rule::Const));
    assert_eq!("array", rule_name(Rule::Array));
    assert_eq!("map", rule_name(Rule::MapOf));
}

#[test]
fn keywords_are_whole_words() {
    let input = "interface I { const_cast(); enumerate(); };";
    let file = parse(input).unwrap();
    match &file.stmts[0] {
        Statement::Interface(i) => assert_eq!(2, i.members.len()),
        _ => panic!("expected an interface"),
    }
    let t = typespec("arrays").unwrap();
    assert_eq!(TypeName::BasicTypeName("arrays".to_owned()), t.name);
}

#[test]
fn typespec_reads_nested_types_and_reports_errors() {
    let t = typespec("map<string, array<handle<data_pipe_consumer>?, 4>>?").unwrap();
    assert!(t.is_nullable);
    match t.name {
        TypeName::MapOf(key, value) => {
            assert_eq!("string", key);
            assert!(!value.is_nullable);
            match value.name {
                TypeName::FixedArray(elem, size) => {
                    assert_eq!(4, size);
                    assert!(elem.is_nullable);
                    assert_eq!(
                        TypeName::Handle(Some("data_pipe_consumer".to_owned())),
                        elem.name
                    );
                }
                _ => panic!("expected a fixed array"),
            }
        }
        _ => panic!("expected a map"),
    }
    let t = typespec("foo.Bar rest").unwrap();
    assert_eq!(TypeName::BasicTypeName("foo.Bar".to_owned()), t.name);

    let err = typespec(" bool").unwrap_err();
    assert_eq!((0, Rule::TypeSpec), (err.offset, err.expected));
    let err = typespec("array<int8, 18446744073709551616>").unwrap_err();
    assert_eq!((12, Rule::Integer), (err.offset, err.expected));
    let t = typespec("array<int8, 18446744073709551615>").unwrap();
    match t.name {
        TypeName::FixedArray(_, size) => assert_eq!(u64::MAX, size),
        _ => panic!("expected a fixed array"),
    }
    let err = typespec("handle<>").unwrap_err();
    assert_eq!((7, Rule::Name), (err.offset, err.expected));
}

#[test]
fn line_col_is_zero_based_and_counts_characters() {
    let text = "ab\nc\u{e9}d\n";
    assert_eq!(Some(LineCol { line: 0, col: 0 }), line_col(text, 0));
    assert_eq!(Some(LineCol { line: 0, col: 2 }), line_col(text, 2));
    assert_eq!(Some(LineCol { line: 1, col: 0 }), line_col(text, 3));
    assert_eq!(Some(LineCol { line: 1, col: 1 }), line_col(text, 4));
    assert_eq!(None, line_col(text, 5));
    assert_eq!(Some(LineCol { line: 1, col: 2 }), line_col(text, 6));
    assert_eq!(Some(LineCol { line: 2, col: 0 }), line_col(text, 8));
    assert_eq!(None, line_col(text, 9));
}

#[test]
fn the_walk_enters_and_leaves_in_source_order() {
    let input = "module m; struct S { const int8 a = 1; int8 f; }; interface I { M(); enum E {}; }; union U {}; import \"x\";";
    let file = parse(input).unwrap();
    let mut walk = preorder(&file);
    let mut seen = Vec::new();
    while let Some(t) = walk.next() {
        seen.push(match t {
            Traversal::EnterMojomFile(_) => "enter file",
            Traversal::LeaveMojomFile(_) => "leave file",
            Traversal::EnterInterface(_) => "enter interface",
            Traversal::LeaveInterface(_) => "leave interface",
            Traversal::EnterStruct(_) => "enter struct",
            Traversal::LeaveStruct(_) => "leave struct",
            Traversal::Module(_) => "module",
            Traversal::Import(_) => "import",
            Traversal::Method(_) => "method",
            Traversal::Union(_) => "union",
            Traversal::Enum(_) => "enum",
            Traversal::Const(_) => "const",
            Traversal::StructField(_) => "field",
        });
    }
    assert_eq!(
        vec![
            "enter file",
            "module",
            "enter struct",
            "const",
            "field",
            "leave struct",
            "enter interface",
            "method",
            "enum",
            "leave interface",
            "union",
            "import",
            "leave file",
        ],
        seen
    );
    assert!(walk.next().is_none());
}

#[test]
fn every_module_after_the_first_is_reported() {
    let text = "module a; module b;";
    let file = parse(text).unwrap();
    let analysis = check_semantics(text, &file);
    assert_eq!("a", text_of(text, &analysis.module.unwrap().name));
    assert_eq!(1, analysis.diagnostics.len());
    let d = &analysis.diagnostics[0];
    assert_eq!(position(0, 17), d.range.start);
    assert_eq!(position(0, 18), d.range.end);
    assert_eq!(DiagnosticSeverity::Error, d.severity);
    assert_eq!("mojom", d.code);
    assert_eq!("mojom-lsp", d.source);
    assert_eq!("Found more than one module statement: a and b", d.message);

    let text = "module a;\nmodule b.c;\nenum E;\nmodule d;";
    let file = parse(text).unwrap();
    let analysis = check_semantics(text, &file);
    assert_eq!("a", text_of(text, &analysis.module.unwrap().name));
    assert_eq!(2, analysis.diagnostics.len());
    assert_eq!(position(1, 7), analysis.diagnostics[0].range.start);
    assert_eq!(position(1, 10), analysis.diagnostics[0].range.end);
    assert_eq!(
        "Found more than one module statement: a and b.c",
        analysis.diagnostics[0].message
    );
    assert_eq!(position(3, 7), analysis.diagnostics[1].range.start);
    assert_eq!(
        "Found more than one module statement: a and d",
        analysis.diagnostics[1].message
    );

    let text = "enum E;";
    let file = parse(text).unwrap();
    let analysis = check_semantics(text, &file);
    assert!(analysis.module.is_none());
    assert!(analysis.diagnostics.is_empty());
}

#[test]
fn a_syntax_error_is_published_and_then_cleared() {
    let uri = "file:///foo.mojom";
    let mut analyzer = Analyzer::new();
    let published = analyzer.check_syntax(uri.to_owned(), "interface Foo { ;".to_owned());
    assert_eq!(1, published.len());
    assert_eq!(position(0, 16), published[0].range.start);
    assert_eq!(position(0, 16), published[0].range.end);
    assert_eq!(DiagnosticSeverity::Error, published[0].severity);
    assert_eq!("mojom", published[0].code);
    assert_eq!("mojom-lsp", published[0].source);
    assert!(analyzer.ast().is_none());
    assert_eq!(None, analyzer.find_definition(&position(0, 11)));

    let published = analyzer.check_syntax(uri.to_owned(), "interface Foo {};".to_owned());
    assert!(published.is_empty());
    assert!(analyzer.is_same_uri(&uri.to_owned()));
    assert!(!analyzer.is_same_uri(&"file:///bar.mojom".to_owned()));
}

#[test]
fn a_repeated_check_gives_the_same() {
    let uri = "file:///foo.mojom";
    let text = "module a; module b; struct S {};";
    let mut analyzer = Analyzer::new();
    let first = analyzer.check_syntax(uri.to_owned(), text.to_owned());
    let tree = analyzer.ast().unwrap().mojom.clone();
    let second = analyzer.check_syntax(uri.to_owned(), text.to_owned());
    assert_eq!(first, second);
    assert_eq!(tree, analyzer.ast().unwrap().mojom);
}

#[test]
fn a_definition_is_found_in_the_document() {
    let text = "module a;\ninterface Foo { DoIt() => (); };\nstruct Bar { Foo foo_field; };";
    let uri = "file:///doc.mojom";
    let mut analyzer = Analyzer::new();
    assert!(analyzer.check_syntax(uri.to_owned(), text.to_owned()).is_empty());
    let loc = analyzer.find_definition(&position(2, 14)).unwrap();
    assert_eq!(uri, loc.uri);
    assert_eq!(position(1, 10), loc.range.start);
    assert_eq!(position(1, 13), loc.range.end);
    // The cursor may stand at either end of the identifier.
    assert_eq!(Some(loc.clone()), analyzer.find_definition(&position(2, 13)));
    assert_eq!(Some(loc), analyzer.find_definition(&position(2, 16)));
    // A method is not a definition, nor is a field.
    assert_eq!(None, analyzer.find_definition(&position(1, 17)));
    assert_eq!(None, analyzer.find_definition(&position(2, 20)));
    // A position outside the text finds nothing.
    assert_eq!(None, analyzer.find_definition(&position(7, 0)));
    assert_eq!(None, analyzer.find_definition(&position(2, 200)));
}

#[test]
fn a_qualified_definition_is_found() {
    let text = "struct S { enum E { K }; };\nconst S.E kDefault = 0;";
    let mut analyzer = Analyzer::new();
    assert!(analyzer.check_syntax("file:///q.mojom".to_owned(), text.to_owned()).is_empty());
    let loc = analyzer.find_definition(&position(1, 7)).unwrap();
    assert_eq!(position(0, 16), loc.range.start);
    assert_eq!(position(0, 17), loc.range.end);
    let ast = analyzer.ast().unwrap();
    let names: Vec<String> = import_definitions(ast)
        .iter()
        .map(|d| String::from_utf8(d.ident.clone()).unwrap())
        .collect();
    assert_eq!(vec!["S", "S.E", "kDefault"], names);
}

#[test]
fn a_definition_is_found_in_an_imported_file() {
    let a_uri = "file:///root/a.mojom";
    let a_text = "module x; struct S {};";
    let b_text = "import \"a.mojom\"; interface I { DoIt(S s) => (); Other(x.S s); Gone(T t); };";
    let mut analyzer = Analyzer::new();
    assert!(analyzer.check_syntax("file:///root/b.mojom".to_owned(), b_text.to_owned()).is_empty());
    assert_eq!(vec!["a.mojom"], analyzer.import_paths());
    assert_eq!(vec!["a.mojom"], import_paths(analyzer.ast().unwrap()));
    assert_eq!(None, analyzer.find_definition(&position(0, 37)));

    let imported = parse_imported(a_uri.to_owned(), a_text.to_owned());
    let missing = Err(import_error(true, "no such file".to_owned()));
    analyzer.check_imported_files(ImportedFiles::new(vec![missing, imported]));

    let loc = analyzer.find_definition(&position(0, 37)).unwrap();
    assert_eq!(a_uri, loc.uri);
    assert_eq!(position(0, 17), loc.range.start);
    assert_eq!(position(0, 18), loc.range.end);
    assert_eq!(Some(loc), analyzer.find_definition(&position(0, 57)));
    assert_eq!(None, analyzer.find_definition(&position(0, 69)));
}

#[test]
fn import_errors_are_told_apart() {
    assert_eq!(ImportError::NotFound("gone".to_owned()), import_error(true, "gone".to_owned()));
    assert_eq!(ImportError::IoError("denied".to_owned()), import_error(false, "denied".to_owned()));
    assert_eq!(
        Err(ImportError::SyntaxError("expected ';'".to_owned())),
        parse_imported("file:///a.mojom".to_owned(), "module a".to_owned())
    );
    let file = parse_imported(
        "file:///a.mojom".to_owned(),
        "interface I { enum E {}; const int8 kC = 1; M(); };\nunion U {};\nenum G;\nconst int8 kT = 2;".to_owned(),
    )
    .unwrap();
    assert!(file.module_name.is_none());
    let names: Vec<&[u8]> = file.definitions.iter().map(|d| d.ident.as_slice()).collect();
    let expected: Vec<&[u8]> = vec![b"I", b"I.E", b"I.kC", b"U", b"G", b"kT"];
    assert_eq!(expected, names);
    assert_eq!(position(1, 6), file.definitions[3].range.start);
    assert_eq!(position(1, 7), file.definitions[3].range.end);
}

#[test]
fn the_cursor_is_translated_to_an_offset() {
    let text = b"ab\r\ncd\n\nef";
    assert_eq!(Some(0), get_offset_from_position(text, &position(0, 0)));
    assert_eq!(Some(2), get_offset_from_position(text, &position(0, 2)));
    // A carriage return before the line feed is not counted.
    assert_eq!(Some(3), get_offset_from_position(text, &position(1, 0)));
    assert_eq!(Some(6), get_offset_from_position(text, &position(2, 0)));
    assert_eq!(Some(7), get_offset_from_position(text, &position(3, 0)));
    assert_eq!(Some(10), get_offset_from_position(text, &position(3, 3)));
    assert_eq!(None, get_offset_from_position(text, &position(3, 4)));
    // The last line counts one more than its length, line feed or not.
    assert_eq!(Some(10), get_offset_from_position(text, &position(4, 0)));
    assert_eq!(None, get_offset_from_position(text, &position(4, 1)));
    assert_eq!(Some(10), get_offset_from_position(text, &position(9, 0)));
    assert_eq!(Some(0), get_offset_from_position(b"", &position(9, 0)));
    assert_eq!(None, get_offset_from_position(b"", &position(0, 1)));
}

#[test]
fn the_identifier_under_the_cursor_takes_in_dots() {
    let text = b"foo(bar.Baz_1 x);";
    assert_eq!(Some(&b"bar.Baz_1"[..]), get_identifier(text, &position(0, 8)));
    assert_eq!(Some(&b"bar.Baz_1"[..]), get_identifier(text, &position(0, 4)));
    assert_eq!(Some(&b"bar.Baz_1"[..]), get_identifier(text, &position(0, 13)));
    assert_eq!(Some(&b"foo"[..]), get_identifier(text, &position(0, 0)));
    assert_eq!(Some(&b""[..]), get_identifier(text, &position(0, 17)));
    assert_eq!(None, get_identifier(text, &position(0, 18)));
    assert!(is_identifier_char('a') && is_identifier_char('Z') && is_identifier_char('7'));
    assert!(is_identifier_char('_') && is_identifier_char('.'));
    assert!(!is_identifier_char('-') && !is_identifier_char(' ') && !is_identifier_char('\u{e9}'));
}

#[test]
fn header_blocks_are_read() {
    assert_eq!(
        23,
        read_header(b"content-length: 208\r\n\r\n{}").unwrap().1
    );
    let input = b"Content-Type: application/vscode-jsonrpc\r\n  CONTENT-LENGTH: +12  \r\n\r\nbody";
    let (header, start) = read_header(input).unwrap();
    assert_eq!(12, header.content_length);
    assert_eq!(b"body", &input[start..]);
    let (header, _) = read_header(b"Content-Length: 1\r\nContent-Length: 2\r\n\r\n").unwrap();
    assert_eq!(2, header.content_length);

    assert_eq!(Err(HeaderError::NoHeader), read_header(b""));
    assert_eq!(Err(HeaderError::NoHeader), read_header(b"Content-Length: 1\r\n"));
    assert_eq!(Err(HeaderError::NoContentLength), read_header(b"\r\n"));
    assert_eq!(Err(HeaderError::NoContentLength), read_header(b"A: b\r\n\r\n"));
    assert_eq!(Err(HeaderError::InvalidHeader), read_header(b"Content-Length:1\r\n\r\n"));
    assert_eq!(Err(HeaderError::InvalidHeader), read_header(b"A: b: c\r\n\r\n"));
    assert_eq!(Err(HeaderError::InvalidHeader), read_header(b"\n"));
    assert_eq!(Err(HeaderError::InvalidLength), read_header(b"Content-Length: x\r\n\r\n"));
    assert_eq!(Err(HeaderError::InvalidLength), read_header(b"Content-Length: -1\r\n\r\n"));
    assert_eq!(Err(HeaderError::InvalidLength), read_header(b"Content-Length: +\r\n\r\n"));
    assert_eq!(
        Err(HeaderError::InvalidLength),
        read_header(b"Content-Length: 340282366920938463463374607431768211456\r\n\r\n")
    );
}

#[test]
fn header_blocks_are_written() {
    assert_eq!("Content-Length: 0\r\n\r\n", write_header(0));
    assert_eq!("Content-Length: 208\r\n\r\n", write_header(208));
    assert_eq!("Content-Length: 1000\r\n\r\n", write_header(1000));
    let header = write_header(usize::MAX);
    let (read, consumed) = read_header(header.as_bytes()).unwrap();
    assert_eq!(usize::MAX, read.content_length);
    assert_eq!(header.len(), consumed);
}

#[test]
fn error_codes_have_their_numbers() {
    assert_eq!(-32700, ErrorCodes::ParseError.code());
    assert_eq!(-32600, ErrorCodes::InvalidRequest.code());
    assert_eq!(-32601, ErrorCodes::MethodNotFound.code());
    assert_eq!(-32602, ErrorCodes::InvalidParams.code());
    assert_eq!(-32603, ErrorCodes::InternalError.code());
    assert_eq!(-32099, ErrorCodes::ServerErrorStart.code());
    assert_eq!(-32000, ErrorCodes::ServerErrorEnd.code());
    assert_eq!(-32002, ErrorCodes::ServerNotInitialized.code());
    assert_eq!(-32001, ErrorCodes::UnknownErrorCode.code());
    assert_eq!(-32800, ErrorCodes::RequestCancelled.code());
    assert_eq!(-32801, ErrorCodes::ContentModified.code());
    let err = invalid_request("missing field `position`".to_owned());
    assert_eq!(-32600, err.code);
    assert_eq!("missing field `position`", err.message);
}

#[test]
fn messages_are_told_apart_by_their_members() {
    assert_eq!(Some(MessageKind::Request), classify(&request(1, "initialize")));
    assert_eq!(Some(MessageKind::Notification), classify(&notification("exit")));
    let mut response = Envelope { id: Some(1), method: None, has_result: true, has_error: false };
    assert_eq!(Some(MessageKind::Response), classify(&response));
    response.has_result = false;
    response.has_error = true;
    assert_eq!(Some(MessageKind::Response), classify(&response));
    response.has_error = false;
    assert_eq!(None, classify(&response));
    response.id = None;
    assert_eq!(None, classify(&response));
    let mut both = request(3, "shutdown");
    both.has_result = true;
    assert_eq!(Some(MessageKind::Request), classify(&both));
}

#[test]
fn the_handshake_and_a_clean_shutdown() {
    let caps = create_server_capabilities();
    assert_eq!(Some(true), caps.definition_provider);
    assert_eq!(Some(true), caps.declaration_provider);
    let sync = caps.text_document_sync.unwrap();
    assert_eq!(Some(true), sync.open_close);
    assert_eq!(Some(TextDocumentSyncKind::Full), sync.change);

    let (state, action) = initialize(Handshake::AwaitingInitialize, &request(1, "initialize")).unwrap();
    assert_eq!(Handshake::AwaitingInitialized, state);
    assert_eq!(HandshakeAction::SendCapabilities { id: 1, capabilities: caps }, action);
    let (state, action) = initialize(state, &notification("initialized")).unwrap();
    assert_eq!(Handshake::Done, state);
    assert_eq!(HandshakeAction::Proceed, action);

    let mut ctx = ServerContext::new();
    assert_eq!(State::Initialized, ctx.state);
    assert_eq!(RequestAction::SendNull, handle_request(&mut ctx, 2, "shutdown"));
    assert_eq!(State::ShuttingDown, ctx.state);
    assert_eq!(None, ctx.exit_code);
    assert_eq!(NotificationAction::Exit, handle_notification(&mut ctx, "exit"));
    assert_eq!(Some(0), ctx.exit_code);
}

#[test]
fn the_handshake_refuses_anything_else() {
    assert_eq!(
        Err(ServerError::ProtocolError("Expected initialize message but got shutdown".to_owned())),
        initialize(Handshake::AwaitingInitialize, &request(1, "shutdown"))
    );
    assert!(initialize(Handshake::AwaitingInitialize, &notification("initialize")).is_err());
    let response = Envelope { id: Some(1), method: None, has_result: true, has_error: false };
    assert_eq!(
        Err(ServerError::ProtocolError(
            "Expected initialize message but got a message without a method".to_owned()
        )),
        initialize(Handshake::AwaitingInitialize, &response)
    );
    assert_eq!(
        Err(ServerError::ProtocolError(
            "Expected initialized message but got initialize".to_owned()
        )),
        initialize(Handshake::AwaitingInitialized, &request(1, "initialize"))
    );
    assert!(initialize(Handshake::AwaitingInitialized, &request(1, "initialized")).is_err());
    assert!(initialize(Handshake::Done, &notification("initialized")).is_err());
    assert_eq!(
        ServerError::ProtocolError("Invalid json message: EOF".to_owned()),
        ServerError::from_json("EOF")
    );
}

#[test]
fn requests_are_routed() {
    let mut ctx = ServerContext::new();
    match handle_request(&mut ctx, 7, "initialize") {
        RequestAction::SendError(e) => {
            assert_eq!(-32002, e.code);
            assert_eq!("Unexpected initialize message", e.message);
        }
        other => panic!("unexpected action {:?}", other),
    }
    assert_eq!(RequestAction::GotoDefinition, handle_request(&mut ctx, 8, "textDocument/definition"));
    match handle_request(&mut ctx, 90, "textDocument/hover") {
        RequestAction::SendError(e) => {
            assert_eq!(-32603, e.code);
            assert_eq!("Unimplemented request: id = 90 method = textDocument/hover", e.message);
        }
        other => panic!("unexpected action {:?}", other),
    }
    assert_eq!(ServerContext { state: State::Initialized, exit_code: None }, ctx);
    // An exit that comes as a request is taken as the notification.
    assert_eq!(RequestAction::NoReply, handle_request(&mut ctx, 9, "exit"));
    assert_eq!(Some(1), ctx.exit_code);
}

#[test]
fn notifications_are_routed() {
    let mut ctx = ServerContext::new();
    assert_eq!(NotificationAction::DidOpen, handle_notification(&mut ctx, "textDocument/didOpen"));
    assert_eq!(NotificationAction::DidChange, handle_notification(&mut ctx, "textDocument/didChange"));
    for method in ["workspace/didChangeConfiguration", "textDocument/willSave", "textDocument/didSave"] {
        assert_eq!(NotificationAction::Ignored, handle_notification(&mut ctx, method));
    }
    assert_eq!(NotificationAction::Unknown, handle_notification(&mut ctx, "$/cancelRequest"));
    assert_eq!(None, ctx.exit_code);
    assert_eq!(NotificationAction::Exit, handle_notification(&mut ctx, "exit"));
    assert_eq!(Some(1), ctx.exit_code);
}

#[test]
fn changes_are_joined_into_the_text() {
    let changes = vec!["module a;".to_owned(), "".to_owned(), "\nenum E;".to_owned()];
    assert_eq!("module a;\nenum E;", did_change_text_document(&changes));
    assert_eq!("", did_change_text_document(&Vec::new()));
}

#[test]
fn the_workspace_root_is_the_nearest_chromium_src() {
    let dir = |name: Option<&str>, gclient: bool| DirProbe {
        file_name: name.map(|n| n.to_owned()),
        parent_has_gclient: gclient,
    };
    assert!(is_chromium_src_dir(&dir(Some("src"), true)));
    assert!(!is_chromium_src_dir(&dir(Some("src"), false)));
    assert!(!is_chromium_src_dir(&dir(Some("source"), true)));
    assert!(!is_chromium_src_dir(&dir(None, true)));
    let ancestors = vec![
        dir(Some("mojom"), false),
        dir(Some("src"), false),
        dir(Some("src"), true),
        dir(Some("src"), true),
        dir(None, false),
    ];
    assert_eq!(2, find_chromium_src_dir(&ancestors));
    assert_eq!(0, find_chromium_src_dir(&vec![dir(Some("a"), true), dir(None, false)]));
    assert_eq!(0, find_chromium_src_dir(&Vec::new()));
    assert_eq!("/u", get_root_path(Some("/u".to_owned()), Some("/p".to_owned())));
    assert_eq!("/p", get_root_path(None, Some("/p".to_owned())));
    assert_eq!("", get_root_path(None, None));
}
