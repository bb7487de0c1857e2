use mavir::has_autovalue_annotation;

fn java_parser() -> tree_sitter::Parser {
    let mut parser = tree_sitter::Parser::new();
    parser
        .set_language(&tree_sitter::Language::new(tree_sitter_java::LANGUAGE))
        .unwrap();
    parser
}

#[test]
fn find_annotation_when_only_one_present() {
    let mut parser = java_parser();

    let source_code = r#"
            @AutoValue
            public abstract class TestClass {
                public abstract String getName();
            }
            "#;
    let tree = parser.parse(source_code, None).unwrap();
    assert!(has_autovalue_annotation(
        // The root node is a 'program' node, so the first child is the 'class_declaration'
        tree.root_node().child(0).unwrap(),
        source_code,
        "TestClass"
    ));
}

#[test]
fn test_annotation_when_multiple_present() {
    let mut parser = java_parser();

    let source_code = r#"
            @AutoValue
            @SomeOtherAnnotation
            public abstract class TestClass {
                public abstract String getName();
            }
            "#;
    let tree = parser.parse(source_code, None).unwrap();
    assert!(has_autovalue_annotation(
        // The root node is a 'program' node, so the first child is the 'class_declaration'
        tree.root_node().child(0).unwrap(),
        source_code,
        "TestClass"
    ));

    let source_code = r#"
            @SomeOtherAnnotation
            @AutoValue
            public abstract class TestClass {
                public abstract String getName();
            }
            "#;
    let tree = parser.parse(source_code, None).unwrap();
    assert!(has_autovalue_annotation(
        // The root node is a 'program' node, so the first child is the 'class_declaration'
        tree.root_node().child(0).unwrap(),
        source_code,
        "TestClass"
    ));
}

#[test]
fn annotation_check_with_foreign_source_text_is_harmless() {
    // A caller may pair a node with text other than the text that was
    // parsed; node byte ranges that fall outside it must read as empty
    // rather than fail, so the check simply finds no marker.
    let mut parser = java_parser();
    let source_code = r#"
            @AutoValue
            public abstract class TestClass {
                public abstract String getName();
            }
            "#;
    let tree = parser.parse(source_code, None).unwrap();
    let node = tree.root_node().child(0).unwrap();
    assert!(!has_autovalue_annotation(node, "short", "TestClass"));
    assert!(!has_autovalue_annotation(node, "", "TestClass"));
}

#[test]
fn test_annotation_when_not_present() {
    let mut parser = java_parser();

    let source_code = r#"
            public abstract class TestClass {
                public abstract String getName();
            }
            "#;
    let tree = parser.parse(source_code, None).unwrap();
    assert!(!has_autovalue_annotation(
        // The root node is a 'program' node, so the first child is the 'class_declaration'
        tree.root_node().child(0).unwrap(),
        source_code,
        "TestClass"
    ));
}

#[test]
fn test_annotation_when_not_present_other_annotations_present() {
    let mut parser = java_parser();

    let source_code = r#"
            @SomeOtherAnnotation
            public abstract class TestClass {
                public abstract String getName();
            }
            "#;
    let tree = parser.parse(source_code, None).unwrap();
    assert!(!has_autovalue_annotation(
        // The root node is a 'program' node, so the first child is the 'class_declaration'
        tree.root_node().child(0).unwrap(),
        source_code,
        "TestClass"
    ));
}
