use mavir::parse::strip_package_text;
use mavir::parse_source;
use mavir::ParseError;

#[test]
fn package_text_is_stripped_of_keyword_and_terminator() {
    assert_eq!(strip_package_text("package com.example;").unwrap(), "com.example");
    assert_eq!(strip_package_text("package a;").unwrap(), "a");
    assert_eq!(strip_package_text("package com.example"), None);
    assert_eq!(strip_package_text("pkg com.example;"), None);
    assert_eq!(strip_package_text("package "), None);
}

#[test]
fn parse_top_level_marked_type() {
    let source = r#"package com.example;

import java.util.List;

@AutoValue public abstract class Point {
    public abstract int x();
    public abstract int y();
}
"#;
    let result = parse_source(source).unwrap();
    assert_eq!(result.package_name, "com.example");
    assert_eq!(result.import_statements, vec!["import java.util.List;"]);
    assert_eq!(result.class_declarations.len(), 1);
    let class = &result.class_declarations[0];
    assert_eq!(class.name, "Point");
    assert_eq!(class.modifiers, vec!["public"]);
    assert!(class.parent_chain.is_empty());
    assert_eq!(class.methods.len(), 2);
    assert_eq!(class.methods[0].name, "x");
    assert_eq!(class.methods[0].return_type, "int");
    assert!(!class.methods[0].is_nullable);
    assert_eq!(class.methods[1].name, "y");
    assert_eq!(class.methods[1].return_type, "int");
}

#[test]
fn parse_skips_types_without_marker() {
    let source = r#"package com.example;

public class Plain {
    public int twice(int v) { return v + v; }
}

@AutoValue
public abstract class Marked {
    public abstract String name();
}
"#;
    let result = parse_source(source).unwrap();
    assert_eq!(result.class_declarations.len(), 1);
    assert_eq!(result.class_declarations[0].name, "Marked");
}

#[test]
fn parse_file_with_no_marked_type_yields_no_entries() {
    let source = r#"package com.example;

public class Plain {
    public int one() { return 1; }
}
"#;
    let result = parse_source(source).unwrap();
    assert!(result.class_declarations.is_empty());
    assert_eq!(result.package_name, "com.example");
}

#[test]
fn parse_without_package_declaration_is_an_error() {
    let source = r#"
@AutoValue
public abstract class Point {
    public abstract int x();
}
"#;
    let err = parse_source(source).unwrap_err();
    assert!(matches!(err, ParseError::FileProcessingError(_)));
    assert_eq!(
        err.message(),
        "File processing error: Could not find package declaration"
    );
}

#[test]
fn parse_marked_type_with_no_eligible_accessor_is_an_error() {
    let source = r#"package com.example;

@AutoValue
public abstract class Hollow {
    public int concrete() { return 4; }
}
"#;
    let err = parse_source(source).unwrap_err();
    assert!(matches!(err, ParseError::FileProcessingError(_)));
    assert_eq!(
        err.message(),
        "File processing error: marked type has no eligible accessor method: Hollow"
    );
}

#[test]
fn parse_excludes_parameterized_and_concrete_methods() {
    let source = r#"package com.example;

@AutoValue
public abstract class Mixed {
    public abstract String kept();
    @Nullable
    public abstract String maybe();
    public abstract int compare(int other);
    public String concrete() { return "x"; }
}
"#;
    let result = parse_source(source).unwrap();
    let class = &result.class_declarations[0];
    assert_eq!(class.methods.len(), 2);
    assert_eq!(class.methods[0].name, "kept");
    assert!(!class.methods[0].is_nullable);
    assert_eq!(class.methods[1].name, "maybe");
    assert!(class.methods[1].is_nullable);
    assert!(class.methods[1].modifiers.contains(&"@Nullable".to_string()));
}

#[test]
fn parse_collects_enclosing_chain_outermost_first() {
    let source = r#"package com.example;

public class Outer {
    public class Middle {
        @AutoValue
        public abstract static class Inner {
            public abstract String name();
        }
    }
}
"#;
    let result = parse_source(source).unwrap();
    assert_eq!(result.class_declarations.len(), 1);
    let class = &result.class_declarations[0];
    assert_eq!(class.name, "Inner");
    assert_eq!(class.parent_chain, vec!["Outer", "Middle"]);
}

#[test]
fn parse_collects_imports_in_order() {
    let source = r#"package com.example;

import java.util.List;
import java.util.Map;
import static java.util.Objects.requireNonNull;

public class Plain {
}
"#;
    let result = parse_source(source).unwrap();
    assert_eq!(
        result.import_statements,
        vec![
            "import java.util.List;",
            "import java.util.Map;",
            "import static java.util.Objects.requireNonNull;",
        ]
    );
}

#[test]
fn class_modifiers_are_split_on_single_spaces() {
    // The retained access keyword must be its own space-separated token in
    // the modifier text: after a line break with no indentation it is glued
    // to the newline and dropped.
    let source = "package com.example;\n\n@AutoValue\npublic abstract class Bare {\n    public abstract int x();\n}\n";
    let result = parse_source(source).unwrap();
    assert_eq!(result.class_declarations[0].modifiers, Vec::<String>::new());

    // With indentation in front of the keyword the token is recovered.
    let source2 = "package com.example;\n\nclass Holder {\n    @AutoValue\n    public abstract static class Kept {\n        public abstract int x();\n    }\n}\n";
    let result2 = parse_source(source2).unwrap();
    assert_eq!(result2.class_declarations[0].modifiers, vec!["public"]);
}

#[test]
fn error_messages_name_their_context() {
    assert_eq!(
        ParseError::CannotReadFile("a/b.java".to_string()).message(),
        "Could not read file: a/b.java"
    );
    assert_eq!(
        ParseError::FileNotParsableAsJava.message(),
        "File is not parsable as Java code"
    );
    assert_eq!(
        ParseError::ParserInitializationError.message(),
        "Could not initialize parser for Java code (internal tool error)"
    );
}
