use std::io::Cursor;
use std::io::Read;

use mavir::archive_entries;
use mavir::generate_code;
use mavir::parse_source;
use mavir::validate_output_path;
use mavir::ClassDeclarationState;
use mavir::GenerateError;
use mavir::MethodDeclarationState;
use mavir::ParseResult;

fn method(name: &str, return_type: &str) -> MethodDeclarationState {
    MethodDeclarationState {
        name: name.to_string(),
        return_type: return_type.to_string(),
        modifiers: vec!["public".to_string(), "abstract".to_string()],
        is_nullable: false,
    }
}

fn point_result() -> ParseResult {
    ParseResult {
        package_name: "com.example".to_string(),
        import_statements: vec!["import java.util.List;".to_string()],
        class_declarations: vec![ClassDeclarationState {
            name: "Point".to_string(),
            methods: vec![method("x", "int"), method("y", "int")],
            parent_chain: vec![],
            modifiers: vec!["public".to_string()],
        }],
    }
}

#[test]
fn output_path_extension_is_checked() {
    assert!(validate_output_path("out.jar").is_ok());
    assert!(validate_output_path("deep/path/out.srcjar").is_ok());
    let err = validate_output_path("out.zip").unwrap_err();
    match err {
        GenerateError::InvalidOutputPath(_) => {}
        other => panic!("unexpected error: {:?}", other),
    }
    assert_eq!(
        err.message(),
        "Invalid output path: Output path must end in '.jar' or '.srcjar'. Got: out.zip"
    );
}

#[test]
fn generate_error_messages_name_their_kind() {
    assert_eq!(
        GenerateError::IoError("disk full".to_string()).message(),
        "IO Error: disk full"
    );
    assert_eq!(
        GenerateError::ZipError("bad entry".to_string()).message(),
        "Zip Error: bad entry"
    );
}

#[test]
fn generate_code_rejects_bad_extension() {
    let err = generate_code(vec![point_result()], "out.txt").unwrap_err();
    assert!(matches!(err, GenerateError::InvalidOutputPath(_)));
}

#[test]
fn archive_entry_order_and_directory_dedup() {
    let mut result = point_result();
    result.class_declarations.push(ClassDeclarationState {
        name: "Line".to_string(),
        methods: vec![method("len", "int")],
        parent_chain: vec![],
        modifiers: vec!["public".to_string()],
    });
    let entries = archive_entries(&vec![result]).unwrap();
    let listing: Vec<(String, bool)> = entries
        .iter()
        .map(|e| (e.path.clone(), e.is_dir))
        .collect();
    assert_eq!(
        listing,
        vec![
            ("META-INF".to_string(), true),
            ("META-INF/MANIFEST.MF".to_string(), false),
            ("com".to_string(), true),
            ("com/example".to_string(), true),
            ("com/example/AutoValue_Point.java".to_string(), false),
            ("com/example/AutoValue_Line.java".to_string(), false),
        ]
    );
    assert_eq!(
        entries[1].content,
        "Manifest-Version: 1.0\nCreated-By: mavir\n"
    );
}

#[test]
fn colliding_entry_paths_are_an_error() {
    let err = generate_code(vec![point_result(), point_result()], "out.jar").unwrap_err();
    match err {
        GenerateError::ZipError(msg) => {
            assert_eq!(
                msg,
                "duplicate archive entry path: com/example/AutoValue_Point.java"
            );
        }
        other => panic!("unexpected error: {:?}", other),
    }
}

#[test]
fn archive_with_no_marked_types_holds_only_the_manifest() {
    let source = "package com.example;\n\npublic class Plain {\n    public int one() { return 1; }\n}\n";
    let result = parse_source(source).unwrap();
    let bytes = generate_code(vec![result], "empty.jar").unwrap();
    let mut archive = zip::ZipArchive::new(Cursor::new(bytes)).unwrap();
    assert_eq!(archive.len(), 2);
    let names: Vec<String> = (0..archive.len())
        .map(|i| archive.by_index(i).unwrap().name().to_string())
        .collect();
    assert_eq!(names, vec!["META-INF/", "META-INF/MANIFEST.MF"]);
}

#[test]
fn round_trip_packaging() {
    let source = "package com.example;\n\nimport java.util.List;\n\n@AutoValue public abstract class Point {\n    public abstract int x();\n    public abstract int y();\n}\n";
    let result = parse_source(source).unwrap();
    let bytes = generate_code(vec![result], "points.srcjar").unwrap();

    let mut archive = zip::ZipArchive::new(Cursor::new(bytes)).unwrap();
    let mut manifest = String::new();
    archive
        .by_name("META-INF/MANIFEST.MF")
        .unwrap()
        .read_to_string(&mut manifest)
        .unwrap();
    assert_eq!(manifest, "Manifest-Version: 1.0\nCreated-By: mavir\n");

    let mut generated = String::new();
    archive
        .by_name("com/example/AutoValue_Point.java")
        .unwrap()
        .read_to_string(&mut generated)
        .unwrap();
    let expected = "package com.example;\n\nimport java.util.List;\n\nfinal public class AutoValue_Point extends Point {\n    private final int x;\n    private final int y;\n    \n    AutoValue_Point(\n            int x,\n            int y) {\n        this.x = x;\n        this.y = y;\n    }\n\n    \n    @Override\n    public int x() {\n        return this.x;\n    }\n\n\n    @Override\n    public int y() {\n        return this.y;\n    }\n\n    \n    @Override\n    public String toString() {\n        return \"Point{\"\n            + \"x=\" + this.x + \", \"\n            + \"y=\" + this.y\n            + \"}\";\n    }\n\n    \n    @Override\n    public boolean equals(Object o) {\n        if (o == this) {\n            return true;\n        }\n        if (o instanceof Point) {\n            Point that = (Point) o;\n            return this.x == that.x()\n                && this.y == that.y();\n        }\n        return false;\n    }\n\n    \n    @Override\n    public int hashCode() {\n        int h$ = 1;\n        h$ *= 1000003;\n        h$ ^= this.x;\n        h$ *= 1000003;\n        h$ ^= this.y;\n        return h$;\n    }\n\n}\n";
    assert_eq!(generated, expected);
}

#[test]
fn generated_bytes_are_reproducible() {
    let bytes1 = generate_code(vec![point_result()], "a.jar").unwrap();
    let bytes2 = generate_code(vec![point_result()], "b.srcjar").unwrap();
    assert_eq!(bytes1, bytes2);
}

#[test]
fn nested_class_is_packaged_under_its_package_path() {
    let result = ParseResult {
        package_name: "com.deep".to_string(),
        import_statements: vec![],
        class_declarations: vec![ClassDeclarationState {
            name: "Inner".to_string(),
            methods: vec![method("name", "String")],
            parent_chain: vec!["Outer".to_string(), "Middle".to_string()],
            modifiers: vec!["public".to_string()],
        }],
    };
    let bytes = generate_code(vec![result], "nested.jar").unwrap();
    let mut archive = zip::ZipArchive::new(Cursor::new(bytes)).unwrap();
    let mut generated = String::new();
    archive
        .by_name("com/deep/AutoValue_Outer_Middle_Inner.java")
        .unwrap()
        .read_to_string(&mut generated)
        .unwrap();
    assert!(generated.contains("class AutoValue_Outer_Middle_Inner extends Outer.Middle.Inner {"));
    assert!(generated.contains("if (name == null) {"));
}
