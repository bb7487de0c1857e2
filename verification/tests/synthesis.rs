use mavir::get_class_name;
use mavir::get_parent_class_name;
use mavir::is_primitive_type;
use mavir::java_primitive_types;
use mavir::template_constructor;
use mavir::template_equals;
use mavir::template_file_contents;
use mavir::template_getter;
use mavir::template_hashcode;
use mavir::template_instance_var_decls;
use mavir::template_to_string;
use mavir::ClassDeclarationState;
use mavir::MethodDeclarationState;
use mavir::StripMargin;

fn method(name: &str, return_type: &str) -> MethodDeclarationState {
    MethodDeclarationState {
        name: name.to_string(),
        return_type: return_type.to_string(),
        modifiers: vec!["public".to_string(), "abstract".to_string()],
        is_nullable: false,
    }
}

fn nullable_method(name: &str, return_type: &str) -> MethodDeclarationState {
    MethodDeclarationState {
        name: name.to_string(),
        return_type: return_type.to_string(),
        modifiers: vec![
            "@Nullable".to_string(),
            "public".to_string(),
            "abstract".to_string(),
        ],
        is_nullable: true,
    }
}

fn point_class() -> ClassDeclarationState {
    ClassDeclarationState {
        name: "Point".to_string(),
        methods: vec![method("x", "int"), method("y", "int")],
        parent_chain: vec![],
        modifiers: vec!["public".to_string()],
    }
}

/// One accessor of every hashing and equality flavour.
fn sample_class() -> ClassDeclarationState {
    ClassDeclarationState {
        name: "Sample".to_string(),
        methods: vec![
            method("d", "double"),
            method("f", "float"),
            method("l", "long"),
            method("b", "boolean"),
            method("i", "int"),
            method("s", "String"),
            nullable_method("ns", "String"),
        ],
        parent_chain: vec![],
        modifiers: vec!["public".to_string()],
    }
}

#[test]
fn primitive_type_set() {
    let names = java_primitive_types();
    assert_eq!(
        names,
        vec!["boolean", "byte", "short", "int", "long", "float", "double", "char"]
    );
    for name in names {
        assert!(is_primitive_type(name));
    }
    assert!(!is_primitive_type("String"));
    assert!(!is_primitive_type("Integer"));
    assert!(!is_primitive_type("int[]"));
    assert!(!is_primitive_type(""));
}

#[test]
fn strip_margin_drops_margins_and_keeps_plain_lines() {
    assert_eq!("hello\n  |world".strip_margin(), "hello\nworld");
    assert_eq!("  |a\n\t|b\n  c".strip_margin(), "a\nb\n  c");
    assert_eq!("   ".strip_margin(), "   ");
    assert_eq!("  #x\n  |y".strip_margin_with('#'), "x\n  |y");
}

#[test]
fn class_name_for_top_level_type() {
    assert_eq!(get_class_name(&point_class()), "AutoValue_Point");
    assert_eq!(get_parent_class_name(&point_class()), "Point");
}

#[test]
fn class_name_for_nested_type() {
    let inner = ClassDeclarationState {
        name: "Inner".to_string(),
        methods: vec![method("name", "String")],
        parent_chain: vec!["Outer".to_string(), "Middle".to_string()],
        modifiers: vec!["public".to_string()],
    };
    assert_eq!(get_class_name(&inner), "AutoValue_Outer_Middle_Inner");
    assert_eq!(get_parent_class_name(&inner), "Outer.Middle.Inner");
}

#[test]
fn instance_var_declarations() {
    assert_eq!(
        template_instance_var_decls(&method("x", "int")),
        "private final int x;"
    );
    assert_eq!(
        template_instance_var_decls(&nullable_method("ns", "String")),
        "@Nullable private final String ns;"
    );
}

#[test]
fn getter_keeps_modifiers_except_abstract() {
    assert_eq!(
        template_getter(&method("x", "int")),
        "\n    @Override\n    public int x() {\n        return this.x;\n    }\n"
    );
    assert_eq!(
        template_getter(&nullable_method("ns", "String")),
        "\n    @Override\n    @Nullable public String ns() {\n        return this.ns;\n    }\n"
    );
}

#[test]
fn constructor_parameters_in_declaration_order() {
    let expected = "\n    AutoValue_Sample(\n            double d,\n            float f,\n            long l,\n            boolean b,\n            int i,\n            String s,\n            @Nullable String ns) {\n        this.d = d;\n        this.f = f;\n        this.l = l;\n        this.b = b;\n        this.i = i;\n\n        if (s == null) {\n            throw new NullPointerException(\"Null s\");\n        }\n        this.s = s;\n\n        this.ns = ns;\n    }\n";
    assert_eq!(template_constructor("AutoValue_Sample", &sample_class()), expected);
    // One parameter per accessor: primitives and the nullable reference are
    // assigned unconditionally; only the non-nullable reference is checked.
    assert_eq!(expected.matches("NullPointerException").count(), 1);
}

#[test]
fn equals_branches_per_return_type() {
    let expected = "\n    @Override\n    public boolean equals(Object o) {\n        if (o == this) {\n            return true;\n        }\n        if (o instanceof Sample) {\n            Sample that = (Sample) o;\n            return Double.doubleToLongBits(this.d) == Double.doubleToLongBits(that.d())\n                && Float.floatToIntBits(this.f) == Float.floatToIntBits(that.f())\n                && this.l == that.l()\n                && this.b == that.b()\n                && this.i == that.i()\n                && (this.s.equals(that.s()))\n                && (this.ns == null? that.ns() == null : this.ns.equals(that.ns()));\n        }\n        return false;\n    }\n";
    assert_eq!(template_equals("Sample", &sample_class()), expected);
    // The floating accessors compare bit patterns, never plain `==` on the value.
    assert!(!expected.contains("this.d == that.d()"));
    assert!(!expected.contains("this.f == that.f()"));
}

#[test]
fn hashcode_folds_per_return_type() {
    let expected = "\n    @Override\n    public int hashCode() {\n        int h$ = 1;\n        h$ *= 1000003;\n        h$ ^= (int) ((Double.doubleToLongBits(d) >>> 32) ^ Double.doubleToLongBits(d));\n        h$ *= 1000003;\n        h$ ^= Float.floatToIntBits(f);\n        h$ *= 1000003;\n        h$ ^= (int) ((l >>> 32) ^ l);\n        h$ *= 1000003;\n        h$ ^= b ? 1231 : 1237;\n        h$ *= 1000003;\n        h$ ^= this.i;\n        h$ *= 1000003;\n        h$ ^= this.s.hashCode();\n        h$ *= 1000003;\n        h$ ^= this.ns == null ? 0 : this.ns.hashCode();\n        return h$;\n    }\n";
    assert_eq!(template_hashcode(&sample_class()), expected);
}

#[test]
fn to_string_uses_simple_name_and_accessor_order() {
    let expected = "\n    @Override\n    public String toString() {\n        return \"Inner{\"\n            + \"name=\" + this.name\n            + \"}\";\n    }\n";
    let inner = ClassDeclarationState {
        name: "Inner".to_string(),
        methods: vec![method("name", "String")],
        parent_chain: vec!["Outer".to_string(), "Middle".to_string()],
        modifiers: vec!["public".to_string()],
    };
    assert_eq!(template_to_string("Outer.Middle.Inner", &inner), expected);
    let expected_sample = "\n    @Override\n    public String toString() {\n        return \"Sample{\"\n            + \"d=\" + this.d + \", \"\n            + \"f=\" + this.f + \", \"\n            + \"l=\" + this.l + \", \"\n            + \"b=\" + this.b + \", \"\n            + \"i=\" + this.i + \", \"\n            + \"s=\" + this.s + \", \"\n            + \"ns=\" + this.ns\n            + \"}\";\n    }\n";
    assert_eq!(template_to_string("Sample", &sample_class()), expected_sample);
}

#[test]
fn example_scenario_full_file() {
    let imports = vec!["import java.util.List;".to_string()];
    let class = point_class();
    let class_name = get_class_name(&class);
    let parent = get_parent_class_name(&class);
    let text = template_file_contents(&class_name, &parent, "com.example", &imports, &class);
    let expected = "package com.example;\n\nimport java.util.List;\n\nfinal public class AutoValue_Point extends Point {\n    private final int x;\n    private final int y;\n    \n    AutoValue_Point(\n            int x,\n            int y) {\n        this.x = x;\n        this.y = y;\n    }\n\n    \n    @Override\n    public int x() {\n        return this.x;\n    }\n\n\n    @Override\n    public int y() {\n        return this.y;\n    }\n\n    \n    @Override\n    public String toString() {\n        return \"Point{\"\n            + \"x=\" + this.x + \", \"\n            + \"y=\" + this.y\n            + \"}\";\n    }\n\n    \n    @Override\n    public boolean equals(Object o) {\n        if (o == this) {\n            return true;\n        }\n        if (o instanceof Point) {\n            Point that = (Point) o;\n            return this.x == that.x()\n                && this.y == that.y();\n        }\n        return false;\n    }\n\n    \n    @Override\n    public int hashCode() {\n        int h$ = 1;\n        h$ *= 1000003;\n        h$ ^= this.x;\n        h$ *= 1000003;\n        h$ ^= this.y;\n        return h$;\n    }\n\n}\n";
    assert_eq!(text, expected);
    // Both accessors are primitive: the constructor performs no null check,
    // equals compares the two integers with `==`, and hashCode folds them
    // directly.
    assert!(!text.contains("NullPointerException"));
}

#[test]
fn synthesis_is_deterministic() {
    let imports = vec!["import java.util.List;".to_string()];
    let class = sample_class();
    let class_name = get_class_name(&class);
    let parent = get_parent_class_name(&class);
    let first = template_file_contents(&class_name, &parent, "com.x", &imports, &class);
    let second = template_file_contents(&class_name, &parent, "com.x", &imports, &class);
    assert_eq!(first, second);
}
