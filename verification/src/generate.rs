use vstd::prelude::*;
use vstd::string::*;
use crate::parse::ClassDeclarationState;
use crate::parse::MethodDeclarationState;
use crate::parse::ParseResult;
use crate::strings::spec_join;
use crate::strings::spec_last_segment;
use crate::strings::spec_split;
use crate::strings::join_strings;
use crate::strings::last_dot_segment;
use crate::strings::split_char;
use crate::strings::str_ends_with;
use crate::strings::str_eq;
use crate::strings::vec_contains_str;
use crate::strings::views;
use crate::util::is_primitive_type;
use crate::util::spec_is_primitive;
use crate::ziputil::spec_entry_key;
use crate::ziputil::spec_entry_keys;
use crate::ziputil::zip_add_directory;
use crate::ziputil::zip_encoding;
use crate::ziputil::zip_finish;
use crate::ziputil::zip_start_file;
use crate::ziputil::zip_write_text;
use crate::ziputil::zip_writer_new;
use crate::ziputil::zw_entry_log;
use crate::ziputil::zw_ok;

verus! {

/// The ways assembling and packaging generated code can fail.
#[derive(Debug)]
pub enum GenerateError {
    /// The output path has a bad extension or no usable parent directory.
    InvalidOutputPath(String),
    /// A filesystem failure while writing the finished archive.
    IoError(String),
    /// A failure while building the archive, or a duplicate entry path.
    ZipError(String),
}

impl GenerateError {
    /// A human-readable description of the error.
    pub fn message(&self) -> (r: String)
        ensures
            (self matches GenerateError::InvalidOutputPath(p) ==> r@ == "Invalid output path: "@
                + p@),
            (self matches GenerateError::IoError(m) ==> r@ == "IO Error: "@ + m@),
            (self matches GenerateError::ZipError(m) ==> r@ == "Zip Error: "@ + m@),
    {
        match self {
            GenerateError::InvalidOutputPath(p) => {
                let mut s = String::from_str("Invalid output path: ");
                s.append(p.as_str());
                s
            },
            GenerateError::IoError(m) => {
                let mut s = String::from_str("IO Error: ");
                s.append(m.as_str());
                s
            },
            GenerateError::ZipError(m) => {
                let mut s = String::from_str("Zip Error: ");
                s.append(m.as_str());
                s
            },
        }
    }
}

/// The name of the synthesized companion class: the fixed tag, then the
/// enclosing chain (outermost first) and the simple name joined with `_`.
pub open spec fn spec_synthesized_name(c: ClassDeclarationState) -> Seq<char> {
    "AutoValue_"@ + spec_join(views(c.parent_chain@).push(c.name@), "_"@)
}

/// The qualified name of the annotated supertype: the enclosing chain and
/// the simple name joined with `.`.
pub open spec fn spec_qualified_parent(c: ClassDeclarationState) -> Seq<char> {
    spec_join(views(c.parent_chain@).push(c.name@), "."@)
}

/// The enclosing chain and the simple name of `class`, cloned in order:
/// the operand list for both name derivations.
fn chain_with_name(class: &ClassDeclarationState) -> (r: Vec<String>)
    ensures
        views(r@) == views(class.parent_chain@).push(class.name@),
{
    let mut parts: Vec<String> = Vec::new();
    let n = class.parent_chain.len();
    let mut i: usize = 0;
    while i < n
        invariant
            i <= n,
            n == class.parent_chain@.len(),
            views(parts@) == views(class.parent_chain@).take(i as int),
        decreases n - i,
    {
        let ghost old_parts = parts@;
        parts.push(class.parent_chain[i].clone());
        proof {
            let cv = views(class.parent_chain@);
            assert(views(parts@) =~= views(old_parts).push(cv[i as int]));
            assert(cv.take(i + 1) =~= cv.take(i as int).push(cv[i as int]));
        }
        i += 1;
    }
    proof {
        assert(views(class.parent_chain@).take(n as int) =~= views(class.parent_chain@));
    }
    let ghost old_parts = parts@;
    parts.push(class.name.clone());
    proof {
        assert(views(parts@) =~= views(old_parts).push(class.name@));
    }
    parts
}

/// Derives the synthesized companion-class name for `class`.
pub fn get_class_name(class: &ClassDeclarationState) -> (r: String)
    ensures
        r@ == spec_synthesized_name(*class),
{
    let parts = chain_with_name(class);
    let joined = join_strings(&parts, "_");
    let mut r = String::from_str("AutoValue_");
    r.append(joined.as_str());
    r
}

/// Derives the qualified supertype name for `class`.
pub fn get_parent_class_name(class: &ClassDeclarationState) -> (r: String)
    ensures
        r@ == spec_qualified_parent(*class),
{
    let parts = chain_with_name(class);
    join_strings(&parts, ".")
}

/// The nullability annotation prefix of an accessor, when it carries one.
pub open spec fn spec_nullable_ann(m: MethodDeclarationState) -> Seq<char> {
    if m.is_nullable {
        "@Nullable "@
    } else {
        Seq::<char>::empty()
    }
}

/// One field declaration: `private final <type> <name>;`, with the
/// nullability annotation in front when the accessor carries one.
pub open spec fn spec_instance_var(m: MethodDeclarationState) -> Seq<char> {
    spec_nullable_ann(m) + "private final "@ + m.return_type@ + " "@ + m.name@ + ";"@
}

/// Renders the field declaration for one accessor.
pub fn template_instance_var_decls(method: &MethodDeclarationState) -> (r: String)
    ensures
        r@ == spec_instance_var(*method),
{
    let mut s = if method.is_nullable {
        String::from_str("@Nullable ")
    } else {
        String::new()
    };
    s.append("private final ");
    s.append(method.return_type.as_str());
    s.append(" ");
    s.append(method.name.as_str());
    s.append(";");
    proof {
        assert(s@ =~= spec_instance_var(*method));
    }
    s
}

/// One accessor override: the original modifiers except `abstract`, the
/// return type, and a body returning the stored field.
pub open spec fn spec_getter(m: MethodDeclarationState) -> Seq<char> {
    "\n    @Override\n    "@ + spec_join(
        views(m.modifiers@).filter(|t: Seq<char>| t != "abstract"@),
        " "@,
    ) + " "@ + m.return_type@ + " "@ + m.name@ + "() {\n        return this."@ + m.name@
        + ";\n    }\n"@
}

/// Renders the accessor override for one accessor.
pub fn template_getter(method: &MethodDeclarationState) -> (r: String)
    ensures
        r@ == spec_getter(*method),
{
    let ghost mv = views(method.modifiers@);
    let mut kept: Vec<String> = Vec::new();
    let n = method.modifiers.len();
    let mut i: usize = 0;
    proof {
        assert(mv.take(0) =~= Seq::<Seq<char>>::empty());
        reveal(Seq::filter);
    }
    while i < n
        invariant
            i <= n,
            n == method.modifiers@.len(),
            mv == views(method.modifiers@),
            views(kept@) == mv.take(i as int).filter(|t: Seq<char>| t != "abstract"@),
        decreases n - i,
    {
        proof {
            reveal(Seq::filter);
            assert(mv.take(i + 1).drop_last() =~= mv.take(i as int));
            assert(mv.take(i + 1).last() == mv[i as int]);
        }
        if !str_eq(method.modifiers[i].as_str(), "abstract") {
            let ghost old_kept = kept@;
            kept.push(method.modifiers[i].clone());
            proof {
                assert(views(kept@) =~= views(old_kept).push(mv[i as int]));
            }
        }
        i += 1;
    }
    proof {
        assert(mv.take(n as int) =~= mv);
    }
    let joined = join_strings(&kept, " ");
    let mut s = String::from_str("\n    @Override\n    ");
    s.append(joined.as_str());
    s.append(" ");
    s.append(method.return_type.as_str());
    s.append(" ");
    s.append(method.name.as_str());
    s.append("() {\n        return this.");
    s.append(method.name.as_str());
    s.append(";\n    }\n");
    proof {
        assert(s@ =~= spec_getter(*method));
    }
    s
}

/// One constructor parameter: the nullability annotation when present, the
/// return type, and the field name.
pub open spec fn spec_param(m: MethodDeclarationState) -> Seq<char> {
    spec_nullable_ann(m) + m.return_type@ + " "@ + m.name@
}

/// The constructor parameter texts of every accessor, in order.
pub open spec fn spec_params_list(methods: Seq<MethodDeclarationState>) -> Seq<Seq<char>> {
    methods.map_values(|m: MethodDeclarationState| spec_param(m))
}

/// One constructor body statement: a plain assignment for primitive or
/// nullable accessors, and a null check raising `NullPointerException`
/// before the assignment for every other accessor.
pub open spec fn spec_assign(m: MethodDeclarationState) -> Seq<char> {
    if spec_is_primitive(m.return_type@) || m.is_nullable {
        "        this."@ + m.name@ + " = "@ + m.name@ + ";"@
    } else {
        "\n        if ("@ + m.name@ + " == null) {\n            throw new NullPointerException(\"Null "@
            + m.name@ + "\");\n        }\n        this."@ + m.name@ + " = "@ + m.name@ + ";\n"@
    }
}

/// The constructor body statements of every accessor, in order.
pub open spec fn spec_assigns_list(methods: Seq<MethodDeclarationState>) -> Seq<Seq<char>> {
    methods.map_values(|m: MethodDeclarationState| spec_assign(m))
}

/// The synthesized constructor: one parameter and one assignment per
/// accessor, in accessor order.
pub open spec fn spec_constructor(cname: Seq<char>, c: ClassDeclarationState) -> Seq<char> {
    "\n    "@ + cname + "(\n            "@ + spec_join(spec_params_list(c.methods@), ",\n            "@)
        + ") {\n"@ + spec_join(spec_assigns_list(c.methods@), "\n"@) + "\n    }\n"@
}

fn constructor_param(m: &MethodDeclarationState) -> (r: String)
    ensures
        r@ == spec_param(*m),
{
    let mut s = if m.is_nullable {
        String::from_str("@Nullable ")
    } else {
        String::new()
    };
    s.append(m.return_type.as_str());
    s.append(" ");
    s.append(m.name.as_str());
    proof {
        assert(s@ =~= spec_param(*m));
    }
    s
}

fn constructor_assignment(m: &MethodDeclarationState) -> (r: String)
    ensures
        r@ == spec_assign(*m),
{
    if is_primitive_type(m.return_type.as_str()) || m.is_nullable {
        let mut s = String::from_str("        this.");
        s.append(m.name.as_str());
        s.append(" = ");
        s.append(m.name.as_str());
        s.append(";");
        proof {
            assert(s@ =~= spec_assign(*m));
        }
        s
    } else {
        let mut s = String::from_str("\n        if (");
        s.append(m.name.as_str());
        s.append(" == null) {\n            throw new NullPointerException(\"Null ");
        s.append(m.name.as_str());
        s.append("\");\n        }\n        this.");
        s.append(m.name.as_str());
        s.append(" = ");
        s.append(m.name.as_str());
        s.append(";\n");
        proof {
            assert(s@ =~= spec_assign(*m));
        }
        s
    }
}

/// Renders the synthesized constructor for `class` under the synthesized
/// name `class_name`.
pub fn template_constructor(class_name: &str, class: &ClassDeclarationState) -> (r: String)
    ensures
        r@ == spec_constructor(class_name@, *class),
{
    let ghost ms = class.methods@;
    let n = class.methods.len();

    let mut params: Vec<String> = Vec::new();
    let mut i: usize = 0;
    while i < n
        invariant
            i <= n,
            n == class.methods@.len(),
            ms == class.methods@,
            views(params@) == spec_params_list(ms.take(i as int)),
        decreases n - i,
    {
        let ghost old_params = params@;
        params.push(constructor_param(&class.methods[i]));
        proof {
            assert(views(params@) =~= views(old_params).push(spec_param(ms[i as int])));
            assert(views(params@) =~= spec_params_list(ms.take(i + 1)));
        }
        i += 1;
    }

    let mut assigns: Vec<String> = Vec::new();
    let mut j: usize = 0;
    while j < n
        invariant
            j <= n,
            n == class.methods@.len(),
            ms == class.methods@,
            views(assigns@) == spec_assigns_list(ms.take(j as int)),
        decreases n - j,
    {
        let ghost old_assigns = assigns@;
        assigns.push(constructor_assignment(&class.methods[j]));
        proof {
            assert(views(assigns@) =~= views(old_assigns).push(spec_assign(ms[j as int])));
            assert(views(assigns@) =~= spec_assigns_list(ms.take(j + 1)));
        }
        j += 1;
    }
    proof {
        assert(ms.take(n as int) =~= ms);
    }

    let params_joined = join_strings(&params, ",\n            ");
    let assigns_joined = join_strings(&assigns, "\n");
    let mut s = String::from_str("\n    ");
    s.append(class_name);
    s.append("(\n            ");
    s.append(params_joined.as_str());
    s.append(") {\n");
    s.append(assigns_joined.as_str());
    s.append("\n    }\n");
    proof {
        assert(s@ =~= spec_constructor(class_name@, *class));
    }
    s
}

/// One `toString` operand: the field name, `=`, and the field read.
pub open spec fn spec_tostring_part(m: MethodDeclarationState) -> Seq<char> {
    "\""@ + m.name@ + "=\" + this."@ + m.name@
}

/// The `toString` operands of every accessor, in order.
pub open spec fn spec_tostring_parts_list(methods: Seq<MethodDeclarationState>) -> Seq<Seq<char>> {
    methods.map_values(|m: MethodDeclarationState| spec_tostring_part(m))
}

/// The `toString` override: the simple (unqualified) type name, then each
/// field in accessor order.
pub open spec fn spec_to_string(cname: Seq<char>, c: ClassDeclarationState) -> Seq<char> {
    "\n    @Override\n    public String toString() {\n        return \""@ + spec_last_segment(cname)
        + "{\"\n            + "@ + spec_join(spec_tostring_parts_list(c.methods@), " + \", \"\n            + "@)
        + "\n            + \"}\";\n    }\n"@
}

/// Renders the `toString` override; `class_name` is the qualified supertype
/// name, of which only the innermost segment is printed.
pub fn template_to_string(class_name: &str, class: &ClassDeclarationState) -> (r: String)
    ensures
        r@ == spec_to_string(class_name@, *class),
{
    let simple = last_dot_segment(class_name);
    let ghost ms = class.methods@;
    let n = class.methods.len();
    let mut parts: Vec<String> = Vec::new();
    let mut i: usize = 0;
    while i < n
        invariant
            i <= n,
            n == class.methods@.len(),
            ms == class.methods@,
            views(parts@) == spec_tostring_parts_list(ms.take(i as int)),
        decreases n - i,
    {
        let m = &class.methods[i];
        let mut p = String::from_str("\"");
        p.append(m.name.as_str());
        p.append("=\" + this.");
        p.append(m.name.as_str());
        let ghost old_parts = parts@;
        let ghost pv = p@;
        parts.push(p);
        proof {
            assert(pv =~= spec_tostring_part(ms[i as int]));
            assert(views(parts@) =~= views(old_parts).push(spec_tostring_part(ms[i as int])));
            assert(views(parts@) =~= spec_tostring_parts_list(ms.take(i + 1)));
        }
        i += 1;
    }
    proof {
        assert(ms.take(n as int) =~= ms);
    }
    let joined = join_strings(&parts, " + \", \"\n            + ");
    let mut s = String::from_str("\n    @Override\n    public String toString() {\n        return \"");
    s.append(simple.as_str());
    s.append("{\"\n            + ");
    s.append(joined.as_str());
    s.append("\n            + \"}\";\n    }\n");
    proof {
        assert(s@ =~= spec_to_string(class_name@, *class));
    }
    s
}

/// One `equals` conjunct. Floating types compare via their integer bit
/// patterns, other primitives with `==`, nullable references null-safely,
/// and non-nullable references with a direct `equals` call.
pub open spec fn spec_equals_check(m: MethodDeclarationState) -> Seq<char> {
    if m.return_type@ == "double"@ {
        "Double.doubleToLongBits(this."@ + m.name@ + ") == Double.doubleToLongBits(that."@ + m.name@
            + "())"@
    } else if m.return_type@ == "float"@ {
        "Float.floatToIntBits(this."@ + m.name@ + ") == Float.floatToIntBits(that."@ + m.name@
            + "())"@
    } else if spec_is_primitive(m.return_type@) {
        "this."@ + m.name@ + " == that."@ + m.name@ + "()"@
    } else {
        "("@ + (if m.is_nullable {
            "this."@ + m.name@ + " == null? that."@ + m.name@ + "() == null : "@
        } else {
            Seq::<char>::empty()
        }) + "this."@ + m.name@ + ".equals(that."@ + m.name@ + "()))"@
    }
}

/// The `equals` conjuncts of every accessor, in order.
pub open spec fn spec_equals_checks_list(methods: Seq<MethodDeclarationState>) -> Seq<Seq<char>> {
    methods.map_values(|m: MethodDeclarationState| spec_equals_check(m))
}

/// The `equals` override: an identity short-circuit, a type check against
/// the qualified supertype, then the per-field conjunction in accessor order.
pub open spec fn spec_equals(pcn: Seq<char>, c: ClassDeclarationState) -> Seq<char> {
    "\n    @Override\n    public boolean equals(Object o) {\n        if (o == this) {\n            return true;\n        }\n        if (o instanceof "@
        + pcn + ") {\n            "@ + pcn + " that = ("@ + pcn + ") o;\n            return "@
        + spec_join(spec_equals_checks_list(c.methods@), "\n                && "@)
        + ";\n        }\n        return false;\n    }\n"@
}

fn equals_check(m: &MethodDeclarationState) -> (r: String)
    ensures
        r@ == spec_equals_check(*m),
{
    if str_eq(m.return_type.as_str(), "double") {
        let mut s = String::from_str("Double.doubleToLongBits(this.");
        s.append(m.name.as_str());
        s.append(") == Double.doubleToLongBits(that.");
        s.append(m.name.as_str());
        s.append("())");
        proof {
            assert(s@ =~= spec_equals_check(*m));
        }
        s
    } else if str_eq(m.return_type.as_str(), "float") {
        let mut s = String::from_str("Float.floatToIntBits(this.");
        s.append(m.name.as_str());
        s.append(") == Float.floatToIntBits(that.");
        s.append(m.name.as_str());
        s.append("())");
        proof {
            assert(s@ =~= spec_equals_check(*m));
        }
        s
    } else if is_primitive_type(m.return_type.as_str()) {
        let mut s = String::from_str("this.");
        s.append(m.name.as_str());
        s.append(" == that.");
        s.append(m.name.as_str());
        s.append("()");
        proof {
            assert(s@ =~= spec_equals_check(*m));
        }
        s
    } else {
        let mut s = String::from_str("(");
        if m.is_nullable {
            s.append("this.");
            s.append(m.name.as_str());
            s.append(" == null? that.");
            s.append(m.name.as_str());
            s.append("() == null : ");
        }
        s.append("this.");
        s.append(m.name.as_str());
        s.append(".equals(that.");
        s.append(m.name.as_str());
        s.append("()))");
        proof {
            assert(s@ =~= spec_equals_check(*m));
        }
        s
    }
}

/// Renders the `equals` override; `parent_class_name` is the qualified
/// supertype name used for the type check and the cast.
pub fn template_equals(parent_class_name: &str, class: &ClassDeclarationState) -> (r: String)
    ensures
        r@ == spec_equals(parent_class_name@, *class),
{
    let ghost ms = class.methods@;
    let n = class.methods.len();
    let mut checks: Vec<String> = Vec::new();
    let mut i: usize = 0;
    while i < n
        invariant
            i <= n,
            n == class.methods@.len(),
            ms == class.methods@,
            views(checks@) == spec_equals_checks_list(ms.take(i as int)),
        decreases n - i,
    {
        let ghost old_checks = checks@;
        checks.push(equals_check(&class.methods[i]));
        proof {
            assert(views(checks@) =~= views(old_checks).push(spec_equals_check(ms[i as int])));
            assert(views(checks@) =~= spec_equals_checks_list(ms.take(i + 1)));
        }
        i += 1;
    }
    proof {
        assert(ms.take(n as int) =~= ms);
    }
    let joined = join_strings(&checks, "\n                && ");
    let mut s = String::from_str(
        "\n    @Override\n    public boolean equals(Object o) {\n        if (o == this) {\n            return true;\n        }\n        if (o instanceof ",
    );
    s.append(parent_class_name);
    s.append(") {\n            ");
    s.append(parent_class_name);
    s.append(" that = (");
    s.append(parent_class_name);
    s.append(") o;\n            return ");
    s.append(joined.as_str());
    s.append(";\n        }\n        return false;\n    }\n");
    proof {
        assert(s@ =~= spec_equals(parent_class_name@, *class));
    }
    s
}

/// One `hashCode` step: the fixed multiplier, then the per-field fold.
/// 64-bit values fold their high and low halves, booleans fold to one of
/// two fixed sentinels, floating types fold their bit patterns, other
/// primitives fold their raw value, and references fold their structural
/// hash (0 for a null nullable field).
pub open spec fn spec_hash_line(m: MethodDeclarationState) -> Seq<char> {
    "h$ *= 1000003;\n        "@ + (if m.return_type@ == "long"@ {
        "h$ ^= (int) (("@ + m.name@ + " >>> 32) ^ "@ + m.name@ + ");"@
    } else if m.return_type@ == "boolean"@ {
        "h$ ^= "@ + m.name@ + " ? 1231 : 1237;"@
    } else if m.return_type@ == "double"@ {
        "h$ ^= (int) ((Double.doubleToLongBits("@ + m.name@ + ") >>> 32) ^ Double.doubleToLongBits("@
            + m.name@ + "));"@
    } else if m.return_type@ == "float"@ {
        "h$ ^= Float.floatToIntBits("@ + m.name@ + ");"@
    } else if spec_is_primitive(m.return_type@) {
        "h$ ^= this."@ + m.name@ + ";"@
    } else {
        "h$ ^= "@ + (if m.is_nullable {
            "this."@ + m.name@ + " == null ? 0 : "@
        } else {
            Seq::<char>::empty()
        }) + "this."@ + m.name@ + ".hashCode();"@
    })
}

/// The `hashCode` steps of every accessor, in order.
pub open spec fn spec_hash_lines_list(methods: Seq<MethodDeclarationState>) -> Seq<Seq<char>> {
    methods.map_values(|m: MethodDeclarationState| spec_hash_line(m))
}

/// The `hashCode` override: seed 1, then one multiply-and-fold step per
/// accessor in order.
pub open spec fn spec_hashcode(c: ClassDeclarationState) -> Seq<char> {
    "\n    @Override\n    public int hashCode() {\n        int h$ = 1;\n        "@ + spec_join(
        spec_hash_lines_list(c.methods@),
        "\n        "@,
    ) + "\n        return h$;\n    }\n"@
}

fn hash_line(m: &MethodDeclarationState) -> (r: String)
    ensures
        r@ == spec_hash_line(*m),
{
    let mut s = String::from_str("h$ *= 1000003;\n        ");
    if str_eq(m.return_type.as_str(), "long") {
        s.append("h$ ^= (int) ((");
        s.append(m.name.as_str());
        s.append(" >>> 32) ^ ");
        s.append(m.name.as_str());
        s.append(");");
    } else if str_eq(m.return_type.as_str(), "boolean") {
        s.append("h$ ^= ");
        s.append(m.name.as_str());
        s.append(" ? 1231 : 1237;");
    } else if str_eq(m.return_type.as_str(), "double") {
        s.append("h$ ^= (int) ((Double.doubleToLongBits(");
        s.append(m.name.as_str());
        s.append(") >>> 32) ^ Double.doubleToLongBits(");
        s.append(m.name.as_str());
        s.append("));");
    } else if str_eq(m.return_type.as_str(), "float") {
        s.append("h$ ^= Float.floatToIntBits(");
        s.append(m.name.as_str());
        s.append(");");
    } else if is_primitive_type(m.return_type.as_str()) {
        s.append("h$ ^= this.");
        s.append(m.name.as_str());
        s.append(";");
    } else {
        s.append("h$ ^= ");
        if m.is_nullable {
            s.append("this.");
            s.append(m.name.as_str());
            s.append(" == null ? 0 : ");
        }
        s.append("this.");
        s.append(m.name.as_str());
        s.append(".hashCode();");
    }
    proof {
        assert(s@ =~= spec_hash_line(*m));
    }
    s
}

/// Renders the `hashCode` override for `class`.
pub fn template_hashcode(class: &ClassDeclarationState) -> (r: String)
    ensures
        r@ == spec_hashcode(*class),
{
    let ghost ms = class.methods@;
    let n = class.methods.len();
    let mut lines: Vec<String> = Vec::new();
    let mut i: usize = 0;
    while i < n
        invariant
            i <= n,
            n == class.methods@.len(),
            ms == class.methods@,
            views(lines@) == spec_hash_lines_list(ms.take(i as int)),
        decreases n - i,
    {
        let ghost old_lines = lines@;
        lines.push(hash_line(&class.methods[i]));
        proof {
            assert(views(lines@) =~= views(old_lines).push(spec_hash_line(ms[i as int])));
            assert(views(lines@) =~= spec_hash_lines_list(ms.take(i + 1)));
        }
        i += 1;
    }
    proof {
        assert(ms.take(n as int) =~= ms);
    }
    let joined = join_strings(&lines, "\n        ");
    let mut s = String::from_str("\n    @Override\n    public int hashCode() {\n        int h$ = 1;\n        ");
    s.append(joined.as_str());
    s.append("\n        return h$;\n    }\n");
    proof {
        assert(s@ =~= spec_hashcode(*class));
    }
    s
}

/// The field declarations of every accessor, in order.
pub open spec fn spec_instance_vars_list(methods: Seq<MethodDeclarationState>) -> Seq<Seq<char>> {
    methods.map_values(|m: MethodDeclarationState| spec_instance_var(m))
}

/// The accessor overrides of every accessor, in order.
pub open spec fn spec_getters_list(methods: Seq<MethodDeclarationState>) -> Seq<Seq<char>> {
    methods.map_values(|m: MethodDeclarationState| spec_getter(m))
}

/// One complete companion-class source text, in fixed order: package
/// statement, verbatim imports, type header, field declarations, validated
/// constructor, accessor overrides, `toString`, `equals`, `hashCode`.
/// Opaque so that reasoning about entry lists need not carry the template.
#[verifier::opaque]
pub open spec fn spec_file_contents(
    cname: Seq<char>,
    pcn: Seq<char>,
    pkg: Seq<char>,
    imports: Seq<Seq<char>>,
    c: ClassDeclarationState,
) -> Seq<char> {
    "package "@ + pkg + ";\n\n"@ + spec_join(imports, "\n"@) + "\n\nfinal "@ + spec_join(
        views(c.modifiers@),
        " "@,
    ) + " class "@ + cname + " extends "@ + pcn + " {\n    "@ + spec_join(
        spec_instance_vars_list(c.methods@),
        "\n    "@,
    ) + "\n    "@ + spec_constructor(cname, c) + "\n    "@ + spec_join(
        spec_getters_list(c.methods@),
        "\n"@,
    ) + "\n    "@ + spec_to_string(pcn, c) + "\n    "@ + spec_equals(pcn, c) + "\n    "@
        + spec_hashcode(c) + "\n}\n"@
}

/// Renders one complete companion-class source text.
pub fn template_file_contents(
    class_name: &str,
    parent_class_name: &str,
    package_name: &str,
    import_statements: &Vec<String>,
    class: &ClassDeclarationState,
) -> (r: String)
    ensures
        r@ == spec_file_contents(
            class_name@,
            parent_class_name@,
            package_name@,
            views(import_statements@),
            *class,
        ),
{
    let ghost ms = class.methods@;
    let n = class.methods.len();

    let mut ivars: Vec<String> = Vec::new();
    let mut i: usize = 0;
    while i < n
        invariant
            i <= n,
            n == class.methods@.len(),
            ms == class.methods@,
            views(ivars@) == spec_instance_vars_list(ms.take(i as int)),
        decreases n - i,
    {
        let ghost old_ivars = ivars@;
        ivars.push(template_instance_var_decls(&class.methods[i]));
        proof {
            assert(views(ivars@) =~= views(old_ivars).push(spec_instance_var(ms[i as int])));
            assert(views(ivars@) =~= spec_instance_vars_list(ms.take(i + 1)));
        }
        i += 1;
    }

    let mut getters: Vec<String> = Vec::new();
    let mut j: usize = 0;
    while j < n
        invariant
            j <= n,
            n == class.methods@.len(),
            ms == class.methods@,
            views(getters@) == spec_getters_list(ms.take(j as int)),
        decreases n - j,
    {
        let ghost old_getters = getters@;
        getters.push(template_getter(&class.methods[j]));
        proof {
            assert(views(getters@) =~= views(old_getters).push(spec_getter(ms[j as int])));
            assert(views(getters@) =~= spec_getters_list(ms.take(j + 1)));
        }
        j += 1;
    }
    proof {
        assert(ms.take(n as int) =~= ms);
    }

    let imports_joined = join_strings(import_statements, "\n");
    let modifiers_joined = join_strings(&class.modifiers, " ");
    let ivars_joined = join_strings(&ivars, "\n    ");
    let getters_joined = join_strings(&getters, "\n");
    let constructor = template_constructor(class_name, class);
    let to_string = template_to_string(parent_class_name, class);
    let equals = template_equals(parent_class_name, class);
    let hashcode = template_hashcode(class);

    let mut s = String::from_str("package ");
    s.append(package_name);
    s.append(";\n\n");
    s.append(imports_joined.as_str());
    s.append("\n\nfinal ");
    s.append(modifiers_joined.as_str());
    s.append(" class ");
    s.append(class_name);
    s.append(" extends ");
    s.append(parent_class_name);
    s.append(" {\n    ");
    s.append(ivars_joined.as_str());
    s.append("\n    ");
    s.append(constructor.as_str());
    s.append("\n    ");
    s.append(getters_joined.as_str());
    s.append("\n    ");
    s.append(to_string.as_str());
    s.append("\n    ");
    s.append(equals.as_str());
    s.append("\n    ");
    s.append(hashcode.as_str());
    s.append("\n}\n");
    proof {
        reveal(spec_file_contents);
        assert(s@ =~= spec_file_contents(
            class_name@,
            parent_class_name@,
            package_name@,
            views(import_statements@),
            *class,
        ));
    }
    s
}

/// The two fixed manifest header lines.
pub open spec fn spec_manifest_text() -> Seq<char> {
    "Manifest-Version: 1.0\nCreated-By: mavir\n"@
}

/// The archive's manifest directory entry.
pub open spec fn spec_manifest_dir_entry() -> (Seq<char>, bool, Seq<char>) {
    ("META-INF"@, true, Seq::<char>::empty())
}

/// The archive's manifest file entry, holding the two fixed header lines.
pub open spec fn spec_manifest_file_entry() -> (Seq<char>, bool, Seq<char>) {
    ("META-INF/MANIFEST.MF"@, false, spec_manifest_text())
}

/// The dotted package name's segments.
pub open spec fn spec_package_segments(pkg: Seq<char>) -> Seq<Seq<char>> {
    spec_split(pkg, '.')
}

/// The staged directory paths a package needs, outermost first: one
/// slash-joined prefix per package segment; none for an empty package.
pub open spec fn spec_package_prefixes(pkg: Seq<char>) -> Seq<Seq<char>> {
    if pkg.len() == 0 {
        Seq::empty()
    } else {
        Seq::new(
            spec_package_segments(pkg).len(),
            |k: int| spec_join(spec_package_segments(pkg).take(k + 1), "/"@),
        )
    }
}

/// The staged path of one companion source file: the package converted to
/// nested directories, then the synthesized class name with the source
/// extension.
pub open spec fn spec_class_file_path(pkg: Seq<char>, cname: Seq<char>) -> Seq<char> {
    if pkg.len() == 0 {
        cname + ".java"@
    } else {
        spec_join(spec_package_segments(pkg), "/"@) + "/"@ + cname + ".java"@
    }
}

/// Computes the staged directory paths of a package, outermost first.
fn package_prefixes(pkg: &str) -> (r: Vec<String>)
    ensures
        views(r@) == spec_package_prefixes(pkg@),
{
    let mut out: Vec<String> = Vec::new();
    if pkg.unicode_len() == 0 {
        proof {
            assert(views(out@) =~= spec_package_prefixes(pkg@));
        }
        return out;
    }
    let segs = split_char(pkg, '.');
    let ghost sv = views(segs@);
    let n = segs.len();
    let mut acc = segs[0].clone();
    out.push(acc.clone());
    proof {
        assert(sv.take(1) =~= seq![sv[0]]);
        assert(seq![sv[0]].len() == 1 && seq![sv[0]][0] == sv[0]);
        assert(spec_join(sv.take(1), "/"@) == sv[0]);
        assert(views(out@) =~= seq![sv[0]]);
    }
    let mut k: usize = 1;
    while k < n
        invariant
            1 <= k <= n,
            n == segs@.len(),
            sv == views(segs@),
            sv == spec_package_segments(pkg@),
            acc@ == spec_join(sv.take(k as int), "/"@),
            views(out@).len() == k,
            forall|j: int|
                0 <= j < k ==> views(out@)[j] == spec_join(sv.take(j + 1), "/"@),
        decreases n - k,
    {
        acc.append("/");
        acc.append(segs[k].as_str());
        proof {
            assert(sv.take(k + 1) =~= sv.take(k as int).push(sv[k as int]));
            crate::strings::lemma_join_push(sv.take(k as int), "/"@, sv[k as int]);
        }
        let ghost old_out = out@;
        out.push(acc.clone());
        proof {
            assert(views(out@) =~= views(old_out).push(acc@));
        }
        k += 1;
    }
    proof {
        assert(pkg@.len() > 0);
        assert(views(out@) =~= spec_package_prefixes(pkg@));
    }
    out
}

/// Computes the staged file path for one synthesized class.
fn class_file_path(pkg: &str, cname: &str) -> (r: String)
    ensures
        r@ == spec_class_file_path(pkg@, cname@),
{
    if pkg.unicode_len() == 0 {
        let mut s = String::from_str(cname);
        s.append(".java");
        s
    } else {
        let segs = split_char(pkg, '.');
        let mut s = join_strings(&segs, "/");
        s.append("/");
        s.append(cname);
        s.append(".java");
        s
    }
}

/// One entry of the staged tree: a relative path and, for a file, the text
/// written at it.
pub struct ArchiveEntry {
    pub path: String,
    pub is_dir: bool,
    pub content: String,
}

/// The (path, is-directory, text) view of one staged entry; a directory
/// entry carries no text.
pub open spec fn spec_entry_view(e: ArchiveEntry) -> (Seq<char>, bool, Seq<char>) {
    (
        e.path@,
        e.is_dir,
        if e.is_dir {
            Seq::<char>::empty()
        } else {
            e.content@
        },
    )
}

/// The views of a staged entry list.
pub open spec fn entries_view(es: Seq<ArchiveEntry>) -> Seq<(Seq<char>, bool, Seq<char>)> {
    es.map_values(|e: ArchiveEntry| spec_entry_view(e))
}

/// The file entry one class contributes: its staged path and its rendered
/// companion source text.
pub open spec fn spec_unit_item(
    pkg: Seq<char>,
    imports: Seq<Seq<char>>,
    c: ClassDeclarationState,
) -> (Seq<char>, bool, Seq<char>) {
    (
        spec_class_file_path(pkg, spec_synthesized_name(c)),
        false,
        spec_file_contents(spec_synthesized_name(c), spec_qualified_parent(c), pkg, imports, c),
    )
}

/// Adds, in order, a directory entry for each staged path not seen yet;
/// yields the new entries and the extended set of seen paths.
pub open spec fn spec_add_dirs(prefixes: Seq<Seq<char>>, seen: Seq<Seq<char>>) -> (
    Seq<(Seq<char>, bool, Seq<char>)>,
    Seq<Seq<char>>,
)
    decreases prefixes.len(),
{
    if prefixes.len() == 0 {
        (Seq::<(Seq<char>, bool, Seq<char>)>::empty(), seen)
    } else if seen.contains(prefixes[0]) {
        spec_add_dirs(prefixes.skip(1), seen)
    } else {
        let rec = spec_add_dirs(prefixes.skip(1), seen.push(prefixes[0]));
        (seq![(prefixes[0], true, Seq::<char>::empty())] + rec.0, rec.1)
    }
}

/// The entries one class contributes: its package directories not staged
/// yet, then its companion source file.
pub open spec fn spec_unit_entries(
    pkg: Seq<char>,
    imports: Seq<Seq<char>>,
    c: ClassDeclarationState,
    seen: Seq<Seq<char>>,
) -> (Seq<(Seq<char>, bool, Seq<char>)>, Seq<Seq<char>>) {
    let dirs = spec_add_dirs(spec_package_prefixes(pkg), seen);
    (dirs.0 + seq![spec_unit_item(pkg, imports, c)], dirs.1)
}

/// The entries the classes of one file contribute, in order.
pub open spec fn spec_classes_entries(
    pkg: Seq<char>,
    imports: Seq<Seq<char>>,
    cs: Seq<ClassDeclarationState>,
    seen: Seq<Seq<char>>,
) -> (Seq<(Seq<char>, bool, Seq<char>)>, Seq<Seq<char>>)
    decreases cs.len(),
{
    if cs.len() == 0 {
        (Seq::<(Seq<char>, bool, Seq<char>)>::empty(), seen)
    } else {
        let u = spec_unit_entries(pkg, imports, cs[0], seen);
        let rest = spec_classes_entries(pkg, imports, cs.skip(1), u.1);
        (u.0 + rest.0, rest.1)
    }
}

/// The entries every file contributes, in file order.
pub open spec fn spec_results_entries(rs: Seq<ParseResult>, seen: Seq<Seq<char>>) -> (
    Seq<(Seq<char>, bool, Seq<char>)>,
    Seq<Seq<char>>,
)
    decreases rs.len(),
{
    if rs.len() == 0 {
        (Seq::<(Seq<char>, bool, Seq<char>)>::empty(), seen)
    } else {
        let h = spec_classes_entries(
            rs[0].package_name@,
            views(rs[0].import_statements@),
            rs[0].class_declarations@,
            seen,
        );
        let rest = spec_results_entries(rs.skip(1), h.1);
        (h.0 + rest.0, rest.1)
    }
}

/// Every entry of the archive, in order: the manifest directory and its
/// manifest file, then, for each class of each file, the package directories
/// not staged yet followed by the companion source file.
pub open spec fn spec_archive_entries(rs: Seq<ParseResult>) -> Seq<(Seq<char>, bool, Seq<char>)> {
    seq![spec_manifest_dir_entry(), spec_manifest_file_entry()] + spec_results_entries(
        rs,
        seq!["META-INF"@],
    ).0
}

/// The companion file entries the classes of one parsed file contribute, in
/// order: for each class, its staged path and its rendered source text.
pub open spec fn spec_result_file_items(
    pkg: Seq<char>,
    imports: Seq<Seq<char>>,
    cs: Seq<ClassDeclarationState>,
) -> Seq<(Seq<char>, bool, Seq<char>)>
    decreases cs.len(),
{
    if cs.len() == 0 {
        Seq::empty()
    } else {
        seq![spec_unit_item(pkg, imports, cs[0])] + spec_result_file_items(
            pkg,
            imports,
            cs.skip(1),
        )
    }
}

/// The companion file entries of every class of every parsed file, in order.
pub open spec fn spec_all_file_items(rs: Seq<ParseResult>) -> Seq<(Seq<char>, bool, Seq<char>)>
    decreases rs.len(),
{
    if rs.len() == 0 {
        Seq::empty()
    } else {
        spec_result_file_items(
            rs[0].package_name@,
            views(rs[0].import_statements@),
            rs[0].class_declarations@,
        ) + spec_all_file_items(rs.skip(1))
    }
}

/// The staged file paths the classes of one file produce, in order.
pub open spec fn spec_result_file_paths(pkg: Seq<char>, cs: Seq<ClassDeclarationState>) -> Seq<
    Seq<char>,
>
    decreases cs.len(),
{
    if cs.len() == 0 {
        Seq::empty()
    } else {
        seq![spec_class_file_path(pkg, spec_synthesized_name(cs[0]))] + spec_result_file_paths(
            pkg,
            cs.skip(1),
        )
    }
}

/// The staged file paths of every class of every file, in order.
pub open spec fn spec_all_file_paths(rs: Seq<ParseResult>) -> Seq<Seq<char>>
    decreases rs.len(),
{
    if rs.len() == 0 {
        Seq::empty()
    } else {
        spec_result_file_paths(rs[0].package_name@, rs[0].class_declarations@)
            + spec_all_file_paths(rs.skip(1))
    }
}

/// No two of the paths are the same.
pub open spec fn spec_distinct(ps: Seq<Seq<char>>) -> bool {
    forall|i: int, j: int| 0 <= i < j < ps.len() ==> ps[i] != ps[j]
}

/// One entry the archive writer accepts outright: its stored name within
/// the format's 64 KiB length field and its text far below the 4 GiB entry
/// threshold (both measured in characters, with a factor of four for the
/// widest character encoding), and, for a directory, a path without a
/// trailing slash or backslash.
pub open spec fn spec_entry_ok(e: (Seq<char>, bool, Seq<char>)) -> bool {
    &&& 4 * e.0.len() + 4 <= 65535
    &&& 4 * e.2.len() <= 0x8000_0000
    &&& (e.1 ==> (e.0.len() == 0 || (e.0.last() != '/' && e.0.last() != '\\')))
}

/// Every entry fits the archive format's limits.
pub open spec fn spec_entries_within_limits(entries: Seq<(Seq<char>, bool, Seq<char>)>) -> bool {
    forall|i: int| 0 <= i < entries.len() ==> spec_entry_ok(#[trigger] entries[i])
}

/// An entry list the archive writer accepts in full: pairwise-distinct
/// stored names, every entry within the format's limits.
pub open spec fn spec_zippable(entries: Seq<(Seq<char>, bool, Seq<char>)>) -> bool {
    &&& spec_distinct(spec_entry_keys(entries))
    &&& spec_entries_within_limits(entries)
}

/// The staged list and the two seen lists agree: stored names are pairwise
/// distinct, every directory path is among the seen directories, and every
/// file path is a seen file or the manifest, non-empty, not ending in a
/// slash.
spec fn spec_staging_wf(
    es: Seq<(Seq<char>, bool, Seq<char>)>,
    dirs: Seq<Seq<char>>,
    files: Seq<Seq<char>>,
) -> bool {
    &&& spec_distinct(spec_entry_keys(es))
    &&& forall|j: int| 0 <= j < es.len() && (#[trigger] es[j]).1 ==> dirs.contains(es[j].0)
    &&& forall|j: int|
        0 <= j < es.len() && !(#[trigger] es[j]).1 ==> {
            &&& (files.contains(es[j].0) || es[j].0 == "META-INF/MANIFEST.MF"@)
            &&& es[j].0.len() > 0
            &&& es[j].0.last() != '/'
        }
}

/// Appending the slash to two directory paths keeps them distinguishable.
proof fn lemma_dir_key_injective(p: Seq<char>, q: Seq<char>)
    requires
        p + "/"@ == q + "/"@,
    ensures
        p == q,
{
    reveal_strlit("/");
    assert((p + "/"@).drop_last() =~= p);
    assert((q + "/"@).drop_last() =~= q);
}

/// A directory's stored name ends with the slash.
proof fn lemma_dir_key_last(p: Seq<char>)
    ensures
        (p + "/"@).len() > 0,
        (p + "/"@).last() == '/',
{
    reveal_strlit("/");
    assert((p + "/"@).last() == "/"@[0]);
}

/// A staged class file path is non-empty and ends with the source
/// extension's final letter, never a slash.
proof fn lemma_class_path_last(pkg: Seq<char>, cname: Seq<char>)
    ensures
        spec_class_file_path(pkg, cname).len() > 0,
        spec_class_file_path(pkg, cname).last() == 'a',
{
    reveal_strlit(".java");
    if pkg.len() == 0 {
        assert((cname + ".java"@).last() == ".java"@[4]);
    } else {
        assert((spec_join(spec_package_segments(pkg), "/"@) + "/"@ + cname + ".java"@).last()
            == ".java"@[4]);
    }
}

/// Every entry `spec_add_dirs` yields is a directory with empty text whose
/// path was not seen before, and every path seen before or added stays in
/// the resulting seen list.
proof fn lemma_add_dirs_shape(prefixes: Seq<Seq<char>>, seen: Seq<Seq<char>>)
    ensures
        forall|j: int|
            0 <= j < spec_add_dirs(prefixes, seen).0.len() ==> {
                &&& (#[trigger] spec_add_dirs(prefixes, seen).0[j]).1
                &&& spec_add_dirs(prefixes, seen).0[j].2.len() == 0
                &&& !seen.contains(spec_add_dirs(prefixes, seen).0[j].0)
                &&& spec_add_dirs(prefixes, seen).1.contains(spec_add_dirs(prefixes, seen).0[j].0)
            },
        forall|x: Seq<char>|
            seen.contains(x) ==> #[trigger] spec_add_dirs(prefixes, seen).1.contains(x),
    decreases prefixes.len(),
{
    if prefixes.len() == 0 {
        assert(spec_add_dirs(prefixes, seen).0.len() == 0);
        assert(spec_add_dirs(prefixes, seen).1 == seen);
    } else if seen.contains(prefixes[0]) {
        lemma_add_dirs_shape(prefixes.skip(1), seen);
        assert(spec_add_dirs(prefixes, seen) == spec_add_dirs(prefixes.skip(1), seen));
    } else {
        let p = prefixes[0];
        let pushed = seen.push(p);
        lemma_add_dirs_shape(prefixes.skip(1), pushed);
        assert(forall|x: Seq<char>| seen.contains(x) ==> #[trigger] pushed.contains(x)) by {
            assert forall|x: Seq<char>| seen.contains(x) implies #[trigger] pushed.contains(x) by {
                let k = choose|k: int| 0 <= k < seen.len() && seen[k] == x;
                assert(pushed[k] == x);
            }
        }
        assert(pushed[seen.len() as int] == p);
        assert(pushed.contains(p));
        let rec = spec_add_dirs(prefixes.skip(1), pushed);
        let whole = spec_add_dirs(prefixes, seen);
        assert(whole.0 == seq![(p, true, Seq::<char>::empty())] + rec.0);
        assert(whole.1 == rec.1);
        assert forall|x: Seq<char>| seen.contains(x) implies #[trigger] whole.1.contains(x) by {
            assert(pushed.contains(x));
            assert(rec.1.contains(x));
        }
        assert forall|j: int|
            0 <= j < whole.0.len() implies {
            &&& (#[trigger] whole.0[j]).1
            &&& whole.0[j].2.len() == 0
            &&& !seen.contains(whole.0[j].0)
            &&& whole.1.contains(whole.0[j].0)
        } by {
            if j == 0 {
                assert(whole.0[0] == (p, true, Seq::<char>::empty()));
                assert(rec.1.contains(p));
                assert(whole.1.contains(p));
            } else {
                assert(whole.0[j] == rec.0[j - 1]);
                assert(!pushed.contains(rec.0[j - 1].0));
                assert(rec.1.contains(rec.0[j - 1].0));
                if seen.contains(rec.0[j - 1].0) {
                    assert(pushed.contains(rec.0[j - 1].0));
                }
            }
        }
    }
}

/// Stages a directory entry for each of the given paths not seen yet, in
/// order, extending the seen list alongside.
fn stage_dirs(prefixes: &Vec<String>, seen_dirs: &mut Vec<String>, entries: &mut Vec<ArchiveEntry>)
    ensures
        entries_view(final(entries)@) == entries_view(old(entries)@) + spec_add_dirs(
            views(prefixes@),
            views(old(seen_dirs)@),
        ).0,
        views(final(seen_dirs)@) == spec_add_dirs(views(prefixes@), views(old(seen_dirs)@)).1,
{
    let ghost pv = views(prefixes@);
    let ghost goal = spec_add_dirs(pv, views(old(seen_dirs)@));
    let ghost base = entries_view(old(entries)@);
    let ghost mut added: Seq<(Seq<char>, bool, Seq<char>)> = Seq::empty();
    let np = prefixes.len();
    let mut k: usize = 0;
    proof {
        assert(pv.skip(0) =~= pv);
        assert(added + spec_add_dirs(pv, views(seen_dirs@)).0 =~= spec_add_dirs(
            pv,
            views(seen_dirs@),
        ).0);
        assert(base + added =~= base);
    }
    while k < np
        invariant
            k <= np,
            np == prefixes@.len(),
            pv == views(prefixes@),
            goal == spec_add_dirs(pv, views(old(seen_dirs)@)),
            base == entries_view(old(entries)@),
            goal.0 == added + spec_add_dirs(pv.skip(k as int), views(seen_dirs@)).0,
            goal.1 == spec_add_dirs(pv.skip(k as int), views(seen_dirs@)).1,
            entries_view(entries@) == base + added,
        decreases np - k,
    {
        proof {
            assert(pv.skip(k as int)[0] == pv[k as int]);
            assert(pv.skip(k as int).skip(1) =~= pv.skip(k + 1));
        }
        if !vec_contains_str(seen_dirs, prefixes[k].as_str()) {
            let ghost old_seen = seen_dirs@;
            seen_dirs.push(prefixes[k].clone());
            let ghost old_entries_v = entries@;
            entries.push(
                ArchiveEntry { path: prefixes[k].clone(), is_dir: true, content: String::new() },
            );
            proof {
                assert(views(seen_dirs@) =~= views(old_seen).push(pv[k as int]));
                assert(entries_view(entries@) =~= entries_view(old_entries_v).push(
                    (pv[k as int], true, Seq::<char>::empty()),
                ));
                let item = (pv[k as int], true, Seq::<char>::empty());
                assert(base + added.push(item) =~= (base + added).push(item));
                assert(added.push(item) =~= added + seq![item]);
                assert(added + (seq![item] + spec_add_dirs(pv.skip(k + 1), views(seen_dirs@)).0)
                    =~= (added + seq![item]) + spec_add_dirs(pv.skip(k + 1), views(seen_dirs@)).0);
                added = added + seq![item];
            }
        }
        k += 1;
    }
    proof {
        assert(pv.skip(np as int) =~= Seq::<Seq<char>>::empty());
        assert(added + Seq::<(Seq<char>, bool, Seq<char>)>::empty() =~= added);
    }
}

/// Stages everything one class contributes: checks its file path against
/// those already staged (a repeat is a naming-collision error), stages the
/// missing package directories, then the rendered companion file. Staging
/// keeps the stored names of all entries pairwise distinct.
fn stage_class(
    package_name: &String,
    imports: &Vec<String>,
    class: &ClassDeclarationState,
    seen_dirs: &mut Vec<String>,
    seen_files: &mut Vec<String>,
    entries: &mut Vec<ArchiveEntry>,
) -> (r: Result<(), GenerateError>)
    requires
        spec_staging_wf(
            entries_view(old(entries)@),
            views(old(seen_dirs)@),
            views(old(seen_files)@),
        ),
    ensures
        r is Ok ==> spec_staging_wf(
            entries_view(final(entries)@),
            views(final(seen_dirs)@),
            views(final(seen_files)@),
        ),
        r is Ok <==> !views(old(seen_files)@).contains(
            spec_class_file_path(package_name@, spec_synthesized_name(*class)),
        ),
        r is Ok ==> entries_view(final(entries)@) == entries_view(old(entries)@)
            + spec_unit_entries(
            package_name@,
            views(imports@),
            *class,
            views(old(seen_dirs)@),
        ).0,
        r is Ok ==> views(final(seen_dirs)@) == spec_unit_entries(
            package_name@,
            views(imports@),
            *class,
            views(old(seen_dirs)@),
        ).1,
        r is Ok ==> views(final(seen_files)@) == views(old(seen_files)@).push(
            spec_class_file_path(package_name@, spec_synthesized_name(*class)),
        ),
        r is Err ==> *final(entries) == *old(entries),
        r is Err ==> *final(seen_dirs) == *old(seen_dirs),
        r is Err ==> *final(seen_files) == *old(seen_files),
        r matches Err(e) ==> e matches GenerateError::ZipError(_),
{
    let class_name = get_class_name(class);
    let parent_class_name = get_parent_class_name(class);
    let path = class_file_path(package_name.as_str(), class_name.as_str());
    if vec_contains_str(seen_files, path.as_str()) {
        let mut msg = String::from_str("duplicate archive entry path: ");
        msg.append(path.as_str());
        return Err(GenerateError::ZipError(msg));
    }
    let ghost old_files = seen_files@;
    let ghost path_v = path@;
    seen_files.push(path.clone());
    proof {
        assert(views(seen_files@) =~= views(old_files).push(path_v));
    }
    let ghost es0 = entries_view(old(entries)@);
    let ghost dirs0 = views(old(seen_dirs)@);
    let ghost files0 = views(old(seen_files)@);
    let prefixes = package_prefixes(package_name.as_str());
    stage_dirs(&prefixes, seen_dirs, entries);
    let ghost entries_after_dirs = entries_view(entries@);
    proof {
        lemma_add_dirs_shape(views(prefixes@), dirs0);
        let dd = spec_add_dirs(views(prefixes@), dirs0).0;
        let es1 = entries_view(entries@);
        let dirs1 = views(seen_dirs@);
        let n0 = es0.len() as int;
        assert(spec_entry_keys(es1) =~= spec_entry_keys(es0) + spec_entry_keys(dd));
        assert forall|a: int, b: int|
            0 <= a < b < spec_entry_keys(es1).len() implies spec_entry_keys(es1)[a]
            != spec_entry_keys(es1)[b] by {
            let ka = spec_entry_keys(es1)[a];
            let kb = spec_entry_keys(es1)[b];
            if b < n0 {
                assert(spec_entry_keys(es0)[a] == ka && spec_entry_keys(es0)[b] == kb);
            } else if a < n0 {
                assert(es1[b] == dd[b - n0]);
                assert(dd[b - n0].1 && !dirs0.contains(dd[b - n0].0));
                assert(kb == dd[b - n0].0 + "/"@);
                lemma_dir_key_last(dd[b - n0].0);
                assert(es1[a] == es0[a]);
                if es0[a].1 {
                    assert(dirs0.contains(es0[a].0));
                    assert(ka == es0[a].0 + "/"@);
                    if ka == kb {
                        lemma_dir_key_injective(es0[a].0, dd[b - n0].0);
                    }
                } else {
                    assert(es0[a].0.len() > 0 && es0[a].0.last() != '/');
                    assert(ka == es0[a].0);
                    if ka == kb {
                        assert(ka.last() == kb.last());
                    }
                }
            } else {
                crate::laws::lemma_add_dirs_no_repeat(views(prefixes@), dirs0, a - n0, b - n0);
                assert(es1[a] == dd[a - n0] && es1[b] == dd[b - n0]);
                assert(dd[a - n0].0 != dd[b - n0].0);
                assert(ka == dd[a - n0].0 + "/"@ && kb == dd[b - n0].0 + "/"@);
                if ka == kb {
                    lemma_dir_key_injective(dd[a - n0].0, dd[b - n0].0);
                }
            }
        }
        assert forall|j: int|
            0 <= j < es1.len() && (#[trigger] es1[j]).1 implies dirs1.contains(es1[j].0) by {
            if j < n0 {
                assert(es1[j] == es0[j]);
                assert(dirs0.contains(es0[j].0));
                assert(dirs1.contains(es0[j].0));
            } else {
                assert(es1[j] == dd[j - n0]);
                assert(dirs1.contains(dd[j - n0].0));
            }
        }
        assert forall|j: int|
            0 <= j < es1.len() && !(#[trigger] es1[j]).1 implies {
            &&& (files0.contains(es1[j].0) || es1[j].0 == "META-INF/MANIFEST.MF"@)
            &&& es1[j].0.len() > 0
            &&& es1[j].0.last() != '/'
        } by {
            if j < n0 {
                assert(es1[j] == es0[j]);
            } else {
                assert(es1[j] == dd[j - n0]);
                assert(dd[j - n0].1);
            }
        }
        assert(spec_staging_wf(es1, dirs1, files0));
    }
    let content = template_file_contents(
        class_name.as_str(),
        parent_class_name.as_str(),
        package_name.as_str(),
        imports,
        class,
    );
    let ghost content_v = content@;
    let ghost old_entries_v = entries@;
    entries.push(ArchiveEntry { path, is_dir: false, content });
    proof {
        let item = spec_unit_item(package_name@, views(imports@), *class);
        assert(entries_view(entries@) =~= entries_view(old_entries_v).push(item));
        assert(entries_view(entries@) =~= entries_view(old(entries)@) + spec_unit_entries(
            package_name@,
            views(imports@),
            *class,
            views(old(seen_dirs)@),
        ).0);
        let es1 = entries_after_dirs;
        let es2 = entries_view(entries@);
        let files2 = views(seen_files@);
        let dirs1 = views(seen_dirs@);
        let n1 = es1.len() as int;
        lemma_class_path_last(package_name@, spec_synthesized_name(*class));
        reveal_strlit("META-INF/MANIFEST.MF");
        assert(path_v.len() > 0 && path_v.last() == 'a');
        assert("META-INF/MANIFEST.MF"@.len() == 20);
        assert("META-INF/MANIFEST.MF"@.last() == 'F');
        assert(es2 =~= es1.push(item));
        assert(spec_entry_keys(es2) =~= spec_entry_keys(es1).push(path_v));
        assert forall|a: int, b: int|
            0 <= a < b < spec_entry_keys(es2).len() implies spec_entry_keys(es2)[a]
            != spec_entry_keys(es2)[b] by {
            if b < n1 {
                assert(spec_entry_keys(es2)[a] == spec_entry_keys(es1)[a]);
                assert(spec_entry_keys(es2)[b] == spec_entry_keys(es1)[b]);
            } else {
                assert(spec_entry_keys(es2)[b] == path_v);
                assert(es2[a] == es1[a]);
                if es1[a].1 {
                    lemma_dir_key_last(es1[a].0);
                    assert(spec_entry_keys(es1)[a] == es1[a].0 + "/"@);
                    if spec_entry_keys(es2)[a] == path_v {
                        assert((es1[a].0 + "/"@).last() == path_v.last());
                    }
                } else {
                    assert(files0.contains(es1[a].0) || es1[a].0 == "META-INF/MANIFEST.MF"@);
                    assert(spec_entry_keys(es1)[a] == es1[a].0);
                    if spec_entry_keys(es2)[a] == path_v {
                        assert(es1[a].0 == path_v);
                        assert(!files0.contains(path_v));
                        assert(es1[a].0 == "META-INF/MANIFEST.MF"@);
                        assert(path_v.last() == 'F');
                    }
                }
            }
        }
        assert forall|j: int|
            0 <= j < es2.len() && (#[trigger] es2[j]).1 implies dirs1.contains(es2[j].0) by {
            assert(es2[j] == es1[j]);
        }
        assert forall|j: int|
            0 <= j < es2.len() && !(#[trigger] es2[j]).1 implies {
            &&& (files2.contains(es2[j].0) || es2[j].0 == "META-INF/MANIFEST.MF"@)
            &&& es2[j].0.len() > 0
            &&& es2[j].0.last() != '/'
        } by {
            if j < n1 {
                assert(es2[j] == es1[j]);
                if files0.contains(es1[j].0) {
                    let k = choose|k: int| 0 <= k < files0.len() && files0[k] == es1[j].0;
                    assert(files2[k] == es1[j].0);
                    assert(files2.contains(es1[j].0));
                }
            } else {
                assert(es2[j] == item);
                assert(files2[files0.len() as int] == path_v);
                assert(files2.contains(path_v));
            }
        }
        assert(spec_staging_wf(es2, dirs1, files2));
    }
    Ok(())
}

/// Builds the complete, ordered entry list of the archive from the parsed
/// models: the manifest directory and file first, then every synthesized
/// class under its package path. Two classes mapping to the same path are a
/// naming-collision error; the list is produced exactly when all paths are
/// distinct.
#[verifier::rlimit(100)]
pub fn archive_entries(parse_results: &Vec<ParseResult>) -> (r: Result<
    Vec<ArchiveEntry>,
    GenerateError,
>)
    ensures
        r is Ok <==> spec_distinct(spec_all_file_paths(parse_results@)),
        r matches Ok(es) ==> entries_view(es@) == spec_archive_entries(parse_results@),
        r matches Ok(es) ==> spec_distinct(spec_entry_keys(entries_view(es@))),
        r matches Err(e) ==> e matches GenerateError::ZipError(_),
{
    let ghost rs = parse_results@;
    let ghost all_paths = spec_all_file_paths(rs);
    let mut entries: Vec<ArchiveEntry> = Vec::new();
    entries.push(ArchiveEntry { path: String::from_str("META-INF"), is_dir: true, content: String::new() });
    entries.push(
        ArchiveEntry {
            path: String::from_str("META-INF/MANIFEST.MF"),
            is_dir: false,
            content: String::from_str("Manifest-Version: 1.0\nCreated-By: mavir\n"),
        },
    );
    let mut seen_dirs: Vec<String> = Vec::new();
    seen_dirs.push(String::from_str("META-INF"));
    let mut seen_files: Vec<String> = Vec::new();
    let ghost head = seq![spec_manifest_dir_entry(), spec_manifest_file_entry()];
    proof {
        assert(rs.skip(0) =~= rs);
        assert(views(seen_dirs@) =~= seq!["META-INF"@]);
        assert(entries_view(entries@) =~= head);
        assert(entries_view(entries@) + spec_results_entries(rs, views(seen_dirs@)).0
            =~= spec_archive_entries(rs));
        assert(views(seen_files@) =~= Seq::<Seq<char>>::empty());
        assert(views(seen_files@) + spec_all_file_paths(rs) =~= all_paths);
        reveal_strlit("META-INF");
        reveal_strlit("META-INF/MANIFEST.MF");
        reveal_strlit("/");
        let ev = entries_view(entries@);
        assert(spec_entry_keys(ev).len() == 2);
        assert(spec_entry_keys(ev)[0] == "META-INF"@ + "/"@);
        assert(spec_entry_keys(ev)[1] == "META-INF/MANIFEST.MF"@);
        assert(("META-INF"@ + "/"@).len() == 9);
        assert("META-INF/MANIFEST.MF"@.len() == 20);
        assert(spec_distinct(spec_entry_keys(ev)));
        assert(views(seen_dirs@)[0] == "META-INF"@);
        assert(views(seen_dirs@).contains("META-INF"@));
        assert("META-INF/MANIFEST.MF"@.last() == 'F');
        assert(spec_staging_wf(ev, views(seen_dirs@), views(seen_files@)));
    }
    let nr = parse_results.len();
    let mut ri: usize = 0;
    while ri < nr
        invariant
            ri <= nr,
            nr == parse_results@.len(),
            rs == parse_results@,
            all_paths == spec_all_file_paths(rs),
            entries_view(entries@) + spec_results_entries(rs.skip(ri as int), views(seen_dirs@)).0
                == spec_archive_entries(rs),
            views(seen_files@) + spec_all_file_paths(rs.skip(ri as int)) == all_paths,
            spec_distinct(views(seen_files@)),
            spec_staging_wf(entries_view(entries@), views(seen_dirs@), views(seen_files@)),
        decreases nr - ri,
    {
        let pr = &parse_results[ri];
        proof {
            assert(rs.skip(ri as int)[0] == rs[ri as int]);
            assert(rs.skip(ri as int).skip(1) =~= rs.skip(ri + 1));
        }
        let ghost pkg_v = pr.package_name@;
        let ghost imp_v = views(pr.import_statements@);
        let ghost cs = pr.class_declarations@;
        let nc = pr.class_declarations.len();
        let mut ci: usize = 0;
        proof {
            assert(cs.skip(0) =~= cs);
        }
        while ci < nc
            invariant
                ci <= nc,
                nc == parse_results@[ri as int].class_declarations@.len(),
                ri < parse_results@.len(),
                rs == parse_results@,
                all_paths == spec_all_file_paths(rs),
                pkg_v == parse_results@[ri as int].package_name@,
                imp_v == views(parse_results@[ri as int].import_statements@),
                cs == parse_results@[ri as int].class_declarations@,
                entries_view(entries@) + spec_classes_entries(
                    pkg_v,
                    imp_v,
                    cs.skip(ci as int),
                    views(seen_dirs@),
                ).0 + spec_results_entries(
                    rs.skip(ri + 1),
                    spec_classes_entries(pkg_v, imp_v, cs.skip(ci as int), views(seen_dirs@)).1,
                ).0 == spec_archive_entries(rs),
                views(seen_files@) + spec_result_file_paths(pkg_v, cs.skip(ci as int))
                    + spec_all_file_paths(rs.skip(ri + 1)) == all_paths,
                spec_distinct(views(seen_files@)),
                spec_staging_wf(entries_view(entries@), views(seen_dirs@), views(seen_files@)),
            decreases nc - ci,
        {
            let pr2 = &parse_results[ri];
            let class = &pr2.class_declarations[ci];
            proof {
                assert(cs.skip(ci as int)[0] == cs[ci as int]);
                assert(cs.skip(ci as int).skip(1) =~= cs.skip(ci + 1));
            }
            let ghost files_before = views(seen_files@);
            let ghost this_path = spec_class_file_path(pkg_v, spec_synthesized_name(cs[ci as int]));
            match stage_class(
                &pr2.package_name,
                &pr2.import_statements,
                class,
                &mut seen_dirs,
                &mut seen_files,
                &mut entries,
            ) {
                Err(e) => {
                    proof {
                        assert(files_before.contains(this_path));
                        let wi = choose|i: int|
                            0 <= i < files_before.len() && files_before[i] == this_path;
                        let jj = files_before.len() as int;
                        assert(all_paths[wi] == files_before[wi]);
                        assert(all_paths[jj] == this_path);
                        assert(!spec_distinct(all_paths));
                    }
                    return Err(e);
                },
                Ok(()) => {
                    proof {
                        assert(!files_before.contains(this_path));
                        assert(views(seen_files@) =~= files_before.push(this_path));
                        assert forall|i: int, j: int|
                            0 <= i < j < views(seen_files@).len() implies views(seen_files@)[i]
                            != views(seen_files@)[j] by {
                            if j < files_before.len() {
                            } else {
                                assert(views(seen_files@)[j] == this_path);
                                assert(views(seen_files@)[i] == files_before[i]);
                                assert(!files_before.contains(this_path));
                            }
                        }
                        assert(views(seen_files@) + (spec_result_file_paths(pkg_v, cs.skip(ci + 1))
                            + spec_all_file_paths(rs.skip(ri + 1))) =~= (files_before + seq![
                            this_path,
                        ]) + (spec_result_file_paths(pkg_v, cs.skip(ci + 1)) + spec_all_file_paths(
                            rs.skip(ri + 1),
                        )));
                        assert(files_before.push(this_path) =~= files_before + seq![this_path]);
                    }
                },
            }
            ci += 1;
        }
        proof {
            assert(cs.skip(nc as int) =~= Seq::<ClassDeclarationState>::empty());
        }
        ri += 1;
    }
    proof {
        assert(rs.skip(nr as int) =~= Seq::<ParseResult>::empty());
        assert(entries_view(entries@) + Seq::<(Seq<char>, bool, Seq<char>)>::empty()
            =~= entries_view(entries@));
        assert(views(seen_files@) + Seq::<Seq<char>>::empty() =~= views(seen_files@));
    }
    Ok(entries)
}

/// Streams the staged entries, in order, into the archive writer and
/// finalizes it: on success the bytes encode exactly those entries, and a
/// list with pairwise-distinct stored names whose entries all fit the
/// format's limits is accepted in full.
fn zip_entries(entries: &Vec<ArchiveEntry>) -> (r: Result<Vec<u8>, GenerateError>)
    ensures
        r matches Ok(bytes) ==> bytes@ == zip_encoding(entries_view(entries@)),
        spec_zippable(entries_view(entries@)) ==> r is Ok,
        r matches Err(e) ==> e matches GenerateError::ZipError(_),
{
    let ghost ev = entries_view(entries@);
    let mut w = zip_writer_new();
    let n = entries.len();
    let mut i: usize = 0;
    proof {
        assert(ev.take(0) =~= Seq::<(Seq<char>, bool, Seq<char>)>::empty());
    }
    while i < n
        invariant
            i <= n,
            n == entries@.len(),
            ev == entries_view(entries@),
            zw_entry_log(w) == ev.take(i as int),
            spec_zippable(ev) ==> zw_ok(w),
        decreases n - i,
    {
        let e = &entries[i];
        proof {
            assert(ev[i as int] == spec_entry_view(entries@[i as int]));
            if spec_zippable(ev) {
                assert(spec_entry_keys(ev.take(i as int)) =~= spec_entry_keys(ev).take(i as int));
                assert(spec_entry_keys(ev)[i as int] == spec_entry_key(ev[i as int]));
                assert(!spec_entry_keys(ev).take(i as int).contains(
                    spec_entry_key(ev[i as int]),
                )) by {
                    if spec_entry_keys(ev).take(i as int).contains(spec_entry_key(ev[i as int])) {
                        let k = choose|k: int|
                            0 <= k < i && spec_entry_keys(ev).take(i as int)[k] == spec_entry_key(
                                ev[i as int],
                            );
                        assert(spec_entry_keys(ev)[k] == spec_entry_keys(ev)[i as int]);
                    }
                }
                assert(spec_entry_ok(ev[i as int]));
            }
        }
        if e.is_dir {
            let ok = zip_add_directory(&mut w, e.path.as_str());
            proof {
                assert(spec_zippable(ev) ==> ok && zw_ok(w)) by {
                    if spec_zippable(ev) {
                        assert(spec_entry_key(ev[i as int]) == e.path@ + "/"@);
                    }
                }
            }
            if !ok {
                return Err(GenerateError::ZipError(String::from_str("Failed to add directory")));
            }
            proof {
                assert(ev.take(i + 1) =~= ev.take(i as int).push(spec_entry_view(
                    entries@[i as int],
                )));
            }
        } else {
            let ok_start = zip_start_file(&mut w, e.path.as_str());
            proof {
                assert(spec_zippable(ev) ==> ok_start && zw_ok(w)) by {
                    if spec_zippable(ev) {
                        assert(spec_entry_key(ev[i as int]) == e.path@);
                    }
                }
            }
            if !ok_start {
                return Err(GenerateError::ZipError(String::from_str("Failed to start file")));
            }
            let ok_write = zip_write_text(&mut w, e.content.as_str());
            proof {
                assert(spec_zippable(ev) ==> ok_write && zw_ok(w)) by {
                    if spec_zippable(ev) {
                        assert(ev[i as int].2 == e.content@);
                    }
                }
            }
            if !ok_write {
                return Err(GenerateError::ZipError(String::from_str("Failed to write file")));
            }
            proof {
                let started = ev.take(i as int).push((e.path@, false, Seq::<char>::empty()));
                assert(zw_entry_log(w) == started.update(
                    started.len() - 1,
                    (e.path@, false, Seq::<char>::empty() + e.content@),
                ));
                assert(Seq::<char>::empty() + e.content@ =~= e.content@);
                assert(ev.take(i + 1) =~= started.update(
                    started.len() - 1,
                    (e.path@, false, Seq::<char>::empty() + e.content@),
                ));
            }
        }
        i += 1;
    }
    proof {
        assert(ev.take(n as int) =~= ev);
    }
    match zip_finish(w) {
        Some(bytes) => Ok(bytes),
        None => Err(GenerateError::ZipError(String::from_str("Failed to finish zip file"))),
    }
}

/// Whether the output path carries one of the two accepted extensions.
pub open spec fn spec_valid_output_path(p: Seq<char>) -> bool {
    ||| (p.len() >= ".jar"@.len() && p.skip(p.len() - ".jar"@.len()) == ".jar"@)
    ||| (p.len() >= ".srcjar"@.len() && p.skip(p.len() - ".srcjar"@.len()) == ".srcjar"@)
}

/// Checks that the output path ends in `.jar` or `.srcjar`. Whether the
/// path's parent directory exists is the caller's concern: deciding it
/// takes the filesystem.
pub fn validate_output_path(output_path: &str) -> (r: Result<(), GenerateError>)
    ensures
        r is Ok <==> spec_valid_output_path(output_path@),
        r matches Err(e) ==> e matches GenerateError::InvalidOutputPath(_),
{
    if str_ends_with(output_path, ".jar") || str_ends_with(output_path, ".srcjar") {
        Ok(())
    } else {
        let mut msg = String::from_str("Output path must end in '.jar' or '.srcjar'. Got: ");
        msg.append(output_path);
        Err(GenerateError::InvalidOutputPath(msg))
    }
}

/// Renders the companion class of every entry of every parsed file and
/// packages the staged tree, with the fixed manifest, into the bytes of the
/// output archive. The output path must carry an accepted extension; two
/// classes mapping to one staged path are a naming-collision error; no
/// archive bytes are produced on any error. Success is owed whenever the
/// extension is accepted, all staged file paths are distinct, and every
/// staged entry fits the archive format's limits.
pub fn generate_code(parse_results: Vec<ParseResult>, output_path: &str) -> (r: Result<
    Vec<u8>,
    GenerateError,
>)
    ensures
        r matches Ok(bytes) ==> bytes@ == zip_encoding(spec_archive_entries(parse_results@)),
        r is Ok ==> spec_valid_output_path(output_path@) && spec_distinct(
            spec_all_file_paths(parse_results@),
        ),
        (spec_valid_output_path(output_path@) && spec_distinct(spec_all_file_paths(parse_results@))
            && spec_entries_within_limits(spec_archive_entries(parse_results@))) ==> r is Ok,
        !spec_valid_output_path(output_path@) ==> (r matches Err(e)
            && e matches GenerateError::InvalidOutputPath(_)),
        spec_valid_output_path(output_path@) && !spec_distinct(spec_all_file_paths(parse_results@))
            ==> (r matches Err(e) && e matches GenerateError::ZipError(_)),
{
    match validate_output_path(output_path) {
        Ok(()) => {},
        Err(e) => {
            return Err(e);
        },
    }
    let entries = match archive_entries(&parse_results) {
        Ok(es) => es,
        Err(e) => {
            return Err(e);
        },
    };
    proof {
        assert(spec_entries_within_limits(spec_archive_entries(parse_results@))
            ==> spec_zippable(entries_view(entries@))) by {
            if spec_entries_within_limits(spec_archive_entries(parse_results@)) {
                assert(entries_view(entries@) == spec_archive_entries(parse_results@));
            }
        }
    }
    zip_entries(&entries)
}

} // verus!
