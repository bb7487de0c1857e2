use vstd::prelude::*;
use vstd::string::*;
use crate::strings::reverse_strings;
use crate::strings::spec_split;
use crate::strings::spec_trim;
use crate::strings::spec_without_spaces;
use crate::strings::split_char;
use crate::strings::str_ends_with;
use crate::strings::str_eq;
use crate::strings::str_starts_with;
use crate::strings::trim_str;
use crate::strings::vec_contains_str;
use crate::strings::views;
use crate::strings::without_spaces;
use crate::ts::java_language;
use crate::ts::node_child_by_field_name;
use crate::ts::node_kind;
use crate::ts::node_parent;
use crate::ts::node_text;
use crate::ts::parser_new;
use crate::ts::parser_parse;
use crate::ts::parser_set_language;
use crate::ts::query_capture_names;
use crate::ts::query_matches;
use crate::ts::query_new;
use crate::ts::tree_root_node;
use crate::ts::QueryMatchData;

verus! {

/// The typed model of one source file: its package, its import statements
/// verbatim, and one entry per marker-annotated type declaration.
#[derive(Debug)]
pub struct ParseResult {
    pub package_name: String,
    pub import_statements: Vec<String>,
    pub class_declarations: Vec<ClassDeclarationState>,
}

/// One marker-annotated type declaration: its simple name, its eligible
/// accessor methods in declaration order, the chain of enclosing type names
/// ordered outermost first (empty for a top-level type), and the retained
/// access modifiers (only `public` is kept).
#[derive(Debug)]
pub struct ClassDeclarationState {
    pub name: String,
    pub methods: Vec<MethodDeclarationState>,
    pub parent_chain: Vec<String>,
    pub modifiers: Vec<String>,
}

/// One eligible accessor: an abstract, zero-parameter method declared
/// directly in the annotated type's body.
#[derive(Debug, Clone)]
pub struct MethodDeclarationState {
    pub name: String,
    pub return_type: String,
    pub modifiers: Vec<String>,
    pub is_nullable: bool,
}

impl MethodDeclarationState {
    /// The accessor invariants: a non-empty return type, the nullability flag
    /// agreeing with the modifier tokens, and the method being abstract.
    pub open spec fn wf(self) -> bool {
        &&& self.return_type@.len() > 0
        &&& self.is_nullable <==> views(self.modifiers@).contains("@Nullable"@)
        &&& views(self.modifiers@).contains("abstract"@)
    }
}

impl ClassDeclarationState {
    /// The entry invariants: at least one eligible accessor, each accessor
    /// well formed, and every retained modifier being `public`.
    pub open spec fn wf(self) -> bool {
        &&& self.methods@.len() >= 1
        &&& forall|i: int| 0 <= i < self.methods@.len() ==> (#[trigger] self.methods@[i]).wf()
        &&& forall|i: int|
            0 <= i < self.modifiers@.len() ==> (#[trigger] self.modifiers@[i])@ == "public"@
    }
}

impl ParseResult {
    /// Every class entry of the file's model is well formed.
    pub open spec fn wf(self) -> bool {
        forall|i: int|
            0 <= i < self.class_declarations@.len() ==> (#[trigger] self.class_declarations@[i]).wf()
    }
}

/// The ways reading a source file into a model can fail.
#[derive(Debug)]
pub enum ParseError {
    /// The syntax-tree parser could not be prepared for Java input.
    ParserInitializationError,
    /// The named file could not be read.
    CannotReadFile(String),
    /// The parser produced no syntax tree for the file's contents.
    FileNotParsableAsJava,
    /// A malformed declaration or a broken model invariant, with context.
    FileProcessingError(String),
}

impl ParseError {
    /// A human-readable description of the error.
    pub fn message(&self) -> (r: String)
        ensures
            (self matches ParseError::ParserInitializationError ==> r@
                == "Could not initialize parser for Java code (internal tool error)"@),
            (self matches ParseError::CannotReadFile(p) ==> r@ == "Could not read file: "@ + p@),
            (self matches ParseError::FileNotParsableAsJava ==> r@
                == "File is not parsable as Java code"@),
            (self matches ParseError::FileProcessingError(m) ==> r@
                == "File processing error: "@ + m@),
    {
        match self {
            ParseError::ParserInitializationError => String::from_str(
                "Could not initialize parser for Java code (internal tool error)",
            ),
            ParseError::CannotReadFile(p) => {
                let mut s = String::from_str("Could not read file: ");
                s.append(p.as_str());
                s
            },
            ParseError::FileNotParsableAsJava => String::from_str(
                "File is not parsable as Java code",
            ),
            ParseError::FileProcessingError(m) => {
                let mut s = String::from_str("File processing error: ");
                s.append(m.as_str());
                s
            },
        }
    }
}

/// A mutable accumulator for a `ClassDeclarationState` whose parts are found
/// one capture at a time; converting it checks that every required part was
/// seen.
pub struct ClassDeclarationStateBuilder {
    pub name: Option<String>,
    pub methods: Option<Vec<MethodDeclarationState>>,
    pub parent_chain: Option<Vec<String>>,
    pub modifiers: Option<Vec<String>>,
}

impl ClassDeclarationStateBuilder {
    pub fn new() -> (r: Self)
        ensures
            r.name is None,
            r.methods is None,
            r.parent_chain is None,
            r.modifiers is None,
    {
        ClassDeclarationStateBuilder { name: None, methods: None, parent_chain: None, modifiers: None }
    }

    /// Converts the accumulated parts into an immutable entry; a missing
    /// required part becomes a typed error naming it.
    pub fn build(self) -> (r: Result<ClassDeclarationState, ParseError>)
        ensures
            r is Ok <==> (self.name is Some && self.methods is Some && self.parent_chain is Some
                && self.modifiers is Some),
            r matches Ok(c) ==> {
                &&& c.name == self.name.unwrap()
                &&& c.methods == self.methods.unwrap()
                &&& c.parent_chain == self.parent_chain.unwrap()
                &&& c.modifiers == self.modifiers.unwrap()
            },
            r matches Err(e) ==> e matches ParseError::FileProcessingError(_),
    {
        match self {
            ClassDeclarationStateBuilder {
                name: Some(name),
                methods: Some(methods),
                parent_chain: Some(parent_chain),
                modifiers: Some(modifiers),
            } => Ok(ClassDeclarationState { name, methods, parent_chain, modifiers }),
            ClassDeclarationStateBuilder { name: None, .. } => Err(
                ParseError::FileProcessingError(
                    String::from_str("class declaration is missing its name"),
                ),
            ),
            ClassDeclarationStateBuilder { methods: None, .. } => Err(
                ParseError::FileProcessingError(
                    String::from_str("class declaration is missing its methods"),
                ),
            ),
            ClassDeclarationStateBuilder { parent_chain: None, .. } => Err(
                ParseError::FileProcessingError(
                    String::from_str("class declaration is missing its enclosing chain"),
                ),
            ),
            ClassDeclarationStateBuilder { modifiers: None, .. } => Err(
                ParseError::FileProcessingError(
                    String::from_str("class declaration is missing its modifiers"),
                ),
            ),
        }
    }
}

/// A mutable accumulator for a `MethodDeclarationState`; the nullability
/// flag defaults to false.
pub struct MethodDeclarationStateBuilder {
    pub name: Option<String>,
    pub return_type: Option<String>,
    pub modifiers: Option<Vec<String>>,
    pub is_nullable: bool,
}

impl MethodDeclarationStateBuilder {
    pub fn new() -> (r: Self)
        ensures
            r.name is None,
            r.return_type is None,
            r.modifiers is None,
            r.is_nullable == false,
    {
        MethodDeclarationStateBuilder {
            name: None,
            return_type: None,
            modifiers: None,
            is_nullable: false,
        }
    }

    /// Converts the accumulated parts into an immutable accessor record; a
    /// missing required part becomes a typed error naming it.
    pub fn build(self) -> (r: Result<MethodDeclarationState, ParseError>)
        ensures
            r is Ok <==> (self.name is Some && self.return_type is Some && self.modifiers is Some),
            r matches Ok(m) ==> {
                &&& m.name == self.name.unwrap()
                &&& m.return_type == self.return_type.unwrap()
                &&& m.modifiers == self.modifiers.unwrap()
                &&& m.is_nullable == self.is_nullable
            },
            r matches Err(e) ==> e matches ParseError::FileProcessingError(_),
    {
        match self {
            MethodDeclarationStateBuilder {
                name: Some(name),
                return_type: Some(return_type),
                modifiers: Some(modifiers),
                is_nullable,
            } => Ok(MethodDeclarationState { name, return_type, modifiers, is_nullable }),
            MethodDeclarationStateBuilder { name: None, .. } => Err(
                ParseError::FileProcessingError(
                    String::from_str("method declaration is missing its name"),
                ),
            ),
            MethodDeclarationStateBuilder { return_type: None, .. } => Err(
                ParseError::FileProcessingError(
                    String::from_str("method declaration is missing its return type"),
                ),
            ),
            MethodDeclarationStateBuilder { modifiers: None, .. } => Err(
                ParseError::FileProcessingError(
                    String::from_str("method declaration is missing its modifiers"),
                ),
            ),
        }
    }
}

/// Whether a package declaration's text has the expected shape: the keyword
/// and a space in front, the terminator at the end, and something between.
pub open spec fn spec_package_shape(t: Seq<char>) -> bool {
    &&& t.len() >= "package "@.len() + ";"@.len()
    &&& t.take("package "@.len() as int) == "package "@
    &&& t.skip(t.len() - ";"@.len()) == ";"@
}

/// The package name inside a well-shaped package declaration: the text with
/// the leading keyword and the trailing terminator removed.
pub open spec fn spec_package_name(t: Seq<char>) -> Seq<char> {
    t.subrange("package "@.len() as int, t.len() - ";"@.len())
}

/// Extracts the package name from a package declaration's text: `Some` with
/// the name exactly when the text has the keyword in front and the
/// terminator at the end, `None` otherwise.
pub fn strip_package_text(text: &str) -> (r: Option<String>)
    ensures
        r is Some <==> spec_package_shape(text@),
        r matches Some(p) ==> p@ == spec_package_name(text@),
{
    proof {
        reveal_strlit("package ");
        reveal_strlit(";");
    }
    if str_starts_with(text, "package ") && str_ends_with(text, ";") {
        let n = text.unicode_len();
        proof {
            assert(text@.take(8)[7] == "package "@[7]);
            assert(text@.skip(n - 1)[0] == ";"@[0]);
            assert(n >= 9);
        }
        let middle = text.substring_char(8, n - 1);
        Some(String::from_str(middle))
    } else {
        None
    }
}

/// The modifier tokens of a method: its modifier text split on spaces, each
/// piece trimmed, empty pieces dropped.
pub open spec fn spec_trimmed_parts(t: Seq<char>) -> Seq<Seq<char>> {
    spec_split(t, ' ').map_values(|p: Seq<char>| spec_trim(p))
}

pub open spec fn spec_method_tokens(t: Seq<char>) -> Seq<Seq<char>> {
    spec_trimmed_parts(t).filter(|p: Seq<char>| p.len() != 0)
}

fn modifier_tokens(text: &str) -> (r: Vec<String>)
    ensures
        views(r@) == spec_method_tokens(text@),
{
    let parts = split_char(text, ' ');
    let ghost tp = spec_trimmed_parts(text@);
    let mut out: Vec<String> = Vec::new();
    let n = parts.len();
    let mut i: usize = 0;
    proof {
        assert(tp.take(0) =~= Seq::<Seq<char>>::empty());
        reveal(Seq::filter);
    }
    while i < n
        invariant
            i <= n,
            n == parts@.len(),
            views(parts@) == spec_split(text@, ' '),
            tp == spec_trimmed_parts(text@),
            views(out@) == tp.take(i as int).filter(|p: Seq<char>| p.len() != 0),
        decreases n - i,
    {
        let t = trim_str(parts[i].as_str());
        proof {
            assert(tp[i as int] == spec_trim(views(parts@)[i as int]));
            reveal(Seq::filter);
            assert(tp.take(i + 1).drop_last() =~= tp.take(i as int));
            assert(tp.take(i + 1).last() == tp[i as int]);
        }
        if t.as_str().unicode_len() > 0 {
            let ghost old_out = out@;
            let ghost tv = t@;
            out.push(t);
            proof {
                assert(views(out@) =~= views(old_out).push(tv));
            }
        }
        i += 1;
    }
    proof {
        assert(tp.take(n as int) =~= tp);
    }
    out
}

fn filter_public_modifiers(text: &str) -> (r: Vec<String>)
    ensures
        views(r@) == spec_split(text@, ' ').filter(|t: Seq<char>| t == "public"@),
        forall|i: int| 0 <= i < r@.len() ==> (#[trigger] r@[i])@ == "public"@,
{
    let parts = split_char(text, ' ');
    let ghost pv = views(parts@);
    let mut out: Vec<String> = Vec::new();
    let n = parts.len();
    let mut i: usize = 0;
    proof {
        assert(pv.take(0) =~= Seq::<Seq<char>>::empty());
        reveal(Seq::filter);
    }
    while i < n
        invariant
            i <= n,
            n == parts@.len(),
            pv == views(parts@),
            pv == spec_split(text@, ' '),
            views(out@) == pv.take(i as int).filter(|t: Seq<char>| t == "public"@),
            forall|j: int| 0 <= j < out@.len() ==> (#[trigger] out@[j])@ == "public"@,
        decreases n - i,
    {
        proof {
            reveal(Seq::filter);
            assert(pv.take(i + 1).drop_last() =~= pv.take(i as int));
            assert(pv.take(i + 1).last() == pv[i as int]);
        }
        if str_eq(parts[i].as_str(), "public") {
            let ghost old_out = out@;
            out.push(parts[i].clone());
            proof {
                assert(views(out@) =~= views(old_out).push(pv[i as int]));
            }
        }
        i += 1;
    }
    proof {
        assert(pv.take(n as int) =~= pv);
    }
    out
}

/// Whether a formal-parameter list's text declares no parameter: nothing but
/// the two parentheses once whitespace is removed.
fn is_zero_params(text: &str) -> (r: bool)
    ensures
        r == (spec_without_spaces(text@) == "()"@),
{
    let stripped = without_spaces(text);
    str_eq(stripped.as_str(), "()")
}

/// The first captured node of `m` whose capture name is `want`.
fn find_capture<'t>(m: &QueryMatchData<'t>, names: &Vec<String>, want: &str) -> Option<
    tree_sitter::Node<'t>,
> {
    let n = m.captures.len();
    let mut i: usize = 0;
    while i < n
        invariant
            n == m.captures@.len(),
        decreases n - i,
    {
        let idx = m.captures[i].capture_index;
        if idx < names.len() && str_eq(names[idx].as_str(), want) {
            return Some(m.captures[i].node);
        }
        i += 1;
    }
    None
}

/// Finds the file's package declaration and extracts the package name: the
/// first match wins; a file without one, or with a malformed one, is an
/// error.
fn collect_package(tree: &tree_sitter::Tree, source: &str) -> Result<String, ParseError> {
    let lang = java_language();
    let query = match query_new(&lang, "(package_declaration) @package") {
        Some(q) => q,
        None => {
            return Err(
                ParseError::FileProcessingError(
                    String::from_str("could not compile the package query"),
                ),
            );
        },
    };
    let root = tree_root_node(tree);
    let ms = query_matches(&query, root, source);
    let n = ms.len();
    let mut i: usize = 0;
    while i < n
        invariant
            n == ms@.len(),
        decreases n - i,
    {
        if ms[i].captures.len() > 0 {
            let text = node_text(&ms[i].captures[0].node, source);
            return match strip_package_text(text.as_str()) {
                Some(p) => Ok(p),
                None => Err(
                    ParseError::FileProcessingError(
                        String::from_str("Malformed package declaration"),
                    ),
                ),
            };
        }
        i += 1;
    }
    Err(ParseError::FileProcessingError(String::from_str("Could not find package declaration")))
}

/// Collects the full text of every import declaration, in source order.
fn collect_import_statements(tree: &tree_sitter::Tree, source: &str) -> Vec<String> {
    let mut imports: Vec<String> = Vec::new();
    let lang = java_language();
    let query = match query_new(&lang, "(import_declaration) @import") {
        Some(q) => q,
        None => {
            return imports;
        },
    };
    let root = tree_root_node(tree);
    let ms = query_matches(&query, root, source);
    let n = ms.len();
    let mut i: usize = 0;
    while i < n
        invariant
            n == ms@.len(),
        decreases n - i,
    {
        let k = ms[i].captures.len();
        let mut j: usize = 0;
        while j < k
            invariant
                k == ms@[i as int].captures@.len(),
                i < ms@.len(),
            decreases k - j,
        {
            imports.push(node_text(&ms[i].captures[j].node, source));
            j += 1;
        }
        i += 1;
    }
    imports
}

/// Decides whether the type declaration at `node` carries the value-object
/// marker annotation `@AutoValue` directly in its modifier list.
pub fn has_autovalue_annotation(node: tree_sitter::Node, source: &str, class_name: &str) -> bool {
    let lang = java_language();
    let query = match query_new(
        &lang,
        "(class_declaration (modifiers (marker_annotation) @marker-annotation) name: ((identifier) @class-name))",
    ) {
        Some(q) => q,
        None => {
            return false;
        },
    };
    let names = query_capture_names(&query);
    let ms = query_matches(&query, node, source);
    let n = ms.len();
    let mut i: usize = 0;
    while i < n
        invariant
            n == ms@.len(),
        decreases n - i,
    {
        let marker = find_capture(&ms[i], &names, "marker-annotation");
        let cname = find_capture(&ms[i], &names, "class-name");
        match (marker, cname) {
            (Some(marker_node), Some(cname_node)) => {
                let marker_text = node_text(&marker_node, source);
                let cname_text = node_text(&cname_node, source);
                if str_eq(marker_text.as_str(), "@AutoValue") && str_eq(
                    cname_text.as_str(),
                    class_name,
                ) {
                    return true;
                }
            },
            _ => {},
        }
        i += 1;
    }
    false
}

/// Collects the eligible accessors of the marked type named `class_name` at
/// `node`: abstract, zero-parameter methods declared directly in its body,
/// in declaration order.
fn collect_abstract_method(
    node: tree_sitter::Node,
    source: &str,
    class_name: &str,
) -> (r: Result<Vec<MethodDeclarationState>, ParseError>)
    ensures
        r matches Ok(methods) ==> forall|i: int|
            0 <= i < methods@.len() ==> (#[trigger] methods@[i]).wf(),
{
    let lang = java_language();
    let query = match query_new(
        &lang,
        "(class_declaration name: (identifier) @class-name body: (class_body (method_declaration (modifiers) @modifiers type: _ @return-type name: (identifier) @method-name parameters: (formal_parameters) @params)))",
    ) {
        Some(q) => q,
        None => {
            return Err(
                ParseError::FileProcessingError(
                    String::from_str("could not compile the method query"),
                ),
            );
        },
    };
    let names = query_capture_names(&query);
    let ms = query_matches(&query, node, source);
    let mut methods: Vec<MethodDeclarationState> = Vec::new();
    let n = ms.len();
    let mut i: usize = 0;
    while i < n
        invariant
            n == ms@.len(),
            forall|k: int| 0 <= k < methods@.len() ==> (#[trigger] methods@[k]).wf(),
        decreases n - i,
    {
        let m = &ms[i];
        i += 1;
        let cname_node = match find_capture(m, &names, "class-name") {
            Some(nd) => nd,
            None => {
                return Err(
                    ParseError::FileProcessingError(
                        String::from_str("method query match is missing its class name"),
                    ),
                );
            },
        };
        let cname_text = node_text(&cname_node, source);
        if !str_eq(cname_text.as_str(), class_name) {
            continue ;
        }
        let modifiers_node = match find_capture(m, &names, "modifiers") {
            Some(nd) => nd,
            None => {
                return Err(
                    ParseError::FileProcessingError(
                        String::from_str("method query match is missing its modifiers"),
                    ),
                );
            },
        };
        let modifiers_text = node_text(&modifiers_node, source);
        let tokens = modifier_tokens(modifiers_text.as_str());
        if !vec_contains_str(&tokens, "abstract") {
            continue ;
        }
        let params_node = match find_capture(m, &names, "params") {
            Some(nd) => nd,
            None => {
                return Err(
                    ParseError::FileProcessingError(
                        String::from_str("method query match is missing its parameter list"),
                    ),
                );
            },
        };
        let params_text = node_text(&params_node, source);
        if !is_zero_params(params_text.as_str()) {
            continue ;
        }
        let rt_node = match find_capture(m, &names, "return-type") {
            Some(nd) => nd,
            None => {
                return Err(
                    ParseError::FileProcessingError(
                        String::from_str("method query match is missing its return type"),
                    ),
                );
            },
        };
        let return_type = node_text(&rt_node, source);
        if return_type.as_str().unicode_len() == 0 {
            return Err(
                ParseError::FileProcessingError(
                    String::from_str("abstract accessor has an empty return type"),
                ),
            );
        }
        let mname_node = match find_capture(m, &names, "method-name") {
            Some(nd) => nd,
            None => {
                return Err(
                    ParseError::FileProcessingError(
                        String::from_str("method query match is missing its method name"),
                    ),
                );
            },
        };
        let method_name = node_text(&mname_node, source);
        let is_nullable = vec_contains_str(&tokens, "@Nullable");
        let mut builder = MethodDeclarationStateBuilder::new();
        builder.name = Some(method_name);
        builder.return_type = Some(return_type);
        builder.modifiers = Some(tokens);
        builder.is_nullable = is_nullable;
        match builder.build() {
            Ok(method) => {
                proof {
                    assert(method.wf());
                }
                methods.push(method);
            },
            Err(e) => {
                return Err(e);
            },
        }
    }
    Ok(methods)
}

/// Walks outward from the type declaration at `node`, collecting the name of
/// every enclosing type declaration, ordered outermost first.
fn collect_parent_chain(node: tree_sitter::Node, source: &str) -> Vec<String> {
    let mut inner_first: Vec<String> = Vec::new();
    let mut current = node;
    let mut fuel: usize = usize::MAX;
    while fuel > 0
        decreases fuel,
    {
        fuel -= 1;
        match node_parent(&current) {
            None => {
                break ;
            },
            Some(p) => {
                current = p;
                let kind = node_kind(&current);
                if str_eq(kind.as_str(), "class_declaration") {
                    match node_child_by_field_name(&current, "name") {
                        Some(name_node) => {
                            inner_first.push(node_text(&name_node, source));
                        },
                        None => {},
                    }
                }
            },
        }
    }
    reverse_strings(&inner_first)
}

/// Collects every marker-annotated type declaration of the file into a
/// class entry; plain types are skipped. A marked type with no eligible
/// accessor is an error, as is any broken model invariant.
fn collect_classes(tree: &tree_sitter::Tree, source: &str) -> (r: Result<
    Vec<ClassDeclarationState>,
    ParseError,
>)
    ensures
        r matches Ok(classes) ==> forall|i: int|
            0 <= i < classes@.len() ==> (#[trigger] classes@[i]).wf(),
{
    let lang = java_language();
    let query = match query_new(
        &lang,
        "(class_declaration (modifiers) @modifiers name: (identifier) @class-name)",
    ) {
        Some(q) => q,
        None => {
            return Err(
                ParseError::FileProcessingError(
                    String::from_str("could not compile the class query"),
                ),
            );
        },
    };
    let names = query_capture_names(&query);
    let root = tree_root_node(tree);
    let ms = query_matches(&query, root, source);
    let mut classes: Vec<ClassDeclarationState> = Vec::new();
    let n = ms.len();
    let mut i: usize = 0;
    while i < n
        invariant
            n == ms@.len(),
            forall|k: int| 0 <= k < classes@.len() ==> (#[trigger] classes@[k]).wf(),
        decreases n - i,
    {
        let m = &ms[i];
        i += 1;
        let cname_node = match find_capture(m, &names, "class-name") {
            Some(nd) => nd,
            None => {
                return Err(
                    ParseError::FileProcessingError(
                        String::from_str("class query match is missing its class name"),
                    ),
                );
            },
        };
        let class_name_text = node_text(&cname_node, source);
        let parent_node = match node_parent(&cname_node) {
            Some(nd) => nd,
            None => {
                return Err(
                    ParseError::FileProcessingError(
                        String::from_str("class name has no enclosing declaration node"),
                    ),
                );
            },
        };
        if !has_autovalue_annotation(parent_node, source, class_name_text.as_str()) {
            continue ;
        }
        let methods = match collect_abstract_method(parent_node, source, class_name_text.as_str()) {
            Ok(v) => v,
            Err(e) => {
                return Err(e);
            },
        };
        if methods.len() == 0 {
            let mut msg = String::from_str("marked type has no eligible accessor method: ");
            msg.append(class_name_text.as_str());
            return Err(ParseError::FileProcessingError(msg));
        }
        let parent_chain = collect_parent_chain(parent_node, source);
        let modifiers_node = match find_capture(m, &names, "modifiers") {
            Some(nd) => nd,
            None => {
                return Err(
                    ParseError::FileProcessingError(
                        String::from_str("class query match is missing its modifiers"),
                    ),
                );
            },
        };
        let modifiers_text = node_text(&modifiers_node, source);
        let modifiers = filter_public_modifiers(modifiers_text.as_str());
        let mut builder = ClassDeclarationStateBuilder::new();
        builder.name = Some(class_name_text);
        builder.methods = Some(methods);
        builder.parent_chain = Some(parent_chain);
        builder.modifiers = Some(modifiers);
        match builder.build() {
            Ok(class_state) => {
                proof {
                    assert(class_state.wf());
                }
                classes.push(class_state);
            },
            Err(e) => {
                return Err(e);
            },
        }
    }
    Ok(classes)
}

/// Turns one source file's text into its typed model: the package name, the
/// verbatim import list, and one entry per marker-annotated type. Extraction
/// is all or nothing: any failure yields an error and no partial model.
pub fn parse_source(source_code: &str) -> (r: Result<ParseResult, ParseError>)
    ensures
        r matches Ok(pr) ==> pr.wf(),
{
    let mut parser = parser_new();
    let lang = java_language();
    if !parser_set_language(&mut parser, &lang) {
        return Err(ParseError::ParserInitializationError);
    }
    let tree = match parser_parse(&mut parser, source_code) {
        Some(t) => t,
        None => {
            return Err(ParseError::FileNotParsableAsJava);
        },
    };
    let package_name = match collect_package(&tree, source_code) {
        Ok(p) => p,
        Err(e) => {
            return Err(e);
        },
    };
    let import_statements = collect_import_statements(&tree, source_code);
    let class_declarations = match collect_classes(&tree, source_code) {
        Ok(c) => c,
        Err(e) => {
            return Err(e);
        },
    };
    Ok(ParseResult { package_name, import_statements, class_declarations })
}

} // verus!
