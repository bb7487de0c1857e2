//! The library's stated laws: properties of the synthesis and packaging
//! specifications, each proved once and for all inputs.
use vstd::prelude::*;
use crate::generate::spec_add_dirs;
use crate::generate::spec_all_file_items;
use crate::generate::spec_archive_entries;
use crate::generate::spec_result_file_items;
use crate::generate::spec_unit_entries;
use crate::generate::spec_unit_item;
use crate::generate::spec_assign;
use crate::generate::spec_classes_entries;
use crate::generate::spec_constructor;
use crate::generate::spec_equals_check;
use crate::generate::spec_file_contents;
use crate::generate::spec_hash_line;
use crate::generate::spec_instance_var;
use crate::generate::spec_instance_vars_list;
use crate::generate::spec_manifest_dir_entry;
use crate::generate::spec_manifest_file_entry;
use crate::generate::spec_param;
use crate::generate::spec_params_list;
use crate::generate::spec_qualified_parent;
use crate::generate::spec_results_entries;
use crate::generate::spec_synthesized_name;
use crate::parse::ClassDeclarationState;
use crate::parse::MethodDeclarationState;
use crate::parse::ParseResult;
use crate::strings::spec_join;
use crate::strings::views;
use crate::util::spec_is_primitive;

verus! {

proof fn lemma_results_entries_no_classes(rs: Seq<ParseResult>, seen: Seq<Seq<char>>)
    requires
        forall|i: int| 0 <= i < rs.len() ==> (#[trigger] rs[i]).class_declarations@.len() == 0,
    ensures
        spec_results_entries(rs, seen).0 == Seq::<(Seq<char>, bool, Seq<char>)>::empty(),
        spec_results_entries(rs, seen).1 == seen,
    decreases rs.len(),
{
    if rs.len() == 0 {
    } else {
        assert(rs[0].class_declarations@.len() == 0);
        assert(spec_classes_entries(
            rs[0].package_name@,
            views(rs[0].import_statements@),
            rs[0].class_declarations@,
            seen,
        ) == (Seq::<(Seq<char>, bool, Seq<char>)>::empty(), seen));
        assert(forall|i: int|
            0 <= i < rs.skip(1).len() ==> (#[trigger] rs.skip(1)[i]).class_declarations@.len()
                == 0) by {
            assert(forall|i: int| 0 <= i < rs.skip(1).len() ==> rs.skip(1)[i] == rs[i + 1]);
        }
        lemma_results_entries_no_classes(rs.skip(1), seen);
        assert(Seq::<(Seq<char>, bool, Seq<char>)>::empty() + spec_results_entries(
            rs.skip(1),
            seen,
        ).0 =~= Seq::<(Seq<char>, bool, Seq<char>)>::empty());
    }
}

/// A run over source files with no marker-annotated type produces an archive
/// holding only the manifest directory and the manifest file.
pub proof fn lemma_no_marked_types_manifest_only(rs: Seq<ParseResult>)
    requires
        forall|i: int| 0 <= i < rs.len() ==> (#[trigger] rs[i]).class_declarations@.len() == 0,
    ensures
        spec_archive_entries(rs) == seq![spec_manifest_dir_entry(), spec_manifest_file_entry()],
{
    lemma_results_entries_no_classes(rs, seq!["META-INF"@]);
    assert(spec_archive_entries(rs) =~= seq![
        spec_manifest_dir_entry(),
        spec_manifest_file_entry(),
    ]);
}

/// Every archive begins with the manifest directory and the manifest file,
/// the latter at its fixed path and holding exactly the two fixed header
/// lines.
pub proof fn lemma_manifest_entries(rs: Seq<ParseResult>)
    ensures
        spec_archive_entries(rs).len() >= 2,
        spec_archive_entries(rs)[0] == spec_manifest_dir_entry(),
        spec_archive_entries(rs)[1] == spec_manifest_file_entry(),
        spec_manifest_file_entry().0 == "META-INF/MANIFEST.MF"@,
        spec_manifest_file_entry().2 == "Manifest-Version: 1.0\nCreated-By: mavir\n"@,
{
    let head = seq![spec_manifest_dir_entry(), spec_manifest_file_entry()];
    assert(spec_archive_entries(rs)[0] == head[0]);
    assert(spec_archive_entries(rs)[1] == head[1]);
}

/// For a type with N eligible accessors, the synthesized constructor's
/// parameter list and the synthesized field list both have exactly N
/// entries, in accessor order, and the constructor text joins exactly those
/// parameters.
pub proof fn lemma_constructor_and_fields_per_accessor(c: ClassDeclarationState)
    ensures
        spec_params_list(c.methods@).len() == c.methods@.len(),
        forall|i: int|
            0 <= i < c.methods@.len() ==> spec_params_list(c.methods@)[i] == spec_param(
                #[trigger] c.methods@[i],
            ),
        spec_instance_vars_list(c.methods@).len() == c.methods@.len(),
        forall|i: int|
            0 <= i < c.methods@.len() ==> spec_instance_vars_list(c.methods@)[i]
                == spec_instance_var(#[trigger] c.methods@[i]),
{
}

/// Synthesis is deterministic: two renderings of the same class entry under
/// the same names, package and imports are byte-identical.
pub proof fn lemma_synthesis_deterministic(
    r1: Seq<char>,
    r2: Seq<char>,
    cname: Seq<char>,
    pcn: Seq<char>,
    pkg: Seq<char>,
    imports: Seq<Seq<char>>,
    c: ClassDeclarationState,
)
    requires
        r1 == spec_file_contents(cname, pcn, pkg, imports, c),
        r2 == spec_file_contents(cname, pcn, pkg, imports, c),
    ensures
        r1 == r2,
{
}

/// A type nested two levels deep under enclosing types produces the fixed
/// tag joined with the outer name, the middle name and its own simple name
/// by underscores, and a supertype reference joining the same names by dots.
pub proof fn lemma_nested_two_levels(c: ClassDeclarationState, outer: Seq<char>, middle: Seq<char>)
    requires
        views(c.parent_chain@) == seq![outer, middle],
    ensures
        spec_synthesized_name(c) == "AutoValue_"@ + outer + "_"@ + middle + "_"@ + c.name@,
        spec_qualified_parent(c) == outer + "."@ + middle + "."@ + c.name@,
{
    let parts = seq![outer, middle].push(c.name@);
    assert(parts.len() == 3 && parts[0] == outer && parts[1] == middle && parts[2] == c.name@);
    assert(parts.skip(1) =~= seq![middle, c.name@]);
    assert(parts.skip(1).skip(1) =~= seq![c.name@]);
    assert(seq![c.name@].len() == 1 && seq![c.name@][0] == c.name@);
    assert(spec_join(parts.skip(1).skip(1), "_"@) == c.name@);
    assert(spec_join(parts.skip(1), "_"@) == middle + "_"@ + c.name@);
    assert(spec_join(parts, "_"@) == outer + "_"@ + (middle + "_"@ + c.name@));
    assert("AutoValue_"@ + (outer + "_"@ + (middle + "_"@ + c.name@)) =~= "AutoValue_"@ + outer
        + "_"@ + middle + "_"@ + c.name@);
    assert(spec_join(parts.skip(1).skip(1), "."@) == c.name@);
    assert(spec_join(parts.skip(1), "."@) == middle + "."@ + c.name@);
    assert(spec_join(parts, "."@) == outer + "."@ + (middle + "."@ + c.name@));
    assert(outer + "."@ + (middle + "."@ + c.name@) =~= outer + "."@ + middle + "."@ + c.name@);
}

/// A nullable reference accessor is (a) assigned without a null check in the
/// constructor, (b) compared with a null-safe branch in `equals`, and (c)
/// folded to 0 in `hashCode` when null.
pub proof fn lemma_nullable_reference_forms(m: MethodDeclarationState)
    requires
        m.is_nullable,
        !spec_is_primitive(m.return_type@),
    ensures
        spec_assign(m) == "        this."@ + m.name@ + " = "@ + m.name@ + ";"@,
        spec_equals_check(m) == "("@ + ("this."@ + m.name@ + " == null? that."@ + m.name@
            + "() == null : "@) + "this."@ + m.name@ + ".equals(that."@ + m.name@ + "()))"@,
        spec_hash_line(m) == "h$ *= 1000003;\n        "@ + ("h$ ^= "@ + ("this."@ + m.name@
            + " == null ? 0 : "@) + "this."@ + m.name@ + ".hashCode();"@),
{
}

/// A floating accessor's `equals` conjunct compares the integer bit patterns
/// of the two values, and is not the plain `==` comparison that other
/// primitives get.
pub proof fn lemma_float_equals_uses_bit_pattern(m: MethodDeclarationState)
    requires
        m.return_type@ == "double"@ || m.return_type@ == "float"@,
    ensures
        m.return_type@ == "double"@ ==> spec_equals_check(m) == "Double.doubleToLongBits(this."@
            + m.name@ + ") == Double.doubleToLongBits(that."@ + m.name@ + "())"@,
        m.return_type@ == "float"@ ==> spec_equals_check(m) == "Float.floatToIntBits(this."@
            + m.name@ + ") == Float.floatToIntBits(that."@ + m.name@ + "())"@,
        spec_equals_check(m) != "this."@ + m.name@ + " == that."@ + m.name@ + "()"@,
{
    reveal_strlit("Double.doubleToLongBits(this.");
    reveal_strlit("Float.floatToIntBits(this.");
    reveal_strlit("this.");
    reveal_strlit("double");
    reveal_strlit("float");
    assert("double"@.len() == 6 && "float"@.len() == 5);
    if m.return_type@ == "double"@ {
        assert(spec_equals_check(m)[0] == 'D');
        assert(("this."@ + m.name@ + " == that."@ + m.name@ + "()"@)[0] == 't');
    } else {
        assert(spec_equals_check(m)[0] == 'F');
        assert(("this."@ + m.name@ + " == that."@ + m.name@ + "()"@)[0] == 't');
    }
}

/// The constructor text of a class is built around exactly the joined
/// parameter list and the joined assignment list of its accessors.
pub proof fn lemma_constructor_shape(cname: Seq<char>, c: ClassDeclarationState)
    ensures
        spec_constructor(cname, c) == "\n    "@ + cname + "(\n            "@ + spec_join(
            spec_params_list(c.methods@),
            ",\n            "@,
        ) + ") {\n"@ + spec_join(
            crate::generate::spec_assigns_list(c.methods@),
            "\n"@,
        ) + "\n    }\n"@,
{
}

proof fn lemma_add_dirs_no_files(prefixes: Seq<Seq<char>>, seen: Seq<Seq<char>>)
    ensures
        spec_add_dirs(prefixes, seen).0.filter(|e: (Seq<char>, bool, Seq<char>)| !e.1)
            == Seq::<(Seq<char>, bool, Seq<char>)>::empty(),
    decreases prefixes.len(),
{
    reveal(Seq::filter);
    if prefixes.len() == 0 {
        assert(spec_add_dirs(prefixes, seen).0.filter(|e: (Seq<char>, bool, Seq<char>)| !e.1)
            =~= Seq::<(Seq<char>, bool, Seq<char>)>::empty());
    } else if seen.contains(prefixes[0]) {
        lemma_add_dirs_no_files(prefixes.skip(1), seen);
        assert(spec_add_dirs(prefixes, seen) == spec_add_dirs(prefixes.skip(1), seen));
    } else {
        let p = prefixes[0];
        let one = seq![(p, true, Seq::<char>::empty())];
        let rec = spec_add_dirs(prefixes.skip(1), seen.push(p));
        lemma_add_dirs_no_files(prefixes.skip(1), seen.push(p));
        Seq::filter_distributes_over_add(one, rec.0, |e: (Seq<char>, bool, Seq<char>)| !e.1);
        assert(one.drop_last() =~= Seq::<(Seq<char>, bool, Seq<char>)>::empty());
        assert(one.last().1);
        assert(Seq::<(Seq<char>, bool, Seq<char>)>::empty().filter(
            |e: (Seq<char>, bool, Seq<char>)| !e.1,
        ) =~= Seq::<(Seq<char>, bool, Seq<char>)>::empty());
        assert(one.filter(|e: (Seq<char>, bool, Seq<char>)| !e.1) =~= Seq::<(
            Seq<char>,
            bool,
            Seq<char>,
        )>::empty());
        assert(spec_add_dirs(prefixes, seen).0.filter(|e: (Seq<char>, bool, Seq<char>)| !e.1)
            =~= Seq::<(Seq<char>, bool, Seq<char>)>::empty());
    }
}

proof fn lemma_classes_file_items(
    pkg: Seq<char>,
    imports: Seq<Seq<char>>,
    cs: Seq<ClassDeclarationState>,
    seen: Seq<Seq<char>>,
)
    ensures
        spec_classes_entries(pkg, imports, cs, seen).0.filter(
            |e: (Seq<char>, bool, Seq<char>)| !e.1,
        ) == spec_result_file_items(pkg, imports, cs),
    decreases cs.len(),
{
    reveal(Seq::filter);
    let pred = |e: (Seq<char>, bool, Seq<char>)| !e.1;
    if cs.len() == 0 {
        assert(spec_classes_entries(pkg, imports, cs, seen).0.filter(pred) =~= Seq::<(
            Seq<char>,
            bool,
            Seq<char>,
        )>::empty());
    } else {
        let u = spec_unit_entries(pkg, imports, cs[0], seen);
        let dirs = spec_add_dirs(crate::generate::spec_package_prefixes(pkg), seen);
        let one = seq![spec_unit_item(pkg, imports, cs[0])];
        let rest = spec_classes_entries(pkg, imports, cs.skip(1), u.1);
        lemma_classes_file_items(pkg, imports, cs.skip(1), u.1);
        lemma_add_dirs_no_files(crate::generate::spec_package_prefixes(pkg), seen);
        Seq::filter_distributes_over_add(u.0, rest.0, pred);
        Seq::filter_distributes_over_add(dirs.0, one, pred);
        assert(one.drop_last() =~= Seq::<(Seq<char>, bool, Seq<char>)>::empty());
        assert(one.filter(pred) =~= one);
        assert(u.0.filter(pred) =~= one);
        assert(spec_classes_entries(pkg, imports, cs, seen).0.filter(pred)
            =~= spec_result_file_items(pkg, imports, cs));
    }
}

proof fn lemma_results_file_items(rs: Seq<ParseResult>, seen: Seq<Seq<char>>)
    ensures
        spec_results_entries(rs, seen).0.filter(|e: (Seq<char>, bool, Seq<char>)| !e.1)
            == spec_all_file_items(rs),
    decreases rs.len(),
{
    reveal(Seq::filter);
    let pred = |e: (Seq<char>, bool, Seq<char>)| !e.1;
    if rs.len() == 0 {
        assert(spec_results_entries(rs, seen).0.filter(pred) =~= Seq::<(
            Seq<char>,
            bool,
            Seq<char>,
        )>::empty());
    } else {
        let h = spec_classes_entries(
            rs[0].package_name@,
            views(rs[0].import_statements@),
            rs[0].class_declarations@,
            seen,
        );
        let rest = spec_results_entries(rs.skip(1), h.1);
        lemma_classes_file_items(
            rs[0].package_name@,
            views(rs[0].import_statements@),
            rs[0].class_declarations@,
            seen,
        );
        lemma_results_file_items(rs.skip(1), h.1);
        Seq::filter_distributes_over_add(h.0, rest.0, pred);
        assert(spec_results_entries(rs, seen).0.filter(pred) =~= spec_all_file_items(rs));
    }
}

/// What unpacking the archive must yield, short of the format itself: the
/// non-directory entries of the staged list are exactly the manifest file
/// followed by one companion source file per class of each parsed file, in
/// order — each at its package-derived path with its synthesized text — and
/// nothing else.
pub proof fn lemma_archive_file_entries(rs: Seq<ParseResult>)
    ensures
        spec_archive_entries(rs).filter(|e: (Seq<char>, bool, Seq<char>)| !e.1) == seq![
            spec_manifest_file_entry(),
        ] + spec_all_file_items(rs),
{
    reveal(Seq::filter);
    let pred = |e: (Seq<char>, bool, Seq<char>)| !e.1;
    let head = seq![spec_manifest_dir_entry(), spec_manifest_file_entry()];
    let body = spec_results_entries(rs, seq!["META-INF"@]);
    lemma_results_file_items(rs, seq!["META-INF"@]);
    Seq::filter_distributes_over_add(head, body.0, pred);
    assert(head.drop_last() =~= seq![spec_manifest_dir_entry()]);
    assert(seq![spec_manifest_dir_entry()].drop_last() =~= Seq::<(
        Seq<char>,
        bool,
        Seq<char>,
    )>::empty());
    assert(Seq::<(Seq<char>, bool, Seq<char>)>::empty().filter(pred) =~= Seq::<(
        Seq<char>,
        bool,
        Seq<char>,
    )>::empty());
    assert(spec_manifest_dir_entry().1);
    assert(!spec_manifest_file_entry().1);
    assert(seq![spec_manifest_dir_entry()].filter(pred) =~= Seq::<(
        Seq<char>,
        bool,
        Seq<char>,
    )>::empty());
    assert(head.last() == spec_manifest_file_entry());
    assert(head.filter(pred) =~= seq![spec_manifest_file_entry()]);
    assert(spec_archive_entries(rs).filter(pred) =~= seq![spec_manifest_file_entry()]
        + spec_all_file_items(rs));
}

/// `spec_add_dirs` never stages a path it was told is already seen, and
/// stages no path twice.
pub proof fn lemma_add_dirs_no_repeat(prefixes: Seq<Seq<char>>, seen: Seq<Seq<char>>, i: int, j: int)
    requires
        0 <= i < j < spec_add_dirs(prefixes, seen).0.len(),
    ensures
        spec_add_dirs(prefixes, seen).0[i].0 != spec_add_dirs(prefixes, seen).0[j].0,
    decreases prefixes.len(),
{
    if prefixes.len() == 0 {
    } else if seen.contains(prefixes[0]) {
        lemma_add_dirs_no_repeat(prefixes.skip(1), seen, i, j);
    } else {
        let rec = spec_add_dirs(prefixes.skip(1), seen.push(prefixes[0]));
        if i == 0 {
            assert(seen.push(prefixes[0])[seen.len() as int] == prefixes[0]);
            assert(seen.push(prefixes[0]).contains(prefixes[0]));
            lemma_add_dirs_stays_out(prefixes.skip(1), seen.push(prefixes[0]), prefixes[0], j - 1);
        } else {
            lemma_add_dirs_no_repeat(prefixes.skip(1), seen.push(prefixes[0]), i - 1, j - 1);
        }
    }
}

proof fn lemma_add_dirs_stays_out(prefixes: Seq<Seq<char>>, seen: Seq<Seq<char>>, p: Seq<char>, j: int)
    requires
        seen.contains(p),
        0 <= j < spec_add_dirs(prefixes, seen).0.len(),
    ensures
        spec_add_dirs(prefixes, seen).0[j].0 != p,
    decreases prefixes.len(),
{
    if prefixes.len() == 0 {
    } else if seen.contains(prefixes[0]) {
        lemma_add_dirs_stays_out(prefixes.skip(1), seen, p, j);
    } else {
        if j == 0 {
        } else {
            assert(seen.push(prefixes[0]).contains(p)) by {
                let wi = choose|k: int| 0 <= k < seen.len() && seen[k] == p;
                assert(seen.push(prefixes[0])[wi] == p);
            }
            lemma_add_dirs_stays_out(prefixes.skip(1), seen.push(prefixes[0]), p, j - 1);
        }
    }
}

} // verus!
