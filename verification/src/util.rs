use vstd::prelude::*;
use vstd::string::*;
use crate::strings::is_space_char;
use crate::strings::join_strings;
use crate::strings::spec_is_space;
use crate::strings::spec_join;
use crate::strings::spec_split;
use crate::strings::split_char;
use crate::strings::str_eq;
use crate::strings::views;

verus! {

/// The fixed, closed set of the eight Java scalar primitive type names.
pub open spec fn spec_is_primitive(s: Seq<char>) -> bool {
    ||| s == "boolean"@
    ||| s == "byte"@
    ||| s == "short"@
    ||| s == "int"@
    ||| s == "long"@
    ||| s == "float"@
    ||| s == "double"@
    ||| s == "char"@
}

/// The eight Java primitive type names, in a fixed order.
pub fn java_primitive_types() -> (r: Vec<&'static str>)
    ensures
        r@.len() == 8,
        r@[0]@ == "boolean"@,
        r@[1]@ == "byte"@,
        r@[2]@ == "short"@,
        r@[3]@ == "int"@,
        r@[4]@ == "long"@,
        r@[5]@ == "float"@,
        r@[6]@ == "double"@,
        r@[7]@ == "char"@,
        forall|i: int| 0 <= i < 8 ==> spec_is_primitive(#[trigger] r@[i]@),
{
    let v: Vec<&'static str> = vec![
        "boolean", "byte", "short", "int", "long", "float", "double", "char",
    ];
    v
}

/// Decides whether a raw type token denotes one of the eight Java scalar
/// primitive types. Any other token (reference, array, or generic type)
/// classifies as non-primitive.
pub fn is_primitive_type(identifier: &str) -> (r: bool)
    ensures
        r == spec_is_primitive(identifier@),
{
    str_eq(identifier, "boolean") || str_eq(identifier, "byte") || str_eq(identifier, "short")
        || str_eq(identifier, "int") || str_eq(identifier, "long") || str_eq(
        identifier,
        "float",
    ) || str_eq(identifier, "double") || str_eq(identifier, "char")
}

/// What remains of a line after its margin, when the line has one: leading
/// whitespace, then the margin character. `None` when the line has no margin.
pub open spec fn spec_line_after_margin(line: Seq<char>, margin: char) -> Option<Seq<char>>
    decreases line.len(),
{
    if line.len() == 0 {
        None
    } else if spec_is_space(line[0]) {
        spec_line_after_margin(line.skip(1), margin)
    } else if line[0] == margin {
        Some(line.skip(1))
    } else {
        None
    }
}

/// One line with its margin stripped; a line without a margin is kept whole.
pub open spec fn spec_strip_line(line: Seq<char>, margin: char) -> Seq<char> {
    match spec_line_after_margin(line, margin) {
        Some(rest) => rest,
        None => line,
    }
}

/// The text with, on every line, leading whitespace and the margin character
/// removed when present.
pub open spec fn spec_strip_margin(s: Seq<char>, margin: char) -> Seq<char> {
    spec_join(spec_split(s, '\n').map_values(|l: Seq<char>| spec_strip_line(l, margin)), "\n"@)
}

fn strip_line(line: &str, margin: char) -> (r: String)
    ensures
        r@ == spec_strip_line(line@, margin),
{
    let n = line.unicode_len();
    let mut i: usize = 0;
    proof {
        assert(line@.skip(0) =~= line@);
    }
    while i < n && is_space_char(line.get_char(i))
        invariant
            i <= n,
            n == line@.len(),
            spec_line_after_margin(line@, margin) == spec_line_after_margin(
                line@.skip(i as int),
                margin,
            ),
        decreases n - i,
    {
        proof {
            assert(line@.skip(i as int)[0] == line@[i as int]);
            assert(line@.skip(i as int).skip(1) =~= line@.skip(i + 1));
        }
        i += 1;
    }
    if i == n {
        proof {
            assert(line@.skip(i as int) =~= Seq::<char>::empty());
        }
        String::from_str(line)
    } else if line.get_char(i) == margin {
        proof {
            assert(line@.skip(i as int)[0] == line@[i as int]);
            assert(line@.skip(i as int).skip(1) =~= line@.skip(i + 1));
            assert(line@.subrange(i + 1, n as int) =~= line@.skip(i + 1));
        }
        String::from_str(line.substring_char(i + 1, n))
    } else {
        proof {
            assert(line@.skip(i as int)[0] == line@[i as int]);
        }
        String::from_str(line)
    }
}

/// Removing a leading margin from every line of a text block.
pub trait StripMargin: View<V = Seq<char>> {
    /// Strips, on each line, the leading whitespace and the given margin
    /// character when present; lines without the margin are kept whole.
    fn strip_margin_with(&self, margin_char: char) -> (r: String)
        ensures
            r@ == spec_strip_margin(self@, margin_char),
    ;

    /// `strip_margin_with` for the usual `|` margin.
    fn strip_margin(&self) -> (r: String)
        ensures
            r@ == spec_strip_margin(self@, '|'),
    ;
}

impl StripMargin for str {
    fn strip_margin_with(&self, margin_char: char) -> (r: String)
        ensures
            r@ == spec_strip_margin(self@, margin_char),
    {
        let lines = split_char(self, '\n');
        let ghost lv = views(lines@);
        let mut stripped: Vec<String> = Vec::new();
        let mut j: usize = 0;
        let n = lines.len();
        while j < n
            invariant
                j <= n,
                n == lines@.len(),
                lv == views(lines@),
                views(stripped@) == lv.take(j as int).map_values(
                    |l: Seq<char>| spec_strip_line(l, margin_char),
                ),
            decreases n - j,
        {
            let piece = strip_line(lines[j].as_str(), margin_char);
            let ghost old_stripped = stripped@;
            let ghost piece_view = piece@;
            stripped.push(piece);
            proof {
                assert(lv.take(j + 1) =~= lv.take(j as int).push(lv[j as int]));
                assert(views(stripped@) =~= views(old_stripped).push(piece_view));
                assert(views(stripped@) =~= lv.take(j + 1).map_values(
                    |l: Seq<char>| spec_strip_line(l, margin_char),
                ));
            }
            j += 1;
        }
        proof {
            assert(lv.take(n as int) =~= lv);
        }
        join_strings(&stripped, "\n")
    }

    fn strip_margin(&self) -> (r: String)
        ensures
            r@ == spec_strip_margin(self@, '|'),
    {
        self.strip_margin_with('|')
    }
}

} // verus!
