//! Finds type declarations marked `@AutoValue` in Java source text and
//! synthesizes the companion value-object implementation classes: field
//! storage, a validated constructor, accessor overrides, `toString`,
//! bit-pattern `equals` for floating types, and the fixed-multiplier
//! `hashCode`. The generated files are staged with a fixed manifest and
//! packaged into the bytes of a reproducible source JAR.
//!
//! `parse_source` turns one file's text into its typed model;
//! `generate_code` renders every model entry and yields the archive bytes.
pub mod generate;
pub mod laws;
pub mod parse;
pub mod strings;
mod ts;
pub mod util;
pub mod ziputil;

pub use generate::archive_entries;
pub use generate::generate_code;
pub use generate::get_class_name;
pub use generate::get_parent_class_name;
pub use generate::template_constructor;
pub use generate::template_equals;
pub use generate::template_file_contents;
pub use generate::template_getter;
pub use generate::template_hashcode;
pub use generate::template_instance_var_decls;
pub use generate::template_to_string;
pub use generate::validate_output_path;
pub use generate::ArchiveEntry;
pub use generate::GenerateError;

pub use parse::has_autovalue_annotation;
pub use parse::parse_source;
pub use parse::ClassDeclarationState;
pub use parse::MethodDeclarationState;
pub use parse::ParseError;
pub use parse::ParseResult;

pub use util::is_primitive_type;
pub use util::java_primitive_types;
pub use util::StripMargin;
