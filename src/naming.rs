use convert_case::{Case, Casing};
use vstd::prelude::*;
use vstd::string::StringExecFns;

verus! {

/// A rule that renames every field of a type.
#[derive(Debug, Clone, Copy, PartialEq, Eq, Structural)]
pub enum RenameAll {
    /// `myField`
    CamelCase,
    /// `myfield`
    LowerCase,
}

/// How the variant of an enum is found.
#[derive(Debug, Clone)]
pub enum TagType {
    /// The variant's name is the string under this key of the map.
    Internal(String),
    /// The value is the variant's name itself; every variant is a unit.
    External,
}

impl Default for TagType {
    fn default() -> (r: TagType)
        ensures
            r is External,
    {
        TagType::External
    }
}

/// An identifier converted to camel case, as convert_case converts it.
pub uninterp spec fn camel_case_of(s: Seq<char>) -> Seq<char>;

/// An identifier in lower case, as `str::to_lowercase` converts it.
pub uninterp spec fn lowercase_of(s: Seq<char>) -> Seq<char>;

/// Relies on convert_case's `Casing::to_case` with `Case::Camel`: the result
/// depends on the characters alone.
#[verifier::external_body]
fn to_camel_case(s: &str) -> (r: String)
    ensures
        r@ == camel_case_of(s@),
{
    s.to_case(Case::Camel)
}

/// Relies on `str::to_lowercase`: the result depends on the characters alone,
/// and an empty string stays empty.
#[verifier::external_body]
fn to_lower_case(s: &str) -> (r: String)
    ensures
        r@ == lowercase_of(s@),
        s@.len() == 0 ==> r@.len() == 0,
{
    s.to_lowercase()
}

/// The key under which a field is read: its explicit name if it has one,
/// else its identifier under the type's renaming rule.
pub open spec fn key_name(ident: Seq<char>, rename_all: Option<RenameAll>, rename: Option<Seq<char>>) -> Seq<
    char,
> {
    match rename {
        Some(name) => name,
        None => match rename_all {
            Some(RenameAll::CamelCase) => camel_case_of(ident),
            Some(RenameAll::LowerCase) => lowercase_of(ident),
            None => ident,
        },
    }
}

/// The key under which the field `ident` is read, given the type's renaming
/// rule and the field's own name, if any.
pub fn key_name_for_ident(ident: String, rename_all: Option<&RenameAll>, rename: Option<&str>) -> (r:
    String)
    ensures
        r@ == key_name(
            ident@,
            match rename_all {
                Some(rule) => Some(*rule),
                None => None,
            },
            match rename {
                Some(name) => Some(name@),
                None => None,
            },
        ),
{
    match rename {
        Some(name) => String::from_str(name),
        None => match rename_all {
            Some(RenameAll::CamelCase) => to_camel_case(ident.as_str()),
            Some(RenameAll::LowerCase) => to_lower_case(ident.as_str()),
            None => ident,
        },
    }
}

} // verus!
