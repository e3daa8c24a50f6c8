use vstd::prelude::*;

use super::state::{MethodTab, SearchMatch, SearchResult};
use crate::analysis::{Il2CppProject, TypeResolver};
use crate::binary::ElfImage;
use crate::metadata::Metadata;
use crate::model::string_literal::{escape_seq, spec_is_url};
use crate::model::{MethodId, Property, StringLiteral, TypeId, TypeIndex};
use crate::text::{chars_of, string_from_chars};

verus! {

/// What the welcome screen asks for.
#[derive(Clone, Copy, Debug, PartialEq, Eq, Structural)]
pub enum WelcomeAction {
    SelectBinary,
    SelectMetadata,
    Analyze,
    OpenLocal,
}

/// What the explorer view asks for.
#[derive(Clone, Copy, Debug, PartialEq, Eq, Structural)]
pub enum ExplorerAction {
    Open,
    Export,
    Select(SearchResult),
}

/// The explorer view's share of the window state, borrowed while the view draws.
pub struct ExplorerState<'a> {
    pub selected_type: &'a mut Option<TypeId>,
    pub selected_method: &'a mut Option<MethodId>,
    pub search_query: &'a mut String,
    pub search_results: &'a [SearchMatch],
    pub search_limited: bool,
    pub tab: &'a mut MethodTab,
    pub tree_focus: &'a mut Option<TypeId>,
    pub export_status: Option<&'a str>,
}

/// Which string literals the strings view lists.
#[derive(Clone, Copy, Debug, PartialEq, Eq, Structural)]
pub enum StringFilter {
    All,
    NonEmpty,
    Urls,
}

/// A dropped file, recognized by its first bytes.
#[derive(Debug, PartialEq, Eq)]
pub enum TargetFile {
    Binary(String),
    Metadata(String),
}

/// First four bytes of an ELF file.
pub open spec fn is_elf_magic(b: Seq<u8>) -> bool {
    b[0] == 0x7f && b[1] == 0x45 && b[2] == 0x4c && b[3] == 0x46
}

/// First four bytes of unprotected metadata: the sanity value in little-endian order.
pub open spec fn is_metadata_magic(b: Seq<u8>) -> bool {
    b[0] == 0xaf && b[1] == 0x1b && b[2] == 0xb1 && b[3] == 0xfa
}

/// Recognizes a dropped file from its leading bytes: an ELF binary or metadata.
pub fn classify_target(path: String, leading: &[u8]) -> (r: Option<TargetFile>)
    ensures
        leading@.len() < 4 ==> r is None,
        leading@.len() >= 4 && is_elf_magic(leading@) ==> r == Some(TargetFile::Binary(path)),
        leading@.len() >= 4 && !is_elf_magic(leading@) && is_metadata_magic(leading@) ==> r
            == Some(TargetFile::Metadata(path)),
        leading@.len() >= 4 && !is_elf_magic(leading@) && !is_metadata_magic(leading@) ==> r is None,
{
    if leading.len() < 4 {
        return None;
    }
    if leading[0] == 0x7f && leading[1] == 0x45 && leading[2] == 0x4c && leading[3] == 0x46 {
        Some(TargetFile::Binary(path))
    } else if leading[0] == 0xaf && leading[1] == 0x1b && leading[2] == 0xb1 && leading[3] == 0xfa {
        Some(TargetFile::Metadata(path))
    } else {
        None
    }
}

/// `value` cut to `max` characters, with `...` appended when something was cut.
pub open spec fn spec_truncate(value: Seq<char>, max: nat) -> Seq<char> {
    if value.len() <= max {
        value
    } else {
        value.take(max as int) + seq!['.', '.', '.']
    }
}

pub fn truncate(value: &str, max: usize) -> (r: String)
    ensures
        r@ == spec_truncate(value@, max as nat),
{
    let chars = chars_of(value);
    if chars.len() <= max {
        return string_from_chars(chars.as_slice());
    }
    let mut out: Vec<char> = Vec::new();
    let mut i: usize = 0;
    while i < max
        invariant
            max < chars@.len(),
            i <= max,
            out@ == chars@.take(i as int),
        decreases max - i,
    {
        out.push(chars[i]);
        i = i + 1;
        assert(out@ =~= chars@.take(i as int));
    }
    out.push('.');
    out.push('.');
    out.push('.');
    assert(out@ =~= chars@.take(max as int) + seq!['.', '.', '.']);
    string_from_chars(out.as_slice())
}


/// The type resolver the views use: backed by the runtime type table where the project
/// has one, else by metadata alone.
pub fn resolver(project: &Il2CppProject) -> (r: TypeResolver<'_, ElfImage>)
    ensures
        r.spec_metadata() == project.spec_metadata(),
        r.spec_runtime() == project.spec_runtime(),
        r.spec_binary() == if project.spec_runtime() is Some {
            Some(&project.spec_binary())
        } else {
            None
        },
        r.spec_resolved() is None,
{
    match project.runtime_metadata() {
        Some(runtime) => TypeResolver::with_runtime(project.metadata(), project.binary(), runtime),
        None => TypeResolver::metadata_only(project.metadata()),
    }
}

/// The type a property shows: its getter's return type, else the type of its setter's
/// last parameter.
pub open spec fn spec_property_type_index(property: Property, metadata: Metadata) -> Option<TypeIndex> {
    match property.getter {
        Some(getter) => Some(metadata.methods@[getter.0 as int].return_type),
        None => match property.setter {
            Some(setter) => {
                let parameters = metadata.methods@[setter.0 as int].parameters@;
                if parameters.len() == 0 {
                    None
                } else {
                    Some(metadata.parameters@[parameters.last().0 as int].parameter_type)
                }
            },
            None => None,
        },
    }
}

/// Accessors of a property and their parameters exist in the metadata.
pub open spec fn property_well_typed(property: Property, metadata: Metadata) -> bool {
    &&& property.getter matches Some(g) ==> g.0 < metadata.methods@.len()
    &&& property.setter matches Some(s) ==> s.0 < metadata.methods@.len() && forall|k: int|
        0 <= k < metadata.methods@[s.0 as int].parameters@.len()
            ==> (#[trigger] metadata.methods@[s.0 as int].parameters@[k]).0
            < metadata.parameters@.len()
}

/// The type index a property's row shows, if it has one.
pub fn property_type_index(property: &Property, metadata: &Metadata) -> (r: Option<TypeIndex>)
    requires
        property_well_typed(*property, *metadata),
    ensures
        r == spec_property_type_index(*property, *metadata),
{
    match property.getter {
        Some(getter) => Some(metadata.methods[getter.0].return_type),
        None => match property.setter {
            Some(setter) => {
                let parameters = &metadata.methods[setter.0].parameters;
                if parameters.len() == 0 {
                    None
                } else {
                    let last = parameters[parameters.len() - 1];
                    Some(metadata.parameters[last.0].parameter_type)
                }
            },
            None => None,
        },
    }
}


/// Whether the strings view lists a literal under `filter`.
pub open spec fn spec_accepts(filter: StringFilter, literal: StringLiteral) -> bool {
    match filter {
        StringFilter::All => true,
        StringFilter::NonEmpty => literal.value@.len() > 0,
        StringFilter::Urls => spec_is_url(literal.value@),
    }
}

impl StringFilter {
    /// Whether the strings view lists `literal` under this filter.
    pub fn accepts(&self, literal: &StringLiteral) -> (r: bool)
        ensures
            r == spec_accepts(*self, *literal),
    {
        match self {
            StringFilter::All => true,
            StringFilter::NonEmpty => !literal.value.as_str().is_empty(),
            StringFilter::Urls => literal.is_url(),
        }
    }
}

/// Longest escaped value the strings list shows before cutting it short.
pub const PREVIEW_LIMIT: usize = 80;

/// How the strings list shows a literal's value: `<empty>` for an empty one, else its
/// escaped text cut to [`PREVIEW_LIMIT`] characters.
pub open spec fn spec_preview(literal: StringLiteral) -> Seq<char> {
    if literal.value@.len() == 0 {
        "<empty>"@
    } else {
        spec_truncate(escape_seq(literal.value@), PREVIEW_LIMIT as nat)
    }
}

/// The text the strings list shows for a literal's value.
pub fn literal_preview(literal: &StringLiteral) -> (r: String)
    ensures
        r@ == spec_preview(*literal),
{
    if literal.value.as_str().is_empty() {
        "<empty>".to_owned()
    } else {
        let escaped = literal.escaped();
        truncate(escaped.as_str(), PREVIEW_LIMIT)
    }
}

} // verus!
