//! What the explorer shows for a navigation target: the selection it makes, the tab
//! title it gets, and how a selection survives reloading a project.
use vstd::prelude::*;

use super::navigation::{AddressTarget, NavigationTarget};
use super::state::{search, search_outcome, SearchMatch, SearchResult};
use crate::cli::{full_type_name, methods_well_typed, spec_full_type_name};
use crate::desktop::navigation::{parse_address, spec_address_value};
use crate::metadata::Metadata;
use crate::model::{MethodId, TypeId};
use crate::text::{
    chars_equal, chars_of, decimal, format_hex8, hex8, push_chars, push_decimal, push_str, seq_starts_with,
    starts_with_chars, string_from_chars, trim,
};

verus! {

/// The type, method and address the explorer has selected, and the type the tree shows.
#[derive(Clone, Copy, Debug, PartialEq, Eq, Structural)]
pub struct Selection {
    pub selected_type: Option<TypeId>,
    pub selected_method: Option<MethodId>,
    pub tree_focus: Option<TypeId>,
    pub selected_address: Option<AddressTarget>,
}

/// The selection after navigating to `target`. Members select their declaring type;
/// a member that is not in the metadata, or any member while nothing is loaded, leaves
/// the type and method selection as it was.
pub open spec fn selection_after(
    before: Selection,
    metadata: Option<Metadata>,
    target: NavigationTarget,
) -> Selection {
    let cleared = Selection { selected_address: None, ..before };
    match target {
        NavigationTarget::ProjectOverview | NavigationTarget::Assembly(_) => Selection {
            selected_type: None,
            selected_method: None,
            tree_focus: None,
            selected_address: None,
        },
        NavigationTarget::Type(id) => Selection {
            selected_type: Some(id),
            selected_method: None,
            tree_focus: Some(id),
            selected_address: None,
        },
        NavigationTarget::Method(id) => match metadata {
            Some(m) if id.0 < m.methods@.len() => {
                let owner = m.methods@[id.0 as int].declaring_type;
                Selection {
                    selected_type: Some(owner),
                    selected_method: Some(id),
                    tree_focus: Some(owner),
                    selected_address: None,
                }
            },
            _ => cleared,
        },
        NavigationTarget::Field(id) => match metadata {
            Some(m) if id.0 < m.fields@.len() => {
                let owner = m.fields@[id.0 as int].declaring_type;
                Selection {
                    selected_type: Some(owner),
                    selected_method: None,
                    tree_focus: Some(owner),
                    selected_address: None,
                }
            },
            _ => cleared,
        },
        NavigationTarget::Property(id) => match metadata {
            Some(m) if id.0 < m.properties@.len() => {
                let owner = m.properties@[id.0 as int].declaring_type;
                Selection {
                    selected_type: Some(owner),
                    selected_method: None,
                    tree_focus: Some(owner),
                    selected_address: None,
                }
            },
            _ => cleared,
        },
        NavigationTarget::Address(address) => Selection {
            selected_type: None,
            selected_method: None,
            tree_focus: None,
            selected_address: Some(address),
        },
    }
}

/// The metadata behind an optional reference.
pub open spec fn loaded(metadata: Option<&Metadata>) -> Option<Metadata> {
    match metadata {
        Some(m) => Some(*m),
        None => None,
    }
}

impl Selection {
    /// Nothing selected.
    pub fn new() -> (r: Self)
        ensures
            r.selected_type is None,
            r.selected_method is None,
            r.tree_focus is None,
            r.selected_address is None,
    {
        Selection { selected_type: None, selected_method: None, tree_focus: None, selected_address: None }
    }

    /// Selects what `target` shows; `metadata` is the loaded project's, if any.
    pub fn apply_selection(&mut self, metadata: Option<&Metadata>, target: NavigationTarget)
        ensures
            *final(self) == selection_after(*old(self), loaded(metadata), target),
    {
        self.selected_address = None;
        match target {
            NavigationTarget::ProjectOverview | NavigationTarget::Assembly(_) => {
                self.selected_type = None;
                self.selected_method = None;
                self.tree_focus = None;
            },
            NavigationTarget::Type(id) => {
                self.selected_type = Some(id);
                self.selected_method = None;
                self.tree_focus = Some(id);
            },
            NavigationTarget::Method(id) => {
                if let Some(m) = metadata {
                    if id.0 < m.methods.len() {
                        let owner = m.methods[id.0].declaring_type;
                        self.selected_type = Some(owner);
                        self.selected_method = Some(id);
                        self.tree_focus = Some(owner);
                    }
                }
            },
            NavigationTarget::Field(id) => {
                if let Some(m) = metadata {
                    if id.0 < m.fields.len() {
                        let owner = m.fields[id.0].declaring_type;
                        self.selected_type = Some(owner);
                        self.selected_method = None;
                        self.tree_focus = Some(owner);
                    }
                }
            },
            NavigationTarget::Property(id) => {
                if let Some(m) = metadata {
                    if id.0 < m.properties.len() {
                        let owner = m.properties[id.0].declaring_type;
                        self.selected_type = Some(owner);
                        self.selected_method = None;
                        self.tree_focus = Some(owner);
                    }
                }
            },
            NavigationTarget::Address(address) => {
                self.selected_type = None;
                self.selected_method = None;
                self.tree_focus = None;
                self.selected_address = Some(address);
            },
        }
    }
}

/// How an address target prints for debugging: `Rva(16)`, `Va(16)`, `FileOffset(16)`.
pub open spec fn address_debug(address: AddressTarget) -> Seq<char> {
    match address {
        AddressTarget::Rva(v) => seq!['R', 'v', 'a', '('] + decimal(v as nat) + seq![')'],
        AddressTarget::Va(v) => seq!['V', 'a', '('] + decimal(v as nat) + seq![')'],
        AddressTarget::FileOffset(v) => seq!['F', 'i', 'l', 'e', 'O', 'f', 'f', 's', 'e', 't', '(']
            + decimal(v as nat) + seq![')'],
    }
}

/// The title of a tab showing `target`: the item's name when the loaded metadata has it,
/// otherwise its kind.
pub open spec fn title_of(metadata: Option<Metadata>, target: NavigationTarget) -> Seq<char> {
    match target {
        NavigationTarget::ProjectOverview => "Project"@,
        NavigationTarget::Assembly(id) => match metadata {
            Some(m) if id.0 < m.assemblies@.len() => m.assemblies@[id.0 as int].name@,
            _ => "Assembly"@,
        },
        NavigationTarget::Type(id) => match metadata {
            Some(m) => spec_full_type_name(m.types@[id.0 as int]),
            None => "Type"@,
        },
        NavigationTarget::Method(id) => match metadata {
            Some(m) if id.0 < m.methods@.len() => m.methods@[id.0 as int].name@,
            _ => "Method"@,
        },
        NavigationTarget::Field(id) => match metadata {
            Some(m) if id.0 < m.fields@.len() => m.fields@[id.0 as int].name@,
            _ => "Field"@,
        },
        NavigationTarget::Property(id) => match metadata {
            Some(m) if id.0 < m.properties@.len() => m.properties@[id.0 as int].name@,
            _ => "Property"@,
        },
        NavigationTarget::Address(address) => address_debug(address),
    }
}

/// The title of a tab showing `target`. A type target must exist in loaded metadata.
pub fn navigation_title(metadata: Option<&Metadata>, target: NavigationTarget) -> (r: String)
    requires
        target matches NavigationTarget::Type(id) ==> (metadata matches Some(m) ==> id.0
            < m.types@.len()),
    ensures
        r@ == title_of(loaded(metadata), target),
{
    match target {
        NavigationTarget::ProjectOverview => "Project".to_owned(),
        NavigationTarget::Assembly(id) => match metadata {
            Some(m) if id.0 < m.assemblies.len() => m.assemblies[id.0].name.clone(),
            _ => "Assembly".to_owned(),
        },
        NavigationTarget::Type(id) => match metadata {
            Some(m) => full_type_name(&m.types[id.0]),
            None => "Type".to_owned(),
        },
        NavigationTarget::Method(id) => match metadata {
            Some(m) if id.0 < m.methods.len() => m.methods[id.0].name.clone(),
            _ => "Method".to_owned(),
        },
        NavigationTarget::Field(id) => match metadata {
            Some(m) if id.0 < m.fields.len() => m.fields[id.0].name.clone(),
            _ => "Field".to_owned(),
        },
        NavigationTarget::Property(id) => match metadata {
            Some(m) if id.0 < m.properties.len() => m.properties[id.0].name.clone(),
            _ => "Property".to_owned(),
        },
        NavigationTarget::Address(address) => {
            let mut out: Vec<char> = Vec::new();
            let v = match address {
                AddressTarget::Rva(v) => {
                    push_str(&mut out, "Rva(");
                    v
                },
                AddressTarget::Va(v) => {
                    push_str(&mut out, "Va(");
                    v
                },
                AddressTarget::FileOffset(v) => {
                    push_str(&mut out, "FileOffset(");
                    v
                },
            };
            push_decimal(v, &mut out);
            push_str(&mut out, ")");
            proof {
                reveal_strlit("Rva(");
                reveal_strlit("Va(");
                reveal_strlit("FileOffset(");
                reveal_strlit(")");
            }
            string_from_chars(out.as_slice())
        },
    }
}

/// Where a search hit leads: an address hit opens its relative address.
pub open spec fn spec_search_target(result: SearchResult) -> NavigationTarget {
    match result {
        SearchResult::Address(v) => NavigationTarget::Address(AddressTarget::Rva(v)),
        SearchResult::Assembly(id) => NavigationTarget::Assembly(id),
        SearchResult::Type(id) => NavigationTarget::Type(id),
        SearchResult::Method(id) => NavigationTarget::Method(id),
        SearchResult::Field(id) => NavigationTarget::Field(id),
    }
}

/// The navigation target a search hit selects.
pub fn search_target(result: SearchResult) -> (r: NavigationTarget)
    ensures
        r == spec_search_target(result),
{
    match result {
        SearchResult::Address(v) => NavigationTarget::Address(AddressTarget::Rva(v)),
        SearchResult::Assembly(id) => NavigationTarget::Assembly(id),
        SearchResult::Type(id) => NavigationTarget::Type(id),
        SearchResult::Method(id) => NavigationTarget::Method(id),
        SearchResult::Field(id) => NavigationTarget::Field(id),
    }
}


/// A selection described by names, so that it can be found again after reloading.
#[derive(Debug, PartialEq, Eq)]
pub enum StableTarget {
    Type { namespace: String, name: String },
    Method { namespace: String, owner_name: String, name: String, parameters: usize },
}

/// The names that describe the selected method, else the selected type, when each exists.
pub open spec fn stable_of(
    metadata: Option<Metadata>,
    selected_method: Option<MethodId>,
    selected_type: Option<TypeId>,
) -> Option<(Seq<char>, Seq<char>, Option<(Seq<char>, nat)>)> {
    match metadata {
        None => None,
        Some(m) => if selected_method matches Some(id) && id.0 < m.methods@.len() {
            let method = m.methods@[(selected_method->0).0 as int];
            let ty = m.types@[method.declaring_type.0 as int];
            Some((ty.namespace@, ty.name@, Some((method.name@, method.parameters@.len()))))
        } else if selected_type matches Some(id) && id.0 < m.types@.len() {
            let ty = m.types@[(selected_type->0).0 as int];
            Some((ty.namespace@, ty.name@, None))
        } else {
            None
        },
    }
}

/// The names a stable target holds: namespace, type name, and for a method its name and
/// parameter count.
pub open spec fn stable_names(target: StableTarget) -> (Seq<char>, Seq<char>, Option<(Seq<char>, nat)>) {
    match target {
        StableTarget::Type { namespace, name } => (namespace@, name@, None),
        StableTarget::Method { namespace, owner_name, name, parameters } => (
            namespace@,
            owner_name@,
            Some((name@, parameters as nat)),
        ),
    }
}

/// Describes the current selection by names.
pub fn stable_target(
    metadata: Option<&Metadata>,
    selected_method: Option<MethodId>,
    selected_type: Option<TypeId>,
) -> (r: Option<StableTarget>)
    requires
        metadata matches Some(m) ==> methods_well_typed(*m),
    ensures
        match r {
            Some(t) => stable_of(loaded(metadata), selected_method, selected_type) == Some(
                stable_names(t),
            ),
            None => stable_of(loaded(metadata), selected_method, selected_type) is None,
        },
{
    let m = match metadata {
        Some(m) => m,
        None => {
            return None;
        },
    };
    if let Some(id) = selected_method {
        if id.0 < m.methods.len() {
            let method = &m.methods[id.0];
            let ty = &m.types[method.declaring_type.0];
            return Some(
                StableTarget::Method {
                    namespace: ty.namespace.clone(),
                    owner_name: ty.name.clone(),
                    name: method.name.clone(),
                    parameters: method.parameters.len(),
                },
            );
        }
    }
    if let Some(id) = selected_type {
        if id.0 < m.types.len() {
            let ty = &m.types[id.0];
            return Some(StableTarget::Type { namespace: ty.namespace.clone(), name: ty.name.clone() });
        }
    }
    None
}

/// Whether the `i`-th entry of the metadata is what `names` describe: a type for type
/// names, a method for method names.
pub open spec fn fits(
    m: Metadata,
    names: (Seq<char>, Seq<char>, Option<(Seq<char>, nat)>),
    i: int,
) -> bool {
    match names.2 {
        None => {
            let ty = m.types@[i];
            ty.namespace@ == names.0 && ty.name@ == names.1
        },
        Some((name, parameters)) => {
            let method = m.methods@[i];
            let ty = m.types@[method.declaring_type.0 as int];
            ty.namespace@ == names.0 && ty.name@ == names.1 && method.name@ == name
                && method.parameters@.len() == parameters
        },
    }
}

/// How many entries `names` are looked up among.
pub open spec fn candidates(m: Metadata, names: (Seq<char>, Seq<char>, Option<(Seq<char>, nat)>)) -> int {
    if names.2 is None {
        m.types@.len() as int
    } else {
        m.methods@.len() as int
    }
}

/// The first entry that `names` describe.
pub open spec fn first_fit(
    m: Metadata,
    names: (Seq<char>, Seq<char>, Option<(Seq<char>, nat)>),
) -> Option<int> {
    if exists|i: int| 0 <= i < candidates(m, names) && #[trigger] fits(m, names, i) {
        Some(
            choose|i: int|
                0 <= i < candidates(m, names) && #[trigger] fits(m, names, i) && forall|j: int|
                    0 <= j < i ==> !fits(m, names, j),
        )
    } else {
        None
    }
}

/// Where a stable target leads in `metadata`: the first type or method it describes.
pub open spec fn restored(metadata: Option<Metadata>, names: (Seq<char>, Seq<char>, Option<(Seq<char>, nat)>)) -> Option<NavigationTarget> {
    match metadata {
        None => None,
        Some(m) => match first_fit(m, names) {
            None => None,
            Some(i) => if names.2 is None {
                Some(NavigationTarget::Type(m.types@[i].id))
            } else {
                Some(NavigationTarget::Method(m.methods@[i].id))
            },
        },
    }
}

proof fn lemma_first_fit_is(m: Metadata, names: (Seq<char>, Seq<char>, Option<(Seq<char>, nat)>), k: int)
    requires
        0 <= k < candidates(m, names),
        fits(m, names, k),
        forall|j: int| 0 <= j < k ==> !fits(m, names, j),
    ensures
        first_fit(m, names) == Some(k),
{
    let c = choose|i: int|
        0 <= i < candidates(m, names) && #[trigger] fits(m, names, i) && forall|j: int|
            0 <= j < i ==> !fits(m, names, j);
    assert(fits(m, names, k));
    if c < k {
        assert(!fits(m, names, c));
    }
    if k < c {
        assert(!fits(m, names, k));
    }
}

/// Finds what a stable target describes in the loaded metadata.
pub fn restore_target(metadata: Option<&Metadata>, target: &StableTarget) -> (r: Option<NavigationTarget>)
    requires
        metadata matches Some(m) ==> methods_well_typed(*m),
    ensures
        r == restored(loaded(metadata), stable_names(*target)),
{
    let m = match metadata {
        Some(m) => m,
        None => {
            return None;
        },
    };
    let ghost names = stable_names(*target);
    match target {
        StableTarget::Type { namespace, name } => {
            let ns = chars_of(namespace.as_str());
            let wanted = chars_of(name.as_str());
            let mut k: usize = 0;
            while k < m.types.len()
                invariant
                    k <= m.types@.len(),
                    names == stable_names(*target),
                    loaded(metadata) == Some(*m),
                    names.2 is None,
                    ns@ == names.0,
                    wanted@ == names.1,
                    forall|j: int| 0 <= j < k ==> !#[trigger] fits(*m, names, j),
                decreases m.types@.len() - k,
            {
                let ty = &m.types[k];
                let a = chars_of(ty.namespace.as_str());
                let b = chars_of(ty.name.as_str());
                if chars_equal(a.as_slice(), ns.as_slice()) && chars_equal(b.as_slice(), wanted.as_slice()) {
                    proof {
                        lemma_first_fit_is(*m, names, k as int);
                    }
                    return Some(NavigationTarget::Type(ty.id));
                }
                k = k + 1;
            }
            None
        },
        StableTarget::Method { namespace, owner_name, name, parameters } => {
            let ns = chars_of(namespace.as_str());
            let owner = chars_of(owner_name.as_str());
            let wanted = chars_of(name.as_str());
            let mut k: usize = 0;
            while k < m.methods.len()
                invariant
                    k <= m.methods@.len(),
                    methods_well_typed(*m),
                    names == stable_names(*target),
                    loaded(metadata) == Some(*m),
                    names.2 == Some((wanted@, *parameters as nat)),
                    ns@ == names.0,
                    owner@ == names.1,
                    forall|j: int| 0 <= j < k ==> !#[trigger] fits(*m, names, j),
                decreases m.methods@.len() - k,
            {
                let method = &m.methods[k];
                let ty = &m.types[method.declaring_type.0];
                let a = chars_of(ty.namespace.as_str());
                let b = chars_of(ty.name.as_str());
                let c = chars_of(method.name.as_str());
                if chars_equal(a.as_slice(), ns.as_slice()) && chars_equal(b.as_slice(), owner.as_slice())
                    && chars_equal(c.as_slice(), wanted.as_slice()) && method.parameters.len()
                    == *parameters {
                    proof {
                        lemma_first_fit_is(*m, names, k as int);
                    }
                    return Some(NavigationTarget::Method(method.id));
                }
                k = k + 1;
            }
            None
        },
    }
}

/// Some entry that `names` describe comes first.
proof fn lemma_first_fit_exists(
    m: Metadata,
    names: (Seq<char>, Seq<char>, Option<(Seq<char>, nat)>),
    k: int,
)
    requires
        0 <= k < candidates(m, names),
        fits(m, names, k),
    ensures
        first_fit(m, names) is Some,
        fits(m, names, first_fit(m, names)->0),
    decreases k,
{
    if exists|j: int| 0 <= j < k && #[trigger] fits(m, names, j) {
        let j = choose|j: int| 0 <= j < k && #[trigger] fits(m, names, j);
        lemma_first_fit_exists(m, names, j);
    } else {
        lemma_first_fit_is(m, names, k);
    }
}

/// Describing a selection and looking it up again in the same metadata finds a type or
/// method of the same names.
pub proof fn law_restore_finds_selection(
    metadata: Metadata,
    selected_method: Option<MethodId>,
    selected_type: Option<TypeId>,
)
    requires
        stable_of(Some(metadata), selected_method, selected_type) is Some,
    ensures
        ({
            let names = stable_of(Some(metadata), selected_method, selected_type)->0;
            &&& restored(Some(metadata), names) is Some
            &&& fits(metadata, names, first_fit(metadata, names)->0)
        }),
{
    let names = stable_of(Some(metadata), selected_method, selected_type)->0;
    if selected_method matches Some(id) && id.0 < metadata.methods@.len() {
        let k = (selected_method->0).0 as int;
        assert(fits(metadata, names, k));
        lemma_first_fit_exists(metadata, names, k);
    } else {
        let k = (selected_type->0).0 as int;
        assert(fits(metadata, names, k));
        lemma_first_fit_exists(metadata, names, k);
    }
}

/// The prefix of a search box query that names a relative address.
pub open spec fn addr_prefix() -> Seq<char> {
    seq!['a', 'd', 'd', 'r', ':']
}

/// The label of an address hit: `RVA 0x` and at least eight uppercase hex digits.
pub open spec fn address_label(address: u64) -> Seq<char> {
    seq!['R', 'V', 'A', ' '] + hex8(address as nat)
}

/// The address an `addr:` query names, if it names one.
pub open spec fn queried_address(query: Seq<char>) -> Option<u64> {
    if seq_starts_with(query, addr_prefix()) {
        let rest = trim(query.skip(5));
        if rest.len() > 0 {
            spec_address_value(rest)
        } else {
            None
        }
    } else {
        None
    }
}

/// Runs a search box query: a single address hit for an `addr:` query that names an
/// address, otherwise a search of `entries`.
pub fn search_results_for(entries: &[SearchMatch], query: &str) -> (r: (Vec<SearchMatch>, bool))
    ensures
        queried_address(query@) matches Some(a) ==> {
            &&& r.0@.len() == 1
            &&& r.0@[0].result == SearchResult::Address(a)
            &&& r.0@[0].label@ == address_label(a)
            &&& r.0@[0].kind@ == "Address"@
            &&& r.0@[0].searchable@.len() == 0
            &&& !r.1
        },
        queried_address(query@) is None ==> search_outcome(entries@, query@, r.0@, r.1),
{
    let chars = chars_of(query);
    let mut prefix: Vec<char> = Vec::new();
    prefix.push('a');
    prefix.push('d');
    prefix.push('d');
    prefix.push('r');
    prefix.push(':');
    assert(prefix@ =~= addr_prefix());
    if starts_with_chars(chars.as_slice(), prefix.as_slice()) {
        let mut tail: Vec<char> = Vec::new();
        let mut i: usize = 5;
        while i < chars.len()
            invariant
                5 <= i <= chars@.len(),
                tail@ == chars@.subrange(5, i as int),
            decreases chars@.len() - i,
        {
            tail.push(chars[i]);
            i = i + 1;
            assert(tail@ =~= chars@.subrange(5, i as int));
        }
        assert(tail@ =~= query@.skip(5));
        let rest = string_from_chars(tail.as_slice());
        match parse_address(rest.as_str()) {
            Ok(address) => {
                let mut label: Vec<char> = Vec::new();
                label.push('R');
                label.push('V');
                label.push('A');
                label.push(' ');
                let digits = format_hex8(address);
                push_chars(&mut label, digits.as_slice());
                return (
                    vec![
                        SearchMatch {
                            result: SearchResult::Address(address),
                            label: string_from_chars(label.as_slice()),
                            kind: "Address",
                            searchable: String::new(),
                        },
                    ],
                    false,
                );
            },
            Err(_) => {},
        }
    }
    search(entries, query)
}


/// The address space a typed address is read in.
#[derive(Clone, Copy, Debug, PartialEq, Eq, Structural)]
pub enum AddressKind {
    Rva,
    Va,
    FileOffset,
}

/// The location a typed address names in the chosen address space.
pub open spec fn address_in(kind: AddressKind, value: u64) -> AddressTarget {
    match kind {
        AddressKind::Rva => AddressTarget::Rva(value),
        AddressKind::Va => AddressTarget::Va(value),
        AddressKind::FileOffset => AddressTarget::FileOffset(value),
    }
}

/// Reads the "go to address" input: the location it names, or why it names none.
pub fn go_to_address(input: &str, kind: AddressKind) -> (r: Result<NavigationTarget, &'static str>)
    ensures
        trim(input@).len() == 0 ==> r == Err::<NavigationTarget, &'static str>(
            "Address is required.",
        ),
        trim(input@).len() > 0 ==> match spec_address_value(trim(input@)) {
            Some(v) => r == Ok::<NavigationTarget, &'static str>(
                NavigationTarget::Address(address_in(kind, v)),
            ),
            None => r == Err::<NavigationTarget, &'static str>("Invalid hexadecimal address."),
        },
{
    let value = parse_address(input)?;
    let address = match kind {
        AddressKind::Rva => AddressTarget::Rva(value),
        AddressKind::Va => AddressTarget::Va(value),
        AddressKind::FileOffset => AddressTarget::FileOffset(value),
    };
    Ok(NavigationTarget::Address(address))
}

} // verus!
