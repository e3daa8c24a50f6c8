use vstd::prelude::*;

use crate::analysis::Il2CppProject;
use crate::cli::{full_type_name, spec_full_type_name};
use crate::metadata::Metadata;
use crate::model::{AssemblyId, FieldId, MethodId, TypeId};
use crate::desktop::navigation::{spec_address_value, strip_hex_prefix};
use crate::text::push_str;
use crate::text::{digit_value, digits_value, is_whitespace, trim_end, trim_start, upper_hex, upper_hex_digit, zero_pad};
use crate::text::{
    ascii_lower_seq, chars_equal, chars_of, contains_chars, eq_ignore_ascii_case, format_hex8,
    hex8, lowercase, seq_contains, seq_starts_with, starts_with_chars, string_from_chars,
    to_lowercase, trim, trim_chars,
};

verus! {

/// Sub-view of a method in the explorer.
#[derive(Clone, Copy, Debug, PartialEq, Eq, Structural)]
pub enum MethodTab {
    Overview,
    CSharp,
    Disassembly,
    Raw,
}

/// What a search hit selects.
#[derive(Clone, Copy, Debug, PartialEq, Eq, Structural)]
pub enum SearchResult {
    Address(u64),
    Assembly(AssemblyId),
    Type(TypeId),
    Method(MethodId),
    Field(FieldId),
}

/// One searchable entry: a label, its category and its lowercase search text.
#[derive(Debug)]
pub struct SearchMatch {
    pub result: SearchResult,
    pub label: String,
    pub kind: &'static str,
    pub searchable: String,
}

impl Clone for SearchMatch {
    fn clone(&self) -> (r: Self)
        ensures
            r == *self,
    {
        SearchMatch {
            result: self.result,
            label: self.label.clone(),
            kind: self.kind,
            searchable: self.searchable.clone(),
        }
    }
}

/// Most hits a search returns.
pub const SEARCH_LIMIT: usize = 100;

/// `format!("0x{:08X}")` of a present value, `-` otherwise.
pub open spec fn spec_format_hex(value: Option<u64>) -> Seq<char> {
    match value {
        Some(v) => hex8(v as nat),
        None => seq!['-'],
    }
}

pub fn format_hex(value: Option<u64>) -> (r: String)
    ensures
        r@ == spec_format_hex(value),
{
    match value {
        Some(v) => {
            let chars = format_hex8(v);
            string_from_chars(chars.as_slice())
        },
        None => {
            let chars = vec!['-'];
            string_from_chars(chars.as_slice())
        },
    }
}

pub fn format_token(value: u32) -> (r: String)
    ensures
        r@ == hex8(value as nat),
{
    let chars = format_hex8(value as u64);
    string_from_chars(chars.as_slice())
}

/// Category prefixes a query may start with.
pub open spec fn known_kinds() -> Seq<Seq<char>> {
    seq![
        seq!['t', 'y', 'p', 'e'],
        seq!['m', 'e', 't', 'h', 'o', 'd'],
        seq!['f', 'i', 'e', 'l', 'd'],
        seq!['n', 'a', 'm', 'e', 's', 'p', 'a', 'c', 'e'],
        seq!['a', 's', 's', 'e', 'm', 'b', 'l', 'y'],
    ]
}

/// `k` names a known category, ignoring ASCII case.
pub open spec fn is_known_kind(k: Seq<char>) -> bool {
    exists|i: int| 0 <= i < 5 && ascii_lower_seq(k) == #[trigger] known_kinds()[i]
}

/// Position of the first `:` in `s`.
pub open spec fn first_colon(s: Seq<char>) -> Option<int> {
    if exists|i: int| 0 <= i < s.len() && s[i] == ':' {
        Some(choose|i: int| 0 <= i < s.len() && s[i] == ':' && forall|j: int| 0 <= j < i ==> s[j] != ':')
    } else {
        None
    }
}

/// Category filter and lowercase search text of a query such as `type:Player`.
pub open spec fn spec_parse_search_query(query: Seq<char>) -> (Option<Seq<char>>, Seq<char>) {
    let t = trim(query);
    match first_colon(t) {
        Some(p) => {
            let kind = t.take(p);
            (
                if is_known_kind(kind) {
                    Some(kind)
                } else {
                    None
                },
                lowercase(trim(t.skip(p + 1))),
            )
        },
        None => (None, lowercase(trim(t))),
    }
}

#[verifier::loop_isolation(false)]
fn parse_search_query(query: &str) -> (r: (Option<Vec<char>>, Vec<char>))
    ensures
        (match r.0 {
            Some(k) => Some(k@),
            None => None,
        }, r.1@) == spec_parse_search_query(query@),
{
    let chars = chars_of(query);
    let t = trim_chars(chars.as_slice());
    let mut p: usize = 0;
    while p < t.len() && t[p] != ':'
        invariant
            p <= t@.len(),
            forall|j: int| 0 <= j < p ==> t@[j] != ':',
        decreases t@.len() - p,
    {
        p = p + 1;
    }
    if p == t.len() {
        assert(first_colon(t@) is None);
        let value = trim_chars(t.as_slice());
        let lowered = chars_of(to_lowercase(string_from_chars(value.as_slice()).as_str()).as_str());
        return (None, lowered);
    }
    proof {
        let w = choose|i: int| 0 <= i < t@.len() && t@[i] == ':' && forall|j: int| 0 <= j < i ==> t@[j] != ':';
        assert(0 <= p < t@.len() && t@[p as int] == ':' && forall|j: int| 0 <= j < p ==> t@[j] != ':');
        if w < p {
        } else if w > p {
            assert(t@[p as int] != ':');
        }
    }
    let mut kind: Vec<char> = Vec::new();
    let mut i: usize = 0;
    while i < p
        invariant
            p < t@.len(),
            i <= p,
            kind@ == t@.take(i as int),
        decreases p - i,
    {
        kind.push(t[i]);
        i = i + 1;
        assert(kind@ =~= t@.take(i as int));
    }
    let mut rest: Vec<char> = Vec::new();
    let mut i: usize = p + 1;
    while i < t.len()
        invariant
            p < t@.len(),
            p + 1 <= i <= t@.len(),
            rest@ == t@.subrange(p + 1, i as int),
        decreases t@.len() - i,
    {
        rest.push(t[i]);
        i = i + 1;
        assert(rest@ =~= t@.subrange(p + 1, i as int));
    }
    assert(rest@ =~= t@.skip(p + 1));
    let value = trim_chars(rest.as_slice());
    let lowered = chars_of(to_lowercase(string_from_chars(value.as_slice()).as_str()).as_str());
    let known: Vec<Vec<char>> = vec![
        vec!['t', 'y', 'p', 'e'],
        vec!['m', 'e', 't', 'h', 'o', 'd'],
        vec!['f', 'i', 'e', 'l', 'd'],
        vec!['n', 'a', 'm', 'e', 's', 'p', 'a', 'c', 'e'],
        vec!['a', 's', 's', 'e', 'm', 'b', 'l', 'y'],
    ];
    let mut k: usize = 0;
    while k < known.len()
        invariant
            known@.len() == 5,
            forall|j: int| 0 <= j < 5 ==> (#[trigger] known@[j])@ == known_kinds()[j],
            k <= 5,
            forall|j: int| 0 <= j < k ==> ascii_lower_seq(kind@) != #[trigger] known_kinds()[j],
        decreases 5 - k,
    {
        if eq_ignore_ascii_case(kind.as_slice(), known[k].as_slice()) {
            proof {
                let kk = known_kinds()[k as int];
                assert(ascii_lower_seq(kk) =~= kk);
                assert(is_known_kind(kind@));
            }
            return (Some(kind), lowered);
        }
        proof {
            let kk = known_kinds()[k as int];
            assert(ascii_lower_seq(kk) =~= kk);
        }
        k = k + 1;
    }
    assert(!is_known_kind(kind@));
    (None, lowered)
}

/// Rank of a hit: 0 for an exact match, 1 for a prefix match, 2 otherwise.
pub open spec fn spec_ranking(value: Seq<char>, query: Seq<char>) -> u8 {
    if value == query {
        0
    } else if seq_starts_with(value, query) {
        1
    } else {
        2
    }
}

fn ranking(value: &[char], query: &[char]) -> (r: u8)
    ensures
        r == spec_ranking(value@, query@),
{
    if chars_equal(value, query) {
        0
    } else if starts_with_chars(value, query) {
        1
    } else {
        2
    }
}

/// The entry passes the category filter of a query.
pub open spec fn kind_matches(kind: Option<Seq<char>>, entry_kind: Seq<char>) -> bool {
    match kind {
        Some(k) => ascii_lower_seq(entry_kind) == ascii_lower_seq(k),
        None => true,
    }
}

/// Hits of `rank` among `entries`, in entry order.
pub open spec fn ranked_hits(
    entries: Seq<SearchMatch>,
    kind: Option<Seq<char>>,
    query: Seq<char>,
    rank: u8,
) -> Seq<SearchMatch>
    decreases entries.len(),
{
    if entries.len() == 0 {
        Seq::empty()
    } else {
        let rest = ranked_hits(entries.drop_last(), kind, query, rank);
        let e = entries.last();
        if kind_matches(kind, e.kind@) && seq_contains(e.searchable@, query) && spec_ranking(
            e.searchable@,
            query,
        ) == rank {
            rest.push(e)
        } else {
            rest
        }
    }
}

/// All hits, exact matches first, then prefix matches, then the rest, each in entry order.
pub open spec fn search_hits(entries: Seq<SearchMatch>, kind: Option<Seq<char>>, query: Seq<char>) -> Seq<
    SearchMatch,
> {
    ranked_hits(entries, kind, query, 0) + ranked_hits(entries, kind, query, 1) + ranked_hits(
        entries,
        kind,
        query,
        2,
    )
}

fn collect_rank(
    entries: &[SearchMatch],
    kind: &Option<Vec<char>>,
    query: &Vec<char>,
    rank: u8,
    out: &mut Vec<SearchMatch>,
)
    ensures
        final(out)@ == old(out)@ + ranked_hits(
            entries@,
            match kind {
                Some(k) => Some(k@),
                None => None,
            },
            query@,
            rank,
        ),
{
    let ghost gk = match kind {
        Some(k) => Some(k@),
        None => None::<Seq<char>>,
    };
    let ghost start = out@;
    let mut i: usize = 0;
    while i < entries.len()
        invariant
            i <= entries@.len(),
            gk == match kind {
                Some(k) => Some(k@),
                None => None::<Seq<char>>,
            },
            out@ == start + ranked_hits(entries@.take(i as int), gk, query@, rank),
        decreases entries@.len() - i,
    {
        let e = &entries[i];
        assert(entries@.take(i as int + 1).drop_last() =~= entries@.take(i as int));
        let kind_ok = match kind {
            Some(k) => {
                let ek = chars_of(e.kind);
                eq_ignore_ascii_case(ek.as_slice(), k.as_slice())
            },
            None => true,
        };
        if kind_ok {
            let searchable = chars_of(e.searchable.as_str());
            if contains_chars(searchable.as_slice(), query.as_slice()) && ranking(
                searchable.as_slice(),
                query.as_slice(),
            ) == rank {
                out.push(e.clone());
                assert(out@ =~= start + ranked_hits(entries@.take(i as int + 1), gk, query@, rank));
            }
        }
        i = i + 1;
    }
    assert(entries@.take(i as int) =~= entries@);
}

/// What searching `entries` for `query` gives: nothing for an empty query, else at most
/// [`SEARCH_LIMIT`] of the ranked hits, and whether more were found.
pub open spec fn search_outcome(
    entries: Seq<SearchMatch>,
    query: Seq<char>,
    found: Seq<SearchMatch>,
    limited: bool,
) -> bool {
    let (kind, q) = spec_parse_search_query(query);
    let hits = search_hits(entries, kind, q);
    &&& q.len() == 0 ==> found.len() == 0 && !limited
    &&& q.len() > 0 ==> limited == (hits.len() > SEARCH_LIMIT) && found == if hits.len()
        > SEARCH_LIMIT {
        hits.take(SEARCH_LIMIT as int)
    } else {
        hits
    }
}

/// Case-insensitive search with an optional `kind:` prefix: at most [`SEARCH_LIMIT`] hits
/// ranked exact, prefix, then substring, and whether more were found.
pub fn search(entries: &[SearchMatch], query: &str) -> (r: (Vec<SearchMatch>, bool))
    ensures
        search_outcome(entries@, query@, r.0@, r.1),
{
    let (kind, query) = parse_search_query(query);
    if query.len() == 0 {
        return (Vec::new(), false);
    }
    let mut hits: Vec<SearchMatch> = Vec::new();
    collect_rank(entries, &kind, &query, 0, &mut hits);
    collect_rank(entries, &kind, &query, 1, &mut hits);
    collect_rank(entries, &kind, &query, 2, &mut hits);
    let limited = hits.len() > SEARCH_LIMIT;
    if limited {
        hits.truncate(SEARCH_LIMIT);
    }
    (hits, limited)
}


/// Every type's id, every method's and every field's declaring type name an existing type.
pub open spec fn entries_well_typed(metadata: Metadata) -> bool {
    &&& forall|k: int|
        0 <= k < metadata.types@.len() ==> (#[trigger] metadata.types@[k]).id.0
            < metadata.types@.len()
    &&& forall|k: int|
        0 <= k < metadata.methods@.len() ==> (#[trigger] metadata.methods@[k]).declaring_type.0
            < metadata.types@.len()
    &&& forall|k: int|
        0 <= k < metadata.fields@.len() ==> (#[trigger] metadata.fields@[k]).declaring_type.0
            < metadata.types@.len()
}

/// The display name of a type: its namespace-qualified name.
pub open spec fn spec_type_name(metadata: Metadata, type_id: TypeId) -> Seq<char> {
    spec_full_type_name(metadata.types@[type_id.0 as int])
}

/// The namespace-qualified name of the type `type_id`.
pub fn display_type_name(project: &Il2CppProject, type_id: TypeId) -> (r: String)
    requires
        type_id.0 < project.spec_metadata().types@.len(),
    ensures
        r@ == spec_type_name(project.spec_metadata(), type_id),
{
    full_type_name(&project.metadata().types[type_id.0])
}

/// A search entry as (selection, label, category).
pub type EntryModel = (SearchResult, Seq<char>, Seq<char>);

/// `Type::Member` label of a member declared by `declaring`.
pub open spec fn member_label(metadata: Metadata, declaring: TypeId, name: Seq<char>) -> Seq<char> {
    spec_type_name(metadata, declaring) + seq![':', ':'] + name
}

/// Entries for the first `n` assemblies.
pub open spec fn assembly_entries(metadata: Metadata, n: nat) -> Seq<EntryModel>
    decreases n,
{
    if n == 0 {
        Seq::empty()
    } else {
        let assembly = metadata.assemblies@[n - 1];
        assembly_entries(metadata, (n - 1) as nat).push(
            (SearchResult::Assembly(assembly.id), assembly.name@, "Assembly"@),
        )
    }
}

/// Entries for the first `n` types: the type, then its namespace when it has one.
pub open spec fn type_entries(metadata: Metadata, n: nat) -> Seq<EntryModel>
    decreases n,
{
    if n == 0 {
        Seq::empty()
    } else {
        let ty = metadata.types@[n - 1];
        let with_type = type_entries(metadata, (n - 1) as nat).push(
            (SearchResult::Type(ty.id), spec_type_name(metadata, ty.id), "Type"@),
        );
        if ty.namespace@.len() == 0 {
            with_type
        } else {
            with_type.push((SearchResult::Type(ty.id), ty.namespace@, "Namespace"@))
        }
    }
}

/// Entries for the first `n` methods.
pub open spec fn method_entries(metadata: Metadata, n: nat) -> Seq<EntryModel>
    decreases n,
{
    if n == 0 {
        Seq::empty()
    } else {
        let method = metadata.methods@[n - 1];
        method_entries(metadata, (n - 1) as nat).push(
            (
                SearchResult::Method(method.id),
                member_label(metadata, method.declaring_type, method.name@),
                "Method"@,
            ),
        )
    }
}

/// Entries for the first `n` fields.
pub open spec fn field_entries(metadata: Metadata, n: nat) -> Seq<EntryModel>
    decreases n,
{
    if n == 0 {
        Seq::empty()
    } else {
        let field = metadata.fields@[n - 1];
        field_entries(metadata, (n - 1) as nat).push(
            (
                SearchResult::Field(field.id),
                member_label(metadata, field.declaring_type, field.name@),
                "Field"@,
            ),
        )
    }
}

/// All search entries: assemblies, types and namespaces, methods, then fields.
pub open spec fn all_entries(metadata: Metadata) -> Seq<EntryModel> {
    assembly_entries(metadata, metadata.assemblies@.len()) + type_entries(
        metadata,
        metadata.types@.len(),
    ) + method_entries(metadata, metadata.methods@.len()) + field_entries(
        metadata,
        metadata.fields@.len(),
    )
}

/// `entry` shows `model`, searchable by the lowercase label.
pub open spec fn entry_is(entry: SearchMatch, model: EntryModel) -> bool {
    &&& entry.result == model.0
    &&& entry.label@ == model.1
    &&& entry.kind@ == model.2
    &&& entry.searchable@ == lowercase(model.1)
}

/// Appends an entry with the given selection, label and category.
fn push_entry(
    entries: &mut Vec<SearchMatch>,
    result: SearchResult,
    label: String,
    kind: &'static str,
)
    ensures
        final(entries)@.len() == old(entries)@.len() + 1,
        forall|i: int| 0 <= i < old(entries)@.len() ==> final(entries)@[i] == old(entries)@[i],
        entry_is(final(entries)@.last(), (result, label@, kind@)),
{
    let searchable = to_lowercase(label.as_str());
    entries.push(SearchMatch { result, label, kind, searchable });
}

/// `Type::member` for a member of `declaring`.
fn member_name(metadata: &Metadata, declaring: TypeId, name: &String) -> (r: String)
    requires
        declaring.0 < metadata.types@.len(),
    ensures
        r@ == member_label(*metadata, declaring, name@),
{
    let owner = full_type_name(&metadata.types[declaring.0]);
    let mut out = chars_of(owner.as_str());
    out.push(':');
    out.push(':');
    push_str(&mut out, name.as_str());
    assert(out@ =~= member_label(*metadata, declaring, name@));
    string_from_chars(out.as_slice())
}

/// Builds the searchable entries of a project: assemblies, types with their namespaces,
/// methods and fields, each labelled for display and lowercased for matching.
pub fn build_search_entries(project: &Il2CppProject) -> (r: Vec<SearchMatch>)
    requires
        entries_well_typed(project.spec_metadata()),
    ensures
        r@.len() == all_entries(project.spec_metadata()).len(),
        forall|i: int|
            0 <= i < r@.len() ==> entry_is(#[trigger] r@[i], all_entries(project.spec_metadata())[i]),
{
    let metadata = project.metadata();
    let ghost m = *metadata;
    let mut entries: Vec<SearchMatch> = Vec::new();
    let mut k: usize = 0;
    while k < metadata.assemblies.len()
        invariant
            k <= metadata.assemblies@.len(),
            m == *metadata,
            entries@.len() == assembly_entries(m, k as nat).len(),
            forall|i: int|
                0 <= i < entries@.len() ==> entry_is(#[trigger] entries@[i], assembly_entries(m, k as nat)[i]),
        decreases metadata.assemblies@.len() - k,
    {
        let assembly = &metadata.assemblies[k];
        let ghost before = entries@;
        push_entry(&mut entries, SearchResult::Assembly(assembly.id), assembly.name.clone(), "Assembly");
        proof {
            let next = assembly_entries(m, (k + 1) as nat);
            assert forall|i: int| 0 <= i < entries@.len() implies entry_is(
                #[trigger] entries@[i],
                next[i],
            ) by {
                if i < before.len() {
                    assert(entries@[i] == before[i]);
                }
            }
        }
        k = k + 1;
    }
    let ghost first = assembly_entries(m, m.assemblies@.len());
    let mut k: usize = 0;
    while k < metadata.types.len()
        invariant
            k <= metadata.types@.len(),
            m == *metadata,
            m == project.spec_metadata(),
            entries_well_typed(m),
            entries@.len() == first.len() + type_entries(m, k as nat).len(),
            forall|i: int|
                0 <= i < entries@.len() ==> entry_is(
                    #[trigger] entries@[i],
                    (first + type_entries(m, k as nat))[i],
                ),
        decreases metadata.types@.len() - k,
    {
        let ty = &metadata.types[k];
        let ghost before = entries@;
        let name = display_type_name(project, ty.id);
        push_entry(&mut entries, SearchResult::Type(ty.id), name, "Type");
        if !ty.namespace.as_str().is_empty() {
            push_entry(&mut entries, SearchResult::Type(ty.id), ty.namespace.clone(), "Namespace");
        }
        proof {
            let next = first + type_entries(m, (k + 1) as nat);
            assert forall|i: int| 0 <= i < entries@.len() implies entry_is(
                #[trigger] entries@[i],
                next[i],
            ) by {
                if i < before.len() {
                    assert(entries@[i] == before[i]);
                    assert(next[i] == (first + type_entries(m, k as nat))[i]);
                }
            }
        }
        k = k + 1;
    }
    let ghost second = first + type_entries(m, m.types@.len());
    let mut k: usize = 0;
    while k < metadata.methods.len()
        invariant
            k <= metadata.methods@.len(),
            m == *metadata,
            m == project.spec_metadata(),
            entries_well_typed(m),
            entries@.len() == second.len() + method_entries(m, k as nat).len(),
            forall|i: int|
                0 <= i < entries@.len() ==> entry_is(
                    #[trigger] entries@[i],
                    (second + method_entries(m, k as nat))[i],
                ),
        decreases metadata.methods@.len() - k,
    {
        let method = &metadata.methods[k];
        let ghost before = entries@;
        let label = member_name(metadata, method.declaring_type, &method.name);
        push_entry(&mut entries, SearchResult::Method(method.id), label, "Method");
        proof {
            let next = second + method_entries(m, (k + 1) as nat);
            assert forall|i: int| 0 <= i < entries@.len() implies entry_is(
                #[trigger] entries@[i],
                next[i],
            ) by {
                if i < before.len() {
                    assert(entries@[i] == before[i]);
                    assert(next[i] == (second + method_entries(m, k as nat))[i]);
                }
            }
        }
        k = k + 1;
    }
    let ghost third = second + method_entries(m, m.methods@.len());
    let mut k: usize = 0;
    while k < metadata.fields.len()
        invariant
            k <= metadata.fields@.len(),
            m == *metadata,
            m == project.spec_metadata(),
            entries_well_typed(m),
            entries@.len() == third.len() + field_entries(m, k as nat).len(),
            forall|i: int|
                0 <= i < entries@.len() ==> entry_is(
                    #[trigger] entries@[i],
                    (third + field_entries(m, k as nat))[i],
                ),
        decreases metadata.fields@.len() - k,
    {
        let field = &metadata.fields[k];
        let ghost before = entries@;
        let label = member_name(metadata, field.declaring_type, &field.name);
        push_entry(&mut entries, SearchResult::Field(field.id), label, "Field");
        proof {
            let next = third + field_entries(m, (k + 1) as nat);
            assert forall|i: int| 0 <= i < entries@.len() implies entry_is(
                #[trigger] entries@[i],
                next[i],
            ) by {
                if i < before.len() {
                    assert(entries@[i] == before[i]);
                    assert(next[i] == (third + field_entries(m, k as nat))[i]);
                }
            }
        }
        k = k + 1;
    }
    assert(third + field_entries(m, m.fields@.len()) =~= all_entries(m));
    entries
}


proof fn lemma_hex_digit_reads_back(d: int)
    requires
        0 <= d < 16,
    ensures
        digit_value(upper_hex_digit(d), 16) == Some(d as nat),
        !is_whitespace(upper_hex_digit(d)),
        upper_hex_digit(d) != '+',
{
}

proof fn lemma_upper_hex_reads_back(v: nat)
    ensures
        upper_hex(v).len() > 0,
        digits_value(upper_hex(v), 16) == Some(v),
        !is_whitespace(upper_hex(v).last()),
        upper_hex(v)[0] != '+',
    decreases v,
{
    let s = upper_hex(v);
    if v < 16 {
        lemma_hex_digit_reads_back(v as int);
        assert(s.drop_last() =~= Seq::<char>::empty());
        assert(digits_value(s.drop_last(), 16) == Some(0nat));
        assert(digits_value(s, 16) == Some((0 * 16 + v) as nat));
    } else {
        let high = v / 16;
        let low = v % 16;
        lemma_upper_hex_reads_back(high);
        lemma_hex_digit_reads_back(low as int);
        assert(s.drop_last() =~= upper_hex(high));
        assert(s.last() == upper_hex_digit(low as int));
        assert(s[0] == upper_hex(high)[0]);
        assert(v == high * 16 + low) by (nonlinear_arith)
            requires
                high == v / 16,
                low == v % 16,
        ;
        assert(digits_value(s, 16) == Some((high * 16 + low) as nat));
    }
}

proof fn lemma_zeros_read_as_zero(n: nat)
    ensures
        digits_value(Seq::new(n, |i: int| '0'), 16) == Some(0nat),
    decreases n,
{
    if n > 0 {
        lemma_zeros_read_as_zero((n - 1) as nat);
        assert(Seq::new(n, |i: int| '0').drop_last() =~= Seq::new((n - 1) as nat, |i: int| '0'));
    }
}

proof fn lemma_leading_zeros_read_back(n: nat, d: Seq<char>)
    ensures
        digits_value(Seq::new(n, |i: int| '0') + d, 16) == digits_value(d, 16),
    decreases d.len(),
{
    let zeros = Seq::new(n, |i: int| '0');
    if d.len() == 0 {
        assert(zeros + d =~= zeros);
        lemma_zeros_read_as_zero(n);
    } else {
        lemma_leading_zeros_read_back(n, d.drop_last());
        assert((zeros + d).drop_last() =~= zeros + d.drop_last());
        assert((zeros + d).last() == d.last());
    }
}

/// Typing an address back as the explorer displays it gives the same address.
pub proof fn law_parse_reads_formatted_address(v: u64)
    ensures
        trim(spec_format_hex(Some(v))).len() > 0,
        spec_address_value(trim(spec_format_hex(Some(v)))) == Some(v),
{
    let digits = upper_hex(v as nat);
    let padded = zero_pad(digits, 8);
    let text = spec_format_hex(Some(v));
    lemma_upper_hex_reads_back(v as nat);
    if digits.len() < 8 {
        lemma_leading_zeros_read_back((8 - digits.len()) as nat, digits);
        assert(padded[0] == '0');
    }
    assert(padded.last() == digits.last());
    assert(text =~= seq!['0', 'x'] + padded);
    assert(trim_start(text) == text);
    assert(text.last() == padded.last());
    assert(trim_end(text) == text);
    assert(strip_hex_prefix(text) =~= padded);
}

} // verus!
