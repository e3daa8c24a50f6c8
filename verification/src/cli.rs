//! Naming, method lookup and address presentation for the command-line explorer.
use vstd::prelude::*;

use crate::binary::{is_load, is_load_segment, Architecture, BinaryImage, Endianness, SegmentInfo};
use crate::metadata::Metadata;
use crate::model::{Method, MethodId, TypeDefinition};
use crate::registration::native::spec_resolve_method;
use crate::registration::{CodeGenModule, RegistrationInfo};
use crate::text::{
    chars_equal, chars_of, contains_chars, lower_hex, lowercase, parse_u64, push_lower_hex,
    push_str, seq_contains, spec_parse_u64, string_from_chars, to_lowercase,
};
use crate::{Error, Result};

verus! {

/// `Namespace.Name`, or just `Name` in the global namespace.
pub open spec fn spec_full_type_name(ty: TypeDefinition) -> Seq<char> {
    if ty.namespace@.len() == 0 {
        ty.name@
    } else {
        ty.namespace@ + seq!['.'] + ty.name@
    }
}

/// The namespace-qualified name of a type.
pub fn full_type_name(ty: &TypeDefinition) -> (r: String)
    ensures
        r@ == spec_full_type_name(*ty),
{
    if ty.namespace.as_str().is_empty() {
        ty.name.clone()
    } else {
        let mut out = chars_of(ty.namespace.as_str());
        out.push('.');
        push_str(&mut out, ty.name.as_str());
        string_from_chars(out.as_slice())
    }
}

/// Every method's declaring type exists.
pub open spec fn methods_well_typed(metadata: Metadata) -> bool {
    forall|k: int|
        0 <= k < metadata.methods@.len() ==> (#[trigger] metadata.methods@[k]).declaring_type.0
            < metadata.types@.len()
}

/// `Namespace.Type::Method`.
pub open spec fn spec_full_method_name(metadata: Metadata, method: Method) -> Seq<char> {
    spec_full_type_name(metadata.types@[method.declaring_type.0 as int]) + seq![':', ':']
        + method.name@
}

/// `Type::Method`.
pub open spec fn spec_short_method_name(metadata: Metadata, method: Method) -> Seq<char> {
    metadata.types@[method.declaring_type.0 as int].name@ + seq![':', ':'] + method.name@
}

/// One `...` per parameter, separated by `, `.
pub open spec fn parameter_list(n: nat) -> Seq<char>
    decreases n,
{
    if n == 0 {
        Seq::empty()
    } else if n == 1 {
        seq!['.', '.', '.']
    } else {
        parameter_list((n - 1) as nat) + seq![',', ' ', '.', '.', '.']
    }
}

/// `Namespace.Type::Method(..., ...)` with one `...` per parameter.
pub open spec fn spec_method_signature(metadata: Metadata, method: Method) -> Seq<char> {
    spec_full_method_name(metadata, method) + seq!['('] + parameter_list(
        method.parameters@.len(),
    ) + seq![')']
}

/// The fully qualified name of a method.
pub fn full_method_name(metadata: &Metadata, method: &Method) -> (r: String)
    requires
        method.declaring_type.0 < metadata.types@.len(),
    ensures
        r@ == spec_full_method_name(*metadata, *method),
{
    let declaring = full_type_name(&metadata.types[method.declaring_type.0]);
    let mut out = chars_of(declaring.as_str());
    out.push(':');
    out.push(':');
    push_str(&mut out, method.name.as_str());
    assert(out@ =~= spec_full_method_name(*metadata, *method));
    string_from_chars(out.as_slice())
}

/// The type-qualified name of a method.
pub fn short_method_name(metadata: &Metadata, method: &Method) -> (r: String)
    requires
        method.declaring_type.0 < metadata.types@.len(),
    ensures
        r@ == spec_short_method_name(*metadata, *method),
{
    let mut out = chars_of(metadata.types[method.declaring_type.0].name.as_str());
    out.push(':');
    out.push(':');
    push_str(&mut out, method.name.as_str());
    assert(out@ =~= spec_short_method_name(*metadata, *method));
    string_from_chars(out.as_slice())
}

/// A method's qualified name with one `...` placeholder per parameter.
pub fn method_signature(metadata: &Metadata, method: &Method) -> (r: String)
    requires
        method.declaring_type.0 < metadata.types@.len(),
    ensures
        r@ == spec_method_signature(*metadata, *method),
{
    let name = full_method_name(metadata, method);
    let mut out = chars_of(name.as_str());
    out.push('(');
    let ghost head = out@;
    let mut i: usize = 0;
    while i < method.parameters.len()
        invariant
            i <= method.parameters@.len(),
            out@ == head + parameter_list(i as nat),
        decreases method.parameters@.len() - i,
    {
        if i > 0 {
            out.push(',');
            out.push(' ');
        }
        out.push('.');
        out.push('.');
        out.push('.');
        i = i + 1;
        assert(out@ =~= head + parameter_list(i as nat));
    }
    out.push(')');
    assert(out@ =~= spec_method_signature(*metadata, *method));
    string_from_chars(out.as_slice())
}

/// Every character is an ASCII digit.
pub open spec fn all_digits(s: Seq<char>) -> bool {
    forall|i: int| 0 <= i < s.len() ==> '0' <= #[trigger] s[i] <= '9'
}

/// The methods among the first `n` whose lowercase full name contains `query`.
pub open spec fn methods_containing(metadata: Metadata, query: Seq<char>, n: nat) -> Seq<Method>
    decreases n,
{
    if n == 0 {
        Seq::empty()
    } else {
        let rest = methods_containing(metadata, query, (n - 1) as nat);
        let method = metadata.methods@[n - 1];
        if seq_contains(lowercase(spec_full_method_name(metadata, method)), query) {
            rest.push(method)
        } else {
            rest
        }
    }
}

/// The values a sequence of method references points to.
pub open spec fn deref_methods(refs: Seq<&Method>) -> Seq<Method> {
    refs.map_values(|m: &Method| *m)
}

/// The methods a query names: a decimal metadata index selects that method; any other text
/// selects the methods whose lowercase full name contains the lowercase query.
pub open spec fn spec_find_methods(metadata: Metadata, query: Seq<char>) -> Seq<Method> {
    if all_digits(query) {
        match spec_parse_u64(query, 10) {
            Some(index) => if index < metadata.methods@.len() {
                seq![metadata.methods@[index as int]]
            } else {
                Seq::empty()
            },
            None => Seq::empty(),
        }
    } else {
        methods_containing(metadata, lowercase(query), metadata.methods@.len())
    }
}

/// Methods matching a query: an index selects one method, text matches full names.
pub fn find_methods<'a>(metadata: &'a Metadata, query: &str) -> (r: Vec<&'a Method>)
    requires
        methods_well_typed(*metadata),
    ensures
        deref_methods(r@) == spec_find_methods(*metadata, query@),
{
    let chars = chars_of(query);
    let mut digits = true;
    let mut i: usize = 0;
    while i < chars.len()
        invariant
            i <= chars@.len(),
            digits == forall|j: int| 0 <= j < i ==> '0' <= #[trigger] chars@[j] <= '9',
        decreases chars@.len() - i,
    {
        if !('0' <= chars[i] && chars[i] <= '9') {
            digits = false;
        }
        i = i + 1;
    }
    let mut found: Vec<&'a Method> = Vec::new();
    if digits {
        match parse_u64(chars.as_slice(), 10) {
            Some(index) => {
                if index < metadata.methods.len() as u64 {
                    found.push(&metadata.methods[index as usize]);
                }
            },
            None => {},
        }
        assert(deref_methods(found@) =~= spec_find_methods(*metadata, query@));
        return found;
    }
    let lowered = to_lowercase(query);
    let needle = chars_of(lowered.as_str());
    let mut k: usize = 0;
    while k < metadata.methods.len()
        invariant
            k <= metadata.methods@.len(),
            methods_well_typed(*metadata),
            needle@ == lowercase(query@),
            deref_methods(found@) == methods_containing(*metadata, needle@, k as nat),
        decreases metadata.methods@.len() - k,
    {
        let method = &metadata.methods[k];
        let name = full_method_name(metadata, method);
        let lowered_name = to_lowercase(name.as_str());
        let haystack = chars_of(lowered_name.as_str());
        let ghost before = found@;
        if contains_chars(haystack.as_slice(), needle.as_slice()) {
            found.push(method);
            assert(deref_methods(found@) =~= deref_methods(before).push(*method));
        }
        k = k + 1;
    }
    found
}

/// Why no single method could be selected.
#[derive(Debug, PartialEq, Eq)]
pub enum MethodSelectionError {
    /// The metadata index is past the method table.
    OutOfRange(usize),
    /// Neither a query nor an index was given.
    MissingQuery,
    /// No method's full or type-qualified name equals the query.
    NoMatch,
    /// Several methods match; their metadata indexes, in order.
    Ambiguous(Vec<usize>),
}

/// The method at `k` is named by the lowercase `query`, fully or by its type-qualified name.
pub open spec fn method_named(metadata: Metadata, query: Seq<char>, k: int) -> bool {
    lowercase(spec_full_method_name(metadata, metadata.methods@[k])) == query || lowercase(
        spec_short_method_name(metadata, metadata.methods@[k]),
    ) == query
}

/// Indexes of the first `n` methods named by `query`.
pub open spec fn named_methods(metadata: Metadata, query: Seq<char>, n: nat) -> Seq<int>
    decreases n,
{
    if n == 0 {
        Seq::empty()
    } else if method_named(metadata, query, n - 1) {
        named_methods(metadata, query, (n - 1) as nat).push(n - 1)
    } else {
        named_methods(metadata, query, (n - 1) as nat)
    }
}

/// Selects one method by metadata index, or by a query naming exactly one method.
pub fn select_method<'a>(metadata: &'a Metadata, query: Option<&str>, method_id: Option<usize>) -> (r: core::result::Result<&'a Method, MethodSelectionError>)
    requires
        methods_well_typed(*metadata),
    ensures
        method_id matches Some(id) ==> (id < metadata.methods@.len() ==> (r matches Ok(m) && *m
            == metadata.methods@[id as int])),
        method_id matches Some(id) ==> (id >= metadata.methods@.len() ==> r == Err::<
            &Method,
            MethodSelectionError,
        >(MethodSelectionError::OutOfRange(id))),
        method_id is None && query is None ==> r == Err::<&Method, MethodSelectionError>(
            MethodSelectionError::MissingQuery,
        ),
        method_id is None && query is Some ==> {
            let named = named_methods(
                *metadata,
                lowercase(query->0@),
                metadata.methods@.len(),
            );
            &&& named.len() == 0 ==> r == Err::<&Method, MethodSelectionError>(
                MethodSelectionError::NoMatch,
            )
            &&& named.len() == 1 ==> (r matches Ok(m) && *m == metadata.methods@[named[0]])
            &&& named.len() > 1 ==> (r matches Err(MethodSelectionError::Ambiguous(ids))
                && ids@.len() == named.len() && forall|i: int|
                0 <= i < named.len() ==> ids@[i] == named[i])
        },
{
    match method_id {
        Some(id) => {
            if id < metadata.methods.len() {
                return Ok(&metadata.methods[id]);
            } else {
                return Err(MethodSelectionError::OutOfRange(id));
            }
        },
        None => {},
    }
    let query = match query {
        Some(query) => query,
        None => return Err(MethodSelectionError::MissingQuery),
    };
    let lowered = to_lowercase(query);
    let wanted = chars_of(lowered.as_str());
    let mut ids: Vec<usize> = Vec::new();
    let mut k: usize = 0;
    while k < metadata.methods.len()
        invariant
            k <= metadata.methods@.len(),
            methods_well_typed(*metadata),
            wanted@ == lowercase(query@),
            ids@.len() == named_methods(*metadata, wanted@, k as nat).len(),
            forall|i: int|
                0 <= i < ids@.len() ==> ids@[i] == named_methods(*metadata, wanted@, k as nat)[i],
            forall|i: int| 0 <= i < ids@.len() ==> ids@[i] < k,
        decreases metadata.methods@.len() - k,
    {
        let method = &metadata.methods[k];
        let full = to_lowercase(full_method_name(metadata, method).as_str());
        let short = to_lowercase(short_method_name(metadata, method).as_str());
        let full_chars = chars_of(full.as_str());
        let short_chars = chars_of(short.as_str());
        if chars_equal(full_chars.as_slice(), wanted.as_slice()) || chars_equal(
            short_chars.as_slice(),
            wanted.as_slice(),
        ) {
            ids.push(k);
        }
        k = k + 1;
    }
    if ids.len() == 0 {
        return Err(MethodSelectionError::NoMatch);
    }
    if ids.len() > 1 {
        return Err(MethodSelectionError::Ambiguous(ids));
    }
    Ok(&metadata.methods[ids[0]])
}

/// The number of the first `n` methods that resolve to native code, or the first error.
pub open spec fn mapped_count<B: BinaryImage>(
    registration: RegistrationInfo,
    binary: &B,
    metadata: Metadata,
    n: nat,
) -> Result<nat>
    decreases n,
{
    if n == 0 {
        Ok(0)
    } else {
        match mapped_count(registration, binary, metadata, (n - 1) as nat) {
            Err(e) => Err(e),
            Ok(count) => match spec_resolve_method(
                registration,
                binary,
                metadata,
                metadata.methods@[n - 1].id,
            ) {
                Err(e) => Err(e),
                Ok(Some(_)) => Ok(count + 1),
                Ok(None) => Ok(count),
            },
        }
    }
}

proof fn lemma_mapped_count_error_persists<B: BinaryImage>(
    registration: RegistrationInfo,
    binary: &B,
    metadata: Metadata,
    i: nat,
    n: nat,
)
    requires
        i <= n,
    ensures
        mapped_count(registration, binary, metadata, i) is Err ==> mapped_count(
            registration,
            binary,
            metadata,
            n,
        ) == mapped_count(registration, binary, metadata, i),
    decreases n - i,
{
    if i < n {
        lemma_mapped_count_error_persists(registration, binary, metadata, i + 1, n);
    }
}

/// Counts the metadata methods that resolve to native code.
pub fn count_mapped_methods<B: BinaryImage>(
    binary: &B,
    metadata: &Metadata,
    registration: &RegistrationInfo,
) -> (r: Result<usize>)
    ensures
        match mapped_count(*registration, binary, *metadata, metadata.methods@.len()) {
            Ok(count) => r == Ok::<usize, Error>(count as usize),
            Err(e) => r == Err::<usize, Error>(e),
        },
{
    let mut mapped: usize = 0;
    let mut k: usize = 0;
    while k < metadata.methods.len()
        invariant
            k <= metadata.methods@.len(),
            mapped <= k,
            mapped_count(*registration, binary, *metadata, k as nat) == Ok::<nat, Error>(
                mapped as nat,
            ),
        decreases metadata.methods@.len() - k,
    {
        proof {
            lemma_mapped_count_error_persists(
                *registration,
                binary,
                *metadata,
                (k + 1) as nat,
                metadata.methods@.len(),
            );
        }
        let resolved = registration.resolve_method(binary, metadata, metadata.methods[k].id)?;
        if resolved.is_some() {
            mapped = mapped + 1;
        }
        k = k + 1;
    }
    Ok(mapped)
}

/// The text after an `0x` or `0X` prefix, if there is one.
pub open spec fn hex_digits_of(value: Seq<char>) -> Option<Seq<char>> {
    if value.len() >= 2 && value[0] == '0' && (value[1] == 'x' || value[1] == 'X') {
        Some(value.skip(2))
    } else {
        None
    }
}

/// A hexadecimal address after `0x`/`0X`, otherwise a decimal one.
pub open spec fn spec_parse_address(value: Seq<char>) -> Option<u64> {
    match hex_digits_of(value) {
        Some(digits) => spec_parse_u64(digits, 16),
        None => spec_parse_u64(value, 10),
    }
}

/// Parses an address written in hexadecimal with an `0x`/`0X` prefix or in decimal.
pub fn parse_address(value: &str) -> (r: Option<u64>)
    ensures
        r == spec_parse_address(value@),
{
    let chars = chars_of(value);
    if chars.len() >= 2 && chars[0] == '0' && (chars[1] == 'x' || chars[1] == 'X') {
        let mut digits: Vec<char> = Vec::new();
        let mut i: usize = 2;
        while i < chars.len()
            invariant
                2 <= i <= chars@.len(),
                digits@ == chars@.subrange(2, i as int),
            decreases chars@.len() - i,
        {
            digits.push(chars[i]);
            i = i + 1;
            assert(digits@ =~= chars@.subrange(2, i as int));
        }
        assert(digits@ =~= value@.skip(2));
        parse_u64(digits.as_slice(), 16)
    } else {
        parse_u64(chars.as_slice(), 10)
    }
}

/// The image-relative form of a mapped address.
pub fn display_rva(address: u64, image_base: u64) -> (r: u64)
    requires
        address >= image_base,
    ensures
        r == address - image_base,
{
    address - image_base
}

/// `RVA 0x…` relative to the image base, or `VA 0x…` below it.
pub open spec fn spec_native_address(address: u64, image_base: u64) -> Seq<char> {
    if address >= image_base {
        seq!['R', 'V', 'A', ' ', '0', 'x'] + lower_hex((address - image_base) as nat)
    } else {
        seq!['V', 'A', ' ', '0', 'x'] + lower_hex(address as nat)
    }
}

/// Formats a native address relative to the image base where it can.
pub fn format_native_address(address: u64, image_base: u64) -> (r: String)
    ensures
        r@ == spec_native_address(address, image_base),
{
    let mut out: Vec<char> = Vec::new();
    if address >= image_base {
        out.push('R');
        out.push('V');
        out.push('A');
        out.push(' ');
        out.push('0');
        out.push('x');
        push_lower_hex(address - image_base, &mut out);
    } else {
        out.push('V');
        out.push('A');
        out.push(' ');
        out.push('0');
        out.push('x');
        push_lower_hex(address, &mut out);
    }
    assert(out@ =~= spec_native_address(address, image_base));
    string_from_chars(out.as_slice())
}

/// Accepts only little-endian AArch64 images.
pub fn ensure_arm64<B: BinaryImage>(binary: &B) -> (r: Result<()>)
    ensures
        r is Ok <==> binary.spec_architecture() == Architecture::Arm64
            && binary.spec_endianness() == Endianness::Little,
        r matches Err(e) ==> e == Error::UnsupportedArchitecture,
{
    if binary.architecture() != Architecture::Arm64 || binary.endianness() != Endianness::Little {
        Err(Error::UnsupportedArchitecture)
    } else {
        Ok(())
    }
}

/// A disassembly window must hold at least one AArch64 instruction.
pub fn validate_window_size(max_bytes: usize) -> (r: core::result::Result<(), &'static str>)
    ensures
        r is Ok <==> max_bytes >= 4,
{
    if max_bytes < 4 {
        Err("--bytes must be at least 4 for AArch64")
    } else {
        Ok(())
    }
}

/// A method must be selected by query or by index.
pub fn validate_method_selector(query: Option<&str>, method_id: Option<usize>) -> (r: core::result::Result<
    (),
    &'static str,
>)
    ensures
        r is Ok <==> (query is Some || method_id is Some),
{
    if query.is_none() && method_id.is_none() {
        Err("provide a method query or --method-id")
    } else {
        Ok(())
    }
}


/// Most types or methods listed when the caller does not ask for all of them.
pub const DEFAULT_TYPE_LIMIT: usize = 50;

/// A type's full name contains the query, both lowercased; no query matches every type.
pub open spec fn type_matches(ty: TypeDefinition, query: Option<Seq<char>>) -> bool {
    match query {
        None => true,
        Some(q) => seq_contains(lowercase(spec_full_type_name(ty)), lowercase(q)),
    }
}

/// The positions among the first `n` types that match the query, in table order.
pub open spec fn matching_types(metadata: Metadata, query: Option<Seq<char>>, n: nat) -> Seq<
    usize,
>
    decreases n,
{
    if n == 0 {
        Seq::empty()
    } else {
        let before = matching_types(metadata, query, (n - 1) as nat);
        if type_matches(metadata.types@[n - 1], query) {
            before.push((n - 1) as usize)
        } else {
            before
        }
    }
}

/// The text of an optional string.
pub open spec fn opt_text(query: Option<&str>) -> Option<Seq<char>> {
    match query {
        Some(q) => Some(q@),
        None => None,
    }
}

/// The types to list for a query: the positions shown, and how many types match.
/// Without `all`, at most `DEFAULT_TYPE_LIMIT` are shown.
pub fn list_types(metadata: &Metadata, query: Option<&str>, all: bool) -> (r: (Vec<usize>, usize))
    ensures
        r.1 == matching_types(*metadata, opt_text(query), metadata.types@.len()).len(),
        r.0@ == if all || r.1 <= DEFAULT_TYPE_LIMIT {
            matching_types(*metadata, opt_text(query), metadata.types@.len())
        } else {
            matching_types(*metadata, opt_text(query), metadata.types@.len()).take(
                DEFAULT_TYPE_LIMIT as int,
            )
        },
{
    let needle: Option<Vec<char>> = match query {
        Some(q) => {
            let lowered = to_lowercase(q);
            Some(chars_of(lowered.as_str()))
        },
        None => None,
    };
    let ghost q = opt_text(query);
    let mut found: Vec<usize> = Vec::new();
    let mut k: usize = 0;
    while k < metadata.types.len()
        invariant
            k <= metadata.types@.len(),
            q == opt_text(query),
            match q {
                Some(t) => needle matches Some(n) && n@ == lowercase(t),
                None => needle is None,
            },
            found@ == matching_types(*metadata, q, k as nat),
            found@.len() <= k,
        decreases metadata.types@.len() - k,
    {
        let hit = match &needle {
            Some(n) => {
                let name = full_type_name(&metadata.types[k]);
                let lowered = to_lowercase(name.as_str());
                let haystack = chars_of(lowered.as_str());
                contains_chars(haystack.as_slice(), n.as_slice())
            },
            None => true,
        };
        if hit {
            found.push(k);
        }
        k = k + 1;
    }
    let total = found.len();
    if !all && total > DEFAULT_TYPE_LIMIT {
        found.truncate(DEFAULT_TYPE_LIMIT);
    }
    (found, total)
}

/// The positions among the first `n` types whose short or full name is `name`.
pub open spec fn types_named_prefix(metadata: Metadata, name: Seq<char>, n: nat) -> Seq<usize>
    decreases n,
{
    if n == 0 {
        Seq::empty()
    } else {
        let before = types_named_prefix(metadata, name, (n - 1) as nat);
        let ty = metadata.types@[n - 1];
        if ty.name@ == name || spec_full_type_name(ty) == name {
            before.push((n - 1) as usize)
        } else {
            before
        }
    }
}

/// The positions of the types whose short or full name is exactly `name`.
pub fn types_named(metadata: &Metadata, name: &str) -> (r: Vec<usize>)
    ensures
        r@ == types_named_prefix(*metadata, name@, metadata.types@.len()),
{
    let wanted = chars_of(name);
    let mut found: Vec<usize> = Vec::new();
    let mut k: usize = 0;
    while k < metadata.types.len()
        invariant
            k <= metadata.types@.len(),
            wanted@ == name@,
            found@ == types_named_prefix(*metadata, name@, k as nat),
        decreases metadata.types@.len() - k,
    {
        let ty = &metadata.types[k];
        let short = chars_of(ty.name.as_str());
        let full_name = full_type_name(ty);
        let full = chars_of(full_name.as_str());
        if chars_equal(short.as_slice(), wanted.as_slice()) || chars_equal(
            full.as_slice(),
            wanted.as_slice(),
        ) {
            found.push(k);
        }
        k = k + 1;
    }
    found
}

/// A loadable segment whose memory range holds `address`.
pub open spec fn maps_address(segment: SegmentInfo, address: u64) -> bool {
    is_load(segment) && segment.virtual_address <= address && address - segment.virtual_address
        < segment.virtual_size
}

/// The first segment that maps `address`.
pub open spec fn first_mapping_segment(segments: Seq<SegmentInfo>, address: u64) -> Option<int> {
    if exists|i: int| 0 <= i < segments.len() && maps_address(segments[i], address) {
        Some(
            choose|i: int|
                0 <= i < segments.len() && maps_address(segments[i], address) && forall|j: int|
                    0 <= j < i ==> !maps_address(#[trigger] segments[j], address),
        )
    } else {
        None
    }
}

/// The methods among the first `n` whose resolved native address is `address`, or the
/// first resolution error.
pub open spec fn methods_starting_at<B: BinaryImage>(
    registration: RegistrationInfo,
    binary: &B,
    metadata: Metadata,
    address: u64,
    n: nat,
) -> Result<Seq<MethodId>>
    decreases n,
{
    if n == 0 {
        Ok(Seq::empty())
    } else {
        match methods_starting_at(registration, binary, metadata, address, (n - 1) as nat) {
            Err(e) => Err(e),
            Ok(found) => {
                let id = metadata.methods@[n - 1].id;
                match spec_resolve_method(registration, binary, metadata, id) {
                    Err(e) => Err(e),
                    Ok(Some(a)) => if a.virtual_address == address {
                        Ok(found.push(id))
                    } else {
                        Ok(found)
                    },
                    Ok(None) => Ok(found),
                }
            },
        }
    }
}

proof fn lemma_methods_error_persists<B: BinaryImage>(
    registration: RegistrationInfo,
    binary: &B,
    metadata: Metadata,
    address: u64,
    i: nat,
    n: nat,
)
    requires
        i <= n,
        methods_starting_at(registration, binary, metadata, address, i) is Err,
    ensures
        methods_starting_at(registration, binary, metadata, address, n) == methods_starting_at(
            registration,
            binary,
            metadata,
            address,
            i,
        ),
    decreases n - i,
{
    if i < n {
        lemma_methods_error_persists(registration, binary, metadata, address, i + 1, n);
    }
}

/// What is known about one native address.
#[derive(Debug)]
pub struct AddressReport {
    pub virtual_address: u64,
    pub relative_address: u64,
    pub file_offset: Option<u64>,
    /// Position of the loadable segment that maps the address.
    pub segment: usize,
    /// The methods whose native code starts at the address.
    pub methods: Vec<MethodId>,
}

/// Why an address could not be inspected.
#[derive(Debug, PartialEq, Eq)]
pub enum AddressLookupError {
    /// The address lies below the image base.
    BelowImageBase,
    /// No loadable segment maps the address.
    NotMapped,
    /// Resolving a method's native address failed.
    Resolution(Error),
}

/// Locates `address` in the binary and lists the methods whose code starts there.
pub fn inspect_address<B: BinaryImage>(
    binary: &B,
    metadata: &Metadata,
    registration: &RegistrationInfo,
    address: u64,
) -> (r: core::result::Result<AddressReport, AddressLookupError>)
    ensures
        address < binary.spec_image_base() ==> r == Err::<AddressReport, AddressLookupError>(
            AddressLookupError::BelowImageBase,
        ),
        address >= binary.spec_image_base() && first_mapping_segment(
            binary.spec_segments(),
            address,
        ) is None ==> r == Err::<AddressReport, AddressLookupError>(AddressLookupError::NotMapped),
        address >= binary.spec_image_base() && first_mapping_segment(
            binary.spec_segments(),
            address,
        ) is Some ==> match methods_starting_at(
            *registration,
            binary,
            *metadata,
            address,
            metadata.methods@.len(),
        ) {
            Err(e) => r == Err::<AddressReport, AddressLookupError>(
                AddressLookupError::Resolution(e),
            ),
            Ok(found) => r matches Ok(report) && report.virtual_address == address
                && report.relative_address == address - binary.spec_image_base()
                && report.file_offset == binary.spec_virtual_to_offset(address)
                && report.segment as int == first_mapping_segment(binary.spec_segments(), address)->0
                && report.methods@ == found,
        },
{
    let base = binary.image_base();
    if address < base {
        return Err(AddressLookupError::BelowImageBase);
    }
    let relative_address = address - base;
    let segments = binary.segments();
    let mut i: usize = 0;
    while i < segments.len()
        invariant
            i <= segments@.len(),
            segments@ == binary.spec_segments(),
            forall|j: int| 0 <= j < i ==> !maps_address(#[trigger] segments@[j], address),
        ensures
            i <= segments@.len(),
            forall|j: int| 0 <= j < i ==> !maps_address(#[trigger] segments@[j], address),
            i < segments@.len() ==> maps_address(segments@[i as int], address),
        decreases segments@.len() - i,
    {
        let segment = &segments[i];
        if is_load_segment(segment) && segment.virtual_address <= address && address
            - segment.virtual_address < segment.virtual_size {
            break;
        }
        i = i + 1;
    }
    if i == segments.len() {
        return Err(AddressLookupError::NotMapped);
    }
    proof {
        let first = first_mapping_segment(segments@, address);
        assert(first is Some);
        let c = first->0;
        if c < i {
            assert(!maps_address(segments@[c], address));
        }
        if (i as int) < c {
            assert(!maps_address(segments@[i as int], address));
        }
    }
    let file_offset = binary.virtual_to_offset(address);
    let mut methods: Vec<MethodId> = Vec::new();
    let mut k: usize = 0;
    while k < metadata.methods.len()
        invariant
            k <= metadata.methods@.len(),
            methods_starting_at(*registration, binary, *metadata, address, k as nat) == Ok::<
                Seq<MethodId>,
                Error,
            >(methods@),
            address >= binary.spec_image_base(),
            first_mapping_segment(binary.spec_segments(), address) is Some,
            i as int == first_mapping_segment(binary.spec_segments(), address)->0,
            relative_address == address - binary.spec_image_base(),
            file_offset == binary.spec_virtual_to_offset(address),
        decreases metadata.methods@.len() - k,
    {
        let id = metadata.methods[k].id;
        match registration.resolve_method(binary, metadata, id) {
            Err(e) => {
                proof {
                    lemma_methods_error_persists(
                        *registration,
                        binary,
                        *metadata,
                        address,
                        (k + 1) as nat,
                        metadata.methods@.len(),
                    );
                }
                return Err(AddressLookupError::Resolution(e));
            },
            Ok(Some(found)) => {
                if found.virtual_address == address {
                    methods.push(id);
                }
            },
            Ok(None) => {},
        }
        k = k + 1;
    }
    Ok(AddressReport { virtual_address: address, relative_address, file_offset, segment: i, methods })
}


/// The method pointer slots of the first `n` modules, together.
pub open spec fn slot_total(modules: Seq<CodeGenModule>, n: nat) -> nat
    decreases n,
{
    if n == 0 {
        0
    } else {
        slot_total(modules, (n - 1) as nat) + modules[n - 1].method_pointer_count as nat
    }
}

/// How many method pointer slots the registered modules declare together.
pub fn total_method_pointer_slots(modules: &[CodeGenModule]) -> (r: u128)
    ensures
        r == slot_total(modules@, modules@.len() as nat),
{
    let mut total: u128 = 0;
    let mut k: usize = 0;
    while k < modules.len()
        invariant
            k <= modules@.len(),
            total == slot_total(modules@, k as nat),
            total <= k * 0xffff_ffff,
        decreases modules@.len() - k,
    {
        assert(k * 0xffff_ffff + 0xffff_ffff <= u128::MAX) by (nonlinear_arith)
            requires
                k <= usize::MAX,
                usize::MAX <= u64::MAX,
        ;
        total = total + modules[k].method_pointer_count as u128;
        proof {
            assert((k + 1) * 0xffff_ffff == k * 0xffff_ffff + 0xffff_ffff) by (nonlinear_arith);
        }
        k = k + 1;
    }
    total
}


// ---------------------------------------------------------------- disassembly window

/// Why no disassembly window could be chosen.
#[derive(Debug, Clone, Copy, PartialEq, Eq, Structural)]
pub enum DisasmAddressError {
    /// The byte limit holds less than one AArch64 instruction.
    WindowTooSmall,
    /// No positional RVA, `--rva` or `--va` address was given.
    MissingAddress,
    /// More than one way of giving the address was used.
    AmbiguousAddress,
    /// The given address is neither hexadecimal with `0x` nor decimal.
    InvalidAddress,
    /// The RVA plus the image base does not fit in 64 bits.
    RvaOverflow,
    /// The address is not a multiple of four.
    Misaligned,
    /// No loadable executable segment backs the address with file bytes.
    NotExecutable,
    /// The bytes available from the address do not fit in `usize`.
    WindowTooLarge,
}

/// `segment` is loadable and executable, and file bytes back `address` in it.
pub open spec fn backs_executable(segment: SegmentInfo, address: u64) -> bool {
    &&& is_load(segment)
    &&& segment.permissions.execute
    &&& segment.virtual_address <= address
    &&& address - segment.virtual_address < min_u64(segment.file_size, segment.virtual_size)
}

pub open spec fn min_u64(a: u64, b: u64) -> u64 {
    if a <= b {
        a
    } else {
        b
    }
}

/// The first segment, in table order, that backs `address` with executable file bytes.
pub open spec fn first_executable_segment(segments: Seq<SegmentInfo>, address: u64) -> Option<int> {
    if exists|i: int| 0 <= i < segments.len() && backs_executable(segments[i], address) {
        Some(
            choose|i: int|
                0 <= i < segments.len() && backs_executable(segments[i], address) && forall|j: int|
                    0 <= j < i ==> !backs_executable(segments[j], address),
        )
    } else {
        None
    }
}

/// The virtual address the arguments name: a positional or `--rva` value is relative to
/// the image base, a `--va` value is absolute, and exactly one must be given.
pub open spec fn spec_disasm_address(
    image_base: u64,
    positional: Option<Seq<char>>,
    rva: Option<Seq<char>>,
    va: Option<Seq<char>>,
) -> core::result::Result<u64, DisasmAddressError> {
    match (positional, rva, va) {
        (Some(value), None, None) | (None, Some(value), None) => match spec_parse_address(value) {
            None => Err(DisasmAddressError::InvalidAddress),
            Some(offset) => if image_base + offset > u64::MAX {
                Err(DisasmAddressError::RvaOverflow)
            } else {
                Ok((image_base + offset) as u64)
            },
        },
        (None, None, Some(value)) => match spec_parse_address(value) {
            None => Err(DisasmAddressError::InvalidAddress),
            Some(address) => Ok(address),
        },
        (None, None, None) => Err(DisasmAddressError::MissingAddress),
        _ => Err(DisasmAddressError::AmbiguousAddress),
    }
}

pub open spec fn str_view(value: Option<&str>) -> Option<Seq<char>> {
    match value {
        Some(v) => Some(v@),
        None => None,
    }
}

/// The window a disassembly of the image shows: its start address and length in bytes,
/// checked in the order the byte limit, the address's presence, the address itself, its
/// alignment and the segment that backs it.
pub open spec fn spec_disassembly_window(
    segments: Seq<SegmentInfo>,
    image_base: u64,
    positional: Option<Seq<char>>,
    rva: Option<Seq<char>>,
    va: Option<Seq<char>>,
    max_bytes: usize,
) -> core::result::Result<(u64, usize), DisasmAddressError> {
    if max_bytes < 4 {
        Err(DisasmAddressError::WindowTooSmall)
    } else {
        match spec_disasm_address(image_base, positional, rva, va) {
            Err(e) => Err(e),
            Ok(address) => if address % 4 != 0 {
                Err(DisasmAddressError::Misaligned)
            } else {
                match first_executable_segment(segments, address) {
                    None => Err(DisasmAddressError::NotExecutable),
                    Some(i) => {
                        let segment = segments[i];
                        let available = min_u64(segment.file_size, segment.virtual_size) - (address
                            - segment.virtual_address);
                        if available > usize::MAX {
                            Err(DisasmAddressError::WindowTooLarge)
                        } else if max_bytes <= available {
                            Ok((address, max_bytes))
                        } else {
                            Ok((address, available as usize))
                        }
                    },
                }
            },
        }
    }
}

fn disasm_address<B: BinaryImage>(
    binary: &B,
    positional: Option<&str>,
    rva: Option<&str>,
    va: Option<&str>,
) -> (r: core::result::Result<u64, DisasmAddressError>)
    ensures
        r == spec_disasm_address(binary.spec_image_base(), str_view(positional), str_view(rva), str_view(va)),
{
    let relative = match (positional, rva) {
        (Some(value), None) => Some(value),
        (None, Some(value)) => Some(value),
        (None, None) => None,
        (Some(_), Some(_)) => return Err(DisasmAddressError::AmbiguousAddress),
    };
    match (relative, va) {
        (Some(value), None) => match parse_address(value) {
            None => Err(DisasmAddressError::InvalidAddress),
            Some(offset) => {
                let base = binary.image_base();
                if offset > u64::MAX - base {
                    Err(DisasmAddressError::RvaOverflow)
                } else {
                    Ok(base + offset)
                }
            },
        },
        (None, Some(value)) => match parse_address(value) {
            None => Err(DisasmAddressError::InvalidAddress),
            Some(address) => Ok(address),
        },
        (None, None) => Err(DisasmAddressError::MissingAddress),
        (Some(_), Some(_)) => Err(DisasmAddressError::AmbiguousAddress),
    }
}

/// Chooses what to disassemble: the address the arguments name and a window of at most
/// `max_bytes` bytes, cut at the end of the file-backed part of its executable segment.
pub fn disassembly_window<B: BinaryImage>(
    binary: &B,
    positional: Option<&str>,
    rva: Option<&str>,
    va: Option<&str>,
    max_bytes: usize,
) -> (r: core::result::Result<(u64, usize), DisasmAddressError>)
    ensures
        r == spec_disassembly_window(
            binary.spec_segments(),
            binary.spec_image_base(),
            str_view(positional),
            str_view(rva),
            str_view(va),
            max_bytes,
        ),
{
    if max_bytes < 4 {
        return Err(DisasmAddressError::WindowTooSmall);
    }
    let address = disasm_address(binary, positional, rva, va)?;
    if address % 4 != 0 {
        return Err(DisasmAddressError::Misaligned);
    }
    let segments = binary.segments();
    let ghost all = segments@;
    let mut i: usize = 0;
    while i < segments.len()
        invariant
            i <= segments@.len(),
            segments@ == binary.spec_segments(),
            all == segments@,
            max_bytes >= 4,
            address % 4 == 0,
            spec_disasm_address(binary.spec_image_base(), str_view(positional), str_view(rva), str_view(va))
                == Ok::<u64, DisasmAddressError>(address),
            forall|j: int| 0 <= j < i ==> !backs_executable(#[trigger] segments@[j], address),
        decreases segments@.len() - i,
    {
        let segment = &segments[i];
        let backed = if segment.file_size <= segment.virtual_size {
            segment.file_size
        } else {
            segment.virtual_size
        };
        if is_load_segment(segment) && segment.permissions.execute && segment.virtual_address
            <= address && address - segment.virtual_address < backed {
            proof {
                assert(backs_executable(all[i as int], address));
                let w = choose|w: int|
                    0 <= w < all.len() && backs_executable(all[w], address) && forall|j: int|
                        0 <= j < w ==> !backs_executable(all[j], address);
                assert(0 <= i < all.len() && backs_executable(all[i as int], address) && forall|j: int|
                    0 <= j < i ==> !backs_executable(all[j], address));
                if w < i {
                    assert(!backs_executable(all[w], address));
                } else if w > i {
                    assert(!backs_executable(all[i as int], address));
                }
            }
            let available = backed - (address - segment.virtual_address);
            if available > usize::MAX as u64 {
                return Err(DisasmAddressError::WindowTooLarge);
            }
            if max_bytes as u64 <= available {
                return Ok((address, max_bytes));
            }
            return Ok((address, available as usize));
        }
        i = i + 1;
    }
    Err(DisasmAddressError::NotExecutable)
}

} // verus!
