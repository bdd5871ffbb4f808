//! Facts about a module: how many functions it has, and how many instructions.

use vstd::prelude::*;

verus! {

#[verifier::external_type_specification]
#[verifier::external_body]
pub struct ExBinaryReaderError(wasmparser::BinaryReaderError);

/// The parts of a binary as `wasmparser` gives them out, or nothing for a
/// malformed one. Of each part it is said whether it is the header of a
/// component and, for a code section, from where to where its contents reach.
pub uninterp spec fn parts_of(wasm: Seq<u8>) -> Option<Seq<(bool, Option<(usize, usize)>)>>;

/// From where to where the function bodies of a code section reach, or nothing
/// for a malformed section.
pub uninterp spec fn bodies_of(section: Seq<u8>) -> Option<Seq<(usize, usize)>>;

/// Where the instructions of a function body begin, or nothing for a malformed
/// body.
pub uninterp spec fn instructions_of(body: Seq<u8>) -> Option<Seq<usize>>;

/// Calls `wasmparser::Parser::parse_all`, whose answer depends on the bytes
/// alone, and tells its payloads apart.
#[verifier::external_body]
fn parse_all(wasm: &[u8]) -> (parts: Result<
    Vec<(bool, Option<(usize, usize)>)>,
    wasmparser::BinaryReaderError,
>)
    ensures
        match parts {
            Ok(parts) => parts_of(wasm@) == Some(parts@),
            Err(_) => parts_of(wasm@) is None,
        },
{
    let part = |payload: wasmparser::Payload| match payload {
        wasmparser::Payload::Version { encoding: wasmparser::Encoding::Component, .. } => (true, None),
        wasmparser::Payload::CodeSectionStart { range, .. } => (false, Some((range.start, range.end))),
        _ => (false, None),
    };
    wasmparser::Parser::new(0).parse_all(wasm).map(|payload| payload.map(part)).collect()
}

/// Calls `wasmparser::CodeSectionReader::new`, and hands out the ranges of the
/// function bodies that it reads. They depend on the bytes alone.
#[verifier::external_body]
fn read_bodies(section: &[u8]) -> (bodies: Result<
    Vec<(usize, usize)>,
    wasmparser::BinaryReaderError,
>)
    ensures
        match bodies {
            Ok(bodies) => bodies_of(section@) == Some(bodies@),
            Err(_) => bodies_of(section@) is None,
        },
{
    let reader = wasmparser::CodeSectionReader::new(section, 0)?;
    reader.into_iter().map(|body| body.map(|b| (b.range().start, b.range().end))).collect()
}

/// Calls `wasmparser::FunctionBody::get_operators_reader`, and hands out the
/// offsets of the instructions that it reads. They depend on the bytes alone.
#[verifier::external_body]
fn read_operators(body: &[u8]) -> (offsets: Result<Vec<usize>, wasmparser::BinaryReaderError>)
    ensures
        match offsets {
            Ok(offsets) => instructions_of(body@) == Some(offsets@),
            Err(_) => instructions_of(body@) is None,
        },
{
    let reader = wasmparser::FunctionBody::new(0, body).get_operators_reader()?;
    reader.into_iter_with_offsets().map(|operator| operator.map(|(_, offset)| offset)).collect()
}

/// Facts about a module.
#[derive(Clone, Copy, Debug, PartialEq, Eq, Structural)]
pub struct Metadata {
    /// The number of functions that the module defines.
    pub functions: usize,
    /// The number of instructions in all of them.
    pub instructions: u128,
}

/// Why there are no facts about a module.
#[derive(Clone, Copy, Debug, PartialEq, Eq, Structural)]
pub enum MetadataError {
    /// The binary is malformed.
    Malformed,
    /// The binary is a component.
    Component,
    /// The module has no code.
    NoCode,
}

/// Whether any of the parts is the header of a component.
pub open spec fn has_component(parts: Seq<(bool, Option<(usize, usize)>)>) -> bool {
    exists|i: int| 0 <= i < parts.len() && (#[trigger] parts[i]).0
}

/// Where the last code section is, if there is one.
pub open spec fn last_code(parts: Seq<(bool, Option<(usize, usize)>)>) -> Option<(usize, usize)>
    decreases parts.len(),
{
    if parts.len() == 0 {
        None
    } else if parts.last().1 is Some {
        parts.last().1
    } else {
        last_code(parts.drop_last())
    }
}

/// Whether a range lies within this many bytes.
pub open spec fn lies_within(range: (usize, usize), len: nat) -> bool {
    range.0 <= range.1 <= len
}

/// Where the code is in a binary of `len` bytes with the given parts.
pub open spec fn code_place(parts: Seq<(bool, Option<(usize, usize)>)>, len: nat) -> Result<
    (usize, usize),
    MetadataError,
> {
    if has_component(parts) {
        Err(MetadataError::Component)
    } else {
        match last_code(parts) {
            None => Err(MetadataError::NoCode),
            Some(range) => if lies_within(range, len) {
                Ok(range)
            } else {
                Err(MetadataError::Malformed)
            },
        }
    }
}

/// Where the code is in a binary of `len` bytes with the given parts: in the
/// last code section.
pub fn find_code(parts: &Vec<(bool, Option<(usize, usize)>)>, len: usize) -> (place: Result<
    (usize, usize),
    MetadataError,
>)
    ensures
        place == code_place(parts@, len as nat),
{
    let mut code: Option<(usize, usize)> = None;
    let mut i: usize = 0;
    while i < parts.len()
        invariant
            i <= parts@.len(),
            !has_component(parts@.take(i as int)),
            code == last_code(parts@.take(i as int)),
        decreases parts@.len() - i,
    {
        assert(parts@.take(i + 1).drop_last() =~= parts@.take(i as int));
        assert(parts@.take(i + 1).last() == parts@[i as int]);
        if parts[i].0 {
            return Err(MetadataError::Component);
        }
        if parts[i].1.is_some() {
            code = parts[i].1;
        }
        proof {
            assert forall|k: int| 0 <= k < i + 1 implies !(#[trigger] parts@.take(i + 1)[k]).0 by {
                if k < i {
                    assert(parts@.take(i + 1)[k] == parts@.take(i as int)[k]);
                }
            }
        }
        i = i + 1;
    }
    assert(parts@.take(i as int) =~= parts@);
    match code {
        None => Err(MetadataError::NoCode),
        Some((from, to)) => {
            if from <= to && to <= len {
                Ok((from, to))
            } else {
                Err(MetadataError::Malformed)
            }
        },
    }
}

/// The offsets in a list of instruction listings.
pub open spec fn listings_view(listings: Seq<Vec<usize>>) -> Seq<Seq<usize>> {
    listings.map_values(|listing: Vec<usize>| listing@)
}

/// The number of instructions in some listings.
pub open spec fn total(listings: Seq<Seq<usize>>) -> nat
    decreases listings.len(),
{
    if listings.len() == 0 {
        0
    } else {
        total(listings.drop_last()) + listings.last().len()
    }
}

/// The number of instructions in some listings.
pub fn count_instructions(listings: &Vec<Vec<usize>>) -> (count: u128)
    ensures
        count == total(listings_view(listings@)),
        count == listings_view(listings@).flatten().len(),
{
    let ghost all = listings_view(listings@);
    let mut count: u128 = 0;
    let mut i: usize = 0;
    while i < listings.len()
        invariant
            i <= listings@.len(),
            all == listings_view(listings@),
            count == total(all.take(i as int)),
            count <= i * 0xffff_ffff_ffff_ffff,
        decreases listings@.len() - i,
    {
        assert(all.take(i + 1).drop_last() =~= all.take(i as int));
        assert(all.take(i + 1).last() == listings@[i as int]@);
        count = count + listings[i].len() as u128;
        i = i + 1;
    }
    assert(all.take(i as int) =~= all);
    proof {
        law_every_instruction_counts_once(all);
    }
    count
}

/// The instructions of one body of a code section.
pub open spec fn body_listing(section: Seq<u8>, body: (usize, usize)) -> Option<Seq<usize>> {
    if lies_within(body, section.len()) {
        instructions_of(section.subrange(body.0 as int, body.1 as int))
    } else {
        None
    }
}

/// The instructions of the bodies of a code section, or nothing if any of them
/// is malformed.
pub open spec fn body_listings(section: Seq<u8>, bodies: Seq<(usize, usize)>) -> Option<
    Seq<Seq<usize>>,
> {
    if forall|i: int| 0 <= i < bodies.len() ==> body_listing(section, #[trigger] bodies[i]) is Some {
        Some(Seq::new(bodies.len(), |i: int| body_listing(section, bodies[i])->0))
    } else {
        None
    }
}

/// The facts about a code section.
pub open spec fn section_metadata(section: Seq<u8>) -> Result<Metadata, MetadataError> {
    match bodies_of(section) {
        None => Err(MetadataError::Malformed),
        Some(bodies) => match body_listings(section, bodies) {
            None => Err(MetadataError::Malformed),
            Some(listings) => Ok(
                Metadata {
                    functions: bodies.len() as usize,
                    instructions: total(listings) as u128,
                },
            ),
        },
    }
}

/// The facts about a binary.
pub open spec fn metadata_of(wasm: Seq<u8>) -> Result<Metadata, MetadataError> {
    match parts_of(wasm) {
        None => Err(MetadataError::Malformed),
        Some(parts) => match code_place(parts, wasm.len()) {
            Err(error) => Err(error),
            Ok(place) => section_metadata(wasm.subrange(place.0 as int, place.1 as int)),
        },
    }
}

/// The instructions of the bodies of a code section.
fn list_bodies(section: &[u8], bodies: &Vec<(usize, usize)>) -> (listings: Option<Vec<Vec<usize>>>)
    ensures
        match listings {
            Some(listings) => body_listings(section@, bodies@) == Some(
                listings_view(listings@),
            ),
            None => body_listings(section@, bodies@) is None,
        },
        listings matches Some(listings) ==> listings@.len() == bodies@.len(),
{
    let mut listings: Vec<Vec<usize>> = Vec::new();
    let mut i: usize = 0;
    while i < bodies.len()
        invariant
            i <= bodies@.len(),
            listings@.len() == i,
            forall|k: int|
                0 <= k < i ==> body_listing(section@, #[trigger] bodies@[k]) == Some(
                    listings@[k]@,
                ),
        decreases bodies@.len() - i,
    {
        let (from, to): (usize, usize) = bodies[i];
        assert(bodies@[i as int] == (from, to));
        if from > to || to > section.len() {
            return None;
        }
        match read_operators(vstd::slice::slice_subrange(section, from, to)) {
            Ok(listing) => {
                listings.push(listing);
            },
            Err(_) => {
                return None;
            },
        }
        i = i + 1;
    }
    assert(listings_view(listings@) =~= body_listings(section@, bodies@)->0);
    Some(listings)
}

/// The facts about a code section.
fn read_section(section: &[u8]) -> (facts: Result<Metadata, MetadataError>)
    ensures
        facts == section_metadata(section@),
{
    let bodies: Vec<(usize, usize)> = match read_bodies(section) {
        Ok(bodies) => bodies,
        Err(_) => return Err(MetadataError::Malformed),
    };
    match list_bodies(section, &bodies) {
        Some(listings) => Ok(
            Metadata { functions: bodies.len(), instructions: count_instructions(&listings) },
        ),
        None => Err(MetadataError::Malformed),
    }
}

/// The facts about a binary.
pub fn metadata(wasm: &Vec<u8>) -> (facts: Result<Metadata, MetadataError>)
    ensures
        facts == metadata_of(wasm@),
{
    let parts: Vec<(bool, Option<(usize, usize)>)> = match parse_all(wasm.as_slice()) {
        Ok(parts) => parts,
        Err(_) => return Err(MetadataError::Malformed),
    };
    match find_code(&parts, wasm.len()) {
        Ok((from, to)) => read_section(vstd::slice::slice_subrange(wasm.as_slice(), from, to)),
        Err(error) => Err(error),
    }
}

/// The number of instructions is that of all listings put one behind the other:
/// every instruction of every function counts once.
pub proof fn law_every_instruction_counts_once(listings: Seq<Seq<usize>>)
    ensures
        total(listings) == listings.flatten().len(),
    decreases listings.len(),
{
    listings.lemma_flatten_and_flatten_alt_are_equivalent();
    if listings.len() > 0 {
        law_every_instruction_counts_once(listings.drop_last());
        listings.drop_last().lemma_flatten_and_flatten_alt_are_equivalent();
    }
}

/// One function has as many instructions as its listing, and two lists of
/// functions together have as many as both.
pub proof fn law_instructions_add_up(
    listing: Seq<usize>,
    first: Seq<Seq<usize>>,
    second: Seq<Seq<usize>>,
)
    ensures
        total(seq![listing]) == listing.len(),
        total(first + second) == total(first) + total(second),
    decreases second.len(),
{
    reveal_with_fuel(total, 2);
    assert(seq![listing].drop_last() =~= Seq::empty());
    if second.len() == 0 {
        assert(first + second =~= first);
    } else {
        law_instructions_add_up(listing, first, second.drop_last());
        assert((first + second).drop_last() =~= first + second.drop_last());
        assert((first + second).last() == second.last());
    }
}

/// One more instruction in any function raises the number by one.
pub proof fn law_one_more_instruction(listings: Seq<Seq<usize>>, at: int, offset: usize)
    requires
        0 <= at < listings.len(),
    ensures
        total(listings.update(at, listings[at].push(offset))) == total(listings) + 1,
    decreases listings.len(),
{
    let longer = listings.update(at, listings[at].push(offset));
    if at == listings.len() - 1 {
        assert(longer.drop_last() =~= listings.drop_last());
    } else {
        law_one_more_instruction(listings.drop_last(), at, offset);
        assert(longer.drop_last() =~= listings.drop_last().update(
            at,
            listings.drop_last()[at].push(offset),
        ));
    }
}

/// Listings are seen as they are, one by one.
pub proof fn law_listings_are_one_by_one(listings: Seq<Vec<usize>>)
    ensures
        listings_view(listings).len() == listings.len(),
        forall|i: int|
            0 <= i < listings.len() ==> #[trigger] listings_view(listings)[i] == listings[i]@,
{
}

/// The last code section is one of the parts, with no code section behind it;
/// there is none only if no part is one.
pub proof fn law_no_code_behind_the_last(parts: Seq<(bool, Option<(usize, usize)>)>)
    ensures
        match last_code(parts) {
            Some(range) => exists|i: int|
                0 <= i < parts.len() && (#[trigger] parts[i]).1 == Some(range) && forall|j: int|
                    i < j < parts.len() ==> (#[trigger] parts[j]).1 is None,
            None => forall|i: int| 0 <= i < parts.len() ==> (#[trigger] parts[i]).1 is None,
        },
    decreases parts.len(),
{
    if parts.len() > 0 {
        let last = parts.len() - 1;
        if parts[last].1 is Some {
            assert(parts[last].1 == last_code(parts));
        } else {
            let fewer = parts.drop_last();
            law_no_code_behind_the_last(fewer);
            if let Some(range) = last_code(fewer) {
                let i = choose|i: int|
                    0 <= i < fewer.len() && (#[trigger] fewer[i]).1 == Some(range) && forall|j: int|
                        i < j < fewer.len() ==> (#[trigger] fewer[j]).1 is None;
                assert(parts[i] == fewer[i]);
                assert forall|j: int| i < j < parts.len() implies (#[trigger] parts[j]).1 is None by {
                    if j < last {
                        assert(parts[j] == fewer[j]);
                    }
                }
            } else {
                assert forall|i: int| 0 <= i < parts.len() implies (#[trigger] parts[i]).1 is None by {
                    if i < last {
                        assert(parts[i] == fewer[i]);
                    }
                }
            }
        }
    }
}

/// Where the code of a binary is found: at the range of the code section that
/// has no other behind it, if that lies within the binary and nothing in it is
/// a component; and why it is not found otherwise.
pub proof fn law_code_is_found_where_it_is(
    parts: Seq<(bool, Option<(usize, usize)>)>,
    len: nat,
    at: int,
    range: (usize, usize),
)
    requires
        0 <= at < parts.len(),
        parts[at].1 == Some(range),
        forall|j: int| at < j < parts.len() ==> (#[trigger] parts[j]).1 is None,
    ensures
        code_place(parts, len) == if exists|i: int| 0 <= i < parts.len() && (#[trigger] parts[i]).0 {
            Err::<(usize, usize), MetadataError>(MetadataError::Component)
        } else if range.0 <= range.1 && range.1 <= len {
            Ok(range)
        } else {
            Err(MetadataError::Malformed)
        },
{
    law_no_code_behind_the_last(parts);
    if last_code(parts) is None {
        assert(parts[at].1 is None);
    } else {
        let i = choose|i: int|
            0 <= i < parts.len() && (#[trigger] parts[i]).1 == last_code(parts) && forall|j: int|
                i < j < parts.len() ==> (#[trigger] parts[j]).1 is None;
        assert(parts[i].1 is Some);
        assert(i == at);
    }
}

/// The facts about a module that is well formed: as many functions as its code
/// section has bodies, and as many instructions as all of them together.
pub proof fn law_metadata_counts_the_code(
    wasm: Seq<u8>,
    parts: Seq<(bool, Option<(usize, usize)>)>,
    at: int,
    range: (usize, usize),
    bodies: Seq<(usize, usize)>,
    listings: Seq<Seq<usize>>,
)
    requires
        parts_of(wasm) == Some(parts),
        forall|i: int| 0 <= i < parts.len() ==> !(#[trigger] parts[i]).0,
        0 <= at < parts.len(),
        parts[at].1 == Some(range),
        forall|j: int| at < j < parts.len() ==> (#[trigger] parts[j]).1 is None,
        range.0 <= range.1 <= wasm.len(),
        bodies_of(wasm.subrange(range.0 as int, range.1 as int)) == Some(bodies),
        listings.len() == bodies.len() <= usize::MAX,
        forall|i: int|
            0 <= i < bodies.len() ==> (#[trigger] bodies[i]).0 <= bodies[i].1 <= range.1
                - range.0 && instructions_of(
                wasm.subrange(
                    range.0 as int,
                    range.1 as int,
                ).subrange(bodies[i].0 as int, bodies[i].1 as int),
            ) == Some(listings[i]),
        listings.flatten().len() <= u128::MAX,
    ensures
        metadata_of(wasm) is Ok,
        metadata_of(wasm)->Ok_0.functions == bodies.len(),
        metadata_of(wasm)->Ok_0.instructions == listings.flatten().len(),
{
    law_code_is_found_where_it_is(parts, wasm.len(), at, range);
    let section = wasm.subrange(range.0 as int, range.1 as int);
    assert forall|i: int| 0 <= i < bodies.len() implies body_listing(section, #[trigger] bodies[i])
        == Some(listings[i]) by {}
    assert(body_listings(section, bodies)->0 =~= listings);
    law_every_instruction_counts_once(listings);
}

/// There are facts about a binary only if it can be parsed, is no component and
/// has code whose bodies and instructions can all be read.
pub proof fn law_metadata_needs_all_of_the_code(wasm: Seq<u8>)
    ensures
        parts_of(wasm) is None ==> metadata_of(wasm) == Err::<Metadata, MetadataError>(
            MetadataError::Malformed,
        ),
        parts_of(wasm) matches Some(parts) ==> (exists|i: int|
            0 <= i < parts.len() && (#[trigger] parts[i]).0) ==> metadata_of(wasm) == Err::<
            Metadata,
            MetadataError,
        >(MetadataError::Component),
        parts_of(wasm) matches Some(parts) ==> (forall|i: int|
            0 <= i < parts.len() ==> !(#[trigger] parts[i]).0 && parts[i].1 is None)
            ==> metadata_of(wasm) == Err::<Metadata, MetadataError>(MetadataError::NoCode),
{
    if let Some(parts) = parts_of(wasm) {
        law_no_code_behind_the_last(parts);
    }
}

/// One body that reaches beyond its section, or whose instructions cannot be
/// read, leaves no facts about the section.
pub proof fn law_one_bad_body_is_enough(section: Seq<u8>, bodies: Seq<(usize, usize)>, at: int)
    requires
        bodies_of(section) == Some(bodies),
        0 <= at < bodies.len(),
        bodies[at].0 > bodies[at].1 || bodies[at].1 > section.len() || instructions_of(
            section.subrange(bodies[at].0 as int, bodies[at].1 as int),
        ) is None,
    ensures
        section_metadata(section) == Err::<Metadata, MetadataError>(MetadataError::Malformed),
{
    assert(body_listing(section, bodies[at]) is None);
}

/// A code section that cannot be split into bodies, or one of whose bodies
/// reaches beyond it or has instructions that cannot be read, makes the whole
/// binary malformed.
pub proof fn law_bad_code_makes_a_binary_malformed(
    wasm: Seq<u8>,
    parts: Seq<(bool, Option<(usize, usize)>)>,
    at: int,
    range: (usize, usize),
    body: int,
)
    requires
        parts_of(wasm) == Some(parts),
        forall|i: int| 0 <= i < parts.len() ==> !(#[trigger] parts[i]).0,
        0 <= at < parts.len(),
        parts[at].1 == Some(range),
        forall|j: int| at < j < parts.len() ==> (#[trigger] parts[j]).1 is None,
        range.0 > range.1 || range.1 > wasm.len() || ({
            let section = wasm.subrange(range.0 as int, range.1 as int);
            match bodies_of(section) {
                None => true,
                Some(bodies) => 0 <= body < bodies.len() && (bodies[body].0 > bodies[body].1
                    || bodies[body].1 > section.len() || instructions_of(
                    section.subrange(bodies[body].0 as int, bodies[body].1 as int),
                ) is None),
            }
        }),
    ensures
        metadata_of(wasm) == Err::<Metadata, MetadataError>(MetadataError::Malformed),
{
    law_code_is_found_where_it_is(parts, wasm.len(), at, range);
    let section = wasm.subrange(range.0 as int, range.1 as int);
    if range.0 <= range.1 <= wasm.len() {
        if let Some(bodies) = bodies_of(section) {
            law_one_bad_body_is_enough(section, bodies, body);
        }
    }
}

} // verus!
