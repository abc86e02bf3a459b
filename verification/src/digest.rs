//! The change-stable hash of a zone.
//!
//! A zone's description and its entries are written out as bytes in one
//! fixed way, and those bytes are hashed. Every text and every list is
//! written with its length in front, so that different values give
//! different bytes. The SOA entry is not part of what is hashed: it holds
//! the serial, which depends on the hash.

use std::collections::hash_map::DefaultHasher;
use std::hash::Hasher;
use vstd::bytes::{spec_u32_to_le_bytes, spec_u64_to_le_bytes, u32_to_le_bytes, u64_to_le_bytes};
use vstd::prelude::*;
use vstd::std_specs::hash::DefaultHasherAdditionalSpecFns;
use vstd::utf8::encode_utf8;
use crate::delegation::{Delegation, DelegationView, RecordDelegation, RecordDelegationView};
use crate::domain::{DomainName, DomainNameView};
use crate::resource::{ZoneEntry, ZoneEntryView, ZoneRef, ZoneRefView, ZoneSpec, ZoneSpecView};
use crate::rr::{Class, ClassView, RecordType, RecordTypeView};
use crate::text::{decimal, decimal_string};

verus! {

/// The parts one after another.
pub open spec fn join(parts: Seq<Seq<u8>>) -> Seq<u8>
    decreases parts.len(),
{
    if parts.len() == 0 {
        Seq::empty()
    } else {
        join(parts.drop_last()) + parts.last()
    }
}

/// A length: eight bytes, least significant first.
pub open spec fn count_bytes(n: nat) -> Seq<u8> {
    spec_u64_to_le_bytes(n as u64)
}

/// A number: four bytes, least significant first.
pub open spec fn number_bytes(n: u32) -> Seq<u8> {
    spec_u32_to_le_bytes(n)
}

/// A text: the length of its UTF-8 form, then that form.
pub open spec fn text_bytes(text: Seq<char>) -> Seq<u8> {
    count_bytes(encode_utf8(text).len()) + encode_utf8(text)
}

/// A list of texts: their number, then each.
pub open spec fn texts_bytes(texts: Seq<Seq<char>>) -> Seq<u8> {
    count_bytes(texts.len()) + join(texts.map_values(|t: Seq<char>| text_bytes(t)))
}

/// A text that may be absent: a byte that says whether it is there, then
/// the text.
pub open spec fn optional_text_bytes(text: Option<Seq<char>>) -> Seq<u8> {
    match text {
        None => seq![0u8],
        Some(text) => seq![1u8] + text_bytes(text),
    }
}

/// A record type: a byte for its kind, then the mnemonic of one that is
/// kept verbatim.
pub open spec fn type_bytes(t: RecordTypeView) -> Seq<u8> {
    match t {
        RecordTypeView::A => seq![0u8],
        RecordTypeView::AAAA => seq![1u8],
        RecordTypeView::NS => seq![2u8],
        RecordTypeView::SOA => seq![3u8],
        RecordTypeView::Other(name) => seq![4u8] + text_bytes(name),
    }
}

/// A class: a byte for its kind, then the mnemonic of one that is kept
/// verbatim.
pub open spec fn class_bytes(c: ClassView) -> Seq<u8> {
    match c {
        ClassView::IN => seq![0u8],
        ClassView::Other(name) => seq![1u8] + text_bytes(name),
    }
}

/// A domain name: a byte for its kind, then its labels.
pub open spec fn name_bytes(name: DomainNameView) -> Seq<u8> {
    match name {
        DomainNameView::Full(labels) => seq![0u8] + texts_bytes(labels),
        DomainNameView::Partial(labels) => seq![1u8] + texts_bytes(labels),
    }
}

/// A zone reference that may be absent.
pub open spec fn optional_ref_bytes(zone_ref: Option<ZoneRefView>) -> Seq<u8> {
    match zone_ref {
        None => seq![0u8],
        Some(r) => seq![1u8] + text_bytes(r.name) + optional_text_bytes(r.namespace),
    }
}

/// A record delegation: its pattern, then its types.
pub open spec fn record_delegation_bytes(d: RecordDelegationView) -> Seq<u8> {
    texts_bytes(d.pattern) + count_bytes(d.types.len()) + join(
        d.types.map_values(|t: RecordTypeView| type_bytes(t)),
    )
}

/// A delegation: its namespaces, its record entries, its zone entries.
pub open spec fn delegation_bytes(d: DelegationView) -> Seq<u8> {
    texts_bytes(d.namespaces) + count_bytes(d.records.len()) + join(
        d.records.map_values(|r: RecordDelegationView| record_delegation_bytes(r)),
    ) + count_bytes(d.zones.len()) + join(d.zones.map_values(|z: Seq<Seq<char>>| texts_bytes(z)))
}

/// A zone's description, field by field.
pub open spec fn zone_spec_bytes(spec: ZoneSpecView) -> Seq<u8> {
    name_bytes(spec.domain_name) + optional_ref_bytes(spec.zone_ref) + count_bytes(
        spec.delegations.len(),
    ) + join(spec.delegations.map_values(|d: DelegationView| delegation_bytes(d))) + number_bytes(
        spec.ttl,
    ) + number_bytes(spec.refresh) + number_bytes(spec.retry) + number_bytes(spec.expire)
        + number_bytes(spec.negative_response_cache)
}

/// One entry, field by field.
pub open spec fn entry_bytes(e: ZoneEntryView) -> Seq<u8> {
    texts_bytes(e.fqdn) + type_bytes(e.type_) + class_bytes(e.class) + number_bytes(e.ttl)
        + text_bytes(e.rdata)
}

/// What is hashed of a zone: its description, then its entries in their
/// order.
pub open spec fn zone_bytes(spec: ZoneSpecView, entries: Seq<ZoneEntryView>) -> Seq<u8> {
    zone_spec_bytes(spec) + count_bytes(entries.len()) + join(
        entries.map_values(|e: ZoneEntryView| entry_bytes(e)),
    )
}

/// The hash of a zone: the standard library's default hash of its bytes,
/// written in decimal.
pub open spec fn zone_hash(spec: ZoneSpecView, entries: Seq<ZoneEntryView>) -> Seq<char> {
    decimal(DefaultHasher::spec_finish(seq![zone_bytes(spec, entries)]) as nat)
}

/// Joining one part more appends that part.
pub proof fn lemma_join_next(parts: Seq<Seq<u8>>, i: int)
    requires
        0 <= i < parts.len(),
    ensures
        join(parts.subrange(0, i + 1)) == join(parts.subrange(0, i)) + parts[i],
{
    assert(parts.subrange(0, i + 1).drop_last() =~= parts.subrange(0, i));
}

fn put_bytes(buf: &mut Vec<u8>, bytes: &Vec<u8>)
    ensures
        final(buf)@ == old(buf)@ + bytes@,
{
    let ghost before = buf@;
    let mut i: usize = 0;
    while i < bytes.len()
        invariant
            i <= bytes.len(),
            buf@ == before + bytes@.subrange(0, i as int),
        decreases bytes.len() - i,
    {
        buf.push(bytes[i]);
        assert(buf@ =~= before + bytes@.subrange(0, i + 1));
        i += 1;
    }
    assert(bytes@.subrange(0, i as int) =~= bytes@);
}

fn put_count(buf: &mut Vec<u8>, n: usize)
    ensures
        final(buf)@ == old(buf)@ + count_bytes(n as nat),
{
    let bytes = u64_to_le_bytes(n as u64);
    put_bytes(buf, &bytes);
}

fn put_number(buf: &mut Vec<u8>, n: u32)
    ensures
        final(buf)@ == old(buf)@ + number_bytes(n),
{
    let bytes = u32_to_le_bytes(n);
    put_bytes(buf, &bytes);
}

fn put_tag(buf: &mut Vec<u8>, tag: u8)
    ensures
        final(buf)@ == old(buf)@ + seq![tag],
{
    buf.push(tag);
    assert(buf@ =~= old(buf)@ + seq![tag]);
}

fn put_text(buf: &mut Vec<u8>, text: &str)
    ensures
        final(buf)@ == old(buf)@ + text_bytes(text@),
{
    let bytes = text.as_bytes_vec();
    put_count(buf, bytes.len());
    put_bytes(buf, &bytes);
    assert(buf@ =~= old(buf)@ + text_bytes(text@));
}

fn put_texts(buf: &mut Vec<u8>, texts: &Vec<String>)
    ensures
        final(buf)@ == old(buf)@ + texts_bytes(texts.deep_view()),
{
    let ghost before = buf@;
    let ghost parts = texts.deep_view().map_values(|t: Seq<char>| text_bytes(t));
    put_count(buf, texts.len());
    let mut i: usize = 0;
    assert(parts.subrange(0, 0) =~= Seq::<Seq<u8>>::empty());
    while i < texts.len()
        invariant
            i <= texts.len(),
            parts == texts.deep_view().map_values(|t: Seq<char>| text_bytes(t)),
            buf@ == before + count_bytes(texts.len() as nat) + join(parts.subrange(0, i as int)),
        decreases texts.len() - i,
    {
        proof {
            lemma_join_next(parts, i as int);
            assert(parts[i as int] == text_bytes(texts[i as int]@));
        }
        put_text(buf, texts[i].as_str());
        assert(buf@ =~= before + count_bytes(texts.len() as nat) + join(
            parts.subrange(0, i + 1),
        ));
        i += 1;
    }
    assert(parts.subrange(0, i as int) =~= parts);
    assert(buf@ =~= before + texts_bytes(texts.deep_view()));
}

fn put_optional_text(buf: &mut Vec<u8>, text: &Option<String>)
    ensures
        final(buf)@ == old(buf)@ + optional_text_bytes(text.deep_view()),
{
    match text {
        None => {
            put_tag(buf, 0);
        },
        Some(text) => {
            put_tag(buf, 1);
            put_text(buf, text.as_str());
            assert(buf@ =~= old(buf)@ + (seq![1u8] + text_bytes(text@)));
        },
    }
}

fn put_type(buf: &mut Vec<u8>, t: &RecordType)
    ensures
        final(buf)@ == old(buf)@ + type_bytes(t@),
{
    match t {
        RecordType::A => put_tag(buf, 0),
        RecordType::AAAA => put_tag(buf, 1),
        RecordType::NS => put_tag(buf, 2),
        RecordType::SOA => put_tag(buf, 3),
        RecordType::Other(name) => {
            put_tag(buf, 4);
            put_text(buf, name.as_str());
            assert(buf@ =~= old(buf)@ + (seq![4u8] + text_bytes(name@)));
        },
    }
}

fn put_class(buf: &mut Vec<u8>, c: &Class)
    ensures
        final(buf)@ == old(buf)@ + class_bytes(c@),
{
    match c {
        Class::IN => put_tag(buf, 0),
        Class::Other(name) => {
            put_tag(buf, 1);
            put_text(buf, name.as_str());
            assert(buf@ =~= old(buf)@ + (seq![1u8] + text_bytes(name@)));
        },
    }
}

fn put_name(buf: &mut Vec<u8>, name: &DomainName)
    ensures
        final(buf)@ == old(buf)@ + name_bytes(name@),
{
    match name {
        DomainName::Full(full) => {
            put_tag(buf, 0);
            put_texts(buf, &full.labels);
            assert(buf@ =~= old(buf)@ + (seq![0u8] + texts_bytes(full@)));
        },
        DomainName::Partial(partial) => {
            put_tag(buf, 1);
            put_texts(buf, &partial.labels);
            assert(buf@ =~= old(buf)@ + (seq![1u8] + texts_bytes(partial@)));
        },
    }
}

fn put_optional_ref(buf: &mut Vec<u8>, zone_ref: &Option<ZoneRef>)
    ensures
        final(buf)@ == old(buf)@ + optional_ref_bytes(zone_ref.deep_view()),
{
    match zone_ref {
        None => {
            put_tag(buf, 0);
        },
        Some(r) => {
            put_tag(buf, 1);
            put_text(buf, r.name.as_str());
            put_optional_text(buf, &r.namespace);
            assert(buf@ =~= old(buf)@ + (seq![1u8] + text_bytes(r@.name) + optional_text_bytes(
                r@.namespace,
            )));
        },
    }
}

fn put_record_delegation(buf: &mut Vec<u8>, d: &RecordDelegation)
    ensures
        final(buf)@ == old(buf)@ + record_delegation_bytes(d@),
{
    let ghost before = buf@;
    let ghost parts = d@.types.map_values(|t: RecordTypeView| type_bytes(t));
    put_texts(buf, &d.pattern.labels);
    put_count(buf, d.types.len());
    let ghost head = before + texts_bytes(d@.pattern) + count_bytes(d@.types.len());
    let mut i: usize = 0;
    assert(parts.subrange(0, 0) =~= Seq::<Seq<u8>>::empty());
    while i < d.types.len()
        invariant
            i <= d.types.len(),
            parts == d@.types.map_values(|t: RecordTypeView| type_bytes(t)),
            buf@ == head + join(parts.subrange(0, i as int)),
        decreases d.types.len() - i,
    {
        proof {
            lemma_join_next(parts, i as int);
            assert(parts[i as int] == type_bytes(d.types[i as int]@));
        }
        put_type(buf, &d.types[i]);
        assert(buf@ =~= head + join(parts.subrange(0, i + 1)));
        i += 1;
    }
    assert(parts.subrange(0, i as int) =~= parts);
    assert(buf@ =~= before + record_delegation_bytes(d@));
}

fn put_delegation(buf: &mut Vec<u8>, d: &Delegation)
    ensures
        final(buf)@ == old(buf)@ + delegation_bytes(d@),
{
    let ghost before = buf@;
    let ghost records = d@.records.map_values(|r: RecordDelegationView| record_delegation_bytes(r));
    let ghost zones = d@.zones.map_values(|z: Seq<Seq<char>>| texts_bytes(z));
    put_texts(buf, &d.namespaces);
    put_count(buf, d.records.len());
    let ghost head = before + texts_bytes(d@.namespaces) + count_bytes(d@.records.len());
    let mut i: usize = 0;
    assert(records.subrange(0, 0) =~= Seq::<Seq<u8>>::empty());
    while i < d.records.len()
        invariant
            i <= d.records.len(),
            records == d@.records.map_values(
                |r: RecordDelegationView| record_delegation_bytes(r),
            ),
            buf@ == head + join(records.subrange(0, i as int)),
        decreases d.records.len() - i,
    {
        proof {
            lemma_join_next(records, i as int);
            assert(records[i as int] == record_delegation_bytes(d.records[i as int]@));
        }
        put_record_delegation(buf, &d.records[i]);
        assert(buf@ =~= head + join(records.subrange(0, i + 1)));
        i += 1;
    }
    assert(records.subrange(0, i as int) =~= records);
    put_count(buf, d.zones.len());
    let ghost middle = head + join(records) + count_bytes(d@.zones.len());
    let mut k: usize = 0;
    assert(zones.subrange(0, 0) =~= Seq::<Seq<u8>>::empty());
    while k < d.zones.len()
        invariant
            k <= d.zones.len(),
            zones == d@.zones.map_values(|z: Seq<Seq<char>>| texts_bytes(z)),
            buf@ == middle + join(zones.subrange(0, k as int)),
        decreases d.zones.len() - k,
    {
        proof {
            lemma_join_next(zones, k as int);
            assert(zones[k as int] == texts_bytes(d.zones[k as int]@));
        }
        put_texts(buf, &d.zones[k].pattern.labels);
        assert(buf@ =~= middle + join(zones.subrange(0, k + 1)));
        k += 1;
    }
    assert(zones.subrange(0, k as int) =~= zones);
    assert(buf@ =~= before + delegation_bytes(d@));
}

fn put_zone_spec(buf: &mut Vec<u8>, spec: &ZoneSpec)
    ensures
        final(buf)@ == old(buf)@ + zone_spec_bytes(spec@),
{
    let ghost before = buf@;
    let ghost parts = spec@.delegations.map_values(|d: DelegationView| delegation_bytes(d));
    put_name(buf, &spec.domain_name);
    put_optional_ref(buf, &spec.zone_ref);
    put_count(buf, spec.delegations.len());
    let ghost head = before + name_bytes(spec@.domain_name) + optional_ref_bytes(spec@.zone_ref)
        + count_bytes(spec@.delegations.len());
    let mut i: usize = 0;
    assert(parts.subrange(0, 0) =~= Seq::<Seq<u8>>::empty());
    while i < spec.delegations.len()
        invariant
            i <= spec.delegations.len(),
            parts == spec@.delegations.map_values(|d: DelegationView| delegation_bytes(d)),
            buf@ == head + join(parts.subrange(0, i as int)),
        decreases spec.delegations.len() - i,
    {
        proof {
            lemma_join_next(parts, i as int);
            assert(parts[i as int] == delegation_bytes(spec.delegations[i as int]@));
        }
        put_delegation(buf, &spec.delegations[i]);
        assert(buf@ =~= head + join(parts.subrange(0, i + 1)));
        i += 1;
    }
    assert(parts.subrange(0, i as int) =~= parts);
    put_number(buf, spec.ttl);
    put_number(buf, spec.refresh);
    put_number(buf, spec.retry);
    put_number(buf, spec.expire);
    put_number(buf, spec.negative_response_cache);
    assert(buf@ =~= before + zone_spec_bytes(spec@));
}

fn put_entry(buf: &mut Vec<u8>, entry: &ZoneEntry)
    ensures
        final(buf)@ == old(buf)@ + entry_bytes(entry@),
{
    put_texts(buf, &entry.fqdn.labels);
    put_type(buf, &entry.type_);
    put_class(buf, &entry.class);
    put_number(buf, entry.ttl);
    put_text(buf, entry.rdata.as_str());
    assert(buf@ =~= old(buf)@ + entry_bytes(entry@));
}

/// Computes the hash of a zone from its description and its entries, the
/// SOA entry left out. The hash depends on these two alone, and on the
/// order of the entries.
pub fn hash_zone(spec: &ZoneSpec, entries: &Vec<ZoneEntry>) -> (r: String)
    ensures
        r@ == zone_hash(spec@, entries.deep_view()),
{
    let mut buf: Vec<u8> = Vec::new();
    let ghost parts = entries.deep_view().map_values(|e: ZoneEntryView| entry_bytes(e));
    put_zone_spec(&mut buf, spec);
    put_count(&mut buf, entries.len());
    let ghost head = zone_spec_bytes(spec@) + count_bytes(entries.len() as nat);
    assert(buf@ =~= head);
    let mut i: usize = 0;
    assert(parts.subrange(0, 0) =~= Seq::<Seq<u8>>::empty());
    while i < entries.len()
        invariant
            i <= entries.len(),
            parts == entries.deep_view().map_values(|e: ZoneEntryView| entry_bytes(e)),
            buf@ == head + join(parts.subrange(0, i as int)),
        decreases entries.len() - i,
    {
        proof {
            lemma_join_next(parts, i as int);
            assert(parts[i as int] == entry_bytes(entries[i as int]@));
        }
        put_entry(&mut buf, &entries[i]);
        assert(buf@ =~= head + join(parts.subrange(0, i + 1)));
        i += 1;
    }
    assert(parts.subrange(0, i as int) =~= parts);
    assert(buf@ =~= zone_bytes(spec@, entries.deep_view()));
    let mut hasher = DefaultHasher::new();
    hasher.write(buf.as_slice());
    assert(hasher@ =~= seq![zone_bytes(spec@, entries.deep_view())]);
    decimal_string(hasher.finish())
}

} // verus!
