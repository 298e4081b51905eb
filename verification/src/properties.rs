//! The flat property map of a configuration document.
//!
//! A nested document is flattened into keys that say where a value stands:
//! `parent.key` for the entry of a mapping, `parent[index]` for the element
//! of a sequence. Only scalars carry a value.

use crate::ordered_map::OrderedMap;
use crate::text::{decimal, opt_view, push_decimal};
use crate::yaml::{YamlEntry, YamlNumber, YamlValue};
use vstd::prelude::*;
use vstd::string::*;

verus! {

/// The value of a property: a scalar in its native type.
#[derive(Clone, Debug, PartialEq, Eq)]
pub enum PropertyValue {
    Null,
    Bool(bool),
    /// An integer that fits 64 bits with a sign.
    Int(i64),
    /// An integer above the signed range.
    UInt(u64),
    /// The bits of a finite 64-bit float.
    Float(u64),
    String(String),
}

/// A scalar as a mathematical value: what a [`PropertyValue`] stands for.
pub enum Scalar {
    Null,
    Bool(bool),
    Int(i64),
    UInt(u64),
    Float(u64),
    Text(Seq<char>),
}

impl View for PropertyValue {
    type V = Scalar;

    open spec fn view(&self) -> Scalar {
        match self {
            PropertyValue::Null => Scalar::Null,
            PropertyValue::Bool(b) => Scalar::Bool(*b),
            PropertyValue::Int(i) => Scalar::Int(*i),
            PropertyValue::UInt(u) => Scalar::UInt(*u),
            PropertyValue::Float(bits) => Scalar::Float(*bits),
            PropertyValue::String(s) => Scalar::Text(s@),
        }
    }
}

/// Properties by key.
pub type PropertyMap = OrderedMap<PropertyValue>;

/// One property: its key and its value.
pub type Write = (Seq<char>, Scalar);

/// Whether the bits are those of a finite 64-bit float: the exponent is not
/// all ones.
pub open spec fn is_finite_bits(bits: u64) -> bool {
    (bits >> 52) & 0x7ff != 0x7ff
}

/// The scalar for a number: the signed integer where the number has that
/// reading, else the unsigned integer, else the float. A float that is not
/// finite, and a number without any reading, count as zero.
pub open spec fn number_scalar(n: YamlNumber) -> Scalar {
    match n.as_i64 {
        Some(i) => Scalar::Int(i),
        None => match n.as_u64 {
            Some(u) => Scalar::UInt(u),
            None => match n.as_float_bits {
                Some(bits) => if is_finite_bits(bits) {
                    Scalar::Float(bits)
                } else {
                    Scalar::Int(0)
                },
                None => Scalar::Int(0),
            },
        },
    }
}

/// The key of element `index` of a sequence that stands at `prefix`.
pub open spec fn index_key(prefix: Option<Seq<char>>, index: nat) -> Seq<char> {
    match prefix {
        Some(p) => p + seq!['['] + decimal(index) + seq![']'],
        None => seq!['['] + decimal(index) + seq![']'],
    }
}

/// The key of the entry `name` of a mapping that stands at `prefix`.
pub open spec fn member_key(prefix: Option<Seq<char>>, name: Seq<char>) -> Seq<char> {
    match prefix {
        Some(p) => p + seq!['.'] + name,
        None => name,
    }
}

/// The text of a mapping key: a string as it is, a number and a boolean
/// in their literal text, and any other key as it is printed for
/// debugging.
pub open spec fn key_text(entry: YamlEntry) -> Seq<char> {
    match entry.key {
        YamlValue::String(s) => s@,
        YamlValue::Number(n) => n.text@,
        YamlValue::Bool(b) => if b {
            "true"@
        } else {
            "false"@
        },
        _ => entry.key_debug@,
    }
}

/// What a scalar at `prefix` contributes: itself under that key, or nothing
/// where it has no key.
pub open spec fn leaf(prefix: Option<Seq<char>>, value: Scalar) -> Seq<Write> {
    match prefix {
        Some(key) => seq![(key, value)],
        None => Seq::<Write>::empty(),
    }
}

/// The properties of `value`, which stands at `prefix`, in the order of the
/// document.
pub open spec fn flattened(prefix: Option<Seq<char>>, value: YamlValue) -> Seq<Write>
    decreases value, 0nat,
{
    match value {
        YamlValue::Null => leaf(prefix, Scalar::Null),
        YamlValue::Bool(b) => leaf(prefix, Scalar::Bool(b)),
        YamlValue::Number(n) => leaf(prefix, number_scalar(n)),
        YamlValue::String(s) => leaf(prefix, Scalar::Text(s@)),
        YamlValue::Sequence(items) => flattened_items(prefix, items, items.len() as nat),
        YamlValue::Mapping(entries) => flattened_entries(prefix, entries, entries.len() as nat),
        YamlValue::Tagged(inner) => flattened(prefix, *inner),
    }
}

/// The properties of the first `count` elements of a sequence.
pub open spec fn flattened_items(prefix: Option<Seq<char>>, items: Vec<YamlValue>, count: nat) -> Seq<
    Write,
>
    decreases items, count,
{
    if count == 0 || count > items.len() {
        Seq::<Write>::empty()
    } else {
        flattened_items(prefix, items, (count - 1) as nat) + flattened(
            Some(index_key(prefix, (count - 1) as nat)),
            items[count - 1],
        )
    }
}

/// The properties of the first `count` entries of a mapping.
pub open spec fn flattened_entries(prefix: Option<Seq<char>>, entries: Vec<YamlEntry>, count: nat) -> Seq<
    Write,
>
    decreases entries, count,
{
    if count == 0 || count > entries.len() {
        Seq::<Write>::empty()
    } else {
        flattened_entries(prefix, entries, (count - 1) as nat) + flattened(
            Some(member_key(prefix, key_text(entries[count - 1]))),
            entries[count - 1].value,
        )
    }
}

/// The map after the properties were written into `base` in order: the
/// last writer of a key wins.
pub open spec fn written(base: Map<Seq<char>, Scalar>, writes: Seq<Write>) -> Map<Seq<char>, Scalar>
    decreases writes.len(),
{
    if writes.len() == 0 {
        base
    } else {
        written(base, writes.drop_last()).insert(writes.last().0, writes.last().1)
    }
}

/// The value that the last write of `key` among `writes` gives it.
pub open spec fn last_write(writes: Seq<Write>, key: Seq<char>) -> Option<Scalar>
    decreases writes.len(),
{
    if writes.len() == 0 {
        None
    } else if writes.last().0 == key {
        Some(writes.last().1)
    } else {
        last_write(writes.drop_last(), key)
    }
}

/// Writing two lists one after the other is writing their concatenation.
pub proof fn lemma_written_concat(base: Map<Seq<char>, Scalar>, a: Seq<Write>, b: Seq<Write>)
    ensures
        written(base, a + b) == written(written(base, a), b),
    decreases b.len(),
{
    if b.len() == 0 {
        assert(a + b =~= a);
    } else {
        lemma_written_concat(base, a, b.drop_last());
        assert((a + b).drop_last() =~= a + b.drop_last());
        assert((a + b).last() == b.last());
    }
}

/// After a list of writes each key holds what its last writer gave it; a
/// key that none of them wrote holds what it held before.
pub proof fn lemma_last_writer_wins(base: Map<Seq<char>, Scalar>, writes: Seq<Write>, key: Seq<char>)
    ensures
        match last_write(writes, key) {
            Some(value) => written(base, writes).contains_key(key) && written(base, writes)[key]
                == value,
            None => written(base, writes).contains_key(key) == base.contains_key(key) && (
            base.contains_key(key) ==> written(base, writes)[key] == base[key]),
        },
    decreases writes.len(),
{
    if writes.len() > 0 {
        lemma_last_writer_wins(base, writes.drop_last(), key);
    }
}

/// Merge precedence: where a later document writes a key, its value
/// replaces whatever the earlier documents gave that key; the keys that it
/// does not write keep their values.
pub proof fn lemma_merge_precedence(
    base: Map<Seq<char>, Scalar>,
    earlier: Seq<Write>,
    later: Seq<Write>,
    key: Seq<char>,
)
    ensures
        last_write(later, key) matches Some(value) ==> written(
            written(base, earlier),
            later,
        ).contains_key(key) && written(written(base, earlier), later)[key] == value,
        last_write(later, key) is None && written(base, earlier).contains_key(key) ==> written(
            written(base, earlier),
            later,
        ).contains_key(key) && written(written(base, earlier), later)[key] == written(
            base,
            earlier,
        )[key],
{
    lemma_last_writer_wins(written(base, earlier), later, key);
}

/// Whether the bits are those of a finite float.
pub fn float_bits_are_finite(bits: u64) -> (r: bool)
    ensures
        r == is_finite_bits(bits),
{
    (bits >> 52) & 0x7ff != 0x7ff
}

/// The property value for a number.
pub fn number_value(n: &YamlNumber) -> (r: PropertyValue)
    ensures
        r@ == number_scalar(*n),
{
    match n.as_i64 {
        Some(i) => PropertyValue::Int(i),
        None => match n.as_u64 {
            Some(u) => PropertyValue::UInt(u),
            None => match n.as_float_bits {
                Some(bits) => if float_bits_are_finite(bits) {
                    PropertyValue::Float(bits)
                } else {
                    PropertyValue::Int(0)
                },
                None => PropertyValue::Int(0),
            },
        },
    }
}

/// Writes a scalar under its key, if it has one.
fn write_leaf(prefix: Option<&str>, value: PropertyValue, out: &mut PropertyMap)
    ensures
        final(out)@ == written(old(out)@, leaf(opt_view(prefix), value@)),
{
    match prefix {
        Some(key) => {
            let ghost writes = leaf(opt_view(prefix), value@);
            proof {
                assert(writes.drop_last() =~= Seq::<Write>::empty());
                assert(written(out@, writes.drop_last()) == out@);
            }
            out.insert(key.to_owned(), value);
        },
        None => {},
    }
}

/// The key of element `index` of a sequence at `prefix`.
fn make_index_key(prefix: Option<&str>, index: usize) -> (r: String)
    ensures
        r@ == index_key(opt_view(prefix), index as nat),
{
    let mut r = match prefix {
        Some(p) => p.to_owned(),
        None => String::new(),
    };
    r.push('[');
    push_decimal(&mut r, index);
    r.push(']');
    assert(r@ =~= index_key(opt_view(prefix), index as nat));
    r
}

/// The text of the key of a mapping entry.
fn make_key_text(entry: &YamlEntry) -> (r: String)
    ensures
        r@ == key_text(*entry),
{
    match &entry.key {
        YamlValue::String(s) => s.clone(),
        YamlValue::Number(n) => n.text.clone(),
        YamlValue::Bool(b) => if *b {
            "true".to_owned()
        } else {
            "false".to_owned()
        },
        _ => entry.key_debug.clone(),
    }
}

/// The key of the entry `name` of a mapping at `prefix`.
fn make_member_key(prefix: Option<&str>, name: String) -> (r: String)
    ensures
        r@ == member_key(opt_view(prefix), name@),
{
    match prefix {
        Some(p) => {
            let mut r = p.to_owned();
            r.push('.');
            r.append(name.as_str());
            assert(r@ =~= member_key(opt_view(prefix), name@));
            r
        },
        None => name,
    }
}

/// Flattens `value`, which stands at `prefix`, into `out`: every scalar of
/// the document is written under the key that says where it stands. Keys
/// that `out` already has are overwritten.
pub fn flatten_yaml_value(prefix: Option<&str>, value: &YamlValue, out: &mut PropertyMap)
    ensures
        final(out)@ == written(old(out)@, flattened(opt_view(prefix), *value)),
    decreases value,
{
    match value {
        YamlValue::Null => write_leaf(prefix, PropertyValue::Null, out),
        YamlValue::Bool(b) => write_leaf(prefix, PropertyValue::Bool(*b), out),
        YamlValue::Number(n) => write_leaf(prefix, number_value(n), out),
        YamlValue::String(s) => write_leaf(prefix, PropertyValue::String(s.clone()), out),
        YamlValue::Sequence(items) => {
            let mut i: usize = 0;
            while i < items.len()
                invariant
                    i <= items.len(),
                    value == YamlValue::Sequence(*items),
                    out@ == written(
                        old(out)@,
                        flattened_items(opt_view(prefix), *items, i as nat),
                    ),
                decreases items.len() - i,
            {
                let key = make_index_key(prefix, i);
                let ghost before = flattened_items(opt_view(prefix), *items, i as nat);
                let ghost step = flattened(Some(key@), items@[i as int]);
                proof {
                    lemma_written_concat(old(out)@, before, step);
                    assert(decreases_to!(*items => items[i as int]));
                    assert(*value is Sequence && value->Sequence_0 == *items);
                    assert(decreases_to!(*value => value->Sequence_0));
                }
                flatten_yaml_value(Some(key.as_str()), &items[i], out);
                i += 1;
            }
        },
        YamlValue::Mapping(entries) => {
            let mut i: usize = 0;
            while i < entries.len()
                invariant
                    i <= entries.len(),
                    value == YamlValue::Mapping(*entries),
                    out@ == written(
                        old(out)@,
                        flattened_entries(opt_view(prefix), *entries, i as nat),
                    ),
                decreases entries.len() - i,
            {
                let key = make_member_key(prefix, make_key_text(&entries[i]));
                let ghost before = flattened_entries(opt_view(prefix), *entries, i as nat);
                let ghost step = flattened(Some(key@), entries@[i as int].value);
                proof {
                    lemma_written_concat(old(out)@, before, step);
                    assert(decreases_to!(*entries => entries[i as int]));
                    assert(*value is Mapping && value->Mapping_0 == *entries);
                    assert(decreases_to!(*value => value->Mapping_0));
                    assert(decreases_to!(entries[i as int] => entries[i as int].value));
                }
                flatten_yaml_value(Some(key.as_str()), &entries[i].value, out);
                i += 1;
            }
        },
        YamlValue::Tagged(inner) => flatten_yaml_value(prefix, inner, out),
    }
}

} // verus!
