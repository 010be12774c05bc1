//! The binary encoder: writes a scene graph depth-first as tagged values.
use crate::model::{Frame, Node, Value};
use crate::spec::{Layout, TypeId};
use std::collections::HashMap;
use vstd::prelude::*;
use vstd::utf8::encode_utf8;

verus! {

broadcast use vstd::std_specs::hash::group_hash_axioms;

/// Unsigned LEB128: seven bits per byte, low bits first, the high bit set on
/// every byte but the last.
pub open spec fn leb(v: nat) -> Seq<u8>
    decreases v,
{
    if v < 128 {
        seq![v as u8]
    } else {
        seq![(v % 128 + 128) as u8] + leb(v / 128)
    }
}

/// Little-endian bytes of a 16-bit word.
pub open spec fn le16(v: u16) -> Seq<u8> {
    seq![(v % 256) as u8, (v / 256) as u8]
}

/// Little-endian bytes of a 32-bit word.
pub open spec fn le32(v: u32) -> Seq<u8> {
    seq![(v % 256) as u8, ((v / 256) % 256) as u8, ((v / 65536) % 256) as u8, (v / 16777216) as u8]
}

/// Little-endian bytes of a 64-bit word.
pub open spec fn le64(v: u64) -> Seq<u8> {
    le32((v % 0x1_0000_0000) as u32) + le32((v / 0x1_0000_0000) as u32)
}

/// 32-bit words, each little-endian, one after the other.
pub open spec fn words(s: Seq<u32>) -> Seq<u8>
    decreases s.len(),
{
    if s.len() == 0 {
        seq![]
    } else {
        words(s.drop_last()) + le32(s.last())
    }
}

/// 16-bit signed words, each little-endian, one after the other.
pub open spec fn halves(s: Seq<i16>) -> Seq<u8>
    decreases s.len(),
{
    if s.len() == 0 {
        seq![]
    } else {
        halves(s.drop_last()) + le16(s.last() as u16)
    }
}

/// Fixed-size records of 32-bit words, one after the other.
pub open spec fn records<const N: usize>(s: Seq<[u32; N]>) -> Seq<u8>
    decreases s.len(),
{
    if s.len() == 0 {
        seq![]
    } else {
        records(s.drop_last()) + words(s.last()@)
    }
}

/// UTF-8 bytes followed by a zero byte.
pub open spec fn null_string(s: Seq<char>) -> Seq<u8> {
    encode_utf8(s) + seq![0u8]
}

/// Zero-terminated strings, one after the other.
pub open spec fn null_strings(s: Seq<String>) -> Seq<u8>
    decreases s.len(),
{
    if s.len() == 0 {
        seq![]
    } else {
        null_strings(s.drop_last()) + null_string(s.last()@)
    }
}

/// A LEB128 length followed by the bytes.
pub open spec fn var_string(b: Seq<u8>) -> Seq<u8> {
    leb(b.len()) + b
}

/// The index a referent table with insertion order `t` gives `id`: its
/// position when present, else the next free index.
pub open spec fn ref_index(t: Seq<u128>, id: u128) -> nat {
    if t.contains(id) {
        (choose|i: int| 0 <= i < t.len() && t[i] == id) as nat
    } else {
        t.len()
    }
}

/// The insertion order after `id` has been resolved.
pub open spec fn ref_insert(t: Seq<u128>, id: u128) -> Seq<u128> {
    if t.contains(id) {
        t
    } else {
        t.push(id)
    }
}

/// Maps node identities to dense indices in order of first use.
pub struct ReferentTable {
    map: HashMap<u128, usize>,
    order: Vec<u128>,
}

impl View for ReferentTable {
    type V = Seq<u128>;

    /// Identities in the order they were first resolved.
    closed spec fn view(&self) -> Seq<u128> {
        self.order@
    }
}

impl ReferentTable {
    /// The map and the order agree: identity `order[i]` has index `i`.
    pub closed spec fn wf(&self) -> bool {
        &&& forall|i: int|
            0 <= i < self.order@.len() ==> self.map@.contains_key(#[trigger] self.order@[i])
                && self.map@[self.order@[i]] == i
        &&& forall|k: u128| #[trigger]
            self.map@.contains_key(k) ==> self.map@[k] < self.order@.len() && self.order@[self.map@[k] as int]
                == k
    }

    /// An empty table.
    pub fn new() -> (r: ReferentTable)
        ensures
            r.wf(),
            r@ == Seq::<u128>::empty(),
    {
        ReferentTable { map: HashMap::new(), order: Vec::new() }
    }

    /// Number of identities resolved so far.
    pub fn len(&self) -> (r: usize)
        ensures
            r == self@.len(),
    {
        self.order.len()
    }

    /// The index of `id`, if it has been resolved.
    pub fn get(&self, id: u128) -> (r: Option<usize>)
        requires
            self.wf(),
        ensures
            r == (if self@.contains(id) {
                Some(ref_index(self@, id) as usize)
            } else {
                None::<usize>
            }),
    {
        match self.map.get(&id) {
            Some(found) => {
                proof {
                    assert(self.order@[*found as int] == id);
                    let j = choose|j: int| 0 <= j < self.order@.len() && self.order@[j] == id;
                    assert(self.map@[self.order@[j]] == j);
                }
                Some(*found)
            },
            None => {
                proof {
                    if self.order@.contains(id) {
                        let j = choose|j: int| 0 <= j < self.order@.len() && self.order@[j] == id;
                        assert(self.map@.contains_key(self.order@[j]));
                    }
                }
                None
            },
        }
    }

    /// The index of `id`, allocating the next one on first use.
    pub fn resolve(&mut self, id: u128) -> (r: usize)
        requires
            old(self).wf(),
        ensures
            final(self).wf(),
            final(self)@ == ref_insert(old(self)@, id),
            r == ref_index(old(self)@, id),
    {
        match self.map.get(&id) {
            Some(found) => {
                let i = *found;
                proof {
                    assert(self.order@[i as int] == id);
                    let j = choose|j: int| 0 <= j < self.order@.len() && self.order@[j] == id;
                    assert(self.map@[self.order@[j]] == j);
                }
                i
            },
            None => {
                let i = self.order.len();
                proof {
                    if self.order@.contains(id) {
                        let j = choose|j: int| 0 <= j < self.order@.len() && self.order@[j] == id;
                        assert(self.map@.contains_key(self.order@[j]));
                    }
                }
                self.map.insert(id, i);
                self.order.push(id);
                i
            },
        }
    }
}

/// No two identities share an index, every index is below the table's size,
/// and every index below the size belongs to an identity: the indices form
/// the dense range `0..n`.
pub proof fn lemma_referents_injective_dense(t: &ReferentTable)
    requires
        t.wf(),
    ensures
        forall|a: u128, b: u128|
            t@.contains(a) && t@.contains(b) && a != b ==> #[trigger] ref_index(t@, a) != #[trigger] ref_index(
                t@,
                b,
            ),
        forall|a: u128| t@.contains(a) ==> #[trigger] ref_index(t@, a) < t@.len(),
        forall|i: int| 0 <= i < t@.len() ==> #[trigger] ref_index(t@, t@[i]) == i,
{
    assert forall|i: int| 0 <= i < t@.len() implies #[trigger] ref_index(t@, t@[i]) == i by {
        assert(t@.contains(t@[i]));
        let j = choose|j: int| 0 <= j < t@.len() && t@[j] == t@[i];
        assert(t.map@[t.order@[j]] == j);
    }
    assert forall|a: u128| t@.contains(a) implies #[trigger] ref_index(t@, a) < t@.len()
        && t@[ref_index(t@, a) as int] == a by {}
}

/// Relies on leb128::write::unsigned, which appends the unsigned LEB128 form
/// of `value`; writing into a `Vec` cannot fail.
#[verifier::external_body]
fn write_unsigned(target: &mut Vec<u8>, value: u64)
    ensures
        final(target)@ == old(target)@ + leb(value as nat),
{
    let _ = leb128::write::unsigned(target, value);
}

/// Appends the bytes of `b`.
fn write_bytes(target: &mut Vec<u8>, b: &[u8])
    ensures
        final(target)@ == old(target)@ + b@,
{
    let ghost start = target@;
    let mut i: usize = 0;
    while i < b.len()
        invariant
            i <= b@.len(),
            target@ == start + b@.take(i as int),
        decreases b@.len() - i,
    {
        target.push(b[i]);
        i += 1;
        assert(b@.take(i as int) =~= b@.take(i - 1) + seq![b@[i - 1]]);
    }
    assert(b@.take(b@.len() as int) =~= b@);
}

/// Appends a 16-bit word, little-endian.
fn write_u16(target: &mut Vec<u8>, v: u16)
    ensures
        final(target)@ == old(target)@ + le16(v),
{
    target.push((v % 256) as u8);
    target.push((v / 256) as u8);
}

/// Appends a 32-bit word, little-endian.
fn write_u32(target: &mut Vec<u8>, v: u32)
    ensures
        final(target)@ == old(target)@ + le32(v),
{
    target.push((v % 256) as u8);
    target.push(((v / 256) % 256) as u8);
    target.push(((v / 65536) % 256) as u8);
    target.push((v / 16777216) as u8);
}

/// Appends a 64-bit word, little-endian.
fn write_u64(target: &mut Vec<u8>, v: u64)
    ensures
        final(target)@ == old(target)@ + le64(v),
{
    write_u32(target, (v % 0x1_0000_0000) as u32);
    write_u32(target, (v / 0x1_0000_0000) as u32);
}

/// Appends 32-bit words, each little-endian.
fn write_words(target: &mut Vec<u8>, s: &[u32])
    ensures
        final(target)@ == old(target)@ + words(s@),
{
    let ghost start = target@;
    let mut i: usize = 0;
    while i < s.len()
        invariant
            i <= s@.len(),
            target@ == start + words(s@.take(i as int)),
        decreases s@.len() - i,
    {
        write_u32(target, s[i]);
        i += 1;
        assert(s@.take(i as int).drop_last() =~= s@.take(i - 1));
    }
    assert(s@.take(s@.len() as int) =~= s@);
}

/// Appends 16-bit signed words, each little-endian.
fn write_halves(target: &mut Vec<u8>, s: &[i16])
    ensures
        final(target)@ == old(target)@ + halves(s@),
{
    let ghost start = target@;
    let mut i: usize = 0;
    while i < s.len()
        invariant
            i <= s@.len(),
            target@ == start + halves(s@.take(i as int)),
        decreases s@.len() - i,
    {
        write_u16(target, s[i] as u16);
        i += 1;
        assert(s@.take(i as int).drop_last() =~= s@.take(i - 1));
    }
    assert(s@.take(s@.len() as int) =~= s@);
}

/// Appends fixed-size records of 32-bit words.
fn write_records<const N: usize>(target: &mut Vec<u8>, s: &Vec<[u32; N]>)
    ensures
        final(target)@ == old(target)@ + records(s@),
{
    let ghost start = target@;
    let mut i: usize = 0;
    while i < s.len()
        invariant
            i <= s@.len(),
            target@ == start + records(s@.take(i as int)),
        decreases s@.len() - i,
    {
        write_words(target, s[i].as_slice());
        i += 1;
        assert(s@.take(i as int).drop_last() =~= s@.take(i - 1));
    }
    assert(s@.take(s@.len() as int) =~= s@);
}

/// Appends a LEB128 length followed by the bytes. Writes no type id.
fn write_varstring(target: &mut Vec<u8>, string: &[u8])
    ensures
        final(target)@ == old(target)@ + var_string(string@),
{
    write_unsigned(target, string.len() as u64);
    write_bytes(target, string);
}

/// Appends the UTF-8 bytes of `string` and a zero byte. Writes no type id.
fn write_nullstring(target: &mut Vec<u8>, string: &str)
    ensures
        final(target)@ == old(target)@ + null_string(string@),
{
    write_bytes(target, string.as_bytes());
    target.push(0);
}

/// Appends zero-terminated strings.
fn write_nullstrings(target: &mut Vec<u8>, s: &Vec<String>)
    ensures
        final(target)@ == old(target)@ + null_strings(s@),
{
    let ghost start = target@;
    let mut i: usize = 0;
    while i < s.len()
        invariant
            i <= s@.len(),
            target@ == start + null_strings(s@.take(i as int)),
        decreases s@.len() - i,
    {
        write_nullstring(target, s[i].as_str());
        i += 1;
        assert(s@.take(i as int).drop_last() =~= s@.take(i - 1));
    }
    assert(s@.take(s@.len() as int) =~= s@);
}

/// A transform's payload: the rotation id, the nine rotation words only when
/// the id is zero, then the three position words.
pub open spec fn frame_payload(f: Frame) -> Seq<u8> {
    seq![f.rotation_id] + (if f.rotation_id == 0 {
        words(f.rotation@)
    } else {
        seq![]
    }) + words(f.position@)
}

/// The payload after the tag byte of a value that neither nests nor refers
/// to a node.
pub open spec fn plain_payload(v: Value) -> Seq<u8> {
    match v {
        Value::String(s) => var_string(encode_utf8(s@)),
        Value::Axes(b) => seq![b],
        Value::Bool(b) => seq![if b { 1u8 } else { 0u8 }],
        Value::BrickColor(n) => null_string(n@),
        Value::CFrame(f) => frame_payload(f),
        Value::Color3(a) => words(a@),
        Value::Color3uint8(a) => a@,
        Value::ColorSequence(k) => leb(k.len() as nat) + records(k@),
        Value::Enum(e) => leb(e as nat),
        Value::Faces(b) => seq![b],
        Value::Float32(x) => le32(x),
        Value::Float64(x) => le64(x),
        Value::Int32(i) => le32(i as u32),
        Value::MaterialColors(a) => a@,
        Value::NumberRange(a) => words(a@),
        Value::NumberSequence(k) => leb(k.len() as nat) + records(k@),
        Value::OptionalCFrame(f) => match f {
            Some(f) => frame_payload(f),
            None => seq![],
        },
        Value::CustomPhysicalProperties(a) => words(a@),
        Value::Ray(a) => words(a@),
        Value::Rect(a) => words(a@),
        Value::Region3(a) => words(a@),
        Value::Region3int16(a) => halves(a@),
        Value::SecurityCapabilities(x) => le64(x),
        Value::BinaryString(b) => var_string(b@),
        Value::Tags(t) => leb(t.len() as nat) + null_strings(t@),
        Value::UDim(o, s) => le32(o as u32) + le32(s),
        Value::UDim2(xo, yo, xs, ys) => le32(xo as u32) + le32(yo as u32) + le32(xs) + le32(ys),
        Value::Vector2(a) => words(a@),
        Value::Vector2int16(a) => halves(a@),
        Value::Vector3(a) => words(a@),
        Value::Vector3int16(a) => halves(a@),
        Value::Font(f, w, s) => null_string(f@) + le16(w) + seq![s],
        Value::ContentUri(s) => null_string(s@),
        _ => seq![],
    }
}

/// The bytes of `v` written with a referent table whose insertion order is
/// `t`, and the insertion order afterwards.
pub open spec fn value_enc(v: Value, t: Seq<u128>) -> (Seq<u8>, Seq<u128>)
    decreases v,
{
    match v {
        Value::Attributes(entries) => {
            let (body, t2) = entries_enc(entries@, t);
            (seq![TypeId::Attributes.tag()] + leb(entries.len() as nat) + body, t2)
        },
        Value::Ref(r) => match r {
            Some(id) => (seq![TypeId::Ref.tag()] + leb(ref_index(t, id)), ref_insert(t, id)),
            None => (seq![TypeId::Nil.tag()], t),
        },
        Value::ContentObject(id) => (
            seq![TypeId::ContentObject.tag()] + leb(ref_index(t, id)),
            ref_insert(t, id),
        ),
        _ => (seq![v.kind().tag()] + plain_payload(v), t),
    }
}

/// Named values, each a zero-terminated name then the value, threading the
/// referent table through them in order.
pub open spec fn entries_enc(s: Seq<(String, Value)>, t: Seq<u128>) -> (Seq<u8>, Seq<u128>)
    decreases s,
{
    if s.len() == 0 {
        (seq![], t)
    } else {
        let (front, t1) = entries_enc(s.drop_last(), t);
        let (last, t2) = value_enc(s.last().1, t1);
        (front + null_string(s.last().0@) + last, t2)
    }
}

/// Writes `variant`, tag byte first, resolving node references through
/// `referent_map`.
pub fn write_variant(target: &mut Vec<u8>, variant: &Value, referent_map: &mut ReferentTable)
    requires
        old(referent_map).wf(),
    ensures
        final(referent_map).wf(),
        final(target)@ == old(target)@ + value_enc(*variant, old(referent_map)@).0,
        final(referent_map)@ == value_enc(*variant, old(referent_map)@).1,
    decreases variant,
{
    match variant {
        Value::Attributes(entries) => {
            target.push(TypeId::Attributes.as_u8());
            write_unsigned(target, entries.len() as u64);
            let ghost start = target@;
            let ghost t0 = referent_map@;
            proof {
                vstd::std_specs::vec::axiom_vec_decreases_to_view(*entries);
                assert(decreases_to!(*variant => entries@));
            }
            let mut i: usize = 0;
            while i < entries.len()
                invariant
                    decreases_to!(*variant => entries@),
                    i <= entries@.len(),
                    referent_map.wf(),
                    target@ == start + entries_enc(entries@.take(i as int), t0).0,
                    referent_map@ == entries_enc(entries@.take(i as int), t0).1,
                decreases entries@.len() - i,
            {
                let entry = &entries[i];
                proof {
                    vstd::seq::axiom_seq_index_decreases(entries@, i as int);
                    assert(decreases_to!(entries@ => entries@[i as int]));
                    assert(decreases_to!(entries@[i as int] => entries@[i as int].1));
                    assert(decreases_to!(*variant => entries@[i as int].1));
                }
                write_nullstring(target, entry.0.as_str());
                write_variant(target, &entry.1, referent_map);
                i += 1;
                assert(entries@.take(i as int).drop_last() =~= entries@.take(i - 1));
            }
            assert(entries@.take(entries@.len() as int) =~= entries@);
        },
        Value::Ref(r) => match r {
            Some(id) => {
                target.push(TypeId::Ref.as_u8());
                let index = referent_map.resolve(*id);
                write_unsigned(target, index as u64);
            },
            None => {
                target.push(TypeId::Nil.as_u8());
            },
        },
        Value::ContentObject(id) => {
            target.push(TypeId::ContentObject.as_u8());
            let index = referent_map.resolve(*id);
            write_unsigned(target, index as u64);
        },
        _ => write_plain(target, variant),
    }
}

/// Writes a value that neither nests nor refers to a node, tag byte first.
#[verifier::rlimit(60)]
fn write_plain(target: &mut Vec<u8>, variant: &Value)
    requires
        !(variant is Attributes || variant is Ref || variant is ContentObject),
    ensures
        final(target)@ == old(target)@ + seq![variant.kind().tag()] + plain_payload(*variant),
{
    match variant {
        Value::Axes(b) => {
            target.push(TypeId::Axes.as_u8());
            target.push(*b);
        },
        Value::BinaryString(b) => {
            target.push(TypeId::BinaryString.as_u8());
            write_varstring(target, b.as_slice());
        },
        Value::Bool(b) => {
            target.push(TypeId::Bool.as_u8());
            target.push(if *b { 1 } else { 0 });
        },
        Value::BrickColor(name) => {
            target.push(TypeId::BrickColor.as_u8());
            write_nullstring(target, name.as_str());
        },
        Value::CFrame(frame) => {
            target.push(TypeId::CFrame.as_u8());
            write_frame(target, frame);
        },
        Value::Color3(a) => {
            target.push(TypeId::Color3.as_u8());
            write_words(target, a.as_slice());
        },
        Value::Color3uint8(a) => {
            target.push(TypeId::Color3uint8.as_u8());
            write_bytes(target, a.as_slice());
        },
        Value::ColorSequence(k) => {
            target.push(TypeId::ColorSequence.as_u8());
            write_unsigned(target, k.len() as u64);
            write_records(target, k);
        },
        Value::Enum(e) => {
            target.push(TypeId::Enum.as_u8());
            write_unsigned(target, *e as u64);
        },
        Value::Faces(b) => {
            target.push(TypeId::Faces.as_u8());
            target.push(*b);
        },
        Value::Float32(x) => {
            target.push(TypeId::Float32.as_u8());
            write_u32(target, *x);
        },
        Value::Float64(x) => {
            target.push(TypeId::Float64.as_u8());
            write_u64(target, *x);
        },
        Value::Int32(i) => {
            target.push(TypeId::Int32.as_u8());
            write_u32(target, *i as u32);
        },
        Value::MaterialColors(a) => {
            target.push(TypeId::MaterialColors.as_u8());
            write_bytes(target, a.as_slice());
        },
        Value::NumberRange(a) => {
            target.push(TypeId::NumberRange.as_u8());
            write_words(target, a.as_slice());
        },
        Value::NumberSequence(k) => {
            target.push(TypeId::NumberSequence.as_u8());
            write_unsigned(target, k.len() as u64);
            write_records(target, k);
        },
        Value::OptionalCFrame(f) => match f {
            Some(frame) => {
                target.push(TypeId::CFrame.as_u8());
                write_frame(target, frame);
            },
            None => {
                target.push(TypeId::Nil.as_u8());
            },
        },
        Value::DefaultPhysicalProperties => {
            target.push(TypeId::DefaultPhysicalProperties.as_u8());
        },
        Value::CustomPhysicalProperties(a) => {
            target.push(TypeId::CustomPhysicalProperties.as_u8());
            write_words(target, a.as_slice());
        },
        Value::Ray(a) => {
            target.push(TypeId::Ray.as_u8());
            write_words(target, a.as_slice());
        },
        Value::Rect(a) => {
            target.push(TypeId::Rect.as_u8());
            write_words(target, a.as_slice());
        },
        Value::Region3(a) => {
            target.push(TypeId::Region3.as_u8());
            write_words(target, a.as_slice());
        },
        Value::Region3int16(a) => {
            target.push(TypeId::Region3int16.as_u8());
            write_halves(target, a.as_slice());
        },
        Value::SecurityCapabilities(x) => {
            target.push(TypeId::SecurityCapabilities.as_u8());
            write_u64(target, *x);
        },
        Value::String(s) => {
            target.push(TypeId::String.as_u8());
            write_varstring(target, s.as_str().as_bytes());
        },
        Value::Tags(tags) => {
            target.push(TypeId::Tags.as_u8());
            write_unsigned(target, tags.len() as u64);
            write_nullstrings(target, tags);
        },
        Value::UDim(offset, scale) => {
            target.push(TypeId::UDim.as_u8());
            write_u32(target, *offset as u32);
            write_u32(target, *scale);
        },
        Value::UDim2(x_offset, y_offset, x_scale, y_scale) => {
            target.push(TypeId::UDim2.as_u8());
            write_u32(target, *x_offset as u32);
            write_u32(target, *y_offset as u32);
            write_u32(target, *x_scale);
            write_u32(target, *y_scale);
        },
        Value::Vector2(a) => {
            target.push(TypeId::Vector2.as_u8());
            write_words(target, a.as_slice());
        },
        Value::Vector2int16(a) => {
            target.push(TypeId::Vector2int16.as_u8());
            write_halves(target, a.as_slice());
        },
        Value::Vector3(a) => {
            target.push(TypeId::Vector3.as_u8());
            write_words(target, a.as_slice());
        },
        Value::Vector3int16(a) => {
            target.push(TypeId::Vector3int16.as_u8());
            write_halves(target, a.as_slice());
        },
        Value::Font(family, weight, style) => {
            target.push(TypeId::Font.as_u8());
            write_nullstring(target, family.as_str());
            write_u16(target, *weight);
            target.push(*style);
        },
        Value::ContentNone => {
            target.push(TypeId::ContentNone.as_u8());
        },
        Value::ContentUri(uri) => {
            target.push(TypeId::ContentUri.as_u8());
            write_nullstring(target, uri.as_str());
        },
        _ => {},
    }
}

/// Writes a transform's payload, shortening the rotation to its id when it
/// is one of the axis-aligned rotations.
fn write_frame(target: &mut Vec<u8>, frame: &Frame)
    ensures
        final(target)@ == old(target)@ + frame_payload(*frame),
{
    target.push(frame.rotation_id);
    if frame.rotation_id == 0 {
        write_words(target, frame.rotation.as_slice());
    }
    write_words(target, frame.position.as_slice());
}

/// Why encoding a tree failed.
#[derive(Debug, PartialEq, Eq, Structural)]
pub enum EncodeError {
    /// A node has more properties than the 16-bit count field can hold.
    TooManyProperties,
}

/// Every node of the tree has at most 65535 properties, so that each count
/// fits its 16-bit field.
pub open spec fn fits(n: Node) -> bool
    decreases n,
{
    n.properties.len() <= 0xffff && all_fit(n.children@)
}

/// Every tree in `s` fits.
pub open spec fn all_fit(s: Seq<Node>) -> bool
    decreases s,
{
    if s.len() == 0 {
        true
    } else {
        all_fit(s.drop_last()) && fits(s.last())
    }
}

/// The bytes of the subtree `n`, written depth-first with a referent table
/// whose insertion order is `t`, and the insertion order afterwards: the
/// name as a tagged string, the class as a zero-terminated string, the
/// node's own and its parent's references, the 16-bit property count, the
/// properties, then the children in order.
pub open spec fn node_enc(n: Node, t: Seq<u128>) -> (Seq<u8>, Seq<u128>)
    decreases n,
{
    let head = seq![TypeId::String.tag()] + var_string(encode_utf8(n.name@)) + null_string(n.class@);
    let (own, t1) = value_enc(Value::Ref(Some(n.referent)), t);
    let (parent, t2) = value_enc(Value::Ref(n.parent), t1);
    let (props, t3) = entries_enc(n.properties@, t2);
    let (kids, t4) = children_enc(n.children@, t3);
    (head + own + parent + le16(n.properties.len() as u16) + props + kids, t4)
}

/// Subtrees one after the other, threading the referent table.
pub open spec fn children_enc(s: Seq<Node>, t: Seq<u128>) -> (Seq<u8>, Seq<u128>)
    decreases s,
{
    if s.len() == 0 {
        (seq![], t)
    } else {
        let (front, t1) = children_enc(s.drop_last(), t);
        let (last, t2) = node_enc(s.last(), t1);
        (front + last, t2)
    }
}

proof fn lemma_all_fit_each(s: Seq<Node>, i: int)
    requires
        all_fit(s),
        0 <= i < s.len(),
    ensures
        fits(s[i]),
    decreases s.len(),
{
    if i < s.len() - 1 {
        lemma_all_fit_each(s.drop_last(), i);
    }
}

/// Whether every node of the subtree `n` fits the format.
fn tree_fits(n: &Node) -> (r: bool)
    ensures
        r == fits(*n),
    decreases n,
{
    if n.properties.len() > 0xffff {
        return false;
    }
    let children = &n.children;
    proof {
        vstd::std_specs::vec::axiom_vec_decreases_to_view(*children);
    }
    let mut j: usize = 0;
    while j < children.len()
        invariant
            decreases_to!(*n => children@),
            children@ == n.children@,
            j <= children@.len(),
            all_fit(children@.take(j as int)),
        decreases children@.len() - j,
    {
        proof {
            vstd::seq::axiom_seq_index_decreases(children@, j as int);
        }
        if !tree_fits(&children[j]) {
            proof {
                if fits(*n) {
                    lemma_all_fit_each(children@, j as int);
                }
            }
            return false;
        }
        j += 1;
        assert(children@.take(j as int).drop_last() =~= children@.take(j - 1));
    }
    assert(children@.take(children@.len() as int) =~= children@);
    true
}

/// Writes the subtree `instance`, depth-first, node before descendants. When
/// some node has too many properties nothing is written and the table is
/// left as it was.
pub fn encode_instance(instance: &Node, referent_map: &mut ReferentTable, buffer: &mut Vec<u8>) -> (r: Result<(), EncodeError>)
    requires
        old(referent_map).wf(),
    ensures
        final(referent_map).wf(),
        r is Ok <==> fits(*instance),
        r is Ok ==> final(buffer)@ == old(buffer)@ + node_enc(*instance, old(referent_map)@).0
            && final(referent_map)@ == node_enc(*instance, old(referent_map)@).1,
        r matches Err(e) ==> e == EncodeError::TooManyProperties && final(buffer)@ == old(buffer)@
            && final(referent_map)@ == old(referent_map)@,
{
    if !tree_fits(instance) {
        return Err(EncodeError::TooManyProperties);
    }
    write_instance(instance, referent_map, buffer)
}

/// Writes a subtree known to fit, depth-first, node before descendants.
fn write_instance(instance: &Node, referent_map: &mut ReferentTable, buffer: &mut Vec<u8>) -> (r: Result<(), EncodeError>)
    requires
        old(referent_map).wf(),
    ensures
        final(referent_map).wf(),
        r is Ok <==> fits(*instance),
        r is Ok ==> final(buffer)@ == old(buffer)@ + node_enc(*instance, old(referent_map)@).0
            && final(referent_map)@ == node_enc(*instance, old(referent_map)@).1,
        r matches Err(e) ==> e == EncodeError::TooManyProperties,
    decreases instance,
{
    let ghost start = buffer@;
    let ghost t = referent_map@;
    buffer.push(TypeId::String.as_u8());
    write_varstring(buffer, instance.name.as_str().as_bytes());
    write_nullstring(buffer, instance.class.as_str());
    write_variant(buffer, &Value::Ref(Some(instance.referent)), referent_map);
    write_variant(buffer, &Value::Ref(instance.parent), referent_map);
    let count = instance.properties.len();
    if count > 0xffff {
        return Err(EncodeError::TooManyProperties);
    }
    write_u16(buffer, count as u16);
    let props = &instance.properties;
    let ghost t2 = referent_map@;
    let ghost mid = buffer@;
    let mut i: usize = 0;
    while i < props.len()
        invariant
            i <= props@.len(),
            referent_map.wf(),
            buffer@ == mid + entries_enc(props@.take(i as int), t2).0,
            referent_map@ == entries_enc(props@.take(i as int), t2).1,
        decreases props@.len() - i,
    {
        write_nullstring(buffer, props[i].0.as_str());
        write_variant(buffer, &props[i].1, referent_map);
        i += 1;
        assert(props@.take(i as int).drop_last() =~= props@.take(i - 1));
    }
    assert(props@.take(props@.len() as int) =~= props@);
    let children = &instance.children;
    let ghost t3 = referent_map@;
    let ghost after_props = buffer@;
    proof {
        vstd::std_specs::vec::axiom_vec_decreases_to_view(*children);
    }
    let mut j: usize = 0;
    while j < children.len()
        invariant
            decreases_to!(*instance => children@),
            children@ == instance.children@,
            instance.properties.len() <= 0xffff,
            j <= children@.len(),
            referent_map.wf(),
            all_fit(children@.take(j as int)),
            buffer@ == after_props + children_enc(children@.take(j as int), t3).0,
            referent_map@ == children_enc(children@.take(j as int), t3).1,
        decreases children@.len() - j,
    {
        proof {
            vstd::seq::axiom_seq_index_decreases(children@, j as int);
        }
        let child = &children[j];
        match write_instance(child, referent_map, buffer) {
            Ok(()) => {},
            Err(e) => {
                proof {
                    if fits(*instance) {
                        lemma_all_fit_each(children@, j as int);
                    }
                }
                return Err(e);
            },
        }
        j += 1;
        assert(children@.take(j as int).drop_last() =~= children@.take(j - 1));
    }
    assert(children@.take(children@.len() as int) =~= children@);
    Ok(())
}

/// Encodes the tree under `root` with a fresh referent table, and hands the
/// table back so that callers can see which index each node got.
pub fn encode_dom_into_writer(root: &Node, writer: &mut Vec<u8>) -> (r: Result<ReferentTable, EncodeError>)
    ensures
        r is Ok <==> fits(*root),
        r matches Ok(table) ==> table.wf() && final(writer)@ == old(writer)@ + node_enc(*root, seq![]).0
            && table@ == node_enc(*root, seq![]).1,
        r matches Err(e) ==> e == EncodeError::TooManyProperties && final(writer)@ == old(writer)@,
{
    let mut table = ReferentTable::new();
    match encode_instance(root, &mut table, writer) {
        Ok(()) => Ok(table),
        Err(e) => Err(e),
    }
}

/// Reads an unsigned LEB128 integer from the front of `p`: its value and the
/// bytes after it, or `None` when `p` ends before the last byte.
pub open spec fn read_leb(p: Seq<u8>) -> Option<(nat, Seq<u8>)>
    decreases p.len(),
{
    if p.len() == 0 {
        None
    } else if p[0] < 128 {
        Some((p[0] as nat, p.drop_first()))
    } else {
        match read_leb(p.drop_first()) {
            Some((high, rest)) => Some((((p[0] - 128) + 128 * high) as nat, rest)),
            None => None,
        }
    }
}

/// Reads a length-prefixed byte string from the front of `p`.
pub open spec fn read_var_string(p: Seq<u8>) -> Option<(Seq<u8>, Seq<u8>)> {
    match read_leb(p) {
        Some((n, rest)) => if n <= rest.len() {
            Some((rest.take(n as int), rest.skip(n as int)))
        } else {
            None
        },
        None => None,
    }
}

/// An unsigned LEB128 integer reads back as itself, whatever follows it:
/// the form is self-delimiting.
pub proof fn lemma_leb_round_trip(v: nat, rest: Seq<u8>)
    ensures
        read_leb(leb(v) + rest) == Some((v, rest)),
    decreases v,
{
    let p = leb(v) + rest;
    if v < 128 {
        assert(p.drop_first() =~= rest);
    } else {
        lemma_leb_round_trip(v / 128, rest);
        assert(p.drop_first() =~= leb(v / 128) + rest);
        assert(p[0] == (v % 128 + 128) as u8);
    }
}

/// A length-prefixed byte string reads back as itself, whatever follows it.
pub proof fn lemma_var_string_round_trip(b: Seq<u8>, rest: Seq<u8>)
    ensures
        read_var_string(var_string(b) + rest) == Some((b, rest)),
{
    lemma_leb_round_trip(b.len(), b + rest);
    assert(var_string(b) + rest =~= leb(b.len()) + (b + rest));
    assert((b + rest).take(b.len() as int) =~= b);
    assert((b + rest).skip(b.len() as int) =~= rest);
}

proof fn lemma_words_len(s: Seq<u32>)
    ensures
        words(s).len() == 4 * s.len(),
    decreases s.len(),
{
    if s.len() > 0 {
        lemma_words_len(s.drop_last());
    }
}

proof fn lemma_halves_len(s: Seq<i16>)
    ensures
        halves(s).len() == 2 * s.len(),
    decreases s.len(),
{
    if s.len() > 0 {
        lemma_halves_len(s.drop_last());
    }
}

proof fn lemma_records_len<const N: usize>(s: Seq<[u32; N]>)
    ensures
        records(s).len() == 4 * N * s.len(),
    decreases s.len(),
{
    if s.len() > 0 {
        lemma_records_len(s.drop_last());
        lemma_words_len(s.last()@);
        assert(4 * N * s.len() == 4 * N * (s.len() - 1) + 4 * N) by (nonlinear_arith);
    }
}

/// A transform whose rotation is one of the axis-aligned table entries is
/// written in 14 bytes (tag, id, three position floats); any other
/// transform takes 50 (tag, zero id, nine rotation and three position floats).
pub proof fn lemma_frame_canonical_size(f: Frame, t: Seq<u128>)
    ensures
        value_enc(Value::CFrame(f), t).0.len() == if f.rotation_id != 0 {
            14int
        } else {
            50int
        },
        value_enc(Value::CFrame(f), t).0[1] == f.rotation_id,
{
    lemma_words_len(f.rotation@);
    lemma_words_len(f.position@);
}

/// `p` is exactly what a decode fragment with layout `l` reads: the payload
/// has the shape the layout names, and a fixed layout's byte count.
pub open spec fn layout_reads(l: Layout, p: Seq<u8>) -> bool {
    match l {
        Layout::Fixed(n) => p.len() == n,
        Layout::Varint => exists|x: nat| p == leb(x),
        Layout::VarBytes => exists|b: Seq<u8>| p == var_string(b),
        Layout::NullString => exists|c: Seq<char>| p == null_string(c),
        Layout::NullStringThen(n) => exists|c: Seq<char>, rest: Seq<u8>|
            p == null_string(c) + rest && rest.len() == n,
        Layout::Counted(n) => exists|k: nat, body: Seq<u8>| p == leb(k) + body && body.len() == k * n,
        Layout::CountedNullStrings => exists|ss: Seq<String>| p == leb(ss.len()) + null_strings(ss),
        Layout::CountedEntries => exists|k: nat, body: Seq<u8>| p == leb(k) + body,
        Layout::Rotation => p.len() >= 1 && p.len() == 1 + if p[0] == 0 {
            48int
        } else {
            12int
        },
    }
}

/// For every value, the encoder writes the tag of the value's kind and then
/// a payload of the shape that kind's decode fragment reads; a named-value
/// map's payload is its entry count followed by its entries.
pub proof fn lemma_layout_agreement(v: Value, t: Seq<u128>)
    ensures
        value_enc(v, t).0.len() >= 1,
        value_enc(v, t).0[0] == v.kind().tag(),
        layout_reads(v.kind().layout(), value_enc(v, t).0.drop_first()),
        v matches Value::Attributes(entries) ==> value_enc(v, t).0.drop_first() == leb(entries.len() as nat)
            + entries_enc(entries@, t).0,
{
    let w = value_enc(v, t).0;
    let p = w.drop_first();
    match v {
        Value::Attributes(entries) => {
            let body = entries_enc(entries@, t).0;
            assert(p =~= leb(entries.len() as nat) + body);
        },
        Value::Ref(r) => match r {
            Some(id) => {
                assert(p =~= leb(ref_index(t, id)));
            },
            None => {},
        },
        Value::ContentObject(id) => {
            assert(p =~= leb(ref_index(t, id)));
        },
        Value::String(s) => {
            assert(p =~= var_string(encode_utf8(s@)));
        },
        Value::BinaryString(b) => {
            assert(p =~= var_string(b@));
        },
        Value::BrickColor(n) => {
            assert(p =~= null_string(n@));
        },
        Value::ContentUri(n) => {
            assert(p =~= null_string(n@));
        },
        Value::Font(f, wt, st) => {
            assert(p =~= null_string(f@) + (le16(wt) + seq![st]));
        },
        Value::Enum(e) => {
            assert(p =~= leb(e as nat));
        },
        Value::Tags(ts) => {
            assert(p =~= leb(ts@.len()) + null_strings(ts@));
        },
        Value::ColorSequence(k) => {
            lemma_records_len(k@);
            assert(p =~= leb(k.len() as nat) + records(k@));
        },
        Value::NumberSequence(k) => {
            lemma_records_len(k@);
            assert(4 * 3 * k@.len() == (k.len() as nat) * 12) by (nonlinear_arith);
            assert(p =~= leb(k.len() as nat) + records(k@));
        },
        Value::CFrame(f) => {
            lemma_words_len(f.rotation@);
            lemma_words_len(f.position@);
        },
        Value::OptionalCFrame(f) => match f {
            Some(f) => {
                lemma_words_len(f.rotation@);
                lemma_words_len(f.position@);
            },
            None => {},
        },
        Value::Color3(a) => lemma_words_len(a@),
        Value::NumberRange(a) => lemma_words_len(a@),
        Value::CustomPhysicalProperties(a) => lemma_words_len(a@),
        Value::Ray(a) => lemma_words_len(a@),
        Value::Rect(a) => lemma_words_len(a@),
        Value::Region3(a) => lemma_words_len(a@),
        Value::Vector2(a) => lemma_words_len(a@),
        Value::Vector3(a) => lemma_words_len(a@),
        Value::Region3int16(a) => lemma_halves_len(a@),
        Value::Vector2int16(a) => lemma_halves_len(a@),
        Value::Vector3int16(a) => lemma_halves_len(a@),
        Value::Color3uint8(a) => assert(a@.len() == 3),
        Value::MaterialColors(a) => assert(a@.len() == 69),
        _ => {},
    }
}

/// Position of the first zero byte of `p`, if it has one.
pub open spec fn zero_at(p: Seq<u8>) -> Option<nat>
    decreases p.len(),
{
    if p.len() == 0 {
        None
    } else if p[0] == 0 {
        Some(0)
    } else {
        match zero_at(p.drop_first()) {
            Some(i) => Some(i + 1),
            None => None,
        }
    }
}

/// Bytes taken by `k` zero-terminated strings at the front of `p`.
pub open spec fn null_strings_len(p: Seq<u8>, k: nat) -> Option<nat>
    decreases k,
{
    if k == 0 {
        Some(0)
    } else {
        match zero_at(p) {
            Some(z) => match null_strings_len(p.skip(z + 1 as int), (k - 1) as nat) {
                Some(m) => Some(z + 1 + m),
                None => None,
            },
            None => None,
        }
    }
}

/// How many bytes a decode fragment with layout `l` reads from the front of
/// `p`, or `None` when `p` runs out first. Named-value maps are read value by
/// value and are not measured here.
pub open spec fn fragment_len(l: Layout, p: Seq<u8>) -> Option<nat> {
    match l {
        Layout::Fixed(n) => if n <= p.len() {
            Some(n as nat)
        } else {
            None
        },
        Layout::Varint => match read_leb(p) {
            Some((_v, r)) => Some((p.len() - r.len()) as nat),
            None => None,
        },
        Layout::VarBytes => match read_var_string(p) {
            Some((_b, r)) => Some((p.len() - r.len()) as nat),
            None => None,
        },
        Layout::NullString => match zero_at(p) {
            Some(z) => Some(z + 1),
            None => None,
        },
        Layout::NullStringThen(n) => match zero_at(p) {
            Some(z) => if z + 1 + n <= p.len() {
                Some((z + 1 + n) as nat)
            } else {
                None
            },
            None => None,
        },
        Layout::Counted(n) => match read_leb(p) {
            Some((k, r)) => if k * n <= r.len() {
                Some(((p.len() - r.len()) + k * n) as nat)
            } else {
                None
            },
            None => None,
        },
        Layout::CountedNullStrings => match read_leb(p) {
            Some((k, r)) => match null_strings_len(r, k) {
                Some(m) => Some(((p.len() - r.len()) + m) as nat),
                None => None,
            },
            None => None,
        },
        Layout::CountedEntries => None,
        Layout::Rotation => if p.len() >= 1 && (if p[0] == 0 {
            49int
        } else {
            13int
        }) <= p.len() {
            Some(if p[0] == 0 {
                49nat
            } else {
                13nat
            })
        } else {
            None
        },
    }
}

/// No zero-terminated string inside `v` holds a zero byte, so that its
/// terminator is the first zero the decoder meets.
pub open spec fn terminators_unambiguous(v: Value) -> bool {
    match v {
        Value::BrickColor(n) => !encode_utf8(n@).contains(0u8),
        Value::ContentUri(n) => !encode_utf8(n@).contains(0u8),
        Value::Font(f, _w, _s) => !encode_utf8(f@).contains(0u8),
        Value::Tags(ts) => forall|i: int| 0 <= i < ts@.len() ==> !encode_utf8(#[trigger] ts@[i]@).contains(0u8),
        _ => true,
    }
}

proof fn lemma_zero_at_terminator(b: Seq<u8>, rest: Seq<u8>)
    requires
        !b.contains(0u8),
    ensures
        zero_at(b + seq![0u8] + rest) == Some(b.len()),
    decreases b.len(),
{
    let p = b + seq![0u8] + rest;
    if b.len() > 0 {
        assert(b[0] != 0u8) by {
            assert(b.contains(b[0]));
        }
        assert(!b.drop_first().contains(0u8)) by {
            if b.drop_first().contains(0u8) {
                let k = choose|k: int| 0 <= k < b.drop_first().len() && b.drop_first()[k] == 0u8;
                assert(b[k + 1] == 0u8);
            }
        }
        lemma_zero_at_terminator(b.drop_first(), rest);
        assert(p.drop_first() =~= b.drop_first() + seq![0u8] + rest);
    }
}

proof fn lemma_null_strings_front(ss: Seq<String>)
    requires
        ss.len() > 0,
    ensures
        null_strings(ss) == null_string(ss[0]@) + null_strings(ss.drop_first()),
    decreases ss.len(),
{
    if ss.len() > 1 {
        lemma_null_strings_front(ss.drop_last());
        assert(ss.drop_last().drop_first() =~= ss.drop_first().drop_last());
        assert(ss.drop_first().last() == ss.last());
        assert(null_strings(ss) =~= null_string(ss[0]@) + null_strings(ss.drop_first()));
    } else {
        assert(ss.drop_last() =~= Seq::<String>::empty());
        assert(ss.drop_first() =~= Seq::<String>::empty());
        assert(null_strings(ss) =~= null_string(ss[0]@) + null_strings(ss.drop_first()));
    }
}

proof fn lemma_null_strings_len(ss: Seq<String>, rest: Seq<u8>)
    requires
        forall|i: int| 0 <= i < ss.len() ==> !encode_utf8(#[trigger] ss[i]@).contains(0u8),
    ensures
        null_strings_len(null_strings(ss) + rest, ss.len()) == Some(null_strings(ss).len()),
    decreases ss.len(),
{
    if ss.len() > 0 {
        lemma_null_strings_front(ss);
        let first = encode_utf8(ss[0]@);
        let tail = null_strings(ss.drop_first());
        let p = null_strings(ss) + rest;
        assert(p =~= first + seq![0u8] + (tail + rest));
        lemma_zero_at_terminator(first, tail + rest);
        assert(p.skip(first.len() + 1 as int) =~= tail + rest);
        assert forall|i: int| 0 <= i < ss.drop_first().len() implies !encode_utf8(
            #[trigger] ss.drop_first()[i]@,
        ).contains(0u8) by {
            assert(ss.drop_first()[i] == ss[i + 1]);
        }
        lemma_null_strings_len(ss.drop_first(), rest);
    }
}

#[verifier::rlimit(60)]
proof fn lemma_variable_fragment(v: Value, t: Seq<u128>, rest: Seq<u8>)
    requires
        !(v is Attributes),
        !(v.kind().layout() is Fixed || v.kind().layout() is Rotation),
        terminators_unambiguous(v),
    ensures
        fragment_len(v.kind().layout(), value_enc(v, t).0.drop_first() + rest) == Some(
            (value_enc(v, t).0.len() - 1) as nat,
        ),
{
    let w = value_enc(v, t).0;
    let p = w.drop_first();
    let q = p + rest;
    match v {
        Value::Ref(r) => match r {
            Some(id) => {
                lemma_leb_round_trip(ref_index(t, id), rest);
                assert(q =~= leb(ref_index(t, id)) + rest);
            },
            None => {},
        },
        Value::ContentObject(id) => {
            lemma_leb_round_trip(ref_index(t, id), rest);
            assert(q =~= leb(ref_index(t, id)) + rest);
        },
        Value::Enum(e) => {
            lemma_leb_round_trip(e as nat, rest);
            assert(q =~= leb(e as nat) + rest);
        },
        Value::String(s) => {
            lemma_var_string_round_trip(encode_utf8(s@), rest);
            assert(q =~= var_string(encode_utf8(s@)) + rest);
        },
        Value::BinaryString(b) => {
            lemma_var_string_round_trip(b@, rest);
            assert(q =~= var_string(b@) + rest);
        },
        Value::BrickColor(n) => {
            lemma_zero_at_terminator(encode_utf8(n@), rest);
            assert(q =~= encode_utf8(n@) + seq![0u8] + rest);
        },
        Value::ContentUri(n) => {
            lemma_zero_at_terminator(encode_utf8(n@), rest);
            assert(q =~= encode_utf8(n@) + seq![0u8] + rest);
        },
        Value::Font(f, wt, st) => {
            lemma_zero_at_terminator(encode_utf8(f@), le16(wt) + seq![st] + rest);
            assert(q =~= encode_utf8(f@) + seq![0u8] + (le16(wt) + seq![st] + rest));
        },
        Value::Tags(ts) => {
            lemma_leb_round_trip(ts@.len(), null_strings(ts@) + rest);
            lemma_null_strings_len(ts@, rest);
            assert(q =~= leb(ts@.len()) + (null_strings(ts@) + rest));
        },
        Value::ColorSequence(k) => {
            lemma_records_len(k@);
            lemma_leb_round_trip(k.len() as nat, records(k@) + rest);
            assert(q =~= leb(k.len() as nat) + (records(k@) + rest));
            assert(4 * 4 * k@.len() == (k.len() as nat) * 16) by (nonlinear_arith);
        },
        Value::NumberSequence(k) => {
            lemma_records_len(k@);
            lemma_leb_round_trip(k.len() as nat, records(k@) + rest);
            assert(q =~= leb(k.len() as nat) + (records(k@) + rest));
            assert(4 * 3 * k@.len() == (k.len() as nat) * 12) by (nonlinear_arith);
        },
        _ => {},
    }
}

/// For every value but a named-value map, the decode fragment of its kind,
/// reading the payload followed by anything, consumes exactly the payload
/// the encoder wrote: the fixed kinds by their size, and the variable kinds
/// through their own length prefixes and terminators.
pub proof fn lemma_fragment_reads_what_was_written(v: Value, t: Seq<u128>, rest: Seq<u8>)
    requires
        !(v is Attributes),
        terminators_unambiguous(v),
    ensures
        fragment_len(v.kind().layout(), value_enc(v, t).0.drop_first() + rest) == Some(
            (value_enc(v, t).0.len() - 1) as nat,
        ),
{
    let l = v.kind().layout();
    if l is Fixed || l is Rotation {
        lemma_layout_agreement(v, t);
        let p = value_enc(v, t).0.drop_first();
        if l is Rotation {
            assert((p + rest)[0] == p[0]);
        }
    } else {
        lemma_variable_fragment(v, t, rest);
    }
}

/// No identity occurs twice in the insertion order `t`.
pub open spec fn no_dups(t: Seq<u128>) -> bool {
    forall|i: int, j: int| 0 <= i < j < t.len() ==> t[i] != t[j]
}

/// `t2` is `t` with identities appended after it.
pub open spec fn extends(t2: Seq<u128>, t: Seq<u128>) -> bool {
    t.len() <= t2.len() && t2.subrange(0, t.len() as int) == t
}

proof fn lemma_extends_trans(a: Seq<u128>, b: Seq<u128>, c: Seq<u128>)
    requires
        extends(b, a),
        extends(c, b),
    ensures
        extends(c, a),
{
    assert(c.subrange(0, a.len() as int) =~= b.subrange(0, a.len() as int));
}

proof fn lemma_ref_insert_grows(t: Seq<u128>, id: u128)
    requires
        no_dups(t),
    ensures
        no_dups(ref_insert(t, id)),
        extends(ref_insert(t, id), t),
        ref_insert(t, id).contains(id),
{
    if t.contains(id) {
        assert(t.subrange(0, t.len() as int) =~= t);
    } else {
        assert(t.push(id).subrange(0, t.len() as int) =~= t);
        assert(t.push(id)[t.len() as int] == id);
    }
}

proof fn lemma_value_table_grows(v: Value, t: Seq<u128>)
    requires
        no_dups(t),
    ensures
        no_dups(value_enc(v, t).1),
        extends(value_enc(v, t).1, t),
    decreases v,
{
    match v {
        Value::Attributes(entries) => {
            vstd::std_specs::vec::axiom_vec_decreases_to_view(entries);
            lemma_entries_table_grows(entries@, t);
        },
        Value::Ref(r) => match r {
            Some(id) => lemma_ref_insert_grows(t, id),
            None => {
                assert(t.subrange(0, t.len() as int) =~= t);
            },
        },
        Value::ContentObject(id) => lemma_ref_insert_grows(t, id),
        _ => {
            assert(t.subrange(0, t.len() as int) =~= t);
        },
    }
}

proof fn lemma_entries_table_grows(s: Seq<(String, Value)>, t: Seq<u128>)
    requires
        no_dups(t),
    ensures
        no_dups(entries_enc(s, t).1),
        extends(entries_enc(s, t).1, t),
    decreases s,
{
    if s.len() == 0 {
        assert(t.subrange(0, t.len() as int) =~= t);
    } else {
        lemma_entries_table_grows(s.drop_last(), t);
        let t1 = entries_enc(s.drop_last(), t).1;
        vstd::seq::axiom_seq_index_decreases(s, s.len() - 1);
        lemma_value_table_grows(s.last().1, t1);
        lemma_extends_trans(t, t1, value_enc(s.last().1, t1).1);
    }
}

proof fn lemma_node_table_grows(n: Node, t: Seq<u128>)
    requires
        no_dups(t),
    ensures
        no_dups(node_enc(n, t).1),
        extends(node_enc(n, t).1, t),
    decreases n,
{
    let t1 = value_enc(Value::Ref(Some(n.referent)), t).1;
    lemma_value_table_grows(Value::Ref(Some(n.referent)), t);
    let t2 = value_enc(Value::Ref(n.parent), t1).1;
    lemma_value_table_grows(Value::Ref(n.parent), t1);
    let t3 = entries_enc(n.properties@, t2).1;
    lemma_entries_table_grows(n.properties@, t2);
    vstd::std_specs::vec::axiom_vec_decreases_to_view(n.children);
    lemma_children_table_grows(n.children@, t3);
    lemma_extends_trans(t, t1, t2);
    lemma_extends_trans(t, t2, t3);
    lemma_extends_trans(t, t3, children_enc(n.children@, t3).1);
}

proof fn lemma_children_table_grows(s: Seq<Node>, t: Seq<u128>)
    requires
        no_dups(t),
    ensures
        no_dups(children_enc(s, t).1),
        extends(children_enc(s, t).1, t),
    decreases s,
{
    if s.len() == 0 {
        assert(t.subrange(0, t.len() as int) =~= t);
    } else {
        lemma_children_table_grows(s.drop_last(), t);
        let t1 = children_enc(s.drop_last(), t).1;
        vstd::seq::axiom_seq_index_decreases(s, s.len() - 1);
        lemma_node_table_grows(s.last(), t1);
        lemma_extends_trans(t, t1, node_enc(s.last(), t1).1);
    }
}

proof fn lemma_index_kept(t: Seq<u128>, t2: Seq<u128>, id: u128)
    requires
        no_dups(t2),
        extends(t2, t),
        t.contains(id),
    ensures
        t2.contains(id),
        ref_index(t2, id) == ref_index(t, id),
{
    let i = choose|i: int| 0 <= i < t.len() && t[i] == id;
    assert(t2[i] == t2.subrange(0, t.len() as int)[i]);
    assert(t2.contains(id));
    let j = choose|j: int| 0 <= j < t2.len() && t2[j] == id;
    let k = choose|k: int| 0 <= k < t.len() && t[k] == id;
    assert(t2[k] == t2.subrange(0, t.len() as int)[k]);
}

/// Encoding a subtree with a duplicate-free referent table only appends to
/// it: the table stays duplicate-free, every identity already in it keeps
/// its index, and every identity first met in the subtree gets an index at
/// or after the table's old size, in the order first met.
pub proof fn lemma_encoding_keeps_indices(n: Node, t: Seq<u128>)
    requires
        no_dups(t),
    ensures
        no_dups(node_enc(n, t).1),
        extends(node_enc(n, t).1, t),
        forall|id: u128| #[trigger] t.contains(id) ==> ref_index(node_enc(n, t).1, id) == ref_index(t, id),
        forall|id: u128|
            node_enc(n, t).1.contains(id) && !t.contains(id) ==> #[trigger] ref_index(node_enc(n, t).1, id)
                >= t.len(),
{
    lemma_node_table_grows(n, t);
    let t2 = node_enc(n, t).1;
    assert forall|id: u128| #[trigger] t.contains(id) implies ref_index(t2, id) == ref_index(t, id) by {
        lemma_index_kept(t, t2, id);
    }
    assert forall|id: u128| t2.contains(id) && !t.contains(id) implies #[trigger] ref_index(t2, id) >= t.len() by {
        let j = choose|j: int| 0 <= j < t2.len() && t2[j] == id;
        if j < t.len() {
            assert(t[j] == t2.subrange(0, t.len() as int)[j]);
        }
    }
}

} // verus!
