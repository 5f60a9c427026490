//! Wire format for state-update batches.
//!
//! A snapshot is the same byte stream used for live deltas: a record count,
//! then one record after another, each little-endian — entity, component
//! kind, version, payload length, payload bytes. Decoding is all or nothing:
//! a truncated stream, a short payload or trailing bytes fail the whole
//! batch, and nothing is handed on.

use vstd::prelude::*;

use crate::state::{EntryModel, StateEntry, StateKey};
use vstd::bytes::{
    lemma_auto_spec_u32_to_from_le_bytes, spec_u32_from_le_bytes, spec_u32_to_le_bytes,
    u32_from_le_bytes, u32_to_le_bytes,
};
use vstd::slice::{slice_subrange, slice_to_vec};

verus! {

/// Malformed snapshot bytes: truncated input, a short payload or trailing
/// garbage.
#[derive(Clone, Copy, PartialEq, Eq, Debug, Structural)]
pub struct SnapshotDecodeError;

/// A batch the wire format can carry: count and payload lengths fit the
/// length fields.
pub open spec fn encodable(b: Seq<EntryModel>) -> bool {
    &&& b.len() <= u32::MAX
    &&& forall|i: int| 0 <= i < b.len() ==> (#[trigger] b[i]).value.len() <= u32::MAX
}

/// Bytes of one record.
pub open spec fn encode_entry(e: EntryModel) -> Seq<u8> {
    spec_u32_to_le_bytes(e.key.entity) + spec_u32_to_le_bytes(e.key.component)
        + spec_u32_to_le_bytes(e.version) + spec_u32_to_le_bytes(e.value.len() as u32) + e.value
}

/// Bytes of the records, in batch order.
pub open spec fn encode_entries(b: Seq<EntryModel>) -> Seq<u8>
    decreases b.len(),
{
    if b.len() == 0 {
        Seq::empty()
    } else {
        encode_entry(b.first()) + encode_entries(b.drop_first())
    }
}

/// Bytes of a whole batch: the count, then the records.
pub open spec fn encode_batch_spec(b: Seq<EntryModel>) -> Seq<u8> {
    spec_u32_to_le_bytes(b.len() as u32) + encode_entries(b)
}

/// Parses exactly `n` records, requiring the stream to end with the last.
pub open spec fn parse_entries(bytes: Seq<u8>, n: nat) -> Option<Seq<EntryModel>>
    decreases n,
{
    if n == 0 {
        if bytes.len() == 0 {
            Some(Seq::empty())
        } else {
            None
        }
    } else if bytes.len() < 16 {
        None
    } else {
        let len = spec_u32_from_le_bytes(bytes.subrange(12, 16)) as int;
        if bytes.len() < 16 + len {
            None
        } else {
            let e = EntryModel {
                key: StateKey {
                    entity: spec_u32_from_le_bytes(bytes.subrange(0, 4)),
                    component: spec_u32_from_le_bytes(bytes.subrange(4, 8)),
                },
                version: spec_u32_from_le_bytes(bytes.subrange(8, 12)),
                value: bytes.subrange(16, 16 + len),
            };
            match parse_entries(bytes.skip(16 + len), (n - 1) as nat) {
                Some(rest) => Some(seq![e] + rest),
                None => None,
            }
        }
    }
}

/// Parses a whole batch; `None` is a decode failure.
pub open spec fn parse_batch(bytes: Seq<u8>) -> Option<Seq<EntryModel>> {
    if bytes.len() < 4 {
        None
    } else {
        parse_entries(bytes.skip(4), spec_u32_from_le_bytes(bytes.subrange(0, 4)) as nat)
    }
}

/// Appending one record to a batch appends its bytes.
proof fn lemma_encode_entries_push(b: Seq<EntryModel>, e: EntryModel)
    ensures
        encode_entries(b.push(e)) == encode_entries(b) + encode_entry(e),
    decreases b.len(),
{
    if b.len() == 0 {
        assert(b.push(e).first() == e);
        assert(b.push(e).drop_first() =~= Seq::<EntryModel>::empty());
        assert(encode_entries(Seq::<EntryModel>::empty()) == Seq::<u8>::empty());
        assert(encode_entries(b.push(e)) =~= encode_entries(b) + encode_entry(e));
    } else {
        assert(b.push(e).first() == b.first());
        assert(b.push(e).drop_first() =~= b.drop_first().push(e));
        lemma_encode_entries_push(b.drop_first(), e);
        assert(encode_entry(b.first()) + (encode_entries(b.drop_first()) + encode_entry(e))
            =~= (encode_entry(b.first()) + encode_entries(b.drop_first())) + encode_entry(e));
    }
}

/// Parsing inverts encoding, record by record.
proof fn lemma_parse_encode_entries(b: Seq<EntryModel>)
    requires
        forall|i: int| 0 <= i < b.len() ==> (#[trigger] b[i]).value.len() <= u32::MAX,
    ensures
        parse_entries(encode_entries(b), b.len()) == Some(b),
    decreases b.len(),
{
    lemma_auto_spec_u32_to_from_le_bytes();
    if b.len() == 0 {
        assert(parse_entries(encode_entries(b), 0) =~= Some(Seq::<EntryModel>::empty()));
        assert(Seq::<EntryModel>::empty() =~= b);
    } else {
        let u = b.first();
        let rest = b.drop_first();
        let bytes = encode_entries(b);
        let len = u.value.len() as int;
        assert(b[0].value.len() <= u32::MAX);
        assert(bytes =~= encode_entry(u) + encode_entries(rest));
        assert(bytes.len() >= 16 + len);
        assert(bytes.subrange(0, 4) =~= spec_u32_to_le_bytes(u.key.entity));
        assert(bytes.subrange(4, 8) =~= spec_u32_to_le_bytes(u.key.component));
        assert(bytes.subrange(8, 12) =~= spec_u32_to_le_bytes(u.version));
        assert(bytes.subrange(12, 16) =~= spec_u32_to_le_bytes(u.value.len() as u32));
        assert(spec_u32_from_le_bytes(bytes.subrange(12, 16)) as int == len);
        assert(bytes.subrange(16, 16 + len) =~= u.value);
        assert(bytes.skip(16 + len) =~= encode_entries(rest));
        assert(forall|i: int|
            0 <= i < rest.len() ==> (#[trigger] rest[i]).value.len() <= u32::MAX) by {
            assert(forall|i: int| 0 <= i < rest.len() ==> rest[i] == b[i + 1]);
        }
        lemma_parse_encode_entries(rest);
        let e = EntryModel {
            key: StateKey {
                entity: spec_u32_from_le_bytes(bytes.subrange(0, 4)),
                component: spec_u32_from_le_bytes(bytes.subrange(4, 8)),
            },
            version: spec_u32_from_le_bytes(bytes.subrange(8, 12)),
            value: bytes.subrange(16, 16 + len),
        };
        assert(e =~= u);
        assert(seq![u] + rest =~= b);
    }
}

/// Round trip: a batch the format can carry decodes back to itself.
pub proof fn lemma_parse_encode_batch(b: Seq<EntryModel>)
    requires
        encodable(b),
    ensures
        parse_batch(encode_batch_spec(b)) == Some(b),
{
    lemma_auto_spec_u32_to_from_le_bytes();
    let bytes = encode_batch_spec(b);
    assert(bytes.subrange(0, 4) =~= spec_u32_to_le_bytes(b.len() as u32));
    assert(bytes.skip(4) =~= encode_entries(b));
    lemma_parse_encode_entries(b);
}

/// Encodes a batch for a snapshot or a live delta.
pub fn encode_batch(batch: &Vec<StateEntry>) -> (r: Vec<u8>)
    requires
        encodable(batch.deep_view()),
    ensures
        r@ == encode_batch_spec(batch.deep_view()),
{
    let ghost b = batch.deep_view();
    let n = batch.len();
    let mut out: Vec<u8> = u32_to_le_bytes(n as u32);
    let mut i: usize = 0;
    proof {
        assert(b.take(0) =~= Seq::<EntryModel>::empty());
        assert(out@ =~= spec_u32_to_le_bytes(b.len() as u32) + encode_entries(b.take(0)));
    }
    while i < n
        invariant
            n == batch@.len(),
            b == batch.deep_view(),
            encodable(b),
            i <= n,
            out@ == spec_u32_to_le_bytes(b.len() as u32) + encode_entries(b.take(i as int)),
        decreases n - i,
    {
        let ghost out_pre = out@;
        let e = &batch[i];
        let mut piece = u32_to_le_bytes(e.key.entity);
        out.append(&mut piece);
        let mut piece = u32_to_le_bytes(e.key.component);
        out.append(&mut piece);
        let mut piece = u32_to_le_bytes(e.version);
        out.append(&mut piece);
        let mut piece = u32_to_le_bytes(e.value.len() as u32);
        out.append(&mut piece);
        let mut piece = slice_to_vec(e.value.as_slice());
        out.append(&mut piece);
        proof {
            assert(b[i as int] == e@);
            assert(out@ =~= out_pre + encode_entry(b[i as int]));
            lemma_encode_entries_push(b.take(i as int), b[i as int]);
            assert(b.take(i as int).push(b[i as int]) =~= b.take(i as int + 1));
            assert(out@ =~= spec_u32_to_le_bytes(b.len() as u32) + encode_entries(
                b.take(i as int + 1),
            ));
        }
        i += 1;
    }
    proof {
        assert(b.take(n as int) =~= b);
    }
    out
}

/// Decodes a batch; fails on truncated input, a short payload or trailing
/// bytes, handing nothing on.
pub fn decode_batch(bytes: &Vec<u8>) -> (r: Result<Vec<StateEntry>, SnapshotDecodeError>)
    ensures
        match r {
            Ok(v) => parse_batch(bytes@) == Some(v.deep_view()),
            Err(_) => parse_batch(bytes@) is None,
        },
{
    if bytes.len() < 4 {
        return Err(SnapshotDecodeError);
    }
    let header = slice_subrange(bytes.as_slice(), 0, 4);
    let n = u32_from_le_bytes(header);
    proof {
        assert(header@ =~= bytes@.subrange(0, 4));
    }
    let mut acc: Vec<StateEntry> = Vec::new();
    let mut pos: usize = 4;
    let mut i: u32 = 0;
    proof {
        assert(acc.deep_view() =~= Seq::<EntryModel>::empty());
    }
    while i < n
        invariant
            4 <= pos <= bytes@.len(),
            i <= n,
            parse_batch(bytes@) == (match parse_entries(bytes@.skip(pos as int), (n - i) as nat) {
                Some(rest) => Some(acc.deep_view() + rest),
                None => None::<Seq<EntryModel>>,
            }),
        decreases n - i,
    {
        let ghost tail = bytes@.skip(pos as int);
        let remaining = bytes.len() - pos;
        if remaining < 16 {
            return Err(SnapshotDecodeError);
        }
        let entity = u32_from_le_bytes(slice_subrange(bytes.as_slice(), pos, pos + 4));
        let component = u32_from_le_bytes(slice_subrange(bytes.as_slice(), pos + 4, pos + 8));
        let version = u32_from_le_bytes(slice_subrange(bytes.as_slice(), pos + 8, pos + 12));
        let len32 = u32_from_le_bytes(slice_subrange(bytes.as_slice(), pos + 12, pos + 16));
        let len = len32 as usize;
        proof {
            assert(bytes@.subrange(pos as int, pos as int + 4) =~= tail.subrange(0, 4));
            assert(bytes@.subrange(pos as int + 4, pos as int + 8) =~= tail.subrange(4, 8));
            assert(bytes@.subrange(pos as int + 8, pos as int + 12) =~= tail.subrange(8, 12));
            assert(bytes@.subrange(pos as int + 12, pos as int + 16) =~= tail.subrange(12, 16));
        }
        if remaining - 16 < len {
            return Err(SnapshotDecodeError);
        }
        let value = slice_to_vec(slice_subrange(bytes.as_slice(), pos + 16, pos + 16 + len));
        proof {
            assert(bytes@.subrange(pos as int + 16, pos as int + 16 + len as int) =~= tail
                .subrange(16, 16 + len as int));
        }
        let entry = StateEntry { key: StateKey { entity, component }, version, value };
        let ghost acc_pre = acc.deep_view();
        let ghost ev = entry@;
        acc.push(entry);
        proof {
            assert(acc.deep_view() =~= acc_pre.push(ev));
            let parsed_here = EntryModel {
                key: StateKey {
                    entity: spec_u32_from_le_bytes(tail.subrange(0, 4)),
                    component: spec_u32_from_le_bytes(tail.subrange(4, 8)),
                },
                version: spec_u32_from_le_bytes(tail.subrange(8, 12)),
                value: tail.subrange(16, 16 + len as int),
            };
            assert(ev =~= parsed_here);
            assert(bytes@.skip(pos as int + 16 + len as int) =~= tail.skip(16 + len as int));
            match parse_entries(tail.skip(16 + len as int), (n - i - 1) as nat) {
                Some(rest) => {
                    assert(parse_entries(tail, (n - i) as nat) == Some(seq![ev] + rest));
                    assert(acc_pre + (seq![ev] + rest) =~= acc_pre.push(ev) + rest);
                },
                None => {},
            }
        }
        pos = pos + 16 + len;
        i += 1;
    }
    if pos != bytes.len() {
        proof {
            assert(bytes@.skip(pos as int).len() > 0);
        }
        return Err(SnapshotDecodeError);
    }
    proof {
        assert(bytes@.skip(pos as int) =~= Seq::<u8>::empty());
        assert(acc.deep_view() + Seq::<EntryModel>::empty() =~= acc.deep_view());
    }
    Ok(acc)
}

} // verus!
