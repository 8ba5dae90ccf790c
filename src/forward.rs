use vstd::prelude::*;

verus! {

/// The two bytes of `id` in little-endian order.
pub open spec fn le_bytes(id: u16) -> Seq<u8> {
    seq![(id % 256) as u8, (id / 256) as u8]
}

/// What the sink receives for a frame of bytes `raw` read on shard `id`:
/// the raw bytes followed by the shard id, little-endian.
pub open spec fn forwarded(raw: Seq<u8>, id: u16) -> Seq<u8> {
    raw + le_bytes(id)
}

/// Appends the shard id, as two little-endian bytes, to the raw frame bytes.
pub fn append_shard_id(bytes: &mut Vec<u8>, shard_id: u16)
    ensures
        final(bytes)@ == forwarded(old(bytes)@, shard_id),
{
    let low: u8 = (shard_id % 256) as u8;
    let high: u8 = (shard_id / 256) as u8;
    bytes.push(low);
    bytes.push(high);
    assert(final(bytes)@ =~= forwarded(old(bytes)@, shard_id));
}

/// Builds the value pushed to the sink for a frame read on shard `shard_id`.
pub fn forwarded_frame(raw: Vec<u8>, shard_id: u16) -> (r: Vec<u8>)
    ensures
        r@ == forwarded(raw@, shard_id),
        r@.len() == raw@.len() + 2,
        r@.subrange(0, raw@.len() as int) == raw@,
{
    let mut bytes = raw;
    append_shard_id(&mut bytes, shard_id);
    assert(bytes@.subrange(0, raw@.len() as int) =~= raw@);
    bytes
}

} // verus!
