use crate::error::Error;
use parity_scale_codec::Error as CodecError;
use vstd::bytes::spec_u64_from_le_bytes;
use vstd::prelude::*;

verus! {

/// A log item of a block header's digest.
pub enum DigestItem {
    /// Data put in by the block author before the runtime runs, for an engine.
    PreRuntime([u8; 4], Vec<u8>),
    /// A message from the runtime to a consensus engine.
    Consensus([u8; 4], Vec<u8>),
    /// A seal put in by a consensus engine.
    Seal([u8; 4], Vec<u8>),
    /// Any other data.
    Other(Vec<u8>),
    /// The runtime environment was updated.
    RuntimeEnvironmentUpdated,
}

/// The data of the first consensus log addressed to `engine_id`, if any.
pub open spec fn engine_log(logs: Seq<DigestItem>, engine_id: [u8; 4]) -> Option<Seq<u8>>
    decreases logs.len(),
{
    if logs.len() == 0 {
        None
    } else {
        match logs[0] {
            DigestItem::Consensus(id, data) if id == engine_id => Some(data@),
            _ => engine_log(logs.drop_first(), engine_id),
        }
    }
}

/// Whether `item` is a consensus log addressed to `engine_id`.
pub open spec fn is_engine_log(item: DigestItem, engine_id: [u8; 4]) -> bool {
    item matches DigestItem::Consensus(id, _) && id == engine_id
}

/// A log that is not a consensus log of the engine is passed over, whatever
/// kind it is: it never hides an engine log that follows it.
pub proof fn lemma_engine_log_skips_others(
    item: DigestItem,
    logs: Seq<DigestItem>,
    engine_id: [u8; 4],
)
    requires
        !is_engine_log(item, engine_id),
    ensures
        engine_log(seq![item] + logs, engine_id) == engine_log(logs, engine_id),
{
    assert((seq![item] + logs).drop_first() =~= logs);
}

/// A consensus log of the engine in front of all others is the one read.
pub proof fn lemma_engine_log_takes_first(data: Vec<u8>, logs: Seq<DigestItem>, engine_id: [u8; 4])
    ensures
        engine_log(seq![DigestItem::Consensus(engine_id, data)] + logs, engine_id) == Some(data@),
{
    assert((seq![DigestItem::Consensus(engine_id, data)] + logs)[0] == DigestItem::Consensus(
        engine_id,
        data,
    ));
}

/// The log read is the first consensus log of the engine anywhere in the
/// logs: there is none exactly when no log is one, and otherwise its data is
/// that of an engine log with no engine log before it.
pub proof fn lemma_engine_log_first(logs: Seq<DigestItem>, engine_id: [u8; 4])
    ensures
        engine_log(logs, engine_id) is None <==> forall|i: int|
            0 <= i < logs.len() ==> !is_engine_log(#[trigger] logs[i], engine_id),
        engine_log(logs, engine_id) matches Some(d) ==> exists|i: int|
            {
                &&& 0 <= i < logs.len()
                &&& #[trigger] logs[i] matches DigestItem::Consensus(id, data) && id == engine_id
                    && data@ == d
                &&& forall|j: int| 0 <= j < i ==> !is_engine_log(#[trigger] logs[j], engine_id)
            },
    decreases logs.len(),
{
    if logs.len() > 0 {
        let rest = logs.drop_first();
        lemma_engine_log_first(rest, engine_id);
        if is_engine_log(logs[0], engine_id) {
            assert(forall|j: int| 0 <= j < 0 ==> !is_engine_log(#[trigger] logs[j], engine_id));
        } else {
            assert(engine_log(logs, engine_id) == engine_log(rest, engine_id));
            assert forall|i: int| 1 <= i < logs.len() implies logs[i] == #[trigger] rest[i - 1] by {}
            if engine_log(rest, engine_id) is None {
                assert forall|i: int| 0 <= i < logs.len() implies !is_engine_log(
                    #[trigger] logs[i],
                    engine_id,
                ) by {
                    if i > 0 {
                        assert(logs[i] == rest[i - 1]);
                    }
                }
            } else {
                let d = engine_log(rest, engine_id).unwrap();
                let k = choose|k: int|
                    {
                        &&& 0 <= k < rest.len()
                        &&& #[trigger] rest[k] matches DigestItem::Consensus(id, data) && id
                            == engine_id && data@ == d
                        &&& forall|j: int|
                            0 <= j < k ==> !is_engine_log(#[trigger] rest[j], engine_id)
                    };
                assert(logs[k + 1] == rest[k]);
                assert forall|j: int| 0 <= j < k + 1 implies !is_engine_log(
                    #[trigger] logs[j],
                    engine_id,
                ) by {
                    if j > 0 {
                        assert(logs[j] == rest[j - 1]);
                    }
                }
                assert(!is_engine_log(rest[k], engine_id) ==> false);
                assert(is_engine_log(logs[k + 1], engine_id));
            }
        }
    }
}

/// The weave size that the logs carry for `engine_id`: the first eight bytes
/// of that engine's first consensus log, read little-endian.
pub open spec fn weave_size_in(logs: Seq<DigestItem>, engine_id: [u8; 4]) -> Option<u64> {
    match engine_log(logs, engine_id) {
        Some(data) => if data.len() >= 8 {
            Some(spec_u64_from_le_bytes(data.subrange(0, 8)))
        } else {
            None
        },
        None => None,
    }
}

/// Calls `<u64 as parity_scale_codec::Decode>::decode` on the bytes. Claimed, as
/// the crate's source shows: it succeeds exactly when at least eight bytes are
/// there, and gives the first eight read little-endian.
#[verifier::external_body]
fn decode_u64(data: &[u8]) -> (r: Result<u64, CodecError>)
    ensures
        r is Ok <==> data@.len() >= 8,
        r matches Ok(v) ==> v == spec_u64_from_le_bytes(data@.subrange(0, 8)),
{
    let mut input = data;
    parity_scale_codec::Decode::decode(&mut input)
}

fn same_engine(a: &[u8; 4], b: &[u8; 4]) -> (r: bool)
    ensures
        r == (*a == *b),
{
    let r: bool = a[0] == b[0] && a[1] == b[1] && a[2] == b[2] && a[3] == b[3];
    if r {
        assert(*a =~= *b);
    }
    r
}

/// The weave size recorded in a header's digest logs for the PoA engine.
pub fn extract_weave_size(logs: &[DigestItem], engine_id: [u8; 4]) -> (r: Result<u64, Error>)
    ensures
        engine_log(logs@, engine_id) is None ==> r == Err::<u64, Error>(Error::EmptyWeaveSize),
        engine_log(logs@, engine_id) matches Some(data) && data.len() < 8 ==> r matches Err(
            Error::DecodeWeaveSizeFailed(_),
        ),
        r is Ok <==> weave_size_in(logs@, engine_id) is Some,
        r matches Ok(v) ==> weave_size_in(logs@, engine_id) == Some(v),
        (forall|i: int| 0 <= i < logs@.len() ==> !is_engine_log(#[trigger] logs@[i], engine_id))
            <==> r matches Err(Error::EmptyWeaveSize),
        r matches Ok(v) ==> exists|i: int|
            {
                &&& 0 <= i < logs@.len()
                &&& #[trigger] logs@[i] matches DigestItem::Consensus(id, data) && id == engine_id
                    && data@.len() >= 8 && v == spec_u64_from_le_bytes(data@.subrange(0, 8))
                &&& forall|j: int| 0 <= j < i ==> !is_engine_log(#[trigger] logs@[j], engine_id)
            },
{
    let mut i: usize = 0;
    assert(logs@.skip(0) =~= logs@);
    while i < logs.len()
        invariant
            0 <= i <= logs@.len(),
            engine_log(logs@, engine_id) == engine_log(logs@.skip(i as int), engine_id),
            forall|j: int| 0 <= j < i ==> !is_engine_log(#[trigger] logs@[j], engine_id),
        decreases logs@.len() - i,
    {
        assert(logs@.skip(i as int).drop_first() =~= logs@.skip(i + 1));
        assert(logs@.skip(i as int)[0] == logs@[i as int]);
        if let DigestItem::Consensus(id, data) = &logs[i] {
            if same_engine(id, &engine_id) {
                proof {
                    assert(is_engine_log(logs@[i as int], engine_id));
                }
                return match decode_u64(data.as_slice()) {
                    Ok(v) => Ok(v),
                    Err(e) => Err(Error::DecodeWeaveSizeFailed(e)),
                };
            }
        }
        i = i + 1;
    }
    assert(logs@.skip(i as int).len() == 0);
    Err(Error::EmptyWeaveSize)
}

} // verus!
