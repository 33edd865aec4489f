use std::marker::PhantomData;
use vstd::prelude::*;

verus! {

/// The smallest of `x` and `u64::MAX`: what saturating arithmetic on
/// nonnegative terms gives.
pub open spec fn saturate(x: int) -> u64 {
    if x > u64::MAX {
        u64::MAX
    } else {
        x as u64
    }
}

/// The weight of one database read and of one database write.
#[derive(Clone, Copy)]
pub struct RuntimeDbWeight {
    /// Weight of one read.
    pub read: u64,
    /// Weight of one write.
    pub write: u64,
}

fn saturating_mul(x: u64, y: u64) -> (r: u64)
    ensures
        r == saturate(x * y),
{
    match x.checked_mul(y) {
        Some(v) => v,
        None => u64::MAX,
    }
}

impl RuntimeDbWeight {
    /// Weight of `r` reads.
    pub fn reads(self, r: u64) -> (w: u64)
        ensures
            w == saturate(self.read * r),
    {
        saturating_mul(self.read, r)
    }

    /// Weight of `w` writes.
    pub fn writes(self, w: u64) -> (r: u64)
        ensures
            r == saturate(self.write * w),
    {
        saturating_mul(self.write, w)
    }
}

/// The database weights of RocksDB.
pub fn rocks_db_weight() -> (w: RuntimeDbWeight)
    ensures
        w.read == 25_000_000,
        w.write == 100_000_000,
{
    RuntimeDbWeight { read: 25_000_000, write: 100_000_000 }
}

/// Weight of `deposit`: 4 reads and 2 writes on top of its base weight.
pub fn deposit_weight(db: RuntimeDbWeight) -> (w: u64)
    ensures
        w == saturate(563_445_000 + 4 * db.read + 2 * db.write),
{
    563_445_000u64.saturating_add(db.reads(4)).saturating_add(db.writes(2))
}

/// Weight of `set_config`: 1 write on top of its base weight.
pub fn set_config_weight(db: RuntimeDbWeight) -> (w: u64)
    ensures
        w == saturate(16_173_000 + db.write),
{
    16_173_000u64.saturating_add(db.writes(1))
}

/// Where a runtime's database weights come from.
pub trait DbWeightConfig {
    /// The runtime's database weights.
    const DB_WEIGHT: RuntimeDbWeight;
}

/// Weight functions needed for the PoA pallet.
pub trait WeightInfo {
    /// Weight of `deposit`.
    fn deposit() -> u64;

    /// Weight of `set_config`.
    fn set_config() -> u64;
}

/// Weights for the PoA pallet on the runtime `T`.
pub struct SubstrateWeight<T>(pub PhantomData<T>);

impl<T: DbWeightConfig> WeightInfo for SubstrateWeight<T> {
    fn deposit() -> (w: u64)
        ensures
            w == saturate(
                563_445_000 + 4 * T::DB_WEIGHT.read + 2 * T::DB_WEIGHT.write,
            ),
    {
        deposit_weight(T::DB_WEIGHT)
    }

    fn set_config() -> (w: u64)
        ensures
            w == saturate(16_173_000 + T::DB_WEIGHT.write),
    {
        set_config_weight(T::DB_WEIGHT)
    }
}

impl WeightInfo for () {
    fn deposit() -> (w: u64)
        ensures
            w == 563_445_000 + 4 * 25_000_000 + 2 * 100_000_000,
    {
        deposit_weight(rocks_db_weight())
    }

    fn set_config() -> (w: u64)
        ensures
            w == 16_173_000 + 100_000_000,
    {
        set_config_weight(rocks_db_weight())
    }
}

} // verus!
