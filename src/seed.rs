//! Seeded randomness: the same seed gives the same sequence of choices.
use vstd::prelude::*;
use vstd::string::StringExecFns;
use rand::seq::SliceRandom;
use rand::{Rng, SeedableRng};
use rand_chacha::ChaCha8Rng;
use crate::text::{digit, push_decimal};

verus! {

#[verifier::external_type_specification]
#[verifier::external_body]
pub struct ExChaCha8Rng(ChaCha8Rng);

/// Relies on `SeedableRng::seed_from_u64`: a generator started from a seed.
#[verifier::external_body]
fn rng_from_seed(seed: u64) -> ChaCha8Rng {
    ChaCha8Rng::seed_from_u64(seed)
}

/// Relies on `SeedableRng::from_rng` with `OsRng`: a generator seeded from
/// the operating system's entropy; `None` when that source fails.
#[verifier::external_body]
fn rng_from_entropy() -> Option<ChaCha8Rng> {
    ChaCha8Rng::from_rng(rand::rngs::OsRng).ok()
}

/// Relies on `Rng::gen_range` over `lo..=hi`: a value in the range, which
/// must not be empty.
#[verifier::external_body]
fn value_between(rng: &mut ChaCha8Rng, lo: i64, hi: i64) -> (r: i64)
    requires
        lo <= hi,
    ensures
        lo <= r <= hi,
{
    rng.gen_range(lo..=hi)
}

/// Relies on `Rng::gen_range` over `0..n` for indices: a value below `n`,
/// which must not be 0.
#[verifier::external_body]
fn index_below(rng: &mut ChaCha8Rng, n: usize) -> (r: usize)
    requires
        n > 0,
    ensures
        r < n,
{
    rng.gen_range(0..n)
}

/// Relies on `SliceRandom::shuffle`: the same items in some order.
#[verifier::external_body]
fn shuffle_items<T>(rng: &mut ChaCha8Rng, items: &mut Vec<T>)
    ensures
        final(items)@.to_multiset() == old(items)@.to_multiset(),
{
    items.shuffle(rng);
}

/// A case number written with three digits.
pub open spec fn three_digits(n: int) -> Seq<char> {
    seq![digit((n / 100) as nat), digit(((n / 10) % 10) as nat), digit((n % 10) as nat)]
}

/// A source of reproducible randomness.
pub struct Chaos {
    rng: ChaCha8Rng,
    seed: Option<u64>,
}

impl Chaos {
    /// The seed the generator started from; `None` when it came from entropy.
    pub closed spec fn spec_seed(&self) -> Option<u64> {
        self.seed
    }

    /// A generator started from the seed: the same seed gives the same choices.
    pub fn seeded(seed: u64) -> (r: Chaos)
        ensures
            r.spec_seed() == Some(seed),
    {
        Chaos { rng: rng_from_seed(seed), seed: Some(seed) }
    }

    /// A generator started from entropy: each run differs. `None` when the
    /// operating system gives no entropy.
    pub fn unseeded() -> (r: Option<Chaos>)
        ensures
            r matches Some(c) ==> c.spec_seed() is None,
    {
        match rng_from_entropy() {
            Some(rng) => Some(Chaos { rng, seed: None }),
            None => None,
        }
    }

    /// Seeded where a seed is given, else from entropy; only the entropy
    /// case can fail.
    pub fn from_optional_seed(seed: Option<u64>) -> (r: Option<Chaos>)
        ensures
            seed is Some ==> r is Some,
            r matches Some(c) ==> c.spec_seed() == seed,
    {
        match seed {
            Some(s) => Some(Chaos::seeded(s)),
            None => Chaos::unseeded(),
        }
    }

    /// The seed, if one was set.
    pub fn seed(&self) -> (r: Option<u64>)
        ensures
            r == self.spec_seed(),
    {
        self.seed
    }

    /// Whether the generator is seeded.
    pub fn is_deterministic(&self) -> (r: bool)
        ensures
            r == self.spec_seed() is Some,
    {
        self.seed.is_some()
    }

    /// One of the items; `None` for none.
    pub fn pick<'a, T>(&mut self, items: &'a [T]) -> (r: Option<&'a T>)
        ensures
            final(self).spec_seed() == old(self).spec_seed(),
            r is None <==> items@.len() == 0,
            r matches Some(x) ==> exists|i: int| 0 <= i < items@.len() && items@[i] == *x,
    {
        if items.len() == 0 {
            None
        } else {
            let index = index_below(&mut self.rng, items.len());
            Some(&items[index])
        }
    }

    /// One of the items, which must not be empty.
    pub fn pick_unwrap<'a, T>(&mut self, items: &'a [T]) -> (r: &'a T)
        requires
            items@.len() > 0,
        ensures
            final(self).spec_seed() == old(self).spec_seed(),
            exists|i: int| 0 <= i < items@.len() && items@[i] == *r,
    {
        let index = index_below(&mut self.rng, items.len());
        &items[index]
    }

    /// A value from `min` to `max`, both included.
    pub fn range(&mut self, min: i64, max: i64) -> (r: i64)
        requires
            min <= max,
        ensures
            min <= r <= max,
            final(self).spec_seed() == old(self).spec_seed(),
    {
        value_between(&mut self.rng, min, max)
    }

    /// Puts the items in a random order.
    pub fn shuffle<T>(&mut self, items: &mut Vec<T>)
        ensures
            final(items)@.to_multiset() == old(items)@.to_multiset(),
            final(self).spec_seed() == old(self).spec_seed(),
    {
        shuffle_items(&mut self.rng, items);
    }

    /// A case identifier `AB-<date>-NNN`, NNN a random number from 001 to 999.
    pub fn case_id(&mut self, date: &str) -> (r: String)
        ensures
            exists|n: int| 1 <= n <= 999 && r@ == "AB-"@ + date@ + "-"@ + three_digits(n),
            final(self).spec_seed() == old(self).spec_seed(),
    {
        let num = value_between(&mut self.rng, 1, 999) as u64;
        format_case_id(date, num)
    }
}

/// The case identifier `AB-<date>-NNN` for the number `num`, in three digits.
pub fn format_case_id(date: &str, num: u64) -> (r: String)
    requires
        num <= 999,
    ensures
        r@ == "AB-"@ + date@ + "-"@ + three_digits(num as int),
{
    let mut id = String::from_str("AB-");
    id.append(date);
    id.append("-");
    push_decimal(&mut id, num / 100);
    push_decimal(&mut id, (num / 10) % 10);
    push_decimal(&mut id, num % 10);
    proof {
        assert(crate::text::decimal((num / 100) as nat) =~= seq![digit((num / 100) as nat)]);
        assert(crate::text::decimal(((num / 10) % 10) as nat) =~= seq![
            digit(((num / 10) % 10) as nat),
        ]);
        assert(crate::text::decimal((num % 10) as nat) =~= seq![digit((num % 10) as nat)]);
        assert(id@ =~= "AB-"@ + date@ + "-"@ + three_digits(num as int));
    }
    id
}

} // verus!
