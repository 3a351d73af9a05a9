use vstd::prelude::*;
use vstd::seq_lib::lemma_concat_associative;

use crate::amount::{amount_diff, amount_of, bps_ceil, div_up, Amount, Bps};
use crate::canon::{dec, json_array, json_join, lemma_join_next, push_dec, push_lit};
use crate::error::{KeystoneError, KeystoneResult};
use crate::ids::{parts_digest, state_digest_from_json, AssetId, AssetPair, Digest};
use crate::json::{json_price, write_price};
use crate::keys::{lemma_key_index, lemma_key_index_of, SortedMap};
use crate::time::{epoch_diff, Epoch};

verus! {

pub const PRICE_DOMAIN: &'static str = "keystonexdtl-price-v1";

pub const ORACLE_BOOK_DOMAIN: &'static str = "keystonexdtl-oracle-book-v1";

/// The price of an asset in a quote asset, with nine decimals.
#[derive(Clone, Copy, Debug, PartialEq, Eq)]
pub struct Price {
    pub asset: AssetId,
    pub quote_asset: AssetId,
    pub price_e9: u128,
    pub confidence_bps: Bps,
    pub published_epoch: Epoch,
}

/// The price of one unit of an asset in itself.
pub open spec fn unit_price(asset: AssetId, epoch: Epoch) -> Price {
    Price { asset, quote_asset: asset, price_e9: 1_000_000_000, confidence_bps: Bps(20), published_epoch: epoch }
}

/// `amount` converted at the price, rounded down.
pub open spec fn convert_floor_of(p: Price, amount: Amount) -> KeystoneResult<Amount> {
    amount_of(amount.0 * p.price_e9 / 1_000_000_000)
}

/// `amount` converted at the price, less a haircut of its confidence interval.
pub open spec fn conservative_of(p: Price, amount: Amount) -> KeystoneResult<Amount> {
    match convert_floor_of(p, amount) {
        Err(e) => Err(e),
        Ok(c) => match amount_of(bps_ceil(p.confidence_bps.0 as int, c.0 as int)) {
            Err(e) => Err(e),
            Ok(h) => amount_diff(c.0 as int, h.0 as int),
        },
    }
}

/// A price that is not older than the maximum age at `now`.
pub open spec fn fresh_of(p: Price, now: Epoch, max_age: u64) -> KeystoneResult<Price> {
    match epoch_diff(now.0 as int, p.published_epoch.0 as int) {
        Err(e) => Err(e),
        Ok(age) => if age > max_age {
            Err(KeystoneError::StalePrice)
        } else {
            Ok(p)
        },
    }
}

impl Price {
    pub fn new(asset: AssetId, quote_asset: AssetId, price_e9: u128, confidence_bps: Bps, published_epoch: Epoch) -> (r:
        KeystoneResult<Self>)
        ensures
            price_e9 == 0 ==> r == Err::<Price, KeystoneError>(KeystoneError::PriceNotAvailable),
            price_e9 != 0 ==> r == Ok::<Price, KeystoneError>(
                Price { asset, quote_asset, price_e9, confidence_bps, published_epoch },
            ),
    {
        if price_e9 == 0 {
            return Err(KeystoneError::PriceNotAvailable);
        }
        Ok(Self { asset, quote_asset, price_e9, confidence_bps, published_epoch })
    }

    pub fn one(asset: AssetId, epoch: Epoch) -> (r: KeystoneResult<Self>)
        ensures
            r == Ok::<Price, KeystoneError>(unit_price(asset, epoch)),
    {
        Self::new(asset, asset, 1_000_000_000, Bps::strict(20)?, epoch)
    }

    pub fn convert_floor(self, amount: Amount) -> (r: KeystoneResult<Amount>)
        requires
            amount.0 * self.price_e9 <= u128::MAX,
        ensures
            r == convert_floor_of(self, amount),
    {
        proof {
            assert(amount.0 * self.price_e9 >= 0) by (nonlinear_arith);
        }
        Amount::from_u128((amount.0 as u128) * self.price_e9 / 1_000_000_000)
    }

    pub fn convert_ceil(self, amount: Amount) -> (r: KeystoneResult<Amount>)
        ensures
            amount.0 * self.price_e9 > u128::MAX ==> r == Err::<Amount, KeystoneError>(KeystoneError::AmountOverflow),
            amount.0 * self.price_e9 <= u128::MAX ==> r == amount_of(div_up(amount.0 * self.price_e9, 1_000_000_000)),
    {
        let product = match (amount.0 as u128).checked_mul(self.price_e9) {
            Some(p) => p,
            None => {
                return Err(KeystoneError::AmountOverflow);
            },
        };
        Amount::from_u128(crate::amount::u128_div_up(product, 1_000_000_000))
    }

    pub fn checked_fresh(self, now: Epoch, max_age_epochs: u64) -> (r: KeystoneResult<Self>)
        ensures
            r == fresh_of(self, now, max_age_epochs),
    {
        let age = now.elapsed_since(self.published_epoch)?;
        if age > max_age_epochs {
            return Err(KeystoneError::StalePrice);
        }
        Ok(self)
    }

    pub fn conservative_value(self, amount: Amount) -> (r: KeystoneResult<Amount>)
        requires
            amount.0 * self.price_e9 <= u128::MAX,
        ensures
            r == conservative_of(self, amount),
    {
        let converted = self.convert_floor(amount)?;
        let haircut = self.confidence_bps.apply_ceil(converted)?;
        converted.checked_sub(haircut)
    }

    pub fn digest(self) -> (r: KeystoneResult<Digest>)
        ensures
            r == Ok::<Digest, KeystoneError>(parts_digest(PRICE_DOMAIN, seq![json_price(self)])),
    {
        let mut bytes: Vec<u8> = Vec::new();
        write_price(&mut bytes, &self);
        state_digest_from_json(PRICE_DOMAIN, bytes.as_slice())
    }
}

/// Prices by asset pair, with the age after which a price is stale.
#[derive(Debug)]
pub struct OracleBook {
    prices: SortedMap<AssetPair, Price>,
    max_age_epochs: u64,
}

/// The canonical JSON text of an oracle book: its maximum age, then its prices in pair order.
pub open spec fn json_oracle(max_age: u64, prices: Seq<Price>) -> Seq<u8> {
    seq![91u8] + dec(max_age as nat) + seq![44u8] + json_array(prices.map_values(|p: Price| json_price(p)))
        + seq![93u8]
}

impl OracleBook {
    pub closed spec fn spec_prices(&self) -> SortedMap<AssetPair, Price> {
        self.prices
    }

    pub closed spec fn spec_max_age(&self) -> u64 {
        self.max_age_epochs
    }

    /// The book is well formed: pairs in order, each price filed under its own pair.
    pub open spec fn wf(&self) -> bool {
        &&& self.spec_prices().wf()
        &&& forall|i: int|
            0 <= i < self.spec_prices().keys@.len() ==> #[trigger] self.spec_prices().keys@[i] == AssetPair(
                self.spec_prices().vals@[i].asset,
                self.spec_prices().vals@[i].quote_asset,
            )
    }

    /// The price filed for a pair, if any.
    pub open spec fn price_for(&self, asset: AssetId, quote: AssetId) -> Option<Price> {
        if self.spec_prices().has(AssetPair(asset, quote)) {
            Some(self.spec_prices().at(AssetPair(asset, quote)))
        } else {
            None
        }
    }

    pub fn new(max_age_epochs: u64) -> (r: Self)
        ensures
            r.wf(),
            r.spec_prices().keys@.len() == 0,
            r.spec_max_age() == max_age_epochs,
    {
        OracleBook { prices: SortedMap::new(), max_age_epochs }
    }

    pub fn insert(&mut self, price: Price)
        requires
            old(self).wf(),
        ensures
            final(self).wf(),
            final(self).spec_max_age() == old(self).spec_max_age(),
            final(self).price_for(price.asset, price.quote_asset) == Some(price),
            forall|a: AssetId, q: AssetId|
                !(a == price.asset && q == price.quote_asset) ==> #[trigger] final(self).price_for(a, q) == old(
                    self,
                ).price_for(a, q),
    {
        let key = AssetPair(price.asset, price.quote_asset);
        let ghost m = self.prices;
        match self.prices.find(&key) {
            Some(i) => {
                self.prices.vals.set(i, price);
                proof {
                    assert forall|a: AssetId, q: AssetId| true implies #[trigger] self.price_for(a, q) == (if a
                        == price.asset && q == price.quote_asset {
                        Some(price)
                    } else {
                        (OracleBook { prices: m, max_age_epochs: self.max_age_epochs }).price_for(a, q)
                    }) by {
                        SortedMap::<AssetPair, Price>::lemma_at_update(m, self.prices, i as int, price, AssetPair(a, q));
                        lemma_key_index(m.keys@, i as int);
                    }
                    assert forall|j: int| 0 <= j < self.prices.keys@.len() implies #[trigger] self.prices.keys@[j]
                        == AssetPair(self.prices.vals@[j].asset, self.prices.vals@[j].quote_asset) by {
                        if j != i {
                            assert(m.keys@[j] == AssetPair(m.vals@[j].asset, m.vals@[j].quote_asset));
                        }
                    }
                }
            },
            None => {
                let p = self.prices.insert_new(key, price);
                proof {
                    assert forall|a: AssetId, q: AssetId| true implies #[trigger] self.price_for(a, q) == (if a
                        == price.asset && q == price.quote_asset {
                        Some(price)
                    } else {
                        (OracleBook { prices: m, max_age_epochs: self.max_age_epochs }).price_for(a, q)
                    }) by {
                        SortedMap::<AssetPair, Price>::lemma_at_insert(m, self.prices, p as int, key, price, AssetPair(a, q));
                    }
                    assert forall|j: int| 0 <= j < self.prices.keys@.len() implies #[trigger] self.prices.keys@[j]
                        == AssetPair(self.prices.vals@[j].asset, self.prices.vals@[j].quote_asset) by {
                        if j < p {
                            assert(m.keys@[j] == AssetPair(m.vals@[j].asset, m.vals@[j].quote_asset));
                        } else if j > p {
                            assert(m.keys@[j - 1] == AssetPair(m.vals@[j - 1].asset, m.vals@[j - 1].quote_asset));
                        }
                    }
                }
            },
        }
    }

    pub fn set_unit_price(&mut self, asset: AssetId, epoch: Epoch) -> (r: KeystoneResult<()>)
        requires
            old(self).wf(),
        ensures
            r is Ok,
            final(self).wf(),
            final(self).spec_max_age() == old(self).spec_max_age(),
            final(self).price_for(asset, asset) == Some(unit_price(asset, epoch)),
            forall|a: AssetId, q: AssetId|
                !(a == asset && q == asset) ==> #[trigger] final(self).price_for(a, q) == old(self).price_for(a, q),
    {
        let price = Price::one(asset, epoch)?;
        self.insert(price);
        Ok(())
    }

    pub fn get(&self, asset: AssetId, quote: AssetId, now: Epoch) -> (r: KeystoneResult<Price>)
        requires
            self.wf(),
        ensures
            asset == quote ==> r == Ok::<Price, KeystoneError>(unit_price(asset, now)),
            asset != quote ==> r == (match self.price_for(asset, quote) {
                None => Err(KeystoneError::PriceNotAvailable),
                Some(p) => fresh_of(p, now, self.spec_max_age()),
            }),
    {
        if asset == quote {
            return Price::one(asset, now);
        }
        let key = AssetPair(asset, quote);
        match self.prices.find(&key) {
            Some(i) => {
                proof {
                    lemma_key_index(self.prices.keys@, i as int);
                }
                self.prices.vals[i].checked_fresh(now, self.max_age_epochs)
            },
            None => Err(KeystoneError::PriceNotAvailable),
        }
    }

    pub fn convert_floor(&self, asset: AssetId, quote: AssetId, amount: Amount, now: Epoch) -> (r: KeystoneResult<Amount>)
        requires
            self.wf(),
            match self.price_for(asset, quote) {
                Some(p) => amount.0 * p.price_e9 <= u128::MAX,
                None => true,
            },
        ensures
            r == (match (if asset == quote {
                Ok::<Price, KeystoneError>(unit_price(asset, now))
            } else {
                match self.price_for(asset, quote) {
                    None => Err(KeystoneError::PriceNotAvailable),
                    Some(p) => fresh_of(p, now, self.spec_max_age()),
                }
            }) {
                Err(e) => Err(e),
                Ok(p) => convert_floor_of(p, amount),
            }),
    {
        let price = self.get(asset, quote, now)?;
        proof {
            if asset == quote {
                assert(amount.0 * 1_000_000_000 <= u64::MAX * 1_000_000_000) by (nonlinear_arith)
                    requires
                        amount.0 <= u64::MAX,
                ;
            }
        }
        price.convert_floor(amount)
    }

    pub fn conservative_value(&self, asset: AssetId, quote: AssetId, amount: Amount, now: Epoch) -> (r: KeystoneResult<
        Amount,
    >)
        requires
            self.wf(),
            match self.price_for(asset, quote) {
                Some(p) => amount.0 * p.price_e9 <= u128::MAX,
                None => true,
            },
        ensures
            r == (match (if asset == quote {
                Ok::<Price, KeystoneError>(unit_price(asset, now))
            } else {
                match self.price_for(asset, quote) {
                    None => Err(KeystoneError::PriceNotAvailable),
                    Some(p) => fresh_of(p, now, self.spec_max_age()),
                }
            }) {
                Err(e) => Err(e),
                Ok(p) => conservative_of(p, amount),
            }),
    {
        let price = self.get(asset, quote, now)?;
        proof {
            if asset == quote {
                assert(amount.0 * 1_000_000_000 <= u64::MAX * 1_000_000_000) by (nonlinear_arith)
                    requires
                        amount.0 <= u64::MAX,
                ;
            }
        }
        price.conservative_value(amount)
    }

    pub fn digest(&self) -> (r: KeystoneResult<Digest>)
        ensures
            r == Ok::<Digest, KeystoneError>(
                parts_digest(ORACLE_BOOK_DOMAIN, seq![json_oracle(self.spec_max_age(), self.spec_prices().vals@)]),
            ),
    {
        let mut bytes: Vec<u8> = Vec::new();
        let ghost items = self.prices.vals@.map_values(|p: Price| json_price(p));
        bytes.push(91);
        push_dec(&mut bytes, self.max_age_epochs as u128);
        bytes.push(44);
        bytes.push(91);
        let ghost head = bytes@;
        let mut i: usize = 0;
        while i < self.prices.vals.len()
            invariant
                0 <= i <= self.prices.vals@.len(),
                items == self.prices.vals@.map_values(|p: Price| json_price(p)),
                bytes@ == head + json_join(items.take(i as int)),
            decreases self.prices.vals@.len() - i,
        {
            proof {
                lemma_join_next(items, i as int);
            }
            if i > 0 {
                bytes.push(44);
            }
            let ghost before = bytes@;
            write_price(&mut bytes, &self.prices.vals[i]);
            proof {
                if i > 0 {
                    assert(bytes@ =~= head + json_join(items.take(i as int + 1)));
                } else {
                    assert(bytes@ =~= head + json_join(items.take(i as int + 1)));
                }
            }
            i = i + 1;
        }
        bytes.push(93);
        bytes.push(93);
        assert(items.take(items.len() as int) =~= items);
        assert(bytes@ =~= json_oracle(self.max_age_epochs, self.prices.vals@));
        state_digest_from_json(ORACLE_BOOK_DOMAIN, bytes.as_slice())
    }

    pub fn len(&self) -> (r: usize)
        requires
            self.wf(),
        ensures
            r == self.spec_prices().keys@.len(),
    {
        self.prices.len()
    }

    pub fn is_empty(&self) -> (r: bool)
        requires
            self.wf(),
        ensures
            r == (self.spec_prices().keys@.len() == 0),
    {
        self.prices.len() == 0
    }
}

impl Default for OracleBook {
    fn default() -> (r: Self)
        ensures
            r.wf(),
            r.spec_prices().keys@.len() == 0,
            r.spec_max_age() == 24,
    {
        Self::new(24)
    }
}

} // verus!
