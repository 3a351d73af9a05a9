use keystone_xdtl::canon::push_json_str;
use keystone_xdtl::json::write_price;
use keystone_xdtl::{AssetId, Bps, Digest, Epoch, Price};
use serde::ser::{Serialize, SerializeStruct, Serializer};

/// A price as serde writes a struct with these fields, in this order.
struct PriceRecord(Price);

impl Serialize for PriceRecord {
    fn serialize<S: Serializer>(&self, serializer: S) -> Result<S::Ok, S::Error> {
        let price = &self.0;
        let mut state = serializer.serialize_struct("Price", 5)?;
        state.serialize_field("asset", &price.asset.to_hex())?;
        state.serialize_field("quote_asset", &price.quote_asset.to_hex())?;
        state.serialize_field("price_e9", &price.price_e9)?;
        state.serialize_field("confidence_bps", &price.confidence_bps.0)?;
        state.serialize_field("published_epoch", &price.published_epoch.0)?;
        state.end()
    }
}

#[test]
fn json_strings_are_escaped_as_serde_json_escapes_them() {
    let texts = [
        "plain",
        "",
        "quote \" and back\\slash",
        "line\nbreak\ttab\rreturn",
        "\u{0}\u{1}\u{8}\u{c}\u{1f}\u{7f}",
        "caf\u{e9} \u{20ac} \u{1f600}",
        "</script>",
    ];
    for text in texts {
        let mut ours = Vec::new();
        push_json_str(&mut ours, text);
        assert_eq!(ours, serde_json::to_vec(text).unwrap(), "text {:?}", text);
    }
}

#[test]
fn price_json_and_digest_match_serde_json() {
    let price = Price::new(
        AssetId::named("btc"),
        AssetId::native(),
        u128::from(u64::MAX) * 1_000,
        Bps(25),
        Epoch(7),
    )
    .unwrap();
    let expected = serde_json::to_vec(&PriceRecord(price)).unwrap();
    let mut ours = Vec::new();
    write_price(&mut ours, &price);
    assert_eq!(ours, expected);
    assert_eq!(
        price.digest().unwrap(),
        Digest::from_parts("keystonexdtl-price-v1", &[&expected])
    );
}
