use vstd::prelude::*;

use vstd::string::{StringExecFns, StringSliceAdditionalSpecFns};

use crate::error::{KeystoneError, KeystoneResult};
use crate::keys::{compare_bytes, lex_lt, lex_order, KeyOrder, OrderedKey};

verus! {

/// The name of the BLAKE3 hash of a byte string: its 32 output bytes.
pub uninterp spec fn blake3_hash_of(input: Seq<u8>) -> Seq<u8>;

/// Calls `blake3::hash`, the one-shot BLAKE3 hash. The contract claims that the output is
/// 32 bytes and depends on the input bytes alone; which 32 bytes is left to the name.
#[verifier::external_body]
fn blake3_hash(input: &[u8]) -> (out: [u8; 32])
    ensures
        out@ == blake3_hash_of(input@),
{
    *blake3::hash(input).as_bytes()
}

/// The lowercase hexadecimal digit for a value below sixteen.
pub open spec fn hex_digit(n: int) -> char {
    if n < 10 {
        ((n + 48) as u8) as char
    } else {
        ((n + 87) as u8) as char
    }
}

/// Lowercase hexadecimal text of `bytes`, two digits per byte, high digit first.
pub open spec fn hex_text(bytes: Seq<u8>) -> Seq<char>
    decreases bytes.len(),
{
    if bytes.len() == 0 {
        Seq::empty()
    } else {
        hex_text(bytes.drop_last()) + seq![hex_digit(bytes.last() as int / 16), hex_digit(bytes.last() as int % 16)]
    }
}

/// Calls `hex::encode`. The contract claims what its source does: two lowercase digits per byte,
/// high digit first.
#[verifier::external_body]
fn hex_encode(bytes: &[u8]) -> (text: String)
    ensures
        text@ == hex_text(bytes@),
{
    hex::encode(bytes)
}

/// The value of one hexadecimal digit, upper or lower case.
pub open spec fn hex_value(c: u8) -> Option<u8> {
    if 48 <= c <= 57 {
        Some((c - 48) as u8)
    } else if 97 <= c <= 102 {
        Some((c - 87) as u8)
    } else if 65 <= c <= 70 {
        Some((c - 55) as u8)
    } else {
        None
    }
}

/// Whether `text` is an even number of hexadecimal digits.
pub open spec fn is_hex_text(text: Seq<u8>) -> bool {
    &&& text.len() % 2 == 0
    &&& forall|i: int| 0 <= i < text.len() ==> (#[trigger] hex_value(text[i])) is Some
}

/// The bytes that hexadecimal text stands for.
pub open spec fn hex_bytes(text: Seq<u8>) -> Seq<u8> {
    Seq::new(
        text.len() / 2,
        |i: int| (hex_value(text[2 * i])->0 * 16 + hex_value(text[2 * i + 1])->0) as u8,
    )
}

/// The name of the message that `hex::decode` gives for text it refuses.
pub uninterp spec fn hex_error_text(text: Seq<char>) -> Seq<char>;

/// Calls `hex::decode` on the bytes of `text`. The contract claims what its source does: it
/// refuses text of odd length or with a character that is not a hexadecimal digit, and otherwise
/// returns one byte per pair of digits, high digit first. The message of a refusal, the crate's
/// own text for its error, is only named.
#[verifier::external_body]
fn hex_decode(text: &str) -> (r: Result<Vec<u8>, String>)
    ensures
        r is Ok <==> is_hex_text(text.spec_bytes()),
        r matches Ok(v) ==> v@ == hex_bytes(text.spec_bytes()),
        r matches Err(m) ==> m@ == hex_error_text(text@),
{
    hex::decode(text).map_err(|error| error.to_string())
}

/// The eight big-endian bytes of `v`.
pub open spec fn u64_be(v: int) -> Seq<u8> {
    seq![
        ((v / 0x100_0000_0000_0000) % 256) as u8,
        ((v / 0x1_0000_0000_0000) % 256) as u8,
        ((v / 0x100_0000_0000) % 256) as u8,
        ((v / 0x1_0000_0000) % 256) as u8,
        ((v / 0x100_0000) % 256) as u8,
        ((v / 0x1_0000) % 256) as u8,
        ((v / 0x100) % 256) as u8,
        (v % 256) as u8,
    ]
}

/// The four big-endian bytes of `v`.
pub open spec fn u32_be(v: int) -> Seq<u8> {
    seq![
        ((v / 0x100_0000) % 256) as u8,
        ((v / 0x1_0000) % 256) as u8,
        ((v / 0x100) % 256) as u8,
        (v % 256) as u8,
    ]
}

/// Appends the eight big-endian bytes of `v`.
pub fn push_u64_be(out: &mut Vec<u8>, v: u64)
    ensures
        final(out)@ == old(out)@ + u64_be(v as int),
{
    out.push((v / 0x100_0000_0000_0000 % 256) as u8);
    out.push((v / 0x1_0000_0000_0000 % 256) as u8);
    out.push((v / 0x100_0000_0000 % 256) as u8);
    out.push((v / 0x1_0000_0000 % 256) as u8);
    out.push((v / 0x100_0000 % 256) as u8);
    out.push((v / 0x1_0000 % 256) as u8);
    out.push((v / 0x100 % 256) as u8);
    out.push((v % 256) as u8);
    assert(final(out)@ =~= old(out)@ + u64_be(v as int));
}

/// The eight big-endian bytes of `v`, as a vector.
pub fn u64_be_vec(v: u64) -> (r: Vec<u8>)
    ensures
        r@ == u64_be(v as int),
{
    let mut out: Vec<u8> = Vec::new();
    push_u64_be(&mut out, v);
    assert(out@ =~= u64_be(v as int));
    out
}

/// The four big-endian bytes of `v`, as a vector.
pub fn u32_be_vec(v: u32) -> (r: Vec<u8>)
    ensures
        r@ == u32_be(v as int),
{
    let mut out: Vec<u8> = Vec::new();
    out.push((v / 0x100_0000 % 256) as u8);
    out.push((v / 0x1_0000 % 256) as u8);
    out.push((v / 0x100 % 256) as u8);
    out.push((v % 256) as u8);
    assert(out@ =~= u32_be(v as int));
    out
}

/// Appends all of `bytes`.
pub fn push_bytes(out: &mut Vec<u8>, bytes: &[u8])
    ensures
        final(out)@ == old(out)@ + bytes@,
{
    let ghost start = out@;
    let mut i: usize = 0;
    while i < bytes.len()
        invariant
            0 <= i <= bytes@.len(),
            out@ == start + bytes@.take(i as int),
        decreases bytes@.len() - i,
    {
        out.push(bytes[i]);
        i = i + 1;
        assert(out@ =~= start + bytes@.take(i as int));
    }
    assert(bytes@.take(bytes@.len() as int) =~= bytes@);
}

/// The length-prefixed concatenation of the parts.
pub open spec fn frame_parts(parts: Seq<Seq<u8>>) -> Seq<u8>
    decreases parts.len(),
{
    if parts.len() == 0 {
        Seq::empty()
    } else {
        frame_parts(parts.drop_last()) + u64_be(parts.last().len() as int) + parts.last()
    }
}

/// The message that is hashed for a domain and its parts: the domain's bytes, the number of
/// parts, then each part behind its length, all lengths as eight big-endian bytes.
pub open spec fn framed(domain: Seq<u8>, parts: Seq<Seq<u8>>) -> Seq<u8> {
    domain + u64_be(parts.len() as int) + frame_parts(parts)
}

/// The digest of a domain and its parts.
pub open spec fn digest_bytes(domain: Seq<u8>, parts: Seq<Seq<u8>>) -> Seq<u8> {
    blake3_hash_of(framed(domain, parts))
}

/// The byte strings that a slice of slices holds.
pub open spec fn parts_view(parts: Seq<&[u8]>) -> Seq<Seq<u8>> {
    Seq::new(parts.len(), |i: int| parts[i]@)
}

/// The digest that `Digest::from_parts(domain, parts)` gives.
pub open spec fn parts_digest(domain: &str, parts: Seq<Seq<u8>>) -> Digest {
    Digest(spec_digest_array(digest_bytes(domain.spec_bytes(), parts)))
}

/// The 32-byte array holding `bytes`, where it has 32 of them.
pub open spec fn spec_digest_array(bytes: Seq<u8>) -> [u8; 32] {
    choose|a: [u8; 32]| a@ == bytes
}

pub proof fn lemma_digest_array(a: [u8; 32])
    ensures
        spec_digest_array(a@) == a,
{
    let b = spec_digest_array(a@);
    assert(b@ == a@);
    assert(b =~= a);
}

/// The byte strings that a vector of vectors holds.
pub open spec fn vecs_view(parts: Seq<Vec<u8>>) -> Seq<Seq<u8>> {
    Seq::new(parts.len(), |i: int| parts[i]@)
}

/// Hashes the framed message of a domain and a list of parts.
fn hash_parts(domain: &str, parts: &Vec<Vec<u8>>) -> (r: Digest)
    ensures
        r == parts_digest(domain, vecs_view(parts@)),
{
    let mut message: Vec<u8> = Vec::new();
    push_bytes(&mut message, domain.as_bytes());
    push_u64_be(&mut message, parts.len() as u64);
    let ghost head = message@;
    let ghost views = vecs_view(parts@);
    let mut i: usize = 0;
    while i < parts.len()
        invariant
            0 <= i <= parts@.len(),
            views == vecs_view(parts@),
            message@ == head + frame_parts(views.take(i as int)),
        decreases parts@.len() - i,
    {
        let ghost before = message@;
        push_u64_be(&mut message, parts[i].len() as u64);
        push_bytes(&mut message, parts[i].as_slice());
        proof {
            assert(views.take(i as int + 1).drop_last() =~= views.take(i as int));
            assert(views.take(i as int + 1).last() == parts@[i as int]@);
            assert(message@ =~= head + frame_parts(views.take(i as int + 1)));
        }
        i = i + 1;
    }
    assert(views.take(parts@.len() as int) =~= views);
    assert(message@ == framed(domain.spec_bytes(), views));
    let out = blake3_hash(message.as_slice());
    proof {
        lemma_digest_array(out);
    }
    Digest(out)
}

/// Copies 32 bytes into an array.
fn digest_array(bytes: &[u8]) -> (r: [u8; 32])
    requires
        bytes@.len() == 32,
    ensures
        r@ == bytes@,
{
    let mut out = [0u8; 32];
    let mut i: usize = 0;
    while i < 32
        invariant
            bytes@.len() == 32,
            0 <= i <= 32,
            out@.len() == 32,
            forall|j: int| 0 <= j < i ==> out@[j] == bytes@[j],
        decreases 32 - i,
    {
        out[i] = bytes[i];
        i = i + 1;
    }
    assert(out@ =~= bytes@);
    out
}

/// Compares two byte arrays for equality.
fn bytes_equal(a: &[u8; 32], b: &[u8; 32]) -> (r: bool)
    ensures
        r == (*a == *b),
{
    let mut i: usize = 0;
    while i < 32
        invariant
            0 <= i <= 32,
            forall|j: int| 0 <= j < i ==> a@[j] == b@[j],
        decreases 32 - i,
    {
        if a[i] != b[i] {
            return false;
        }
        i = i + 1;
    }
    assert(*a =~= *b);
    true
}

pub const CLOCK_DOMAIN: &'static str = "keystonexdtl-clock-v1";

/// A 32-byte BLAKE3 digest.
#[derive(Clone, Copy, Debug, Eq, PartialOrd, Ord, Hash, Default)]
pub struct Digest(pub [u8; 32]);

impl PartialEq for Digest {
    fn eq(&self, other: &Self) -> (r: bool) {
        bytes_equal(&self.0, &other.0)
    }
}

impl vstd::std_specs::cmp::PartialEqSpecImpl for Digest {
    open spec fn obeys_eq_spec() -> bool {
        true
    }

    open spec fn eq_spec(&self, other: &Self) -> bool {
        self.0 == other.0
    }
}

impl OrderedKey for Digest {
    open spec fn key_seq(&self) -> Seq<u8> {
        self.0@
    }

    fn compare_key(&self, other: &Self) -> (r: KeyOrder) {
        compare_bytes(self.0.as_slice(), other.0.as_slice())
    }

    proof fn lemma_key_injective(a: Self, b: Self) {
        assert(a.0 =~= b.0);
    }

    proof fn lemma_key_len(a: Self, b: Self) {
    }
}

/// Parsing a digest reads its hexadecimal text.
impl core::str::FromStr for Digest {
    type Err = KeystoneError;

    fn from_str(value: &str) -> Result<Digest, KeystoneError> {
        Digest::from_hex(value)
    }
}

impl Digest {
    pub fn zero() -> (r: Digest)
        ensures
            forall|i: int| 0 <= i < 32 ==> r.0@[i] == 0,
    {
        Digest([0u8; 32])
    }

    pub fn from_parts(domain: &str, parts: &[&[u8]]) -> (r: Digest)
        ensures
            r == parts_digest(domain, parts_view(parts@)),
    {
        let mut owned: Vec<Vec<u8>> = Vec::new();
        let mut i: usize = 0;
        while i < parts.len()
            invariant
                0 <= i <= parts@.len(),
                owned@.len() == i,
                vecs_view(owned@) =~= parts_view(parts@).take(i as int),
            decreases parts@.len() - i,
        {
            let mut part: Vec<u8> = Vec::new();
            push_bytes(&mut part, parts[i]);
            assert(part@ =~= parts[i as int]@);
            let ghost prev = owned@;
            owned.push(part);
            proof {
                assert forall|j: int| 0 <= j < i + 1 implies #[trigger] vecs_view(owned@)[j] == parts_view(parts@).take(i + 1)[j] by {
                    if j < i {
                        assert(owned@[j] == prev[j]);
                        assert(vecs_view(prev)[j] == parts_view(parts@).take(i as int)[j]);
                    }
                }
            }
            i = i + 1;
            assert(vecs_view(owned@) =~= parts_view(parts@).take(i as int));
        }
        assert(parts_view(parts@).take(parts@.len() as int) =~= parts_view(parts@));
        hash_parts(domain, &owned)
    }

    pub fn bytes(self) -> (r: [u8; 32])
        ensures
            r == self.0,
    {
        self.0
    }

    pub fn to_hex(self) -> (r: String)
        ensures
            r@ == hex_text(self.0@),
    {
        hex_encode(self.0.as_slice())
    }

    pub fn from_hex(value: &str) -> (r: KeystoneResult<Digest>)
        ensures
            !is_hex_text(value.spec_bytes()) ==> (r matches Err(KeystoneError::Serialization(m)) && m@
                == hex_error_text(value@)),
            is_hex_text(value.spec_bytes()) && hex_bytes(value.spec_bytes()).len() != 32 ==> (r matches Err(
                KeystoneError::Serialization(m),
            ) && m@ == "digest must have 32 bytes"@),
            is_hex_text(value.spec_bytes()) && hex_bytes(value.spec_bytes()).len() == 32 ==> (r matches Ok(d)
                && d.0@ == hex_bytes(value.spec_bytes())),
    {
        let bytes = match hex_decode(value) {
            Ok(b) => b,
            Err(message) => {
                return Err(KeystoneError::Serialization(message));
            },
        };
        if bytes.len() != 32 {
            return Err(KeystoneError::Serialization(String::from_str("digest must have 32 bytes")));
        }
        Ok(Digest(digest_array(bytes.as_slice())))
    }

    pub fn chain(self, domain: &str, parts: &[&[u8]]) -> (r: Digest)
        ensures
            r == parts_digest(domain, seq![self.0@] + parts_view(parts@)),
    {
        let mut owned: Vec<Vec<u8>> = Vec::new();
        let mut first: Vec<u8> = Vec::new();
        push_bytes(&mut first, self.0.as_slice());
        owned.push(first);
        assert(vecs_view(owned@) =~= seq![self.0@] + parts_view(parts@).take(0));
        let mut i: usize = 0;
        while i < parts.len()
            invariant
                0 <= i <= parts@.len(),
                owned@.len() == i + 1,
                vecs_view(owned@) =~= seq![self.0@] + parts_view(parts@).take(i as int),
            decreases parts@.len() - i,
        {
            let mut part: Vec<u8> = Vec::new();
            push_bytes(&mut part, parts[i]);
            let ghost prev = owned@;
            owned.push(part);
            proof {
                let target = seq![self.0@] + parts_view(parts@).take(i + 1);
                let before = seq![self.0@] + parts_view(parts@).take(i as int);
                assert forall|j: int| 0 <= j < i + 2 implies #[trigger] vecs_view(owned@)[j] == target[j] by {
                    if j < i + 1 {
                        assert(owned@[j] == prev[j]);
                        assert(vecs_view(prev)[j] == before[j]);
                    }
                }
            }
            i = i + 1;
            assert(vecs_view(owned@) =~= seq![self.0@] + parts_view(parts@).take(i as int));
        }
        assert(parts_view(parts@).take(parts@.len() as int) =~= parts_view(parts@));
        hash_parts(domain, &owned)
    }

    pub fn mix_u64(self, domain: &str, value: u64) -> (r: Digest)
        ensures
            r == parts_digest(domain, seq![self.0@, u64_be(value as int)]),
    {
        let v = u64_be_vec(value);
        let vs = v.as_slice();
        let arr = [vs];
        assert(arr@ =~= seq![vs]);
        let r = self.chain(domain, arr.as_slice());
        assert(seq![self.0@] + parts_view(seq![vs]) =~= seq![self.0@, u64_be(value as int)]);
        r
    }

    pub fn mix_str(self, domain: &str, value: &str) -> (r: Digest)
        ensures
            r == parts_digest(domain, seq![self.0@, value.spec_bytes()]),
    {
        let vb = value.as_bytes();
        let arr = [vb];
        assert(arr@ =~= seq![vb]);
        let r = self.chain(domain, arr.as_slice());
        assert(seq![self.0@] + parts_view(seq![vb]) =~= seq![self.0@, value.spec_bytes()]);
        r
    }
}

pub const ACCOUNT_DOMAIN: &'static str = "keystonexdtl-account-v1";

/// The identity of an account that holds vault shares.
#[derive(Clone, Copy, Debug, Eq, PartialOrd, Ord, Hash, Default)]
pub struct AccountId(pub Digest);

impl PartialEq for AccountId {
    fn eq(&self, other: &Self) -> (r: bool) {
        bytes_equal(&self.0.0, &other.0.0)
    }
}

impl vstd::std_specs::cmp::PartialEqSpecImpl for AccountId {
    open spec fn obeys_eq_spec() -> bool {
        true
    }

    open spec fn eq_spec(&self, other: &Self) -> bool {
        self.0 == other.0
    }
}

impl OrderedKey for AccountId {
    open spec fn key_seq(&self) -> Seq<u8> {
        self.0.0@
    }

    fn compare_key(&self, other: &Self) -> (r: KeyOrder) {
        compare_bytes(self.0.0.as_slice(), other.0.0.as_slice())
    }

    proof fn lemma_key_injective(a: Self, b: Self) {
        assert(a.0.0 =~= b.0.0);
    }

    proof fn lemma_key_len(a: Self, b: Self) {
    }
}

impl AccountId {
    pub fn from_digest(digest: Digest) -> (r: Self)
        ensures
            r.0 == digest,
    {
        AccountId(digest)
    }

    pub fn from_parts(parts: &[&[u8]]) -> (r: Self)
        ensures
            r.0 == parts_digest(ACCOUNT_DOMAIN, parts_view(parts@)),
    {
        AccountId(Digest::from_parts(ACCOUNT_DOMAIN, parts))
    }

    pub fn to_hex(self) -> (r: String)
        ensures
            r@ == hex_text(self.0.0@),
    {
        self.0.to_hex()
    }

    pub fn bytes(self) -> (r: [u8; 32])
        ensures
            r == self.0.0,
    {
        self.0.0
    }

    pub fn digest(self) -> (r: Digest)
        ensures
            r == self.0,
    {
        self.0
    }
}

pub const ASSET_DOMAIN: &'static str = "keystonexdtl-asset-v1";

/// The identity of an asset.
#[derive(Clone, Copy, Debug, Eq, PartialOrd, Ord, Hash, Default)]
pub struct AssetId(pub Digest);

impl PartialEq for AssetId {
    fn eq(&self, other: &Self) -> (r: bool) {
        bytes_equal(&self.0.0, &other.0.0)
    }
}

impl vstd::std_specs::cmp::PartialEqSpecImpl for AssetId {
    open spec fn obeys_eq_spec() -> bool {
        true
    }

    open spec fn eq_spec(&self, other: &Self) -> bool {
        self.0 == other.0
    }
}

impl OrderedKey for AssetId {
    open spec fn key_seq(&self) -> Seq<u8> {
        self.0.0@
    }

    fn compare_key(&self, other: &Self) -> (r: KeyOrder) {
        compare_bytes(self.0.0.as_slice(), other.0.0.as_slice())
    }

    proof fn lemma_key_injective(a: Self, b: Self) {
        assert(a.0.0 =~= b.0.0);
    }

    proof fn lemma_key_len(a: Self, b: Self) {
    }
}

impl AssetId {
    pub fn from_digest(digest: Digest) -> (r: Self)
        ensures
            r.0 == digest,
    {
        AssetId(digest)
    }

    pub fn from_parts(parts: &[&[u8]]) -> (r: Self)
        ensures
            r.0 == parts_digest(ASSET_DOMAIN, parts_view(parts@)),
    {
        AssetId(Digest::from_parts(ASSET_DOMAIN, parts))
    }

    pub fn to_hex(self) -> (r: String)
        ensures
            r@ == hex_text(self.0.0@),
    {
        self.0.to_hex()
    }

    pub fn bytes(self) -> (r: [u8; 32])
        ensures
            r == self.0.0,
    {
        self.0.0
    }

    pub fn digest(self) -> (r: Digest)
        ensures
            r == self.0,
    {
        self.0
    }
}

pub const VAULT_DOMAIN: &'static str = "keystonexdtl-vault-v1";

/// The identity of a vault.
#[derive(Clone, Copy, Debug, Eq, PartialOrd, Ord, Hash, Default)]
pub struct VaultId(pub Digest);

impl PartialEq for VaultId {
    fn eq(&self, other: &Self) -> (r: bool) {
        bytes_equal(&self.0.0, &other.0.0)
    }
}

impl vstd::std_specs::cmp::PartialEqSpecImpl for VaultId {
    open spec fn obeys_eq_spec() -> bool {
        true
    }

    open spec fn eq_spec(&self, other: &Self) -> bool {
        self.0 == other.0
    }
}

impl OrderedKey for VaultId {
    open spec fn key_seq(&self) -> Seq<u8> {
        self.0.0@
    }

    fn compare_key(&self, other: &Self) -> (r: KeyOrder) {
        compare_bytes(self.0.0.as_slice(), other.0.0.as_slice())
    }

    proof fn lemma_key_injective(a: Self, b: Self) {
        assert(a.0.0 =~= b.0.0);
    }

    proof fn lemma_key_len(a: Self, b: Self) {
    }
}

impl VaultId {
    pub fn from_digest(digest: Digest) -> (r: Self)
        ensures
            r.0 == digest,
    {
        VaultId(digest)
    }

    pub fn from_parts(parts: &[&[u8]]) -> (r: Self)
        ensures
            r.0 == parts_digest(VAULT_DOMAIN, parts_view(parts@)),
    {
        VaultId(Digest::from_parts(VAULT_DOMAIN, parts))
    }

    pub fn to_hex(self) -> (r: String)
        ensures
            r@ == hex_text(self.0.0@),
    {
        self.0.to_hex()
    }

    pub fn bytes(self) -> (r: [u8; 32])
        ensures
            r == self.0.0,
    {
        self.0.0
    }

    pub fn digest(self) -> (r: Digest)
        ensures
            r == self.0,
    {
        self.0
    }
}

pub const LOAN_DOMAIN: &'static str = "keystonexdtl-loan-v1";

/// The identity of a loan.
#[derive(Clone, Copy, Debug, Eq, PartialOrd, Ord, Hash, Default)]
pub struct LoanId(pub Digest);

impl PartialEq for LoanId {
    fn eq(&self, other: &Self) -> (r: bool) {
        bytes_equal(&self.0.0, &other.0.0)
    }
}

impl vstd::std_specs::cmp::PartialEqSpecImpl for LoanId {
    open spec fn obeys_eq_spec() -> bool {
        true
    }

    open spec fn eq_spec(&self, other: &Self) -> bool {
        self.0 == other.0
    }
}

impl OrderedKey for LoanId {
    open spec fn key_seq(&self) -> Seq<u8> {
        self.0.0@
    }

    fn compare_key(&self, other: &Self) -> (r: KeyOrder) {
        compare_bytes(self.0.0.as_slice(), other.0.0.as_slice())
    }

    proof fn lemma_key_injective(a: Self, b: Self) {
        assert(a.0.0 =~= b.0.0);
    }

    proof fn lemma_key_len(a: Self, b: Self) {
    }
}

impl LoanId {
    pub fn from_digest(digest: Digest) -> (r: Self)
        ensures
            r.0 == digest,
    {
        LoanId(digest)
    }

    pub fn from_parts(parts: &[&[u8]]) -> (r: Self)
        ensures
            r.0 == parts_digest(LOAN_DOMAIN, parts_view(parts@)),
    {
        LoanId(Digest::from_parts(LOAN_DOMAIN, parts))
    }

    pub fn to_hex(self) -> (r: String)
        ensures
            r@ == hex_text(self.0.0@),
    {
        self.0.to_hex()
    }

    pub fn bytes(self) -> (r: [u8; 32])
        ensures
            r == self.0.0,
    {
        self.0.0
    }

    pub fn digest(self) -> (r: Digest)
        ensures
            r == self.0,
    {
        self.0
    }
}

pub const TX_DOMAIN: &'static str = "keystonexdtl-tx-v1";

/// The identity of a journal entry.
#[derive(Clone, Copy, Debug, Eq, PartialOrd, Ord, Hash, Default)]
pub struct TxId(pub Digest);

impl PartialEq for TxId {
    fn eq(&self, other: &Self) -> (r: bool) {
        bytes_equal(&self.0.0, &other.0.0)
    }
}

impl vstd::std_specs::cmp::PartialEqSpecImpl for TxId {
    open spec fn obeys_eq_spec() -> bool {
        true
    }

    open spec fn eq_spec(&self, other: &Self) -> bool {
        self.0 == other.0
    }
}

impl OrderedKey for TxId {
    open spec fn key_seq(&self) -> Seq<u8> {
        self.0.0@
    }

    fn compare_key(&self, other: &Self) -> (r: KeyOrder) {
        compare_bytes(self.0.0.as_slice(), other.0.0.as_slice())
    }

    proof fn lemma_key_injective(a: Self, b: Self) {
        assert(a.0.0 =~= b.0.0);
    }

    proof fn lemma_key_len(a: Self, b: Self) {
    }
}

impl TxId {
    pub fn from_digest(digest: Digest) -> (r: Self)
        ensures
            r.0 == digest,
    {
        TxId(digest)
    }

    pub fn from_parts(parts: &[&[u8]]) -> (r: Self)
        ensures
            r.0 == parts_digest(TX_DOMAIN, parts_view(parts@)),
    {
        TxId(Digest::from_parts(TX_DOMAIN, parts))
    }

    pub fn to_hex(self) -> (r: String)
        ensures
            r@ == hex_text(self.0.0@),
    {
        self.0.to_hex()
    }

    pub fn bytes(self) -> (r: [u8; 32])
        ensures
            r == self.0.0,
    {
        self.0.0
    }

    pub fn digest(self) -> (r: Digest)
        ensures
            r == self.0,
    {
        self.0
    }
}

pub const POSITION_DOMAIN: &'static str = "keystonexdtl-position-v1";

/// The identity of an account's position in a vault.
#[derive(Clone, Copy, Debug, Eq, PartialOrd, Ord, Hash, Default)]
pub struct PositionId(pub Digest);

impl PartialEq for PositionId {
    fn eq(&self, other: &Self) -> (r: bool) {
        bytes_equal(&self.0.0, &other.0.0)
    }
}

impl vstd::std_specs::cmp::PartialEqSpecImpl for PositionId {
    open spec fn obeys_eq_spec() -> bool {
        true
    }

    open spec fn eq_spec(&self, other: &Self) -> bool {
        self.0 == other.0
    }
}

impl OrderedKey for PositionId {
    open spec fn key_seq(&self) -> Seq<u8> {
        self.0.0@
    }

    fn compare_key(&self, other: &Self) -> (r: KeyOrder) {
        compare_bytes(self.0.0.as_slice(), other.0.0.as_slice())
    }

    proof fn lemma_key_injective(a: Self, b: Self) {
        assert(a.0.0 =~= b.0.0);
    }

    proof fn lemma_key_len(a: Self, b: Self) {
    }
}

impl PositionId {
    pub fn from_digest(digest: Digest) -> (r: Self)
        ensures
            r.0 == digest,
    {
        PositionId(digest)
    }

    pub fn from_parts(parts: &[&[u8]]) -> (r: Self)
        ensures
            r.0 == parts_digest(POSITION_DOMAIN, parts_view(parts@)),
    {
        PositionId(Digest::from_parts(POSITION_DOMAIN, parts))
    }

    pub fn to_hex(self) -> (r: String)
        ensures
            r@ == hex_text(self.0.0@),
    {
        self.0.to_hex()
    }

    pub fn bytes(self) -> (r: [u8; 32])
        ensures
            r == self.0.0,
    {
        self.0.0
    }

    pub fn digest(self) -> (r: Digest)
        ensures
            r == self.0,
    {
        self.0
    }
}

impl AccountId {
    pub fn named(name: &str) -> (r: Self)
        ensures
            r.0 == parts_digest(ACCOUNT_DOMAIN, seq![name.spec_bytes()]),
    {
        let p0 = name.as_bytes();
        let arr = [p0];
        assert(arr@ =~= seq![p0]);
        let r = Self::from_parts(arr.as_slice());
        assert(parts_view(seq![p0]) =~= seq![name.spec_bytes()]);
        r
    }
}

impl AssetId {
    pub fn native() -> (r: Self)
        ensures
            r.0 == parts_digest(ASSET_DOMAIN, seq!["usdc-dtl".spec_bytes()]),
    {
        Self::named("usdc-dtl")
    }

    pub fn named(symbol: &str) -> (r: Self)
        ensures
            r.0 == parts_digest(ASSET_DOMAIN, seq![symbol.spec_bytes()]),
    {
        let p0 = symbol.as_bytes();
        let arr = [p0];
        assert(arr@ =~= seq![p0]);
        let r = Self::from_parts(arr.as_slice());
        assert(parts_view(seq![p0]) =~= seq![symbol.spec_bytes()]);
        r
    }
}

impl VaultId {
    pub fn named(name: &str, asset: AssetId) -> (r: Self)
        ensures
            r.0 == parts_digest(VAULT_DOMAIN, seq![name.spec_bytes(), asset.0.0@]),
    {
        let p0 = name.as_bytes();
        let p1 = asset.0.0.as_slice();
        let arr = [p0, p1];
        assert(arr@ =~= seq![p0, p1]);
        let r = Self::from_parts(arr.as_slice());
        assert(parts_view(seq![p0, p1]) =~= seq![name.spec_bytes(), asset.0.0@]);
        r
    }
}

impl LoanId {
    pub fn derive(lender: VaultId, borrower: VaultId, nonce: u64, principal: u64, start_epoch: u64) -> (r: Self)
        ensures
            r.0 == parts_digest(
                LOAN_DOMAIN,
                seq![lender.0.0@, borrower.0.0@, u64_be(nonce as int), u64_be(principal as int), u64_be(start_epoch as int)],
            ),
    {
        let n = u64_be_vec(nonce);
        let p = u64_be_vec(principal);
        let s = u64_be_vec(start_epoch);
        let p0 = lender.0.0.as_slice();
        let p1 = borrower.0.0.as_slice();
        let p2 = n.as_slice();
        let p3 = p.as_slice();
        let p4 = s.as_slice();
        let arr = [p0, p1, p2, p3, p4];
        assert(arr@ =~= seq![p0, p1, p2, p3, p4]);
        let r = Self::from_parts(arr.as_slice());
        assert(parts_view(seq![p0, p1, p2, p3, p4])
            =~= seq![lender.0.0@, borrower.0.0@, u64_be(nonce as int), u64_be(principal as int), u64_be(start_epoch as int)]);
        r
    }
}

impl TxId {
    pub fn derive(kind: &str, sequence: u64, state_digest: Digest) -> (r: Self)
        ensures
            r.0 == parts_digest(TX_DOMAIN, seq![kind.spec_bytes(), u64_be(sequence as int), state_digest.0@]),
    {
        let s = u64_be_vec(sequence);
        let p0 = kind.as_bytes();
        let p1 = s.as_slice();
        let p2 = state_digest.0.as_slice();
        let arr = [p0, p1, p2];
        assert(arr@ =~= seq![p0, p1, p2]);
        let r = Self::from_parts(arr.as_slice());
        assert(parts_view(seq![p0, p1, p2])
            =~= seq![kind.spec_bytes(), u64_be(sequence as int), state_digest.0@]);
        r
    }
}

impl PositionId {
    pub fn derive(vault: VaultId, owner: AccountId) -> (r: Self)
        ensures
            r.0 == parts_digest(POSITION_DOMAIN, seq![vault.0.0@, owner.0.0@]),
    {
        let p0 = vault.0.0.as_slice();
        let p1 = owner.0.0.as_slice();
        let arr = [p0, p1];
        assert(arr@ =~= seq![p0, p1]);
        let r = Self::from_parts(arr.as_slice());
        assert(parts_view(seq![p0, p1]) =~= seq![vault.0.0@, owner.0.0@]);
        r
    }
}

/// The digest of a value's JSON text under a domain: the text is its one part.
pub fn state_digest_from_json(domain: &str, json: &[u8]) -> (r: KeystoneResult<Digest>)
    ensures
        r == Ok::<Digest, KeystoneError>(parts_digest(domain, seq![json@])),
{
    let arr = [json];
    assert(arr@ =~= seq![json]);
    let d = Digest::from_parts(domain, arr.as_slice());
    assert(parts_view(seq![json]) =~= seq![json@]);
    Ok(d)
}

pub fn digest_pair(domain: &str, left: Digest, right: Digest) -> (r: Digest)
    ensures
        r == parts_digest(domain, seq![left.0@, right.0@]),
{
    let p0 = left.0.as_slice();
    let p1 = right.0.as_slice();
    let arr = [p0, p1];
    assert(arr@ =~= seq![p0, p1]);
    let r = Digest::from_parts(domain, arr.as_slice());
    assert(parts_view(seq![p0, p1]) =~= seq![left.0@, right.0@]);
    r
}

/// A pair of asset identities, ordered by the first, then the second.
#[derive(Clone, Copy, Debug, PartialEq, Eq, PartialOrd, Ord, Hash)]
pub struct AssetPair(pub AssetId, pub AssetId);

impl OrderedKey for AssetPair {
    open spec fn key_seq(&self) -> Seq<u8> {
        self.0.0.0@ + self.1.0.0@
    }

    fn compare_key(&self, other: &Self) -> (r: KeyOrder) {
        let mut a: Vec<u8> = Vec::new();
        push_bytes(&mut a, self.0.0.0.as_slice());
        push_bytes(&mut a, self.1.0.0.as_slice());
        let mut b: Vec<u8> = Vec::new();
        push_bytes(&mut b, other.0.0.0.as_slice());
        push_bytes(&mut b, other.1.0.0.as_slice());
        compare_bytes(a.as_slice(), b.as_slice())
    }

    proof fn lemma_key_injective(a: Self, b: Self) {
        let sa = a.key_seq();
        let sb = b.key_seq();
        assert(sa.subrange(0, 32) =~= a.0.0.0@);
        assert(sb.subrange(0, 32) =~= b.0.0.0@);
        assert(sa.subrange(32, 64) =~= a.1.0.0@);
        assert(sb.subrange(32, 64) =~= b.1.0.0@);
        assert(a.0.0.0 =~= b.0.0.0);
        assert(a.1.0.0 =~= b.1.0.0);
    }

    proof fn lemma_key_len(a: Self, b: Self) {
    }
}

/// A pair of vault identities, ordered by the first, then the second.
#[derive(Clone, Copy, Debug, PartialEq, Eq, PartialOrd, Ord, Hash)]
pub struct VaultPair(pub VaultId, pub VaultId);

impl OrderedKey for VaultPair {
    open spec fn key_seq(&self) -> Seq<u8> {
        self.0.0.0@ + self.1.0.0@
    }

    fn compare_key(&self, other: &Self) -> (r: KeyOrder) {
        let mut a: Vec<u8> = Vec::new();
        push_bytes(&mut a, self.0.0.0.as_slice());
        push_bytes(&mut a, self.1.0.0.as_slice());
        let mut b: Vec<u8> = Vec::new();
        push_bytes(&mut b, other.0.0.0.as_slice());
        push_bytes(&mut b, other.1.0.0.as_slice());
        compare_bytes(a.as_slice(), b.as_slice())
    }

    proof fn lemma_key_injective(a: Self, b: Self) {
        let sa = a.key_seq();
        let sb = b.key_seq();
        assert(sa.subrange(0, 32) =~= a.0.0.0@);
        assert(sb.subrange(0, 32) =~= b.0.0.0@);
        assert(sa.subrange(32, 64) =~= a.1.0.0@);
        assert(sb.subrange(32, 64) =~= b.1.0.0@);
        assert(a.0.0.0 =~= b.0.0.0);
        assert(a.1.0.0 =~= b.1.0.0);
    }

    proof fn lemma_key_len(a: Self, b: Self) {
    }
}

} // verus!
