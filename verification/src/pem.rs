//! The model of a decoded PEM input and the selection rules over it.
//!
//! A PEM source decodes to a sequence of blocks, each a kind and a DER
//! payload. The chain is every certificate block's payload in input order;
//! the key is the first block of an accepted key form.

use crate::CredentialError;
use vstd::prelude::*;

verus! {

/// The kinds of PEM block that the credential loader tells apart.
#[derive(Clone, Copy, PartialEq, Eq, Structural, Debug)]
pub enum BlockKind {
    /// A `CERTIFICATE` block: one DER-encoded X.509 certificate.
    Certificate,
    /// A `PRIVATE KEY` block: a PKCS#8-wrapped private key.
    Pkcs8Key,
    /// An `RSA PRIVATE KEY` block: a bare PKCS#1 RSA private key.
    RsaKey,
    /// Any other decoded block (EC keys, revocation lists): never selected.
    Other,
}

/// One decoded PEM block: its kind and its DER payload.
#[derive(Debug)]
pub struct PemBlock {
    pub kind: BlockKind,
    pub der: Vec<u8>,
}

/// The mathematical image of a `PemBlock`.
pub struct PemBlockView {
    pub kind: BlockKind,
    pub der: Seq<u8>,
}

impl View for PemBlock {
    type V = PemBlockView;

    open spec fn view(&self) -> PemBlockView {
        PemBlockView { kind: self.kind, der: self.der@ }
    }
}

/// The two accepted private-key forms.
#[derive(Clone, Copy, PartialEq, Eq, Structural, Debug)]
pub enum KeyKind {
    /// From a `PRIVATE KEY` block (PKCS#8).
    Pkcs8,
    /// From an `RSA PRIVATE KEY` block (PKCS#1).
    Rsa,
}

/// A selected private key: its form and its DER payload.
#[derive(Debug)]
pub struct KeyMaterial {
    pub kind: KeyKind,
    pub der: Vec<u8>,
}

/// The mathematical image of a `KeyMaterial`.
pub struct KeyView {
    pub kind: KeyKind,
    pub der: Seq<u8>,
}

impl View for KeyMaterial {
    type V = KeyView;

    open spec fn view(&self) -> KeyView {
        KeyView { kind: self.kind, der: self.der@ }
    }
}

/// What PEM decoding yields on given bytes: `None` on malformed framing
/// (an unterminated block, invalid base64), otherwise every decoded block
/// in input order.
pub uninterp spec fn pem_parse(s: Seq<u8>) -> Option<Seq<PemBlockView>>;

/// The blocks of a decoded vector, as their mathematical images.
pub open spec fn blocks_view(blocks: Seq<PemBlock>) -> Seq<PemBlockView> {
    blocks.map_values(|b: PemBlock| b@)
}

/// Relies on rustls_pemfile::read_all: it returns every decoded PEM block of
/// the input in order (blocks with unrecognised names are skipped by the
/// parser itself), or an io::Error on malformed framing.
#[verifier::external_body]
pub(crate) fn read_pem_blocks(input: &[u8]) -> (r: Result<Vec<PemBlock>, CredentialError>)
    ensures
        match r {
            Ok(blocks) => pem_parse(input@) == Some(blocks_view(blocks@)),
            Err(e) => e == CredentialError::PemFraming && pem_parse(input@) is None,
        },
{
    match rustls_pemfile::read_all(&mut &*input) {
        Ok(items) => Ok(items
            .into_iter()
            .map(|item| match item {
                rustls_pemfile::Item::X509Certificate(d) => PemBlock { kind: BlockKind::Certificate, der: d },
                rustls_pemfile::Item::PKCS8Key(d) => PemBlock { kind: BlockKind::Pkcs8Key, der: d },
                rustls_pemfile::Item::RSAKey(d) => PemBlock { kind: BlockKind::RsaKey, der: d },
                rustls_pemfile::Item::ECKey(d) => PemBlock { kind: BlockKind::Other, der: d },
                rustls_pemfile::Item::Crl(d) => PemBlock { kind: BlockKind::Other, der: d },
                _ => PemBlock { kind: BlockKind::Other, der: Vec::new() },
            })
            .collect()),
        Err(_) => Err(CredentialError::PemFraming),
    }
}

/// The DER payloads of the certificate blocks, in input order.
pub open spec fn cert_ders(blocks: Seq<PemBlockView>) -> Seq<Seq<u8>>
    decreases blocks.len(),
{
    if blocks.len() == 0 {
        Seq::empty()
    } else if blocks.last().kind == BlockKind::Certificate {
        cert_ders(blocks.drop_last()).push(blocks.last().der)
    } else {
        cert_ders(blocks.drop_last())
    }
}

/// How many certificate blocks the input holds.
pub open spec fn cert_count(blocks: Seq<PemBlockView>) -> nat
    decreases blocks.len(),
{
    if blocks.len() == 0 {
        0
    } else if blocks.last().kind == BlockKind::Certificate {
        cert_count(blocks.drop_last()) + 1
    } else {
        cert_count(blocks.drop_last())
    }
}

/// Whether a block is one of the two accepted key forms.
pub open spec fn is_key_block(b: PemBlockView) -> bool {
    b.kind == BlockKind::Pkcs8Key || b.kind == BlockKind::RsaKey
}

/// The key a block of an accepted key form stands for.
pub open spec fn key_view_of(b: PemBlockView) -> KeyView {
    KeyView {
        kind: if b.kind == BlockKind::Pkcs8Key {
            KeyKind::Pkcs8
        } else {
            KeyKind::Rsa
        },
        der: b.der,
    }
}

/// The first block of an accepted key form, if any.
pub open spec fn first_key(blocks: Seq<PemBlockView>) -> Option<KeyView>
    decreases blocks.len(),
{
    if blocks.len() == 0 {
        None
    } else if is_key_block(blocks.first()) {
        Some(key_view_of(blocks.first()))
    } else {
        first_key(blocks.drop_first())
    }
}

/// Selection looks past a key-free prefix.
pub proof fn lemma_first_key_skip(blocks: Seq<PemBlockView>, i: int)
    requires
        0 <= i <= blocks.len(),
        forall|j: int| 0 <= j < i ==> !is_key_block(blocks[j]),
    ensures
        first_key(blocks) == first_key(blocks.skip(i)),
    decreases i,
{
    if i == 0 {
        assert(blocks.skip(0) =~= blocks);
    } else {
        assert(!is_key_block(blocks.first()));
        assert forall|j: int| 0 <= j < i - 1 implies !is_key_block(blocks.drop_first()[j]) by {
            assert(blocks.drop_first()[j] == blocks[j + 1]);
        }
        lemma_first_key_skip(blocks.drop_first(), i - 1);
        assert(blocks.drop_first().skip(i - 1) =~= blocks.skip(i));
    }
}

/// Law: selection returns the earliest block of an accepted key form.
pub proof fn lemma_first_key_is_earliest(blocks: Seq<PemBlockView>, i: int)
    requires
        0 <= i < blocks.len(),
        is_key_block(blocks[i]),
        forall|j: int| 0 <= j < i ==> !is_key_block(blocks[j]),
    ensures
        first_key(blocks) == Some(key_view_of(blocks[i])),
{
    lemma_first_key_skip(blocks, i);
    assert(blocks.skip(i).first() == blocks[i]);
}

/// Law: when the earliest key-form block is a PKCS#8 one, a later RSA block
/// is ignored: selection returns the PKCS#8 payload.
pub proof fn lemma_pkcs8_before_rsa_selects_pkcs8(blocks: Seq<PemBlockView>, i: int, j: int)
    requires
        0 <= i < j < blocks.len(),
        blocks[i].kind == BlockKind::Pkcs8Key,
        blocks[j].kind == BlockKind::RsaKey,
        forall|k: int| 0 <= k < i ==> !is_key_block(blocks[k]),
    ensures
        first_key(blocks) == Some(KeyView { kind: KeyKind::Pkcs8, der: blocks[i].der }),
{
    lemma_first_key_is_earliest(blocks, i);
}

/// Law: an input without key-form blocks selects no key.
pub proof fn lemma_no_keys_selects_none(blocks: Seq<PemBlockView>)
    requires
        forall|j: int| 0 <= j < blocks.len() ==> !is_key_block(blocks[j]),
    ensures
        first_key(blocks) is None,
{
    lemma_first_key_skip(blocks, blocks.len() as int);
    assert(blocks.skip(blocks.len() as int).len() == 0);
}

/// Law: the chain holds exactly one entry per certificate block.
pub proof fn lemma_chain_len_is_cert_count(blocks: Seq<PemBlockView>)
    ensures
        cert_ders(blocks).len() == cert_count(blocks),
    decreases blocks.len(),
{
    if blocks.len() > 0 {
        lemma_chain_len_is_cert_count(blocks.drop_last());
    }
}

/// Law: the chain over concatenated inputs is the concatenation of the
/// chains: collection is order-preserving across the whole input.
pub proof fn lemma_cert_ders_concat(a: Seq<PemBlockView>, b: Seq<PemBlockView>)
    ensures
        cert_ders(a + b) == cert_ders(a) + cert_ders(b),
    decreases b.len(),
{
    if b.len() == 0 {
        assert(a + b =~= a);
        assert(cert_ders(a) + cert_ders(b) =~= cert_ders(a));
    } else {
        assert((a + b).drop_last() =~= a + b.drop_last());
        assert((a + b).last() == b.last());
        lemma_cert_ders_concat(a, b.drop_last());
        if b.last().kind == BlockKind::Certificate {
            assert(cert_ders(a) + cert_ders(b) =~= (cert_ders(a) + cert_ders(
                b.drop_last(),
            )).push(b.last().der));
        }
    }
}

/// Law: over concatenated inputs, selection takes the first input's key
/// when it has one, and the second input's otherwise: the first match wins.
pub proof fn lemma_first_key_concat(a: Seq<PemBlockView>, b: Seq<PemBlockView>)
    ensures
        first_key(a + b) == if first_key(a) is Some {
            first_key(a)
        } else {
            first_key(b)
        },
    decreases a.len(),
{
    if a.len() == 0 {
        assert(a + b =~= b);
    } else {
        assert((a + b).first() == a.first());
        assert((a + b).drop_first() =~= a.drop_first() + b);
        if !is_key_block(a.first()) {
            lemma_first_key_concat(a.drop_first(), b);
        }
    }
}

/// Law: an input without certificate blocks yields the empty chain.
pub proof fn lemma_no_certificates_empty_chain(blocks: Seq<PemBlockView>)
    requires
        forall|j: int| 0 <= j < blocks.len() ==> blocks[j].kind != BlockKind::Certificate,
    ensures
        cert_ders(blocks).len() == 0,
    decreases blocks.len(),
{
    if blocks.len() > 0 {
        assert forall|j: int| 0 <= j < blocks.drop_last().len() implies blocks.drop_last()[j].kind
            != BlockKind::Certificate by {
            assert(blocks.drop_last()[j] == blocks[j]);
        }
        lemma_no_certificates_empty_chain(blocks.drop_last());
    }
}

} // verus!
