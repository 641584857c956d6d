//! The credential loaders: chain collection and key selection.
//!
//! Both loaders decode the whole source once, then classify the decoded
//! blocks. A malformed source is the only error; an empty result is not one.

use crate::pem::blocks_view;
use crate::pem::cert_ders;
use crate::pem::first_key;
use crate::pem::is_key_block;
use crate::pem::key_view_of;
use crate::pem::lemma_first_key_is_earliest;
use crate::pem::lemma_first_key_skip;
use crate::pem::pem_parse;
use crate::pem::read_pem_blocks;
use crate::pem::BlockKind;
use crate::pem::KeyKind;
use crate::pem::KeyMaterial;
use crate::CredentialError;
use vstd::prelude::*;

verus! {

/// Copies one DER payload.
fn clone_bytes(v: &Vec<u8>) -> (r: Vec<u8>)
    ensures
        r@ == v@,
{
    let mut r: Vec<u8> = Vec::new();
    let mut i: usize = 0;
    while i < v.len()
        invariant
            i <= v.len(),
            r@ == v@.take(i as int),
        decreases v.len() - i,
    {
        r.push(v[i]);
        proof {
            assert(v@.take(i + 1 as int) =~= v@.take(i as int).push(v@[i as int]));
        }
        i = i + 1;
    }
    proof {
        assert(v@.take(v@.len() as int) =~= v@);
    }
    r
}

/// Collects the DER payload of every certificate block of `pem`, in input
/// order. An input without certificate blocks yields an empty chain, not an
/// error; only malformed PEM framing is one.
pub fn certs(pem: &[u8]) -> (r: Result<Vec<Vec<u8>>, CredentialError>)
    ensures
        match pem_parse(pem@) {
            Some(blocks) => r is Ok && r->Ok_0.deep_view() == cert_ders(blocks),
            None => r == Err::<Vec<Vec<u8>>, CredentialError>(CredentialError::PemFraming),
        },
{
    let blocks = match read_pem_blocks(pem) {
        Ok(blocks) => blocks,
        Err(e) => {
            return Err(e);
        },
    };
    let ghost bv = blocks_view(blocks@);
    let mut chain: Vec<Vec<u8>> = Vec::new();
    let mut i: usize = 0;
    while i < blocks.len()
        invariant
            i <= blocks.len(),
            bv == blocks_view(blocks@),
            chain.deep_view() == cert_ders(bv.take(i as int)),
        decreases blocks.len() - i,
    {
        proof {
            assert(bv.take(i + 1 as int).drop_last() =~= bv.take(i as int));
            assert(bv.take(i + 1 as int).last() == bv[i as int]);
            assert(bv[i as int] == blocks@[i as int]@);
        }
        let b = &blocks[i];
        if b.kind == BlockKind::Certificate {
            let der = clone_bytes(&b.der);
            proof {
                assert(der.deep_view() =~= der@);
                assert(cert_ders(bv.take(i + 1 as int)) == cert_ders(bv.take(i as int)).push(
                    bv[i as int].der,
                ));
            }
            chain.push(der);
            proof {
                assert(chain.deep_view() =~= cert_ders(bv.take(i + 1 as int)));
            }
        }
        i = i + 1;
    }
    proof {
        assert(bv.take(blocks@.len() as int) =~= bv);
    }
    Ok(chain)
}

/// Selects the first block of an accepted key form from `pem`: a `PRIVATE
/// KEY` (PKCS#8) or `RSA PRIVATE KEY` (PKCS#1) block; every other block is
/// skipped. An input without one yields `None`, not an error; only malformed
/// PEM framing is one.
pub fn key(pem: &[u8]) -> (r: Result<Option<KeyMaterial>, CredentialError>)
    ensures
        match pem_parse(pem@) {
            Some(blocks) => match r {
                Ok(Some(k)) => first_key(blocks) == Some(k@),
                Ok(None) => first_key(blocks) is None,
                Err(_) => false,
            },
            None => r == Err::<Option<KeyMaterial>, CredentialError>(CredentialError::PemFraming),
        },
{
    let blocks = match read_pem_blocks(pem) {
        Ok(blocks) => blocks,
        Err(e) => {
            return Err(e);
        },
    };
    let ghost bv = blocks_view(blocks@);
    let mut i: usize = 0;
    while i < blocks.len()
        invariant
            i <= blocks.len(),
            bv == blocks_view(blocks@),
            pem_parse(pem@) == Some(bv),
            forall|j: int| 0 <= j < i ==> !is_key_block(bv[j]),
        decreases blocks.len() - i,
    {
        proof {
            assert(bv[i as int] == blocks@[i as int]@);
        }
        let b = &blocks[i];
        let selected: Option<KeyKind> = match b.kind {
            BlockKind::Pkcs8Key => Some(KeyKind::Pkcs8),
            BlockKind::RsaKey => Some(KeyKind::Rsa),
            _ => None,
        };
        if let Some(kind) = selected {
            proof {
                assert(is_key_block(bv[i as int]));
                lemma_first_key_is_earliest(bv, i as int);
                assert(key_view_of(bv[i as int]).kind == kind);
                assert(key_view_of(bv[i as int]).der == b.der@);
            }
            let der = clone_bytes(&b.der);
            return Ok(Some(KeyMaterial { kind, der }));
        }
        i = i + 1;
    }
    proof {
        lemma_first_key_skip(bv, bv.len() as int);
        assert(bv.skip(bv.len() as int).len() == 0);
    }
    Ok(None)
}

} // verus!
