//! TLS material: the sections of a PEM text, the certificates among them and
//! the private key that a terminating listener uses.
use vstd::prelude::*;
use vstd::utf8::encode_utf8;

verus! {

/// The kind of a PEM section.
#[derive(Clone, Copy, PartialEq, Eq, Structural, Debug)]
pub enum PemKind {
    Certificate,
    Pkcs1Key,
    Pkcs8Key,
    Sec1Key,
    /// A section of another type, or one that could not be decoded.
    Other,
}

/// One PEM section: its kind and its DER bytes (empty for `Other`).
pub struct PemItem {
    pub kind: PemKind,
    pub der: Vec<u8>,
}

pub open spec fn pem_item_views(items: Seq<PemItem>) -> Seq<(PemKind, Seq<u8>)> {
    items.map_values(|i: PemItem| (i.kind, i.der@))
}

/// The sections that `rustls_pemfile::read_all` finds in `pem`, in order.
pub uninterp spec fn pem_sections(pem: Seq<u8>) -> Seq<(PemKind, Seq<u8>)>;

/// Relies on `rustls_pemfile::read_all`: the PEM sections of `pem`, in
/// order, each mapped one for one to its kind and DER bytes.
#[verifier::external_body]
fn read_pem_sections(pem: &[u8]) -> (r: Vec<PemItem>)
    ensures
        pem_item_views(r@) == pem_sections(pem@),
{
    let mut rd = pem;
    rustls_pemfile::read_all(&mut rd).map(|item| match item {
        Ok(rustls_pemfile::Item::X509Certificate(c)) => PemItem { kind: PemKind::Certificate, der: c.to_vec() },
        Ok(rustls_pemfile::Item::Pkcs1Key(k)) => PemItem { kind: PemKind::Pkcs1Key, der: k.secret_pkcs1_der().to_vec() },
        Ok(rustls_pemfile::Item::Pkcs8Key(k)) => PemItem { kind: PemKind::Pkcs8Key, der: k.secret_pkcs8_der().to_vec() },
        Ok(rustls_pemfile::Item::Sec1Key(k)) => PemItem { kind: PemKind::Sec1Key, der: k.secret_sec1_der().to_vec() },
        _ => PemItem { kind: PemKind::Other, der: Vec::new() },
    }).collect()
}

pub open spec fn is_key(k: PemKind) -> bool {
    k == PemKind::Pkcs1Key || k == PemKind::Pkcs8Key || k == PemKind::Sec1Key
}

/// The DER bytes of each certificate among `items`, in order.
pub open spec fn certificates_of(items: Seq<(PemKind, Seq<u8>)>) -> Seq<Seq<u8>>
    decreases items.len(),
{
    if items.len() == 0 {
        Seq::empty()
    } else if items.last().0 == PemKind::Certificate {
        certificates_of(items.drop_last()).push(items.last().1)
    } else {
        certificates_of(items.drop_last())
    }
}

/// Index of the first private key among `items`, if any.
pub open spec fn first_key_from(items: Seq<(PemKind, Seq<u8>)>, i: int) -> Option<int>
    decreases items.len() - i,
{
    if i < 0 || i >= items.len() {
        None
    } else if is_key(items[i].0) {
        Some(i)
    } else {
        first_key_from(items, i + 1)
    }
}

/// A private key of a terminating listener.
pub struct SgPrivateKey {
    pub kind: PemKind,
    pub der: Vec<u8>,
}

/// What a terminating listener presents: its certificate chain and the
/// first private key found.
pub struct SgTlsMaterial {
    pub certs: Vec<Vec<u8>>,
    pub key: SgPrivateKey,
}

pub enum SgTlsError {
    /// The key text holds no PKCS#1, PKCS#8 or SEC1 private key.
    MissingKey,
}

/// The certificates among the sections of `pem`, in order.
pub fn certificates(pem: &[u8]) -> (r: Vec<Vec<u8>>)
    ensures
        r@.map_values(|c: Vec<u8>| c@) == certificates_of(pem_sections(pem@)),
{
    let items = read_pem_sections(pem);
    let ghost iv = pem_item_views(items@);
    let mut out: Vec<Vec<u8>> = Vec::new();
    let n = items.len();
    let mut i: usize = 0;
    while i < n
        invariant
            n == items@.len(),
            iv == pem_item_views(items@),
            i <= n,
            out@.map_values(|c: Vec<u8>| c@) == certificates_of(iv.subrange(0, i as int)),
        decreases n - i,
    {
        proof {
            assert(iv.subrange(0, i + 1).drop_last() =~= iv.subrange(0, i as int));
            assert(iv.subrange(0, i + 1).last() == iv[i as int]);
        }
        if items[i].kind == PemKind::Certificate {
            let ghost before = out@;
            out.push(crate::text::copy_bytes(&items[i].der));
            proof {
                assert(out@.map_values(|c: Vec<u8>| c@) =~= before.map_values(|c: Vec<u8>| c@).push(items@[i as int].der@));
            }
        }
        i += 1;
    }
    assert(iv.subrange(0, n as int) =~= iv);
    out
}

/// The first private key among the sections of `pem`, whatever else
/// surrounds it.
pub fn private_key(pem: &[u8]) -> (r: Option<SgPrivateKey>)
    ensures
        match first_key_from(pem_sections(pem@), 0) {
            Some(i) => r matches Some(k) && k.kind == pem_sections(pem@)[i].0 && k.der@ == pem_sections(pem@)[i].1,
            None => r.is_none(),
        },
{
    let items = read_pem_sections(pem);
    let ghost iv = pem_item_views(items@);
    let n = items.len();
    let mut i: usize = 0;
    while i < n
        invariant
            n == items@.len(),
            iv == pem_item_views(items@),
            iv == pem_sections(pem@),
            i <= n,
            first_key_from(iv, 0) == first_key_from(iv, i as int),
        decreases n - i,
    {
        let k = items[i].kind;
        if k == PemKind::Pkcs1Key || k == PemKind::Pkcs8Key || k == PemKind::Sec1Key {
            return Some(SgPrivateKey { kind: k, der: crate::text::copy_bytes(&items[i].der) });
        }
        i += 1;
    }
    None
}

/// `m` holds the certificates among `certs` and the first key among `keys`.
pub open spec fn material_of(m: SgTlsMaterial, certs: Seq<(PemKind, Seq<u8>)>, keys: Seq<(PemKind, Seq<u8>)>) -> bool {
    &&& m.certs@.map_values(|c: Vec<u8>| c@) == certificates_of(certs)
    &&& match first_key_from(keys, 0) {
        Some(i) => m.key.kind == keys[i].0 && m.key.der@ == keys[i].1,
        None => false,
    }
}

/// Reads the certificate chain and the private key of a terminating
/// listener.
pub fn tls_material(cert_pem: &[u8], key_pem: &[u8]) -> (r: Result<SgTlsMaterial, SgTlsError>)
    ensures
        r.is_ok() == first_key_from(pem_sections(key_pem@), 0).is_some(),
        r matches Ok(m) ==> material_of(m, pem_sections(cert_pem@), pem_sections(key_pem@)),
{
    let certs = certificates(cert_pem);
    match private_key(key_pem) {
        Some(key) => Ok(SgTlsMaterial { certs, key }),
        None => Err(SgTlsError::MissingKey),
    }
}

/// The protocols a terminating listener offers, most preferred first.
pub fn alpn_protocols() -> (r: Vec<Vec<u8>>)
    ensures
        r@.len() == 3,
        r@[0]@ == encode_utf8("h2"@),
        r@[1]@ == encode_utf8("http/1.1"@),
        r@[2]@ == encode_utf8("http/1.0"@),
{
    let mut r: Vec<Vec<u8>> = Vec::new();
    r.push(crate::response::utf8_bytes("h2"));
    r.push(crate::response::utf8_bytes("http/1.1"));
    r.push(crate::response::utf8_bytes("http/1.0"));
    r
}

} // verus!
