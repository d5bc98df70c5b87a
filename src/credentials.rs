//! Choosing the server's TLS credentials from PEM text: every certificate
//! section of the certificate file, and the first PKCS#1 or PKCS#8 private
//! key of the key file. The PEM sections themselves are decoded by
//! `rustls_pemfile`.
use vstd::prelude::*;

verus! {

#[verifier::external_type_specification]
#[verifier::external_body]
pub struct ExPemItem(rustls_pemfile::Item);

/// What a PEM section holds, as far as choosing credentials goes.
#[derive(Clone, Copy, Debug, PartialEq, Eq, Structural)]
pub enum SectionKind {
    Certificate,
    Pkcs1Key,
    Pkcs8Key,
    /// A section of another recognised kind (a public key, an EC key, ...).
    Other,
    /// A section that could not be decoded.
    Unreadable,
}

/// Why credentials could not be chosen; each stops the server from starting.
#[derive(Clone, Copy, Debug, PartialEq, Eq, Structural)]
pub enum CredentialError {
    /// A section of the certificate file could not be decoded.
    UnreadableCertificate,
    /// The certificate file holds no certificate.
    NoCertificate,
    /// The key file holds no PKCS#1 or PKCS#8 private key.
    NoPrivateKey,
}

/// The kinds of the PEM sections of `pem`, in order.
pub uninterp spec fn pem_section_kinds(pem: Seq<u8>) -> Seq<SectionKind>;

/// Relies on `rustls_pemfile::read_all`: it yields the sections of `pem` in
/// order, each decoded item or an error. An error is kept as `None` and
/// is the only section of kind `Unreadable`.
#[verifier::external_body]
fn read_sections(pem: &[u8]) -> (r: (Vec<Option<rustls_pemfile::Item>>, Vec<SectionKind>))
    ensures
        r.1@ == pem_section_kinds(pem@),
        r.0@.len() == r.1@.len(),
        forall|i: int| 0 <= i < r.0@.len() ==> (r.0@[i] is None <==> r.1@[i] is Unreadable),
{
    let mut rd = pem;
    let items: Vec<Option<rustls_pemfile::Item>> = rustls_pemfile::read_all(&mut rd).map(|i| i.ok()).collect();
    let kinds = items.iter().map(|i| match i {
        Some(rustls_pemfile::Item::X509Certificate(_)) => SectionKind::Certificate,
        Some(rustls_pemfile::Item::Pkcs1Key(_)) => SectionKind::Pkcs1Key,
        Some(rustls_pemfile::Item::Pkcs8Key(_)) => SectionKind::Pkcs8Key,
        Some(_) => SectionKind::Other,
        None => SectionKind::Unreadable,
    }).collect();
    (items, kinds)
}

/// Whether a section holds a usable private key.
pub open spec fn is_private_key(k: SectionKind) -> bool {
    k is Pkcs1Key || k is Pkcs8Key
}

/// The positions of the certificate sections among `kinds`, in order.
pub open spec fn certificate_positions(kinds: Seq<SectionKind>) -> Seq<int>
    decreases kinds.len(),
{
    if kinds.len() == 0 {
        seq![]
    } else {
        let prev = certificate_positions(kinds.drop_last());
        if kinds.last() is Certificate {
            prev.push(kinds.len() - 1)
        } else {
            prev
        }
    }
}

/// Whether any section of `kinds` could not be decoded.
pub open spec fn has_unreadable(kinds: Seq<SectionKind>) -> bool {
    exists|i: int| 0 <= i < kinds.len() && #[trigger] kinds[i] is Unreadable
}

/// Whether `i` is the position of the first private key among `kinds`.
pub open spec fn is_first_key(kinds: Seq<SectionKind>, i: int) -> bool {
    &&& 0 <= i < kinds.len()
    &&& is_private_key(kinds[i])
    &&& forall|j: int| 0 <= j < i ==> !is_private_key(#[trigger] kinds[j])
}

/// Picks the certificate sections: all of them, in order, provided that
/// every section could be decoded and there is at least one certificate.
pub fn select_certificates(kinds: &[SectionKind]) -> (r: Result<Vec<usize>, CredentialError>)
    ensures
        r matches Err(CredentialError::UnreadableCertificate) <==> has_unreadable(kinds@),
        r matches Err(CredentialError::NoCertificate) <==> !has_unreadable(kinds@)
            && certificate_positions(kinds@).len() == 0,
        r is Err ==> (r matches Err(CredentialError::UnreadableCertificate) || r matches Err(CredentialError::NoCertificate)),
        r matches Ok(v) ==> v@.map_values(|p: usize| p as int) == certificate_positions(kinds@),
{
    let mut found: Vec<usize> = Vec::new();
    let mut i: usize = 0;
    assert(kinds@.take(0) =~= Seq::<SectionKind>::empty());
    while i < kinds.len()
        invariant
            i <= kinds@.len(),
            found@.map_values(|p: usize| p as int) == certificate_positions(kinds@.take(i as int)),
            forall|j: int| 0 <= j < i ==> !(#[trigger] kinds@[j] is Unreadable),
        decreases kinds@.len() - i,
    {
        let ghost pre = kinds@.take(i as int);
        assert(kinds@.take(i + 1).drop_last() =~= pre);
        match kinds[i] {
            SectionKind::Unreadable => {
                return Err(CredentialError::UnreadableCertificate);
            },
            SectionKind::Certificate => {
                found.push(i);
                assert(found@.map_values(|p: usize| p as int) =~= certificate_positions(pre).push(i as int));
            },
            _ => {},
        }
        i = i + 1;
    }
    assert(kinds@.take(kinds@.len() as int) =~= kinds@);
    if found.len() == 0 {
        Err(CredentialError::NoCertificate)
    } else {
        Ok(found)
    }
}

/// Picks the first PKCS#1 or PKCS#8 private key; sections that cannot be
/// decoded or hold something else are passed over.
pub fn select_private_key(kinds: &[SectionKind]) -> (r: Result<usize, CredentialError>)
    ensures
        r matches Ok(i) ==> is_first_key(kinds@, i as int),
        r is Err <==> forall|j: int| 0 <= j < kinds@.len() ==> !is_private_key(#[trigger] kinds@[j]),
        r is Err ==> r matches Err(CredentialError::NoPrivateKey),
{
    let mut i: usize = 0;
    while i < kinds.len()
        invariant
            i <= kinds@.len(),
            forall|j: int| 0 <= j < i ==> !is_private_key(#[trigger] kinds@[j]),
        decreases kinds@.len() - i,
    {
        match kinds[i] {
            SectionKind::Pkcs1Key | SectionKind::Pkcs8Key => {
                return Ok(i);
            },
            _ => {},
        }
        i = i + 1;
    }
    Err(CredentialError::NoPrivateKey)
}

/// The certificates of the PEM text `pem`, in order. Fails when a section
/// cannot be decoded or there is no certificate.
pub fn load_certificates(pem: &[u8]) -> (r: Result<Vec<rustls_pemfile::Item>, CredentialError>)
    ensures
        r matches Err(CredentialError::UnreadableCertificate) <==> has_unreadable(pem_section_kinds(pem@)),
        r matches Err(CredentialError::NoCertificate) <==> !has_unreadable(pem_section_kinds(pem@))
            && certificate_positions(pem_section_kinds(pem@)).len() == 0,
        r is Err ==> (r matches Err(CredentialError::UnreadableCertificate) || r matches Err(CredentialError::NoCertificate)),
        r matches Ok(v) ==> v@.len() == certificate_positions(pem_section_kinds(pem@)).len(),
{
    let (items, kinds) = read_sections(pem);
    if let Err(e) = select_certificates(kinds.as_slice()) {
        return Err(e);
    }
    let ghost all = items@;
    let mut rest = items;
    let mut certs: Vec<rustls_pemfile::Item> = Vec::new();
    let mut j: usize = 0;
    assert(kinds@.take(0) =~= Seq::<SectionKind>::empty());
    assert(all.skip(0) =~= all);
    while j < kinds.len()
        invariant
            j <= kinds@.len(),
            all.len() == kinds@.len(),
            rest@ == all.skip(j as int),
            certs@.len() == certificate_positions(kinds@.take(j as int)).len(),
            forall|i: int| 0 <= i < all.len() ==> (all[i] is None <==> kinds@[i] is Unreadable),
            !has_unreadable(kinds@),
        decreases kinds@.len() - j,
    {
        assert(kinds@.take(j + 1).drop_last() =~= kinds@.take(j as int));
        let item = rest.remove(0);
        assert(rest@ =~= all.skip(j + 1));
        match kinds[j] {
            SectionKind::Certificate => {
                assert(!(kinds@[j as int] is Unreadable));
                certs.push(item.unwrap());
            },
            _ => {},
        }
        j = j + 1;
    }
    assert(kinds@.take(kinds@.len() as int) =~= kinds@);
    Ok(certs)
}

/// The first PKCS#1 or PKCS#8 private key of the PEM text `pem`. Fails when
/// there is none.
pub fn load_private_key(pem: &[u8]) -> (r: Result<rustls_pemfile::Item, CredentialError>)
    ensures
        r is Err <==> forall|j: int|
            0 <= j < pem_section_kinds(pem@).len() ==> !is_private_key(#[trigger] pem_section_kinds(pem@)[j]),
        r is Err ==> r matches Err(CredentialError::NoPrivateKey),
{
    let (items, kinds) = read_sections(pem);
    match select_private_key(kinds.as_slice()) {
        Err(e) => Err(e),
        Ok(i) => {
            let mut items = items;
            let item = items.swap_remove(i);
            Ok(item.unwrap())
        },
    }
}

} // verus!
