//! The certificate authority's memory. `Ssl` holds the root certificate
//! and the leaf certificates issued so far, one for each host name. It
//! signs nothing itself: it says whether a certificate is at hand or has
//! to be signed, and keeps what was signed first.

use vstd::prelude::*;
use crate::text::{ascii_lower, find, find_char, lower_char, to_chars};

verus! {

/// A certificate with its private key, each in its encoded form.
pub struct Certificate {
    pub cert: Vec<u8>,
    pub key: Vec<u8>,
}

/// The content of a `Certificate`.
pub struct CertificateView {
    pub cert: Seq<u8>,
    pub key: Seq<u8>,
}

impl View for Certificate {
    type V = CertificateView;

    open spec fn view(&self) -> CertificateView {
        CertificateView { cert: self.cert@, key: self.key@ }
    }
}

impl Clone for Certificate {
    fn clone(&self) -> (copy: Self)
        ensures
            copy@ == self@,
    {
        Certificate { cert: self.cert.clone(), key: self.key.clone() }
    }
}

/// The key under which a host is cached: the name up to its first colon,
/// so without a port, in lower case.
pub open spec fn key_of(hostname: Seq<char>) -> Seq<char> {
    hostname.subrange(0, find(hostname, ':', 0)).map_values(|c: char| ascii_lower(c))
}

/// Computes the key under which a host is cached.
pub fn host_key(hostname: &str) -> (key: Vec<char>)
    ensures
        key@ == key_of(hostname@),
{
    let chars = to_chars(hostname);
    let end = find_char(&chars, ':', 0);
    let mut key: Vec<char> = Vec::new();
    let mut i: usize = 0;
    while i < end
        invariant
            i <= end <= chars.len(),
            key@ == chars@.subrange(0, i as int).map_values(|c: char| ascii_lower(c)),
        decreases end - i,
    {
        key.push(lower_char(chars[i]));
        assert(chars@.subrange(0, i as int + 1) =~= chars@.subrange(0, i as int).push(chars@[i as int]));
        assert(key@ =~= chars@.subrange(0, i as int + 1).map_values(|c: char| ascii_lower(c)));
        i += 1;
    }
    key
}

/// One cached certificate.
pub struct Entry {
    pub host: Vec<char>,
    pub leaf: Certificate,
}

/// The cache that a list of entries stands for. Where two entries have
/// one key, the earlier one counts.
pub open spec fn cache_of(entries: Seq<Entry>) -> Map<Seq<char>, CertificateView>
    decreases entries.len(),
{
    if entries.len() == 0 {
        Map::empty()
    } else {
        let earlier = cache_of(entries.drop_last());
        if earlier.contains_key(entries.last().host@) {
            earlier
        } else {
            earlier.insert(entries.last().host@, entries.last().leaf@)
        }
    }
}

proof fn lemma_absent(entries: Seq<Entry>, key: Seq<char>)
    requires
        forall|j: int| 0 <= j < entries.len() ==> entries[j].host@ != key,
    ensures
        !cache_of(entries).contains_key(key),
    decreases entries.len(),
{
    if entries.len() > 0 {
        lemma_absent(entries.drop_last(), key);
    }
}

proof fn lemma_first_match(entries: Seq<Entry>, key: Seq<char>, i: int)
    requires
        0 <= i < entries.len(),
        entries[i].host@ == key,
        forall|j: int| 0 <= j < i ==> entries[j].host@ != key,
    ensures
        cache_of(entries).contains_key(key),
        cache_of(entries)[key] == entries[i].leaf@,
    decreases entries.len(),
{
    let earlier = entries.drop_last();
    if i == entries.len() - 1 {
        lemma_absent(earlier, key);
    } else {
        lemma_first_match(earlier, key, i);
    }
}

/// The content of an `Ssl`.
pub struct SslView {
    pub root: CertificateView,
    /// The leaf certificate of each host that has one, by the host's key.
    pub cache: Map<Seq<char>, CertificateView>,
}

impl SslView {
    /// The certificate that the cache holds for a host, if it holds one.
    /// The host name counts without its port and without regard to case.
    pub open spec fn lookup(self, hostname: Seq<char>) -> Option<CertificateView> {
        if self.cache.contains_key(key_of(hostname)) {
            Some(self.cache[key_of(hostname)])
        } else {
            None
        }
    }

    /// The authority after a certificate signed for a host is taken in:
    /// it enters the cache only where the host has none.
    pub open spec fn take_in(self, hostname: Seq<char>, leaf: CertificateView) -> SslView {
        if self.cache.contains_key(key_of(hostname)) {
            self
        } else {
            SslView { cache: self.cache.insert(key_of(hostname), leaf), ..self }
        }
    }
}

/// What `issue_for_host` found.
pub enum Issue {
    /// The host has this certificate. Nothing is to be signed.
    Cached(Certificate),
    /// The host has none. A leaf certificate for it is to be signed with
    /// the root key and handed to `signed`.
    Sign,
}

/// The root certificate and the cache of leaf certificates.
pub struct Ssl {
    root: Certificate,
    entries: Vec<Entry>,
}

impl View for Ssl {
    type V = SslView;

    closed spec fn view(&self) -> SslView {
        SslView { root: self.root@, cache: cache_of(self.entries@) }
    }
}

fn same_key(a: &Vec<char>, b: &Vec<char>) -> (same: bool)
    ensures
        same == (a@ == b@),
{
    if a.len() != b.len() {
        return false;
    }
    let mut i: usize = 0;
    while i < a.len()
        invariant
            a.len() == b.len(),
            i <= a.len(),
            forall|j: int| 0 <= j < i ==> a[j] == b[j],
        decreases a.len() - i,
    {
        if a[i] != b[i] {
            return false;
        }
        i += 1;
    }
    assert(a@ =~= b@);
    true
}

impl Ssl {
    /// An authority with the given root and no leaf certificate yet.
    pub fn new(root: Certificate) -> (ca: Self)
        ensures
            ca@ == (SslView { root: root@, cache: Map::empty() }),
    {
        Self { root, entries: Vec::new() }
    }

    /// The root certificate in its encoded form, as it is installed where
    /// clients are to trust this authority.
    pub fn root_certificate(&self) -> (cert: &Vec<u8>)
        ensures
            cert@ == self@.root.cert,
    {
        &self.root.cert
    }

    /// The root with its private key, for signing a leaf certificate.
    pub fn root(&self) -> (root: &Certificate)
        ensures
            root@ == self@.root,
    {
        &self.root
    }

    fn find_entry(&self, key: &Vec<char>) -> (at: Option<usize>)
        ensures
            match at {
                Some(i) => i < self.entries.len() && self@.cache.contains_key(key@)
                    && self@.cache[key@] == self.entries[i as int].leaf@,
                None => !self@.cache.contains_key(key@),
            },
    {
        let mut i: usize = 0;
        while i < self.entries.len()
            invariant
                i <= self.entries.len(),
                forall|j: int| 0 <= j < i ==> self.entries[j].host@ != key@,
            decreases self.entries.len() - i,
        {
            if same_key(&self.entries[i].host, key) {
                proof {
                    lemma_first_match(self.entries@, key@, i as int);
                }
                return Some(i);
            }
            i += 1;
        }
        proof {
            lemma_absent(self.entries@, key@);
        }
        None
    }

    /// Looks for the certificate of a host. The host name counts without
    /// its port and without regard to case. Nothing is signed here and the
    /// cache stays as it is.
    pub fn issue_for_host(&self, hostname: &str) -> (found: Issue)
        ensures
            match found {
                Issue::Cached(leaf) => self@.lookup(hostname@) == Some(leaf@),
                Issue::Sign => self@.lookup(hostname@) is None,
            },
    {
        let key = host_key(hostname);
        match self.find_entry(&key) {
            Some(i) => Issue::Cached(self.entries[i].leaf.clone()),
            None => Issue::Sign,
        }
    }

    /// Takes in the outcome of signing a leaf certificate for a host.
    /// A certificate enters the cache only if the host has none: the one
    /// that came first stays, and it is the one returned. A failure leaves
    /// the cache as it is and is handed back.
    pub fn signed(&mut self, hostname: &str, outcome: Result<Certificate, String>) -> (leaf:
        Result<Certificate, String>)
        ensures
            match outcome {
                Ok(new) => {
                    &&& final(self)@ == old(self)@.take_in(hostname@, new@)
                    &&& leaf matches Ok(kept) && Some(kept@) == final(self)@.lookup(hostname@)
                },
                Err(reason) => final(self)@ == old(self)@ && leaf == Err::<Certificate, String>(
                    reason,
                ),
            },
    {
        match outcome {
            Ok(new) => {
                let key = host_key(hostname);
                match self.find_entry(&key) {
                    Some(i) => Ok(self.entries[i].leaf.clone()),
                    None => {
                        let kept = new.clone();
                        let ghost before = self.entries@;
                        self.entries.push(Entry { host: key, leaf: new });
                        assert(self.entries@.drop_last() =~= before);
                        Ok(kept)
                    },
                }
            },
            Err(reason) => Err(reason),
        }
    }
}

/// Issuing twice gives the same material: once a certificate signed for
/// a host is taken in, the host is served from the cache, and what the
/// cache gives is what taking it in returned, whatever is signed for the
/// host afterwards.
pub proof fn second_issue_is_cached(
    ca: SslView,
    hostname: Seq<char>,
    first: CertificateView,
    later: CertificateView,
)
    ensures
        ca.take_in(hostname, first).lookup(hostname) is Some,
        ca.take_in(hostname, first).take_in(hostname, later).lookup(hostname) == ca.take_in(
            hostname,
            first,
        ).lookup(hostname),
{
}

/// No host ever has two leaf certificates: where two certificates are
/// signed for one host, by two connections that both found the cache
/// empty, both connections are given the one that was taken in first.
pub proof fn one_leaf_per_host(
    ca: SslView,
    hostname: Seq<char>,
    again: Seq<char>,
    first: CertificateView,
    second: CertificateView,
)
    requires
        key_of(hostname) == key_of(again),
    ensures
        ca.take_in(hostname, first).take_in(again, second).lookup(again) == ca.take_in(
            hostname,
            first,
        ).lookup(hostname),
        ca.lookup(hostname) is None ==> ca.take_in(hostname, first).lookup(hostname) == Some(first),
{
}

/// The root stays what it is: nothing that is taken in touches it.
pub proof fn root_is_stable(ca: SslView, hostname: Seq<char>, leaf: CertificateView)
    ensures
        ca.take_in(hostname, leaf).root == ca.root,
{
}

/// A cached certificate never changes: whatever is taken in, for any
/// host, a host that had a certificate keeps it.
pub proof fn entries_are_immutable(
    ca: SslView,
    hostname: Seq<char>,
    other: Seq<char>,
    leaf: CertificateView,
)
    requires
        ca.lookup(hostname) is Some,
    ensures
        ca.take_in(other, leaf).lookup(hostname) == ca.lookup(hostname),
{
}

} // verus!
