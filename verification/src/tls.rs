//! Trust on first use: the certificate fingerprints of known servers.

use vstd::prelude::*;

use crate::digest;
use crate::digest::{hex_encode, sha256_digest};
use crate::table::{Key, Table};
use crate::text::{join2, owned, str_eq};

verus! {

/// The fingerprint of a certificate.
pub open spec fn fingerprint(der: Seq<u8>) -> Seq<char> {
    "sha256:"@ + digest::hex_text(digest::sha256(der))
}

/// The fingerprint of a DER-encoded certificate: the prefix `sha256:` and the
/// 64 hexadecimal digits of its digest.
pub fn cert_fingerprint(der: &[u8]) -> (s: String)
    ensures
        s@ == fingerprint(der@),
        s@.len() == 7 + 64,
{
    let digest = sha256_digest(der);
    let hex = hex_encode(digest.as_slice());
    proof {
        reveal_strlit("sha256:");
    }
    join2("sha256:", hex.as_str())
}

/// What came of looking at a certificate.
#[derive(Debug, Clone)]
pub enum TofuResult {
    /// The server was not known; its fingerprint is now trusted.
    TrustedNew(String),
    /// The fingerprint is the known one.
    TrustedKnown,
    /// The fingerprint has changed; the new one is now trusted.
    Mismatch { expected: String, actual: String },
}

/// What a [`TofuResult`] says.
#[verifier::ext_equal]
pub enum TofuResultView {
    TrustedNew(Seq<char>),
    TrustedKnown,
    Mismatch { expected: Seq<char>, actual: Seq<char> },
}

impl View for TofuResult {
    type V = TofuResultView;

    open spec fn view(&self) -> TofuResultView {
        match *self {
            TofuResult::TrustedNew(s) => TofuResultView::TrustedNew(s@),
            TofuResult::TrustedKnown => TofuResultView::TrustedKnown,
            TofuResult::Mismatch { expected, actual } => TofuResultView::Mismatch {
                expected: expected@,
                actual: actual@,
            },
        }
    }
}

/// What an optional result says.
pub open spec fn opt_result(o: Option<TofuResult>) -> Option<TofuResultView> {
    match o {
        Some(r) => Some(r@),
        None => None,
    }
}

/// The fingerprints of known servers.
pub struct TofuState {
    trusted: Table<String, String>,
    current_server: String,
    last_result: Option<TofuResult>,
}

/// What a [`TofuState`] holds.
#[verifier::ext_equal]
pub struct TofuView {
    /// The trusted fingerprint of each known server.
    pub trusted: Map<Seq<char>, Seq<char>>,
    /// The server that is being connected to.
    pub current_server: Seq<char>,
    /// What came of the last certificate.
    pub last_result: Option<TofuResultView>,
}

impl View for TofuState {
    type V = TofuView;

    closed spec fn view(&self) -> TofuView {
        TofuView {
            trusted: self.trusted@,
            current_server: self.current_server@,
            last_result: opt_result(self.last_result),
        }
    }
}

impl TofuView {
    /// What a certificate with the fingerprint `fp` leads to.
    pub open spec fn judged(self, fp: Seq<char>) -> TofuResultView {
        if !self.trusted.dom().contains(self.current_server) {
            TofuResultView::TrustedNew(fp)
        } else if self.trusted[self.current_server] == fp {
            TofuResultView::TrustedKnown
        } else {
            TofuResultView::Mismatch { expected: self.trusted[self.current_server], actual: fp }
        }
    }

    /// A certificate with the fingerprint `fp` was presented.
    pub open spec fn presented(self, fp: Seq<char>) -> TofuView {
        TofuView {
            trusted: self.trusted.insert(self.current_server, fp),
            last_result: Some(self.judged(fp)),
            ..self
        }
    }
}

impl TofuState {
    /// The given servers are known.
    pub fn new(trusted: Table<String, String>) -> (t: Self)
        ensures
            t@.trusted == trusted@,
            t@.current_server.len() == 0,
            t@.last_result is None,
    {
        TofuState { trusted, current_server: String::new(), last_result: None }
    }

    /// Notes the server that is about to be connected to.
    pub fn set_current_server(&mut self, addr: &str)
        ensures
            final(self)@ == (TofuView {
                current_server: addr@,
                last_result: None,
                ..old(self)@
            }),
    {
        self.current_server = owned(addr);
        self.last_result = None;
    }

    /// What came of the last certificate.
    pub fn last_result(&self) -> (r: Option<TofuResult>)
        ensures
            opt_result(r) == self@.last_result,
    {
        match &self.last_result {
            None => None,
            Some(TofuResult::TrustedNew(s)) => Some(TofuResult::TrustedNew(s.clone())),
            Some(TofuResult::TrustedKnown) => Some(TofuResult::TrustedKnown),
            Some(TofuResult::Mismatch { expected, actual }) => Some(
                TofuResult::Mismatch { expected: expected.clone(), actual: actual.clone() },
            ),
        }
    }

    /// The known servers and their fingerprints.
    pub fn trusted_map(&self) -> (m: Table<String, String>)
        ensures
            m@ == self@.trusted,
    {
        self.trusted.duplicate()
    }

    /// Trusts a fingerprint of a server.
    pub fn trust_server(&mut self, addr: &str, fingerprint: &str)
        ensures
            final(self)@ == (TofuView {
                trusted: old(self)@.trusted.insert(addr@, fingerprint@),
                ..old(self)@
            }),
    {
        self.trusted.insert(owned(addr), owned(fingerprint));
    }

    /// Forgets a server.
    pub fn remove_server(&mut self, addr: &str)
        ensures
            final(self)@ == (TofuView {
                trusted: old(self)@.trusted.remove(addr@),
                ..old(self)@
            }),
    {
        let _removed = self.trusted.remove(&owned(addr));
    }

    /// Looks at the certificate of the current server. It is always trusted;
    /// the result tells whether it is new, known or changed.
    pub fn verify_cert(&mut self, der: &[u8])
        ensures
            final(self)@ == old(self)@.presented(fingerprint(der@)),
    {
        let actual = cert_fingerprint(der);
        let result = match self.trusted.get(&self.current_server) {
            None => TofuResult::TrustedNew(actual.clone()),
            Some(known) => if str_eq(known.as_str(), actual.as_str()) {
                TofuResult::TrustedKnown
            } else {
                TofuResult::Mismatch { expected: known.clone(), actual: actual.clone() }
            },
        };
        self.trusted.insert(self.current_server.clone(), actual);
        self.last_result = Some(result);
        assert(self@ =~= old(self)@.presented(fingerprint(der@)));
    }
}

/// A certificate that was presented once is known the next time, and looking
/// at it again changes nothing that is trusted.
pub proof fn law_second_use_is_known(t: TofuView, fp: Seq<char>)
    ensures
        t.presented(fp).judged(fp) == TofuResultView::TrustedKnown,
        t.presented(fp).presented(fp).trusted == t.presented(fp).trusted,
{
    assert(t.presented(fp).presented(fp).trusted =~= t.presented(fp).trusted);
}

/// A server that was never seen is trusted as new; one whose certificate has
/// changed is reported with both fingerprints. Whatever was presented is
/// trusted from then on.
pub proof fn law_changes_are_reported(t: TofuView, fp: Seq<char>)
    ensures
        !t.trusted.dom().contains(t.current_server) ==> t.presented(fp).last_result == Some(
            TofuResultView::TrustedNew(fp),
        ),
        t.trusted.dom().contains(t.current_server) && t.trusted[t.current_server] != fp
            ==> t.presented(fp).last_result == Some(
            TofuResultView::Mismatch { expected: t.trusted[t.current_server], actual: fp },
        ),
        t.trusted.dom().contains(t.current_server) && t.trusted[t.current_server] == fp
            ==> t.presented(fp).last_result == Some(TofuResultView::TrustedKnown),
        t.presented(fp).trusted.dom().contains(t.current_server),
        t.presented(fp).trusted[t.current_server] == fp,
        t.presented(fp).current_server == t.current_server,
{
}

/// Two certificates have the same fingerprint only if they have the same
/// digest.
pub proof fn law_fingerprint_tells_digests_apart(a: Seq<u8>, b: Seq<u8>)
    requires
        fingerprint(a) == fingerprint(b),
    ensures
        digest::sha256(a) == digest::sha256(b),
{
    let p = "sha256:"@;
    let x = digest::hex_text(digest::sha256(a));
    let y = digest::hex_text(digest::sha256(b));
    assert(x =~= (p + x).subrange(p.len() as int, (p + x).len() as int));
    assert(y =~= (p + y).subrange(p.len() as int, (p + y).len() as int));
    digest::law_hex_round_trip(digest::sha256(a));
    digest::law_hex_round_trip(digest::sha256(b));
}

/// A forgotten server is as good as never seen.
pub proof fn law_forgotten_is_new(t: TofuView, fp: Seq<char>)
    ensures
        ({
            let cleared = TofuView { trusted: t.trusted.remove(t.current_server), ..t };
            cleared.judged(fp) == TofuResultView::TrustedNew(fp)
        }),
{
}

/// Looking at the certificate of one server leaves the others alone.
pub proof fn law_servers_independent(t: TofuView, fp: Seq<char>, other: Seq<char>)
    requires
        other != t.current_server,
    ensures
        t.presented(fp).trusted.dom().contains(other) == t.trusted.dom().contains(other),
        t.trusted.dom().contains(other) ==> t.presented(fp).trusted[other] == t.trusted[other],
{
}

} // verus!
