//! The names by which a caller chooses a network, a signing scheme or a
//! digest.

use crate::primitives::Network;
use vstd::prelude::*;
use vstd::string::*;

verus! {

/// The number of a letter without regard to case: capital ASCII letters
/// count as their small forms.
pub open spec fn folded(c: char) -> u32 {
    if 'A' <= c <= 'Z' {
        (c as u32 + 32) as u32
    } else {
        c as u32
    }
}

/// The two texts are the same but for the case of ASCII letters.
pub open spec fn same_ignoring_case(a: Seq<char>, b: Seq<char>) -> bool {
    &&& a.len() == b.len()
    &&& forall|i: int| 0 <= i < a.len() ==> folded(#[trigger] a[i]) == folded(b[i])
}

fn fold(c: char) -> (r: u32)
    ensures
        r == folded(c),
{
    let n: u32 = c as u32;
    if 65 <= n && n <= 90 {
        n + 32
    } else {
        n
    }
}

/// Tells whether a text is a given name.
pub fn is_name(text: &str, name: &str) -> (r: bool)
    ensures
        r == (text@ == name@),
{
    let n = name.unicode_len();
    if text.unicode_len() != n {
        return false;
    }
    let mut k: usize = 0;
    while k < n
        invariant
            n == name@.len(),
            n == text@.len(),
            k <= n,
            forall|i: int| 0 <= i < k ==> text@[i] == name@[i],
        decreases n - k,
    {
        if text.get_char(k) != name.get_char(k) {
            return false;
        }
        k = k + 1;
    }
    assert(text@ =~= name@);
    true
}

/// Tells whether a text is a given name but for the case of its letters.
pub fn is_name_ignoring_case(text: &str, name: &str) -> (r: bool)
    ensures
        r == same_ignoring_case(text@, name@),
{
    let n = name.unicode_len();
    if text.unicode_len() != n {
        return false;
    }
    let mut k: usize = 0;
    while k < n
        invariant
            n == name@.len(),
            n == text@.len(),
            k <= n,
            forall|i: int| 0 <= i < k ==> folded(#[trigger] text@[i]) == folded(name@[i]),
        decreases n - k,
    {
        if fold(text.get_char(k)) != fold(name.get_char(k)) {
            return false;
        }
        k = k + 1;
    }
    true
}

/// The network of a name.  The names are `bitcoin`, `testnet`, `testnet4`,
/// `signet` and `regtest`, in small letters.
pub open spec fn network_of(name: Seq<char>) -> Option<Network> {
    if name == "bitcoin"@ {
        Some(Network::Bitcoin)
    } else if name == "testnet"@ {
        Some(Network::Testnet)
    } else if name == "testnet4"@ {
        Some(Network::Testnet4)
    } else if name == "signet"@ {
        Some(Network::Signet)
    } else if name == "regtest"@ {
        Some(Network::Regtest)
    } else {
        None
    }
}

impl Network {
    /// Gives the network of a name.
    pub fn from_name(name: &str) -> (r: Option<Network>)
        ensures
            r == network_of(name@),
    {
        if is_name(name, "bitcoin") {
            Some(Network::Bitcoin)
        } else if is_name(name, "testnet") {
            Some(Network::Testnet)
        } else if is_name(name, "testnet4") {
            Some(Network::Testnet4)
        } else if is_name(name, "signet") {
            Some(Network::Signet)
        } else if is_name(name, "regtest") {
            Some(Network::Regtest)
        } else {
            None
        }
    }
}

/// A signing scheme.
#[derive(Debug, Clone, Copy, PartialEq, Eq, Structural)]
pub enum SigningType {
    /// The legacy scheme, for outputs that are no witness programs.
    Legacy,
    /// The witness scheme for pay to witness key hash.
    P2wpkh,
    /// The witness scheme for pay to witness script hash.
    P2wsh,
}

/// The signing scheme of a name.  The names are `Legacy`, `P2wpkh` and
/// `P2wsh`, in letters of either case.
pub open spec fn signing_type_of(name: Seq<char>) -> Option<SigningType> {
    if same_ignoring_case(name, "Legacy"@) {
        Some(SigningType::Legacy)
    } else if same_ignoring_case(name, "P2wpkh"@) {
        Some(SigningType::P2wpkh)
    } else if same_ignoring_case(name, "P2wsh"@) {
        Some(SigningType::P2wsh)
    } else {
        None
    }
}

impl SigningType {
    /// Gives the signing scheme of a name.
    pub fn from_name(name: &str) -> (r: Option<SigningType>)
        ensures
            r == signing_type_of(name@),
    {
        if is_name_ignoring_case(name, "Legacy") {
            Some(SigningType::Legacy)
        } else if is_name_ignoring_case(name, "P2wpkh") {
            Some(SigningType::P2wpkh)
        } else if is_name_ignoring_case(name, "P2wsh") {
            Some(SigningType::P2wsh)
        } else {
            None
        }
    }
}

/// A digest.
#[derive(Debug, Clone, Copy, PartialEq, Eq, Structural)]
pub enum DigestType {
    Ripemd160,
    Sha256,
    Sha256d,
    Hash160,
    Sha1,
}

/// The digest of a name.  The names are `Ripemd160`, `Sha256`, `Sha256d`,
/// `Hash160` and `Sha1`, in letters of either case.
pub open spec fn digest_type_of(name: Seq<char>) -> Option<DigestType> {
    if same_ignoring_case(name, "Ripemd160"@) {
        Some(DigestType::Ripemd160)
    } else if same_ignoring_case(name, "Sha256"@) {
        Some(DigestType::Sha256)
    } else if same_ignoring_case(name, "Sha256d"@) {
        Some(DigestType::Sha256d)
    } else if same_ignoring_case(name, "Hash160"@) {
        Some(DigestType::Hash160)
    } else if same_ignoring_case(name, "Sha1"@) {
        Some(DigestType::Sha1)
    } else {
        None
    }
}

impl DigestType {
    /// Gives the digest of a name.
    pub fn from_name(name: &str) -> (r: Option<DigestType>)
        ensures
            r == digest_type_of(name@),
    {
        if is_name_ignoring_case(name, "Ripemd160") {
            Some(DigestType::Ripemd160)
        } else if is_name_ignoring_case(name, "Sha256") {
            Some(DigestType::Sha256)
        } else if is_name_ignoring_case(name, "Sha256d") {
            Some(DigestType::Sha256d)
        } else if is_name_ignoring_case(name, "Hash160") {
            Some(DigestType::Hash160)
        } else if is_name_ignoring_case(name, "Sha1") {
            Some(DigestType::Sha1)
        } else {
            None
        }
    }
}

} // verus!
