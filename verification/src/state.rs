use vstd::prelude::*;

use crate::assoc::{
    distinct_keys, lemma_distinct_push, lemma_map_of_pairs_dom, lemma_map_of_pairs_index,
    lemma_map_of_pairs_len, map_of_pairs,
};

verus! {

/// Where the synchronisation of a public key stands.
#[derive(Clone, Copy, Debug, PartialEq, Eq, Structural)]
pub enum SyncStatus {
    Syncing,
    Success,
    Failed,
}

impl Default for SyncStatus {
    fn default() -> (r: Self)
        ensures
            r == SyncStatus::Success,
    {
        SyncStatus::Success
    }
}

impl SyncStatus {
    /// Whether a synchronisation is under way.
    pub fn is_syncing(&self) -> (r: bool)
        ensures
            r == (*self is Syncing),
    {
        match self {
            SyncStatus::Syncing => true,
            _ => false,
        }
    }
}

/// What is known of the synchronisation of one public key.
#[derive(Clone, Copy, Debug, PartialEq, Eq, Structural)]
pub struct PublicKeySyncData {
    pub status: SyncStatus,
    pub last_sync_attempt: u64,
    pub last_success_sync: u64,
}

/// The data of a public key that was never synchronised.
pub open spec fn fresh_sync_data() -> PublicKeySyncData {
    PublicKeySyncData { status: SyncStatus::Success, last_sync_attempt: 0, last_success_sync: 0 }
}

impl Default for PublicKeySyncData {
    fn default() -> (r: Self)
        ensures
            r == fresh_sync_data(),
    {
        PublicKeySyncData {
            status: SyncStatus::default(),
            last_sync_attempt: 0,
            last_success_sync: 0,
        }
    }
}

/// The 32 bytes of the public key that nostr's `PublicKey::parse` reads
/// from `s` (hex, bech32 `npub`/`nprofile`, or a `nostr:` URI), or `None`
/// where it refuses `s`.
pub uninterp spec fn public_key_parse(s: Seq<char>) -> Option<Seq<u8>>;

/// The value of a hexadecimal digit, either case.
pub open spec fn hex_digit(c: char) -> Option<u8> {
    if '0' <= c && c <= '9' {
        Some((c as u32 - '0' as u32) as u8)
    } else if 'a' <= c && c <= 'f' {
        Some((c as u32 - 'a' as u32 + 10) as u8)
    } else if 'A' <= c && c <= 'F' {
        Some((c as u32 - 'A' as u32 + 10) as u8)
    } else {
        None
    }
}

/// `s` is 64 hexadecimal digits.
pub open spec fn is_hex_key(s: Seq<char>) -> bool {
    s.len() == 64 && forall|i: int| 0 <= i < 64 ==> (#[trigger] hex_digit(s[i])) is Some
}

/// The 32 bytes that 64 hexadecimal digits spell, two digits a byte.
pub open spec fn hex_key_bytes(s: Seq<char>) -> Seq<u8> {
    Seq::new(
        32,
        |i: int| (hex_digit(s[2 * i])->0 * 16 + hex_digit(s[2 * i + 1])->0) as u8,
    )
}

/// `s` is ASCII, shorter than 64 characters and does not start with `n`:
/// too short for a hex key, and no bech32 key or `nostr:` URI.
pub open spec fn is_short_hex_candidate(s: Seq<char>) -> bool {
    &&& s.len() < 64
    &&& forall|i: int| 0 <= i < s.len() ==> (#[trigger] s[i] as u32) < 128
    &&& s.len() == 0 || s[0] != 'n'
}

/// Calls nostr's `PublicKey::parse` and keeps the key's bytes. The contract
/// claims that the call succeeds exactly where the name `public_key_parse`
/// gives bytes, and that the bytes kept are those; and, as the crate's
/// source shows (a text not starting with `n` is read as hex, which needs
/// at least 64 digits and takes the first 32 bytes), that 64 hex digits give
/// the bytes they spell and a shorter ASCII text not starting with `n` is
/// refused. What a bech32 text or a `nostr:` URI gives is left to the name.
#[verifier::external_body]
fn parse_public_key(s: &str) -> (r: Option<[u8; 32]>)
    ensures
        r is Some <==> public_key_parse(s@) is Some,
        r matches Some(bytes) ==> bytes@ == public_key_parse(s@)->0,
        is_hex_key(s@) ==> r is Some && r->0@ == hex_key_bytes(s@),
        is_short_hex_candidate(s@) ==> r is None,
{
    match nostr::key::PublicKey::parse(s) {
        Ok(public_key) => Some(public_key.to_bytes()),
        Err(_) => None,
    }
}

/// A nostr public key, by its 32 bytes.
pub struct PublicKey {
    bytes: [u8; 32],
}

impl View for PublicKey {
    type V = Seq<u8>;

    closed spec fn view(&self) -> Seq<u8> {
        self.bytes@
    }
}

impl PublicKey {
    /// Parses a public key given in hex, as bech32 or as a `nostr:` URI.
    pub fn parse(s: &str) -> (r: Option<PublicKey>)
        ensures
            r is Some <==> public_key_parse(s@) is Some,
            r matches Some(key) ==> key@ == public_key_parse(s@)->0,
            is_hex_key(s@) ==> r is Some && r->0@ == hex_key_bytes(s@),
            is_short_hex_candidate(s@) ==> r is None,
    {
        match parse_public_key(s) {
            Some(bytes) => Some(PublicKey { bytes }),
            None => None,
        }
    }

    /// The key's bytes.
    pub fn to_bytes(&self) -> (r: [u8; 32])
        ensures
            r@ == self@,
    {
        self.bytes
    }

    /// Whether two keys are the same key.
    pub fn same_key(&self, other: &PublicKey) -> (r: bool)
        ensures
            r == (self@ == other@),
    {
        let mut i: usize = 0;
        while i < 32
            invariant
                i <= 32,
                forall|j: int| 0 <= j < i ==> self.bytes@[j] == other.bytes@[j],
            decreases 32 - i,
        {
            if self.bytes[i] != other.bytes[i] {
                return false;
            }
            i = i + 1;
        }
        assert(self.bytes@ =~= other.bytes@);
        true
    }
}

impl Clone for PublicKey {
    fn clone(&self) -> (r: Self)
        ensures
            r@ == self@,
    {
        PublicKey { bytes: self.bytes }
    }
}

/// The public keys being synchronised, each with its synchronisation data.
pub struct PubkeyRegistry {
    entries: Vec<(PublicKey, PublicKeySyncData)>,
}

impl PubkeyRegistry {
    /// The entries as key/data pairs, in the order the keys were added.
    pub closed spec fn pairs(&self) -> Seq<(Seq<u8>, PublicKeySyncData)> {
        self.entries@.map_values(|e: (PublicKey, PublicKeySyncData)| (e.0@, e.1))
    }

    /// No key is held twice.
    #[verifier::type_invariant]
    closed spec fn wf(&self) -> bool {
        distinct_keys(self.pairs())
    }
}

impl View for PubkeyRegistry {
    type V = Map<Seq<u8>, PublicKeySyncData>;

    /// Each key mapped to its synchronisation data.
    closed spec fn view(&self) -> Map<Seq<u8>, PublicKeySyncData> {
        map_of_pairs(self.pairs())
    }
}

impl PubkeyRegistry {
    /// The registry without keys.
    pub fn new() -> (r: Self)
        ensures
            r@ == Map::<Seq<u8>, PublicKeySyncData>::empty(),
    {
        let r = PubkeyRegistry { entries: Vec::new() };
        assert(r.pairs() =~= Seq::empty());
        r
    }

    /// The number of keys.
    pub fn len(&self) -> (r: usize)
        ensures
            r == self@.len(),
            self@.dom().finite(),
    {
        proof {
            use_type_invariant(self);
            lemma_map_of_pairs_len(self.pairs());
            lemma_map_of_pairs_dom(self.pairs());
        }
        self.entries.len()
    }

    /// The position of `key` among the entries, if the registry holds it.
    fn find(&self, key: &PublicKey) -> (r: Option<usize>)
        ensures
            r is None <==> !self@.dom().contains(key@),
            r matches Some(i) ==> i < self.entries@.len() && self.entries@[i as int].0@ == key@
                && self@[key@] == self.entries@[i as int].1,
    {
        proof {
            use_type_invariant(self);
        }
        let mut i: usize = 0;
        while i < self.entries.len()
            invariant
                i <= self.entries.len(),
                distinct_keys(self.pairs()),
                forall|j: int| 0 <= j < i ==> #[trigger] self.pairs()[j].0 != key@,
            decreases self.entries.len() - i,
        {
            assert(self.pairs()[i as int] == (self.entries@[i as int].0@, self.entries@[i as int].1));
            if self.entries[i].0.same_key(key) {
                proof {
                    lemma_map_of_pairs_index(self.pairs(), i as int);
                }
                return Some(i);
            }
            i = i + 1;
        }
        proof {
            lemma_map_of_pairs_dom(self.pairs());
            if self@.dom().contains(key@) {
                let j = choose|j: int| 0 <= j < self.pairs().len() && self.pairs()[j].0 == key@;
                assert(self.pairs()[j].0 != key@);
            }
        }
        None
    }

    /// Whether the registry holds `key`.
    pub fn contains(&self, key: &PublicKey) -> (r: bool)
        ensures
            r == self@.dom().contains(key@),
    {
        self.find(key).is_some()
    }

    /// The synchronisation data of `key`, if the registry holds it.
    pub fn get(&self, key: &PublicKey) -> (r: Option<PublicKeySyncData>)
        ensures
            r == (if self@.dom().contains(key@) {
                Some(self@[key@])
            } else {
                None
            }),
    {
        match self.find(key) {
            Some(i) => Some(self.entries[i].1),
            None => None,
        }
    }

    /// Adds `key` with `data` unless the registry already holds it, in which
    /// case nothing changes; answers whether it was added.
    pub fn insert_new(&mut self, key: PublicKey, data: PublicKeySyncData) -> (added: bool)
        ensures
            added == !old(self)@.dom().contains(key@),
            final(self)@ == (if added {
                old(self)@.insert(key@, data)
            } else {
                old(self)@
            }),
    {
        if self.contains(&key) {
            return false;
        }
        proof {
            use_type_invariant(&*self);
            lemma_map_of_pairs_dom(self.pairs());
            assert forall|i: int| 0 <= i < self.pairs().len() implies #[trigger] self.pairs()[i].0
                != key@ by {
                if self.pairs()[i].0 == key@ {
                    assert(self@.dom().contains(key@));
                }
            }
            lemma_distinct_push(self.pairs(), (key@, data));
        }
        let ghost old_pairs = self.pairs();
        let ghost k = key@;
        let mut entries = Vec::new();
        std::mem::swap(&mut entries, &mut self.entries);
        entries.push((key, data));
        assert(entries@.map_values(|e: (PublicKey, PublicKeySyncData)| (e.0@, e.1)) =~= old_pairs.push(
            (k, data),
        ));
        self.entries = entries;
        true
    }
}

} // verus!
