use vstd::prelude::*;

use crate::assoc::{
    distinct_keys, lemma_distinct_push, lemma_map_of_pairs_dom, lemma_map_of_pairs_index,
    lemma_map_of_pairs_len, map_of_pairs,
};
use crate::error::Error;
use nostr::error::Error as NostrError;
use crate::text::{
    char_is_whitespace, chars_of, trim_end, trim_start, lemma_split_on_nonempty, split_on, string_of, trim, trim_bounds, trim_end_char,
};

verus! {

/// The error that nostr's parsers report.
#[verifier::external_type_specification]
#[verifier::external_body]
pub struct ExNostrError(NostrError);

/// The URL serialization of the relay URL that nostr's `RelayUrl::parse`
/// makes of `s`, or `None` where it refuses `s`. Two relay URLs are the same
/// relay exactly when their serializations are equal.
pub uninterp spec fn relay_url_parse(s: Seq<char>) -> Option<Seq<char>>;

/// How `RelayUrl::as_str` shows a relay parsed from `input` whose URL
/// serialization is `url`: the serialization itself when the input ended in
/// `/`, else the serialization without its trailing slashes.
pub open spec fn relay_text(url: Seq<char>, input: Seq<char>) -> Seq<char> {
    if input.len() > 0 && input.last() == '/' {
        url
    } else {
        trim_end_char(url, '/')
    }
}

/// A relay URL: the serialization that identifies it, and the text it is
/// shown as.
pub struct Relay {
    key: String,
    text: String,
}

impl View for Relay {
    type V = (Seq<char>, Seq<char>);

    closed spec fn view(&self) -> (Seq<char>, Seq<char>) {
        (self.key@, self.text@)
    }
}

/// `s` holds the scheme separator `://` twice, the occurrences apart.
pub open spec fn has_two_scheme_separators(s: Seq<char>) -> bool {
    exists|i: int, j: int|
        0 <= i && i + 3 <= j && j + 3 <= s.len() && #[trigger] s.subrange(i, i + 3) == "://"@
            && #[trigger] s.subrange(j, j + 3) == "://"@
}

/// Calls nostr's `RelayUrl::parse` and keeps of the parsed URL its URL
/// serialization and its `as_str` text. The contract claims that the call
/// succeeds exactly where the name `relay_url_parse` gives a serialization,
/// that the kept key is that serialization, and that the text relates to it
/// as `RelayUrl::as_str` shows in the crate's source (the trailing slash
/// kept only where the input had one); and, as the source shows, that a text
/// with two scheme separators is refused. Which texts the URL parser accepts
/// otherwise, and how it normalizes them, is left to the name.
#[verifier::external_body]
fn parse_relay_url(s: &str) -> (r: Result<Relay, NostrError>)
    ensures
        has_two_scheme_separators(s@) ==> r is Err,
        r is Ok <==> relay_url_parse(s@) is Some,
        r matches Ok(relay) ==> relay@.0 == relay_url_parse(s@)->0 && relay@.1 == relay_text(
            relay_url_parse(s@)->0,
            s@,
        ),
{
    match nostr::types::url::RelayUrl::parse(s) {
        Ok(url) => {
            let serialized: &nostr::types::url::Url = (&url).into();
            Ok(Relay { key: serialized.as_str().to_string(), text: url.as_str().to_string() })
        },
        Err(e) => Err(e),
    }
}

impl Relay {
    /// Parses a relay URL.
    pub fn parse(s: &str) -> (r: Result<Relay, NostrError>)
        ensures
            has_two_scheme_separators(s@) ==> r is Err,
            r is Ok <==> relay_url_parse(s@) is Some,
            r matches Ok(relay) ==> relay@.0 == relay_url_parse(s@)->0 && relay@.1 == relay_text(
                relay_url_parse(s@)->0,
                s@,
            ),
    {
        parse_relay_url(s)
    }

    /// The text the relay URL is shown as.
    pub fn as_str(&self) -> (r: &str)
        ensures
            r@ == self@.1,
    {
        self.text.as_str()
    }

    /// Whether two relay URLs name the same relay.
    pub fn same_relay(&self, other: &Relay) -> (r: bool)
        ensures
            r == (self@.0 == other@.0),
    {
        self.key == other.key
    }
}

impl Clone for Relay {
    fn clone(&self) -> (r: Self)
        ensures
            r@ == self@,
    {
        Relay { key: self.key.clone(), text: self.text.clone() }
    }
}

/// A set of relays, each relay held once with the text it was first given.
pub struct RelaySet {
    relays: Vec<Relay>,
}

impl RelaySet {
    /// The relays as key/text pairs, in the order they were added.
    pub closed spec fn pairs(&self) -> Seq<(Seq<char>, Seq<char>)> {
        self.relays@.map_values(|r: Relay| r@)
    }

    /// No relay is held twice.
    #[verifier::type_invariant]
    closed spec fn wf(&self) -> bool {
        distinct_keys(self.pairs())
    }
}

impl View for RelaySet {
    type V = Map<Seq<char>, Seq<char>>;

    /// Each relay's key mapped to the text it is shown as.
    closed spec fn view(&self) -> Map<Seq<char>, Seq<char>> {
        map_of_pairs(self.pairs())
    }
}

impl RelaySet {
    /// The empty set.
    pub fn new() -> (r: Self)
        ensures
            r@ == Map::<Seq<char>, Seq<char>>::empty(),
            r.pairs() == Seq::<(Seq<char>, Seq<char>)>::empty(),
    {
        let r = RelaySet { relays: Vec::new() };
        assert(r.pairs() =~= Seq::empty());
        r
    }

    /// The number of relays.
    pub fn len(&self) -> (r: usize)
        ensures
            r == self@.len(),
            self@.dom().finite(),
    {
        proof {
            use_type_invariant(self);
            lemma_map_of_pairs_len(self.pairs());
            lemma_map_of_pairs_dom(self.pairs());
        }
        self.relays.len()
    }

    /// Whether the set holds no relay.
    pub fn is_empty(&self) -> (r: bool)
        ensures
            r == (self@.len() == 0),
    {
        self.len() == 0
    }

    /// The position of the relay of `relay` in the set, if the set holds it.
    fn find(&self, relay: &Relay) -> (r: Option<usize>)
        ensures
            r is None <==> !self@.dom().contains(relay@.0),
            r matches Some(i) ==> i < self.relays@.len() && self.relays@[i as int]@.0 == relay@.0
                && self@[relay@.0] == self.relays@[i as int]@.1,
    {
        proof {
            use_type_invariant(self);
        }
        let mut i: usize = 0;
        while i < self.relays.len()
            invariant
                i <= self.relays.len(),
                distinct_keys(self.pairs()),
                forall|j: int| 0 <= j < i ==> #[trigger] self.pairs()[j].0 != relay@.0,
            decreases self.relays.len() - i,
        {
            assert(self.pairs()[i as int] == self.relays@[i as int]@);
            if self.relays[i].same_relay(relay) {
                proof {
                    lemma_map_of_pairs_index(self.pairs(), i as int);
                }
                return Some(i);
            }
            i = i + 1;
        }
        proof {
            lemma_map_of_pairs_dom(self.pairs());
            if self@.dom().contains(relay@.0) {
                let j = choose|j: int|
                    0 <= j < self.pairs().len() && self.pairs()[j].0 == relay@.0;
                assert(self.pairs()[j].0 != relay@.0);
            }
        }
        None
    }

    /// Whether the set holds the relay of `relay`.
    pub fn contains(&self, relay: &Relay) -> (r: bool)
        ensures
            r == self@.dom().contains(relay@.0),
    {
        self.find(relay).is_some()
    }

    /// Whether two sets hold the same relays, shown alike.
    pub fn same_relays(&self, other: &RelaySet) -> (r: bool)
        ensures
            r == (self@ == other@),
    {
        if self.len() != other.len() {
            return false;
        }
        let mine = self.relays();
        let mut i: usize = 0;
        while i < mine.len()
            invariant
                i <= mine@.len(),
                mine@.len() == self@.len(),
                forall|j: int|
                    0 <= j < i ==> #[trigger] other@.dom().contains(mine@[j]@.0) && other@[mine@[j]@.0]
                        == mine@[j]@.1,
                forall|j: int|
                    0 <= j < mine@.len() ==> #[trigger] self@.dom().contains(mine@[j]@.0)
                        && self@[mine@[j]@.0] == mine@[j]@.1,
            decreases mine.len() - i,
        {
            match other.find(&mine[i]) {
                None => {
                    return false;
                },
                Some(k) => {
                    if other.relays[k].text != mine[i].text {
                        return false;
                    }
                    assert(other@.dom().contains(mine@[i as int]@.0));
                    assert(other@[mine@[i as int]@.0] == mine@[i as int]@.1);
                },
            }
            assert forall|j: int| 0 <= j < i + 1 implies #[trigger] other@.dom().contains(
                mine@[j]@.0,
            ) && other@[mine@[j]@.0] == mine@[j]@.1 by {
                if j < i {
                } else {
                    assert(j == i);
                }
            }
            i = i + 1;
        }
        proof {
            use_type_invariant(self);
            use_type_invariant(other);
            lemma_map_of_pairs_dom(self.pairs());
            lemma_map_of_pairs_dom(other.pairs());
            assert(self@.dom().subset_of(other@.dom())) by {
                assert forall|key: Seq<char>| #[trigger] self@.dom().contains(key) implies other@.dom().contains(
                    key,
                ) by {
                    let j = choose|j: int| 0 <= j < mine@.len() && mine@[j]@.0 == key;
                    assert(other@.dom().contains(mine@[j]@.0));
                }
            }
            vstd::set_lib::lemma_subset_equality(self@.dom(), other@.dom());
            assert forall|key: Seq<char>| #[trigger] self@.dom().contains(key) implies self@[key]
                == other@[key] by {
                let j = choose|j: int| 0 <= j < mine@.len() && mine@[j]@.0 == key;
                assert(other@.dom().contains(mine@[j]@.0));
            }
            assert(self@ =~= other@);
        }
        true
    }

    /// Adds a relay unless the set already holds it; answers whether it was
    /// added.
    pub fn insert(&mut self, relay: Relay) -> (added: bool)
        ensures
            added == !old(self)@.dom().contains(relay@.0),
            final(self)@ == (if added {
                old(self)@.insert(relay@.0, relay@.1)
            } else {
                old(self)@
            }),
            final(self).pairs() == (if added {
                old(self).pairs().push(relay@)
            } else {
                old(self).pairs()
            }),
    {
        if self.contains(&relay) {
            return false;
        }
        proof {
            use_type_invariant(&*self);
            lemma_map_of_pairs_dom(self.pairs());
            assert forall|i: int| 0 <= i < self.pairs().len() implies #[trigger] self.pairs()[i].0
                != relay@.0 by {
                if self.pairs()[i].0 == relay@.0 {
                    assert(self@.dom().contains(relay@.0));
                }
            }
            lemma_distinct_push(self.pairs(), relay@);
        }
        let ghost old_pairs = self.pairs();
        let ghost v = relay@;
        let mut relays = Vec::new();
        std::mem::swap(&mut relays, &mut self.relays);
        relays.push(relay);
        assert(relays@.map_values(|r: Relay| r@) =~= old_pairs.push(v));
        self.relays = relays;
        true
    }

    /// The relays, in the order they were added.
    pub fn relays(&self) -> (r: &[Relay])
        ensures
            r@.map_values(|x: Relay| x@) == self.pairs(),
            r@.len() == self@.len(),
            forall|i: int|
                0 <= i < r@.len() ==> #[trigger] self@.dom().contains(r@[i]@.0) && self@[r@[i]@.0]
                    == r@[i]@.1,
            forall|k: Seq<char>|
                #[trigger] self@.dom().contains(k) ==> exists|i: int|
                    0 <= i < r@.len() && r@[i]@.0 == k,
    {
        proof {
            use_type_invariant(self);
            lemma_map_of_pairs_len(self.pairs());
            lemma_map_of_pairs_dom(self.pairs());
            assert forall|i: int| 0 <= i < self.relays@.len() implies #[trigger] self@.dom().contains(
                self.relays@[i]@.0,
            ) && self@[self.relays@[i]@.0] == self.relays@[i]@.1 by {
                assert(self.pairs()[i] == self.relays@[i]@);
                lemma_map_of_pairs_index(self.pairs(), i);
            }
            assert forall|k: Seq<char>| #[trigger] self@.dom().contains(k) implies exists|i: int|
                0 <= i < self.relays@.len() && self.relays@[i]@.0 == k by {
                let i = choose|i: int| 0 <= i < self.pairs().len() && self.pairs()[i].0 == k;
                assert(self.pairs()[i] == self.relays@[i]@);
            }
        }
        self.relays.as_slice()
    }
}


/// Every piece trimmed.
pub open spec fn trim_all(pieces: Seq<Seq<char>>) -> Seq<Seq<char>> {
    pieces.map_values(|t: Seq<char>| trim(t))
}

/// One entry of a relay list added to the relays read so far: an empty
/// entry is skipped, one that does not parse is the error, a relay already
/// held is kept with its first text.
pub open spec fn relay_step(acc: Map<Seq<char>, Seq<char>>, entry: Seq<char>) -> Result<
    Map<Seq<char>, Seq<char>>,
    Seq<char>,
> {
    if entry.len() == 0 {
        Ok(acc)
    } else {
        match relay_url_parse(entry) {
            None => Err(entry),
            Some(key) => Ok(
                if acc.dom().contains(key) {
                    acc
                } else {
                    acc.insert(key, relay_text(key, entry))
                },
            ),
        }
    }
}

/// The relays of a list of entries, read from first to last; the error is
/// the first entry that does not parse.
pub open spec fn relay_entries(entries: Seq<Seq<char>>) -> Result<
    Map<Seq<char>, Seq<char>>,
    Seq<char>,
>
    decreases entries.len(),
{
    if entries.len() == 0 {
        Ok(Map::empty())
    } else {
        match relay_entries(entries.drop_last()) {
            Err(e) => Err(e),
            Ok(acc) => relay_step(acc, entries.last()),
        }
    }
}

/// The relays of a comma separated list: its pieces, trimmed, read as
/// entries.
pub open spec fn relay_list(s: Seq<char>) -> Result<Map<Seq<char>, Seq<char>>, Seq<char>> {
    relay_entries(trim_all(split_on(s, ',')))
}

/// `r` is what `expected` describes: the same relays, or the error naming
/// the same entry.
pub open spec fn relay_result_is(
    r: Result<RelaySet, Error>,
    expected: Result<Map<Seq<char>, Seq<char>>, Seq<char>>,
) -> bool {
    match expected {
        Ok(m) => r matches Ok(set) && set@ == m,
        Err(entry) => r matches Err(Error::InvalidRelayUrl(t, _)) && t@ == entry,
    }
}

/// Adds the entry `start..end` of `chars`, trimmed, to `set`.
fn absorb_entry(set: &mut RelaySet, chars: &Vec<char>, start: usize, end: usize) -> (r: Result<
    (),
    Error,
>)
    requires
        start <= end <= chars.len(),
    ensures
        match relay_step(old(set)@, trim(chars@.subrange(start as int, end as int))) {
            Ok(m) => r is Ok && final(set)@ == m,
            Err(entry) => r matches Err(Error::InvalidRelayUrl(t, _)) && t@ == entry,
        },
{
    let (a, b) = trim_bounds(chars, start, end);
    if a == b {
        return Ok(());
    }
    let entry = string_of(chars, a, b);
    match parse_relay_url(entry.as_str()) {
        Ok(relay) => {
            set.insert(relay);
            Ok(())
        },
        Err(e) => Err(Error::InvalidRelayUrl(entry, e)),
    }
}

/// Reads a comma separated list of relay URLs: each piece is trimmed, empty
/// pieces are skipped, and the first piece that is not a relay URL is the
/// error.
pub fn parse_relay_list(value: &str) -> (r: Result<RelaySet, Error>)
    ensures
        relay_result_is(r, relay_list(value@)),
{
    let chars = chars_of(value);
    let mut set = RelaySet::new();
    let mut start: usize = 0;
    let mut i: usize = 0;
    let ghost mut done: Seq<Seq<char>> = Seq::empty();
    assert(chars@.take(0) =~= Seq::<char>::empty());
    assert(done.push(chars@.subrange(0, 0)) =~= seq![Seq::<char>::empty()]);
    assert(trim_all(done) =~= Seq::<Seq<char>>::empty());
    while i < chars.len()
        invariant
            start <= i <= chars.len(),
            chars@ == value@,
            split_on(chars@.take(i as int), ',') == done.push(
                chars@.subrange(start as int, i as int),
            ),
            relay_entries(trim_all(done)) == Ok::<Map<Seq<char>, Seq<char>>, Seq<char>>(set@),
        decreases chars.len() - i,
    {
        let ghost piece = chars@.subrange(start as int, i as int);
        assert(chars@.take(i + 1).drop_last() =~= chars@.take(i as int));
        if chars[i] == ',' {
            let ghost before = set@;
            match absorb_entry(&mut set, &chars, start, i) {
                Ok(()) => {},
                Err(e) => {
                    proof {
                        let d = done.push(piece);
                        assert(trim_all(d).drop_last() =~= trim_all(done));
                        assert(chars@.take(i + 1).last() == ',');
                        assert(split_on(chars@.take(i + 1), ',').drop_last() =~= d);
                        lemma_split_on_prefix(value@, i + 1);
                        lemma_relay_entries_error_prefix(
                            trim_all(d),
                            trim_all(split_on(value@, ',')),
                        );
                    }
                    return Err(e);
                },
            }
            proof {
                let d = done.push(piece);
                assert(trim_all(d).drop_last() =~= trim_all(done));
                done = d;
            }
            start = i + 1;
            assert(chars@.subrange(start as int, i + 1) =~= Seq::<char>::empty());
        } else {
            assert(piece.push(chars@[i as int]) =~= chars@.subrange(start as int, i + 1));
        }
        i = i + 1;
    }
    assert(chars@.take(i as int) =~= value@);
    let ghost piece = chars@.subrange(start as int, i as int);
    let ghost d = done.push(piece);
    assert(trim_all(d).drop_last() =~= trim_all(done));
    match absorb_entry(&mut set, &chars, start, i) {
        Ok(()) => Ok(set),
        Err(e) => Err(e),
    }
}


/// The pieces of a prefix of `s`, but for the last one, are the first
/// pieces of `s`.
proof fn lemma_split_on_prefix(s: Seq<char>, j: int)
    requires
        0 <= j <= s.len(),
    ensures
        split_on(s.take(j), ',').len() <= split_on(s, ',').len(),
        forall|k: int|
            0 <= k < split_on(s.take(j), ',').len() - 1 ==> split_on(s.take(j), ',')[k]
                == #[trigger] split_on(s, ',')[k],
    decreases s.len(),
{
    lemma_split_on_nonempty(s, ',');
    if j == s.len() {
        assert(s.take(j) =~= s);
    } else {
        let p = s.drop_last();
        assert(p.take(j) =~= s.take(j));
        lemma_split_on_prefix(p, j);
        lemma_split_on_nonempty(p, ',');
    }
}

/// Once the first entries of a list hold an invalid relay, the whole list
/// fails on that entry.
proof fn lemma_relay_entries_error_prefix(p: Seq<Seq<char>>, full: Seq<Seq<char>>)
    requires
        p.len() <= full.len(),
        forall|k: int| 0 <= k < p.len() ==> p[k] == #[trigger] full[k],
        relay_entries(p) is Err,
    ensures
        relay_entries(full) == relay_entries(p),
    decreases full.len(),
{
    if full.len() == p.len() {
        assert(p =~= full);
    } else {
        let q = full.drop_last();
        assert forall|k: int| 0 <= k < p.len() implies p[k] == #[trigger] q[k] by {
            assert(p[k] == full[k]);
        }
        lemma_relay_entries_error_prefix(p, q);
    }
}


/// The first relay of the default discovery list.
pub const DEFAULT_RELAY_PURPLEPAGES: &'static str = "wss://purplepag.es";

/// The second relay of the default discovery list.
pub const DEFAULT_RELAY_DAMUS: &'static str = "wss://relay.damus.io";

/// The third relay of the default discovery list.
pub const DEFAULT_RELAY_PRIMAL: &'static str = "wss://relay.primal.net";

/// `acc` with the relay of `entry` added where `entry` is a relay URL that
/// `acc` does not hold yet.
pub open spec fn add_if_relay(acc: Map<Seq<char>, Seq<char>>, entry: Seq<char>) -> Map<
    Seq<char>,
    Seq<char>,
> {
    match relay_url_parse(entry) {
        None => acc,
        Some(key) => if acc.dom().contains(key) {
            acc
        } else {
            acc.insert(key, relay_text(key, entry))
        },
    }
}

/// The default discovery relays.
pub open spec fn default_relays() -> Map<Seq<char>, Seq<char>> {
    add_if_relay(
        add_if_relay(add_if_relay(Map::empty(), DEFAULT_RELAY_PURPLEPAGES@), DEFAULT_RELAY_DAMUS@),
        DEFAULT_RELAY_PRIMAL@,
    )
}

fn add_default(set: &mut RelaySet, entry: &str)
    ensures
        final(set)@ == add_if_relay(old(set)@, entry@),
{
    match parse_relay_url(entry) {
        Ok(relay) => {
            set.insert(relay);
        },
        Err(_) => {},
    }
}

/// The discovery relays used when none are configured: purplepag.es,
/// relay.damus.io and relay.primal.net. Each is a well-formed relay URL; one
/// that the parser refused would be left out.
pub fn default_discovery_relays() -> (r: RelaySet)
    ensures
        r@ == default_relays(),
{
    let mut set = RelaySet::new();
    add_default(&mut set, DEFAULT_RELAY_PURPLEPAGES);
    add_default(&mut set, DEFAULT_RELAY_DAMUS);
    add_default(&mut set, DEFAULT_RELAY_PRIMAL);
    set
}


/// A piece made only of whitespace trims to nothing.
proof fn lemma_trim_blank(s: Seq<char>)
    requires
        forall|i: int| 0 <= i < s.len() ==> char_is_whitespace(#[trigger] s[i]),
    ensures
        trim(s) == Seq::<char>::empty(),
    decreases s.len(),
{
    if s.len() == 0 {
        assert(trim_start(s) == s);
        assert(trim_end(s) == s);
    } else {
        let t = s.drop_first();
        assert forall|i: int| 0 <= i < t.len() implies char_is_whitespace(#[trigger] t[i]) by {
            assert(t[i] == s[i + 1]);
        }
        lemma_trim_blank(t);
        assert(char_is_whitespace(s[0]));
        assert(trim_start(s) == trim_start(t));
    }
}

/// A string of whitespace and commas splits into pieces of whitespace.
proof fn lemma_split_blank(s: Seq<char>)
    requires
        forall|i: int| 0 <= i < s.len() ==> #[trigger] s[i] == ',' || char_is_whitespace(s[i]),
    ensures
        forall|k: int, i: int|
            0 <= k < split_on(s, ',').len() && 0 <= i < split_on(s, ',')[k].len()
                ==> char_is_whitespace(#[trigger] split_on(s, ',')[k][i]),
    decreases s.len(),
{
    if s.len() > 0 {
        let p = s.drop_last();
        assert forall|i: int| 0 <= i < p.len() implies #[trigger] p[i] == ',' || char_is_whitespace(
            p[i],
        ) by {
            assert(p[i] == s[i]);
        }
        lemma_split_blank(p);
        lemma_split_on_nonempty(p, ',');
        let prev = split_on(p, ',');
        if s.last() != ',' {
            assert(char_is_whitespace(s[s.len() - 1]));
            let q = prev.last().push(s.last());
            assert forall|i: int| 0 <= i < q.len() implies char_is_whitespace(#[trigger] q[i]) by {
                if i < prev.last().len() {
                    assert(q[i] == prev[prev.len() - 1][i]);
                }
            }
        }
    }
}

/// Entries that are all empty give no relay.
proof fn lemma_entries_all_empty(entries: Seq<Seq<char>>)
    requires
        forall|k: int| 0 <= k < entries.len() ==> #[trigger] entries[k] == Seq::<char>::empty(),
    ensures
        relay_entries(entries) == Ok::<Map<Seq<char>, Seq<char>>, Seq<char>>(Map::empty()),
    decreases entries.len(),
{
    if entries.len() > 0 {
        let p = entries.drop_last();
        assert forall|k: int| 0 <= k < p.len() implies #[trigger] p[k] == Seq::<char>::empty() by {
            assert(p[k] == entries[k]);
        }
        lemma_entries_all_empty(p);
        assert(entries[entries.len() - 1] == Seq::<char>::empty());
    }
}

/// A relay list made of whitespace and commas only, the empty list among
/// them, names no relay and is no error.
pub proof fn law_blank_relay_list(s: Seq<char>)
    requires
        forall|i: int| 0 <= i < s.len() ==> #[trigger] s[i] == ',' || char_is_whitespace(s[i]),
    ensures
        relay_list(s) == Ok::<Map<Seq<char>, Seq<char>>, Seq<char>>(Map::empty()),
{
    lemma_split_blank(s);
    let pieces = split_on(s, ',');
    let entries = trim_all(pieces);
    assert forall|k: int| 0 <= k < entries.len() implies #[trigger] entries[k]
        == Seq::<char>::empty() by {
        assert forall|i: int| 0 <= i < pieces[k].len() implies char_is_whitespace(
            #[trigger] pieces[k][i],
        ) by {}
        lemma_trim_blank(pieces[k]);
    }
    lemma_entries_all_empty(entries);
}

/// A separator at the end of a relay list changes nothing: the empty piece
/// after it is skipped.
pub proof fn law_trailing_separator(s: Seq<char>)
    ensures
        relay_list(s.push(',')) == relay_list(s),
{
    let t = s.push(',');
    assert(t.drop_last() =~= s);
    let pieces = split_on(s, ',');
    assert(split_on(t, ',') == pieces.push(Seq::<char>::empty()));
    let e = Seq::<char>::empty();
    assert(trim_start(e) == e);
    assert(trim_end(e) == e);
    assert(trim_all(pieces.push(e)) =~= trim_all(pieces).push(e));
    assert(trim_all(pieces.push(e)).drop_last() =~= trim_all(pieces));
}

/// Every relay that a list of entries gives is an entry of the list that
/// parses to it, shown as that entry shows it.
proof fn lemma_relays_from_entries(entries: Seq<Seq<char>>)
    requires
        relay_entries(entries) is Ok,
    ensures
        forall|key: Seq<char>|
            #[trigger] relay_entries(entries)->Ok_0.dom().contains(key) ==> exists|k: int|
                0 <= k < entries.len() && relay_url_parse(entries[k]) == Some(key)
                    && relay_entries(entries)->Ok_0[key] == relay_text(key, entries[k]),
    decreases entries.len(),
{
    if entries.len() > 0 {
        let p = entries.drop_last();
        lemma_relays_from_entries(p);
        let acc = relay_entries(p)->Ok_0;
        let last = entries.last();
        assert forall|key: Seq<char>|
            #[trigger] relay_entries(entries)->Ok_0.dom().contains(key) implies exists|k: int|
            0 <= k < entries.len() && relay_url_parse(entries[k]) == Some(key)
                && relay_entries(entries)->Ok_0[key] == relay_text(key, entries[k]) by {
            if acc.dom().contains(key) && relay_entries(entries)->Ok_0[key] == acc[key] {
                let k = choose|k: int|
                    0 <= k < p.len() && relay_url_parse(p[k]) == Some(key) && acc[key]
                        == relay_text(key, p[k]);
                assert(entries[k] == p[k]);
            } else {
                assert(entries[entries.len() - 1] == last);
            }
        }
    }
}

/// Every relay that a relay list gives comes from one of its pieces,
/// trimmed, that parses to it; its text is how that piece shows it.
pub proof fn law_relays_come_from_pieces(s: Seq<char>)
    requires
        relay_list(s) is Ok,
    ensures
        forall|key: Seq<char>|
            #[trigger] relay_list(s)->Ok_0.dom().contains(key) ==> exists|k: int|
                0 <= k < split_on(s, ',').len() && relay_url_parse(trim(split_on(s, ',')[k]))
                    == Some(key) && relay_list(s)->Ok_0[key] == relay_text(
                    key,
                    trim(split_on(s, ',')[k]),
                ),
{
    let entries = trim_all(split_on(s, ','));
    lemma_relays_from_entries(entries);
    assert forall|key: Seq<char>| #[trigger] relay_list(s)->Ok_0.dom().contains(key) implies exists|
        k: int,
    |
        0 <= k < split_on(s, ',').len() && relay_url_parse(trim(split_on(s, ',')[k])) == Some(key)
            && relay_list(s)->Ok_0[key] == relay_text(key, trim(split_on(s, ',')[k])) by {
        let k = choose|k: int|
            0 <= k < entries.len() && relay_url_parse(entries[k]) == Some(key) && relay_entries(
                entries,
            )->Ok_0[key] == relay_text(key, entries[k]);
        assert(entries[k] == trim(split_on(s, ',')[k]));
    }
}


/// Reading a list of entries keeps every relay read before, and fails only
/// on an entry that is neither empty nor a relay URL.
proof fn lemma_relay_entries_complete(entries: Seq<Seq<char>>)
    ensures
        relay_entries(entries) is Ok <==> forall|k: int|
            0 <= k < entries.len() ==> (#[trigger] entries[k]).len() == 0 || relay_url_parse(
                entries[k],
            ) is Some,
        relay_entries(entries) is Ok ==> forall|k: int|
            0 <= k < entries.len() && (#[trigger] entries[k]).len() > 0 && relay_url_parse(
                entries[k],
            ) is Some ==> relay_entries(entries)->Ok_0.dom().contains(
                relay_url_parse(entries[k])->0,
            ),
    decreases entries.len(),
{
    if entries.len() > 0 {
        let p = entries.drop_last();
        lemma_relay_entries_complete(p);
        let last = entries[entries.len() - 1];
        if relay_entries(p) is Ok {
            let acc = relay_entries(p)->Ok_0;
            if relay_entries(entries) is Ok {
                let m = relay_entries(entries)->Ok_0;
                assert forall|k: int| 0 <= k < entries.len() implies (#[trigger] entries[k]).len()
                    == 0 || relay_url_parse(entries[k]) is Some by {
                    if k < entries.len() - 1 {
                        assert(p[k] == entries[k]);
                    }
                }
                assert forall|k: int|
                    0 <= k < entries.len() && (#[trigger] entries[k]).len() > 0 && relay_url_parse(
                        entries[k],
                    ) is Some implies m.dom().contains(relay_url_parse(entries[k])->0) by {
                    if k < entries.len() - 1 {
                        assert(p[k] == entries[k]);
                    }
                }
            }
            if forall|k: int|
                0 <= k < entries.len() ==> (#[trigger] entries[k]).len() == 0 || relay_url_parse(
                    entries[k],
                ) is Some {
                assert(last.len() == 0 || relay_url_parse(last) is Some);
                assert forall|k: int| 0 <= k < p.len() implies (#[trigger] p[k]).len() == 0
                    || relay_url_parse(p[k]) is Some by {
                    assert(p[k] == entries[k]);
                }
            }
        } else {
            let j = choose|j: int|
                0 <= j < p.len() && !((#[trigger] p[j]).len() == 0 || relay_url_parse(p[j]) is Some);
            assert(entries[j] == p[j]);
        }
    }
}

/// A relay list is read without error exactly when each of its pieces,
/// trimmed, is empty or a relay URL; and then every relay that a non-empty
/// piece names is in the result, none left out.
pub proof fn law_relay_list_complete(s: Seq<char>)
    ensures
        relay_list(s) is Ok <==> forall|k: int|
            0 <= k < split_on(s, ',').len() ==> trim(#[trigger] split_on(s, ',')[k]).len() == 0
                || relay_url_parse(trim(split_on(s, ',')[k])) is Some,
        relay_list(s) is Ok ==> forall|k: int|
            0 <= k < split_on(s, ',').len() && trim(#[trigger] split_on(s, ',')[k]).len() > 0
                && relay_url_parse(trim(split_on(s, ',')[k])) is Some ==> relay_list(
                s,
            )->Ok_0.dom().contains(relay_url_parse(trim(split_on(s, ',')[k]))->0),
{
    let pieces = split_on(s, ',');
    let entries = trim_all(pieces);
    lemma_relay_entries_complete(entries);
    assert forall|k: int| 0 <= k < pieces.len() implies entries[k] == trim(
        #[trigger] pieces[k],
    ) by {}
}

} // verus!
