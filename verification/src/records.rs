//! The structured records that a scan produces: an entry with a name and an
//! attribute map, and the map itself — string keys to string values, with
//! last-write-wins insertion and no duplicate keys.

use vstd::prelude::*;

verus! {

/// Appends one character to a string.
///
/// Relies on `String::push`, which appends the given `char` to the end of
/// the `String`.
#[verifier::external_body]
pub(crate) fn push_char(s: &mut String, c: char)
    ensures
        final(s)@ == old(s)@.push(c),
{
    s.push(c);
}

/// The mathematical content of a sequence of key/value pairs, read left to
/// right: a later pair with the same key overwrites an earlier one.
pub open spec fn pairs_map(s: Seq<(String, String)>) -> Map<Seq<char>, Seq<char>>
    decreases s.len(),
{
    if s.len() == 0 {
        Map::empty()
    } else {
        pairs_map(s.drop_last()).insert(s.last().0@, s.last().1@)
    }
}

/// Whether no two pairs of the sequence share a key.
pub open spec fn distinct_keys(s: Seq<(String, String)>) -> bool {
    forall|i: int, j: int| 0 <= i < j < s.len() ==> s[i].0@ != s[j].0@
}

/// An attribute map: string keys to string values. Its view is a
/// `Map<Seq<char>, Seq<char>>`, and insertion is last-write-wins.
#[derive(Debug)]
pub struct AttrMap {
    pairs: Vec<(String, String)>,
}

impl View for AttrMap {
    type V = Map<Seq<char>, Seq<char>>;

    closed spec fn view(&self) -> Map<Seq<char>, Seq<char>> {
        pairs_map(self.pairs@)
    }
}

impl AttrMap {
    /// Validity of the representation: it holds each key at most once.
    pub closed spec fn wf(self) -> bool {
        distinct_keys(self.pairs@)
    }

    /// Creates an empty attribute map.
    pub fn new() -> (m: AttrMap)
        ensures
            m.wf(),
            m@ == Map::<Seq<char>, Seq<char>>::empty(),
    {
        AttrMap { pairs: Vec::new() }
    }

    /// Inserts a key/value pair, overwriting any value the key already had:
    /// the later write wins.
    pub fn insert(&mut self, key: String, value: String)
        requires
            old(self).wf(),
        ensures
            final(self).wf(),
            final(self)@ == old(self)@.insert(key@, value@),
    {
        let n = self.pairs.len();
        let mut i: usize = 0;
        while i < n
            invariant
                n == self.pairs.len(),
                i <= n,
                *self == *old(self),
                distinct_keys(self.pairs@),
                forall|j: int| 0 <= j < i ==> self.pairs@[j].0@ != key@,
            decreases n - i,
        {
            if self.pairs[i].0 == key {
                proof {
                    lemma_pairs_map_update(self.pairs@, i as int, (key, value));
                }
                self.pairs[i] = (key, value);
                return;
            }
            i += 1;
        }
        proof {
            assert(pairs_map(self.pairs@.push((key, value))) == pairs_map(self.pairs@).insert(
                key@,
                value@,
            )) by {
                assert(self.pairs@.push((key, value)).drop_last() == self.pairs@);
            }
        }
        self.pairs.push((key, value));
    }

    /// Looks a key up, returning its value if the key is present.
    pub fn get(&self, key: &String) -> (r: Option<&String>)
        requires
            self.wf(),
        ensures
            match r {
                Some(v) => self@.contains_key(key@) && self@[key@] == v@,
                None => !self@.contains_key(key@),
            },
    {
        let n = self.pairs.len();
        let mut i: usize = 0;
        while i < n
            invariant
                n == self.pairs.len(),
                i <= n,
                distinct_keys(self.pairs@),
                forall|j: int| 0 <= j < i ==> self.pairs@[j].0@ != key@,
            decreases n - i,
        {
            if self.pairs[i].0 == *key {
                proof {
                    lemma_pairs_map_found(self.pairs@, i as int);
                }
                return Some(&self.pairs[i].1);
            }
            i += 1;
        }
        proof {
            lemma_pairs_map_absent(self.pairs@, key@);
        }
        None
    }

    /// The number of attributes the map holds.
    pub fn len(&self) -> (n: usize)
        requires
            self.wf(),
        ensures
            self@.dom().finite(),
            n as nat == self@.dom().len(),
    {
        proof {
            lemma_pairs_map_len(self.pairs@);
        }
        self.pairs.len()
    }
}

/// Updating the one pair that holds `kv`'s key rewrites that key's value in
/// the map and keeps the keys distinct.
proof fn lemma_pairs_map_update(s: Seq<(String, String)>, i: int, kv: (String, String))
    requires
        0 <= i < s.len(),
        distinct_keys(s),
        s[i].0@ == kv.0@,
    ensures
        pairs_map(s.update(i, kv)) == pairs_map(s).insert(kv.0@, kv.1@),
        distinct_keys(s.update(i, kv)),
    decreases s.len(),
{
    let t = s.update(i, kv);
    if i == s.len() - 1 {
        assert(t.drop_last() == s.drop_last());
        assert(pairs_map(t) == pairs_map(s.drop_last()).insert(kv.0@, kv.1@));
        assert(pairs_map(s).insert(kv.0@, kv.1@) == pairs_map(s.drop_last()).insert(
            s[i].0@,
            s[i].1@,
        ).insert(kv.0@, kv.1@));
        assert(pairs_map(s.drop_last()).insert(s[i].0@, s[i].1@).insert(kv.0@, kv.1@)
            =~= pairs_map(s.drop_last()).insert(kv.0@, kv.1@));
    } else {
        assert(t.drop_last() == s.drop_last().update(i, kv));
        lemma_pairs_map_update(s.drop_last(), i, kv);
        assert(pairs_map(t) == pairs_map(s.drop_last()).insert(kv.0@, kv.1@).insert(
            s.last().0@,
            s.last().1@,
        ));
        assert(s.last().0@ != kv.0@);
        assert(pairs_map(s.drop_last()).insert(kv.0@, kv.1@).insert(s.last().0@, s.last().1@)
            =~= pairs_map(s.drop_last()).insert(s.last().0@, s.last().1@).insert(kv.0@, kv.1@));
    }
    assert forall|p: int, q: int| 0 <= p < q < t.len() implies t[p].0@ != t[q].0@ by {
        if p != i && q != i {
            assert(s[p].0@ != s[q].0@);
        }
    }
}

/// With distinct keys, the pair found in the sequence is the one the map
/// holds.
proof fn lemma_pairs_map_found(s: Seq<(String, String)>, i: int)
    requires
        0 <= i < s.len(),
        distinct_keys(s),
    ensures
        pairs_map(s).contains_key(s[i].0@),
        pairs_map(s)[s[i].0@] == s[i].1@,
    decreases s.len(),
{
    if i == s.len() - 1 {
    } else {
        lemma_pairs_map_found(s.drop_last(), i);
        assert(s.last().0@ != s[i].0@);
    }
}

/// A key that no pair holds is not in the map.
proof fn lemma_pairs_map_absent(s: Seq<(String, String)>, k: Seq<char>)
    requires
        forall|j: int| 0 <= j < s.len() ==> s[j].0@ != k,
    ensures
        !pairs_map(s).contains_key(k),
    decreases s.len(),
{
    if s.len() > 0 {
        lemma_pairs_map_absent(s.drop_last(), k);
    }
}

/// With distinct keys, the map holds exactly as many keys as the sequence
/// holds pairs.
proof fn lemma_pairs_map_len(s: Seq<(String, String)>)
    requires
        distinct_keys(s),
    ensures
        pairs_map(s).dom().finite(),
        pairs_map(s).dom().len() == s.len(),
    decreases s.len(),
{
    if s.len() > 0 {
        lemma_pairs_map_len(s.drop_last());
        lemma_pairs_map_absent(s.drop_last(), s.last().0@);
        assert(pairs_map(s).dom() =~= pairs_map(s.drop_last()).dom().insert(s.last().0@));
    }
}

/// The mathematical model of an entry: its name and its attributes.
#[verifier::ext_equal]
pub struct EntryModel {
    pub name: Seq<char>,
    pub attrs: Map<Seq<char>, Seq<char>>,
}

/// A named entry together with the attributes declared beneath or beside it.
#[derive(Debug)]
pub struct Entry {
    pub name: String,
    pub attributes: AttrMap,
}

impl View for Entry {
    type V = EntryModel;

    open spec fn view(&self) -> EntryModel {
        EntryModel { name: self.name@, attrs: self.attributes@ }
    }
}

} // verus!
