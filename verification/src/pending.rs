//! The calls that were forwarded to the server and await their response,
//! keyed by request id.
use crate::json::{JsonModel, JsonValue};
use crate::jsonrpc::opt_json;
use std::time::Instant;
use vstd::prelude::*;

verus! {

/// A forwarded `tools/call` that awaits its response.
#[derive(Debug)]
pub struct PendingCall {
    pub tool_name: String,
    pub arguments: Option<JsonValue>,
    /// When the call was forwarded.
    pub started_at: Instant,
}

/// The model of a pending call.
pub struct PendingCallView {
    pub tool_name: Seq<char>,
    pub arguments: Option<JsonModel>,
    pub started_at: Instant,
}

impl View for PendingCall {
    type V = PendingCallView;

    open spec fn view(&self) -> PendingCallView {
        PendingCallView {
            tool_name: self.tool_name@,
            arguments: opt_json(self.arguments),
            started_at: self.started_at,
        }
    }
}

/// The table of pending calls: at most one call per key.
pub struct PendingCalls {
    entries: Vec<(String, PendingCall)>,
}

/// Entry `i` has key `k`.
pub open spec fn has_key(es: Seq<(String, PendingCall)>, k: Seq<char>, i: int) -> bool {
    0 <= i < es.len() && es[i].0@ == k
}

/// No key occurs twice.
pub open spec fn keys_distinct(es: Seq<(String, PendingCall)>) -> bool {
    forall|i: int, j: int|
        0 <= i < es.len() && 0 <= j < es.len() && i != j ==> es[i].0@ != es[j].0@
}

/// The map that a list of entries stands for.
pub open spec fn map_of(es: Seq<(String, PendingCall)>) -> Map<Seq<char>, PendingCallView> {
    Map::new(
        |k: Seq<char>| exists|i: int| has_key(es, k, i),
        |k: Seq<char>| es[choose|i: int| has_key(es, k, i)].1@,
    )
}

/// In a list without repeated keys, the map holds each entry's call under its key.
proof fn lemma_map_of_at(es: Seq<(String, PendingCall)>, i: int)
    requires
        keys_distinct(es),
        0 <= i < es.len(),
    ensures
        map_of(es).dom().contains(es[i].0@),
        map_of(es)[es[i].0@] == es[i].1@,
{
    let k = es[i].0@;
    assert(has_key(es, k, i));
    let j = choose|j: int| has_key(es, k, j);
    assert(j == i);
}

/// A call kept under a key is what taking that key out gives back, and
/// taking it out leaves the other calls as they were before it was kept.
pub proof fn lemma_keep_then_take(
    pending: Map<Seq<char>, PendingCallView>,
    key: Seq<char>,
    call: PendingCallView,
)
    ensures
        pending.insert(key, call).dom().contains(key),
        pending.insert(key, call)[key] == call,
        pending.insert(key, call).remove(key) == pending.remove(key),
{
    assert(pending.insert(key, call).remove(key) =~= pending.remove(key));
}

impl View for PendingCalls {
    type V = Map<Seq<char>, PendingCallView>;

    /// The pending calls by key.
    closed spec fn view(&self) -> Map<Seq<char>, PendingCallView> {
        map_of(self.entries@)
    }
}

impl PendingCalls {
    #[verifier::type_invariant]
    spec fn distinct(self) -> bool {
        keys_distinct(self.entries@)
    }

    /// An empty table.
    pub fn new() -> (r: PendingCalls)
        ensures
            r@ == Map::<Seq<char>, PendingCallView>::empty(),
    {
        let r = PendingCalls { entries: Vec::new() };
        assert(r@ =~= Map::<Seq<char>, PendingCallView>::empty());
        r
    }

    /// The number of pending calls.
    pub fn len(&self) -> (r: usize)
        ensures
            r == self@.len(),
    {
        proof {
            use_type_invariant(self);
            self.lemma_len();
        }
        self.entries.len()
    }

    proof fn lemma_len(self)
        requires
            keys_distinct(self.entries@),
        ensures
            self@.len() == self.entries@.len(),
            self@.dom().finite(),
    {
        let es = self.entries@;
        let keys = Seq::new(es.len(), |i: int| es[i].0@);
        assert forall|i: int, j: int| 0 <= i < keys.len() && 0 <= j < keys.len() && i != j implies keys[i] != keys[j] by {}
        keys.unique_seq_to_set();
        assert(self@.dom() =~= keys.to_set()) by {
            assert forall|k: Seq<char>| self@.dom().contains(k) implies keys.to_set().contains(k) by {
                let i = choose|i: int| has_key(es, k, i);
                assert(keys[i] == k);
            }
            assert forall|k: Seq<char>| keys.to_set().contains(k) implies self@.dom().contains(k) by {
                let i = choose|i: int| 0 <= i < keys.len() && keys[i] == k;
                assert(has_key(es, k, i));
            }
        }
    }

    /// The index of the entry with key `key`, if any.
    fn find(&self, key: &String) -> (r: Option<usize>)
        ensures
            match r {
                Some(i) => has_key(self.entries@, key@, i as int),
                None => forall|i: int| 0 <= i < self.entries@.len() ==> self.entries@[i].0@ != key@,
            },
    {
        let mut i: usize = 0;
        while i < self.entries.len()
            invariant
                i <= self.entries@.len(),
                forall|j: int| 0 <= j < i ==> self.entries@[j].0@ != key@,
            decreases self.entries@.len() - i,
        {
            if self.entries[i].0 == *key {
                return Some(i);
            }
            i = i + 1;
        }
        None
    }

    /// Tracks `call` under `key`, replacing any call kept under it.
    pub fn insert(&mut self, key: String, call: PendingCall)
        ensures
            final(self)@ == old(self)@.insert(key@, call@),
    {
        proof {
            use_type_invariant(&*self);
        }
        let ghost old_es = self.entries@;
        let ghost k = key@;
        let ghost c = call@;
        match self.find(&key) {
            Some(i) => {
                let mut entries: Vec<(String, PendingCall)> = Vec::new();
                std::mem::swap(&mut entries, &mut self.entries);
                entries.set(i, (key, call));
                let ghost es = entries@;
                assert(es == old_es.update(i as int, es[i as int]));
                assert(keys_distinct(es)) by {
                    assert forall|a: int, b: int|
                        0 <= a < es.len() && 0 <= b < es.len() && a != b implies es[a].0@ != es[b].0@ by {
                        if a == i as int {
                            assert(old_es[b].0@ != old_es[a].0@);
                        } else if b == i as int {
                            assert(old_es[b].0@ != old_es[a].0@);
                        } else {
                            assert(old_es[a].0@ != old_es[b].0@);
                        }
                    }
                }
                proof {
                    assert(map_of(es) =~= map_of(old_es).insert(k, c)) by {
                        lemma_map_of_at(es, i as int);
                        assert forall|kk: Seq<char>| #![auto] kk != k implies (map_of(es).dom().contains(kk)
                            <==> map_of(old_es).dom().contains(kk)) by {
                            if map_of(es).dom().contains(kk) {
                                let j = choose|j: int| has_key(es, kk, j);
                                assert(has_key(old_es, kk, j));
                            }
                            if map_of(old_es).dom().contains(kk) {
                                let j = choose|j: int| has_key(old_es, kk, j);
                                assert(has_key(es, kk, j));
                            }
                        }
                        assert forall|kk: Seq<char>| #![auto] kk != k && map_of(es).dom().contains(kk) implies map_of(es)[kk]
                            == map_of(old_es)[kk] by {
                            let j = choose|j: int| has_key(es, kk, j);
                            lemma_map_of_at(es, j);
                            lemma_map_of_at(old_es, j);
                        }
                    }
                }
                self.entries = entries;
            },
            None => {
                let mut entries: Vec<(String, PendingCall)> = Vec::new();
                std::mem::swap(&mut entries, &mut self.entries);
                entries.push((key, call));
                let ghost es = entries@;
                let ghost n = old_es.len() as int;
                assert(keys_distinct(es)) by {
                    assert forall|a: int, b: int|
                        0 <= a < es.len() && 0 <= b < es.len() && a != b implies es[a].0@ != es[b].0@ by {
                        if a == n {
                            assert(old_es[b].0@ != k);
                        } else if b == n {
                            assert(old_es[a].0@ != k);
                        } else {
                            assert(old_es[a].0@ != old_es[b].0@);
                        }
                    }
                }
                proof {
                    assert(map_of(es) =~= map_of(old_es).insert(k, c)) by {
                        lemma_map_of_at(es, n);
                        assert forall|kk: Seq<char>| #![auto] kk != k implies (map_of(es).dom().contains(kk)
                            <==> map_of(old_es).dom().contains(kk)) by {
                            if map_of(es).dom().contains(kk) {
                                let j = choose|j: int| has_key(es, kk, j);
                                assert(has_key(old_es, kk, j));
                            }
                            if map_of(old_es).dom().contains(kk) {
                                let j = choose|j: int| has_key(old_es, kk, j);
                                assert(has_key(es, kk, j));
                            }
                        }
                        assert forall|kk: Seq<char>| #![auto] kk != k && map_of(es).dom().contains(kk) implies map_of(es)[kk]
                            == map_of(old_es)[kk] by {
                            let j = choose|j: int| has_key(es, kk, j);
                            lemma_map_of_at(es, j);
                            lemma_map_of_at(old_es, j);
                        }
                    }
                }
                self.entries = entries;
            },
        }
    }

    /// The call kept under `key`, if any.
    pub fn get(&self, key: &String) -> (r: Option<&PendingCall>)
        ensures
            match r {
                Some(c) => self@.dom().contains(key@) && self@[key@] == c@,
                None => !self@.dom().contains(key@),
            },
    {
        proof {
            use_type_invariant(self);
        }
        match self.find(key) {
            Some(i) => {
                proof {
                    lemma_map_of_at(self.entries@, i as int);
                }
                Some(&self.entries[i].1)
            },
            None => None,
        }
    }

    /// Takes every call out of the table: the entries given back, keys
    /// distinct, stand for the table as it was.
    pub fn take_all(&mut self) -> (r: Vec<(String, PendingCall)>)
        ensures
            final(self)@ == Map::<Seq<char>, PendingCallView>::empty(),
            keys_distinct(r@),
            map_of(r@) == old(self)@,
    {
        proof {
            use_type_invariant(&*self);
        }
        let mut entries: Vec<(String, PendingCall)> = Vec::new();
        std::mem::swap(&mut entries, &mut self.entries);
        assert(self@ =~= Map::<Seq<char>, PendingCallView>::empty());
        entries
    }

    /// Takes the call kept under `key` out of the table.
    pub fn remove(&mut self, key: &String) -> (r: Option<PendingCall>)
        ensures
            final(self)@ == old(self)@.remove(key@),
            match r {
                Some(c) => old(self)@.dom().contains(key@) && old(self)@[key@] == c@,
                None => !old(self)@.dom().contains(key@),
            },
    {
        proof {
            use_type_invariant(&*self);
        }
        let ghost old_es = self.entries@;
        let ghost k = key@;
        match self.find(key) {
            Some(i) => {
                proof {
                    lemma_map_of_at(old_es, i as int);
                }
                let mut entries: Vec<(String, PendingCall)> = Vec::new();
                std::mem::swap(&mut entries, &mut self.entries);
                let (_, call) = entries.remove(i);
                let ghost es = entries@;
                let ghost ii = i as int;
                assert(forall|j: int| 0 <= j < es.len() ==> #[trigger] es[j] == old_es[if j < ii { j } else { j + 1 }]);
                assert(keys_distinct(es)) by {
                    assert forall|a: int, b: int|
                        0 <= a < es.len() && 0 <= b < es.len() && a != b implies es[a].0@ != es[b].0@ by {
                        let a2 = if a < ii { a } else { a + 1 };
                        let b2 = if b < ii { b } else { b + 1 };
                        assert(es[a] == old_es[a2]);
                        assert(es[b] == old_es[b2]);
                    }
                }
                proof {
                    let m1 = map_of(es);
                    let m2 = map_of(old_es).remove(k);
                    assert forall|kk: Seq<char>| #[trigger] m1.dom().contains(kk) implies m2.dom().contains(kk)
                        && m1[kk] == m2[kk] by {
                        let j = choose|j: int| has_key(es, kk, j);
                        let j2 = if j < ii { j } else { j + 1 };
                        assert(es[j] == old_es[j2]);
                        assert(j2 != ii);
                        lemma_map_of_at(es, j);
                        lemma_map_of_at(old_es, j2);
                    }
                    assert forall|kk: Seq<char>| #[trigger] m2.dom().contains(kk) implies m1.dom().contains(kk) by {
                        let j = choose|j: int| has_key(old_es, kk, j);
                        assert(j != ii);
                        let j2 = if j < ii { j } else { j - 1 };
                        assert(es[j2] == old_es[j]);
                        assert(has_key(es, kk, j2));
                    }
                    assert(m1 =~= m2);
                }
                self.entries = entries;
                Some(call)
            },
            None => {
                assert(map_of(old_es).remove(k) =~= map_of(old_es));
                None
            },
        }
    }
}

} // verus!
