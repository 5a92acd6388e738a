//! Raw observations that collectors keep for `--debug` output.

use vstd::prelude::*;

use crate::text::{chars_lt, chars_less, chars_of};

verus! {

/// The keys of `entries` strictly increase: each key occurs once and the
/// entries come in key order.
pub open spec fn keys_sorted(entries: Seq<(Seq<char>, Seq<char>)>) -> bool {
    forall|i: int, j: int| 0 <= i < j < entries.len() ==> chars_lt(#[trigger] entries[i].0, #[trigger] entries[j].0)
}

/// The value stored under `key`: that of the first entry with the key, if any.
pub open spec fn lookup(entries: Seq<(Seq<char>, Seq<char>)>, key: Seq<char>) -> Option<Seq<char>>
    decreases entries.len(),
{
    if entries.len() == 0 {
        None
    } else if entries[0].0 == key {
        Some(entries[0].1)
    } else {
        lookup(entries.drop_first(), key)
    }
}

/// The keys of `pairs`.
pub open spec fn has_key(pairs: Seq<(Seq<char>, Seq<char>)>, key: Seq<char>) -> bool {
    exists|i: int| 0 <= i < pairs.len() && #[trigger] pairs[i].0 == key
}

/// No key occurs twice in `pairs`.
pub open spec fn distinct_keys(pairs: Seq<(Seq<char>, Seq<char>)>) -> bool {
    forall|i: int, j: int| 0 <= i < j < pairs.len() ==> #[trigger] pairs[i].0 != #[trigger] pairs[j].0
}

/// In key-ordered entries, a key's value is that of its one entry, and a
/// key without an entry has none.
pub proof fn lemma_lookup_sorted(entries: Seq<(Seq<char>, Seq<char>)>, key: Seq<char>)
    requires
        keys_sorted(entries),
    ensures
        forall|i: int| 0 <= i < entries.len() && #[trigger] entries[i].0 == key ==> lookup(entries, key) == Some(entries[i].1),
        (forall|i: int| 0 <= i < entries.len() ==> #[trigger] entries[i].0 != key) ==> lookup(entries, key) is None,
    decreases entries.len(),
{
    if entries.len() > 0 {
        let rest = entries.drop_first();
        assert(keys_sorted(rest)) by {
            assert forall|i: int, j: int| 0 <= i < j < rest.len() implies chars_lt(#[trigger] rest[i].0, #[trigger] rest[j].0) by {
                assert(rest[i] == entries[i + 1] && rest[j] == entries[j + 1]);
            }
        }
        lemma_lookup_sorted(rest, key);
        assert forall|i: int| 0 <= i < entries.len() && #[trigger] entries[i].0 == key implies lookup(entries, key) == Some(
            entries[i].1,
        ) by {
            if i > 0 {
                assert(rest[i - 1] == entries[i]);
                if entries[0].0 == key {
                    assert(chars_lt(entries[0].0, entries[i].0));
                    crate::text::lemma_chars_lt_irreflexive(key);
                }
            }
        }
        if forall|i: int| 0 <= i < entries.len() ==> #[trigger] entries[i].0 != key {
            assert forall|i: int| 0 <= i < rest.len() implies #[trigger] rest[i].0 != key by {
                assert(rest[i] == entries[i + 1]);
            }
        }
    }
}

/// What a debug record says: its target, the collector that produced it,
/// its key/value fields in key order, and an optional note.
pub struct DebugRecordView {
    pub target: Seq<char>,
    pub source: Seq<char>,
    pub fields: Seq<(Seq<char>, Seq<char>)>,
    pub note: Option<Seq<char>>,
}

/// One observation made by a collector, with named fields kept sorted by key.
#[derive(Debug)]
pub struct DebugRecord {
    target: String,
    source: String,
    fields: Vec<(String, String)>,
    note: Option<String>,
}

/// The character sequences of a list of key/value pairs.
pub open spec fn pair_views(v: Seq<(String, String)>) -> Seq<(Seq<char>, Seq<char>)> {
    v.map_values(|e: (String, String)| (e.0@, e.1@))
}

/// The character sequence of an optional string.
pub open spec fn opt_view(v: Option<String>) -> Option<Seq<char>> {
    match v {
        Some(s) => Some(s@),
        None => None,
    }
}

/// Sets `key` to `value` in the key-ordered `fields`: an earlier value of
/// `key` is replaced, every other entry is kept, and the order is kept.
pub fn set_sorted(fields: &mut Vec<(String, String)>, key: &str, value: &str)
    requires
        keys_sorted(pair_views(old(fields)@)),
    ensures
        keys_sorted(pair_views(final(fields)@)),
        forall|e: (Seq<char>, Seq<char>)|
            pair_views(final(fields)@).contains(e) <==> (e == (key@, value@) || (pair_views(old(fields)@).contains(e)
                && e.0 != key@)),
{
    let k = chars_of(key);
    let ghost old_fields = pair_views(fields@);
    let mut i: usize = 0;
    while i < fields.len() && chars_less(&chars_of(fields[i].0.as_str()), &k)
        invariant
            i <= fields.len(),
            pair_views(fields@) == old_fields,
            forall|j: int| 0 <= j < i ==> chars_lt(#[trigger] old_fields[j].0, k@),
        decreases fields.len() - i,
    {
        i += 1;
    }
    let replace = i < fields.len() && crate::text::eq(fields[i].0.as_str(), key);
    let entry = (String::from_str(key), String::from_str(value));
    if replace {
        fields.remove(i);
    }
    fields.insert(i, entry);
    let ghost new_fields = pair_views(fields@);
    proof {
        let kv = (key@, value@);
        if replace {
            assert(new_fields =~= old_fields.update(i as int, kv));
        } else {
            assert(new_fields =~= old_fields.insert(i as int, kv));
            if i < old_fields.len() {
                crate::text::lemma_chars_lt_total(old_fields[i as int].0, k@);
            }
        }
        if !replace && i < old_fields.len() {
            assert(chars_lt(k@, old_fields[i as int].0)) by {
                crate::text::lemma_chars_lt_total(old_fields[i as int].0, k@);
            }
        }
        assert forall|a: int, b: int| 0 <= a < b < new_fields.len() implies chars_lt(
            #[trigger] new_fields[a].0,
            #[trigger] new_fields[b].0,
        ) by {
            if replace {
                assert(old_fields[i as int].0 == k@);
                assert(new_fields[a].0 == old_fields[a].0);
                assert(new_fields[b].0 == old_fields[b].0);
            } else if b < i as int {
                assert(new_fields[a] == old_fields[a]);
                assert(new_fields[b] == old_fields[b]);
            } else if b == i as int {
                assert(new_fields[a] == old_fields[a]);
            } else if a == i as int {
                assert(new_fields[b] == old_fields[b - 1]);
                if b - 1 > i as int {
                    crate::text::lemma_chars_lt_transitive(k@, old_fields[i as int].0, old_fields[b - 1].0);
                }
            } else if a < i as int {
                assert(new_fields[a] == old_fields[a]);
                assert(new_fields[b] == old_fields[b - 1]);
            } else {
                assert(new_fields[a] == old_fields[a - 1]);
                assert(new_fields[b] == old_fields[b - 1]);
            }
        }
        assert forall|e: (Seq<char>, Seq<char>)|
            new_fields.contains(e) <==> (e == kv || (old_fields.contains(e) && e.0 != key@)) by {
            if new_fields.contains(e) {
                let p = choose|p: int| 0 <= p < new_fields.len() && new_fields[p] == e;
                if p != i as int {
                    let q = if !replace && p > i as int { p - 1 } else { p };
                    assert(old_fields[q] == e);
                    if q < i as int {
                        assert(chars_lt(old_fields[q].0, k@));
                        crate::text::lemma_chars_lt_irreflexive(k@);
                    } else if replace {
                        assert(chars_lt(old_fields[i as int].0, old_fields[q].0));
                        crate::text::lemma_chars_lt_irreflexive(k@);
                    } else if i < old_fields.len() {
                        if q > i as int {
                            assert(chars_lt(old_fields[i as int].0, old_fields[q].0));
                            crate::text::lemma_chars_lt_transitive(k@, old_fields[i as int].0, old_fields[q].0);
                        }
                        crate::text::lemma_chars_lt_irreflexive(k@);
                    }
                }
            }
            if e == kv {
                assert(new_fields[i as int] == e);
            } else if old_fields.contains(e) && e.0 != key@ {
                let q = choose|q: int| 0 <= q < old_fields.len() && old_fields[q] == e;
                if q < i as int || (!replace) {
                    let p = if q < i as int { q } else { q + 1 };
                    assert(new_fields[p] == e);
                } else {
                    assert(q != i as int);
                    assert(new_fields[q] == e);
                }
            }
        }
    }
}

impl View for DebugRecord {
    type V = DebugRecordView;

    closed spec fn view(&self) -> DebugRecordView {
        DebugRecordView {
            target: self.target@,
            source: self.source@,
            fields: pair_views(self.fields@),
            note: opt_view(self.note),
        }
    }
}

impl DebugRecord {
    #[verifier::type_invariant]
    spec fn fields_sorted(self) -> bool {
        keys_sorted(pair_views(self.fields@))
    }

    /// A record with no fields and no note.
    pub fn new(target: &str, source: &str) -> (r: Self)
        ensures
            r@.target == target@,
            r@.source == source@,
            r@.fields.len() == 0,
            r@.note is None,
    {
        let r = DebugRecord {
            target: String::from_str(target),
            source: String::from_str(source),
            fields: Vec::new(),
            note: None,
        };
        assert(pair_views(r.fields@) =~= Seq::empty());
        r
    }

    /// The record with `key` set to `value`: an earlier value of `key` is
    /// replaced, every other field is kept, and the fields stay in key order.
    pub fn field(self, key: &str, value: &str) -> (r: Self)
        ensures
            r@.target == self@.target,
            r@.source == self@.source,
            r@.note == self@.note,
            keys_sorted(r@.fields),
            forall|e: (Seq<char>, Seq<char>)|
                r@.fields.contains(e) <==> (e == (key@, value@) || (self@.fields.contains(e) && e.0 != key@)),
            lookup(r@.fields, key@) == Some(value@),
            forall|k: Seq<char>| k != key@ ==> #[trigger] lookup(r@.fields, k) == lookup(self@.fields, k),
    {
        proof {
            use_type_invariant(&self);
        }
        let ghost before = self@.fields;
        let DebugRecord { target, source, fields, note } = self;
        let mut fields = fields;
        set_sorted(&mut fields, key, value);
        proof {
            let after = pair_views(fields@);
            let kv = (key@, value@);
            assert(after.contains(kv));
            let p = choose|p: int| 0 <= p < after.len() && after[p] == kv;
            lemma_lookup_sorted(after, key@);
            assert(after[p].0 == key@);
            assert(lookup(after, key@) == Some(value@));
            assert forall|k: Seq<char>| k != key@ implies #[trigger] lookup(after, k) == lookup(before, k) by {
                lemma_lookup_sorted(after, k);
                lemma_lookup_sorted(before, k);
                if exists|i: int| 0 <= i < before.len() && before[i].0 == k {
                    let i = choose|i: int| 0 <= i < before.len() && before[i].0 == k;
                    assert(before.contains(before[i]));
                    assert(after.contains(before[i]));
                    let j = choose|j: int| 0 <= j < after.len() && after[j] == before[i];
                    assert(after[j].0 == k);
                } else {
                    assert forall|j: int| 0 <= j < after.len() implies #[trigger] after[j].0 != k by {
                        if after[j].0 == k {
                            assert(after.contains(after[j]));
                            assert(before.contains(after[j]));
                            let i = choose|i: int| 0 <= i < before.len() && before[i] == after[j];
                            assert(before[i].0 == k);
                        }
                    }
                }
            }
        }
        DebugRecord { target, source, fields, note }
    }

    /// The record with each of `pairs` set as a field, in turn.
    pub fn with_fields(self, pairs: &Vec<(String, String)>) -> (r: Self)
        requires
            distinct_keys(pair_views(pairs@)),
        ensures
            r@.target == self@.target,
            r@.source == self@.source,
            r@.note == self@.note,
            keys_sorted(r@.fields),
            forall|e: (Seq<char>, Seq<char>)|
                #![trigger r@.fields.contains(e)]
                r@.fields.contains(e) <==> (pair_views(pairs@).contains(e) || (self@.fields.contains(e) && !has_key(
                    pair_views(pairs@),
                    e.0,
                ))),
    {
        proof {
            use_type_invariant(&self);
        }
        let ghost ps = pair_views(pairs@);
        let ghost start = self@;
        let mut r = self;
        let mut i: usize = 0;
        while i < pairs.len()
            invariant
                i <= pairs.len(),
                ps == pair_views(pairs@),
                distinct_keys(ps),
                r@.target == start.target,
                r@.source == start.source,
                r@.note == start.note,
                keys_sorted(r@.fields),
                forall|e: (Seq<char>, Seq<char>)|
                    #![trigger r@.fields.contains(e)]
                    r@.fields.contains(e) <==> (ps.take(i as int).contains(e) || (start.fields.contains(e) && !has_key(
                        ps.take(i as int),
                        e.0,
                    ))),
            decreases pairs.len() - i,
        {
            let ghost before = r@.fields;
            let ghost p = ps[i as int];
            assert(p == (pairs@[i as int].0@, pairs@[i as int].1@));
            r = r.field(pairs[i].0.as_str(), pairs[i].1.as_str());
            let ghost pre = ps.take(i as int);
            let ghost next = ps.take(i + 1);
            assert(next =~= pre.push(p));
            assert forall|e: (Seq<char>, Seq<char>)|
                #![trigger r@.fields.contains(e)]
                r@.fields.contains(e) <==> (next.contains(e) || (start.fields.contains(e) && !has_key(next, e.0))) by {
                if r@.fields.contains(e) {
                    if e != p {
                        assert(before.contains(e) && e.0 != p.0);
                        if !pre.contains(e) {
                            assert(start.fields.contains(e) && !has_key(pre, e.0));
                            if has_key(next, e.0) {
                                let k = choose|k: int| 0 <= k < next.len() && #[trigger] next[k].0 == e.0;
                                if k < i {
                                    assert(pre[k].0 == e.0);
                                }
                            }
                        } else {
                            let k = choose|k: int| 0 <= k < pre.len() && pre[k] == e;
                            assert(next[k] == e);
                        }
                    } else {
                        assert(next[i as int] == e);
                    }
                }
                if next.contains(e) {
                    if e != p {
                        let k = choose|k: int| 0 <= k < next.len() && next[k] == e;
                        assert(k < i);
                        assert(pre[k] == e);
                        assert(ps[k].0 != ps[i as int].0);
                        assert(before.contains(e));
                    }
                } else if start.fields.contains(e) && !has_key(next, e.0) {
                    if has_key(pre, e.0) {
                        let k = choose|k: int| 0 <= k < pre.len() && #[trigger] pre[k].0 == e.0;
                        assert(next[k].0 == e.0);
                    }
                    assert(e.0 != p.0) by {
                        if e.0 == p.0 {
                            assert(next[i as int].0 == e.0);
                        }
                    }
                    assert(before.contains(e));
                }
            }
            i += 1;
        }
        assert(ps.take(i as int) =~= ps);
        r
    }

    /// The record with its note set to `note`.
    pub fn note(self, note: &str) -> (r: Self)
        ensures
            r@.target == self@.target,
            r@.source == self@.source,
            r@.fields == self@.fields,
            r@.note == Some(note@),
    {
        proof {
            use_type_invariant(&self);
        }
        let DebugRecord { target, source, fields, note: _ } = self;
        DebugRecord { target, source, fields, note: Some(String::from_str(note)) }
    }

    /// What the record observed.
    pub fn target(&self) -> (r: &str)
        ensures
            r@ == self@.target,
    {
        self.target.as_str()
    }

    /// The collector that made the record.
    pub fn source(&self) -> (r: &str)
        ensures
            r@ == self@.source,
    {
        self.source.as_str()
    }

    /// The note, if any.
    pub fn note_text(&self) -> (r: &Option<String>)
        ensures
            opt_view(*r) == self@.note,
    {
        &self.note
    }

    /// The fields in key order.
    pub fn fields(&self) -> (r: &Vec<(String, String)>)
        ensures
            pair_views(r@) == self@.fields,
            keys_sorted(self@.fields),
    {
        proof {
            use_type_invariant(self);
        }
        &self.fields
    }
}

} // verus!
