use vstd::prelude::*;
use vstd::string::*;

use crate::json::{width, JsonNode};

verus! {

/// The key of the child `key` under `prefix`: the two joined by an underscore,
/// or `key` alone at the top level.
pub open spec fn compound_key(prefix: Seq<char>, key: Seq<char>) -> Seq<char> {
    if prefix.len() == 0 {
        key
    } else {
        prefix + seq!['_'] + key
    }
}

/// The leaves of `n` in traversal order, each under its compound key.
///
/// An object contributes the leaves of its members in order; any other node
/// (an array or a scalar) is a single leaf under `prefix`.
pub open spec fn leaves(n: JsonNode, prefix: Seq<char>) -> Seq<(Seq<char>, JsonNode)>
    decreases n, width(n) + 1,
{
    match n {
        JsonNode::Object(members) => member_leaves(n, prefix, members@.len()),
        _ => seq![(prefix, n)],
    }
}

/// The leaves of the first `k` members of the object `n`.
pub open spec fn member_leaves(n: JsonNode, prefix: Seq<char>, k: nat) -> Seq<
    (Seq<char>, JsonNode),
>
    decreases n, k,
{
    match n {
        JsonNode::Object(members) => if k == 0 || k > members@.len() {
            seq![]
        } else {
            let (key, child) = members@[k - 1];
            member_leaves(n, prefix, (k - 1) as nat) + leaves(child, compound_key(prefix, key@))
        },
        _ => seq![],
    }
}

/// `base` with the entries written over it one after the other: where a key
/// comes twice, the later entry wins.
pub open spec fn apply_entries(
    base: Map<Seq<char>, JsonNode>,
    entries: Seq<(Seq<char>, JsonNode)>,
) -> Map<Seq<char>, JsonNode>
    decreases entries.len(),
{
    if entries.len() == 0 {
        base
    } else {
        apply_entries(base, entries.drop_last()).insert(entries.last().0, entries.last().1)
    }
}

/// The mapping that a sequence of entries makes, the later entry winning.
pub open spec fn record_of(entries: Seq<(Seq<char>, JsonNode)>) -> Map<Seq<char>, JsonNode> {
    apply_entries(Map::empty(), entries)
}

/// The flat record of `n` under `prefix`.
pub open spec fn flattened(n: JsonNode, prefix: Seq<char>) -> Map<Seq<char>, JsonNode> {
    record_of(leaves(n, prefix))
}

/// No key comes twice.
pub open spec fn keys_unique(entries: Seq<(Seq<char>, JsonNode)>) -> bool {
    forall|i: int, j: int| 0 <= i < j < entries.len() ==> entries[i].0 != entries[j].0
}

/// The entries with each key seen as its characters.
pub open spec fn key_view(entries: Seq<(String, JsonNode)>) -> Seq<(Seq<char>, JsonNode)> {
    entries.map_values(|e: (String, JsonNode)| (e.0@, e.1))
}

/// Writing `a` and then `b` is writing `a + b`.
pub proof fn lemma_apply_concat(
    base: Map<Seq<char>, JsonNode>,
    a: Seq<(Seq<char>, JsonNode)>,
    b: Seq<(Seq<char>, JsonNode)>,
)
    ensures
        apply_entries(base, a + b) == apply_entries(apply_entries(base, a), b),
    decreases b.len(),
{
    if b.len() == 0 {
        assert(a + b =~= a);
    } else {
        assert((a + b).drop_last() =~= a + b.drop_last());
        lemma_apply_concat(base, a, b.drop_last());
    }
}

/// With unique keys, the mapping holds exactly the keys, each with its value.
pub proof fn lemma_record_of_unique(entries: Seq<(Seq<char>, JsonNode)>)
    requires
        keys_unique(entries),
    ensures
        forall|k: Seq<char>|
            record_of(entries).contains_key(k) <==> exists|i: int|
                0 <= i < entries.len() && #[trigger] entries[i].0 == k,
        forall|i: int|
            0 <= i < entries.len() ==> #[trigger] record_of(entries)[entries[i].0] == entries[i].1,
    decreases entries.len(),
{
    if entries.len() > 0 {
        let init = entries.drop_last();
        assert(keys_unique(init));
        lemma_record_of_unique(init);
        let last = entries.len() - 1;
        assert(record_of(entries) == record_of(init).insert(entries[last].0, entries[last].1));
        assert forall|k: Seq<char>|
            record_of(entries).contains_key(k) implies exists|i: int|
                0 <= i < entries.len() && #[trigger] entries[i].0 == k by {
            if k != entries[last].0 {
                let i = choose|i: int| 0 <= i < init.len() && #[trigger] init[i].0 == k;
                assert(entries[i].0 == k);
            }
        }
        assert forall|i: int| 0 <= i < entries.len() implies #[trigger] record_of(
            entries,
        )[entries[i].0] == entries[i].1 by {
            if i < last {
                assert(init[i] == entries[i]);
            }
        }
        assert forall|k: Seq<char>|
            (exists|i: int| 0 <= i < entries.len() && #[trigger] entries[i].0 == k)
                implies record_of(entries).contains_key(k) by {
            let i = choose|i: int| 0 <= i < entries.len() && #[trigger] entries[i].0 == k;
            if i < last {
                assert(init[i].0 == k);
            }
        }
    }
}

/// With unique keys, the mapping has as many keys as there are entries.
proof fn lemma_record_len(entries: Seq<(Seq<char>, JsonNode)>)
    requires
        keys_unique(entries),
    ensures
        record_of(entries).dom().finite(),
        record_of(entries).len() == entries.len(),
    decreases entries.len(),
{
    if entries.len() > 0 {
        let init = entries.drop_last();
        let last = entries.len() - 1;
        assert(keys_unique(init));
        lemma_record_len(init);
        lemma_record_of_unique(init);
        assert(record_of(entries) == record_of(init).insert(entries[last].0, entries[last].1));
        if record_of(init).contains_key(entries[last].0) {
            let i = choose|i: int| 0 <= i < init.len() && #[trigger] init[i].0 == entries[last].0;
            assert(entries[i].0 == entries[last].0);
        }
    }
}

/// With unique keys, overwriting the value of an entry in place is an insert.
proof fn lemma_record_of_update(entries: Seq<(Seq<char>, JsonNode)>, j: int, v: JsonNode)
    requires
        keys_unique(entries),
        0 <= j < entries.len(),
    ensures
        keys_unique(entries.update(j, (entries[j].0, v))),
        record_of(entries.update(j, (entries[j].0, v))) == record_of(entries).insert(
            entries[j].0,
            v,
        ),
{
    let k = entries[j].0;
    let updated = entries.update(j, (k, v));
    assert(keys_unique(updated));
    lemma_record_of_unique(entries);
    lemma_record_of_unique(updated);
    let lhs = record_of(updated);
    let rhs = record_of(entries).insert(k, v);
    assert forall|key: Seq<char>| lhs.contains_key(key) <==> rhs.contains_key(key) by {
        if lhs.contains_key(key) {
            let i = choose|i: int| 0 <= i < updated.len() && #[trigger] updated[i].0 == key;
            assert(entries[i].0 == key);
        }
        if rhs.contains_key(key) && key != k {
            let i = choose|i: int| 0 <= i < entries.len() && #[trigger] entries[i].0 == key;
            assert(updated[i].0 == key);
        }
        assert(updated[j].0 == k);
    }
    assert forall|key: Seq<char>| #[trigger] lhs.contains_key(key) implies lhs[key] == rhs[key] by {
        let i = choose|i: int| 0 <= i < updated.len() && #[trigger] updated[i].0 == key;
        if i != j {
            assert(entries[i].0 == key);
        }
    }
    assert(lhs =~= rhs);
}

/// Flattening an object none of whose members is itself an object, at the top
/// level, gives back its members: the same keys with the same values (arrays
/// and scalars pass through unchanged).
pub proof fn law_flat_object_unchanged(members: Vec<(String, JsonNode)>)
    requires
        forall|i: int| 0 <= i < members@.len() ==> !(#[trigger] members@[i].1 is Object),
    ensures
        flattened(JsonNode::Object(members), Seq::empty()) == record_of(key_view(members@)),
{
    let n = JsonNode::Object(members);
    let empty = Seq::<char>::empty();
    lemma_member_leaves_flat(members, members@.len());
    assert(key_view(members@).take(members@.len() as int) =~= key_view(members@));
    assert(leaves(n, empty) == member_leaves(n, empty, members@.len()));
}

/// The leaves of the first `k` members of an object whose members are no
/// objects are those members themselves.
proof fn lemma_member_leaves_flat(members: Vec<(String, JsonNode)>, k: nat)
    requires
        forall|i: int| 0 <= i < members@.len() ==> !(#[trigger] members@[i].1 is Object),
        k <= members@.len(),
    ensures
        member_leaves(JsonNode::Object(members), Seq::empty(), k) == key_view(members@).take(
            k as int,
        ),
    decreases k,
{
    let n = JsonNode::Object(members);
    if k > 0 {
        lemma_member_leaves_flat(members, (k - 1) as nat);
        let (key, child) = members@[k - 1];
        assert(!(child is Object));
        assert(compound_key(Seq::empty(), key@) == key@);
        assert(leaves(child, key@) == seq![(key@, child)]);
        assert(key_view(members@).take(k as int) =~= key_view(members@).take(k - 1).push(
            (key@, child),
        ));
    } else {
        assert(key_view(members@).take(0) =~= Seq::<(Seq<char>, JsonNode)>::empty());
    }
}

/// Where no two leaves of `n` share a compound key, the flat record holds
/// exactly one entry for each leaf: its compound key, with the leaf itself.
pub proof fn law_each_leaf_one_entry(n: JsonNode, prefix: Seq<char>)
    requires
        keys_unique(leaves(n, prefix)),
    ensures
        forall|i: int|
            0 <= i < leaves(n, prefix).len() ==> #[trigger] flattened(n, prefix)[leaves(
                n,
                prefix,
            )[i].0] == leaves(n, prefix)[i].1,
        forall|k: Seq<char>|
            flattened(n, prefix).contains_key(k) <==> exists|i: int|
                0 <= i < leaves(n, prefix).len() && #[trigger] leaves(n, prefix)[i].0 == k,
        flattened(n, prefix).len() == leaves(n, prefix).len(),
{
    lemma_record_of_unique(leaves(n, prefix));
    lemma_record_len(leaves(n, prefix));
}

/// A single-level record: compound keys, each with the leaf found under it.
///
/// The keys are unique. The entries keep the order in which their keys were
/// first written; a later write to a key replaces its value in place.
pub struct FlatRecord {
    entries: Vec<(String, JsonNode)>,
}

impl View for FlatRecord {
    type V = Map<Seq<char>, JsonNode>;

    open spec fn view(&self) -> Map<Seq<char>, JsonNode> {
        record_of(self.entries())
    }
}

impl FlatRecord {
    /// The entries in order, each key seen as its characters.
    pub closed spec fn entries(self) -> Seq<(Seq<char>, JsonNode)> {
        key_view(self.entries@)
    }

    /// The record's invariant: no key comes twice.
    pub open spec fn wf(self) -> bool {
        keys_unique(self.entries())
    }

    /// An empty record.
    pub fn new() -> (r: FlatRecord)
        ensures
            r.wf(),
            r.entries() == Seq::<(Seq<char>, JsonNode)>::empty(),
            r@ == Map::<Seq<char>, JsonNode>::empty(),
    {
        let r = FlatRecord { entries: Vec::new() };
        assert(r.entries() =~= Seq::<(Seq<char>, JsonNode)>::empty());
        r
    }

    /// The number of keys.
    pub fn len(&self) -> (r: usize)
        requires
            self.wf(),
        ensures
            r == self@.len(),
            r == self.entries().len(),
    {
        proof {
            self.lemma_dom();
        }
        self.entries.len()
    }

    /// The position of `key` among the entries, if it is there.
    fn position(&self, key: &String) -> (r: Option<usize>)
        ensures
            match r {
                Some(i) => i < self.entries().len() && self.entries()[i as int].0 == key@,
                None => forall|i: int|
                    0 <= i < self.entries().len() ==> #[trigger] self.entries()[i].0 != key@,
            },
    {
        let mut i: usize = 0;
        while i < self.entries.len()
            invariant
                i <= self.entries.len(),
                forall|j: int| 0 <= j < i ==> #[trigger] self.entries()[j].0 != key@,
            decreases self.entries.len() - i,
        {
            if self.entries[i].0 == *key {
                return Some(i);
            }
            i = i + 1;
        }
        None
    }

    /// The value under `key`, if any.
    pub fn get(&self, key: &str) -> (r: Option<&JsonNode>)
        requires
            self.wf(),
        ensures
            match r {
                Some(v) => self@.contains_key(key@) && self@[key@] == *v,
                None => !self@.contains_key(key@),
            },
    {
        proof {
            lemma_record_of_unique(self.entries());
        }
        let key = key.to_owned();
        match self.position(&key) {
            Some(i) => Some(&self.entries[i].1),
            None => None,
        }
    }

    /// Writes `value` under `key`, replacing the value that was there.
    pub fn insert(&mut self, key: String, value: JsonNode)
        requires
            old(self).wf(),
        ensures
            final(self).wf(),
            final(self)@ == old(self)@.insert(key@, value),
    {
        proof {
            assert(old(self).entries().push((key@, value)).drop_last() =~= old(self).entries());
            assert(record_of(old(self).entries().push((key@, value))) == old(self)@.insert(
                key@,
                value,
            ));
        }
        match self.position(&key) {
            Some(i) => {
                proof {
                    lemma_record_of_update(self.entries(), i as int, value);
                    assert(self.entries().update(i as int, (key@, value)) =~= key_view(
                        self.entries@.update(i as int, (key, value)),
                    ));
                }
                self.entries.set(i, (key, value));
            },
            None => {
                proof {
                    assert(self.entries().push((key@, value)) =~= key_view(
                        self.entries@.push((key, value)),
                    ));
                }
                self.entries.push((key, value));
            },
        }
    }

    /// The keys and the values as two lists in the same order: the column
    /// at each position names the value at that position.
    pub fn into_columns_and_values(self) -> (r: (Vec<String>, Vec<JsonNode>))
        requires
            self.wf(),
        ensures
            r.0@.len() == r.1@.len(),
            r.0@.len() == self@.len(),
            forall|i: int| 0 <= i < r.0@.len() ==> #[trigger] self.entries()[i] == (r.0@[i]@, r.1@[i]),
            forall|i: int|
                0 <= i < r.0@.len() ==> self@.contains_key(r.0@[i]@) && #[trigger] self@[r.0@[i]@]
                    == r.1@[i],
            forall|i: int, j: int| 0 <= i < j < r.0@.len() ==> r.0@[i]@ != r.0@[j]@,
            forall|k: Seq<char>| #[trigger] self@.contains_key(k) <==> exists|i: int|
                0 <= i < r.0@.len() && r.0@[i]@ == k,
    {
        proof {
            self.lemma_dom();
            lemma_record_of_unique(self.entries());
        }
        let ghost before = self.entries();
        let mut columns: Vec<String> = Vec::new();
        let mut values: Vec<JsonNode> = Vec::new();
        for entry in it: self.entries.into_iter()
            invariant
                before == key_view(it.seq()),
                columns@.len() == it.index(),
                values@.len() == it.index(),
                forall|i: int| 0 <= i < it.index() ==> #[trigger] before[i] == (columns@[i]@, values@[i]),
        {
            let (key, value) = entry;
            columns.push(key);
            values.push(value);
        }
        proof {
            assert forall|i: int| 0 <= i < columns@.len() implies self@.contains_key(columns@[i]@)
                && #[trigger] self@[columns@[i]@] == values@[i] by {
                assert(before[i] == (columns@[i]@, values@[i]));
            }
            assert forall|k: Seq<char>|
                (exists|i: int| 0 <= i < columns@.len() && columns@[i]@ == k) implies #[trigger]
                self@.contains_key(k) by {
                let i = choose|i: int| 0 <= i < columns@.len() && columns@[i]@ == k;
                assert(before[i] == (columns@[i]@, values@[i]));
            }
            assert forall|i: int, j: int| 0 <= i < j < columns@.len() implies columns@[i]@
                != columns@[j]@ by {
                assert(before[i] == (columns@[i]@, values@[i]));
                assert(before[j] == (columns@[j]@, values@[j]));
            }
            assert forall|k: Seq<char>| #[trigger] self@.contains_key(k) implies exists|i: int|
                0 <= i < columns@.len() && columns@[i]@ == k by {
                let i = choose|i: int| 0 <= i < before.len() && #[trigger] before[i].0 == k;
                assert(columns@[i]@ == k);
            }
        }
        (columns, values)
    }

    /// The mapping has one key for each entry.
    proof fn lemma_dom(&self)
        requires
            self.wf(),
        ensures
            self@.len() == self.entries().len(),
            self@.dom().finite(),
    {
        lemma_record_len(self.entries());
    }
}

/// Flattens `value` under `prefix`: every leaf of the tree (an array or a
/// scalar, however deeply nested in objects) is stored under the keys of its
/// ancestor objects joined by underscores, the later leaf winning where two
/// paths give the same key.
pub fn flatten(value: JsonNode, prefix: String) -> (r: FlatRecord)
    ensures
        r.wf(),
        r@ == flattened(value, prefix@),
{
    let mut r = FlatRecord::new();
    flatten_into(value, prefix, &mut r);
    r
}

/// Writes the leaves of `value` under `prefix` into `out`, in order.
fn flatten_into(value: JsonNode, prefix: String, out: &mut FlatRecord)
    requires
        old(out).wf(),
    ensures
        final(out).wf(),
        final(out)@ == apply_entries(old(out)@, leaves(value, prefix@)),
    decreases value,
{
    let ghost whole = value;
    let ghost start = out@;
    match value {
        JsonNode::Object(members) => {
            let ghost items = members@;
            proof {
                assert(apply_entries(start, member_leaves(whole, prefix@, 0)) == start);
            }
            for member in it: members.into_iter()
                invariant
                    whole == JsonNode::Object(members),
                    whole == value,
                    it.seq() == items,
                    items == members@,
                    out.wf(),
                    out@ == apply_entries(start, member_leaves(whole, prefix@, it.index() as nat)),
            {
                let ghost k = it.index();
                let (key, child) = member;
                proof {
                    assert(decreases_to!(value => child)) by {
                        assert(items[k] == (key, child));
                        assert(decreases_to!(value => value->Object_0));
                        assert(decreases_to!(members => members@));
                        assert(decreases_to!(items => items[k]));
                        assert(decreases_to!(items[k] => items[k].1));
                    }
                    lemma_apply_concat(
                        start,
                        member_leaves(whole, prefix@, k as nat),
                        leaves(child, compound_key(prefix@, key@)),
                    );
                }
                let key = child_key(&prefix, &key);
                flatten_into(child, key, out);
            }
            proof {
                assert(leaves(whole, prefix@) == member_leaves(whole, prefix@, items.len()));
            }
        },
        other => {
            proof {
                assert(leaves(other, prefix@).drop_last() =~= Seq::<(Seq<char>, JsonNode)>::empty());
            }
            out.insert(prefix, other);
            proof {
                assert(leaves(other, prefix@) == seq![(prefix@, other)]);
                assert(apply_entries(start, Seq::<(Seq<char>, JsonNode)>::empty()) == start);
                assert(out@ == apply_entries(start, leaves(other, prefix@)));
            }
        },
    }
}

/// The key of the child `key` under `prefix`.
fn child_key(prefix: &String, key: &String) -> (r: String)
    ensures
        r@ == compound_key(prefix@, key@),
{
    if prefix.as_str().is_empty() {
        key.clone()
    } else {
        let mut r = prefix.clone();
        r.append("_");
        r.append(key.as_str());
        proof {
            reveal_strlit("_");
        }
        r
    }
}

} // verus!
