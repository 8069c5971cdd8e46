//! A map whose keys are texts, kept in ascending order.
use vstd::prelude::*;

verus! {

/// The order of texts: the first character that differs decides, and a text
/// comes before any longer one that it starts.
pub open spec fn text_before(a: Seq<char>, b: Seq<char>) -> bool
    decreases a.len(),
{
    if b.len() == 0 {
        false
    } else if a.len() == 0 {
        true
    } else if a[0] != b[0] {
        a[0] < b[0]
    } else {
        text_before(a.drop_first(), b.drop_first())
    }
}

pub proof fn lemma_before_irreflexive(a: Seq<char>)
    ensures
        !text_before(a, a),
    decreases a.len(),
{
    if a.len() > 0 {
        lemma_before_irreflexive(a.drop_first());
    }
}

pub proof fn lemma_before_transitive(a: Seq<char>, b: Seq<char>, c: Seq<char>)
    requires
        text_before(a, b),
        text_before(b, c),
    ensures
        text_before(a, c),
    decreases a.len(),
{
    if a.len() > 0 && b.len() > 0 && c.len() > 0 && a[0] == b[0] && b[0] == c[0] {
        lemma_before_transitive(a.drop_first(), b.drop_first(), c.drop_first());
    }
}

pub proof fn lemma_before_total(a: Seq<char>, b: Seq<char>)
    ensures
        a == b || text_before(a, b) || text_before(b, a),
    decreases a.len(),
{
    if a.len() == 0 || b.len() == 0 {
        if a.len() == 0 && b.len() == 0 {
            assert(a =~= b);
        }
    } else if a[0] == b[0] {
        lemma_before_total(a.drop_first(), b.drop_first());
        if a.drop_first() == b.drop_first() {
            assert(a =~= seq![a[0]] + a.drop_first());
            assert(b =~= seq![b[0]] + b.drop_first());
        }
    }
}

/// `str::lt`: strings are ordered by their bytes, which for UTF-8 is the order
/// of their characters.
#[verifier::external_body]
pub(crate) fn is_before(a: &str, b: &str) -> (r: bool)
    ensures
        r == text_before(a@, b@),
{
    a < b
}

/// A map from texts to values. Its entries are in ascending order, so that it
/// is walked in that order.
#[derive(Clone, Debug)]
pub struct TextMap<V> {
    pub entries: Vec<(String, V)>,
}

pub open spec fn ascending<V>(entries: Seq<(String, V)>) -> bool {
    forall|i: int, j: int|
        0 <= i < j < entries.len() ==> text_before(
            #[trigger] entries[i].0@,
            #[trigger] entries[j].0@,
        )
}

/// The position of a key, if it is there.
pub open spec fn holds_key<V>(entries: Seq<(String, V)>, key: Seq<char>, i: int) -> bool {
    0 <= i < entries.len() && entries[i].0@ == key
}

pub open spec fn has_key<V>(entries: Seq<(String, V)>, key: Seq<char>) -> bool {
    exists|i: int| #[trigger] holds_key(entries, key, i)
}

pub open spec fn value_at<V>(entries: Seq<(String, V)>, key: Seq<char>) -> V {
    entries[choose|i: int| #[trigger] holds_key(entries, key, i)].1
}

pub open spec fn entries_map<V>(entries: Seq<(String, V)>) -> Map<Seq<char>, V> {
    Map::new(|key: Seq<char>| has_key(entries, key), |key: Seq<char>| value_at(entries, key))
}

impl<V> View for TextMap<V> {
    type V = Map<Seq<char>, V>;

    open spec fn view(&self) -> Map<Seq<char>, V> {
        entries_map(self.entries@)
    }
}

pub proof fn lemma_unique_key<V>(entries: Seq<(String, V)>, i: int, j: int)
    requires
        ascending(entries),
        0 <= i < entries.len(),
        0 <= j < entries.len(),
        entries[i].0@ == entries[j].0@,
    ensures
        i == j,
{
    lemma_before_irreflexive(entries[i].0@);
    if i < j {
        assert(text_before(entries[i].0@, entries[j].0@));
    } else if j < i {
        assert(text_before(entries[j].0@, entries[i].0@));
    }
}

/// The entry at a position is what the map holds under its key.
pub proof fn lemma_entry<V>(entries: Seq<(String, V)>, i: int)
    requires
        ascending(entries),
        0 <= i < entries.len(),
    ensures
        entries_map(entries).dom().contains(entries[i].0@),
        entries_map(entries)[entries[i].0@] == entries[i].1,
{
    let key = entries[i].0@;
    assert(holds_key(entries, key, i));
    let j = choose|j: int| #[trigger] holds_key(entries, key, j);
    lemma_unique_key(entries, i, j);
}

impl<V> TextMap<V> {
    pub open spec fn wf(self) -> bool {
        ascending(self.entries@)
    }

    pub fn new() -> (r: Self)
        ensures
            r.wf(),
            r@ == Map::<Seq<char>, V>::empty(),
            r.entries@.len() == 0,
    {
        let r = TextMap { entries: Vec::new() };
        assert(r@ =~= Map::<Seq<char>, V>::empty());
        r
    }

    /// The first position whose key is not before `key`.
    fn position(&self, key: &str) -> (r: usize)
        requires
            self.wf(),
        ensures
            r <= self.entries@.len(),
            forall|i: int|
                0 <= i < r ==> text_before(#[trigger] self.entries@[i].0@, key@),
            r < self.entries@.len() ==> !text_before(self.entries@[r as int].0@, key@),
    {
        let mut i: usize = 0;
        while i < self.entries.len()
            invariant
                i <= self.entries@.len(),
                forall|j: int| 0 <= j < i ==> text_before(#[trigger] self.entries@[j].0@, key@),
            decreases self.entries@.len() - i,
        {
            if !is_before(self.entries[i].0.as_str(), key) {
                return i;
            }
            i += 1;
        }
        i
    }

    pub fn get(&self, key: &str) -> (r: Option<&V>)
        requires
            self.wf(),
        ensures
            match r {
                Some(v) => self@.dom().contains(key@) && self@[key@] == *v,
                None => !self@.dom().contains(key@),
            },
    {
        let p = self.position(key);
        if p < self.entries.len() && crate::text::same(self.entries[p].0.as_str(), key) {
            proof {
                lemma_entry(self.entries@, p as int);
            }
            Some(&self.entries[p].1)
        } else {
            proof {
                if self@.dom().contains(key@) {
                    let i = choose|i: int| #[trigger] holds_key(self.entries@, key@, i);
                    lemma_before_irreflexive(key@);
                    if i > p {
                        assert(text_before(self.entries@[p as int].0@, self.entries@[i].0@));
                    }
                }
            }
            None
        }
    }

    /// Puts a value under a key, in place of what was there.
    pub fn insert(&mut self, key: &str, value: V)
        requires
            old(self).wf(),
        ensures
            final(self).wf(),
            final(self)@ == old(self)@.insert(key@, value),
            exists|p: int|
                #[trigger] placed(old(self).entries@, final(self).entries@, key@, value, p),
    {
        let p = self.position(key);
        let ghost before = self.entries@;
        if p < self.entries.len() && crate::text::same(self.entries[p].0.as_str(), key) {
            let name = self.entries[p].0.clone();
            self.entries.set(p, (name, value));
            proof {
                lemma_insert(before, self.entries@, key@, value, p as int, p as int + 1);
                assert(self.entries@ =~= before.update(p as int, self.entries@[p as int]));
                assert(placed(before, self.entries@, key@, value, p as int));
            }
        } else {
            self.entries.insert(p, (key.to_owned(), value));
            proof {
                if has_key(before, key@) {
                    let i = choose|i: int| #[trigger] holds_key(before, key@, i);
                    lemma_before_irreflexive(key@);
                    if i > p {
                        assert(text_before(before[p as int].0@, before[i].0@));
                    }
                }
                if p < before.len() {
                    lemma_before_total(before[p as int].0@, key@);
                }
                lemma_insert(before, self.entries@, key@, value, p as int, p as int);
                assert(self.entries@ =~= before.insert(p as int, self.entries@[p as int]));
                assert(placed(before, self.entries@, key@, value, p as int));
            }
        }
    }
}

/// `after` is `before` with an entry of `key` at `p`: in place of the one that
/// was there under this key, or between the others.
pub open spec fn placed<V>(
    before: Seq<(String, V)>,
    after: Seq<(String, V)>,
    key: Seq<char>,
    value: V,
    p: int,
) -> bool {
    &&& 0 <= p < after.len()
    &&& after[p].0@ == key
    &&& after[p].1 == value
    &&& {
        ||| p < before.len() && before[p].0@ == key && after == before.update(p, after[p])
        ||| p <= before.len() && !has_key(before, key) && after == before.insert(p, after[p])
    }
}

/// `after` is `before` with an entry for `key` at `p`, where the entries from
/// `rest` on follow it.
proof fn lemma_insert<V>(
    before: Seq<(String, V)>,
    after: Seq<(String, V)>,
    key: Seq<char>,
    value: V,
    p: int,
    rest: int,
)
    requires
        ascending(before),
        0 <= p <= rest <= before.len(),
        rest == p || (rest == p + 1 && before[p].0@ == key),
        forall|i: int| 0 <= i < p ==> text_before(#[trigger] before[i].0@, key),
        rest == p && p < before.len() ==> text_before(key, before[p].0@),
        after.len() == p + 1 + (before.len() - rest),
        forall|i: int| 0 <= i < p ==> #[trigger] after[i] == before[i],
        after[p].0@ == key,
        after[p].1 == value,
        forall|i: int| p < i < after.len() ==> #[trigger] after[i] == before[i - p - 1 + rest],
    ensures
        ascending(after),
        entries_map(after) == entries_map(before).insert(key, value),
{
    assert forall|i: int| rest <= i < before.len() implies text_before(
        key,
        #[trigger] before[i].0@,
    ) by {
        if rest == p {
            if i > p {
                assert(text_before(before[p].0@, before[i].0@));
                lemma_before_transitive(key, before[p].0@, before[i].0@);
            }
        } else {
            assert(text_before(before[p].0@, before[i].0@));
        }
    }
    assert forall|i: int, j: int| 0 <= i < j < after.len() implies text_before(
        #[trigger] after[i].0@,
        #[trigger] after[j].0@,
    ) by {
        if i < p && j > p {
            assert(text_before(before[i].0@, before[j - p - 1 + rest].0@));
        }
    }
    let m = entries_map(before).insert(key, value);
    lemma_entry(after, p);
    assert forall|k: Seq<char>| #[trigger] entries_map(after).dom().contains(k) implies m.dom().contains(k)
        && entries_map(after)[k] == m[k] by {
        let i = choose|i: int| #[trigger] holds_key(after, k, i);
        lemma_entry(after, i);
        if i < p {
            lemma_entry(before, i);
            lemma_before_irreflexive(key);
        } else if i > p {
            lemma_entry(before, i - p - 1 + rest);
            lemma_before_irreflexive(key);
        }
    }
    assert forall|k: Seq<char>| #[trigger] m.dom().contains(k) implies entries_map(after).dom().contains(
        k,
    ) by {
        if k != key {
            let i = choose|i: int| #[trigger] holds_key(before, k, i);
            if i < p {
                assert(holds_key(after, k, i));
            } else {
                assert(i >= rest);
                assert(holds_key(after, k, i + p + 1 - rest));
            }
        }
    }
    assert(entries_map(after).dom() =~= m.dom());
    assert(entries_map(after) =~= m);
}

} // verus!
