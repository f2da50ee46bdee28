//! The two tables of the configuration: a set of names, and headers in the
//! order of their names.

use crate::pairs;
use crate::text;
use crate::text::{chars_of, same};
use vstd::prelude::*;
use vstd::string::*;

verus! {

// ---------------------------------------------------------------------------
// Sets of names
// ---------------------------------------------------------------------------

/// Appending an element to a row adds it to the set of the row's elements.
pub proof fn lemma_push_to_set(row: Seq<Seq<char>>, x: Seq<char>)
    ensures
        row.push(x).to_set() == row.to_set().insert(x),
{
    let more = row.push(x);
    assert forall|y: Seq<char>| #[trigger]
        more.to_set().contains(y) == row.to_set().insert(x).contains(y) by {
        if row.contains(y) {
            let i = choose|i: int| 0 <= i < row.len() && row[i] == y;
            assert(more[i] == y);
        }
        if y == x {
            assert(more[row.len() as int] == y);
        }
        if more.contains(y) && y != x {
            let i = choose|i: int| 0 <= i < more.len() && more[i] == y;
            assert(row[i] == y);
        }
    }
    assert(row.push(x).to_set() =~= row.to_set().insert(x));
}

/// A set of names, kept in the order in which they were added.
#[derive(Debug)]
pub struct NameSet {
    names: Vec<String>,
}

impl NameSet {
    #[verifier::type_invariant]
    spec fn well_formed(self) -> bool {
        text::texts(self.names@).no_duplicates()
    }

    /// The names in the set.
    pub closed spec fn view(&self) -> Set<Seq<char>> {
        text::texts(self.names@).to_set()
    }

    /// A set without names.
    pub fn new() -> (r: NameSet)
        ensures
            r@ == Set::<Seq<char>>::empty(),
    {
        let r = NameSet { names: Vec::new() };
        assert(r@ =~= Set::<Seq<char>>::empty());
        r
    }

    /// Whether a name is in the set.
    pub fn contains(&self, name: &str) -> (r: bool)
        ensures
            r == self@.contains(name@),
    {
        for i in 0..self.names.len()
            invariant
                forall|j: int| 0 <= j < i ==> (#[trigger] text::texts(self.names@)[j]) != name@,
        {
            if same(self.names[i].as_str(), name) {
                assert(text::texts(self.names@)[i as int] == name@);
                return true;
            }
        }
        false
    }

    /// Adds a name. Returns whether it was not there yet.
    pub fn insert(&mut self, name: String) -> (r: bool)
        ensures
            r == !old(self)@.contains(name@),
            final(self)@ == old(self)@.insert(name@),
    {
        if self.contains(name.as_str()) {
            assert(self@.insert(name@) =~= self@);
            return false;
        }
        proof {
            use_type_invariant(&*self);
        }
        let ghost before = text::texts(self.names@);
        let mut names: Vec<String> = Vec::new();
        std::mem::swap(&mut names, &mut self.names);
        names.push(name);
        proof {
            let after = text::texts(names@);
            assert(after =~= before.push(name@));
            lemma_push_to_set(before, name@);
        }
        self.names = names;
        true
    }

    /// The set of the names in a list.
    pub fn from_names(list: Vec<String>) -> (r: NameSet)
        ensures
            r@ == text::texts(list@).to_set(),
    {
        let mut r = NameSet::new();
        let ghost all = text::texts(list@);
        assert(all.take(0).to_set() =~= Set::<Seq<char>>::empty());
        for i in 0..list.len()
            invariant
                all == text::texts(list@),
                r@ == all.take(i as int).to_set(),
        {
            r.insert(list[i].clone());
            proof {
                assert(all.take(i + 1) =~= all.take(i as int).push(all[i as int]));
                lemma_push_to_set(all.take(i as int), all[i as int]);
            }
        }
        assert(all.take(list@.len() as int) =~= all);
        r
    }

    /// How many names are in the set.
    pub fn len(&self) -> (r: usize)
        ensures
            r == self@.len(),
    {
        proof {
            use_type_invariant(self);
            text::texts(self.names@).unique_seq_to_set();
        }
        self.names.len()
    }

    /// The names, each one once, in the order in which they were added.
    pub fn names(&self) -> (r: &Vec<String>)
        ensures
            text::texts(r@).no_duplicates(),
            text::texts(r@).to_set() == self@,
    {
        proof {
            use_type_invariant(self);
        }
        &self.names
    }
}

impl Clone for NameSet {
    fn clone(&self) -> (r: NameSet)
        ensures
            r@ == self@,
    {
        proof {
            use_type_invariant(self);
        }
        let names = copy_texts(&self.names);
        NameSet { names }
    }
}

/// An owned copy of a list of strings.
pub fn copy_texts(list: &Vec<String>) -> (r: Vec<String>)
    ensures
        text::texts(r@) == text::texts(list@),
{
    let mut out: Vec<String> = Vec::new();
    for i in 0..list.len()
        invariant
            text::texts(out@) == text::texts(list@).take(i as int),
    {
        let ghost before = text::texts(out@);
        out.push(list[i].clone());
        assert(text::texts(out@) =~= before.push(list@[i as int]@));
        assert(text::texts(list@).take(i + 1) =~= text::texts(list@).take(i as int).push(
            list@[i as int]@,
        ));
    }
    assert(text::texts(list@).take(list@.len() as int) =~= text::texts(list@));
    out
}

// ---------------------------------------------------------------------------
// The order of texts
// ---------------------------------------------------------------------------

/// Whether `a` comes before `b` because of what stands at `i`.
pub open spec fn less_at(a: Seq<char>, b: Seq<char>, i: int) -> bool {
    &&& 0 <= i <= a.len()
    &&& i < b.len()
    &&& forall|j: int| 0 <= j < i ==> a[j] == b[j]
    &&& i < a.len() ==> a[i] < b[i]
}

/// Whether `a` comes before `b` in the order of code points, which is also the
/// order of the UTF-8 bytes.
pub open spec fn text_less(a: Seq<char>, b: Seq<char>) -> bool {
    exists|i: int| less_at(a, b, i)
}

proof fn lemma_less_irreflexive(a: Seq<char>)
    ensures
        !text_less(a, a),
{
}

proof fn lemma_less_transitive(a: Seq<char>, b: Seq<char>, c: Seq<char>)
    requires
        text_less(a, b),
        text_less(b, c),
    ensures
        text_less(a, c),
{
    let i = choose|i: int| less_at(a, b, i);
    let j = choose|j: int| less_at(b, c, j);
    let k = if i < j { i } else { j };
    assert(less_at(a, c, k));
}

/// Whether one text comes before another.
pub fn comes_before(a: &str, b: &str) -> (r: bool)
    ensures
        r == text_less(a@, b@),
        !r && a@ != b@ ==> text_less(b@, a@),
{
    let x = chars_of(a);
    let y = chars_of(b);
    let mut i: usize = 0;
    while i < x.len() && i < y.len() && x[i] == y[i]
        invariant
            x@ == a@,
            y@ == b@,
            i <= x@.len(),
            i <= y@.len(),
            forall|j: int| 0 <= j < i ==> x@[j] == y@[j],
        decreases x@.len() - i,
    {
        i = i + 1;
    }
    if i < y.len() && (i == x.len() || x[i] < y[i]) {
        assert(less_at(a@, b@, i as int));
        true
    } else {
        proof {
            if i < x@.len() {
                assert(less_at(b@, a@, i as int));
            } else {
                assert(a@ =~= b@);
            }
            if text_less(a@, b@) {
                let k = choose|k: int| less_at(a@, b@, k);
                assert(k >= i);
            }
        }
        false
    }
}

// ---------------------------------------------------------------------------
// Headers
// ---------------------------------------------------------------------------

/// The names and values that a list of pairs holds.
pub open spec fn pair_texts(v: Seq<(String, String)>) -> Seq<(Seq<char>, Seq<char>)> {
    v.map_values(|p: (String, String)| (p.0@, p.1@))
}

/// Each name comes before the names behind it.
pub open spec fn sorted_names(row: Seq<(Seq<char>, Seq<char>)>) -> bool {
    forall|i: int, j: int|
        0 <= i < j < row.len() ==> text_less((#[trigger] row[i]).0, (#[trigger] row[j]).0)
}

/// The map that a list of pairs gives, a later pair taking the place of an
/// earlier one with the same name.
pub open spec fn collected(row: Seq<(Seq<char>, Seq<char>)>) -> Map<Seq<char>, Seq<char>>
    decreases row.len(),
{
    if row.len() == 0 {
        Map::empty()
    } else {
        collected(row.drop_last()).insert(row.last().0, row.last().1)
    }
}

proof fn lemma_sorted_unique(row: Seq<(Seq<char>, Seq<char>)>)
    requires
        sorted_names(row),
    ensures
        pairs::unique_keys(row),
{
    assert forall|i: int, j: int|
        0 <= i < row.len() && 0 <= j < row.len() && i != j implies (#[trigger] row[i]).0 != (
    #[trigger] row[j]).0 by {
        lemma_less_irreflexive(row[i].0);
        if i < j {
            assert(text_less(row[i].0, row[j].0));
        } else {
            assert(text_less(row[j].0, row[i].0));
        }
    }
}

/// The row of a list of pairs: each name once, in order, with the value of the
/// last pair that has the name.
pub open spec fn table_row(list: Seq<(Seq<char>, Seq<char>)>) -> Seq<(Seq<char>, Seq<char>)> {
    choose|row: Seq<(Seq<char>, Seq<char>)>|
        sorted_names(row) && #[trigger] pairs::pairs_map(row) == collected(list)
}

proof fn lemma_map_without_last(row: Seq<(Seq<char>, Seq<char>)>)
    requires
        sorted_names(row),
        row.len() > 0,
    ensures
        pairs::pairs_map(row.drop_last()) == pairs::pairs_map(row).remove(row.last().0),
{
    let less = row.drop_last();
    let m = pairs::pairs_map(row).remove(row.last().0);
    lemma_sorted_unique(row);
    lemma_sorted_unique(less);
    assert forall|i: int| 0 <= i < less.len() implies m.contains_key((#[trigger] less[i]).0)
        && m[less[i].0] == less[i].1 by {
        pairs::lemma_pair_in_map(row, i);
        assert(row[i].0 != row[row.len() - 1].0);
    }
    assert forall|k: Seq<char>| #[trigger] m.contains_key(k) implies pairs::has_key(less, k) by {
        let i = choose|i: int| 0 <= i < row.len() && (#[trigger] row[i]).0 == k;
        assert(less[i].0 == k);
    }
    pairs::lemma_pairs_map_is(less, m);
}

/// The order of a table is determined by what it maps: two rows in the order of
/// their names that give the same map are the same.
pub proof fn law_order_is_determined(
    a: Seq<(Seq<char>, Seq<char>)>,
    b: Seq<(Seq<char>, Seq<char>)>,
)
    requires
        sorted_names(a),
        sorted_names(b),
        pairs::pairs_map(a) == pairs::pairs_map(b),
    ensures
        a == b,
    decreases a.len(),
{
    lemma_sorted_unique(a);
    lemma_sorted_unique(b);
    pairs::lemma_pairs_map_len(a);
    pairs::lemma_pairs_map_len(b);
    if a.len() == 0 {
        assert(a =~= b);
    } else {
        let n = a.len() - 1;
        pairs::lemma_pair_in_map(a, n);
        pairs::lemma_pair_in_map(b, n);
        assert(pairs::pairs_map(b).contains_key(a[n].0));
        assert(pairs::pairs_map(a).contains_key(b[n].0));
        let i = choose|i: int| 0 <= i < a.len() && (#[trigger] a[i]).0 == b[n].0;
        let j = choose|j: int| 0 <= j < b.len() && (#[trigger] b[j]).0 == a[n].0;
        if a[n].0 != b[n].0 {
            assert(text_less(a[i].0, a[n].0));
            assert(text_less(b[j].0, b[n].0));
            lemma_less_transitive(a[n].0, b[n].0, a[n].0);
            lemma_less_irreflexive(a[n].0);
        }
        lemma_map_without_last(a);
        lemma_map_without_last(b);
        law_order_is_determined(a.drop_last(), b.drop_last());
        assert(a =~= a.drop_last().push(a[n]));
        assert(b =~= b.drop_last().push(b[n]));
    }
}

proof fn lemma_collected_sorted(row: Seq<(Seq<char>, Seq<char>)>)
    requires
        sorted_names(row),
    ensures
        collected(row) == pairs::pairs_map(row),
    decreases row.len(),
{
    let m = pairs::pairs_map(row);
    if row.len() == 0 {
        assert(m =~= Map::empty());
    } else {
        lemma_collected_sorted(row.drop_last());
        lemma_map_without_last(row);
        lemma_sorted_unique(row);
        pairs::lemma_pair_in_map(row, row.len() - 1);
        assert(collected(row) =~= m);
    }
}

/// A table that is listed and read back is the same: headers survive being
/// written out pair by pair, in any place and as often as one likes.
pub proof fn law_tables_survive_listing(row: Seq<(Seq<char>, Seq<char>)>)
    requires
        sorted_names(row),
    ensures
        table_row(row) == row,
{
    lemma_collected_sorted(row);
    assert(sorted_names(row) && pairs::pairs_map(row) == collected(row));
    law_order_is_determined(row, table_row(row));
}

/// Custom headers, each name once, in the order of the names.
#[derive(Debug)]
pub struct HeaderTable {
    entries: Vec<(String, String)>,
}

impl HeaderTable {
    #[verifier::type_invariant]
    spec fn well_formed(self) -> bool {
        sorted_names(pair_texts(self.entries@))
    }

    /// The headers in order.
    pub closed spec fn view(&self) -> Seq<(Seq<char>, Seq<char>)> {
        pair_texts(self.entries@)
    }

    /// The value of each header.
    pub open spec fn map(&self) -> Map<Seq<char>, Seq<char>> {
        pairs::pairs_map(self@)
    }

    /// A table without headers.
    pub fn new() -> (r: HeaderTable)
        ensures
            r@ == Seq::<(Seq<char>, Seq<char>)>::empty(),
    {
        let r = HeaderTable { entries: Vec::new() };
        assert(r@ =~= Seq::<(Seq<char>, Seq<char>)>::empty());
        r
    }

    /// Sets a header, in place of an earlier one with the same name.
    pub fn insert(&mut self, name: String, value: String)
        ensures
            sorted_names(final(self)@),
            final(self).map() == old(self).map().insert(name@, value@),
    {
        proof {
            use_type_invariant(&*self);
        }
        let ghost pre = self@;
        let mut entries: Vec<(String, String)> = Vec::new();
        std::mem::swap(&mut entries, &mut self.entries);
        let n: usize = entries.len();
        let mut i: usize = n;
        while i > 0 && !comes_before(entries[i - 1].0.as_str(), name.as_str())
            invariant
                n == entries@.len(),
                i <= n,
                pair_texts(entries@) == pre,
                forall|j: int|
                    i <= j < n && (#[trigger] pre[j]).0 != name@ ==> text_less(name@, pre[j].0),
            decreases i,
        {
            i = i - 1;
        }
        proof {
            lemma_sorted_unique(pre);
            assert forall|j: int| 0 <= j < i implies text_less((#[trigger] pre[j]).0, name@) by {
                if j < i - 1 {
                    assert(text_less(pre[j].0, pre[i - 1].0));
                    lemma_less_transitive(pre[j].0, pre[i - 1].0, name@);
                }
            }
        }
        let ghost target = pairs::pairs_map(pre).insert(name@, value@);
        if i < n && same(entries[i].0.as_str(), name.as_str()) {
            let ghost put = pre.update(i as int, (name@, value@));
            entries.set(i, (name, value));
            proof {
                let post = pair_texts(entries@);
                assert(post =~= put);
                assert forall|a: int, b: int| 0 <= a < b < post.len() implies text_less(
                    (#[trigger] post[a]).0,
                    (#[trigger] post[b]).0,
                ) by {
                    assert(text_less(pre[a].0, pre[b].0));
                }
                lemma_sorted_unique(post);
                assert forall|k: int| 0 <= k < post.len() implies target.contains_key(
                    (#[trigger] post[k]).0,
                ) && target[post[k].0] == post[k].1 by {
                    pairs::lemma_pair_in_map(pre, k);
                    if k != i {
                        assert(post[k].0 != post[i as int].0);
                    }
                }
                assert forall|k: Seq<char>| #[trigger] target.contains_key(k) implies pairs::has_key(
                    post,
                    k,
                ) by {
                    if k == name@ {
                        assert(post[i as int].0 == k);
                    } else {
                        assert(pairs::has_key(pre, k));
                        let j = choose|j: int| 0 <= j < pre.len() && (#[trigger] pre[j]).0 == k;
                        assert(post[j].0 == k);
                    }
                }
                pairs::lemma_pairs_map_is(post, target);
            }
        } else {
            let ghost put = pre.insert(i as int, (name@, value@));
            entries.insert(i, (name, value));
            proof {
                let post = pair_texts(entries@);
                assert(post =~= put);
                assert forall|a: int, b: int| 0 <= a < b < post.len() implies text_less(
                    (#[trigger] post[a]).0,
                    (#[trigger] post[b]).0,
                ) by {
                    if a < i && b > i {
                        assert(text_less(pre[a].0, pre[b - 1].0));
                    } else if a < i && b < i {
                        assert(text_less(pre[a].0, pre[b].0));
                    } else if a > i {
                        assert(text_less(pre[a - 1].0, pre[b - 1].0));
                    } else if a == i {
                        assert(text_less(name@, pre[i as int].0));
                        if b - 1 > i {
                            assert(text_less(pre[i as int].0, pre[b - 1].0));
                            lemma_less_transitive(name@, pre[i as int].0, pre[b - 1].0);
                        }
                    } else {
                        assert(text_less(pre[a].0, name@));
                    }
                }
                lemma_sorted_unique(post);
                assert(post[i as int] == (name@, value@));
                assert forall|k: int| 0 <= k < post.len() implies target.contains_key(
                    (#[trigger] post[k]).0,
                ) && target[post[k].0] == post[k].1 by {
                    if k != i {
                        assert(post[k].0 != post[i as int].0);
                        if k < i {
                            pairs::lemma_pair_in_map(pre, k);
                        } else {
                            pairs::lemma_pair_in_map(pre, k - 1);
                        }
                    }
                }
                assert forall|k: Seq<char>| #[trigger] target.contains_key(k) implies pairs::has_key(
                    post,
                    k,
                ) by {
                    if k == name@ {
                        assert(post[i as int].0 == k);
                    } else {
                        assert(pairs::has_key(pre, k));
                        let j = choose|j: int| 0 <= j < pre.len() && (#[trigger] pre[j]).0 == k;
                        if j < i {
                            assert(post[j].0 == k);
                        } else {
                            assert(post[j + 1].0 == k);
                        }
                    }
                }
                pairs::lemma_pairs_map_is(post, target);
            }
        }
        self.entries = entries;
    }

    /// The table of the headers in a list. Where a name occurs more than once
    /// the last one counts.
    pub fn from_pairs(list: Vec<(String, String)>) -> (r: HeaderTable)
        ensures
            sorted_names(r@),
            r.map() == collected(pair_texts(list@)),
            r@ == table_row(pair_texts(list@)),
    {
        let mut r = HeaderTable::new();
        let ghost all = pair_texts(list@);
        assert(r.map() =~= collected(all.take(0)));
        for i in 0..list.len()
            invariant
                all == pair_texts(list@),
                sorted_names(r@),
                r.map() == collected(all.take(i as int)),
        {
            r.insert(list[i].0.clone(), list[i].1.clone());
            assert(all.take(i + 1).drop_last() =~= all.take(i as int));
        }
        assert(all.take(list@.len() as int) =~= all);
        proof {
            assert(sorted_names(r@) && pairs::pairs_map(r@) == collected(all));
            law_order_is_determined(r@, table_row(all));
        }
        r
    }

    /// How many headers there are.
    pub fn len(&self) -> (r: usize)
        ensures
            r == self@.len(),
            r == self.map().len(),
    {
        proof {
            use_type_invariant(self);
            lemma_sorted_unique(self@);
            pairs::lemma_pairs_map_len(self@);
        }
        self.entries.len()
    }

    /// The headers in order.
    pub fn entries(&self) -> (r: &Vec<(String, String)>)
        ensures
            pair_texts(r@) == self@,
            sorted_names(self@),
    {
        proof {
            use_type_invariant(self);
        }
        &self.entries
    }
}

impl Clone for HeaderTable {
    fn clone(&self) -> (r: HeaderTable)
        ensures
            r@ == self@,
    {
        proof {
            use_type_invariant(self);
        }
        let mut entries: Vec<(String, String)> = Vec::new();
        let ghost all = pair_texts(self.entries@);
        for i in 0..self.entries.len()
            invariant
                all == pair_texts(self.entries@),
                pair_texts(entries@) == all.take(i as int),
        {
            let ghost before = pair_texts(entries@);
            entries.push((self.entries[i].0.clone(), self.entries[i].1.clone()));
            assert(pair_texts(entries@) =~= before.push(all[i as int]));
            assert(all.take(i + 1) =~= all.take(i as int).push(all[i as int]));
        }
        assert(all.take(all.len() as int) =~= all);
        HeaderTable { entries }
    }
}

/// Of two pairs with one name the later one counts, and a pair changes nothing
/// about other names.
pub proof fn law_later_pairs_count(
    list: Seq<(Seq<char>, Seq<char>)>,
    name: Seq<char>,
    value: Seq<char>,
)
    ensures
        collected(Seq::empty()) == Map::<Seq<char>, Seq<char>>::empty(),
        collected(list.push((name, value))).contains_key(name),
        collected(list.push((name, value)))[name] == value,
        collected(list.push((name, value))).remove(name) == collected(list).remove(name),
{
    assert(list.push((name, value)).drop_last() =~= list);
    assert(collected(list.push((name, value))).remove(name) =~= collected(list).remove(name));
}

/// Texts are ordered by the first character in which they differ; where there
/// is none, the shorter one comes first. No text comes before itself.
pub proof fn law_texts_are_ordered_by_characters(
    start: Seq<char>,
    c: char,
    d: char,
    a: Seq<char>,
    b: Seq<char>,
)
    requires
        c < d,
    ensures
        text_less(start + seq![c] + a, start + seq![d] + b),
        !text_less(start + seq![d] + b, start + seq![c] + a),
        text_less(start, start + seq![c] + a),
        !text_less(start + seq![c] + a, start),
        !text_less(start, start),
{
    let n = start.len() as int;
    let x = start + seq![c] + a;
    let y = start + seq![d] + b;
    assert(less_at(x, y, n));
    assert(less_at(start, x, n));
    if text_less(y, x) {
        lemma_less_transitive(x, y, x);
        lemma_less_irreflexive(x);
    }
    if text_less(x, start) {
        lemma_less_transitive(start, x, start);
    }
    lemma_less_irreflexive(start);
}

/// The names and values of a list are what its pairs hold, in their order.
pub proof fn law_pair_texts_are_what_pairs_hold(v: Seq<(String, String)>)
    ensures
        pair_texts(v).len() == v.len(),
        forall|i: int| 0 <= i < v.len() ==> #[trigger] pair_texts(v)[i] == (v[i].0@, v[i].1@),
{
}

} // verus!
