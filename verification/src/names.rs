//! Watch names: their alphabetic order and sets of them.

use vstd::prelude::*;
use vstd::utf8;

verus! {

/// Whether `a` and `b` agree up to `k`, where `a` ends or is smaller.
pub open spec fn less_at(a: Seq<u8>, b: Seq<u8>, k: int) -> bool {
    &&& 0 <= k <= a.len()
    &&& k < b.len()
    &&& a.take(k) == b.take(k)
    &&& (k == a.len() || a[k] < b[k])
}

/// The lexicographic order of byte strings.
pub open spec fn bytes_lt(a: Seq<u8>, b: Seq<u8>) -> bool {
    exists|k: int| less_at(a, b, k)
}

/// The alphabetic order of names: that of their UTF-8 bytes.
pub open spec fn name_lt(a: Seq<char>, b: Seq<char>) -> bool {
    bytes_lt(utf8::encode_utf8(a), utf8::encode_utf8(b))
}

/// No name stands before itself.
pub proof fn lemma_name_lt_irreflexive(a: Seq<char>)
    ensures
        !name_lt(a, a),
{
}

/// The order is transitive.
pub proof fn lemma_name_lt_transitive(a: Seq<char>, b: Seq<char>, c: Seq<char>)
    requires
        name_lt(a, b),
        name_lt(b, c),
    ensures
        name_lt(a, c),
{
    let (x, y, z) = (utf8::encode_utf8(a), utf8::encode_utf8(b), utf8::encode_utf8(c));
    let k = choose|k: int| less_at(x, y, k);
    let l = choose|l: int| less_at(y, z, l);
    let m = if k <= l { k } else { l };
    assert(x.take(m) =~= x.take(k).take(m));
    assert(y.take(m) =~= y.take(k).take(m));
    assert(y.take(m) =~= y.take(l).take(m));
    assert(z.take(m) =~= z.take(l).take(m));
    if k < l {
        assert(y.take(l)[k] == z.take(l)[k]);
    } else if l < k {
        assert(x.take(k)[l] == y.take(k)[l]);
    }
    assert(less_at(x, z, m));
}

/// Two names with the same bytes are the same name.
proof fn lemma_same_bytes_same_name(a: Seq<char>, b: Seq<char>)
    requires
        utf8::encode_utf8(a) == utf8::encode_utf8(b),
    ensures
        a == b,
{
    utf8::encode_utf8_decode_utf8(a);
    utf8::encode_utf8_decode_utf8(b);
}

/// The bytes of a name stand one after the other as its characters do.
proof fn lemma_bytes_of_parts(a: Seq<char>, b: Seq<char>)
    ensures
        utf8::encode_utf8(a + b) == utf8::encode_utf8(a) + utf8::encode_utf8(b),
    decreases a.len(),
{
    if a.len() > 0 {
        lemma_bytes_of_parts(a.drop_first(), b);
        assert((a + b).drop_first() =~= a.drop_first() + b);
        assert(utf8::encode_utf8(a + b) =~= utf8::encode_utf8(a) + utf8::encode_utf8(b));
    } else {
        assert(a + b =~= b);
        assert(utf8::encode_utf8(a + b) =~= utf8::encode_utf8(a) + utf8::encode_utf8(b));
    }
}

/// Names stand as in a dictionary: one stands before every longer one that
/// starts with it, and of two that part in an ASCII character after the same
/// beginning, that with the smaller one stands first, whatever follows. No two
/// names stand both ways round.
pub proof fn law_names_stand_as_in_a_dictionary(
    start: Seq<char>,
    c: char,
    x: Seq<char>,
    d: char,
    y: Seq<char>,
)
    ensures
        name_lt(start, start + seq![c] + x),
        c < d && utf8::is_ascii_chars(seq![c, d]) ==> name_lt(
            start + seq![c] + x,
            start + seq![d] + y,
        ),
        forall|a: Seq<char>, b: Seq<char>|
            #![trigger name_lt(a, b)]
            name_lt(a, b) ==> !name_lt(b, a),
{
    let s = utf8::encode_utf8(start);
    lemma_bytes_of_parts(start, seq![c]);
    lemma_bytes_of_parts(start + seq![c], x);
    lemma_bytes_of_parts(start, seq![d]);
    lemma_bytes_of_parts(start + seq![d], y);
    let u = utf8::encode_utf8(start + seq![c] + x);
    let v = utf8::encode_utf8(start + seq![d] + y);
    utf8::encode_utf8_first_scalar(seq![c]);
    assert(utf8::encode_utf8(seq![c]).len() > 0);
    assert(s.take(s.len() as int) =~= u.take(s.len() as int));
    assert(less_at(s, u, s.len() as int));
    if c < d && utf8::is_ascii_chars(seq![c, d]) {
        assert(seq![c, d][0] == c && seq![c, d][1] == d);
        assert(utf8::is_ascii_chars(seq![c]));
        assert(utf8::is_ascii_chars(seq![d]));
        utf8::is_ascii_chars_encode_utf8(seq![c]);
        utf8::is_ascii_chars_encode_utf8(seq![d]);
        assert(u.take(s.len() as int) =~= v.take(s.len() as int));
        assert(u[s.len() as int] == utf8::encode_utf8(seq![c])[0]);
        assert(v[s.len() as int] == utf8::encode_utf8(seq![d])[0]);
        assert(less_at(u, v, s.len() as int));
    }
    assert forall|a: Seq<char>, b: Seq<char>|
        #![trigger name_lt(a, b)]
        name_lt(a, b) implies !name_lt(b, a) by {
        if name_lt(b, a) {
            lemma_name_lt_transitive(a, b, a);
            lemma_name_lt_irreflexive(a);
        }
    }
}

/// How two names stand to each other.
#[derive(Debug, PartialEq, Eq, Structural, Clone, Copy)]
pub enum NameOrder {
    Before,
    Same,
    After,
}

/// Compares two names.
pub fn order_names(a: &str, b: &str) -> (order: NameOrder)
    ensures
        order == NameOrder::Before <==> name_lt(a@, b@),
        order == NameOrder::Same <==> a@ == b@,
        order == NameOrder::After <==> name_lt(b@, a@),
{
    let x: &[u8] = a.as_bytes();
    let y: &[u8] = b.as_bytes();
    let mut i: usize = 0;
    while i < x.len() && i < y.len() && x[i] == y[i]
        invariant
            i <= x@.len(),
            i <= y@.len(),
            x@.take(i as int) == y@.take(i as int),
        decreases x@.len() - i,
    {
        assert(x@.take(i + 1) =~= x@.take(i as int).push(x@[i as int]));
        assert(y@.take(i + 1) =~= y@.take(i as int).push(y@[i as int]));
        i = i + 1;
    }
    proof {
        if name_lt(a@, b@) && name_lt(b@, a@) {
            lemma_name_lt_transitive(a@, b@, a@);
            lemma_name_lt_irreflexive(a@);
        }
        lemma_name_lt_irreflexive(a@);
    }
    if i < x.len() && i < y.len() {
        if x[i] < y[i] {
            assert(less_at(x@, y@, i as int));
            NameOrder::Before
        } else {
            assert(less_at(y@, x@, i as int));
            NameOrder::After
        }
    } else if i < y.len() {
        assert(less_at(x@, y@, i as int));
        NameOrder::Before
    } else if i < x.len() {
        assert(less_at(y@, x@, i as int));
        NameOrder::After
    } else {
        proof {
            assert(x@ =~= x@.take(i as int));
            assert(y@ =~= y@.take(i as int));
            lemma_same_bytes_same_name(a@, b@);
        }
        NameOrder::Same
    }
}

/// Whether the names stand in strictly ascending order.
pub open spec fn ascending(names: Seq<String>) -> bool {
    forall|i: int, j: int|
        0 <= i < j < names.len() ==> name_lt((#[trigger] names[i])@, (#[trigger] names[j])@)
}

/// The names of a sequence, as a set.
pub open spec fn name_set(names: Seq<String>) -> Set<Seq<char>> {
    Set::new(|name: Seq<char>| exists|i: int| 0 <= i < names.len() && (#[trigger] names[i])@ == name)
}

/// A set of names, kept in alphabetic order without repeats.
#[derive(Debug)]
pub struct NameSet {
    pub names: Vec<String>,
}

impl View for NameSet {
    type V = Set<Seq<char>>;

    open spec fn view(&self) -> Set<Seq<char>> {
        name_set(self.names@)
    }
}

impl NameSet {
    /// The order, which also rules out repeats.
    pub open spec fn wf(self) -> bool {
        ascending(self.names@)
    }

    /// The empty set.
    pub fn new() -> (set: NameSet)
        ensures
            set.wf(),
            set@ == Set::<Seq<char>>::empty(),
            set.names@.len() == 0,
    {
        let set = NameSet { names: Vec::new() };
        assert(set@ =~= Set::<Seq<char>>::empty());
        set
    }

    /// The place of `name`, or the place where it would stand.
    fn place(&self, name: &str) -> (at: (usize, bool))
        requires
            self.wf(),
        ensures
            at.0 <= self.names@.len(),
            at.1 == self@.contains(name@),
            at.1 ==> at.0 < self.names@.len() && self.names@[at.0 as int]@ == name@,
            forall|i: int| 0 <= i < at.0 ==> name_lt((#[trigger] self.names@[i])@, name@),
            !at.1 ==> forall|i: int|
                at.0 <= i < self.names@.len() ==> name_lt(name@, (#[trigger] self.names@[i])@),
    {
        let mut i: usize = 0;
        while i < self.names.len()
            invariant
                i <= self.names@.len(),
                self.wf(),
                forall|j: int| 0 <= j < i ==> name_lt((#[trigger] self.names@[j])@, name@),
            decreases self.names@.len() - i,
        {
            match order_names(self.names[i].as_str(), name) {
                NameOrder::Before => {},
                NameOrder::Same => {
                    return (i, true);
                },
                NameOrder::After => {
                    assert forall|j: int| i <= j < self.names@.len() implies name_lt(
                        name@,
                        (#[trigger] self.names@[j])@,
                    ) by {
                        if j > i {
                            lemma_name_lt_transitive(
                                name@,
                                self.names@[i as int]@,
                                self.names@[j]@,
                            );
                        }
                    }
                    proof {
                        lemma_name_lt_irreflexive(name@);
                    }
                    return (i, false);
                },
            }
            i = i + 1;
        }
        proof {
            lemma_name_lt_irreflexive(name@);
        }
        (i, false)
    }

    /// Whether `name` is in the set.
    pub fn contains(&self, name: &str) -> (found: bool)
        requires
            self.wf(),
        ensures
            found == self@.contains(name@),
    {
        self.place(name).1
    }

    /// Adds `name`; tells whether it was new.
    pub fn insert(&mut self, name: String) -> (fresh: bool)
        requires
            old(self).wf(),
        ensures
            final(self).wf(),
            fresh == !old(self)@.contains(name@),
            final(self)@ == old(self)@.insert(name@),
            final(self).names@.len() == old(self).names@.len() + (if fresh {
                1int
            } else {
                0int
            }),
    {
        let (at, found): (usize, bool) = self.place(name.as_str());
        if found {
            assert(self@ =~= self@.insert(name@));
            return false;
        }
        let ghost before = self.names@;
        let ghost added = name;
        self.names.insert(at, name);
        proof {
            let after = self.names@;
            assert(after =~= before.insert(at as int, added));
            assert forall|i: int, j: int| 0 <= i < j < after.len() implies name_lt(
                (#[trigger] after[i])@,
                (#[trigger] after[j])@,
            ) by {
                let i0 = if i < at { i } else { i - 1 };
                let j0 = if j < at { j } else { j - 1 };
                if i != at {
                    assert(after[i] == before[i0]);
                }
                if j != at {
                    assert(after[j] == before[j0]);
                }
            }
            assert forall|n: Seq<char>| name_set(after).contains(n) <==> name_set(before).insert(
                added@,
            ).contains(n) by {
                if name_set(after).contains(n) {
                    let i = choose|i: int| 0 <= i < after.len() && (#[trigger] after[i])@ == n;
                    if i != at {
                        let i0 = if i < at { i } else { i - 1 };
                        assert(before[i0] == after[i]);
                    }
                }
                if n == added@ {
                    assert(after[at as int]@ == n);
                } else if name_set(before).contains(n) {
                    let i = choose|i: int| 0 <= i < before.len() && (#[trigger] before[i])@ == n;
                    let i0 = if i < at { i } else { i + 1 };
                    assert(after[i0] == before[i]);
                }
            }
            assert(self@ =~= old(self)@.insert(added@));
        }
        true
    }

    /// Takes the name at a place out.
    pub fn remove_at(&mut self, at: usize)
        requires
            old(self).wf(),
            at < old(self).names@.len(),
        ensures
            final(self).wf(),
            final(self).names@ == old(self).names@.remove(at as int),
            final(self)@ == old(self)@.remove(old(self).names@[at as int]@),
    {
        let ghost before = self.names@;
        let ghost name = before[at as int]@;
        let _ = self.names.remove(at);
        proof {
            let after = self.names@;
            assert(after =~= before.remove(at as int));
            assert forall|i: int, j: int| 0 <= i < j < after.len() implies name_lt(
                (#[trigger] after[i])@,
                (#[trigger] after[j])@,
            ) by {
                let i0 = if i < at { i } else { i + 1 };
                let j0 = if j < at { j } else { j + 1 };
                assert(after[i] == before[i0]);
                assert(after[j] == before[j0]);
            }
            assert forall|n: Seq<char>| name_set(after).contains(n) <==> name_set(before).remove(
                name,
            ).contains(n) by {
                lemma_name_lt_irreflexive(name);
                if name_set(after).contains(n) {
                    let i = choose|i: int| 0 <= i < after.len() && (#[trigger] after[i])@ == n;
                    let i0 = if i < at { i } else { i + 1 };
                    assert(before[i0] == after[i]);
                    if i0 < at {
                        assert(name_lt(before[i0]@, before[at as int]@));
                    } else {
                        assert(name_lt(before[at as int]@, before[i0]@));
                    }
                }
                if n != name && name_set(before).contains(n) {
                    let i = choose|i: int| 0 <= i < before.len() && (#[trigger] before[i])@ == n;
                    let i0 = if i < at { i } else { i - 1 };
                    assert(after[i0] == before[i]);
                }
            }
            assert(self@ =~= old(self)@.remove(name));
        }
    }

    /// Takes `name` out; tells whether it was in.
    pub fn remove(&mut self, name: &str) -> (found: bool)
        requires
            old(self).wf(),
        ensures
            final(self).wf(),
            found == old(self)@.contains(name@),
            final(self)@ == old(self)@.remove(name@),
            final(self).names@.len() == old(self).names@.len() - (if found {
                1int
            } else {
                0int
            }),
    {
        let (at, found): (usize, bool) = self.place(name);
        if found {
            self.remove_at(at);
        } else {
            assert(self@ =~= self@.remove(name@));
        }
        found
    }

    /// The number of names.
    pub fn len(&self) -> (count: usize)
        ensures
            count == self.names@.len(),
    {
        self.names.len()
    }

    /// Whether there is no name.
    pub fn is_empty(&self) -> (empty: bool)
        ensures
            empty == (self@ == Set::<Seq<char>>::empty()),
    {
        let empty: bool = self.names.len() == 0;
        proof {
            if empty {
                assert(self@ =~= Set::<Seq<char>>::empty());
            } else {
                assert(self@.contains(self.names@[0]@));
            }
        }
        empty
    }
}

/// A set of names holds as many names as its sequence: none repeats.
pub proof fn law_name_set_counts_each_name_once(set: NameSet)
    requires
        set.wf(),
    ensures
        set@.finite(),
        set@.len() == set.names@.len(),
{
    lemma_set_len(set.names@);
}

proof fn lemma_set_len(names: Seq<String>)
    requires
        ascending(names),
    ensures
        name_set(names).finite(),
        name_set(names).len() == names.len(),
    decreases names.len(),
{
    if names.len() == 0 {
        assert(name_set(names) =~= Set::<Seq<char>>::empty());
    } else {
        let front = names.drop_last();
        let last = names.last()@;
        assert forall|i: int, j: int| 0 <= i < j < front.len() implies name_lt(
            (#[trigger] front[i])@,
            (#[trigger] front[j])@,
        ) by {
            assert(front[i] == names[i]);
            assert(front[j] == names[j]);
        }
        lemma_set_len(front);
        assert(!name_set(front).contains(last)) by {
            lemma_name_lt_irreflexive(last);
            if name_set(front).contains(last) {
                let i = choose|i: int| 0 <= i < front.len() && (#[trigger] front[i])@ == last;
                assert(name_lt(names[i]@, names[names.len() - 1]@));
            }
        }
        assert forall|n: Seq<char>| name_set(names).contains(n) <==> name_set(front).insert(
            last,
        ).contains(n) by {
            if name_set(names).contains(n) {
                let i = choose|i: int| 0 <= i < names.len() && (#[trigger] names[i])@ == n;
                if i < front.len() {
                    assert(front[i] == names[i]);
                }
            }
            if n == last {
                assert(names[names.len() - 1]@ == n);
            } else if name_set(front).contains(n) {
                let i = choose|i: int| 0 <= i < front.len() && (#[trigger] front[i])@ == n;
                assert(names[i] == front[i]);
            }
        }
        assert(name_set(names) =~= name_set(front).insert(last));
    }
}

} // verus!
