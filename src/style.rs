//! Ordered, key-unique style declarations and their serialisation.
use vstd::prelude::*;
use crate::text::push_str;

verus! {

/// A declaration list: property names paired with values, in order.
pub type Decls = Seq<(Seq<char>, Seq<char>)>;

/// No property name occurs twice.
pub open spec fn keys_unique(d: Decls) -> bool {
    forall|i: int, j: int| 0 <= i < j < d.len() ==> d[i].0 != d[j].0
}

/// `d` holds a declaration for `k`.
pub open spec fn has_key(d: Decls, k: Seq<char>) -> bool {
    exists|i: int| 0 <= i < d.len() && d[i].0 == k
}

/// Sets `k` to `v`: an existing declaration keeps its place and takes the new
/// value, a new one goes to the end.
pub open spec fn with_decl(d: Decls, k: Seq<char>, v: Seq<char>) -> Decls {
    if has_key(d, k) {
        d.update(choose|i: int| 0 <= i < d.len() && d[i].0 == k, (k, v))
    } else {
        d.push((k, v))
    }
}

/// Applies every declaration of `o`, in order, on top of `d`.
pub open spec fn extended(d: Decls, o: Decls) -> Decls
    decreases o.len(),
{
    if o.len() == 0 {
        d
    } else {
        with_decl(extended(d, o.drop_last()), o.last().0, o.last().1)
    }
}

/// `k1:v1;k2:v2;...` in order.
pub open spec fn serialized(d: Decls) -> Seq<char>
    decreases d.len(),
{
    if d.len() == 0 {
        Seq::empty()
    } else {
        serialized(d.drop_last()) + d.last().0 + seq![':'] + d.last().1 + seq![';']
    }
}

pub proof fn lemma_with_decl_unique(d: Decls, k: Seq<char>, v: Seq<char>)
    requires
        keys_unique(d),
    ensures
        keys_unique(with_decl(d, k, v)),
        has_key(with_decl(d, k, v), k),
        with_decl(d, k, v).len() == d.len() + if has_key(d, k) { 0int } else { 1int },
{
    if has_key(d, k) {
        let i = choose|i: int| 0 <= i < d.len() && d[i].0 == k;
        assert(with_decl(d, k, v)[i].0 == k);
    } else {
        assert(with_decl(d, k, v)[d.len() as int].0 == k);
    }
}

pub proof fn lemma_extended_unique(d: Decls, o: Decls)
    requires
        keys_unique(d),
    ensures
        keys_unique(extended(d, o)),
    decreases o.len(),
{
    if o.len() > 0 {
        lemma_extended_unique(d, o.drop_last());
        lemma_with_decl_unique(extended(d, o.drop_last()), o.last().0, o.last().1);
    }
}

/// Setting a property: a present name keeps its position and takes the new
/// value, every other declaration is unchanged; a new name goes to the end.
pub proof fn lemma_set_overwrites_in_place(d: Decls, k: Seq<char>, v: Seq<char>)
    requires
        keys_unique(d),
    ensures
        has_key(d, k) ==> {
            let r = with_decl(d, k, v);
            &&& r.len() == d.len()
            &&& forall|i: int| 0 <= i < d.len() ==> #[trigger] r[i].0 == d[i].0
            &&& forall|i: int| 0 <= i < d.len() ==> #[trigger] r[i].1 == if d[i].0 == k { v } else { d[i].1 }
        },
        !has_key(d, k) ==> with_decl(d, k, v) == d.push((k, v)),
{
    if has_key(d, k) {
        let j = choose|i: int| 0 <= i < d.len() && d[i].0 == k;
        assert forall|i: int| 0 <= i < d.len() && d[i].0 == k implies i == j by {
            if i < j {
                assert(d[i].0 != d[j].0);
            } else if i > j {
                assert(d[j].0 != d[i].0);
            }
        }
    }
}

/// Extending by a set of one declaration is setting it.
pub proof fn lemma_extend_single(d: Decls, k: Seq<char>, v: Seq<char>)
    ensures
        extended(d, seq![(k, v)]) == with_decl(d, k, v),
{
    let o = seq![(k, v)];
    assert(o.drop_last() =~= Seq::<(Seq<char>, Seq<char>)>::empty());
    assert(extended(d, o.drop_last()) == d);
    assert(o.last() == (k, v));
}

/// An empty set serialises to the empty string, and a single declaration to
/// `key:value;`.
pub proof fn lemma_serialize_small(k: Seq<char>, v: Seq<char>)
    ensures
        serialized(Seq::empty()) == Seq::<char>::empty(),
        serialized(seq![(k, v)]) == k + seq![':'] + v + seq![';'],
{
    let d = seq![(k, v)];
    assert(d.drop_last() =~= Seq::<(Seq<char>, Seq<char>)>::empty());
    assert(serialized(d.drop_last()) == Seq::<char>::empty());
    assert(d.last() == (k, v));
    assert(Seq::<char>::empty() + k =~= k);
}

/// An ordered set of style declarations with unique property names.
pub struct StyleSet {
    entries: Vec<(String, String)>,
}

impl View for StyleSet {
    type V = Decls;

    closed spec fn view(&self) -> Decls {
        Seq::new(self.entries@.len(), |i: int| (self.entries@[i].0@, self.entries@[i].1@))
    }
}

impl StyleSet {
    /// Property names are unique.
    pub open spec fn wf(&self) -> bool {
        keys_unique(self@)
    }

    /// An empty set.
    pub fn new() -> (r: StyleSet)
        ensures
            r@ == Seq::<(Seq<char>, Seq<char>)>::empty(),
            r.wf(),
    {
        let r = StyleSet { entries: Vec::new() };
        assert(r@ =~= Seq::<(Seq<char>, Seq<char>)>::empty());
        r
    }

    /// The number of declarations.
    pub fn len(&self) -> (r: usize)
        ensures
            r == self@.len(),
    {
        self.entries.len()
    }

    /// Holds no declaration.
    pub fn is_empty(&self) -> (r: bool)
        ensures
            r == (self@.len() == 0),
    {
        self.entries.len() == 0
    }

    /// Sets `key` to `value`, in place where `key` is present, else at the end.
    pub fn set(&mut self, key: &str, value: String)
        requires
            old(self).wf(),
        ensures
            final(self).wf(),
            final(self)@ == with_decl(old(self)@, key@, value@),
    {
        let k = String::from_str(key);
        let n = self.entries.len();
        let mut i: usize = 0;
        while i < n
            invariant
                n == self.entries@.len(),
                self == old(self),
                self.wf(),
                k@ == key@,
                0 <= i <= n,
                forall|j: int| 0 <= j < i ==> self@[j].0 != key@,
            decreases n - i,
        {
            if self.entries[i].0 == k {
                proof {
                    assert(self@[i as int].0 == key@);
                    assert forall|j: int| 0 <= j < self@.len() && self@[j].0 == key@ implies j == i by {
                        if j < i {
                            assert(self@[j].0 != self@[i as int].0);
                        } else if j > i {
                            assert(self@[i as int].0 != self@[j].0);
                        }
                    }
                }
                let ghost before = self@;
                self.entries[i] = (k, value);
                assert(self@ =~= before.update(i as int, (key@, value@)));
                proof {
                    lemma_with_decl_unique(before, key@, value@);
                }
                return;
            }
            i = i + 1;
        }
        let ghost before = self@;
        self.entries.push((k, value));
        assert(self@ =~= before.push((key@, value@)));
        proof {
            lemma_with_decl_unique(before, key@, value@);
        }
    }

    /// Applies every declaration of `other`, in its order; `other` wins on a
    /// shared property name.
    pub fn extend(&mut self, other: StyleSet)
        requires
            old(self).wf(),
        ensures
            final(self).wf(),
            final(self)@ == extended(old(self)@, other@),
    {
        let n = other.entries.len();
        let mut i: usize = 0;
        while i < n
            invariant
                n == other@.len(),
                0 <= i <= n,
                self.wf(),
                self@ == extended(old(self)@, other@.take(i as int)),
            decreases n - i,
        {
            let k = other.entries[i].0.as_str();
            let v = other.entries[i].1.clone();
            assert(other@.take(i + 1).drop_last() =~= other@.take(i as int));
            self.set(k, v);
            i = i + 1;
        }
        assert(other@.take(n as int) =~= other@);
    }

    /// The declarations as `k1:v1;k2:v2;...`; empty for an empty set.
    pub fn serialize(&self) -> (r: String)
        ensures
            r@ == serialized(self@),
    {
        let mut r = String::new();
        let n = self.entries.len();
        let mut i: usize = 0;
        while i < n
            invariant
                n == self@.len(),
                0 <= i <= n,
                r@ == serialized(self@.take(i as int)),
            decreases n - i,
        {
            assert(self@.take(i + 1).drop_last() =~= self@.take(i as int));
            push_str(&mut r, self.entries[i].0.as_str());
            push_str(&mut r, ":");
            push_str(&mut r, self.entries[i].1.as_str());
            push_str(&mut r, ";");
            proof {
                reveal_strlit(":");
                reveal_strlit(";");
            }
            assert(r@ =~= serialized(self@.take(i + 1)));
            i = i + 1;
        }
        assert(self@.take(n as int) =~= self@);
        r
    }
}

} // verus!
