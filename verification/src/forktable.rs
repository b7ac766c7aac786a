//! A forkable associative map for representing lexical scopes.
//!
//! A `ForkTable` behaves like an ordinary map, but a child level can be forked
//! off any level. A child passes through every key of its ancestors unless the
//! key is bound or whited out at the child. Binding or removing a key in a
//! child never changes what an ancestor provides.
use vstd::prelude::*;
use std::rc::Rc;
use crate::shared::share;

verus! {

/// What a type must offer to be used as the key of a `ForkTable`.
///
/// Keys are compared through their views: two keys name the same entry
/// exactly when their views are equal. The integers, truth values,
/// characters and strings are keys; any other type can be made one.
pub trait Key: View + Sized {
    /// Whether two keys name the same entry.
    fn same(&self, other: &Self) -> (b: bool)
        ensures
            b == (self@ == other@),
    ;

    /// A fresh key naming the same entry.
    fn duplicate(&self) -> (r: Self)
        ensures
            r@ == self@,
    ;
}

impl Key for isize {
    fn same(&self, other: &Self) -> (b: bool) {
        *self == *other
    }

    fn duplicate(&self) -> (r: Self) {
        *self
    }
}

impl Key for i8 {
    fn same(&self, other: &Self) -> (b: bool) {
        *self == *other
    }

    fn duplicate(&self) -> (r: Self) {
        *self
    }
}

impl Key for i16 {
    fn same(&self, other: &Self) -> (b: bool) {
        *self == *other
    }

    fn duplicate(&self) -> (r: Self) {
        *self
    }
}

impl Key for i32 {
    fn same(&self, other: &Self) -> (b: bool) {
        *self == *other
    }

    fn duplicate(&self) -> (r: Self) {
        *self
    }
}

impl Key for i64 {
    fn same(&self, other: &Self) -> (b: bool) {
        *self == *other
    }

    fn duplicate(&self) -> (r: Self) {
        *self
    }
}

impl Key for u8 {
    fn same(&self, other: &Self) -> (b: bool) {
        *self == *other
    }

    fn duplicate(&self) -> (r: Self) {
        *self
    }
}

impl Key for u16 {
    fn same(&self, other: &Self) -> (b: bool) {
        *self == *other
    }

    fn duplicate(&self) -> (r: Self) {
        *self
    }
}

impl Key for u32 {
    fn same(&self, other: &Self) -> (b: bool) {
        *self == *other
    }

    fn duplicate(&self) -> (r: Self) {
        *self
    }
}

impl Key for u64 {
    fn same(&self, other: &Self) -> (b: bool) {
        *self == *other
    }

    fn duplicate(&self) -> (r: Self) {
        *self
    }
}

impl Key for usize {
    fn same(&self, other: &Self) -> (b: bool) {
        *self == *other
    }

    fn duplicate(&self) -> (r: Self) {
        *self
    }
}

impl Key for bool {
    fn same(&self, other: &Self) -> (b: bool) {
        *self == *other
    }

    fn duplicate(&self) -> (r: Self) {
        *self
    }
}

impl Key for char {
    fn same(&self, other: &Self) -> (b: bool) {
        *self == *other
    }

    fn duplicate(&self) -> (r: Self) {
        *self
    }
}

impl<'a> Key for &'a str {
    fn same(&self, other: &Self) -> (b: bool) {
        let a = (*self).to_owned();
        let b = (*other).to_owned();
        a == b
    }

    fn duplicate(&self) -> (r: Self) {
        *self
    }
}

impl Key for String {
    fn same(&self, other: &Self) -> (b: bool) {
        *self == *other
    }

    fn duplicate(&self) -> (r: Self) {
        self.clone()
    }
}

/// One level of a scope chain: the names bound at the level, and the names
/// whited out at it.
#[verifier::reject_recursive_types(K)]
pub struct Frame<K, V> {
    pub bindings: Map<K, V>,
    pub shadowed: Set<K>,
}

/// The level that a new or freshly forked table starts with.
pub open spec fn empty_frame<K, V>() -> Frame<K, V> {
    Frame { bindings: Map::empty(), shadowed: Set::empty() }
}

/// The value that a chain of levels, innermost first, provides for a key.
///
/// A key is visible at a level iff it is bound there, or it is not whited out
/// there and is visible in the enclosing levels.
pub open spec fn lookup<K, V>(chain: Seq<Frame<K, V>>, k: K) -> Option<V>
    decreases chain.len(),
{
    if chain.len() == 0 {
        None
    } else if chain[0].bindings.contains_key(k) {
        Some(chain[0].bindings[k])
    } else if chain[0].shadowed.contains(k) {
        None
    } else {
        lookup(chain.drop_first(), k)
    }
}

/// The value that a chain of levels provides for a key, where each level is
/// asked for its whiteouts before its bindings.
pub open spec fn lookup_whiteouts_first<K, V>(chain: Seq<Frame<K, V>>, k: K) -> Option<V>
    decreases chain.len(),
{
    if chain.len() == 0 {
        None
    } else if chain[0].shadowed.contains(k) {
        None
    } else if chain[0].bindings.contains_key(k) {
        Some(chain[0].bindings[k])
    } else {
        lookup_whiteouts_first(chain.drop_first(), k)
    }
}

/// Whether no level of the chain both binds a key and whites it out.
pub open spec fn separate<K, V>(chain: Seq<Frame<K, V>>) -> bool {
    forall|i: int, k: K|
        0 <= i < chain.len() && #[trigger] chain[i].bindings.contains_key(k)
            ==> !chain[i].shadowed.contains(k)
}

/// The value bound to a key at the innermost level alone.
pub open spec fn lookup_local<K, V>(chain: Seq<Frame<K, V>>, k: K) -> Option<V> {
    if chain.len() > 0 && chain[0].bindings.contains_key(k) {
        Some(chain[0].bindings[k])
    } else {
        None
    }
}

/// The chain after binding `k` to `v` at the innermost level.
pub open spec fn with_binding<K, V>(chain: Seq<Frame<K, V>>, k: K, v: V) -> Seq<Frame<K, V>>
    recommends
        chain.len() > 0,
{
    chain.update(
        0,
        Frame { bindings: chain[0].bindings.insert(k, v), shadowed: chain[0].shadowed.remove(k) },
    )
}

/// The chain after removing `k` at the innermost level: the binding of the
/// level goes, and the key is whited out there.
pub open spec fn without<K, V>(chain: Seq<Frame<K, V>>, k: K) -> Seq<Frame<K, V>>
    recommends
        chain.len() > 0,
{
    chain.update(
        0,
        Frame { bindings: chain[0].bindings.remove(k), shadowed: chain[0].shadowed.insert(k) },
    )
}

/// The chain after exposing `k` at the innermost level: both the binding and
/// the whiteout of the level go.
pub open spec fn exposed<K, V>(chain: Seq<Frame<K, V>>, k: K) -> Seq<Frame<K, V>>
    recommends
        chain.len() > 0,
{
    chain.update(
        0,
        Frame { bindings: chain[0].bindings.remove(k), shadowed: chain[0].shadowed.remove(k) },
    )
}

/// The chain of a child forked off `chain`.
pub open spec fn forked<K, V>(chain: Seq<Frame<K, V>>) -> Seq<Frame<K, V>> {
    seq![empty_frame()] + chain
}

/// Where no level both binds a key and whites it out, it makes no
/// difference whether a level is asked for its whiteouts or for its bindings
/// first.
pub proof fn law_lookup_order<K, V>(chain: Seq<Frame<K, V>>, k: K)
    requires
        separate(chain),
    ensures
        lookup(chain, k) == lookup_whiteouts_first(chain, k),
    decreases chain.len(),
{
    if chain.len() > 0 {
        let rest = chain.drop_first();
        assert forall|i: int, x: K|
            0 <= i < rest.len() && #[trigger] rest[i].bindings.contains_key(x)
                implies !rest[i].shadowed.contains(x) by {
            assert(rest[i] == chain[i + 1]);
        }
        law_lookup_order(rest, k);
        assert(chain[0].bindings.contains_key(k) ==> !chain[0].shadowed.contains(k));
    }
}

/// Binding, removing or exposing a key at a level keeps the levels of a
/// chain from both binding a key and whiting it out.
pub proof fn law_separate_is_kept<K, V>(chain: Seq<Frame<K, V>>, k: K, v: V)
    requires
        chain.len() > 0,
        separate(chain),
    ensures
        separate(with_binding(chain, k, v)),
        separate(without(chain, k)),
        separate(exposed(chain, k)),
        separate(forked(chain)),
{
    assert forall|i: int, x: K|
        0 <= i < with_binding(chain, k, v).len() && #[trigger] with_binding(
            chain,
            k,
            v,
        )[i].bindings.contains_key(x) implies !with_binding(chain, k, v)[i].shadowed.contains(
        x,
    ) by {
        if i > 0 {
            assert(with_binding(chain, k, v)[i] == chain[i]);
        } else if x != k {
            assert(chain[0].bindings.contains_key(x));
        }
    }
    assert forall|i: int, x: K|
        0 <= i < without(chain, k).len() && #[trigger] without(chain, k)[i].bindings.contains_key(
            x,
        ) implies !without(chain, k)[i].shadowed.contains(x) by {
        if i > 0 {
            assert(without(chain, k)[i] == chain[i]);
        } else {
            assert(chain[0].bindings.contains_key(x));
        }
    }
    assert forall|i: int, x: K|
        0 <= i < exposed(chain, k).len() && #[trigger] exposed(chain, k)[i].bindings.contains_key(
            x,
        ) implies !exposed(chain, k)[i].shadowed.contains(x) by {
        if i > 0 {
            assert(exposed(chain, k)[i] == chain[i]);
        } else {
            assert(chain[0].bindings.contains_key(x));
        }
    }
    assert forall|i: int, x: K|
        0 <= i < forked(chain).len() && #[trigger] forked(chain)[i].bindings.contains_key(x)
            implies !forked(chain)[i].shadowed.contains(x) by {
        if i > 0 {
            assert(forked(chain)[i] == chain[i - 1]);
        }
    }
}

/// A key removed at a level is invisible at that level, whatever the
/// enclosing levels bind.
pub proof fn law_removed_is_invisible<K, V>(chain: Seq<Frame<K, V>>, k: K)
    requires
        chain.len() > 0,
    ensures
        lookup(without(chain, k), k) is None,
{
}

/// A key removed at a level stays invisible at every level forked below it,
/// as long as none of those levels binds the key anew.
pub proof fn law_removed_is_invisible_below<K, V>(
    inner: Seq<Frame<K, V>>,
    chain: Seq<Frame<K, V>>,
    k: K,
)
    requires
        chain.len() > 0,
        forall|i: int| 0 <= i < inner.len() ==> !(#[trigger] inner[i]).bindings.contains_key(k),
    ensures
        lookup(inner + without(chain, k), k) is None,
    decreases inner.len(),
{
    if inner.len() == 0 {
        assert(inner + without(chain, k) =~= without(chain, k));
    } else {
        let whole = inner + without(chain, k);
        assert(whole[0] == inner[0]);
        assert(whole.drop_first() =~= inner.drop_first() + without(chain, k));
        assert forall|i: int| 0 <= i < inner.drop_first().len() implies !(
        #[trigger] inner.drop_first()[i]).bindings.contains_key(k) by {
            assert(inner.drop_first()[i] == inner[i + 1]);
        }
        law_removed_is_invisible_below(inner.drop_first(), chain, k);
    }
}

/// Binding a key at a level makes it visible there with the new value, also
/// where the key was removed at that level before.
pub proof fn law_binding_is_visible<K, V>(chain: Seq<Frame<K, V>>, k: K, v: V)
    requires
        chain.len() > 0,
    ensures
        lookup(with_binding(chain, k, v), k) == Some(v),
        lookup(with_binding(without(chain, k), k, v), k) == Some(v),
{
}

/// Binding, removing or exposing a key changes what the chain provides for
/// that key alone.
pub proof fn law_other_keys_keep<K, V>(chain: Seq<Frame<K, V>>, k: K, v: V, x: K)
    requires
        chain.len() > 0,
        x != k,
    ensures
        lookup(with_binding(chain, k, v), x) == lookup(chain, x),
        lookup(without(chain, k), x) == lookup(chain, x),
        lookup(exposed(chain, k), x) == lookup(chain, x),
{
    assert(with_binding(chain, k, v).drop_first() =~= chain.drop_first());
    assert(without(chain, k).drop_first() =~= chain.drop_first());
    assert(exposed(chain, k).drop_first() =~= chain.drop_first());
}

/// Binding, removing or exposing a key at a level leaves every enclosing
/// level as it was: no ancestor provides anything else than before, for any
/// key.
pub proof fn law_ancestors_keep<K, V>(chain: Seq<Frame<K, V>>, k: K, v: V)
    requires
        chain.len() > 0,
    ensures
        with_binding(chain, k, v).drop_first() == chain.drop_first(),
        without(chain, k).drop_first() == chain.drop_first(),
        exposed(chain, k).drop_first() == chain.drop_first(),
{
    assert(with_binding(chain, k, v).drop_first() =~= chain.drop_first());
    assert(without(chain, k).drop_first() =~= chain.drop_first());
    assert(exposed(chain, k).drop_first() =~= chain.drop_first());
}

/// A freshly forked child provides exactly what its parent provides, and the
/// levels that enclose the child are the parent's chain.
pub proof fn law_fork_passes_through<K, V>(parent: Seq<Frame<K, V>>, x: K)
    ensures
        forked(parent).drop_first() == parent,
        lookup(forked(parent), x) == lookup(parent, x),
{
    assert(forked(parent).drop_first() =~= parent);
}

/// Whatever is bound or removed in a forked child, the parent provides for
/// every key what it provided before.
pub proof fn law_fork_isolation<K, V>(parent: Seq<Frame<K, V>>, k: K, v: V, x: K)
    ensures
        lookup(with_binding(forked(parent), k, v).drop_first(), x) == lookup(parent, x),
        lookup(without(forked(parent), k).drop_first(), x) == lookup(parent, x),
        lookup(exposed(forked(parent), k).drop_first(), x) == lookup(parent, x),
{
    law_ancestors_keep(forked(parent), k, v);
    law_fork_passes_through(parent, x);
}

/// A binding in a forked child hides the parent's binding of the same key in
/// the child alone.
pub proof fn law_child_binding_shadows<K, V>(parent: Seq<Frame<K, V>>, k: K, v: V)
    ensures
        lookup(with_binding(forked(parent), k, v), k) == Some(v),
        lookup(with_binding(forked(parent), k, v).drop_first(), k) == lookup(parent, k),
{
    law_fork_isolation(parent, k, v, k);
}

/// Exposing a key at a level makes the chain provide for it what the
/// enclosing levels provide.
pub proof fn law_expose_restores<K, V>(chain: Seq<Frame<K, V>>, k: K)
    requires
        chain.len() > 0,
    ensures
        lookup(exposed(chain, k), k) == lookup(chain.drop_first(), k),
{
    assert(exposed(chain, k).drop_first() =~= chain.drop_first());
}

/// The views of a list of keys.
pub open spec fn key_views<K: View>(keys: Seq<K>) -> Seq<K::V> {
    Seq::new(keys.len(), |i: int| keys[i]@)
}

/// The map that a list of distinct keys and the list of their values stand
/// for.
pub open spec fn assoc<A, V>(ks: Seq<A>, vs: Seq<V>) -> Map<A, V> {
    Map::new(|k: A| ks.contains(k), |k: A| vs[ks.index_of(k)])
}

proof fn lemma_assoc_at<A, V>(ks: Seq<A>, vs: Seq<V>, i: int)
    requires
        ks.no_duplicates(),
        0 <= i < ks.len(),
    ensures
        assoc(ks, vs).contains_key(ks[i]),
        assoc(ks, vs)[ks[i]] == vs[i],
{
    assert(ks.contains(ks[i]));
    let j = ks.index_of(ks[i]);
    assert(j == i);
}

proof fn lemma_assoc_push<A, V>(ks: Seq<A>, vs: Seq<V>, k: A, v: V)
    requires
        ks.no_duplicates(),
        ks.len() == vs.len(),
        !ks.contains(k),
    ensures
        ks.push(k).no_duplicates(),
        assoc(ks.push(k), vs.push(v)) == assoc(ks, vs).insert(k, v),
{
    let ks2 = ks.push(k);
    let vs2 = vs.push(v);
    assert forall|i: int, j: int| 0 <= i < ks2.len() && 0 <= j < ks2.len() && i != j implies ks2[i]
        != ks2[j] by {
        if i < ks.len() {
            assert(ks.contains(ks[i]));
        }
        if j < ks.len() {
            assert(ks.contains(ks[j]));
        }
    }
    assert forall|x: A| #[trigger] assoc(ks2, vs2).contains_key(x) == assoc(ks, vs).insert(
        k,
        v,
    ).contains_key(x) by {
        if ks2.contains(x) {
            let i = ks2.index_of(x);
            if i < ks.len() {
                assert(ks[i] == x);
            }
        }
        if x == k {
            assert(ks2[ks.len() as int] == x);
        } else if ks.contains(x) {
            let i = ks.index_of(x);
            assert(ks2[i] == x);
        }
    }
    assert forall|x: A| #[trigger] assoc(ks2, vs2).contains_key(x) implies assoc(ks2, vs2)[x]
        == assoc(ks, vs).insert(k, v)[x] by {
        let i = ks2.index_of(x);
        lemma_assoc_at(ks2, vs2, i);
        if i < ks.len() {
            assert(ks[i] == x);
            lemma_assoc_at(ks, vs, i);
        }
    }
    assert(assoc(ks2, vs2) =~= assoc(ks, vs).insert(k, v));
}

proof fn lemma_assoc_update<A, V>(ks: Seq<A>, vs: Seq<V>, i: int, v: V)
    requires
        ks.no_duplicates(),
        ks.len() == vs.len(),
        0 <= i < ks.len(),
    ensures
        assoc(ks, vs.update(i, v)) == assoc(ks, vs).insert(ks[i], v),
{
    let vs2 = vs.update(i, v);
    assert(ks.contains(ks[i]));
    assert forall|x: A| #[trigger] assoc(ks, vs2).contains_key(x) implies assoc(ks, vs2)[x]
        == assoc(ks, vs).insert(ks[i], v)[x] by {
        let j = ks.index_of(x);
        lemma_assoc_at(ks, vs2, j);
        lemma_assoc_at(ks, vs, j);
    }
    assert(assoc(ks, vs2) =~= assoc(ks, vs).insert(ks[i], v));
}

proof fn lemma_assoc_remove<A, V>(ks: Seq<A>, vs: Seq<V>, i: int)
    requires
        ks.no_duplicates(),
        ks.len() == vs.len(),
        0 <= i < ks.len(),
    ensures
        ks.remove(i).no_duplicates(),
        assoc(ks.remove(i), vs.remove(i)) == assoc(ks, vs).remove(ks[i]),
{
    let ks2 = ks.remove(i);
    let vs2 = vs.remove(i);
    let gone = ks[i];
    assert forall|a: int| 0 <= a < ks2.len() implies #[trigger] ks2[a] == ks[if a < i {
        a
    } else {
        a + 1
    }] && vs2[a] == vs[if a < i {
        a
    } else {
        a + 1
    }] by {}
    assert forall|a: int, b: int| 0 <= a < ks2.len() && 0 <= b < ks2.len() && a != b implies ks2[a]
        != ks2[b] by {
        let a1 = if a < i { a } else { a + 1 };
        let b1 = if b < i { b } else { b + 1 };
        assert(ks2[a] == ks[a1] && ks2[b] == ks[b1]);
    }
    assert forall|x: A| #[trigger] assoc(ks2, vs2).contains_key(x) == assoc(ks, vs).remove(
        gone,
    ).contains_key(x) by {
        if ks2.contains(x) {
            let j = ks2.index_of(x);
            let j1 = if j < i { j } else { j + 1 };
            assert(ks2[j] == ks[j1]);
            assert(ks[j1] == x);
        }
        if ks.contains(x) && x != gone {
            let j = ks.index_of(x);
            if j < i {
                assert(ks2[j] == x);
            } else {
                assert(ks2[j - 1] == ks[j]);
            }
        }
    }
    assert forall|x: A| #[trigger] assoc(ks2, vs2).contains_key(x) implies assoc(ks2, vs2)[x]
        == assoc(ks, vs).remove(gone)[x] by {
        let j = ks2.index_of(x);
        let j1 = if j < i { j } else { j + 1 };
        lemma_assoc_at(ks2, vs2, j);
        assert(ks2[j] == ks[j1]);
        lemma_assoc_at(ks, vs, j1);
    }
    assert(assoc(ks2, vs2) =~= assoc(ks, vs).remove(gone));
}

proof fn lemma_set_push<A>(ks: Seq<A>, k: A)
    requires
        ks.no_duplicates(),
        !ks.contains(k),
    ensures
        ks.push(k).no_duplicates(),
        ks.push(k).to_set() == ks.to_set().insert(k),
{
    let ks2 = ks.push(k);
    assert forall|i: int, j: int| 0 <= i < ks2.len() && 0 <= j < ks2.len() && i != j implies ks2[i]
        != ks2[j] by {
        if i < ks.len() {
            assert(ks.contains(ks[i]));
        }
        if j < ks.len() {
            assert(ks.contains(ks[j]));
        }
    }
    assert forall|x: A| #[trigger] ks2.to_set().contains(x) == ks.to_set().insert(k).contains(x) by {
        if ks2.contains(x) {
            let i = ks2.index_of(x);
            if i < ks.len() {
                assert(ks[i] == x);
            }
        }
        if x == k {
            assert(ks2[ks.len() as int] == x);
        } else if ks.contains(x) {
            let i = ks.index_of(x);
            assert(ks2[i] == x);
        }
    }
    assert(ks2.to_set() =~= ks.to_set().insert(k));
}

proof fn lemma_set_remove<A>(ks: Seq<A>, i: int)
    requires
        ks.no_duplicates(),
        0 <= i < ks.len(),
    ensures
        ks.remove(i).no_duplicates(),
        ks.remove(i).to_set() == ks.to_set().remove(ks[i]),
{
    let ks2 = ks.remove(i);
    let gone = ks[i];
    assert forall|a: int| 0 <= a < ks2.len() implies #[trigger] ks2[a] == ks[if a < i {
        a
    } else {
        a + 1
    }] by {}
    assert forall|a: int, b: int| 0 <= a < ks2.len() && 0 <= b < ks2.len() && a != b implies ks2[a]
        != ks2[b] by {
        let a1 = if a < i { a } else { a + 1 };
        let b1 = if b < i { b } else { b + 1 };
        assert(ks2[a] == ks[a1] && ks2[b] == ks[b1]);
    }
    assert forall|x: A| #[trigger] ks2.to_set().contains(x) == ks.to_set().remove(gone).contains(
        x,
    ) by {
        if ks2.contains(x) {
            let j = ks2.index_of(x);
            let j1 = if j < i { j } else { j + 1 };
            assert(ks2[j] == ks[j1]);
            assert(ks[j1] == x);
        }
        if ks.contains(x) && x != gone {
            let j = ks.index_of(x);
            if j < i {
                assert(ks2[j] == x);
            } else {
                assert(ks2[j - 1] == ks[j]);
            }
        }
    }
    assert(ks2.to_set() =~= ks.to_set().remove(gone));
}

/// Where in a list of keys the key stands, if it does.
fn key_index<K: Key>(keys: &Vec<K>, key: &K) -> (r: Option<usize>)
    ensures
        match r {
            Some(i) => i < keys@.len() && key_views(keys@)[i as int] == key@,
            None => !key_views(keys@).contains(key@),
        },
{
    let mut i: usize = 0;
    while i < keys.len()
        invariant
            i <= keys@.len(),
            forall|j: int| 0 <= j < i ==> #[trigger] key_views(keys@)[j] != key@,
        decreases keys.len() - i,
    {
        if keys[i].same(key) {
            return Some(i);
        }
        i += 1;
    }
    None
}

/// An associative map data structure for representing scopes.
///
/// Each level holds its own bindings and whiteouts and a reference to the
/// level it was forked from. The keys bound at the level are kept as a list in
/// which no key occurs twice, beside the list of their values.
#[derive(Debug)]
pub struct ForkTable<'a, K: Key, V> {
    keys: Vec<K>,
    values: Vec<V>,
    whiteouts: Vec<K>,
    parent: Parent<'a, K, V>,
}

/// How a level holds on to the level it was forked from: a root has no
/// parent; a child forked off a borrowed table refers to it; a child forked
/// off a shared table keeps it alive.
#[derive(Debug)]
enum Parent<'a, K: Key, V> {
    Root,
    Borrowed(&'a ForkTable<'a, K, V>),
    Shared(Rc<ForkTable<'a, K, V>>),
}

impl<'a, K: Key, V> View for ForkTable<'a, K, V> {
    type V = Seq<Frame<K::V, V>>;

    /// The levels of the chain, from this level out to the root.
    open spec fn view(&self) -> Seq<Frame<K::V, V>> {
        seq![self.frame()] + self.enclosing()
    }
}

impl<'a, K: Key, V> ForkTable<'a, K, V> {
    #[verifier::type_invariant]
    spec fn inv(&self) -> bool {
        &&& key_views(self.keys@).no_duplicates()
        &&& self.keys@.len() == self.values@.len()
        &&& key_views(self.whiteouts@).no_duplicates()
        &&& key_views(self.keys@).to_set().disjoint(key_views(self.whiteouts@).to_set())
    }

    /// This level's own bindings and whiteouts.
    pub closed spec fn frame(&self) -> Frame<K::V, V> {
        Frame {
            bindings: assoc(key_views(self.keys@), self.values@),
            shadowed: key_views(self.whiteouts@).to_set(),
        }
    }

    /// The level that this one was forked from.
    pub closed spec fn outer(&self) -> Option<ForkTable<'a, K, V>> {
        match self.parent {
            Parent::Root => None,
            Parent::Borrowed(p) => Some(*p),
            Parent::Shared(p) => Some(*p),
        }
    }

    /// The levels that enclose this one, from the parent out to the root.
    pub closed spec fn enclosing(&self) -> Seq<Frame<K::V, V>>
        decreases self,
    {
        match self.parent {
            Parent::Root => Seq::empty(),
            Parent::Borrowed(p) => seq![p.frame()] + p.enclosing(),
            Parent::Shared(p) => seq![p.frame()] + p.enclosing(),
        }
    }

    /// The keys of this level, in the order in which `keys` and `values` walk
    /// them.
    pub closed spec fn walk(&self) -> Seq<K::V> {
        key_views(self.keys@)
    }

    /// Constructs a new, empty root table.
    pub fn new() -> (t: Self)
        ensures
            t@ == seq![empty_frame::<K::V, V>()],
            t.outer() is None,
    {
        let t = ForkTable {
            keys: Vec::new(),
            values: Vec::new(),
            whiteouts: Vec::new(),
            parent: Parent::Root,
        };
        proof {
            assert(key_views(t.keys@) =~= Seq::<K::V>::empty());
            assert(t.frame().bindings =~= Map::<K::V, V>::empty());
            assert(t.frame().shadowed =~= Set::<K::V>::empty());
            assert(t@ =~= seq![empty_frame::<K::V, V>()]);
        }
        t
    }

    /// Forks this table, returning a new, empty level whose parent is this
    /// level.
    pub fn fork(&'a self) -> (child: ForkTable<'a, K, V>)
        ensures
            child@ == forked(self@),
            child.outer() == Some(*self),
    {
        let child = ForkTable {
            keys: Vec::new(),
            values: Vec::new(),
            whiteouts: Vec::new(),
            parent: Parent::Borrowed(self),
        };
        proof {
            assert(key_views(child.keys@) =~= Seq::<K::V>::empty());
            assert(child.frame().bindings =~= Map::<K::V, V>::empty());
            assert(child.frame().shadowed =~= Set::<K::V>::empty());
            assert(child@ =~= forked(self@));
        }
        child
    }

    /// Forks a shared table, returning a new, empty level whose parent is the
    /// shared level. The child keeps its parent alive, so it may outlive the
    /// handle it was forked from.
    pub fn fork_shared(parent: &Rc<ForkTable<'a, K, V>>) -> (child: ForkTable<'a, K, V>)
        ensures
            child@ == forked(parent@),
            child.outer() == Some(**parent),
    {
        let child = ForkTable {
            keys: Vec::new(),
            values: Vec::new(),
            whiteouts: Vec::new(),
            parent: Parent::Shared(share(parent)),
        };
        proof {
            assert(key_views(child.keys@) =~= Seq::<K::V>::empty());
            assert(child.frame().bindings =~= Map::<K::V, V>::empty());
            assert(child.frame().shadowed =~= Set::<K::V>::empty());
            assert(child@ =~= forked(parent@));
        }
        child
    }

    /// Returns a reference to the value that the chain provides for the key:
    /// the binding of the innermost level that binds it, unless a level on the
    /// way whites it out. No level both binds a key and whites it out, so
    /// that it makes no difference which of the two a level is asked first.
    pub fn get(&self, key: &K) -> (r: Option<&V>)
        ensures
            match r {
                Some(v) => lookup(self@, key@) == Some(*v),
                None => lookup(self@, key@) is None,
            },
            lookup(self@, key@) == lookup_whiteouts_first(self@, key@),
        decreases self,
    {
        proof {
            use_type_invariant(self);
        }
        match key_index(&self.keys, key) {
            Some(i) => {
                proof {
                    lemma_assoc_at(key_views(self.keys@), self.values@, i as int);
                    assert(key_views(self.keys@).to_set().contains(key@));
                    assert(!key_views(self.whiteouts@).to_set().contains(key@));
                }
                Some(&self.values[i])
            },
            None => {
                match key_index(&self.whiteouts, key) {
                    Some(j) => {
                        assert(key_views(self.whiteouts@)[j as int] == key@);
                        None
                    },
                    None => match &self.parent {
                        Parent::Borrowed(p) => {
                            assert(self@.drop_first() =~= p@);
                            p.get(key)
                        },
                        Parent::Shared(p) => {
                            assert(self@.drop_first() =~= p@);
                            p.get(key)
                        },
                        Parent::Root => {
                            assert(self@.drop_first() =~= Seq::<Frame<K::V, V>>::empty());
                            assert(lookup(Seq::<Frame<K::V, V>>::empty(), key@) is None);
                            assert(lookup_whiteouts_first(Seq::<Frame<K::V, V>>::empty(), key@)
                                is None);
                            None
                        },
                    },
                }
            },
        }
    }

    /// Returns a mutable reference to the value bound to the key at this
    /// level. Bindings of enclosing levels cannot be reached this way.
    pub fn get_mut(&mut self, key: &K) -> (r: Option<&mut V>)
        ensures
            match r {
                Some(v) => lookup_local(old(self)@, key@) == Some(*v) && final(self)@ == old(
                    self,
                )@.update(
                    0,
                    Frame {
                        bindings: old(self)@[0].bindings.insert(key@, *final(v)),
                        shadowed: old(self)@[0].shadowed,
                    },
                ) && final(self).outer() == old(self).outer(),
                None => lookup_local(old(self)@, key@) is None && *final(self) == *old(self),
            },
    {
        proof {
            use_type_invariant(&*self);
        }
        match key_index(&self.keys, key) {
            Some(i) => {
                proof {
                    let ks = key_views(self.keys@);
                    lemma_assoc_at(ks, self.values@, i as int);
                    assert forall|v: V| #[trigger]
                        assoc(ks, self.values@.update(i as int, v)) == assoc(
                            ks,
                            self.values@,
                        ).insert(key@, v) by {
                        lemma_assoc_update(ks, self.values@, i as int, v);
                    }
                }
                Some(&mut self.values[i])
            },
            None => None,
        }
    }

    /// Returns true if this level binds the key.
    pub fn contains_key(&self, key: &K) -> (b: bool)
        ensures
            b == lookup_local(self@, key@).is_some(),
    {
        key_index(&self.keys, key).is_some()
    }

    /// Returns true if the chain provides a value for the key.
    pub fn chain_contains_key(&self, key: &K) -> (b: bool)
        ensures
            b == lookup(self@, key@).is_some(),
    {
        self.get(key).is_some()
    }

    /// Moves the parts of this level out, leaving an empty root level behind.
    fn take_apart(&mut self) -> (parts: (Vec<K>, Vec<V>, Vec<K>, Parent<'a, K, V>))
        ensures
            parts.0 == old(self).keys,
            parts.1 == old(self).values,
            parts.2 == old(self).whiteouts,
            parts.3 == old(self).parent,
    {
        let mut rest = ForkTable::new();
        core::mem::swap(self, &mut rest);
        (rest.keys, rest.values, rest.whiteouts, rest.parent)
    }

    /// Inserts a key-value pair at this level and returns the value that the
    /// level bound to the key before, if any. A whiteout of the key at this
    /// level is lifted. No other level changes.
    pub fn insert(&mut self, k: K, v: V) -> (r: Option<V>)
        ensures
            final(self)@ == with_binding(old(self)@, k@, v),
            final(self).outer() == old(self).outer(),
            r == lookup_local(old(self)@, k@),
    {
        proof {
            use_type_invariant(&*self);
        }
        let (mut keys, mut values, mut whiteouts, parent) = self.take_apart();
        let ghost ks = key_views(keys@);
        let ghost vs = values@;
        let ghost ws = key_views(whiteouts@);
        match key_index(&whiteouts, &k) {
            Some(j) => {
                whiteouts.remove(j);
                proof {
                    lemma_set_remove(ws, j as int);
                    assert(key_views(whiteouts@) =~= ws.remove(j as int));
                }
            },
            None => {
                assert(ws.to_set().remove(k@) =~= ws.to_set());
            },
        }
        let r = match key_index(&keys, &k) {
            Some(i) => {
                let mut cell = v;
                core::mem::swap(&mut values[i], &mut cell);
                proof {
                    lemma_assoc_at(ks, vs, i as int);
                    lemma_assoc_update(ks, vs, i as int, v);
                }
                Some(cell)
            },
            None => {
                keys.push(k);
                values.push(v);
                proof {
                    lemma_assoc_push(ks, vs, k@, v);
                    assert(key_views(keys@) =~= ks.push(k@));
                }
                None
            },
        };
        *self = ForkTable { keys, values, whiteouts, parent };
        proof {
            assert(self.frame().bindings == old(self)@[0].bindings.insert(k@, v));
            assert(self.frame().shadowed == old(self)@[0].shadowed.remove(k@));
            assert(self@ =~= with_binding(old(self)@, k@, v));
        }
        r
    }

    /// Takes the binding of the key, if any, out of a level's lists.
    fn unbind(keys: &mut Vec<K>, values: &mut Vec<V>, key: &K) -> (r: Option<V>)
        requires
            key_views(old(keys)@).no_duplicates(),
            old(keys)@.len() == old(values)@.len(),
        ensures
            key_views(final(keys)@).no_duplicates(),
            final(keys)@.len() == final(values)@.len(),
            assoc(key_views(final(keys)@), final(values)@) == assoc(
                key_views(old(keys)@),
                old(values)@,
            ).remove(key@),
            r == assoc(key_views(old(keys)@), old(values)@).get(key@),
            key_views(final(keys)@).to_set() == key_views(old(keys)@).to_set().remove(key@),
    {
        let ghost ks = key_views(keys@);
        let ghost vs = values@;
        match key_index(keys, key) {
            Some(i) => {
                keys.remove(i);
                let gone = values.remove(i);
                proof {
                    lemma_assoc_at(ks, vs, i as int);
                    lemma_assoc_remove(ks, vs, i as int);
                    lemma_set_remove(ks, i as int);
                    assert(key_views(keys@) =~= ks.remove(i as int));
                }
                Some(gone)
            },
            None => {
                assert(assoc(ks, vs).remove(key@) =~= assoc(ks, vs));
                assert(ks.to_set().remove(key@) =~= ks.to_set());
                None
            },
        }
    }

    /// Removes a key at this level, returning the value that the level bound
    /// to it, if any.
    ///
    /// The key is whited out at this level, so that the chain provides no
    /// value for it from here on, even where an enclosing level binds it. The
    /// enclosing levels do not change.
    pub fn remove(&mut self, key: &K) -> (r: Option<V>)
        ensures
            final(self)@ == without(old(self)@, key@),
            final(self).outer() == old(self).outer(),
            r == lookup_local(old(self)@, key@),
    {
        proof {
            use_type_invariant(&*self);
        }
        let (mut keys, mut values, mut whiteouts, parent) = self.take_apart();
        let ghost ws = key_views(whiteouts@);
        if key_index(&whiteouts, key).is_none() {
            whiteouts.push(key.duplicate());
            proof {
                lemma_set_push(ws, key@);
                assert(key_views(whiteouts@) =~= ws.push(key@));
            }
        } else {
            assert(ws.to_set().insert(key@) =~= ws.to_set());
        }
        let r = Self::unbind(&mut keys, &mut values, key);
        *self = ForkTable { keys, values, whiteouts, parent };
        proof {
            assert(self@ =~= without(old(self)@, key@));
        }
        r
    }

    /// Removes a key from this level's bindings and whiteouts, so that what
    /// the enclosing levels provide for it is exposed. Returns the value that
    /// the level bound to the key, if any.
    pub fn expose(&mut self, key: &K) -> (r: Option<V>)
        ensures
            final(self)@ == exposed(old(self)@, key@),
            final(self).outer() == old(self).outer(),
            r == lookup_local(old(self)@, key@),
    {
        proof {
            use_type_invariant(&*self);
        }
        let (mut keys, mut values, mut whiteouts, parent) = self.take_apart();
        let ghost ws = key_views(whiteouts@);
        match key_index(&whiteouts, key) {
            Some(j) => {
                whiteouts.remove(j);
                proof {
                    lemma_set_remove(ws, j as int);
                    assert(key_views(whiteouts@) =~= ws.remove(j as int));
                }
            },
            None => {
                assert(ws.to_set().remove(key@) =~= ws.to_set());
            },
        }
        let r = Self::unbind(&mut keys, &mut values, key);
        *self = ForkTable { keys, values, whiteouts, parent };
        proof {
            assert(self@ =~= exposed(old(self)@, key@));
        }
        r
    }

    /// The values bound at this level, in the order of `walk`.
    pub fn values(&self) -> (r: Vec<&V>)
        ensures
            r@.len() == self.walk().len(),
            forall|i: int|
                0 <= i < r@.len() ==> self@[0].bindings.contains_key(self.walk()[i]) && *(
                #[trigger] r@[i]) == self@[0].bindings[self.walk()[i]],
            self.walk().no_duplicates(),
            self.walk().to_set() == self@[0].bindings.dom(),
    {
        proof {
            use_type_invariant(self);
            assert(self.walk().to_set() =~= self@[0].bindings.dom());
        }
        let mut out: Vec<&V> = Vec::new();
        let mut i: usize = 0;
        while i < self.values.len()
            invariant
                i <= self.values@.len(),
                self.keys@.len() == self.values@.len(),
                key_views(self.keys@).no_duplicates(),
                out@.len() == i,
                forall|j: int| 0 <= j < i ==> *(#[trigger] out@[j]) == self.values@[j],
            decreases self.values.len() - i,
        {
            out.push(&self.values[i]);
            i += 1;
        }
        proof {
            assert forall|j: int| 0 <= j < out@.len() implies self@[0].bindings.contains_key(
                self.walk()[j],
            ) && *(#[trigger] out@[j]) == self@[0].bindings[self.walk()[j]] by {
                lemma_assoc_at(key_views(self.keys@), self.values@, j);
            }
        }
        out
    }

    /// The keys bound at this level, each once, in the order of `walk`.
    pub fn keys(&self) -> (r: Vec<&K>)
        ensures
            r@.len() == self.walk().len(),
            forall|i: int| 0 <= i < r@.len() ==> (#[trigger] r@[i])@ == self.walk()[i],
            self.walk().no_duplicates(),
            self.walk().to_set() == self@[0].bindings.dom(),
    {
        proof {
            use_type_invariant(self);
            assert(self.walk().to_set() =~= self@[0].bindings.dom());
        }
        let mut out: Vec<&K> = Vec::new();
        let mut i: usize = 0;
        while i < self.keys.len()
            invariant
                i <= self.keys@.len(),
                out@.len() == i,
                forall|j: int| 0 <= j < i ==> (#[trigger] out@[j])@ == key_views(self.keys@)[j],
            decreases self.keys.len() - i,
        {
            out.push(&self.keys[i]);
            i += 1;
        }
        out
    }
}

impl<'a, K: Key, V: Clone> Clone for ForkTable<'a, K, V> {
    /// A table with the same parent that binds the same keys, in the same
    /// order, to clones of their values, and whites out the same keys.
    fn clone(&self) -> (r: Self)
        ensures
            r.outer() == self.outer(),
            r@.drop_first() == self@.drop_first(),
            r.walk() == self.walk(),
            r@[0].shadowed == self@[0].shadowed,
            r@[0].bindings.dom() == self@[0].bindings.dom(),
            forall|k: K::V| #[trigger]
                self@[0].bindings.contains_key(k) ==> cloned(
                    self@[0].bindings[k],
                    r@[0].bindings[k],
                ),
    {
        proof {
            use_type_invariant(self);
        }
        let mut keys: Vec<K> = Vec::new();
        let mut values: Vec<V> = Vec::new();
        let mut i: usize = 0;
        while i < self.keys.len()
            invariant
                i <= self.keys@.len(),
                self.keys@.len() == self.values@.len(),
                keys@.len() == i,
                values@.len() == i,
                forall|j: int| 0 <= j < i ==> (#[trigger] keys@[j])@ == self.keys@[j]@,
                forall|j: int| 0 <= j < i ==> cloned(self.values@[j], #[trigger] values@[j]),
            decreases self.keys.len() - i,
        {
            keys.push(self.keys[i].duplicate());
            values.push(self.values[i].clone());
            i += 1;
        }
        let mut whiteouts: Vec<K> = Vec::new();
        let mut j: usize = 0;
        while j < self.whiteouts.len()
            invariant
                j <= self.whiteouts@.len(),
                whiteouts@.len() == j,
                forall|m: int| 0 <= m < j ==> (#[trigger] whiteouts@[m])@ == self.whiteouts@[m]@,
            decreases self.whiteouts.len() - j,
        {
            whiteouts.push(self.whiteouts[j].duplicate());
            j += 1;
        }
        proof {
            assert(key_views(keys@) =~= key_views(self.keys@));
            assert(key_views(whiteouts@) =~= key_views(self.whiteouts@));
        }
        let parent = match &self.parent {
            Parent::Root => Parent::Root,
            Parent::Borrowed(p) => Parent::Borrowed(*p),
            Parent::Shared(p) => Parent::Shared(share(p)),
        };
        let r = ForkTable { keys, values, whiteouts, parent };
        proof {
            assert(r@.drop_first() =~= self@.drop_first());
            assert(r@[0].bindings.dom() =~= self@[0].bindings.dom());
            assert forall|k: K::V| #[trigger] self@[0].bindings.contains_key(k) implies cloned(
                self@[0].bindings[k],
                r@[0].bindings[k],
            ) by {
                let ks = key_views(self.keys@);
                let n = ks.index_of(k);
                lemma_assoc_at(ks, self.values@, n);
                lemma_assoc_at(ks, r.values@, n);
            }
        }
        r
    }
}

/// Allows `table[&key]` indexing syntax for a key that the chain provides a
/// value for.
impl<'a, 'b, K: Key, V> core::ops::Index<&'b K> for ForkTable<'a, K, V> {
    type Output = V;

    fn index(&self, index: &'b K) -> (r: &V)
        ensures
            lookup(self@, index@) == Some(*r),
    {
        match self.get(index) {
            Some(v) => v,
            None => vstd::pervasive::unreached(),
        }
    }
}

impl<'a, 'b, K: Key, V> vstd::std_specs::core::IndexSpecImpl<&'b K> for ForkTable<'a, K, V> {
    open spec fn index_req(&self, index: &&'b K) -> bool {
        lookup(self@, (**index)@) is Some
    }
}

impl<'a, 'b, K: Key, V> core::ops::IndexMut<&'b K> for ForkTable<'a, K, V> {
    fn index_mut(&mut self, index: &'b K) -> (r: &mut V)
        requires
            lookup_local(old(self)@, index@) is Some,
        ensures
            lookup_local(old(self)@, index@) == Some(*r),
            final(self)@ == old(self)@.update(
                0,
                Frame {
                    bindings: old(self)@[0].bindings.insert(index@, *final(r)),
                    shadowed: old(self)@[0].shadowed,
                },
            ),
            final(self).outer() == old(self).outer(),
    {
        match self.get_mut(index) {
            Some(v) => v,
            None => vstd::pervasive::unreached(),
        }
    }
}

} // verus!
