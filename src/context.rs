use vstd::prelude::*;

use crate::capability::{FromRegistrable, FromRegistrableMut, Registrable};

verus! {

/// The payloads of kind `T` among `s`, in order.
pub open spec fn tagged<T: FromRegistrable<Registrable>>(s: Seq<Registrable>) -> Seq<T>
    decreases s.len(),
{
    if s.len() == 0 {
        Seq::empty()
    } else {
        let prefix = tagged::<T>(s.drop_last());
        if T::is_kind(s.last()) {
            prefix.push(T::payload(s.last()))
        } else {
            prefix
        }
    }
}

/// How many items of kind `T` come before position `i` of `s`.
pub open spec fn rank<T: FromRegistrable<Registrable>>(s: Seq<Registrable>, i: int) -> nat {
    tagged::<T>(s.take(i)).len()
}

/// `after` is `before` with the `j`-th item of kind `T` replaced by `vals[j]`, for
/// every `j`, and every other item left as it was.
pub open spec fn rewritten<T: FromRegistrable<Registrable>>(
    before: Seq<Registrable>,
    vals: Seq<T>,
    after: Seq<Registrable>,
) -> bool {
    &&& after.len() == before.len()
    &&& forall|i: int|
        0 <= i < before.len() && !T::is_kind(#[trigger] before[i]) ==> after[i] == before[i]
    &&& forall|i: int|
        0 <= i < before.len() && #[trigger] T::is_kind(before[i]) ==> after[i] == T::wrap(
            vals[rank::<T>(before, i) as int],
        )
}

/// The query of a prefix never holds more items than the query of the whole.
pub proof fn lemma_tagged_take_len<T: FromRegistrable<Registrable>>(s: Seq<Registrable>, m: int)
    requires
        0 <= m <= s.len(),
    ensures
        tagged::<T>(s.take(m)).len() <= tagged::<T>(s).len(),
    decreases s.len(),
{
    if m < s.len() {
        assert(s.drop_last().take(m) =~= s.take(m));
        lemma_tagged_take_len::<T>(s.drop_last(), m);
    } else {
        assert(s.take(m) =~= s);
    }
}

/// An item of kind `T` at position `i` has a rank below the size of the query.
pub proof fn lemma_rank_bound<T: FromRegistrable<Registrable>>(s: Seq<Registrable>, i: int)
    requires
        0 <= i < s.len(),
        T::is_kind(s[i]),
    ensures
        rank::<T>(s, i) < tagged::<T>(s).len(),
{
    assert(s.take(i + 1).drop_last() =~= s.take(i));
    lemma_tagged_take_len::<T>(s, i + 1);
}

/// Registering one item: the query for kind `T` gains that item's payload at its
/// end when the item is of kind `T`, and is unchanged by an item of another kind.
pub proof fn law_query_after_register<T: FromRegistrable<Registrable>>(
    s: Seq<Registrable>,
    item: Registrable,
)
    ensures
        T::is_kind(item) ==> tagged::<T>(s.push(item)) == tagged::<T>(s).push(T::payload(item)),
        !T::is_kind(item) ==> tagged::<T>(s.push(item)) == tagged::<T>(s),
{
    assert(s.push(item).drop_last() =~= s);
}

/// Registering a sequence of items after `s`: the query for kind `T` is the query
/// of `s` followed by the payloads of kind `T` among the new items, in the order
/// of their registration.
pub proof fn law_query_after_registrations<T: FromRegistrable<Registrable>>(
    s: Seq<Registrable>,
    regs: Seq<Registrable>,
)
    ensures
        tagged::<T>(s + regs) == tagged::<T>(s) + tagged::<T>(regs),
    decreases regs.len(),
{
    if regs.len() == 0 {
        assert(s + regs =~= s);
        assert(tagged::<T>(s) + tagged::<T>(regs) =~= tagged::<T>(s));
    } else {
        law_query_after_registrations::<T>(s, regs.drop_last());
        assert((s + regs).drop_last() =~= s + regs.drop_last());
        assert((s + regs).last() == regs.last());
        if T::is_kind(regs.last()) {
            assert(tagged::<T>(s) + tagged::<T>(regs.drop_last()).push(T::payload(regs.last()))
                =~= (tagged::<T>(s) + tagged::<T>(regs.drop_last())).push(T::payload(regs.last())));
        }
    }
}

/// Writes through the references of `get_registrables_mut` are what a later
/// `get_registrables` returns: when `after` is `before` with its items of kind `T`
/// replaced by `vals`, the query of `after` is `vals`.
pub proof fn law_writes_visible<T: FromRegistrable<Registrable>>(
    before: Seq<Registrable>,
    vals: Seq<T>,
    after: Seq<Registrable>,
)
    requires
        vals.len() == tagged::<T>(before).len(),
        rewritten::<T>(before, vals, after),
    ensures
        tagged::<T>(after) == vals,
    decreases before.len(),
{
    if before.len() == 0 {
        assert(vals =~= Seq::<T>::empty());
    } else {
        let n = before.len() - 1;
        let b = before.drop_last();
        let a = after.drop_last();
        let m = tagged::<T>(b).len();
        let v = vals.take(m as int);
        assert(before.take(n) =~= b);
        assert forall|i: int| 0 <= i < b.len() implies rank::<T>(b, i) == rank::<T>(before, i) by {
            assert(b.take(i) =~= before.take(i));
        }
        assert forall|i: int| 0 <= i < b.len() && #[trigger] T::is_kind(b[i]) implies a[i]
            == T::wrap(v[rank::<T>(b, i) as int]) by {
            assert(before[i] == b[i]);
            lemma_rank_bound::<T>(b, i);
        }
        assert forall|i: int| 0 <= i < b.len() && !T::is_kind(#[trigger] b[i]) implies a[i]
            == b[i] by {
            assert(before[i] == b[i]);
        }
        law_writes_visible::<T>(b, v, a);
        if T::is_kind(before[n]) {
            T::lemma_wrap_payload(vals[m as int]);
            assert(after.last() == T::wrap(vals[m as int]));
            assert(vals =~= v.push(vals[m as int]));
        } else {
            assert(after.last() == before.last());
            assert(vals =~= v);
        }
    }
}

/// The host's registry: an append-only sequence of capabilities in the order of
/// their registration.
pub struct PluginContext {
    items: Vec<Registrable>,
}

impl View for PluginContext {
    type V = Seq<Registrable>;

    closed spec fn view(&self) -> Seq<Registrable> {
        self.items@
    }
}

impl Default for PluginContext {
    fn default() -> (r: PluginContext)
        ensures
            r@ == Seq::<Registrable>::empty(),
    {
        PluginContext::new()
    }
}

impl PluginContext {
    /// An empty registry.
    pub fn new() -> (r: PluginContext)
        ensures
            r@ == Seq::<Registrable>::empty(),
    {
        PluginContext { items: Vec::new() }
    }

    /// How many capabilities have been registered.
    pub fn len(&self) -> (r: usize)
        ensures
            r == self@.len(),
    {
        self.items.len()
    }

    /// Appends a capability, wrapped into its variant.
    pub fn register<T: Into<Registrable>>(&mut self, registrable: T)
        ensures
            final(self)@.len() == old(self)@.len() + 1,
            final(self)@.drop_last() == old(self)@,
            <T as vstd::std_specs::convert::IntoSpec<Registrable>>::obeys_into_spec()
                ==> final(self)@ == old(self)@.push(
                <T as vstd::std_specs::convert::IntoSpec<Registrable>>::into_spec(registrable),
            ),
    {
        let item: Registrable = registrable.into();
        self.items.push(item);
        proof {
            assert(self@.drop_last() =~= old(self)@);
        }
    }

    /// References to every registered payload of kind `T`, in registration order.
    pub fn get_registrables<T: FromRegistrable<Registrable>>(&self) -> (r: Vec<&T>)
        ensures
            r@.len() == tagged::<T>(self@).len(),
            forall|j: int| 0 <= j < r@.len() ==> *r@[j] == tagged::<T>(self@)[j],
    {
        let mut out: Vec<&T> = Vec::new();
        let mut i: usize = 0;
        while i < self.items.len()
            invariant
                i <= self@.len(),
                out@.len() == tagged::<T>(self@.take(i as int)).len(),
                forall|j: int|
                    0 <= j < out@.len() ==> *out@[j] == tagged::<T>(self@.take(i as int))[j],
            decreases self@.len() - i,
        {
            proof {
                assert(self@.take(i + 1).drop_last() =~= self@.take(i as int));
            }
            match T::from_registrable(&self.items[i]) {
                Some(item) => out.push(item),
                None => {},
            }
            i = i + 1;
        }
        proof {
            assert(self@.take(i as int) =~= self@);
        }
        out
    }

    /// Mutable references to every registered payload of kind `T`, in registration
    /// order. What is written through them is what the registry holds afterwards.
    pub fn get_registrables_mut<'a, T: FromRegistrableMut<Registrable>>(&'a mut self) -> (r: Vec<
        &'a mut T,
    >)
        ensures
            r@.len() == tagged::<T>(old(self)@).len(),
            forall|j: int| 0 <= j < r@.len() ==> *r@[j] == tagged::<T>(old(self)@)[j],
            rewritten::<T>(old(self)@, Seq::new(r@.len(), |j: int| *final(r@[j])), final(self)@),
    {
        let ghost orig = old(self)@;
        let ghost fin = final(self)@;
        let mut out: Vec<&'a mut T> = Vec::new();
        let mut rest: &'a mut [Registrable] = self.items.as_mut_slice();
        let ghost mut i: int = 0;
        while rest.len() > 0
            invariant
                0 <= i <= orig.len(),
                i + rest@.len() == orig.len(),
                rest@ == orig.subrange(i, orig.len() as int),
                out@.len() == tagged::<T>(orig.take(i)).len(),
                forall|j: int| 0 <= j < out@.len() ==> *out@[j] == tagged::<T>(orig.take(i))[j],
                fin.len() == i + final(rest)@.len(),
                forall|k: int|
                    0 <= k < i && !T::is_kind(#[trigger] orig[k]) ==> fin[k] == orig[k],
                forall|k: int|
                    0 <= k < i && #[trigger] T::is_kind(orig[k]) ==> fin[k] == T::wrap(
                        *final(out@[rank::<T>(orig, k) as int]),
                    ) && rank::<T>(orig, k) < out@.len(),
                forall|k: int| 0 <= k < final(rest)@.len() ==> fin[i + k] == final(rest)@[k],
            decreases rest@.len(),
        {
            let ghost fr0 = final(rest)@;
            let (head, tail) = rest.split_at_mut(1);
            let ghost fh = final(head)@;
            let ghost ft = final(tail)@;
            let e: &'a mut Registrable = { head }.first_mut().unwrap();
            let ghost fe = *final(e);
            let ghost ev = *e;
            proof {
                assert(orig.take(i + 1).drop_last() =~= orig.take(i));
                assert(fh[0] == fe);
                assert(fin[i + 0int] == fr0[0]);
                assert(forall|k: int| 0 <= k < ft.len() ==> fr0[1 + k] == ft[k]);
            }
            let ghost out0 = out@;
            match T::from_registrable_mut({ e }) {
                Some(x) => {
                    let ghost fx = *final(x);
                    out.push(x);
                    proof {
                        assert(*final(out@[out0.len() as int]) == fx);
                    }
                },
                None => {
                    proof {
                        assert(fe == ev);
                    }
                },
            }
            rest = tail;
            proof {
                assert forall|k: int|
                    0 <= k < i + 1 && #[trigger] T::is_kind(orig[k]) implies rank::<T>(orig, k)
                    < out@.len() && fin[k] == T::wrap(*final(out@[rank::<T>(orig, k) as int])) by {
                    if k < i {
                        let rk = rank::<T>(orig, k) as int;
                        assert(out@[rk] == out0[rk]);
                    }
                }
                i = i + 1;
            }
        }
        proof {
            assert(orig.take(i) =~= orig);
        }
        out
    }
}

} // verus!
