//! The service registry: `(service, method)` names mapped to encapsulated
//! methods. Built once before the server starts; a duplicate registration
//! is a configuration error caught at build time.
use vstd::prelude::*;

verus! {

/// Building the registry failed: two methods share a full name.
#[derive(Clone, Copy, Debug, PartialEq, Eq, Structural)]
pub struct DuplicateMethodError;

/// Something registered under one service name: its method table.
pub trait Registrant {
    type Method;

    fn methods(&self) -> Vec<(String, Self::Method)>;
}

/// True when entries `i` and `j` name the same service and method.
pub open spec fn same_name<M>(entries: Seq<(String, String, M)>, i: int, j: int) -> bool {
    entries[i].0@ == entries[j].0@ && entries[i].1@ == entries[j].1@
}

/// True when the `k`th method of a batch registered under `service` would
/// collide: with a row already in the registry, or with an earlier method
/// of the same batch.
pub open spec fn name_taken_at<M, N>(
    entries: Seq<(String, String, M)>,
    service: Seq<char>,
    names: Seq<(String, N)>,
    k: int,
) -> bool {
    ||| exists|i: int|
        0 <= i < entries.len() && (#[trigger] entries[i]).0@ == service && entries[i].1@
            == names[k].0@
    ||| exists|t: int| 0 <= t < k && (#[trigger] names[t]).0@ == names[k].0@
}

/// True when registering this batch under `service` hits any collision.
pub open spec fn spec_register_collides<M, N>(
    entries: Seq<(String, String, M)>,
    service: Seq<char>,
    names: Seq<(String, N)>,
) -> bool {
    exists|k: int| 0 <= k < names.len() && #[trigger] name_taken_at(entries, service, names, k)
}

/// The registry: rows of service name, method name, method.
pub struct ServiceRegistry<M> {
    pub entries: Vec<(String, String, M)>,
}

impl<M> ServiceRegistry<M> {
    /// No two rows share a full name.
    pub open spec fn wf(self) -> bool {
        forall|i: int, j: int|
            0 <= i < j < self.entries@.len() ==> !same_name(self.entries@, i, j)
    }

    pub fn new() -> (r: Self)
        ensures
            r.wf(),
            r.entries@.len() == 0,
    {
        ServiceRegistry { entries: Vec::new() }
    }

    /// Whether some row already carries this full name.
    pub open spec fn spec_has(self, service: Seq<char>, method: Seq<char>) -> bool {
        exists|i: int|
            0 <= i < self.entries@.len() && (#[trigger] self.entries@[i]).0@ == service
                && self.entries@[i].1@ == method
    }

    /// Looks for the row with this full name.
    fn find(&self, service: &String, method: &String) -> (r: Option<usize>)
        ensures
            match r {
                Some(i) => i < self.entries@.len() && self.entries@[i as int].0@ == service@
                    && self.entries@[i as int].1@ == method@,
                None => !self.spec_has(service@, method@),
            },
    {
        let n = self.entries.len();
        let mut i: usize = 0;
        while i < n
            invariant
                0 <= i <= n,
                n == self.entries@.len(),
                forall|j: int|
                    0 <= j < i ==> !((#[trigger] self.entries@[j]).0@ == service@
                        && self.entries@[j].1@ == method@),
            decreases n - i,
        {
            let row = &self.entries[i];
            if row.0.eq(service) && row.1.eq(method) {
                return Some(i);
            }
            i = i + 1;
        }
        None
    }

    /// Registers every method of one service. Fails, changing nothing, as
    /// soon as a full name is already taken; rows registered before the
    /// duplicate stay, as a fatal configuration error ends the build anyway.
    pub fn register_service(&mut self, service: &String, methods: Vec<(String, M)>) -> (r: Result<
        (),
        DuplicateMethodError,
    >)
        requires
            old(self).wf(),
        ensures
            final(self).wf(),
            // success exactly when no method collides with an existing row
            // or an earlier method of this batch
            r is Ok <==> !spec_register_collides(old(self).entries@, service@, methods@),
            forall|j: int|
                0 <= j < old(self).entries@.len() ==> final(self).entries@[j] == old(
                    self,
                ).entries@[j],
            r is Ok ==> final(self).entries@.len() == old(self).entries@.len() + methods@.len(),
            r is Ok ==> forall|k: int|
                0 <= k < methods@.len() ==> {
                    let row = #[trigger] final(self).entries@[old(self).entries@.len() + k];
                    row.0@ == service@ && row.1@ == methods@[k].0@
                },
            r is Ok ==> forall|j: int|
                0 <= j < old(self).entries@.len() ==> final(self).entries@[j] == old(
                    self,
                ).entries@[j],
    {
        let ghost all = methods@;
        let mut batch = methods;
        let n = batch.len();
        let ghost base = self.entries@.len();
        let mut k: usize = 0;
        // take rows from the front so their order is kept
        while k < n
            invariant
                0 <= k <= n,
                self.wf(),
                n == k + batch@.len(),
                all == methods@,
                self.entries@.len() == base + k,
                forall|j: int| 0 <= j < base ==> self.entries@[j] == old(self).entries@[j],
                base == old(self).entries@.len(),
                forall|t: int|
                    0 <= t < k ==> {
                        let row = #[trigger] self.entries@[base + t];
                        row.0@ == service@
                    },
                forall|t: int|
                    0 <= t < k ==> (#[trigger] self.entries@[base + t]).1@ == all[t].0@,
                n == all.len(),
                batch@ =~= all.skip(k as int),
                forall|t: int|
                    0 <= t < k ==> !(#[trigger] name_taken_at(
                        old(self).entries@,
                        service@,
                        all,
                        t,
                    )),
            decreases n - k,
        {
            let ghost prev = *self;
            let (name, m) = batch.remove(0);
            let ghost namev = name@;
            proof {
                assert(namev == all[k as int].0@);
            }
            if self.find(service, &name).is_some() {
                proof {
                    // the taken name is a collision of the batch's `k`th
                    // method, with an old row or with an earlier method
                    let i = choose|i: int|
                        0 <= i < prev.entries@.len() && (#[trigger] prev.entries@[i]).0@
                            == service@ && prev.entries@[i].1@ == namev;
                    if i < base {
                        assert(old(self).entries@[i].0@ == service@ && old(self).entries@[i].1@
                            == all[k as int].0@);
                    } else {
                        let t = i - base;
                        assert(prev.entries@[base + t].1@ == all[t].0@);
                        assert(all[t].0@ == all[k as int].0@ && 0 <= t < k);
                    }
                    assert(name_taken_at(old(self).entries@, service@, all, k as int));
                    assert(spec_register_collides(old(self).entries@, service@, all));
                }
                return Err(DuplicateMethodError);
            }
            proof {
                // no old row and no earlier method carries this name
                assert(!prev.spec_has(service@, namev));
                assert forall|i: int|
                    0 <= i < old(self).entries@.len() implies !((#[trigger] old(
                        self,
                    ).entries@[i]).0@ == service@ && old(self).entries@[i].1@ == namev) by {
                    assert(prev.entries@[i] == old(self).entries@[i]);
                    if prev.entries@[i].0@ == service@ && prev.entries@[i].1@ == namev {
                        assert(prev.spec_has(service@, namev));
                    }
                }
                assert forall|t: int| 0 <= t < k implies (#[trigger] all[t]).0@ != namev by {
                    if all[t].0@ == namev {
                        assert((#[trigger] prev.entries@[base + t]).0@ == service@
                            && prev.entries@[base + t].1@ == namev);
                        assert(prev.spec_has(service@, namev));
                    }
                }
                assert(!name_taken_at(old(self).entries@, service@, all, k as int));
            }
            self.entries.push((service.clone(), name, m));
            proof {
                let len = self.entries@.len();
                assert(self.entries@[len - 1].0@ == service@);
                assert(self.entries@[len - 1].1@ == namev);
                assert forall|i: int, j: int|
                    0 <= i < j < len implies !same_name(self.entries@, i, j) by {
                    if j < len - 1 {
                        assert(self.entries@[i] == prev.entries@[i]);
                        assert(self.entries@[j] == prev.entries@[j]);
                        assert(!same_name(prev.entries@, i, j));
                    } else {
                        assert(self.entries@[i] == prev.entries@[i]);
                        if self.entries@[i].0@ == service@ && self.entries@[i].1@ == namev {
                            assert(0 <= i < prev.entries@.len() && (#[trigger] prev.entries@[
                                i
                            ]).0@ == service@ && prev.entries@[i].1@ == namev);
                            assert(prev.spec_has(service@, namev));
                        }
                    }
                }

            }
            k = k + 1;
        }
        proof {
            assert(!spec_register_collides(old(self).entries@, service@, all)) by {
                if spec_register_collides(old(self).entries@, service@, all) {
                    let k0 = choose|k0: int|
                        0 <= k0 < all.len() && name_taken_at(old(self).entries@, service@, all, k0);
                    assert(!name_taken_at(old(self).entries@, service@, all, k0));
                }
            }
        }
        Ok(())
    }

    /// Constant lookup result: the method registered under this full name,
    /// or nothing when none is.
    pub fn lookup(&self, service: &String, method: &String) -> (r: Option<&M>)
        requires
            self.wf(),
        ensures
            r is Some <==> self.spec_has(service@, method@),
            match r {
                Some(m) => exists|i: int|
                    0 <= i < self.entries@.len() && (#[trigger] self.entries@[i]).0@ == service@
                        && self.entries@[i].1@ == method@ && m == self.entries@[i].2,
                None => true,
            },
    {
        match self.find(service, method) {
            Some(i) => Some(&self.entries[i].2),
            None => None,
        }
    }
}

} // verus!
