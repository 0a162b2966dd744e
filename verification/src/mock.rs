//! Operator-supplied mock rules for far calls, and best-match resolution.

use vstd::prelude::*;

use crate::values::Address;
use crate::values::Word256;

verus! {

/// Match criteria of a mocked call: a target address, an optional value
/// constraint, and a calldata prefix.
#[derive(Debug, Clone)]
pub struct MockCall {
    /// The callee address the rule applies to.
    pub address: Address,
    /// If set, the rule applies only to calls transferring exactly this value.
    pub value: Option<Word256>,
    /// The rule applies to calls whose calldata starts with these bytes.
    pub calldata: Vec<u8>,
}

/// Whether two rules share the same key: address, value constraint and
/// calldata bytes all equal.
pub open spec fn same_key(a: MockCall, b: MockCall) -> bool {
    &&& a.address == b.address
    &&& a.value == b.value
    &&& a.calldata@ == b.calldata@
}

/// Whether the rule's value constraint admits the queried value.
pub open spec fn value_admits(c: MockCall, value: Word256) -> bool {
    match c.value {
        Option::None => true,
        Option::Some(x) => x == value,
    }
}

/// Whether the rule applies to the queried call at all: address equal,
/// value constraint admitted, and stored calldata a prefix of the query's.
pub open spec fn is_candidate(c: MockCall, address: Address, calldata: Seq<u8>, value: Word256) -> bool {
    &&& c.address == address
    &&& value_admits(c, value)
    &&& c.calldata@.is_prefix_of(calldata)
}

/// A candidate whose stored calldata covers the queried calldata in full.
pub open spec fn is_exact(c: MockCall, address: Address, calldata: Seq<u8>, value: Word256) -> bool {
    &&& is_candidate(c, address, calldata, value)
    &&& c.calldata@.len() == calldata.len()
}

/// The entry a scan of `s` settles on for the query: the first exact
/// candidate if one exists, else the earliest candidate of maximal stored
/// calldata length. At most one index satisfies this.
pub open spec fn chosen_at(
    s: Seq<(MockCall, Vec<u8>)>,
    address: Address,
    calldata: Seq<u8>,
    value: Word256,
    i: int,
) -> bool {
    &&& 0 <= i < s.len()
    &&& is_candidate(s[i].0, address, calldata, value)
    &&& if is_exact(s[i].0, address, calldata, value) {
        forall|j: int| 0 <= j < i ==> !(#[trigger] is_exact(s[j].0, address, calldata, value))
    } else {
        &&& forall|j: int|
            0 <= j < s.len() ==> !(#[trigger] is_exact(s[j].0, address, calldata, value))
        &&& forall|j: int|
            0 <= j < s.len() && #[trigger] is_candidate(s[j].0, address, calldata, value)
                ==> s[j].0.calldata@.len() <= s[i].0.calldata@.len()
        &&& forall|j: int|
            0 <= j < i && #[trigger] is_candidate(s[j].0, address, calldata, value)
                ==> s[j].0.calldata@.len() < s[i].0.calldata@.len()
    }
}

/// At most one index of `s` is chosen for a query: the scan order and
/// the longest-prefix rule, with earliest-wins tie-breaking, settle on a
/// single entry, so a contract phrased over `chosen_at` pins the result.
pub proof fn lemma_chosen_at_unique(
    s: Seq<(MockCall, Vec<u8>)>,
    address: Address,
    calldata: Seq<u8>,
    value: Word256,
    i: int,
    j: int,
)
    requires
        chosen_at(s, address, calldata, value, i),
        chosen_at(s, address, calldata, value, j),
    ensures
        i == j,
{
    if i != j {
        let (a, b) = if i < j {
            (i, j)
        } else {
            (j, i)
        };
        if is_exact(s[a].0, address, calldata, value) {
            assert(false);
        } else {
            assert(is_candidate(s[a].0, address, calldata, value));
            assert(s[a].0.calldata@.len() < s[b].0.calldata@.len());
            assert(s[b].0.calldata@.len() <= s[a].0.calldata@.len());
        }
    }
}

/// Law: an exact match is always preferred over any partial match. If the
/// scan settles on index `i` and any exact candidate exists in the table,
/// then the settled entry is itself an exact candidate.
pub proof fn lemma_exact_match_preferred(
    s: Seq<(MockCall, Vec<u8>)>,
    address: Address,
    calldata: Seq<u8>,
    value: Word256,
    i: int,
    j: int,
)
    requires
        chosen_at(s, address, calldata, value, i),
        0 <= j < s.len(),
        is_exact(s[j].0, address, calldata, value),
    ensures
        is_exact(s[i].0, address, calldata, value),
{
}

/// Law: a rule inserted with a value constraint `Some(x)` never matches a
/// query whose value differs from `x`: if the scan settles on such a rule,
/// the queried value equals `x`.
pub proof fn lemma_value_constraint_respected(
    s: Seq<(MockCall, Vec<u8>)>,
    address: Address,
    calldata: Seq<u8>,
    value: Word256,
    i: int,
    x: Word256,
)
    requires
        chosen_at(s, address, calldata, value, i),
        s[i].0.value == Option::Some(x),
    ensures
        x == value,
{
}

fn clone_bytes(v: &Vec<u8>) -> (r: Vec<u8>)
    ensures
        r@ == v@,
{
    let mut out: Vec<u8> = Vec::new();
    let n = v.len();
    let mut i: usize = 0;
    while i < n
        invariant
            i <= n,
            n == v.len(),
            out@ == v@.take(i as int),
        decreases n - i,
    {
        out.push(v[i]);
        i = i + 1;
    }
    proof {
        assert(v@.take(n as int) == v@);
    }
    out
}

fn bytes_eq(a: &Vec<u8>, b: &Vec<u8>) -> (r: bool)
    ensures
        r == (a@ == b@),
{
    if a.len() != b.len() {
        return false;
    }
    let n = a.len();
    let mut i: usize = 0;
    while i < n
        invariant
            i <= n,
            n == a.len(),
            n == b.len(),
            forall|t: int| 0 <= t < i ==> a@[t] == b@[t],
        decreases n - i,
    {
        if a[i] != b[i] {
            return false;
        }
        i = i + 1;
    }
    proof {
        assert(a@ =~= b@);
    }
    true
}

fn prefix_of(p: &Vec<u8>, d: &[u8]) -> (r: bool)
    ensures
        r == p@.is_prefix_of(d@),
{
    if p.len() > d.len() {
        return false;
    }
    let n = p.len();
    let mut i: usize = 0;
    while i < n
        invariant
            i <= n,
            n == p.len(),
            n <= d@.len(),
            forall|t: int| 0 <= t < i ==> p@[t] == d@[t],
        decreases n - i,
    {
        if p[i] != d[i] {
            proof {
                assert(p@.is_prefix_of(d@) ==> p@[i as int] == d@.subrange(
                    0,
                    p@.len() as int,
                )[i as int]);
            }
            return false;
        }
        i = i + 1;
    }
    proof {
        assert(p@ =~= d@.subrange(0, p@.len() as int));
    }
    true
}

fn mock_call_key_eq(a: &MockCall, b: &MockCall) -> (r: bool)
    ensures
        r == same_key(*a, *b),
{
    let addr_eq = a.address == b.address;
    let value_eq = match (&a.value, &b.value) {
        (Option::None, Option::None) => true,
        (Option::Some(x), Option::Some(y)) => *x == *y,
        _ => false,
    };
    addr_eq && value_eq && bytes_eq(&a.calldata, &b.calldata)
}

/// The mock rules supplied so far, split into a value-constrained table
/// and an unconstrained one, each scanned in insertion order.
#[derive(Debug, Clone)]
pub struct MockedCalls {
    /// Rules with a value constraint; scanned before the unconstrained ones.
    with_value: Vec<(MockCall, Vec<u8>)>,
    /// Rules without a value constraint.
    without_value: Vec<(MockCall, Vec<u8>)>,
}

impl MockedCalls {
    /// The value-constrained rules, in insertion order.
    pub closed spec fn with_value_view(self) -> Seq<(MockCall, Vec<u8>)> {
        self.with_value@
    }

    /// The unconstrained rules, in insertion order.
    pub closed spec fn without_value_view(self) -> Seq<(MockCall, Vec<u8>)> {
        self.without_value@
    }

    /// All rules in scan order: value-constrained first, then unconstrained.
    pub open spec fn entries(self) -> Seq<(MockCall, Vec<u8>)> {
        self.with_value_view() + self.without_value_view()
    }

    /// Each rule sits in the table its value constraint demands, and no
    /// table holds two rules with the same key.
    pub open spec fn wf(self) -> bool {
        &&& forall|i: int|
            0 <= i < self.with_value_view().len() ==> (#[trigger] self.with_value_view()[i]).0.value is Some
        &&& forall|i: int|
            0 <= i < self.without_value_view().len() ==> (#[trigger] self.without_value_view()[i]).0.value is None
        &&& forall|i: int, j: int|
            0 <= i < j < self.with_value_view().len() ==> !same_key(
                (#[trigger] self.with_value_view()[i]).0,
                (#[trigger] self.with_value_view()[j]).0,
            )
        &&& forall|i: int, j: int|
            0 <= i < j < self.without_value_view().len() ==> !same_key(
                (#[trigger] self.without_value_view()[i]).0,
                (#[trigger] self.without_value_view()[j]).0,
            )
    }

    /// Create an empty rule set.
    pub fn new() -> (r: MockedCalls)
        ensures
            r.with_value_view() == Seq::<(MockCall, Vec<u8>)>::empty(),
            r.without_value_view() == Seq::<(MockCall, Vec<u8>)>::empty(),
            r.wf(),
    {
        MockedCalls { with_value: Vec::new(), without_value: Vec::new() }
    }

    /// Store a rule with its return data, in the value-constrained table
    /// if the rule names a value and in the unconstrained one otherwise.
    /// A rule re-inserted under a key already present replaces that key's
    /// return data in place; otherwise it is appended.
    pub fn insert(&mut self, call: MockCall, return_data: Vec<u8>)
        requires
            old(self).wf(),
        ensures
            final(self).wf(),
            call.value is Some ==> {
                &&& final(self).without_value_view() == old(self).without_value_view()
                &&& (forall|t: int|
                    0 <= t < old(self).with_value_view().len() ==> !same_key(
                        (#[trigger] old(self).with_value_view()[t]).0,
                        call,
                    )) ==> final(self).with_value_view() == old(self).with_value_view().push(
                    (call, return_data),
                )
                &&& forall|t: int|
                    0 <= t < old(self).with_value_view().len() && same_key(
                        (#[trigger] old(self).with_value_view()[t]).0,
                        call,
                    ) ==> final(self).with_value_view() == old(self).with_value_view().update(
                        t,
                        (call, return_data),
                    )
            },
            call.value is None ==> {
                &&& final(self).with_value_view() == old(self).with_value_view()
                &&& (forall|t: int|
                    0 <= t < old(self).without_value_view().len() ==> !same_key(
                        (#[trigger] old(self).without_value_view()[t]).0,
                        call,
                    )) ==> final(self).without_value_view() == old(
                    self,
                ).without_value_view().push((call, return_data))
                &&& forall|t: int|
                    0 <= t < old(self).without_value_view().len() && same_key(
                        (#[trigger] old(self).without_value_view()[t]).0,
                        call,
                    ) ==> final(self).without_value_view() == old(
                        self,
                    ).without_value_view().update(t, (call, return_data))
            },
    {
        let into_with_value = match &call.value {
            Option::Some(_) => true,
            Option::None => false,
        };
        if into_with_value {
            let n = self.with_value.len();
            let mut i: usize = 0;
            let mut found = false;
            let mut found_idx: usize = 0;
            while i < n && !found
                invariant
                    i <= n,
                    n == old(self).with_value_view().len(),
                    self.with_value@ == old(self).with_value_view(),
                    self.without_value@ == old(self).without_value_view(),
                    !found ==> forall|t: int|
                        0 <= t < i ==> !same_key(
                            (#[trigger] old(self).with_value_view()[t]).0,
                            call,
                        ),
                    found ==> found_idx < n && same_key(
                        old(self).with_value_view()[found_idx as int].0,
                        call,
                    ),
                decreases n - i + (if found { 0int } else { 1int }),
            {
                if mock_call_key_eq(&self.with_value[i].0, &call) {
                    found = true;
                    found_idx = i;
                } else {
                    i = i + 1;
                }
            }
            if found {
                let ghost t0 = found_idx as int;
                self.with_value[found_idx] = (call, return_data);
                proof {
                    let ov = old(self).with_value_view();
                    let fv = self.with_value_view();
                    assert forall|t: int|
                        0 <= t < ov.len() && same_key((#[trigger] ov[t]).0, call) implies fv
                        == ov.update(t, (call, return_data)) by {
                        if t != t0 {
                            if t < t0 {
                                assert(!same_key(ov[t].0, ov[t0].0));
                            } else {
                                assert(!same_key(ov[t0].0, ov[t].0));
                            }
                            assert(false);
                        }
                    }
                    assert forall|i: int, j: int| 0 <= i < j < fv.len() implies !same_key(
                        (#[trigger] fv[i]).0,
                        (#[trigger] fv[j]).0,
                    ) by {
                        if i == t0 {
                            assert(!same_key(ov[t0].0, ov[j].0));
                            assert(same_key(ov[t0].0, call));
                        } else if j == t0 {
                            assert(!same_key(ov[i].0, ov[t0].0));
                            assert(same_key(ov[t0].0, call));
                        } else {
                            assert(!same_key(ov[i].0, ov[j].0));
                        }
                    }
                    assert forall|i: int| 0 <= i < fv.len() implies ((#[trigger] fv[i]).0.value is Some) by {
                        if i != t0 {
                            assert((ov[i].0.value is Some));
                        }
                    }
                }
            } else {
                self.with_value.push((call, return_data));
                proof {
                    let ov = old(self).with_value_view();
                    let fv = self.with_value_view();
                    assert forall|i: int, j: int| 0 <= i < j < fv.len() implies !same_key(
                        (#[trigger] fv[i]).0,
                        (#[trigger] fv[j]).0,
                    ) by {
                        if j < ov.len() {
                            assert(!same_key(ov[i].0, ov[j].0));
                        } else {
                            assert(fv[j] == (call, return_data));
                            assert(!same_key(ov[i].0, call));
                        }
                    }
                    assert forall|i: int| 0 <= i < fv.len() implies ((#[trigger] fv[i]).0.value is Some) by {
                        if i < ov.len() {
                            assert((ov[i].0.value is Some));
                        } else {
                            assert(fv[i] == (call, return_data));
                        }
                    }
                }
            }
        } else {
            let n = self.without_value.len();
            let mut i: usize = 0;
            let mut found = false;
            let mut found_idx: usize = 0;
            while i < n && !found
                invariant
                    i <= n,
                    n == old(self).without_value_view().len(),
                    self.with_value@ == old(self).with_value_view(),
                    self.without_value@ == old(self).without_value_view(),
                    !found ==> forall|t: int|
                        0 <= t < i ==> !same_key(
                            (#[trigger] old(self).without_value_view()[t]).0,
                            call,
                        ),
                    found ==> found_idx < n && same_key(
                        old(self).without_value_view()[found_idx as int].0,
                        call,
                    ),
                decreases n - i + (if found { 0int } else { 1int }),
            {
                if mock_call_key_eq(&self.without_value[i].0, &call) {
                    found = true;
                    found_idx = i;
                } else {
                    i = i + 1;
                }
            }
            if found {
                let ghost t0 = found_idx as int;
                self.without_value[found_idx] = (call, return_data);
                proof {
                    let ov = old(self).without_value_view();
                    let fv = self.without_value_view();
                    assert forall|t: int|
                        0 <= t < ov.len() && same_key((#[trigger] ov[t]).0, call) implies fv
                        == ov.update(t, (call, return_data)) by {
                        if t != t0 {
                            if t < t0 {
                                assert(!same_key(ov[t].0, ov[t0].0));
                            } else {
                                assert(!same_key(ov[t0].0, ov[t].0));
                            }
                            assert(false);
                        }
                    }
                    assert forall|i: int, j: int| 0 <= i < j < fv.len() implies !same_key(
                        (#[trigger] fv[i]).0,
                        (#[trigger] fv[j]).0,
                    ) by {
                        if i == t0 {
                            assert(!same_key(ov[t0].0, ov[j].0));
                            assert(same_key(ov[t0].0, call));
                        } else if j == t0 {
                            assert(!same_key(ov[i].0, ov[t0].0));
                            assert(same_key(ov[t0].0, call));
                        } else {
                            assert(!same_key(ov[i].0, ov[j].0));
                        }
                    }
                    assert forall|i: int| 0 <= i < fv.len() implies ((#[trigger] fv[i]).0.value is None) by {
                        if i != t0 {
                            assert((ov[i].0.value is None));
                        }
                    }
                }
            } else {
                self.without_value.push((call, return_data));
                proof {
                    let ov = old(self).without_value_view();
                    let fv = self.without_value_view();
                    assert forall|i: int, j: int| 0 <= i < j < fv.len() implies !same_key(
                        (#[trigger] fv[i]).0,
                        (#[trigger] fv[j]).0,
                    ) by {
                        if j < ov.len() {
                            assert(!same_key(ov[i].0, ov[j].0));
                        } else {
                            assert(fv[j] == (call, return_data));
                            assert(!same_key(ov[i].0, call));
                        }
                    }
                    assert forall|i: int| 0 <= i < fv.len() implies ((#[trigger] fv[i]).0.value is None) by {
                        if i < ov.len() {
                            assert((ov[i].0.value is None));
                        } else {
                            assert(fv[i] == (call, return_data));
                        }
                    }
                }
            }
        }
    }

    /// Remove every rule from both tables.
    pub fn clear(&mut self)
        ensures
            final(self).with_value_view() == Seq::<(MockCall, Vec<u8>)>::empty(),
            final(self).without_value_view() == Seq::<(MockCall, Vec<u8>)>::empty(),
            final(self).wf(),
    {
        self.with_value.clear();
        self.without_value.clear();
    }

    /// Resolve the best rule for a concrete call, scanning the
    /// value-constrained table first and the unconstrained one second,
    /// both in insertion order. An exact calldata match ends the scan at
    /// once; otherwise the earliest candidate with the longest stored
    /// calldata prefix wins; with no candidate the result is `None`.
    pub fn get_matching_return_data(
        &self,
        code_address: Address,
        actual_calldata: &[u8],
        actual_value: Word256,
    ) -> (r: Option<Vec<u8>>)
        ensures
            (r is None) <==> (forall|j: int|
                0 <= j < self.entries().len() ==> !is_candidate(
                    (#[trigger] self.entries()[j]).0,
                    code_address,
                    actual_calldata@,
                    actual_value,
                )),
            r matches Some(data) ==> exists|i: int|
                chosen_at(self.entries(), code_address, actual_calldata@, actual_value, i)
                    && data@ == self.entries()[i].1@,
    {
        let ghost s = self.entries();
        let ghost cd = actual_calldata@;
        let wlen = self.with_value.len();
        let wolen = self.without_value.len();
        proof {
            assert(s.len() == wlen + wolen);
            assert(forall|t: int| 0 <= t < wlen ==> s[t] == self.with_value@[t]);
            assert(forall|t: int|
                wlen <= t < s.len() ==> s[t] == self.without_value@[t - wlen]);
        }
        // Best partial candidate so far: which table it sits in, its index
        // there, and its stored calldata length.
        let mut have_best = false;
        let mut best_in_second = false;
        let mut best_idx: usize = 0;
        let mut best_len: usize = 0;
        let ghost mut gb: int = 0;

        let mut i: usize = 0;
        while i < wlen
            invariant
                i <= wlen,
                wlen == self.with_value.len(),
                wolen == self.without_value.len(),
                s == self.entries(),
                cd == actual_calldata@,
                s.len() == wlen + wolen,
                forall|t: int| 0 <= t < wlen ==> s[t] == self.with_value@[t],
                forall|t: int| wlen <= t < s.len() ==> s[t] == self.without_value@[t - wlen],
                forall|t: int|
                    0 <= t < i ==> !(#[trigger] is_exact(s[t].0, code_address, cd, actual_value)),
                !have_best ==> forall|t: int|
                    0 <= t < i ==> !(#[trigger] is_candidate(
                        s[t].0,
                        code_address,
                        cd,
                        actual_value,
                    )),
                have_best ==> {
                    &&& !best_in_second
                    &&& best_idx < i
                    &&& gb == best_idx
                    &&& is_candidate(s[gb].0, code_address, cd, actual_value)
                    &&& s[gb].0.calldata@.len() == best_len
                    &&& forall|t: int|
                        0 <= t < i && #[trigger] is_candidate(s[t].0, code_address, cd, actual_value)
                            ==> s[t].0.calldata@.len() <= best_len
                    &&& forall|t: int|
                        0 <= t < gb && #[trigger] is_candidate(s[t].0, code_address, cd, actual_value)
                            ==> s[t].0.calldata@.len() < best_len
                },
            decreases wlen - i,
        {
            let addr_ok = self.with_value[i].0.address == code_address;
            let value_ok = match &self.with_value[i].0.value {
                Option::None => true,
                Option::Some(x) => *x == actual_value,
            };
            if addr_ok && value_ok && prefix_of(&self.with_value[i].0.calldata, actual_calldata) {
                if self.with_value[i].0.calldata.len() == actual_calldata.len() {
                    let out = clone_bytes(&self.with_value[i].1);
                    proof {
                        assert(is_exact(s[i as int].0, code_address, cd, actual_value));
                        assert(chosen_at(s, code_address, cd, actual_value, i as int));
                        assert(out@ == s[i as int].1@);
                    }
                    return Some(out);
                }
                if !have_best || self.with_value[i].0.calldata.len() > best_len {
                    have_best = true;
                    best_in_second = false;
                    best_idx = i;
                    best_len = self.with_value[i].0.calldata.len();
                    proof {
                        gb = i as int;
                    }
                }
            }
            i = i + 1;
        }

        let mut j: usize = 0;
        while j < wolen
            invariant
                j <= wolen,
                wlen == self.with_value.len(),
                wolen == self.without_value.len(),
                s == self.entries(),
                cd == actual_calldata@,
                s.len() == wlen + wolen,
                forall|t: int| 0 <= t < wlen ==> s[t] == self.with_value@[t],
                forall|t: int| wlen <= t < s.len() ==> s[t] == self.without_value@[t - wlen],
                forall|t: int|
                    0 <= t < wlen + j ==> !(#[trigger] is_exact(
                        s[t].0,
                        code_address,
                        cd,
                        actual_value,
                    )),
                !have_best ==> forall|t: int|
                    0 <= t < wlen + j ==> !(#[trigger] is_candidate(
                        s[t].0,
                        code_address,
                        cd,
                        actual_value,
                    )),
                have_best ==> {
                    &&& gb == if best_in_second {
                        wlen + best_idx
                    } else {
                        best_idx as int
                    }
                    &&& best_in_second ==> best_idx < j
                    &&& !best_in_second ==> best_idx < wlen
                    &&& 0 <= gb < wlen + j
                    &&& is_candidate(s[gb].0, code_address, cd, actual_value)
                    &&& s[gb].0.calldata@.len() == best_len
                    &&& forall|t: int|
                        0 <= t < wlen + j && #[trigger] is_candidate(
                            s[t].0,
                            code_address,
                            cd,
                            actual_value,
                        ) ==> s[t].0.calldata@.len() <= best_len
                    &&& forall|t: int|
                        0 <= t < gb && #[trigger] is_candidate(s[t].0, code_address, cd, actual_value)
                            ==> s[t].0.calldata@.len() < best_len
                },
            decreases wolen - j,
        {
            let addr_ok = self.without_value[j].0.address == code_address;
            let value_ok = match &self.without_value[j].0.value {
                Option::None => true,
                Option::Some(x) => *x == actual_value,
            };
            if addr_ok && value_ok && prefix_of(&self.without_value[j].0.calldata, actual_calldata) {
                if self.without_value[j].0.calldata.len() == actual_calldata.len() {
                    let out = clone_bytes(&self.without_value[j].1);
                    proof {
                        assert(is_exact(s[wlen + j].0, code_address, cd, actual_value));
                        assert(chosen_at(s, code_address, cd, actual_value, wlen + j));
                        assert(out@ == s[wlen + j].1@);
                    }
                    return Some(out);
                }
                if !have_best || self.without_value[j].0.calldata.len() > best_len {
                    have_best = true;
                    best_in_second = true;
                    best_idx = j;
                    best_len = self.without_value[j].0.calldata.len();
                    proof {
                        gb = wlen + j as int;
                    }
                }
            }
            j = j + 1;
        }

        if have_best {
            proof {
                assert(chosen_at(s, code_address, cd, actual_value, gb));
            }
            if best_in_second {
                Some(clone_bytes(&self.without_value[best_idx].1))
            } else {
                Some(clone_bytes(&self.with_value[best_idx].1))
            }
        } else {
            None
        }
    }
}

impl Default for MockedCalls {
    /// The default rule set is empty.
    fn default() -> (r: MockedCalls)
        ensures
            r.with_value_view() == Seq::<(MockCall, Vec<u8>)>::empty(),
            r.without_value_view() == Seq::<(MockCall, Vec<u8>)>::empty(),
            r.wf(),
    {
        MockedCalls::new()
    }
}

} // verus!
