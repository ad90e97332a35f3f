//! A fully validated, resolved generation request: the boundary between
//! parsing (`cli`) and generation.

use vstd::prelude::*;

use crate::domain::http_method::{rank, HttpMethod};
use crate::domain::resource_name::ResourceName;
use crate::error::CliError;

verus! {

/// `[m]` when `m` occurs in `ms`, else nothing.
pub open spec fn keep_if_present(ms: Seq<HttpMethod>, m: HttpMethod) -> Seq<HttpMethod> {
    if ms.contains(m) {
        seq![m]
    } else {
        Seq::<HttpMethod>::empty()
    }
}

/// The methods of `ms`, sorted in canonical order, each once.
pub open spec fn normalized(ms: Seq<HttpMethod>) -> Seq<HttpMethod> {
    keep_if_present(ms, HttpMethod::Get) + keep_if_present(ms, HttpMethod::Post)
        + keep_if_present(ms, HttpMethod::Put) + keep_if_present(ms, HttpMethod::Delete)
}

/// `s` is strictly increasing in canonical order (sorted, no duplicates).
pub open spec fn strictly_sorted(s: Seq<HttpMethod>) -> bool {
    forall|i: int, j: int| 0 <= i < j < s.len() ==> rank(#[trigger] s[i]) < rank(#[trigger] s[j])
}

/// A fully validated, resolved generation request.
#[derive(Debug, Clone)]
pub struct GenerationRequest {
    pub name: ResourceName,
    /// Sorted, deduped, guaranteed non-empty when built by [`GenerationRequest::new`].
    pub methods: Vec<HttpMethod>,
    pub target_dir: String,
    pub force: bool,
}

/// Whether `m` occurs in `v`.
fn contains_method(v: &Vec<HttpMethod>, m: HttpMethod) -> (r: bool)
    ensures
        r == v@.contains(m),
{
    let n = v.len();
    let mut i: usize = 0;
    while i < n
        invariant
            n == v@.len(),
            i <= n,
            forall|k: int| 0 <= k < i ==> v@[k] != m,
        decreases n - i,
    {
        if v[i] == m {
            assert(v@[i as int] == m);
            return true;
        }
        i = i + 1;
    }
    false
}

impl GenerationRequest {
    /// Build a request, normalising the method set (sort + dedup) and
    /// rejecting an empty selection.
    pub fn new(name: ResourceName, methods: Vec<HttpMethod>, target_dir: String, force: bool) -> (r:
        Result<GenerationRequest, CliError>)
        ensures
            r is Ok <==> methods@.len() > 0,
            r matches Ok(req) ==> {
                &&& req.name@ == name@
                &&& req.methods@ == normalized(methods@)
                &&& req.target_dir@ == target_dir@
                &&& req.force == force
            },
            r matches Err(e) ==> e is NoMethods,
    {
        let mut sorted: Vec<HttpMethod> = Vec::new();
        if contains_method(&methods, HttpMethod::Get) {
            sorted.push(HttpMethod::Get);
        }
        if contains_method(&methods, HttpMethod::Post) {
            sorted.push(HttpMethod::Post);
        }
        if contains_method(&methods, HttpMethod::Put) {
            sorted.push(HttpMethod::Put);
        }
        if contains_method(&methods, HttpMethod::Delete) {
            sorted.push(HttpMethod::Delete);
        }
        assert(sorted@ =~= normalized(methods@));
        if sorted.len() == 0 {
            proof {
                if methods@.len() > 0 {
                    let m = methods@[0];
                    assert(methods@.contains(m));
                    assert(normalized(methods@).len() > 0);
                }
            }
            return Err(CliError::NoMethods);
        }
        proof {
            assert(methods@.len() > 0) by {
                if methods@.len() == 0 {
                    assert(normalized(methods@) =~= Seq::<HttpMethod>::empty());
                }
            }
        }
        Ok(GenerationRequest { name, methods: sorted, target_dir, force })
    }
}

/// The normalised method list is sorted without duplicates and holds exactly
/// the methods of the input.
pub proof fn lemma_normalized_sorted_and_same_methods(ms: Seq<HttpMethod>)
    ensures
        strictly_sorted(normalized(ms)),
        forall|m: HttpMethod| normalized(ms).contains(m) <==> ms.contains(m),
{
    let n = normalized(ms);
    assert forall|m: HttpMethod| n.contains(m) <==> ms.contains(m) by {
        if ms.contains(m) {
            match m {
                HttpMethod::Get => assert(n[0] == m),
                HttpMethod::Post => assert(n[keep_if_present(ms, HttpMethod::Get).len() as int] == m),
                HttpMethod::Put => assert(n[(keep_if_present(ms, HttpMethod::Get).len()
                    + keep_if_present(ms, HttpMethod::Post).len()) as int] == m),
                HttpMethod::Delete => assert(n[n.len() - 1] == m),
            }
        }
        if n.contains(m) {
            let i = choose|i: int| 0 <= i < n.len() && n[i] == m;
        }
    }
}

/// A list that is already sorted without duplicates is its own normal form.
pub proof fn lemma_normalized_of_sorted(s: Seq<HttpMethod>)
    requires
        strictly_sorted(s),
    ensures
        normalized(s) == s,
{
    lemma_normalized_sorted_and_same_methods(s);
    lemma_sorted_same_elements_equal(normalized(s), s);
}

/// Normalising twice changes nothing.
pub proof fn lemma_normalize_idempotent(ms: Seq<HttpMethod>)
    ensures
        normalized(normalized(ms)) == normalized(ms),
{
    lemma_normalized_sorted_and_same_methods(ms);
    lemma_normalized_of_sorted(normalized(ms));
}

/// Two sorted, duplicate-free lists with the same methods are equal.
proof fn lemma_sorted_same_elements_equal(a: Seq<HttpMethod>, b: Seq<HttpMethod>)
    requires
        strictly_sorted(a),
        strictly_sorted(b),
        forall|m: HttpMethod| a.contains(m) <==> b.contains(m),
    ensures
        a == b,
    decreases a.len() + b.len(),
{
    if a.len() == 0 {
        if b.len() > 0 {
            assert(b.contains(b[0]));
        }
        assert(a =~= b);
    } else if b.len() == 0 {
        assert(a.contains(a[0]));
    } else {
        // the first elements are the minima of the same set
        assert(a.contains(a[0]));
        assert(b.contains(b[0]));
        let ia = choose|i: int| 0 <= i < a.len() && a[i] == b[0];
        let ib = choose|i: int| 0 <= i < b.len() && b[i] == a[0];
        if ia > 0 {
            assert(rank(a[0]) < rank(a[ia]));
        }
        if ib > 0 {
            assert(rank(b[0]) < rank(b[ib]));
        }
        assert(a[0] == b[0]);
        let a1 = a.drop_first();
        let b1 = b.drop_first();
        assert forall|m: HttpMethod| a1.contains(m) <==> b1.contains(m) by {
            if a1.contains(m) {
                let i = choose|i: int| 0 <= i < a1.len() && a1[i] == m;
                assert(a[i + 1] == m);
                assert(rank(a[0]) < rank(a[i + 1]));
                assert(b.contains(m));
                let j = choose|j: int| 0 <= j < b.len() && b[j] == m;
                assert(j != 0);
                assert(b1[j - 1] == m);
            }
            if b1.contains(m) {
                let i = choose|i: int| 0 <= i < b1.len() && b1[i] == m;
                assert(b[i + 1] == m);
                assert(rank(b[0]) < rank(b[i + 1]));
                assert(a.contains(m));
                let j = choose|j: int| 0 <= j < a.len() && a[j] == m;
                assert(j != 0);
                assert(a1[j - 1] == m);
            }
        }
        assert(strictly_sorted(a1)) by {
            assert forall|i: int, j: int| 0 <= i < j < a1.len() implies rank(#[trigger] a1[i]) < rank(#[trigger] a1[j]) by {
                assert(a1[i] == a[i + 1]);
                assert(a1[j] == a[j + 1]);
            }
        }
        assert(strictly_sorted(b1)) by {
            assert forall|i: int, j: int| 0 <= i < j < b1.len() implies rank(#[trigger] b1[i]) < rank(#[trigger] b1[j]) by {
                assert(b1[i] == b[i + 1]);
                assert(b1[j] == b[j + 1]);
            }
        }
        lemma_sorted_same_elements_equal(a1, b1);
        assert(a =~= b) by {
            assert forall|i: int| 0 <= i < a.len() implies a[i] == b[i] by {
                if i > 0 {
                    assert(a[i] == a1[i - 1]);
                    assert(b[i] == b1[i - 1]);
                }
            }
        }
    }
}

} // verus!
