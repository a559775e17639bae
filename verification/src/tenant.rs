//! The tenant filter: a request must name its tenant.

use vstd::prelude::*;
use crate::text::{
    chars_of, find_first, find_last, lemma_find_first, lemma_find_last, not_ws, skip_ws, trim,
    trim_start,
};

verus! {

/// The tenant filter rejects a request (401 `missing_tenant`) exactly when
/// its `x-tenant-id` is absent, empty or only whitespace.
pub fn tenant_missing(tenant_id: &str) -> (r: bool)
    ensures
        r == (trim(tenant_id@).len() == 0),
{
    let v = chars_of(tenant_id);
    let n = v.len();
    let lo = skip_ws(&v, 0, n);
    assert(v@.subrange(0, n as int) =~= tenant_id@);
    proof {
        let ts = trim_start(tenant_id@);
        assert(ts =~= v@.subrange(lo as int, n as int));
        if ts.len() > 0 {
            lemma_find_first(tenant_id@, not_ws());
            assert(ts[0] == v@[lo as int]);
            assert(not_ws()(ts[0]));
            lemma_find_last(ts, not_ws());
            match find_last(ts, not_ws()) {
                Some(i) => {},
                None => {
                    assert(!not_ws()(ts[0]));
                },
            }
        }
    }
    lo == n
}

} // verus!
