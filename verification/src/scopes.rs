//! A semantic model of the emitted artifacts.
//!
//! A view instance is modeled as a pair of borrow-scope identifiers plus one
//! borrow per member field, each bound to the scope its mode selects. The
//! narrowing operation keeps the shared scope and every shared-mode borrow
//! fixed and rebinds the exclusive side to a shorter inner scope; the law
//! below shows the shared binding survives narrowing to any nesting depth.

use vstd::prelude::*;

use crate::ast::Mode;
use crate::emit::CtorExpansion;
use crate::text::copy_chars;

verus! {

/// One field borrow of a live view instance, bound to a scope.
pub struct FieldBorrow {
    pub field: Vec<char>,
    pub mode: Mode,
    pub scope: u64,
}

/// A live view instance: its two scope bindings and its field borrows.
pub struct ViewInstance {
    pub shared_scope: u64,
    pub exclusive_scope: u64,
    pub borrows: Vec<FieldBorrow>,
}

/// Well-formedness: every borrow is bound to the scope its mode selects.
pub open spec fn instance_wf(v: ViewInstance) -> bool {
    forall|k: int|
        0 <= k < v.borrows@.len() ==> (#[trigger] v.borrows@[k]).scope == (
        if v.borrows@[k].mode == Mode::Shared {
            v.shared_scope
        } else {
            v.exclusive_scope
        })
}

/// Build a view instance from an expanded constructor: each initializer
/// borrows its field off the owner at the scope its mode selects. A view
/// with no member fields is still instantiable.
pub fn instantiate(e: &CtorExpansion, shared_scope: u64, exclusive_scope: u64) -> (v: ViewInstance)
    ensures
        v.shared_scope == shared_scope,
        v.exclusive_scope == exclusive_scope,
        v.borrows@.len() == e.inits@.len(),
        forall|k: int|
            0 <= k < e.inits@.len() ==> (#[trigger] v.borrows@[k]).field@ == e.inits@[k].field@
                && v.borrows@[k].mode == e.inits@[k].mode,
        instance_wf(v),
{
    let mut borrows: Vec<FieldBorrow> = Vec::new();
    let mut i: usize = 0;
    while i < e.inits.len()
        invariant
            i <= e.inits.len(),
            borrows@.len() == i,
            forall|k: int|
                0 <= k < i ==> (#[trigger] borrows@[k]).field@ == e.inits@[k].field@
                    && borrows@[k].mode == e.inits@[k].mode && borrows@[k].scope == (
                if e.inits@[k].mode == Mode::Shared {
                    shared_scope
                } else {
                    exclusive_scope
                }),
        decreases e.inits.len() - i,
    {
        let scope = if let Mode::Shared = e.inits[i].mode {
            shared_scope
        } else {
            exclusive_scope
        };
        borrows.push(
            FieldBorrow { field: copy_chars(&e.inits[i].field), mode: e.inits[i].mode, scope },
        );
        i += 1;
    }
    ViewInstance { shared_scope, exclusive_scope, borrows }
}

/// `r` is `v` narrowed to the inner scope `inner`: the shared scope and every
/// shared-mode borrow are unchanged; the exclusive scope and every
/// exclusive-mode borrow are rebound to `inner`.
pub open spec fn narrows_to(r: ViewInstance, v: ViewInstance, inner: u64) -> bool {
    &&& r.shared_scope == v.shared_scope
    &&& r.exclusive_scope == inner
    &&& r.borrows@.len() == v.borrows@.len()
    &&& forall|k: int|
        0 <= k < v.borrows@.len() ==> {
            &&& (#[trigger] r.borrows@[k]).field@ == v.borrows@[k].field@
            &&& r.borrows@[k].mode == v.borrows@[k].mode
            &&& r.borrows@[k].scope == (if v.borrows@[k].mode == Mode::Shared {
                v.borrows@[k].scope
            } else {
                inner
            })
        }
}

/// The narrowing operation on a live view: re-share every shared-mode borrow
/// at the original shared scope and re-borrow every exclusive-mode borrow at
/// the ephemeral inner scope.
pub fn reborrow(v: &ViewInstance, inner: u64) -> (r: ViewInstance)
    ensures
        narrows_to(r, *v, inner),
        instance_wf(*v) ==> instance_wf(r),
{
    let mut borrows: Vec<FieldBorrow> = Vec::new();
    let mut i: usize = 0;
    while i < v.borrows.len()
        invariant
            i <= v.borrows.len(),
            borrows@.len() == i,
            forall|k: int|
                0 <= k < i ==> (#[trigger] borrows@[k]).field@ == v.borrows@[k].field@
                    && borrows@[k].mode == v.borrows@[k].mode && borrows@[k].scope == (
                if v.borrows@[k].mode == Mode::Shared {
                    v.borrows@[k].scope
                } else {
                    inner
                }),
        decreases v.borrows.len() - i,
    {
        let scope = if let Mode::Shared = v.borrows[i].mode {
            v.borrows[i].scope
        } else {
            inner
        };
        borrows.push(
            FieldBorrow {
                field: copy_chars(&v.borrows[i].field),
                mode: v.borrows[i].mode,
                scope,
            },
        );
        i += 1;
    }
    ViewInstance { shared_scope: v.shared_scope, exclusive_scope: inner, borrows }
}

/// Law: narrowing is transitive and shared-mode-preserving. Along any chain
/// of narrowings, every instance keeps the original's shared scope, and every
/// shared-mode borrow stays bound to its original scope, whatever the nesting
/// depth.
pub proof fn lemma_narrowing_preserves_shared(chain: Seq<ViewInstance>, inners: Seq<u64>)
    requires
        chain.len() == inners.len() + 1,
        forall|i: int|
            0 <= i < inners.len() ==> narrows_to(#[trigger] chain[i + 1], chain[i], inners[i]),
    ensures
        forall|i: int|
            0 <= i < chain.len() ==> (#[trigger] chain[i]).shared_scope == chain[0].shared_scope,
        forall|i: int|
            0 <= i < chain.len() ==> (#[trigger] chain[i]).borrows@.len()
                == chain[0].borrows@.len(),
        forall|i: int, k: int|
            0 <= i < chain.len() && 0 <= k < chain[0].borrows@.len() ==> {
                &&& (#[trigger] chain[i].borrows@[k]).field@ == chain[0].borrows@[k].field@
                &&& chain[i].borrows@[k].mode == chain[0].borrows@[k].mode
                &&& (chain[0].borrows@[k].mode == Mode::Shared ==> chain[i].borrows@[k].scope
                    == chain[0].borrows@[k].scope)
            },
    decreases chain.len(),
{
    if inners.len() == 0 {
    } else {
        let shorter = chain.drop_last();
        let fewer = inners.drop_last();
        assert(forall|i: int| 0 <= i < shorter.len() ==> #[trigger] shorter[i] == chain[i]);
        assert(forall|i: int| 0 <= i < fewer.len() ==> #[trigger] fewer[i] == inners[i]);
        assert forall|i: int|
            0 <= i < fewer.len() implies narrows_to(
            #[trigger] shorter[i + 1],
            shorter[i],
            fewer[i],
        ) by {
            assert(narrows_to(chain[i + 1], chain[i], inners[i]));
        }
        lemma_narrowing_preserves_shared(shorter, fewer);
        let n = chain.len() - 1;
        assert(narrows_to(chain[n], chain[n - 1], inners[n - 1]));
        assert(shorter[0] == chain[0]);
        assert(shorter[n - 1] == chain[n - 1]);
        assert forall|i: int|
            0 <= i < chain.len() implies (#[trigger] chain[i]).shared_scope
            == chain[0].shared_scope && chain[i].borrows@.len() == chain[0].borrows@.len() by {
            if i < n {
                assert(shorter[i] == chain[i]);
                assert(shorter[i].shared_scope == shorter[0].shared_scope);
                assert(shorter[i].borrows@.len() == shorter[0].borrows@.len());
            } else {
                assert(chain[n - 1].shared_scope == chain[0].shared_scope);
                assert(chain[n - 1].borrows@.len() == chain[0].borrows@.len());
            }
        }
        assert forall|i: int, k: int|
            0 <= i < chain.len() && 0 <= k < chain[0].borrows@.len() implies {
            &&& (#[trigger] chain[i].borrows@[k]).field@ == chain[0].borrows@[k].field@
            &&& chain[i].borrows@[k].mode == chain[0].borrows@[k].mode
            &&& (chain[0].borrows@[k].mode == Mode::Shared ==> chain[i].borrows@[k].scope
                == chain[0].borrows@[k].scope)
        } by {
            if i < n {
                assert(shorter[i] == chain[i]);
                assert((#[trigger] shorter[i].borrows@[k]).field@ == shorter[0].borrows@[k].field@
                    && shorter[i].borrows@[k].mode == shorter[0].borrows@[k].mode && (
                shorter[0].borrows@[k].mode == Mode::Shared ==> shorter[i].borrows@[k].scope
                    == shorter[0].borrows@[k].scope));
            } else {
                assert(shorter[n - 1].borrows@[k].field@ == shorter[0].borrows@[k].field@
                    && shorter[n - 1].borrows@[k].mode == shorter[0].borrows@[k].mode && (
                shorter[0].borrows@[k].mode == Mode::Shared ==> shorter[n - 1].borrows@[k].scope
                    == shorter[0].borrows@[k].scope));
                assert(chain[n].borrows@[k].field@ == chain[n - 1].borrows@[k].field@);
                assert(chain[n].borrows@[k].mode == chain[n - 1].borrows@[k].mode);
            }
        }
    }
}

} // verus!
