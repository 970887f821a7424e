//! Which trait implementations are shown: the exclusion rules and the
//! de-duplication by trait path.

use vstd::prelude::*;
use crate::json::{JsonValue, member, str_member, str_value, bool_member, array_at, has_non_null};
use crate::text::{starts_with, contains, chars_of, matches_at, contains_chars, str_eq, push_char};
use crate::model::{ParsedTraitImpl, TraitImplV, impls_view};

verus! {

/// The segment after the last `::` separator, separators being found left
/// to right without overlap; `cur` is the segment read so far.
pub open spec fn last_seg_from(s: Seq<char>, cur: Seq<char>) -> Seq<char>
    decreases s.len(),
{
    proof {
        reveal_strlit("::");
    }
    if s.len() == 0 {
        cur
    } else if starts_with(s, "::"@) {
        last_seg_from(s.skip(2), Seq::empty())
    } else {
        last_seg_from(s.skip(1), cur.push(s[0]))
    }
}

/// The simple name of a path: its last `::`-separated segment.
pub open spec fn simple_name(path: Seq<char>) -> Seq<char> {
    last_seg_from(path, Seq::empty())
}

/// The traits whose implementations are never shown.
pub open spec fn is_suppressed(name: Seq<char>) -> bool {
    name == "Send"@ || name == "Sync"@ || name == "Freeze"@ || name == "Unpin"@ || name
        == "UnwindSafe"@ || name == "RefUnwindSafe"@ || name == "Borrow"@ || name == "BorrowMut"@
        || name == "Into"@ || name == "From"@ || name == "TryInto"@ || name == "TryFrom"@ || name
        == "Any"@ || name == "CloneToUninit"@ || name == "ToOwned"@ || name
        == "StructuralPartialEq"@ || name == "ToString"@ || name == "IntoFuture"@
}

/// Whether an attribute is a derive attribute.
pub open spec fn is_derive_attr(a: JsonValue) -> bool {
    match str_value(a) {
        Some(s) => contains(s, "#[derive"@),
        None => false,
    }
}

/// Whether one of the record's attributes is a derive attribute.
pub open spec fn has_derive_attr(it: JsonValue) -> bool {
    match array_at(it, "attrs"@) {
        Some(a) => exists|i: int| 0 <= i < a@.len() && #[trigger] is_derive_attr(a@[i]),
        None => false,
    }
}

/// The trait path named by an implementation payload, if any.
pub open spec fn impl_trait_path(imp: JsonValue) -> Option<Seq<char>> {
    match member(imp, "trait"@) {
        Some(tr) => str_member(tr, "path"@),
        None => None,
    }
}

/// Whether the implementation with record `it` and payload `imp` is left
/// out: it is synthetic, its record carries a derive attribute, it is a
/// blanket implementation, or its trait's simple name is suppressed.
pub open spec fn impl_excluded(it: JsonValue, imp: JsonValue) -> bool {
    ||| bool_member(imp, "is_synthetic"@) == Some(true)
    ||| has_derive_attr(it)
    ||| has_non_null(imp, "blanket_impl"@)
    ||| (impl_trait_path(imp) matches Some(p) && is_suppressed(simple_name(p)))
}

/// Whether some implementation in `ts` is for trait path `p`.
pub open spec fn has_path(ts: Seq<TraitImplV>, p: Seq<char>) -> bool {
    exists|k: int| 0 <= k < ts.len() && (#[trigger] ts[k]).trait_path == p
}

/// The first implementation for each trait path, in encounter order.
pub open spec fn dedup_impls(ts: Seq<TraitImplV>) -> Seq<TraitImplV>
    decreases ts.len(),
{
    if ts.len() == 0 {
        Seq::empty()
    } else {
        let prev = dedup_impls(ts.drop_last());
        if has_path(prev, ts.last().trait_path) {
            prev
        } else {
            prev.push(ts.last())
        }
    }
}

/// The simple name of a path: its last `::`-separated segment.
pub fn simple_name_of(path: &str) -> (r: String)
    ensures
        r@ == simple_name(path@),
{
    let s = chars_of(path);
    let sep = chars_of("::");
    proof {
        reveal_strlit("::");
    }
    let mut cur = String::new();
    let mut i: usize = 0;
    assert(s@.skip(0) == s@);
    while i < s.len()
        invariant
            sep@ == "::"@,
            0 <= i <= s@.len(),
            simple_name(s@) == last_seg_from(s@.skip(i as int), cur@),
            s@ == path@,
        decreases s@.len() - i,
    {
        let ghost rest = s@.skip(i as int);
        proof {
            reveal_strlit("::");
        }
        if matches_at(&s, &sep, i) {
            assert(rest.take(2) == s@.subrange(i as int, i + 2));
            assert(rest.skip(2) == s@.skip(i + 2));
            cur = String::new();
            i = i + 2;
        } else {
            assert(!starts_with(rest, "::"@)) by {
                if 2 <= rest.len() {
                    assert(rest.take(2) == s@.subrange(i as int, i + 2));
                }
            }
            assert(rest.skip(1) == s@.skip(i + 1));
            push_char(&mut cur, s[i]);
            i = i + 1;
        }
    }
    assert(s@.skip(i as int).len() == 0);
    cur
}

/// Whether implementations of the trait with simple name `name` are never
/// shown.
pub fn is_suppressed_name(name: &str) -> (r: bool)
    ensures
        r == is_suppressed(name@),
{
    str_eq(name, "Send") || str_eq(name, "Sync") || str_eq(name, "Freeze") || str_eq(name, "Unpin")
        || str_eq(name, "UnwindSafe") || str_eq(name, "RefUnwindSafe") || str_eq(name, "Borrow")
        || str_eq(name, "BorrowMut") || str_eq(name, "Into") || str_eq(name, "From") || str_eq(
        name,
        "TryInto",
    ) || str_eq(name, "TryFrom") || str_eq(name, "Any") || str_eq(name, "CloneToUninit")
        || str_eq(name, "ToOwned") || str_eq(name, "StructuralPartialEq") || str_eq(
        name,
        "ToString",
    ) || str_eq(name, "IntoFuture")
}

fn derive_attr_present(it: &JsonValue) -> (r: bool)
    ensures
        r == has_derive_attr(*it),
{
    let attrs = match it.get("attrs") {
        Some(v) => match v.as_array() {
            Some(a) => a,
            None => {
                return false;
            },
        },
        None => {
            return false;
        },
    };
    let pat = chars_of("#[derive");
    let mut i: usize = 0;
    while i < attrs.len()
        invariant
            0 <= i <= attrs@.len(),
            array_at(*it, "attrs"@) == Some(*attrs),
            pat@ == "#[derive"@,
            forall|k: int| 0 <= k < i ==> !#[trigger] is_derive_attr(attrs@[k]),
        decreases attrs@.len() - i,
    {
        if let Some(s) = attrs[i].as_str() {
            let cs = chars_of(s.as_str());
            if contains_chars(&cs, &pat) {
                assert(is_derive_attr(attrs@[i as int]));
                assert(array_at(*it, "attrs"@) == Some(*attrs));
                let ghost found = array_at(*it, "attrs"@)->0;
                assert(found@[i as int] == attrs@[i as int]);
                assert(is_derive_attr(found@[i as int]));
                assert(has_derive_attr(*it));
                return true;
            }
        }
        i = i + 1;
    }
    false
}

/// Whether the implementation with record `it` and payload `imp` is left
/// out of what is shown.
pub fn should_filter_trait_impl(it: &JsonValue, imp: &JsonValue) -> (r: bool)
    ensures
        r == impl_excluded(*it, *imp),
{
    let synthetic = match imp.get("is_synthetic") {
        Some(v) => match v.as_bool() {
            Some(b) => b,
            None => false,
        },
        None => false,
    };
    if synthetic {
        return true;
    }
    if derive_attr_present(it) {
        return true;
    }
    let blanket = match imp.get("blanket_impl") {
        Some(v) => !v.is_null(),
        None => false,
    };
    if blanket {
        return true;
    }
    match imp.get("trait") {
        Some(tr) => match tr.get("path") {
            Some(pv) => match pv.as_str() {
                Some(p) => {
                    let name = simple_name_of(p.as_str());
                    is_suppressed_name(name.as_str())
                },
                None => false,
            },
            None => false,
        },
        None => false,
    }
}

/// Keeps the first implementation for each trait path, in encounter order;
/// later implementations of a trait already kept are dropped.
pub fn dedup_by_trait_path(impls: Vec<ParsedTraitImpl>) -> (r: Vec<ParsedTraitImpl>)
    ensures
        impls_view(r@) == dedup_impls(impls_view(impls@)),
{
    let ghost orig = impls_view(impls@);
    let len0 = impls.len();
    assert(orig.len() == len0);
    let mut rest = impls;
    let mut kept: Vec<ParsedTraitImpl> = Vec::new();
    let mut n: usize = 0;
    assert(impls_view(kept@) =~= Seq::<TraitImplV>::empty());
    assert(impls_view(rest@) =~= orig.skip(0));
    while rest.len() > 0
        invariant
            0 <= n <= orig.len(),
            orig.len() <= usize::MAX,
            impls_view(rest@) == orig.skip(n as int),
            impls_view(kept@) == dedup_impls(orig.take(n as int)),
        decreases rest@.len(),
    {
        let ghost before = rest@;
        assert(impls_view(before).len() == before.len());
        let t = rest.remove(0);
        assert(rest@ == before.remove(0));
        assert(orig.skip(n as int)[0] == t@) by {
            assert(impls_view(before)[0] == before[0]@);
        }
        assert forall|j: int| 0 <= j < rest@.len() implies impls_view(rest@)[j] == orig.skip(n + 1)[j] by {
            assert(rest@[j] == before[j + 1]);
            assert(impls_view(before)[j + 1] == before[j + 1]@);
        }
        assert(impls_view(rest@) =~= orig.skip(n + 1));
        assert(orig.take(n + 1).drop_last() =~= orig.take(n as int));
        let ghost prev = impls_view(kept@);
        let mut seen = false;
        let mut k: usize = 0;
        while k < kept.len()
            invariant
                0 <= k <= kept@.len(),
                prev == impls_view(kept@),
                seen == has_path(prev.take(k as int), t.trait_path@),
            decreases kept@.len() - k,
        {
            let same = str_eq(kept[k].trait_path.as_str(), t.trait_path.as_str());
            assert(prev[k as int] == kept@[k as int]@);
            if same {
                seen = true;
            }
            assert(seen == has_path(prev.take(k + 1), t.trait_path@)) by {
                if has_path(prev.take(k as int), t.trait_path@) {
                    let j = choose|j: int| 0 <= j < k && (#[trigger] prev.take(k as int)[j]).trait_path == t.trait_path@;
                    assert(prev.take(k + 1)[j] == prev.take(k as int)[j]);
                }
                if has_path(prev.take(k + 1), t.trait_path@) {
                    let j = choose|j: int| 0 <= j < k + 1 && (#[trigger] prev.take(k + 1)[j]).trait_path == t.trait_path@;
                    if j < k {
                        assert(prev.take(k as int)[j] == prev.take(k + 1)[j]);
                    }
                }
                assert(prev.take(k + 1)[k as int] == prev[k as int]);
            }
            k = k + 1;
        }
        assert(prev.take(k as int) == prev);
        if !seen {
            assert(impls_view(kept@.push(t)) =~= prev.push(t@));
            kept.push(t);
        }
        n = n + 1;
    }
    assert(orig.take(n as int) =~= orig) by {
        assert(orig.skip(n as int).len() == 0);
    }
    kept
}

} // verus!
