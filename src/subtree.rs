//! Narrowing a documentation graph to one module and everything under it,
//! for a module path such as `collections::hash_map`.

use vstd::prelude::*;
use std::collections::HashMap;
use crate::json::{JsonValue, str_member};
use crate::graph::RawGraph;
use crate::parser::{payload, ids_at};
use crate::input::first_sep_from;
use crate::text::{chars_of, matches_at, str_eq};

verus! {

/// The item ids that record `m` lists, if it is a module.
pub open spec fn module_items(idx: Map<u64, JsonValue>, m: u64) -> Seq<JsonValue> {
    if idx.contains_key(m) {
        match payload(idx[m], "module"@) {
            Some(md) => ids_at(md, "items"@),
            None => Seq::empty(),
        }
    } else {
        Seq::empty()
    }
}

/// The first listed id whose record exists and is named `seg`.
pub open spec fn named_child(idx: Map<u64, JsonValue>, ids: Seq<JsonValue>, seg: Seq<char>) -> Option<u64>
    decreases ids.len(),
{
    if ids.len() == 0 {
        None
    } else {
        match ids[0] {
            JsonValue::UInt(c) => if idx.contains_key(c) && str_member(idx[c], "name"@) == Some(seg) {
                Some(c)
            } else {
                named_child(idx, ids.drop_first(), seg)
            },
            _ => named_child(idx, ids.drop_first(), seg),
        }
    }
}

pub proof fn lemma_first_sep_bounds(s: Seq<char>, from: int)
    ensures
        first_sep_from(s, from) matches Some(p) ==> from <= p && p + 2 <= s.len(),
    decreases s.len() - from,
{
    if !(from < 0 || from + 2 > s.len()) && !crate::text::occurs_at(s, "::"@, from) {
        lemma_first_sep_bounds(s, from + 1);
    }
}

/// Follows the `::`-separated segments of `s` from position `pos` down
/// from module `cur`: the module reached, or the first segment that names
/// no item.
pub open spec fn resolve_path(idx: Map<u64, JsonValue>, cur: u64, s: Seq<char>, pos: int) -> Result<u64, Seq<char>>
    decreases s.len() - pos,
{
    if pos < 0 || pos > s.len() {
        Err(Seq::empty())
    } else {
        match first_sep_from(s, pos) {
            Some(p) => {
                proof {
                    lemma_first_sep_bounds(s, pos);
                }
                let seg = s.subrange(pos, p);
                match named_child(idx, module_items(idx, cur), seg) {
                    None => Err(seg),
                    Some(c) => resolve_path(idx, c, s, p + 2),
                }
            },
            None => {
                let seg = s.subrange(pos, s.len() as int);
                match named_child(idx, module_items(idx, cur), seg) {
                    None => Err(seg),
                    Some(c) => Ok(c),
                }
            },
        }
    }
}

/// Module `m` and, while `fuel` lasts, every id listed by it or by a
/// module under it.
pub open spec fn subtree(idx: Map<u64, JsonValue>, m: u64, fuel: nat) -> Set<u64>
    decreases fuel, 1int, 0int,
{
    set![m] + listed_subtree(idx, module_items(idx, m), fuel)
}

pub open spec fn listed_subtree(idx: Map<u64, JsonValue>, ids: Seq<JsonValue>, fuel: nat) -> Set<u64>
    decreases fuel, 0int, ids.len(),
{
    if ids.len() == 0 {
        Set::empty()
    } else {
        listed_subtree(idx, ids.drop_last(), fuel) + match ids.last() {
            JsonValue::UInt(i) => set![i] + if fuel > 0 && idx.contains_key(i) && payload(idx[i], "module"@) is Some {
                subtree(idx, i, (fuel - 1) as nat)
            } else {
                Set::empty()
            },
            _ => Set::empty(),
        }
    }
}

/// A module path naming no module.
#[derive(Debug)]
pub struct ModuleNotFound {
    pub segment: String,
    pub path: String,
}

impl ModuleNotFound {
    pub fn message(&self) -> (r: String)
        ensures
            r@ == "Module '"@ + self.segment@ + "' not found in the path '"@ + self.path@ + "'"@,
    {
        let mut r = String::from_str("Module '");
        r.append(self.segment.as_str());
        r.append("' not found in the path '");
        r.append(self.path.as_str());
        r.append("'");
        assert(r@ =~= "Module '"@ + self.segment@ + "' not found in the path '"@ + self.path@ + "'"@);
        r
    }
}

proof fn lemma_to_set_push(s: Seq<u64>, x: u64)
    ensures
        s.push(x).to_set() == s.to_set().insert(x),
{
    assert forall|a: u64| s.push(x).to_set().contains(a) <==> s.to_set().insert(x).contains(a) by {
        if s.to_set().contains(a) {
            let i = choose|i: int| 0 <= i < s.len() && s[i] == a;
            assert(s.push(x)[i] == a);
        }
        if a == x {
            assert(s.push(x)[s.len() as int] == x);
        }
        if s.push(x).to_set().contains(a) {
            let i = choose|i: int| 0 <= i < s.push(x).len() && s.push(x)[i] == a;
            if i < s.len() {
                assert(s[i] == a);
            }
        }
    }
    assert(s.push(x).to_set() =~= s.to_set().insert(x));
}

fn module_item_list<'a>(idx: &'a HashMap<u64, JsonValue>, m: u64) -> (r: &'a [JsonValue])
    ensures
        r@ == module_items(idx@, m),
{
    match idx.get(&m) {
        Some(rec) => match rec.get("inner") {
            Some(inn) => match inn.get("module") {
                Some(md) => match md.get("items") {
                    Some(v) => match v.as_array() {
                        Some(a) => a.as_slice(),
                        None => &[],
                    },
                    None => &[],
                },
                None => &[],
            },
            None => &[],
        },
        None => &[],
    }
}

fn collect_subtree(idx: &HashMap<u64, JsonValue>, m: u64, fuel: usize, out: &mut Vec<u64>)
    ensures
        final(out)@.to_set() == old(out)@.to_set() + subtree(idx@, m, fuel as nat),
    decreases fuel, 1int,
{
    let ghost start = out@.to_set();
    proof {
        lemma_to_set_push(out@, m);
    }
    out.push(m);
    let ghost mid = out@.to_set();
    collect_listed(idx, module_item_list(idx, m), fuel, out);
    assert(out@.to_set() =~= start + subtree(idx@, m, fuel as nat));
}

fn collect_listed(idx: &HashMap<u64, JsonValue>, ids: &[JsonValue], fuel: usize, out: &mut Vec<u64>)
    ensures
        final(out)@.to_set() == old(out)@.to_set() + listed_subtree(idx@, ids@, fuel as nat),
    decreases fuel, 0int,
{
    let ghost start = out@.to_set();
    let mut i: usize = 0;
    assert(start + listed_subtree(idx@, ids@.take(0), fuel as nat) =~= start);
    while i < ids.len()
        invariant
            0 <= i <= ids@.len(),
            out@.to_set() == start + listed_subtree(idx@, ids@.take(i as int), fuel as nat),
        decreases ids@.len() - i,
    {
        assert(ids@.take(i + 1).drop_last() == ids@.take(i as int));
        assert(ids@.take(i + 1).last() == ids@[i as int]);
        let ghost before = out@.to_set();
        if let JsonValue::UInt(c) = &ids[i] {
            proof {
                lemma_to_set_push(out@, *c);
            }
            out.push(*c);
            let is_module = match idx.get(c) {
                Some(rec) => match rec.get("inner") {
                    Some(inn) => inn.get("module").is_some(),
                    None => false,
                },
                None => false,
            };
            let ghost after_push = out@.to_set();
            if fuel > 0 && is_module {
                collect_subtree(idx, *c, fuel - 1, out);
            }
            assert(out@.to_set() =~= start + listed_subtree(idx@, ids@.take(i + 1), fuel as nat));
        } else {
            assert(out@.to_set() =~= start + listed_subtree(idx@, ids@.take(i + 1), fuel as nat));
        }
        i = i + 1;
    }
    assert(ids@.take(i as int) == ids@);
}

fn find_named_child(idx: &HashMap<u64, JsonValue>, ids: &[JsonValue], seg: &str) -> (r: Option<u64>)
    ensures
        r == named_child(idx@, ids@, seg@),
{
    let mut i: usize = 0;
    assert(ids@.skip(0) == ids@);
    while i < ids.len()
        invariant
            0 <= i <= ids@.len(),
            named_child(idx@, ids@, seg@) == named_child(idx@, ids@.skip(i as int), seg@),
        decreases ids@.len() - i,
    {
        assert(ids@.skip(i as int)[0] == ids@[i as int]);
        assert(ids@.skip(i as int).drop_first() == ids@.skip(i + 1));
        if let JsonValue::UInt(c) = &ids[i] {
            if let Some(rec) = idx.get(c) {
                if let Some(nv) = rec.get("name") {
                    if let Some(name) = nv.as_str() {
                        if str_eq(name.as_str(), seg) {
                            return Some(*c);
                        }
                    }
                }
            }
        }
        i = i + 1;
    }
    None
}

fn find_sep(cs: &Vec<char>, from: usize) -> (r: Option<usize>)
    ensures
        match r {
            Some(p) => first_sep_from(cs@, from as int) == Some(p as int),
            None => first_sep_from(cs@, from as int) is None,
        },
{
    let sep = chars_of("::");
    proof {
        reveal_strlit("::");
    }
    let mut i = from;
    while cs.len() >= 2 && i <= cs.len() - 2
        invariant
            sep@ == "::"@,
            from <= i,
            first_sep_from(cs@, from as int) == first_sep_from(cs@, i as int),
        decreases cs@.len() - i,
    {
        if matches_at(cs, &sep, i) {
            return Some(i);
        }
        i = i + 1;
    }
    None
}

fn chars_between(cs: &Vec<char>, a: usize, b: usize) -> (r: String)
    requires
        a <= b <= cs@.len(),
    ensures
        r@ == cs@.subrange(a as int, b as int),
{
    let mut out = String::new();
    let mut k = a;
    while k < b
        invariant
            a <= k <= b <= cs@.len(),
            out@ == cs@.subrange(a as int, k as int),
        decreases b - k,
    {
        crate::text::push_char(&mut out, cs[k]);
        assert(cs@.subrange(a as int, k + 1) == cs@.subrange(a as int, k as int).push(cs@[k as int]));
        k = k + 1;
    }
    out
}

impl RawGraph {
    /// Narrows the graph to the module that `path_text` names below the
    /// root, and to everything listed under it: the root becomes that
    /// module and every other record is dropped. A segment that names no
    /// item leaves the graph as it was and is reported.
    pub fn filter_by_module_path(&mut self, path_text: &str) -> (r: Result<(), ModuleNotFound>)
        ensures
            match resolve_path(old(self).index@, old(self).root, path_text@, 0) {
                Err(seg) => r matches Err(e) && e.segment@ == seg && e.path@ == path_text@
                    && final(self).root == old(self).root && final(self).index@ == old(self).index@,
                Ok(t) => r is Ok && final(self).root == t && final(self).index@ == old(self).index@.restrict(
                    subtree(old(self).index@, t, old(self).index@.len()),
                ),
            },
    {
        let cs = chars_of(path_text);
        let ghost idx = self.index@;
        let mut cur = self.root;
        let mut pos: usize = 0;
        let n = cs.len();
        loop
            invariant_except_break
                resolve_path(idx, old(self).root, cs@, 0) == resolve_path(idx, cur, cs@, pos as int),
            invariant
                self.index@ == idx,
                self.root == old(self).root,
                cs@ == path_text@,
                n == cs@.len(),
                pos <= cs@.len(),
            ensures
                resolve_path(idx, old(self).root, cs@, 0) == Ok::<u64, Seq<char>>(cur),
            decreases cs@.len() - pos,
        {
            let sep = find_sep(&cs, pos);
            proof {
                lemma_first_sep_bounds(cs@, pos as int);
            }
            let end = match sep {
                Some(p) => p,
                None => cs.len(),
            };
            let seg = chars_between(&cs, pos, end);
            let child = find_named_child(&self.index, module_item_list(&self.index, cur), seg.as_str());
            match child {
                None => {
                    return Err(ModuleNotFound { segment: seg, path: String::from_str(path_text) });
                },
                Some(c) => {
                    cur = c;
                    match sep {
                        Some(p) => {
                            pos = p + 2;
                        },
                        None => {
                            break;
                        },
                    }
                },
            }
        }
        let ghost target = cur;
        assert(resolve_path(idx, old(self).root, cs@, 0) == Ok::<u64, Seq<char>>(target));
        let mut keep: Vec<u64> = Vec::new();
        collect_subtree(&self.index, cur, self.index.len(), &mut keep);
        let ghost kept = subtree(idx, target, idx.len());
        assert(keep@.to_set() =~= kept);
        let mut narrowed: HashMap<u64, JsonValue> = HashMap::new();
        let mut k: usize = 0;
        while k < keep.len()
            invariant
                0 <= k <= keep@.len(),
                keep@.to_set() == kept,
                narrowed@ == idx.restrict(keep@.take(k as int).to_set()),
                self.index@ == idx.remove_keys(keep@.take(k as int).to_set()),
                self.root == old(self).root,
            decreases keep@.len() - k,
        {
            let id = keep[k];
            proof {
                assert(keep@.take(k + 1) == keep@.take(k as int).push(id));
                lemma_to_set_push(keep@.take(k as int), id);
            }
            if let Some(v) = self.index.remove(&id) {
                narrowed.insert(id, v);
            }
            assert(narrowed@ =~= idx.restrict(keep@.take(k + 1).to_set()));
            assert(self.index@ =~= idx.remove_keys(keep@.take(k + 1).to_set()));
            k = k + 1;
        }
        assert(keep@.take(k as int) == keep@);
        self.index = narrowed;
        self.root = cur;
        Ok(())
    }
}

} // verus!
