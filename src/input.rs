//! Classification of what the user asked to document.

use vstd::prelude::*;
use crate::text::{occurs_at, starts_with, chars_of, matches_at, str_eq, replace_all, replace_all_chars, push_chars};

verus! {

/// Where the documentation graph comes from.
#[derive(Debug)]
pub enum InputType {
    /// A crate published on the registry, by name.
    ExternalCrate(String),
    /// A local JSON file.
    LocalFile(String),
    /// A local crate to generate documentation for.
    LocalCrate,
    /// The standard library, one of `std`, `core` or `alloc`, possibly a
    /// module path inside it.
    Stdlib { crate_name: String, path_in_crate: Option<String> },
}

/// The first position at which `::` occurs in `s` at or after `from`.
pub open spec fn first_sep_from(s: Seq<char>, from: int) -> Option<int>
    decreases s.len() - from,
{
    if from < 0 || from + 2 > s.len() {
        None
    } else if occurs_at(s, "::"@, from) {
        Some(from)
    } else {
        first_sep_from(s, from + 1)
    }
}

/// The module path of an input such as `std::net` or `core::mem`:
/// everything after the first `::`, if there is one.
pub open spec fn module_path_of(s: Seq<char>) -> Option<Seq<char>> {
    match first_sep_from(s, 0) {
        Some(p) => Some(s.skip(p + 2)),
        None => None,
    }
}

/// The module path of an input such as `std::net` or `core::mem`.
pub fn parse_module_path(input: &str) -> (r: Option<String>)
    ensures
        match r {
            Some(m) => module_path_of(input@) == Some(m@),
            None => module_path_of(input@) is None,
        },
{
    let cs = chars_of(input);
    let sep = chars_of("::");
    proof {
        reveal_strlit("::");
    }
    let mut i: usize = 0;
    while cs.len() >= 2 && i <= cs.len() - 2
        invariant
            sep@ == "::"@,
            i <= cs@.len(),
            cs@ == input@,
            first_sep_from(cs@, 0) == first_sep_from(cs@, i as int),
        decreases cs@.len() - i,
    {
        if matches_at(&cs, &sep, i) {
            let mut out = String::new();
            let mut k = i + 2;
            while k < cs.len()
                invariant
                    i + 2 <= k <= cs@.len(),
                    out@ == cs@.subrange(i + 2, k as int),
                decreases cs@.len() - k,
            {
                crate::text::push_char(&mut out, cs[k]);
                assert(cs@.subrange(i + 2, k + 1) == cs@.subrange(i + 2, k as int).push(cs@[k as int]));
                k = k + 1;
            }
            assert(cs@.subrange(i + 2, cs@.len() as int) == cs@.skip(i + 2));
            return Some(out);
        }
        i = i + 1;
    }
    assert(first_sep_from(cs@, i as int) is None);
    None
}

/// Whether `s` is `name` or begins with `name::`.
pub open spec fn names_crate(s: Seq<char>, name: Seq<char>) -> bool {
    s == name || starts_with(s, name + "::"@)
}

/// Whether `s` ends with `.json`.
pub open spec fn ends_with_json(s: Seq<char>) -> bool {
    s.len() >= 5 && s.skip(s.len() - 5) == ".json"@
}

fn is_crate_input(cs: &Vec<char>, input: &str, name: &str, prefix: &str) -> (r: bool)
    requires
        cs@ == input@,
        prefix@ == name@ + "::"@,
    ensures
        r == names_crate(input@, name@),
{
    let p = chars_of(prefix);
    let r = str_eq(input, name) || matches_at(cs, &p, 0);
    assert(matches_at_start(cs@, p@) == starts_with(cs@, p@)) by {
        if p@.len() <= cs@.len() {
            assert(cs@.subrange(0, p@.len() as int) == cs@.take(p@.len() as int));
        }
    }
    r
}

spec fn matches_at_start(s: Seq<char>, p: Seq<char>) -> bool {
    occurs_at(s, p, 0)
}

/// Classifies an input. `exists_on_disk` says whether a file of that name
/// exists, which only the caller can find out.
pub fn resolve_input(input: &str, exists_on_disk: bool) -> (r: InputType)
    ensures
        names_crate(input@, "std"@) ==> (r matches InputType::Stdlib { crate_name, path_in_crate }
            && crate_name@ == "std"@ && crate::text::opt_view(path_in_crate) == module_path_of(input@)),
        !names_crate(input@, "std"@) && names_crate(input@, "core"@) ==> (r matches InputType::Stdlib { crate_name, path_in_crate }
            && crate_name@ == "core"@ && crate::text::opt_view(path_in_crate) == module_path_of(input@)),
        !names_crate(input@, "std"@) && !names_crate(input@, "core"@) && names_crate(input@, "alloc"@)
            ==> (r matches InputType::Stdlib { crate_name, path_in_crate } && crate_name@ == "alloc"@
            && crate::text::opt_view(path_in_crate) == module_path_of(input@)),
        !names_crate(input@, "std"@) && !names_crate(input@, "core"@) && !names_crate(input@, "alloc"@)
            ==> (if ends_with_json(input@) || exists_on_disk {
            r matches InputType::LocalFile(p) && p@ == input@
        } else {
            r matches InputType::ExternalCrate(n) && n@ == input@
        }),
{
    let cs = chars_of(input);
    proof {
        reveal_strlit("std::");
        reveal_strlit("std");
        reveal_strlit("core::");
        reveal_strlit("core");
        reveal_strlit("alloc::");
        reveal_strlit("alloc");
        reveal_strlit("::");
        assert("std::"@ == "std"@ + "::"@);
        assert("core::"@ == "core"@ + "::"@);
        assert("alloc::"@ == "alloc"@ + "::"@);
    }
    if is_crate_input(&cs, input, "std", "std::") {
        return InputType::Stdlib { crate_name: String::from_str("std"), path_in_crate: parse_module_path(input) };
    }
    if is_crate_input(&cs, input, "core", "core::") {
        return InputType::Stdlib { crate_name: String::from_str("core"), path_in_crate: parse_module_path(input) };
    }
    if is_crate_input(&cs, input, "alloc", "alloc::") {
        return InputType::Stdlib { crate_name: String::from_str("alloc"), path_in_crate: parse_module_path(input) };
    }
    let suffix = chars_of(".json");
    proof {
        reveal_strlit(".json");
    }
    let json = cs.len() >= 5 && matches_at(&cs, &suffix, cs.len() - 5);
    assert(json == ends_with_json(input@)) by {
        if cs@.len() >= 5 {
            assert(cs@.subrange(cs@.len() - 5, cs@.len() as int) == cs@.skip(cs@.len() - 5));
        }
    }
    if json || exists_on_disk {
        InputType::LocalFile(String::from_str(input))
    } else {
        InputType::ExternalCrate(String::from_str(input))
    }
}

/// The address of a crate's documentation graph on docs.rs: the default
/// target is left out, a `~` in the version is escaped as `%7E`, and a
/// format version, if given, is appended as a last segment.
pub open spec fn docs_rs_url_spec(name: Seq<char>, version: Seq<char>, target: Seq<char>, format_version: Option<Seq<char>>) -> Seq<char> {
    let v = replace_all(version, "~"@, "%7E"@);
    let base = if target == "x86_64-unknown-linux-gnu"@ {
        "https://docs.rs/crate/"@ + name + "/"@ + v + "/json"@
    } else {
        "https://docs.rs/crate/"@ + name + "/"@ + v + "/"@ + target + "/json"@
    };
    match format_version {
        Some(fv) => base + "/"@ + fv,
        None => base,
    }
}

/// The address of a crate's documentation graph on docs.rs.
pub fn docs_rs_url(name: &str, version: &str, target: &str, format_version: Option<&str>) -> (r: String)
    ensures
        r@ == docs_rs_url_spec(name@, version@, target@, match format_version {
            Some(f) => Some(f@),
            None => None,
        }),
{
    let vs = chars_of(version);
    let tilde = chars_of("~");
    proof {
        reveal_strlit("~");
    }
    let v = replace_all_chars(&vs, &tilde, "%7E");
    let mut url = String::from_str("https://docs.rs/crate/");
    url.append(name);
    url.append("/");
    url.append(v.as_str());
    if !str_eq(target, "x86_64-unknown-linux-gnu") {
        url.append("/");
        url.append(target);
    }
    url.append("/json");
    if let Some(fv) = format_version {
        url.append("/");
        url.append(fv);
    }
    assert(url@ =~= docs_rs_url_spec(name@, version@, target@, match format_version {
        Some(f) => Some(f@),
        None => None,
    }));
    url
}

/// Whether a downloaded body is zstd-compressed: its content type says so,
/// its address ends in `.zst`, or it begins with the zstd magic number.
pub open spec fn is_zstd_spec(content_type: Seq<char>, path: Seq<char>, bytes: Seq<u8>) -> bool {
    crate::text::contains(content_type, "application/zstd"@)
    || (path.len() >= 4 && path.skip(path.len() - 4) == ".zst"@)
    || (bytes.len() >= 4 && bytes[0] == 0x28 && bytes[1] == 0xB5 && bytes[2] == 0x2F && bytes[3] == 0xFD)
}

/// Whether a downloaded body is zstd-compressed.
pub fn is_zstd(content_type: &str, path: &str, bytes: &[u8]) -> (r: bool)
    ensures
        r == is_zstd_spec(content_type@, path@, bytes@),
{
    let ct = chars_of(content_type);
    let pat = chars_of("application/zstd");
    let by_type = crate::text::contains_chars(&ct, &pat);
    let ps = chars_of(path);
    let ext = chars_of(".zst");
    proof {
        reveal_strlit(".zst");
    }
    let by_path = ps.len() >= 4 && matches_at(&ps, &ext, ps.len() - 4);
    assert(by_path == (path@.len() >= 4 && path@.skip(path@.len() - 4) == ".zst"@)) by {
        if ps@.len() >= 4 {
            assert(ps@.subrange(ps@.len() - 4, ps@.len() as int) == ps@.skip(ps@.len() - 4));
        }
    }
    let by_magic = bytes.len() >= 4 && bytes[0] == 0x28 && bytes[1] == 0xB5 && bytes[2] == 0x2F
        && bytes[3] == 0xFD;
    by_type || by_path || by_magic
}

} // verus!

verus! {

/// The pieces of `s` between occurrences of `sep` (at least one piece).
pub open spec fn split_on(s: Seq<char>, sep: char) -> Seq<Seq<char>>
    decreases s.len(),
{
    if s.len() == 0 {
        seq![Seq::empty()]
    } else {
        let p = split_on(s.drop_last(), sep);
        if s.last() == sep {
            p.push(Seq::empty())
        } else {
            p.update(p.len() - 1, p.last().push(s.last()))
        }
    }
}

pub proof fn lemma_split_on_len(s: Seq<char>, sep: char)
    ensures
        split_on(s, sep).len() >= 1,
    decreases s.len(),
{
    if s.len() > 0 {
        lemma_split_on_len(s.drop_last(), sep);
    }
}

/// `l` without leading white space.
pub open spec fn trim_start(l: Seq<char>) -> Seq<char>
    decreases l.len(),
{
    if l.len() > 0 && crate::lines::is_ws(l[0]) {
        trim_start(l.drop_first())
    } else {
        l
    }
}

/// `l` without trailing white space.
pub open spec fn trim_end(l: Seq<char>) -> Seq<char>
    decreases l.len(),
{
    if l.len() > 0 && crate::lines::is_ws(l.last()) {
        trim_end(l.drop_last())
    } else {
        l
    }
}

pub open spec fn trim(l: Seq<char>) -> Seq<char> {
    trim_end(trim_start(l))
}

/// The trimmed pieces that are not empty, in order.
pub open spec fn nonempty_trimmed(parts: Seq<Seq<char>>) -> Seq<Seq<char>>
    decreases parts.len(),
{
    if parts.len() == 0 {
        Seq::empty()
    } else {
        let prev = nonempty_trimmed(parts.drop_last());
        if trim(parts.last()).len() > 0 {
            prev.push(trim(parts.last()))
        } else {
            prev
        }
    }
}

fn trim_chars(l: &Vec<char>) -> (r: Vec<char>)
    ensures
        r@ == trim(l@),
{
    let mut a: usize = 0;
    assert(l@.skip(0) == l@);
    while a < l.len() && crate::lines::is_ws_char(l[a])
        invariant
            0 <= a <= l@.len(),
            trim_start(l@) == trim_start(l@.skip(a as int)),
        decreases l@.len() - a,
    {
        assert(l@.skip(a as int).drop_first() == l@.skip(a + 1));
        a = a + 1;
    }
    let mut b: usize = l.len();
    let ghost mid = l@.skip(a as int);
    assert(trim_start(l@) == mid);
    assert(mid.take(mid.len() as int) == mid);
    while b > a && crate::lines::is_ws_char(l[b - 1])
        invariant
            a <= b <= l@.len(),
            mid == l@.skip(a as int),
            trim_end(mid) == trim_end(mid.take(b - a)),
        decreases b,
    {
        assert(mid.take(b - a).drop_last() == mid.take(b - 1 - a));
        assert(mid.take(b - a).last() == l@[b - 1]);
        b = b - 1;
    }
    let mut r: Vec<char> = Vec::new();
    let mut k = a;
    while k < b
        invariant
            a <= k <= b <= l@.len(),
            r@ == l@.subrange(a as int, k as int),
        decreases b - k,
    {
        r.push(l[k]);
        assert(l@.subrange(a as int, k + 1) == l@.subrange(a as int, k as int).push(l@[k as int]));
        k = k + 1;
    }
    assert(mid.take(b - a) =~= l@.subrange(a as int, b as int));
    if b > a {
        assert(!crate::lines::is_ws(mid.take(b - a).last()));
    }
    r
}

/// The features named in a comma-separated list, each trimmed of white
/// space, empty entries dropped.
pub fn feature_list(list: &str) -> (r: Vec<String>)
    ensures
        crate::text::strs_view(r@) == nonempty_trimmed(split_on(list@, ',')),
{
    let cs = chars_of(list);
    let mut r: Vec<String> = Vec::new();
    let mut cur: Vec<char> = Vec::new();
    let ghost mut raw: Seq<Seq<char>> = Seq::empty();
    let mut i: usize = 0;
    assert(cs@.take(0) =~= Seq::<char>::empty());
    assert(raw.push(cur@) =~= seq![Seq::<char>::empty()]);
    assert(crate::text::strs_view(r@) =~= Seq::<Seq<char>>::empty());
    while i < cs.len()
        invariant
            0 <= i <= cs@.len(),
            cs@ == list@,
            split_on(cs@.take(i as int), ',') == raw.push(cur@),
            crate::text::strs_view(r@) == nonempty_trimmed(raw),
        decreases cs@.len() - i,
    {
        let c = cs[i];
        assert(cs@.take(i + 1).drop_last() == cs@.take(i as int));
        assert(cs@.take(i + 1).last() == c);
        if c == ',' {
            let t = trim_chars(&cur);
            let ghost piece = cur@;
            assert(raw.push(piece).drop_last() == raw);
            assert(raw.push(piece).last() == piece);
            if t.len() > 0 {
                let mut s = String::new();
                push_chars(&mut s, &t);
                assert(crate::text::strs_view(r@.push(s)) =~= crate::text::strs_view(r@).push(s@));
                r.push(s);
            }
            proof {
                raw = raw.push(piece);
            }
            cur = Vec::new();
            assert(raw.push(cur@) =~= split_on(cs@.take(i + 1), ','));
        } else {
            let ghost before = cur@;
            cur.push(c);
            assert(raw.push(before).update(raw.len() as int, before.push(c)) =~= raw.push(cur@));
        }
        i = i + 1;
    }
    assert(cs@.take(i as int) == cs@);
    let t = trim_chars(&cur);
    assert(raw.push(cur@).drop_last() == raw);
    assert(raw.push(cur@).last() == cur@);
    if t.len() > 0 {
        let mut s = String::new();
        push_chars(&mut s, &t);
        assert(crate::text::strs_view(r@.push(s)) =~= crate::text::strs_view(r@).push(s@));
        r.push(s);
    }
    r
}

} // verus!

verus! {

/// What follows `host: ` on the first line that starts with it.
pub open spec fn first_host(ls: Seq<Seq<char>>) -> Option<Seq<char>>
    decreases ls.len(),
{
    if ls.len() == 0 {
        None
    } else if starts_with(ls[0], "host: "@) {
        Some(ls[0].skip(6))
    } else {
        first_host(ls.drop_first())
    }
}

/// The host target triple named in the verbose version output of the
/// compiler: what follows `host: ` on the first line that starts with it.
pub fn host_triple(version_output: &str) -> (r: Option<String>)
    ensures
        match r {
            Some(t) => first_host(crate::lines::lines_of(version_output@)) == Some(t@),
            None => first_host(crate::lines::lines_of(version_output@)) is None,
        },
{
    let cs = chars_of(version_output);
    let ls = crate::lines::split_lines(&cs);
    let prefix = chars_of("host: ");
    proof {
        reveal_strlit("host: ");
    }
    let ghost all = crate::lines::vv(ls@);
    let mut i: usize = 0;
    assert(all.skip(0) == all);
    while i < ls.len()
        invariant
            0 <= i <= ls@.len(),
            prefix@ == "host: "@,
            all == crate::lines::vv(ls@),
            all == crate::lines::lines_of(version_output@),
            first_host(all) == first_host(all.skip(i as int)),
        decreases ls@.len() - i,
    {
        assert(all.skip(i as int)[0] == ls@[i as int]@);
        assert(all.skip(i as int).drop_first() == all.skip(i + 1));
        let line = &ls[i];
        if matches_at(line, &prefix, 0) {
            proof {
                reveal_strlit("host: ");
            }
            assert(prefix@.len() == 6);
            assert(line@.subrange(0, 6) == line@.take(6));
            let mut out = String::new();
            assert(line@.subrange(6, 6) =~= Seq::<char>::empty());
            let mut k: usize = 6;
            while k < line.len()
                invariant
                    6 <= k <= line@.len(),
                    out@ == line@.subrange(6, k as int),
                decreases line@.len() - k,
            {
                crate::text::push_char(&mut out, line[k]);
                assert(line@.subrange(6, k + 1) == line@.subrange(6, k as int).push(line@[k as int]));
                k = k + 1;
            }
            assert(line@.subrange(6, line@.len() as int) == line@.skip(6));
            return Some(out);
        }
        assert(!starts_with(line@, "host: "@)) by {
            if 6 <= line@.len() {
                assert(line@.subrange(0, 6) == line@.take(6));
            }
        }
        i = i + 1;
    }
    None
}

} // verus!
