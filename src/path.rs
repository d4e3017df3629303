//! Paths as byte strings with `/` as separator, read the way std reads a
//! path's file name and extension.
use vstd::prelude::*;

verus! {

/// The path separator, `/`.
pub const SLASH: u8 = 0x2f;

/// The byte `.`.
pub const DOT: u8 = 0x2e;

/// Length of the prefix of `p[..n]` that remains once trailing separators and
/// trailing `.` components are dropped (`"a/b/./"` keeps `"a/b"`).
pub open spec fn trimmed_len(p: Seq<u8>, n: nat) -> nat
    decreases n,
{
    if n == 0 {
        0
    } else if p[n - 1] == SLASH {
        trimmed_len(p, (n - 1) as nat)
    } else if p[n - 1] == DOT && (n == 1 || p[n - 2] == SLASH) {
        trimmed_len(p, (n - 1) as nat)
    } else {
        n
    }
}

/// Start of the component that ends at `e`: one past the last separator
/// before `e`, or 0 where there is none.
pub open spec fn component_start(p: Seq<u8>, e: nat) -> nat
    decreases e,
{
    if e == 0 {
        0
    } else if p[e - 1] == SLASH {
        e
    } else {
        component_start(p, (e - 1) as nat)
    }
}

/// Where the file name of `p` stands, as `(start, end)`: the last component
/// that is neither empty nor `.`, unless that component is `..`.
pub open spec fn file_name_span(p: Seq<u8>) -> Option<(nat, nat)> {
    let e = trimmed_len(p, p.len());
    let s = component_start(p, e);
    if e == 0 || p.subrange(s as int, e as int) == seq![DOT, DOT] {
        None
    } else {
        Some((s, e))
    }
}

/// The file name of `p`, if it has one.
pub open spec fn file_name(p: Seq<u8>) -> Option<Seq<u8>> {
    match file_name_span(p) {
        Some((s, e)) => Some(p.subrange(s as int, e as int)),
        None => None,
    }
}

/// Index of the last `.` in `p[s..k]`, if any.
pub open spec fn last_dot_in(p: Seq<u8>, s: nat, k: nat) -> Option<nat>
    decreases k,
{
    if k <= s {
        None
    } else if p[k - 1] == DOT {
        Some((k - 1) as nat)
    } else {
        last_dot_in(p, s, (k - 1) as nat)
    }
}

/// Index of the dot that opens the extension of the file name: its last dot,
/// provided that dot is not the name's first byte.
pub open spec fn extension_dot(p: Seq<u8>) -> Option<nat> {
    match file_name_span(p) {
        Some((s, e)) => match last_dot_in(p, s, e) {
            Some(d) => if d > s {
                Some(d)
            } else {
                None
            },
            None => None,
        },
        None => None,
    }
}

/// The extension of the file name of `p`, without its dot.
pub open spec fn extension(p: Seq<u8>) -> Option<Seq<u8>> {
    match extension_dot(p) {
        Some(d) => Some(p.subrange((d + 1) as int, file_name_span(p).unwrap().1 as int)),
        None => None,
    }
}

/// The extension of a binary module: `wasm`.
pub open spec fn module_extension() -> Seq<u8> {
    seq![0x77u8, 0x61u8, 0x73u8, 0x6du8]
}

/// The extension of the glue program: `js`.
pub open spec fn glue_extension() -> Seq<u8> {
    seq![0x6au8, 0x73u8]
}

/// `p` names a binary module: its file name has the module extension.
pub open spec fn is_module_path(p: Seq<u8>) -> bool {
    extension(p) == Some(module_extension())
}

/// The companion glue path of a module path: everything before the
/// extension's dot, then `.js`. Separators or `.` components after the file
/// name are dropped, as std's `with_extension` drops them.
pub open spec fn glue_path(p: Seq<u8>) -> Seq<u8> {
    p.subrange(0, extension_dot(p).unwrap() as int) + seq![DOT] + glue_extension()
}

fn trimmed_end(p: &[u8]) -> (e: usize)
    ensures
        e as nat == trimmed_len(p@, p@.len()),
{
    let mut n: usize = p.len();
    while n > 0 && (p[n - 1] == SLASH || (p[n - 1] == DOT && (n == 1 || p[n - 2] == SLASH)))
        invariant
            n <= p@.len(),
            trimmed_len(p@, n as nat) == trimmed_len(p@, p@.len()),
        decreases n,
    {
        n = n - 1;
    }
    n
}

fn start_of_component(p: &[u8], e: usize) -> (s: usize)
    requires
        e <= p@.len(),
    ensures
        s as nat == component_start(p@, e as nat),
        s <= e,
{
    let mut s: usize = e;
    while s > 0 && p[s - 1] != SLASH
        invariant
            s <= e,
            e <= p@.len(),
            component_start(p@, s as nat) == component_start(p@, e as nat),
        decreases s,
    {
        s = s - 1;
    }
    s
}

proof fn lemma_trimmed_le(p: Seq<u8>, n: nat)
    ensures
        trimmed_len(p, n) <= n,
        0 < trimmed_len(p, n) ==> p[trimmed_len(p, n) - 1] != SLASH,
    decreases n,
{
    if n > 0 {
        lemma_trimmed_le(p, (n - 1) as nat);
    }
}

proof fn lemma_component_start_le(p: Seq<u8>, e: nat)
    ensures
        component_start(p, e) <= e,
        component_start(p, e) == e ==> e == 0 || p[e - 1] == SLASH,
    decreases e,
{
    if e > 0 {
        lemma_component_start_le(p, (e - 1) as nat);
    }
}

/// Where the file name of `path` stands, as `(start, end)`.
pub fn file_name_bounds(path: &[u8]) -> (r: Option<(usize, usize)>)
    ensures
        r matches Some((s, e)) ==> file_name_span(path@) == Some((s as nat, e as nat))
            && file_name(path@) == Some(path@.subrange(s as int, e as int)),
        r is None ==> file_name_span(path@) is None,
        r matches Some((s, e)) ==> s < e <= path@.len(),
{
    let e = trimmed_end(path);
    if e == 0 {
        return None;
    }
    proof {
        lemma_trimmed_le(path@, path@.len());
    }
    let s = start_of_component(path, e);
    proof {
        lemma_component_start_le(path@, e as nat);
    }
    if e - s == 2 && path[s] == DOT && path[s + 1] == DOT {
        assert(path@.subrange(s as int, e as int) =~= seq![DOT, DOT]);
        None
    } else {
        assert(path@.subrange(s as int, e as int) != seq![DOT, DOT]) by {
            let name = path@.subrange(s as int, e as int);
            if name == seq![DOT, DOT] {
                assert(name.len() == 2);
                assert(name[0] == path@[s as int]);
                assert(name[1] == path@[s as int + 1]);
            }
        }
        Some((s, e))
    }
}

fn last_dot_between(p: &[u8], s: usize, e: usize) -> (r: Option<usize>)
    requires
        s <= e <= p@.len(),
    ensures
        r matches Some(d) ==> last_dot_in(p@, s as nat, e as nat) == Some(d as nat),
        r is None ==> last_dot_in(p@, s as nat, e as nat) is None,
{
    let mut k: usize = e;
    while k > s && p[k - 1] != DOT
        invariant
            s <= k <= e,
            e <= p@.len(),
            last_dot_in(p@, s as nat, k as nat) == last_dot_in(p@, s as nat, e as nat),
        decreases k,
    {
        k = k - 1;
    }
    if k > s {
        Some(k - 1)
    } else {
        None
    }
}

proof fn lemma_last_dot_bounds(p: Seq<u8>, s: nat, k: nat)
    ensures
        last_dot_in(p, s, k) matches Some(d) ==> s <= d < k && p[d as int] == DOT,
    decreases k,
{
    if k > s {
        lemma_last_dot_bounds(p, s, (k - 1) as nat);
    }
}

/// Where the extension of the file name of `path` stands, as `(dot, end)`:
/// the index of its dot and the end of the file name.
pub fn extension_bounds(path: &[u8]) -> (r: Option<(usize, usize)>)
    ensures
        r matches Some((d, e)) ==> extension_dot(path@) == Some(d as nat)
            && file_name_span(path@).unwrap().1 == e as nat,
        r is None ==> extension_dot(path@) is None,
        r matches Some((d, e)) ==> d < e <= path@.len(),
{
    match file_name_bounds(path) {
        Some((s, e)) => {
            proof {
                lemma_last_dot_bounds(path@, s as nat, e as nat);
            }
            match last_dot_between(path, s, e) {
                Some(d) => if d > s {
                    Some((d, e))
                } else {
                    None
                },
                None => None,
            }
        },
        None => None,
    }
}

/// Whether the file name of `path` has the binary module extension.
pub fn has_module_extension(path: &[u8]) -> (r: bool)
    ensures
        r == is_module_path(path@),
{
    match extension_bounds(path) {
        Some((d, e)) => {
            let ext = Ghost(path@.subrange(d + 1, e as int));
            if e - d == 5 && path[d + 1] == 0x77u8 && path[d + 2] == 0x61u8 && path[d + 3] == 0x73u8
                && path[d + 4] == 0x6du8 {
                assert(ext@ =~= module_extension());
                true
            } else {
                assert(ext@ != module_extension()) by {
                    if ext@ == module_extension() {
                        assert(ext@.len() == 4);
                        assert(ext@[0] == path@[d + 1]);
                        assert(ext@[1] == path@[d + 2]);
                        assert(ext@[2] == path@[d + 3]);
                        assert(ext@[3] == path@[d + 4]);
                    }
                }
                false
            }
        },
        None => false,
    }
}

/// The companion glue path of `path`, where `path` names a binary module:
/// the same path with the extension `js` in place of `wasm`.
pub fn companion_glue_path(path: &[u8]) -> (r: Option<Vec<u8>>)
    ensures
        r is Some <==> is_module_path(path@),
        r matches Some(g) ==> g@ == glue_path(path@),
{
    if !has_module_extension(path) {
        return None;
    }
    let (d, e) = match extension_bounds(path) {
        Some(b) => b,
        None => {
            return None;
        },
    };
    let mut out: Vec<u8> = Vec::new();
    let mut i: usize = 0;
    while i < d
        invariant
            i <= d < path@.len(),
            out@ == path@.subrange(0, i as int),
        decreases d - i,
    {
        out.push(path[i]);
        i = i + 1;
        assert(out@ =~= path@.subrange(0, i as int));
    }
    out.push(DOT);
    out.push(0x6au8);
    out.push(0x73u8);
    assert(out@ =~= glue_path(path@));
    Some(out)
}

} // verus!
