use vstd::prelude::*;
use vstd::string::*;

use crate::error::GetError;

verus! {

/// Characters that separate path components on some platform. Both are refused inside a
/// component on every platform, as a deliberately stricter rule than the host's own: a
/// name that is one component on Unix but two on Windows (`a\\b`) is not exported, so a
/// collection means the same tree wherever it is written.
pub open spec fn is_separator(c: char) -> bool {
    c == '/' || c == '\\'
}

/// A single component may be appended to a directory without leaving it: it holds no
/// separator and is not the parent reference `..`.
pub open spec fn component_ok(c: Seq<char>) -> bool {
    &&& forall|k: int| 0 <= k < c.len() ==> !is_separator(#[trigger] c[k])
    &&& c != seq!['.', '.']
}

/// `name[a .. e]` is one of the pieces that splitting `name` on `/` yields.
pub open spec fn is_segment(name: Seq<char>, a: int, e: int) -> bool {
    &&& 0 <= a <= e <= name.len()
    &&& (a == 0 || name[a - 1] == '/')
    &&& (e == name.len() || name[e] == '/')
    &&& forall|k: int| a <= k < e ==> #[trigger] name[k] != '/'
}

/// Every piece of `name` split on `/` is a safe component.
pub open spec fn name_ok(name: Seq<char>) -> bool {
    forall|a: int, e: int| #[trigger] is_segment(name, a, e) ==> component_ok(name.subrange(a, e))
}

/// The text that the characters of `name` from `i` on add to a path: each non-empty
/// `/`-separated segment, preceded by `/`. `fresh` says that a segment starts at `i`.
pub open spec fn path_tail(name: Seq<char>, i: int, fresh: bool) -> Seq<char>
    decreases name.len() - i,
{
    if i < 0 || i >= name.len() {
        Seq::empty()
    } else if name[i] == '/' {
        path_tail(name, i + 1, true)
    } else if fresh {
        seq!['/', name[i]] + path_tail(name, i + 1, false)
    } else {
        seq![name[i]] + path_tail(name, i + 1, false)
    }
}

/// The path under `root` at which the entry called `name` is written.
pub open spec fn export_path(root: Seq<char>, name: Seq<char>) -> Seq<char> {
    root + path_tail(name, 0, true)
}

/// Accepts a component that holds no path separator (`/` or `\`) and is not `..`.
pub fn validate_path_component(component: &str) -> (r: Result<(), GetError>)
    ensures
        r is Ok <==> component_ok(component@),
        r matches Err(e) ==> e == GetError::PathViolation,
{
    let n = component.unicode_len();
    let mut k: usize = 0;
    while k < n
        invariant
            n == component@.len(),
            k <= n,
            forall|j: int| 0 <= j < k ==> !is_separator(#[trigger] component@[j]),
        decreases n - k,
    {
        let c = component.get_char(k);
        if c == '/' || c == '\\' {
            return Err(GetError::PathViolation);
        }
        k = k + 1;
    }
    if n == 2 && component.get_char(0) == '.' && component.get_char(1) == '.' {
        assert(component@ =~= seq!['.', '.']);
        return Err(GetError::PathViolation);
    }
    proof {
        if component@ == seq!['.', '.'] {
            assert(component@[0] == '.' && component@[1] == '.');
        }
    }
    Ok(())
}

/// A name with a separator smuggled inside one of its components is refused as a whole:
/// a `\\` anywhere in the name makes it unsafe.
pub proof fn lemma_smuggled_separator_refused(name: Seq<char>, k: int)
    requires
        0 <= k < name.len(),
        name[k] == '\\',
    ensures
        !name_ok(name),
{
    let a = segment_start(name, k);
    let e = segment_stop(name, k);
    assert(is_segment(name, a, e));
    assert(name.subrange(a, e)[k - a] == '\\');
}

proof fn segment_start(name: Seq<char>, k: int) -> (a: int)
    requires
        0 <= k < name.len(),
        name[k] != '/',
    ensures
        0 <= a <= k,
        a == 0 || name[a - 1] == '/',
        forall|j: int| a <= j <= k ==> #[trigger] name[j] != '/',
    decreases k,
{
    if k == 0 || name[k - 1] == '/' {
        k
    } else {
        segment_start(name, k - 1)
    }
}

proof fn segment_stop(name: Seq<char>, k: int) -> (e: int)
    requires
        0 <= k < name.len(),
        name[k] != '/',
    ensures
        k < e <= name.len(),
        e == name.len() || name[e] == '/',
        forall|j: int| k <= j < e ==> #[trigger] name[j] != '/',
    decreases name.len() - k,
{
    if k + 1 == name.len() || name[k + 1] == '/' {
        k + 1
    } else {
        segment_stop(name, k + 1)
    }
}

proof fn lemma_segment_closed(name: Seq<char>, st: int, k: int, a: int, e: int)
    requires
        0 <= st <= k <= name.len(),
        st == 0 || name[st - 1] == '/',
        forall|j: int| st <= j < k ==> #[trigger] name[j] != '/',
        k == name.len() || name[k] == '/',
        is_segment(name, a, e),
        st <= e <= k,
    ensures
        a == st,
        e == k,
{
    if e < k {
        assert(name[e] != '/');
    }
    if a < st {
        assert(name[st - 1] != '/');
    }
    if a > st {
        assert(name[a - 1] != '/');
    }
}

/// The path under `root` for the collection entry `name`: `name` is split on `/`, empty
/// pieces are skipped and each other piece is appended below `root`. A piece that
/// `validate_path_component` refuses makes the whole name refused.
pub fn get_export_path(root: &str, name: &str) -> (r: Result<String, GetError>)
    ensures
        r is Ok <==> name_ok(name@),
        r matches Ok(p) ==> p@ == export_path(root@, name@),
        r matches Err(e) ==> e == GetError::PathViolation,
{
    let n = name.unicode_len();
    let mut path = String::from_str(root);
    let mut fresh = true;
    let mut st: usize = 0;
    let mut k: usize = 0;
    proof {
        reveal_strlit("/");
    }
    while k < n
        invariant
            n == name@.len(),
            st <= k <= n,
            st == 0 || name@[st - 1] == '/',
            forall|j: int| st <= j < k ==> #[trigger] name@[j] != '/',
            fresh == (k == st),
            path@ + path_tail(name@, k as int, fresh) == export_path(root@, name@),
            forall|a: int, e: int| #[trigger] is_segment(name@, a, e) && e < st ==> component_ok(
                name@.subrange(a, e),
            ),
            "/"@ == seq!['/'],
        decreases n - k,
    {
        let c = name.get_char(k);
        if c == '/' {
            let seg = name.substring_char(st, k);
            let v = validate_path_component(seg);
            if v.is_err() {
                assert(is_segment(name@, st as int, k as int));
                return Err(GetError::PathViolation);
            }
            proof {
                assert forall|a: int, e: int| #[trigger]
                    is_segment(name@, a, e) && e < k + 1 implies component_ok(
                    name@.subrange(a, e),
                ) by {
                    if e >= st {
                        lemma_segment_closed(name@, st as int, k as int, a, e);
                    }
                }
            }
            st = k + 1;
            fresh = true;
        } else {
            let piece = name.substring_char(k, k + 1);
            if fresh {
                path.append("/");
                assert(path_tail(name@, k as int, true) == seq!['/', c] + path_tail(
                    name@,
                    k + 1,
                    false,
                ));
            }
            path.append(piece);
            fresh = false;
        }
        k = k + 1;
    }
    let seg = name.substring_char(st, n);
    let v = validate_path_component(seg);
    if v.is_err() {
        assert(is_segment(name@, st as int, n as int));
        return Err(GetError::PathViolation);
    }
    proof {
        assert forall|a: int, e: int| #[trigger] is_segment(name@, a, e) implies component_ok(
            name@.subrange(a, e),
        ) by {
            if e >= st {
                lemma_segment_closed(name@, st as int, n as int, a, e);
            }
        }
        assert(path@ =~= export_path(root@, name@));
    }
    Ok(path)
}

} // verus!
