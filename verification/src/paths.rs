use vstd::prelude::*;
use vstd::string::*;

verus! {

// Paths are modelled as plain strings: every operation the manager needs
// (joining, final components, suffix tests) is defined here over `Seq<char>`
// and implemented as verified code, so that path derivation and matching
// are pinned down exactly.

/// Branch names become directory names with every `/` replaced by `-`.
pub open spec fn spec_sanitize(s: Seq<char>) -> Seq<char> {
    s.map_values(|c: char| if c == '/' { '-' } else { c })
}

/// A path with its trailing slashes removed.
pub open spec fn spec_trim_slashes(p: Seq<char>) -> Seq<char>
    decreases p.len(),
{
    if p.len() > 0 && p[p.len() - 1] == '/' {
        spec_trim_slashes(p.drop_last())
    } else {
        p
    }
}

/// The maximal suffix that contains no `/`.
pub open spec fn spec_after_last_slash(t: Seq<char>) -> Seq<char>
    decreases t.len(),
{
    if t.len() == 0 {
        t
    } else if t[t.len() - 1] == '/' {
        Seq::<char>::empty()
    } else {
        spec_after_last_slash(t.drop_last()).push(t[t.len() - 1])
    }
}

/// The final component of a path: what remains after the last `/` once
/// trailing slashes are dropped. `None` when nothing remains, or when the
/// component is `.` or `..`, which name no directory of their own.
pub open spec fn spec_last_component(p: Seq<char>) -> Option<Seq<char>> {
    let t = spec_trim_slashes(p);
    if t.len() == 0 {
        None
    } else {
        let c = spec_after_last_slash(t);
        if c == seq!['.'] || c == seq!['.', '.'] {
            None
        } else {
            Some(c)
        }
    }
}

/// Joining introduces exactly one separator between base and relative part.
pub open spec fn spec_join(base: Seq<char>, rel: Seq<char>) -> Seq<char> {
    if base.len() > 0 && base[base.len() - 1] == '/' {
        base + rel
    } else {
        base + seq!['/'] + rel
    }
}

pub open spec fn spec_is_absolute(p: Seq<char>) -> bool {
    p.len() > 0 && p[0] == '/'
}

pub open spec fn spec_ends_with(p: Seq<char>, suf: Seq<char>) -> bool {
    p.len() >= suf.len() && p.subrange(p.len() - suf.len(), p.len() as int) == suf
}

/// Two strings name the same path when they agree up to trailing slashes.
pub open spec fn spec_path_eq(a: Seq<char>, b: Seq<char>) -> bool {
    spec_trim_slashes(a) == spec_trim_slashes(b)
}

/// On a suffix free of `/` that begins right after a `/` (or at the start),
/// `spec_after_last_slash` returns exactly that suffix.
pub proof fn lemma_after_last_slash_split(t: Seq<char>, b: int)
    requires
        0 <= b <= t.len(),
        forall|k: int| b <= k < t.len() ==> t[k] != '/',
        b > 0 ==> t[b - 1] == '/',
    ensures
        spec_after_last_slash(t) == t.subrange(b, t.len() as int),
    decreases t.len(),
{
    if t.len() == b {
        assert(t.subrange(b, t.len() as int) =~= Seq::<char>::empty());
        if t.len() == 0 {
            assert(spec_after_last_slash(t) =~= Seq::<char>::empty());
        } else {
            assert(t[t.len() - 1] == '/');
        }
    } else {
        assert(t[t.len() - 1] != '/');
        lemma_after_last_slash_split(t.drop_last(), b);
        assert(t.drop_last().subrange(b, t.len() - 1) =~= t.subrange(b, t.len() - 1));
        assert(t.subrange(b, t.len() - 1).push(t[t.len() - 1]) =~= t.subrange(
            b,
            t.len() as int,
        ));
    }
}

/// Replace every `/` in a branch name by `-`, giving the directory name
/// that the branch's default worktree uses.
pub fn sanitize_branch(branch: &str) -> (r: String)
    ensures
        r@ == spec_sanitize(branch@),
{
    let n = branch.unicode_len();
    let mut out = String::new();
    let mut i: usize = 0;
    proof {
        assert(branch@.subrange(0, 0) =~= Seq::<char>::empty());
        assert(out@ =~= spec_sanitize(branch@.subrange(0, 0)));
    }
    while i < n
        invariant
            i <= n,
            n == branch@.len(),
            out@ == spec_sanitize(branch@.subrange(0, i as int)),
        decreases n - i,
    {
        let c = branch.get_char(i);
        if c == '/' {
            proof {
                reveal_strlit("-");
            }
            out.append("-");
        } else {
            let piece = branch.substring_char(i, i + 1);
            out.append(piece);
        }
        proof {
            assert(out@ =~= spec_sanitize(branch@.subrange(0, (i + 1) as int)));
        }
        i = i + 1;
    }
    proof {
        assert(branch@.subrange(0, n as int) =~= branch@);
    }
    out
}

/// Length of the path once trailing slashes are dropped.
pub fn trimmed_len(s: &str) -> (e: usize)
    ensures
        e <= s@.len(),
        s@.subrange(0, e as int) == spec_trim_slashes(s@),
        e > 0 ==> s@[e - 1] != '/',
{
    let n = s.unicode_len();
    let mut e: usize = n;
    proof {
        assert(s@.subrange(0, n as int) =~= s@);
    }
    while e > 0 && s.get_char(e - 1) == '/'
        invariant
            e <= n,
            n == s@.len(),
            spec_trim_slashes(s@) == spec_trim_slashes(s@.subrange(0, e as int)),
        decreases e,
    {
        proof {
            assert(s@.subrange(0, e as int).drop_last() =~= s@.subrange(0, (e - 1) as int));
        }
        e = e - 1;
    }
    proof {
        if e == 0 {
            assert(s@.subrange(0, 0) =~= Seq::<char>::empty());
        } else {
            assert(s@.subrange(0, e as int)[e - 1] == s@[e - 1]);
        }
    }
    e
}

/// Start of the final slash-free run of `s` below `e`.
fn component_start(s: &str, e: usize) -> (b: usize)
    requires
        e <= s@.len(),
    ensures
        b <= e,
        forall|k: int| b <= k < e ==> s@[k] != '/',
        b > 0 ==> s@[b - 1] == '/',
{
    let mut b: usize = e;
    while b > 0 && s.get_char(b - 1) != '/'
        invariant
            b <= e,
            e <= s@.len(),
            forall|k: int| b <= k < e ==> s@[k] != '/',
        decreases b,
    {
        b = b - 1;
    }
    b
}

/// The final path component, or `None` when the path has none.
pub fn last_component(path: &str) -> (r: Option<String>)
    ensures
        match r {
            Some(s) => spec_last_component(path@) == Some(s@),
            None => spec_last_component(path@) is None,
        },
{
    let e = trimmed_len(path);
    if e == 0 {
        return None;
    }
    let b = component_start(path, e);
    proof {
        let t = spec_trim_slashes(path@);
        assert(forall|k: int| b <= k < e ==> t[k] == path@[k]);
        if b > 0 {
            assert(t[b - 1] == path@[b - 1]);
        }
        lemma_after_last_slash_split(t, b as int);
        assert(t.subrange(b as int, t.len() as int) =~= path@.subrange(b as int, e as int));
    }
    assert(b < e);
    let comp = path.substring_char(b, e);
    let m = e - b;
    proof {
        assert(seq!['.'].len() == 1);
        assert(seq!['.', '.'].len() == 2);
    }
    if m == 1 && comp.get_char(0) == '.' {
        proof {
            assert(comp@ =~= seq!['.']);
        }
        None
    } else if m == 2 && comp.get_char(0) == '.' && comp.get_char(1) == '.' {
        proof {
            assert(comp@ =~= seq!['.', '.']);
        }
        None
    } else {
        proof {
            if comp@ == seq!['.'] {
                assert(comp@.len() == 1);
                assert(comp@[0] == '.');
            }
            if comp@ == seq!['.', '.'] {
                assert(comp@.len() == 2);
                assert(comp@[0] == '.');
                assert(comp@[1] == '.');
            }
        }
        Some(String::from_str(comp))
    }
}

/// Join a relative part onto a base directory.
pub fn join_path(base: &str, rel: &str) -> (r: String)
    ensures
        r@ == spec_join(base@, rel@),
{
    let n = base.unicode_len();
    if n > 0 && base.get_char(n - 1) == '/' {
        String::from_str(base).concat(rel)
    } else {
        proof {
            reveal_strlit("/");
            assert("/"@ =~= seq!['/']);
        }
        String::from_str(base).concat("/").concat(rel)
    }
}

pub fn is_absolute(p: &str) -> (r: bool)
    ensures
        r == spec_is_absolute(p@),
{
    let n = p.unicode_len();
    n > 0 && p.get_char(0) == '/'
}

/// Character-for-character string equality.
pub fn str_eq(a: &str, b: &str) -> (r: bool)
    ensures
        r == (a@ == b@),
{
    let n = a.unicode_len();
    let m = b.unicode_len();
    if n != m {
        return false;
    }
    let mut i: usize = 0;
    while i < n
        invariant
            i <= n,
            n == a@.len(),
            n == b@.len(),
            forall|k: int| 0 <= k < i ==> a@[k] == b@[k],
        decreases n - i,
    {
        if a.get_char(i) != b.get_char(i) {
            return false;
        }
        i = i + 1;
    }
    proof {
        assert(a@ =~= b@);
    }
    true
}

/// Does `p` end with `suf`, character for character?
pub fn str_ends_with(p: &str, suf: &str) -> (r: bool)
    ensures
        r == spec_ends_with(p@, suf@),
{
    let n = p.unicode_len();
    let m = suf.unicode_len();
    if n < m {
        return false;
    }
    let tail = p.substring_char(n - m, n);
    str_eq(tail, suf)
}

/// Path equality up to trailing slashes.
pub fn paths_equal(a: &str, b: &str) -> (r: bool)
    ensures
        r == spec_path_eq(a@, b@),
{
    let ea = trimmed_len(a);
    let eb = trimmed_len(b);
    let ta = a.substring_char(0, ea);
    let tb = b.substring_char(0, eb);
    str_eq(ta, tb)
}

} // verus!
