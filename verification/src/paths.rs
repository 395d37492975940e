//! Path text handling: joining the server's save directory with a received
//! path, reversing the order of path components (the kernel probes report
//! a path leaf first), the parent of a path, and the leading slash of paths
//! relative to the watched directory.
use vstd::prelude::*;
use vstd::string::StringExecFns;
use crate::text::push_char;

verus! {

/// The pieces of `s` between occurrences of `c`, including empty ones;
/// there is always at least one piece.
pub open spec fn split_on(s: Seq<char>, c: char) -> Seq<Seq<char>>
    decreases s.len(),
{
    if s.len() == 0 {
        seq![Seq::<char>::empty()]
    } else {
        let r = split_on(s.drop_last(), c);
        if s.last() == c {
            r.push(Seq::<char>::empty())
        } else {
            r.update(r.len() - 1, r.last().push(s.last()))
        }
    }
}

/// The pieces joined with `c` between consecutive pieces.
pub open spec fn join_with(parts: Seq<Seq<char>>, c: char) -> Seq<char>
    decreases parts.len(),
{
    if parts.len() == 0 {
        Seq::<char>::empty()
    } else if parts.len() == 1 {
        parts[0]
    } else {
        join_with(parts.drop_last(), c) + seq![c] + parts.last()
    }
}

/// The components of a `/`-separated path in reverse order.
pub open spec fn reverse_components(s: Seq<char>) -> Seq<char> {
    join_with(split_on(s, '/').reverse(), '/')
}

/// No piece contains `c`.
pub open spec fn pieces_free_of(parts: Seq<Seq<char>>, c: char) -> bool {
    forall|i: int| 0 <= i < parts.len() ==> !(#[trigger] parts[i]).contains(c)
}

proof fn lemma_split_shape(s: Seq<char>, c: char)
    ensures
        split_on(s, c).len() >= 1,
        pieces_free_of(split_on(s, c), c),
    decreases s.len(),
{
    if s.len() > 0 {
        lemma_split_shape(s.drop_last(), c);
        let r = split_on(s.drop_last(), c);
        if s.last() != c {
            let u = r.update(r.len() - 1, r.last().push(s.last()));
            assert forall|i: int| 0 <= i < u.len() implies !(#[trigger] u[i]).contains(c) by {
                if i == r.len() - 1 {
                    if u[i].contains(c) {
                        let k = choose|k: int| 0 <= k < u[i].len() && u[i][k] == c;
                        if k < r.last().len() {
                            assert(r[i].contains(c));
                        }
                    }
                }
            }
        } else {
            let u = r.push(Seq::<char>::empty());
            assert forall|i: int| 0 <= i < u.len() implies !(#[trigger] u[i]).contains(c) by {
                if i < r.len() {
                    assert(u[i] == r[i]);
                }
            }
        }
    }
}

proof fn lemma_join_extend_last(parts: Seq<Seq<char>>, t: Seq<char>, c: char)
    requires
        parts.len() >= 1,
    ensures
        join_with(parts.update(parts.len() - 1, parts.last() + t), c) == join_with(parts, c) + t,
{
    let u = parts.update(parts.len() - 1, parts.last() + t);
    if parts.len() > 1 {
        assert(u.drop_last() == parts.drop_last());
    }
}

/// Joining the pieces of a text gives the text back.
proof fn lemma_join_split(s: Seq<char>, c: char)
    ensures
        join_with(split_on(s, c), c) == s,
    decreases s.len(),
{
    if s.len() > 0 {
        let s0 = s.drop_last();
        lemma_join_split(s0, c);
        lemma_split_shape(s0, c);
        let r = split_on(s0, c);
        if s.last() == c {
            assert(r.push(Seq::<char>::empty()).drop_last() == r);
            assert(s == s0 + seq![c] + Seq::<char>::empty());
        } else {
            lemma_join_extend_last(r, seq![s.last()], c);
            assert(r.last().push(s.last()) == r.last() + seq![s.last()]);
            assert(s == s0 + seq![s.last()]);
        }
    }
}

/// Appending text free of `c` only lengthens the last piece.
proof fn lemma_split_append_free(x: Seq<char>, t: Seq<char>, c: char)
    requires
        !t.contains(c),
    ensures
        split_on(x + t, c) == split_on(x, c).update(
            split_on(x, c).len() - 1,
            split_on(x, c).last() + t,
        ),
    decreases t.len(),
{
    lemma_split_shape(x, c);
    let r = split_on(x, c);
    if t.len() == 0 {
        assert(x + t == x);
        assert(r.last() + t == r.last());
        assert(r.update(r.len() - 1, r.last()) == r);
    } else {
        let t0 = t.drop_last();
        assert(!t0.contains(c)) by {
            if t0.contains(c) {
                let k = choose|k: int| 0 <= k < t0.len() && t0[k] == c;
                assert(t[k] == c);
            }
        }
        lemma_split_append_free(x, t0, c);
        assert((x + t).drop_last() == x + t0);
        assert((x + t).last() == t.last());
        assert(t.last() != c) by {
            assert(t[t.len() - 1] == t.last());
        }
        lemma_split_shape(x + t0, c);
        assert((r.last() + t0).push(t.last()) == r.last() + t);
    }
}

/// Splitting joined pieces that are free of the separator gives the
/// pieces back.
pub proof fn lemma_split_join(parts: Seq<Seq<char>>, c: char)
    requires
        parts.len() >= 1,
        pieces_free_of(parts, c),
    ensures
        split_on(join_with(parts, c), c) == parts,
    decreases parts.len(),
{
    if parts.len() == 1 {
        lemma_split_append_free(Seq::<char>::empty(), parts[0], c);
        assert(Seq::<char>::empty() + parts[0] == parts[0]);
        assert(split_on(Seq::<char>::empty(), c).update(0, Seq::<char>::empty() + parts[0])
            == parts);
    } else {
        let p0 = parts.drop_last();
        assert(pieces_free_of(p0, c)) by {
            assert forall|i: int| 0 <= i < p0.len() implies !(#[trigger] p0[i]).contains(c) by {
                assert(p0[i] == parts[i]);
            }
        }
        lemma_split_join(p0, c);
        let j0 = join_with(p0, c);
        let x = j0 + seq![c];
        assert(!parts.last().contains(c)) by {
            assert(parts[parts.len() - 1] == parts.last());
        }
        lemma_split_append_free(x, parts.last(), c);
        assert(x.drop_last() == j0);
        assert(split_on(x, c) == p0.push(Seq::<char>::empty()));
        assert(Seq::<char>::empty() + parts.last() == parts.last());
        assert(p0.push(Seq::<char>::empty()).update(p0.len() as int, parts.last()) == parts);
    }
}

/// Joining a first piece in front of further pieces puts the separator
/// between it and their join.
pub proof fn lemma_join_cons(a: Seq<char>, rest: Seq<Seq<char>>, c: char)
    requires
        rest.len() >= 1,
    ensures
        join_with(seq![a] + rest, c) == a + seq![c] + join_with(rest, c),
    decreases rest.len(),
{
    let all = seq![a] + rest;
    if rest.len() == 1 {
        assert(all.drop_last() =~= seq![a]);
        assert(all.last() == rest[0]);
        assert(join_with(seq![a], c) == a);
        assert(join_with(rest, c) == rest[0]);
        assert(join_with(all, c) == join_with(all.drop_last(), c) + seq![c] + all.last());
    } else {
        assert(all.drop_last() =~= seq![a] + rest.drop_last());
        assert(all.last() == rest.last());
        lemma_join_cons(a, rest.drop_last(), c);
        let j = join_with(rest.drop_last(), c);
        assert(join_with(all, c) == join_with(all.drop_last(), c) + seq![c] + all.last());
        assert(join_with(rest, c) == j + seq![c] + rest.last());
        assert(a + seq![c] + j + seq![c] + rest.last() =~= a + seq![c] + (j + seq![c]
            + rest.last()));
    }
}

/// Reversing the components of pieces joined with `/` joins the pieces
/// in reverse order, when no piece holds a `/`.
pub proof fn lemma_reverse_joined(parts: Seq<Seq<char>>)
    requires
        parts.len() >= 1,
        pieces_free_of(parts, '/'),
    ensures
        reverse_components(join_with(parts, '/')) == join_with(parts.reverse(), '/'),
{
    lemma_split_join(parts, '/');
}

/// Reversing the order of the components of a path twice gives the path
/// back.
pub proof fn lemma_reverse_components_involution(s: Seq<char>)
    ensures
        reverse_components(reverse_components(s)) == s,
{
    let p = split_on(s, '/');
    lemma_split_shape(s, '/');
    let q = p.reverse();
    assert(pieces_free_of(q, '/')) by {
        assert forall|i: int| 0 <= i < q.len() implies !(#[trigger] q[i]).contains('/') by {
            assert(q[i] == p[p.len() - 1 - i]);
        }
    }
    lemma_split_join(q, '/');
    assert(q.reverse() == p);
    lemma_join_split(s, '/');
}

/// The path of a received file under the server's save directory.
pub fn create_global_path(save_path: &str, path: &str) -> (r: String)
    ensures
        r@ == save_path@ + seq!['/'] + path@,
{
    let mut full_path = String::from_str(save_path);
    push_char(&mut full_path, '/');
    full_path.append(path);
    full_path
}

/// The pieces of `s` between `c`s, as vectors.
pub fn split_chars(s: &Vec<char>, c: char) -> (r: Vec<Vec<char>>)
    ensures
        r@.map_values(|p: Vec<char>| p@) == split_on(s@, c),
{
    let mut parts: Vec<Vec<char>> = Vec::new();
    parts.push(Vec::new());
    assert(s@.take(0) == Seq::<char>::empty());
    assert(parts@.map_values(|p: Vec<char>| p@) == split_on(Seq::<char>::empty(), c));
    let n = s.len();
    for i in 0..n
        invariant
            n == s@.len(),
            parts@.len() >= 1,
            parts@.map_values(|p: Vec<char>| p@) == split_on(s@.take(i as int), c),
    {
        let ghost before = parts@.map_values(|p: Vec<char>| p@);
        assert(s@.take(i + 1).drop_last() == s@.take(i as int));
        assert(s@.take(i + 1).last() == s@[i as int]);
        if s[i] == c {
            parts.push(Vec::new());
            assert(parts@.map_values(|p: Vec<char>| p@) == before.push(Seq::<char>::empty()));
        } else {
            let mut last = parts.pop().unwrap();
            last.push(s[i]);
            parts.push(last);
            assert(parts@.map_values(|p: Vec<char>| p@) == before.update(
                before.len() - 1,
                before.last().push(s@[i as int]),
            ));
        }
    }
    assert(s@.take(n as int) == s@);
    parts
}

/// The components of the `/`-separated path `s` in reverse order.
pub fn reverse_path_components(s: &Vec<char>) -> (r: Vec<char>)
    ensures
        r@ == reverse_components(s@),
{
    let parts = split_chars(s, '/');
    let ghost q = split_on(s@, '/').reverse();
    let n = parts.len();
    let mut out: Vec<char> = Vec::new();
    for k in 0..n
        invariant
            n == parts@.len(),
            q == parts@.map_values(|p: Vec<char>| p@).reverse(),
            out@ == join_with(q.take(k as int), '/'),
    {
        let ghost before = out@;
        if k > 0 {
            out.push('/');
        }
        let part = &parts[n - 1 - k];
        let m = part.len();
        for j in 0..m
            invariant
                m == part@.len(),
                out@ == (if k > 0 { before + seq!['/'] } else { before }) + part@.take(j as int),
        {
            out.push(part[j]);
            assert(part@.take(j + 1) == part@.take(j as int).push(part@[j as int]));
        }
        assert(part@.take(m as int) == part@);
        assert(q[k as int] == part@);
        assert(q.take(k + 1).drop_last() == q.take(k as int));
        if k == 0 {
            assert(before == Seq::<char>::empty());
            assert(Seq::<char>::empty() + part@ == part@);
        }
    }
    assert(q.take(n as int) == q);
    out
}

/// The non-empty components of a `/`-separated path.
pub open spec fn nonempty_components(s: Seq<char>) -> Seq<Seq<char>> {
    split_on(s, '/').filter(|p: Seq<char>| p.len() > 0)
}

/// The parent of a path: `/` followed by all its non-empty components but
/// the last, joined with `/`, when there are at least two; otherwise empty.
pub open spec fn parent_of(s: Seq<char>) -> Seq<char> {
    let parts = nonempty_components(s);
    if parts.len() > 1 {
        seq!['/'] + join_with(parts.drop_last(), '/')
    } else {
        Seq::<char>::empty()
    }
}

/// The parent of a path (see `parent_of`).
pub fn parent_path(s: &Vec<char>) -> (r: Vec<char>)
    ensures
        r@ == parent_of(s@),
{
    let parts = split_chars(s, '/');
    let ghost all = parts@.map_values(|p: Vec<char>| p@);
    let mut kept: Vec<usize> = Vec::new();
    let n = parts.len();
    for i in 0..n
        invariant
            n == parts@.len(),
            all == parts@.map_values(|p: Vec<char>| p@),
            forall|j: int| 0 <= j < kept@.len() ==> kept@[j] < n,
            kept@.map_values(|j: usize| all[j as int]) == all.take(i as int).filter(
                |p: Seq<char>| p.len() > 0,
            ),
    {
        assert(all.take(i + 1).drop_last() == all.take(i as int));
        proof {
            all.take(i as int).lemma_filter_push(all[i as int], |p: Seq<char>| p.len() > 0);
        }
        assert(all.take(i + 1) == all.take(i as int).push(all[i as int]));
        if parts[i].len() > 0 {
            kept.push(i);
        }
    }
    assert(all.take(n as int) == all);
    let ghost ne = all.filter(|p: Seq<char>| p.len() > 0);
    let mut out: Vec<char> = Vec::new();
    let m = kept.len();
    if m > 1 {
        out.push('/');
        for k in 0..m - 1
            invariant
                m == kept@.len(),
                m > 1,
                n == parts@.len(),
                all == parts@.map_values(|p: Vec<char>| p@),
                forall|j: int| 0 <= j < kept@.len() ==> kept@[j] < n,
                kept@.map_values(|j: usize| all[j as int]) == ne,
                out@ == seq!['/'] + join_with(ne.take(k as int), '/'),
        {
            let ghost before = out@;
            if k > 0 {
                out.push('/');
            }
            let part = &parts[kept[k]];
            assert(part@ == ne[k as int]);
            let len = part.len();
            for j in 0..len
                invariant
                    len == part@.len(),
                    out@ == (if k > 0 { before + seq!['/'] } else { before }) + part@.take(j as int),
            {
                out.push(part[j]);
                assert(part@.take(j + 1) == part@.take(j as int).push(part@[j as int]));
            }
            assert(part@.take(len as int) == part@);
            assert(ne.take(k + 1).drop_last() == ne.take(k as int));
            if k == 0 {
                assert(before == seq!['/']);
                assert(ne.take(1) == seq![ne[0]]);
            }
        }
        assert(ne.take(m - 1) == ne.drop_last());
    }
    out
}

/// A path relative to the watched directory, with a `/` put in front
/// when it does not start with one.
pub fn ensure_leading_slash(path: Vec<char>) -> (r: Vec<char>)
    ensures
        path@.len() > 0 && path@[0] == '/' ==> r@ == path@,
        !(path@.len() > 0 && path@[0] == '/') ==> r@ == seq!['/'] + path@,
{
    if path.len() > 0 && path[0] == '/' {
        path
    } else {
        let mut out: Vec<char> = Vec::new();
        out.push('/');
        crate::text::extend_chars(&mut out, &path);
        out
    }
}

} // verus!
