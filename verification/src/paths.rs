//! Path texts compared by their components, as `std::path::Path` compares
//! them: repeated separators, `.` components (but a leading one) and a
//! trailing separator make no difference.
use vstd::prelude::*;
use crate::chars::{chars_of, push_all, string_from_chars};

verus! {

/// The pieces of `s` between separators (`/`), left to right; a text with
/// `n` separators has `n + 1` pieces, some of them empty.
pub open spec fn split_slash(s: Seq<char>) -> Seq<Seq<char>>
    decreases s.len(),
{
    if s.len() == 0 {
        seq![Seq::<char>::empty()]
    } else {
        let init = split_slash(s.drop_last());
        if s.last() == '/' {
            init.push(Seq::<char>::empty())
        } else {
            init.update(init.len() - 1, init.last().push(s.last()))
        }
    }
}

/// A piece that names something: neither empty nor `.`.
pub open spec fn is_named(g: Seq<char>) -> bool {
    g.len() > 0 && g != seq!['.']
}

/// The named pieces of `segs`, in order.
pub open spec fn named(segs: Seq<Seq<char>>) -> Seq<Seq<char>>
    decreases segs.len(),
{
    if segs.len() == 0 {
        Seq::empty()
    } else {
        let k = named(segs.drop_last());
        if is_named(segs.last()) {
            k.push(segs.last())
        } else {
            k
        }
    }
}

/// Whether the path starts at the root: its first character is `/`.
pub open spec fn has_root(s: Seq<char>) -> bool {
    s.len() > 0 && s[0] == '/'
}

/// Whether a relative path starts with a `.` component (`.` or `./...`),
/// which is kept.
pub open spec fn starts_at_cur_dir(s: Seq<char>) -> bool {
    !has_root(s) && split_slash(s)[0] == seq!['.']
}

/// The components of the path after its root: a leading `.` where there is
/// one, then the named pieces.
pub open spec fn path_parts(s: Seq<char>) -> Seq<Seq<char>> {
    if starts_at_cur_dir(s) {
        seq![seq!['.']] + named(split_slash(s))
    } else {
        named(split_slash(s))
    }
}

/// The parts joined with single separators.
pub open spec fn join_parts(parts: Seq<Seq<char>>) -> Seq<char>
    decreases parts.len(),
{
    if parts.len() == 0 {
        Seq::empty()
    } else if parts.len() == 1 {
        parts[0]
    } else {
        join_parts(parts.drop_last()) + seq!['/'] + parts.last()
    }
}

/// The text under which a path is looked up: `/` for a path from the root,
/// then its components joined by single separators.
pub open spec fn path_key_of(s: Seq<char>) -> Seq<char> {
    if has_root(s) {
        seq!['/'] + join_parts(path_parts(s))
    } else {
        join_parts(path_parts(s))
    }
}

/// Two paths with the same components: both from the root or neither, and
/// the same parts after it.
pub open spec fn same_components(a: Seq<char>, b: Seq<char>) -> bool {
    has_root(a) == has_root(b) && path_parts(a) == path_parts(b)
}

/// The keys of a list of paths.
pub open spec fn keys_of(v: Seq<String>) -> Seq<Seq<char>> {
    v.map_values(|t: String| path_key_of(t@))
}

/// Whether two paths have the same components, compared by their keys.
pub fn same_path(a: &str, b: &str) -> (r: bool)
    ensures
        r == (path_key_of(a@) == path_key_of(b@)),
{
    let ka = path_key(a);
    let kb = path_key(b);
    crate::formats::str_eq(ka.as_str(), kb.as_str())
}

/// A text always has at least one piece.
proof fn lemma_split_nonempty(s: Seq<char>)
    ensures
        split_slash(s).len() >= 1,
    decreases s.len(),
{
    if s.len() > 0 {
        lemma_split_nonempty(s.drop_last());
    }
}

fn is_named_piece(g: &Vec<char>) -> (r: bool)
    ensures
        r == is_named(g@),
{
    if g.len() == 0 {
        false
    } else if g.len() == 1 && g[0] == '.' {
        assert(g@ =~= seq!['.']);
        false
    } else {
        proof {
            if g@ == seq!['.'] {
                assert(g@[0] == '.');
            }
        }
        true
    }
}

/// The pieces of `s` between separators.
fn split_pieces(s: &Vec<char>) -> (r: Vec<Vec<char>>)
    ensures
        r@.len() == split_slash(s@).len(),
        forall|j: int| 0 <= j < r@.len() ==> (#[trigger] r@[j])@ == split_slash(s@)[j],
{
    let mut segs: Vec<Vec<char>> = Vec::new();
    segs.push(Vec::new());
    let mut i: usize = 0;
    proof {
        assert(s@.take(0) =~= Seq::<char>::empty());
    }
    while i < s.len()
        invariant
            i <= s.len(),
            segs@.len() == split_slash(s@.take(i as int)).len(),
            segs@.len() >= 1,
            forall|j: int| 0 <= j < segs@.len() ==> (#[trigger] segs@[j])@ == split_slash(s@.take(i as int))[j],
        decreases s.len() - i,
    {
        let c = s[i];
        let ghost before = split_slash(s@.take(i as int));
        proof {
            assert(s@.take(i + 1).drop_last() =~= s@.take(i as int));
            assert(s@.take(i + 1).last() == c);
        }
        if c == '/' {
            segs.push(Vec::new());
        } else {
            let mut last = segs.pop().unwrap();
            last.push(c);
            segs.push(last);
        }
        i += 1;
        proof {
            assert forall|j: int| 0 <= j < segs@.len() implies (#[trigger] segs@[j])@ == split_slash(s@.take(i as int))[j] by {
                if c == '/' {
                    assert(split_slash(s@.take(i as int)) == before.push(Seq::<char>::empty()));
                } else {
                    assert(split_slash(s@.take(i as int)) == before.update(before.len() - 1, before.last().push(c)));
                }
            }
        }
    }
    proof {
        assert(s@.take(s.len() as int) =~= s@);
    }
    segs
}

/// The key of `path`: `/` for a path from the root, then its components
/// (a leading `.` kept, empty and other `.` pieces dropped) joined by single
/// separators. Two paths get the same key exactly when they have the same
/// components.
pub fn path_key(path: &str) -> (r: String)
    ensures
        r@ == path_key_of(path@),
{
    let s = chars_of(path);
    let segs = split_pieces(&s);
    let ghost gs = split_slash(s@);
    let root = s.len() > 0 && s[0] == '/';
    let mut out: Vec<char> = Vec::new();
    let ghost prefix: Seq<char> = if root { seq!['/'] } else { Seq::empty() };
    if root {
        out.push('/');
    }
    let mut any = false;
    let ghost lead: Seq<Seq<char>> = Seq::empty();
    proof {
        lemma_split_nonempty(s@);
    }
    let first = &segs[0];
    assert(first@ == gs[0]);
    if !root && first.len() == 1 && first[0] == '.' {
        out.push('.');
        any = true;
        proof {
            lead = seq![seq!['.']];
            assert(first@ =~= seq!['.']);
        }
    } else {
        proof {
            if !root && gs[0] == seq!['.'] {
                assert(first@[0] == '.');
            }
        }
    }
    proof {
        assert(lead == (if starts_at_cur_dir(s@) { seq![seq!['.']] } else { Seq::<Seq<char>>::empty() }));
        assert(gs.take(0) =~= Seq::<Seq<char>>::empty());
        assert(out@ =~= prefix + join_parts(lead + named(gs.take(0))));
    }
    let mut j: usize = 0;
    while j < segs.len()
        invariant
            j <= segs@.len(),
            segs@.len() == gs.len(),
            forall|k: int| 0 <= k < segs@.len() ==> (#[trigger] segs@[k])@ == gs[k],
            out@ == prefix + join_parts(lead + named(gs.take(j as int))),
            any == ((lead + named(gs.take(j as int))).len() > 0),
        decreases segs.len() - j,
    {
        let g = &segs[j];
        let ghost parts = lead + named(gs.take(j as int));
        proof {
            assert(gs.take(j + 1).drop_last() =~= gs.take(j as int));
            assert(gs.take(j + 1).last() == gs[j as int]);
        }
        if is_named_piece(g) {
            proof {
                assert(lead + named(gs.take(j + 1)) =~= parts.push(g@));
                assert(parts.push(g@).drop_last() =~= parts);
            }
            if any {
                out.push('/');
            }
            push_all(&mut out, g);
            any = true;
            proof {
                if parts.len() == 0 {
                    assert(join_parts(parts.push(g@)) == g@);
                }
                assert(out@ =~= prefix + join_parts(parts.push(g@)));
            }
        } else {
            proof {
                assert(lead + named(gs.take(j + 1)) =~= parts);
            }
        }
        j += 1;
    }
    proof {
        assert(gs.take(segs@.len() as int) =~= gs);
        assert(lead + named(gs) == path_parts(s@));
    }
    string_from_chars(&out)
}

/// No piece holds a separator.
proof fn lemma_pieces_unslashed(s: Seq<char>)
    ensures
        forall|j: int| 0 <= j < split_slash(s).len() ==> !(#[trigger] split_slash(s)[j]).contains('/'),
    decreases s.len(),
{
    if s.len() > 0 {
        let init = split_slash(s.drop_last());
        lemma_pieces_unslashed(s.drop_last());
        lemma_split_nonempty(s.drop_last());
        if s.last() != '/' {
            assert forall|j: int| 0 <= j < split_slash(s).len() implies !(#[trigger] split_slash(s)[j]).contains('/') by {
                if j == init.len() - 1 {
                    let g = init.last().push(s.last());
                    if g.contains('/') {
                        let k = choose|k: int| 0 <= k < g.len() && g[k] == '/';
                        if k < init.last().len() {
                            assert(init.last()[k] == '/');
                        }
                    }
                }
            }
        } else {
            assert forall|j: int| 0 <= j < split_slash(s).len() implies !(#[trigger] split_slash(s)[j]).contains('/') by {
                if j < init.len() {
                    assert(split_slash(s)[j] == init[j]);
                }
            }
        }
    }
}

/// The named pieces are among the pieces.
proof fn lemma_named_from(segs: Seq<Seq<char>>)
    ensures
        forall|j: int| 0 <= j < named(segs).len() ==> is_named(#[trigger] named(segs)[j]) && segs.contains(named(segs)[j]),
    decreases segs.len(),
{
    if segs.len() > 0 {
        lemma_named_from(segs.drop_last());
        let k = named(segs.drop_last());
        assert forall|j: int| 0 <= j < named(segs).len() implies is_named(#[trigger] named(segs)[j]) && segs.contains(named(segs)[j]) by {
            if j < k.len() {
                assert(named(segs)[j] == k[j]);
                let m = choose|m: int| 0 <= m < segs.drop_last().len() && segs.drop_last()[m] == k[j];
                assert(segs[m] == k[j]);
            } else {
                assert(segs[segs.len() - 1] == segs.last());
            }
        }
    }
}

/// Whether each part is non-empty and holds no separator.
pub open spec fn clean_parts(parts: Seq<Seq<char>>) -> bool {
    forall|j: int| 0 <= j < parts.len() ==> (#[trigger] parts[j]).len() > 0 && !parts[j].contains('/')
}

proof fn lemma_parts_clean(s: Seq<char>)
    ensures
        clean_parts(path_parts(s)),
{
    lemma_pieces_unslashed(s);
    lemma_named_from(split_slash(s));
    let n = named(split_slash(s));
    assert forall|j: int| 0 <= j < n.len() implies (#[trigger] n[j]).len() > 0 && !n[j].contains('/') by {
        let m = choose|m: int| 0 <= m < split_slash(s).len() && split_slash(s)[m] == n[j];
        assert(!split_slash(s)[m].contains('/'));
    }
    if starts_at_cur_dir(s) {
        let p = path_parts(s);
        assert forall|j: int| 0 <= j < p.len() implies (#[trigger] p[j]).len() > 0 && !p[j].contains('/') by {
            if j == 0 {
                assert(p[0] == seq!['.']);
                assert(!seq!['.'].contains('/')) by {
                    if seq!['.'].contains('/') {
                        let k = choose|k: int| 0 <= k < 1 && seq!['.'][k] == '/';
                    }
                }
            } else {
                assert(p[j] == n[j - 1]);
            }
        }
    }
}

/// Appending separator-free characters extends the last piece.
proof fn lemma_split_append(x: Seq<char>, y: Seq<char>)
    requires
        !y.contains('/'),
    ensures
        split_slash(x + y) == split_slash(x).update(split_slash(x).len() - 1, split_slash(x).last() + y),
    decreases y.len(),
{
    lemma_split_nonempty(x);
    if y.len() == 0 {
        assert(x + y =~= x);
        assert(split_slash(x).last() + y =~= split_slash(x).last());
        assert(split_slash(x).update(split_slash(x).len() - 1, split_slash(x).last()) =~= split_slash(x));
    } else {
        let y0 = y.drop_last();
        assert(!y0.contains('/')) by {
            if y0.contains('/') {
                let k = choose|k: int| 0 <= k < y0.len() && y0[k] == '/';
                assert(y[k] == '/');
            }
        }
        assert(y.last() != '/') by {
            if y.last() == '/' {
                assert(y[y.len() - 1] == '/');
            }
        }
        lemma_split_append(x, y0);
        assert((x + y).drop_last() =~= x + y0);
        assert((x + y).last() == y.last());
        let sx = split_slash(x);
        assert(split_slash(x + y0).last() == sx.last() + y0);
        assert((sx.last() + y0).push(y.last()) =~= sx.last() + y);
        assert(split_slash(x + y) =~= sx.update(sx.len() - 1, sx.last() + y));
    }
}

/// Clean parts split back into themselves.
proof fn lemma_split_join(parts: Seq<Seq<char>>)
    requires
        parts.len() >= 1,
        clean_parts(parts),
    ensures
        split_slash(join_parts(parts)) == parts,
    decreases parts.len(),
{
    if parts.len() == 1 {
        lemma_split_append(Seq::empty(), parts[0]);
        assert(Seq::<char>::empty() + parts[0] =~= parts[0]);
        assert(split_slash(Seq::<char>::empty()) == seq![Seq::<char>::empty()]);
        assert(Seq::<char>::empty() + parts[0] =~= parts[0]);
        assert(split_slash(parts[0]) =~= parts);
    } else {
        let p0 = parts.drop_last();
        assert(clean_parts(p0)) by {
            assert forall|j: int| 0 <= j < p0.len() implies (#[trigger] p0[j]).len() > 0 && !p0[j].contains('/') by {
                assert(p0[j] == parts[j]);
            }
        }
        lemma_split_join(p0);
        let x = join_parts(p0) + seq!['/'];
        assert(x.drop_last() =~= join_parts(p0));
        assert(split_slash(x) == p0.push(Seq::<char>::empty()));
        assert(!parts.last().contains('/')) by {
            assert(parts[parts.len() - 1] == parts.last());
        }
        lemma_split_append(x, parts.last());
        assert(Seq::<char>::empty() + parts.last() =~= parts.last());
        assert(split_slash(x + parts.last()) =~= parts);
    }
}

/// The first character of joined clean parts is that of the first part.
proof fn lemma_join_first(parts: Seq<Seq<char>>)
    requires
        parts.len() >= 1,
        clean_parts(parts),
    ensures
        join_parts(parts).len() > 0,
        join_parts(parts)[0] == parts[0][0],
    decreases parts.len(),
{
    assert(parts[0].len() > 0);
    if parts.len() > 1 {
        let p0 = parts.drop_last();
        assert(clean_parts(p0)) by {
            assert forall|j: int| 0 <= j < p0.len() implies (#[trigger] p0[j]).len() > 0 && !p0[j].contains('/') by {
                assert(p0[j] == parts[j]);
            }
        }
        lemma_join_first(p0);
    }
}

/// Two paths get the same key exactly when they have the same components.
pub proof fn lemma_key_same_components(a: Seq<char>, b: Seq<char>)
    ensures
        path_key_of(a) == path_key_of(b) <==> same_components(a, b),
{
    if path_key_of(a) == path_key_of(b) {
        lemma_parts_clean(a);
        lemma_parts_clean(b);
        let pa = path_parts(a);
        let pb = path_parts(b);
        if pa.len() > 0 {
            lemma_join_first(pa);
            assert(!pa[0].contains('/') && pa[0].len() > 0);
            assert(pa[0][0] != '/') by {
                if pa[0][0] == '/' {
                    assert(pa[0].contains('/'));
                }
            }
        }
        if pb.len() > 0 {
            lemma_join_first(pb);
            assert(pb[0][0] != '/') by {
                if pb[0][0] == '/' {
                    assert(pb[0].contains('/'));
                }
            }
        }
        assert(has_root(a) == has_root(b)) by {
            if has_root(a) && !has_root(b) {
                assert(path_key_of(a)[0] == '/');
            }
            if has_root(b) && !has_root(a) {
                assert(path_key_of(b)[0] == '/');
            }
        }
        let ja = join_parts(pa);
        let jb = join_parts(pb);
        assert(ja == jb) by {
            if has_root(a) {
                assert(ja =~= path_key_of(a).drop_first());
                assert(jb =~= path_key_of(b).drop_first());
            }
        }
        if pa.len() > 0 && pb.len() > 0 {
            lemma_split_join(pa);
            lemma_split_join(pb);
        } else if pa.len() > 0 {
            assert(jb.len() == 0);
        } else if pb.len() > 0 {
            assert(ja.len() == 0);
        } else {
            assert(pa =~= pb);
        }
    }
}

} // verus!
