//! Paths as text, with '/' as the separator: joining, splitting on a
//! separator, and the last component.

use vstd::prelude::*;
use crate::text::{chars_of, string_of};

verus! {

/// `base` with `p` pushed on: `p` alone where it is absolute, else `p`
/// after a separator, unless `base` is empty or already ends with one.
pub open spec fn path_push(base: Seq<char>, p: Seq<char>) -> Seq<char> {
    if p.len() > 0 && p[0] == '/' {
        p
    } else if base.len() > 0 && base.last() != '/' {
        base + seq!['/'] + p
    } else {
        base + p
    }
}

/// The parts of `p` pushed in order onto an empty path.
pub open spec fn join_path(parts: Seq<Seq<char>>) -> Seq<char>
    decreases parts.len(),
{
    if parts.len() == 0 {
        seq![]
    } else {
        path_push(join_path(parts.drop_last()), parts.last())
    }
}

/// `s` cut at every occurrence of `sep`, taken left to right without overlap.
pub open spec fn split_sep(s: Seq<char>, sep: Seq<char>) -> Seq<Seq<char>>
    decreases s.len(),
{
    if sep.len() == 0 || s.len() < sep.len() {
        seq![s]
    } else if s.subrange(0, sep.len() as int) == sep {
        seq![seq![]] + split_sep(s.subrange(sep.len() as int, s.len() as int), sep)
    } else {
        prepend_first(seq![s[0]], split_sep(s.drop_first(), sep))
    }
}

/// `parts` with `c` put before its first part.
pub open spec fn prepend_first(c: Seq<char>, parts: Seq<Seq<char>>) -> Seq<Seq<char>> {
    if parts.len() == 0 {
        seq![c]
    } else {
        parts.update(0, c + parts[0])
    }
}

/// The text of each part.
pub open spec fn parts_view(v: Seq<Vec<char>>) -> Seq<Seq<char>> {
    v.map_values(|x: Vec<char>| x@)
}

/// A part that names something: neither empty nor ".".
pub open spec fn is_named(x: Seq<char>) -> bool {
    x.len() > 0 && x != seq!['.']
}

/// The last part of `parts` that names something, if any.
pub open spec fn last_named(parts: Seq<Seq<char>>) -> Option<Seq<char>>
    decreases parts.len(),
{
    if parts.len() == 0 {
        None
    } else if is_named(parts.last()) {
        Some(parts.last())
    } else {
        last_named(parts.drop_last())
    }
}

/// The last component of a path: the last part between separators that is
/// neither empty nor "."; none where there is no such part or it is "..".
pub open spec fn file_name(p: Seq<char>) -> Option<Seq<char>> {
    match last_named(split_sep(p, seq!['/'])) {
        Some(x) => if x == seq!['.', '.'] {
            None
        } else {
            Some(x)
        },
        None => None,
    }
}

/// The path that a session file's name stands for: the name cut at every
/// "__", the parts joined as a path, pushed onto "/".
pub open spec fn session_path(name: Seq<char>) -> Seq<char> {
    path_push(seq!['/'], join_path(split_sep(name, seq!['_', '_'])))
}

proof fn lemma_split_nonempty(s: Seq<char>, sep: Seq<char>)
    ensures
        split_sep(s, sep).len() >= 1,
    decreases s.len(),
{
    if sep.len() == 0 || s.len() < sep.len() {
    } else if s.subrange(0, sep.len() as int) == sep {
        lemma_split_nonempty(s.subrange(sep.len() as int, s.len() as int), sep);
    } else {
        lemma_split_nonempty(s.drop_first(), sep);
    }
}

/// Cuts `s` at every occurrence of `sep`.
pub fn split_chars(s: &Vec<char>, sep: &Vec<char>) -> (r: Vec<Vec<char>>)
    requires
        sep@.len() > 0,
    ensures
        parts_view(r@) == split_sep(s@, sep@),
{
    let mut out: Vec<Vec<char>> = Vec::new();
    let mut cur: Vec<char> = Vec::new();
    let mut i: usize = 0;
    let n = s.len();
    let m = sep.len();
    proof {
        assert(s@.subrange(0, n as int) =~= s@);
        assert(prepend_first(seq![], split_sep(s@, sep@)) =~= split_sep(s@, sep@)) by {
            lemma_split_nonempty(s@, sep@);
            assert(seq![] + split_sep(s@, sep@)[0] =~= split_sep(s@, sep@)[0]);
        }
    }
    while m <= n - i
        invariant
            n == s@.len(),
            m == sep@.len(),
            m > 0,
            i <= n,
            split_sep(s@, sep@) == parts_view(out@) + prepend_first(
                cur@,
                split_sep(s@.subrange(i as int, n as int), sep@),
            ),
        decreases n - i,
    {
        let ghost rest = s@.subrange(i as int, n as int);
        let mut j: usize = 0;
        let mut matched = true;
        while j < m
            invariant
                j <= m,
                i + m <= n,
                n == s@.len(),
                m == sep@.len(),
                matched <==> (forall|k: int| 0 <= k < j ==> s@[i + k] == sep@[k]),
            decreases m - j,
        {
            if s[i + j] != sep[j] {
                matched = false;
            }
            j = j + 1;
        }
        if matched {
            assert(rest.subrange(0, m as int) =~= sep@);
            proof {
                lemma_split_nonempty(rest.subrange(m as int, rest.len() as int), sep@);
            }
            let ghost old_out = parts_view(out@);
            let done = cur;
            out.push(done);
            cur = Vec::new();
            i = i + m;
            proof {
                let tail = split_sep(s@.subrange(i as int, n as int), sep@);
                assert(rest.subrange(m as int, rest.len() as int) =~= s@.subrange(i as int, n as int));
                assert(parts_view(out@) =~= old_out.push(done@));
                assert(prepend_first(seq![], tail) =~= tail) by {
                    assert(seq![] + tail[0] =~= tail[0]);
                }
            }
        } else {
            assert(rest.subrange(0, m as int) != sep@) by {
                let k = choose|k: int| 0 <= k < m && !(s@[i + k] == sep@[k]);
                assert(rest.subrange(0, m as int)[k] != sep@[k]);
            }
            let ghost c0 = cur@;
            assert(rest[0] == s@[i as int]);
            cur.push(s[i]);
            i = i + 1;
            proof {
                let tail = split_sep(s@.subrange(i as int, n as int), sep@);
                assert(rest.drop_first() =~= s@.subrange(i as int, n as int));
                lemma_split_nonempty(rest.drop_first(), sep@);
                let x = s@[i - 1];
                assert(cur@ =~= c0 + seq![x]);
                assert(c0 + (seq![x] + tail[0]) =~= (c0 + seq![x]) + tail[0]);
                assert(prepend_first(c0, prepend_first(seq![x], tail)) =~= prepend_first(
                    cur@,
                    tail,
                ));
            }
        }
    }
    let ghost before = parts_view(out@);
    let ghost c1 = cur@;
    let ghost i0 = i;
    proof {
        let tail = s@.subrange(i0 as int, n as int);
        assert(split_sep(tail, sep@) == seq![tail]);
    }
    while i < n
        invariant
            i0 <= i <= n == s@.len(),
            cur@ == c1 + s@.subrange(i0 as int, i as int),
        decreases n - i,
    {
        cur.push(s[i]);
        i = i + 1;
        assert(cur@ =~= c1 + s@.subrange(i0 as int, i as int));
    }
    let last = cur;
    out.push(last);
    assert(parts_view(out@) =~= before.push(last@));
    assert(prepend_first(c1, seq![s@.subrange(i0 as int, n as int)]) =~= seq![last@]);
    out
}

/// Appends the characters of `p`.
fn append_chars(out: &mut Vec<char>, p: &Vec<char>)
    ensures
        final(out)@ == old(out)@ + p@,
{
    let mut i: usize = 0;
    while i < p.len()
        invariant
            i <= p@.len(),
            out@ == old(out)@ + p@.subrange(0, i as int),
        decreases p@.len() - i,
    {
        out.push(p[i]);
        i = i + 1;
        assert(p@.subrange(0, i as int) =~= p@.subrange(0, i - 1) + seq![p@[i - 1]]);
    }
    assert(p@.subrange(0, p@.len() as int) =~= p@);
}

/// Pushes `p` onto the path `base`.
pub fn push_path(base: &mut Vec<char>, p: &Vec<char>)
    ensures
        final(base)@ == path_push(old(base)@, p@),
{
    if p.len() > 0 && p[0] == '/' {
        *base = Vec::new();
        append_chars(base, p);
        assert(base@ =~= p@);
    } else {
        if base.len() > 0 && base[base.len() - 1] != '/' {
            base.push('/');
        }
        append_chars(base, p);
    }
}

/// The parts pushed in order onto an empty path.
pub fn join_parts(parts: &Vec<Vec<char>>) -> (r: Vec<char>)
    ensures
        r@ == join_path(parts_view(parts@)),
{
    let ghost v = parts_view(parts@);
    let mut out: Vec<char> = Vec::new();
    let mut i: usize = 0;
    assert(v.subrange(0, 0) =~= Seq::<Seq<char>>::empty());
    while i < parts.len()
        invariant
            i <= parts@.len(),
            v == parts_view(parts@),
            out@ == join_path(v.subrange(0, i as int)),
        decreases parts@.len() - i,
    {
        push_path(&mut out, &parts[i]);
        i = i + 1;
        assert(v.subrange(0, i as int).drop_last() =~= v.subrange(0, i - 1));
    }
    assert(v.subrange(0, parts@.len() as int) =~= v);
    out
}

/// The path that a session file's name stands for ("__tmp__a" gives "/tmp/a").
pub fn widthdraw_path_from_session_name(path: &str) -> (r: String)
    ensures
        r@ == session_path(path@),
{
    let name = chars_of(path);
    let sep = vec!['_', '_'];
    let parts = split_chars(&name, &sep);
    let joined = join_parts(&parts);
    let mut res = vec!['/'];
    assert(res@ =~= seq!['/']);
    push_path(&mut res, &joined);
    assert(sep@ =~= seq!['_', '_']);
    string_of(&res)
}

fn is_named_part(x: &Vec<char>) -> (r: bool)
    ensures
        r == is_named(x@),
{
    if x.len() == 0 {
        false
    } else if x.len() == 1 && x[0] == '.' {
        assert(x@ =~= seq!['.']);
        false
    } else {
        if x.len() == 1 {
            assert(x@ != seq!['.']) by {
                assert(x@[0] != seq!['.'][0]);
            }
        }
        true
    }
}

/// The last component of `p`, as `file_name` describes it.
pub fn last_component(p: &str) -> (r: Option<String>)
    ensures
        match file_name(p@) {
            Some(x) => r matches Some(s) && s@ == x,
            None => r is None,
        },
{
    let chars = chars_of(p);
    let sep = vec!['/'];
    assert(sep@ =~= seq!['/']);
    let parts = split_chars(&chars, &sep);
    assert(parts_view(parts@) == split_sep(chars@, sep@));
    assert(chars@ == p@);
    let ghost v = parts_view(parts@);
    assert(v == split_sep(p@, seq!['/']));
    let mut i = parts.len();
    assert(v.subrange(0, i as int) =~= v);
    while i > 0
        invariant
            i <= parts@.len(),
            v == parts_view(parts@),
            v == split_sep(p@, seq!['/']),
            last_named(v) == last_named(v.subrange(0, i as int)),
            forall|k: int| i <= k < parts@.len() ==> !is_named(#[trigger] v[k]),
        decreases i,
    {
        if is_named_part(&parts[i - 1]) {
            let x = &parts[i - 1];
            assert(v.subrange(0, i as int).last() == x@);
            assert(last_named(v.subrange(0, i as int)) == Some(x@));
            if x.len() == 2 && x[0] == '.' && x[1] == '.' {
                assert(x@ =~= seq!['.', '.']);
                return None;
            }
            assert(x@ != seq!['.', '.']) by {
                if x@.len() == 2 {
                    assert(x@[0] != '.' || x@[1] != '.');
                    if x@[0] != '.' {
                        assert(x@[0] != seq!['.', '.'][0]);
                    } else {
                        assert(x@[1] != seq!['.', '.'][1]);
                    }
                }
            }
            return Some(string_of(x));
        }
        assert(v.subrange(0, i as int).drop_last() =~= v.subrange(0, i - 1));
        i = i - 1;
    }
    None
}

} // verus!
