//! Character-level text operations used by the widgets and the format-string
//! parser: substring search, pattern replacement, splitting and joining.
//!
//! All exec functions work on `Vec<char>` and are specified over `Seq<char>`.
use vstd::prelude::*;

verus! {

/// `p` is a prefix of `s`.
pub open spec fn starts_with(s: Seq<char>, p: Seq<char>) -> bool {
    p.len() <= s.len() && s.take(p.len() as int) == p
}

/// `p` occurs in `s` starting at position `i`.
pub open spec fn occurs_at(s: Seq<char>, p: Seq<char>, i: int) -> bool {
    0 <= i && i + p.len() <= s.len() && s.subrange(i, i + p.len()) == p
}

/// `p` occurs somewhere in `s`.
pub open spec fn contains(s: Seq<char>, p: Seq<char>) -> bool {
    exists|i: int| occurs_at(s, p, i)
}

/// Every non-overlapping occurrence of the non-empty pattern `p` in `s`,
/// scanning from the left, replaced by `r`.
pub open spec fn replace_all(s: Seq<char>, p: Seq<char>, r: Seq<char>) -> Seq<char>
    decreases s.len(),
{
    if s.len() == 0 {
        Seq::empty()
    } else if p.len() > 0 && starts_with(s, p) {
        r + replace_all(s.skip(p.len() as int), p, r)
    } else {
        seq![s[0]] + replace_all(s.drop_first(), p, r)
    }
}

/// The pieces of `s` between the non-overlapping occurrences of the
/// non-empty separator `p`, scanning from the left. There is always at
/// least one piece.
pub open spec fn split(s: Seq<char>, p: Seq<char>) -> Seq<Seq<char>>
    decreases s.len(),
{
    if s.len() == 0 {
        seq![Seq::<char>::empty()]
    } else if p.len() > 0 && starts_with(s, p) {
        seq![Seq::<char>::empty()] + split(s.skip(p.len() as int), p)
    } else {
        prepend_to_first(seq![s[0]], split(s.drop_first(), p))
    }
}

/// `parts` with `x` put in front of its first piece.
pub open spec fn prepend_to_first(x: Seq<char>, parts: Seq<Seq<char>>) -> Seq<Seq<char>> {
    parts.update(0, x + parts[0])
}

/// The pieces of `parts` glued together with `sep` between neighbours.
pub open spec fn join(parts: Seq<Seq<char>>, sep: Seq<char>) -> Seq<char>
    decreases parts.len(),
{
    if parts.len() == 0 {
        Seq::empty()
    } else if parts.len() == 1 {
        parts[0]
    } else {
        parts[0] + sep + join(parts.drop_first(), sep)
    }
}

/// Splitting never yields an empty list of pieces.
pub proof fn lemma_split_nonempty(s: Seq<char>, p: Seq<char>)
    ensures
        split(s, p).len() >= 1,
    decreases s.len(),
{
    if s.len() == 0 {
    } else if p.len() > 0 && starts_with(s, p) {
        lemma_split_nonempty(s.skip(p.len() as int), p);
    } else {
        lemma_split_nonempty(s.drop_first(), p);
    }
}

proof fn lemma_join_prepend(x: Seq<char>, parts: Seq<Seq<char>>, sep: Seq<char>)
    requires
        parts.len() >= 1,
    ensures
        join(prepend_to_first(x, parts), sep) == x + join(parts, sep),
{
    let q = prepend_to_first(x, parts);
    if parts.len() == 1 {
        assert(join(q, sep) == q[0]);
    } else {
        assert(q.drop_first() =~= parts.drop_first());
        assert(join(q, sep) == q[0] + sep + join(q.drop_first(), sep));
        assert(x + parts[0] + sep + join(parts.drop_first(), sep) =~= x + (parts[0] + sep + join(
            parts.drop_first(),
            sep,
        )));
    }
}

/// Joining the pieces of a split with the same separator gives back the
/// original text.
pub proof fn lemma_join_split(s: Seq<char>, p: Seq<char>)
    requires
        p.len() > 0,
    ensures
        join(split(s, p), p) == s,
    decreases s.len(),
{
    if s.len() == 0 {
        assert(join(split(s, p), p) =~= s);
    } else if starts_with(s, p) {
        let rest = s.skip(p.len() as int);
        lemma_join_split(rest, p);
        lemma_split_nonempty(rest, p);
        let parts = split(s, p);
        assert(parts.drop_first() =~= split(rest, p));
        assert(join(parts, p) == parts[0] + p + join(parts.drop_first(), p));
        assert(s =~= s.take(p.len() as int) + rest);
        assert(Seq::<char>::empty() + p + rest =~= s);
    } else {
        let rest = s.drop_first();
        lemma_join_split(rest, p);
        lemma_split_nonempty(rest, p);
        lemma_join_prepend(seq![s[0]], split(rest, p), p);
        assert(seq![s[0]] + rest =~= s);
    }
}

/// When the text holds two or more pieces, the first piece is followed by
/// a separator, and everything after that separator is the join of the
/// remaining pieces.
pub proof fn lemma_split_head(s: Seq<char>, p: Seq<char>)
    requires
        p.len() > 0,
        split(s, p).len() >= 2,
    ensures
        split(s, p)[0].len() + p.len() <= s.len(),
        s.take(split(s, p)[0].len() as int) == split(s, p)[0],
        s.subrange(split(s, p)[0].len() as int, (split(s, p)[0].len() + p.len()) as int) == p,
        s.skip((split(s, p)[0].len() + p.len()) as int) == join(split(s, p).drop_first(), p),
{
    let parts = split(s, p);
    lemma_join_split(s, p);
    assert(join(parts, p) == parts[0] + p + join(parts.drop_first(), p));
    let a = parts[0];
    let b = join(parts.drop_first(), p);
    assert(s == a + p + b);
    assert(s.take(a.len() as int) =~= a);
    assert(s.subrange(a.len() as int, (a.len() + p.len()) as int) =~= p);
    assert(s.skip((a.len() + p.len()) as int) =~= b);
}

/// Replacing a pattern that does not occur leaves the text unchanged.
pub proof fn lemma_replace_absent(s: Seq<char>, p: Seq<char>, r: Seq<char>)
    requires
        !contains(s, p),
    ensures
        replace_all(s, p, r) == s,
    decreases s.len(),
{
    if s.len() == 0 {
    } else {
        if p.len() > 0 && starts_with(s, p) {
            assert(occurs_at(s, p, 0));
        }
        let rest = s.drop_first();
        assert(!contains(rest, p)) by {
            if contains(rest, p) {
                let i = choose|i: int| occurs_at(rest, p, i);
                assert(s.subrange(i + 1, i + 1 + p.len()) =~= rest.subrange(i, i + p.len()));
                assert(occurs_at(s, p, i + 1));
            }
        }
        lemma_replace_absent(rest, p, r);
        assert(seq![s[0]] + rest =~= s);
    }
}


/// Splitting a text in which the separator does not occur gives the text
/// itself as the only piece.
pub proof fn lemma_split_absent(s: Seq<char>, p: Seq<char>)
    requires
        p.len() > 0,
        !contains(s, p),
    ensures
        split(s, p) == seq![s],
    decreases s.len(),
{
    if s.len() == 0 {
        assert(s =~= Seq::<char>::empty());
    } else {
        if starts_with(s, p) {
            lemma_starts_with_contains(s, p);
        }
        let rest = s.drop_first();
        assert(!contains(rest, p)) by {
            if contains(rest, p) {
                let i = choose|i: int| occurs_at(rest, p, i);
                assert(s.subrange(i + 1, i + 1 + p.len()) =~= rest.subrange(i, i + p.len()));
                assert(occurs_at(s, p, i + 1));
            }
        }
        lemma_split_absent(rest, p);
        assert(seq![s[0]] + rest =~= s);
        assert(prepend_to_first(seq![s[0]], seq![rest]) =~= seq![s]);
    }
}

/// A text that starts with a pattern contains it.
pub proof fn lemma_starts_with_contains(s: Seq<char>, p: Seq<char>)
    requires
        starts_with(s, p),
    ensures
        contains(s, p),
{
    assert(s.subrange(0, p.len() as int) =~= s.take(p.len() as int));
    assert(occurs_at(s, p, 0));
}


/// Joining one more piece adds the separator and that piece at the end.
pub proof fn lemma_join_push(parts: Seq<Seq<char>>, x: Seq<char>, sep: Seq<char>)
    requires
        parts.len() >= 1,
    ensures
        join(parts.push(x), sep) == join(parts, sep) + sep + x,
    decreases parts.len(),
{
    let q = parts.push(x);
    if parts.len() == 1 {
        assert(q.drop_first() =~= seq![x]);
        assert(join(q, sep) == q[0] + sep + join(q.drop_first(), sep));
    } else {
        assert(q.drop_first() =~= parts.drop_first().push(x));
        lemma_join_push(parts.drop_first(), x, sep);
        assert(join(q, sep) == q[0] + sep + join(q.drop_first(), sep));
        assert(join(parts, sep) == parts[0] + sep + join(parts.drop_first(), sep));
        assert(parts[0] + sep + (join(parts.drop_first(), sep) + sep + x) =~= parts[0] + sep
            + join(parts.drop_first(), sep) + sep + x);
    }
}

/// The characters of a string slice, in order.
pub fn chars_of(s: &str) -> (v: Vec<char>)
    ensures
        v@ == s@,
{
    let n = s.unicode_len();
    let mut v: Vec<char> = Vec::new();
    let mut i: usize = 0;
    while i < n
        invariant
            n == s@.len(),
            i <= n,
            v@ == s@.take(i as int),
        decreases n - i,
    {
        let c = s.get_char(i);
        v.push(c);
        i = i + 1;
        assert(v@ =~= s@.take(i as int));
    }
    assert(s@.take(n as int) =~= s@);
    v
}

#[verifier::external_body]
fn push_char(s: &mut String, c: char)
    ensures
        final(s)@ == old(s)@.push(c),
{
    s.push(c);
}

/// A `String` holding exactly the given characters.
pub fn string_of(v: &Vec<char>) -> (s: String)
    ensures
        s@ == v@,
{
    let mut s = String::new();
    let mut i: usize = 0;
    while i < v.len()
        invariant
            i <= v.len(),
            s@ == v@.take(i as int),
        decreases v.len() - i,
    {
        push_char(&mut s, v[i]);
        i = i + 1;
        assert(s@ =~= v@.take(i as int));
    }
    assert(v@.take(v@.len() as int) =~= v@);
    s
}

/// Appends `t` to the end of `out`.
pub fn append_chars(out: &mut Vec<char>, t: &Vec<char>)
    ensures
        final(out)@ == old(out)@ + t@,
{
    let mut i: usize = 0;
    while i < t.len()
        invariant
            i <= t.len(),
            out@ == old(out)@ + t@.take(i as int),
        decreases t.len() - i,
    {
        out.push(t[i]);
        i = i + 1;
        assert(out@ =~= old(out)@ + t@.take(i as int));
    }
    assert(t@.take(t@.len() as int) =~= t@);
}

/// The characters `s[from..to]`.
pub fn slice_chars(s: &Vec<char>, from: usize, to: usize) -> (r: Vec<char>)
    requires
        from <= to <= s.len(),
    ensures
        r@ == s@.subrange(from as int, to as int),
{
    let mut r: Vec<char> = Vec::new();
    let mut i: usize = from;
    while i < to
        invariant
            from <= i <= to <= s.len(),
            r@ == s@.subrange(from as int, i as int),
        decreases to - i,
    {
        r.push(s[i]);
        i = i + 1;
        assert(r@ =~= s@.subrange(from as int, i as int));
    }
    r
}

/// Whether the two character sequences are equal.
pub fn chars_eq(a: &Vec<char>, b: &Vec<char>) -> (r: bool)
    ensures
        r == (a@ == b@),
{
    if a.len() != b.len() {
        return false;
    }
    let mut i: usize = 0;
    while i < a.len()
        invariant
            a.len() == b.len(),
            i <= a.len(),
            forall|j: int| 0 <= j < i ==> a@[j] == b@[j],
        decreases a.len() - i,
    {
        if a[i] != b[i] {
            return false;
        }
        i = i + 1;
    }
    assert(a@ =~= b@);
    true
}

/// Whether `p` occurs in `s` at position `i`.
pub fn occurs_at_exec(s: &Vec<char>, p: &Vec<char>, i: usize) -> (r: bool)
    ensures
        r == occurs_at(s@, p@, i as int),
{
    if i > s.len() || p.len() > s.len() - i {
        return false;
    }
    let mut j: usize = 0;
    while j < p.len()
        invariant
            i + p.len() <= s.len(),
            j <= p.len(),
            forall|k: int| 0 <= k < j ==> s@[i + k] == p@[k],
        decreases p.len() - j,
    {
        if s[i + j] != p[j] {
            assert(s@.subrange(i as int, i + p.len())[j as int] != p@[j as int]);
            return false;
        }
        j = j + 1;
    }
    assert(s@.subrange(i as int, i + p.len()) =~= p@);
    true
}

/// Whether `s` begins with `p`.
pub fn starts_with_exec(s: &Vec<char>, p: &Vec<char>) -> (r: bool)
    ensures
        r == starts_with(s@, p@),
{
    let r = occurs_at_exec(s, p, 0);
    assert(s@.take(p@.len() as int) =~= s@.subrange(0, p@.len() as int));
    r
}

/// Whether `p` occurs anywhere in `s`.
pub fn contains_exec(s: &Vec<char>, p: &Vec<char>) -> (r: bool)
    ensures
        r == contains(s@, p@),
{
    if p.len() > s.len() {
        return false;
    }
    let last = s.len() - p.len();
    let mut i: usize = 0;
    loop
        invariant
            last + p.len() == s.len(),
            i <= last,
            forall|k: int| 0 <= k < i ==> !occurs_at(s@, p@, k),
        decreases last - i,
    {
        if occurs_at_exec(s, p, i) {
            return true;
        }
        if i == last {
            return false;
        }
        i = i + 1;
    }
}

/// `s` with every occurrence of the non-empty pattern `p` replaced by `r`.
pub fn replace_exec(s: &Vec<char>, p: &Vec<char>, r: &Vec<char>) -> (out: Vec<char>)
    requires
        p.len() > 0,
    ensures
        out@ == replace_all(s@, p@, r@),
{
    let mut out: Vec<char> = Vec::new();
    let mut i: usize = 0;
    assert(s@.skip(0) =~= s@);
    while i < s.len()
        invariant
            p.len() > 0,
            i <= s.len(),
            out@ + replace_all(s@.skip(i as int), p@, r@) == replace_all(s@, p@, r@),
        decreases s.len() - i,
    {
        let ghost rest = s@.skip(i as int);
        let ghost before = out@;
        if occurs_at_exec(s, p, i) {
            assert(rest.take(p@.len() as int) =~= s@.subrange(i as int, i + p@.len()));
            assert(rest.skip(p@.len() as int) =~= s@.skip(i + p@.len()));
            append_chars(&mut out, r);
            i = i + p.len();
            assert(replace_all(rest, p@, r@) == r@ + replace_all(s@.skip(i as int), p@, r@));
            assert(out@ + replace_all(s@.skip(i as int), p@, r@) =~= before + replace_all(
                rest,
                p@,
                r@,
            ));
        } else {
            assert(!starts_with(rest, p@)) by {
                if starts_with(rest, p@) {
                    assert(rest.take(p@.len() as int) =~= s@.subrange(i as int, i + p@.len()));
                }
            }
            assert(rest.drop_first() =~= s@.skip(i + 1));
            assert(rest[0] == s@[i as int]);
            out.push(s[i]);
            i = i + 1;
            assert(replace_all(rest, p@, r@) == seq![rest[0]] + replace_all(
                s@.skip(i as int),
                p@,
                r@,
            ));
            assert(out@ + replace_all(s@.skip(i as int), p@, r@) =~= before + replace_all(
                rest,
                p@,
                r@,
            ));
        }
    }
    assert(s@.skip(s@.len() as int) =~= Seq::<char>::empty());
    assert(out@ + Seq::<char>::empty() =~= out@);
    out
}

/// The character sequences held by a list of character vectors.
pub open spec fn views(v: Seq<Vec<char>>) -> Seq<Seq<char>> {
    v.map_values(|x: Vec<char>| x@)
}

/// The pieces of `s` between the occurrences of the non-empty separator `p`.
pub fn split_exec(s: &Vec<char>, p: &Vec<char>) -> (parts: Vec<Vec<char>>)
    requires
        p.len() > 0,
    ensures
        views(parts@) == split(s@, p@),
{
    let mut done: Vec<Vec<char>> = Vec::new();
    let mut cur: Vec<char> = Vec::new();
    let mut i: usize = 0;
    assert(s@.skip(0) =~= s@);
    proof {
        lemma_split_nonempty(s@, p@);
        assert(prepend_to_first(Seq::<char>::empty(), split(s@, p@)) =~= split(s@, p@));
    }
    while i < s.len()
        invariant
            p.len() > 0,
            i <= s.len(),
            split(s@, p@) == views(done@) + prepend_to_first(
                cur@,
                split(s@.skip(i as int), p@),
            ),
        decreases s.len() - i,
    {
        let ghost rest = s@.skip(i as int);
        let ghost done_before = views(done@);
        let ghost cur_before = cur@;
        if occurs_at_exec(s, p, i) {
            assert(rest.take(p@.len() as int) =~= s@.subrange(i as int, i + p@.len()));
            assert(rest.skip(p@.len() as int) =~= s@.skip(i + p@.len()));
            i = i + p.len();
            let ghost tail = split(s@.skip(i as int), p@);
            proof {
                lemma_split_nonempty(s@.skip(i as int), p@);
            }
            assert(split(rest, p@) == seq![Seq::<char>::empty()] + tail);
            let piece = cur;
            cur = Vec::new();
            done.push(piece);
            assert(views(done@) =~= done_before.push(cur_before));
            assert(prepend_to_first(Seq::<char>::empty(), tail) =~= tail);
            assert(prepend_to_first(cur_before, seq![Seq::<char>::empty()] + tail) =~= seq![
                cur_before,
            ] + tail);
            assert(views(done@) + prepend_to_first(cur@, tail) =~= done_before
                + prepend_to_first(cur_before, split(rest, p@)));
        } else {
            assert(!starts_with(rest, p@)) by {
                if starts_with(rest, p@) {
                    assert(rest.take(p@.len() as int) =~= s@.subrange(i as int, i + p@.len()));
                }
            }
            assert(rest.drop_first() =~= s@.skip(i + 1));
            assert(rest[0] == s@[i as int]);
            cur.push(s[i]);
            i = i + 1;
            let ghost tail = split(s@.skip(i as int), p@);
            proof {
                lemma_split_nonempty(s@.skip(i as int), p@);
            }
            assert(split(rest, p@) == prepend_to_first(seq![rest[0]], tail));
            assert(cur_before + (seq![rest[0]] + tail[0]) =~= cur@ + tail[0]);
            assert(prepend_to_first(cur_before, prepend_to_first(seq![rest[0]], tail))
                =~= prepend_to_first(cur@, tail));
        }
    }
    let ghost done_before = views(done@);
    assert(s@.skip(s@.len() as int) =~= Seq::<char>::empty());
    assert(prepend_to_first(cur@, seq![Seq::<char>::empty()]) =~= seq![cur@]);
    let ghost last = cur@;
    done.push(cur);
    assert(views(done@) =~= done_before.push(last));
    done
}

} // verus!
