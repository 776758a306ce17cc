//! Character-level helpers shared by the front ends: conversion between
//! strings and character vectors, splitting a dotted path into its
//! components and joining them again.
use vstd::prelude::*;

verus! {

/// The components of `s` separated by `sep`; an empty text has one empty
/// component, and every separator starts a new component.
pub open spec fn split_by(s: Seq<char>, sep: char) -> Seq<Seq<char>>
    decreases s.len(),
{
    if s.len() == 0 {
        seq![Seq::<char>::empty()]
    } else {
        let rest = split_by(s.drop_last(), sep);
        if s.last() == sep {
            rest.push(Seq::<char>::empty())
        } else {
            rest.update(rest.len() - 1, rest.last().push(s.last()))
        }
    }
}

/// The parts joined with `sep` between each two neighbours.
pub open spec fn join_with(parts: Seq<Seq<char>>, sep: char) -> Seq<char>
    decreases parts.len(),
{
    if parts.len() == 0 {
        Seq::<char>::empty()
    } else if parts.len() == 1 {
        parts[0]
    } else {
        join_with(parts.drop_last(), sep) + seq![sep] + parts.last()
    }
}

/// The parts that are not a lone underscore, in their order.
pub open spec fn drop_underscores(parts: Seq<Seq<char>>) -> Seq<Seq<char>>
    decreases parts.len(),
{
    if parts.len() == 0 {
        parts
    } else {
        let rest = drop_underscores(parts.drop_last());
        if parts.last() == seq!['_'] {
            rest
        } else {
            rest.push(parts.last())
        }
    }
}

pub proof fn lemma_split_nonempty(s: Seq<char>, sep: char)
    ensures
        split_by(s, sep).len() >= 1,
    decreases s.len(),
{
    if s.len() > 0 {
        lemma_split_nonempty(s.drop_last(), sep);
    }
}

/// Text that holds the separator splits into at least two components.
pub proof fn lemma_split_two(s: Seq<char>, sep: char)
    requires
        s.contains(sep),
    ensures
        split_by(s, sep).len() >= 2,
    decreases s.len(),
{
    let p = s.drop_last();
    lemma_split_nonempty(p, sep);
    if s.last() != sep {
        assert(p.contains(sep)) by {
            let i = choose|i: int| 0 <= i < s.len() && s[i] == sep;
            assert(i != s.len() - 1);
            assert(p[i] == sep);
        }
        lemma_split_two(p, sep);
    }
}

/// Joining two or more parts is the first part, the separator, and the
/// rest joined.
pub proof fn lemma_join_first(parts: Seq<Seq<char>>, sep: char)
    requires
        parts.len() >= 2,
    ensures
        join_with(parts, sep) == parts[0] + seq![sep] + join_with(parts.skip(1), sep),
    decreases parts.len(),
{
    if parts.len() == 2 {
        assert(parts.drop_last() =~= seq![parts[0]]);
        assert(join_with(parts.drop_last(), sep) == parts[0]);
        assert(parts.skip(1) =~= seq![parts[1]]);
        assert(join_with(parts.skip(1), sep) == parts[1]);
        assert(join_with(parts, sep) == join_with(parts.drop_last(), sep) + seq![sep] + parts.last());
    } else {
        let d = parts.drop_last();
        let ps = parts.skip(1);
        lemma_join_first(d, sep);
        assert(d.skip(1) =~= ps.drop_last());
        assert(ps.last() == parts.last());
        assert(d[0] == parts[0]);
        assert(join_with(ps, sep) == join_with(ps.drop_last(), sep) + seq![sep] + ps.last());
        assert(join_with(parts, sep) == join_with(d, sep) + seq![sep] + parts.last());
        assert(join_with(parts, sep) =~= parts[0] + seq![sep] + join_with(ps, sep));
    }
}

/// Splitting and joining again gives back the text.
pub proof fn lemma_join_split(s: Seq<char>, sep: char)
    ensures
        join_with(split_by(s, sep), sep) == s,
    decreases s.len(),
{
    if s.len() > 0 {
        let p = s.drop_last();
        lemma_join_split(p, sep);
        lemma_split_nonempty(p, sep);
        let rest = split_by(p, sep);
        if s.last() == sep {
            let r2 = rest.push(Seq::<char>::empty());
            assert(r2.drop_last() =~= rest);
            assert(join_with(r2, sep) =~= join_with(rest, sep) + seq![sep] + Seq::<char>::empty());
            assert(s =~= p + seq![sep]);
        } else {
            let r2 = rest.update(rest.len() - 1, rest.last().push(s.last()));
            if rest.len() == 1 {
                assert(join_with(rest, sep) == rest[0]);
                assert(s =~= p.push(s.last()));
            } else {
                assert(r2.drop_last() =~= rest.drop_last());
                assert(join_with(rest, sep) == join_with(rest.drop_last(), sep) + seq![sep]
                    + rest.last());
                assert(join_with(r2, sep) =~= join_with(rest.drop_last(), sep) + seq![sep]
                    + rest.last().push(s.last()));
                assert(s =~= p.push(s.last()));
            }
        }
    }
}

/// Splitting text that holds no separator gives that text alone.
pub proof fn lemma_split_no_sep(s: Seq<char>, sep: char)
    requires
        !s.contains(sep),
    ensures
        split_by(s, sep) == seq![s],
    decreases s.len(),
{
    if s.len() > 0 {
        let p = s.drop_last();
        assert(!p.contains(sep)) by {
            if p.contains(sep) {
                let i = choose|i: int| 0 <= i < p.len() && p[i] == sep;
                assert(s[i] == sep);
            }
        }
        lemma_split_no_sep(p, sep);
        assert(s.last() != sep) by {
            assert(s[s.len() - 1] == s.last());
        }
        assert(p.push(s.last()) =~= s);
        assert(split_by(p, sep).last() == p);
        assert(seq![p].update(0, p.push(s.last())) =~= seq![s]);
        assert(split_by(s, sep) == seq![p].update(0, p.push(s.last())));
    } else {
        assert(s =~= Seq::<char>::empty());
    }
}

/// Splitting `a + sep + b` where `b` holds no separator adds `b` as the
/// last component.
pub proof fn lemma_split_append(a: Seq<char>, b: Seq<char>, sep: char)
    requires
        !b.contains(sep),
    ensures
        split_by(a + seq![sep] + b, sep) == split_by(a, sep).push(b),
    decreases b.len(),
{
    if b.len() == 0 {
        let s = a + seq![sep] + b;
        assert(s.drop_last() =~= a);
        assert(s.last() == sep);
        assert(b =~= Seq::<char>::empty());
        assert(split_by(s, sep) == split_by(s.drop_last(), sep).push(Seq::<char>::empty()));
    } else {
        let s = a + seq![sep] + b;
        let bp = b.drop_last();
        assert(!bp.contains(sep)) by {
            if bp.contains(sep) {
                let i = choose|i: int| 0 <= i < bp.len() && bp[i] == sep;
                assert(b[i] == sep);
            }
        }
        lemma_split_append(a, bp, sep);
        assert(s.drop_last() =~= a + seq![sep] + bp);
        assert(s.last() == b.last());
        assert(b.last() != sep) by {
            assert(b[b.len() - 1] == b.last());
        }
        let r = split_by(a, sep).push(bp);
        assert(split_by(s, sep) == r.update(r.len() - 1, r.last().push(s.last())));
        assert(r.update(r.len() - 1, r.last().push(b.last())) =~= split_by(a, sep).push(b)) by {
            assert(bp.push(b.last()) =~= b);
        }
    }
}

/// No component of a split holds the separator.
pub proof fn lemma_split_parts_no_sep(s: Seq<char>, sep: char)
    ensures
        forall|k: int| 0 <= k < split_by(s, sep).len() ==> !(#[trigger] split_by(s, sep)[k]).contains(sep),
    decreases s.len(),
{
    if s.len() > 0 {
        let p = s.drop_last();
        lemma_split_parts_no_sep(p, sep);
        lemma_split_nonempty(p, sep);
        let rest = split_by(p, sep);
        if s.last() != sep {
            let lastp = rest.last().push(s.last());
            assert(!lastp.contains(sep)) by {
                if lastp.contains(sep) {
                    let i = choose|i: int| 0 <= i < lastp.len() && lastp[i] == sep;
                    if i < rest.last().len() {
                        assert(rest.last()[i] == sep);
                        assert(rest[rest.len() - 1].contains(sep));
                    }
                }
            }
            assert forall|k: int| 0 <= k < split_by(s, sep).len() implies !(#[trigger] split_by(s, sep)[k]).contains(sep) by {
                if k < rest.len() - 1 {
                    assert(split_by(s, sep)[k] == rest[k]);
                }
            }
        } else {
            assert forall|k: int| 0 <= k < split_by(s, sep).len() implies !(#[trigger] split_by(s, sep)[k]).contains(sep) by {
                if k < rest.len() {
                    assert(split_by(s, sep)[k] == rest[k]);
                } else {
                    assert(split_by(s, sep)[k] == Seq::<char>::empty());
                }
            }
        }
    }
}

/// Splitting parts joined with a separator that none of them holds gives
/// the parts back.
pub proof fn lemma_split_join(parts: Seq<Seq<char>>, sep: char)
    requires
        parts.len() >= 1,
        forall|k: int| 0 <= k < parts.len() ==> !(#[trigger] parts[k]).contains(sep),
    ensures
        split_by(join_with(parts, sep), sep) == parts,
    decreases parts.len(),
{
    if parts.len() == 1 {
        lemma_split_no_sep(parts[0], sep);
        assert(seq![parts[0]] =~= parts);
    } else {
        let d = parts.drop_last();
        assert forall|k: int| 0 <= k < d.len() implies !(#[trigger] d[k]).contains(sep) by {
            assert(d[k] == parts[k]);
        }
        lemma_split_join(d, sep);
        assert(!parts.last().contains(sep)) by {
            assert(parts.last() == parts[parts.len() - 1]);
        }
        lemma_split_append(join_with(d, sep), parts.last(), sep);
        assert(d.push(parts.last()) =~= parts);
    }
}

/// What is left after dropping lone underscores holds none, and holds only
/// parts of the input.
pub proof fn lemma_drop_underscores_parts(parts: Seq<Seq<char>>)
    ensures
        forall|k: int| 0 <= k < drop_underscores(parts).len() ==> (#[trigger] drop_underscores(parts)[k]) != seq!['_']
            && parts.contains(drop_underscores(parts)[k]),
    decreases parts.len(),
{
    if parts.len() > 0 {
        let d = parts.drop_last();
        lemma_drop_underscores_parts(d);
        let rest = drop_underscores(d);
        assert forall|k: int| 0 <= k < drop_underscores(parts).len() implies (#[trigger] drop_underscores(parts)[k]) != seq!['_']
            && parts.contains(drop_underscores(parts)[k]) by {
            if k < rest.len() {
                assert(drop_underscores(parts)[k] == rest[k]);
                let j = choose|j: int| 0 <= j < d.len() && d[j] == rest[k];
                assert(parts[j] == d[j]);
            } else {
                assert(drop_underscores(parts)[k] == parts.last());
                assert(parts[parts.len() - 1] == parts.last());
            }
        }
    }
}

/// Dropping lone underscores from parts that hold none keeps them all.
pub proof fn lemma_drop_underscores_none(parts: Seq<Seq<char>>)
    requires
        forall|k: int| 0 <= k < parts.len() ==> (#[trigger] parts[k]) != seq!['_'],
    ensures
        drop_underscores(parts) == parts,
    decreases parts.len(),
{
    if parts.len() > 0 {
        let d = parts.drop_last();
        assert forall|k: int| 0 <= k < d.len() implies (#[trigger] d[k]) != seq!['_'] by {
            assert(d[k] == parts[k]);
        }
        lemma_drop_underscores_none(d);
        assert(parts.last() == parts[parts.len() - 1]);
        assert(d.push(parts.last()) =~= parts);
    }
}

/// The character sequences held by a list of character vectors.
pub open spec fn views(v: Seq<Vec<char>>) -> Seq<Seq<char>> {
    v.map_values(|p: Vec<char>| p@)
}

/// Wrapper of `String::push`: appends one character.
#[verifier::external_body]
pub(crate) fn push_char(s: &mut String, c: char)
    ensures
        final(s)@ == old(s)@.push(c),
{
    s.push(c);
}

/// The decimal digit `d` (below ten) as a character.
pub open spec fn digit_char(d: nat) -> char {
    if d == 0 {
        '0'
    } else if d == 1 {
        '1'
    } else if d == 2 {
        '2'
    } else if d == 3 {
        '3'
    } else if d == 4 {
        '4'
    } else if d == 5 {
        '5'
    } else if d == 6 {
        '6'
    } else if d == 7 {
        '7'
    } else if d == 8 {
        '8'
    } else {
        '9'
    }
}

/// The decimal digits of `n`, most significant first, without leading
/// zeros (`0` is the single digit `0`).
pub open spec fn digits(n: nat) -> Seq<char>
    decreases n,
{
    if n < 10 {
        seq![digit_char(n)]
    } else {
        digits(n / 10).push(digit_char(n % 10))
    }
}

/// `n` written in decimal, with a leading `-` when it is negative.
pub open spec fn decimal(n: int) -> Seq<char> {
    if n < 0 {
        seq!['-'] + digits((-n) as nat)
    } else {
        digits(n as nat)
    }
}

/// Appends the decimal digits of `n` to `s`.
fn push_digits(s: &mut String, n: u64)
    ensures
        final(s)@ == old(s)@ + digits(n as nat),
    decreases n,
{
    if n >= 10 {
        push_digits(s, n / 10);
    }
    let d = n % 10;
    let c = if d == 0 {
        '0'
    } else if d == 1 {
        '1'
    } else if d == 2 {
        '2'
    } else if d == 3 {
        '3'
    } else if d == 4 {
        '4'
    } else if d == 5 {
        '5'
    } else if d == 6 {
        '6'
    } else if d == 7 {
        '7'
    } else if d == 8 {
        '8'
    } else {
        '9'
    };
    push_char(s, c);
    assert(s@ =~= old(s)@ + digits(n as nat));
}

/// `n` written in decimal.
pub fn decimal_text(n: i32) -> (r: String)
    ensures
        r@ == decimal(n as int),
{
    let mut s = String::new();
    if n < 0 {
        push_char(&mut s, '-');
        let m: i64 = -(n as i64);
        push_digits(&mut s, m as u64);
    } else {
        push_digits(&mut s, n as u64);
    }
    s
}

/// The characters of `s`.
pub fn chars_of(s: &str) -> (v: Vec<char>)
    ensures
        v@ == s@,
{
    let n = s.unicode_len();
    let mut v: Vec<char> = Vec::new();
    let mut i: usize = 0;
    while i < n
        invariant
            n == s@.len(),
            i <= n,
            v@ == s@.take(i as int),
        decreases n - i,
    {
        let c = s.get_char(i);
        v.push(c);
        i = i + 1;
        assert(v@ =~= s@.take(i as int));
    }
    assert(v@ =~= s@);
    v
}

/// The string made of the characters `v[from..to]`.
pub fn string_of_range(v: &Vec<char>, from: usize, to: usize) -> (s: String)
    requires
        from <= to <= v@.len(),
    ensures
        s@ == v@.subrange(from as int, to as int),
{
    let mut s = String::new();
    let mut i = from;
    while i < to
        invariant
            from <= i <= to,
            to <= v@.len(),
            s@ == v@.subrange(from as int, i as int),
        decreases to - i,
    {
        push_char(&mut s, v[i]);
        i = i + 1;
        assert(s@ =~= v@.subrange(from as int, i as int));
    }
    s
}

/// The string made of the characters of `v`.
pub fn string_of(v: &Vec<char>) -> (s: String)
    ensures
        s@ == v@,
{
    let s = string_of_range(v, 0, v.len());
    assert(v@.subrange(0, v@.len() as int) =~= v@);
    s
}

/// Whether the two character sequences are equal.
pub fn chars_eq(a: &Vec<char>, b: &Vec<char>) -> (r: bool)
    ensures
        r == (a@ == b@),
{
    if a.len() != b.len() {
        return false;
    }
    let mut i: usize = 0;
    while i < a.len()
        invariant
            a@.len() == b@.len(),
            i <= a@.len(),
            forall|j: int| 0 <= j < i ==> a@[j] == b@[j],
        decreases a.len() - i,
    {
        if a[i] != b[i] {
            return false;
        }
        i = i + 1;
    }
    assert(a@ =~= b@);
    true
}

/// Whether the string equals the literal `lit`.
pub fn str_is(s: &str, lit: &str) -> (r: bool)
    ensures
        r == (s@ == lit@),
{
    let a = chars_of(s);
    let b = chars_of(lit);
    chars_eq(&a, &b)
}

/// Whether the character occurs in the string.
pub fn contains_char(s: &str, c: char) -> (r: bool)
    ensures
        r == s@.contains(c),
{
    let v = chars_of(s);
    let mut i: usize = 0;
    while i < v.len()
        invariant
            v@ == s@,
            i <= v@.len(),
            forall|j: int| 0 <= j < i ==> v@[j] != c,
        decreases v.len() - i,
    {
        if v[i] == c {
            return true;
        }
        i = i + 1;
    }
    false
}

/// The components of `v` separated by `sep`.
pub fn split_chars(v: &Vec<char>, sep: char) -> (r: Vec<Vec<char>>)
    ensures
        views(r@) == split_by(v@, sep),
{
    let mut parts: Vec<Vec<char>> = Vec::new();
    parts.push(Vec::new());
    let mut i: usize = 0;
    assert(v@.take(0) =~= Seq::<char>::empty());
    while i < v.len()
        invariant
            i <= v@.len(),
            parts@.len() == split_by(v@.take(i as int), sep).len(),
            parts@.len() >= 1,
            forall|k: int|
                0 <= k < parts@.len() ==> #[trigger] parts@[k]@ == split_by(v@.take(i as int), sep)[k],
        decreases v.len() - i,
    {
        let c = v[i];
        let ghost prev = split_by(v@.take(i as int), sep);
        let ghost t = v@.take(i as int + 1);
        assert(t.drop_last() =~= v@.take(i as int));
        assert(t.last() == c);
        if c == sep {
            parts.push(Vec::new());
            assert(split_by(t, sep) == prev.push(Seq::<char>::empty()));
        } else {
            let last = parts.len() - 1;
            let mut p = parts.pop().unwrap();
            p.push(c);
            parts.push(p);
            assert(split_by(t, sep) == prev.update(prev.len() - 1, prev.last().push(c)));
            assert(parts@[last as int]@ == prev.last().push(c));
        }
        i = i + 1;
    }
    assert(v@.take(v@.len() as int) =~= v@);
    assert(views(parts@) =~= split_by(v@, sep));
    parts
}

fn is_underscore(p: &Vec<char>) -> (r: bool)
    ensures
        r == (p@ == seq!['_']),
{
    if p.len() == 1 && p[0] == '_' {
        assert(p@ =~= seq!['_']);
        true
    } else {
        false
    }
}

/// The parts that are not a lone underscore.
pub fn filter_underscores(parts: &Vec<Vec<char>>) -> (r: Vec<Vec<char>>)
    ensures
        views(r@) == drop_underscores(views(parts@)),
{
    let mut r: Vec<Vec<char>> = Vec::new();
    let mut i: usize = 0;
    while i < parts.len()
        invariant
            i <= parts@.len(),
            views(r@) == drop_underscores(views(parts@).take(i as int)),
        decreases parts.len() - i,
    {
        let ghost t = views(parts@).take(i as int + 1);
        assert(t.drop_last() =~= views(parts@).take(i as int));
        assert(t.last() == parts@[i as int]@);
        if !is_underscore(&parts[i]) {
            let p = parts[i].clone();
            r.push(p);
            assert(views(r@) =~= drop_underscores(views(parts@).take(i as int)).push(parts@[i as int]@));
        }
        i = i + 1;
    }
    assert(views(parts@).take(parts@.len() as int) =~= views(parts@));
    r
}

/// `parts[0..n]` joined with `sep`.
pub fn join_chars(parts: &Vec<Vec<char>>, n: usize, sep: char) -> (r: Vec<char>)
    requires
        n <= parts@.len(),
    ensures
        r@ == join_with(views(parts@).take(n as int), sep),
{
    let mut r: Vec<char> = Vec::new();
    let mut i: usize = 0;
    while i < n
        invariant
            i <= n <= parts@.len(),
            r@ == join_with(views(parts@).take(i as int), sep),
        decreases n - i,
    {
        let ghost before = r@;
        let ghost ps = views(parts@).take(i as int + 1);
        assert(ps.drop_last() =~= views(parts@).take(i as int));
        if i > 0 {
            r.push(sep);
        }
        let p = &parts[i];
        let mut j: usize = 0;
        let ghost mid = r@;
        while j < p.len()
            invariant
                j <= p@.len(),
                r@ == mid + p@.take(j as int),
            decreases p.len() - j,
        {
            r.push(p[j]);
            j = j + 1;
            assert(r@ =~= mid + p@.take(j as int));
        }
        assert(p@.take(p@.len() as int) =~= p@);
        if i == 0 {
            assert(ps.len() == 1);
            assert(r@ =~= ps[0]);
        } else {
            assert(r@ =~= before + seq![sep] + ps.last());
        }
        i = i + 1;
    }
    r
}

/// The character sequences held by a list of strings.
pub open spec fn string_views(v: Seq<String>) -> Seq<Seq<char>> {
    v.map_values(|s: String| s@)
}

/// The strings made of `parts[from..]`.
pub fn strings_from(parts: &Vec<Vec<char>>, from: usize) -> (r: Vec<String>)
    requires
        from <= parts@.len(),
    ensures
        string_views(r@) == views(parts@).subrange(from as int, parts@.len() as int),
{
    let mut r: Vec<String> = Vec::new();
    let mut i = from;
    while i < parts.len()
        invariant
            from <= i <= parts@.len(),
            string_views(r@) == views(parts@).subrange(from as int, i as int),
        decreases parts.len() - i,
    {
        let ghost before = r@;
        let s = string_of(&parts[i]);
        r.push(s);
        assert(string_views(r@) =~= string_views(before).push(views(parts@)[i as int]));
        i = i + 1;
        assert(string_views(r@) =~= views(parts@).subrange(from as int, i as int));
    }
    r
}

/// The character sequences held by a list of pairs of strings.
pub open spec fn pair_views(v: Seq<(String, String)>) -> Seq<(Seq<char>, Seq<char>)> {
    v.map_values(|p: (String, String)| (p.0@, p.1@))
}

} // verus!
