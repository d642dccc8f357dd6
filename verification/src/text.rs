use vstd::prelude::*;

verus! {

/// Whether `c` has the Unicode `White_Space` property, the set of characters
/// that `char::is_whitespace` and `str::trim` treat as whitespace.
pub open spec fn is_white_space(c: char) -> bool {
    let u = c as u32;
    (0x9 <= u && u <= 0xd) || u == 0x20 || u == 0x85 || u == 0xa0 || u == 0x1680 || (0x2000
        <= u && u <= 0x200a) || u == 0x2028 || u == 0x2029 || u == 0x202f || u == 0x205f || u
        == 0x3000
}

/// `s` without its leading whitespace.
pub open spec fn trim_start(s: Seq<char>) -> Seq<char>
    decreases s.len(),
{
    if s.len() > 0 && is_white_space(s[0]) {
        trim_start(s.drop_first())
    } else {
        s
    }
}

/// `s` without its trailing whitespace.
pub open spec fn trim_end(s: Seq<char>) -> Seq<char>
    decreases s.len(),
{
    if s.len() > 0 && is_white_space(s.last()) {
        trim_end(s.drop_last())
    } else {
        s
    }
}

/// `s` without leading and trailing whitespace, as `str::trim` gives it.
pub open spec fn trim(s: Seq<char>) -> Seq<char> {
    trim_end(trim_start(s))
}

/// The pieces of `s` between line feeds: one more piece than `s` has line feeds.
pub open spec fn split_lines(s: Seq<char>) -> Seq<Seq<char>>
    decreases s.len(),
{
    if s.len() == 0 {
        seq![Seq::<char>::empty()]
    } else {
        let init = split_lines(s.drop_last());
        if s.last() == '\n' {
            init.push(Seq::<char>::empty())
        } else {
            init.update(init.len() - 1, init.last().push(s.last()))
        }
    }
}

/// The concatenation of the trimmed pieces, in order. A piece that is blank
/// trims to nothing and so adds nothing.
pub open spec fn join_trimmed(pieces: Seq<Seq<char>>) -> Seq<char>
    decreases pieces.len(),
{
    if pieces.len() == 0 {
        Seq::<char>::empty()
    } else {
        join_trimmed(pieces.drop_last()) + trim(pieces.last())
    }
}

/// What cleaning a model reply gives: the text is trimmed, cut into lines,
/// each line is trimmed, blank lines are dropped and the rest are joined
/// with nothing between them.
pub open spec fn cleaned(s: Seq<char>) -> Seq<char> {
    join_trimmed(split_lines(trim(s)))
}

/// The concatenation of `parts`, in order.
pub open spec fn concat_all(parts: Seq<Seq<char>>) -> Seq<char>
    decreases parts.len(),
{
    if parts.len() == 0 {
        Seq::<char>::empty()
    } else {
        concat_all(parts.drop_last()) + parts.last()
    }
}


/// `s` holds no line feed.
pub open spec fn no_line_feed(s: Seq<char>) -> bool {
    forall|i: int| 0 <= i < s.len() ==> s[i] != '\n'
}

/// `s` is empty, or neither starts nor ends with whitespace.
pub open spec fn has_trimmed_ends(s: Seq<char>) -> bool {
    s.len() == 0 || (!is_white_space(s[0]) && !is_white_space(s.last()))
}

proof fn lemma_trim_start_suffix(s: Seq<char>)
    ensures
        trim_start(s).len() <= s.len(),
        trim_start(s) == s.subrange(s.len() - trim_start(s).len(), s.len() as int),
        trim_start(s).len() > 0 ==> !is_white_space(trim_start(s)[0]),
    decreases s.len(),
{
    if s.len() > 0 && is_white_space(s[0]) {
        lemma_trim_start_suffix(s.drop_first());
        assert(s.drop_first().subrange(
            s.drop_first().len() - trim_start(s).len(),
            s.drop_first().len() as int,
        ) =~= s.subrange(s.len() - trim_start(s).len(), s.len() as int));
    } else {
        assert(s.subrange(0, s.len() as int) =~= s);
    }
}

proof fn lemma_trim_end_prefix(s: Seq<char>)
    ensures
        trim_end(s).len() <= s.len(),
        trim_end(s) == s.subrange(0, trim_end(s).len() as int),
        trim_end(s).len() > 0 ==> !is_white_space(trim_end(s).last()),
    decreases s.len(),
{
    if s.len() > 0 && is_white_space(s.last()) {
        lemma_trim_end_prefix(s.drop_last());
        assert(s.drop_last().subrange(0, trim_end(s).len() as int) =~= s.subrange(
            0,
            trim_end(s).len() as int,
        ));
    } else {
        assert(s.subrange(0, s.len() as int) =~= s);
    }
}

/// A trimmed sequence is a stretch of the original with no whitespace at its ends.
proof fn lemma_trim_shape(s: Seq<char>)
    ensures
        has_trimmed_ends(trim(s)),
        no_line_feed(s) ==> no_line_feed(trim(s)),
{
    lemma_trim_start_suffix(s);
    let t = trim_start(s);
    lemma_trim_end_prefix(t);
    let u = trim_end(t);
    if u.len() > 0 {
        assert(u[0] == t[0]);
    }
    assert forall|i: int| no_line_feed(s) && 0 <= i < u.len() implies u[i] != '\n' by {
        assert(u[i] == t[i]);
        assert(t[i] == s[s.len() - t.len() + i]);
    }
}

/// Trimming leaves alone what has no whitespace at its ends.
proof fn lemma_trim_of_trimmed(s: Seq<char>)
    requires
        has_trimmed_ends(s),
    ensures
        trim(s) == s,
{
}

proof fn lemma_split_without_line_feed(s: Seq<char>)
    requires
        no_line_feed(s),
    ensures
        split_lines(s) == seq![s],
    decreases s.len(),
{
    if s.len() > 0 {
        assert(no_line_feed(s.drop_last()));
        lemma_split_without_line_feed(s.drop_last());
        assert(s.drop_last().push(s.last()) =~= s);
        assert(seq![s.drop_last()].update(0, s.drop_last().push(s.last())) =~= seq![s]);
    } else {
        assert(s =~= Seq::<char>::empty());
    }
}

proof fn lemma_split_pieces(s: Seq<char>)
    ensures
        split_lines(s).len() >= 1,
        forall|k: int| 0 <= k < split_lines(s).len() ==> no_line_feed(#[trigger] split_lines(s)[k]),
    decreases s.len(),
{
    if s.len() > 0 {
        lemma_split_pieces(s.drop_last());
        let init = split_lines(s.drop_last());
        if s.last() != '\n' {
            let p = init.last().push(s.last());
            assert(no_line_feed(init[init.len() - 1]));
            assert(no_line_feed(p));
        }
    }
}

proof fn lemma_join_shape(pieces: Seq<Seq<char>>)
    requires
        forall|k: int| 0 <= k < pieces.len() ==> no_line_feed(#[trigger] pieces[k]),
    ensures
        no_line_feed(join_trimmed(pieces)),
        has_trimmed_ends(join_trimmed(pieces)),
    decreases pieces.len(),
{
    if pieces.len() > 0 {
        let init = pieces.drop_last();
        assert forall|k: int| 0 <= k < init.len() implies no_line_feed(#[trigger] init[k]) by {
            assert(init[k] == pieces[k]);
        }
        lemma_join_shape(init);
        assert(no_line_feed(pieces[pieces.len() - 1]));
        lemma_trim_shape(pieces.last());
        let a = join_trimmed(init);
        let b = trim(pieces.last());
        assert forall|i: int| 0 <= i < (a + b).len() implies (a + b)[i] != '\n' by {
            if i < a.len() {
                assert((a + b)[i] == a[i]);
            } else {
                assert((a + b)[i] == b[i - a.len()]);
            }
        }
    }
}

/// What cleaning gives is a single line with no whitespace at either end.
pub proof fn lemma_cleaned_is_one_trimmed_line(s: Seq<char>)
    ensures
        no_line_feed(cleaned(s)),
        has_trimmed_ends(cleaned(s)),
        trim(cleaned(s)) == cleaned(s),
{
    lemma_split_pieces(trim(s));
    lemma_join_shape(split_lines(trim(s)));
    lemma_trim_of_trimmed(cleaned(s));
}

/// Cleaning is idempotent: cleaning a cleaned reply changes nothing.
pub proof fn lemma_clean_idempotent(s: Seq<char>)
    ensures
        cleaned(cleaned(s)) == cleaned(s),
{
    let r = cleaned(s);
    lemma_cleaned_is_one_trimmed_line(s);
    lemma_split_without_line_feed(r);
    assert(seq![r].drop_last() =~= Seq::<Seq<char>>::empty());
    assert(join_trimmed(Seq::<Seq<char>>::empty()) =~= Seq::<char>::empty());
    assert(Seq::<char>::empty() + trim(r) =~= trim(r));
}

/// A reply of nothing but whitespace cleans to the empty string.
pub proof fn lemma_blank_cleans_to_empty(s: Seq<char>)
    requires
        trim(s).len() == 0,
    ensures
        cleaned(s).len() == 0,
{
    let e = Seq::<char>::empty();
    assert(trim(s) =~= e);
    assert(split_lines(e) == seq![e]);
    assert(seq![e].drop_last() =~= Seq::<Seq<char>>::empty());
    assert(join_trimmed(Seq::<Seq<char>>::empty()) =~= e);
    assert(trim(e) =~= e);
    assert(e + e =~= e);
}

proof fn lemma_trim_empty()
    ensures
        trim(Seq::<char>::empty()) == Seq::<char>::empty(),
{
    let e = Seq::<char>::empty();
    assert(trim_start(e) == e);
    assert(trim_end(e) == e);
}

/// Joining the trimmed pieces of two lists is joining each and concatenating.
proof fn lemma_join_append(a: Seq<Seq<char>>, b: Seq<Seq<char>>)
    ensures
        join_trimmed(a + b) == join_trimmed(a) + join_trimmed(b),
    decreases b.len(),
{
    if b.len() == 0 {
        assert(a + b =~= a);
        assert(join_trimmed(a) + join_trimmed(b) =~= join_trimmed(a));
    } else {
        lemma_join_append(a, b.drop_last());
        assert((a + b).drop_last() =~= a + b.drop_last());
        assert((a + b).last() == b.last());
        assert(join_trimmed(a) + join_trimmed(b.drop_last()) + trim(b.last()) =~= join_trimmed(a)
            + (join_trimmed(b.drop_last()) + trim(b.last())));
    }
}

/// Joining a list that starts with `p` starts with the trimmed `p`.
proof fn lemma_join_front(p: Seq<char>, rest: Seq<Seq<char>>)
    ensures
        join_trimmed(seq![p] + rest) == trim(p) + join_trimmed(rest),
{
    lemma_join_append(seq![p], rest);
    assert(seq![p].drop_last() =~= Seq::<Seq<char>>::empty());
    assert(seq![p].last() == p);
    assert(join_trimmed(Seq::<Seq<char>>::empty()) =~= Seq::<char>::empty());
    assert(join_trimmed(seq![p]) == join_trimmed(seq![p].drop_last()) + trim(seq![p].last()));
    assert(Seq::<char>::empty() + trim(p) =~= trim(p));
}

/// Cutting `s`, a line feed and `t` into lines gives the lines of `s` then those of `t`.
proof fn lemma_split_at_line_feed(s: Seq<char>, t: Seq<char>)
    ensures
        split_lines(s + seq!['\n'] + t) == split_lines(s) + split_lines(t),
    decreases t.len(),
{
    let u = s + seq!['\n'] + t;
    if t.len() == 0 {
        assert(u.drop_last() =~= s);
        assert(split_lines(t) == seq![Seq::<char>::empty()]);
        assert(split_lines(s).push(Seq::<char>::empty()) =~= split_lines(s) + split_lines(t));
    } else {
        let t2 = t.drop_last();
        lemma_split_at_line_feed(s, t2);
        lemma_split_pieces(t2);
        assert(u.drop_last() =~= s + seq!['\n'] + t2);
        assert(u.last() == t.last());
        let a = split_lines(s);
        let b = split_lines(t2);
        if t.last() == '\n' {
            assert((a + b).push(Seq::<char>::empty()) =~= a + b.push(Seq::<char>::empty()));
        } else {
            assert((a + b).last() == b.last());
            assert((a + b).update((a + b).len() - 1, b.last().push(t.last())) =~= a + b.update(
                b.len() - 1,
                b.last().push(t.last()),
            ));
        }
    }
}

/// The lines of `c` followed by `t`.
proof fn lemma_split_front(c: char, t: Seq<char>)
    ensures
        c == '\n' ==> split_lines(seq![c] + t) == seq![Seq::<char>::empty()] + split_lines(t),
        c != '\n' ==> split_lines(seq![c] + t) == split_lines(t).update(
            0,
            seq![c] + split_lines(t)[0],
        ),
    decreases t.len(),
{
    let e = Seq::<char>::empty();
    lemma_split_pieces(t);
    if c == '\n' {
        assert(seq![c] + t =~= e + seq!['\n'] + t);
        lemma_split_at_line_feed(e, t);
        assert(split_lines(e) == seq![e]);
    } else if t.len() == 0 {
        let x = seq![c] + t;
        assert(x.drop_last() =~= e);
        assert(split_lines(e) == seq![e]);
        assert(split_lines(t) == seq![e]);
        assert(e.push(c) =~= seq![c] + e);
        assert(seq![e].update(0, e.push(c)) =~= seq![e].update(0, seq![c] + e));
    } else {
        let t2 = t.drop_last();
        let x = seq![c] + t;
        lemma_split_front(c, t2);
        lemma_split_pieces(t2);
        assert(x.drop_last() =~= seq![c] + t2);
        assert(x.last() == t.last());
        let b = split_lines(t2);
        let s2 = b.update(0, seq![c] + b[0]);
        if t.last() == '\n' {
            assert(s2.push(e) =~= b.push(e).update(0, seq![c] + b.push(e)[0]));
        } else {
            let d = t.last();
            if b.len() == 1 {
                assert((seq![c] + b[0]).push(d) =~= seq![c] + b[0].push(d));
                assert(s2.update(0, s2.last().push(d)) =~= b.update(0, b.last().push(d)).update(
                    0,
                    seq![c] + b.update(0, b.last().push(d))[0],
                ));
            } else {
                assert(s2.update(s2.len() - 1, s2.last().push(d)) =~= b.update(
                    b.len() - 1,
                    b.last().push(d),
                ).update(0, seq![c] + b.update(b.len() - 1, b.last().push(d))[0]));
            }
        }
    }
}

proof fn lemma_trim_front_white_space(c: char, p: Seq<char>)
    requires
        is_white_space(c),
    ensures
        trim(seq![c] + p) == trim(p),
{
    assert((seq![c] + p).drop_first() =~= p);
}

proof fn lemma_trim_start_push(p: Seq<char>, c: char)
    ensures
        trim_start(p.push(c)) == (if trim_start(p).len() == 0 && is_white_space(c) {
            Seq::<char>::empty()
        } else {
            trim_start(p).push(c)
        }),
    decreases p.len(),
{
    if p.len() == 0 {
        assert(p.push(c) =~= seq![c]);
        assert(seq![c].drop_first() =~= Seq::<char>::empty());
        assert(trim_start(Seq::<char>::empty()) == Seq::<char>::empty());
    } else if is_white_space(p[0]) {
        assert(p.push(c).drop_first() =~= p.drop_first().push(c));
        lemma_trim_start_push(p.drop_first(), c);
    } else {
    }
}

proof fn lemma_trim_push_white_space(p: Seq<char>, c: char)
    requires
        is_white_space(c),
    ensures
        trim(p.push(c)) == trim(p),
{
    lemma_trim_start_push(p, c);
    let q = trim_start(p);
    if q.len() != 0 {
        assert(q.push(c).drop_last() =~= q);
    } else {
        assert(trim_end(Seq::<char>::empty()) == Seq::<char>::empty());
    }
}

/// Whitespace in front changes nothing in what the lines join to.
proof fn lemma_join_trim_start(x: Seq<char>)
    ensures
        join_trimmed(split_lines(trim_start(x))) == join_trimmed(split_lines(x)),
    decreases x.len(),
{
    if x.len() > 0 && is_white_space(x[0]) {
        let c = x[0];
        let rest = x.drop_first();
        lemma_join_trim_start(rest);
        assert(x =~= seq![c] + rest);
        lemma_split_front(c, rest);
        lemma_split_pieces(rest);
        let b = split_lines(rest);
        lemma_trim_empty();
        if c == '\n' {
            lemma_join_front(Seq::<char>::empty(), b);
            assert(Seq::<char>::empty() + join_trimmed(b) =~= join_trimmed(b));
        } else {
            assert(b =~= seq![b[0]] + b.drop_first());
            assert(b.update(0, seq![c] + b[0]) =~= seq![seq![c] + b[0]] + b.drop_first());
            lemma_join_front(seq![c] + b[0], b.drop_first());
            lemma_join_front(b[0], b.drop_first());
            lemma_trim_front_white_space(c, b[0]);
        }
    }
}

/// Whitespace at the end changes nothing in what the lines join to.
proof fn lemma_join_trim_end(y: Seq<char>)
    ensures
        join_trimmed(split_lines(trim_end(y))) == join_trimmed(split_lines(y)),
    decreases y.len(),
{
    if y.len() > 0 && is_white_space(y.last()) {
        let c = y.last();
        let y2 = y.drop_last();
        lemma_join_trim_end(y2);
        lemma_split_pieces(y2);
        let a = split_lines(y2);
        lemma_trim_empty();
        if c == '\n' {
            assert(a.push(Seq::<char>::empty()).drop_last() =~= a);
            assert(join_trimmed(a) + Seq::<char>::empty() =~= join_trimmed(a));
        } else {
            let a2 = a.update(a.len() - 1, a.last().push(c));
            assert(a2.drop_last() =~= a.drop_last());
            lemma_trim_push_white_space(a.last(), c);
        }
    }
}

/// Trimming the whole reply first changes nothing in what its lines join to.
proof fn lemma_cleaned_without_outer_trim(s: Seq<char>)
    ensures
        cleaned(s) == join_trimmed(split_lines(s)),
{
    lemma_join_trim_end(trim_start(s));
    lemma_join_trim_start(s);
}

/// Cleaning works line by line: cleaning two texts joined by a line feed is
/// cleaning each and concatenating the results. Every non-blank line thus
/// gives its trimmed text, in order, however many lines there are.
pub proof fn lemma_clean_splits_at_line_feed(s: Seq<char>, t: Seq<char>)
    ensures
        cleaned(s + seq!['\n'] + t) == cleaned(s) + cleaned(t),
{
    lemma_cleaned_without_outer_trim(s + seq!['\n'] + t);
    lemma_cleaned_without_outer_trim(s);
    lemma_cleaned_without_outer_trim(t);
    lemma_split_at_line_feed(s, t);
    lemma_join_append(split_lines(s), split_lines(t));
}

/// A single line cleans to the line trimmed.
pub proof fn lemma_clean_single_line(s: Seq<char>)
    requires
        no_line_feed(s),
    ensures
        cleaned(s) == trim(s),
{
    lemma_cleaned_without_outer_trim(s);
    lemma_split_without_line_feed(s);
    lemma_join_front(s, Seq::<Seq<char>>::empty());
    assert(seq![s] + Seq::<Seq<char>>::empty() =~= seq![s]);
    assert(join_trimmed(Seq::<Seq<char>>::empty()) == Seq::<char>::empty());
    assert(trim(s) + Seq::<char>::empty() =~= trim(s));
}

/// The whitespace characters are exactly the code points of the Unicode
/// `White_Space` property, which `char::is_whitespace` recognises: tab, line
/// feed, vertical tab, form feed, carriage return, space, next line,
/// no-break space, ogham space mark, the eleven spaces from en quad to hair
/// space, line separator, paragraph separator, narrow no-break space, medium
/// mathematical space and ideographic space; no other character.
pub proof fn lemma_white_space_code_points(c: char)
    ensures
        is_white_space(c) <==> ({
            let u = c as u32;
            ||| u == 0x9
            ||| u == 0xa
            ||| u == 0xb
            ||| u == 0xc
            ||| u == 0xd
            ||| u == 0x20
            ||| u == 0x85
            ||| u == 0xa0
            ||| u == 0x1680
            ||| u == 0x2000
            ||| u == 0x2001
            ||| u == 0x2002
            ||| u == 0x2003
            ||| u == 0x2004
            ||| u == 0x2005
            ||| u == 0x2006
            ||| u == 0x2007
            ||| u == 0x2008
            ||| u == 0x2009
            ||| u == 0x200a
            ||| u == 0x2028
            ||| u == 0x2029
            ||| u == 0x202f
            ||| u == 0x205f
            ||| u == 0x3000
        }),
        is_white_space(c) ==> (c as u32) <= 0x3000,
{
}

proof fn lemma_trim_start_empty(s: Seq<char>)
    ensures
        trim_start(s).len() == 0 <==> (forall|i: int| 0 <= i < s.len() ==> is_white_space(s[i])),
    decreases s.len(),
{
    if s.len() > 0 && is_white_space(s[0]) {
        lemma_trim_start_empty(s.drop_first());
        if trim_start(s).len() == 0 {
            assert forall|i: int| 0 <= i < s.len() implies is_white_space(s[i]) by {
                if i > 0 {
                    assert(s[i] == s.drop_first()[i - 1]);
                }
            }
        }
        if forall|i: int| 0 <= i < s.len() ==> is_white_space(s[i]) {
            assert forall|i: int| 0 <= i < s.drop_first().len() implies is_white_space(
                s.drop_first()[i],
            ) by {
                assert(s.drop_first()[i] == s[i + 1]);
            }
        }
    } else if s.len() > 0 {
        assert(!is_white_space(s[0]));
    }
}

/// A text trims to nothing exactly when every character of it is whitespace:
/// one character that is not whitespace makes the text not blank.
pub proof fn lemma_blank_iff_all_white_space(s: Seq<char>)
    ensures
        trim(s).len() == 0 <==> (forall|i: int| 0 <= i < s.len() ==> is_white_space(s[i])),
{
    lemma_trim_start_empty(s);
    lemma_trim_start_suffix(s);
    let q = trim_start(s);
    if q.len() > 0 {
        lemma_trim_end_prefix(q);
        if trim_end(q).len() == 0 {
            assert(trim_end(q) == trim(s));
            lemma_trim_end_keeps_first(q);
        }
    } else {
        assert(trim_end(q) == q);
    }
}

proof fn lemma_trim_end_keeps_first(q: Seq<char>)
    requires
        q.len() > 0,
        !is_white_space(q[0]),
    ensures
        trim_end(q).len() > 0,
    decreases q.len(),
{
    if is_white_space(q.last()) {
        assert(q.len() > 1);
        assert(q.drop_last()[0] == q[0]);
        lemma_trim_end_keeps_first(q.drop_last());
    }
}

/// Concatenating two lists of parts is concatenating each and joining the results.
pub proof fn lemma_concat_all_append(a: Seq<Seq<char>>, b: Seq<Seq<char>>)
    ensures
        concat_all(a + b) == concat_all(a) + concat_all(b),
    decreases b.len(),
{
    if b.len() == 0 {
        assert(a + b =~= a);
        assert(concat_all(a) + concat_all(b) =~= concat_all(a));
    } else {
        lemma_concat_all_append(a, b.drop_last());
        assert((a + b).drop_last() =~= a + b.drop_last());
        assert((a + b).last() == b.last());
        assert(concat_all(a) + concat_all(b.drop_last()) + b.last() =~= concat_all(a) + (
        concat_all(b.drop_last()) + b.last()));
    }
}

/// A single part concatenates to itself, whatever its length; so every part
/// ends up in the joined text, in order, and the joined length is the sum of
/// the parts' lengths.
pub proof fn lemma_concat_all_single(c: Seq<char>)
    ensures
        concat_all(seq![c]) == c,
        forall|parts: Seq<Seq<char>>| #[trigger]
            concat_all(parts.push(c)) == concat_all(parts) + c,
        forall|parts: Seq<Seq<char>>| #[trigger]
            concat_all(parts.push(c)).len() == concat_all(parts).len() + c.len(),
{
    assert(seq![c].drop_last() =~= Seq::<Seq<char>>::empty());
    assert(seq![c].last() == c);
    assert(concat_all(Seq::<Seq<char>>::empty()) =~= Seq::<char>::empty());
    assert(Seq::<char>::empty() + c =~= c);
    assert forall|parts: Seq<Seq<char>>| #[trigger]
        concat_all(parts.push(c)) == concat_all(parts) + c by {
        assert(parts.push(c).drop_last() =~= parts);
    }
}

/// Whether `c` is whitespace in the sense of `is_white_space`.
pub fn char_is_white_space(c: char) -> (r: bool)
    ensures
        r == is_white_space(c),
{
    let u = c as u32;
    (0x9 <= u && u <= 0xd) || u == 0x20 || u == 0x85 || u == 0xa0 || u == 0x1680 || (0x2000
        <= u && u <= 0x200a) || u == 0x2028 || u == 0x2029 || u == 0x202f || u == 0x205f || u
        == 0x3000
}

/// The characters of `s`, in order.
fn chars_of(s: &str) -> (v: Vec<char>)
    ensures
        v@ == s@,
{
    let mut v: Vec<char> = Vec::new();
    for c in it: s.chars()
        invariant
            v@ == it.seq().take(it.index() as int),
    {
        v.push(c);
    }
    v
}

/// The bounds, inside `from..to`, of what is left of `cs[from..to]` once trimmed.
fn trim_bounds(cs: &Vec<char>, from: usize, to: usize) -> (r: (usize, usize))
    requires
        from <= to <= cs.len(),
    ensures
        from <= r.0 <= r.1 <= to,
        cs@.subrange(r.0 as int, r.1 as int) == trim(cs@.subrange(from as int, to as int)),
{
    let mut a = from;
    while a < to && char_is_white_space(cs[a])
        invariant
            from <= a <= to <= cs.len(),
            trim_start(cs@.subrange(from as int, to as int)) == trim_start(
                cs@.subrange(a as int, to as int),
            ),
        decreases to - a,
    {
        assert(cs@.subrange(a as int, to as int).drop_first() =~= cs@.subrange(
            a + 1,
            to as int,
        ));
        a = a + 1;
    }
    assert(trim_start(cs@.subrange(a as int, to as int)) == cs@.subrange(a as int, to as int));
    let mut b = to;
    while b > a && char_is_white_space(cs[b - 1])
        invariant
            from <= a <= b <= to <= cs.len(),
            trim_end(cs@.subrange(a as int, to as int)) == trim_end(
                cs@.subrange(a as int, b as int),
            ),
        decreases b - a,
    {
        assert(cs@.subrange(a as int, b as int).drop_last() =~= cs@.subrange(
            a as int,
            b - 1,
        ));
        b = b - 1;
    }
    assert(trim_end(cs@.subrange(a as int, b as int)) == cs@.subrange(a as int, b as int));
    (a, b)
}

/// Whether `s` holds nothing but whitespace, as `s.trim().is_empty()` tells.
pub fn is_blank(s: &str) -> (r: bool)
    ensures
        r == (trim(s@).len() == 0),
        r == (forall|i: int| 0 <= i < s@.len() ==> is_white_space(s@[i])),
{
    proof {
        lemma_blank_iff_all_white_space(s@);
    }
    let cs = chars_of(s);
    let (a, b) = trim_bounds(&cs, 0, cs.len());
    assert(cs@.subrange(0, cs@.len() as int) =~= s@);
    a == b
}

/// Cleans a model reply so that it can be read as JSON: trims it, trims each
/// line, drops blank lines and joins what is left into one line.
pub fn clean_json_string(input: &str) -> (r: String)
    ensures
        r@ == cleaned(input@),
{
    let cs = chars_of(input);
    let (lo, hi) = trim_bounds(&cs, 0, cs.len());
    assert(cs@.subrange(0, cs@.len() as int) =~= input@);
    let mut out = String::new();
    let mut j = lo;
    let mut i = lo;
    let ghost mut done: Seq<Seq<char>> = Seq::empty();
    assert(cs@.subrange(lo as int, lo as int) =~= Seq::<char>::empty());
    assert(split_lines(cs@.subrange(lo as int, lo as int)) =~= done.push(
        cs@.subrange(j as int, i as int),
    ));
    while i < hi
        invariant
            lo <= j <= i <= hi <= cs.len(),
            cs@ == input@,
            split_lines(cs@.subrange(lo as int, i as int)) == done.push(
                cs@.subrange(j as int, i as int),
            ),
            out@ == join_trimmed(done),
        decreases hi - i,
    {
        let ghost prefix = cs@.subrange(lo as int, i + 1);
        assert(prefix.drop_last() =~= cs@.subrange(lo as int, i as int));
        assert(prefix.last() == cs@[i as int]);
        if cs[i] == '\n' {
            let ghost piece = cs@.subrange(j as int, i as int);
            let (a, b) = trim_bounds(&cs, j, i);
            if a < b {
                let part = input.substring_char(a, b);
                out.append(part);
            } else {
                assert(out@ + trim(piece) =~= out@);
            }
            proof {
                assert(done.push(piece).drop_last() =~= done);
                done = done.push(piece);
                assert(cs@.subrange(i + 1, i + 1) =~= Seq::<char>::empty());
            }
            j = i + 1;
        } else {
            assert(cs@.subrange(j as int, i as int).push(cs@[i as int]) =~= cs@.subrange(
                j as int,
                i + 1,
            ));
            assert(done.push(cs@.subrange(j as int, i as int)).update(
                done.len() as int,
                cs@.subrange(j as int, i + 1),
            ) =~= done.push(cs@.subrange(j as int, i + 1)));
        }
        i = i + 1;
    }
    let ghost piece = cs@.subrange(j as int, hi as int);
    let (a, b) = trim_bounds(&cs, j, hi);
    if a < b {
        let part = input.substring_char(a, b);
        out.append(part);
    } else {
        assert(out@ + trim(piece) =~= out@);
    }
    assert(done.push(piece).drop_last() =~= done);
    out
}

/// The concatenation of `chunks`, in order, as `chunks.join("")` gives it.
pub fn concat_chunks(chunks: &Vec<String>) -> (r: String)
    ensures
        r@ == concat_all(chunks@.map_values(|c: String| c@)),
{
    let mut out = String::new();
    let ghost views = chunks@.map_values(|c: String| c@);
    let mut i: usize = 0;
    while i < chunks.len()
        invariant
            i <= chunks.len(),
            views == chunks@.map_values(|c: String| c@),
            out@ == concat_all(views.take(i as int)),
        decreases chunks.len() - i,
    {
        assert(views.take(i + 1).drop_last() =~= views.take(i as int));
        out.append(chunks[i].as_str());
        i = i + 1;
    }
    assert(views.take(chunks.len() as int) =~= views);
    out
}

} // verus!
