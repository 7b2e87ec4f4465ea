//! Whitespace handling for text pulled out of a results page.
use vstd::prelude::*;

verus! {

/// Unicode `White_Space`: the characters that `char::is_whitespace` accepts.
pub open spec fn is_ws(c: char) -> bool {
    let u = c as u32;
    ||| 0x09 <= u <= 0x0D
    ||| u == 0x20
    ||| u == 0x85
    ||| u == 0xA0
    ||| u == 0x1680
    ||| 0x2000 <= u <= 0x200A
    ||| u == 0x2028
    ||| u == 0x2029
    ||| u == 0x202F
    ||| u == 0x205F
    ||| u == 0x3000
}

/// One step of whitespace collapsing: the state is the text produced so far and
/// whether a run of whitespace has been seen after it.
pub open spec fn collapse_step(st: (Seq<char>, bool), c: char) -> (Seq<char>, bool) {
    if is_ws(c) {
        (st.0, st.0.len() > 0)
    } else if st.1 {
        (st.0.push(' ').push(c), false)
    } else {
        (st.0.push(c), false)
    }
}

/// The collapsing state after reading all of `s`, left to right.
pub open spec fn collapse_state(s: Seq<char>) -> (Seq<char>, bool)
    decreases s.len(),
{
    if s.len() == 0 {
        (Seq::empty(), false)
    } else {
        collapse_step(collapse_state(s.drop_last()), s.last())
    }
}

/// `s` with leading and trailing whitespace removed and every inner run of
/// whitespace replaced by one space.
pub open spec fn normalize(s: Seq<char>) -> Seq<char> {
    collapse_state(s).0
}

/// Text in normal form: the only whitespace is a single space between two
/// other characters.
pub open spec fn is_normal(t: Seq<char>) -> bool {
    &&& forall|i: int| 0 <= i < t.len() && is_ws(#[trigger] t[i]) ==> t[i] == ' '
    &&& t.len() > 0 ==> t[0] != ' ' && t.last() != ' '
    &&& forall|i: int| 0 <= i < t.len() - 1 && #[trigger] t[i] == ' ' ==> t[i + 1] != ' '
}

/// `s` without its leading whitespace.
pub open spec fn strip_leading(s: Seq<char>) -> Seq<char>
    decreases s.len(),
{
    if s.len() > 0 && is_ws(s[0]) {
        strip_leading(s.drop_first())
    } else {
        s
    }
}

/// `s` without its trailing whitespace.
pub open spec fn strip_trailing(s: Seq<char>) -> Seq<char>
    decreases s.len(),
{
    if s.len() > 0 && is_ws(s.last()) {
        strip_trailing(s.drop_last())
    } else {
        s
    }
}

/// `s` without leading and trailing whitespace.
pub open spec fn trim(s: Seq<char>) -> Seq<char> {
    strip_trailing(strip_leading(s))
}

/// `input` without `prefix` when it starts with it, else `input` unchanged.
pub open spec fn without_prefix(prefix: Seq<char>, input: Seq<char>) -> Seq<char> {
    if prefix.is_prefix_of(input) {
        input.subrange(prefix.len() as int, input.len() as int)
    } else {
        input
    }
}

pub fn is_whitespace(c: char) -> (r: bool)
    ensures
        r == is_ws(c),
{
    let u = c as u32;
    (0x09 <= u && u <= 0x0D) || u == 0x20 || u == 0x85 || u == 0xA0 || u == 0x1680 || (0x2000
        <= u && u <= 0x200A) || u == 0x2028 || u == 0x2029 || u == 0x202F || u == 0x205F || u
        == 0x3000
}

proof fn lemma_collapse_state_shape(s: Seq<char>)
    ensures
        is_normal(collapse_state(s).0),
        collapse_state(s).1 ==> collapse_state(s).0.len() > 0,
    decreases s.len(),
{
    if s.len() > 0 {
        lemma_collapse_state_shape(s.drop_last());
        let prev = collapse_state(s.drop_last());
        let c = s.last();
        let next = collapse_step(prev, c);
        if !is_ws(c) {
            assert(is_normal(next.0)) by {
                if prev.1 {
                    let t = prev.0.push(' ');
                    assert(next.0 == t.push(c));
                    assert forall|i: int| 0 <= i < next.0.len() - 1 && #[trigger] next.0[i]
                        == ' ' implies next.0[i + 1] != ' ' by {
                        if i < prev.0.len() - 1 {
                            assert(next.0[i] == prev.0[i]);
                        }
                    }
                } else {
                    assert forall|i: int| 0 <= i < next.0.len() - 1 && #[trigger] next.0[i]
                        == ' ' implies next.0[i + 1] != ' ' by {
                        if i < prev.0.len() - 1 {
                            assert(next.0[i] == prev.0[i]);
                        }
                    }
                }
            }
        }
    }
}

proof fn lemma_collapse_normal_prefix(t: Seq<char>, k: int)
    requires
        is_normal(t),
        0 <= k <= t.len(),
    ensures
        collapse_state(t.take(k)) == (if k > 0 && t[k - 1] == ' ' {
            (t.take(k - 1), true)
        } else {
            (t.take(k), false)
        }),
    decreases k,
{
    if k > 0 {
        lemma_collapse_normal_prefix(t, k - 1);
        assert(t.take(k).drop_last() =~= t.take(k - 1));
        assert(t.take(k).last() == t[k - 1]);
        let c = t[k - 1];
        if c == ' ' {
            assert(k - 1 > 0);
            assert(t[k - 2] != ' ');
        } else {
            if k > 1 && t[k - 2] == ' ' {
                assert(t.take(k - 2).push(' ').push(c) =~= t.take(k));
            } else {
                assert(t.take(k - 1).push(c) =~= t.take(k));
            }
        }
    }
}

/// Text already in normal form is left as it is.
pub proof fn lemma_normal_unchanged(t: Seq<char>)
    requires
        is_normal(t),
    ensures
        normalize(t) == t,
{
    lemma_collapse_normal_prefix(t, t.len() as int);
    assert(t.take(t.len() as int) =~= t);
}

/// Collapsing whitespace yields text in normal form, and collapsing it again
/// changes nothing.
pub proof fn lemma_normalize_idempotent(s: Seq<char>)
    ensures
        is_normal(normalize(s)),
        normalize(normalize(s)) == normalize(s),
{
    lemma_collapse_state_shape(s);
    lemma_normal_unchanged(normalize(s));
}

/// The characters of `s` that are not whitespace, in order.
pub open spec fn visible(s: Seq<char>) -> Seq<char>
    decreases s.len(),
{
    if s.len() == 0 {
        Seq::empty()
    } else if is_ws(s.last()) {
        visible(s.drop_last())
    } else {
        visible(s.drop_last()).push(s.last())
    }
}

/// Collapsing whitespace keeps every other character, in order.
pub proof fn lemma_normalize_keeps_visible(s: Seq<char>)
    ensures
        visible(normalize(s)) == visible(s),
    decreases s.len(),
{
    if s.len() > 0 {
        lemma_normalize_keeps_visible(s.drop_last());
        let prev = collapse_state(s.drop_last());
        let c = s.last();
        assert(normalize(s) == collapse_step(prev, c).0);
        assert(visible(prev.0) == visible(s.drop_last()));
        if !is_ws(c) {
            let out = if prev.1 {
                prev.0.push(' ')
            } else {
                prev.0
            };
            assert(visible(out) == visible(prev.0)) by {
                if prev.1 {
                    assert(out.drop_last() =~= prev.0);
                    assert(out.last() == ' ');
                }
            }
            assert(normalize(s) == out.push(c));
            assert(out.push(c).drop_last() =~= out);
            assert(visible(out.push(c)) == visible(out).push(c));
        }
    }
}

/// Words joined by single spaces.
pub open spec fn joined(parts: Seq<Seq<char>>) -> Seq<char>
    decreases parts.len(),
{
    if parts.len() == 0 {
        Seq::empty()
    } else if parts.len() == 1 {
        parts[0]
    } else {
        joined(parts.drop_last()) + seq![' '] + parts.last()
    }
}

/// The words of `s`: its maximal runs of characters other than whitespace,
/// in order, as `str::split_whitespace` yields them.
pub open spec fn words(s: Seq<char>) -> Seq<Seq<char>>
    decreases s.len(),
{
    if s.len() == 0 {
        Seq::empty()
    } else {
        let w = words(s.drop_last());
        let c = s.last();
        if is_ws(c) {
            w
        } else if s.len() >= 2 && !is_ws(s[s.len() - 2]) {
            w.update(w.len() - 1, w.last().push(c))
        } else {
            w.push(seq![c])
        }
    }
}

/// Words that are not empty and hold no whitespace.
pub open spec fn proper_words(w: Seq<Seq<char>>) -> bool {
    &&& forall|i: int| 0 <= i < w.len() ==> #[trigger] w[i].len() > 0
    &&& forall|i: int, j: int| 0 <= i < w.len() && 0 <= j < w[i].len() ==> !is_ws(#[trigger] w[i][j])
}

proof fn lemma_joined_push(w: Seq<Seq<char>>, x: Seq<char>)
    requires
        w.len() > 0,
    ensures
        joined(w.push(x)) == joined(w) + seq![' '] + x,
{
    assert(w.push(x).drop_last() =~= w);
}

proof fn lemma_joined_extend(w: Seq<Seq<char>>, c: char)
    requires
        w.len() > 0,
    ensures
        joined(w.update(w.len() - 1, w.last().push(c))) == joined(w).push(c),
{
    let u = w.update(w.len() - 1, w.last().push(c));
    if w.len() > 1 {
        assert(u.drop_last() =~= w.drop_last());
        assert(joined(u) =~= joined(w).push(c));
    }
}

proof fn lemma_joined_nonempty(w: Seq<Seq<char>>)
    requires
        proper_words(w),
    ensures
        (joined(w).len() > 0) == (w.len() > 0),
{
    if w.len() > 0 {
        assert(w[w.len() - 1].len() > 0);
    }
}

proof fn lemma_collapse_words(s: Seq<char>)
    ensures
        collapse_state(s).0 == joined(words(s)),
        collapse_state(s).1 == (s.len() > 0 && is_ws(s.last()) && words(s).len() > 0),
        proper_words(words(s)),
        s.len() > 0 && !is_ws(s.last()) ==> words(s).len() > 0,
    decreases s.len(),
{
    if s.len() > 0 {
        let p = s.drop_last();
        lemma_collapse_words(p);
        lemma_joined_nonempty(words(p));
        let w = words(p);
        let c = s.last();
        if !is_ws(c) {
            if s.len() >= 2 && !is_ws(s[s.len() - 2]) {
                assert(p.last() == s[s.len() - 2]);
                lemma_joined_extend(w, c);
                let u = w.update(w.len() - 1, w.last().push(c));
                assert forall|i: int| 0 <= i < u.len() implies #[trigger] u[i].len() > 0 by {
                    if i < w.len() - 1 {
                        assert(u[i] == w[i]);
                    }
                }
                assert forall|i: int, j: int| 0 <= i < u.len() && 0 <= j < u[i].len() implies !is_ws(
                    #[trigger] u[i][j],
                ) by {
                    if i < w.len() - 1 {
                        assert(u[i] == w[i]);
                    } else {
                        assert(u[i] == w[i].push(c));
                        if j < w[i].len() {
                            assert(u[i][j] == w[i][j]);
                        }
                    }
                }
            } else {
                if w.len() > 0 {
                    lemma_joined_push(w, seq![c]);
                    assert(collapse_state(p).1);
                } else {
                    assert(joined(w.push(seq![c])) == seq![c]);
                    assert(collapse_state(p).0 =~= Seq::<char>::empty());
                    assert(Seq::<char>::empty().push(c) =~= seq![c]);
                }
                let u = w.push(seq![c]);
                assert forall|i: int| 0 <= i < u.len() implies #[trigger] u[i].len() > 0 by {
                    if i < w.len() {
                        assert(u[i] == w[i]);
                    }
                }
                assert forall|i: int, j: int| 0 <= i < u.len() && 0 <= j < u[i].len() implies !is_ws(
                    #[trigger] u[i][j],
                ) by {
                    if i < w.len() {
                        assert(u[i] == w[i]);
                    }
                }
            }
        }
    }
}

/// Collapsing whitespace gives the words of the text, as
/// `str::split_whitespace` finds them, joined by single spaces.
pub proof fn lemma_normalize_joins_words(s: Seq<char>)
    ensures
        normalize(s) == joined(words(s)),
        proper_words(words(s)),
{
    lemma_collapse_words(s);
}

/// Takes a string with any amount of whitespace between its words and returns
/// the words separated by single spaces.
pub fn reformat_ws(input: &str) -> (r: String)
    ensures
        r@ == normalize(input@),
{
    let n = input.unicode_len();
    let mut out = String::new();
    let mut gap = false;
    let mut started = false;
    let mut i: usize = 0;
    proof {
        reveal_strlit(" ");
    }
    while i < n
        invariant
            n == input@.len(),
            i <= n,
            collapse_state(input@.take(i as int)) == (out@, gap),
            started == (out@.len() > 0),
            " "@ == seq![' '],
        decreases n - i,
    {
        let c = input.get_char(i);
        assert(input@.take(i + 1).drop_last() =~= input@.take(i as int));
        if is_whitespace(c) {
            gap = started;
        } else {
            if gap {
                out.append(" ");
            }
            out.append(input.substring_char(i, i + 1));
            gap = false;
            started = true;
        }
        i = i + 1;
    }
    assert(input@.take(n as int) =~= input@);
    out
}

/// Returns `input` with leading and trailing whitespace removed.
pub fn trim_ws(input: &str) -> (r: String)
    ensures
        r@ == trim(input@),
{
    let n = input.unicode_len();
    let mut a: usize = 0;
    assert(input@.subrange(0, n as int) =~= input@);
    while a < n && is_whitespace(input.get_char(a))
        invariant
            n == input@.len(),
            a <= n,
            strip_leading(input@) == strip_leading(input@.subrange(a as int, n as int)),
        decreases n - a,
    {
        assert(input@.subrange(a as int, n as int).drop_first() =~= input@.subrange(
            a + 1,
            n as int,
        ));
        a = a + 1;
    }
    let mut b: usize = n;
    while b > a && is_whitespace(input.get_char(b - 1))
        invariant
            n == input@.len(),
            a <= b <= n,
            strip_leading(input@) == input@.subrange(a as int, n as int),
            strip_trailing(input@.subrange(a as int, n as int)) == strip_trailing(
                input@.subrange(a as int, b as int),
            ),
        decreases b - a,
    {
        assert(input@.subrange(a as int, b as int).drop_last() =~= input@.subrange(
            a as int,
            b - 1,
        ));
        b = b - 1;
    }
    String::from_str(input.substring_char(a, b))
}

/// Returns `input` without `prefix` when `input` starts with it, else `input`
/// unchanged.
pub fn remove_prefix_maybe(prefix: &str, input: &str) -> (r: String)
    ensures
        r@ == without_prefix(prefix@, input@),
{
    match strip_prefix(prefix, input) {
        Some(rest) => rest,
        None => String::from_str(input),
    }
}

/// Returns what follows `prefix` in `input`, when `input` starts with it.
pub fn strip_prefix(prefix: &str, input: &str) -> (r: Option<String>)
    ensures
        r.is_some() == prefix@.is_prefix_of(input@),
        r matches Some(rest) ==> rest@ == input@.subrange(prefix@.len() as int, input@.len() as int),
{
    let p = prefix.unicode_len();
    let n = input.unicode_len();
    if p > n {
        return None;
    }
    let mut i: usize = 0;
    while i < p
        invariant
            p == prefix@.len(),
            n == input@.len(),
            p <= n,
            i <= p,
            forall|j: int| 0 <= j < i ==> prefix@[j] == input@[j],
        decreases p - i,
    {
        if prefix.get_char(i) != input.get_char(i) {
            return None;
        }
        i = i + 1;
    }
    Some(String::from_str(input.substring_char(p, n)))
}

} // verus!
