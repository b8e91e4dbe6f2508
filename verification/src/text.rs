//! Plain-text machinery of the template engine: token replacement, substring
//! search, and the cleanup pass that drops manifest lines left empty by a
//! token that resolved to the empty string.

use vstd::prelude::*;

verus! {

/// Relies on String::push: appends the given character to the end of the string.
#[verifier::external_body]
pub(crate) fn push_char(s: &mut String, c: char)
    ensures
        final(s)@ == old(s)@.push(c),
{
    s.push(c)
}

/// Left-to-right, non-overlapping replacement of every occurrence of `pat` in
/// `s` by `rep`; the empty pattern replaces nothing.
pub open spec fn replace_of(s: Seq<char>, pat: Seq<char>, rep: Seq<char>) -> Seq<char>
    decreases s.len(),
{
    if pat.len() == 0 {
        s
    } else if s.len() < pat.len() {
        s
    } else if s.subrange(0, pat.len() as int) == pat {
        rep + replace_of(s.skip(pat.len() as int), pat, rep)
    } else {
        seq![s[0]] + replace_of(s.drop_first(), pat, rep)
    }
}

/// `pat` occurs in `s` starting at index `i`.
pub open spec fn occurs_at(s: Seq<char>, pat: Seq<char>, i: int) -> bool {
    0 <= i && i + pat.len() <= s.len() && s.subrange(i, i + pat.len() as int) == pat
}

/// `pat` occurs somewhere in `s`.
pub open spec fn occurs_in(s: Seq<char>, pat: Seq<char>) -> bool {
    exists|i: int| occurs_at(s, pat, i)
}

fn matches_at(s: &str, n: usize, i: usize, pat: &str, m: usize) -> (b: bool)
    requires
        n == s@.len(),
        m == pat@.len(),
        i + m <= n,
    ensures
        b == (s@.subrange(i as int, i as int + m as int) == pat@),
{
    let mut j: usize = 0;
    while j < m
        invariant
            0 <= j <= m,
            n == s@.len(),
            m == pat@.len(),
            i + m <= n,
            forall|k: int| 0 <= k < j ==> s@[i + k] == pat@[k],
        decreases m - j,
    {
        let c1 = s.get_char(i + j);
        let c2 = pat.get_char(j);
        if c1 != c2 {
            assert(s@.subrange(i as int, i as int + m as int)[j as int] != pat@[j as int]);
            return false;
        }
        j = j + 1;
    }
    assert(s@.subrange(i as int, i as int + m as int) =~= pat@);
    true
}

/// Replaces every occurrence of `pat` in `s` by `rep`, scanning left to right
/// and never rescanning replaced text.
pub fn replace_all(s: &str, pat: &str, rep: &str) -> (r: String)
    requires
        pat@.len() >= 1,
    ensures
        r@ == replace_of(s@, pat@, rep@),
{
    let n = s.unicode_len();
    let m = pat.unicode_len();
    let mut out = String::new();
    let mut i: usize = 0;
    proof {
        assert(s@.skip(0) =~= s@);
        assert(out@ + replace_of(s@, pat@, rep@) =~= replace_of(s@, pat@, rep@));
    }
    while i < n
        invariant
            0 <= i <= n,
            n == s@.len(),
            m == pat@.len(),
            m >= 1,
            out@ + replace_of(s@.skip(i as int), pat@, rep@) == replace_of(s@, pat@, rep@),
        decreases n - i,
    {
        let ghost tail = s@.skip(i as int);
        if m <= n - i && matches_at(s, n, i, pat, m) {
            out.append(rep);
            proof {
                assert(tail.subrange(0, m as int) =~= s@.subrange(i as int, i as int + m as int));
                assert(tail.subrange(0, m as int) == pat@);
                assert(replace_of(tail, pat@, rep@) == rep@ + replace_of(
                    tail.skip(m as int),
                    pat@,
                    rep@,
                ));
                assert(tail.skip(m as int) =~= s@.skip(i as int + m as int));
            }
            i = i + m;
            assert(out@ + replace_of(s@.skip(i as int), pat@, rep@) =~= replace_of(
                s@,
                pat@,
                rep@,
            ));
        } else {
            let c = s.get_char(i);
            push_char(&mut out, c);
            proof {
                assert(tail[0] == s@[i as int]);
                assert(tail.drop_first() =~= s@.skip(i as int + 1));
                if tail.len() < m {
                    assert(replace_of(tail, pat@, rep@) == tail);
                    assert(tail =~= seq![tail[0]] + tail.drop_first());
                    assert(replace_of(tail.drop_first(), pat@, rep@) == tail.drop_first());
                } else {
                    assert(tail.subrange(0, m as int) =~= s@.subrange(
                        i as int,
                        i as int + m as int,
                    ));
                    assert(tail.subrange(0, m as int) != pat@);
                    assert(replace_of(tail, pat@, rep@) == seq![tail[0]] + replace_of(
                        tail.drop_first(),
                        pat@,
                        rep@,
                    ));
                }
            }
            i = i + 1;
            assert(out@ + replace_of(s@.skip(i as int), pat@, rep@) =~= replace_of(
                s@,
                pat@,
                rep@,
            ));
        }
    }
    proof {
        assert(s@.skip(n as int) =~= Seq::<char>::empty());
        assert(out@ =~= replace_of(s@, pat@, rep@));
    }
    out
}

/// Says whether `pat` occurs anywhere in `s`; the empty pattern occurs in
/// every string.
pub fn contains_sub(s: &str, pat: &str) -> (b: bool)
    ensures
        b == occurs_in(s@, pat@),
{
    let n = s.unicode_len();
    let m = pat.unicode_len();
    if m > n {
        assert(forall|i: int| !occurs_at(s@, pat@, i));
        return false;
    }
    if m == 0 {
        assert(s@.subrange(0, 0) =~= pat@);
        assert(occurs_at(s@, pat@, 0));
        return true;
    }
    let mut i: usize = 0;
    while i <= n - m
        invariant
            0 <= i <= n - m + 1,
            1 <= m <= n,
            n == s@.len(),
            m == pat@.len(),
            forall|k: int| 0 <= k < i ==> !occurs_at(s@, pat@, k),
        decreases n - i,
    {
        if matches_at(s, n, i, pat, m) {
            assert(occurs_at(s@, pat@, i as int));
            return true;
        }
        i = i + 1;
    }
    assert forall|k: int| !occurs_at(s@, pat@, k) by {
        if k >= i {
            assert(k + pat@.len() > s@.len());
        }
    }
    false
}

/// Replacement never touches text before the first occurrence of the
/// pattern: up to an index `k` where no occurrence starts, the input is
/// copied through unchanged.
pub proof fn lemma_replace_prefix(s: Seq<char>, pat: Seq<char>, rep: Seq<char>, k: int)
    requires
        0 <= k <= s.len(),
        forall|j: int| 0 <= j < k ==> !occurs_at(s, pat, j),
    ensures
        replace_of(s, pat, rep) == s.take(k) + replace_of(s.skip(k), pat, rep),
    decreases k,
{
    if k == 0 {
        assert(s.skip(0) =~= s);
        assert(s.take(0) + replace_of(s, pat, rep) =~= replace_of(s, pat, rep));
    } else if pat.len() == 0 {
        assert(replace_of(s.skip(k), pat, rep) == s.skip(k));
        assert(s.take(k) + s.skip(k) =~= s);
    } else if s.len() < pat.len() {
        assert(s.skip(k).len() < pat.len());
        assert(replace_of(s.skip(k), pat, rep) == s.skip(k));
        assert(s.take(k) + s.skip(k) =~= s);
    } else {
        assert(!occurs_at(s, pat, 0));
        assert(s.subrange(0, pat.len() as int) != pat);
        let s1 = s.drop_first();
        assert forall|j: int| 0 <= j < k - 1 implies !occurs_at(s1, pat, j) by {
            if occurs_at(s1, pat, j) {
                assert(s1.subrange(j, j + pat.len() as int) =~= s.subrange(
                    j + 1,
                    j + 1 + pat.len() as int,
                ));
                assert(occurs_at(s, pat, j + 1));
            }
        }
        lemma_replace_prefix(s1, pat, rep, k - 1);
        assert(s1.take(k - 1) =~= s.take(k).drop_first());
        assert(s1.skip(k - 1) =~= s.skip(k));
        assert(replace_of(s, pat, rep) == seq![s[0]] + replace_of(s1, pat, rep));
        assert(seq![s[0]] + (s1.take(k - 1) + replace_of(s.skip(k), pat, rep)) =~= s.take(k)
            + replace_of(s.skip(k), pat, rep));
    }
}

/// The index of the first line feed in `s`, or `s.len()` when there is none.
pub open spec fn find_nl(s: Seq<char>) -> int
    decreases s.len(),
{
    if s.len() == 0 {
        0
    } else if s[0] == '\n' {
        0
    } else {
        1 + find_nl(s.drop_first())
    }
}

proof fn lemma_find_nl_bounds(s: Seq<char>)
    ensures
        0 <= find_nl(s) <= s.len(),
        forall|i: int| 0 <= i < find_nl(s) ==> #[trigger] s[i] != '\n',
        find_nl(s) < s.len() ==> s[find_nl(s)] == '\n',
    decreases s.len(),
{
    if s.len() > 0 && s[0] != '\n' {
        lemma_find_nl_bounds(s.drop_first());
        assert forall|i: int| 0 <= i < find_nl(s) implies #[trigger] s[i] != '\n' by {
            if i > 0 {
                assert(s.drop_first()[i - 1] == s[i]);
            }
        }
    }
}

proof fn lemma_find_nl_at(s: Seq<char>, k: int)
    requires
        0 <= k <= s.len(),
        forall|i: int| 0 <= i < k ==> #[trigger] s[i] != '\n',
        k < s.len() ==> s[k] == '\n',
    ensures
        find_nl(s) == k,
    decreases s.len(),
{
    if s.len() > 0 && s[0] != '\n' {
        let s1 = s.drop_first();
        assert(forall|i: int| 0 <= i < k - 1 ==> #[trigger] s1[i] == s[i + 1]);
        lemma_find_nl_at(s1, k - 1);
    }
}

/// The lines of `s`, split at each line feed; a string without one is a
/// single line, so the empty string yields one empty line.
pub open spec fn line_split(s: Seq<char>) -> Seq<Seq<char>>
    decreases s.len(),
{
    let k = find_nl(s);
    if 0 <= k < s.len() {
        seq![s.take(k)] + line_split(s.skip(k + 1))
    } else {
        seq![s]
    }
}

/// A whitespace character as the cleanup pass trims it.
pub open spec fn is_space_char(c: char) -> bool {
    c == ' ' || c == '\t' || c == '\r' || c == '\n'
}

/// How many whitespace characters `s` starts with.
pub open spec fn trim_start_count(s: Seq<char>) -> int
    decreases s.len(),
{
    if s.len() > 0 && is_space_char(s[0]) {
        1 + trim_start_count(s.drop_first())
    } else {
        0
    }
}

/// One past the last non-whitespace character of `s`; 0 when all whitespace.
pub open spec fn trim_end_index(s: Seq<char>) -> int
    decreases s.len(),
{
    if s.len() > 0 && is_space_char(s.last()) {
        trim_end_index(s.drop_last())
    } else {
        s.len() as int
    }
}

/// `s` without leading and trailing whitespace.
pub open spec fn trim_of(s: Seq<char>) -> Seq<char> {
    if trim_start_count(s) >= trim_end_index(s) {
        Seq::empty()
    } else {
        s.subrange(trim_start_count(s), trim_end_index(s))
    }
}

pub open spec fn empty_quotes() -> Seq<char> {
    seq!['"', '"']
}

pub open spec fn empty_quotes_comma() -> Seq<char> {
    seq!['"', '"', ',']
}

/// The cleanup pass keeps a line unless it trims to nothing, to `""`, or to
/// `"",`.
pub open spec fn line_kept(l: Seq<char>) -> bool {
    trim_of(l).len() != 0 && trim_of(l) != empty_quotes() && trim_of(l) != empty_quotes_comma()
}

/// The lines of `ls` that the cleanup pass keeps, in order.
pub open spec fn kept_lines(ls: Seq<Seq<char>>) -> Seq<Seq<char>>
    decreases ls.len(),
{
    if ls.len() == 0 {
        Seq::empty()
    } else if line_kept(ls.last()) {
        kept_lines(ls.drop_last()) + seq![ls.last()]
    } else {
        kept_lines(ls.drop_last())
    }
}

/// The lines of `ls` joined with a line feed between each pair.
pub open spec fn join_nl(ls: Seq<Seq<char>>) -> Seq<char>
    decreases ls.len(),
{
    if ls.len() == 0 {
        Seq::empty()
    } else if ls.len() == 1 {
        ls[0]
    } else {
        join_nl(ls.drop_last()) + seq!['\n'] + ls.last()
    }
}

/// The cleanup pass: split into lines, drop each line that trims to nothing
/// or to an empty quoted string (with or without a trailing comma), and join
/// what is left.
pub open spec fn cleanup_of(s: Seq<char>) -> Seq<char> {
    join_nl(kept_lines(line_split(s)))
}

fn split_lines(s: &str) -> (v: Vec<String>)
    ensures
        v@.len() == line_split(s@).len(),
        forall|i: int| 0 <= i < v@.len() ==> v@[i]@ == line_split(s@)[i],
{
    let n = s.unicode_len();
    let mut v: Vec<String> = Vec::new();
    let mut start: usize = 0;
    let mut done = false;
    proof {
        assert(line_split(s@).skip(0) =~= line_split(s@));
        assert(s@.skip(0) =~= s@);
    }
    while !done
        invariant
            0 <= start <= n,
            n == s@.len(),
            v@.len() <= line_split(s@).len(),
            forall|i: int| 0 <= i < v@.len() ==> v@[i]@ == line_split(s@)[i],
            !done ==> line_split(s@).skip(v@.len() as int) == line_split(s@.skip(start as int)),
            done ==> v@.len() == line_split(s@).len(),
        decreases n - start + (if done { 0int } else { 1int }),
    {
        let mut k: usize = start;
        let mut stop = false;
        while !stop
            invariant
                start <= k <= n,
                n == s@.len(),
                forall|j: int| start <= j < k ==> s@[j] != '\n',
                stop ==> (k == n || s@[k as int] == '\n'),
            decreases n - k + (if stop { 0int } else { 1int }),
        {
            if k < n {
                let c = s.get_char(k);
                if c == '\n' {
                    stop = true;
                } else {
                    k = k + 1;
                }
            } else {
                stop = true;
            }
        }
        let ghost tail = s@.skip(start as int);
        proof {
            assert(forall|i: int|
                0 <= i < k - start ==> #[trigger] tail[i] == s@[start + i] && tail[i] != '\n');
            if k < n {
                assert(tail[k - start] == s@[k as int]);
            }
            lemma_find_nl_at(tail, k - start);
        }
        let piece = String::from_str(s.substring_char(start, k));
        let ghost old_len = v@.len() as int;
        let ghost splits = line_split(s@);
        v.push(piece);
        if k < n {
            proof {
                assert(line_split(tail) == seq![tail.take(k - start)] + line_split(
                    tail.skip(k - start + 1),
                ));
                assert(tail.take(k - start) =~= s@.subrange(start as int, k as int));
                assert(tail.skip(k - start + 1) =~= s@.skip(k + 1));
                assert(splits.skip(old_len)[0] == splits[old_len]);
                assert(splits[old_len] == piece@);
                assert(splits.skip(old_len).skip(1) =~= splits.skip(old_len + 1));
                assert(line_split(tail).skip(1) =~= line_split(s@.skip(k + 1)));
            }
            start = k + 1;
        } else {
            proof {
                assert(line_split(tail) =~= seq![tail]);
                assert(splits.skip(old_len)[0] == splits[old_len]);
                assert(splits[old_len] == piece@);
                assert(splits.skip(old_len).len() == 1);
                assert(v@.len() == splits.len());
            }
            done = true;
        }
    }
    v
}

proof fn lemma_trim_start_at(s: Seq<char>, a: int)
    requires
        0 <= a <= s.len(),
        forall|j: int| 0 <= j < a ==> is_space_char(#[trigger] s[j]),
        a < s.len() ==> !is_space_char(s[a]),
    ensures
        trim_start_count(s) == a,
    decreases s.len(),
{
    if s.len() > 0 && is_space_char(s[0]) {
        let s1 = s.drop_first();
        assert(forall|j: int| 0 <= j < a - 1 ==> #[trigger] s1[j] == s[j + 1]);
        lemma_trim_start_at(s1, a - 1);
    }
}

proof fn lemma_trim_end_at(s: Seq<char>, b: int)
    requires
        0 <= b <= s.len(),
        forall|j: int| b <= j < s.len() ==> is_space_char(#[trigger] s[j]),
        b > 0 ==> !is_space_char(s[b - 1]),
    ensures
        trim_end_index(s) == b,
    decreases s.len(),
{
    if s.len() > 0 && is_space_char(s.last()) {
        assert(b < s.len());
        let s1 = s.drop_last();
        lemma_trim_end_at(s1, b);
    }
}

fn line_kept_exec(l: &str) -> (b: bool)
    ensures
        b == line_kept(l@),
{
    let n = l.unicode_len();
    let mut a: usize = 0;
    let mut stop = false;
    while !stop
        invariant
            0 <= a <= n,
            n == l@.len(),
            forall|j: int| 0 <= j < a ==> is_space_char(#[trigger] l@[j]),
            stop ==> (a == n || !is_space_char(l@[a as int])),
        decreases n - a + (if stop { 0int } else { 1int }),
    {
        if a < n {
            let c = l.get_char(a);
            if c == ' ' || c == '\t' || c == '\r' || c == '\n' {
                a = a + 1;
            } else {
                stop = true;
            }
        } else {
            stop = true;
        }
    }
    proof {
        lemma_trim_start_at(l@, a as int);
    }
    let mut e: usize = n;
    let mut stop2 = false;
    while !stop2
        invariant
            0 <= e <= n,
            n == l@.len(),
            forall|j: int| e <= j < n ==> is_space_char(#[trigger] l@[j]),
            stop2 ==> (e == 0 || !is_space_char(l@[e - 1])),
        decreases e + (if stop2 { 0int } else { 1int }),
    {
        if e > 0 {
            let c = l.get_char(e - 1);
            if c == ' ' || c == '\t' || c == '\r' || c == '\n' {
                e = e - 1;
            } else {
                stop2 = true;
            }
        } else {
            stop2 = true;
        }
    }
    proof {
        lemma_trim_end_at(l@, e as int);
    }
    if a >= e {
        assert(trim_of(l@).len() == 0);
        return false;
    }
    let ghost t = trim_of(l@);
    assert(t =~= l@.subrange(a as int, e as int));
    let len = e - a;
    if len == 2 {
        let c0 = l.get_char(a);
        let c1 = l.get_char(a + 1);
        if c0 == '"' && c1 == '"' {
            assert(t =~= empty_quotes());
            return false;
        }
        proof {
            assert(t[0] == l@[a as int] && t[1] == l@[a as int + 1]);
            assert(t != empty_quotes());
            assert(t.len() != empty_quotes_comma().len());
        }
        return true;
    }
    if len == 3 {
        let c0 = l.get_char(a);
        let c1 = l.get_char(a + 1);
        let c2 = l.get_char(a + 2);
        if c0 == '"' && c1 == '"' && c2 == ',' {
            assert(t =~= empty_quotes_comma());
            return false;
        }
        proof {
            assert(t[0] == l@[a as int] && t[1] == l@[a as int + 1] && t[2] == l@[a as int + 2]);
            assert(t != empty_quotes_comma());
            assert(t.len() != empty_quotes().len());
        }
        return true;
    }
    proof {
        assert(t.len() != empty_quotes().len() && t.len() != empty_quotes_comma().len());
    }
    true
}

proof fn lemma_join_push(ws: Seq<Seq<char>>, l: Seq<char>)
    ensures
        ws.len() == 0 ==> join_nl(ws + seq![l]) == l,
        ws.len() > 0 ==> join_nl(ws + seq![l]) == join_nl(ws) + seq!['\n'] + l,
{
    let w2 = ws + seq![l];
    if ws.len() == 0 {
        assert(w2.len() == 1);
        assert(w2[0] == l);
    } else {
        assert(w2.len() >= 2);
        assert(w2.drop_last() =~= ws);
        assert(w2.last() == l);
    }
}

/// Removes every line whose trimmed form is empty, `""` or `"",`, and joins
/// the remaining lines with a line feed.
pub fn remove_empty_lines_and_quotes(content: &str) -> (r: String)
    ensures
        r@ == cleanup_of(content@),
{
    let v = split_lines(content);
    let ghost ls = line_split(content@);
    let mut out = String::new();
    let mut first = true;
    let mut i: usize = 0;
    proof {
        assert(ls.take(0) =~= Seq::<Seq<char>>::empty());
    }
    while i < v.len()
        invariant
            0 <= i <= v@.len(),
            v@.len() == ls.len(),
            forall|j: int| 0 <= j < v@.len() ==> v@[j]@ == ls[j],
            out@ == join_nl(kept_lines(ls.take(i as int))),
            first == (kept_lines(ls.take(i as int)).len() == 0),
        decreases v@.len() - i,
    {
        proof {
            assert(ls.take(i + 1).drop_last() =~= ls.take(i as int));
            assert(ls.take(i + 1).last() == ls[i as int]);
        }
        let ghost ks = kept_lines(ls.take(i as int));
        if line_kept_exec(v[i].as_str()) {
            if !first {
                push_char(&mut out, '\n');
            }
            out.append(v[i].as_str());
            first = false;
            proof {
                assert(kept_lines(ls.take(i + 1)) == ks + seq![ls[i as int]]);
                lemma_join_push(ks, ls[i as int]);
                if ks.len() == 0 {
                    assert(out@ =~= join_nl(kept_lines(ls.take(i + 1))));
                } else {
                    assert(out@ =~= join_nl(kept_lines(ls.take(i + 1))));
                }
                assert(kept_lines(ls.take(i + 1)).len() > 0);
            }
        } else {
            proof {
                assert(kept_lines(ls.take(i + 1)) == ks);
            }
        }
        i = i + 1;
    }
    proof {
        assert(ls.take(v@.len() as int) =~= ls);
    }
    out
}

/// A line that contains no line feed.
pub open spec fn no_nl(l: Seq<char>) -> bool {
    forall|j: int| 0 <= j < l.len() ==> #[trigger] l[j] != '\n'
}

proof fn lemma_line_split_no_nl(s: Seq<char>)
    ensures
        forall|i: int| 0 <= i < line_split(s).len() ==> no_nl(#[trigger] line_split(s)[i]),
    decreases s.len(),
{
    let k = find_nl(s);
    lemma_find_nl_bounds(s);
    if 0 <= k < s.len() {
        lemma_line_split_no_nl(s.skip(k + 1));
        assert forall|i: int| 0 <= i < line_split(s).len() implies no_nl(
            #[trigger] line_split(s)[i],
        ) by {
            if i == 0 {
                assert(line_split(s)[0] == s.take(k));
                assert(forall|j: int| 0 <= j < k ==> #[trigger] s.take(k)[j] == s[j]);
            } else {
                assert(line_split(s)[i] == line_split(s.skip(k + 1))[i - 1]);
            }
        }
    } else {
        assert(line_split(s) == seq![s]);
        assert(forall|j: int| 0 <= j < s.len() ==> #[trigger] s[j] != '\n');
    }
}

proof fn lemma_kept_lines_all_kept(ls: Seq<Seq<char>>)
    requires
        forall|i: int| 0 <= i < ls.len() ==> no_nl(#[trigger] ls[i]),
    ensures
        forall|i: int|
            0 <= i < kept_lines(ls).len() ==> line_kept(#[trigger] kept_lines(ls)[i]) && no_nl(
                kept_lines(ls)[i],
            ),
    decreases ls.len(),
{
    if ls.len() > 0 {
        assert(forall|i: int| 0 <= i < ls.len() - 1 ==> #[trigger] ls.drop_last()[i] == ls[i]);
        lemma_kept_lines_all_kept(ls.drop_last());
        let ks = kept_lines(ls);
        let kd = kept_lines(ls.drop_last());
        assert forall|i: int| 0 <= i < ks.len() implies line_kept(#[trigger] ks[i]) && no_nl(
            ks[i],
        ) by {
            if i < kd.len() {
                assert(ks[i] == kd[i]);
            } else {
                assert(ks[i] == ls.last());
            }
        }
    }
}

proof fn lemma_join_front(ws: Seq<Seq<char>>)
    requires
        ws.len() >= 2,
    ensures
        join_nl(ws) == ws[0] + seq!['\n'] + join_nl(ws.drop_first()),
    decreases ws.len(),
{
    if ws.len() == 2 {
        assert(ws.drop_last() =~= seq![ws[0]]);
        assert(join_nl(ws.drop_last()) == ws[0]);
        assert(ws.drop_first() =~= seq![ws[1]]);
        assert(join_nl(ws.drop_first()) == ws[1]);
    } else {
        let wd = ws.drop_last();
        lemma_join_front(wd);
        assert(wd[0] == ws[0]);
        assert(wd.drop_first() =~= ws.drop_first().drop_last());
        assert(ws.drop_first().last() == ws.last());
        assert(ws.drop_first().len() >= 2);
        assert(join_nl(ws.drop_first()) == join_nl(ws.drop_first().drop_last()) + seq!['\n']
            + ws.last());
        assert(join_nl(ws) == join_nl(wd) + seq!['\n'] + ws.last());
        assert(join_nl(ws) =~= ws[0] + seq!['\n'] + join_nl(ws.drop_first()));
    }
}

proof fn lemma_split_join(ws: Seq<Seq<char>>)
    requires
        ws.len() >= 1,
        forall|i: int| 0 <= i < ws.len() ==> no_nl(#[trigger] ws[i]),
    ensures
        line_split(join_nl(ws)) == ws,
    decreases ws.len(),
{
    if ws.len() == 1 {
        let u = join_nl(ws);
        assert(u == ws[0]);
        lemma_find_nl_at(u, u.len() as int);
        assert(line_split(u) =~= seq![u]);
        assert(line_split(u) =~= ws);
    } else {
        lemma_join_front(ws);
        let u = join_nl(ws);
        let w0 = ws[0];
        let k = w0.len() as int;
        assert forall|j: int| 0 <= j < k implies #[trigger] u[j] != '\n' by {
            assert(u[j] == w0[j]);
        }
        assert(u[k] == '\n');
        lemma_find_nl_at(u, k);
        assert(u.take(k) =~= w0);
        assert(u.skip(k + 1) =~= join_nl(ws.drop_first()));
        assert(forall|i: int|
            0 <= i < ws.len() - 1 ==> #[trigger] ws.drop_first()[i] == ws[i + 1]);
        lemma_split_join(ws.drop_first());
        assert(line_split(u) == seq![w0] + line_split(join_nl(ws.drop_first())));
        assert(line_split(u) =~= ws);
    }
}

/// Law: no line of the cleanup pass's output trims to an empty quoted string,
/// with or without a trailing comma.
pub proof fn lemma_cleanup_lines(s: Seq<char>)
    ensures
        forall|i: int|
            0 <= i < line_split(cleanup_of(s)).len() ==> trim_of(
                #[trigger] line_split(cleanup_of(s))[i],
            ) != empty_quotes() && trim_of(line_split(cleanup_of(s))[i]) != empty_quotes_comma(),
{
    let ls = line_split(s);
    lemma_line_split_no_nl(s);
    lemma_kept_lines_all_kept(ls);
    let ks = kept_lines(ls);
    if ks.len() == 0 {
        assert(cleanup_of(s) == Seq::<char>::empty());
        let e = Seq::<char>::empty();
        assert(find_nl(e) == 0);
        assert(line_split(e) == seq![e]);
        assert(trim_of(e).len() == 0);
        assert(trim_of(e) != empty_quotes());
        assert(trim_of(e) != empty_quotes_comma());
    } else {
        lemma_split_join(ks);
        assert(line_split(cleanup_of(s)) == ks);
    }
}

} // verus!
