//! Case transforms used to derive identifiers from a project name.
//!
//! `convert_to_kebab_case` (and its alias `to_kebab_case`) lower-cases each
//! ASCII letter, turns spaces and underscores into `-`, and inserts a `-`
//! before every ASCII uppercase letter that is not the first character and
//! not already preceded by a separator.
//! `kebab_case_to_pascal_case` capitalizes the first character after each run
//! of `-` and lower-cases the rest; `to_pascal_case` does the same but treats
//! `-`, `_` and a space alike as separators.

use vstd::prelude::*;

use crate::text::push_char;

verus! {

pub open spec fn spec_is_ascii_upper(c: char) -> bool {
    'A' <= c && c <= 'Z'
}

pub open spec fn spec_is_ascii_lower(c: char) -> bool {
    'a' <= c && c <= 'z'
}

pub open spec fn spec_is_ascii_alpha(c: char) -> bool {
    spec_is_ascii_upper(c) || spec_is_ascii_lower(c)
}

pub open spec fn spec_lower_char(c: char) -> char {
    if spec_is_ascii_upper(c) {
        (((c as u8) + 32) as u8) as char
    } else {
        c
    }
}

pub open spec fn spec_upper_char(c: char) -> char {
    if spec_is_ascii_lower(c) {
        (((c as u8) - 32) as u8) as char
    } else {
        c
    }
}

fn lower_char(c: char) -> (r: char)
    ensures
        r == spec_lower_char(c),
{
    let u = c as u32;
    if 65 <= u && u <= 90 {
        ((u as u8) + 32) as char
    } else {
        c
    }
}

fn upper_char(c: char) -> (r: char)
    ensures
        r == spec_upper_char(c),
{
    let u = c as u32;
    if 97 <= u && u <= 122 {
        ((u as u8) - 32) as char
    } else {
        c
    }
}

/// A character the transform turns into (or keeps as) the separator.
pub open spec fn spec_is_sep_source(c: char) -> bool {
    c == ' ' || c == '_' || c == '-'
}

/// What one character of the input contributes to the kebab-case result,
/// given the character before it: spaces and underscores become `-`; an
/// uppercase letter is lower-cased, with a `-` inserted before it unless a
/// separator already stands there; everything else is passed through.
pub open spec fn kebab_unit(prev: char, c: char) -> Seq<char> {
    if c == ' ' || c == '_' {
        seq!['-']
    } else if spec_is_ascii_upper(c) && !spec_is_sep_source(prev) {
        seq!['-', spec_lower_char(c)]
    } else {
        seq![spec_lower_char(c)]
    }
}

/// What the first character of the input contributes: no `-` is inserted
/// before it even when it is uppercase.
pub open spec fn kebab_first_unit(c: char) -> Seq<char> {
    if c == ' ' || c == '_' {
        seq!['-']
    } else {
        seq![spec_lower_char(c)]
    }
}

pub open spec fn kebab_rest(s: Seq<char>, prev: char) -> Seq<char>
    decreases s.len(),
{
    if s.len() == 0 {
        Seq::empty()
    } else {
        kebab_unit(prev, s[0]) + kebab_rest(s.drop_first(), s[0])
    }
}

/// The kebab-case form of a string.
pub open spec fn kebab_of(s: Seq<char>) -> Seq<char> {
    if s.len() == 0 {
        Seq::empty()
    } else {
        kebab_first_unit(s[0]) + kebab_rest(s.drop_first(), s[0])
    }
}

pub open spec fn pascal_sep(c: char, wide: bool) -> bool {
    c == '-' || (wide && (c == '_' || c == ' '))
}

/// State machine behind both Pascal-case transforms: `cap` says whether the
/// next non-separator character is to be capitalized; `wide` widens the
/// separator set from `-` alone to `-`, `_` and space.
pub open spec fn pascal_rec(s: Seq<char>, cap: bool, wide: bool) -> Seq<char>
    decreases s.len(),
{
    if s.len() == 0 {
        Seq::empty()
    } else if pascal_sep(s[0], wide) {
        pascal_rec(s.drop_first(), true, wide)
    } else if cap {
        seq![spec_upper_char(s[0])] + pascal_rec(s.drop_first(), false, wide)
    } else {
        seq![spec_lower_char(s[0])] + pascal_rec(s.drop_first(), false, wide)
    }
}

/// The Pascal-case form of a kebab-case string (separator: `-`).
pub open spec fn pascal_of_kebab(s: Seq<char>) -> Seq<char> {
    pascal_rec(s, true, false)
}

/// The Pascal-case form of a string whose words are separated by `-`, `_` or
/// spaces.
pub open spec fn pascal_of_words(s: Seq<char>) -> Seq<char> {
    pascal_rec(s, true, true)
}

/// Lower-cases, maps spaces and underscores to `-`, and inserts `-` before
/// each uppercase letter that is not the first character and does not already
/// follow a separator.
pub fn convert_to_kebab_case(s: &str) -> (r: String)
    ensures
        r@ == kebab_of(s@),
{
    let n = s.unicode_len();
    let mut out = String::new();
    if n == 0 {
        assert(out@ =~= kebab_of(s@));
        return out;
    }
    let c0 = s.get_char(0);
    if c0 == ' ' || c0 == '_' {
        push_char(&mut out, '-');
    } else {
        push_char(&mut out, lower_char(c0));
    }
    assert(out@ =~= kebab_first_unit(s@[0]));
    let mut prev = c0;
    let mut i: usize = 1;
    while i < n
        invariant
            1 <= i <= n,
            n == s@.len(),
            prev == s@[i - 1],
            out@ + kebab_rest(s@.skip(i as int), prev) == kebab_of(s@),
        decreases n - i,
    {
        let c = s.get_char(i);
        proof {
            assert(s@.skip(i as int).len() > 0);
            assert(s@.skip(i as int)[0] == s@[i as int]);
            assert(s@.skip(i as int).drop_first() =~= s@.skip(i as int + 1));
            assert(kebab_rest(s@.skip(i as int), prev) == kebab_unit(prev, s@[i as int])
                + kebab_rest(s@.skip(i as int + 1), s@[i as int]));
        }
        if c == ' ' || c == '_' {
            push_char(&mut out, '-');
        } else if lower_char(c) != c && !(prev == ' ' || prev == '_' || prev == '-') {
            // an ASCII uppercase letter with no separator already before it
            push_char(&mut out, '-');
            push_char(&mut out, lower_char(c));
        } else {
            push_char(&mut out, lower_char(c));
        }
        assert(out@ + kebab_rest(s@.skip(i as int + 1), s@[i as int]) =~= kebab_of(s@));
        prev = c;
        i = i + 1;
    }
    proof {
        assert(s@.skip(n as int) =~= Seq::<char>::empty());
        assert(out@ =~= kebab_of(s@));
    }
    out
}

/// The same transform under the name the template engine's callers use.
pub fn to_kebab_case(s: &str) -> (r: String)
    ensures
        r@ == kebab_of(s@),
{
    convert_to_kebab_case(s)
}

fn pascal_case(s: &str, wide: bool) -> (r: String)
    ensures
        r@ == pascal_rec(s@, true, wide),
{
    let n = s.unicode_len();
    let mut out = String::new();
    let mut cap = true;
    let mut i: usize = 0;
    proof {
        assert(s@.skip(0) =~= s@);
        assert(out@ + pascal_rec(s@, true, wide) =~= pascal_rec(s@, true, wide));
    }
    while i < n
        invariant
            0 <= i <= n,
            n == s@.len(),
            out@ + pascal_rec(s@.skip(i as int), cap, wide) == pascal_rec(s@, true, wide),
        decreases n - i,
    {
        let c = s.get_char(i);
        proof {
            assert(s@.skip(i as int).len() > 0);
            assert(s@.skip(i as int)[0] == s@[i as int]);
            assert(s@.skip(i as int).drop_first() =~= s@.skip(i as int + 1));
        }
        let is_sep = c == '-' || (wide && (c == '_' || c == ' '));
        if is_sep {
            cap = true;
        } else if cap {
            push_char(&mut out, upper_char(c));
            cap = false;
        } else {
            push_char(&mut out, lower_char(c));
        }
        assert(out@ + pascal_rec(s@.skip(i as int + 1), cap, wide) =~= pascal_rec(
            s@,
            true,
            wide,
        ));
        i = i + 1;
    }
    proof {
        assert(s@.skip(n as int) =~= Seq::<char>::empty());
        assert(out@ =~= pascal_rec(s@, true, wide));
    }
    out
}

/// Splits on `-`, upper-cases the first character of each segment,
/// lower-cases the rest, and concatenates the segments.
pub fn kebab_case_to_pascal_case(kebab_case_str: &str) -> (r: String)
    ensures
        r@ == pascal_of_kebab(kebab_case_str@),
{
    pascal_case(kebab_case_str, false)
}

/// Splits on `-`, `_` and spaces, capitalizes each word and concatenates.
pub fn to_pascal_case(s: &str) -> (r: String)
    ensures
        r@ == pascal_of_words(s@),
{
    pascal_case(s, true)
}

/// A character that survives the kebab-case transform unchanged: it is not an
/// ASCII uppercase letter, not a space and not an underscore.
pub open spec fn kebab_stable(c: char) -> bool {
    !spec_is_ascii_upper(c) && c != ' ' && c != '_'
}

proof fn lemma_kebab_rest_stable(s: Seq<char>, prev: char)
    ensures
        forall|i: int|
            0 <= i < kebab_rest(s, prev).len() ==> kebab_stable(
                #[trigger] kebab_rest(s, prev)[i],
            ),
    decreases s.len(),
{
    if s.len() > 0 {
        lemma_kebab_rest_stable(s.drop_first(), s[0]);
        assert forall|i: int| 0 <= i < kebab_rest(s, prev).len() implies kebab_stable(
            #[trigger] kebab_rest(s, prev)[i],
        ) by {
            let u = kebab_unit(prev, s[0]);
            if i < u.len() {
                assert(kebab_rest(s, prev)[i] == u[i]);
            } else {
                assert(kebab_rest(s, prev)[i] == kebab_rest(s.drop_first(), s[0])[i - u.len()]);
            }
        }
    }
}

/// Law: the kebab-case form of any string contains no ASCII uppercase letter,
/// no space and no underscore.
pub proof fn lemma_kebab_chars(s: Seq<char>)
    ensures
        forall|i: int|
            0 <= i < kebab_of(s).len() ==> kebab_stable(#[trigger] kebab_of(s)[i]),
{
    if s.len() > 0 {
        lemma_kebab_rest_stable(s.drop_first(), s[0]);
        assert forall|i: int| 0 <= i < kebab_of(s).len() implies kebab_stable(
            #[trigger] kebab_of(s)[i],
        ) by {
            let u = kebab_first_unit(s[0]);
            if i < u.len() {
                assert(kebab_of(s)[i] == u[i]);
            } else {
                assert(kebab_of(s)[i] == kebab_rest(s.drop_first(), s[0])[i - u.len()]);
            }
        }
    }
}

proof fn lemma_kebab_rest_identity(t: Seq<char>, prev: char)
    requires
        forall|i: int| 0 <= i < t.len() ==> kebab_stable(#[trigger] t[i]),
    ensures
        kebab_rest(t, prev) == t,
    decreases t.len(),
{
    if t.len() > 0 {
        lemma_kebab_rest_identity(t.drop_first(), t[0]);
        assert(kebab_unit(prev, t[0]) =~= seq![t[0]]);
        assert(kebab_rest(t, prev) =~= t);
    }
}

proof fn lemma_kebab_stable_identity(t: Seq<char>)
    requires
        forall|i: int| 0 <= i < t.len() ==> kebab_stable(#[trigger] t[i]),
    ensures
        kebab_of(t) == t,
{
    if t.len() > 0 {
        lemma_kebab_rest_identity(t.drop_first(), t[0]);
        assert(kebab_first_unit(t[0]) =~= seq![t[0]]);
        assert(kebab_of(t) =~= t);
    }
}

/// Law: the kebab-case transform is idempotent; applying it to its own output
/// changes nothing.
pub proof fn lemma_kebab_idempotent(s: Seq<char>)
    ensures
        kebab_of(kebab_of(s)) == kebab_of(s),
{
    lemma_kebab_chars(s);
    lemma_kebab_stable_identity(kebab_of(s));
}

/// A separator in a raw project name: `-`, `_` or a space.
pub open spec fn spec_is_name_sep(c: char) -> bool {
    c == '-' || c == '_' || c == ' '
}

/// The index of the first character of a string that is not a name separator;
/// the string's length when every character is one.
pub open spec fn find_word_start(s: Seq<char>) -> int
    decreases s.len(),
{
    if s.len() == 0 {
        0
    } else if !spec_is_name_sep(s[0]) {
        0
    } else {
        1 + find_word_start(s.drop_first())
    }
}

proof fn lemma_find_word_start_bounds(s: Seq<char>)
    ensures
        0 <= find_word_start(s) <= s.len(),
        forall|i: int| 0 <= i < find_word_start(s) ==> spec_is_name_sep(#[trigger] s[i]),
        find_word_start(s) < s.len() ==> !spec_is_name_sep(s[find_word_start(s)]),
    decreases s.len(),
{
    if s.len() > 0 && spec_is_name_sep(s[0]) {
        lemma_find_word_start_bounds(s.drop_first());
        assert forall|i: int| 0 <= i < find_word_start(s) implies spec_is_name_sep(
            #[trigger] s[i],
        ) by {
            if i > 0 {
                assert(s.drop_first()[i - 1] == s[i]);
            }
        }
    }
}

proof fn lemma_kebab_rest_head(s: Seq<char>, prev: char)
    requires
        find_word_start(s) < s.len(),
        spec_is_ascii_alpha(s[find_word_start(s)]),
    ensures
        find_word_start(kebab_rest(s, prev)) < kebab_rest(s, prev).len(),
        kebab_rest(s, prev)[find_word_start(kebab_rest(s, prev))] == spec_lower_char(
            s[find_word_start(s)],
        ),
        forall|i: int|
            0 <= i < find_word_start(kebab_rest(s, prev)) ==> #[trigger] kebab_rest(s, prev)[i]
                == '-',
    decreases s.len(),
{
    let j = find_word_start(s);
    let t = kebab_rest(s, prev);
    lemma_find_word_start_bounds(s);
    if j == 0 {
        let c = s[0];
        if spec_is_ascii_upper(c) && !spec_is_sep_source(prev) {
            assert(t[0] == '-');
            assert(t[1] == spec_lower_char(c));
            assert(!spec_is_name_sep(spec_lower_char(c)));
            assert(t.drop_first() =~= seq![spec_lower_char(c)] + kebab_rest(s.drop_first(), c));
            assert(t.drop_first()[0] == spec_lower_char(c));
            assert(find_word_start(t.drop_first()) == 0);
            assert(find_word_start(t) == 1);
        } else {
            assert(t[0] == spec_lower_char(c));
            assert(!spec_is_name_sep(spec_lower_char(c)));
            assert(find_word_start(t) == 0);
        }
    } else {
        let s1 = s.drop_first();
        lemma_find_word_start_bounds(s1);
        assert(find_word_start(s1) == j - 1);
        assert(s1[j - 1] == s[j]);
        lemma_kebab_rest_head(s1, s[0]);
        lemma_find_word_start_bounds(kebab_rest(s1, s[0]));
        assert(kebab_unit(prev, s[0]) =~= seq!['-']);
        assert(t =~= seq!['-'] + kebab_rest(s1, s[0]));
        assert(t.drop_first() =~= kebab_rest(s1, s[0]));
        assert(find_word_start(t) == 1 + find_word_start(kebab_rest(s1, s[0])));
        assert(t[find_word_start(t)] == kebab_rest(s1, s[0])[find_word_start(
            kebab_rest(s1, s[0]),
        )]);
        assert forall|i: int| 0 <= i < find_word_start(t) implies #[trigger] t[i] == '-' by {
            if i > 0 {
                assert(t[i] == kebab_rest(s1, s[0])[i - 1]);
            }
        }
    }
}

proof fn lemma_kebab_head(s: Seq<char>)
    requires
        find_word_start(s) < s.len(),
        spec_is_ascii_alpha(s[find_word_start(s)]),
    ensures
        find_word_start(kebab_of(s)) < kebab_of(s).len(),
        kebab_of(s)[find_word_start(kebab_of(s))] == spec_lower_char(s[find_word_start(s)]),
        forall|i: int|
            0 <= i < find_word_start(kebab_of(s)) ==> #[trigger] kebab_of(s)[i] == '-',
{
    let j = find_word_start(s);
    let t = kebab_of(s);
    lemma_find_word_start_bounds(s);
    if j == 0 {
        let c = s[0];
        assert(kebab_first_unit(c) =~= seq![spec_lower_char(c)]);
        assert(t[0] == spec_lower_char(c));
        assert(!spec_is_name_sep(spec_lower_char(c)));
        assert(find_word_start(t) == 0);
    } else {
        let s1 = s.drop_first();
        lemma_find_word_start_bounds(s1);
        assert(find_word_start(s1) == j - 1);
        assert(s1[j - 1] == s[j]);
        lemma_kebab_rest_head(s1, s[0]);
        lemma_find_word_start_bounds(kebab_rest(s1, s[0]));
        assert(kebab_first_unit(s[0]) =~= seq!['-']);
        assert(t =~= seq!['-'] + kebab_rest(s1, s[0]));
        assert(t.drop_first() =~= kebab_rest(s1, s[0]));
        assert(find_word_start(t) == 1 + find_word_start(kebab_rest(s1, s[0])));
        assert(t[find_word_start(t)] == kebab_rest(s1, s[0])[find_word_start(
            kebab_rest(s1, s[0]),
        )]);
        assert forall|i: int| 0 <= i < find_word_start(t) implies #[trigger] t[i] == '-' by {
            if i > 0 {
                assert(t[i] == kebab_rest(s1, s[0])[i - 1]);
            }
        }
    }
}

proof fn lemma_pascal_head(t: Seq<char>, k: int)
    requires
        0 <= k < t.len(),
        forall|i: int| 0 <= i < k ==> #[trigger] t[i] == '-',
        t[k] != '-',
    ensures
        pascal_of_kebab(t).len() > 0,
        pascal_of_kebab(t)[0] == spec_upper_char(t[k]),
    decreases k,
{
    if k == 0 {
        assert(pascal_of_kebab(t) == seq![spec_upper_char(t[0])] + pascal_rec(
            t.drop_first(),
            false,
            false,
        ));
    } else {
        assert(t[0] == '-');
        let t1 = t.drop_first();
        assert(forall|i: int| 0 <= i < k - 1 ==> #[trigger] t1[i] == t[i + 1]);
        lemma_pascal_head(t1, k - 1);
        assert(pascal_of_kebab(t) == pascal_of_kebab(t1));
    }
}

/// Law: whenever some character of `s` besides the name separators exists and
/// the first such character is an ASCII letter, the Pascal-case form of the
/// kebab-case form of `s` is nonempty and starts with an ASCII uppercase
/// letter.
pub proof fn lemma_pascal_of_kebab_starts_upper(s: Seq<char>)
    requires
        find_word_start(s) < s.len(),
        spec_is_ascii_alpha(s[find_word_start(s)]),
    ensures
        pascal_of_kebab(kebab_of(s)).len() > 0,
        spec_is_ascii_upper(pascal_of_kebab(kebab_of(s))[0]),
{
    lemma_kebab_head(s);
    let t = kebab_of(s);
    let k = find_word_start(t);
    lemma_find_word_start_bounds(t);
    lemma_pascal_head(t, k);
    assert(t[k] == spec_lower_char(s[find_word_start(s)]));
    assert(spec_is_ascii_lower(t[k]));
    assert(spec_is_ascii_upper(spec_upper_char(t[k])));
}

} // verus!
