//! Character-sequence utilities with exact specifications: substring search,
//! splitting, removal and single replacement, mirroring the behaviour of the
//! corresponding `str` methods.

use vstd::prelude::*;

verus! {

/// `pat` occurs in `s` starting at index `i`.
pub open spec fn occurs_at(s: Seq<char>, pat: Seq<char>, i: int) -> bool {
    0 <= i && i + pat.len() <= s.len() && s.subrange(i, i + pat.len()) == pat
}

/// `pat` occurs somewhere in `s` (the empty pattern occurs everywhere).
pub open spec fn contains_seq(s: Seq<char>, pat: Seq<char>) -> bool {
    exists|i: int| occurs_at(s, pat, i)
}

/// The first index at or after `i` where `pat` occurs in `s`.
pub open spec fn find_from(s: Seq<char>, pat: Seq<char>, i: int) -> Option<int>
    decreases s.len() + 1 - i,
{
    if i < 0 || i + pat.len() > s.len() {
        None
    } else if s.subrange(i, i + pat.len()) == pat {
        Some(i)
    } else {
        find_from(s, pat, i + 1)
    }
}

/// The pieces of `s` from index `pos` on, cut at each non-overlapping
/// occurrence of `pat`, left to right (as `str::split` with a string pattern).
pub open spec fn split_from(s: Seq<char>, pat: Seq<char>, pos: int) -> Seq<Seq<char>>
    decreases s.len() + 1 - pos,
{
    if pat.len() == 0 || pos < 0 || pos > s.len() {
        seq![s.subrange(pos, s.len() as int)]
    } else {
        match find_from(s, pat, pos) {
            None => seq![s.subrange(pos, s.len() as int)],
            Some(j) => {
                proof {
                    lemma_find_from(s, pat, pos);
                }
                seq![s.subrange(pos, j)] + split_from(s, pat, j + pat.len())
            },
        }
    }
}

/// `s` split at every occurrence of the non-empty `pat`.
pub open spec fn split_seq(s: Seq<char>, pat: Seq<char>) -> Seq<Seq<char>> {
    split_from(s, pat, 0)
}

/// `s` from index `pos` on, with every non-overlapping occurrence of `pat`
/// removed (as `str::replace(pat, "")`; the empty pattern removes nothing).
pub open spec fn remove_from(s: Seq<char>, pat: Seq<char>, pos: int) -> Seq<char>
    decreases s.len() + 1 - pos,
{
    if pat.len() == 0 || pos < 0 || pos > s.len() {
        s.subrange(pos, s.len() as int)
    } else {
        match find_from(s, pat, pos) {
            None => s.subrange(pos, s.len() as int),
            Some(j) => {
                proof {
                    lemma_find_from(s, pat, pos);
                }
                s.subrange(pos, j) + remove_from(s, pat, j + pat.len())
            },
        }
    }
}

/// `s` with every occurrence of `pat` removed.
pub open spec fn remove_all(s: Seq<char>, pat: Seq<char>) -> Seq<char> {
    remove_from(s, pat, 0)
}

/// `s` with its first occurrence of `c` replaced by `to` (as `str::replacen(c, to, 1)`).
pub open spec fn replace_first(s: Seq<char>, c: char, to: Seq<char>) -> Seq<char> {
    match find_from(s, seq![c], 0) {
        None => s,
        Some(i) => s.subrange(0, i) + to + s.subrange(i + 1, s.len() as int),
    }
}

/// The number of occurrences of the character `c` in `s`.
pub open spec fn count_char(s: Seq<char>, c: char) -> nat
    decreases s.len(),
{
    if s.len() == 0 {
        0
    } else {
        count_char(s.drop_last(), c) + (if s.last() == c {
            1nat
        } else {
            0nat
        })
    }
}

/// Occurrences add up over a concatenation.
pub proof fn lemma_count_add(a: Seq<char>, b: Seq<char>, c: char)
    ensures
        count_char(a + b, c) == count_char(a, c) + count_char(b, c),
    decreases b.len(),
{
    if b.len() == 0 {
        assert(a + b =~= a);
    } else {
        lemma_count_add(a, b.drop_last(), c);
        assert((a + b).drop_last() =~= a + b.drop_last());
        assert((a + b).last() == b.last());
    }
}

/// A character occurs nowhere exactly when its count is zero.
pub proof fn lemma_count_zero(s: Seq<char>, c: char)
    ensures
        count_char(s, c) == 0 <==> !s.contains(c),
    decreases s.len(),
{
    if s.len() > 0 {
        lemma_count_zero(s.drop_last(), c);
        if s.contains(c) {
            let i = choose|i: int| 0 <= i < s.len() && s[i] == c;
            if i < s.len() - 1 {
                assert(s.drop_last()[i] == c);
            }
        }
        if s.drop_last().contains(c) {
            let i = choose|i: int| 0 <= i < s.drop_last().len() && s.drop_last()[i] == c;
            assert(s[i] == c);
        }
        if s.last() == c {
            assert(s[s.len() - 1] == c);
        }
    }
}

/// Removing a pattern that does not hold `c` keeps every `c`.
pub proof fn lemma_count_remove(s: Seq<char>, pat: Seq<char>, pos: int, c: char)
    requires
        0 <= pos <= s.len(),
        !pat.contains(c),
    ensures
        count_char(remove_from(s, pat, pos), c) == count_char(s.subrange(pos, s.len() as int), c),
    decreases s.len() + 1 - pos,
{
    if pat.len() > 0 {
        lemma_find_from(s, pat, pos);
        match find_from(s, pat, pos) {
            None => {},
            Some(j) => {
                lemma_count_remove(s, pat, j + pat.len(), c);
                let before = s.subrange(pos, j);
                let after = s.subrange(j + pat.len(), s.len() as int);
                assert(s.subrange(pos, s.len() as int) =~= before + pat + after);
                lemma_count_add(before + pat, after, c);
                lemma_count_add(before, pat, c);
                lemma_count_zero(pat, c);
                lemma_count_add(before, remove_from(s, pat, j + pat.len()), c);
            },
        }
    }
}

/// Replacing the first `c` by a text without `c` removes one `c`, if any.
pub proof fn lemma_count_replace_first(u: Seq<char>, c: char, to: Seq<char>)
    requires
        !to.contains(c),
    ensures
        count_char(replace_first(u, c, to), c) == (if count_char(u, c) > 0 {
            (count_char(u, c) - 1) as nat
        } else {
            0nat
        }),
{
    lemma_find_from(u, seq![c], 0);
    lemma_count_zero(to, c);
    match find_from(u, seq![c], 0) {
        None => {
            assert forall|i: int| 0 <= i < u.len() implies u[i] != c by {
                if u[i] == c {
                    assert(u.subrange(i, i + 1) =~= seq![c]);
                    assert(occurs_at(u, seq![c], i));
                }
            }
            lemma_count_zero(u, c);
        },
        Some(i) => {
            let before = u.subrange(0, i);
            let after = u.subrange(i + 1, u.len() as int);
            assert(u.subrange(i, i + 1)[0] == u[i]);
            assert(u[i] == c);
            assert(u =~= before + seq![c] + after);
            lemma_count_add(before + seq![c], after, c);
            lemma_count_add(before, seq![c], c);
            assert(seq![c].drop_last() =~= Seq::<char>::empty());
            assert(seq![c].last() == c);
            assert(count_char(Seq::<char>::empty(), c) == 0);
            assert(count_char(seq![c], c) == 1);
            lemma_count_add(before + to, after, c);
            lemma_count_add(before, to, c);
        },
    }
}

/// The pieces of a text without `c` are without `c`; there is at least one.
pub proof fn lemma_pieces_lack(s: Seq<char>, pat: Seq<char>, pos: int, c: char)
    requires
        !s.contains(c),
        0 <= pos <= s.len(),
    ensures
        split_from(s, pat, pos).len() >= 1,
        forall|k: int| 0 <= k < split_from(s, pat, pos).len() ==> !(#[trigger] split_from(s, pat, pos)[k]).contains(c),
    decreases s.len() + 1 - pos,
{
    assert forall|a: int, b: int| 0 <= a <= b <= s.len() implies !(#[trigger] s.subrange(a, b)).contains(c) by {
        if s.subrange(a, b).contains(c) {
            let i = choose|i: int| 0 <= i < s.subrange(a, b).len() && s.subrange(a, b)[i] == c;
            assert(s[a + i] == c);
        }
    }
    if pat.len() > 0 {
        lemma_find_from(s, pat, pos);
        match find_from(s, pat, pos) {
            None => {},
            Some(j) => {
                lemma_pieces_lack(s, pat, j + pat.len(), c);
                let rest = split_from(s, pat, j + pat.len());
                assert forall|k: int| 0 <= k < split_from(s, pat, pos).len() implies !(#[trigger] split_from(s, pat, pos)[k]).contains(c) by {
                    if k > 0 {
                        assert(split_from(s, pat, pos)[k] == rest[k - 1]);
                    } else {
                        assert(split_from(s, pat, pos)[0] == s.subrange(pos, j));
                    }
                }
            },
        }
    }
}

/// The views of a sequence of character vectors.
pub open spec fn views(v: Seq<Vec<char>>) -> Seq<Seq<char>> {
    v.map_values(|x: Vec<char>| x@)
}

/// What `find_from` returns is the first occurrence at or after `i`.
pub proof fn lemma_find_from(s: Seq<char>, pat: Seq<char>, i: int)
    requires
        0 <= i,
    ensures
        match find_from(s, pat, i) {
            Some(j) => i <= j && occurs_at(s, pat, j) && forall|k: int|
                i <= k < j ==> !occurs_at(s, pat, k),
            None => forall|k: int| i <= k ==> !occurs_at(s, pat, k),
        },
    decreases s.len() + 1 - i,
{
    if i + pat.len() > s.len() {
    } else if s.subrange(i, i + pat.len()) == pat {
    } else {
        lemma_find_from(s, pat, i + 1);
    }
}

/// A pattern is contained exactly when a search from the start finds it.
pub proof fn lemma_contains_find(s: Seq<char>, pat: Seq<char>)
    ensures
        contains_seq(s, pat) <==> find_from(s, pat, 0) is Some,
{
    lemma_find_from(s, pat, 0);
    if let Some(j) = find_from(s, pat, 0) {
        assert(occurs_at(s, pat, j));
    }
}

/// Appends a character to a string.
#[verifier::external_body]
fn push_char(s: &mut String, c: char)
    ensures
        final(s)@ == old(s)@.push(c),
{
    s.push(c);
}

/// Converts a string slice into its characters.
pub fn chars_of(s: &str) -> (v: Vec<char>)
    ensures
        v@ == s@,
{
    let mut v: Vec<char> = Vec::new();
    for c in it: s.chars()
        invariant
            it.seq() == s@,
            v@ == it.seq().take(it.index() as int),
    {
        v.push(c);
    }
    v
}

/// Builds a string from characters.
pub fn string_of(v: &Vec<char>) -> (s: String)
    ensures
        s@ == v@,
{
    let mut s = String::new();
    let mut i: usize = 0;
    while i < v.len()
        invariant
            i <= v.len(),
            s@ == v@.take(i as int),
        decreases v.len() - i,
    {
        push_char(&mut s, v[i]);
        i = i + 1;
        assert(s@ =~= v@.take(i as int));
    }
    assert(v@.take(i as int) =~= v@);
    s
}

/// Copies the characters of `s` in `[from, to)`.
pub fn sub_chars(s: &Vec<char>, from: usize, to: usize) -> (r: Vec<char>)
    requires
        from <= to <= s.len(),
    ensures
        r@ == s@.subrange(from as int, to as int),
{
    let mut r: Vec<char> = Vec::new();
    let mut i = from;
    while i < to
        invariant
            from <= i <= to <= s.len(),
            r@ == s@.subrange(from as int, i as int),
        decreases to - i,
    {
        r.push(s[i]);
        i = i + 1;
        assert(r@ =~= s@.subrange(from as int, i as int));
    }
    r
}

/// Appends the characters of `b` to `a`.
pub fn append_chars(a: &mut Vec<char>, b: &Vec<char>)
    ensures
        final(a)@ == old(a)@ + b@,
{
    let mut i: usize = 0;
    while i < b.len()
        invariant
            i <= b.len(),
            a@ == old(a)@ + b@.take(i as int),
        decreases b.len() - i,
    {
        a.push(b[i]);
        i = i + 1;
        assert(a@ =~= old(a)@ + b@.take(i as int));
    }
    assert(b@.take(i as int) =~= b@);
}

/// Whether `pat` occurs in `s` at index `i`.
fn matches_at(s: &Vec<char>, pat: &Vec<char>, i: usize) -> (r: bool)
    requires
        i <= s.len(),
        pat.len() <= s.len() - i,
    ensures
        r == (s@.subrange(i as int, i + pat.len()) == pat@),
{
    let mut k: usize = 0;
    while k < pat.len()
        invariant
            k <= pat.len(),
            i <= s.len(),
            pat.len() <= s.len() - i,
            forall|j: int| 0 <= j < k ==> s@[i + j] == pat@[j],
        decreases pat.len() - k,
    {
        if s[i + k] != pat[k] {
            assert(s@.subrange(i as int, i + pat.len())[k as int] != pat@[k as int]);
            return false;
        }
        k = k + 1;
    }
    assert(s@.subrange(i as int, i + pat.len()) =~= pat@);
    true
}

/// The first occurrence of `pat` in `s` at or after `start`.
pub fn find_from_exec(s: &Vec<char>, pat: &Vec<char>, start: usize) -> (r: Option<usize>)
    requires
        start <= s.len(),
    ensures
        match r {
            Some(j) => find_from(s@, pat@, start as int) == Some(j as int),
            None => find_from(s@, pat@, start as int) is None,
        },
{
    let mut i = start;
    while pat.len() <= s.len() - i
        invariant
            start <= i <= s.len(),
            find_from(s@, pat@, start as int) == find_from(s@, pat@, i as int),
        decreases s.len() - i,
    {
        if matches_at(s, pat, i) {
            return Some(i);
        }
        if pat.len() == 0 {
            assert(s@.subrange(i as int, i as int) =~= pat@);
        }
        i = i + 1;
    }
    None
}

/// Whether `pat` occurs in `s`.
pub fn contains_chars(s: &Vec<char>, pat: &Vec<char>) -> (r: bool)
    ensures
        r == contains_seq(s@, pat@),
{
    proof {
        lemma_contains_find(s@, pat@);
    }
    find_from_exec(s, pat, 0).is_some()
}

/// Splits `s` at every occurrence of the non-empty `pat`.
pub fn split_chars(s: &Vec<char>, pat: &Vec<char>) -> (r: Vec<Vec<char>>)
    requires
        pat.len() > 0,
    ensures
        views(r@) == split_seq(s@, pat@),
        r.len() >= 1,
{
    let mut out: Vec<Vec<char>> = Vec::new();
    let mut pos: usize = 0;
    loop
        invariant
            pos <= s.len(),
            pat.len() > 0,
            views(out@) + split_from(s@, pat@, pos as int) == split_seq(s@, pat@),
        decreases s.len() + 1 - pos,
    {
        let ghost before = out@;
        match find_from_exec(s, pat, pos) {
            None => {
                let piece = sub_chars(s, pos, s.len());
                out.push(piece);
                assert(views(out@) =~= views(before) + split_from(s@, pat@, pos as int));
                return out;
            },
            Some(j) => {
                proof {
                    lemma_find_from(s@, pat@, pos as int);
                }
                let piece = sub_chars(s, pos, j);
                out.push(piece);
                let ghost rest = split_from(s@, pat@, (j + pat.len()) as int);
                assert(views(out@) =~= views(before).push(piece@));
                assert(views(before) + split_from(s@, pat@, pos as int) =~= views(out@) + rest);
                pos = j + pat.len();
            },
        }
    }
}

/// `s` with every occurrence of `pat` removed.
pub fn remove_all_chars(s: &Vec<char>, pat: &Vec<char>) -> (r: Vec<char>)
    ensures
        r@ == remove_all(s@, pat@),
{
    if pat.len() == 0 {
        let r = sub_chars(s, 0, s.len());
        assert(r@ =~= s@.subrange(0, s@.len() as int));
        return r;
    }
    let mut out: Vec<char> = Vec::new();
    let mut pos: usize = 0;
    loop
        invariant
            pos <= s.len(),
            pat.len() > 0,
            out@ + remove_from(s@, pat@, pos as int) == remove_all(s@, pat@),
        decreases s.len() + 1 - pos,
    {
        let ghost before = out@;
        match find_from_exec(s, pat, pos) {
            None => {
                let piece = sub_chars(s, pos, s.len());
                append_chars(&mut out, &piece);
                return out;
            },
            Some(j) => {
                proof {
                    lemma_find_from(s@, pat@, pos as int);
                }
                let piece = sub_chars(s, pos, j);
                append_chars(&mut out, &piece);
                let ghost rest = remove_from(s@, pat@, (j + pat.len()) as int);
                assert(before + remove_from(s@, pat@, pos as int) =~= out@ + rest);
                pos = j + pat.len();
            },
        }
    }
}

/// `s` with the first occurrence of `c` replaced by `to`.
pub fn replace_first_chars(s: &Vec<char>, c: char, to: &Vec<char>) -> (r: Vec<char>)
    ensures
        r@ == replace_first(s@, c, to@),
{
    let mut pat: Vec<char> = Vec::new();
    pat.push(c);
    assert(pat@ =~= seq![c]);
    match find_from_exec(s, &pat, 0) {
        None => sub_chars_all(s),
        Some(i) => {
            proof {
                lemma_find_from(s@, pat@, 0);
            }
            let mut r = sub_chars(s, 0, i);
            append_chars(&mut r, to);
            let tail = sub_chars(s, i + 1, s.len());
            append_chars(&mut r, &tail);
            r
        },
    }
}

/// A copy of `s`.
pub fn sub_chars_all(s: &Vec<char>) -> (r: Vec<char>)
    ensures
        r@ == s@,
{
    let r = sub_chars(s, 0, s.len());
    assert(r@ =~= s@);
    r
}

/// The decimal digit for `d < 10`.
pub open spec fn digit_char(d: nat) -> char {
    if d == 0 { '0' } else if d == 1 { '1' } else if d == 2 { '2' } else if d == 3 { '3' }
    else if d == 4 { '4' } else if d == 5 { '5' } else if d == 6 { '6' } else if d == 7 { '7' }
    else if d == 8 { '8' } else { '9' }
}

/// The decimal representation of `n`, without leading zeros.
pub open spec fn decimal(n: nat) -> Seq<char>
    decreases n,
{
    if n < 10 {
        seq![digit_char(n)]
    } else {
        decimal(n / 10).push(digit_char(n % 10))
    }
}

/// The decimal representation of a signed integer, with a leading `-` when negative.
pub open spec fn signed_decimal(n: int) -> Seq<char> {
    if n < 0 {
        seq!['-'] + decimal((-n) as nat)
    } else {
        decimal(n as nat)
    }
}

fn digit_exec(d: u64) -> (c: char)
    requires
        d < 10,
    ensures
        c == digit_char(d as nat),
{
    if d == 0 { '0' } else if d == 1 { '1' } else if d == 2 { '2' } else if d == 3 { '3' }
    else if d == 4 { '4' } else if d == 5 { '5' } else if d == 6 { '6' } else if d == 7 { '7' }
    else if d == 8 { '8' } else { '9' }
}

/// Appends the decimal representation of `n` to `out`.
pub fn push_decimal(out: &mut Vec<char>, n: u64)
    ensures
        final(out)@ == old(out)@ + decimal(n as nat),
    decreases n,
{
    if n < 10 {
        out.push(digit_exec(n));
        assert(final(out)@ =~= old(out)@ + decimal(n as nat));
    } else {
        push_decimal(out, n / 10);
        out.push(digit_exec(n % 10));
        assert(decimal(n as nat) == decimal((n / 10) as nat).push(digit_char((n % 10) as nat)));
        assert(final(out)@ =~= old(out)@ + decimal(n as nat));
    }
}

/// Appends the decimal representation of a signed integer to `out`.
pub fn push_signed_decimal(out: &mut Vec<char>, n: i64)
    ensures
        final(out)@ == old(out)@ + signed_decimal(n as int),
{
    if n < 0 {
        out.push('-');
        let magnitude: u64 = if n == i64::MIN {
            9223372036854775808u64
        } else {
            (-n) as u64
        };
        push_decimal(out, magnitude);
        assert(final(out)@ =~= old(out)@ + signed_decimal(n as int));
    } else {
        push_decimal(out, n as u64);
    }
}

/// Whether two character vectors are equal.
pub fn chars_eq(a: &Vec<char>, b: &Vec<char>) -> (r: bool)
    ensures
        r == (a@ == b@),
{
    if a.len() != b.len() {
        return false;
    }
    let mut i: usize = 0;
    while i < a.len()
        invariant
            i <= a.len(),
            a.len() == b.len(),
            forall|j: int| 0 <= j < i ==> a@[j] == b@[j],
        decreases a.len() - i,
    {
        if a[i] != b[i] {
            return false;
        }
        i = i + 1;
    }
    assert(a@ =~= b@);
    true
}

/// Whether two string slices hold the same characters.
pub fn str_eq(a: &str, b: &str) -> (r: bool)
    ensures
        r == (a@ == b@),
{
    let x = chars_of(a);
    let y = chars_of(b);
    chars_eq(&x, &y)
}

/// Appends the characters of a string slice to `out`.
pub fn push_str_chars(out: &mut Vec<char>, s: &str)
    ensures
        final(out)@ == old(out)@ + s@,
{
    let v = chars_of(s);
    append_chars(out, &v);
}

/// The elements of a one-longer prefix are those of the prefix and the new element.
pub proof fn lemma_take_to_set<A>(s: Seq<A>, i: int)
    requires
        0 <= i < s.len(),
    ensures
        s.take(i + 1).to_set() == s.take(i).to_set().insert(s[i]),
{
    assert forall|x: A| s.take(i + 1).contains(x) <==> (s.take(i).contains(x) || x == s[i]) by {
        if s.take(i + 1).contains(x) {
            let w = choose|w: int| 0 <= w < i + 1 && #[trigger] s.take(i + 1)[w] == x;
            if w < i {
                assert(s.take(i)[w] == x);
            }
        }
        if s.take(i).contains(x) {
            let w = choose|w: int| 0 <= w < i && #[trigger] s.take(i)[w] == x;
            assert(s.take(i + 1)[w] == x);
        }
        if x == s[i] {
            assert(s.take(i + 1)[i] == x);
        }
    }
    assert forall|x: A| #[trigger] s.take(i + 1).to_set().contains(x) == s.take(i).to_set().insert(s[i]).contains(x) by {
        assert(s.take(i + 1).to_set().contains(x) == s.take(i + 1).contains(x));
        assert(s.take(i).to_set().contains(x) == s.take(i).contains(x));
    }
    assert(s.take(i + 1).to_set() =~= s.take(i).to_set().insert(s[i]));
}

/// Whether `c` is white space in the sense of Unicode's `White_Space`
/// property (as `char::is_whitespace`).
pub open spec fn is_white(c: char) -> bool {
    let u = c as u32;
    (0x9 <= u && u <= 0xD) || u == 0x20 || u == 0x85 || u == 0xA0 || u == 0x1680
        || (0x2000 <= u && u <= 0x200A) || u == 0x2028 || u == 0x2029 || u == 0x202F
        || u == 0x205F || u == 0x3000
}

/// The words finished within the first `n` characters of `s`, and the word
/// being read after them.
pub open spec fn words_prefix(s: Seq<char>, n: nat) -> (Seq<Seq<char>>, Seq<char>)
    decreases n,
{
    if n == 0 {
        (seq![], seq![])
    } else {
        let (done, cur) = words_prefix(s, (n - 1) as nat);
        let c = s[n - 1];
        if is_white(c) {
            if cur.len() == 0 {
                (done, cur)
            } else {
                (done.push(cur), seq![])
            }
        } else {
            (done, cur.push(c))
        }
    }
}

/// The maximal runs of non-white characters of `s`, in order (as
/// `str::split_whitespace`).
pub open spec fn words(s: Seq<char>) -> Seq<Seq<char>> {
    let (done, cur) = words_prefix(s, s.len());
    if cur.len() == 0 {
        done
    } else {
        done.push(cur)
    }
}

/// Whether `c` is white space.
pub fn is_white_exec(c: char) -> (r: bool)
    ensures
        r == is_white(c),
{
    let u = c as u32;
    (0x9 <= u && u <= 0xD) || u == 0x20 || u == 0x85 || u == 0xA0 || u == 0x1680
        || (0x2000 <= u && u <= 0x200A) || u == 0x2028 || u == 0x2029 || u == 0x202F
        || u == 0x205F || u == 0x3000
}

/// The words of `s`, separated by white space.
pub fn words_of(s: &str) -> (r: Vec<String>)
    ensures
        r@.map_values(|w: String| w@) == words(s@),
{
    let c = chars_of(s);
    let mut done: Vec<String> = Vec::new();
    let mut cur: Vec<char> = Vec::new();
    let mut i: usize = 0;
    while i < c.len()
        invariant
            i <= c.len(),
            c@ == s@,
            (done@.map_values(|w: String| w@), cur@) == words_prefix(s@, i as nat),
        decreases c.len() - i,
    {
        let ghost before = done@.map_values(|w: String| w@);
        if is_white_exec(c[i]) {
            if cur.len() != 0 {
                let w = string_of(&cur);
                done.push(w);
                cur = Vec::new();
                assert(done@.map_values(|w: String| w@) =~= before.push(w@));
            }
        } else {
            cur.push(c[i]);
        }
        i = i + 1;
    }
    if cur.len() != 0 {
        let ghost before = done@.map_values(|w: String| w@);
        let w = string_of(&cur);
        done.push(w);
        assert(done@.map_values(|w: String| w@) =~= before.push(w@));
    }
    done
}

/// The value of a string of decimal digits.
pub open spec fn digits_value(s: Seq<char>) -> int
    decreases s.len(),
{
    if s.len() == 0 {
        0
    } else {
        digits_value(s.drop_last()) * 10 + (s.last() as u32 - '0' as u32)
    }
}

/// Every character of `s` is a decimal digit.
pub open spec fn all_digits(s: Seq<char>) -> bool {
    forall|i: int| 0 <= i < s.len() ==> '0' <= #[trigger] s[i] && s[i] <= '9'
}

/// What `u64::from_str` gives: an optional `+` followed by at least one
/// digit, of a value that fits.
pub open spec fn spec_parse_u64(s: Seq<char>) -> Option<u64> {
    let body = if s.len() > 0 && s[0] == '+' { s.drop_first() } else { s };
    if body.len() > 0 && all_digits(body) && digits_value(body) <= u64::MAX {
        Some(digits_value(body) as u64)
    } else {
        None
    }
}

proof fn lemma_digits_value_nonneg(s: Seq<char>)
    requires
        all_digits(s),
    ensures
        digits_value(s) >= 0,
    decreases s.len(),
{
    if s.len() > 0 {
        assert(all_digits(s.drop_last()));
        lemma_digits_value_nonneg(s.drop_last());
    }
}

/// Parses an unsigned decimal number as `u64::from_str` does.
pub fn parse_u64(s: &str) -> (r: Option<u64>)
    ensures
        r == spec_parse_u64(s@),
{
    let c = chars_of(s);
    let start: usize = if c.len() > 0 && c[0] == '+' { 1 } else { 0 };
    let ghost body = if s@.len() > 0 && s@[0] == '+' { s@.drop_first() } else { s@ };
    assert(body =~= c@.subrange(start as int, c@.len() as int));
    if start >= c.len() {
        return None;
    }
    let mut value: u64 = 0;
    let mut i = start;
    while i < c.len()
        invariant
            start <= i <= c.len(),
            start < c.len(),
            body == c@.subrange(start as int, c@.len() as int),
            body == (if s@.len() > 0 && s@[0] == '+' { s@.drop_first() } else { s@ }),
            c@ == s@,
            all_digits(c@.subrange(start as int, i as int)),
            value == digits_value(c@.subrange(start as int, i as int)),
        decreases c.len() - i,
    {
        let ch = c[i];
        assert(c@.subrange(start as int, i + 1).drop_last() =~= c@.subrange(start as int, i as int));
        if ch < '0' || ch > '9' {
            assert(!all_digits(body)) by {
                assert(body[i - start] == ch);
            }
            return None;
        }
        let d = (ch as u32 - '0' as u32) as u64;
        if value > (u64::MAX - d) / 10 {
            proof {
                assert(digits_value(c@.subrange(start as int, i + 1)) == value * 10 + d);
                assert(value * 10 + d > u64::MAX) by (nonlinear_arith)
                    requires value > (u64::MAX - d) / 10, d <= 9;
                let rest = c@.subrange(i + 1, c@.len() as int);
                assert(c@.subrange(start as int, i + 1) + rest =~= body);
                if all_digits(body) {
                    lemma_digits_grow(c@.subrange(start as int, i + 1), rest);
                }
            }
            return None;
        }
        value = value * 10 + d;
        i = i + 1;
    }
    assert(c@.subrange(start as int, i as int) =~= body);
    Some(value)
}

/// The decimal form of a number is all digits, and its value is the number.
pub proof fn lemma_decimal_digits(n: nat)
    ensures
        decimal(n).len() > 0,
        all_digits(decimal(n)),
        digits_value(decimal(n)) == n,
    decreases n,
{
    let d = (n % 10) as nat;
    assert(digit_char(d) as u32 - '0' as u32 == d && '0' <= digit_char(d) <= '9') by {
        assert(d < 10);
    }
    if n >= 10 {
        lemma_decimal_digits(n / 10);
        let s = decimal(n);
        assert(s.drop_last() =~= decimal(n / 10));
        assert(s.last() == digit_char(d));
        assert forall|i: int| 0 <= i < s.len() implies '0' <= #[trigger] s[i] && s[i] <= '9' by {
            if i < s.len() - 1 {
                assert(s[i] == decimal(n / 10)[i]);
            }
        }
        assert(digits_value(s) == (n / 10) * 10 + d);
        assert((n / 10) * 10 + n % 10 == n) by (nonlinear_arith);
    } else {
        let s = decimal(n);
        assert(s.drop_last() =~= Seq::<char>::empty());
        assert(s[0] == digit_char(d));
        assert(digits_value(s) == digits_value(s.drop_last()) * 10 + (s.last() as u32 - '0' as u32));
        assert(digits_value(s.drop_last()) == 0);
    }
}

/// Reading back the decimal form of any `u64` gives the number.
pub proof fn law_parse_decimal(n: u64)
    ensures
        spec_parse_u64(decimal(n as nat)) == Some(n),
{
    lemma_decimal_digits(n as nat);
    let s = decimal(n as nat);
    assert('0' <= s[0] <= '9');
}

/// Appending digits never makes the value smaller.
proof fn lemma_digits_grow(a: Seq<char>, b: Seq<char>)
    requires
        all_digits(a + b),
    ensures
        digits_value(a + b) >= digits_value(a),
    decreases b.len(),
{
    if b.len() == 0 {
        assert(a + b =~= a);
    } else {
        assert((a + b).drop_last() =~= a + b.drop_last());
        assert(all_digits(a + b.drop_last()));
        lemma_digits_grow(a, b.drop_last());
        lemma_digits_value_nonneg(a + b.drop_last());
        assert((a + b).last() == b.last());
        assert('0' <= (a + b)[(a + b).len() - 1] <= '9');
        let x = digits_value(a + b.drop_last());
        assert(digits_value(a + b) == x * 10 + ((a + b).last() as u32 - '0' as u32));
        assert(digits_value(a + b) >= x * 10);
    }
}

} // verus!
