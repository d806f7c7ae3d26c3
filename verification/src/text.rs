//! Character-level string helpers, each stated over the `Seq<char>` view of its strings.
use vstd::prelude::*;

verus! {

/// The views of a sequence of strings.
pub open spec fn views(v: Seq<String>) -> Seq<Seq<char>> {
    v.map_values(|x: String| x@)
}

/// `pat` occurs in `s` starting at index `i`.
pub open spec fn matches_at(s: Seq<char>, pat: Seq<char>, i: int) -> bool {
    0 <= i && i + pat.len() <= s.len() && s.subrange(i, i + pat.len()) == pat
}

/// `pat` occurs somewhere in `s` (the empty pattern occurs in every string).
pub open spec fn contains_spec(s: Seq<char>, pat: Seq<char>) -> bool {
    exists|i: int| matches_at(s, pat, i)
}

/// `s` with every occurrence of the non-empty `pat` removed, scanning from the left
/// and never letting two removed occurrences overlap.
pub open spec fn remove_all_spec(s: Seq<char>, pat: Seq<char>) -> Seq<char>
    decreases s.len(),
{
    if s.len() == 0 || pat.len() == 0 {
        s
    } else if matches_at(s, pat, 0) {
        remove_all_spec(s.skip(pat.len() as int), pat)
    } else {
        seq![s[0]] + remove_all_spec(s.skip(1), pat)
    }
}

/// The pieces of `s` between the occurrences of `c`: one more piece than there are `c`s.
pub open spec fn split_spec(s: Seq<char>, c: char) -> Seq<Seq<char>>
    decreases s.len(),
{
    if s.len() == 0 {
        seq![Seq::<char>::empty()]
    } else {
        let r = split_spec(s.drop_last(), c);
        if s.last() == c {
            r.push(Seq::<char>::empty())
        } else {
            r.update(r.len() - 1, r.last().push(s.last()))
        }
    }
}

/// `c` with ASCII upper-case letters mapped to lower case.
pub open spec fn ascii_lower(c: char) -> char {
    if 'A' <= c && c <= 'Z' {
        ((c as u32) + 32) as char
    } else {
        c
    }
}

/// `a` and `b` are equal once ASCII letters are folded to lower case.
pub open spec fn eq_ignore_ascii_case_spec(a: Seq<char>, b: Seq<char>) -> bool {
    a.len() == b.len() && forall|i: int| 0 <= i < a.len() ==> ascii_lower(#[trigger] a[i]) == ascii_lower(b[i])
}

pub proof fn lemma_split_nonempty(s: Seq<char>, c: char)
    ensures
        split_spec(s, c).len() >= 1,
    decreases s.len(),
{
    if s.len() > 0 {
        lemma_split_nonempty(s.drop_last(), c);
    }
}

/// Splitting after one more separator gives one more, empty, piece.
pub proof fn lemma_split_sep(a: Seq<char>, c: char)
    ensures
        split_spec(a.push(c), c) == split_spec(a, c).push(Seq::<char>::empty()),
{
    assert(a.push(c).drop_last() =~= a);
}

/// Text without the separator extends the last piece.
pub proof fn lemma_split_plain(a: Seq<char>, b: Seq<char>, c: char)
    requires
        !b.contains(c),
    ensures
        split_spec(a + b, c).len() == split_spec(a, c).len(),
        split_spec(a + b, c) == split_spec(a, c).update(
            split_spec(a, c).len() - 1,
            split_spec(a, c).last() + b,
        ),
    decreases b.len(),
{
    lemma_split_nonempty(a, c);
    let ra = split_spec(a, c);
    if b.len() == 0 {
        assert(a + b =~= a);
        assert(ra.last() + b =~= ra.last());
        assert(ra.update(ra.len() - 1, ra.last() + b) =~= ra);
    } else {
        let b0 = b.drop_last();
        assert(!b0.contains(c)) by {
            if b0.contains(c) {
                let i = choose|i: int| 0 <= i < b0.len() && b0[i] == c;
                assert(b[i] == c);
            }
        }
        lemma_split_plain(a, b0, c);
        assert((a + b).drop_last() =~= a + b0);
        assert((a + b).last() == b.last());
        assert(b.last() != c) by {
            assert(b[b.len() - 1] == b.last());
        }
        lemma_split_nonempty(a + b0, c);
        let r = split_spec(a + b0, c);
        assert(r.last() == ra.last() + b0);
        assert(r.last().push(b.last()) =~= ra.last() + b);
        assert(split_spec(a + b, c) =~= ra.update(ra.len() - 1, ra.last() + b));
    }
}

/// Text without the separator is a single piece.
pub proof fn lemma_split_no_sep(a: Seq<char>, c: char)
    requires
        !a.contains(c),
    ensures
        split_spec(a, c) == seq![a],
{
    let e = Seq::<char>::empty();
    lemma_split_plain(e, a, c);
    assert(e + a =~= a);
    assert(split_spec(e, c) =~= seq![e]);
    assert(seq![e].update(0, e + a) =~= seq![a]);
}

/// Two separator-free texts joined by one separator split into those two pieces.
pub proof fn lemma_split_two(a: Seq<char>, b: Seq<char>, c: char)
    requires
        !a.contains(c),
        !b.contains(c),
    ensures
        split_spec(a.push(c) + b, c) == seq![a, b],
{
    lemma_split_plain(a.push(c), b, c);
    lemma_split_sep(a, c);
    lemma_split_no_sep(a, c);
    assert(split_spec(a.push(c), c) =~= seq![a, Seq::<char>::empty()]);
    assert(Seq::<char>::empty() + b =~= b);
    assert(seq![a, Seq::<char>::empty()].update(1, Seq::<char>::empty() + b) =~= seq![a, b]);
}

/// No piece holds the separator, nor any character that the text does not hold.
pub proof fn lemma_split_pieces_avoid(s: Seq<char>, c: char, x: char)
    requires
        !s.contains(x) || x == c,
    ensures
        forall|i: int| 0 <= i < split_spec(s, c).len() ==> !(#[trigger] split_spec(s, c)[i]).contains(x),
    decreases s.len(),
{
    if s.len() > 0 {
        let s0 = s.drop_last();
        assert(!s0.contains(x) || x == c) by {
            if s0.contains(x) && x != c {
                let i = choose|i: int| 0 <= i < s0.len() && s0[i] == x;
                assert(s[i] == x);
            }
        }
        lemma_split_pieces_avoid(s0, c, x);
        lemma_split_nonempty(s0, c);
        let r = split_spec(s0, c);
        if s.last() != c {
            assert(s.last() != x) by {
                assert(s[s.len() - 1] == s.last());
            }
            let p = r.last().push(s.last());
            assert(!p.contains(x)) by {
                if p.contains(x) {
                    let i = choose|i: int| 0 <= i < p.len() && p[i] == x;
                    if i < r.last().len() {
                        assert(r[r.len() - 1][i] == x);
                    }
                }
            }
        }
    }
}

/// The decimal digit for `d` (below 10).
pub open spec fn digit_char(d: int) -> char {
    (0x30 + d) as char
}

/// The decimal digits of `n`, without leading zeros.
pub open spec fn digits(n: nat) -> Seq<char>
    decreases n,
{
    if n < 10 {
        seq![digit_char(n as int)]
    } else {
        digits(n / 10).push(digit_char((n % 10) as int))
    }
}

/// `n` written in decimal, with a leading `-` when it is negative.
pub open spec fn decimal(n: int) -> Seq<char> {
    if n < 0 {
        seq!['-'] + digits((-n) as nat)
    } else {
        digits(n as nat)
    }
}

/// Appends the decimal digits of `n` to `s`.
fn push_digits(s: &mut String, n: u64)
    ensures
        final(s)@ == old(s)@ + digits(n as nat),
    decreases n,
{
    if n >= 10 {
        push_digits(s, n / 10);
    }
    let d: u32 = (n % 10) as u32;
    push_char(s, char_from_ascii(0x30 + d));
    proof {
        if n >= 10 {
            assert(old(s)@ + digits((n / 10) as nat).push(digit_char(d as int)) =~= (old(s)@ + digits(
                (n / 10) as nat,
            )).push(digit_char(d as int)));
        } else {
            assert(old(s)@ + seq![digit_char(d as int)] =~= old(s)@.push(digit_char(d as int)));
        }
    }
}

/// `n` written in decimal.
pub(crate) fn decimal_string(n: i64) -> (res: String)
    ensures
        res@ == decimal(n as int),
{
    let mut s = String::new();
    if n < 0 {
        push_char(&mut s, '-');
        let m: u64 = ((-(n + 1)) as u64) + 1;
        assert(m as int == -(n as int));
        push_digits(&mut s, m);
    } else {
        push_digits(&mut s, n as u64);
        assert(s@ =~= digits(n as nat));
    }
    s
}

/// Appends `c` to `s`.
/// Calls `String::push`, which std documents as appending the given char to the end of the string.
#[verifier::external_body]
fn push_char(s: &mut String, c: char)
    ensures
        final(s)@ == old(s)@.push(c),
{
    s.push(c);
}

/// The characters of `s`, in order.
pub fn to_chars(s: &str) -> (res: Vec<char>)
    ensures
        res@ == s@,
{
    let mut res: Vec<char> = Vec::new();
    for c in it: s.chars()
        invariant
            res@ == it.seq().take(it.index() as int),
    {
        res.push(c);
    }
    res
}

/// The string made of the characters `cs`, in order.
pub fn from_chars(cs: &[char]) -> (res: String)
    ensures
        res@ == cs@,
{
    let mut res = String::new();
    for i in 0..cs.len()
        invariant
            res@ == cs@.take(i as int),
    {
        push_char(&mut res, cs[i]);
        assert(cs@.take(i + 1) == cs@.take(i as int).push(cs@[i as int]));
    }
    assert(cs@.take(cs@.len() as int) == cs@);
    res
}

/// The concatenation of `a` and `b`.
pub fn concat(a: &str, b: &str) -> (res: String)
    ensures
        res@ == a@ + b@,
{
    let mut res = String::new();
    res.append(a);
    res.append(b);
    res
}

/// A copy of `s`.
pub fn copy_str(s: &str) -> (res: String)
    ensures
        res@ == s@,
{
    let mut res = String::new();
    res.append(s);
    res
}

/// Whether `pat` occurs in `s` starting at index `i`.
pub fn matches_at_exec(s: &Vec<char>, pat: &Vec<char>, i: usize) -> (res: bool)
    ensures
        res == matches_at(s@, pat@, i as int),
{
    if i > s.len() || pat.len() > s.len() - i {
        return false;
    }
    let mut j: usize = 0;
    while j < pat.len()
        invariant
            i + pat.len() <= s.len(),
            j <= pat.len(),
            forall|k: int| 0 <= k < j ==> s@[i + k] == pat@[k],
        decreases pat.len() - j,
    {
        if s[i + j] != pat[j] {
            assert(s@.subrange(i as int, i + pat.len())[j as int] != pat@[j as int]);
            return false;
        }
        j = j + 1;
    }
    assert(s@.subrange(i as int, i + pat.len()) =~= pat@);
    true
}

/// `i` is where `pat` first occurs in `s`.
pub open spec fn is_first_match(s: Seq<char>, pat: Seq<char>, i: int) -> bool {
    matches_at(s, pat, i) && forall|j: int| 0 <= j < i ==> !matches_at(s, pat, j)
}

/// Where `pat` first occurs in `s` (meaningful where it occurs).
pub open spec fn first_match(s: Seq<char>, pat: Seq<char>) -> int {
    choose|i: int| is_first_match(s, pat, i)
}

pub proof fn lemma_first_match_unique(s: Seq<char>, pat: Seq<char>, i: int)
    requires
        is_first_match(s, pat, i),
    ensures
        first_match(s, pat) == i,
        is_first_match(s, pat, first_match(s, pat)),
{
    let k = first_match(s, pat);
    assert(is_first_match(s, pat, k));
    if k < i {
        assert(!matches_at(s, pat, k));
    } else if i < k {
        assert(!matches_at(s, pat, i));
    }
}

/// Where `pat` first occurs in the characters `s`.
pub fn find(s: &Vec<char>, pat: &Vec<char>) -> (res: Option<usize>)
    ensures
        match res {
            Some(i) => is_first_match(s@, pat@, i as int),
            None => !contains_spec(s@, pat@),
        },
{
    if pat.len() > s.len() {
        assert forall|i: int| !matches_at(s@, pat@, i) by {}
        return None;
    }
    let last = s.len() - pat.len();
    let mut i: usize = 0;
    while i <= last
        invariant
            last == s.len() - pat.len(),
            forall|k: int| 0 <= k < i ==> !matches_at(s@, pat@, k),
        decreases last + 1 - i,
    {
        if matches_at_exec(s, pat, i) {
            return Some(i);
        }
        if i == last {
            assert forall|k: int| !matches_at(s@, pat@, k) by {
                if k > last as int {
                    assert(!matches_at(s@, pat@, k));
                }
            }
            return None;
        }
        i = i + 1;
    }
    None
}

/// Whether `pat` occurs in `s`.
pub fn contains(s: &str, pat: &str) -> (res: bool)
    ensures
        res == contains_spec(s@, pat@),
{
    let sc = to_chars(s);
    let pc = to_chars(pat);
    if pc.len() > sc.len() {
        assert forall|i: int| !matches_at(s@, pat@, i) by {}
        return false;
    }
    let last = sc.len() - pc.len();
    let mut i: usize = 0;
    while i <= last
        invariant
            sc@ == s@,
            pc@ == pat@,
            last == sc.len() - pc.len(),
            forall|k: int| 0 <= k < i ==> !matches_at(s@, pat@, k),
        decreases last + 1 - i,
    {
        if matches_at_exec(&sc, &pc, i) {
            return true;
        }
        if i == last {
            assert forall|k: int| !matches_at(s@, pat@, k) by {
                if k > last as int {
                    assert(!matches_at(s@, pat@, k));
                }
            }
            return false;
        }
        i = i + 1;
    }
    false
}

/// `s` with every occurrence of `pat` removed (as `str::replace(pat, "")` does).
pub fn remove_all(s: &str, pat: &str) -> (res: String)
    requires
        pat@.len() > 0,
    ensures
        res@ == remove_all_spec(s@, pat@),
{
    let sc = to_chars(s);
    let pc = to_chars(pat);
    let mut out: Vec<char> = Vec::new();
    let mut i: usize = 0;
    assert(sc@.skip(0) == sc@);
    while i < sc.len()
        invariant
            sc@ == s@,
            pc@ == pat@,
            pc@.len() > 0,
            i <= sc.len(),
            out@ + remove_all_spec(sc@.skip(i as int), pc@) == remove_all_spec(sc@, pc@),
        decreases sc.len() - i,
    {
        let ghost rest = sc@.skip(i as int);
        if matches_at_exec(&sc, &pc, i) {
            assert(rest.subrange(0, pc@.len() as int) =~= sc@.subrange(i as int, i + pc@.len()));
            assert(matches_at(rest, pc@, 0));
            assert(rest.skip(pc@.len() as int) =~= sc@.skip(i + pc@.len()));
            i = i + pc.len();
        } else {
            assert(!matches_at(rest, pc@, 0)) by {
                if i + pc@.len() <= sc@.len() {
                    assert(rest.subrange(0, pc@.len() as int) =~= sc@.subrange(i as int, i + pc@.len()));
                }
            }
            assert(rest.skip(1) =~= sc@.skip(i + 1));
            let ghost before = out@;
            out.push(sc[i]);
            assert(out@ + remove_all_spec(sc@.skip(i + 1), pc@) =~= before + (seq![rest[0]] + remove_all_spec(rest.skip(1), pc@)));
            i = i + 1;
        }
    }
    assert(sc@.skip(i as int).len() == 0);
    assert(out@ + remove_all_spec(sc@.skip(i as int), pc@) =~= out@);
    from_chars(&out)
}

/// The pieces of `s` between the occurrences of `c` (as `str::split(c)` yields them).
pub fn split_char(s: &str, c: char) -> (res: Vec<String>)
    ensures
        views(res@) == split_spec(s@, c),
{
    let sc = to_chars(s);
    let mut pieces: Vec<String> = Vec::new();
    let mut cur: Vec<char> = Vec::new();
    assert(sc@.take(0) =~= Seq::<char>::empty());
    for i in 0..sc.len()
        invariant
            sc@ == s@,
            pieces@.len() + 1 == split_spec(sc@.take(i as int), c).len(),
            forall|k: int| 0 <= k < pieces@.len() ==> #[trigger] pieces@[k]@ == split_spec(sc@.take(i as int), c)[k],
            cur@ == split_spec(sc@.take(i as int), c).last(),
    {
        let ghost pre = sc@.take(i as int);
        proof {
            lemma_split_nonempty(pre, c);
            assert(sc@.take(i + 1).drop_last() =~= pre);
            assert(sc@.take(i + 1).last() == sc@[i as int]);
        }
        if sc[i] == c {
            let piece = from_chars(&cur);
            pieces.push(piece);
            cur = Vec::new();
        } else {
            cur.push(sc[i]);
        }
    }
    pieces.push(from_chars(&cur));
    assert(sc@.take(sc@.len() as int) =~= sc@);
    assert(views(pieces@) =~= split_spec(s@, c));
    pieces
}

/// Whether `a` and `b` are equal once ASCII letters are folded to lower case.
pub fn eq_ignore_ascii_case(a: &str, b: &str) -> (res: bool)
    ensures
        res == eq_ignore_ascii_case_spec(a@, b@),
{
    let ac = to_chars(a);
    let bc = to_chars(b);
    if ac.len() != bc.len() {
        return false;
    }
    for i in 0..ac.len()
        invariant
            ac@ == a@,
            bc@ == b@,
            ac@.len() == bc@.len(),
            forall|k: int| 0 <= k < i ==> ascii_lower(#[trigger] ac@[k]) == ascii_lower(bc@[k]),
    {
        let x = lower_char(ac[i]);
        let y = lower_char(bc[i]);
        if x != y {
            return false;
        }
    }
    true
}

/// Whether `a` and `b` hold the same characters.
pub fn str_eq(a: &str, b: &str) -> (res: bool)
    ensures
        res == (a@ == b@),
{
    let ac = to_chars(a);
    let bc = to_chars(b);
    if ac.len() != bc.len() {
        return false;
    }
    for i in 0..ac.len()
        invariant
            ac@ == a@,
            bc@ == b@,
            ac@.len() == bc@.len(),
            forall|k: int| 0 <= k < i ==> #[trigger] ac@[k] == bc@[k],
    {
        if ac[i] != bc[i] {
            return false;
        }
    }
    assert(ac@ =~= bc@);
    true
}

/// `c` with ASCII upper-case letters mapped to lower case.
pub fn lower_char(c: char) -> (res: char)
    ensures
        res == ascii_lower(c),
{
    if 'A' <= c && c <= 'Z' {
        let n: u32 = (c as u32) + 32;
        proof {
            assert(0x61 <= n <= 0x7a);
        }
        char_from_ascii(n)
    } else {
        c
    }
}

/// The character with the ASCII code `n`.
fn char_from_ascii(n: u32) -> (res: char)
    requires
        n < 128,
    ensures
        res == n as char,
{
    let b: u8 = n as u8;
    b as char
}

} // verus!
