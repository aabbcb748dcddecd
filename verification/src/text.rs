//! Character-sequence utilities shared by the parsers of this crate.
//!
//! Executable code works on `Vec<char>`; every function is specified against
//! a mathematical `Seq<char>` model, so callers can state exact contracts
//! about the text they produce or consume.

use vstd::prelude::*;

verus! {

// ---------------------------------------------------------------------------
// Substring occurrence
// ---------------------------------------------------------------------------

/// `pat` occurs in `hay` starting at position `i`.
pub open spec fn sub_at(hay: Seq<char>, pat: Seq<char>, i: int) -> bool {
    0 <= i && i + pat.len() <= hay.len() && hay.subrange(i, i + pat.len() as int) == pat
}

/// `pat` occurs somewhere in `hay`.
pub open spec fn contains_seq(hay: Seq<char>, pat: Seq<char>) -> bool {
    exists|i: int| sub_at(hay, pat, i)
}

/// Index of the first occurrence of `pat` in `hay`, or -1 if there is none.
pub open spec fn sub_index(hay: Seq<char>, pat: Seq<char>) -> int
    decreases hay.len(),
{
    if pat.len() > hay.len() {
        -1
    } else if hay.subrange(0, pat.len() as int) == pat {
        0
    } else if hay.len() == 0 {
        -1
    } else {
        let r = sub_index(hay.drop_first(), pat);
        if r == -1 {
            -1
        } else {
            r + 1
        }
    }
}

proof fn lemma_sub_at_shift(hay: Seq<char>, pat: Seq<char>, i: int)
    requires
        hay.len() > 0,
        1 <= i,
    ensures
        sub_at(hay, pat, i) == sub_at(hay.drop_first(), pat, i - 1),
{
    if 0 <= i - 1 && i - 1 + pat.len() <= hay.drop_first().len() {
        assert(hay.drop_first().subrange(i - 1, i - 1 + pat.len() as int) =~= hay.subrange(
            i,
            i + pat.len() as int,
        ));
    }
}

/// `sub_index` names the first occurrence of `pat` and is -1 exactly when
/// there is none.
pub proof fn lemma_sub_index(hay: Seq<char>, pat: Seq<char>)
    ensures
        sub_index(hay, pat) == -1 <==> !contains_seq(hay, pat),
        sub_index(hay, pat) != -1 ==> {
            &&& 0 <= sub_index(hay, pat)
            &&& sub_at(hay, pat, sub_index(hay, pat))
            &&& forall|j: int| 0 <= j < sub_index(hay, pat) ==> !sub_at(hay, pat, j)
        },
    decreases hay.len(),
{
    if pat.len() > hay.len() {
        assert(forall|i: int| !sub_at(hay, pat, i));
    } else if hay.subrange(0, pat.len() as int) == pat {
        assert(sub_at(hay, pat, 0));
    } else if hay.len() == 0 {
        assert(pat.len() == 0);
        assert(hay.subrange(0, 0) =~= Seq::<char>::empty());
        assert(pat =~= Seq::<char>::empty());
        assert(false);
    } else {
        lemma_sub_index(hay.drop_first(), pat);
        let r = sub_index(hay.drop_first(), pat);
        assert(!sub_at(hay, pat, 0));
        assert forall|i: int| 1 <= i implies sub_at(hay, pat, i) == sub_at(
            hay.drop_first(),
            pat,
            i - 1,
        ) by {
            lemma_sub_at_shift(hay, pat, i);
        }
        if r == -1 {
            assert(forall|i: int| !sub_at(hay, pat, i));
        } else {
            assert(sub_at(hay, pat, r + 1));
            assert forall|j: int| 0 <= j < r + 1 implies !sub_at(hay, pat, j) by {
                if j >= 1 {
                    lemma_sub_at_shift(hay, pat, j);
                }
            }
        }
    }
}

// ---------------------------------------------------------------------------
// Conversions between `&str`, `String` and `Vec<char>`
// ---------------------------------------------------------------------------

/// Relies on std's `String::push`, which appends the given character.
#[verifier::external_body]
fn push_char(s: &mut String, c: char)
    ensures
        final(s)@ == old(s)@.push(c),
{
    s.push(c);
}

/// The characters of `s`, as a vector.
pub fn chars_of(s: &str) -> (r: Vec<char>)
    ensures
        r@ == s@,
{
    let n = s.unicode_len();
    let mut r: Vec<char> = Vec::new();
    for i in 0..n
        invariant
            n == s@.len(),
            r@ =~= s@.subrange(0, i as int),
    {
        r.push(s.get_char(i));
        assert(r@ =~= s@.subrange(0, i + 1));
    }
    assert(r@ =~= s@);
    r
}

/// The string holding exactly the characters of `v`.
pub fn string_of(v: &Vec<char>) -> (r: String)
    ensures
        r@ == v@,
{
    let mut r = String::new();
    for i in 0..v.len()
        invariant
            r@ =~= v@.subrange(0, i as int),
    {
        push_char(&mut r, v[i]);
        assert(r@ =~= v@.subrange(0, i + 1));
    }
    assert(r@ =~= v@);
    r
}

/// Appends the characters of `s` to `v`.
pub fn append_str(v: &mut Vec<char>, s: &str)
    ensures
        final(v)@ == old(v)@ + s@,
{
    let n = s.unicode_len();
    for i in 0..n
        invariant
            n == s@.len(),
            v@ =~= old(v)@ + s@.subrange(0, i as int),
    {
        v.push(s.get_char(i));
        assert(v@ =~= old(v)@ + s@.subrange(0, i + 1));
    }
    assert(v@ =~= old(v)@ + s@);
}

/// Appends the characters of `src` to `v`.
pub fn append_chars(v: &mut Vec<char>, src: &Vec<char>)
    ensures
        final(v)@ == old(v)@ + src@,
{
    for i in 0..src.len()
        invariant
            v@ =~= old(v)@ + src@.subrange(0, i as int),
    {
        v.push(src[i]);
        assert(v@ =~= old(v)@ + src@.subrange(0, i + 1));
    }
    assert(v@ =~= old(v)@ + src@);
}

/// The characters of `v` between `from` (inclusive) and `to` (exclusive).
pub fn subvec(v: &Vec<char>, from: usize, to: usize) -> (r: Vec<char>)
    requires
        from <= to <= v@.len(),
    ensures
        r@ == v@.subrange(from as int, to as int),
{
    let mut r: Vec<char> = Vec::new();
    for i in from..to
        invariant
            from <= to <= v@.len(),
            r@ =~= v@.subrange(from as int, i as int),
    {
        r.push(v[i]);
        assert(r@ =~= v@.subrange(from as int, i + 1));
    }
    r
}

// ---------------------------------------------------------------------------
// Search
// ---------------------------------------------------------------------------

/// Whether `pat` occurs in `hay` at position `i`.
fn match_at(hay: &Vec<char>, pat: &Vec<char>, i: usize) -> (b: bool)
    requires
        i + pat@.len() <= hay@.len(),
    ensures
        b == sub_at(hay@, pat@, i as int),
{
    let n = pat.len();
    let hlen = hay.len();
    let mut j: usize = 0;
    while j < n
        invariant
            n == pat@.len(),
            hlen == hay@.len(),
            i + n <= hlen,
            j <= n,
            forall|k: int| 0 <= k < j ==> hay@[i + k] == pat@[k],
        decreases n - j,
    {
        assert(i + j < hay@.len());
        if hay[i + j] != pat[j] {
            assert(hay@.subrange(i as int, i + pat@.len() as int)[j as int] != pat@[j as int]);
            return false;
        }
        j = j + 1;
    }
    assert(hay@.subrange(i as int, i + pat@.len() as int) =~= pat@);
    true
}

/// Finds the first occurrence of `pat` in `hay`.
pub fn find_sub(hay: &Vec<char>, pat: &Vec<char>) -> (r: Option<usize>)
    ensures
        r is Some ==> sub_index(hay@, pat@) == r->0 as int,
        r is None ==> sub_index(hay@, pat@) == -1 && !contains_seq(hay@, pat@),
        r is Some ==> sub_at(hay@, pat@, r->0 as int) && forall|j: int|
            0 <= j < r->0 ==> !sub_at(hay@, pat@, j),
{
    if pat.len() > hay.len() {
        proof {
            lemma_sub_index(hay@, pat@);
            assert(forall|i: int| !sub_at(hay@, pat@, i));
        }
        return None;
    }
    if pat.len() == 0 {
        proof {
            assert(hay@.subrange(0, 0) =~= pat@);
            assert(sub_at(hay@, pat@, 0));
            lemma_sub_index(hay@, pat@);
        }
        return Some(0);
    }
    let mut i: usize = 0;
    while pat.len() <= hay.len() - i
        invariant
            i <= hay@.len(),
            1 <= pat@.len() <= hay@.len(),
            forall|j: int| 0 <= j < i ==> !sub_at(hay@, pat@, j),
        decreases hay@.len() - i,
    {
        if match_at(hay, pat, i) {
            proof {
                lemma_sub_index(hay@, pat@);
            }
            return Some(i);
        }
        i = i + 1;
    }
    proof {
        lemma_sub_index(hay@, pat@);
        assert forall|j: int| !sub_at(hay@, pat@, j) by {
            if 0 <= j < i {
            } else if j >= i {
                assert(j + pat@.len() > hay@.len());
            }
        }
    }
    None
}

/// Whether `pat` occurs anywhere in `hay`.
pub fn contains_sub(hay: &Vec<char>, pat: &Vec<char>) -> (b: bool)
    ensures
        b == contains_seq(hay@, pat@),
{
    proof {
        lemma_sub_index(hay@, pat@);
    }
    match find_sub(hay, pat) {
        Some(_) => true,
        None => false,
    }
}

/// Whether the characters of string `pat` occur anywhere in `hay`.
pub fn contains_lit(hay: &Vec<char>, pat: &str) -> (b: bool)
    ensures
        b == contains_seq(hay@, pat@),
{
    let p = chars_of(pat);
    contains_sub(hay, &p)
}

/// `s` begins with `pat`.
pub open spec fn starts_with(s: Seq<char>, pat: Seq<char>) -> bool {
    pat.len() <= s.len() && s.subrange(0, pat.len() as int) == pat
}

/// `s` ends with `pat`.
pub open spec fn ends_with(s: Seq<char>, pat: Seq<char>) -> bool {
    pat.len() <= s.len() && s.subrange(s.len() - pat.len(), s.len() as int) == pat
}

pub fn starts_with_lit(v: &Vec<char>, pat: &str) -> (b: bool)
    ensures
        b == starts_with(v@, pat@),
{
    let p = chars_of(pat);
    if p.len() > v.len() {
        return false;
    }
    match_at(v, &p, 0)
}

pub fn ends_with_lit(v: &Vec<char>, pat: &str) -> (b: bool)
    ensures
        b == ends_with(v@, pat@),
{
    let p = chars_of(pat);
    if p.len() > v.len() {
        return false;
    }
    let i = v.len() - p.len();
    let b = match_at(v, &p, i);
    assert(sub_at(v@, p@, i as int) == ends_with(v@, pat@));
    b
}

/// What remains of `v` after a leading `pat`, if `v` begins with it.
pub fn strip_prefix_lit(v: &Vec<char>, pat: &str) -> (r: Option<Vec<char>>)
    ensures
        starts_with(v@, pat@) ==> r is Some && r->0@ == v@.skip(pat@.len() as int),
        !starts_with(v@, pat@) ==> r is None,
{
    if starts_with_lit(v, pat) {
        let p = chars_of(pat);
        Some(subvec(v, p.len(), v.len()))
    } else {
        None
    }
}

// ---------------------------------------------------------------------------
// Single-character search
// ---------------------------------------------------------------------------

/// Index of the first occurrence of `c` in `s`, or -1 if there is none.
pub open spec fn char_index(s: Seq<char>, c: char) -> int
    decreases s.len(),
{
    if s.len() == 0 {
        -1
    } else if s[0] == c {
        0
    } else {
        let r = char_index(s.drop_first(), c);
        if r == -1 {
            -1
        } else {
            r + 1
        }
    }
}

/// `char_index` names the first occurrence of `c` and is -1 exactly when
/// there is none.
pub proof fn lemma_char_index(s: Seq<char>, c: char)
    ensures
        char_index(s, c) == -1 <==> (forall|j: int| 0 <= j < s.len() ==> s[j] != c),
        char_index(s, c) != -1 ==> {
            &&& 0 <= char_index(s, c) < s.len()
            &&& s[char_index(s, c)] == c
            &&& forall|j: int| 0 <= j < char_index(s, c) ==> s[j] != c
        },
    decreases s.len(),
{
    if s.len() > 0 && s[0] != c {
        lemma_char_index(s.drop_first(), c);
        assert(forall|j: int| 1 <= j < s.len() ==> s[j] == s.drop_first()[j - 1]);
    }
}

/// Finds the first occurrence of `c` in `v`.
pub fn find_char(v: &Vec<char>, c: char) -> (r: Option<usize>)
    ensures
        r is Some ==> char_index(v@, c) == r->0 as int,
        r is None ==> char_index(v@, c) == -1,
{
    let n = v.len();
    let mut i: usize = 0;
    while i < n
        invariant
            n == v@.len(),
            i <= n,
            forall|j: int| 0 <= j < i ==> v@[j] != c,
        decreases n - i,
    {
        if v[i] == c {
            proof {
                lemma_char_index(v@, c);
            }
            return Some(i);
        }
        i = i + 1;
    }
    proof {
        lemma_char_index(v@, c);
    }
    None
}

// ---------------------------------------------------------------------------
// Lines
// ---------------------------------------------------------------------------

/// The views of a sequence of character vectors.
pub open spec fn views_of(ls: Seq<Vec<char>>) -> Seq<Seq<char>> {
    ls.map_values(|l: Vec<char>| l@)
}

/// `s` without one trailing carriage return, if it has one.
pub open spec fn spec_strip_cr(s: Seq<char>) -> Seq<char> {
    if s.len() > 0 && s[s.len() - 1] == '\r' {
        s.drop_last()
    } else {
        s
    }
}

/// The lines of `s`: segments between newline characters, the final empty
/// segment after a trailing newline omitted, each without a trailing
/// carriage return.
pub open spec fn spec_lines(s: Seq<char>) -> Seq<Seq<char>>
    decreases s.len(),
{
    if s.len() == 0 {
        Seq::empty()
    } else {
        let i = char_index(s, '\n');
        if !(0 <= i < s.len()) {
            seq![spec_strip_cr(s)]
        } else {
            seq![spec_strip_cr(s.take(i))] + spec_lines(s.skip(i + 1))
        }
    }
}

fn strip_cr(v: Vec<char>) -> (r: Vec<char>)
    ensures
        r@ == spec_strip_cr(v@),
{
    if v.len() > 0 && v[v.len() - 1] == '\r' {
        let r = subvec(&v, 0, v.len() - 1);
        assert(r@ =~= v@.drop_last());
        r
    } else {
        v
    }
}

/// Splits `v` into its lines.
pub fn split_lines(v: Vec<char>) -> (r: Vec<Vec<char>>)
    ensures
        views_of(r@) == spec_lines(v@),
    decreases v@.len(),
{
    let mut r: Vec<Vec<char>> = Vec::new();
    if v.len() == 0 {
        assert(views_of(r@) =~= spec_lines(v@));
        return r;
    }
    match find_char(&v, '\n') {
        None => {
            r.push(strip_cr(v));
            assert(views_of(r@) =~= spec_lines(v@));
            r
        },
        Some(i) => {
            proof {
                lemma_char_index(v@, '\n');
            }
            let head = subvec(&v, 0, i);
            let rest = subvec(&v, i + 1, v.len());
            assert(head@ =~= v@.take(i as int));
            assert(rest@ =~= v@.skip(i + 1));
            let mut tail = split_lines(rest);
            r.push(strip_cr(head));
            let ghost before = r@;
            append_vecs(&mut r, &mut tail);
            assert(views_of(r@) =~= spec_lines(v@));
            r
        },
    }
}

/// Moves every element of `src` to the end of `dst`.
fn append_vecs(dst: &mut Vec<Vec<char>>, src: &mut Vec<Vec<char>>)
    ensures
        final(dst)@ == old(dst)@ + old(src)@,
{
    let n = src.len();
    let mut i: usize = 0;
    while i < n
        invariant
            n == old(src)@.len(),
            i <= n,
            src@ =~= old(src)@.skip(i as int),
            dst@ =~= old(dst)@ + old(src)@.take(i as int),
        decreases n - i,
    {
        let x = src.remove(0);
        dst.push(x);
        i = i + 1;
        assert(src@ =~= old(src)@.skip(i as int));
        assert(dst@ =~= old(dst)@ + old(src)@.take(i as int));
    }
    assert(final(dst)@ =~= old(dst)@ + old(src)@);
}

/// The elements of `ls` joined with separator `sep` between them.
pub open spec fn spec_join(ls: Seq<Seq<char>>, sep: char) -> Seq<char>
    decreases ls.len(),
{
    if ls.len() == 0 {
        Seq::empty()
    } else if ls.len() == 1 {
        ls[0]
    } else {
        ls[0] + seq![sep] + spec_join(ls.drop_first(), sep)
    }
}

fn join_from(ls: &Vec<Vec<char>>, from: usize, sep: char) -> (r: Vec<char>)
    requires
        from <= ls@.len(),
    ensures
        r@ == spec_join(views_of(ls@.skip(from as int)), sep),
    decreases ls@.len() - from,
{
    let ghost tail = views_of(ls@.skip(from as int));
    if from == ls.len() {
        let r: Vec<char> = Vec::new();
        assert(tail =~= Seq::<Seq<char>>::empty());
        r
    } else if from + 1 == ls.len() {
        let mut r: Vec<char> = Vec::new();
        append_chars(&mut r, &ls[from]);
        assert(tail.len() == 1 && tail[0] == ls@[from as int]@);
        r
    } else {
        let mut r: Vec<char> = Vec::new();
        append_chars(&mut r, &ls[from]);
        r.push(sep);
        let rest = join_from(ls, from + 1, sep);
        append_chars(&mut r, &rest);
        assert(views_of(ls@.skip(from + 1)) =~= tail.drop_first());
        assert(r@ =~= tail[0] + seq![sep] + spec_join(tail.drop_first(), sep));
        r
    }
}

/// Joins `ls` with separator `sep`.
pub fn join_chars(ls: &Vec<Vec<char>>, sep: char) -> (r: Vec<char>)
    ensures
        r@ == spec_join(views_of(ls@), sep),
{
    let r = join_from(ls, 0, sep);
    assert(ls@.skip(0) =~= ls@);
    r
}

// ---------------------------------------------------------------------------
// Whitespace and trimming
// ---------------------------------------------------------------------------

/// ASCII whitespace.
pub open spec fn is_ws(c: char) -> bool {
    c == ' ' || c == '\t' || c == '\n' || c == '\r' || c == '\u{b}' || c == '\u{c}'
}

fn is_ws_exec(c: char) -> (b: bool)
    ensures
        b == is_ws(c),
{
    c == ' ' || c == '\t' || c == '\n' || c == '\r' || c == '\u{b}' || c == '\u{c}'
}

/// `s` without leading whitespace.
pub open spec fn spec_trim_start(s: Seq<char>) -> Seq<char>
    decreases s.len(),
{
    if s.len() > 0 && is_ws(s[0]) {
        spec_trim_start(s.drop_first())
    } else {
        s
    }
}

/// `s` without trailing whitespace.
pub open spec fn spec_trim_end(s: Seq<char>) -> Seq<char>
    decreases s.len(),
{
    if s.len() > 0 && is_ws(s[s.len() - 1]) {
        spec_trim_end(s.drop_last())
    } else {
        s
    }
}

/// `s` without leading and trailing whitespace.
pub open spec fn spec_trim(s: Seq<char>) -> Seq<char> {
    spec_trim_end(spec_trim_start(s))
}

fn trim_start_chars(v: Vec<char>) -> (r: Vec<char>)
    ensures
        r@ == spec_trim_start(v@),
    decreases v@.len(),
{
    if v.len() > 0 && is_ws_exec(v[0]) {
        let rest = subvec(&v, 1, v.len());
        assert(rest@ =~= v@.drop_first());
        trim_start_chars(rest)
    } else {
        v
    }
}

fn trim_end_chars(v: Vec<char>) -> (r: Vec<char>)
    ensures
        r@ == spec_trim_end(v@),
    decreases v@.len(),
{
    if v.len() > 0 && is_ws_exec(v[v.len() - 1]) {
        let rest = subvec(&v, 0, v.len() - 1);
        assert(rest@ =~= v@.drop_last());
        trim_end_chars(rest)
    } else {
        v
    }
}

/// Removes leading and trailing whitespace.
pub fn trim_chars(v: Vec<char>) -> (r: Vec<char>)
    ensures
        r@ == spec_trim(v@),
{
    trim_end_chars(trim_start_chars(v))
}

// ---------------------------------------------------------------------------
// Replacement
// ---------------------------------------------------------------------------

/// `s` with every occurrence of `pat` replaced by `rep`, scanning from the
/// left; an empty `pat` leaves `s` unchanged.
pub open spec fn spec_replace(s: Seq<char>, pat: Seq<char>, rep: Seq<char>) -> Seq<char>
    decreases s.len(),
{
    if pat.len() == 0 {
        s
    } else {
        let i = sub_index(s, pat);
        if !(0 <= i && i + pat.len() <= s.len()) {
            s
        } else {
            s.take(i) + rep + spec_replace(s.skip(i + pat.len() as int), pat, rep)
        }
    }
}

/// Replaces every occurrence of `pat` in `v` by `rep`.
pub fn replace_chars(v: &Vec<char>, pat: &Vec<char>, rep: &Vec<char>) -> (r: Vec<char>)
    ensures
        r@ == spec_replace(v@, pat@, rep@),
    decreases v@.len(),
{
    if pat.len() == 0 {
        return subvec(v, 0, v.len());
    }
    let vlen = v.len();
    match find_sub(v, pat) {
        None => subvec(v, 0, vlen),
        Some(i) => {
            proof {
                lemma_sub_index(v@, pat@);
            }
            assert(i + pat@.len() <= vlen);
            let mut r = subvec(v, 0, i);
            append_chars(&mut r, rep);
            let rest = subvec(v, i + pat.len(), vlen);
            assert(rest@ =~= v@.skip(i + pat@.len() as int));
            let tail = replace_chars(&rest, pat, rep);
            append_chars(&mut r, &tail);
            assert(r@ =~= v@.take(i as int) + rep@ + spec_replace(
                v@.skip(i + pat@.len() as int),
                pat@,
                rep@,
            ));
            r
        },
    }
}

/// Replaces every occurrence of the string `pat` in `v` by the string `rep`.
pub fn replace_lit(v: &Vec<char>, pat: &str, rep: &str) -> (r: Vec<char>)
    ensures
        r@ == spec_replace(v@, pat@, rep@),
{
    let p = chars_of(pat);
    let rp = chars_of(rep);
    replace_chars(v, &p, &rp)
}

// ---------------------------------------------------------------------------
// Splitting
// ---------------------------------------------------------------------------

/// The segments of `s` between occurrences of `c`; always nonempty, and
/// keeps empty segments.
pub open spec fn spec_split(s: Seq<char>, c: char) -> Seq<Seq<char>>
    decreases s.len(),
{
    let i = char_index(s, c);
    if !(0 <= i < s.len()) {
        seq![s]
    } else {
        seq![s.take(i)] + spec_split(s.skip(i + 1), c)
    }
}

/// Splits `v` at every occurrence of `c`.
pub fn split_char(v: Vec<char>, c: char) -> (r: Vec<Vec<char>>)
    ensures
        views_of(r@) == spec_split(v@, c),
    decreases v@.len(),
{
    let mut r: Vec<Vec<char>> = Vec::new();
    let vlen = v.len();
    match find_char(&v, c) {
        None => {
            r.push(v);
            assert(views_of(r@) =~= spec_split(r@[0]@, c));
            r
        },
        Some(i) => {
            proof {
                lemma_char_index(v@, c);
            }
            let head = subvec(&v, 0, i);
            let rest = subvec(&v, i + 1, vlen);
            assert(head@ =~= v@.take(i as int));
            assert(rest@ =~= v@.skip(i + 1));
            let mut tail = split_char(rest, c);
            r.push(head);
            append_vecs(&mut r, &mut tail);
            assert(views_of(r@) =~= spec_split(v@, c));
            r
        },
    }
}

/// Index of the first whitespace character of `s`, or -1.
pub open spec fn ws_index(s: Seq<char>) -> int
    decreases s.len(),
{
    if s.len() == 0 {
        -1
    } else if is_ws(s[0]) {
        0
    } else {
        let r = ws_index(s.drop_first());
        if r == -1 {
            -1
        } else {
            r + 1
        }
    }
}

pub proof fn lemma_ws_index(s: Seq<char>)
    ensures
        ws_index(s) == -1 <==> (forall|j: int| 0 <= j < s.len() ==> !is_ws(s[j])),
        ws_index(s) != -1 ==> {
            &&& 0 <= ws_index(s) < s.len()
            &&& is_ws(s[ws_index(s)])
            &&& forall|j: int| 0 <= j < ws_index(s) ==> !is_ws(s[j])
        },
    decreases s.len(),
{
    if s.len() > 0 && !is_ws(s[0]) {
        lemma_ws_index(s.drop_first());
        assert(forall|j: int| 1 <= j < s.len() ==> s[j] == s.drop_first()[j - 1]);
    }
}

fn find_ws(v: &Vec<char>) -> (r: Option<usize>)
    ensures
        r is Some ==> ws_index(v@) == r->0 as int,
        r is None ==> ws_index(v@) == -1,
{
    let n = v.len();
    let mut i: usize = 0;
    while i < n
        invariant
            n == v@.len(),
            i <= n,
            forall|j: int| 0 <= j < i ==> !is_ws(v@[j]),
        decreases n - i,
    {
        if is_ws_exec(v[i]) {
            proof {
                lemma_ws_index(v@);
            }
            return Some(i);
        }
        i = i + 1;
    }
    proof {
        lemma_ws_index(v@);
    }
    None
}

/// The maximal whitespace-free tokens of `s`, in order.
pub open spec fn spec_tokens(s: Seq<char>) -> Seq<Seq<char>>
    decreases s.len(),
{
    if s.len() == 0 {
        Seq::empty()
    } else if is_ws(s[0]) {
        spec_tokens(s.drop_first())
    } else {
        let i = ws_index(s);
        if !(0 <= i < s.len()) {
            seq![s]
        } else {
            seq![s.take(i)] + spec_tokens(s.skip(i + 1))
        }
    }
}

/// Splits `v` into whitespace-separated tokens.
pub fn tokens_of(v: Vec<char>) -> (r: Vec<Vec<char>>)
    ensures
        views_of(r@) == spec_tokens(v@),
    decreases v@.len(),
{
    let mut r: Vec<Vec<char>> = Vec::new();
    if v.len() == 0 {
        assert(views_of(r@) =~= spec_tokens(v@));
        return r;
    }
    if is_ws_exec(v[0]) {
        let rest = subvec(&v, 1, v.len());
        assert(rest@ =~= v@.drop_first());
        return tokens_of(rest);
    }
    match find_ws(&v) {
        None => {
            proof {
                lemma_ws_index(v@);
            }
            r.push(v);
            assert(views_of(r@) =~= spec_tokens(r@[0]@));
            r
        },
        Some(i) => {
            proof {
                lemma_ws_index(v@);
            }
            let head = subvec(&v, 0, i);
            let rest = subvec(&v, i + 1, v.len());
            assert(head@ =~= v@.take(i as int));
            assert(rest@ =~= v@.skip(i + 1));
            let mut tail = tokens_of(rest);
            r.push(head);
            append_vecs(&mut r, &mut tail);
            assert(views_of(r@) =~= spec_tokens(v@));
            r
        },
    }
}

// ---------------------------------------------------------------------------
// Prefix and edge trimming by pattern
// ---------------------------------------------------------------------------

/// `s` with every leading copy of `pat` removed; an empty `pat` leaves `s`
/// unchanged.
pub open spec fn spec_trim_start_matches(s: Seq<char>, pat: Seq<char>) -> Seq<char>
    decreases s.len(),
{
    if pat.len() > 0 && starts_with(s, pat) {
        spec_trim_start_matches(s.skip(pat.len() as int), pat)
    } else {
        s
    }
}

/// Removes every leading copy of `pat` from `v`.
pub fn trim_start_matches_lit(v: Vec<char>, pat: &str) -> (r: Vec<char>)
    ensures
        r@ == spec_trim_start_matches(v@, pat@),
    decreases v@.len(),
{
    let p = chars_of(pat);
    if p.len() > 0 && starts_with_lit(&v, pat) {
        let rest = subvec(&v, p.len(), v.len());
        assert(rest@ =~= v@.skip(pat@.len() as int));
        trim_start_matches_lit(rest, pat)
    } else {
        v
    }
}

/// Removes every leading copy of `pat` from `v`.
pub fn trim_start_matches_chars(v: Vec<char>, pat: &Vec<char>) -> (r: Vec<char>)
    ensures
        r@ == spec_trim_start_matches(v@, pat@),
    decreases v@.len(),
{
    if pat.len() > 0 && pat.len() <= v.len() && match_at(&v, pat, 0) {
        assert(starts_with(v@, pat@));
        let rest = subvec(&v, pat.len(), v.len());
        assert(rest@ =~= v@.skip(pat@.len() as int));
        trim_start_matches_chars(rest, pat)
    } else {
        assert(!(pat@.len() > 0 && starts_with(v@, pat@)));
        v
    }
}

/// The number of occurrences of `c` in `s`.
pub open spec fn count_char(s: Seq<char>, c: char) -> nat
    decreases s.len(),
{
    if s.len() == 0 {
        0
    } else {
        count_char(s.drop_last(), c) + (if s[s.len() - 1] == c {
            1nat
        } else {
            0nat
        })
    }
}

pub proof fn lemma_count_char_bound(s: Seq<char>, c: char)
    ensures
        count_char(s, c) <= s.len(),
    decreases s.len(),
{
    if s.len() > 0 {
        lemma_count_char_bound(s.drop_last(), c);
    }
}

/// Counts the occurrences of `c` in `v`.
pub fn count_char_exec(v: &Vec<char>, c: char) -> (r: usize)
    ensures
        r == count_char(v@, c),
{
    let n = v.len();
    let mut r: usize = 0;
    let mut i: usize = 0;
    while i < n
        invariant
            n == v@.len(),
            i <= n,
            r == count_char(v@.take(i as int), c),
            r <= i,
        decreases n - i,
    {
        proof {
            lemma_count_char_bound(v@.take(i as int), c);
            assert(v@.take(i + 1).drop_last() =~= v@.take(i as int));
        }
        if v[i] == c {
            r = r + 1;
        }
        i = i + 1;
    }
    assert(v@.take(n as int) =~= v@);
    r
}

/// `s` with every leading and trailing `c` removed.
pub open spec fn spec_trim_matches_char(s: Seq<char>, c: char) -> Seq<char>
    decreases s.len(),
{
    if s.len() > 0 && s[0] == c {
        spec_trim_matches_char(s.drop_first(), c)
    } else if s.len() > 0 && s[s.len() - 1] == c {
        spec_trim_matches_char(s.drop_last(), c)
    } else {
        s
    }
}

/// Removes every leading and trailing `c` from `v`.
pub fn trim_matches_char(v: Vec<char>, c: char) -> (r: Vec<char>)
    ensures
        r@ == spec_trim_matches_char(v@, c),
    decreases v@.len(),
{
    if v.len() > 0 && v[0] == c {
        let rest = subvec(&v, 1, v.len());
        assert(rest@ =~= v@.drop_first());
        trim_matches_char(rest, c)
    } else if v.len() > 0 && v[v.len() - 1] == c {
        let rest = subvec(&v, 0, v.len() - 1);
        assert(rest@ =~= v@.drop_last());
        trim_matches_char(rest, c)
    } else {
        v
    }
}

/// `s` with every trailing `c` removed.
pub open spec fn spec_trim_end_matches_char(s: Seq<char>, c: char) -> Seq<char>
    decreases s.len(),
{
    if s.len() > 0 && s[s.len() - 1] == c {
        spec_trim_end_matches_char(s.drop_last(), c)
    } else {
        s
    }
}

/// Removes every trailing `c` from `v`.
pub fn trim_end_matches_char(v: Vec<char>, c: char) -> (r: Vec<char>)
    ensures
        r@ == spec_trim_end_matches_char(v@, c),
    decreases v@.len(),
{
    if v.len() > 0 && v[v.len() - 1] == c {
        let rest = subvec(&v, 0, v.len() - 1);
        assert(rest@ =~= v@.drop_last());
        trim_end_matches_char(rest, c)
    } else {
        v
    }
}

/// The first `n` characters of `v`, or all of it if shorter.
pub fn take_prefix(v: &Vec<char>, n: usize) -> (r: Vec<char>)
    ensures
        r@ == (if v@.len() <= n {
            v@
        } else {
            v@.take(n as int)
        }),
{
    if v.len() <= n {
        subvec(v, 0, v.len())
    } else {
        subvec(v, 0, n)
    }
}

// ---------------------------------------------------------------------------
// Concatenation
// ---------------------------------------------------------------------------

/// A fresh copy of `v`.
pub fn copy_chars(v: &Vec<char>) -> (r: Vec<char>)
    ensures
        r@ == v@,
{
    let r = subvec(v, 0, v.len());
    assert(r@ =~= v@);
    r
}

/// The elements of `v` between `from` (inclusive) and `to` (exclusive),
/// each copied.
pub fn subvec_of_vecs(v: &Vec<Vec<char>>, from: usize, to: usize) -> (r: Vec<Vec<char>>)
    requires
        from <= to <= v@.len(),
    ensures
        r@.len() == to - from,
        forall|i: int| 0 <= i < to - from ==> (#[trigger] r@[i])@ == v@[from + i]@,
{
    let mut r: Vec<Vec<char>> = Vec::new();
    let mut i: usize = from;
    while i < to
        invariant
            from <= i <= to <= v@.len(),
            r@.len() == i - from,
            forall|k: int| 0 <= k < i - from ==> (#[trigger] r@[k])@ == v@[from + k]@,
        decreases to - i,
    {
        r.push(copy_chars(&v[i]));
        i = i + 1;
    }
    r
}

/// The concatenation of two strings.
pub fn concat2(a: &str, b: &str) -> (r: String)
    ensures
        r@ == a@ + b@,
{
    let mut v: Vec<char> = Vec::new();
    append_str(&mut v, a);
    append_str(&mut v, b);
    string_of(&v)
}

/// The concatenation of three strings.
pub fn concat3(a: &str, b: &str, c: &str) -> (r: String)
    ensures
        r@ == a@ + b@ + c@,
{
    let mut v: Vec<char> = Vec::new();
    append_str(&mut v, a);
    append_str(&mut v, b);
    append_str(&mut v, c);
    string_of(&v)
}

/// Whether two character vectors hold the same text.
pub fn eq_chars(a: &Vec<char>, b: &Vec<char>) -> (r: bool)
    ensures
        r == (a@ == b@),
{
    if a.len() != b.len() {
        assert(a@ != b@);
        return false;
    }
    let r = match_at(a, b, 0);
    proof {
        assert(a@.subrange(0, b@.len() as int) =~= a@);
    }
    r
}

/// Whether the characters of `v` are exactly the string `pat`.
pub fn eq_lit(v: &Vec<char>, pat: &str) -> (b: bool)
    ensures
        b == (v@ == pat@),
{
    let p = chars_of(pat);
    if v.len() != p.len() {
        assert(v@ != pat@);
        return false;
    }
    let b = match_at(v, &p, 0);
    proof {
        if sub_at(v@, p@, 0) {
            assert(v@.subrange(0, p@.len() as int) =~= v@);
        } else {
            assert(v@.subrange(0, p@.len() as int) =~= v@);
        }
    }
    b
}

// ---------------------------------------------------------------------------
// Numbers
// ---------------------------------------------------------------------------

/// Every character of `s` is an ASCII digit.
pub open spec fn all_digits(s: Seq<char>) -> bool {
    forall|i: int| 0 <= i < s.len() ==> '0' <= #[trigger] s[i] <= '9'
}

/// The value of a sequence of ASCII digits.
pub open spec fn digits_val(s: Seq<char>) -> nat
    decreases s.len(),
{
    if s.len() == 0 {
        0
    } else {
        (digits_val(s.drop_last()) * 10 + (s[s.len() - 1] as int - 48)) as nat
    }
}

proof fn lemma_digits_val_extend(p: Seq<char>, rest: Seq<char>)
    requires
        all_digits(rest),
    ensures
        digits_val(p + rest) >= digits_val(p),
    decreases rest.len(),
{
    if rest.len() == 0 {
        assert(p + rest =~= p);
    } else {
        assert(all_digits(rest.drop_last())) by {
            assert(forall|i: int|
                0 <= i < rest.len() - 1 ==> rest.drop_last()[i] == rest[i]);
        }
        lemma_digits_val_extend(p, rest.drop_last());
        assert((p + rest).drop_last() =~= p + rest.drop_last());
        assert((p + rest)[(p + rest).len() - 1] == rest[rest.len() - 1]);
        assert('0' <= rest[rest.len() - 1] <= '9');
    }
}

/// Parses `s` as a decimal `u32`: an optional leading `+`, then one or more
/// digits, rejected on any other character or on overflow.
pub open spec fn spec_parse_u32(s: Seq<char>) -> Option<u32> {
    let d = if s.len() > 0 && s[0] == '+' {
        s.drop_first()
    } else {
        s
    };
    if d.len() == 0 || !all_digits(d) {
        None
    } else if digits_val(d) > u32::MAX {
        None
    } else {
        Some(digits_val(d) as u32)
    }
}

/// Parses the characters of `v` as a decimal `u32`.
pub fn parse_u32(v: &Vec<char>) -> (r: Option<u32>)
    ensures
        r == spec_parse_u32(v@),
{
    let d = if v.len() > 0 && v[0] == '+' {
        subvec(v, 1, v.len())
    } else {
        subvec(v, 0, v.len())
    };
    assert(d@ =~= (if v@.len() > 0 && v@[0] == '+' {
        v@.drop_first()
    } else {
        v@
    }));
    if d.len() == 0 {
        return None;
    }
    let n = d.len();
    let mut acc: u64 = 0;
    let mut i: usize = 0;
    while i < n
        invariant
            n == d@.len(),
            i <= n,
            d@ == (if v@.len() > 0 && v@[0] == '+' {
                v@.drop_first()
            } else {
                v@
            }),
            all_digits(d@.take(i as int)),
            acc == digits_val(d@.take(i as int)),
            acc <= u32::MAX,
        decreases n - i,
    {
        let c = d[i];
        if !('0' <= c && c <= '9') {
            assert(!all_digits(d@));
            return None;
        }
        let digit = (c as u32) as u64 - 48;
        let next = acc * 10 + digit;
        assert(d@.take(i + 1).drop_last() =~= d@.take(i as int));
        assert(next == digits_val(d@.take(i + 1)));
        if next > u32::MAX as u64 {
            proof {
                if all_digits(d@) {
                    assert(all_digits(d@.skip(i + 1))) by {
                        assert(forall|k: int|
                            0 <= k < d@.len() - i - 1 ==> #[trigger] d@.skip(i + 1)[k] == d@[k + i
                                + 1]);
                    }
                    lemma_digits_val_extend(d@.take(i + 1), d@.skip(i + 1));
                    assert(d@.take(i + 1) + d@.skip(i + 1) =~= d@);
                    assert(digits_val(d@) > u32::MAX);
                }
            }
            return None;
        }
        acc = next;
        i = i + 1;
    }
    assert(d@.take(n as int) =~= d@);
    Some(acc as u32)
}

/// The ASCII digit for `d`.
pub open spec fn spec_digit_char(d: nat) -> char {
    ((d + 48) as u8) as char
}

/// The decimal digits of `n`, most significant first.
pub open spec fn spec_u64_digits(n: nat) -> Seq<char>
    decreases n,
{
    if n < 10 {
        seq![spec_digit_char(n)]
    } else {
        spec_u64_digits(n / 10).push(spec_digit_char(n % 10))
    }
}

/// The decimal representation of `n`.
pub fn u64_chars(n: u64) -> (r: Vec<char>)
    ensures
        r@ == spec_u64_digits(n as nat),
    decreases n,
{
    if n < 10 {
        let c = ((n as u8) + 48) as char;
        let mut r: Vec<char> = Vec::new();
        r.push(c);
        assert(r@ =~= seq![spec_digit_char(n as nat)]);
        r
    } else {
        let mut r = u64_chars(n / 10);
        let c = (((n % 10) as u8) + 48) as char;
        r.push(c);
        r
    }
}

/// The decimal representation of `n`, as a string.
pub fn u64_string(n: u64) -> (r: String)
    ensures
        r@ == spec_u64_digits(n as nat),
{
    let v = u64_chars(n);
    string_of(&v)
}

} // verus!

