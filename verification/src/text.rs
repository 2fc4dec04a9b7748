//! Character-level text handling: the searching, splitting, trimming and
//! number conversions that the status parser and the page builders use,
//! each stated over `Seq<char>` and implemented over `Vec<char>`.
use vstd::prelude::*;

verus! {

// ---------------------------------------------------------------------
// Specifications
// ---------------------------------------------------------------------

/// Whether `s` begins with `p`.
pub open spec fn starts_with(s: Seq<char>, p: Seq<char>) -> bool {
    p.len() <= s.len() && s.take(p.len() as int) == p
}

/// Whether `p` occurs in `s` at position `i`.
pub open spec fn matches_at(s: Seq<char>, p: Seq<char>, i: int) -> bool {
    0 <= i && i + p.len() <= s.len() && s.subrange(i, i + p.len()) == p
}

/// The first position at or after `i` where `p` occurs in `s`.
pub open spec fn find_from(s: Seq<char>, p: Seq<char>, i: int) -> Option<int>
    decreases s.len() + 1 - i,
{
    if i < 0 || i + p.len() > s.len() {
        None
    } else if s.subrange(i, i + p.len()) == p {
        Some(i)
    } else {
        find_from(s, p, i + 1)
    }
}

/// The first position where `p` occurs in `s`.
pub open spec fn find(s: Seq<char>, p: Seq<char>) -> Option<int> {
    find_from(s, p, 0)
}

/// Whether `p` occurs in `s`.
pub open spec fn contains(s: Seq<char>, p: Seq<char>) -> bool {
    find(s, p) is Some
}

/// The last position of the character `c` in `s`.
pub open spec fn rfind_char(s: Seq<char>, c: char) -> Option<int>
    decreases s.len(),
{
    if s.len() == 0 {
        None
    } else if s.last() == c {
        Some(s.len() - 1)
    } else {
        rfind_char(s.drop_last(), c)
    }
}

/// The text before the first occurrence of `p`, or all of `s` where `p`
/// does not occur: the first piece of `s` split at `p`.
pub open spec fn before(s: Seq<char>, p: Seq<char>) -> Seq<char> {
    match find(s, p) {
        Some(i) => s.take(i),
        None => s,
    }
}

/// The text after the first occurrence of `p`, if `p` occurs.
pub open spec fn after(s: Seq<char>, p: Seq<char>) -> Option<Seq<char>> {
    match find(s, p) {
        Some(i) => Some(s.skip(i + p.len())),
        None => None,
    }
}

/// The second piece of `s` split at `p`: what lies between the first and
/// the second occurrence of `p` (or the end of `s`).
pub open spec fn second_piece(s: Seq<char>, p: Seq<char>) -> Option<Seq<char>> {
    match after(s, p) {
        Some(r) => Some(before(r, p)),
        None => None,
    }
}

/// The characters with the Unicode `White_Space` property.
pub open spec fn is_space(c: char) -> bool {
    ('\u{9}' <= c && c <= '\u{d}') || c == ' ' || c == '\u{85}' || c == '\u{a0}' || c
        == '\u{1680}' || ('\u{2000}' <= c && c <= '\u{200a}') || c == '\u{2028}' || c
        == '\u{2029}' || c == '\u{202f}' || c == '\u{205f}' || c == '\u{3000}'
}

/// `s` without its leading characters for which `f` holds.
pub open spec fn trim_start_by(s: Seq<char>, f: spec_fn(char) -> bool) -> Seq<char>
    decreases s.len(),
{
    if s.len() > 0 && f(s[0]) {
        trim_start_by(s.drop_first(), f)
    } else {
        s
    }
}

/// `s` without its trailing characters for which `f` holds.
pub open spec fn trim_end_by(s: Seq<char>, f: spec_fn(char) -> bool) -> Seq<char>
    decreases s.len(),
{
    if s.len() > 0 && f(s.last()) {
        trim_end_by(s.drop_last(), f)
    } else {
        s
    }
}

/// `s` without leading and trailing characters for which `f` holds.
pub open spec fn trim_by(s: Seq<char>, f: spec_fn(char) -> bool) -> Seq<char> {
    trim_end_by(trim_start_by(s, f), f)
}

/// The white space characters, as a predicate.
pub open spec fn space_pred() -> spec_fn(char) -> bool {
    |c: char| is_space(c)
}

/// The NUL character, as a predicate.
pub open spec fn nul_pred() -> spec_fn(char) -> bool {
    |c: char| c == '\0'
}

/// `s` without leading and trailing white space.
pub open spec fn trim(s: Seq<char>) -> Seq<char> {
    trim_by(s, space_pred())
}

/// `s` without leading and trailing NUL characters.
pub open spec fn trim_nul(s: Seq<char>) -> Seq<char> {
    trim_by(s, nul_pred())
}

/// A line without the carriage return that ends it, if any.
pub open spec fn strip_cr(s: Seq<char>) -> Seq<char> {
    if s.len() > 0 && s.last() == '\r' {
        s.drop_last()
    } else {
        s
    }
}

/// The lines of `s`: the pieces between line feeds, each without a
/// carriage return before its line feed; a final line feed ends the
/// last line and starts no new one.
pub open spec fn lines(s: Seq<char>) -> Seq<Seq<char>>
    decreases s.len(),
{
    if s.len() == 0 {
        seq![]
    } else {
        match find(s, seq!['\n']) {
            Some(i) => if 0 <= i < s.len() {
                seq![strip_cr(s.take(i))] + lines(s.skip(i + 1))
            } else {
                seq![s]
            },
            None => seq![s],
        }
    }
}

/// Whether `c` is an ASCII decimal digit.
pub open spec fn is_digit(c: char) -> bool {
    '0' <= c && c <= '9'
}

/// Whether `s` is a non-empty run of ASCII decimal digits.
pub open spec fn all_digits(s: Seq<char>) -> bool {
    s.len() > 0 && forall|i: int| 0 <= i < s.len() ==> is_digit(#[trigger] s[i])
}

/// The value of a run of decimal digits.
pub open spec fn digits_value(s: Seq<char>) -> int
    decreases s.len(),
{
    if s.len() == 0 {
        0
    } else {
        digits_value(s.drop_last()) * 10 + (s.last() as int - '0' as int)
    }
}

/// The digits of an unsigned number: `s` without one leading `+`.
pub open spec fn unsigned_digits(s: Seq<char>) -> Seq<char> {
    if s.len() > 0 && s[0] == '+' {
        s.drop_first()
    } else {
        s
    }
}

/// The `u8` written by `s` in decimal, with an optional leading `+`.
pub open spec fn parse_u8(s: Seq<char>) -> Option<u8> {
    let d = unsigned_digits(s);
    if all_digits(d) && digits_value(d) <= 255 {
        Some(digits_value(d) as u8)
    } else {
        None
    }
}

/// The decimal digit for `d`, a number below ten.
pub open spec fn digit_char(d: int) -> char {
    if d == 0 {
        '0'
    } else if d == 1 {
        '1'
    } else if d == 2 {
        '2'
    } else if d == 3 {
        '3'
    } else if d == 4 {
        '4'
    } else if d == 5 {
        '5'
    } else if d == 6 {
        '6'
    } else if d == 7 {
        '7'
    } else if d == 8 {
        '8'
    } else {
        '9'
    }
}

/// `n` written in decimal, without leading zeros.
pub open spec fn decimal(n: nat) -> Seq<char>
    decreases n,
{
    if n < 10 {
        seq![digit_char(n as int)]
    } else {
        decimal(n / 10).push(digit_char((n % 10) as int))
    }
}

/// The views of a sequence of character vectors.
pub open spec fn views(v: Seq<Vec<char>>) -> Seq<Seq<char>> {
    v.map_values(|x: Vec<char>| x@)
}

// ---------------------------------------------------------------------
// Lemmas
// ---------------------------------------------------------------------

/// What `find_from` returns: the first match at or after `i`.
pub proof fn lemma_find_from(s: Seq<char>, p: Seq<char>, i: int)
    requires
        0 <= i,
    ensures
        match find_from(s, p, i) {
            Some(k) => i <= k && matches_at(s, p, k) && forall|m: int|
                i <= m < k ==> !matches_at(s, p, m),
            None => forall|m: int| i <= m ==> !matches_at(s, p, m),
        },
    decreases s.len() + 1 - i,
{
    if i + p.len() > s.len() {
    } else if s.subrange(i, i + p.len()) == p {
    } else {
        lemma_find_from(s, p, i + 1);
    }
}


/// Unfolding `find_from` one step at a position without a match.
pub proof fn lemma_find_from_step(s: Seq<char>, p: Seq<char>, i: int)
    requires
        0 <= i,
        i + p.len() <= s.len(),
        s.subrange(i, i + p.len()) != p,
    ensures
        find_from(s, p, i) == find_from(s, p, i + 1),
{
}

/// A sequence seen through its first `j` elements, one element shorter.
pub proof fn lemma_take_drop_last<A>(s: Seq<A>, j: int)
    requires
        0 < j <= s.len(),
    ensures
        s.take(j).drop_last() == s.take(j - 1),
        s.take(j).last() == s[j - 1],
{
    assert(s.take(j).drop_last() =~= s.take(j - 1));
}

// ---------------------------------------------------------------------
// Conversions between strings and character vectors
// ---------------------------------------------------------------------

/// Copies the characters of a string into a vector.
pub fn chars_of(s: &str) -> (v: Vec<char>)
    ensures
        v@ == s@,
{
    let mut v: Vec<char> = Vec::new();
    for c in it: s.chars()
        invariant
            v@ == it.seq().take(it.index() as int),
    {
        v.push(c);
    }
    v
}

/// `String::push`: appends one character.
#[verifier::external_body]
fn string_push(s: &mut String, c: char)
    ensures
        final(s)@ == old(s)@.push(c),
{
    s.push(c);
}

/// Builds a string from a vector of characters.
pub fn string_of(v: &Vec<char>) -> (s: String)
    ensures
        s@ == v@,
{
    let mut s = String::new();
    let mut i: usize = 0;
    while i < v.len()
        invariant
            i <= v.len(),
            s@ == v@.take(i as int),
        decreases v.len() - i,
    {
        string_push(&mut s, v[i]);
        assert(v@.take(i as int).push(v@[i as int]) =~= v@.take(i + 1));
        i = i + 1;
    }
    assert(v@.take(v.len() as int) =~= v@);
    s
}

// ---------------------------------------------------------------------
// Building character vectors
// ---------------------------------------------------------------------

/// Appends the characters of `x` to `out`.
pub fn append(out: &mut Vec<char>, x: &Vec<char>)
    ensures
        final(out)@ == old(out)@ + x@,
{
    let ghost start = out@;
    let mut i: usize = 0;
    while i < x.len()
        invariant
            i <= x.len(),
            out@ == start + x@.take(i as int),
        decreases x.len() - i,
    {
        out.push(x[i]);
        assert(start + x@.take(i as int) + seq![x@[i as int]] =~= start + x@.take(i + 1));
        i = i + 1;
    }
    assert(x@.take(x.len() as int) =~= x@);
}

/// Appends the characters of `x` to `out`.
pub fn append_str(out: &mut Vec<char>, x: &str)
    ensures
        final(out)@ == old(out)@ + x@,
{
    let v = chars_of(x);
    append(out, &v);
}

/// The characters of `s` from position `a` up to `b`.
pub fn subvec(s: &Vec<char>, a: usize, b: usize) -> (r: Vec<char>)
    requires
        a <= b <= s.len(),
    ensures
        r@ == s@.subrange(a as int, b as int),
{
    let mut r: Vec<char> = Vec::new();
    let mut i: usize = a;
    while i < b
        invariant
            a <= i <= b <= s.len(),
            r@ == s@.subrange(a as int, i as int),
        decreases b - i,
    {
        r.push(s[i]);
        assert(s@.subrange(a as int, i as int).push(s@[i as int]) =~= s@.subrange(
            a as int,
            i + 1,
        ));
        i = i + 1;
    }
    r
}

/// Whether two character vectors hold the same text.
pub fn same_text(x: &Vec<char>, y: &Vec<char>) -> (b: bool)
    ensures
        b == (x@ == y@),
{
    if x.len() != y.len() {
        return false;
    }
    let mut i: usize = 0;
    while i < x.len()
        invariant
            i <= x.len() == y.len(),
            forall|k: int| 0 <= k < i ==> x@[k] == y@[k],
        decreases x.len() - i,
    {
        if x[i] != y[i] {
            return false;
        }
        i = i + 1;
    }
    assert(x@ =~= y@);
    true
}

// ---------------------------------------------------------------------
// Searching
// ---------------------------------------------------------------------

/// Whether `p` occurs in `s` at position `i`.
pub fn matches_at_exec(s: &Vec<char>, p: &Vec<char>, i: usize) -> (b: bool)
    requires
        i + p.len() <= s.len(),
    ensures
        b == (s@.subrange(i as int, i + p.len()) == p@),
{
    let mut k: usize = 0;
    while k < p.len()
        invariant
            k <= p.len(),
            i + p.len() <= s.len(),
            forall|m: int| 0 <= m < k ==> s@[i + m] == p@[m],
        decreases p.len() - k,
    {
        if s[i + k] != p[k] {
            assert(s@.subrange(i as int, i + p.len())[k as int] != p@[k as int]);
            return false;
        }
        k = k + 1;
    }
    assert(s@.subrange(i as int, i + p.len()) =~= p@);
    true
}

/// The first position where `p` occurs in `s`.
pub fn find_exec(s: &Vec<char>, p: &Vec<char>) -> (r: Option<usize>)
    ensures
        match r {
            Some(k) => find(s@, p@) == Some(k as int),
            None => find(s@, p@) is None,
        },
{
    if p.len() > s.len() {
        return None;
    }
    let mut i: usize = 0;
    while i <= s.len() - p.len()
        invariant
            p.len() <= s.len(),
            i <= s.len() - p.len() + 1,
            find(s@, p@) == find_from(s@, p@, i as int),
        decreases s.len() - p.len() + 1 - i,
    {
        if matches_at_exec(s, p, i) {
            return Some(i);
        }
        proof {
            lemma_find_from_step(s@, p@, i as int);
        }
        if i == s.len() - p.len() {
            assert(find_from(s@, p@, i + 1) is None);
            return None;
        }
        i = i + 1;
    }
    None
}

/// Whether `p` occurs in `s`.
pub fn contains_exec(s: &Vec<char>, p: &Vec<char>) -> (b: bool)
    ensures
        b == contains(s@, p@),
{
    find_exec(s, p).is_some()
}

/// Whether `s` begins with `p`.
pub fn starts_with_exec(s: &Vec<char>, p: &Vec<char>) -> (b: bool)
    ensures
        b == starts_with(s@, p@),
{
    if p.len() > s.len() {
        return false;
    }
    let b = matches_at_exec(s, p, 0);
    assert(s@.subrange(0, p@.len() as int) =~= s@.take(p@.len() as int));
    b
}

/// The last position of `c` in `s`.
pub fn rfind_char_exec(s: &Vec<char>, c: char) -> (r: Option<usize>)
    ensures
        match r {
            Some(k) => rfind_char(s@, c) == Some(k as int),
            None => rfind_char(s@, c) is None,
        },
{
    let mut j: usize = s.len();
    assert(s@.take(j as int) =~= s@);
    while j > 0
        invariant
            j <= s.len(),
            rfind_char(s@, c) == rfind_char(s@.take(j as int), c),
        decreases j,
    {
        proof {
            lemma_take_drop_last(s@, j as int);
        }
        if s[j - 1] == c {
            return Some(j - 1);
        }
        j = j - 1;
    }
    None
}

/// The text before the first occurrence of `p`, or all of `s`.
pub fn before_exec(s: &Vec<char>, p: &Vec<char>) -> (r: Vec<char>)
    ensures
        r@ == before(s@, p@),
{
    match find_exec(s, p) {
        Some(i) => {
            proof {
                lemma_find_from(s@, p@, 0);
            }
            subvec(s, 0, i)
        },
        None => subvec(s, 0, s.len()),
    }
}

/// The text after the first occurrence of `p`, if any.
pub fn after_exec(s: &Vec<char>, p: &Vec<char>) -> (r: Option<Vec<char>>)
    ensures
        match r {
            Some(v) => after(s@, p@) == Some(v@),
            None => after(s@, p@) is None,
        },
{
    match find_exec(s, p) {
        Some(i) => {
            proof {
                lemma_find_from(s@, p@, 0);
                assert(matches_at(s@, p@, i as int));
                assert(i + p@.len() <= s@.len());
            }
            assert(i + p.len() <= s.len());
            let start = i + p.len();
            Some(subvec(s, start, s.len()))
        },
        None => None,
    }
}

/// The second piece of `s` split at `p`.
pub fn second_piece_exec(s: &Vec<char>, p: &Vec<char>) -> (r: Option<Vec<char>>)
    ensures
        match r {
            Some(v) => second_piece(s@, p@) == Some(v@),
            None => second_piece(s@, p@) is None,
        },
{
    match after_exec(s, p) {
        Some(rest) => Some(before_exec(&rest, p)),
        None => None,
    }
}


// ---------------------------------------------------------------------
// Trimming
// ---------------------------------------------------------------------

/// Whether `c` is white space (`nul` false) or NUL (`nul` true).
pub open spec fn trim_set(nul: bool) -> spec_fn(char) -> bool {
    if nul {
        nul_pred()
    } else {
        space_pred()
    }
}

/// Whether `c` has the Unicode `White_Space` property.
pub fn is_space_exec(c: char) -> (b: bool)
    ensures
        b == is_space(c),
{
    ('\u{9}' <= c && c <= '\u{d}') || c == ' ' || c == '\u{85}' || c == '\u{a0}' || c
        == '\u{1680}' || ('\u{2000}' <= c && c <= '\u{200a}') || c == '\u{2028}' || c
        == '\u{2029}' || c == '\u{202f}' || c == '\u{205f}' || c == '\u{3000}'
}

fn in_trim_set(c: char, nul: bool) -> (b: bool)
    ensures
        b == trim_set(nul)(c),
{
    if nul {
        c == '\0'
    } else {
        is_space_exec(c)
    }
}

/// `s` without leading and trailing characters of the chosen set.
fn trim_with(s: &Vec<char>, nul: bool) -> (r: Vec<char>)
    ensures
        r@ == trim_by(s@, trim_set(nul)),
{
    let ghost f = trim_set(nul);
    let mut i: usize = 0;
    assert(s@.skip(0) =~= s@);
    while i < s.len() && in_trim_set(s[i], nul)
        invariant
            i <= s.len(),
            f == trim_set(nul),
            trim_start_by(s@, f) == trim_start_by(s@.skip(i as int), f),
        decreases s.len() - i,
    {
        assert(s@.skip(i as int).drop_first() =~= s@.skip(i + 1));
        i = i + 1;
    }
    assert(trim_start_by(s@, f) == s@.skip(i as int));
    assert(s@.skip(i as int) =~= s@.subrange(i as int, s.len() as int));
    let mut j: usize = s.len();
    while j > i && in_trim_set(s[j - 1], nul)
        invariant
            i <= j <= s.len(),
            f == trim_set(nul),
            trim_end_by(s@.subrange(i as int, s.len() as int), f) == trim_end_by(
                s@.subrange(i as int, j as int),
                f,
            ),
        decreases j,
    {
        assert(s@.subrange(i as int, j as int).drop_last() =~= s@.subrange(
            i as int,
            j - 1,
        ));
        j = j - 1;
    }
    subvec(s, i, j)
}

/// `s` without leading and trailing white space.
pub fn trim_exec(s: &Vec<char>) -> (r: Vec<char>)
    ensures
        r@ == trim(s@),
{
    trim_with(s, false)
}

/// `s` without leading and trailing NUL characters.
pub fn trim_nul_exec(s: &Vec<char>) -> (r: Vec<char>)
    ensures
        r@ == trim_nul(s@),
{
    trim_with(s, true)
}

// ---------------------------------------------------------------------
// Lines
// ---------------------------------------------------------------------

/// `find_from` finds the first match at or after `i`.
pub proof fn lemma_find_from_first(s: Seq<char>, p: Seq<char>, i: int, k: int)
    requires
        0 <= i <= k,
        matches_at(s, p, k),
        forall|m: int| i <= m < k ==> !matches_at(s, p, m),
    ensures
        find_from(s, p, i) == Some(k),
    decreases k - i,
{
    if i < k {
        assert(!matches_at(s, p, i));
        lemma_find_from_first(s, p, i + 1, k);
    }
}

/// `find_from` finds nothing where nothing matches.
pub proof fn lemma_find_from_none(s: Seq<char>, p: Seq<char>, i: int)
    requires
        0 <= i,
        forall|m: int| i <= m ==> !matches_at(s, p, m),
    ensures
        find_from(s, p, i) is None,
    decreases s.len() + 1 - i,
{
    if i + p.len() <= s.len() {
        assert(!matches_at(s, p, i));
        lemma_find_from_none(s, p, i + 1);
    }
}

/// A one-character pattern matches exactly where that character stands.
pub proof fn lemma_matches_char(s: Seq<char>, c: char, m: int)
    ensures
        matches_at(s, seq![c], m) <==> (0 <= m < s.len() && s[m] == c),
{
    if 0 <= m < s.len() {
        if s[m] == c {
            assert(s.subrange(m, m + 1) =~= seq![c]);
        } else {
            assert(s.subrange(m, m + 1)[0] != seq![c][0]);
        }
    }
}

/// A line without line feeds, followed by a line feed and more text, is
/// the first of the lines of the whole.
pub proof fn lemma_lines_cons(a: Seq<char>, b: Seq<char>)
    requires
        forall|m: int| 0 <= m < a.len() ==> a[m] != '\n',
    ensures
        lines(a + seq!['\n'] + b) == seq![strip_cr(a)] + lines(b),
{
    let s = a + seq!['\n'] + b;
    assert forall|m: int| 0 <= m < a.len() implies !matches_at(s, seq!['\n'], m) by {
        lemma_matches_char(s, '\n', m);
        assert(s[m] == a[m]);
    }
    lemma_matches_char(s, '\n', a.len() as int);
    lemma_find_from_first(s, seq!['\n'], 0, a.len() as int);
    assert(s.take(a.len() as int) =~= a);
    assert(s.skip(a.len() as int + 1) =~= b);
}

/// The lines of `s`.
pub fn lines_exec(s: &Vec<char>) -> (r: Vec<Vec<char>>)
    ensures
        views(r@) == lines(s@),
{
    let mut out: Vec<Vec<char>> = Vec::new();
    let mut a: usize = 0;
    let mut j: usize = 0;
    assert(s@.skip(0) =~= s@);
    assert(views(out@) =~= Seq::<Seq<char>>::empty());
    while j < s.len()
        invariant
            a <= j <= s.len(),
            lines(s@) == views(out@) + lines(s@.skip(a as int)),
            forall|m: int| a <= m < j ==> s@[m] != '\n',
        decreases s.len() - j,
    {
        if s[j] == '\n' {
            let ghost x = s@.skip(a as int);
            let ghost k = j - a;
            proof {
                assert forall|m: int| 0 <= m < k implies !matches_at(x, seq!['\n'], m) by {
                    lemma_matches_char(x, '\n', m);
                }
                lemma_matches_char(x, '\n', k);
                lemma_find_from_first(x, seq!['\n'], 0, k);
                assert(x.take(k) =~= s@.subrange(a as int, j as int));
                assert(x.skip(k + 1) =~= s@.skip(j + 1));
            }
            let piece = subvec(s, a, j);
            let line = if piece.len() > 0 && piece[piece.len() - 1] == '\r' {
                let n = piece.len() - 1;
                let l = subvec(&piece, 0, n);
                assert(l@ =~= piece@.drop_last());
                l
            } else {
                piece
            };
            let ghost before_push = out@;
            out.push(line);
            proof {
                assert(views(out@) =~= views(before_push) + seq![strip_cr(x.take(k))]);
                assert(views(out@) + lines(s@.skip(j + 1)) =~= views(before_push) + lines(
                    x,
                ));
            }
            a = j + 1;
        }
        j = j + 1;
    }
    let ghost x = s@.skip(a as int);
    if a < s.len() {
        proof {
            assert forall|m: int| 0 <= m implies !matches_at(x, seq!['\n'], m) by {
                lemma_matches_char(x, '\n', m);
            }
            lemma_find_from_none(x, seq!['\n'], 0);
        }
        let last = subvec(s, a, s.len());
        assert(last@ =~= x);
        let ghost before_push = out@;
        out.push(last);
        assert(views(out@) =~= views(before_push) + seq![x]);
    } else {
        assert(x.len() == 0);
        assert(views(out@) + lines(x) =~= views(out@));
    }
    out
}

// ---------------------------------------------------------------------
// Numbers
// ---------------------------------------------------------------------

/// A run of digits has a value at least that of each of its prefixes.
pub proof fn lemma_digits_value_prefix(d: Seq<char>, k: int)
    requires
        0 <= k <= d.len(),
        forall|i: int| 0 <= i < d.len() ==> is_digit(#[trigger] d[i]),
    ensures
        0 <= digits_value(d.take(k)) <= digits_value(d),
    decreases d.len(),
{
    if k == d.len() {
        assert(d.take(k) =~= d);
        lemma_digits_value_nonneg(d);
    } else {
        assert forall|i: int| 0 <= i < d.drop_last().len() implies is_digit(
            #[trigger] d.drop_last()[i],
        ) by {
            assert(d.drop_last()[i] == d[i]);
        }
        lemma_digits_value_prefix(d.drop_last(), k);
        assert(d.drop_last().take(k) =~= d.take(k));
        assert(is_digit(d[d.len() - 1]));
    }
}

/// A run of digits has a value of zero or more.
pub proof fn lemma_digits_value_nonneg(d: Seq<char>)
    requires
        forall|i: int| 0 <= i < d.len() ==> is_digit(#[trigger] d[i]),
    ensures
        0 <= digits_value(d),
    decreases d.len(),
{
    if d.len() > 0 {
        assert forall|i: int| 0 <= i < d.drop_last().len() implies is_digit(
            #[trigger] d.drop_last()[i],
        ) by {
            assert(d.drop_last()[i] == d[i]);
        }
        lemma_digits_value_nonneg(d.drop_last());
        assert(is_digit(d[d.len() - 1]));
    }
}

/// The `u8` written by `s` in decimal, with an optional leading `+`.
pub fn parse_u8_exec(s: &Vec<char>) -> (r: Option<u8>)
    ensures
        r == parse_u8(s@),
{
    let k: usize = if s.len() > 0 && s[0] == '+' {
        1
    } else {
        0
    };
    let ghost d = unsigned_digits(s@);
    assert(d =~= s@.skip(k as int));
    if k == s.len() {
        return None;
    }
    let mut v: u32 = 0;
    let mut i: usize = k;
    assert(s@.subrange(k as int, k as int) =~= Seq::<char>::empty());
    while i < s.len()
        invariant
            k <= i <= s.len(),
            k < s.len(),
            d =~= s@.skip(k as int),
            d == unsigned_digits(s@),
            forall|m: int| k <= m < i ==> is_digit(#[trigger] s@[m]),
            v == digits_value(s@.subrange(k as int, i as int)),
            v <= 255,
        decreases s.len() - i,
    {
        let c = s[i];
        if !('0' <= c && c <= '9') {
            assert(!is_digit(d[i - k]));
            assert(!all_digits(d));
            return None;
        }
        assert(s@.subrange(k as int, i + 1).drop_last() =~= s@.subrange(k as int, i as int));
        v = v * 10 + (c as u32 - '0' as u32);
        if v > 255 {
            proof {
                if all_digits(d) {
                    assert(d.take(i + 1 - k) =~= s@.subrange(k as int, i + 1));
                    lemma_digits_value_prefix(d, i + 1 - k);
                    assert(digits_value(d) > 255);
                }
            }
            return None;
        }
        i = i + 1;
    }
    assert(s@.subrange(k as int, s.len() as int) =~= d);
    Some(v as u8)
}

/// The digit character for `d`, a number below ten.
fn digit_char_exec(d: u32) -> (c: char)
    requires
        d < 10,
    ensures
        c == digit_char(d as int),
{
    if d == 0 {
        '0'
    } else if d == 1 {
        '1'
    } else if d == 2 {
        '2'
    } else if d == 3 {
        '3'
    } else if d == 4 {
        '4'
    } else if d == 5 {
        '5'
    } else if d == 6 {
        '6'
    } else if d == 7 {
        '7'
    } else if d == 8 {
        '8'
    } else {
        '9'
    }
}

/// `n` written in decimal.
pub fn decimal_exec(n: u32) -> (r: Vec<char>)
    ensures
        r@ == decimal(n as nat),
    decreases n,
{
    if n < 10 {
        let mut r: Vec<char> = Vec::new();
        r.push(digit_char_exec(n));
        assert(r@ =~= seq![digit_char(n as int)]);
        r
    } else {
        let mut r = decimal_exec(n / 10);
        r.push(digit_char_exec(n % 10));
        r
    }
}

} // verus!
