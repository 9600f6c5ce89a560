//! Character and string foundations: lower-casing, character classes,
//! tokenisation into words, and substring search.
//!
//! The Unicode-dependent pieces (case folding and character classes) are
//! delegated to the standard library behind named, trusted specifications;
//! everything built on top of them is verified.

use vstd::prelude::*;

verus! {

/// The sequence of characters that `str::to_lowercase` yields for `s`:
/// a pure function of the characters alone.
pub uninterp spec fn lower_of(s: Seq<char>) -> Seq<char>;

/// Whether `char::is_alphanumeric` holds of `c` (a Unicode property).
pub uninterp spec fn alnum_char(c: char) -> bool;

/// Whether `char::is_whitespace` holds of `c` (a Unicode property).
pub uninterp spec fn space_char(c: char) -> bool;

/// Relies on str::to_lowercase: the result depends on the characters alone,
/// and lower-casing an empty string yields an empty string.
#[verifier::external_body]
pub fn lower(s: &str) -> (r: String)
    ensures
        r@ == lower_of(s@),
        s@.len() == 0 ==> r@.len() == 0,
{
    s.to_lowercase()
}

/// Relies on char::is_alphanumeric: a pure Unicode character class test.
#[verifier::external_body]
pub fn is_alnum(c: char) -> (r: bool)
    ensures
        r == alnum_char(c),
{
    c.is_alphanumeric()
}

/// Relies on char::is_whitespace: a pure Unicode character class test.
#[verifier::external_body]
pub fn is_space(c: char) -> (r: bool)
    ensures
        r == space_char(c),
{
    c.is_whitespace()
}

/// Relies on String::push: appends one character at the end of the string.
#[verifier::external_body]
pub fn push_char(s: &mut String, c: char)
    ensures
        final(s)@ == old(s)@.push(c),
{
    s.push(c)
}

/// The characters of `s`, in order, as a vector.
pub fn chars_vec(s: &str) -> (r: Vec<char>)
    ensures
        r@ == s@,
{
    let mut r: Vec<char> = Vec::new();
    for c in it: s.chars()
        invariant
            it.seq() == s@,
            r@ == it.seq().subrange(0, it.index() as int),
    {
        r.push(c);
    }
    assert(r@ =~= s@);
    r
}

/// The views of a sequence of strings.
pub open spec fn views_of(ws: Seq<String>) -> Seq<Seq<char>> {
    ws.map_values(|w: String| w@)
}

/// Maximal runs of characters satisfying `p`, scanned left to right;
/// `cur` is the partial run already collected.
pub open spec fn runs_rec(s: Seq<char>, p: spec_fn(char) -> bool, cur: Seq<char>) -> Seq<
    Seq<char>,
>
    decreases s.len(),
{
    if s.len() == 0 {
        if cur.len() == 0 {
            Seq::empty()
        } else {
            seq![cur]
        }
    } else if p(s[0]) {
        runs_rec(s.drop_first(), p, cur.push(s[0]))
    } else if cur.len() == 0 {
        runs_rec(s.drop_first(), p, Seq::empty())
    } else {
        seq![cur] + runs_rec(s.drop_first(), p, Seq::empty())
    }
}

/// The maximal non-empty runs of characters of `s` satisfying `p`, in order.
pub open spec fn runs(s: Seq<char>, p: spec_fn(char) -> bool) -> Seq<Seq<char>> {
    runs_rec(s, p, Seq::empty())
}

/// The run predicate selecting alphanumeric characters.
pub open spec fn alnum_pred() -> spec_fn(char) -> bool {
    |c: char| alnum_char(c)
}

/// The run predicate selecting non-whitespace characters.
pub open spec fn nonspace_pred() -> spec_fn(char) -> bool {
    |c: char| !space_char(c)
}

pub open spec fn run_pred(alnum_mode: bool) -> spec_fn(char) -> bool {
    if alnum_mode {
        alnum_pred()
    } else {
        nonspace_pred()
    }
}

/// The words of a text: lower-case it, split into alphanumeric tokens,
/// drop the empties.
pub open spec fn words_of(s: Seq<char>) -> Seq<Seq<char>> {
    runs(lower_of(s), alnum_pred())
}

/// The whitespace-separated words of an (already prepared) text.
pub open spec fn space_split(s: Seq<char>) -> Seq<Seq<char>> {
    runs(s, nonspace_pred())
}

/// Split `s` into its maximal runs of characters that are alphanumeric
/// (when `alnum_mode` holds) or non-whitespace (otherwise).
pub fn split_runs(s: &Vec<char>, alnum_mode: bool) -> (r: Vec<String>)
    ensures
        views_of(r@) == runs(s@, run_pred(alnum_mode)),
{
    let ghost p = run_pred(alnum_mode);
    let mut out: Vec<String> = Vec::new();
    let mut cur: String = String::new();
    let mut i: usize = 0;
    proof {
        assert(s@.skip(0) =~= s@);
        assert(views_of(out@) =~= Seq::<Seq<char>>::empty());
        assert(Seq::<Seq<char>>::empty() + runs_rec(s@, p, cur@) =~= runs_rec(s@, p, cur@));
    }
    while i < s.len()
        invariant
            i <= s.len(),
            p == run_pred(alnum_mode),
            runs(s@, p) == views_of(out@) + runs_rec(s@.skip(i as int), p, cur@),
        decreases s.len() - i,
    {
        let c = s[i];
        let keep = if alnum_mode {
            is_alnum(c)
        } else {
            !is_space(c)
        };
        proof {
            assert(s@.skip(i as int).len() > 0);
            assert(s@.skip(i as int)[0] == s@[i as int]);
            assert(s@.skip(i as int).drop_first() =~= s@.skip(i as int + 1));
            assert(p(c) == (if alnum_mode {
                alnum_char(c)
            } else {
                !space_char(c)
            }));
        }
        if keep {
            let ghost old_cur = cur@;
            push_char(&mut cur, c);
            proof {
                assert(cur@ == old_cur.push(c));
                assert(runs_rec(s@.skip(i as int), p, old_cur) == runs_rec(
                    s@.skip(i as int + 1),
                    p,
                    cur@,
                ));
            }
        } else {
            if !cur.as_str().is_empty() {
                let ghost old_out = out@;
                let ghost w = cur@;
                proof {
                    assert(runs_rec(s@.skip(i as int), p, w) == seq![w] + runs_rec(
                        s@.skip(i as int + 1),
                        p,
                        Seq::empty(),
                    ));
                }
                out.push(cur);
                cur = String::new();
                proof {
                    assert(views_of(out@) =~= views_of(old_out).push(w));
                    assert(cur@ =~= Seq::<char>::empty());
                    assert(views_of(old_out) + (seq![w] + runs_rec(
                        s@.skip(i as int + 1),
                        p,
                        cur@,
                    )) =~= views_of(out@) + runs_rec(s@.skip(i as int + 1), p, cur@));
                }
            } else {
                proof {
                    assert(cur@ =~= Seq::<char>::empty());
                    assert(runs_rec(s@.skip(i as int), p, cur@) == runs_rec(
                        s@.skip(i as int + 1),
                        p,
                        cur@,
                    ));
                }
            }
        }
        i = i + 1;
    }
    proof {
        assert(s@.skip(i as int) =~= Seq::<char>::empty());
    }
    if !cur.as_str().is_empty() {
        let ghost old_out = out@;
        let ghost w = cur@;
        out.push(cur);
        proof {
            assert(views_of(out@) =~= views_of(old_out).push(w));
            assert(views_of(old_out) + seq![w] =~= views_of(out@));
        }
    } else {
        proof {
            assert(views_of(out@) + Seq::<Seq<char>>::empty() =~= views_of(out@));
        }
    }
    out
}

/// Extract words from a string: lower-case it and split on
/// non-alphanumeric characters, dropping empties.
pub fn extract_words(s: &str) -> (r: Vec<String>)
    ensures
        views_of(r@) == words_of(s@),
{
    let low = lower(s);
    let cs = chars_vec(low.as_str());
    split_runs(&cs, true)
}

/// `nd` occurs in `hay` starting at position `i`.
pub open spec fn has_substring_at(hay: Seq<char>, nd: Seq<char>, i: int) -> bool {
    0 <= i && i + nd.len() <= hay.len() && hay.subrange(i, i + nd.len()) == nd
}

/// `nd` occurs somewhere in `hay`.
pub open spec fn has_substring(hay: Seq<char>, nd: Seq<char>) -> bool {
    exists|i: int| has_substring_at(hay, nd, i)
}

/// Does `nd` occur in `hay` at exactly position `i`?
fn match_at(hay: &Vec<char>, nd: &Vec<char>, i: usize) -> (r: bool)
    requires
        i + nd@.len() <= hay@.len(),
    ensures
        r == has_substring_at(hay@, nd@, i as int),
{
    let hay_len = hay.len();
    let mut j: usize = 0;
    while j < nd.len()
        invariant
            i + nd@.len() <= hay@.len(),
            hay_len == hay@.len(),
            j <= nd.len(),
            forall|k: int| 0 <= k < j ==> hay@[i + k] == nd@[k],
        decreases nd.len() - j,
    {
        if hay[i + j] != nd[j] {
            assert(hay@.subrange(i as int, i + nd@.len())[j as int] != nd@[j as int]);
            return false;
        }
        j = j + 1;
    }
    proof {
        assert(hay@.subrange(i as int, i + nd@.len()) =~= nd@);
    }
    true
}

/// Substring search over character vectors.
pub fn contains_chars(hay: &Vec<char>, nd: &Vec<char>) -> (r: bool)
    ensures
        r == has_substring(hay@, nd@),
{
    if nd.len() > hay.len() {
        assert(forall|i: int| !has_substring_at(hay@, nd@, i));
        return false;
    }
    if nd.len() == 0 {
        proof {
            assert(hay@.subrange(0, 0) =~= nd@);
            assert(has_substring_at(hay@, nd@, 0));
        }
        return true;
    }
    let last = hay.len() - nd.len();
    let mut i: usize = 0;
    while i <= last
        invariant
            1 <= nd.len() <= hay.len(),
            last == hay.len() - nd.len(),
            i <= last + 1,
            forall|k: int| 0 <= k < i ==> !has_substring_at(hay@, nd@, k),
        decreases last + 1 - i,
    {
        if match_at(hay, nd, i) {
            return true;
        }
        i = i + 1;
    }
    assert(forall|k: int| k > last ==> !has_substring_at(hay@, nd@, k));
    false
}

/// Does the character vector contain the literal `nd` as a substring?
pub fn contains_lit(hay: &Vec<char>, nd: &str) -> (r: bool)
    ensures
        r == has_substring(hay@, nd@),
{
    let nv = chars_vec(nd);
    contains_chars(hay, &nv)
}

/// Is every character of `s` whitespace?  (True of the empty string;
/// false exactly when `s` keeps a character after trimming.)
pub fn all_space(s: &str) -> (r: bool)
    ensures
        r == (forall|i: int| 0 <= i < s@.len() ==> space_char(s@[i])),
{
    let cs = chars_vec(s);
    for i in 0..cs.len()
        invariant
            cs@ == s@,
            forall|j: int| 0 <= j < i ==> space_char(s@[j]),
    {
        if !is_space(cs[i]) {
            return false;
        }
    }
    true
}

/// Build a string from a vector of characters.
pub fn string_of_chars(v: &Vec<char>) -> (r: String)
    ensures
        r@ == v@,
{
    let mut r = String::new();
    let mut i: usize = 0;
    while i < v.len()
        invariant
            i <= v@.len(),
            r@ == v@.take(i as int),
        decreases v@.len() - i,
    {
        proof {
            assert(v@.take(i as int + 1) =~= v@.take(i as int).push(v@[i as int]));
        }
        push_char(&mut r, v[i]);
        i = i + 1;
    }
    proof {
        assert(v@.take(v@.len() as int) =~= v@);
    }
    r
}

/// A line with a carriage return dropped from its end, if one is there.
pub open spec fn strip_cr(l: Seq<char>) -> Seq<char> {
    if l.len() > 0 && l.last() == '\r' {
        l.drop_last()
    } else {
        l
    }
}

/// The lines of a text, scanned left to right with the partial line `cur`:
/// split at each newline, dropping a carriage return before it; a final line
/// ending is optional.
pub open spec fn lines_rec(s: Seq<char>, cur: Seq<char>) -> Seq<Seq<char>>
    decreases s.len(),
{
    if s.len() == 0 {
        if cur.len() == 0 {
            Seq::empty()
        } else {
            seq![cur]
        }
    } else if s[0] == '\n' {
        seq![strip_cr(cur)] + lines_rec(s.drop_first(), Seq::empty())
    } else {
        lines_rec(s.drop_first(), cur.push(s[0]))
    }
}

/// The lines of a text.
pub open spec fn lines_of(s: Seq<char>) -> Seq<Seq<char>> {
    lines_rec(s, Seq::empty())
}

/// Split a text into its lines.
pub fn split_lines(s: &str) -> (r: Vec<String>)
    ensures
        views_of(r@) == lines_of(s@),
{
    let cs = chars_vec(s);
    let mut out: Vec<String> = Vec::new();
    let mut cur: Vec<char> = Vec::new();
    let mut i: usize = 0;
    proof {
        assert(cs@.skip(0) =~= cs@);
        assert(views_of(out@) =~= Seq::<Seq<char>>::empty());
        assert(Seq::<Seq<char>>::empty() + lines_rec(cs@, cur@) =~= lines_rec(cs@, cur@));
    }
    while i < cs.len()
        invariant
            i <= cs@.len(),
            cs@ == s@,
            lines_of(s@) == views_of(out@) + lines_rec(s@.skip(i as int), cur@),
        decreases cs@.len() - i,
    {
        let c = cs[i];
        proof {
            assert(s@.skip(i as int).len() > 0);
            assert(s@.skip(i as int)[0] == s@[i as int]);
            assert(s@.skip(i as int).drop_first() =~= s@.skip(i as int + 1));
        }
        if c == '\n' {
            let ghost old_out = out@;
            let ghost w = cur@;
            if cur.len() > 0 && cur[cur.len() - 1] == '\r' {
                let _ = cur.pop();
                proof {
                    assert(cur@ =~= strip_cr(w));
                }
            }
            proof {
                assert(cur@ == strip_cr(w));
            }
            let line = string_of_chars(&cur);
            out.push(line);
            cur = Vec::new();
            proof {
                assert(views_of(out@) =~= views_of(old_out).push(strip_cr(w)));
                assert(views_of(old_out) + (seq![strip_cr(w)] + lines_rec(
                    s@.skip(i as int + 1),
                    Seq::empty(),
                )) =~= views_of(out@) + lines_rec(s@.skip(i as int + 1), cur@));
            }
        } else {
            cur.push(c);
        }
        i = i + 1;
    }
    proof {
        assert(s@.skip(i as int) =~= Seq::<char>::empty());
    }
    if cur.len() > 0 {
        let ghost old_out = out@;
        let ghost w = cur@;
        let line = string_of_chars(&cur);
        out.push(line);
        proof {
            assert(views_of(out@) =~= views_of(old_out).push(w));
            assert(views_of(old_out) + seq![w] =~= views_of(out@));
        }
    } else {
        proof {
            assert(views_of(out@) + Seq::<Seq<char>>::empty() =~= views_of(out@));
        }
    }
    out
}

/// The text with its leading whitespace dropped.
pub open spec fn trim_front(s: Seq<char>) -> Seq<char>
    decreases s.len(),
{
    if s.len() > 0 && space_char(s[0]) {
        trim_front(s.drop_first())
    } else {
        s
    }
}

/// The text with its trailing whitespace dropped.
pub open spec fn trim_back(s: Seq<char>) -> Seq<char>
    decreases s.len(),
{
    if s.len() > 0 && space_char(s.last()) {
        trim_back(s.drop_last())
    } else {
        s
    }
}

/// The text with whitespace dropped from both ends.
pub open spec fn trim_spec(s: Seq<char>) -> Seq<char> {
    trim_back(trim_front(s))
}

/// Trim whitespace from both ends of a character vector.
pub fn trim_chars(v: &Vec<char>) -> (r: Vec<char>)
    ensures
        r@ == trim_spec(v@),
{
    let mut start: usize = 0;
    proof {
        assert(v@.skip(0) =~= v@);
    }
    while start < v.len() && is_space(v[start])
        invariant
            start <= v@.len(),
            trim_front(v@) == trim_front(v@.skip(start as int)),
        decreases v@.len() - start,
    {
        proof {
            assert(v@.skip(start as int).len() > 0);
            assert(v@.skip(start as int)[0] == v@[start as int]);
            assert(v@.skip(start as int).drop_first() =~= v@.skip(start as int + 1));
        }
        start = start + 1;
    }
    proof {
        if start < v@.len() {
            assert(v@.skip(start as int)[0] == v@[start as int]);
        }
        assert(trim_front(v@) == v@.skip(start as int));
    }
    let mut end: usize = v.len();
    proof {
        assert(v@.skip(start as int).take(end - start) =~= v@.skip(start as int));
    }
    while end > start && is_space(v[end - 1])
        invariant
            start <= end <= v@.len(),
            trim_front(v@) == v@.skip(start as int),
            trim_back(v@.skip(start as int)) == trim_back(
                v@.skip(start as int).take(end - start),
            ),
        decreases end,
    {
        proof {
            let t = v@.skip(start as int).take(end - start);
            assert(t.last() == v@[end - 1]);
            assert(t.drop_last() =~= v@.skip(start as int).take(end - 1 - start));
        }
        end = end - 1;
    }
    proof {
        let t = v@.skip(start as int).take(end - start);
        if end > start {
            assert(t.last() == v@[end - 1]);
        }
        assert(trim_back(t) == t);
    }
    let mut r: Vec<char> = Vec::new();
    let mut i: usize = start;
    while i < end
        invariant
            start <= i <= end <= v@.len(),
            r@ =~= v@.skip(start as int).take(i - start),
        decreases end - i,
    {
        proof {
            assert(v@.skip(start as int).take(i + 1 - start) =~= v@.skip(start as int).take(
                i - start,
            ).push(v@[i as int]));
        }
        r.push(v[i]);
        i = i + 1;
    }
    r
}

/// Trim whitespace from both ends of a string.
pub fn trim_str(s: &str) -> (r: String)
    ensures
        r@ == trim_spec(s@),
{
    let cs = chars_vec(s);
    let t = trim_chars(&cs);
    string_of_chars(&t)
}

/// A decimal digit.
pub open spec fn dec_digit(c: char) -> bool {
    '0' <= c && c <= '9'
}

/// The numeric value of a sequence of decimal digits.
pub open spec fn digits_val(s: Seq<char>) -> int
    decreases s.len(),
{
    if s.len() == 0 {
        0
    } else {
        digits_val(s.drop_last()) * 10 + (s.last() as int - '0' as int)
    }
}

/// The digit part of a decimal string: one leading plus sign is accepted.
pub open spec fn u64_digits(s: Seq<char>) -> Seq<char> {
    if s.len() > 0 && s[0] == '+' {
        s.drop_first()
    } else {
        s
    }
}

/// The string parses as an unsigned 64-bit decimal number.
pub open spec fn is_u64_str(s: Seq<char>) -> bool {
    let d = u64_digits(s);
    &&& d.len() > 0
    &&& forall|i: int| 0 <= i < d.len() ==> dec_digit(#[trigger] d[i])
    &&& digits_val(d) <= u64::MAX
}

proof fn lemma_digits_val_bounds(s: Seq<char>)
    requires
        forall|i: int| 0 <= i < s.len() ==> dec_digit(#[trigger] s[i]),
    ensures
        digits_val(s) >= 0,
        forall|k: int| 0 <= k <= s.len() ==> digits_val(#[trigger] s.take(k)) <= digits_val(s),
    decreases s.len(),
{
    if s.len() == 0 {
        assert forall|k: int| 0 <= k <= s.len() implies digits_val(#[trigger] s.take(k))
            <= digits_val(s) by {
            assert(s.take(k) =~= s);
        }
    } else {
        assert(forall|i: int|
            0 <= i < s.drop_last().len() ==> dec_digit(#[trigger] s.drop_last()[i]));
        lemma_digits_val_bounds(s.drop_last());
        assert(digits_val(s) >= digits_val(s.drop_last()));
        assert forall|k: int| 0 <= k <= s.len() implies digits_val(#[trigger] s.take(k))
            <= digits_val(s) by {
            if k == s.len() {
                assert(s.take(k) =~= s);
            } else {
                assert(s.take(k) =~= s.drop_last().take(k));
            }
        }
    }
}

/// Parse an unsigned decimal number, as the standard integer parser reads
/// it: optional leading plus, at least one digit, no overflow.
pub fn parse_u64(s: &str) -> (r: Option<u64>)
    ensures
        match r {
            Some(v) => is_u64_str(s@) && v == digits_val(u64_digits(s@)),
            None => !is_u64_str(s@),
        },
{
    let cs = chars_vec(s);
    let start: usize = if cs.len() > 0 && cs[0] == '+' {
        1
    } else {
        0
    };
    proof {
        assert(u64_digits(s@) =~= s@.skip(start as int));
    }
    let ghost d = u64_digits(s@);
    if cs.len() == start {
        return None;
    }
    let mut acc: u64 = 0;
    let mut i: usize = start;
    while i < cs.len()
        invariant
            start <= i <= cs@.len(),
            cs@ == s@,
            start < cs@.len(),
            d == u64_digits(s@),
            d =~= s@.skip(start as int),
            forall|j: int| 0 <= j < i - start ==> dec_digit(#[trigger] d[j]),
            acc == digits_val(d.take(i - start)),
        decreases cs@.len() - i,
    {
        let c = cs[i];
        if !(c >= '0' && c <= '9') {
            proof {
                assert(d[i - start] == s@[i as int]);
                assert(!dec_digit(d[i - start]));
            }
            return None;
        }
        let digit: u64 = (c as u32 as u64) - ('0' as u32 as u64);
        proof {
            assert(d[i - start] == s@[i as int]);
            assert(dec_digit(d[i - start]));
            assert(digit == s@[i as int] as int - '0' as int);
        }
        if acc > (u64::MAX - digit) / 10 {
            proof {
                assert(forall|j: int| 0 <= j <= i - start ==> dec_digit(#[trigger] d[j]));
                if is_u64_str(s@) {
                    lemma_digits_val_bounds(d);
                    assert(digits_val(d.take(i + 1 - start)) <= digits_val(d));
                    assert(d.take(i + 1 - start).drop_last() =~= d.take(i - start));
                    assert(d.take(i + 1 - start).last() == d[i - start]);
                    assert(digits_val(d.take(i + 1 - start)) == acc * 10 + digit);
                }
            }
            return None;
        }
        proof {
            assert(d.take(i + 1 - start).drop_last() =~= d.take(i - start));
            assert(d.take(i + 1 - start).last() == d[i - start]);
        }
        acc = acc * 10 + digit;
        i = i + 1;
    }
    proof {
        assert(d.take(i - start) =~= d);
        assert(is_u64_str(s@));
    }
    Some(acc)
}

/// Whether two strings consist of the same characters.
pub fn str_eq(a: &str, b: &str) -> (r: bool)
    ensures
        r == (a@ == b@),
{
    let av = chars_vec(a);
    let bv = chars_vec(b);
    if av.len() != bv.len() {
        assert(a@.len() != b@.len());
        return false;
    }
    for i in 0..av.len()
        invariant
            av.len() == bv.len(),
            av@ == a@,
            bv@ == b@,
            forall|j: int| 0 <= j < i ==> av@[j] == bv@[j],
    {
        if av[i] != bv[i] {
            return false;
        }
    }
    assert(a@ =~= b@);
    true
}

} // verus!
