//! Character-sequence utilities shared by the source adapters and the
//! classification normalizer: substring search, splitting, replacement,
//! trimming, case folding and digit parsing. Every exec function is verified
//! against a spec-level definition over `Seq<char>`.

use vstd::prelude::*;
use vstd::string::StrSliceExecFns;

verus! {

/// The pattern `pat` occurs in `s` at position `i`.
pub open spec fn match_at(s: Seq<char>, pat: Seq<char>, i: int) -> bool {
    0 <= i && i + pat.len() <= s.len() && s.subrange(i, i + pat.len() as int) == pat
}

/// The pattern `pat` occurs somewhere in `s`.
pub open spec fn contains_seq(s: Seq<char>, pat: Seq<char>) -> bool {
    exists|i: int| match_at(s, pat, i)
}

/// Position of the leftmost occurrence of `pat` in `s`, if any.
pub open spec fn spec_find(s: Seq<char>, pat: Seq<char>) -> Option<int>
    decreases s.len(),
{
    if s.len() < pat.len() {
        None
    } else if s.subrange(0, pat.len() as int) == pat {
        Some(0)
    } else if s.len() == 0 {
        None
    } else {
        match spec_find(s.skip(1), pat) {
            Some(i) => Some(i + 1),
            None => None,
        }
    }
}

/// `spec_find` returns exactly the first match position.
pub proof fn lemma_find_props(s: Seq<char>, pat: Seq<char>)
    ensures
        spec_find(s, pat) is None ==> forall|k: int| !match_at(s, pat, k),
        spec_find(s, pat) matches Some(i) ==> match_at(s, pat, i) && (forall|k: int|
            0 <= k < i ==> !match_at(s, pat, k)),
    decreases s.len(),
{
    if s.len() < pat.len() {
        assert(forall|k: int| !match_at(s, pat, k));
    } else if s.subrange(0, pat.len() as int) == pat {
        assert(match_at(s, pat, 0));
    } else if s.len() == 0 {
        assert(forall|k: int| !match_at(s, pat, k));
    } else {
        lemma_find_props(s.skip(1), pat);
        assert forall|k: int| 0 <= k implies (match_at(s.skip(1), pat, k) <==> match_at(
            s,
            pat,
            k + 1,
        )) by {
            if k + pat.len() <= s.len() - 1 {
                assert(s.skip(1).subrange(k, k + pat.len() as int) =~= s.subrange(
                    k + 1,
                    k + 1 + pat.len() as int,
                ));
            }
        }
        assert(!match_at(s, pat, 0));
        match spec_find(s.skip(1), pat) {
            Some(i) => {
                assert(match_at(s.skip(1), pat, i));
                assert forall|k: int| 0 <= k < i + 1 implies !match_at(s, pat, k) by {
                    if k > 0 {
                        assert(!match_at(s.skip(1), pat, k - 1));
                    }
                }
            },
            None => {
                assert forall|k: int| !match_at(s, pat, k) by {
                    if k > 0 && match_at(s, pat, k) {
                        assert(match_at(s.skip(1), pat, k - 1));
                    }
                }
            },
        }
    }
}

/// If `pat` occurs at `i` in `s` and nowhere earlier, `spec_find` returns `i`.
pub proof fn lemma_find_unique(s: Seq<char>, pat: Seq<char>, i: int)
    requires
        match_at(s, pat, i),
        forall|k: int| 0 <= k < i ==> !match_at(s, pat, k),
    ensures
        spec_find(s, pat) == Some(i),
{
    lemma_find_props(s, pat);
    match spec_find(s, pat) {
        None => {
            assert(false);
        },
        Some(j) => {
            if j < i {
                assert(!match_at(s, pat, j));
            }
            if i < j {
                assert(!match_at(s, pat, i));
            }
        },
    }
}

/// Does `pat` occur at position `j` of `s`?
pub fn is_match_at(s: &Vec<char>, pat: &Vec<char>, j: usize) -> (r: bool)
    requires
        j + pat@.len() <= s@.len(),
    ensures
        r == match_at(s@, pat@, j as int),
{
    let n: usize = pat.len();
    let slen: usize = s.len();
    let mut k: usize = 0;
    while k < n
        invariant
            n == pat@.len(),
            slen == s@.len(),
            j + n <= slen,
            k <= n,
            forall|m: int| 0 <= m < k ==> s@[j + m] == pat@[m],
        decreases n - k,
    {
        if s[j + k] != pat[k] {
            proof {
                assert(s@.subrange(j as int, j + pat@.len() as int)[k as int] == s@[j + k]);
                assert(s@.subrange(j as int, j + pat@.len() as int) != pat@);
            }
            return false;
        }
        k = k + 1;
    }
    proof {
        assert(s@.subrange(j as int, j + pat@.len() as int) =~= pat@);
    }
    true
}

/// Leftmost occurrence of `pat` in `s`.
pub fn find(s: &Vec<char>, pat: &Vec<char>) -> (r: Option<usize>)
    ensures
        r is Some ==> spec_find(s@, pat@) == Some(r->Some_0 as int),
        r is None ==> spec_find(s@, pat@) is None,
{
    if pat.len() == 0 {
        proof {
            assert(s@.subrange(0, 0) =~= pat@);
        }
        return Some(0);
    }
    if pat.len() > s.len() {
        proof {
            lemma_find_props(s@, pat@);
            match spec_find(s@, pat@) {
                Some(i) => {
                    assert(match_at(s@, pat@, i));
                },
                None => {},
            }
        }
        return None;
    }
    let slen: usize = s.len();
    let bound: usize = slen - pat.len();
    let mut j: usize = 0;
    while j <= bound
        invariant
            0 < pat@.len() <= s@.len(),
            slen == s@.len(),
            bound == s@.len() - pat@.len(),
            j <= bound + 1,
            forall|k: int| 0 <= k < j ==> !match_at(s@, pat@, k),
        decreases bound + 1 - j,
    {
        if is_match_at(s, pat, j) {
            proof {
                lemma_find_unique(s@, pat@, j as int);
            }
            return Some(j);
        }
        j = j + 1;
    }
    proof {
        lemma_find_props(s@, pat@);
        match spec_find(s@, pat@) {
            Some(i) => {
                assert(match_at(s@, pat@, i));
                assert(i > bound);
            },
            None => {},
        }
    }
    None
}

/// Does `pat` occur anywhere in `s`?
pub fn contains(s: &Vec<char>, pat: &Vec<char>) -> (r: bool)
    ensures
        r == contains_seq(s@, pat@),
{
    let found = find(s, pat);
    proof {
        lemma_find_props(s@, pat@);
        match found {
            Some(i) => {
                assert(match_at(s@, pat@, i as int));
            },
            None => {
                if contains_seq(s@, pat@) {
                    let w = choose|i: int| match_at(s@, pat@, i);
                    assert(match_at(s@, pat@, w));
                }
            },
        }
    }
    found.is_some()
}

/// Copy of `s[a..b]`.
pub fn subvec(s: &Vec<char>, a: usize, b: usize) -> (r: Vec<char>)
    requires
        a <= b <= s@.len(),
    ensures
        r@ == s@.subrange(a as int, b as int),
{
    let mut r: Vec<char> = Vec::new();
    let mut i: usize = a;
    while i < b
        invariant
            a <= i <= b <= s@.len(),
            r@ == s@.subrange(a as int, i as int),
        decreases b - i,
    {
        r.push(s[i]);
        proof {
            assert(r@ =~= s@.subrange(a as int, i + 1 as int));
        }
        i = i + 1;
    }
    r
}

/// Collects the characters of a string slice into a vector.
pub fn to_chars(s: &str) -> (r: Vec<char>)
    ensures
        r@ == s@,
{
    let n: usize = s.unicode_len();
    let mut r: Vec<char> = Vec::new();
    let mut i: usize = 0;
    while i < n
        invariant
            n == s@.len(),
            i <= n,
            r@ == s@.subrange(0, i as int),
        decreases n - i,
    {
        r.push(s.get_char(i));
        proof {
            assert(r@ =~= s@.subrange(0, i + 1 as int));
        }
        i = i + 1;
    }
    proof {
        assert(r@ =~= s@);
    }
    r
}

/// Relies on `String: FromIterator<char>` (`collect`): builds the string
/// holding exactly the given characters, in order.
#[verifier::external_body]
pub fn chars_to_string(v: &Vec<char>) -> (r: String)
    ensures
        r@ == v@,
{
    v.iter().collect()
}

/// Are the two character vectors equal?
pub fn chars_eq(a: &Vec<char>, b: &Vec<char>) -> (r: bool)
    ensures
        r == (a@ == b@),
{
    if a.len() != b.len() {
        return false;
    }
    let n: usize = a.len();
    let mut i: usize = 0;
    while i < n
        invariant
            n == a@.len() == b@.len(),
            i <= n,
            forall|m: int| 0 <= m < i ==> a@[m] == b@[m],
        decreases n - i,
    {
        if a[i] != b[i] {
            return false;
        }
        i = i + 1;
    }
    proof {
        assert(a@ =~= b@);
    }
    true
}

/// Appends a copy of `src` to `dst`.
pub fn append_copy(dst: &mut Vec<char>, src: &Vec<char>)
    ensures
        final(dst)@ == old(dst)@ + src@,
{
    let n: usize = src.len();
    let mut i: usize = 0;
    while i < n
        invariant
            n == src@.len(),
            i <= n,
            dst@ == old(dst)@ + src@.subrange(0, i as int),
        decreases n - i,
    {
        dst.push(src[i]);
        proof {
            assert(old(dst)@ + src@.subrange(0, i + 1 as int) =~= (old(dst)@ + src@.subrange(
                0,
                i as int,
            )).push(src@[i as int]));
        }
        i = i + 1;
    }
    proof {
        assert(src@.subrange(0, n as int) =~= src@);
    }
}

/// The segments of `s` between the non-overlapping, leftmost occurrences of
/// `sep`, in order.
pub open spec fn spec_split(s: Seq<char>, sep: Seq<char>) -> Seq<Seq<char>>
    decreases s.len(),
{
    if sep.len() == 0 {
        seq![s]
    } else {
        match spec_find(s, sep) {
            None => seq![s],
            Some(i) => {
                if 0 <= i && i + sep.len() <= s.len() {
                    seq![s.subrange(0, i)] + spec_split(s.skip(i + sep.len() as int), sep)
                } else {
                    seq![s]
                }
            },
        }
    }
}

/// Splits `s` on `sep`.
pub fn split_seq(s: &Vec<char>, sep: &Vec<char>) -> (parts: Vec<Vec<char>>)
    requires
        sep@.len() > 0,
    ensures
        parts.deep_view() == spec_split(s@, sep@),
        parts@.len() >= 1,
{
    let mut parts: Vec<Vec<char>> = Vec::new();
    let mut rest: Vec<char> = subvec(s, 0, s.len());
    proof {
        assert(rest@ =~= s@);
        assert(parts.deep_view() + spec_split(rest@, sep@) =~~= spec_split(s@, sep@));
    }
    let mut fin = false;
    while !fin
        invariant
            sep@.len() > 0,
            !fin ==> spec_split(s@, sep@) == parts.deep_view() + spec_split(rest@, sep@),
            fin ==> parts.deep_view() == spec_split(s@, sep@) && parts@.len() >= 1,
        decreases rest@.len() + (if fin {
            0int
        } else {
            1int
        }),
    {
        match find(&rest, sep) {
            None => {
                let ghost old_parts = parts.deep_view();
                let ghost old_rest = rest@;
                parts.push(rest);
                fin = true;
                rest = Vec::new();
                proof {
                    assert(spec_split(old_rest, sep@) == seq![old_rest]);
                    assert(parts.deep_view() =~~= old_parts.push(old_rest));
                    assert(old_parts.push(old_rest) =~~= old_parts + seq![old_rest]);
                }
            },
            Some(i) => {
                proof {
                    lemma_find_props(rest@, sep@);
                    assert(match_at(rest@, sep@, i as int));
                }
                let ghost old_parts = parts.deep_view();
                let ghost old_rest = rest@;
                let rl: usize = rest.len();
                let head = subvec(&rest, 0, i);
                parts.push(head);
                rest = subvec(&rest, i + sep.len(), rl);
                proof {
                    assert(rest@ =~= old_rest.skip(i + sep@.len() as int));
                    assert(parts.deep_view() =~~= old_parts + seq![old_rest.subrange(0, i as int)]);
                    assert(spec_split(old_rest, sep@) == seq![old_rest.subrange(0, i as int)]
                        + spec_split(rest@, sep@));
                    assert(old_parts + spec_split(old_rest, sep@) =~~= parts.deep_view()
                        + spec_split(rest@, sep@));
                }
            },
        }
    }
    parts
}

/// `s` with every non-overlapping, leftmost occurrence of `pat` replaced by
/// `rep`.
pub open spec fn spec_replace(s: Seq<char>, pat: Seq<char>, rep: Seq<char>) -> Seq<char>
    decreases s.len(),
{
    if pat.len() == 0 {
        s
    } else {
        match spec_find(s, pat) {
            None => s,
            Some(i) => {
                if 0 <= i && i + pat.len() <= s.len() {
                    s.subrange(0, i) + rep + spec_replace(s.skip(i + pat.len() as int), pat, rep)
                } else {
                    s
                }
            },
        }
    }
}

/// Replaces every occurrence of `pat` in `s` by `rep`.
pub fn replace_seq(s: &Vec<char>, pat: &Vec<char>, rep: &Vec<char>) -> (r: Vec<char>)
    requires
        pat@.len() > 0,
    ensures
        r@ == spec_replace(s@, pat@, rep@),
{
    let mut out: Vec<char> = Vec::new();
    let mut rest: Vec<char> = subvec(s, 0, s.len());
    proof {
        assert(rest@ =~= s@);
        assert(out@ + spec_replace(rest@, pat@, rep@) =~= spec_replace(s@, pat@, rep@));
    }
    let mut fin = false;
    while !fin
        invariant
            pat@.len() > 0,
            !fin ==> spec_replace(s@, pat@, rep@) == out@ + spec_replace(rest@, pat@, rep@),
            fin ==> out@ == spec_replace(s@, pat@, rep@),
        decreases rest@.len() + (if fin {
            0int
        } else {
            1int
        }),
    {
        match find(&rest, pat) {
            None => {
                append_copy(&mut out, &rest);
                fin = true;
                rest = Vec::new();
            },
            Some(i) => {
                proof {
                    lemma_find_props(rest@, pat@);
                    assert(match_at(rest@, pat@, i as int));
                }
                let ghost old_out = out@;
                let ghost old_rest = rest@;
                let rl: usize = rest.len();
                let head = subvec(&rest, 0, i);
                append_copy(&mut out, &head);
                append_copy(&mut out, rep);
                rest = subvec(&rest, i + pat.len(), rl);
                proof {
                    assert(rest@ =~= old_rest.skip(i + pat@.len() as int));
                    assert(spec_replace(old_rest, pat@, rep@) == old_rest.subrange(0, i as int)
                        + rep@ + spec_replace(rest@, pat@, rep@));
                    assert(old_out + spec_replace(old_rest, pat@, rep@) =~= out@ + spec_replace(
                        rest@,
                        pat@,
                        rep@,
                    ));
                }
            },
        }
    }
    out
}

/// ASCII whitespace, the only whitespace these listings use.
pub open spec fn is_space_char(c: char) -> bool {
    c == ' ' || c == '\t' || c == '\n' || c == '\r'
}

/// `s` without leading whitespace.
pub open spec fn spec_trim_start(s: Seq<char>) -> Seq<char>
    decreases s.len(),
{
    if s.len() > 0 && is_space_char(s[0]) {
        spec_trim_start(s.skip(1))
    } else {
        s
    }
}

/// `s` without trailing whitespace.
pub open spec fn spec_trim_end(s: Seq<char>) -> Seq<char>
    decreases s.len(),
{
    if s.len() > 0 && is_space_char(s[s.len() - 1]) {
        spec_trim_end(s.take(s.len() - 1))
    } else {
        s
    }
}

/// `s` without leading or trailing whitespace.
pub open spec fn spec_trim(s: Seq<char>) -> Seq<char> {
    spec_trim_end(spec_trim_start(s))
}

fn is_space(c: char) -> (r: bool)
    ensures
        r == is_space_char(c),
{
    c == ' ' || c == '\t' || c == '\n' || c == '\r'
}

/// Removes leading and trailing whitespace from `s`.
pub fn trim(s: &Vec<char>) -> (r: Vec<char>)
    ensures
        r@ == spec_trim(s@),
{
    let n: usize = s.len();
    proof {
        assert(s@.skip(0) =~= s@);
    }
    let mut a: usize = 0;
    while a < n && is_space(s[a])
        invariant
            n == s@.len(),
            a <= n,
            spec_trim_start(s@) == spec_trim_start(s@.skip(a as int)),
        decreases n - a,
    {
        proof {
            assert(s@.skip(a as int).skip(1) =~= s@.skip(a + 1 as int));
        }
        a = a + 1;
    }
    proof {
        assert(s@.skip(a as int) =~= s@.subrange(a as int, n as int));
        if a == n {
            assert(s@.skip(a as int).len() == 0);
        }
        assert(spec_trim_start(s@) == s@.skip(a as int));
    }
    let mut b: usize = n;
    proof {
        assert(s@.skip(a as int).take(n - a as int) =~= s@.skip(a as int));
    }
    while b > a && is_space(s[b - 1])
        invariant
            n == s@.len(),
            a <= b <= n,
            spec_trim_start(s@) == s@.skip(a as int),
            spec_trim_end(s@.skip(a as int)) == spec_trim_end(
                s@.skip(a as int).take(b - a as int),
            ),
        decreases b,
    {
        proof {
            let t = s@.skip(a as int).take(b - a as int);
            assert(t.len() == b - a);
            assert(t[t.len() - 1] == s@[b - 1]);
            assert(t.take(t.len() - 1) =~= s@.skip(a as int).take(b - 1 - a as int));
        }
        b = b - 1;
    }
    proof {
        let t = s@.skip(a as int).take(b - a as int);
        if b == a {
            assert(t.len() == 0);
        } else {
            assert(t[t.len() - 1] == s@[b - 1]);
        }
        assert(spec_trim_end(t) == t);
        assert(t =~= s@.subrange(a as int, b as int));
    }
    subvec(s, a, b)
}

/// ASCII lower-casing of one character.
pub open spec fn lower_char(c: char) -> char {
    if 65 <= c as u32 && c as u32 <= 90 {
        ((c as u32 + 32) as u8) as char
    } else {
        c
    }
}

/// ASCII lower-casing of a character sequence.
pub open spec fn spec_lower(s: Seq<char>) -> Seq<char> {
    s.map_values(|c: char| lower_char(c))
}

/// Lower-cases every ASCII letter in `s`.
pub fn lower(s: &Vec<char>) -> (r: Vec<char>)
    ensures
        r@ == spec_lower(s@),
{
    let n: usize = s.len();
    let mut r: Vec<char> = Vec::new();
    let mut i: usize = 0;
    while i < n
        invariant
            n == s@.len(),
            i <= n,
            r@ == spec_lower(s@.subrange(0, i as int)),
        decreases n - i,
    {
        let c = s[i];
        let u: u32 = c as u32;
        let lc: char = if 65 <= u && u <= 90 {
            ((u + 32) as u8) as char
        } else {
            c
        };
        r.push(lc);
        proof {
            assert(lc == lower_char(s@[i as int]));
            assert(r@ =~= spec_lower(s@.subrange(0, i + 1 as int)));
        }
        i = i + 1;
    }
    proof {
        assert(s@.subrange(0, n as int) =~= s@);
    }
    r
}

/// An ASCII decimal digit.
pub open spec fn is_digit_char(c: char) -> bool {
    48 <= c as u32 && c as u32 <= 57
}

/// The numeric value of an ASCII digit.
pub open spec fn digit_val(c: char) -> int {
    c as u32 - 48
}

/// Every character of `s` is an ASCII digit, and there is at least one.
pub open spec fn all_digits(s: Seq<char>) -> bool {
    s.len() > 0 && forall|i: int| 0 <= i < s.len() ==> is_digit_char(s[i])
}

/// The value of a digit string, most significant digit first.
pub open spec fn digits_value(s: Seq<char>) -> int
    decreases s.len(),
{
    if s.len() == 0 {
        0
    } else {
        digits_value(s.take(s.len() - 1)) * 10 + digit_val(s[s.len() - 1])
    }
}

pub proof fn lemma_digits_value_nonneg(s: Seq<char>)
    requires
        forall|i: int| 0 <= i < s.len() ==> is_digit_char(s[i]),
    ensures
        digits_value(s) >= 0,
    decreases s.len(),
{
    if s.len() > 0 {
        lemma_digits_value_nonneg(s.take(s.len() - 1));
    }
}

/// What `str::parse::<i32>` accepts: an optional sign, then one or more
/// digits, valued within the range of `i32`.
pub open spec fn spec_parse_i32(s: Seq<char>) -> Option<int> {
    let body = if s.len() > 0 && (s[0] == '+' || s[0] == '-') {
        s.skip(1)
    } else {
        s
    };
    let neg = s.len() > 0 && s[0] == '-';
    if all_digits(body) {
        let v = if neg {
            -digits_value(body)
        } else {
            digits_value(body)
        };
        if -2147483648 <= v <= 2147483647 {
            Some(v)
        } else {
            None
        }
    } else {
        None
    }
}

/// Parses a signed decimal integer, as `str::parse::<i32>` would.
pub fn parse_i32(s: &Vec<char>) -> (r: Option<i32>)
    ensures
        r matches Some(v) ==> spec_parse_i32(s@) == Some(v as int),
        r is None ==> spec_parse_i32(s@) is None,
{
    let ghost body: Seq<char> = if s@.len() > 0 && (s@[0] == '+' || s@[0] == '-') {
        s@.skip(1)
    } else {
        s@
    };
    let mut start: usize = 0;
    let mut neg = false;
    if s.len() > 0 && (s[0] == '+' || s[0] == '-') {
        neg = s[0] == '-';
        start = 1;
    }
    let n: usize = s.len();
    if start == n {
        return None;
    }
    proof {
        assert(body =~= s@.subrange(start as int, n as int));
    }
    let mut acc: u64 = 0;
    let mut too_big = false;
    let mut i: usize = start;
    while i < n
        invariant
            start <= i <= n,
            n == s@.len(),
            start <= 1,
            body == s@.subrange(start as int, n as int),
            body == (if s@.len() > 0 && (s@[0] == '+' || s@[0] == '-') {
                s@.skip(1)
            } else {
                s@
            }),
            neg == (s@.len() > 0 && s@[0] == '-'),
            forall|k: int| 0 <= k < i - start ==> is_digit_char(body[k]),
            !too_big ==> acc == digits_value(body.take(i - start)) && acc <= 2147483648,
            too_big ==> digits_value(body.take(i - start)) > 2147483648,
        decreases n - i,
    {
        let c = s[i];
        let u: u32 = c as u32;
        if u < 48 || u > 57 {
            proof {
                assert(body[i - start] == s@[i as int]);
                assert(!is_digit_char(body[i - start]));
                assert(!all_digits(body));
            }
            return None;
        }
        let d: u64 = (u - 48) as u64;
        let ghost prefix = body.take(i - start);
        let ghost prefix1 = body.take(i + 1 - start);
        proof {
            assert(prefix1.take(prefix1.len() - 1) =~= prefix);
            assert(prefix1[prefix1.len() - 1] == body[i - start]);
            assert(body[i - start] == s@[i as int]);
            assert(digits_value(prefix1) == digits_value(prefix) * 10 + digit_val(s@[i as int]));
            assert forall|k: int| 0 <= k < prefix.len() implies is_digit_char(prefix[k]) by {
                assert(prefix[k] == body[k]);
            }
            lemma_digits_value_nonneg(prefix);
        }
        if too_big {
            proof {
                assert(digits_value(prefix1) >= digits_value(prefix));
            }
        } else {
            let next: u64 = acc * 10 + d;
            if next > 2147483648 {
                too_big = true;
            } else {
                acc = next;
            }
        }
        i = i + 1;
    }
    proof {
        assert(body.take(n - start) =~= body);
        assert(all_digits(body));
        lemma_digits_value_nonneg(body);
    }
    if too_big {
        return None;
    }
    if neg {
        if acc == 2147483648 {
            Some(i32::MIN)
        } else {
            Some(0i32 - (acc as i32))
        }
    } else {
        if acc == 2147483648 {
            None
        } else {
            Some(acc as i32)
        }
    }
}

/// The decimal digits of `n`, most significant first.
pub open spec fn dec_digits(n: nat) -> Seq<char>
    decreases n,
{
    if n < 10 {
        seq![((48 + n) as u8) as char]
    } else {
        dec_digits(n / 10).push(((48 + n % 10) as u8) as char)
    }
}

/// Formats a non-negative integer in decimal.
pub fn int_to_chars(n: i32) -> (r: Vec<char>)
    requires
        n >= 0,
    ensures
        r@ == dec_digits(n as nat),
    decreases n,
{
    if n < 10 {
        let c: char = ((48 + n) as u8) as char;
        let mut r: Vec<char> = Vec::new();
        r.push(c);
        proof {
            assert(r@ =~= dec_digits(n as nat));
        }
        r
    } else {
        let mut r = int_to_chars(n / 10);
        let c: char = ((48 + n % 10) as u8) as char;
        r.push(c);
        r
    }
}

} // verus!

