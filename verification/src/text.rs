use vstd::prelude::*;
use vstd::string::*;

verus! {

/// ASCII whitespace: the only kind of blank that tool output is trimmed on.
pub open spec fn is_space(c: char) -> bool {
    c == ' ' || c == '\t' || c == '\r' || c == '\n'
}

/// `n` occurs in `h` starting at position `i`.
pub open spec fn match_at(h: Seq<char>, n: Seq<char>, i: int) -> bool {
    0 <= i && i + n.len() <= h.len() && h.subrange(i, i + n.len()) == n
}

/// Position of the first occurrence of `n` in `h` at or after `i`.
pub open spec fn find_from(h: Seq<char>, n: Seq<char>, i: int) -> Option<int>
    decreases h.len() + 1 - i,
{
    if i < 0 || i > h.len() || i + n.len() > h.len() {
        None
    } else if match_at(h, n, i) {
        Some(i)
    } else {
        find_from(h, n, i + 1)
    }
}

/// The first occurrence reported by `find_from` really is an occurrence,
/// and nothing before it matches.
pub proof fn lemma_find_from_ensures(h: Seq<char>, n: Seq<char>, i: int)
    requires
        0 <= i,
    ensures
        find_from(h, n, i) matches Some(j) ==> i <= j && match_at(h, n, j)
            && (forall|k: int| i <= k < j ==> !match_at(h, n, k)),
        find_from(h, n, i) is None ==> forall|k: int| i <= k ==> !match_at(h, n, k),
    decreases h.len() + 1 - i,
{
    if i > h.len() || i + n.len() > h.len() {
        assert forall|k: int| i <= k implies !match_at(h, n, k) by {}
    } else if match_at(h, n, i) {
    } else {
        lemma_find_from_ensures(h, n, i + 1);
    }
}

fn is_space_exec(c: char) -> (r: bool)
    ensures
        r == is_space(c),
{
    c == ' ' || c == '\t' || c == '\r' || c == '\n'
}

/// `n` occurs in `h` at position `i`, checked character by character.
fn match_at_exec(h: &str, n: &str, i: usize) -> (r: bool)
    requires
        i + n@.len() <= h@.len(),
        h@.len() <= usize::MAX,
    ensures
        r == match_at(h@, n@, i as int),
{
    let nlen = n.unicode_len();
    let mut j: usize = 0;
    while j < nlen
        invariant
            j <= nlen,
            nlen == n@.len(),
            i + nlen <= h@.len(),
            h@.len() <= usize::MAX,
            forall|k: int| 0 <= k < j ==> h@[i + k] == n@[k],
        decreases nlen - j,
    {
        if h.get_char(i + j) != n.get_char(j) {
            assert(!match_at(h@, n@, i as int)) by {
                if match_at(h@, n@, i as int) {
                    assert(h@.subrange(i as int, i + n@.len())[j as int] == n@[j as int]);
                }
            }
            return false;
        }
        j += 1;
    }
    assert(h@.subrange(i as int, i + n@.len()) =~= n@);
    true
}

/// Position of the first occurrence of `n` in `h`, if any.
pub fn find_sub(h: &str, n: &str) -> (r: Option<usize>)
    ensures
        (r is None) == (find_from(h@, n@, 0) is None),
        r matches Some(i) ==> find_from(h@, n@, 0) == Some(i as int),
{
    let hlen = h.unicode_len();
    let nlen = n.unicode_len();
    if nlen > hlen {
        return None;
    }
    let mut i: usize = 0;
    loop
        invariant
            i <= hlen - nlen,
            hlen == h@.len(),
            nlen == n@.len(),
            nlen <= hlen,
            find_from(h@, n@, 0) == find_from(h@, n@, i as int),
        decreases hlen - nlen - i,
    {
        if match_at_exec(h, n, i) {
            return Some(i);
        }
        if i == hlen - nlen {
            proof {
                assert(find_from(h@, n@, i + 1) is None);
                assert(find_from(h@, n@, i as int) == find_from(h@, n@, i + 1));
            }
            return None;
        }
        i += 1;
    }
}

/// `h` holds `n` somewhere.
pub fn contains_sub(h: &str, n: &str) -> (r: bool)
    ensures
        r == (find_from(h@, n@, 0) is Some),
{
    match find_sub(h, n) {
        Some(_) => true,
        None => false,
    }
}

/// `h` begins with `p`.
pub fn starts_with_sub(h: &str, p: &str) -> (r: bool)
    ensures
        r == match_at(h@, p@, 0),
{
    let hlen = h.unicode_len();
    let plen = p.unicode_len();
    if plen > hlen {
        return false;
    }
    match_at_exec(h, p, 0)
}

/// The two strings hold the same characters.
pub fn str_eq(a: &str, b: &str) -> (r: bool)
    ensures
        r == (a@ == b@),
{
    let al = a.unicode_len();
    let bl = b.unicode_len();
    if al != bl {
        return false;
    }
    let r = match_at_exec(a, b, 0);
    proof {
        if r {
            assert(a@.subrange(0, b@.len() as int) =~= a@);
        } else {
            if a@ == b@ {
                assert(a@.subrange(0, b@.len() as int) =~= b@);
            }
        }
    }
    r
}

/// What is left of `s` once leading blanks go.
pub open spec fn drop_leading(s: Seq<char>) -> Seq<char>
    decreases s.len(),
{
    if s.len() > 0 && is_space(s.first()) {
        drop_leading(s.drop_first())
    } else {
        s
    }
}

/// What is left of `s` once trailing blanks go.
pub open spec fn drop_trailing(s: Seq<char>) -> Seq<char>
    decreases s.len(),
{
    if s.len() > 0 && is_space(s.last()) {
        drop_trailing(s.drop_last())
    } else {
        s
    }
}

/// `s` without leading and trailing blanks.
pub open spec fn trim_spec(s: Seq<char>) -> Seq<char> {
    drop_trailing(drop_leading(s))
}

proof fn lemma_drop_leading(s: Seq<char>, a: int)
    requires
        0 <= a <= s.len(),
        forall|k: int| 0 <= k < a ==> is_space(s[k]),
        a < s.len() ==> !is_space(s[a]),
    ensures
        drop_leading(s) == s.skip(a),
    decreases a,
{
    if a == 0 {
        assert(s.skip(0) =~= s);
    } else {
        lemma_drop_leading(s.drop_first(), a - 1);
        assert(s.drop_first().skip(a - 1) =~= s.skip(a));
    }
}

proof fn lemma_drop_trailing(s: Seq<char>, b: int)
    requires
        0 <= b <= s.len(),
        forall|k: int| b <= k < s.len() ==> is_space(s[k]),
        b > 0 ==> !is_space(s[b - 1]),
    ensures
        drop_trailing(s) == s.take(b),
    decreases s.len() - b,
{
    if b == s.len() {
        assert(s.take(b) =~= s);
    } else {
        lemma_drop_trailing(s.drop_last(), b);
        assert(s.drop_last().take(b) =~= s.take(b));
    }
}

/// `s` without leading and trailing blanks, as a borrowed slice.
pub fn trim_str<'a>(s: &'a str) -> (r: &'a str)
    ensures
        r@ == trim_spec(s@),
{
    let len = s.unicode_len();
    let mut a: usize = 0;
    while a < len && is_space_exec(s.get_char(a))
        invariant
            a <= len,
            len == s@.len(),
            forall|k: int| 0 <= k < a ==> is_space(s@[k]),
        decreases len - a,
    {
        a += 1;
    }
    let mut b: usize = len;
    while b > a && is_space_exec(s.get_char(b - 1))
        invariant
            a <= b <= len,
            len == s@.len(),
            forall|k: int| b <= k < len ==> is_space(s@[k]),
        decreases b,
    {
        b -= 1;
    }
    proof {
        lemma_drop_leading(s@, a as int);
        lemma_drop_trailing(s@.skip(a as int), b - a);
        assert(s@.skip(a as int).take(b - a) =~= s@.subrange(a as int, b as int));
    }
    s.substring_char(a, b)
}

/// Relies on String::push from std: appends exactly one character at the end.
#[verifier::external_body]
pub(crate) fn push_char(s: &mut String, c: char)
    ensures
        final(s)@ == old(s)@.push(c),
{
    s.push(c);
}

pub open spec fn is_digit(c: char) -> bool {
    '0' <= c && c <= '9'
}

pub open spec fn digit_val(c: char) -> int {
    c as int - '0' as int
}

pub open spec fn all_digits(s: Seq<char>) -> bool {
    forall|i: int| 0 <= i < s.len() ==> is_digit(s[i])
}

/// Numeric value of a string of decimal digits.
pub open spec fn digits_val(s: Seq<char>) -> int
    decreases s.len(),
{
    if s.len() == 0 {
        0
    } else {
        digits_val(s.drop_last()) * 10 + digit_val(s.last())
    }
}

/// What `str::parse::<i32>` accepts: an optional sign, then at least one
/// digit, with the value in range.
pub open spec fn parse_i32_signed(sign: int, ds: Seq<char>) -> Option<i32> {
    if ds.len() == 0 || !all_digits(ds) {
        None
    } else {
        let v = sign * digits_val(ds);
        if i32::MIN <= v <= i32::MAX {
            Some(v as i32)
        } else {
            None
        }
    }
}

pub open spec fn parse_i32_spec(s: Seq<char>) -> Option<i32> {
    if s.len() > 0 && (s[0] == '+' || s[0] == '-') {
        parse_i32_signed(if s[0] == '-' { -1int } else { 1int }, s.drop_first())
    } else {
        parse_i32_signed(1int, s)
    }
}

proof fn lemma_sign_mul(s: int, x: int)
    requires
        s == -1 || s == 1,
    ensures
        s == -1 ==> s * x == -x,
        s == 1 ==> s * x == x,
{
    assert(s * x == if s == -1 {
        -x
    } else {
        x
    }) by (nonlinear_arith)
        requires
            s == -1 || s == 1,
    ;
}

proof fn lemma_digits_val_nonneg(s: Seq<char>)
    requires
        all_digits(s),
    ensures
        digits_val(s) >= 0,
    decreases s.len(),
{
    if s.len() > 0 {
        assert(all_digits(s.drop_last())) by {
            assert(forall|i: int| 0 <= i < s.len() - 1 ==> s.drop_last()[i] == s[i]);
        }
        lemma_digits_val_nonneg(s.drop_last());
    }
}

proof fn lemma_digits_val_prefix_le(s: Seq<char>, i: int)
    requires
        all_digits(s),
        0 <= i <= s.len(),
    ensures
        digits_val(s.take(i)) <= digits_val(s),
        all_digits(s.take(i)),
    decreases s.len() - i,
{
    assert(all_digits(s.take(i))) by {
        assert(forall|k: int| 0 <= k < i ==> s.take(i)[k] == s[k]);
    }
    if i < s.len() {
        lemma_digits_val_prefix_le(s, i + 1);
        lemma_digits_val_nonneg(s.take(i));
        assert(s.take(i + 1).drop_last() =~= s.take(i));
        assert(digits_val(s.take(i + 1)) == digits_val(s.take(i)) * 10 + digit_val(s[i]));
    } else {
        assert(s.take(i) =~= s);
    }
}

/// Parse a decimal integer the way `str::parse::<i32>` does.
pub fn parse_i32(s: &str) -> (r: Option<i32>)
    ensures
        r == parse_i32_spec(s@),
{
    let len = s.unicode_len();
    let mut idx: usize = 0;
    let mut negative = false;
    if len > 0 {
        let c0 = s.get_char(0);
        if c0 == '+' {
            idx = 1;
        } else if c0 == '-' {
            idx = 1;
            negative = true;
        }
    }
    let ghost sign: int = if negative {
        -1int
    } else {
        1int
    };
    let ghost ds = s@.skip(idx as int);
    proof {
        if idx == 0 {
            assert(ds =~= s@);
        }
        assert(parse_i32_spec(s@) == parse_i32_signed(sign, ds));
    }
    if idx == len {
        return None;
    }
    let mut acc: u64 = 0;
    let mut i: usize = idx;
    while i < len
        invariant
            idx <= i <= len,
            len == s@.len(),
            len <= usize::MAX,
            ds == s@.skip(idx as int),
            sign == if negative {
                -1int
            } else {
                1int
            },
            parse_i32_spec(s@) == parse_i32_signed(sign, ds),
            all_digits(s@.subrange(idx as int, i as int)),
            acc <= 2147483648,
            acc as int == digits_val(s@.subrange(idx as int, i as int)),
        decreases len - i,
    {
        let c = s.get_char(i);
        let ghost prefix = s@.subrange(idx as int, i as int);
        if !(c >= '0' && c <= '9') {
            proof {
                assert(ds[i - idx] == s@[i as int]);
                assert(!all_digits(ds));
            }
            return None;
        }
        let d: u64 = (c as u32 as u64) - ('0' as u32 as u64);
        proof {
            assert(d as int == digit_val(c)) by {
                assert('0' <= c <= '9');
            }
        }
        acc = acc * 10 + d;
        proof {
            assert(s@.subrange(idx as int, i + 1).drop_last() =~= prefix);
            assert(s@.subrange(idx as int, i + 1).last() == s@[i as int]);
            assert(acc as int == digits_val(s@.subrange(idx as int, i + 1)));
            assert(all_digits(s@.subrange(idx as int, i + 1))) by {
                assert(forall|k: int|
                    0 <= k < i + 1 - idx ==> #[trigger] s@.subrange(idx as int, i + 1)[k] == s@[
                        idx + k
                    ]);
            }
        }
        if acc > 2147483648 {
            proof {
                if all_digits(ds) {
                    assert(ds.take(i + 1 - idx) =~= s@.subrange(idx as int, i + 1));
                    lemma_digits_val_prefix_le(ds, i + 1 - idx);
                    assert(digits_val(ds) > 2147483648);
                    lemma_sign_mul(sign, digits_val(ds));
                    assert(parse_i32_signed(sign, ds) is None);
                }
            }
            return None;
        }
        i += 1;
    }
    proof {
        assert(s@.subrange(idx as int, len as int) =~= ds);
        lemma_digits_val_nonneg(ds);
    }
    let signed: i64 = if negative {
        -(acc as i64)
    } else {
        acc as i64
    };
    proof {
        lemma_sign_mul(sign, digits_val(ds));
        assert(signed as int == sign * digits_val(ds));
    }
    if signed >= -2147483648i64 && signed <= 2147483647i64 {
        Some(signed as i32)
    } else {
        None
    }
}

/// The lines of `s`, split on newline characters; a final empty segment
/// after a trailing newline is not a line.
pub open spec fn lines_acc(s: Seq<char>, cur: Seq<char>) -> Seq<Seq<char>>
    decreases s.len(),
{
    if s.len() == 0 {
        if cur.len() == 0 {
            seq![]
        } else {
            seq![cur]
        }
    } else if s.first() == '\n' {
        seq![cur] + lines_acc(s.drop_first(), seq![])
    } else {
        lines_acc(s.drop_first(), cur.push(s.first()))
    }
}

pub open spec fn lines_spec(s: Seq<char>) -> Seq<Seq<char>> {
    lines_acc(s, seq![])
}

/// The lines of `s`, split on newline characters.
pub fn split_lines(s: &str) -> (r: Vec<String>)
    ensures
        r.deep_view() == lines_spec(s@),
{
    let len = s.unicode_len();
    let mut r: Vec<String> = Vec::new();
    let mut start: usize = 0;
    let mut i: usize = 0;
    proof {
        assert(s@.skip(0) =~= s@);
        assert(s@.subrange(0, 0) =~= Seq::<char>::empty());
        assert(r.deep_view() =~= Seq::<Seq<char>>::empty());
        assert(Seq::<Seq<char>>::empty() + lines_acc(s@, Seq::<char>::empty()) =~= lines_acc(
            s@,
            Seq::<char>::empty(),
        ));
        assert(seq![] =~= Seq::<char>::empty());
    }
    while i < len
        invariant
            start <= i <= len,
            len == s@.len(),
            lines_spec(s@) == r.deep_view() + lines_acc(
                s@.skip(i as int),
                s@.subrange(start as int, i as int),
            ),
        decreases len - i,
    {
        let ghost prev = r.deep_view();
        let ghost cur = s@.subrange(start as int, i as int);
        let c = s.get_char(i);
        proof {
            assert(s@.skip(i as int).first() == s@[i as int]);
            assert(s@.skip(i as int).drop_first() =~= s@.skip(i + 1));
        }
        if c == '\n' {
            let piece = s.substring_char(start, i).to_owned();
            r.push(piece);
            proof {
                assert(r.deep_view() =~= prev.push(cur));
                assert(prev.push(cur) =~= prev + seq![cur]);
                assert(lines_acc(s@.skip(i as int), cur) == seq![cur] + lines_acc(
                    s@.skip(i + 1),
                    seq![],
                ));
                assert(prev + (seq![cur] + lines_acc(s@.skip(i + 1), seq![])) =~= (prev
                    + seq![cur]) + lines_acc(s@.skip(i + 1), seq![]));
                assert(s@.subrange(i + 1, i + 1) =~= Seq::<char>::empty());
                assert(seq![] =~= Seq::<char>::empty());
            }
            start = i + 1;
        } else {
            proof {
                assert(cur.push(s@[i as int]) =~= s@.subrange(start as int, i + 1));
            }
        }
        i += 1;
    }
    if start < len {
        let ghost prev = r.deep_view();
        let ghost cur = s@.subrange(start as int, len as int);
        let piece = s.substring_char(start, len).to_owned();
        r.push(piece);
        proof {
            assert(s@.skip(len as int).len() == 0);
            assert(lines_acc(s@.skip(len as int), cur) =~= seq![cur]);
            assert(r.deep_view() =~= prev.push(cur));
            assert(prev.push(cur) =~= prev + seq![cur]);
        }
    } else {
        proof {
            assert(s@.skip(len as int).len() == 0);
            assert(s@.subrange(start as int, len as int).len() == 0);
            assert(lines_spec(s@) =~= r.deep_view());
        }
    }
    r
}

} // verus!
