//! Character-sequence utilities shared by the path helpers, the version
//! formatter and the index engine: lexicographic comparison, prefix tests,
//! reversal and decimal formatting.

use vstd::prelude::*;

verus! {

/// `p` is a prefix of `w`.
pub open spec fn is_prefix_of(p: Seq<char>, w: Seq<char>) -> bool {
    p.len() <= w.len() && p == w.subrange(0, p.len() as int)
}

/// Lexicographic order on character sequences by Unicode scalar value,
/// the order Rust's `str` comparison uses.
pub open spec fn lex_le(a: Seq<char>, b: Seq<char>) -> bool
    decreases a.len(),
{
    if a.len() == 0 {
        true
    } else if b.len() == 0 {
        false
    } else if (a[0] as u32) < (b[0] as u32) {
        true
    } else if (a[0] as u32) > (b[0] as u32) {
        false
    } else {
        lex_le(a.subrange(1, a.len() as int), b.subrange(1, b.len() as int))
    }
}

/// Two characters with the same Unicode scalar value are the same character.
pub proof fn lemma_char_eq_by_u32(c1: char, c2: char)
    requires
        c1 as u32 == c2 as u32,
    ensures
        c1 == c2,
{
    vstd::utf8::char_u32_cast(c1, c1 as u32);
    vstd::utf8::char_u32_cast(c2, c2 as u32);
}

/// The lexicographic order is reflexive.
pub proof fn lemma_lex_le_refl(a: Seq<char>)
    ensures
        lex_le(a, a),
    decreases a.len(),
{
    if a.len() > 0 {
        lemma_lex_le_refl(a.subrange(1, a.len() as int));
    }
}

proof fn lemma_lex_le_decide(a: Seq<char>, b: Seq<char>, i: int)
    requires
        0 <= i <= a.len(),
        i <= b.len(),
        forall|j: int| 0 <= j < i ==> a[j] == b[j],
        i == a.len() || i == b.len() || a[i] != b[i],
    ensures
        lex_le(a, b) <==> (i == a.len() || (i < a.len() && i < b.len() && (a[i] as u32) < (
        b[i] as u32))),
    decreases i,
{
    if i == 0 {
        if a.len() == 0 {
        } else if b.len() == 0 {
        } else {
            assert(a[0] != b[0]);
            assert((a[0] as u32) != (b[0] as u32)) by {
                if a[0] as u32 == b[0] as u32 {
                    lemma_char_eq_by_u32(a[0], b[0]);
                }
            }
        }
    } else {
        assert(a.len() > 0 && b.len() > 0);
        assert(a[0] == b[0]);
        let a1 = a.subrange(1, a.len() as int);
        let b1 = b.subrange(1, b.len() as int);
        assert(forall|j: int| 0 <= j < i - 1 ==> a1[j] == b1[j]);
        if i - 1 < a1.len() && i - 1 < b1.len() {
            assert(a1[i - 1] == a[i] && b1[i - 1] == b[i]);
        }
        lemma_lex_le_decide(a1, b1, i - 1);
        assert(lex_le(a, b) == lex_le(a1, b1));
    }
}

/// `a <= b` in the lexicographic order on characters.
pub fn str_le(a: &str, b: &str) -> (r: bool)
    ensures
        r == lex_le(a@, b@),
{
    let la = a.unicode_len();
    let lb = b.unicode_len();
    let mut i: usize = 0;
    loop
        invariant
            0 <= i <= la,
            i <= lb,
            la == a@.len(),
            lb == b@.len(),
            forall|j: int| 0 <= j < i ==> a@[j] == b@[j],
        decreases la - i,
    {
        if i == la {
            proof {
                lemma_lex_le_decide(a@, b@, i as int);
            }
            return true;
        }
        if i == lb {
            proof {
                lemma_lex_le_decide(a@, b@, i as int);
            }
            return false;
        }
        let ca = a.get_char(i);
        let cb = b.get_char(i);
        if ca as u32 != cb as u32 {
            proof {
                assert(a@[i as int] != b@[i as int]);
                lemma_lex_le_decide(a@, b@, i as int);
            }
            return (ca as u32) < (cb as u32);
        }
        proof {
            lemma_char_eq_by_u32(ca, cb);
        }
        i = i + 1;
    }
}

/// The two strings hold the same characters.
pub fn str_eq(a: &str, b: &str) -> (r: bool)
    ensures
        r == (a@ == b@),
{
    let la = a.unicode_len();
    let lb = b.unicode_len();
    if la != lb {
        return false;
    }
    let mut i: usize = 0;
    loop
        invariant
            0 <= i <= la,
            la == a@.len(),
            la == lb,
            lb == b@.len(),
            forall|j: int| 0 <= j < i ==> a@[j] == b@[j],
        decreases la - i,
    {
        if i == la {
            proof {
                assert(a@ =~= b@);
            }
            return true;
        }
        let ca = a.get_char(i);
        let cb = b.get_char(i);
        if ca as u32 != cb as u32 {
            proof {
                assert(a@[i as int] != b@[i as int]);
            }
            return false;
        }
        proof {
            lemma_char_eq_by_u32(ca, cb);
        }
        i = i + 1;
    }
}

/// `s` begins with `prefix`.
pub fn starts_with(s: &str, prefix: &str) -> (r: bool)
    ensures
        r == is_prefix_of(prefix@, s@),
{
    let lp = prefix.unicode_len();
    let ls = s.unicode_len();
    if lp > ls {
        return false;
    }
    let mut i: usize = 0;
    loop
        invariant
            0 <= i <= lp,
            lp <= ls,
            lp == prefix@.len(),
            ls == s@.len(),
            forall|j: int| 0 <= j < i ==> prefix@[j] == s@[j],
        decreases lp - i,
    {
        if i == lp {
            proof {
                assert(prefix@ =~= s@.subrange(0, lp as int));
            }
            return true;
        }
        let cp = prefix.get_char(i);
        let cs = s.get_char(i);
        if cp as u32 != cs as u32 {
            proof {
                assert(prefix@[i as int] != s@[i as int]);
                if is_prefix_of(prefix@, s@) {
                    assert(prefix@[i as int] == s@.subrange(0, lp as int)[i as int]);
                }
            }
            return false;
        }
        proof {
            lemma_char_eq_by_u32(cp, cs);
        }
        i = i + 1;
    }
}

/// The characters of `s`, in reverse order.
pub fn reverse_string(s: &str) -> (r: String)
    ensures
        r@ == s@.reverse(),
{
    let n = s.unicode_len();
    let mut out = String::new();
    let mut i: usize = 0;
    while i < n
        invariant
            0 <= i <= n,
            n == s@.len(),
            out@ =~= s@.subrange(n - i, n as int).reverse(),
        decreases n - i,
    {
        let piece = s.substring_char(n - i - 1, n - i);
        out.append(piece);
        proof {
            let a = s@.subrange(n - i - 1, n as int).reverse();
            let b = s@.subrange(n - i, n as int).reverse() + s@.subrange(n - i - 1, n - i);
            assert(a =~= b);
        }
        i = i + 1;
    }
    proof {
        assert(s@.subrange(0, n as int) =~= s@);
    }
    out
}

/// ASCII whitespace, as the parsers here strip it.
pub open spec fn is_space(c: char) -> bool {
    c == ' ' || c == '\t' || c == '\r' || c == '\n'
}

pub open spec fn trim_front(s: Seq<char>) -> Seq<char>
    decreases s.len(),
{
    if s.len() > 0 && is_space(s[0]) {
        trim_front(s.drop_first())
    } else {
        s
    }
}

pub open spec fn trim_back(s: Seq<char>) -> Seq<char>
    decreases s.len(),
{
    if s.len() > 0 && is_space(s.last()) {
        trim_back(s.drop_last())
    } else {
        s
    }
}

/// `s` with leading and trailing whitespace removed.
pub open spec fn trim_spec(s: Seq<char>) -> Seq<char> {
    trim_back(trim_front(s))
}

proof fn lemma_trim_front_skip(s: Seq<char>, k: int)
    requires
        0 <= k <= s.len(),
        forall|j: int| 0 <= j < k ==> is_space(s[j]),
    ensures
        trim_front(s) == trim_front(s.skip(k)),
    decreases k,
{
    if k > 0 {
        assert(is_space(s[0]));
        assert(s.drop_first() =~= s.skip(1));
        assert(forall|j: int| 0 <= j < k - 1 ==> s.skip(1)[j] == s[j + 1]);
        lemma_trim_front_skip(s.skip(1), k - 1);
        assert(s.skip(1).skip(k - 1) =~= s.skip(k));
    } else {
        assert(s.skip(0) =~= s);
    }
}

proof fn lemma_trim_back_take(s: Seq<char>, k: int)
    requires
        0 <= k <= s.len(),
        forall|j: int| k <= j < s.len() ==> is_space(s[j]),
    ensures
        trim_back(s) == trim_back(s.take(k)),
    decreases s.len() - k,
{
    if k < s.len() {
        assert(is_space(s.last()));
        assert(s.drop_last() =~= s.take(s.len() - 1));
        assert(forall|j: int| 0 <= j < s.len() - 1 ==> s.take(s.len() - 1)[j] == s[j]);
        lemma_trim_back_take(s.take(s.len() - 1), k);
        assert(s.take(s.len() - 1).take(k) =~= s.take(k));
    } else {
        assert(s.take(k) =~= s);
    }
}

/// Whether `c` is ASCII whitespace.
pub fn is_space_char(c: char) -> (r: bool)
    ensures
        r == is_space(c),
{
    c == ' ' || c == '\t' || c == '\r' || c == '\n'
}

/// `s` without its leading and trailing ASCII whitespace.
pub fn trim<'a>(s: &'a str) -> (r: &'a str)
    ensures
        r@ == trim_spec(s@),
{
    let n = s.unicode_len();
    let mut a: usize = 0;
    while a < n && is_space_char(s.get_char(a))
        invariant
            0 <= a <= n,
            n == s@.len(),
            forall|j: int| 0 <= j < a ==> is_space(s@[j]),
        decreases n - a,
    {
        a = a + 1;
    }
    proof {
        lemma_trim_front_skip(s@, a as int);
        if a < n {
            assert(s@.skip(a as int)[0] == s@[a as int]);
        }
        assert(trim_front(s@) == s@.skip(a as int));
    }
    let mut b: usize = n;
    while b > a && is_space_char(s.get_char(b - 1))
        invariant
            a <= b <= n,
            n == s@.len(),
            forall|j: int| 0 <= j < a ==> is_space(s@[j]),
            trim_front(s@) == s@.skip(a as int),
            forall|j: int| b <= j < n ==> is_space(s@[j]),
        decreases b,
    {
        b = b - 1;
    }
    proof {
        let t = s@.skip(a as int);
        assert(forall|j: int| b - a <= j < t.len() ==> is_space(t[j]));
        lemma_trim_back_take(t, b - a);
        if b > a {
            assert(t.take(b - a)[b - a - 1] == s@[b as int - 1]);
            assert(!is_space(t.take(b - a).last()));
        }
        assert(trim_back(t) == t.take(b - a));
        assert(t.take(b - a) =~= s@.subrange(a as int, b as int));
    }
    s.substring_char(a, b)
}

/// The directory part of a path: everything before the last separator,
/// empty for a bare file name.
pub open spec fn parent_dir_spec(s: Seq<char>) -> Seq<char>
    decreases s.len(),
{
    if s.len() == 0 {
        s
    } else if s.last() == '/' {
        s.drop_last()
    } else {
        parent_dir_spec(s.drop_last())
    }
}

proof fn lemma_parent_dir_take(s: Seq<char>, k: int)
    requires
        0 <= k <= s.len(),
        forall|j: int| k <= j < s.len() ==> s[j] != '/',
    ensures
        parent_dir_spec(s) == parent_dir_spec(s.take(k)),
    decreases s.len() - k,
{
    if k < s.len() {
        assert(s.last() != '/');
        assert(s.drop_last() =~= s.take(s.len() - 1));
        assert(forall|j: int| 0 <= j < s.len() - 1 ==> s.take(s.len() - 1)[j] == s[j]);
        lemma_parent_dir_take(s.take(s.len() - 1), k);
        assert(s.take(s.len() - 1).take(k) =~= s.take(k));
    } else {
        assert(s.take(k) =~= s);
    }
}

/// The directory part of `path`: up to the last separator, exclusive;
/// empty for a bare file name.
pub fn parent_dir<'a>(path: &'a str) -> (r: &'a str)
    ensures
        r@ == parent_dir_spec(path@),
{
    let n = path.unicode_len();
    let mut b: usize = n;
    while b > 0 && path.get_char(b - 1) != '/'
        invariant
            0 <= b <= n,
            n == path@.len(),
            forall|j: int| b <= j < n ==> path@[j] != '/',
        decreases b,
    {
        b = b - 1;
    }
    proof {
        lemma_parent_dir_take(path@, b as int);
        if b > 0 {
            assert(path@.take(b as int).last() == path@[b - 1]);
            assert(path@.take(b as int).drop_last() =~= path@.subrange(0, b - 1));
        } else {
            assert(path@.take(0) =~= Seq::<char>::empty());
        }
    }
    if b == 0 {
        path.substring_char(0, 0)
    } else {
        path.substring_char(0, b - 1)
    }
}

/// The path with every separator replaced by an underscore, the shape
/// directory groups are named by.
pub open spec fn underscored_spec(s: Seq<char>) -> Seq<char> {
    s.map_values(|c: char| if c == '/' { '_' } else { c })
}

/// `path` with every separator replaced by an underscore.
pub fn slashes_to_underscores(path: &str) -> (r: String)
    ensures
        r@ == underscored_spec(path@),
{
    let n = path.unicode_len();
    let mut out = String::new();
    let mut i: usize = 0;
    while i < n
        invariant
            0 <= i <= n,
            n == path@.len(),
            out@ =~= underscored_spec(path@.take(i as int)),
        decreases n - i,
    {
        let c = path.get_char(i);
        if c == '/' {
            out.append("_");
            proof {
                reveal_strlit("_");
            }
        } else {
            let piece = path.substring_char(i, i + 1);
            out.append(piece);
            proof {
                assert(piece@[0] == path@[i as int]);
            }
        }
        proof {
            assert(out@ =~= underscored_spec(path@.take(i + 1)));
        }
        i = i + 1;
    }
    proof {
        assert(path@.take(n as int) =~= path@);
    }
    out
}

/// Whether `v` holds a string with the characters of `s`.
pub fn contains_str(v: &Vec<String>, s: &str) -> (r: bool)
    ensures
        r == v@.map_values(|x: String| x@).contains(s@),
{
    let n = v.len();
    let mut i: usize = 0;
    while i < n
        invariant
            0 <= i <= n,
            n == v@.len(),
            forall|j: int| 0 <= j < i ==> v@[j]@ != s@,
        decreases n - i,
    {
        if str_eq(v[i].as_str(), s) {
            proof {
                assert(v@.map_values(|x: String| x@)[i as int] == s@);
            }
            return true;
        }
        i = i + 1;
    }
    proof {
        let views = v@.map_values(|x: String| x@);
        if views.contains(s@) {
            let j = choose|j: int| 0 <= j < views.len() && views[j] == s@;
            assert(v@[j]@ == s@);
        }
    }
    false
}

/// The pattern `pat` occurs in `s` at position `i`.
pub open spec fn occurs_at(s: Seq<char>, pat: Seq<char>, i: int) -> bool {
    0 <= i && i + pat.len() <= s.len() && s.subrange(i, i + pat.len() as int) == pat
}

/// The first position at which `pat` occurs in `s`, if any.
pub open spec fn first_occur(s: Seq<char>, pat: Seq<char>) -> Option<int>
    decreases s.len(),
{
    if pat.len() == 0 {
        Some(0int)
    } else if s.len() < pat.len() {
        None
    } else if s.subrange(0, pat.len() as int) == pat {
        Some(0int)
    } else {
        match first_occur(s.drop_first(), pat) {
            Some(i) => Some(i + 1),
            None => None,
        }
    }
}

/// What `first_occur` finds: the first occurrence, or no occurrence at all.
pub proof fn lemma_first_occur(s: Seq<char>, pat: Seq<char>)
    ensures
        match first_occur(s, pat) {
            Some(p) => occurs_at(s, pat, p) && forall|j: int| 0 <= j < p ==> !occurs_at(s, pat, j),
            None => forall|j: int| !occurs_at(s, pat, j),
        },
    decreases s.len(),
{
    if pat.len() == 0 {
        assert(s.subrange(0, 0) =~= pat);
        assert(occurs_at(s, pat, 0));
    } else if s.len() < pat.len() {
        assert(forall|j: int| !occurs_at(s, pat, j));
    } else if s.subrange(0, pat.len() as int) == pat {
    } else {
        let rest = s.drop_first();
        lemma_first_occur(rest, pat);
        assert forall|j: int| occurs_at(s, pat, j) && j >= 1 implies occurs_at(
            rest,
            pat,
            j - 1,
        ) by {
            assert(rest.subrange(j - 1, j - 1 + pat.len() as int) =~= s.subrange(
                j,
                j + pat.len() as int,
            ));
        }
        assert forall|j: int| occurs_at(rest, pat, j) implies occurs_at(s, pat, j + 1) by {
            assert(s.subrange(j + 1, j + 1 + pat.len() as int) =~= rest.subrange(
                j,
                j + pat.len() as int,
            ));
        }
        match first_occur(rest, pat) {
            Some(i) => {
                assert(occurs_at(rest, pat, i));
                assert(occurs_at(s, pat, i + 1));
                assert(!occurs_at(s, pat, 0));
                assert(forall|j: int| 1 <= j < i + 1 ==> !occurs_at(s, pat, j));
            },
            None => {
                assert(!occurs_at(s, pat, 0));
                assert(forall|j: int| !occurs_at(s, pat, j));
            },
        }
    }
}

/// Whether `pat` occurs in `s` at position `i`.
fn match_at(s: &str, pat: &str, i: usize) -> (r: bool)
    requires
        i + pat@.len() <= s@.len(),
    ensures
        r == occurs_at(s@, pat@, i as int),
{
    let m = pat.unicode_len();
    let n = s.unicode_len();
    let mut k: usize = 0;
    while k < m
        invariant
            0 <= k <= m,
            m == pat@.len(),
            n == s@.len(),
            i + m <= n,
            forall|j: int| 0 <= j < k ==> s@[i + j] == pat@[j],
        decreases m - k,
    {
        let cs = s.get_char(i + k);
        let cp = pat.get_char(k);
        if cs as u32 != cp as u32 {
            proof {
                assert(s@[i + k] != pat@[k as int]);
                if occurs_at(s@, pat@, i as int) {
                    assert(s@.subrange(i as int, i + m)[k as int] == s@[i + k]);
                }
            }
            return false;
        }
        proof {
            lemma_char_eq_by_u32(cs, cp);
        }
        k = k + 1;
    }
    proof {
        assert(s@.subrange(i as int, i + m) =~= pat@);
    }
    true
}

/// The first position at which `pat` occurs in `s`.
pub fn find_sub(s: &str, pat: &str) -> (r: Option<usize>)
    ensures
        match r {
            Some(i) => first_occur(s@, pat@) == Some(i as int),
            None => first_occur(s@, pat@) is None,
        },
{
    let n = s.unicode_len();
    let m = pat.unicode_len();
    proof {
        lemma_first_occur(s@, pat@);
    }
    if m > n {
        return None;
    }
    if m == 0 {
        proof {
            assert(s@.subrange(0, 0) =~= pat@);
            assert(occurs_at(s@, pat@, 0));
        }
        return Some(0);
    }
    let mut i: usize = 0;
    while i <= n - m
        invariant
            0 <= i <= n - m + 1,
            1 <= m <= n,
            n == s@.len(),
            m == pat@.len(),
            forall|j: int| 0 <= j < i ==> !occurs_at(s@, pat@, j),
        decreases n - m + 1 - i,
    {
        if match_at(s, pat, i) {
            proof {
                lemma_first_occur(s@, pat@);
                match first_occur(s@, pat@) {
                    Some(p) => {
                        if p < i {
                            assert(!occurs_at(s@, pat@, p));
                        }
                        if p > i {
                            assert(!occurs_at(s@, pat@, i as int));
                        }
                    },
                    None => {
                        assert(!occurs_at(s@, pat@, i as int));
                    },
                }
            }
            return Some(i);
        }
        i = i + 1;
    }
    proof {
        lemma_first_occur(s@, pat@);
        match first_occur(s@, pat@) {
            Some(p) => {
                assert(occurs_at(s@, pat@, p));
                assert(p < i);
            },
            None => {},
        }
    }
    None
}

/// The decimal digit character for `d`.
pub open spec fn digit_char(d: nat) -> char {
    if d == 0 {
        '0'
    } else if d == 1 {
        '1'
    } else if d == 2 {
        '2'
    } else if d == 3 {
        '3'
    } else if d == 4 {
        '4'
    } else if d == 5 {
        '5'
    } else if d == 6 {
        '6'
    } else if d == 7 {
        '7'
    } else if d == 8 {
        '8'
    } else {
        '9'
    }
}

/// The decimal digits of `n`, most significant first, with no leading zero
/// except for `n == 0` itself.
pub open spec fn dec_digits(n: nat) -> Seq<char>
    decreases n,
{
    if n < 10 {
        seq![digit_char(n)]
    } else {
        dec_digits(n / 10).push(digit_char(n % 10))
    }
}

fn digit_str(d: u32) -> (r: &'static str)
    requires
        d < 10,
    ensures
        r@ =~= seq![digit_char(d as nat)],
{
    proof {
        reveal_strlit("0");
        reveal_strlit("1");
        reveal_strlit("2");
        reveal_strlit("3");
        reveal_strlit("4");
        reveal_strlit("5");
        reveal_strlit("6");
        reveal_strlit("7");
        reveal_strlit("8");
        reveal_strlit("9");
    }
    if d == 0 {
        "0"
    } else if d == 1 {
        "1"
    } else if d == 2 {
        "2"
    } else if d == 3 {
        "3"
    } else if d == 4 {
        "4"
    } else if d == 5 {
        "5"
    } else if d == 6 {
        "6"
    } else if d == 7 {
        "7"
    } else if d == 8 {
        "8"
    } else {
        "9"
    }
}

/// `n` written in decimal.
pub fn u32_to_dec_string(n: u32) -> (r: String)
    ensures
        r@ == dec_digits(n as nat),
    decreases n,
{
    if n < 10 {
        let mut out = String::new();
        out.append(digit_str(n));
        proof {
            assert(out@ =~= dec_digits(n as nat));
        }
        out
    } else {
        let mut out = u32_to_dec_string(n / 10);
        out.append(digit_str(n % 10));
        proof {
            assert(out@ =~= dec_digits(n as nat));
        }
        out
    }
}

} // verus!
