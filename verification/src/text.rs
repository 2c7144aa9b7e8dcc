//! Text helpers: trimming, comparison, prefix tests and decimal rendering.
//!
//! Unicode character classification and case mapping come from the standard
//! library through three trusted wrappers; everything built on them is
//! verified.

use vstd::prelude::*;
use vstd::string::StrSliceExecFns;
use vstd::string::StringExecFns;
use vstd::string::StringSliceAdditionalSpecFns;

verus! {

/// Whether a character has the Unicode White_Space property.
pub uninterp spec fn white_char(c: char) -> bool;

/// Whether a character has the Unicode Lowercase property.
pub uninterp spec fn lowercase_char(c: char) -> bool;

/// The first character of a character's Unicode uppercase mapping.
pub uninterp spec fn upper_char(c: char) -> char;

/// Relies on char::is_whitespace: the Unicode White_Space property, which
/// within ASCII holds exactly of the space and the controls U+0009..U+000D.
#[verifier::external_body]
pub fn char_is_whitespace(c: char) -> (r: bool)
    ensures
        r == white_char(c),
        (c as u32) < 128 ==> (r <==> (c == ' ' || (9 <= c as u32 && c as u32 <= 13))),
{
    c.is_whitespace()
}

/// Relies on char::is_lowercase: the Unicode Lowercase property, which
/// within ASCII holds exactly of the letters 'a' to 'z'.
#[verifier::external_body]
pub fn char_is_lowercase(c: char) -> (r: bool)
    ensures
        r == lowercase_char(c),
        (c as u32) < 128 ==> (r <==> (97 <= c as u32 && c as u32 <= 122)),
{
    c.is_lowercase()
}

/// Relies on char::to_uppercase: its first character, a function of the
/// character alone; ASCII letters map within ASCII.
#[verifier::external_body]
pub fn char_to_uppercase_first(c: char) -> (r: char)
    ensures
        r == upper_char(c),
        97 <= c as u32 <= 122 ==> r as u32 == c as u32 - 32,
{
    c.to_uppercase().next().unwrap_or(c)
}

/// Relies on String::push: appends one character.
#[verifier::external_body]
pub fn push_char(s: &mut String, c: char)
    ensures
        final(s)@ == old(s)@.push(c),
{
    s.push(c)
}

/// The byte length of a string, as the standard length call reports it.
pub open spec fn byte_len(s: &str) -> usize {
    s.spec_bytes().len() as usize
}

/// Every character is white space (so trimming leaves nothing).
pub open spec fn all_white(s: Seq<char>) -> bool {
    forall|i: int| 0 <= i < s.len() ==> white_char(#[trigger] s[i])
}

/// The sequence with leading white space removed.
pub open spec fn trim_start_rec(s: Seq<char>) -> Seq<char>
    decreases s.len(),
{
    if s.len() > 0 && white_char(s[0]) {
        trim_start_rec(s.drop_first())
    } else {
        s
    }
}

/// The sequence with trailing white space removed.
pub open spec fn trim_end_rec(s: Seq<char>) -> Seq<char>
    decreases s.len(),
{
    if s.len() > 0 && white_char(s.last()) {
        trim_end_rec(s.drop_last())
    } else {
        s
    }
}

/// The sequence with white space removed from both ends.
pub open spec fn trim_spec(s: Seq<char>) -> Seq<char> {
    trim_end_rec(trim_start_rec(s))
}

proof fn lemma_trim_start_skip(s: Seq<char>, k: int)
    requires
        0 <= k <= s.len(),
        forall|i: int| 0 <= i < k ==> white_char(#[trigger] s[i]),
        k < s.len() ==> !white_char(s[k]),
    ensures
        trim_start_rec(s) == s.skip(k),
    decreases k,
{
    if k == 0 {
        assert(s.skip(0) =~= s);
    } else {
        assert(white_char(s[0]));
        let d = s.drop_first();
        assert(forall|i: int| 0 <= i < k - 1 ==> white_char(#[trigger] d[i]));
        lemma_trim_start_skip(d, k - 1);
        assert(d.skip(k - 1) =~= s.skip(k));
    }
}

pub proof fn lemma_trim_end_take(s: Seq<char>, k: int)
    requires
        0 <= k <= s.len(),
        forall|i: int| k <= i < s.len() ==> white_char(#[trigger] s[i]),
        k > 0 ==> !white_char(s[k - 1]),
    ensures
        trim_end_rec(s) == s.take(k),
    decreases s.len() - k,
{
    if k == s.len() {
        assert(s.take(k) =~= s);
    } else {
        assert(white_char(s.last()));
        let d = s.drop_last();
        lemma_trim_end_take(d, k);
        assert(d.take(k) =~= s.take(k));
    }
}

/// Whether a string is empty after trimming.
pub fn is_blank(s: &str) -> (r: bool)
    ensures
        r == all_white(s@),
{
    let len = s.unicode_len();
    let mut i: usize = 0;
    while i < len
        invariant
            i <= len,
            len == s@.len(),
            forall|j: int| 0 <= j < i ==> white_char(#[trigger] s@[j]),
        decreases len - i,
    {
        let c = s.get_char(i);
        if !char_is_whitespace(c) {
            return false;
        }
        i = i + 1;
    }
    true
}

/// Index of the first character that is not white space.
fn first_non_white_index(s: &str) -> (r: usize)
    ensures
        r <= s@.len(),
        forall|j: int| 0 <= j < r ==> white_char(#[trigger] s@[j]),
        r < s@.len() ==> !white_char(s@[r as int]),
{
    let len = s.unicode_len();
    let mut i: usize = 0;
    while i < len
        invariant
            i <= len,
            len == s@.len(),
            forall|j: int| 0 <= j < i ==> white_char(#[trigger] s@[j]),
        decreases len - i,
    {
        if !char_is_whitespace(s.get_char(i)) {
            return i;
        }
        i = i + 1;
    }
    i
}

/// One past the last character that is not white space, after `a`.
fn last_non_white_end(s: &str, a: usize) -> (r: usize)
    requires
        a < s@.len(),
        !white_char(s@[a as int]),
    ensures
        a < r <= s@.len(),
        !white_char(s@[r - 1]),
        forall|j: int| r <= j < s@.len() ==> white_char(#[trigger] s@[j]),
{
    let len = s.unicode_len();
    let mut b: usize = len;
    while b > a
        invariant
            a <= b <= len,
            len == s@.len(),
            forall|j: int| b <= j < len ==> white_char(#[trigger] s@[j]),
        decreases b,
    {
        if !char_is_whitespace(s.get_char(b - 1)) {
            return b;
        }
        b = b - 1;
    }
    proof {
        assert(white_char(s@[a as int]));
        assert(false);
    }
    b
}

/// Removes white space from both ends of a string.
pub fn trim_str(s: &str) -> (r: String)
    ensures
        r@ == trim_spec(s@),
{
    let len = s.unicode_len();
    let a = first_non_white_index(s);
    if a == len {
        proof {
            lemma_trim_start_skip(s@, len as int);
            assert(s@.skip(len as int) =~= Seq::<char>::empty());
        }
        return String::new();
    }
    proof {
        lemma_trim_start_skip(s@, a as int);
    }
    let b = last_non_white_end(s, a);
    let out = s.substring_char(a, b);
    proof {
        let u = s@.skip(a as int);
        assert(forall|j: int| (b - a) <= j < u.len() ==> white_char(#[trigger] u[j]));
        assert(!white_char(u[b - a - 1]));
        lemma_trim_end_take(u, b - a);
        assert(u.take(b - a) =~= s@.subrange(a as int, b as int));
    }
    out.to_owned()
}

/// Character-wise string equality.
pub fn str_eq(a: &str, b: &str) -> (r: bool)
    ensures
        r == (a@ == b@),
{
    let alen = a.unicode_len();
    let blen = b.unicode_len();
    if alen != blen {
        return false;
    }
    let mut i: usize = 0;
    while i < alen
        invariant
            i <= alen,
            alen == a@.len(),
            alen == b@.len(),
            forall|j: int| 0 <= j < i ==> a@[j] == b@[j],
        decreases alen - i,
    {
        if a.get_char(i) != b.get_char(i) {
            return false;
        }
        i = i + 1;
    }
    proof {
        assert(a@ =~= b@);
    }
    true
}

/// Whether `p` is a prefix of `s`.
pub fn str_starts_with(s: &str, p: &str) -> (r: bool)
    ensures
        r == p@.is_prefix_of(s@),
{
    let slen = s.unicode_len();
    let plen = p.unicode_len();
    if plen > slen {
        assert(!p@.is_prefix_of(s@));
        return false;
    }
    let mut i: usize = 0;
    while i < plen
        invariant
            i <= plen <= slen,
            slen == s@.len(),
            plen == p@.len(),
            forall|j: int| 0 <= j < i ==> s@[j] == p@[j],
        decreases plen - i,
    {
        if s.get_char(i) != p.get_char(i) {
            assert(!p@.is_prefix_of(s@));
            return false;
        }
        i = i + 1;
    }
    proof {
        assert(p@ =~= s@.subrange(0, p@.len() as int));
    }
    true
}

/// Lexicographic order on character sequences by code point, the order the
/// standard comparison of strings induces.
pub open spec fn lex_le(a: Seq<char>, b: Seq<char>) -> bool
    decreases a.len(),
{
    if a.len() == 0 {
        true
    } else if b.len() == 0 {
        false
    } else if (a[0] as u32) < (b[0] as u32) {
        true
    } else if (a[0] as u32) > (b[0] as u32) {
        false
    } else {
        lex_le(a.drop_first(), b.drop_first())
    }
}

/// Decides `lex_le` on strings.
pub fn str_lex_le(a: &str, b: &str) -> (r: bool)
    ensures
        r == lex_le(a@, b@),
{
    let alen = a.unicode_len();
    let blen = b.unicode_len();
    let mut i: usize = 0;
    proof {
        assert(a@.skip(0) =~= a@);
        assert(b@.skip(0) =~= b@);
    }
    loop
        invariant
            i <= alen,
            i <= blen,
            alen == a@.len(),
            blen == b@.len(),
            forall|j: int| 0 <= j < i ==> a@[j] == b@[j],
            lex_le(a@, b@) == lex_le(a@.skip(i as int), b@.skip(i as int)),
        decreases alen - i,
    {
        if i >= alen {
            assert(a@.skip(i as int) =~= Seq::<char>::empty());
            return true;
        }
        if i >= blen {
            assert(b@.skip(i as int) =~= Seq::<char>::empty());
            assert(a@.skip(i as int).len() > 0);
            return false;
        }
        let ca = a.get_char(i);
        let cb = b.get_char(i);
        assert(a@.skip(i as int)[0] == ca && b@.skip(i as int)[0] == cb);
        if (ca as u32) < (cb as u32) {
            return true;
        }
        if (ca as u32) > (cb as u32) {
            return false;
        }
        proof {
            assert(a@.skip(i as int).drop_first() =~= a@.skip(i as int + 1));
            assert(b@.skip(i as int).drop_first() =~= b@.skip(i as int + 1));
        }
        i = i + 1;
    }
}

/// The lexicographic order is total.
pub proof fn lemma_lex_le_total(a: Seq<char>, b: Seq<char>)
    ensures
        lex_le(a, b) || lex_le(b, a),
    decreases a.len(),
{
    if a.len() > 0 && b.len() > 0 && !((a[0] as u32) < (b[0] as u32)) && !((a[0] as u32) > (
    b[0] as u32)) {
        lemma_lex_le_total(a.drop_first(), b.drop_first());
    }
}

/// The lexicographic order is transitive.
pub proof fn lemma_lex_le_trans_chain(a: Seq<char>, b: Seq<char>, c: Seq<char>)
    requires
        lex_le(a, b),
        lex_le(b, c),
    ensures
        lex_le(a, c),
    decreases a.len(),
{
    if a.len() > 0 && b.len() > 0 && c.len() > 0 {
        if (a[0] as u32) == (b[0] as u32) && (b[0] as u32) == (c[0] as u32) {
            lemma_lex_le_trans_chain(a.drop_first(), b.drop_first(), c.drop_first());
        }
    }
}

/// The decimal digit character for a value below ten.
pub open spec fn dec_digit(d: int) -> char {
    if d == 0 {
        '0'
    } else if d == 1 {
        '1'
    } else if d == 2 {
        '2'
    } else if d == 3 {
        '3'
    } else if d == 4 {
        '4'
    } else if d == 5 {
        '5'
    } else if d == 6 {
        '6'
    } else if d == 7 {
        '7'
    } else if d == 8 {
        '8'
    } else {
        '9'
    }
}

/// The decimal rendering of a nonnegative number.
pub open spec fn dec_str(n: int) -> Seq<char>
    decreases n,
{
    if n < 10 {
        seq![dec_digit(n)]
    } else {
        dec_str(n / 10).push(dec_digit(n % 10))
    }
}

/// Renders a number in decimal.
pub fn u64_to_dec(n: u64) -> (r: String)
    ensures
        r@ == dec_str(n as int),
    decreases n,
{
    let digits = "0123456789";
    proof {
        reveal_strlit("0123456789");
    }
    assert(digits.is_ascii());
    let d = (n % 10) as usize;
    let ds = digits.substring_ascii(d, d + 1);
    assert(ds@ =~= seq![dec_digit(n as int % 10)]);
    if n < 10 {
        ds.to_owned()
    } else {
        let mut prefix = u64_to_dec(n / 10);
        prefix.append(ds);
        assert(prefix@ =~= dec_str(n as int));
        prefix
    }
}

} // verus!
