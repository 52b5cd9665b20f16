//! Character-level helpers shared by the other modules: ordering of strings,
//! ASCII case handling, Unicode whitespace, trimming, joining and integer
//! formatting.

use vstd::prelude::*;

verus! {

/// Three-way comparison of two characters by code point.
pub open spec fn char_order(a: char, b: char) -> int {
    if (a as u32) < (b as u32) {
        -1
    } else if a == b {
        0
    } else {
        1
    }
}

/// Three-way lexicographic comparison of two character sequences. This is the
/// order of `String`'s `Ord`: comparing UTF-8 bytes lexicographically orders
/// strings exactly as comparing their code points lexicographically.
pub open spec fn seq_order(a: Seq<char>, b: Seq<char>) -> int
    decreases a.len(),
{
    if a.len() == 0 {
        if b.len() == 0 {
            0
        } else {
            -1
        }
    } else if b.len() == 0 {
        1
    } else if a[0] != b[0] {
        char_order(a[0], b[0])
    } else {
        seq_order(a.drop_first(), b.drop_first())
    }
}

proof fn lemma_char_cast_injective(a: char, b: char)
    ensures
        (a as u32) == (b as u32) ==> a == b,
{
}

/// `seq_order` is a total order: its values are -1, 0, 1, it is antisymmetric,
/// and it is 0 exactly on equal sequences.
pub proof fn lemma_seq_order_basic(a: Seq<char>, b: Seq<char>)
    ensures
        -1 <= seq_order(a, b) <= 1,
        seq_order(a, b) == -seq_order(b, a),
        seq_order(a, b) == 0 <==> a == b,
    decreases a.len(),
{
    if a.len() > 0 && b.len() > 0 {
        lemma_char_cast_injective(a[0], b[0]);
        if a[0] == b[0] {
            lemma_seq_order_basic(a.drop_first(), b.drop_first());
            if a.drop_first() == b.drop_first() {
                assert(a =~= seq![a[0]] + a.drop_first());
                assert(b =~= seq![b[0]] + b.drop_first());
            }
            if a == b {
                assert(a.drop_first() =~= b.drop_first());
            }
        }
    }
    if a.len() == 0 && b.len() == 0 {
        assert(a =~= b);
    }
}

/// Transitivity of the order given by `seq_order`.
pub proof fn lemma_seq_order_trans(a: Seq<char>, b: Seq<char>, c: Seq<char>)
    requires
        seq_order(a, b) <= 0,
        seq_order(b, c) <= 0,
    ensures
        seq_order(a, c) <= 0,
        seq_order(a, b) < 0 || seq_order(b, c) < 0 ==> seq_order(a, c) < 0,
    decreases a.len(),
{
    lemma_seq_order_basic(a, b);
    lemma_seq_order_basic(b, c);
    lemma_seq_order_basic(a, c);
    if a.len() > 0 && b.len() > 0 && c.len() > 0 {
        lemma_char_cast_injective(a[0], b[0]);
        lemma_char_cast_injective(b[0], c[0]);
        lemma_char_cast_injective(a[0], c[0]);
        if a[0] == b[0] && b[0] == c[0] {
            lemma_seq_order_trans(a.drop_first(), b.drop_first(), c.drop_first());
        }
    }
}

/// Dropping a common first character keeps the comparison.
proof fn lemma_seq_order_skip(a: Seq<char>, b: Seq<char>, i: int)
    requires
        0 <= i < a.len(),
        i < b.len(),
        a[i] == b[i],
    ensures
        seq_order(a.skip(i), b.skip(i)) == seq_order(a.skip(i + 1), b.skip(i + 1)),
{
    assert(a.skip(i).drop_first() =~= a.skip(i + 1));
    assert(b.skip(i).drop_first() =~= b.skip(i + 1));
}

/// All order facts about three sequences at once.
pub proof fn lemma_seq_order_facts(a: Seq<char>, b: Seq<char>, c: Seq<char>)
    ensures
        -1 <= seq_order(a, b) <= 1,
        seq_order(a, b) == -seq_order(b, a),
        seq_order(a, b) == 0 <==> a == b,
        seq_order(a, a) == 0,
        seq_order(a, b) <= 0 && seq_order(b, c) <= 0 ==> seq_order(a, c) <= 0,
        seq_order(a, b) < 0 && seq_order(b, c) <= 0 ==> seq_order(a, c) < 0,
        seq_order(a, b) <= 0 && seq_order(b, c) < 0 ==> seq_order(a, c) < 0,
{
    lemma_seq_order_basic(a, b);
    lemma_seq_order_basic(a, a);
    if seq_order(a, b) <= 0 && seq_order(b, c) <= 0 {
        lemma_seq_order_trans(a, b, c);
    }
}

/// Copies an optional string.
pub fn clone_opt(o: &Option<String>) -> (r: Option<String>)
    ensures
        r == *o,
{
    match o {
        Some(v) => Some(v.clone()),
        None => None,
    }
}

/// Copies a vector of strings.
pub fn clone_strings(v: &Vec<String>) -> (r: Vec<String>)
    ensures
        r@ == v@,
{
    let mut r: Vec<String> = Vec::new();
    let mut i: usize = 0;
    while i < v.len()
        invariant
            0 <= i <= v.len(),
            r@ == v@.take(i as int),
        decreases v.len() - i,
    {
        r.push(v[i].clone());
        assert(v@.take(i as int + 1) =~= v@.take(i as int).push(v@[i as int]));
        i = i + 1;
    }
    assert(v@.take(v.len() as int) =~= v@);
    r
}

/// The text of an optional string, empty when absent (`unwrap_or_default`).
pub open spec fn opt_text(o: Option<String>) -> Seq<char> {
    match o {
        Some(v) => v@,
        None => Seq::empty(),
    }
}

/// Exec form of `opt_text`.
pub fn opt_text_owned(o: &Option<String>) -> (r: String)
    ensures
        r@ == opt_text(*o),
{
    match o {
        Some(v) => v.clone(),
        None => String::new(),
    }
}

/// ASCII lower-casing of a character sequence.
pub fn lower_chars(v: &Vec<char>) -> (r: Vec<char>)
    ensures
        r@ == seq_ascii_lower(v@),
{
    let mut r: Vec<char> = Vec::new();
    let mut i: usize = 0;
    while i < v.len()
        invariant
            0 <= i <= v@.len(),
            r@ == seq_ascii_lower(v@.take(i as int)),
        decreases v@.len() - i,
    {
        r.push(to_ascii_lower_char(v[i]));
        assert(seq_ascii_lower(v@.take(i as int + 1)) =~= seq_ascii_lower(v@.take(i as int)).push(
            ascii_lower(v@[i as int]),
        ));
        i = i + 1;
    }
    assert(v@.take(v@.len() as int) =~= v@);
    r
}

/// ASCII upper-casing of a character sequence.
pub fn upper_chars(v: &Vec<char>) -> (r: Vec<char>)
    ensures
        r@ == seq_ascii_upper(v@),
{
    let mut r: Vec<char> = Vec::new();
    let mut i: usize = 0;
    while i < v.len()
        invariant
            0 <= i <= v@.len(),
            r@ == seq_ascii_upper(v@.take(i as int)),
        decreases v@.len() - i,
    {
        r.push(to_ascii_upper_char(v[i]));
        assert(seq_ascii_upper(v@.take(i as int + 1)) =~= seq_ascii_upper(v@.take(i as int)).push(
            ascii_upper(v@[i as int]),
        ));
        i = i + 1;
    }
    assert(v@.take(v@.len() as int) =~= v@);
    r
}

/// Compares two strings in `String`'s order.
pub fn compare_str(a: &str, b: &str) -> (c: i8)
    ensures
        c as int == seq_order(a@, b@),
{
    let la = a.unicode_len();
    let lb = b.unicode_len();
    let mut i: usize = 0;
    assert(a@.skip(0) =~= a@);
    assert(b@.skip(0) =~= b@);
    while i < la && i < lb
        invariant
            0 <= i <= la,
            i <= lb,
            la == a@.len(),
            lb == b@.len(),
            seq_order(a@, b@) == seq_order(a@.skip(i as int), b@.skip(i as int)),
        decreases la - i,
    {
        let ca = a.get_char(i);
        let cb = b.get_char(i);
        if ca != cb {
            assert(a@.skip(i as int)[0] == ca);
            assert(b@.skip(i as int)[0] == cb);
            if (ca as u32) < (cb as u32) {
                return -1;
            } else {
                return 1;
            }
        }
        proof {
            lemma_seq_order_skip(a@, b@, i as int);
        }
        i = i + 1;
    }
    if i == la && i == lb {
        0
    } else if i == la {
        -1
    } else {
        1
    }
}

/// Equality of two string slices by content.
pub fn str_eq(a: &str, b: &str) -> (r: bool)
    ensures
        r == (a@ == b@),
{
    proof {
        lemma_seq_order_basic(a@, b@);
    }
    compare_str(a, b) == 0
}

/// Appends one character to a string (std's `String::push`).
#[verifier::external_body]
pub(crate) fn push_char(s: &mut String, c: char)
    ensures
        final(s)@ == old(s)@.push(c),
{
    s.push(c);
}

/// Builds a string from its characters.
pub fn string_from_chars(cs: &Vec<char>) -> (r: String)
    ensures
        r@ == cs@,
{
    let mut r = String::new();
    let mut i: usize = 0;
    while i < cs.len()
        invariant
            0 <= i <= cs.len(),
            r@ == cs@.take(i as int),
        decreases cs.len() - i,
    {
        push_char(&mut r, cs[i]);
        assert(cs@.take(i as int + 1) =~= cs@.take(i as int).push(cs@[i as int]));
        i = i + 1;
    }
    assert(cs@.take(cs.len() as int) =~= cs@);
    r
}

/// The characters of a string slice.
pub fn chars_of(s: &str) -> (r: Vec<char>)
    ensures
        r@ == s@,
{
    let n = s.unicode_len();
    let mut r: Vec<char> = Vec::new();
    let mut i: usize = 0;
    while i < n
        invariant
            0 <= i <= n,
            n == s@.len(),
            r@ == s@.take(i as int),
        decreases n - i,
    {
        r.push(s.get_char(i));
        assert(s@.take(i as int + 1) =~= s@.take(i as int).push(s@[i as int]));
        i = i + 1;
    }
    assert(s@.take(n as int) =~= s@);
    r
}

/// A copy of a string slice as an owned string.
pub fn owned(s: &str) -> (r: String)
    ensures
        r@ == s@,
{
    s.to_owned()
}

/// Concatenates two string slices.
pub fn concat2(a: &str, b: &str) -> (r: String)
    ensures
        r@ == a@ + b@,
{
    let mut r = a.to_owned();
    r.append(b);
    r
}

/// ASCII lower-casing of one character, as `char::to_ascii_lowercase`.
pub open spec fn ascii_lower(c: char) -> char {
    if 'A' <= c && c <= 'Z' {
        ((c as u32) + 32) as char
    } else {
        c
    }
}

/// ASCII upper-casing of one character, as `char::to_ascii_uppercase`.
pub open spec fn ascii_upper(c: char) -> char {
    if 'a' <= c && c <= 'z' {
        ((c as u32) - 32) as char
    } else {
        c
    }
}

/// Exec form of `ascii_lower`.
pub fn to_ascii_lower_char(c: char) -> (r: char)
    ensures
        r == ascii_lower(c),
{
    if 'A' <= c && c <= 'Z' {
        let b: u8 = c as u8;
        let l: u8 = b + 32;
        proof {
            assert((l as char) == ((c as u32) + 32) as char);
        }
        l as char
    } else {
        c
    }
}

/// Exec form of `ascii_upper`.
pub fn to_ascii_upper_char(c: char) -> (r: char)
    ensures
        r == ascii_upper(c),
{
    if 'a' <= c && c <= 'z' {
        let b: u8 = c as u8;
        let u: u8 = b - 32;
        proof {
            assert((u as char) == ((c as u32) - 32) as char);
        }
        u as char
    } else {
        c
    }
}

/// The ASCII lower-case form of a character sequence (`str::to_ascii_lowercase`).
pub open spec fn seq_ascii_lower(s: Seq<char>) -> Seq<char> {
    s.map_values(|c: char| ascii_lower(c))
}

/// The ASCII upper-case form of a character sequence (`str::to_ascii_uppercase`).
pub open spec fn seq_ascii_upper(s: Seq<char>) -> Seq<char> {
    s.map_values(|c: char| ascii_upper(c))
}

/// ASCII-case-insensitive equality (`str::eq_ignore_ascii_case`).
pub open spec fn eq_ignore_ascii_case(a: Seq<char>, b: Seq<char>) -> bool {
    seq_ascii_lower(a) == seq_ascii_lower(b)
}

/// Exec form of `eq_ignore_ascii_case`.
pub fn str_eq_ignore_ascii_case(a: &str, b: &str) -> (r: bool)
    ensures
        r == eq_ignore_ascii_case(a@, b@),
{
    let la = a.unicode_len();
    let lb = b.unicode_len();
    if la != lb {
        assert(seq_ascii_lower(a@).len() != seq_ascii_lower(b@).len());
        return false;
    }
    let mut i: usize = 0;
    while i < la
        invariant
            0 <= i <= la,
            la == a@.len(),
            lb == b@.len(),
            la == lb,
            forall|j: int| 0 <= j < i ==> ascii_lower(#[trigger] a@[j]) == ascii_lower(b@[j]),
        decreases la - i,
    {
        let ca = to_ascii_lower_char(a.get_char(i));
        let cb = to_ascii_lower_char(b.get_char(i));
        if ca != cb {
            assert(seq_ascii_lower(a@)[i as int] != seq_ascii_lower(b@)[i as int]);
            return false;
        }
        i = i + 1;
    }
    assert(seq_ascii_lower(a@) =~= seq_ascii_lower(b@));
    true
}

/// Whether a character is Unicode `White_Space` (`char::is_whitespace`).
pub open spec fn is_unicode_whitespace(c: char) -> bool {
    let u = c as u32;
    ||| (0x09 <= u && u <= 0x0d)
    ||| u == 0x20
    ||| u == 0x85
    ||| u == 0xa0
    ||| u == 0x1680
    ||| (0x2000 <= u && u <= 0x200a)
    ||| u == 0x2028
    ||| u == 0x2029
    ||| u == 0x202f
    ||| u == 0x205f
    ||| u == 0x3000
}

/// Exec form of `is_unicode_whitespace`.
pub fn is_whitespace_char(c: char) -> (r: bool)
    ensures
        r == is_unicode_whitespace(c),
{
    let u = c as u32;
    (0x09 <= u && u <= 0x0d) || u == 0x20 || u == 0x85 || u == 0xa0 || u == 0x1680 || (0x2000
        <= u && u <= 0x200a) || u == 0x2028 || u == 0x2029 || u == 0x202f || u == 0x205f || u
        == 0x3000
}

/// `s` with leading and trailing Unicode whitespace removed (`str::trim`):
/// the slice between the first and the last non-whitespace character, or
/// empty when there is none.
pub open spec fn trimmed(s: Seq<char>, lo: int, hi: int) -> bool {
    &&& 0 <= lo <= hi <= s.len()
    &&& forall|i: int| 0 <= i < lo ==> is_unicode_whitespace(#[trigger] s[i])
    &&& forall|i: int| hi <= i < s.len() ==> is_unicode_whitespace(#[trigger] s[i])
    &&& lo < hi ==> !is_unicode_whitespace(s[lo]) && !is_unicode_whitespace(s[hi - 1])
}

/// The trimmed form of a character sequence.
pub open spec fn seq_trim(s: Seq<char>) -> Seq<char> {
    let (lo, hi) = choose|lo: int, hi: int| #[trigger] trimmed(s, lo, hi);
    s.subrange(lo, hi)
}

/// The trim bounds are unique, so `seq_trim` is well defined.
pub proof fn lemma_trim_unique(s: Seq<char>, lo1: int, hi1: int, lo2: int, hi2: int)
    requires
        trimmed(s, lo1, hi1),
        trimmed(s, lo2, hi2),
    ensures
        s.subrange(lo1, hi1) == s.subrange(lo2, hi2),
{
    if lo1 < hi1 && lo2 < hi2 {
        if lo1 < lo2 {
            assert(is_unicode_whitespace(s[lo1]));
        }
        if lo2 < lo1 {
            assert(is_unicode_whitespace(s[lo2]));
        }
        if hi1 < hi2 {
            assert(is_unicode_whitespace(s[hi2 - 1]));
        }
        if hi2 < hi1 {
            assert(is_unicode_whitespace(s[hi1 - 1]));
        }
    } else if lo1 < hi1 {
        // the second bounds are empty: every character is whitespace
        if lo2 < lo1 + 1 {
            if hi2 <= lo1 {
                assert(is_unicode_whitespace(s[lo1]));
            } else {
                assert(lo2 == hi2);
                if lo1 < lo2 {
                    assert(is_unicode_whitespace(s[lo1]));
                } else {
                    assert(is_unicode_whitespace(s[lo1]));
                }
            }
        } else {
            assert(is_unicode_whitespace(s[lo1]));
        }
    } else if lo2 < hi2 {
        if lo1 <= lo2 {
            if hi1 <= lo2 {
                assert(is_unicode_whitespace(s[lo2]));
            } else {
                assert(is_unicode_whitespace(s[lo2]));
            }
        } else {
            assert(is_unicode_whitespace(s[lo2]));
        }
    } else {
        assert(s.subrange(lo1, hi1) =~= s.subrange(lo2, hi2));
    }
}

/// Trims Unicode whitespace from both ends (`str::trim`).
pub fn trim_chars(s: &str) -> (r: Vec<char>)
    ensures
        r@ == seq_trim(s@),
{
    let cs = chars_of(s);
    let n = cs.len();
    let mut lo: usize = 0;
    while lo < n && is_whitespace_char(cs[lo])
        invariant
            0 <= lo <= n,
            n == cs@.len(),
            forall|i: int| 0 <= i < lo ==> is_unicode_whitespace(#[trigger] cs@[i]),
        decreases n - lo,
    {
        lo = lo + 1;
    }
    let mut hi: usize = n;
    while hi > lo && is_whitespace_char(cs[hi - 1])
        invariant
            lo <= hi <= n,
            n == cs@.len(),
            forall|i: int| hi <= i < n ==> is_unicode_whitespace(#[trigger] cs@[i]),
        decreases hi,
    {
        hi = hi - 1;
    }
    let mut r: Vec<char> = Vec::new();
    let mut i: usize = lo;
    while i < hi
        invariant
            lo <= i <= hi,
            hi <= n,
            n == cs@.len(),
            r@ == cs@.subrange(lo as int, i as int),
        decreases hi - i,
    {
        r.push(cs[i]);
        assert(cs@.subrange(lo as int, i + 1) =~= cs@.subrange(lo as int, i as int).push(
            cs@[i as int],
        ));
        i = i + 1;
    }
    proof {
        assert(trimmed(s@, lo as int, hi as int));
        let (lo2, hi2) = choose|lo2: int, hi2: int| #[trigger] trimmed(s@, lo2, hi2);
        lemma_trim_unique(s@, lo as int, hi as int, lo2, hi2);
    }
    r
}

/// One decimal digit.
pub open spec fn digit_char(d: int) -> char {
    ((d + 48) as u32) as char
}

/// The decimal representation of a natural number, without leading zeros.
pub open spec fn decimal(v: nat) -> Seq<char>
    decreases v,
{
    if v < 10 {
        seq![digit_char(v as int)]
    } else {
        decimal(v / 10).push(digit_char((v % 10) as int))
    }
}

/// The decimal representation of a signed integer (`i64`'s `Display`).
pub open spec fn signed_decimal(v: int) -> Seq<char> {
    if v < 0 {
        seq!['-'] + decimal((-v) as nat)
    } else {
        decimal(v as nat)
    }
}

fn digit_of(d: u64) -> (c: char)
    requires
        d < 10,
    ensures
        c == digit_char(d as int),
{
    let b: u8 = (d as u8) + 48;
    proof {
        assert((b as char) == ((d + 48) as u32) as char);
    }
    b as char
}

/// Formats an unsigned integer in decimal (`u64`'s `Display`).
pub fn u64_to_decimal(v: u64) -> (r: String)
    ensures
        r@ == decimal(v as nat),
    decreases v,
{
    if v < 10 {
        let mut r = String::new();
        push_char(&mut r, digit_of(v));
        assert(r@ =~= seq![digit_char(v as int)]);
        r
    } else {
        let mut r = u64_to_decimal(v / 10);
        push_char(&mut r, digit_of(v % 10));
        r
    }
}

/// Formats a signed integer in decimal (`i64`'s `Display`).
pub fn i64_to_decimal(v: i64) -> (r: String)
    ensures
        r@ == signed_decimal(v as int),
{
    if v < 0 {
        let magnitude: u64 = if v == i64::MIN {
            9223372036854775808u64
        } else {
            (-v) as u64
        };
        let digits = u64_to_decimal(magnitude);
        let r = concat2("-", digits.as_str());
        proof {
            reveal_strlit("-");
        }
        r
    } else {
        u64_to_decimal(v as u64)
    }
}

/// One lower-case hexadecimal digit.
pub open spec fn hex_digit(d: int) -> char {
    if d < 10 {
        ((d + 48) as u32) as char
    } else {
        ((d + 87) as u32) as char
    }
}

/// The lower-case hexadecimal form of `v`, zero-padded on the left to `width`
/// digits (the `{:0width$x}` format for values below `16^width`).
pub open spec fn hex_fixed(v: nat, width: nat) -> Seq<char>
    decreases width,
{
    if width == 0 {
        Seq::empty()
    } else {
        hex_fixed(v / 16, (width - 1) as nat).push(hex_digit((v % 16) as int))
    }
}

fn hex_digit_of(d: u128) -> (c: char)
    requires
        d < 16,
    ensures
        c == hex_digit(d as int),
{
    let b: u8 = if d < 10 {
        (d as u8) + 48
    } else {
        (d as u8) + 87
    };
    b as char
}

fn hex_fixed_rec(v: u128, width: u8, out: &mut String)
    requires
        width <= 32,
    ensures
        final(out)@ == old(out)@ + hex_fixed(v as nat, width as nat),
    decreases width,
{
    if width > 0 {
        hex_fixed_rec(v / 16, width - 1, out);
        push_char(out, hex_digit_of(v % 16));
    } else {
        assert(old(out)@ + hex_fixed(v as nat, 0) =~= old(out)@);
    }
}

/// Formats a `u128` as 32 lower-case hexadecimal digits (`{:032x}`).
pub fn hex32(v: u128) -> (r: String)
    ensures
        r@ == hex_fixed(v as nat, 32),
        r@.len() == 32,
{
    let mut r = String::new();
    hex_fixed_rec(v, 32, &mut r);
    proof {
        lemma_hex_fixed_len(v as nat, 32);
    }
    r
}

/// `hex_fixed` has exactly `width` digits.
pub proof fn lemma_hex_fixed_len(v: nat, width: nat)
    ensures
        hex_fixed(v, width).len() == width,
    decreases width,
{
    if width > 0 {
        lemma_hex_fixed_len(v / 16, (width - 1) as nat);
    }
}

/// `parts` joined with `sep` between consecutive parts (`[String]::join`).
pub open spec fn join_seqs(parts: Seq<Seq<char>>, sep: Seq<char>) -> Seq<char>
    decreases parts.len(),
{
    if parts.len() == 0 {
        Seq::empty()
    } else if parts.len() == 1 {
        parts[0]
    } else {
        join_seqs(parts.drop_last(), sep) + sep + parts.last()
    }
}

/// The views of a vector of strings.
pub open spec fn views(v: Seq<String>) -> Seq<Seq<char>> {
    v.map_values(|s: String| s@)
}

/// Joins strings with a separator (`[String]::join`).
pub fn join_strings(parts: &Vec<String>, sep: &str) -> (r: String)
    ensures
        r@ == join_seqs(views(parts@), sep@),
{
    let mut r = String::new();
    let mut i: usize = 0;
    while i < parts.len()
        invariant
            0 <= i <= parts.len(),
            r@ == join_seqs(views(parts@.take(i as int)), sep@),
        decreases parts.len() - i,
    {
        let ghost before = views(parts@.take(i as int));
        assert(views(parts@.take(i as int + 1)).drop_last() =~= before);
        if i > 0 {
            r.append(sep);
        } else {
            assert(before.len() == 0);
        }
        r.append(parts[i].as_str());
        assert(views(parts@.take(i as int + 1)).last() == parts@[i as int]@);
        i = i + 1;
    }
    assert(parts@.take(parts.len() as int) =~= parts@);
    r
}

/// Whether `s` begins with `prefix` (`str::starts_with`).
pub open spec fn has_prefix(s: Seq<char>, prefix: Seq<char>) -> bool {
    prefix.len() <= s.len() && s.take(prefix.len() as int) == prefix
}

/// Exec form of `has_prefix`.
pub fn str_starts_with(s: &str, prefix: &str) -> (r: bool)
    ensures
        r == has_prefix(s@, prefix@),
{
    let n = prefix.unicode_len();
    let m = s.unicode_len();
    if n > m {
        return false;
    }
    let mut i: usize = 0;
    while i < n
        invariant
            i <= n <= m,
            n == prefix@.len(),
            m == s@.len(),
            forall|k: int| 0 <= k < i ==> s@[k] == prefix@[k],
        decreases n - i,
    {
        if s.get_char(i) != prefix.get_char(i) {
            assert(s@.take(n as int)[i as int] != prefix@[i as int]);
            return false;
        }
        i = i + 1;
    }
    assert(s@.take(n as int) =~= prefix@);
    true
}

/// Borrows the contents of an optional string (`Option::as_deref`).
pub fn opt_str(o: &Option<String>) -> (r: Option<&str>)
    ensures
        match r {
            Some(v) => o.is_some() && v@ == o.unwrap()@,
            None => o.is_none(),
        },
{
    match o {
        Some(v) => Some(v.as_str()),
        None => None,
    }
}

/// The view of an optional borrowed string.
pub open spec fn opt_ref_view(o: Option<&str>) -> Option<Seq<char>> {
    match o {
        Some(s) => Some(s@),
        None => None,
    }
}

/// The view of an optional string.
pub open spec fn opt_string_view(o: Option<String>) -> Option<Seq<char>> {
    match o {
        Some(s) => Some(s@),
        None => None,
    }
}

} // verus!
