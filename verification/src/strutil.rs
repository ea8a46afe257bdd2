//! Character-level string utilities: equality, lexicographic order, decimal
//! formatting and path splitting, all over the `Seq<char>` view of a string.

use vstd::prelude::*;

verus! {

use vstd::string::StringSliceAdditionalSpecFns;

/// Character-by-character string equality.
pub fn str_eq(a: &str, b: &str) -> (r: bool)
    ensures
        r == (a@ == b@),
{
    let alen = a.unicode_len();
    let blen = b.unicode_len();
    if alen != blen {
        return false;
    }
    let mut i: usize = 0;
    while i < alen
        invariant
            i <= alen,
            alen == a@.len(),
            alen == b@.len(),
            forall|j: int| 0 <= j < i ==> a@[j] == b@[j],
        decreases alen - i,
    {
        if a.get_char(i) != b.get_char(i) {
            return false;
        }
        i += 1;
    }
    proof {
        assert(a@ =~= b@);
    }
    true
}

/// `a` comes strictly before `b` in character-by-character (code point)
/// lexicographic order.
pub open spec fn lex_lt(a: Seq<char>, b: Seq<char>) -> bool
    decreases a.len(),
{
    if b.len() == 0 {
        false
    } else if a.len() == 0 {
        true
    } else if a[0] == b[0] {
        lex_lt(a.skip(1), b.skip(1))
    } else {
        (a[0] as u32) < (b[0] as u32)
    }
}

/// `a` comes before `b` or equals it.
pub open spec fn lex_le(a: Seq<char>, b: Seq<char>) -> bool {
    lex_lt(a, b) || a == b
}

/// Two sequences that precede each other in no direction are equal:
/// the order leaves no pair unrelated.
pub proof fn lemma_lex_connected(a: Seq<char>, b: Seq<char>)
    ensures
        !lex_lt(a, b) && !lex_lt(b, a) ==> a == b,
    decreases a.len(),
{
    if a.len() > 0 && b.len() > 0 && a[0] == b[0] {
        lemma_lex_connected(a.skip(1), b.skip(1));
        if !lex_lt(a, b) && !lex_lt(b, a) {
            assert(a.skip(1).len() == b.skip(1).len());
            assert forall|i: int| 0 <= i < a.len() implies a[i] == b[i] by {
                if i > 0 {
                    assert(a[i] == a.skip(1)[i - 1]);
                    assert(b[i] == b.skip(1)[i - 1]);
                }
            }
            assert(a =~= b);
        }
    } else if a.len() == 0 && b.len() == 0 {
        assert(a =~= b);
    } else if a.len() > 0 && b.len() > 0 && (a[0] as u32) == (b[0] as u32) {
        // The cast to a code point is injective, so the heads are in fact equal,
        // contradicting the branch above not being taken.
        vstd::utf8::char_u32_cast(a[0], a[0] as u32);
        vstd::utf8::char_u32_cast(b[0], b[0] as u32);
        assert(a[0] == b[0]);
    }
}

/// Strict lexicographic order is transitive.
pub proof fn lemma_lex_trans(a: Seq<char>, b: Seq<char>, c: Seq<char>)
    ensures
        lex_lt(a, b) && lex_lt(b, c) ==> lex_lt(a, c),
    decreases a.len(),
{
    if a.len() > 0 && b.len() > 0 && c.len() > 0 && a[0] == b[0] && b[0] == c[0] {
        lemma_lex_trans(a.skip(1), b.skip(1), c.skip(1));
    }
}

/// No sequence precedes itself.
pub proof fn lemma_lex_irrefl(a: Seq<char>)
    ensures
        !lex_lt(a, a),
    decreases a.len(),
{
    if a.len() > 0 {
        lemma_lex_irrefl(a.skip(1));
    }
}

/// At most one direction of strict order can hold.
pub proof fn lemma_lex_asymmetric(a: Seq<char>, b: Seq<char>)
    ensures
        lex_lt(a, b) ==> !lex_lt(b, a),
    decreases a.len(),
{
    if a.len() > 0 && b.len() > 0 && a[0] == b[0] {
        lemma_lex_asymmetric(a.skip(1), b.skip(1));
    }
}

fn str_lt_at(a: &str, b: &str, i: usize) -> (r: bool)
    requires
        i <= a@.len(),
        i <= b@.len(),
    ensures
        r == lex_lt(a@.skip(i as int), b@.skip(i as int)),
    decreases a@.len() - i,
{
    let alen = a.unicode_len();
    let blen = b.unicode_len();
    if i == blen {
        false
    } else if i == alen {
        true
    } else {
        let ca = a.get_char(i);
        let cb = b.get_char(i);
        if ca == cb {
            let r = str_lt_at(a, b, i + 1);
            proof {
                assert(a@.skip(i as int).skip(1) =~= a@.skip(i + 1));
                assert(b@.skip(i as int).skip(1) =~= b@.skip(i + 1));
            }
            r
        } else {
            (ca as u32) < (cb as u32)
        }
    }
}

/// Character-by-character strict lexicographic comparison.
pub fn str_lt(a: &str, b: &str) -> (r: bool)
    ensures
        r == lex_lt(a@, b@),
{
    let r = str_lt_at(a, b, 0);
    proof {
        assert(a@.skip(0) =~= a@);
        assert(b@.skip(0) =~= b@);
    }
    r
}

/// Character-by-character lexicographic comparison, allowing equality.
pub fn str_le(a: &str, b: &str) -> (r: bool)
    ensures
        r == lex_le(a@, b@),
{
    let lt_rev = str_lt(b, a);
    proof {
        lemma_lex_connected(a@, b@);
        lemma_lex_asymmetric(a@, b@);
        lemma_lex_irrefl(a@);
    }
    !lt_rev
}

/// Relies on String::push: appends exactly one character.
#[verifier::external_body]
pub(crate) fn push_char(s: &mut String, c: char)
    ensures
        final(s)@ == old(s)@.push(c),
{
    s.push(c);
}

/// The character for one decimal digit.
pub open spec fn dec_digit(d: int) -> char {
    if d == 0 {
        '0'
    } else if d == 1 {
        '1'
    } else if d == 2 {
        '2'
    } else if d == 3 {
        '3'
    } else if d == 4 {
        '4'
    } else if d == 5 {
        '5'
    } else if d == 6 {
        '6'
    } else if d == 7 {
        '7'
    } else if d == 8 {
        '8'
    } else {
        '9'
    }
}

/// The decimal digits of a non-negative number, most significant first.
pub open spec fn dec_str(n: int) -> Seq<char>
    decreases n,
{
    if n < 10 {
        seq![dec_digit(n)]
    } else {
        dec_str(n / 10).push(dec_digit(n % 10))
    }
}

fn digit_char(d: u64) -> (c: char)
    requires
        d < 10,
    ensures
        c == dec_digit(d as int),
{
    match d {
        0 => '0',
        1 => '1',
        2 => '2',
        3 => '3',
        4 => '4',
        5 => '5',
        6 => '6',
        7 => '7',
        8 => '8',
        _ => '9',
    }
}

/// Appends the decimal digits of `n` to `s`.
pub fn push_decimal(s: &mut String, n: u64)
    ensures
        final(s)@ == old(s)@ + dec_str(n as int),
    decreases n,
{
    if n < 10 {
        push_char(s, digit_char(n));
        proof {
            assert(s@ =~= old(s)@ + dec_str(n as int));
        }
    } else {
        push_decimal(s, n / 10);
        push_char(s, digit_char(n % 10));
        proof {
            assert(s@ =~= old(s)@ + dec_str(n as int));
        }
    }
}

/// The decimal representation of `n`.
pub fn u64_to_string(n: u64) -> (r: String)
    ensures
        r@ == dec_str(n as int),
{
    let mut s = String::new();
    push_decimal(&mut s, n);
    proof {
        assert(s@ =~= dec_str(n as int));
    }
    s
}

/// `needle` occurs as a contiguous run inside `hay`.
pub open spec fn contains_seq(hay: Seq<char>, needle: Seq<char>) -> bool {
    exists|i: int|
        0 <= i && i + needle.len() <= hay.len() && #[trigger] hay.subrange(i, i + needle.len())
            == needle
}

fn match_at(hay: &str, needle: &str, i: usize) -> (r: bool)
    requires
        i + needle@.len() <= hay@.len(),
    ensures
        r == (hay@.subrange(i as int, i + needle@.len()) == needle@),
{
    let nlen = needle.unicode_len();
    let hlen = hay.unicode_len();
    let mut j: usize = 0;
    while j < nlen
        invariant
            j <= nlen,
            nlen == needle@.len(),
            hlen == hay@.len(),
            i + nlen <= hlen,
            forall|k: int| 0 <= k < j ==> hay@[i + k] == needle@[k],
        decreases nlen - j,
    {
        if hay.get_char(i + j) != needle.get_char(j) {
            proof {
                assert(hay@.subrange(i as int, i + needle@.len())[j as int] == hay@[i + j]);
            }
            return false;
        }
        j += 1;
    }
    proof {
        assert(hay@.subrange(i as int, i + needle@.len()) =~= needle@);
    }
    true
}

/// Substring search: whether `needle` occurs inside `hay`.
pub fn str_contains(hay: &str, needle: &str) -> (r: bool)
    ensures
        r == contains_seq(hay@, needle@),
{
    let hlen = hay.unicode_len();
    let nlen = needle.unicode_len();
    if nlen > hlen {
        return false;
    }
    if nlen == 0 {
        proof {
            assert(hay@.subrange(0, 0 + needle@.len() as int) =~= needle@);
            assert(contains_seq(hay@, needle@));
        }
        return true;
    }
    let mut i: usize = 0;
    while i <= hlen - nlen
        invariant
            1 <= nlen <= hlen,
            hlen == hay@.len(),
            nlen == needle@.len(),
            i <= hlen - nlen + 1,
            forall|j: int|
                0 <= j < i ==> #[trigger] hay@.subrange(j, j + needle@.len()) != needle@,
        decreases hlen - nlen + 1 - i,
    {
        if match_at(hay, needle, i) {
            return true;
        }
        i += 1;
    }
    false
}

/// What `str::to_lowercase` returns: a function of the characters alone.
pub uninterp spec fn lower_of(s: Seq<char>) -> Seq<char>;

/// Relies on str::to_lowercase: the result depends on the characters alone.
#[verifier::external_body]
pub(crate) fn lowercase(s: &str) -> (r: String)
    ensures
        r@ == lower_of(s@),
{
    s.to_lowercase()
}

/// What `char::is_alphanumeric` returns: a function of the character alone.
pub uninterp spec fn alnum(c: char) -> bool;

/// Relies on char::is_alphanumeric: the result depends on the character alone.
#[verifier::external_body]
pub(crate) fn is_alphanumeric_char(c: char) -> (r: bool)
    ensures
        r == alnum(c),
{
    c.is_alphanumeric()
}

/// The character for one hexadecimal digit, upper case.
pub open spec fn hex_digit(d: int) -> char {
    if d == 10 {
        'A'
    } else if d == 11 {
        'B'
    } else if d == 12 {
        'C'
    } else if d == 13 {
        'D'
    } else if d == 14 {
        'E'
    } else if d == 15 {
        'F'
    } else {
        dec_digit(d)
    }
}

/// Bytes that a URL query component carries unchanged.
pub open spec fn is_url_unreserved(b: u8) -> bool {
    (65 <= b <= 90) || (97 <= b <= 122) || (48 <= b <= 57) || b == 45 || b == 95
        || b == 46 || b == 126
}

/// The query encoding of one byte: kept, written `+` for a space, or
/// percent-escaped as two upper-case hexadecimal digits.
pub open spec fn urlencode_byte(b: u8) -> Seq<char> {
    if is_url_unreserved(b) {
        seq![b as char]
    } else if b == 32 {
        seq!['+']
    } else {
        seq!['%', hex_digit(b as int / 16), hex_digit(b as int % 16)]
    }
}

/// The query encoding of a byte sequence.
pub open spec fn urlencode_bytes(bs: Seq<u8>) -> Seq<char>
    decreases bs.len(),
{
    if bs.len() == 0 {
        Seq::empty()
    } else {
        urlencode_byte(bs[0]) + urlencode_bytes(bs.drop_first())
    }
}

proof fn lemma_urlencode_bytes_snoc(bs: Seq<u8>, b: u8)
    ensures
        urlencode_bytes(bs.push(b)) == urlencode_bytes(bs) + urlencode_byte(b),
    decreases bs.len(),
{
    if bs.len() == 0 {
        assert(bs.push(b).drop_first() =~= Seq::<u8>::empty());
        assert(urlencode_bytes(Seq::<u8>::empty()) =~= Seq::<char>::empty());
        assert(urlencode_bytes(bs.push(b)) =~= urlencode_bytes(bs) + urlencode_byte(b));
    } else {
        assert(bs.push(b).drop_first() =~= bs.drop_first().push(b));
        lemma_urlencode_bytes_snoc(bs.drop_first(), b);
        assert(urlencode_bytes(bs.push(b)) =~= urlencode_bytes(bs) + urlencode_byte(b));
    }
}

fn hex_char(d: u8) -> (c: char)
    requires
        d < 16,
    ensures
        c == hex_digit(d as int),
{
    match d {
        0 => '0',
        1 => '1',
        2 => '2',
        3 => '3',
        4 => '4',
        5 => '5',
        6 => '6',
        7 => '7',
        8 => '8',
        9 => '9',
        10 => 'A',
        11 => 'B',
        12 => 'C',
        13 => 'D',
        14 => 'E',
        _ => 'F',
    }
}

/// Encodes a string for use in a URL query: unreserved ASCII bytes are kept,
/// spaces become `+`, and every other byte of the UTF-8 encoding is
/// percent-escaped.
pub fn urlencode(s: &str) -> (r: String)
    ensures
        r@ == urlencode_bytes(s.spec_bytes()),
{
    let bytes = s.as_bytes_vec();
    let mut r = String::new();
    let mut i: usize = 0;
    while i < bytes.len()
        invariant
            i <= bytes@.len(),
            bytes@ == s.spec_bytes(),
            r@ == urlencode_bytes(bytes@.take(i as int)),
        decreases bytes@.len() - i,
    {
        let b = bytes[i];
        if (b >= 65 && b <= 90) || (b >= 97 && b <= 122) || (b >= 48 && b <= 57)
            || b == 45 || b == 95 || b == 46 || b == 126 {
            push_char(&mut r, b as char);
        } else if b == 32 {
            push_char(&mut r, '+');
        } else {
            push_char(&mut r, '%');
            push_char(&mut r, hex_char(b / 16));
            push_char(&mut r, hex_char(b % 16));
        }
        proof {
            lemma_urlencode_bytes_snoc(bytes@.take(i as int), b);
            assert(bytes@.take(i + 1) =~= bytes@.take(i as int).push(b));
            assert(r@ =~= urlencode_bytes(bytes@.take(i + 1)));
        }
        i += 1;
    }
    proof {
        assert(bytes@.take(i as int) =~= bytes@);
    }
    r
}

/// Index of the last occurrence of `c` in `s`, or `-1` when absent.
pub open spec fn find_last(s: Seq<char>, c: char) -> int
    decreases s.len(),
{
    if s.len() == 0 {
        -1
    } else if s.last() == c {
        s.len() - 1
    } else {
        find_last(s.drop_last(), c)
    }
}

proof fn lemma_find_last_prefix(s: Seq<char>, c: char, j: int)
    requires
        0 <= j <= s.len(),
        forall|k: int| j <= k < s.len() ==> s[k] != c,
    ensures
        find_last(s, c) == find_last(s.take(j), c),
    decreases s.len() - j,
{
    if j < s.len() {
        assert(s.drop_last() =~= s.take(s.len() - 1));
        lemma_find_last_prefix(s.take(s.len() - 1), c, j);
        assert(s.take(s.len() - 1).take(j) =~= s.take(j));
    } else {
        assert(s.take(j) =~= s);
    }
}

/// Index of the last occurrence of `c` in `s`.
pub fn find_last_char(s: &str, c: char) -> (r: Option<usize>)
    ensures
        match r {
            Some(i) => i as int == find_last(s@, c) && i < s@.len(),
            None => find_last(s@, c) == -1,
        },
{
    let len = s.unicode_len();
    let mut j: usize = len;
    while j > 0
        invariant
            j <= len,
            len == s@.len(),
            forall|k: int| j <= k < len ==> s@[k] != c,
        decreases j,
    {
        j -= 1;
        if s.get_char(j) == c {
            proof {
                lemma_find_last_prefix(s@, c, j + 1);
                assert(s@.take(j + 1).last() == s@[j as int]);
            }
            return Some(j);
        }
    }
    proof {
        lemma_find_last_prefix(s@, c, 0);
        assert(s@.take(0) =~= Seq::<char>::empty());
    }
    None
}

/// The part of a path after the last separator; the whole path when it has
/// no separator.
pub open spec fn file_name_of(p: Seq<char>) -> Seq<char> {
    p.skip(find_last(p, '/') + 1)
}

/// The directory part of a path: empty for a bare name, the root for an
/// entry directly under it, and otherwise everything before the last
/// separator.
pub open spec fn parent_of(p: Seq<char>) -> Seq<char> {
    let j = find_last(p, '/');
    if j < 0 {
        Seq::empty()
    } else if j == 0 {
        p.take(1)
    } else {
        p.take(j)
    }
}

/// The extension of a path's file name: the part after the last dot, absent
/// when the name holds no dot or only a leading one.
pub open spec fn extension_of(p: Seq<char>) -> Option<Seq<char>> {
    let name = file_name_of(p);
    let j = find_last(name, '.');
    if j <= 0 {
        None
    } else {
        Some(name.skip(j + 1))
    }
}

/// The file name of a path without its extension.
pub open spec fn file_stem_of(p: Seq<char>) -> Seq<char> {
    let name = file_name_of(p);
    let j = find_last(name, '.');
    if j <= 0 {
        name
    } else {
        name.take(j)
    }
}

proof fn lemma_find_last_in_range(s: Seq<char>, c: char)
    ensures
        -1 <= find_last(s, c) < s.len(),
    decreases s.len(),
{
    if s.len() > 0 && s.last() != c {
        lemma_find_last_in_range(s.drop_last(), c);
    }
}

/// The file-name part of a path.
pub fn path_file_name(p: &str) -> (r: String)
    ensures
        r@ == file_name_of(p@),
{
    let len = p.unicode_len();
    let cut: usize = match find_last_char(p, '/') {
        Some(j) => j + 1,
        None => 0,
    };
    let part = p.substring_char(cut, len);
    proof {
        assert(part@ =~= file_name_of(p@));
    }
    part.to_owned()
}

/// The directory part of a path.
pub fn path_parent(p: &str) -> (r: String)
    ensures
        r@ == parent_of(p@),
{
    let cut: usize = match find_last_char(p, '/') {
        Some(0) => 1,
        Some(j) => j,
        None => 0,
    };
    let part = p.substring_char(0, cut);
    proof {
        assert(part@ =~= parent_of(p@));
    }
    part.to_owned()
}

/// The extension of a path's file name.
pub fn path_extension(p: &str) -> (r: Option<String>)
    ensures
        match r {
            Some(e) => extension_of(p@) == Some(e@),
            None => extension_of(p@) is None,
        },
{
    let name = path_file_name(p);
    let nlen = name.as_str().unicode_len();
    match find_last_char(name.as_str(), '.') {
        Some(j) if j > 0 => {
            let e = name.as_str().substring_char(j + 1, nlen);
            proof {
                assert(e@ =~= extension_of(p@).unwrap());
            }
            Some(e.to_owned())
        },
        _ => None,
    }
}

/// The file name of a path without its extension.
pub fn path_file_stem(p: &str) -> (r: String)
    ensures
        r@ == file_stem_of(p@),
{
    let name = path_file_name(p);
    let nlen = name.as_str().unicode_len();
    match find_last_char(name.as_str(), '.') {
        Some(j) if j > 0 => {
            let st = name.as_str().substring_char(0, j);
            proof {
                assert(st@ =~= file_stem_of(p@));
            }
            st.to_owned()
        },
        _ => name,
    }
}

/// What `str::trim` returns: a function of the characters alone.
pub uninterp spec fn trim_of(s: Seq<char>) -> Seq<char>;

/// Relies on str::trim: the result depends on the characters alone.
#[verifier::external_body]
pub(crate) fn trim(s: &str) -> (r: &str)
    ensures
        r@ == trim_of(s@),
{
    s.trim()
}

/// Index of the first occurrence of `c` in `s`, or `-1` when absent.
pub open spec fn find_first(s: Seq<char>, c: char) -> int
    decreases s.len(),
{
    if s.len() == 0 {
        -1
    } else if s[0] == c {
        0
    } else {
        let r = find_first(s.drop_first(), c);
        if r < 0 {
            -1
        } else {
            r + 1
        }
    }
}

proof fn lemma_find_first_from(s: Seq<char>, c: char, i: int)
    requires
        0 <= i <= s.len(),
        forall|k: int| 0 <= k < i ==> s[k] != c,
    ensures
        i < s.len() && s[i] == c ==> find_first(s, c) == i,
        i == s.len() ==> find_first(s, c) == -1 || find_first(s, c) >= i,
    decreases i,
{
    if i > 0 {
        assert(s[0] != c);
        assert forall|k: int| 0 <= k < i - 1 implies s.drop_first()[k] != c by {
            assert(s.drop_first()[k] == s[k + 1]);
        }
        lemma_find_first_from(s.drop_first(), c, i - 1);
        if i < s.len() {
            assert(s.drop_first()[i - 1] == s[i]);
        }
    }
}

proof fn lemma_find_first_absent(s: Seq<char>, c: char)
    requires
        forall|k: int| 0 <= k < s.len() ==> s[k] != c,
    ensures
        find_first(s, c) == -1,
    decreases s.len(),
{
    if s.len() > 0 {
        assert forall|k: int| 0 <= k < s.drop_first().len() implies s.drop_first()[k] != c by {
            assert(s.drop_first()[k] == s[k + 1]);
        }
        lemma_find_first_absent(s.drop_first(), c);
    }
}

/// Index of the first occurrence of `c` in `s`.
pub fn find_first_char(s: &str, c: char) -> (r: Option<usize>)
    ensures
        match r {
            Some(i) => i as int == find_first(s@, c) && i < s@.len(),
            None => find_first(s@, c) == -1,
        },
{
    let len = s.unicode_len();
    let mut i: usize = 0;
    while i < len
        invariant
            i <= len,
            len == s@.len(),
            forall|k: int| 0 <= k < i ==> s@[k] != c,
        decreases len - i,
    {
        if s.get_char(i) == c {
            proof {
                lemma_find_first_from(s@, c, i as int);
            }
            return Some(i);
        }
        i += 1;
    }
    proof {
        lemma_find_first_absent(s@, c);
    }
    None
}

/// `pre` is a prefix of `s`.
pub open spec fn starts_with(s: Seq<char>, pre: Seq<char>) -> bool {
    pre.len() <= s.len() && s.take(pre.len() as int) == pre
}

/// Prefix test, character by character.
pub fn str_starts_with(s: &str, pre: &str) -> (r: bool)
    ensures
        r == starts_with(s@, pre@),
{
    let slen = s.unicode_len();
    let plen = pre.unicode_len();
    if plen > slen {
        return false;
    }
    let mut i: usize = 0;
    while i < plen
        invariant
            i <= plen <= slen,
            slen == s@.len(),
            plen == pre@.len(),
            forall|k: int| 0 <= k < i ==> s@[k] == pre@[k],
        decreases plen - i,
    {
        if s.get_char(i) != pre.get_char(i) {
            proof {
                assert(s@.take(plen as int)[i as int] == s@[i as int]);
            }
            return false;
        }
        i += 1;
    }
    proof {
        assert(s@.take(plen as int) =~= pre@);
    }
    true
}

} // verus!
