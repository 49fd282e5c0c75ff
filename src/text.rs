//! Small text utilities over `str`, proved against their meaning on `Seq<char>`.
use vstd::prelude::*;
use vstd::string::*;

verus! {

/// `needle` occurs in `hay` starting at position `i`.
pub open spec fn occurs_at(hay: Seq<char>, needle: Seq<char>, i: int) -> bool {
    0 <= i && i + needle.len() <= hay.len() && hay.subrange(i, i + needle.len()) == needle
}

/// `needle` occurs somewhere in `hay`.
pub open spec fn contains_seq(hay: Seq<char>, needle: Seq<char>) -> bool {
    exists|i: int| occurs_at(hay, needle, i)
}

/// The characters of an optional string.
pub open spec fn opt_text(o: Option<String>) -> Option<Seq<char>> {
    match o {
        Some(s) => Some(s@),
        None => None,
    }
}

/// A character that may stand in an HTTP header value: a tab, or any character from
/// the space upwards other than DEL (every byte of a multi-byte UTF-8 character is
/// at least 0x80, so all non-ASCII characters are accepted).
pub open spec fn is_header_char(c: char) -> bool {
    c == '\t' || (' ' <= c && c != '\x7f')
}

/// Every character of `s` may stand in an HTTP header value.
pub open spec fn is_header_text(s: Seq<char>) -> bool {
    forall|i: int| 0 <= i < s.len() ==> is_header_char(#[trigger] s[i])
}

/// The decimal digit character of `d`, for `d < 10`.
pub open spec fn digit_char(d: nat) -> char {
    if d == 0 { '0' }
    else if d == 1 { '1' }
    else if d == 2 { '2' }
    else if d == 3 { '3' }
    else if d == 4 { '4' }
    else if d == 5 { '5' }
    else if d == 6 { '6' }
    else if d == 7 { '7' }
    else if d == 8 { '8' }
    else { '9' }
}

/// The decimal representation of `n`, without leading zeros.
pub open spec fn decimal_of(n: nat) -> Seq<char>
    decreases n,
{
    if n < 10 {
        seq![digit_char(n)]
    } else {
        decimal_of(n / 10) + seq![digit_char(n % 10)]
    }
}

/// The decimal representation is never empty.
pub proof fn lemma_decimal_nonempty(n: nat)
    ensures
        decimal_of(n).len() >= 1,
    decreases n,
{
    if n >= 10 {
        lemma_decimal_nonempty(n / 10);
    }
}

/// Different numbers have different decimal representations.
pub proof fn lemma_decimal_injective(a: nat, b: nat)
    requires
        decimal_of(a) == decimal_of(b),
    ensures
        a == b,
    decreases a + b,
{
    if a < 10 && b < 10 {
        assert(decimal_of(a)[0] == digit_char(a));
        assert(decimal_of(b)[0] == digit_char(b));
    } else if a < 10 {
        lemma_decimal_nonempty(b / 10);
        assert(decimal_of(b).len() >= 2);
    } else if b < 10 {
        lemma_decimal_nonempty(a / 10);
        assert(decimal_of(a).len() >= 2);
    } else {
        let da = decimal_of(a);
        let db = decimal_of(b);
        assert(da[da.len() - 1] == digit_char(a % 10));
        assert(db[db.len() - 1] == digit_char(b % 10));
        assert(decimal_of(a / 10) =~= da.subrange(0, da.len() - 1));
        assert(decimal_of(b / 10) =~= db.subrange(0, db.len() - 1));
        lemma_decimal_injective(a / 10, b / 10);
    }
}

/// What `str::to_lowercase` returns for the characters `s`.
pub uninterp spec fn lower_of(s: Seq<char>) -> Seq<char>;

/// Relies on `str::to_lowercase`: its result depends on the characters of `s` alone.
#[verifier::external_body]
pub(crate) fn lowercase(s: &str) -> (r: String)
    ensures
        r@ == lower_of(s@),
{
    s.to_lowercase()
}

/// The text of the decimal digit `d`.
fn digit_text(d: u64) -> (r: &'static str)
    requires
        d < 10,
    ensures
        r@ == seq![digit_char(d as nat)],
{
    if d == 0 {
        proof {
            reveal_strlit("0");
        }
        "0"
    } else if d == 1 {
        proof {
            reveal_strlit("1");
        }
        "1"
    } else if d == 2 {
        proof {
            reveal_strlit("2");
        }
        "2"
    } else if d == 3 {
        proof {
            reveal_strlit("3");
        }
        "3"
    } else if d == 4 {
        proof {
            reveal_strlit("4");
        }
        "4"
    } else if d == 5 {
        proof {
            reveal_strlit("5");
        }
        "5"
    } else if d == 6 {
        proof {
            reveal_strlit("6");
        }
        "6"
    } else if d == 7 {
        proof {
            reveal_strlit("7");
        }
        "7"
    } else if d == 8 {
        proof {
            reveal_strlit("8");
        }
        "8"
    } else {
        proof {
            reveal_strlit("9");
        }
        "9"
    }
}

/// The decimal representation of `n`, without sign or leading zeros.
pub fn decimal_string(n: u64) -> (r: String)
    ensures
        r@ == decimal_of(n as nat),
{
    let mut r = String::from_str(digit_text(n % 10));
    let mut m: u64 = n / 10;
    assert(decimal_of(n as nat) == (if m == 0 {
        Seq::<char>::empty()
    } else {
        decimal_of(m as nat)
    }) + r@);
    while m > 0
        invariant
            decimal_of(n as nat) == (if m == 0 {
                Seq::<char>::empty()
            } else {
                decimal_of(m as nat)
            }) + r@,
        decreases m,
    {
        let ghost old_r = r@;
        let digit = String::from_str(digit_text(m % 10));
        r = digit.concat(r.as_str());
        let ghost next = (m / 10) as nat;
        assert(decimal_of(m as nat) == (if next == 0 {
            Seq::<char>::empty()
        } else {
            decimal_of(next)
        }) + seq![digit_char((m % 10) as nat)]);
        assert(r@ == seq![digit_char((m % 10) as nat)] + old_r);
        assert((if next == 0 {
            Seq::<char>::empty()
        } else {
            decimal_of(next)
        }) + seq![digit_char((m % 10) as nat)] + old_r =~= (if next == 0 {
            Seq::<char>::empty()
        } else {
            decimal_of(next)
        }) + r@);
        m = m / 10;
    }
    assert(Seq::<char>::empty() + r@ =~= r@);
    r
}

/// Whether two strings hold the same characters.
pub fn text_eq(a: &str, b: &str) -> (r: bool)
    ensures
        r == (a@ == b@),
{
    let n = a.unicode_len();
    let m = b.unicode_len();
    if n != m {
        return false;
    }
    let mut i: usize = 0;
    while i < n
        invariant
            n == a@.len(),
            m == b@.len(),
            n == m,
            i <= n,
            a@.subrange(0, i as int) == b@.subrange(0, i as int),
        decreases n - i,
    {
        if a.get_char(i) != b.get_char(i) {
            return false;
        }
        assert(a@.subrange(0, i + 1) == a@.subrange(0, i as int).push(a@[i as int]));
        assert(b@.subrange(0, i + 1) == b@.subrange(0, i as int).push(b@[i as int]));
        i = i + 1;
    }
    assert(a@ == a@.subrange(0, n as int));
    assert(b@ == b@.subrange(0, n as int));
    true
}

/// Whether `needle` occurs in `hay` at position `at`.
fn occurs_at_exec(hay: &str, needle: &str, at: usize, n: usize, m: usize) -> (r: bool)
    requires
        n == hay@.len(),
        m == needle@.len(),
        at + m <= n,
    ensures
        r == occurs_at(hay@, needle@, at as int),
{
    let mut j: usize = 0;
    while j < m
        invariant
            n == hay@.len(),
            m == needle@.len(),
            at + m <= n,
            j <= m,
            hay@.subrange(at as int, at + j) == needle@.subrange(0, j as int),
        decreases m - j,
    {
        if hay.get_char(at + j) != needle.get_char(j) {
            assert(hay@.subrange(at as int, at + m)[j as int] != needle@[j as int]);
            return false;
        }
        assert(hay@.subrange(at as int, at + j + 1) == hay@.subrange(at as int, at + j).push(
            hay@[at + j],
        ));
        assert(needle@.subrange(0, j + 1) == needle@.subrange(0, j as int).push(needle@[j as int]));
        j = j + 1;
    }
    assert(needle@ == needle@.subrange(0, m as int));
    true
}

/// Whether `needle` occurs anywhere in `hay`.
pub fn contains_text(hay: &str, needle: &str) -> (r: bool)
    ensures
        r == contains_seq(hay@, needle@),
{
    let n = hay.unicode_len();
    let m = needle.unicode_len();
    if m > n {
        return false;
    }
    let mut at: usize = 0;
    loop
        invariant
            n == hay@.len(),
            m == needle@.len(),
            m <= n,
            at <= n - m,
            forall|k: int| 0 <= k < at ==> !occurs_at(hay@, needle@, k),
        decreases n - m - at,
    {
        if occurs_at_exec(hay, needle, at, n, m) {
            return true;
        }
        if at == n - m {
            assert forall|k: int| !occurs_at(hay@, needle@, k) by {
                if 0 <= k < at {
                }
            }
            return false;
        }
        at = at + 1;
    }
}

/// Whether `s` may be used as an HTTP header value.
pub fn is_header_value(s: &str) -> (r: bool)
    ensures
        r == is_header_text(s@),
{
    let n = s.unicode_len();
    let mut i: usize = 0;
    while i < n
        invariant
            n == s@.len(),
            i <= n,
            forall|k: int| 0 <= k < i ==> is_header_char(#[trigger] s@[k]),
        decreases n - i,
    {
        let c = s.get_char(i);
        if !(c == '\t' || (' ' <= c && c != '\x7f')) {
            return false;
        }
        i = i + 1;
    }
    true
}

/// The pieces of `s` between commas, scanning from position `i` with the current
/// piece starting at `start`: every comma ends a piece, and the text after the last
/// comma is a piece only where it is not empty.
pub open spec fn pieces_scan(s: Seq<char>, i: int, start: int) -> Seq<Seq<char>>
    decreases s.len() - i,
{
    if i >= s.len() {
        if start < s.len() {
            seq![s.subrange(start, s.len() as int)]
        } else {
            Seq::empty()
        }
    } else if s[i] == ',' {
        seq![s.subrange(start, i)] + pieces_scan(s, i + 1, i + 1)
    } else {
        pieces_scan(s, i + 1, start)
    }
}

/// The pieces of `s` between commas, where a comma at the very end opens no further
/// piece (as `str::split_terminator(',')` gives them).
pub open spec fn comma_pieces(s: Seq<char>) -> Seq<Seq<char>> {
    pieces_scan(s, 0, 0)
}

/// Splits `s` at each comma; a comma at the very end opens no further piece, and an
/// empty `s` gives no piece.
pub fn split_commas(s: &str) -> (r: Vec<String>)
    ensures
        r@.map_values(|p: String| p@) == comma_pieces(s@),
{
    let n = s.unicode_len();
    let mut r: Vec<String> = Vec::new();
    let mut start: usize = 0;
    let mut i: usize = 0;
    while i < n
        invariant
            n == s@.len(),
            start <= i <= n,
            r@.map_values(|p: String| p@) + pieces_scan(s@, i as int, start as int) == comma_pieces(
                s@,
            ),
        decreases n - i,
    {
        if s.get_char(i) == ',' {
            let piece = String::from_str(s.substring_char(start, i));
            let ghost before = r@.map_values(|p: String| p@);
            r.push(piece);
            assert(r@.map_values(|p: String| p@) =~= before.push(piece@));
            assert(before.push(piece@) + pieces_scan(s@, i + 1, i + 1) =~= before + (seq![
                s@.subrange(start as int, i as int),
            ] + pieces_scan(s@, i + 1, i + 1)));
            start = i + 1;
        }
        i = i + 1;
    }
    if start < n {
        let piece = String::from_str(s.substring_char(start, n));
        let ghost before = r@.map_values(|p: String| p@);
        r.push(piece);
        assert(r@.map_values(|p: String| p@) =~= before.push(piece@));
        assert(before + seq![s@.subrange(start as int, n as int)] =~= before.push(piece@));
    } else {
        assert(r@.map_values(|p: String| p@) + Seq::<Seq<char>>::empty() =~= r@.map_values(
            |p: String| p@,
        ));
    }
    r
}

} // verus!
