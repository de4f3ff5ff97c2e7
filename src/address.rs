//! Choice of DNS record type from the textual form of an address.
use vstd::prelude::*;

verus! {

/// The DNS record types this service writes.
#[derive(Clone, Copy, Debug, PartialEq, Eq, Structural)]
pub enum RecordType {
    A,
    Aaaa,
}

/// Dotted-quad IPv4 text: four decimal octets 0 to 255, without leading zeros.
pub const IPV4_PATTERN: &'static str = r"^((25[0-5]|(2[0-4]|1[0-9]|[1-9]|)[0-9])\.?\b){4}$";

/// Whether `pattern` compiles as a regular expression (with the default size limit).
pub uninterp spec fn regex_compiles(pattern: Seq<char>) -> bool;

/// Whether the regular expression `pattern` matches somewhere in `text`.
pub uninterp spec fn regex_matches(pattern: Seq<char>, text: Seq<char>) -> bool;

/// The verdict of `pattern` on `text`, `None` when the pattern does not compile.
pub open spec fn regex_verdict(pattern: Seq<char>, text: Seq<char>) -> Option<bool> {
    if regex_compiles(pattern) {
        Some(regex_matches(pattern, text))
    } else {
        None
    }
}

/// Relies on `regex::Regex::new` to compile `pattern` and on `regex::Regex::is_match`
/// to search `text`; `None` when the pattern does not compile.
#[verifier::external_body]
fn regex_match(pattern: &str, text: &str) -> (r: Option<bool>)
    ensures
        r == (if regex_compiles(pattern@) { Some(regex_matches(pattern@, text@)) } else { None }),
{
    match regex::Regex::new(pattern) {
        Ok(re) => Some(re.is_match(text)),
        Err(_) => None,
    }
}

pub open spec fn is_hex_char(c: char) -> bool {
    ('0' <= c <= '9') || ('a' <= c <= 'f') || ('A' <= c <= 'F')
}

pub open spec fn colon_count(s: Seq<char>) -> nat
    decreases s.len(),
{
    if s.len() == 0 {
        0
    } else {
        colon_count(s.drop_last()) + if s.last() == ':' { 1nat } else { 0nat }
    }
}

/// Whether `s` holds "::" at position `i`.
pub open spec fn double_colon_at(s: Seq<char>, i: int) -> bool {
    0 <= i && i + 1 < s.len() && s[i] == ':' && s[i + 1] == ':'
}

/// IPv6 text written in hex groups alone: at most 39 characters, each a hex digit or a
/// colon; groups of one to four hex digits separated by single colons, with at
/// most one "::" standing for the groups left out. Without "::" there are eight
/// groups (seven colons); with it at most seven, so at most seven colons besides
/// one for each end that the "::" stands at.
pub open spec fn is_ipv6_groups(s: Seq<char>) -> bool {
    &&& s.len() <= 39
    &&& forall|i: int| 0 <= i < s.len() ==> is_hex_char(#[trigger] s[i]) || s[i] == ':'
    &&& 2 <= colon_count(s)
    &&& forall|i: int| 0 <= i && i + 5 <= s.len() ==> #[trigger] colon_within_five(s, i)
    &&& forall|i: int, j: int| #[trigger] double_colon_at(s, i) && #[trigger] double_colon_at(s, j) ==> i == j
    &&& !(exists|i: int| #[trigger] double_colon_at(s, i)) ==> colon_count(s) == 7
    &&& colon_count(s) <= 7 + (if s.len() > 0 && s[0] == ':' { 1int } else { 0int }) + (if s.len() > 0
        && s.last() == ':' { 1int } else { 0int })
    &&& (s.len() > 0 && s[0] == ':') ==> double_colon_at(s, 0)
    &&& (s.len() > 0 && s.last() == ':') ==> double_colon_at(s, s.len() - 2)
}

/// Whether one of the five characters from position `i` on is a colon.
pub open spec fn colon_within_five(s: Seq<char>, i: int) -> bool {
    exists|j: int| i <= j < i + 5 && s[j] == ':'
}

pub open spec fn is_digit(c: char) -> bool {
    '0' <= c <= '9'
}

pub open spec fn digit_value(c: char) -> int {
    c as int - 48
}

/// A decimal number from 0 to 255 in ASCII digits, without leading zeros.
pub open spec fn is_octet(t: Seq<char>) -> bool {
    ||| t.len() == 1 && is_digit(t[0])
    ||| t.len() == 2 && is_digit(t[0]) && is_digit(t[1]) && t[0] != '0'
    ||| t.len() == 3 && is_digit(t[0]) && is_digit(t[1]) && is_digit(t[2]) && t[0] != '0'
        && 100 * digit_value(t[0]) + 10 * digit_value(t[1]) + digit_value(t[2]) <= 255
}

/// `t` is four octets with dots at positions `a`, `b` and `c`.
pub open spec fn quad_split(t: Seq<char>, a: int, b: int, c: int) -> bool {
    &&& 0 < a < b < c < t.len()
    &&& t[a] == '.' && t[b] == '.' && t[c] == '.'
    &&& is_octet(t.subrange(0, a))
    &&& is_octet(t.subrange(a + 1, b))
    &&& is_octet(t.subrange(b + 1, c))
    &&& is_octet(t.subrange(c + 1, t.len() as int))
}

/// Dotted-quad text: four octets separated by dots.
pub open spec fn is_dotted_quad(t: Seq<char>) -> bool {
    exists|a: int, b: int, c: int| #[trigger] quad_split(t, a, b, c)
}

/// `s` is IPv6 text whose last 32 bits are written as a dotted quad from
/// position `k`: with the quad replaced by two hex groups, it is IPv6 text in
/// hex groups.
pub open spec fn mixed_split(s: Seq<char>, k: int) -> bool {
    &&& 0 < k < s.len()
    &&& s[k - 1] == ':'
    &&& is_dotted_quad(s.subrange(k, s.len() as int))
    &&& is_ipv6_groups(s.subrange(0, k) + seq!['0', ':', '0'])
}

/// IPv6 text: in hex groups alone, or with its last 32 bits as a dotted quad.
pub open spec fn is_ipv6_text(s: Seq<char>) -> bool {
    is_ipv6_groups(s) || exists|k: int| #[trigger] mixed_split(s, k)
}

/// The number of hex digits that end `s`.
pub open spec fn trailing_digits(s: Seq<char>) -> nat
    decreases s.len(),
{
    if s.len() == 0 || s.last() == ':' {
        0
    } else {
        trailing_digits(s.drop_last()) + 1
    }
}

/// Checks `is_ipv6_groups` on `s`.
pub fn looks_like_ipv6_groups(s: &str) -> (r: bool)
    ensures
        r == is_ipv6_groups(s@),
{
    let n = s.unicode_len();
    if n > 39 {
        return false;
    }
    let mut colons: usize = 0;
    let mut run: usize = 0;
    let mut has_double = false;
    let mut double_at: usize = 0;
    let mut i: usize = 0;
    while i < n
        invariant
            n == s@.len(),
            n <= 39,
            i <= n,
            colons == colon_count(s@.subrange(0, i as int)),
            run == trailing_digits(s@.subrange(0, i as int)),
            run <= 4,
            run <= i,
            colons <= i,
            forall|k: int| 0 <= k < i ==> is_hex_char(#[trigger] s@[k]) || s@[k] == ':',
            forall|k: int| i - run <= k < i ==> #[trigger] s@[k] != ':',
            i > run ==> s@[i - run - 1] == ':',
            forall|k: int| 0 <= k && k + 5 <= i ==> #[trigger] colon_within_five(s@, k),
            has_double ==> double_at + 1 < i && double_colon_at(s@, double_at as int),
            forall|k: int| k + 1 < i && #[trigger] double_colon_at(s@, k) ==> has_double && k == double_at,
        decreases n - i,
    {
        let c = s.get_char(i);
        assert(s@.subrange(0, i + 1).drop_last() =~= s@.subrange(0, i as int));
        if c == ':' {
            if i > 0 && s.get_char(i - 1) == ':' {
                if has_double {
                    assert(double_colon_at(s@, double_at as int) && double_colon_at(s@, i - 1));
                    return false;
                }
                has_double = true;
                double_at = i - 1;
            }
            assert forall|k: int| k + 1 < i + 1 && #[trigger] double_colon_at(s@, k) implies has_double
                && k == double_at by {
                if k + 1 == i {
                    assert(s@[k] == ':');
                }
            }
            colons = colons + 1;
            run = 0;
            assert forall|k: int| 0 <= k && k + 5 <= i + 1 implies #[trigger] colon_within_five(s@, k) by {
                if k + 5 == i + 1 {
                    assert(s@[i as int] == ':');
                }
            }
        } else if ('0' <= c && c <= '9') || ('a' <= c && c <= 'f') || ('A' <= c && c <= 'F') {
            if run == 4 {
                let k = i - 4;
                assert(forall|j: int| k <= j < k + 5 ==> #[trigger] s@[j] != ':');
                assert(!colon_within_five(s@, k as int));
                return false;
            }
            assert forall|k: int| 0 <= k && k + 5 <= i + 1 implies #[trigger] colon_within_five(s@, k) by {
                if k + 5 == i + 1 {
                    assert(s@[i - run - 1] == ':');
                }
            }
            assert forall|k: int| k + 1 < i + 1 && #[trigger] double_colon_at(s@, k) implies has_double
                && k == double_at by {
                if k + 1 == i {
                    assert(s@[i as int] != ':');
                }
            }
            run = run + 1;
        } else {
            assert(!is_hex_char(s@[i as int]) && s@[i as int] != ':');
            return false;
        }
        i = i + 1;
    }
    assert(s@.subrange(0, n as int) =~= s@);
    if colons < 2 {
        return false;
    }
    if !has_double && colons != 7 {
        assert(forall|k: int| !double_colon_at(s@, k));
        return false;
    }
    let lead = s.get_char(0) == ':';
    let trail = s.get_char(n - 1) == ':';
    if lead && s.get_char(1) != ':' {
        assert(!double_colon_at(s@, 0));
        return false;
    }
    if trail && s.get_char(n - 2) != ':' {
        assert(!double_colon_at(s@, n - 2));
        return false;
    }
    let edges: usize = (if lead { 1 } else { 0 }) + (if trail { 1 } else { 0 });
    if colons > 7 + edges {
        return false;
    }
    assert(has_double ==> double_colon_at(s@, double_at as int));
    true
}

/// Checks `is_octet` on the characters of `s` from `from` up to `to`.
fn octet_at(s: &str, from: usize, to: usize) -> (r: bool)
    requires
        from <= to <= s@.len(),
    ensures
        r == is_octet(s@.subrange(from as int, to as int)),
{
    let ghost t = s@.subrange(from as int, to as int);
    let len = to - from;
    if len < 1 || len > 3 {
        return false;
    }
    let c0 = s.get_char(from);
    if !('0' <= c0 && c0 <= '9') {
        assert(t[0] == c0);
        return false;
    }
    if len == 1 {
        assert(t[0] == c0);
        return true;
    }
    let c1 = s.get_char(from + 1);
    assert(t[0] == c0 && t[1] == c1);
    if !('0' <= c1 && c1 <= '9') || c0 == '0' {
        return false;
    }
    if len == 2 {
        return true;
    }
    let c2 = s.get_char(from + 2);
    assert(t[2] == c2);
    if !('0' <= c2 && c2 <= '9') {
        return false;
    }
    let v: u32 = 100 * (c0 as u32 - 48) + 10 * (c1 as u32 - 48) + (c2 as u32 - 48);
    v <= 255
}

/// `d` is the first dot of `t` at or after `i`, or `t.len()` when there is none.
pub open spec fn first_dot_from(t: Seq<char>, i: int, d: int) -> bool {
    &&& i <= d <= t.len()
    &&& d < t.len() ==> t[d] == '.'
    &&& forall|q: int| i <= q < d ==> t[q] != '.'
}

/// The first dot at or after `from` among the characters of `s` from `base` up
/// to `to`; `to` when there is none.
fn next_dot(s: &str, base: usize, from: usize, to: usize) -> (r: usize)
    requires
        base <= from <= to <= s@.len(),
    ensures
        from <= r <= to,
        first_dot_from(s@.subrange(base as int, to as int), from - base, r - base),
{
    let ghost t = s@.subrange(base as int, to as int);
    let mut i = from;
    while i < to
        invariant
            base <= from <= i <= to <= s@.len(),
            t == s@.subrange(base as int, to as int),
            forall|q: int| from - base <= q < i - base ==> t[q] != '.',
        decreases to - i,
    {
        if s.get_char(i) == '.' {
            assert(t[i - base] == '.');
            return i;
        }
        assert(t[i - base] != '.');
        i = i + 1;
    }
    i
}

proof fn lemma_octet_has_no_dot_or_colon(t: Seq<char>, i: int)
    requires
        is_octet(t),
        0 <= i < t.len(),
    ensures
        t[i] != '.' && t[i] != ':',
{
}

/// Where a dotted quad is split, each dot is the first one after the previous.
proof fn lemma_quad_dots(t: Seq<char>, a: int, b: int, c: int)
    requires
        quad_split(t, a, b, c),
    ensures
        forall|q: int| 0 <= q < a ==> t[q] != '.' && t[q] != ':',
        forall|q: int| a < q < b ==> t[q] != '.' && t[q] != ':',
        forall|q: int| b < q < c ==> t[q] != '.' && t[q] != ':',
        forall|q: int| c < q < t.len() ==> t[q] != '.' && t[q] != ':',
{
    assert forall|q: int| 0 <= q < a implies t[q] != '.' && t[q] != ':' by {
        lemma_octet_has_no_dot_or_colon(t.subrange(0, a), q);
    }
    assert forall|q: int| a < q < b implies t[q] != '.' && t[q] != ':' by {
        lemma_octet_has_no_dot_or_colon(t.subrange(a + 1, b), q - a - 1);
    }
    assert forall|q: int| b < q < c implies t[q] != '.' && t[q] != ':' by {
        lemma_octet_has_no_dot_or_colon(t.subrange(b + 1, c), q - b - 1);
    }
    assert forall|q: int| c < q < t.len() implies t[q] != '.' && t[q] != ':' by {
        lemma_octet_has_no_dot_or_colon(t.subrange(c + 1, t.len() as int), q - c - 1);
    }
}

/// Following the first dots of `t` decides whether it is a dotted quad.
proof fn lemma_quad_by_first_dots(t: Seq<char>, a: int, b: int, c: int, e: int)
    requires
        first_dot_from(t, 0, a),
        a < t.len() ==> first_dot_from(t, a + 1, b),
        a >= t.len() ==> b == t.len(),
        b < t.len() ==> first_dot_from(t, b + 1, c),
        b >= t.len() ==> c == t.len(),
        c < t.len() ==> first_dot_from(t, c + 1, e),
        c >= t.len() ==> e == t.len(),
    ensures
        is_dotted_quad(t) == (c < t.len() && e == t.len() && quad_split(t, a, b, c)),
{
    if is_dotted_quad(t) {
        let (x, y, z) = choose|x: int, y: int, z: int| quad_split(t, x, y, z);
        lemma_quad_dots(t, x, y, z);
        assert(a == x);
        assert(b == y);
        assert(c == z);
        if e < t.len() {
            assert(t[e] == '.');
        }
    }
}

/// Checks `is_dotted_quad` on the characters of `s` from `from` up to `to`.
fn dotted_quad_at(s: &str, from: usize, to: usize) -> (r: bool)
    requires
        from <= to <= s@.len(),
    ensures
        r == is_dotted_quad(s@.subrange(from as int, to as int)),
{
    let ghost t = s@.subrange(from as int, to as int);
    let d1 = next_dot(s, from, from, to);
    let d2 = if d1 < to { next_dot(s, from, d1 + 1, to) } else { to };
    let d3 = if d2 < to { next_dot(s, from, d2 + 1, to) } else { to };
    let d4 = if d3 < to { next_dot(s, from, d3 + 1, to) } else { to };
    let ghost (a, b, c) = ((d1 - from) as int, (d2 - from) as int, (d3 - from) as int);
    proof {
        lemma_quad_by_first_dots(t, a, b, c, d4 - from);
    }
    if !(d3 < to && d4 == to) {
        return false;
    }
    assert(t.subrange(0, a) =~= s@.subrange(from as int, d1 as int));
    assert(t.subrange(a + 1, b) =~= s@.subrange(d1 + 1, d2 as int));
    assert(t.subrange(b + 1, c) =~= s@.subrange(d2 + 1, d3 as int));
    assert(t.subrange(c + 1, t.len() as int) =~= s@.subrange(d3 + 1, to as int));
    octet_at(s, from, d1) && octet_at(s, d1 + 1, d2) && octet_at(s, d2 + 1, d3) && octet_at(s, d3 + 1, to)
}

/// Checks `is_ipv6_text` on `s`.
pub fn looks_like_ipv6(s: &str) -> (r: bool)
    ensures
        r == is_ipv6_text(s@),
{
    if looks_like_ipv6_groups(s) {
        return true;
    }
    let n = s.unicode_len();
    let mut k = n;
    while k > 0 && s.get_char(k - 1) != ':'
        invariant
            k <= n == s@.len(),
            forall|q: int| k <= q < n ==> s@[q] != ':',
        decreases k,
    {
        k = k - 1;
    }
    if k == 0 || k == n {
        proof {
            if exists|j: int| #[trigger] mixed_split(s@, j) {
                let j = choose|j: int| #[trigger] mixed_split(s@, j);
                assert(s@[j - 1] == ':');
            }
        }
        return false;
    }
    let quad = dotted_quad_at(s, k, n);
    let mut head = String::from_str(s.substring_char(0, k));
    head.append("0:0");
    proof {
        reveal_strlit("0:0");
    }
    assert(head@ =~= s@.subrange(0, k as int) + seq!['0', ':', '0']);
    let ok = quad && looks_like_ipv6_groups(head.as_str());
    proof {
        if ok {
            assert(mixed_split(s@, k as int));
        }
        if exists|j: int| #[trigger] mixed_split(s@, j) {
            let j = choose|j: int| #[trigger] mixed_split(s@, j);
            assert(s@[j - 1] == ':');
            if j < k {
                let t = s@.subrange(j, n as int);
                let (a, b, c) = choose|a: int, b: int, c: int| quad_split(t, a, b, c);
                lemma_quad_dots(t, a, b, c);
                assert(t[k - 1 - j] == ':');
            }
            assert(j == k);
        }
    }
    ok
}

/// The record type for `address`, given whether it matched the IPv4 pattern
/// (`None`: the pattern could not be used).
pub open spec fn record_type_of(address: Seq<char>, ipv4: Option<bool>) -> Option<Option<RecordType>> {
    match ipv4 {
        None => None,
        Some(true) => Some(Some(RecordType::A)),
        Some(false) => Some(if is_ipv6_text(address) { Some(RecordType::Aaaa) } else { None }),
    }
}

/// Picks the record type for `address` from the result of the IPv4 pattern:
/// `A` for IPv4 text, `AAAA` for IPv6 text, and `Some(None)` for any other text.
pub fn record_type_for(address: &str, ipv4: Option<bool>) -> (r: Option<Option<RecordType>>)
    ensures
        r == record_type_of(address@, ipv4),
{
    match ipv4 {
        None => None,
        Some(true) => Some(Some(RecordType::A)),
        Some(false) => Some(if looks_like_ipv6(address) { Some(RecordType::Aaaa) } else { None }),
    }
}

/// Whether `address` matches `IPV4_PATTERN`; `None` when the pattern could not be compiled.
pub fn ipv4_pattern_match(address: &str) -> (r: Option<bool>)
    ensures
        r == regex_verdict(IPV4_PATTERN@, address@),
{
    regex_match(IPV4_PATTERN, address)
}

/// Classifies `address`: `Some(Some(t))` with its record type, `Some(None)` when it
/// is neither IPv4 nor IPv6 text, `None` when the IPv4 pattern could not be compiled.
pub fn classify_address(address: &str) -> (r: Option<Option<RecordType>>)
    ensures
        r == record_type_of(address@, regex_verdict(IPV4_PATTERN@, address@)),
{
    let m = ipv4_pattern_match(address);
    record_type_for(address, m)
}

} // verus!
