//! Minimal HTTP message model for the opening handshake: requests,
//! responses, header lookup and serialization, over plain byte vectors.
use vstd::prelude::*;

verus! {

/// Failure while parsing an HTTP message.
#[derive(Debug, Clone, PartialEq, Eq)]
pub enum HttpParseError {
    /// The request method is not recognized.
    InvalidMethod,
    /// The message is not well-formed HTTP.
    InvalidRequest,
    /// A required header is missing.
    MissingHeader,
}

/// An HTTP request method.
#[derive(Debug, Clone, Copy, PartialEq, Eq, Structural)]
pub enum HttpMethod {
    /// The POST method.
    POST,
    /// The GET method.
    GET,
    /// The PATCH method.
    PATCH,
    /// The PUT method.
    PUT,
    /// The DELETE method.
    DELETE,
    /// The OPTIONS method.
    OPTIONS,
}

/// Lower-case image of an ASCII byte.
pub open spec fn spec_lower(b: u8) -> u8 {
    if 65 <= b && b <= 90 {
        (b + 32) as u8
    } else {
        b
    }
}

/// Lower-case image of a byte sequence.
pub open spec fn spec_lower_seq(s: Seq<u8>) -> Seq<u8> {
    s.map_values(|b: u8| spec_lower(b))
}

/// Whether two byte sequences are equal up to ASCII case.
pub open spec fn spec_eq_ignore_case(a: Seq<u8>, b: Seq<u8>) -> bool {
    spec_lower_seq(a) == spec_lower_seq(b)
}

/// Lower-case an ASCII byte.
pub fn lower_byte(b: u8) -> (r: u8)
    ensures
        r == spec_lower(b),
{
    if 65 <= b && b <= 90 {
        b + 32
    } else {
        b
    }
}

/// Compare two byte strings for equality up to ASCII case.
pub fn eq_ignore_case(a: &Vec<u8>, b: &Vec<u8>) -> (r: bool)
    ensures
        r == spec_eq_ignore_case(a@, b@),
{
    if a.len() != b.len() {
        assert(spec_lower_seq(a@).len() != spec_lower_seq(b@).len());
        return false;
    }
    let n = a.len();
    let mut i: usize = 0;
    while i < n
        invariant
            n == a@.len() == b@.len(),
            i <= n,
            forall|j: int| 0 <= j < i ==> spec_lower(a@[j]) == spec_lower(b@[j]),
        decreases n - i,
    {
        if lower_byte(a[i]) != lower_byte(b[i]) {
            assert(spec_lower_seq(a@)[i as int] != spec_lower_seq(b@)[i as int]);
            return false;
        }
        i += 1;
    }
    assert(spec_lower_seq(a@) =~= spec_lower_seq(b@));
    true
}

impl HttpMethod {
    /// The method named by a byte string, up to ASCII case.
    pub open spec fn spec_from_bytes(s: Seq<u8>) -> Option<HttpMethod> {
        let l = spec_lower_seq(s);
        if l == spec_lower_seq(seq![80u8, 79, 83, 84]) {
            Some(HttpMethod::POST)
        } else if l == spec_lower_seq(seq![71u8, 69, 84]) {
            Some(HttpMethod::GET)
        } else if l == spec_lower_seq(seq![80u8, 65, 84, 67, 72]) {
            Some(HttpMethod::PATCH)
        } else if l == spec_lower_seq(seq![80u8, 85, 84]) {
            Some(HttpMethod::PUT)
        } else if l == spec_lower_seq(seq![68u8, 69, 76, 69, 84, 69]) {
            Some(HttpMethod::DELETE)
        } else if l == spec_lower_seq(seq![79u8, 80, 84, 73, 79, 78, 83]) {
            Some(HttpMethod::OPTIONS)
        } else {
            None
        }
    }

    /// Parse a method name, accepting any ASCII case.
    pub fn from_bytes(s: &Vec<u8>) -> (r: Option<HttpMethod>)
        ensures
            r == HttpMethod::spec_from_bytes(s@),
    {
        let post: Vec<u8> = vec![80u8, 79, 83, 84];
        let get: Vec<u8> = vec![71u8, 69, 84];
        let patch: Vec<u8> = vec![80u8, 65, 84, 67, 72];
        let put: Vec<u8> = vec![80u8, 85, 84];
        let delete: Vec<u8> = vec![68u8, 69, 76, 69, 84, 69];
        let options: Vec<u8> = vec![79u8, 80, 84, 73, 79, 78, 83];
        if eq_ignore_case(s, &post) {
            Some(HttpMethod::POST)
        } else if eq_ignore_case(s, &get) {
            Some(HttpMethod::GET)
        } else if eq_ignore_case(s, &patch) {
            Some(HttpMethod::PATCH)
        } else if eq_ignore_case(s, &put) {
            Some(HttpMethod::PUT)
        } else if eq_ignore_case(s, &delete) {
            Some(HttpMethod::DELETE)
        } else if eq_ignore_case(s, &options) {
            Some(HttpMethod::OPTIONS)
        } else {
            None
        }
    }
}

/// First header value whose name equals `name` up to ASCII case.
pub open spec fn spec_find_header(hs: Seq<(Vec<u8>, Vec<u8>)>, name: Seq<u8>) -> Option<Seq<u8>>
    decreases hs.len(),
{
    if hs.len() == 0 {
        None
    } else if spec_eq_ignore_case(hs[0].0@, name) {
        Some(hs[0].1@)
    } else {
        spec_find_header(hs.skip(1), name)
    }
}

/// `spec_find_header` ignores an unmatched prefix.
pub proof fn lemma_find_header_skip(hs: Seq<(Vec<u8>, Vec<u8>)>, name: Seq<u8>, i: int)
    requires
        0 <= i <= hs.len(),
        forall|j: int| 0 <= j < i ==> !spec_eq_ignore_case(hs[j].0@, name),
    ensures
        spec_find_header(hs, name) == spec_find_header(hs.skip(i), name),
    decreases i,
{
    if i > 0 {
        lemma_find_header_skip(hs, name, i - 1);
        assert(hs.skip(i - 1).len() > 0);
        assert(hs.skip(i - 1)[0] == hs[i - 1]);
        assert(!spec_eq_ignore_case(hs.skip(i - 1)[0].0@, name));
        assert(spec_find_header(hs.skip(i - 1), name) == spec_find_header(
            hs.skip(i - 1).skip(1),
            name,
        ));
        assert(hs.skip(i - 1).skip(1) =~= hs.skip(i));
    } else {
        assert(hs.skip(0) =~= hs);
    }
}

/// Look up the first header with the given name, up to ASCII case.
pub fn find_header<'a>(hs: &'a Vec<(Vec<u8>, Vec<u8>)>, name: &Vec<u8>) -> (r: Option<&'a Vec<u8>>)
    ensures
        match r {
            Some(v) => spec_find_header(hs@, name@) == Some(v@),
            None => spec_find_header(hs@, name@) is None,
        },
{
    let n = hs.len();
    let mut i: usize = 0;
    while i < n
        invariant
            n == hs@.len(),
            i <= n,
            forall|j: int| 0 <= j < i ==> !spec_eq_ignore_case(hs@[j].0@, name@),
        decreases n - i,
    {
        if eq_ignore_case(&hs[i].0, name) {
            proof {
                lemma_find_header_skip(hs@, name@, i as int);
                assert(hs@.skip(i as int)[0] == hs@[i as int]);
            }
            return Some(&hs[i].1);
        }
        i += 1;
    }
    proof {
        lemma_find_header_skip(hs@, name@, n as int);
    }
    None
}

/// The index of the first occurrence of `sep` at or after `i`, or the
/// length if there is none.
pub open spec fn spec_find_byte_from(s: Seq<u8>, sep: u8, i: int) -> int
    decreases s.len() - i,
    when 0 <= i <= s.len()
{
    if i >= s.len() {
        s.len() as int
    } else if s[i] == sep {
        i
    } else {
        spec_find_byte_from(s, sep, i + 1)
    }
}

/// The segments of `s` from index `i` on, split at `sep`.
pub open spec fn spec_split_from(s: Seq<u8>, sep: u8, i: int) -> Seq<Seq<u8>>
    decreases s.len() - i,
    when 0 <= i <= s.len()
{
    let j0 = spec_find_byte_from(s, sep, i);
    let j = if j0 < i {
        i
    } else if j0 > s.len() {
        s.len() as int
    } else {
        j0
    };
    if j >= s.len() {
        seq![s.subrange(i, s.len() as int)]
    } else {
        seq![s.subrange(i, j)] + spec_split_from(s, sep, j + 1)
    }
}

/// The segments of `s`, split at `sep`. A sequence without the
/// separator is one segment; every separator starts a new one.
pub open spec fn spec_split(s: Seq<u8>, sep: u8) -> Seq<Seq<u8>> {
    spec_split_from(s, sep, 0)
}

/// `spec_find_byte_from` stays within bounds and finds a separator.
pub proof fn lemma_find_byte_from(s: Seq<u8>, sep: u8, i: int)
    requires
        0 <= i <= s.len(),
    ensures
        i <= spec_find_byte_from(s, sep, i) <= s.len(),
        spec_find_byte_from(s, sep, i) < s.len() ==> s[spec_find_byte_from(s, sep, i)] == sep,
        forall|k: int| i <= k < spec_find_byte_from(s, sep, i) ==> s[k] != sep,
    decreases s.len() - i,
{
    if i < s.len() && s[i] != sep {
        lemma_find_byte_from(s, sep, i + 1);
    }
}

/// The index of the first occurrence of `sep` at or after `from`.
pub fn find_byte_from(s: &Vec<u8>, sep: u8, from: usize) -> (r: usize)
    requires
        from <= s@.len(),
    ensures
        r == spec_find_byte_from(s@, sep, from as int),
        from <= r <= s@.len(),
    decreases s@.len() - from,
{
    proof {
        lemma_find_byte_from(s@, sep, from as int);
    }
    if from >= s.len() {
        s.len()
    } else if s[from] == sep {
        from
    } else {
        find_byte_from(s, sep, from + 1)
    }
}

/// A copy of the bytes in `[from, to)`.
pub fn copy_range(s: &Vec<u8>, from: usize, to: usize) -> (r: Vec<u8>)
    requires
        from <= to <= s@.len(),
    ensures
        r@ == s@.subrange(from as int, to as int),
{
    let mut r: Vec<u8> = Vec::new();
    let mut i: usize = from;
    while i < to
        invariant
            from <= i <= to <= s@.len(),
            r@ =~= s@.subrange(from as int, i as int),
        decreases to - i,
    {
        r.push(s[i]);
        i += 1;
    }
    assert(r@ =~= s@.subrange(from as int, to as int));
    r
}

/// Whether each vector in `v` views as the matching sequence in `s`.
pub open spec fn spec_views_match(v: Seq<Vec<u8>>, s: Seq<Seq<u8>>) -> bool {
    v.len() == s.len() && forall|i: int| 0 <= i < v.len() ==> v[i]@ == s[i]
}

/// Split the bytes from `from` on at the separator.
fn split_byte_from(s: &Vec<u8>, sep: u8, from: usize) -> (r: Vec<Vec<u8>>)
    requires
        from <= s@.len(),
    ensures
        spec_views_match(r@, spec_split_from(s@, sep, from as int)),
    decreases s@.len() - from,
{
    let j = find_byte_from(s, sep, from);
    let seg = copy_range(s, from, j);
    if j >= s.len() {
        let mut r: Vec<Vec<u8>> = Vec::new();
        r.push(seg);
        r
    } else {
        let mut rest = split_byte_from(s, sep, j + 1);
        rest.insert(0, seg);
        proof {
            let whole = spec_split_from(s@, sep, from as int);
            assert(whole == seq![s@.subrange(from as int, j as int)] + spec_split_from(
                s@,
                sep,
                j + 1,
            ));
        }
        rest
    }
}

/// Split a byte string at every occurrence of the separator.
pub fn split_byte(s: &Vec<u8>, sep: u8) -> (r: Vec<Vec<u8>>)
    ensures
        spec_views_match(r@, spec_split(s@, sep)),
{
    split_byte_from(s, sep, 0)
}

/// Whether a byte counts as blank space around a token.
pub open spec fn spec_is_ws(b: u8) -> bool {
    b == 32 || b == 9 || b == 13
}

/// The index of the first byte that is not blank space.
pub open spec fn spec_ws_start(s: Seq<u8>) -> int
    decreases s.len(),
{
    if s.len() == 0 {
        0
    } else if spec_is_ws(s[0]) {
        1 + spec_ws_start(s.skip(1))
    } else {
        0
    }
}

/// The length of `s` with trailing blank space dropped.
pub open spec fn spec_ws_end(s: Seq<u8>) -> int
    decreases s.len(),
{
    if s.len() == 0 {
        0
    } else if spec_is_ws(s[s.len() - 1]) {
        spec_ws_end(s.take(s.len() - 1))
    } else {
        s.len() as int
    }
}

/// The byte string with blank space stripped from both ends.
pub open spec fn spec_trim(s: Seq<u8>) -> Seq<u8> {
    let a = spec_ws_start(s);
    let b = spec_ws_end(s);
    if a <= b {
        s.subrange(a, b)
    } else {
        Seq::empty()
    }
}

/// `spec_ws_start` is in bounds and splits blank from non-blank.
proof fn lemma_ws_start(s: Seq<u8>)
    ensures
        0 <= spec_ws_start(s) <= s.len(),
        forall|k: int| 0 <= k < spec_ws_start(s) ==> spec_is_ws(s[k]),
        spec_ws_start(s) < s.len() ==> !spec_is_ws(s[spec_ws_start(s)]),
    decreases s.len(),
{
    if s.len() > 0 && spec_is_ws(s[0]) {
        lemma_ws_start(s.skip(1));
        assert forall|k: int| 0 <= k < spec_ws_start(s) implies spec_is_ws(s[k]) by {
            if k > 0 {
                assert(s.skip(1)[k - 1] == s[k]);
            }
        }
        if spec_ws_start(s) < s.len() {
            assert(s.skip(1)[spec_ws_start(s) - 1] == s[spec_ws_start(s)]);
        }
    }
}

/// `spec_ws_end` is in bounds and splits non-blank from blank.
proof fn lemma_ws_end(s: Seq<u8>)
    ensures
        0 <= spec_ws_end(s) <= s.len(),
        forall|k: int| spec_ws_end(s) <= k < s.len() ==> spec_is_ws(s[k]),
        spec_ws_end(s) > 0 ==> !spec_is_ws(s[spec_ws_end(s) - 1]),
    decreases s.len(),
{
    if s.len() > 0 && spec_is_ws(s[s.len() - 1]) {
        lemma_ws_end(s.take(s.len() - 1));
        assert forall|k: int| spec_ws_end(s) <= k < s.len() implies spec_is_ws(s[k]) by {
            if k < s.len() - 1 {
                assert(s.take(s.len() - 1)[k] == s[k]);
            }
        }
        if spec_ws_end(s) > 0 {
            assert(s.take(s.len() - 1)[spec_ws_end(s) - 1] == s[spec_ws_end(s) - 1]);
        }
    }
}

/// Whether a byte counts as blank space.
pub fn is_ws(b: u8) -> (r: bool)
    ensures
        r == spec_is_ws(b),
{
    b == 32 || b == 9 || b == 13
}

/// Strip blank space from both ends of a byte string.
pub fn trim_bytes(s: &Vec<u8>) -> (r: Vec<u8>)
    ensures
        r@ == spec_trim(s@),
{
    proof {
        lemma_ws_start(s@);
        lemma_ws_end(s@);
    }
    let n = s.len();
    let mut a: usize = 0;
    while a < n && is_ws(s[a])
        invariant
            a <= n,
            n == s@.len(),
            forall|k: int| 0 <= k < a ==> spec_is_ws(s@[k]),
        decreases n - a,
    {
        a += 1;
    }
    let mut b: usize = n;
    while b > a && is_ws(s[b - 1])
        invariant
            a <= b <= n,
            n == s@.len(),
            forall|k: int| b <= k < n ==> spec_is_ws(s@[k]),
        decreases b,
    {
        b -= 1;
    }
    proof {
        // `a` is the first non-blank index and `b` the end of the last.
        let sa = spec_ws_start(s@);
        let se = spec_ws_end(s@);
        if a < n {
            assert(!spec_is_ws(s@[a as int]));
            assert(sa == a) by {
                if sa < a {
                    assert(spec_is_ws(s@[sa]));
                }
            }
            if b > a {
                assert(!spec_is_ws(s@[b - 1]));
                assert(se == b) by {
                    if se < b {
                        assert(spec_is_ws(s@[se]));
                    }
                    if se > b {
                        assert(spec_is_ws(s@[se - 1]));
                    }
                }
            } else {
                assert(false);
            }
        } else {
            assert(a == n);
            assert(sa == n) by {
                if sa < n {
                    assert(spec_is_ws(s@[sa]));
                }
            }
            assert(b == n);
            assert(se <= n);
            assert(spec_trim(s@) =~= s@.subrange(a as int, b as int) || se > sa);
            assert(se <= sa);
            assert(spec_trim(s@) =~= Seq::empty() || sa <= se);
        }
    }
    let r = copy_range(s, a, b);
    assert(r@ =~= spec_trim(s@));
    r
}

/// Whether a character of a terminator (an empty line) starts at `i`.
pub open spec fn spec_terminator_at(s: Seq<u8>, i: int) -> bool {
    i + 4 <= s.len() && s[i] == 13 && s[i + 1] == 10 && s[i + 2] == 13 && s[i + 3] == 10
}

/// Find the first empty line that ends an HTTP message head.
pub fn find_terminator(s: &Vec<u8>) -> (r: Option<usize>)
    ensures
        match r {
            Some(i) => spec_terminator_at(s@, i as int) && forall|j: int|
                0 <= j < i ==> !spec_terminator_at(s@, j),
            None => forall|j: int| 0 <= j ==> !spec_terminator_at(s@, j),
        },
{
    let n = s.len();
    if n < 4 {
        return None;
    }
    let mut i: usize = 0;
    while i <= n - 4
        invariant
            i <= n - 3,
            4 <= n == s@.len(),
            forall|j: int| 0 <= j < i ==> !spec_terminator_at(s@, j),
        decreases n - i,
    {
        if s[i] == 13 && s[i + 1] == 10 && s[i + 2] == 13 && s[i + 3] == 10 {
            return Some(i);
        }
        i += 1;
    }
    None
}

/// Drop one trailing carriage return, if any.
pub open spec fn spec_strip_cr(s: Seq<u8>) -> Seq<u8> {
    if s.len() > 0 && s[s.len() - 1] == 13 {
        s.take(s.len() - 1)
    } else {
        s
    }
}

/// Drop one trailing carriage return, if any.
pub fn strip_cr(s: Vec<u8>) -> (r: Vec<u8>)
    ensures
        r@ == spec_strip_cr(s@),
{
    let mut s = s;
    let n = s.len();
    if n > 0 && s[n - 1] == 13 {
        s.truncate(n - 1);
    }
    s
}

/// The non-empty segments of a segment list, from index `i` on.
pub open spec fn spec_nonempty_from(segs: Seq<Seq<u8>>, i: int) -> Seq<Seq<u8>>
    decreases segs.len() - i,
    when 0 <= i <= segs.len()
{
    if i >= segs.len() {
        Seq::empty()
    } else if segs[i].len() == 0 {
        spec_nonempty_from(segs, i + 1)
    } else {
        seq![segs[i]] + spec_nonempty_from(segs, i + 1)
    }
}

/// The blank-separated tokens of a byte string.
pub open spec fn spec_tokens(s: Seq<u8>) -> Seq<Seq<u8>> {
    spec_nonempty_from(spec_split(s, 32), 0)
}

/// Collect the non-empty segments from index `from` on.
fn nonempty_from(segs: &Vec<Vec<u8>>, from: usize, views: Ghost<Seq<Seq<u8>>>) -> (r: Vec<Vec<u8>>)
    requires
        from <= segs@.len(),
        spec_views_match(segs@, views@),
    ensures
        spec_views_match(r@, spec_nonempty_from(views@, from as int)),
    decreases segs@.len() - from,
{
    if from >= segs.len() {
        Vec::new()
    } else if segs[from].len() == 0 {
        nonempty_from(segs, from + 1, views)
    } else {
        let mut rest = nonempty_from(segs, from + 1, views);
        let seg = copy_range(&segs[from], 0, segs[from].len());
        assert(seg@ =~= views@[from as int]);
        rest.insert(0, seg);
        rest
    }
}

/// The blank-separated tokens of a byte string.
pub fn tokens(s: &Vec<u8>) -> (r: Vec<Vec<u8>>)
    ensures
        spec_views_match(r@, spec_tokens(s@)),
{
    let segs = split_byte(s, 32);
    let ghost views = spec_split(s@, 32);
    nonempty_from(&segs, 0, Ghost(views))
}

/// Whether some comma- or space-separated element of `s` equals `tok`
/// up to ASCII case.
pub open spec fn spec_contains_token(s: Seq<u8>, tok: Seq<u8>) -> bool {
    exists|a: int, b: int|
        0 <= a < spec_split(s, 44).len() && 0 <= b < spec_split(
            #[trigger] spec_split(s, 44)[a],
            32,
        ).len() && spec_eq_ignore_case(#[trigger] spec_split(spec_split(s, 44)[a], 32)[b], tok)
}

/// Check whether some comma- or space-separated element of the header
/// value equals the token, up to ASCII case.
pub fn header_contains_token(s: &Vec<u8>, tok: &Vec<u8>) -> (r: bool)
    ensures
        r == spec_contains_token(s@, tok@),
{
    let commas = split_byte(s, 44);
    let ghost cviews = spec_split(s@, 44);
    let n = commas.len();
    let mut a: usize = 0;
    while a < n
        invariant
            a <= n,
            n == commas@.len(),
            spec_views_match(commas@, cviews),
            cviews == spec_split(s@, 44),
            forall|x: int, y: int|
                (0 <= x < a && {
                    let parts = spec_split(cviews[x], 32);
                    0 <= y < parts.len()
                }) ==> !spec_eq_ignore_case(spec_split(cviews[x], 32)[y], tok@),
        decreases n - a,
    {
        let parts = split_byte(&commas[a], 32);
        let ghost pviews = spec_split(cviews[a as int], 32);
        let m = parts.len();
        let mut b: usize = 0;
        while b < m
            invariant
                b <= m,
                m == parts@.len(),
                spec_views_match(parts@, pviews),
                pviews == spec_split(cviews[a as int], 32),
                0 <= a < n,
                n == commas@.len(),
                spec_views_match(commas@, cviews),
                cviews == spec_split(s@, 44),
                forall|y: int| 0 <= y < b ==> !spec_eq_ignore_case(pviews[y], tok@),
            decreases m - b,
        {
            if eq_ignore_case(&parts[b], tok) {
                proof {
                    assert(spec_eq_ignore_case(spec_split(spec_split(s@, 44)[a as int], 32)[
                        b as int], tok@));
                }
                return true;
            }
            b += 1;
        }
        a += 1;
    }
    false
}

/// The numeric value of a string of decimal digits.
pub open spec fn spec_dec_value(s: Seq<u8>) -> int
    decreases s.len(),
{
    if s.len() == 0 {
        0
    } else {
        spec_dec_value(s.take(s.len() - 1)) * 10 + (s[s.len() - 1] - 48)
    }
}

/// Parse a status code: up to five decimal digits fitting in 16 bits.
pub fn parse_u16_dec(s: &Vec<u8>) -> (r: Option<u16>)
    ensures
        match r {
            Some(v) => s@.len() > 0 && (forall|k: int|
                0 <= k < s@.len() ==> 48 <= #[trigger] s@[k] <= 57) && v == spec_dec_value(s@),
            None => s@.len() == 0 || (exists|k: int|
                0 <= k < s@.len() && !(48 <= #[trigger] s@[k] <= 57)) || spec_dec_value(s@)
                > u16::MAX,
        },
{
    let n = s.len();
    if n == 0 {
        return None;
    }
    let mut v: u32 = 0;
    let mut i: usize = 0;
    while i < n
        invariant
            i <= n,
            n == s@.len(),
            forall|k: int| 0 <= k < i ==> 48 <= #[trigger] s@[k] <= 57,
            v == spec_dec_value(s@.take(i as int)),
            v <= u16::MAX,
        decreases n - i,
    {
        let c = s[i];
        if c < 48 || c > 57 {
            return None;
        }
        let d = (c - 48) as u32;
        let nv: u32 = v * 10 + d;
        proof {
            assert(s@.take(i + 1).take(i as int) =~= s@.take(i as int));
            assert(s@.take(i + 1)[i as int] == s@[i as int]);
        }
        if nv > 65535 {
            proof {
                lemma_dec_value_monotone(s@, i + 1);
            }
            return None;
        }
        v = nv;
        i += 1;
    }
    assert(s@.take(n as int) =~= s@);
    Some(v as u16)
}

/// A digit string whose prefix already overflows stays overflowed.
proof fn lemma_dec_value_monotone(s: Seq<u8>, i: int)
    requires
        0 <= i <= s.len(),
        spec_dec_value(s.take(i)) > u16::MAX,
    ensures
        spec_dec_value(s) > u16::MAX,
    decreases s.len() - i,
{
    if i < s.len() {
        assert(s.take(i + 1).take(i) =~= s.take(i));
        assert(spec_dec_value(s.take(i + 1)) == spec_dec_value(s.take(i)) * 10 + (s.take(i + 1)[i]
            - 48));
        lemma_dec_value_monotone(s, i + 1);
    } else {
        assert(s.take(i) =~= s);
    }
}

/// The index of the first head terminator at or after `i`, or the
/// length if there is none.
pub open spec fn spec_find_term_from(s: Seq<u8>, i: int) -> int
    decreases s.len() - i,
    when 0 <= i
{
    if i + 4 > s.len() {
        s.len() as int
    } else if spec_terminator_at(s, i) {
        i
    } else {
        spec_find_term_from(s, i + 1)
    }
}

/// Where the head of the message ends: at its terminating empty line,
/// or at the end of the data when there is none yet.
pub open spec fn spec_head_end(s: Seq<u8>) -> int {
    spec_find_term_from(s, 0)
}

/// `spec_find_term_from` is the least terminator position.
proof fn lemma_find_term_from(s: Seq<u8>, i: int)
    requires
        0 <= i,
    ensures
        i <= spec_find_term_from(s, i) <= s.len() || (i > s.len() - 4 && spec_find_term_from(s, i)
            == s.len()),
        spec_find_term_from(s, i) < s.len() ==> spec_terminator_at(s, spec_find_term_from(s, i)),
        forall|k: int| i <= k < spec_find_term_from(s, i) ==> !spec_terminator_at(s, k),
    decreases s.len() - i,
{
    if i + 4 <= s.len() && !spec_terminator_at(s, i) {
        lemma_find_term_from(s, i + 1);
    } else if i + 4 > s.len() {
        assert forall|k: int| i <= k < s.len() implies !spec_terminator_at(s, k) by {}
    }
}

/// The lines of a message head: split at line feeds, each stripped of
/// its carriage return.
pub open spec fn spec_lines(h: Seq<u8>) -> Seq<Seq<u8>> {
    spec_split(h, 10).map_values(|l: Seq<u8>| spec_strip_cr(l))
}

/// The name and value of a header line: the parts left and right of the
/// first colon, trimmed; nothing when there is no colon.
pub open spec fn spec_header_of_line(l: Seq<u8>) -> Option<(Seq<u8>, Seq<u8>)> {
    let j = spec_find_byte_from(l, 58, 0);
    if j >= l.len() {
        None
    } else {
        Some((spec_trim(l.take(j)), spec_trim(l.skip(j + 1))))
    }
}

/// The bytes of the version token `HTTP/1.1`.
pub open spec fn spec_http11() -> Seq<u8> {
    seq![72u8, 84, 84, 80, 47, 49, 46, 49]
}

/// The limit on the number of header lines in one handshake message.
pub const MAX_HEADERS: usize = 124;

/// The lines of the head `data[0..end]`.
fn head_lines(data: &Vec<u8>, end: usize) -> (r: Vec<Vec<u8>>)
    requires
        end <= data@.len(),
    ensures
        spec_views_match(r@, spec_lines(data@.take(end as int))),
{
    let head = copy_range(data, 0, end);
    let segs = split_byte(&head, 10);
    let ghost views = spec_split(head@, 10);
    let mut r: Vec<Vec<u8>> = Vec::new();
    let n = segs.len();
    let mut i: usize = 0;
    proof {
        assert(data@.take(end as int) == head@);
    }
    while i < n
        invariant
            i <= n,
            n == segs@.len(),
            views.len() == n,
            forall|k: int| 0 <= k < n ==> segs@[k]@ == views[k],
            r@.len() == i,
            forall|k: int| 0 <= k < i ==> r@[k]@ == spec_strip_cr(views[k]),
        decreases n - i,
    {
        let seg = copy_range(&segs[i], 0, segs[i].len());
        assert(seg@ == views[i as int]);
        let stripped = strip_cr(seg);
        r.push(stripped);
        i += 1;
    }
    proof {
        assert(spec_lines(data@.take(end as int)).len() == views.len());
        assert forall|k: int| 0 <= k < n implies spec_lines(data@.take(end as int))[k]
            == spec_strip_cr(views[k]) by {}
    }
    r
}

/// Whether a parsed header entry is the one its line announces.
pub open spec fn spec_header_entry_ok(entry: (Vec<u8>, Vec<u8>), line: Seq<u8>) -> bool {
    match spec_header_of_line(line) {
        Some(hv) => entry.0@ == hv.0 && entry.1@ == hv.1,
        None => false,
    }
}

/// Parse the header lines `lines[1..]` into name-value pairs.
fn parse_header_lines(lines: &Vec<Vec<u8>>) -> (r: Option<Vec<(Vec<u8>, Vec<u8>)>>)
    requires
        lines@.len() >= 1,
    ensures
        match r {
            Some(hs) => hs@.len() == lines@.len() - 1 && forall|k: int|
                0 <= k < hs@.len() ==> spec_header_entry_ok(#[trigger] hs@[k], lines@[k + 1]@),
            None => exists|k: int|
                1 <= k < lines@.len() && spec_header_of_line(#[trigger] lines@[k]@) is None,
        },
{
    let n = lines.len();
    let mut hs: Vec<(Vec<u8>, Vec<u8>)> = Vec::new();
    let mut i: usize = 1;
    while i < n
        invariant
            1 <= i <= n,
            n == lines@.len(),
            hs@.len() == i - 1,
            forall|k: int|
                0 <= k < hs@.len() ==> spec_header_entry_ok(#[trigger] hs@[k], lines@[k + 1]@),
        decreases n - i,
    {
        let line = &lines[i];
        let j = find_byte_from(line, 58, 0);
        if j >= line.len() {
            return None;
        }
        let name_raw = copy_range(line, 0, j);
        let name = trim_bytes(&name_raw);
        let value_raw = copy_range(line, j + 1, line.len());
        let value = trim_bytes(&value_raw);
        proof {
            assert(name_raw@ == line@.take(j as int));
            assert(value_raw@ =~= line@.skip(j + 1));
            assert(spec_header_of_line(lines@[i as int]@) == Some((name@, value@)));
        }
        hs.push((name, value));
        proof {
            assert(hs@[i - 1] == (name, value));
            assert(spec_header_entry_ok(hs@[i - 1], lines@[i as int]@));
        }
        i += 1;
    }
    Some(hs)
}

/// Whether a byte string is a string of decimal digits denoting a
/// number that fits in 16 bits.
pub open spec fn spec_is_dec(s: Seq<u8>) -> bool {
    s.len() > 0 && (forall|k: int| 0 <= k < s.len() ==> 48 <= #[trigger] s[k] <= 57)
        && spec_dec_value(s) <= u16::MAX
}

/// Whether a version token names HTTP version 1.1 or later: `HTTP/`
/// followed by a major number, and optionally a dot and a minor number;
/// a missing minor counts as zero.
pub open spec fn spec_http_version_at_least_11(v: Seq<u8>) -> bool {
    v.len() > 5 && v.take(5) == seq![72u8, 84, 84, 80, 47] && {
        let rest = v.skip(5);
        let dot = spec_find_byte_from(rest, 46, 0);
        if dot >= rest.len() {
            spec_is_dec(rest) && spec_dec_value(rest) >= 2
        } else {
            let major = rest.take(dot);
            let minor = rest.skip(dot + 1);
            spec_is_dec(major) && spec_is_dec(minor) && (spec_dec_value(major) > 1 || (
            spec_dec_value(major) == 1 && spec_dec_value(minor) >= 1))
        }
    }
}

/// Check whether a version token names HTTP version 1.1 or later.
pub fn http_version_at_least_11(v: &Vec<u8>) -> (r: bool)
    ensures
        r == spec_http_version_at_least_11(v@),
{
    if v.len() <= 5 {
        return false;
    }
    let prefix = copy_range(v, 0, 5);
    let http_slash: Vec<u8> = vec![72u8, 84, 84, 80, 47];
    assert(http_slash@ =~= seq![72u8, 84, 84, 80, 47]);
    if !bytes_eq(&prefix, &http_slash) {
        return false;
    }
    let rest = copy_range(v, 5, v.len());
    assert(rest@ =~= v@.skip(5));
    let dot = find_byte_from(&rest, 46, 0);
    if dot >= rest.len() {
        match parse_u16_dec(&rest) {
            Some(major) => major >= 2,
            None => false,
        }
    } else {
        let major_raw = copy_range(&rest, 0, dot);
        let minor_raw = copy_range(&rest, dot + 1, rest.len());
        assert(major_raw@ =~= rest@.take(dot as int));
        assert(minor_raw@ =~= rest@.skip(dot + 1));
        match (parse_u16_dec(&major_raw), parse_u16_dec(&minor_raw)) {
            (Some(major), Some(minor)) => major > 1 || (major == 1 && minor >= 1),
            _ => false,
        }
    }
}

/// An HTTP request, as the handshake sees it.
#[derive(Debug, Clone)]
pub struct HttpRequest {
    /// The request method.
    pub method: HttpMethod,
    /// The request path (with any query).
    pub path: Vec<u8>,
    /// The HTTP version token, e.g. `HTTP/1.1`.
    pub version: Vec<u8>,
    /// The header lines, in order of appearance.
    pub headers: Vec<(Vec<u8>, Vec<u8>)>,
    /// The body, if any bytes followed the header block.
    pub body: Option<Vec<u8>>,
}

impl HttpRequest {
    /// Look up a request header by name, up to ASCII case.
    pub fn get_header<'a>(&'a self, name: &Vec<u8>) -> (r: Option<&'a Vec<u8>>)
        ensures
            match r {
                Some(v) => spec_find_header(self.headers@, name@) == Some(v@),
                None => spec_find_header(self.headers@, name@) is None,
            },
    {
        find_header(&self.headers, name)
    }
}

/// An HTTP response, as the handshake sees it.
#[derive(Debug, Clone)]
pub struct HttpResponse {
    /// The status code.
    pub status_code: u16,
    /// The reason phrase.
    pub reason_phrase: Vec<u8>,
    /// The header lines, in order of appearance.
    pub headers: Vec<(Vec<u8>, Vec<u8>)>,
    /// The body, if any.
    pub body: Option<Vec<u8>>,
}

/// Decimal digits of a number.
pub open spec fn spec_decimal(n: int) -> Seq<u8>
    decreases n,
{
    if n < 10 {
        seq![(48 + if n >= 0 { n } else { 0 }) as u8]
    } else {
        spec_decimal(n / 10).push((48 + n % 10) as u8)
    }
}

/// Format a number in decimal.
pub fn u16_to_decimal(n: u16) -> (r: Vec<u8>)
    ensures
        r@ == spec_decimal(n as int),
    decreases n,
{
    if n < 10 {
        let mut r: Vec<u8> = Vec::new();
        r.push(48 + (n as u8));
        assert(r@ =~= spec_decimal(n as int));
        r
    } else {
        let mut r = u16_to_decimal(n / 10);
        r.push(48 + ((n % 10) as u8));
        r
    }
}

/// The bytes of `HTTP/1.1 `.
pub open spec fn spec_http11_prefix() -> Seq<u8> {
    seq![72u8, 84, 84, 80, 47, 49, 46, 49, 32]
}

/// The bytes of `: `.
pub open spec fn spec_colon_space() -> Seq<u8> {
    seq![58u8, 32]
}

/// The bytes of a line break.
pub open spec fn spec_crlf() -> Seq<u8> {
    seq![13u8, 10]
}

/// One serialized header line.
pub open spec fn spec_header_line(name: Seq<u8>, value: Seq<u8>) -> Seq<u8> {
    name + spec_colon_space() + value + spec_crlf()
}

/// The first `n` header lines, serialized.
pub open spec fn spec_header_lines(hs: Seq<(Vec<u8>, Vec<u8>)>, n: int) -> Seq<u8>
    decreases n,
{
    if n <= 0 {
        Seq::empty()
    } else {
        spec_header_lines(hs, n - 1) + spec_header_line(hs[n - 1].0@, hs[n - 1].1@)
    }
}

/// A serialized response: status line, header lines, blank line, body.
pub open spec fn spec_serialize_response(r: HttpResponse) -> Seq<u8> {
    spec_http11_prefix() + spec_decimal(r.status_code as int) + seq![32u8] + r.reason_phrase@
        + spec_crlf() + spec_header_lines(r.headers@, r.headers@.len() as int) + spec_crlf() + (
    match r.body {
        Some(b) => b@,
        None => Seq::empty(),
    })
}

/// Append one serialized header line to `out`.
pub fn push_header_line(out: &mut Vec<u8>, name: &Vec<u8>, value: &Vec<u8>)
    ensures
        final(out)@ == old(out)@ + spec_header_line(name@, value@),
{
    out.extend_from_slice(name.as_slice());
    out.push(58);
    out.push(32);
    out.extend_from_slice(value.as_slice());
    out.push(13);
    out.push(10);
    assert(final(out)@ =~= old(out)@ + spec_header_line(name@, value@));
}

impl HttpResponse {
    /// Look up a response header by name, up to ASCII case.
    pub fn get_header<'a>(&'a self, name: &Vec<u8>) -> (r: Option<&'a Vec<u8>>)
        ensures
            match r {
                Some(v) => spec_find_header(self.headers@, name@) == Some(v@),
                None => spec_find_header(self.headers@, name@) is None,
            },
    {
        find_header(&self.headers, name)
    }

    /// Serialize the response as text.
    pub fn to_string(&self) -> (r: String)
        ensures
            r@ == lossy_string_of(spec_serialize_response(*self)),
    {
        let bytes = self.to_bytes();
        bytes_to_string_lossy(&bytes)
    }

    /// Serialize the response into wire bytes.
    pub fn to_bytes(&self) -> (r: Vec<u8>)
        ensures
            r@ == spec_serialize_response(*self),
    {
        let mut out: Vec<u8> = Vec::new();
        out.push(72);
        out.push(84);
        out.push(84);
        out.push(80);
        out.push(47);
        out.push(49);
        out.push(46);
        out.push(49);
        out.push(32);
        assert(out@ =~= spec_http11_prefix());
        let code = u16_to_decimal(self.status_code);
        out.extend_from_slice(code.as_slice());
        out.push(32);
        out.extend_from_slice(self.reason_phrase.as_slice());
        out.push(13);
        out.push(10);
        let ghost status_line = spec_http11_prefix() + spec_decimal(self.status_code as int)
            + seq![32u8] + self.reason_phrase@ + spec_crlf();
        assert(out@ =~= status_line);
        let n = self.headers.len();
        let mut i: usize = 0;
        while i < n
            invariant
                n == self.headers@.len(),
                i <= n,
                out@ == status_line + spec_header_lines(self.headers@, i as int),
            decreases n - i,
        {
            push_header_line(&mut out, &self.headers[i].0, &self.headers[i].1);
            i += 1;
        }
        out.push(13);
        out.push(10);
        match &self.body {
            Some(b) => {
                out.extend_from_slice(b.as_slice());
            },
            None => {},
        }
        assert(out@ =~= spec_serialize_response(*self));
        out
    }
}

/// Compare two byte strings for equality.
pub fn bytes_eq(a: &Vec<u8>, b: &Vec<u8>) -> (r: bool)
    ensures
        r == (a@ == b@),
{
    if a.len() != b.len() {
        return false;
    }
    let n = a.len();
    let mut i: usize = 0;
    while i < n
        invariant
            n == a@.len() == b@.len(),
            i <= n,
            forall|j: int| 0 <= j < i ==> a@[j] == b@[j],
        decreases n - i,
    {
        if a[i] != b[i] {
            return false;
        }
        i += 1;
    }
    assert(a@ =~= b@);
    true
}

/// Tie the terminator search to its specification.
proof fn lemma_terminator_position(s: Seq<u8>, r: Option<usize>)
    requires
        match r {
            Some(i) => spec_terminator_at(s, i as int) && forall|j: int|
                0 <= j < i ==> !spec_terminator_at(s, j),
            None => forall|j: int| 0 <= j ==> !spec_terminator_at(s, j),
        },
    ensures
        match r {
            Some(i) => spec_head_end(s) == i,
            None => spec_head_end(s) >= s.len(),
        },
{
    lemma_find_term_from(s, 0);
    let e = spec_find_term_from(s, 0);
    match r {
        Some(i) => {
            if e < i {
                assert(spec_terminator_at(s, e));
            }
            if e > i {
                assert(!spec_terminator_at(s, i as int));
            }
        },
        None => {
            if e < s.len() {
                assert(spec_terminator_at(s, e));
            }
        },
    }
}

/// What parsing a handshake request from the front of `s` yields:
/// nothing until the head's terminating empty line has arrived, then
/// the first broken rule in order, or the parsed request and how many
/// bytes its head took.
pub open spec fn spec_parse_request_matches(
    s: Seq<u8>,
    r: Result<Option<(usize, HttpRequest)>, crate::error::Error>,
) -> bool {
    let end = spec_head_end(s);
    if end >= s.len() {
        r matches Ok(o) && o is None
    } else {
                let lines = spec_lines(s.take(end));
                let toks = spec_tokens(lines[0]);
                if lines.len() - 1 > MAX_HEADERS {
                    r == Err::<Option<(usize, HttpRequest)>, crate::error::Error>(
                        crate::error::Error::Capacity(crate::error::CapacityError::TooManyHeaders),
                    )
                } else if exists|k: int|
                    1 <= k < lines.len() && spec_header_of_line(#[trigger] lines[k]) is None {
                    r == Err::<Option<(usize, HttpRequest)>, crate::error::Error>(
                        crate::error::Error::Protocol(
                            crate::error::ProtocolError::MalformedHttpMessage,
                        ),
                    )
                } else if toks.len() < 3 || HttpMethod::spec_from_bytes(toks[0]) is None {
                    r == Err::<Option<(usize, HttpRequest)>, crate::error::Error>(
                        crate::error::Error::Protocol(
                            crate::error::ProtocolError::MalformedHttpMessage,
                        ),
                    )
                } else if HttpMethod::spec_from_bytes(toks[0]) != Some(HttpMethod::GET) {
                    r == Err::<Option<(usize, HttpRequest)>, crate::error::Error>(
                        crate::error::Error::Protocol(
                            crate::error::ProtocolError::InvalidHttpMethod,
                        ),
                    )
                } else if toks[2] != spec_http11() {
                    r == Err::<Option<(usize, HttpRequest)>, crate::error::Error>(
                        crate::error::Error::Protocol(
                            crate::error::ProtocolError::InvalidHttpVersion,
                        ),
                    )
                } else {
                    r matches Ok(o) && o matches Some((n, req)) && n == end + 4 && req.method
                        == HttpMethod::GET && req.path@ == toks[1] && req.version@ == toks[2]
                        && req.body is None && req.headers@.len() == lines.len() - 1 && (forall|
                        k: int,
                    |
                        0 <= k < req.headers@.len() ==> spec_header_entry_ok(
                            #[trigger] req.headers@[k],
                            lines[k + 1],
                        ))
                }
    }
}

/// Parse a complete handshake request from the front of the data:
/// `Ok(None)` until the head's terminating empty line has arrived.
pub fn parse_request(data: &Vec<u8>) -> (r: Result<Option<(usize, HttpRequest)>, crate::error::Error>)
    ensures
        spec_parse_request_matches(data@, r),
        (match r {
            Ok(Some((n, _))) => n <= data@.len(),
            _ => true,
        }),
{
    let term = find_terminator(data);
    proof {
        lemma_terminator_position(data@, term);
    }
    let dl = data.len();
    let idx = match term {
        None => {
            return Ok(None);
        },
        Some(idx) => idx,
    };
    assert(idx + 4 <= dl);
    let lines = head_lines(data, idx);
    let ghost sl = spec_lines(data@.take(idx as int));
    proof {
        assert(lines@.len() >= 1);
        assert forall|k: int| 0 <= k < lines@.len() implies lines@[k]@ == sl[k] by {}
    }
    if lines.len() - 1 > MAX_HEADERS {
        return Err(crate::error::Error::Capacity(crate::error::CapacityError::TooManyHeaders));
    }
    let headers = match parse_header_lines(&lines) {
        Some(h) => h,
        None => {
            proof {
                let k = choose|k: int|
                    1 <= k < lines@.len() && spec_header_of_line(lines@[k]@) is None;
                assert(lines@[k]@ == sl[k]);
                assert(1 <= k < sl.len() && spec_header_of_line(#[trigger] sl[k]) is None);
            }
            return Err(
                crate::error::Error::Protocol(crate::error::ProtocolError::MalformedHttpMessage),
            );
        },
    };
    proof {
        assert forall|k: int| 0 <= k < headers@.len() implies spec_header_entry_ok(
            #[trigger] headers@[k],
            sl[k + 1],
        ) by {
            assert(spec_header_entry_ok(headers@[k], lines@[k + 1]@));
            assert(lines@[k + 1]@ == sl[k + 1]);
        }
        assert forall|k: int| 1 <= k < sl.len() implies !(spec_header_of_line(#[trigger] sl[k])
            is None) by {
            assert(spec_header_entry_ok(headers@[k - 1], sl[k]));
        }
    }
    let toks = tokens(&lines[0]);
    let ghost st = spec_tokens(sl[0]);
    proof {
        assert(lines@[0]@ == sl[0]);
        assert forall|k: int| 0 <= k < toks@.len() implies toks@[k]@ == st[k] by {}
    }
    if toks.len() < 3 {
        return Err(
            crate::error::Error::Protocol(crate::error::ProtocolError::MalformedHttpMessage),
        );
    }
    let method = match HttpMethod::from_bytes(&toks[0]) {
        Some(m) => m,
        None => {
            return Err(
                crate::error::Error::Protocol(crate::error::ProtocolError::MalformedHttpMessage),
            );
        },
    };
    if !matches!(method, HttpMethod::GET) {
        return Err(crate::error::Error::Protocol(crate::error::ProtocolError::InvalidHttpMethod));
    }
    let http11: Vec<u8> = vec![72u8, 84, 84, 80, 47, 49, 46, 49];
    assert(http11@ =~= spec_http11());
    if !bytes_eq(&toks[2], &http11) {
        return Err(crate::error::Error::Protocol(crate::error::ProtocolError::InvalidHttpVersion));
    }
    let path = copy_range(&toks[1], 0, toks[1].len());
    let version = copy_range(&toks[2], 0, toks[2].len());
    proof {
        assert(path@ =~= spec_tokens(spec_lines(data@.take(spec_head_end(data@)))[0])[1]);
        assert(version@ =~= spec_tokens(spec_lines(data@.take(spec_head_end(data@)))[0])[2]);
    }
    Ok(Some((idx + 4, HttpRequest { method, path, version, headers, body: None })))
}

/// What parsing a handshake response from the front of `s` yields:
/// nothing until the head's terminating empty line has arrived, then
/// the first broken rule in order, or the parsed response and how many
/// bytes its head took.
pub open spec fn spec_parse_response_matches(
    s: Seq<u8>,
    r: Result<Option<(usize, HttpResponse)>, crate::error::Error>,
) -> bool {
    let end = spec_head_end(s);
    if end >= s.len() {
        r matches Ok(o) && o is None
    } else {
                let lines = spec_lines(s.take(end));
                let toks = spec_tokens(lines[0]);
                if lines.len() - 1 > MAX_HEADERS {
                    r == Err::<Option<(usize, HttpResponse)>, crate::error::Error>(
                        crate::error::Error::Capacity(crate::error::CapacityError::TooManyHeaders),
                    )
                } else if exists|k: int|
                    1 <= k < lines.len() && spec_header_of_line(#[trigger] lines[k]) is None {
                    r == Err::<Option<(usize, HttpResponse)>, crate::error::Error>(
                        crate::error::Error::Protocol(
                            crate::error::ProtocolError::MalformedHttpMessage,
                        ),
                    )
                } else if toks.len() < 2 {
                    r == Err::<Option<(usize, HttpResponse)>, crate::error::Error>(
                        crate::error::Error::Protocol(
                            crate::error::ProtocolError::MalformedHttpMessage,
                        ),
                    )
                } else if toks[0] != spec_http11() {
                    r == Err::<Option<(usize, HttpResponse)>, crate::error::Error>(
                        crate::error::Error::Protocol(
                            crate::error::ProtocolError::InvalidHttpVersion,
                        ),
                    )
                } else if toks[1].len() == 0 || (exists|k: int|
                    0 <= k < toks[1].len() && !(48 <= #[trigger] toks[1][k] <= 57))
                    || spec_dec_value(toks[1]) > u16::MAX {
                    r == Err::<Option<(usize, HttpResponse)>, crate::error::Error>(
                        crate::error::Error::Protocol(
                            crate::error::ProtocolError::MalformedHttpMessage,
                        ),
                    )
                } else {
                    r matches Ok(o) && o matches Some((n, resp)) && n == end + 4
                        && resp.status_code == spec_dec_value(toks[1]) && resp.body is None
                        && resp.headers@.len() == lines.len() - 1 && (forall|k: int|
                        0 <= k < resp.headers@.len() ==> spec_header_entry_ok(
                            #[trigger] resp.headers@[k],
                            lines[k + 1],
                        ))
                }
    }
}

/// Parse a complete handshake response from the front of the data:
/// `Ok(None)` until the head's terminating empty line has arrived.
pub fn parse_response(data: &Vec<u8>) -> (r: Result<Option<(usize, HttpResponse)>, crate::error::Error>)
    ensures
        spec_parse_response_matches(data@, r),
        (match r {
            Ok(Some((n, _))) => n <= data@.len(),
            _ => true,
        }),
{
    let term = find_terminator(data);
    proof {
        lemma_terminator_position(data@, term);
    }
    let dl = data.len();
    let idx = match term {
        None => {
            return Ok(None);
        },
        Some(idx) => idx,
    };
    assert(idx + 4 <= dl);
    let lines = head_lines(data, idx);
    let ghost sl = spec_lines(data@.take(idx as int));
    proof {
        assert(lines@.len() >= 1);
        assert forall|k: int| 0 <= k < lines@.len() implies lines@[k]@ == sl[k] by {}
    }
    if lines.len() - 1 > MAX_HEADERS {
        return Err(crate::error::Error::Capacity(crate::error::CapacityError::TooManyHeaders));
    }
    let headers = match parse_header_lines(&lines) {
        Some(h) => h,
        None => {
            proof {
                let k = choose|k: int|
                    1 <= k < lines@.len() && spec_header_of_line(lines@[k]@) is None;
                assert(lines@[k]@ == sl[k]);
                assert(1 <= k < sl.len() && spec_header_of_line(#[trigger] sl[k]) is None);
            }
            return Err(
                crate::error::Error::Protocol(crate::error::ProtocolError::MalformedHttpMessage),
            );
        },
    };
    proof {
        assert forall|k: int| 0 <= k < headers@.len() implies spec_header_entry_ok(
            #[trigger] headers@[k],
            sl[k + 1],
        ) by {
            assert(spec_header_entry_ok(headers@[k], lines@[k + 1]@));
            assert(lines@[k + 1]@ == sl[k + 1]);
        }
        assert forall|k: int| 1 <= k < sl.len() implies !(spec_header_of_line(#[trigger] sl[k])
            is None) by {
            assert(spec_header_entry_ok(headers@[k - 1], sl[k]));
        }
    }
    let toks = tokens(&lines[0]);
    let ghost st = spec_tokens(sl[0]);
    proof {
        assert(lines@[0]@ == sl[0]);
        assert forall|k: int| 0 <= k < toks@.len() implies toks@[k]@ == st[k] by {}
    }
    if toks.len() < 2 {
        return Err(
            crate::error::Error::Protocol(crate::error::ProtocolError::MalformedHttpMessage),
        );
    }
    let http11: Vec<u8> = vec![72u8, 84, 84, 80, 47, 49, 46, 49];
    assert(http11@ =~= spec_http11());
    if !bytes_eq(&toks[0], &http11) {
        return Err(crate::error::Error::Protocol(crate::error::ProtocolError::InvalidHttpVersion));
    }
    let code = match parse_u16_dec(&toks[1]) {
        Some(c) => c,
        None => {
            return Err(
                crate::error::Error::Protocol(crate::error::ProtocolError::MalformedHttpMessage),
            );
        },
    };
    let reason_phrase: Vec<u8> = if toks.len() >= 3 {
        copy_range(&toks[2], 0, toks[2].len())
    } else {
        Vec::new()
    };
    Ok(
        Some(
            (
                idx + 4,
                HttpResponse { status_code: code, reason_phrase, headers, body: None },
            ),
        ),
    )
}

impl crate::machine::TryParse for HttpRequest {
    /// The request grammar.
    open spec fn spec_parse_matches(
        data: Seq<u8>,
        r: Result<Option<(usize, Self)>, crate::error::Error>,
    ) -> bool {
        spec_parse_request_matches(data, r)
    }

    /// Parse one complete handshake request.
    fn try_parse(data: &Vec<u8>) -> (r: Result<Option<(usize, Self)>, crate::error::Error>) {
        parse_request(data)
    }
}

impl crate::machine::TryParse for HttpResponse {
    /// The response grammar.
    open spec fn spec_parse_matches(
        data: Seq<u8>,
        r: Result<Option<(usize, Self)>, crate::error::Error>,
    ) -> bool {
        spec_parse_response_matches(data, r)
    }

    /// Parse one complete handshake response.
    fn try_parse(data: &Vec<u8>) -> (r: Result<Option<(usize, Self)>, crate::error::Error>) {
        parse_response(data)
    }
}

/// The lines with trailing empty ones dropped.
pub open spec fn spec_drop_empty_end(ls: Seq<Seq<u8>>) -> Seq<Seq<u8>>
    decreases ls.len(),
{
    if ls.len() > 0 && ls[ls.len() - 1].len() == 0 {
        spec_drop_empty_end(ls.take(ls.len() - 1))
    } else {
        ls
    }
}

impl HttpRequest {
    /// What parsing a raw request yields when it succeeds: a request
    /// whose fields come from the lines of the message head.
    pub open spec fn spec_from_raw_matches(s: Seq<u8>, r: Result<HttpRequest, HttpParseError>) -> bool {
        let end = spec_head_end(s);
        let head = if end >= s.len() {
            s
        } else {
            s.take(end)
        };
        let lines = spec_drop_empty_end(spec_lines(head));
        match r {
            Ok(req) => lines.len() >= 1 && {
                let toks = spec_tokens(lines[0]);
                &&& toks.len() >= 3
                &&& HttpMethod::spec_from_bytes(toks[0]) == Some(req.method)
                &&& req.path@ == toks[1]
                &&& req.version@ == toks[2]
                &&& req.headers@.len() == lines.len() - 1
                &&& forall|k: int|
                    0 <= k < req.headers@.len() ==> spec_header_entry_ok(
                        #[trigger] req.headers@[k],
                        lines[k + 1],
                    )
                &&& if end >= s.len() || spec_trim(s.skip(end + 4)).len() == 0 {
                    req.body is None
                } else {
                    req.body matches Some(b) && b@ == s.skip(end + 4)
                }
            },
            Err(_) => true,
        }
    }

    /// Parse a raw, complete HTTP request text: the request line, the
    /// headers up to the first empty line, and any body after it.
    pub fn from_raw(raw: &Vec<u8>) -> (r: Result<HttpRequest, HttpParseError>)
        ensures
            Self::spec_from_raw_matches(raw@, r),
    {
        let term = find_terminator(raw);
        proof {
            lemma_terminator_position(raw@, term);
        }
        let rl = raw.len();
        let (head_end, body_start): (usize, Option<usize>) = match term {
            None => (rl, None),
            Some(idx) => {
                assert(idx + 4 <= rl);
                (idx, Some(idx + 4))
            },
        };
        let mut lines = head_lines(raw, head_end);
        proof {
            if head_end >= raw@.len() {
                assert(raw@.take(head_end as int) =~= raw@);
            }
            assert(lines@.map_values(|l: Vec<u8>| l@) =~= spec_lines(
                raw@.take(head_end as int),
            ));
        }
        while lines.len() > 0 && lines[lines.len() - 1].len() == 0
            invariant
                spec_drop_empty_end(
                    spec_lines(
                        if spec_head_end(raw@) >= raw@.len() {
                            raw@
                        } else {
                            raw@.take(spec_head_end(raw@))
                        },
                    ),
                ) == spec_drop_empty_end(lines@.map_values(|l: Vec<u8>| l@)),
            decreases lines.len(),
        {
            let ghost pre = lines@.map_values(|l: Vec<u8>| l@);
            let n = lines.len();
            lines.truncate(n - 1);
            proof {
                assert(lines@.map_values(|l: Vec<u8>| l@) =~= pre.take(n - 1));
            }
        }
        let ghost final_lines = spec_drop_empty_end(
            spec_lines(
                if spec_head_end(raw@) >= raw@.len() {
                    raw@
                } else {
                    raw@.take(spec_head_end(raw@))
                },
            ),
        );
        proof {
            let cur = lines@.map_values(|l: Vec<u8>| l@);
            assert(spec_drop_empty_end(cur) == final_lines);
            if cur.len() > 0 {
                assert(cur[cur.len() - 1].len() != 0);
            }
            assert(cur == final_lines);
        }
        let ghost sl = final_lines;
        if lines.len() == 0 {
            return Err(HttpParseError::InvalidRequest);
        }
        let headers = match parse_header_lines(&lines) {
            Some(h) => h,
            None => {
                return Err(HttpParseError::InvalidRequest);
            },
        };
        proof {
            assert forall|k: int| 0 <= k < headers@.len() implies spec_header_entry_ok(
                #[trigger] headers@[k],
                sl[k + 1],
            ) by {
                assert(spec_header_entry_ok(headers@[k], lines@[k + 1]@));
                assert(lines@[k + 1]@ == sl[k + 1]);
            }
            assert forall|k: int| 1 <= k < sl.len() implies !(spec_header_of_line(
                #[trigger] sl[k],
            ) is None) by {
                assert(spec_header_entry_ok(headers@[k - 1], sl[k]));
            }
        }
        let toks = tokens(&lines[0]);
        let ghost st = spec_tokens(sl[0]);
        proof {
            assert(lines@[0]@ == sl[0]);
            assert forall|k: int| 0 <= k < toks@.len() implies toks@[k]@ == st[k] by {}
        }
        if toks.len() < 3 {
            return Err(HttpParseError::InvalidRequest);
        }
        let method = match HttpMethod::from_bytes(&toks[0]) {
            Some(m) => m,
            None => {
                return Err(HttpParseError::InvalidMethod);
            },
        };
        let path = copy_range(&toks[1], 0, toks[1].len());
        let version = copy_range(&toks[2], 0, toks[2].len());
        let body: Option<Vec<u8>> = match body_start {
            Some(bs) => {
                if bs < raw.len() {
                    let tail = copy_range(raw, bs, raw.len());
                    assert(tail@ =~= raw@.skip(bs as int));
                    let trimmed = trim_bytes(&tail);
                    if trimmed.len() > 0 {
                        Some(tail)
                    } else {
                        None
                    }
                } else {
                    assert(raw@.skip(bs as int) =~= Seq::<u8>::empty());
                    None
                }
            },
            None => None,
        };
        proof {
            assert(path@ =~= st[1]);
            assert(version@ =~= st[2]);
        }
        Ok(HttpRequest { method, path, version, headers, body })
    }
}

/// The bytes of `Connection`.
pub open spec fn spec_hn_connection() -> Seq<u8> {
    seq![67u8, 111, 110, 110, 101, 99, 116, 105, 111, 110]
}

/// The bytes of `Connection`.
pub fn hn_connection() -> (r: Vec<u8>)
    ensures
        r@ == spec_hn_connection(),
{
    let v: Vec<u8> = vec![67u8, 111, 110, 110, 101, 99, 116, 105, 111, 110];
    assert(v@ =~= spec_hn_connection());
    v
}

/// The bytes of `Upgrade`.
pub open spec fn spec_hn_upgrade() -> Seq<u8> {
    seq![85u8, 112, 103, 114, 97, 100, 101]
}

/// The bytes of `Upgrade`.
pub fn hn_upgrade() -> (r: Vec<u8>)
    ensures
        r@ == spec_hn_upgrade(),
{
    let v: Vec<u8> = vec![85u8, 112, 103, 114, 97, 100, 101];
    assert(v@ =~= spec_hn_upgrade());
    v
}

/// The bytes of `websocket`.
pub open spec fn spec_hn_websocket() -> Seq<u8> {
    seq![119u8, 101, 98, 115, 111, 99, 107, 101, 116]
}

/// The bytes of `websocket`.
pub fn hn_websocket() -> (r: Vec<u8>)
    ensures
        r@ == spec_hn_websocket(),
{
    let v: Vec<u8> = vec![119u8, 101, 98, 115, 111, 99, 107, 101, 116];
    assert(v@ =~= spec_hn_websocket());
    v
}

/// The bytes of `Host`.
pub open spec fn spec_hn_host() -> Seq<u8> {
    seq![72u8, 111, 115, 116]
}

/// The bytes of `Host`.
pub fn hn_host() -> (r: Vec<u8>)
    ensures
        r@ == spec_hn_host(),
{
    let v: Vec<u8> = vec![72u8, 111, 115, 116];
    assert(v@ =~= spec_hn_host());
    v
}

/// The bytes of `Sec-WebSocket-Key`.
pub open spec fn spec_hn_sec_websocket_key() -> Seq<u8> {
    seq![83u8, 101, 99, 45, 87, 101, 98, 83, 111, 99, 107, 101, 116, 45, 75, 101, 121]
}

/// The bytes of `Sec-WebSocket-Key`.
pub fn hn_sec_websocket_key() -> (r: Vec<u8>)
    ensures
        r@ == spec_hn_sec_websocket_key(),
{
    let v: Vec<u8> = vec![83u8, 101, 99, 45, 87, 101, 98, 83, 111, 99, 107, 101, 116, 45, 75, 101, 121];
    assert(v@ =~= spec_hn_sec_websocket_key());
    v
}

/// The bytes of `Sec-WebSocket-Version`.
pub open spec fn spec_hn_sec_websocket_version() -> Seq<u8> {
    seq![83u8, 101, 99, 45, 87, 101, 98, 83, 111, 99, 107, 101, 116, 45, 86, 101, 114, 115, 105, 111, 110]
}

/// The bytes of `Sec-WebSocket-Version`.
pub fn hn_sec_websocket_version() -> (r: Vec<u8>)
    ensures
        r@ == spec_hn_sec_websocket_version(),
{
    let v: Vec<u8> = vec![83u8, 101, 99, 45, 87, 101, 98, 83, 111, 99, 107, 101, 116, 45, 86, 101, 114, 115, 105, 111, 110];
    assert(v@ =~= spec_hn_sec_websocket_version());
    v
}

/// The bytes of `Sec-WebSocket-Accept`.
pub open spec fn spec_hn_sec_websocket_accept() -> Seq<u8> {
    seq![83u8, 101, 99, 45, 87, 101, 98, 83, 111, 99, 107, 101, 116, 45, 65, 99, 99, 101, 112, 116]
}

/// The bytes of `Sec-WebSocket-Accept`.
pub fn hn_sec_websocket_accept() -> (r: Vec<u8>)
    ensures
        r@ == spec_hn_sec_websocket_accept(),
{
    let v: Vec<u8> = vec![83u8, 101, 99, 45, 87, 101, 98, 83, 111, 99, 107, 101, 116, 45, 65, 99, 99, 101, 112, 116];
    assert(v@ =~= spec_hn_sec_websocket_accept());
    v
}

/// The bytes of `Sec-WebSocket-Protocol`.
pub open spec fn spec_hn_sec_websocket_protocol() -> Seq<u8> {
    seq![83u8, 101, 99, 45, 87, 101, 98, 83, 111, 99, 107, 101, 116, 45, 80, 114, 111, 116, 111, 99, 111, 108]
}

/// The bytes of `Sec-WebSocket-Protocol`.
pub fn hn_sec_websocket_protocol() -> (r: Vec<u8>)
    ensures
        r@ == spec_hn_sec_websocket_protocol(),
{
    let v: Vec<u8> = vec![83u8, 101, 99, 45, 87, 101, 98, 83, 111, 99, 107, 101, 116, 45, 80, 114, 111, 116, 111, 99, 111, 108];
    assert(v@ =~= spec_hn_sec_websocket_protocol());
    v
}

/// The bytes of `13`.
pub open spec fn spec_hn_thirteen() -> Seq<u8> {
    seq![49u8, 51]
}

/// The bytes of `13`.
pub fn hn_thirteen() -> (r: Vec<u8>)
    ensures
        r@ == spec_hn_thirteen(),
{
    let v: Vec<u8> = vec![49u8, 51];
    assert(v@ =~= spec_hn_thirteen());
    v
}

/// The bytes of `Switching Protocols`.
pub open spec fn spec_hn_switching_protocols() -> Seq<u8> {
    seq![83u8, 119, 105, 116, 99, 104, 105, 110, 103, 32, 80, 114, 111, 116, 111, 99, 111, 108, 115]
}

/// The bytes of `Switching Protocols`.
pub fn hn_switching_protocols() -> (r: Vec<u8>)
    ensures
        r@ == spec_hn_switching_protocols(),
{
    let v: Vec<u8> = vec![83u8, 119, 105, 116, 99, 104, 105, 110, 103, 32, 80, 114, 111, 116, 111, 99, 111, 108, 115];
    assert(v@ =~= spec_hn_switching_protocols());
    v
}

/// What lossy UTF-8 decoding yields for given bytes; a function of the
/// input alone.
pub uninterp spec fn lossy_string_of(b: Seq<u8>) -> Seq<char>;

/// Relies on `String::from_utf8_lossy`: the result depends on the input
/// bytes alone.
#[verifier::external_body]
fn bytes_to_string_lossy(b: &Vec<u8>) -> (r: String)
    ensures
        r@ == lossy_string_of(b@),
{
    String::from_utf8_lossy(b.as_slice()).into_owned()
}

} // verus!
