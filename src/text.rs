use vstd::prelude::*;

verus! {

/// Relies on std's `String::push`: appends one character.
#[verifier::external_body]
pub(crate) fn push_char(s: &mut String, c: char)
    ensures
        final(s)@ == old(s)@.push(c),
{
    s.push(c)
}

pub open spec fn is_ascii_whitespace(c: char) -> bool {
    c == ' ' || c == '\t' || c == '\n' || c == '\x0C' || c == '\r'
}

pub open spec fn ascii_lower(c: char) -> char {
    if 'A' <= c && c <= 'Z' {
        ((c as u32) + 32) as char
    } else {
        c
    }
}

/// The words of `s` (maximal runs without ASCII whitespace), ASCII letters
/// lowercased, joined by `-`.
pub open spec fn slug_words(s: Seq<char>) -> Seq<char>
    decreases s.len(),
{
    if s.len() == 0 {
        Seq::empty()
    } else {
        let prefix = slug_words(s.drop_last());
        let c = s.last();
        if is_ascii_whitespace(c) {
            prefix
        } else if s.len() >= 2 && is_ascii_whitespace(s[s.len() - 2]) && prefix.len() > 0 {
            prefix.push('-').push(ascii_lower(c))
        } else {
            prefix.push(ascii_lower(c))
        }
    }
}

/// The ASCII characters that Unicode puts in a punctuation or symbol
/// category.
pub open spec fn is_ascii_punctuation(c: char) -> bool {
    ('!' <= c && c <= '/') || (':' <= c && c <= '@') || ('[' <= c && c <= '`') || ('{' <= c
        && c <= '~')
}

/// A slug without white space, without a leading or trailing `-`, and
/// without two `-` in a row.
pub open spec fn well_formed_slug(t: Seq<char>) -> bool {
    &&& forall|i: int| 0 <= i < t.len() ==> !is_ascii_whitespace(#[trigger] t[i])
    &&& t.len() > 0 ==> t[0] != '-' && t.last() != '-'
    &&& forall|i: int| 0 <= i < t.len() - 1 ==> !(#[trigger] t[i] == '-' && t[i + 1] == '-')
}

/// Words without `-` in them give a well-formed slug.
pub proof fn lemma_slug_words_shape(s: Seq<char>)
    requires
        forall|i: int| 0 <= i < s.len() ==> s[i] != '-',
    ensures
        well_formed_slug(slug_words(s)),
    decreases s.len(),
{
    if s.len() > 0 {
        let p = s.drop_last();
        assert forall|i: int| 0 <= i < p.len() implies p[i] != '-' by {
            assert(p[i] == s[i]);
        }
        lemma_slug_words_shape(p);
        let c = s.last();
        assert(c == s[s.len() - 1]);
        let prefix = slug_words(p);
        let lc = ascii_lower(c);
        assert(!is_ascii_whitespace(c) ==> lc != '-' && !is_ascii_whitespace(lc));
        let t = slug_words(s);
        if !is_ascii_whitespace(c) {
            if s.len() >= 2 && is_ascii_whitespace(s[s.len() - 2]) && prefix.len() > 0 {
                assert(t == prefix.push('-').push(lc));
                assert forall|i: int| 0 <= i < t.len() - 1 implies !(#[trigger] t[i] == '-'
                    && t[i + 1] == '-') by {
                    if i < prefix.len() - 1 {
                        assert(t[i] == prefix[i] && t[i + 1] == prefix[i + 1]);
                    } else if i == prefix.len() - 1 {
                        assert(t[i] == prefix.last());
                    }
                }
                assert forall|i: int|
                    0 <= i < t.len() implies !is_ascii_whitespace(#[trigger] t[i]) by {
                    if i < prefix.len() {
                        assert(t[i] == prefix[i]);
                    }
                }
            } else {
                assert(t == prefix.push(lc));
                assert forall|i: int| 0 <= i < t.len() - 1 implies !(#[trigger] t[i] == '-'
                    && t[i + 1] == '-') by {
                    if i < prefix.len() - 1 {
                        assert(t[i] == prefix[i] && t[i + 1] == prefix[i + 1]);
                    }
                }
                assert forall|i: int|
                    0 <= i < t.len() implies !is_ascii_whitespace(#[trigger] t[i]) by {
                    if i < prefix.len() {
                        assert(t[i] == prefix[i]);
                    }
                }
                if prefix.len() > 0 {
                    assert(t[0] == prefix[0]);
                }
            }
        }
    }
}

fn char_is_ascii_whitespace(c: char) -> (r: bool)
    ensures
        r == is_ascii_whitespace(c),
{
    c == ' ' || c == '\t' || c == '\n' || c == '\x0C' || c == '\r'
}

fn char_ascii_lower(c: char) -> (r: char)
    ensures
        r == ascii_lower(c),
{
    if 'A' <= c && c <= 'Z' {
        ((c as u8) + 32) as char
    } else {
        c
    }
}

/// Lowercases the ASCII letters of `s` and joins its whitespace-separated
/// words with `-`.
pub fn join_words_lowercase(s: &str) -> (r: String)
    ensures
        r@ == slug_words(s@),
{
    let n = s.unicode_len();
    let mut out = String::new();
    let mut i: usize = 0;
    let mut prev_ws = false;
    while i < n
        invariant
            n == s@.len(),
            i <= n,
            out@ == slug_words(s@.subrange(0, i as int)),
            i > 0 ==> prev_ws == is_ascii_whitespace(s@[i - 1]),
        decreases n - i,
    {
        let c = s.get_char(i);
        let ghost pre = s@.subrange(0, i as int);
        let ghost next = s@.subrange(0, i + 1);
        assert(next.drop_last() =~= pre);
        let ws = char_is_ascii_whitespace(c);
        if !ws {
            if i > 0 && prev_ws && out.unicode_len() > 0 {
                push_char(&mut out, '-');
            }
            push_char(&mut out, char_ascii_lower(c));
        }
        prev_ws = ws;
        i = i + 1;
    }
    assert(s@.subrange(0, n as int) =~= s@);
    out
}

pub open spec fn hex_digit(n: u8) -> char
    recommends
        n < 16,
{
    if n < 10 {
        ((n as u32) + ('0' as u32)) as char
    } else {
        ((n as u32) - 10 + ('a' as u32)) as char
    }
}

/// Two lowercase hex digits per byte, the high nibble first.
pub open spec fn hex_lower(b: Seq<u8>) -> Seq<char>
    decreases b.len(),
{
    if b.len() == 0 {
        Seq::empty()
    } else {
        let x = b.last();
        hex_lower(b.drop_last()).push(hex_digit(x / 16)).push(hex_digit(x % 16))
    }
}

fn nibble_digit(n: u8) -> (r: char)
    requires
        n < 16,
    ensures
        r == hex_digit(n),
{
    if n < 10 {
        (n + 48) as char
    } else {
        (n - 10 + 97) as char
    }
}

/// The bytes of `b` in lowercase hexadecimal.
pub fn to_hex_lower(b: &[u8]) -> (r: String)
    ensures
        r@ == hex_lower(b@),
        r@.len() == 2 * b@.len(),
{
    let mut out = String::new();
    let mut i: usize = 0;
    while i < b.len()
        invariant
            i <= b@.len(),
            out@ == hex_lower(b@.subrange(0, i as int)),
            out@.len() == 2 * i,
        decreases b@.len() - i,
    {
        let x = b[i];
        assert(b@.subrange(0, i + 1).drop_last() =~= b@.subrange(0, i as int));
        push_char(&mut out, nibble_digit(x / 16));
        push_char(&mut out, nibble_digit(x % 16));
        i = i + 1;
    }
    assert(b@.subrange(0, b@.len() as int) =~= b@);
    out
}

/// Compares two strings without stopping at the first difference, so that
/// the time taken does not reveal where they differ.
pub fn constant_time_eq(a: &str, b: &str) -> (r: bool)
    ensures
        r == (a@ == b@),
{
    let n = a.unicode_len();
    let m = b.unicode_len();
    let mut same = n == m;
    let mut i: usize = 0;
    while i < n
        invariant
            n == a@.len(),
            m == b@.len(),
            i <= n,
            same == (n == m && forall|j: int| 0 <= j < i ==> a@[j] == b@[j]),
        decreases n - i,
    {
        let x = a.get_char(i);
        if i < m {
            let y = b.get_char(i);
            same = same && x == y;
        }
        i = i + 1;
    }
    if same {
        assert(a@ =~= b@);
    }
    same
}

pub open spec fn decimal_digit(n: nat) -> char
    recommends
        n < 10,
{
    ((n as u32) + ('0' as u32)) as char
}

/// The decimal numeral of `n`, without leading zeros.
pub open spec fn decimal(n: nat) -> Seq<char>
    decreases n,
{
    if n < 10 {
        seq![decimal_digit(n)]
    } else {
        decimal(n / 10).push(decimal_digit(n % 10))
    }
}

/// Writes `n` in decimal.
pub fn to_decimal(n: u32) -> (r: String)
    ensures
        r@ == decimal(n as nat),
    decreases n,
{
    if n < 10 {
        let mut s = String::new();
        push_char(&mut s, ((n as u8) + 48) as char);
        assert(s@ =~= seq![decimal_digit(n as nat)]);
        s
    } else {
        let mut s = to_decimal(n / 10);
        push_char(&mut s, (((n % 10) as u8) + 48) as char);
        s
    }
}

/// White space as Unicode's `White_Space` property lists it.
pub open spec fn is_unicode_whitespace(c: char) -> bool {
    ('\t' <= c && c <= '\r') || c == ' ' || c == '\u{85}' || c == '\u{A0}' || c == '\u{1680}'
        || ('\u{2000}' <= c && c <= '\u{200A}') || c == '\u{2028}' || c == '\u{2029}'
        || c == '\u{202F}' || c == '\u{205F}' || c == '\u{3000}'
}

fn char_is_unicode_whitespace(c: char) -> (r: bool)
    ensures
        r == is_unicode_whitespace(c),
{
    ('\t' <= c && c <= '\r') || c == ' ' || c == '\u{85}' || c == '\u{A0}' || c == '\u{1680}'
        || ('\u{2000}' <= c && c <= '\u{200A}') || c == '\u{2028}' || c == '\u{2029}'
        || c == '\u{202F}' || c == '\u{205F}' || c == '\u{3000}'
}

pub open spec fn trim_start(s: Seq<char>) -> Seq<char>
    decreases s.len(),
{
    if s.len() > 0 && is_unicode_whitespace(s[0]) {
        trim_start(s.drop_first())
    } else {
        s
    }
}

pub open spec fn trim_end(s: Seq<char>) -> Seq<char>
    decreases s.len(),
{
    if s.len() > 0 && is_unicode_whitespace(s.last()) {
        trim_end(s.drop_last())
    } else {
        s
    }
}

/// `s` without leading and trailing white space.
pub open spec fn trim(s: Seq<char>) -> Seq<char> {
    trim_end(trim_start(s))
}

proof fn lemma_trim_start_from(s: Seq<char>, a: int)
    requires
        0 <= a <= s.len(),
        forall|j: int| 0 <= j < a ==> is_unicode_whitespace(#[trigger] s[j]),
    ensures
        trim_start(s) == trim_start(s.subrange(a, s.len() as int)),
    decreases a,
{
    if a > 0 {
        assert(s.drop_first() =~= s.subrange(1, s.len() as int));
        let t = s.drop_first();
        assert forall|j: int| 0 <= j < a - 1 implies is_unicode_whitespace(#[trigger] t[j]) by {
            assert(t[j] == s[j + 1]);
        }
        lemma_trim_start_from(t, a - 1);
        assert(t.subrange(a - 1, t.len() as int) =~= s.subrange(a, s.len() as int));
    } else {
        assert(s.subrange(0, s.len() as int) =~= s);
    }
}

proof fn lemma_trim_end_to(s: Seq<char>, b: int)
    requires
        0 <= b <= s.len(),
        forall|j: int| b <= j < s.len() ==> is_unicode_whitespace(#[trigger] s[j]),
    ensures
        trim_end(s) == trim_end(s.subrange(0, b)),
    decreases s.len() - b,
{
    if b < s.len() {
        let t = s.drop_last();
        assert(t =~= s.subrange(0, s.len() - 1));
        lemma_trim_end_to(t, b);
        assert(t.subrange(0, b) =~= s.subrange(0, b));
    } else {
        assert(s.subrange(0, b) =~= s);
    }
}

/// Removes leading and trailing white space.
pub fn trim_whitespace(s: &str) -> (r: String)
    ensures
        r@ == trim(s@),
{
    let n = s.unicode_len();
    let mut a: usize = 0;
    while a < n && char_is_unicode_whitespace(s.get_char(a))
        invariant
            n == s@.len(),
            a <= n,
            forall|j: int| 0 <= j < a ==> is_unicode_whitespace(#[trigger] s@[j]),
        decreases n - a,
    {
        a = a + 1;
    }
    proof {
        lemma_trim_start_from(s@, a as int);
    }
    let ghost rest = s@.subrange(a as int, n as int);
    assert(a == n || !is_unicode_whitespace(rest[0]));
    assert(trim_start(rest) == rest);
    let mut b: usize = n;
    while b > a && char_is_unicode_whitespace(s.get_char(b - 1))
        invariant
            n == s@.len(),
            a <= b <= n,
            rest == s@.subrange(a as int, n as int),
            forall|j: int| b <= j < n ==> is_unicode_whitespace(#[trigger] s@[j]),
        decreases b - a,
    {
        b = b - 1;
    }
    proof {
        assert forall|j: int| b - a <= j < rest.len() implies is_unicode_whitespace(
            #[trigger] rest[j],
        ) by {
            assert(rest[j] == s@[j + a]);
        }
        lemma_trim_end_to(rest, b - a);
        let mid = rest.subrange(0, b - a);
        assert(mid =~= s@.subrange(a as int, b as int));
        if b > a {
            assert(mid.last() == s@[b - 1]);
        }
        assert(trim_end(mid) == mid);
    }
    let piece = s.substring_char(a, b);
    piece.to_owned()
}

/// The pieces of `s` between commas; `s` with no comma is one piece.
pub open spec fn split_commas(s: Seq<char>) -> Seq<Seq<char>>
    decreases s.len(),
{
    if s.len() == 0 {
        seq![Seq::empty()]
    } else {
        let pieces = split_commas(s.drop_last());
        if s.last() == ',' {
            pieces.push(Seq::empty())
        } else {
            pieces.update(pieces.len() - 1, pieces.last().push(s.last()))
        }
    }
}

pub open spec fn views_of(v: Seq<String>) -> Seq<Seq<char>> {
    v.map_values(|x: String| x@)
}

/// Splits `s` at every comma.
pub fn split_at_commas(s: &str) -> (r: Vec<String>)
    ensures
        views_of(r@) == split_commas(s@),
{
    let n = s.unicode_len();
    let mut done: Vec<String> = Vec::new();
    let mut cur = String::new();
    let mut i: usize = 0;
    while i < n
        invariant
            n == s@.len(),
            i <= n,
            views_of(done@).push(cur@) == split_commas(s@.subrange(0, i as int)),
        decreases n - i,
    {
        let c = s.get_char(i);
        let ghost before = views_of(done@).push(cur@);
        assert(s@.subrange(0, i + 1).drop_last() =~= s@.subrange(0, i as int));
        if c == ',' {
            done.push(cur);
            cur = String::new();
            assert(views_of(done@).push(cur@) =~= before.push(Seq::empty()));
        } else {
            push_char(&mut cur, c);
            assert(views_of(done@).push(cur@) =~= before.update(
                before.len() - 1,
                before.last().push(c),
            ));
        }
        i = i + 1;
    }
    assert(s@.subrange(0, n as int) =~= s@);
    done.push(cur);
    assert(views_of(done@) =~= split_commas(s@));
    done
}

/// `s` keeping the first occurrence of each element, in order.
pub open spec fn dedup_first(s: Seq<Seq<char>>) -> Seq<Seq<char>>
    decreases s.len(),
{
    if s.len() == 0 {
        s
    } else {
        let kept = dedup_first(s.drop_last());
        if kept.contains(s.last()) {
            kept
        } else {
            kept.push(s.last())
        }
    }
}

pub proof fn lemma_dedup_first_props(s: Seq<Seq<char>>)
    ensures
        dedup_first(s).no_duplicates(),
        forall|x: Seq<char>| dedup_first(s).contains(x) <==> s.contains(x),
        dedup_first(s).len() <= s.len(),
    decreases s.len(),
{
    if s.len() > 0 {
        let p = s.drop_last();
        lemma_dedup_first_props(p);
        assert forall|x: Seq<char>| s.contains(x) <==> (p.contains(x) || x == s.last()) by {
            if s.contains(x) {
                let j = choose|j: int| 0 <= j < s.len() && s[j] == x;
                if j < s.len() - 1 {
                    assert(p[j] == x);
                }
            }
            if p.contains(x) {
                let j = choose|j: int| 0 <= j < p.len() && p[j] == x;
                assert(s[j] == x);
            }
            if x == s.last() {
                assert(s[s.len() - 1] == x);
            }
        }
        let kept = dedup_first(p);
        if !kept.contains(s.last()) {
            let k2 = kept.push(s.last());
            assert forall|x: Seq<char>| k2.contains(x) <==> (kept.contains(x) || x == s.last()) by {
                if k2.contains(x) {
                    let j = choose|j: int| 0 <= j < k2.len() && k2[j] == x;
                    if j < kept.len() {
                        assert(kept[j] == x);
                    }
                }
                if kept.contains(x) {
                    let j = choose|j: int| 0 <= j < kept.len() && kept[j] == x;
                    assert(k2[j] == x);
                }
                if x == s.last() {
                    assert(k2[kept.len() as int] == x);
                }
            }
        }
    }
}

/// Whether `x` is one of the strings of `v`.
pub fn contains_string(v: &Vec<String>, x: &String) -> (r: bool)
    ensures
        r == views_of(v@).contains(x@),
{
    let mut i: usize = 0;
    while i < v.len()
        invariant
            i <= v@.len(),
            forall|j: int| 0 <= j < i ==> v@[j]@ != x@,
        decreases v@.len() - i,
    {
        if v[i] == *x {
            assert(views_of(v@)[i as int] == x@);
            return true;
        }
        i = i + 1;
    }
    assert forall|j: int| 0 <= j < views_of(v@).len() implies views_of(v@)[j] != x@ by {
        assert(v@[j]@ != x@);
    }
    false
}

/// Drops every element equal to an earlier one.
pub fn dedup_keep_first(v: Vec<String>) -> (r: Vec<String>)
    ensures
        views_of(r@) == dedup_first(views_of(v@)),
{
    let mut out: Vec<String> = Vec::new();
    let mut i: usize = 0;
    while i < v.len()
        invariant
            i <= v@.len(),
            views_of(out@) == dedup_first(views_of(v@).subrange(0, i as int)),
        decreases v@.len() - i,
    {
        let ghost pre = views_of(v@).subrange(0, i as int);
        assert(views_of(v@).subrange(0, i + 1).drop_last() =~= pre);
        let item = v[i].clone();
        if !contains_string(&out, &item) {
            out.push(item);
            assert(views_of(out@) =~= dedup_first(pre).push(item@));
        }
        i = i + 1;
    }
    assert(views_of(v@).subrange(0, v@.len() as int) =~= views_of(v@));
    out
}

} // verus!
