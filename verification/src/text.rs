use vstd::prelude::*;
use vstd::utf8::*;

verus! {

broadcast use vstd::utf8::encode_utf8_decode_utf8;

// ---------------------------------------------------------------------------
// Character sequences and strings
// ---------------------------------------------------------------------------

/// Appends one character to a string.
///
/// Trusted: calls `String::push`, whose documentation says that it appends the given
/// `char` to the end of the `String`.
#[verifier::external_body]
pub(crate) fn push_char(s: &mut String, c: char)
    ensures
        final(s)@ == old(s)@.push(c),
{
    s.push(c);
}

/// The characters of `s`, in order.
pub fn chars_of(s: &str) -> (v: Vec<char>)
    ensures
        v@ == s@,
{
    let mut v: Vec<char> = Vec::new();
    for c in it: s.chars()
        invariant
            v@ == it.seq().take(it.index() as int),
    {
        v.push(c);
    }
    v
}

/// The string made of the characters of `v`, in order.
pub fn string_of(v: &Vec<char>) -> (s: String)
    ensures
        s@ == v@,
{
    let mut s = String::new();
    let mut i: usize = 0;
    while i < v.len()
        invariant
            i <= v.len(),
            s@ == v@.take(i as int),
        decreases v.len() - i,
    {
        push_char(&mut s, v[i]);
        assert(v@.take(i as int + 1) =~= v@.take(i as int).push(v@[i as int]));
        i = i + 1;
    }
    assert(v@.take(v.len() as int) =~= v@);
    s
}

/// Whether two strings hold the same characters.
pub fn same_text(a: &str, b: &str) -> (r: bool)
    ensures
        r == (a@ == b@),
{
    let va = chars_of(a);
    let vb = chars_of(b);
    if va.len() != vb.len() {
        return false;
    }
    let mut i: usize = 0;
    while i < va.len()
        invariant
            va.len() == vb.len(),
            i <= va.len(),
            va@ == a@,
            vb@ == b@,
            forall|j: int| 0 <= j < i ==> va@[j] == vb@[j],
        decreases va.len() - i,
    {
        if va[i] != vb[i] {
            return false;
        }
        i = i + 1;
    }
    assert(va@ =~= vb@);
    true
}

/// `suffix` ends `s`.
pub open spec fn spec_ends_with(s: Seq<char>, suffix: Seq<char>) -> bool {
    suffix.len() <= s.len() && s.subrange(s.len() - suffix.len(), s.len() as int) == suffix
}

/// Whether `s` ends with `suffix` (the behaviour of `str::ends_with` with a string pattern).
pub fn ends_with(s: &str, suffix: &str) -> (r: bool)
    ensures
        r == spec_ends_with(s@, suffix@),
{
    let vs = chars_of(s);
    let vx = chars_of(suffix);
    if vx.len() > vs.len() {
        return false;
    }
    let off = vs.len() - vx.len();
    let mut i: usize = 0;
    while i < vx.len()
        invariant
            off + vx.len() == vs.len(),
            i <= vx.len(),
            vs@ == s@,
            vx@ == suffix@,
            forall|j: int| 0 <= j < i ==> vs@[off + j] == vx@[j],
        decreases vx.len() - i,
    {
        if vs[off + i] != vx[i] {
            assert(s@.subrange(off as int, s@.len() as int)[i as int] != suffix@[i as int]);
            return false;
        }
        i = i + 1;
    }
    assert(s@.subrange(off as int, s@.len() as int) =~= suffix@);
    true
}

// ---------------------------------------------------------------------------
// Replacing every occurrence of a pattern
// ---------------------------------------------------------------------------

/// `s` with each non-overlapping occurrence of `pat`, scanned from the left, replaced by `to`:
/// the behaviour of `str::replace` with a non-empty string pattern (the only patterns this is
/// meant for; `replace_all` asks for one).
pub open spec fn spec_replace(s: Seq<char>, pat: Seq<char>, to: Seq<char>) -> Seq<char>
    recommends
        pat.len() > 0,
    decreases s.len(),
{
    if s.len() == 0 || pat.len() == 0 {
        s
    } else if pat.len() <= s.len() && s.take(pat.len() as int) == pat {
        to + spec_replace(s.skip(pat.len() as int), pat, to)
    } else {
        seq![s[0]] + spec_replace(s.skip(1), pat, to)
    }
}

/// Whether `pat` occurs in `s` at position `i`.
fn occurs_at(s: &Vec<char>, i: usize, pat: &Vec<char>) -> (r: bool)
    requires
        i <= s.len(),
    ensures
        r == (pat.len() <= s.len() - i && s@.skip(i as int).take(pat.len() as int) == pat@),
{
    if pat.len() > s.len() - i {
        return false;
    }
    let mut k: usize = 0;
    while k < pat.len()
        invariant
            i + pat.len() <= s.len(),
            k <= pat.len(),
            forall|j: int| 0 <= j < k ==> s@[i + j] == pat@[j],
        decreases pat.len() - k,
    {
        if s[i + k] != pat[k] {
            assert(s@.skip(i as int).take(pat.len() as int)[k as int] != pat@[k as int]);
            return false;
        }
        k = k + 1;
    }
    assert(s@.skip(i as int).take(pat.len() as int) =~= pat@);
    true
}

/// Replaces each occurrence of the non-empty `pat` in `s` by `to`, scanning from the left.
pub fn replace_all(s: &str, pat: &str, to: &str) -> (r: String)
    requires
        pat@.len() > 0,
    ensures
        r@ == spec_replace(s@, pat@, to@),
{
    let vs = chars_of(s);
    let vp = chars_of(pat);
    let vt = chars_of(to);
    let mut out: Vec<char> = Vec::new();
    let mut i: usize = 0;
    assert(vs@.skip(0) =~= vs@);
    while i < vs.len()
        invariant
            i <= vs.len(),
            vs@ == s@,
            vp@ == pat@,
            vt@ == to@,
            vp.len() > 0,
            spec_replace(s@, pat@, to@) == out@ + spec_replace(vs@.skip(i as int), pat@, to@),
        decreases vs.len() - i,
    {
        let ghost rest = vs@.skip(i as int);
        if occurs_at(&vs, i, &vp) {
            let mut k: usize = 0;
            let ghost before = out@;
            while k < vt.len()
                invariant
                    k <= vt.len(),
                    out@ == before + vt@.take(k as int),
                decreases vt.len() - k,
            {
                out.push(vt[k]);
                assert(vt@.take(k as int + 1) =~= vt@.take(k as int).push(vt@[k as int]));
                k = k + 1;
            }
            assert(vt@.take(vt.len() as int) =~= vt@);
            assert(rest.skip(vp.len() as int) =~= vs@.skip(i + vp.len()));
            assert(rest.take(pat@.len() as int) == pat@);
            i = i + vp.len();
            assert(spec_replace(rest, pat@, to@) == to@ + spec_replace(vs@.skip(i as int), pat@, to@));
            assert(out@ == before + to@);
            assert(before + (to@ + spec_replace(vs@.skip(i as int), pat@, to@)) =~= out@ + spec_replace(vs@.skip(i as int), pat@, to@));
        } else {
            let ghost before = out@;
            out.push(vs[i]);
            assert(rest.skip(1) =~= vs@.skip(i + 1));
            assert(rest[0] == vs@[i as int]);
            i = i + 1;
            assert(spec_replace(rest, pat@, to@) == seq![vs@[i - 1]] + spec_replace(vs@.skip(i as int), pat@, to@));
            assert(before + (seq![vs@[i - 1]] + spec_replace(vs@.skip(i as int), pat@, to@)) =~= out@ + spec_replace(vs@.skip(i as int), pat@, to@));
        }
    }
    assert(vs@.skip(i as int).len() == 0);
    assert(out@ + spec_replace(vs@.skip(i as int), pat@, to@) =~= out@);
    string_of(&out)
}


// ---------------------------------------------------------------------------
// Letter case
// ---------------------------------------------------------------------------

/// What `str::to_lowercase` returns for a string with the characters `s`.
pub uninterp spec fn str_lowercase(s: Seq<char>) -> Seq<char>;

/// What `str::to_uppercase` returns for a string with the characters `s`.
pub uninterp spec fn str_uppercase(s: Seq<char>) -> Seq<char>;

/// The ASCII lowercase of `c`: `A`..`Z` become `a`..`z`, every other character stays.
pub open spec fn ascii_lower(c: char) -> char {
    if 'A' <= c && c <= 'Z' { ((c as int) + 32) as char } else { c }
}

/// The ASCII uppercase of `c`: `a`..`z` become `A`..`Z`, every other character stays.
pub open spec fn ascii_upper(c: char) -> char {
    if 'a' <= c && c <= 'z' { ((c as int) - 32) as char } else { c }
}

/// Lowercases `s`.
///
/// Trusted: calls `str::to_lowercase`. Its documentation defines the result by Unicode's
/// lowercase mapping, which is not written out here: the result is named `str_lowercase`,
/// and only its ASCII part is stated, where `A`..`Z` map to `a`..`z` and nothing else changes.
#[verifier::external_body]
pub(crate) fn lowercase(s: &str) -> (r: String)
    ensures
        r@ == str_lowercase(s@),
        is_ascii_chars(s@) ==> r@ == s@.map_values(|c: char| ascii_lower(c)),
{
    s.to_lowercase()
}

/// Uppercases `s`.
///
/// Trusted: calls `str::to_uppercase`. Its documentation defines the result by Unicode's
/// uppercase mapping, which is not written out here: the result is named `str_uppercase`,
/// and only its ASCII part is stated, where `a`..`z` map to `A`..`Z` and nothing else changes.
#[verifier::external_body]
pub(crate) fn uppercase(s: &str) -> (r: String)
    ensures
        r@ == str_uppercase(s@),
        is_ascii_chars(s@) ==> r@ == s@.map_values(|c: char| ascii_upper(c)),
{
    s.to_uppercase()
}

// ---------------------------------------------------------------------------
// The year of a date
// ---------------------------------------------------------------------------

/// Cutting the UTF-8 encoding of `date` after its fourth byte falls between two characters
/// (`str::split_at(4)` panics otherwise).
pub open spec fn year_cut_ok(date: Seq<char>) -> bool {
    is_char_boundary(encode_utf8(date), 4)
}

/// The characters that the first four bytes of `date` encode: the year of a `YYYY-MM-DD` date.
pub open spec fn spec_year(date: Seq<char>) -> Seq<char> {
    decode_utf8(encode_utf8(date).subrange(0, 4))
}

/// A date written in ASCII with at least four characters can be cut, and its year is its
/// first four characters (the `YYYY` of `YYYY-MM-DD`).
pub proof fn law_ascii_year(date: Seq<char>)
    requires
        is_ascii_chars(date),
        date.len() >= 4,
    ensures
        year_cut_ok(date),
        spec_year(date) == date.take(4),
{
    let bytes = encode_utf8(date);
    is_ascii_chars_encode_utf8(date);
    encode_utf8_valid_utf8(date);
    if date.len() == 4 {
        is_char_boundary_start_end_of_seq(bytes);
    } else {
        is_char_boundary_iff_not_is_continuation_byte(bytes, 4);
        assert(date[4] as u8 == bytes[4]);
        assert((date[4] as int) < 128) by {
            is_ascii_chars_nat_bound(date);
        }
    }
    let head = date.take(4);
    assert(is_ascii_chars(head)) by {
        assert forall|i: int| 0 <= i < head.len() implies '\0' <= #[trigger] head[i] <= '\u{7f}' by {
            assert(head[i] == date[i]);
        }
    }
    is_ascii_chars_encode_utf8(head);
    assert(encode_utf8(head) =~= bytes.subrange(0, 4)) by {
        assert forall|i: int| 0 <= i < 4 implies #[trigger] encode_utf8(head)[i] == bytes.subrange(0, 4)[i] by {
            assert(head[i] == date[i]);
            assert(head[i] as u8 == encode_utf8(head)[i]);
            assert(date[i] as u8 == bytes[i]);
        }
    }
}

/// The first four bytes of `date` as a string, as `date.split_at(4).0` gives them.
pub fn year_of(date: &str) -> (y: String)
    requires
        year_cut_ok(date@),
    ensures
        y@ == spec_year(date@),
        encode_utf8(y@) == encode_utf8(date@).subrange(0, 4),
{
    let (head, _tail) = date.split_at(4);
    head.to_owned()
}

// ---------------------------------------------------------------------------
// Searching a sequence
// ---------------------------------------------------------------------------

/// `i` is the first index of `x` in `items`.
pub open spec fn is_first_index<A>(items: Seq<A>, x: A, i: int) -> bool {
    0 <= i < items.len() && items[i] == x && forall|j: int| 0 <= j < i ==> items[j] != x
}

/// The first index of `x` in `items` (meaningful where `x` occurs).
pub open spec fn spec_first_index<A>(items: Seq<A>, x: A) -> int {
    choose|i: int| is_first_index(items, x, i)
}

/// Where `x` occurs in `items`, it has a first index.
pub proof fn lemma_first_index_exists<A>(items: Seq<A>, x: A)
    requires
        items.contains(x),
    ensures
        is_first_index(items, x, spec_first_index(items, x)),
{
    let w = choose|w: int| 0 <= w < items.len() && items[w] == x;
    lemma_first_index_below(items, x, w + 1);
}

proof fn lemma_first_index_below<A>(items: Seq<A>, x: A, k: int)
    requires
        0 < k <= items.len(),
        exists|w: int| 0 <= w < k && items[w] == x,
    ensures
        exists|i: int| is_first_index(items, x, i),
    decreases k,
{
    if exists|w: int| 0 <= w < k - 1 && items[w] == x {
        lemma_first_index_below(items, x, k - 1);
    } else {
        assert(is_first_index(items, x, k - 1));
    }
}

} // verus!
