//! Character-sequence helpers shared by the feed builders: trimming, searching,
//! ASCII case folding and number formatting, each stated over `Seq<char>`.

use vstd::prelude::*;

verus! {

/// `String::push` appends one character.
pub assume_specification[ String::push ](s: &mut String, ch: char)
    ensures
        final(s)@ == old(s)@.push(ch),
;

// ── Specifications ─────────────────────────────────────────────────────────

/// `s` without its leading run of `c`.
pub open spec fn trim_start(s: Seq<char>, c: char) -> Seq<char>
    decreases s.len(),
{
    if s.len() > 0 && s[0] == c {
        trim_start(s.drop_first(), c)
    } else {
        s
    }
}

/// `s` without its trailing run of `c`.
pub open spec fn trim_end(s: Seq<char>, c: char) -> Seq<char>
    decreases s.len(),
{
    if s.len() > 0 && s.last() == c {
        trim_end(s.drop_last(), c)
    } else {
        s
    }
}

/// `s` without its leading and trailing runs of `c`.
pub open spec fn trim(s: Seq<char>, c: char) -> Seq<char> {
    trim_end(trim_start(s, c), c)
}

/// The index of the last occurrence of `c` in `s`, or -1.
pub open spec fn last_index_of(s: Seq<char>, c: char) -> int
    decreases s.len(),
{
    if s.len() == 0 {
        -1
    } else if s.last() == c {
        s.len() - 1
    } else {
        last_index_of(s.drop_last(), c)
    }
}

/// `p` is a prefix of `s`.
pub open spec fn has_prefix(s: Seq<char>, p: Seq<char>) -> bool {
    p.len() <= s.len() && s.take(p.len() as int) == p
}

/// ASCII upper-case letters to lower case; every other character unchanged.
pub open spec fn ascii_lower(c: char) -> char {
    if 'A' <= c && c <= 'Z' {
        ((c as u32) + 32) as char
    } else {
        c
    }
}

pub open spec fn ascii_lower_seq(s: Seq<char>) -> Seq<char> {
    s.map_values(|c: char| ascii_lower(c))
}

/// The hexadecimal digit for `d < 16`.
pub open spec fn hex_char(d: nat, upper: bool) -> char {
    if d < 10 {
        (d + 48) as char
    } else if upper {
        (d + 55) as char
    } else {
        (d + 87) as char
    }
}

/// `n` in hexadecimal without leading zeros (`0` is one digit).
pub open spec fn hex_digits(n: nat, upper: bool) -> Seq<char>
    decreases n,
{
    if n < 16 {
        seq![hex_char(n, upper)]
    } else {
        hex_digits(n / 16, upper) + seq![hex_char(n % 16, upper)]
    }
}

/// The last `width` lower-case hexadecimal digits of `n`.
pub open spec fn hex_fixed(n: nat, width: nat) -> Seq<char>
    decreases width,
{
    if width == 0 {
        seq![]
    } else {
        hex_fixed(n / 16, (width - 1) as nat) + seq![hex_char(n % 16, false)]
    }
}

/// `n` in decimal without leading zeros.
pub open spec fn dec_digits(n: nat) -> Seq<char>
    decreases n,
{
    if n < 10 {
        seq![(n + 48) as char]
    } else {
        dec_digits(n / 10) + seq![((n % 10) + 48) as char]
    }
}

// ── Lemmas ─────────────────────────────────────────────────────────────────

pub proof fn lemma_trim_start_skip(s: Seq<char>, c: char, i: int)
    requires
        0 <= i <= s.len(),
        forall|j: int| 0 <= j < i ==> s[j] == c,
    ensures
        trim_start(s, c) == trim_start(s.skip(i), c),
    decreases i,
{
    if i == 0 {
        assert(s.skip(0) =~= s);
    } else {
        lemma_trim_start_skip(s.drop_first(), c, i - 1);
        assert(s.drop_first().skip(i - 1) =~= s.skip(i));
    }
}

pub proof fn lemma_trim_end_take(s: Seq<char>, c: char, k: int)
    requires
        0 <= k <= s.len(),
        forall|j: int| k <= j < s.len() ==> s[j] == c,
    ensures
        trim_end(s, c) == trim_end(s.take(k), c),
    decreases s.len() - k,
{
    if k == s.len() {
        assert(s.take(k) =~= s);
    } else {
        lemma_trim_end_take(s.drop_last(), c, k);
        assert(s.drop_last().take(k) =~= s.take(k));
    }
}

pub proof fn lemma_last_index_take(s: Seq<char>, c: char, k: int)
    requires
        0 <= k <= s.len(),
        forall|j: int| k <= j < s.len() ==> s[j] != c,
    ensures
        last_index_of(s, c) == last_index_of(s.take(k), c),
    decreases s.len() - k,
{
    if k == s.len() {
        assert(s.take(k) =~= s);
    } else {
        lemma_last_index_take(s.drop_last(), c, k);
        assert(s.drop_last().take(k) =~= s.take(k));
    }
}

/// What `last_index_of` finds: an occurrence with none after it, or no occurrence.
pub proof fn lemma_last_index_facts(s: Seq<char>, c: char)
    ensures
        -1 <= last_index_of(s, c) < s.len(),
        last_index_of(s, c) >= 0 ==> s[last_index_of(s, c)] == c,
        forall|j: int| last_index_of(s, c) < j < s.len() ==> s[j] != c,
    decreases s.len(),
{
    if s.len() > 0 && s.last() != c {
        lemma_last_index_facts(s.drop_last(), c);
        assert forall|j: int| last_index_of(s, c) < j < s.len() implies s[j] != c by {
            if j < s.len() - 1 {
                assert(s.drop_last()[j] == s[j]);
            }
        }
    }
}

pub proof fn lemma_trim_start_head(s: Seq<char>, c: char)
    ensures
        trim_start(s, c).len() > 0 ==> trim_start(s, c)[0] != c,
    decreases s.len(),
{
    if s.len() > 0 && s[0] == c {
        lemma_trim_start_head(s.drop_first(), c);
    }
}

pub proof fn lemma_trim_end_tail(s: Seq<char>, c: char)
    ensures
        trim_end(s, c).len() > 0 ==> trim_end(s, c).last() != c,
    decreases s.len(),
{
    if s.len() > 0 && s.last() == c {
        lemma_trim_end_tail(s.drop_last(), c);
    }
}

/// Trimming leaves no `c` at either end.
pub proof fn lemma_trim_ends(s: Seq<char>, c: char)
    ensures
        trim(s, c).len() > 0 ==> trim(s, c)[0] != c && trim(s, c).last() != c,
{
    let t = trim_start(s, c);
    lemma_trim_start_head(s, c);
    lemma_trim_end_tail(t, c);
    lemma_trim_end_is_prefix(t, c);
}

/// Trimming the end keeps a prefix of the sequence.
pub proof fn lemma_trim_end_is_prefix(s: Seq<char>, c: char)
    ensures
        trim_end(s, c).len() <= s.len(),
        trim_end(s, c) == s.take(trim_end(s, c).len() as int),
    decreases s.len(),
{
    if s.len() > 0 && s.last() == c {
        lemma_trim_end_is_prefix(s.drop_last(), c);
        assert(s.drop_last().take(trim_end(s, c).len() as int) =~= s.take(
            trim_end(s, c).len() as int,
        ));
    } else {
        assert(s.take(s.len() as int) =~= s);
    }
}

/// Trimming the start keeps a suffix of the sequence.
pub proof fn lemma_trim_start_is_suffix(s: Seq<char>, c: char)
    ensures
        trim_start(s, c).len() <= s.len(),
        trim_start(s, c) == s.skip(s.len() - trim_start(s, c).len()),
    decreases s.len(),
{
    if s.len() > 0 && s[0] == c {
        lemma_trim_start_is_suffix(s.drop_first(), c);
        assert(s.drop_first().skip(s.drop_first().len() - trim_start(s, c).len()) =~= s.skip(
            s.len() - trim_start(s, c).len(),
        ));
    } else {
        assert(s.skip(0) =~= s);
    }
}

/// A sequence that neither starts nor ends with `c` is its own trim.
pub proof fn lemma_trim_untouched(s: Seq<char>, c: char)
    ensures
        (s.len() == 0 || s[0] != c) ==> trim_start(s, c) == s,
        (s.len() == 0 || s.last() != c) ==> trim_end(s, c) == s,
        (s.len() == 0 || (s[0] != c && s.last() != c)) ==> trim(s, c) == s,
{
}

/// Trimming twice is trimming once.
pub proof fn lemma_trim_idempotent(s: Seq<char>, c: char)
    ensures
        trim_start(trim_start(s, c), c) == trim_start(s, c),
        trim_end(trim_end(s, c), c) == trim_end(s, c),
        trim(trim(s, c), c) == trim(s, c),
{
    lemma_trim_start_head(s, c);
    lemma_trim_end_tail(s, c);
    lemma_trim_ends(s, c);
}

/// Trimming the start of `a + b` only touches `a` when `a` has a character other than `c`.
pub proof fn lemma_trim_start_concat(a: Seq<char>, b: Seq<char>, c: char)
    requires
        trim_start(a, c).len() > 0,
    ensures
        trim_start(a + b, c) == trim_start(a, c) + b,
    decreases a.len(),
{
    if a.len() > 0 && a[0] == c {
        lemma_trim_start_concat(a.drop_first(), b, c);
        assert((a + b).drop_first() =~= a.drop_first() + b);
    } else {
        assert(a.len() > 0);
        assert((a + b)[0] == a[0]);
    }
}

/// Trimming the end of `a + b` only touches `b` when `b` has a character other than `c`.
pub proof fn lemma_trim_end_concat(a: Seq<char>, b: Seq<char>, c: char)
    requires
        trim_end(b, c).len() > 0,
    ensures
        trim_end(a + b, c) == a + trim_end(b, c),
    decreases b.len(),
{
    if b.len() > 0 && b.last() == c {
        lemma_trim_end_concat(a, b.drop_last(), c);
        assert((a + b).drop_last() =~= a + b.drop_last());
    } else {
        assert(b.len() > 0);
        assert((a + b).last() == b.last());
    }
}

proof fn lemma_trim_end_cons(c: char, x: Seq<char>)
    ensures
        trim_end(seq![c] + x, c) == (if trim_end(x, c).len() > 0 {
            seq![c] + trim_end(x, c)
        } else {
            Seq::<char>::empty()
        }),
    decreases x.len(),
{
    let s = seq![c] + x;
    if x.len() == 0 {
        assert(s.last() == c);
        assert(s.drop_last() =~= Seq::<char>::empty());
        assert(trim_end(Seq::<char>::empty(), c) == Seq::<char>::empty());
    } else if x.last() == c {
        lemma_trim_end_cons(c, x.drop_last());
        assert(s.last() == c);
        assert(s.drop_last() =~= seq![c] + x.drop_last());
    } else {
        assert(s.last() == x.last());
    }
}

/// Trimming both ends in either order gives the same result.
pub proof fn lemma_trim_commute(s: Seq<char>, c: char)
    ensures
        trim_start(trim_end(s, c), c) == trim_end(trim_start(s, c), c),
    decreases s.len(),
{
    if s.len() > 0 && s[0] == c {
        let x = s.drop_first();
        lemma_trim_commute(x, c);
        assert(s =~= seq![c] + x);
        lemma_trim_end_cons(c, x);
        if trim_end(x, c).len() > 0 {
            let y = seq![c] + trim_end(x, c);
            assert(y[0] == c);
            assert(y.drop_first() =~= trim_end(x, c));
        }
    } else {
        lemma_trim_end_is_prefix(s, c);
        let t = trim_end(s, c);
        if t.len() > 0 {
            assert(t[0] == s[0]);
        }
    }
}

/// Trimming the start leaves nothing only when every character is `c`.
pub proof fn lemma_trim_start_empty(s: Seq<char>, c: char)
    requires
        trim_start(s, c).len() == 0,
    ensures
        forall|j: int| 0 <= j < s.len() ==> s[j] == c,
    decreases s.len(),
{
    if s.len() > 0 {
        lemma_trim_start_empty(s.drop_first(), c);
        assert forall|j: int| 0 <= j < s.len() implies s[j] == c by {
            if j > 0 {
                assert(s[j] == s.drop_first()[j - 1]);
            }
        }
    }
}

/// Trimming the end leaves nothing only when every character is `c`.
pub proof fn lemma_trim_end_empty(s: Seq<char>, c: char)
    requires
        trim_end(s, c).len() == 0,
    ensures
        forall|j: int| 0 <= j < s.len() ==> s[j] == c,
    decreases s.len(),
{
    if s.len() > 0 {
        lemma_trim_end_empty(s.drop_last(), c);
        assert forall|j: int| 0 <= j < s.len() implies s[j] == c by {
            if j < s.len() - 1 {
                assert(s[j] == s.drop_last()[j]);
            }
        }
    }
}

/// With no `c` in `s`, `c` has no last index.
pub proof fn lemma_last_index_absent(s: Seq<char>, c: char)
    requires
        forall|j: int| 0 <= j < s.len() ==> s[j] != c,
    ensures
        last_index_of(s, c) == -1,
{
    lemma_last_index_take(s, c, 0);
    assert(s.take(0).len() == 0);
}

/// The last `c` of `a + [c] + b`, when `b` has none, is the one after `a`.
pub proof fn lemma_last_index_split(a: Seq<char>, c: char, b: Seq<char>)
    requires
        forall|j: int| 0 <= j < b.len() ==> b[j] != c,
    ensures
        last_index_of(a + seq![c] + b, c) == a.len(),
{
    let s = a + seq![c] + b;
    let k: int = a.len() + 1int;
    assert forall|j: int| k <= j < s.len() implies s[j] != c by {
        assert(s[j] == b[j - k]);
    }
    lemma_last_index_take(s, c, k);
    assert(s.take(k).last() == c);
}

/// An upper- or lower-case hexadecimal digit, as `upper` says.
pub open spec fn is_hex_digit(c: char, upper: bool) -> bool {
    ||| ('0' <= c && c <= '9')
    ||| (upper && 'A' <= c && c <= 'F')
    ||| (!upper && 'a' <= c && c <= 'f')
}

pub proof fn lemma_hex_char_is_digit(d: nat, upper: bool)
    requires
        d < 16,
    ensures
        is_hex_digit(hex_char(d, upper), upper),
{
}

/// Fixed-width hexadecimal has exactly that many digits.
pub proof fn lemma_hex_fixed_shape(n: nat, width: nat)
    ensures
        hex_fixed(n, width).len() == width,
        forall|i: int| 0 <= i < width ==> is_hex_digit(#[trigger] hex_fixed(n, width)[i], false),
    decreases width,
{
    if width > 0 {
        lemma_hex_fixed_shape(n / 16, (width - 1) as nat);
        lemma_hex_char_is_digit(n % 16, false);
        let a = hex_fixed(n / 16, (width - 1) as nat);
        assert forall|i: int| 0 <= i < width implies is_hex_digit(
            #[trigger] hex_fixed(n, width)[i],
            false,
        ) by {
            if i < width - 1 {
                assert(hex_fixed(n, width)[i] == a[i]);
            }
        }
    }
}

/// Hexadecimal digits of a number.
pub proof fn lemma_hex_digits_shape(n: nat, upper: bool)
    ensures
        hex_digits(n, upper).len() > 0,
        forall|i: int|
            0 <= i < hex_digits(n, upper).len() ==> is_hex_digit(
                #[trigger] hex_digits(n, upper)[i],
                upper,
            ),
    decreases n,
{
    lemma_hex_char_is_digit(n % 16, upper);
    if n >= 16 {
        lemma_hex_digits_shape(n / 16, upper);
        let a = hex_digits(n / 16, upper);
        assert forall|i: int| 0 <= i < hex_digits(n, upper).len() implies is_hex_digit(
            #[trigger] hex_digits(n, upper)[i],
            upper,
        ) by {
            if i < a.len() {
                assert(hex_digits(n, upper)[i] == a[i]);
            }
        }
    } else {
        lemma_hex_char_is_digit(n, upper);
    }
}

// ── Executable helpers ─────────────────────────────────────────────────────

/// The characters of `s`, in order.
pub fn chars_of(s: &str) -> (v: Vec<char>)
    ensures
        v@ == s@,
{
    let mut v: Vec<char> = Vec::new();
    for c in it: s.chars()
        invariant
            it.seq() == s@,
            v@ == it.seq().take(it.index()),
    {
        v.push(c);
    }
    v
}

/// The number of leading `c` in `v`.
fn leading_run(v: &Vec<char>, c: char) -> (i: usize)
    ensures
        i <= v.len(),
        trim_start(v@, c) == v@.skip(i as int),
{
    let mut i: usize = 0;
    while i < v.len() && v[i] == c
        invariant
            i <= v.len(),
            forall|j: int| 0 <= j < i ==> v@[j] == c,
        decreases v.len() - i,
    {
        i = i + 1;
    }
    proof {
        lemma_trim_start_skip(v@, c, i as int);
    }
    i
}

/// The end of `v[lo..]` once its trailing run of `c` is cut.
fn trailing_cut(v: &Vec<char>, c: char, lo: usize) -> (hi: usize)
    requires
        lo <= v.len(),
    ensures
        lo <= hi <= v.len(),
        trim_end(v@.subrange(lo as int, v.len() as int), c) == v@.subrange(lo as int, hi as int),
{
    let mut hi: usize = v.len();
    while hi > lo && v[hi - 1] == c
        invariant
            lo <= hi <= v.len(),
            forall|j: int| hi <= j < v.len() ==> v@[j] == c,
        decreases hi,
    {
        hi = hi - 1;
    }
    proof {
        let sub = v@.subrange(lo as int, v.len() as int);
        lemma_trim_end_take(sub, c, hi - lo);
        assert(sub.take(hi - lo) =~= v@.subrange(lo as int, hi as int));
    }
    hi
}

/// `s.trim_matches(c)`.
pub fn trim_matches(s: &str, c: char) -> (r: &str)
    ensures
        r@ == trim(s@, c),
{
    let v = chars_of(s);
    let lo = leading_run(&v, c);
    let hi = trailing_cut(&v, c, lo);
    assert(v@.skip(lo as int) =~= v@.subrange(lo as int, v.len() as int));
    s.substring_char(lo, hi)
}

/// `s.trim_start_matches(c)`.
pub fn trim_start_matches(s: &str, c: char) -> (r: &str)
    ensures
        r@ == trim_start(s@, c),
{
    let v = chars_of(s);
    let lo = leading_run(&v, c);
    assert(v@.skip(lo as int) =~= v@.subrange(lo as int, v.len() as int));
    s.substring_char(lo, v.len())
}

/// `s.trim_end_matches(c)`.
pub fn trim_end_matches(s: &str, c: char) -> (r: &str)
    ensures
        r@ == trim_end(s@, c),
{
    let v = chars_of(s);
    let hi = trailing_cut(&v, c, 0);
    assert(v@.subrange(0, v.len() as int) =~= v@);
    s.substring_char(0, hi)
}

/// `v.rfind(c)` on characters.
pub fn rfind_char(v: &Vec<char>, c: char) -> (r: Option<usize>)
    ensures
        match r {
            Some(i) => i == last_index_of(v@, c),
            None => last_index_of(v@, c) == -1,
        },
{
    let mut i: usize = v.len();
    while i > 0 && v[i - 1] != c
        invariant
            i <= v.len(),
            forall|j: int| i <= j < v.len() ==> v@[j] != c,
        decreases i,
    {
        i = i - 1;
    }
    proof {
        lemma_last_index_take(v@, c, i as int);
        if i > 0 {
            assert(v@.take(i as int).last() == c);
        } else {
            assert(v@.take(0).len() == 0);
        }
    }
    if i == 0 {
        None
    } else {
        Some(i - 1)
    }
}

/// `a == b` on string contents.
pub fn str_eq(a: &str, b: &str) -> (r: bool)
    ensures
        r == (a@ == b@),
{
    let va = chars_of(a);
    let vb = chars_of(b);
    if va.len() != vb.len() {
        return false;
    }
    let mut i: usize = 0;
    while i < va.len()
        invariant
            va@ == a@,
            vb@ == b@,
            va.len() == vb.len(),
            i <= va.len(),
            forall|j: int| 0 <= j < i ==> va@[j] == vb@[j],
        decreases va.len() - i,
    {
        if va[i] != vb[i] {
            return false;
        }
        i = i + 1;
    }
    assert(va@ =~= vb@);
    true
}

/// `s.starts_with(p)` on string contents.
pub fn str_has_prefix(s: &str, p: &str) -> (r: bool)
    ensures
        r == has_prefix(s@, p@),
{
    let vs = chars_of(s);
    let vp = chars_of(p);
    if vp.len() > vs.len() {
        return false;
    }
    let mut i: usize = 0;
    while i < vp.len()
        invariant
            vs@ == s@,
            vp@ == p@,
            vp.len() <= vs.len(),
            i <= vp.len(),
            forall|j: int| 0 <= j < i ==> vs@[j] == vp@[j],
        decreases vp.len() - i,
    {
        if vs[i] != vp[i] {
            assert(s@.take(p@.len() as int)[i as int] != p@[i as int]);
            return false;
        }
        i = i + 1;
    }
    assert(s@.take(p@.len() as int) =~= p@);
    true
}

/// The string holding `v[lo..hi]`.
pub fn string_of_range(v: &Vec<char>, lo: usize, hi: usize) -> (r: String)
    requires
        lo <= hi <= v.len(),
    ensures
        r@ == v@.subrange(lo as int, hi as int),
{
    let mut out = String::new();
    let mut i: usize = lo;
    while i < hi
        invariant
            lo <= i <= hi <= v.len(),
            out@ == v@.subrange(lo as int, i as int),
        decreases hi - i,
    {
        out.push(v[i]);
        assert(v@.subrange(lo as int, i + 1) =~= v@.subrange(lo as int, i as int).push(v@[i as int]));
        i = i + 1;
    }
    out
}

/// `s` ends with `c`.
pub fn ends_with_char(s: &str, c: char) -> (r: bool)
    ensures
        r == (s@.len() > 0 && s@.last() == c),
{
    let v = chars_of(s);
    v.len() > 0 && v[v.len() - 1] == c
}

/// A fresh `String` with the contents of `s`.
pub fn owned(s: &str) -> (r: String)
    ensures
        r@ == s@,
{
    String::from_str(s)
}

/// `a` followed by `b`.
pub fn concat2(a: &str, b: &str) -> (r: String)
    ensures
        r@ == a@ + b@,
{
    let mut r = String::from_str(a);
    r.append(b);
    r
}

/// `a`, `b` and `c` in a row.
pub fn concat3(a: &str, b: &str, c: &str) -> (r: String)
    ensures
        r@ == a@ + b@ + c@,
{
    let mut r = String::from_str(a);
    r.append(b);
    r.append(c);
    r
}

/// The ASCII lower-case form of one character.
pub fn lower_char(c: char) -> (r: char)
    ensures
        r == ascii_lower(c),
{
    if 'A' <= c && c <= 'Z' {
        let n: u32 = c as u32;
        let b: u8 = (n + 32) as u8;
        b as char
    } else {
        c
    }
}

/// `s.to_ascii_lowercase()`.
pub fn to_ascii_lowercase(s: &str) -> (r: String)
    ensures
        r@ == ascii_lower_seq(s@),
{
    let v = chars_of(s);
    let mut out = String::new();
    let mut i: usize = 0;
    while i < v.len()
        invariant
            v@ == s@,
            i <= v.len(),
            out@ == ascii_lower_seq(v@.take(i as int)),
        decreases v.len() - i,
    {
        let l = lower_char(v[i]);
        out.push(l);
        assert(ascii_lower_seq(v@.take(i + 1)) =~= ascii_lower_seq(v@.take(i as int)).push(l));
        i = i + 1;
    }
    assert(v@.take(v.len() as int) =~= v@);
    out
}

/// The hexadecimal digit for `d`.
pub fn hex_digit(d: u32, upper: bool) -> (r: char)
    requires
        d < 16,
    ensures
        r == hex_char(d as nat, upper),
{
    if d < 10 {
        ((d + 48) as u8) as char
    } else if upper {
        ((d + 55) as u8) as char
    } else {
        ((d + 87) as u8) as char
    }
}

/// Appends `n` in hexadecimal without leading zeros.
pub fn push_hex(out: &mut String, n: u32, upper: bool)
    ensures
        final(out)@ == old(out)@ + hex_digits(n as nat, upper),
    decreases n,
{
    if n >= 16 {
        push_hex(out, n / 16, upper);
    }
    let d = hex_digit(n % 16, upper);
    out.push(d);
}

/// Appends the last `width` lower-case hexadecimal digits of `n`.
pub fn push_hex_fixed(out: &mut String, n: u64, width: u32)
    ensures
        final(out)@ == old(out)@ + hex_fixed(n as nat, width as nat),
    decreases width,
{
    if width > 0 {
        push_hex_fixed(out, n / 16, width - 1);
        let d = hex_digit((n % 16) as u32, false);
        out.push(d);
    }
}

/// Appends `n` in decimal.
pub fn push_decimal(out: &mut String, n: u64)
    ensures
        final(out)@ == old(out)@ + dec_digits(n as nat),
    decreases n,
{
    if n >= 10 {
        push_decimal(out, n / 10);
    }
    let d: u8 = (n % 10) as u8;
    out.push((d + 48) as char);
}

} // verus!
