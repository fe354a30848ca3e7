//! Building OPDS feeds from OpenList listings: the catalog root, directory
//! listings and search results, and the path and URL helpers they rest on.

use std::collections::hash_map::DefaultHasher;
use std::hash::Hasher;
use vstd::prelude::*;
use vstd::std_specs::hash::DefaultHasherAdditionalSpecFns;
use crate::clock::{now_rfc3339, rfc3339_shaped};
use crate::error::AppError;
use crate::opds::entry::{
    mime_for_ext, plain_link, spec_mime_for_ext, Entry, EntryView, Feed, FeedView, Link, LinkView,
    links_view, REL_ACQUISITION, REL_THUMBNAIL, TYPE_ACQUISITION, TYPE_NAVIGATION,
};
use crate::openlist::types::{objects_view, FsObject, FsObjectView};
use crate::text::{
    chars_of, concat2, concat3, is_hex_digit, lemma_hex_char_is_digit, lemma_hex_digits_shape,
    lemma_hex_fixed_shape, ends_with_char, hex_char, hex_digits, hex_fixed, has_prefix,
    last_index_of, lemma_last_index_facts, owned, push_hex, push_hex_fixed, rfind_char, str_eq,
    str_has_prefix, trim, trim_end, trim_end_matches, trim_matches, trim_start,
    trim_start_matches,
};

verus! {

// ── Stable identifiers ─────────────────────────────────────────────────────

/// The writes that `<str as Hash>::hash` makes on a hasher for text `s`.
pub uninterp spec fn str_hash_writes(s: Seq<char>) -> Seq<Seq<u8>>;

/// Calls `<str as std::hash::Hash>::hash`, feeding `s` to the hasher. The writes it makes
/// depend on the text alone; they are named by `str_hash_writes`, not spelled out.
#[verifier::external_body]
fn hash_str_into(s: &str, h: &mut DefaultHasher)
    ensures
        final(h)@ == old(h)@ + str_hash_writes(s@),
{
    std::hash::Hash::hash(s, h)
}

/// The default hasher's 64-bit digest of `s`.
pub open spec fn spec_str_digest(s: Seq<char>) -> u64 {
    DefaultHasher::spec_finish(str_hash_writes(s))
}

/// Sixteen lower-case hexadecimal digits of the digest of `s`.
pub open spec fn spec_stable_id(s: Seq<char>) -> Seq<char> {
    hex_fixed(spec_str_digest(s) as nat, 16)
}

/// A stable identifier is always sixteen lower-case hexadecimal digits, and equal texts
/// get equal identifiers.
pub proof fn law_stable_id_shape(s: Seq<char>, t: Seq<char>)
    ensures
        spec_stable_id(s).len() == 16,
        forall|i: int| 0 <= i < 16 ==> is_hex_digit(#[trigger] spec_stable_id(s)[i], false),
        s == t ==> spec_stable_id(s) == spec_stable_id(t),
{
    lemma_hex_fixed_shape(spec_str_digest(s) as nat, 16);
}

/// 16 to the power `w`.
pub open spec fn pow16(w: nat) -> nat
    decreases w,
{
    if w == 0 {
        1
    } else {
        16 * pow16((w - 1) as nat)
    }
}

proof fn lemma_hex_char_lower_injective(d: nat, e: nat)
    requires
        d < 16,
        e < 16,
        hex_char(d, false) == hex_char(e, false),
    ensures
        d == e,
{
    assert(hex_char(d, false) as u32 == if d < 10 { d + 48 } else { d + 87 });
    assert(hex_char(e, false) as u32 == if e < 10 { e + 48 } else { e + 87 });
}

/// Fixed-width hexadecimal tells numbers below `16^width` apart.
pub proof fn lemma_hex_fixed_injective(n: nat, m: nat, width: nat)
    requires
        n < pow16(width),
        m < pow16(width),
        hex_fixed(n, width) == hex_fixed(m, width),
    ensures
        n == m,
    decreases width,
{
    if width > 0 {
        let a = hex_fixed(n, width);
        let b = hex_fixed(m, width);
        lemma_hex_fixed_shape(n / 16, (width - 1) as nat);
        lemma_hex_fixed_shape(m / 16, (width - 1) as nat);
        assert(a.last() == hex_char(n % 16, false));
        assert(b.last() == hex_char(m % 16, false));
        lemma_hex_char_lower_injective(n % 16, m % 16);
        assert(a.drop_last() =~= hex_fixed(n / 16, (width - 1) as nat));
        assert(b.drop_last() =~= hex_fixed(m / 16, (width - 1) as nat));
        lemma_hex_fixed_injective(n / 16, m / 16, (width - 1) as nat);
    } else {
        assert(n == 0 && m == 0);
    }
}

/// Two texts get the same stable identifier exactly when the default hasher gives their
/// whole texts the same digest: the identifier keeps all 64 bits of the digest of the
/// entire text.
pub proof fn law_stable_id_is_whole_text_digest(s: Seq<char>, t: Seq<char>)
    ensures
        (spec_stable_id(s) == spec_stable_id(t)) <==> (DefaultHasher::spec_finish(str_hash_writes(s))
            == DefaultHasher::spec_finish(str_hash_writes(t))),
{
    let n = DefaultHasher::spec_finish(str_hash_writes(s)) as nat;
    let m = DefaultHasher::spec_finish(str_hash_writes(t)) as nat;
    reveal_with_fuel(pow16, 17);
    assert(pow16(16) == 0x1_0000_0000_0000_0000nat);
    if spec_stable_id(s) == spec_stable_id(t) {
        lemma_hex_fixed_injective(n, m, 16);
    }
}

/// A stable identifier for `s`: the default hasher's digest in sixteen hexadecimal digits.
pub fn stable_id(s: &str) -> (r: String)
    ensures
        r@ == spec_stable_id(s@),
{
    let mut h = DefaultHasher::new();
    hash_str_into(s, &mut h);
    assert(h@ =~= str_hash_writes(s@));
    let digest = h.finish();
    let mut out = String::new();
    push_hex_fixed(&mut out, digest, 16);
    assert(out@ =~= spec_stable_id(s@));
    out
}

// ── Path helpers ───────────────────────────────────────────────────────────

/// The parent of a route: `/` when the only slash leads, the text before the last slash,
/// or nothing when there is none. Trailing slashes are ignored.
pub open spec fn spec_parent_of(path: Seq<char>) -> Seq<char> {
    let t = trim_end(path, '/');
    let i = last_index_of(t, '/');
    if i == 0 {
        "/"@
    } else if i > 0 {
        t.take(i)
    } else {
        seq![]
    }
}

/// The last non-empty segment of a path, ignoring trailing slashes.
pub open spec fn spec_last_segment(path: Seq<char>) -> Option<Seq<char>> {
    let t = trim_end(path, '/');
    let seg = t.skip(last_index_of(t, '/') + 1);
    if seg.len() == 0 {
        None
    } else {
        Some(seg)
    }
}

/// The catalog's browse URL for a route.
pub open spec fn spec_browse_url(base_url: Seq<char>, route_path: Seq<char>) -> Seq<char> {
    let r = trim(route_path, '/');
    if r.len() == 0 {
        base_url + "/opds/browse/"@
    } else {
        base_url + "/opds/browse/"@ + r
    }
}

/// A child's route: both parts without surrounding slashes, joined by one slash.
pub open spec fn spec_join_route_path(route_path: Seq<char>, name: Seq<char>) -> Seq<char> {
    let r = trim(route_path, '/');
    let n = trim(name, '/');
    if r.len() == 0 {
        n
    } else {
        r + "/"@ + n
    }
}

/// An absolute path with exactly one leading slash and no trailing slash (`/` for the root).
pub open spec fn spec_normalize_abs_path(path: Seq<char>) -> Seq<char> {
    let t = trim(path, '/');
    if t.len() == 0 {
        "/"@
    } else {
        "/"@ + t
    }
}

/// The catalog route of an OpenList directory, relative to the exposed root.
pub open spec fn spec_route_path_for_openlist_dir(dir_path: Seq<char>, root_path: Seq<char>) -> Seq<
    char,
> {
    let root = spec_normalize_abs_path(root_path);
    let dir = spec_normalize_abs_path(dir_path);
    if root == "/"@ {
        trim_start(dir, '/')
    } else if dir == root {
        seq![]
    } else if has_prefix(dir, root + "/"@) {
        trim(dir.skip(root.len() + 1int), '/')
    } else {
        trim(dir, '/')
    }
}

/// The parent of a route.
pub fn parent_of(path: &str) -> (r: &str)
    ensures
        r@ == spec_parent_of(path@),
{
    let trimmed = trim_end_matches(path, '/');
    let v = chars_of(trimmed);
    proof {
        lemma_last_index_facts(v@, '/');
    }
    match rfind_char(&v, '/') {
        Some(idx) => {
            if idx == 0 {
                "/"
            } else {
                let r = trimmed.substring_char(0, idx);
                assert(r@ =~= v@.take(idx as int));
                r
            }
        },
        None => {
            proof {
                reveal_strlit("");
            }
            ""
        },
    }
}

/// The last non-empty segment of a path.
pub fn last_segment(path: &str) -> (r: Option<&str>)
    ensures
        r.deep_view() == spec_last_segment(path@),
{
    let trimmed = trim_end_matches(path, '/');
    let v = chars_of(trimmed);
    proof {
        lemma_last_index_facts(v@, '/');
    }
    let start: usize = match rfind_char(&v, '/') {
        Some(i) => {
            assert(i < v.len());
            i + 1
        },
        None => 0,
    };
    let seg = trimmed.substring_char(start, v.len());
    assert(seg@ =~= v@.skip(start as int));
    if seg.is_empty() {
        None
    } else {
        Some(seg)
    }
}

/// The browse URL for a route.
pub fn browse_url(base_url: &str, route_path: &str) -> (r: String)
    ensures
        r@ == spec_browse_url(base_url@, route_path@),
{
    let route_path = trim_matches(route_path, '/');
    if route_path.is_empty() {
        concat2(base_url, "/opds/browse/")
    } else {
        concat3(base_url, "/opds/browse/", route_path)
    }
}

/// A child's route within `route_path`.
pub fn join_route_path(route_path: &str, name: &str) -> (r: String)
    ensures
        r@ == spec_join_route_path(route_path@, name@),
{
    let route_path = trim_matches(route_path, '/');
    let name = trim_matches(name, '/');
    if route_path.is_empty() {
        owned(name)
    } else {
        concat3(route_path, "/", name)
    }
}

/// The catalog route of an OpenList directory.
pub fn route_path_for_openlist_dir(dir_path: &str, root_path: &str) -> (r: String)
    ensures
        r@ == spec_route_path_for_openlist_dir(dir_path@, root_path@),
{
    let root = normalize_abs_path(root_path);
    let dir = normalize_abs_path(dir_path);
    if str_eq(root.as_str(), "/") {
        return owned(trim_start_matches(dir.as_str(), '/'));
    }
    if str_eq(dir.as_str(), root.as_str()) {
        String::new()
    } else {
        let prefix = concat2(root.as_str(), "/");
        if str_has_prefix(dir.as_str(), prefix.as_str()) {
            proof {
                reveal_strlit("/");
            }
            let n = dir.as_str().unicode_len();
            let child = dir.as_str().substring_char(prefix.as_str().unicode_len(), n);
            assert(child@ =~= dir@.skip(root@.len() + 1int));
            owned(trim_matches(child, '/'))
        } else {
            owned(trim_matches(dir.as_str(), '/'))
        }
    }
}

/// `path` as an absolute path.
pub fn normalize_abs_path(path: &str) -> (r: String)
    ensures
        r@ == spec_normalize_abs_path(path@),
{
    let trimmed = trim_matches(path, '/');
    if trimmed.is_empty() {
        owned("/")
    } else {
        concat2("/", trimmed)
    }
}

// ── URL encoding ───────────────────────────────────────────────────────────

/// Characters left as they are in a URL query: ASCII letters and digits, `-`, `_`, `.`, `~`.
pub open spec fn is_unreserved(c: char) -> bool {
    ||| ('0' <= c && c <= '9')
    ||| ('A' <= c && c <= 'Z')
    ||| ('a' <= c && c <= 'z')
    ||| c == '-'
    ||| c == '_'
    ||| c == '.'
    ||| c == '~'
}

/// Upper-case hexadecimal of `n`, at least two digits.
pub open spec fn hex_min2(n: nat) -> Seq<char> {
    if n < 16 {
        seq!['0', hex_char(n, true)]
    } else {
        hex_digits(n, true)
    }
}

/// One character in a URL query: itself when unreserved, else `%` and its code point in hex.
pub open spec fn url_char(c: char) -> Seq<char> {
    if is_unreserved(c) {
        seq![c]
    } else {
        seq!['%'] + hex_min2((c as u32) as nat)
    }
}

/// `s` encoded for a URL query, character by character.
pub open spec fn url_encode(s: Seq<char>) -> Seq<char>
    decreases s.len(),
{
    if s.len() == 0 {
        seq![]
    } else {
        url_encode(s.drop_last()) + url_char(s.last())
    }
}

/// A character that may stand in an encoded URL query: unreserved, `%`, or an upper-case
/// hexadecimal digit.
pub open spec fn is_url_safe(c: char) -> bool {
    is_unreserved(c) || c == '%' || is_hex_digit(c, true)
}

/// Encoding leaves only URL-safe characters, and leaves text made of unreserved characters
/// as it is.
pub proof fn law_url_encode_safe(s: Seq<char>)
    ensures
        forall|i: int| 0 <= i < url_encode(s).len() ==> is_url_safe(#[trigger] url_encode(s)[i]),
        (forall|i: int| 0 <= i < s.len() ==> is_unreserved(#[trigger] s[i])) ==> url_encode(s)
            == s,
    decreases s.len(),
{
    if s.len() > 0 {
        let c = s.last();
        law_url_encode_safe(s.drop_last());
        let a = url_encode(s.drop_last());
        let b = url_char(c);
        let n = (c as u32) as nat;
        lemma_hex_digits_shape(n, true);
        lemma_hex_char_is_digit(n % 16, true);
        assert forall|i: int| 0 <= i < url_encode(s).len() implies is_url_safe(
            #[trigger] url_encode(s)[i],
        ) by {
            if i < a.len() {
                assert(url_encode(s)[i] == a[i]);
            } else {
                let k = i - a.len();
                assert(url_encode(s)[i] == b[k]);
                if !is_unreserved(c) && k > 0 {
                    assert(b[k] == hex_min2(n)[k - 1]);
                    if n < 16 {
                        lemma_hex_char_is_digit(n, true);
                    }
                }
            }
        }
        if forall|i: int| 0 <= i < s.len() ==> is_unreserved(#[trigger] s[i]) {
            assert(is_unreserved(s[s.len() - 1]));
            assert forall|i: int| 0 <= i < s.drop_last().len() implies is_unreserved(
                #[trigger] s.drop_last()[i],
            ) by {
                assert(s.drop_last()[i] == s[i]);
            }
            assert(s.drop_last() + seq![c] =~= s);
        }
    } else {
        assert(url_encode(s) =~= s);
    }
}

/// The value of a hexadecimal digit, or -1.
pub open spec fn hex_value(c: char) -> int {
    if '0' <= c && c <= '9' {
        (c as u32) - 48
    } else if 'A' <= c && c <= 'F' {
        (c as u32) - 55
    } else if 'a' <= c && c <= 'f' {
        (c as u32) - 87
    } else {
        -1
    }
}

/// An encoded URL query back to its characters: `%` and two hexadecimal digits stand for
/// the character with that code; everything else stands for itself.
pub open spec fn url_decode(s: Seq<char>) -> Seq<char>
    decreases s.len(),
{
    if s.len() == 0 {
        seq![]
    } else if s.len() >= 3 && s[0] == '%' && hex_value(s[1]) >= 0 && hex_value(s[2]) >= 0 {
        seq![((16 * hex_value(s[1]) + hex_value(s[2])) as u32) as char] + url_decode(s.skip(3))
    } else {
        seq![s[0]] + url_decode(s.drop_first())
    }
}

/// Encoding a concatenation encodes each part.
pub proof fn lemma_url_encode_concat(a: Seq<char>, b: Seq<char>)
    ensures
        url_encode(a + b) == url_encode(a) + url_encode(b),
    decreases b.len(),
{
    if b.len() == 0 {
        assert(a + b =~= a);
        assert(url_encode(a) + url_encode(b) =~= url_encode(a));
    } else {
        lemma_url_encode_concat(a, b.drop_last());
        assert((a + b).drop_last() =~= a + b.drop_last());
        assert(url_encode(a) + url_encode(b.drop_last()) + url_char(b.last()) =~= url_encode(a)
            + url_encode(b));
    }
}

proof fn lemma_decode_after_url_char(c: char, rest: Seq<char>)
    requires
        (c as u32) < 256,
    ensures
        url_decode(url_char(c) + rest) == seq![c] + url_decode(rest),
{
    let s = url_char(c) + rest;
    let n = (c as u32) as nat;
    if is_unreserved(c) {
        assert(s[0] == c);
        assert(s.drop_first() =~= rest);
    } else {
        if n < 16 {
            assert(hex_value(hex_char(n, true)) == n);
            assert(s[1] == '0');
            assert(s[2] == hex_char(n, true));
        } else {
            assert(n / 16 < 16);
            assert(hex_digits(n / 16, true) =~= seq![hex_char(n / 16, true)]);
            assert(hex_digits(n, true) =~= seq![hex_char(n / 16, true), hex_char(n % 16, true)]);
            assert(hex_value(hex_char(n / 16, true)) == n / 16);
            assert(hex_value(hex_char(n % 16, true)) == n % 16);
            assert(16 * (n / 16) + n % 16 == n);
            assert(s[1] == hex_char(n / 16, true));
            assert(s[2] == hex_char(n % 16, true));
        }
        assert(s.skip(3) =~= rest);
        assert(((n as u32) as char) == c);
    }
}

/// Encoding loses nothing for text whose characters are all below U+0100: decoding the
/// encoded text gives it back. (Above that, codes of different widths can collide:
/// U+00E2 followed by `D` and U+0E2D both encode to `%E2D`.)
pub proof fn law_url_encode_roundtrip(s: Seq<char>)
    requires
        forall|i: int| 0 <= i < s.len() ==> (#[trigger] s[i] as u32) < 256,
    ensures
        url_decode(url_encode(s)) == s,
    decreases s.len(),
{
    if s.len() == 0 {
        assert(url_encode(s) =~= Seq::<char>::empty());
    } else {
        let c = s[0];
        let rest = s.drop_first();
        assert forall|i: int| 0 <= i < rest.len() implies (#[trigger] rest[i] as u32) < 256 by {
            assert(rest[i] == s[i + 1]);
        }
        law_url_encode_roundtrip(rest);
        assert(s =~= seq![c] + rest);
        lemma_url_encode_concat(seq![c], rest);
        assert(seq![c].drop_last() =~= Seq::<char>::empty());
        assert(url_encode(Seq::<char>::empty()) == Seq::<char>::empty());
        assert(url_encode(seq![c]) =~= url_char(c));
        lemma_decode_after_url_char(c, url_encode(rest));
    }
}

fn unreserved(c: char) -> (r: bool)
    ensures
        r == is_unreserved(c),
{
    ('0' <= c && c <= '9') || ('A' <= c && c <= 'Z') || ('a' <= c && c <= 'z') || c == '-'
        || c == '_' || c == '.' || c == '~'
}

/// `s` encoded for a URL query: unreserved characters kept, every other one written as `%`
/// and its code point in upper-case hexadecimal, at least two digits.
pub fn urlencoded(s: &str) -> (r: String)
    ensures
        r@ == url_encode(s@),
{
    let v = chars_of(s);
    let mut out = String::new();
    let mut i: usize = 0;
    while i < v.len()
        invariant
            v@ == s@,
            i <= v.len(),
            out@ == url_encode(v@.take(i as int)),
        decreases v.len() - i,
    {
        let c = v[i];
        let ghost before = out@;
        if unreserved(c) {
            out.push(c);
            assert(out@ =~= before + url_char(c));
        } else {
            out.push('%');
            let n: u32 = c as u32;
            assert(n as nat == (c as u32) as nat);
            if n < 16 {
                out.push('0');
                let d = crate::text::hex_digit(n, true);
                out.push(d);
                assert(out@ =~= before + url_char(c));
            } else {
                let ghost mid = out@;
                push_hex(&mut out, n, true);
                assert(out@ =~= mid + hex_digits(n as nat, true));
                assert(out@ =~= before + url_char(c));
            }
        }
        assert(v@.take(i + 1).drop_last() =~= v@.take(i as int));
        i = i + 1;
    }
    assert(v@.take(v.len() as int) =~= v@);
    out
}

// ── Entries ────────────────────────────────────────────────────────────────

/// The OpenList path of an object listed in directory `dir_path`.
pub open spec fn spec_full_path(dir_path: Seq<char>, name: Seq<char>) -> Seq<char> {
    if dir_path.len() > 0 && dir_path.last() == '/' {
        dir_path + name
    } else {
        dir_path + "/"@ + name
    }
}

/// Where a file is downloaded from: the catalog's proxy route when the proxy is enabled or
/// OpenList gave no direct URL, else OpenList's direct URL.
pub open spec fn spec_download_url(
    base_url: Seq<char>,
    entry_route: Seq<char>,
    raw_url: Seq<char>,
    proxy_enabled: bool,
) -> Seq<char> {
    if proxy_enabled || raw_url.len() == 0 {
        base_url + "/opds/raw/"@ + entry_route
    } else {
        raw_url
    }
}

/// The links of a file entry: the acquisition link, then the thumbnail when there is one.
pub open spec fn file_links(
    base_url: Seq<char>,
    entry_route: Seq<char>,
    obj: FsObjectView,
    proxy_enabled: bool,
) -> Seq<LinkView> {
    let acq = LinkView {
        rel: REL_ACQUISITION@,
        href: spec_download_url(base_url, entry_route, obj.raw_url, proxy_enabled),
        mime_type: spec_mime_for_ext(obj.name),
        title: None,
        length: Some(obj.size),
    };
    if obj.thumb.len() > 0 {
        seq![acq, plain_link(REL_THUMBNAIL@, obj.thumb, "image/jpeg"@)]
    } else {
        seq![acq]
    }
}

/// The entry for `obj` listed in `dir_path` at route `route_path`; `now` is its timestamp
/// when OpenList gave none.
pub open spec fn spec_entry(
    base_url: Seq<char>,
    dir_path: Seq<char>,
    route_path: Seq<char>,
    obj: FsObjectView,
    proxy_enabled: bool,
    now: Seq<char>,
) -> EntryView {
    let full_path = spec_full_path(dir_path, obj.name);
    let entry_route = spec_join_route_path(route_path, obj.name);
    let id = "urn:oplist-opds:"@ + spec_stable_id(full_path);
    let updated = match obj.modified {
        Some(m) => m,
        None => now,
    };
    if obj.is_dir {
        EntryView {
            id,
            title: obj.name,
            updated,
            links: seq![
                plain_link("subsection"@, spec_browse_url(base_url, entry_route), TYPE_NAVIGATION@),
            ],
            summary: None,
        }
    } else {
        EntryView {
            id,
            title: obj.name,
            updated,
            links: file_links(base_url, entry_route, obj, proxy_enabled),
            summary: None,
        }
    }
}

/// With the proxy enabled, a file's download link is always the catalog's own proxy route,
/// never OpenList's direct URL, so the OpenList token stays out of the reader's hands.
pub proof fn law_proxy_keeps_downloads_in_catalog(
    base_url: Seq<char>,
    dir_path: Seq<char>,
    route_path: Seq<char>,
    obj: FsObjectView,
    now: Seq<char>,
)
    requires
        !obj.is_dir,
    ensures
        spec_entry(base_url, dir_path, route_path, obj, true, now).links[0].rel == REL_ACQUISITION@,
        spec_entry(base_url, dir_path, route_path, obj, true, now).links[0].href == base_url
            + "/opds/raw/"@ + spec_join_route_path(route_path, obj.name),
{
}

/// Two entries get the same id exactly when the default hasher gives their full OpenList
/// paths (directory and name) the same digest; an entry's id is `urn:oplist-opds:` followed
/// by sixteen hexadecimal digits of that digest.
pub proof fn law_entry_ids_follow_full_paths(
    e1: EntryView,
    base1: Seq<char>,
    dir1: Seq<char>,
    route1: Seq<char>,
    obj1: FsObjectView,
    proxy1: bool,
    e2: EntryView,
    base2: Seq<char>,
    dir2: Seq<char>,
    route2: Seq<char>,
    obj2: FsObjectView,
    proxy2: bool,
)
    requires
        entry_for(e1, base1, dir1, route1, obj1, proxy1),
        entry_for(e2, base2, dir2, route2, obj2, proxy2),
    ensures
        (e1.id == e2.id) <==> (DefaultHasher::spec_finish(
            str_hash_writes(spec_full_path(dir1, obj1.name)),
        ) == DefaultHasher::spec_finish(str_hash_writes(spec_full_path(dir2, obj2.name)))),
        e1.id.len() == "urn:oplist-opds:"@.len() + 16,
{
    let p1 = spec_full_path(dir1, obj1.name);
    let p2 = spec_full_path(dir2, obj2.name);
    law_stable_id_is_whole_text_digest(p1, p2);
    law_stable_id_shape(p1, p2);
    let pre = "urn:oplist-opds:"@;
    assert(e1.id == pre + spec_stable_id(p1));
    assert(e2.id == pre + spec_stable_id(p2));
    if e1.id == e2.id {
        assert(spec_stable_id(p1) =~= e1.id.skip(pre.len() as int));
        assert(spec_stable_id(p2) =~= e2.id.skip(pre.len() as int));
    }
}

/// A file entry's media type comes from the file's name alone: entries for two files with
/// the same name carry the same type, whatever their download URLs, directories, routes or
/// proxy settings, and it is the type of the name's extension.
pub proof fn law_file_type_from_name(
    e1: EntryView,
    base1: Seq<char>,
    dir1: Seq<char>,
    route1: Seq<char>,
    obj1: FsObjectView,
    proxy1: bool,
    e2: EntryView,
    base2: Seq<char>,
    dir2: Seq<char>,
    route2: Seq<char>,
    obj2: FsObjectView,
    proxy2: bool,
)
    requires
        entry_for(e1, base1, dir1, route1, obj1, proxy1),
        entry_for(e2, base2, dir2, route2, obj2, proxy2),
        !obj1.is_dir,
        !obj2.is_dir,
        obj1.name == obj2.name,
    ensures
        e1.links[0].rel == REL_ACQUISITION@,
        e1.links[0].mime_type == e2.links[0].mime_type,
        e1.links[0].mime_type == spec_mime_for_ext(obj1.name),
{
}

/// What an entry built for `obj` holds, whatever the clock gave for an undated object.
pub open spec fn entry_for(
    e: EntryView,
    base_url: Seq<char>,
    dir_path: Seq<char>,
    route_path: Seq<char>,
    obj: FsObjectView,
    proxy_enabled: bool,
) -> bool {
    &&& e == spec_entry(base_url, dir_path, route_path, obj, proxy_enabled, e.updated)
    &&& obj.modified is None ==> rfc3339_shaped(e.updated)
}

/// The entry for one OpenList object: directories link to their browse route, files to
/// their download with type and length, and a thumbnail when OpenList has one. An object
/// without a timestamp is stamped with the current time.
pub fn fs_object_to_entry(
    base_url: &str,
    dir_path: &str,
    route_path: &str,
    obj: FsObject,
    proxy_enabled: bool,
) -> (r: Result<Entry, AppError>)
    ensures
        obj.modified is Some ==> r is Ok,
        r matches Ok(e) ==> entry_for(e@, base_url@, dir_path@, route_path@, obj@, proxy_enabled),
        r matches Err(e) ==> obj.modified is None && e is Internal,
{
    let ghost o = obj@;
    let full_path = if ends_with_char(dir_path, '/') {
        concat2(dir_path, obj.name.as_str())
    } else {
        concat3(dir_path, "/", obj.name.as_str())
    };
    let entry_route_path = join_route_path(route_path, obj.name.as_str());
    let id = concat2("urn:oplist-opds:", stable_id(full_path.as_str()).as_str());
    let updated = match obj.modified {
        Some(m) => m,
        None => match now_rfc3339() {
            Ok(t) => t,
            Err(e) => return Err(e),
        },
    };

    if obj.is_dir {
        let browse = browse_url(base_url, entry_route_path.as_str());
        let mut links: Vec<Link> = Vec::new();
        links.push(Link::new("subsection", browse.as_str(), TYPE_NAVIGATION));
        let e = Entry { id, title: obj.name, updated, links, summary: None };
        assert(e@.links =~= spec_entry(base_url@, dir_path@, route_path@, o, proxy_enabled, e@.updated).links);
        Ok(e)
    } else {
        let download_url = if proxy_enabled || obj.raw_url.as_str().is_empty() {
            concat3(base_url, "/opds/raw/", entry_route_path.as_str())
        } else {
            obj.raw_url
        };
        let mime = mime_for_ext(obj.name.as_str());
        let mut links: Vec<Link> = Vec::new();
        links.push(Link::new(REL_ACQUISITION, download_url.as_str(), mime).with_length(obj.size));
        if !obj.thumb.as_str().is_empty() {
            links.push(Link::new(REL_THUMBNAIL, obj.thumb.as_str(), "image/jpeg"));
        }
        let e = Entry { id, title: obj.name, updated, links, summary: None };
        assert(e@.links =~= spec_entry(base_url@, dir_path@, route_path@, o, proxy_enabled, e@.updated).links);
        Ok(e)
    }
}

// ── Feeds ──────────────────────────────────────────────────────────────────

/// Some listed object is a file.
pub open spec fn has_files(objs: Seq<FsObjectView>) -> bool {
    exists|i: int| 0 <= i < objs.len() && !objs[i].is_dir
}

/// Every listed object carries its own timestamp.
pub open spec fn all_dated(objs: Seq<FsObjectView>) -> bool {
    forall|i: int| 0 <= i < objs.len() ==> objs[i].modified is Some
}

/// The feed type per OPDS 1.2 §2.3: acquisition when some object is a file, else navigation.
pub open spec fn spec_feed_type(objs: Seq<FsObjectView>) -> Seq<char> {
    if has_files(objs) {
        TYPE_ACQUISITION@
    } else {
        TYPE_NAVIGATION@
    }
}

/// The catalog root URL.
pub open spec fn spec_root_url(base_url: Seq<char>) -> Seq<char> {
    base_url + "/opds"@
}

/// The feed-level links of a directory listing: `self`, `start`, and `up` when asked for.
pub open spec fn directory_links(
    base_url: Seq<char>,
    route_path: Seq<char>,
    self_url: Seq<char>,
    objs: Seq<FsObjectView>,
    include_up: bool,
) -> Seq<LinkView> {
    let feed_type = spec_feed_type(objs);
    let head = seq![
        plain_link("self"@, self_url, feed_type),
        plain_link("start"@, spec_root_url(base_url), TYPE_NAVIGATION@),
    ];
    if include_up {
        head.push(
            plain_link("up"@, spec_browse_url(base_url, spec_parent_of(route_path)), feed_type),
        )
    } else {
        head
    }
}

/// The entries of a directory listing, one per object in order.
pub open spec fn directory_entries(
    es: Seq<EntryView>,
    base_url: Seq<char>,
    dir_path: Seq<char>,
    route_path: Seq<char>,
    objs: Seq<FsObjectView>,
    proxy_enabled: bool,
) -> bool {
    &&& es.len() == objs.len()
    &&& forall|i: int|
        0 <= i < es.len() ==> #[trigger] entry_for(
            es[i],
            base_url,
            dir_path,
            route_path,
            objs[i],
            proxy_enabled,
        )
}

/// A directory-listing feed.
pub open spec fn is_directory_feed(
    f: FeedView,
    base_url: Seq<char>,
    title: Seq<char>,
    dir_path: Seq<char>,
    route_path: Seq<char>,
    self_url: Seq<char>,
    objs: Seq<FsObjectView>,
    updated: Seq<char>,
    proxy_enabled: bool,
    include_up: bool,
) -> bool {
    &&& f.id == "urn:oplist-opds:browse:"@ + spec_stable_id(dir_path)
    &&& f.title == title
    &&& f.updated == updated
    &&& f.links == directory_links(base_url, route_path, self_url, objs, include_up)
    &&& directory_entries(f.entries, base_url, dir_path, route_path, objs, proxy_enabled)
}

/// A directory feed is an acquisition feed exactly when some listed object is a file, and a
/// navigation feed exactly when every listed object is a directory, whatever their order.
pub proof fn law_feed_type_follows_files(
    f: FeedView,
    base_url: Seq<char>,
    title: Seq<char>,
    dir_path: Seq<char>,
    route_path: Seq<char>,
    self_url: Seq<char>,
    objs: Seq<FsObjectView>,
    updated: Seq<char>,
    proxy_enabled: bool,
    include_up: bool,
)
    requires
        is_directory_feed(
            f,
            base_url,
            title,
            dir_path,
            route_path,
            self_url,
            objs,
            updated,
            proxy_enabled,
            include_up,
        ),
    ensures
        f.links[0].rel == "self"@,
        (f.links[0].mime_type == TYPE_ACQUISITION@) <==> (exists|i: int|
            0 <= i < objs.len() && !(#[trigger] objs[i]).is_dir),
        (f.links[0].mime_type == TYPE_NAVIGATION@) <==> (forall|i: int|
            0 <= i < objs.len() ==> (#[trigger] objs[i]).is_dir),
{
    reveal_strlit("application/atom+xml;profile=opds-catalog;kind=acquisition");
    reveal_strlit("application/atom+xml;profile=opds-catalog;kind=navigation");
    assert(TYPE_ACQUISITION@.len() != TYPE_NAVIGATION@.len());
    assert(f.links[0] == directory_links(base_url, route_path, self_url, objs, include_up)[0]);
}

/// Whether any object is a file.
fn any_file(objects: &Vec<FsObject>) -> (r: bool)
    ensures
        r == has_files(objects_view(objects@)),
{
    let mut i: usize = 0;
    while i < objects.len()
        invariant
            i <= objects.len(),
            forall|j: int| 0 <= j < i ==> objects@[j].is_dir,
        decreases objects.len() - i,
    {
        if !objects[i].is_dir {
            assert(!objects_view(objects@)[i as int].is_dir);
            return true;
        }
        i = i + 1;
    }
    assert forall|j: int| 0 <= j < objects.len() implies objects_view(objects@)[j].is_dir by {
        assert(objects@[j].is_dir);
    }
    false
}

/// The feed listing directory `dir_path` (catalog route `route_path`).
fn directory_feed(
    base_url: &str,
    title: &str,
    dir_path: &str,
    route_path: &str,
    self_url: &str,
    objects: Vec<FsObject>,
    updated: &str,
    proxy_enabled: bool,
    include_up: bool,
) -> (r: Result<Feed, AppError>)
    ensures
        all_dated(objects_view(objects@)) ==> r is Ok,
        r matches Ok(f) ==> is_directory_feed(
            f@,
            base_url@,
            title@,
            dir_path@,
            route_path@,
            self_url@,
            objects_view(objects@),
            updated@,
            proxy_enabled,
            include_up,
        ),
        r matches Err(e) ==> !all_dated(objects_view(objects@)) && e is Internal,
{
    let ghost objs = objects_view(objects@);
    let root_url = concat2(base_url, "/opds");
    let has_files = any_file(&objects);
    let feed_type = if has_files {
        TYPE_ACQUISITION
    } else {
        TYPE_NAVIGATION
    };

    let mut links: Vec<Link> = Vec::new();
    links.push(Link::new("self", self_url, feed_type));
    links.push(Link::new("start", root_url.as_str(), TYPE_NAVIGATION));
    if include_up {
        let up = browse_url(base_url, parent_of(route_path));
        links.push(Link::new("up", up.as_str(), feed_type));
    }
    assert(links_view(links@) =~= directory_links(
        base_url@,
        route_path@,
        self_url@,
        objs,
        include_up,
    ));

    let mut entries: Vec<Entry> = Vec::new();
    for obj in it: objects
        invariant
            it.seq() == objects@,
            objs == objects_view(objects@),
            entries.len() == it.index(),
            forall|i: int|
                0 <= i < entries.len() ==> #[trigger] entry_for(
                    entries@[i]@,
                    base_url@,
                    dir_path@,
                    route_path@,
                    objs[i],
                    proxy_enabled,
                ),
    {
        let ghost i = entries.len() as int;
        match fs_object_to_entry(base_url, dir_path, route_path, obj, proxy_enabled) {
            Ok(e) => {
                entries.push(e);
                assert(entries@[i] == e);
            },
            Err(e) => {
                assert(objs[i].modified is None);
                return Err(e);
            },
        }
    }

    let f = Feed {
        id: concat2("urn:oplist-opds:browse:", stable_id(dir_path).as_str()),
        title: owned(title),
        updated: owned(updated),
        links,
        entries,
    };
    assert(directory_entries(f@.entries, base_url@, dir_path@, route_path@, objs, proxy_enabled))
        by {
        assert forall|i: int| 0 <= i < f@.entries.len() implies #[trigger] entry_for(
            f@.entries[i],
            base_url@,
            dir_path@,
            route_path@,
            objs[i],
            proxy_enabled,
        ) by {
            assert(f@.entries[i] == f.entries@[i]@);
        }
    }
    Ok(f)
}

/// Build the OPDS catalog root as the configured OpenList root listing.
pub fn root_listing_feed(
    base_url: &str,
    title: &str,
    dir_path: &str,
    objects: Vec<FsObject>,
    updated: &str,
    proxy_enabled: bool,
) -> (r: Result<Feed, AppError>)
    ensures
        all_dated(objects_view(objects@)) ==> r is Ok,
        r matches Ok(f) ==> is_directory_feed(
            f@,
            base_url@,
            title@,
            dir_path@,
            seq![],
            spec_root_url(base_url@),
            objects_view(objects@),
            updated@,
            proxy_enabled,
            false,
        ),
        r matches Err(e) ==> !all_dated(objects_view(objects@)) && e is Internal,
{
    let self_url = concat2(base_url, "/opds");
    let r = directory_feed(
        base_url,
        title,
        dir_path,
        "",
        self_url.as_str(),
        objects,
        updated,
        proxy_enabled,
        false,
    );
    proof {
        reveal_strlit("");
        assert(""@ =~= Seq::<char>::empty());
    }
    r
}

/// The title of a directory's feed: its last path segment, or `Root`.
pub open spec fn spec_browse_title(dir_path: Seq<char>) -> Seq<char> {
    match spec_last_segment(dir_path) {
        Some(s) => s,
        None => "Root"@,
    }
}

/// Build a directory-listing feed from OpenList objects.
///
/// Directories become navigation entries (subsection links).
/// Files become acquisition entries.
/// The feed `type` is determined by the content mix per OPDS 1.2 §2.3.
pub fn browse_feed(
    base_url: &str,
    dir_path: &str,
    route_path: &str,
    objects: Vec<FsObject>,
    updated: &str,
    proxy_enabled: bool,
) -> (r: Result<Feed, AppError>)
    ensures
        all_dated(objects_view(objects@)) ==> r is Ok,
        r matches Ok(f) ==> is_directory_feed(
            f@,
            base_url@,
            spec_browse_title(dir_path@),
            dir_path@,
            route_path@,
            spec_browse_url(base_url@, route_path@),
            objects_view(objects@),
            updated@,
            proxy_enabled,
            trim(route_path@, '/').len() > 0,
        ),
        r matches Err(e) ==> !all_dated(objects_view(objects@)) && e is Internal,
{
    let self_url = browse_url(base_url, route_path);
    let title: &str = match last_segment(dir_path) {
        Some(s) => s,
        None => "Root",
    };
    let include_up = !trim_matches(route_path, '/').is_empty();
    directory_feed(
        base_url,
        title,
        dir_path,
        route_path,
        self_url.as_str(),
        objects,
        updated,
        proxy_enabled,
        include_up,
    )
}

/// The directory a search result is listed in: its parent, or `/`.
pub open spec fn search_dir(obj: FsObjectView) -> Seq<char> {
    match obj.parent {
        Some(p) => p,
        None => "/"@,
    }
}

/// A search-results feed.
pub open spec fn is_search_feed(
    f: FeedView,
    base_url: Seq<char>,
    root_path: Seq<char>,
    query: Seq<char>,
    objs: Seq<FsObjectView>,
    updated: Seq<char>,
    proxy_enabled: bool,
) -> bool {
    &&& f.id == "urn:oplist-opds:search:"@ + spec_stable_id(query)
    &&& f.title == "Search: "@ + query
    &&& f.updated == updated
    &&& f.links == seq![
        plain_link("self"@, base_url + "/opds/search?q="@ + url_encode(query), TYPE_ACQUISITION@),
        plain_link("start"@, spec_root_url(base_url), TYPE_NAVIGATION@),
    ]
    &&& f.entries.len() == objs.len()
    &&& forall|i: int|
        0 <= i < f.entries.len() ==> #[trigger] entry_for(
            f.entries[i],
            base_url,
            search_dir(objs[i]),
            spec_route_path_for_openlist_dir(search_dir(objs[i]), root_path),
            objs[i],
            proxy_enabled,
        )
}

/// Build a search-results acquisition feed. Each result is placed by its parent directory,
/// so its browse and download routes are those of that directory under the exposed root.
pub fn search_feed(
    base_url: &str,
    root_path: &str,
    query: &str,
    objects: Vec<FsObject>,
    updated: &str,
    proxy_enabled: bool,
) -> (r: Result<Feed, AppError>)
    ensures
        all_dated(objects_view(objects@)) ==> r is Ok,
        r matches Ok(f) ==> is_search_feed(
            f@,
            base_url@,
            root_path@,
            query@,
            objects_view(objects@),
            updated@,
            proxy_enabled,
        ),
        r matches Err(e) ==> !all_dated(objects_view(objects@)) && e is Internal,
{
    let ghost objs = objects_view(objects@);
    let self_url = concat3(base_url, "/opds/search?q=", urlencoded(query).as_str());
    let root_url = concat2(base_url, "/opds");

    let mut entries: Vec<Entry> = Vec::new();
    for obj in it: objects
        invariant
            it.seq() == objects@,
            objs == objects_view(objects@),
            entries.len() == it.index(),
            forall|i: int|
                0 <= i < entries.len() ==> #[trigger] entry_for(
                    entries@[i]@,
                    base_url@,
                    search_dir(objs[i]),
                    spec_route_path_for_openlist_dir(search_dir(objs[i]), root_path@),
                    objs[i],
                    proxy_enabled,
                ),
    {
        let ghost i = entries.len() as int;
        let dir_path: String = match &obj.parent {
            Some(p) => owned(p.as_str()),
            None => owned("/"),
        };
        let route_path = route_path_for_openlist_dir(dir_path.as_str(), root_path);
        match fs_object_to_entry(base_url, dir_path.as_str(), route_path.as_str(), obj, proxy_enabled) {
            Ok(e) => {
                entries.push(e);
                assert(entries@[i] == e);
            },
            Err(e) => {
                assert(objs[i].modified is None);
                return Err(e);
            },
        }
    }

    let mut links: Vec<Link> = Vec::new();
    links.push(Link::new("self", self_url.as_str(), TYPE_ACQUISITION));
    links.push(Link::new("start", root_url.as_str(), TYPE_NAVIGATION));
    let f = Feed {
        id: concat2("urn:oplist-opds:search:", stable_id(query).as_str()),
        title: concat2("Search: ", query),
        updated: owned(updated),
        links,
        entries,
    };
    assert(f@.links =~= seq![
        plain_link("self"@, base_url@ + "/opds/search?q="@ + url_encode(query@), TYPE_ACQUISITION@),
        plain_link("start"@, spec_root_url(base_url@), TYPE_NAVIGATION@),
    ]);
    assert forall|i: int| 0 <= i < f@.entries.len() implies #[trigger] entry_for(
        f@.entries[i],
        base_url@,
        search_dir(objs[i]),
        spec_route_path_for_openlist_dir(search_dir(objs[i]), root_path@),
        objs[i],
        proxy_enabled,
    ) by {
        assert(f@.entries[i] == f.entries@[i]@);
    }
    Ok(f)
}

} // verus!
