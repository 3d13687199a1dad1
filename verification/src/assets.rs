//! The asset store reader's decision logic: which file under the asset root a
//! request path maps to (rejecting traversal, substituting the index file for
//! directory paths), and which precompressed sibling to serve given the
//! client's `Accept-Encoding` list (zstd preferred over gzip, falling back to
//! the plain file).

use vstd::prelude::*;

verus! {

use crate::bytes::{first_at, lemma_first_at, find_byte, push_all, lower_byte, SLASH, COMMA, SEMI};

/// Byte value of `.`.
pub const DOT: u8 = 46;

/// Optional whitespace around an `Accept-Encoding` entry: space or tab.
pub open spec fn is_ows(b: u8) -> bool {
    b == 32 || b == 9
}

/// Index of the first byte at or after `from` that is not optional
/// whitespace, or `s.len()` if all remaining bytes are whitespace.
pub open spec fn skip_ows(s: Seq<u8>, from: int) -> int
    decreases s.len() - from,
{
    if from < 0 || from >= s.len() {
        s.len() as int
    } else if is_ows(s[from]) {
        skip_ows(s, from + 1)
    } else {
        from
    }
}

proof fn lemma_skip_ows_exact(s: Seq<u8>, from: int, i: int)
    requires
        0 <= from <= i <= s.len(),
        forall|j: int| from <= j < i ==> is_ows(s[j]),
        i == s.len() || !is_ows(s[i]),
    ensures
        skip_ows(s, from) == i,
    decreases i - from,
{
    if from < i {
        lemma_skip_ows_exact(s, from + 1, i);
    }
}

/// One past the last byte before `upto` that is not optional whitespace, or
/// `0` if all bytes before `upto` are whitespace.
pub open spec fn rskip_ows(s: Seq<u8>, upto: int) -> int
    decreases upto,
{
    if upto <= 0 || upto > s.len() {
        0
    } else if is_ows(s[upto - 1]) {
        rskip_ows(s, upto - 1)
    } else {
        upto
    }
}

proof fn lemma_rskip_ows_exact(s: Seq<u8>, upto: int, i: int)
    requires
        0 <= i <= upto <= s.len(),
        forall|j: int| i <= j < upto ==> is_ows(s[j]),
        i == 0 || !is_ows(s[i - 1]),
    ensures
        rskip_ows(s, upto) == i,
    decreases upto - i,
{
    if i < upto {
        lemma_rskip_ows_exact(s, upto - 1, i);
    }
}

/// `s` with surrounding optional whitespace trimmed.
pub open spec fn trimmed(s: Seq<u8>) -> Seq<u8> {
    let ts = skip_ows(s, 0);
    let te = rskip_ows(s, s.len() as int);
    if ts < te {
        s.subrange(ts, te)
    } else {
        Seq::empty()
    }
}

/// The content-coding token of one `Accept-Encoding` entry: everything before
/// the first `;`, with surrounding whitespace trimmed.
pub open spec fn entry_token(e: Seq<u8>) -> Seq<u8> {
    trimmed(e.subrange(0, first_at(e, 0, SEMI)))
}

/// The token equals `coding` up to ASCII case (`coding` is lowercase).
pub open spec fn token_matches(t: Seq<u8>, coding: Seq<u8>) -> bool {
    t.len() == coding.len() && forall|i: int| 0 <= i < t.len() ==> lower_byte(t[i]) == coding[i]
}

/// A trimmed parameter is a zero quality value: `q=0`, optionally followed
/// by a dot and up to three zeros (`q` case-insensitive). Such a parameter
/// withdraws its entry.
pub open spec fn is_qzero_param(t: Seq<u8>) -> bool {
    &&& 3 <= t.len() <= 7
    &&& lower_byte(t[0]) == 113
    &&& t[1] == 61
    &&& t[2] == 48
    &&& (t.len() == 3 || (t[3] == DOT && forall|i: int| 4 <= i < t.len() ==> t[i] == 48))
}

/// Some parameter of the `;`-separated list is a zero quality value.
pub open spec fn has_qzero(params: Seq<u8>) -> bool
    decreases params.len(),
    via has_qzero_dec
{
    let c = first_at(params, 0, SEMI);
    if is_qzero_param(trimmed(params.subrange(0, c))) {
        true
    } else if c < params.len() {
        has_qzero(params.subrange(c + 1, params.len() as int))
    } else {
        false
    }
}

#[via_fn]
proof fn has_qzero_dec(params: Seq<u8>) {
    lemma_first_at(params, 0, SEMI);
}

/// One `Accept-Encoding` entry makes `coding` acceptable: its token names
/// `coding` (case-insensitively) and no `q=0` parameter withdraws it. Other
/// parameters and non-zero quality values are ignored; a `*` wildcard entry
/// does not count as naming `coding`.
pub open spec fn entry_matches(e: Seq<u8>, coding: Seq<u8>) -> bool {
    let c = first_at(e, 0, SEMI);
    &&& token_matches(entry_token(e), coding)
    &&& !(c < e.len() && has_qzero(e.subrange(c + 1, e.len() as int)))
}

/// The comma-separated `Accept-Encoding` list contains an entry whose token
/// is `coding` and that is not withdrawn by a `q=0` parameter.
pub open spec fn accepts_coding(s: Seq<u8>, coding: Seq<u8>) -> bool
    decreases s.len(),
    via accepts_coding_dec
{
    let c = first_at(s, 0, COMMA);
    if entry_matches(s.subrange(0, c), coding) {
        true
    } else if c < s.len() {
        accepts_coding(s.subrange(c + 1, s.len() as int), coding)
    } else {
        false
    }
}

#[via_fn]
proof fn accepts_coding_dec(s: Seq<u8>, coding: Seq<u8>) {
    lemma_first_at(s, 0, COMMA);
}

/// Checks whether the `Accept-Encoding` list `ae` names `coding`.
pub fn accepts_encoding(ae: &[u8], coding: &[u8]) -> (r: bool)
    ensures
        r == accepts_coding(ae@, coding@),
    decreases ae@.len(),
{
    proof {
        lemma_first_at(ae@, 0, COMMA);
    }
    let c = find_byte(ae, 0, COMMA);
    let entry = vstd::slice::slice_subrange(ae, 0, c);
    if entry_matches_exec(entry, coding) {
        true
    } else if c < ae.len() {
        let rest = vstd::slice::slice_subrange(ae, c + 1, ae.len());
        accepts_encoding(rest, coding)
    } else {
        false
    }
}

/// Computes the bounds of `trimmed(s@)` within `s`.
fn trim_bounds(s: &[u8]) -> (r: (usize, usize))
    ensures
        r.0 <= s@.len(),
        r.1 <= s@.len(),
        r.0 == skip_ows(s@, 0),
        r.1 == rskip_ows(s@, s@.len() as int),
        r.0 < r.1 ==> trimmed(s@) == s@.subrange(r.0 as int, r.1 as int),
        r.0 >= r.1 ==> trimmed(s@) == Seq::<u8>::empty(),
{
    let mut ts: usize = 0;
    while ts < s.len() && (s[ts] == 32 || s[ts] == 9)
        invariant
            ts <= s@.len(),
            forall|j: int| 0 <= j < ts ==> is_ows(s@[j]),
        decreases s@.len() - ts,
    {
        ts = ts + 1;
    }
    proof {
        lemma_skip_ows_exact(s@, 0, ts as int);
    }
    let mut te: usize = s.len();
    while te > 0 && (s[te - 1] == 32 || s[te - 1] == 9)
        invariant
            te <= s@.len(),
            forall|j: int| te <= j < s@.len() ==> is_ows(s@[j]),
        decreases te,
    {
        te = te - 1;
    }
    proof {
        lemma_rskip_ows_exact(s@, s@.len() as int, te as int);
    }
    (ts, te)
}

/// Checks whether a trimmed parameter is a zero quality value.
fn is_qzero_param_exec(t: &[u8]) -> (r: bool)
    ensures
        r == is_qzero_param(t@),
{
    if t.len() < 3 || t.len() > 7 {
        return false;
    }
    let q = t[0];
    let ql: u8 = if 65 <= q && q <= 90 {
        q + 32
    } else {
        q
    };
    if !(ql == 113 && t[1] == 61 && t[2] == 48) {
        return false;
    }
    if t.len() == 3 {
        return true;
    }
    if t[3] != 46 {
        return false;
    }
    let mut i: usize = 4;
    while i < t.len()
        invariant
            4 <= i <= t@.len(),
            forall|j: int| 4 <= j < i ==> t@[j] == 48,
        decreases t@.len() - i,
    {
        if t[i] != 48 {
            return false;
        }
        i = i + 1;
    }
    true
}

/// Checks whether some parameter of the `;`-separated list is a zero quality
/// value.
fn has_qzero_exec(params: &[u8]) -> (r: bool)
    ensures
        r == has_qzero(params@),
    decreases params@.len(),
{
    proof {
        lemma_first_at(params@, 0, SEMI);
    }
    let c = find_byte(params, 0, SEMI);
    let param = vstd::slice::slice_subrange(params, 0, c);
    let (ts, te) = trim_bounds(param);
    let qz = if ts < te {
        is_qzero_param_exec(vstd::slice::slice_subrange(param, ts, te))
    } else {
        false
    };
    if qz {
        true
    } else if c < params.len() {
        has_qzero_exec(vstd::slice::slice_subrange(params, c + 1, params.len()))
    } else {
        false
    }
}

/// Checks whether one list entry makes `coding` acceptable.
fn entry_matches_exec(e: &[u8], coding: &[u8]) -> (r: bool)
    ensures
        r == entry_matches(e@, coding@),
{
    proof {
        lemma_first_at(e@, 0, SEMI);
    }
    let semi = find_byte(e, 0, SEMI);
    let cut = vstd::slice::slice_subrange(e, 0, semi);
    let (ts, te) = trim_bounds(cut);
    let token_ok = if ts < te {
        token_matches_exec(vstd::slice::slice_subrange(cut, ts, te), coding)
    } else {
        coding.len() == 0
    };
    if !token_ok {
        return false;
    }
    if semi < e.len() {
        !has_qzero_exec(vstd::slice::slice_subrange(e, semi + 1, e.len()))
    } else {
        true
    }
}

/// Compares a token with a lowercase coding name, ignoring ASCII case.
fn token_matches_exec(t: &[u8], coding: &[u8]) -> (r: bool)
    ensures
        r == token_matches(t@, coding@),
{
    if t.len() != coding.len() {
        return false;
    }
    let mut i: usize = 0;
    while i < t.len()
        invariant
            i <= t@.len(),
            t@.len() == coding@.len(),
            forall|j: int| 0 <= j < i ==> lower_byte(t@[j]) == coding@[j],
        decreases t@.len() - i,
    {
        let b = t[i];
        let low: u8 = if 65 <= b && b <= 90 {
            b + 32
        } else {
            b
        };
        if low != coding[i] {
            return false;
        }
        i = i + 1;
    }
    true
}

/// The byte sequence `gzip`.
pub open spec fn gzip_name() -> Seq<u8> {
    seq![103u8, 122u8, 105u8, 112u8]
}

/// The byte sequence `zstd`.
pub open spec fn zstd_name() -> Seq<u8> {
    seq![122u8, 115u8, 116u8, 100u8]
}

/// Which stored file is served for an asset request.
#[derive(Clone, Copy, Debug, PartialEq, Eq, Structural)]
pub enum Variant {
    /// The `.zst` sibling, with `Content-Encoding: zstd`.
    Zstd,
    /// The `.gz` sibling, with `Content-Encoding: gzip`.
    Gzip,
    /// The plain file, with no `Content-Encoding`.
    Identity,
}

/// The variant the reader must serve: the zstd sibling when it exists on disk
/// and the client accepts `zstd`; otherwise the gzip sibling when it exists
/// and the client accepts `gzip`; otherwise the plain file.
pub open spec fn variant_spec(ae: Seq<u8>, has_gzip: bool, has_zstd: bool) -> Variant {
    if has_zstd && accepts_coding(ae, zstd_name()) {
        Variant::Zstd
    } else if has_gzip && accepts_coding(ae, gzip_name()) {
        Variant::Gzip
    } else {
        Variant::Identity
    }
}

fn zstd_bytes() -> (r: Vec<u8>)
    ensures
        r@ == zstd_name(),
{
    let mut v: Vec<u8> = Vec::new();
    v.push(122);
    v.push(115);
    v.push(116);
    v.push(100);
    proof {
        assert(v@ =~= zstd_name());
    }
    v
}

fn gzip_bytes() -> (r: Vec<u8>)
    ensures
        r@ == gzip_name(),
{
    let mut v: Vec<u8> = Vec::new();
    v.push(103);
    v.push(122);
    v.push(105);
    v.push(112);
    proof {
        assert(v@ =~= gzip_name());
    }
    v
}

/// Chooses the variant to serve, from the request's `Accept-Encoding` bytes
/// and which precompressed siblings exist on disk.
pub fn choose_variant(accept_encoding: &[u8], has_gzip: bool, has_zstd: bool) -> (v: Variant)
    ensures
        v == variant_spec(accept_encoding@, has_gzip, has_zstd),
{
    let z = zstd_bytes();
    if has_zstd && accepts_encoding(accept_encoding, z.as_slice()) {
        return Variant::Zstd;
    }
    let g = gzip_bytes();
    if has_gzip && accepts_encoding(accept_encoding, g.as_slice()) {
        return Variant::Gzip;
    }
    Variant::Identity
}

/// The byte sequence `.gz`.
pub open spec fn gz_suffix() -> Seq<u8> {
    seq![46u8, 103u8, 122u8]
}

/// The byte sequence `.zst`.
pub open spec fn zst_suffix() -> Seq<u8> {
    seq![46u8, 122u8, 115u8, 116u8]
}

/// The on-disk name for a variant of `path`: the path itself for the plain
/// file, the path with `.gz` or `.zst` appended for a precompressed sibling.
pub fn variant_file_name(path: &[u8], v: Variant) -> (r: Vec<u8>)
    ensures
        v == Variant::Identity ==> r@ == path@,
        v == Variant::Gzip ==> r@ == path@ + gz_suffix(),
        v == Variant::Zstd ==> r@ == path@ + zst_suffix(),
{
    let mut out: Vec<u8> = Vec::new();
    push_all(&mut out, path);
    match v {
        Variant::Identity => {},
        Variant::Gzip => {
            out.push(46);
            out.push(103);
            out.push(122);
            proof {
                assert(out@ =~= path@ + gz_suffix());
            }
        },
        Variant::Zstd => {
            out.push(46);
            out.push(122);
            out.push(115);
            out.push(116);
            proof {
                assert(out@ =~= path@ + zst_suffix());
            }
        },
    }
    out
}

/// Everything the reader serves for one chosen variant: the file to read,
/// the name whose `Content-Type` the response carries, and the
/// `Content-Encoding` token, if any.
pub struct ServePlan {
    /// The on-disk name of the file whose bytes are sent.
    pub file: Vec<u8>,
    /// The name the `Content-Type` derives from: always the uncompressed
    /// name, whatever sibling is served.
    pub content_type_from: Vec<u8>,
    /// The `Content-Encoding` token to send, or `None` for the plain file.
    pub content_encoding: Option<Vec<u8>>,
}

/// Builds the serving plan for one chosen variant: the precompressed sibling
/// (or the plain file) is read, the `Content-Type` always derives from the
/// uncompressed name, and the `Content-Encoding` token matches the variant.
pub fn serve_plan(path: &[u8], v: Variant) -> (r: ServePlan)
    ensures
        r.content_type_from@ == path@,
        v == Variant::Identity ==> r.file@ == path@ && r.content_encoding is None,
        v == Variant::Gzip ==> r.file@ == path@ + gz_suffix() && (r.content_encoding matches Some(
            t,
        ) && t@ == gzip_name()),
        v == Variant::Zstd ==> r.file@ == path@ + zst_suffix() && (r.content_encoding matches Some(
            t,
        ) && t@ == zstd_name()),
{
    let file = variant_file_name(path, v);
    let mut from: Vec<u8> = Vec::new();
    push_all(&mut from, path);
    ServePlan { file, content_type_from: from, content_encoding: encoding_token(v) }
}

/// The `Content-Encoding` token to send with a variant, or `None` for the
/// plain file.
pub fn encoding_token(v: Variant) -> (r: Option<Vec<u8>>)
    ensures
        v == Variant::Identity ==> r is None,
        v == Variant::Gzip ==> (r matches Some(t) && t@ == gzip_name()),
        v == Variant::Zstd ==> (r matches Some(t) && t@ == zstd_name()),
{
    match v {
        Variant::Identity => None,
        Variant::Gzip => Some(gzip_bytes()),
        Variant::Zstd => Some(zstd_bytes()),
    }
}


/// The byte sequence `index.html`.
pub open spec fn index_html() -> Seq<u8> {
    seq![105u8, 110u8, 100u8, 101u8, 120u8, 46u8, 104u8, 116u8, 109u8, 108u8]
}

/// A `..` path segment begins at `i`: two dots bounded by the start or a
/// slash on the left and by the end or a slash on the right.
pub open spec fn dotdot_at(p: Seq<u8>, i: int) -> bool {
    &&& 0 <= i
    &&& i + 2 <= p.len()
    &&& p[i] == DOT
    &&& p[i + 1] == DOT
    &&& (i == 0 || p[i - 1] == SLASH)
    &&& (i + 2 == p.len() || p[i + 2] == SLASH)
}

/// The path contains a `..` segment somewhere.
pub open spec fn has_dotdot(p: Seq<u8>) -> bool {
    exists|i: int| dotdot_at(p, i)
}

/// The file the asset reader serves for a request path, relative to the asset
/// root, or `None` for a path that is rejected: the path must begin with
/// exactly one `/` (a second leading `/` would make the stripped remainder an
/// absolute path and is refused) and must not contain a `..` segment; the
/// leading `/` is stripped; a path ending in `/` (the root in particular)
/// resolves to `index.html` in that directory.
pub open spec fn asset_rel_path(p: Seq<u8>) -> Option<Seq<u8>> {
    if p.len() == 0 || p[0] != SLASH || (p.len() >= 2 && p[1] == SLASH) || has_dotdot(p) {
        None
    } else if p[p.len() - 1] == SLASH {
        Some(p.subrange(1, p.len() as int) + index_html())
    } else {
        Some(p.subrange(1, p.len() as int))
    }
}

/// Law (confinement): every path the resolver accepts yields a non-empty
/// relative name with no leading `/` and no `..` segment, so joining it under
/// the asset root can never name a file outside the root.
pub proof fn lemma_rel_path_confined(p: Seq<u8>)
    ensures
        asset_rel_path(p) matches Some(r) ==> r.len() > 0 && r[0] != SLASH && !has_dotdot(r),
{
    if asset_rel_path(p) is Some {
        let r = asset_rel_path(p)->Some_0;
        let stripped = p.subrange(1, p.len() as int);
        let m = p.len() - 1;
        assert(forall|k: int| 0 <= k < m ==> stripped[k] == p[k + 1]);
        if p[p.len() - 1] == SLASH {
            assert(r == stripped + index_html());
            assert(forall|j: int| 0 <= j < 10 ==> r[m + j] == index_html()[j]);
            if m == 0 {
                assert(r[0] == index_html()[0]);
            } else {
                assert(r[0] == p[1]);
            }
            assert(r[0] != SLASH);
            if has_dotdot(r) {
                let i = choose|i: int| dotdot_at(r, i);
                if i + 1 < m {
                    if i + 2 < m {
                        assert(r[i + 2] == p[i + 3]);
                        assert(dotdot_at(p, i + 1));
                    } else {
                        assert(r[i + 2] == index_html()[0]);
                        assert(false);
                    }
                } else if i + 1 == m {
                    assert(r[i + 1] == index_html()[0]);
                    assert(false);
                } else {
                    let j = i - m;
                    assert(0 <= j < 10);
                    assert(r[i] == index_html()[j]);
                    assert(j == 5);
                    assert(r[i + 1] == index_html()[6]);
                    assert(false);
                }
            }
        } else {
            assert(r == stripped);
            assert(p.len() >= 2);
            assert(r[0] == p[1]);
            assert(r[0] != SLASH);
            if has_dotdot(r) {
                let i = choose|i: int| dotdot_at(r, i);
                assert(r[i] == p[i + 1] && r[i + 1] == p[i + 2]);
                if i + 2 < r.len() {
                    assert(r[i + 2] == p[i + 3]);
                }
                assert(dotdot_at(p, i + 1));
            }
        }
    }
}

fn index_html_bytes() -> (r: Vec<u8>)
    ensures
        r@ == index_html(),
{
    let mut v: Vec<u8> = Vec::new();
    v.push(105);
    v.push(110);
    v.push(100);
    v.push(101);
    v.push(120);
    v.push(46);
    v.push(104);
    v.push(116);
    v.push(109);
    v.push(108);
    proof {
        assert(v@ =~= index_html());
    }
    v
}

/// Resolves a request path to the file served from the asset root, or `None`
/// when the path is rejected: no single leading `/`, or a `..` segment. An
/// accepted path always yields a non-empty relative name with no leading `/`
/// and no `..` segment, so the caller's join stays inside the root.
pub fn sanitize_asset_path(p: &[u8]) -> (r: Option<Vec<u8>>)
    ensures
        r is None <==> asset_rel_path(p@) is None,
        r matches Some(v) ==> asset_rel_path(p@) == Some(v@) && v@.len() > 0 && v@[0] != SLASH
            && !has_dotdot(v@),
{
    proof {
        lemma_rel_path_confined(p@);
    }
    if p.len() == 0 || p[0] != 47 {
        return None;
    }
    if p.len() >= 2 && p[1] == 47 {
        return None;
    }
    let mut i: usize = 0;
    while i < p.len()
        invariant
            i <= p@.len(),
            forall|j: int| 0 <= j < i ==> !dotdot_at(p@, j),
        decreases p@.len() - i,
    {
        if p[i] == 46 && i + 1 < p.len() && p[i + 1] == 46 && (i == 0 || p[i - 1] == 47) && (i + 2
            == p.len() || p[i + 2] == 47) {
            proof {
                assert(dotdot_at(p@, i as int));
            }
            return None;
        }
        proof {
            assert(!dotdot_at(p@, i as int));
        }
        i = i + 1;
    }
    proof {
        assert(!has_dotdot(p@)) by {
            if has_dotdot(p@) {
                let w = choose|k: int| dotdot_at(p@, k);
                assert(0 <= w < p@.len());
            }
        }
    }
    let mut out: Vec<u8> = Vec::new();
    push_all(&mut out, vstd::slice::slice_subrange(p, 1, p.len()));
    if p[p.len() - 1] == 47 {
        let idx = index_html_bytes();
        push_all(&mut out, idx.as_slice());
        proof {
            assert(out@ =~= p@.subrange(1, p@.len() as int) + index_html());
        }
    }
    Some(out)
}

/// Law: the root path and `/index.html` resolve to the same stored file, so a
/// request for `/` returns the same bytes as a request for `/index.html`.
pub proof fn lemma_root_resolves_to_index()
    ensures
        asset_rel_path(seq![47u8]) == asset_rel_path(
            seq![47u8, 105u8, 110u8, 100u8, 101u8, 120u8, 46u8, 104u8, 116u8, 109u8, 108u8],
        ),
        asset_rel_path(seq![47u8]) == Some(index_html()),
{
    let root: Seq<u8> = seq![47u8];
    let ip: Seq<u8> = seq![47u8, 105u8, 110u8, 100u8, 101u8, 120u8, 46u8, 104u8, 116u8, 109u8,
        108u8];
    assert(!has_dotdot(root)) by {
        if has_dotdot(root) {
            let w = choose|k: int| dotdot_at(root, k);
        }
    }
    assert(!has_dotdot(ip)) by {
        if has_dotdot(ip) {
            let w = choose|k: int| dotdot_at(ip, k);
            assert(ip[w] == DOT);
            assert(w == 6);
        }
    }
    assert(root[0] == SLASH);
    assert(root[root.len() - 1] == SLASH);
    assert(asset_rel_path(root) == Some(root.subrange(1, 1) + index_html()));
    assert(root.subrange(1, 1) + index_html() =~= index_html());
    assert(ip[ip.len() - 1] == 108);
    assert(asset_rel_path(ip) == Some(ip.subrange(1, 11)));
    assert(ip.subrange(1, 11) =~= index_html());
}


/// Status for an asset path whose file does not exist.
pub const NOT_FOUND_STATUS: u16 = 404;

/// Status for any other asset failure: a rejected path or a filesystem error
/// besides not-found. The detail is for the log, not for the client.
pub const ASSET_FAILURE_STATUS: u16 = 500;

/// Maps an asset read failure to the client-visible status: not-found gives
/// 404, everything else gives 500. The request fails alone; the process keeps
/// serving.
pub fn asset_error_status(not_found: bool) -> (s: u16)
    ensures
        not_found ==> s == NOT_FOUND_STATUS,
        !not_found ==> s == ASSET_FAILURE_STATUS,
{
    if not_found {
        404
    } else {
        500
    }
}

} // verus!


