use vstd::prelude::*;
use vstd::string::{StringExecFns, StringSliceAdditionalSpecFns};
use vstd::utf8::{
    decode_utf8, encode_utf8_decode_utf8, encode_utf8_valid_utf8, is_char_boundary,
    is_char_boundary_iff_not_is_continuation_byte, is_char_boundary_start_end_of_seq,
    is_continuation_byte, length_of_first_scalar, pop_first_scalar, valid_utf8, valid_utf8_split,
};

verus! {

/// The path separator.
pub open spec fn is_sep(c: u8) -> bool {
    c == 47
}

/// The length of `p[0..n]` once trailing separators and `.` components are
/// dropped.
pub open spec fn trimmed_len(p: Seq<u8>, n: int) -> int
    decreases n,
{
    if n <= 0 {
        0
    } else if is_sep(p[n - 1]) {
        trimmed_len(p, n - 1)
    } else if p[n - 1] == 46 && (n == 1 || is_sep(p[n - 2])) {
        trimmed_len(p, n - 1)
    } else {
        n
    }
}

/// Where the component that ends at `n` starts.
pub open spec fn component_start(p: Seq<u8>, n: int) -> int
    decreases n,
{
    if n > 0 && !is_sep(p[n - 1]) {
        component_start(p, n - 1)
    } else {
        n
    }
}

/// The byte range of a path's file name: its last normal component, with
/// trailing separators and `.` components ignored. None when the path is
/// empty, a root, or ends in `..`.
pub open spec fn file_name_span(p: Seq<u8>) -> Option<(int, int)> {
    let e = trimmed_len(p, p.len() as int);
    let s = component_start(p, e);
    if s < e && !(e - s == 2 && p[s] == 46 && p[s + 1] == 46) {
        Some((s, e))
    } else {
        None
    }
}

/// In valid UTF-8, the position right after an ASCII character that starts
/// at a character boundary is a boundary too.
proof fn lemma_boundary_after_ascii(b: Seq<u8>, i: int)
    requires
        valid_utf8(b),
        0 <= i < b.len(),
        b[i] < 128,
        is_char_boundary(b, i),
    ensures
        is_char_boundary(b, i + 1),
    decreases b.len(),
{
    reveal_with_fuel(is_char_boundary, 2);
    if i > 0 {
        let l = length_of_first_scalar(b);
        let tail = pop_first_scalar(b);
        assert(valid_utf8(tail));
        assert(tail[i - l] == b[i]);
        lemma_boundary_after_ascii(tail, i - l);
    }
}

/// A position next to an ASCII byte, or at either end, is a boundary.
proof fn lemma_ascii_boundary(b: Seq<u8>, i: int)
    requires
        valid_utf8(b),
        0 <= i <= b.len(),
        i == 0 || i == b.len() || b[i] < 128 || b[i - 1] < 128,
    ensures
        is_char_boundary(b, i),
{
    is_char_boundary_start_end_of_seq(b);
    if 0 < i < b.len() {
        if b[i] < 128 {
            is_char_boundary_iff_not_is_continuation_byte(b, i);
        } else {
            is_char_boundary_iff_not_is_continuation_byte(b, i - 1);
            lemma_boundary_after_ascii(b, i - 1);
        }
    }
}

/// The text between byte positions `s` and `e` of `t`.
fn substring(t: &str, s: usize, e: usize) -> (r: String)
    requires
        s <= e <= t.spec_bytes().len(),
        s == 0 || s == t.spec_bytes().len() || t.spec_bytes()[s as int] < 128 || t.spec_bytes()[s
            - 1] < 128,
        e == 0 || e == t.spec_bytes().len() || t.spec_bytes()[e as int] < 128 || t.spec_bytes()[e
            - 1] < 128,
    ensures
        r@ == decode_utf8(t.spec_bytes().subrange(s as int, e as int)),
{
    let ghost b = t.spec_bytes();
    proof {
        encode_utf8_valid_utf8(t@);
        lemma_ascii_boundary(b, s as int);
        lemma_ascii_boundary(b, e as int);
        valid_utf8_split(b, s as int);
    }
    let (_, rest) = t.split_at(s);
    proof {
        let rb = rest.spec_bytes();
        assert(rb =~= b.subrange(s as int, b.len() as int));
        if e - s < rb.len() && e > s {
            assert(rb[e - s] == b[e as int]);
            assert(rb[e - s - 1] == b[e - 1]);
        }
        lemma_ascii_boundary(rb, (e - s) as int);
    }
    let (mid, _) = rest.split_at(e - s);
    proof {
        assert(mid.spec_bytes() =~= b.subrange(s as int, e as int));
        encode_utf8_decode_utf8(mid@);
    }
    mid.to_owned()
}

proof fn lemma_trimmed(p: Seq<u8>, n: int)
    requires
        0 <= n <= p.len(),
    ensures
        0 <= trimmed_len(p, n) <= n,
        trimmed_len(p, n) == n || p[trimmed_len(p, n)] == 47 || p[trimmed_len(p, n)] == 46,
    decreases n,
{
    if n > 0 {
        if is_sep(p[n - 1]) || (p[n - 1] == 46 && (n == 1 || is_sep(p[n - 2]))) {
            lemma_trimmed(p, n - 1);
        }
    }
}

proof fn lemma_component_start(p: Seq<u8>, n: int)
    requires
        0 <= n <= p.len(),
    ensures
        0 <= component_start(p, n) <= n,
        component_start(p, n) == 0 || is_sep(p[component_start(p, n) - 1]),
    decreases n,
{
    if n > 0 && !is_sep(p[n - 1]) {
        lemma_component_start(p, n - 1);
    }
}

fn trims_at(b: &[u8], n: usize) -> (r: bool)
    requires
        n <= b@.len(),
    ensures
        r == (n > 0 && (is_sep(b@[n - 1]) || (b@[n - 1] == 46 && (n == 1 || is_sep(b@[n - 2]))))),
{
    if n == 0 {
        false
    } else if b[n - 1] == 47 {
        true
    } else {
        b[n - 1] == 46 && (n == 1 || b[n - 2] == 47)
    }
}

fn inside_component(b: &[u8], n: usize) -> (r: bool)
    requires
        n <= b@.len(),
    ensures
        r == (n > 0 && !is_sep(b@[n - 1])),
{
    n > 0 && b[n - 1] != 47
}

/// Computes `file_name_span`.
fn find_file_name(b: &[u8]) -> (r: Option<(usize, usize)>)
    ensures
        match r {
            Some((s, e)) => {
                &&& file_name_span(b@) == Some((s as int, e as int))
                &&& s < e <= b@.len()
                &&& s == 0 || b@[s - 1] < 128
                &&& e == b@.len() || b@[e as int] < 128
            },
            None => file_name_span(b@) is None,
        },
{
    let ghost p = b@;
    let mut e: usize = b.len();
    while trims_at(b, e)
        invariant
            e <= p.len(),
            p == b@,
            trimmed_len(p, e as int) == trimmed_len(p, p.len() as int),
        decreases e,
    {
        e = e - 1;
    }
    let mut s: usize = e;
    while inside_component(b, s)
        invariant
            s <= e <= p.len(),
            p == b@,
            component_start(p, s as int) == component_start(p, e as int),
        decreases s,
    {
        s = s - 1;
    }
    proof {
        lemma_trimmed(p, p.len() as int);
        lemma_component_start(p, e as int);
    }
    if s < e && !(e - s == 2 && b[s] == 46 && b[s + 1] == 46) {
        Some((s, e))
    } else {
        None
    }
}

/// Whether a path names a file, which `name_from_path` asks for.
pub fn has_file_name(path: &str) -> (r: bool)
    ensures
        r == file_name_span(path.spec_bytes()) is Some,
{
    find_file_name(path.as_bytes()).is_some()
}

/// The name of the file a path points at: its last normal component.
pub fn name_from_path(path: &str) -> (r: String)
    requires
        file_name_span(path.spec_bytes()) is Some,
    ensures
        r@ == decode_utf8(
            path.spec_bytes().subrange(
                file_name_span(path.spec_bytes())->Some_0.0,
                file_name_span(path.spec_bytes())->Some_0.1,
            ),
        ),
{
    let span = find_file_name(path.as_bytes());
    match span {
        Some((s, e)) => substring(path, s, e),
        None => String::new(),
    }
}

/// ASCII whitespace, as the include scanner splits on it.
pub open spec fn is_ws(c: u8) -> bool {
    c == 32 || c == 9 || c == 10 || c == 12 || c == 13
}

/// The bytes of the include keyword, `#include`.
pub open spec fn include_keyword() -> Seq<u8> {
    seq![35u8, 105u8, 110u8, 99u8, 108u8, 117u8, 100u8, 101u8]
}

/// A whole whitespace-delimited `#include` token starts at `i`.
pub open spec fn directive_at(b: Seq<u8>, i: int) -> bool {
    &&& 0 <= i
    &&& i + 8 <= b.len()
    &&& b.subrange(i, i + 8) == include_keyword()
    &&& i == 0 || is_ws(b[i - 1])
    &&& i + 8 == b.len() || is_ws(b[i + 8])
}

/// The first `#include` token at or after `i`.
pub open spec fn first_directive(b: Seq<u8>, i: int) -> Option<int>
    decreases b.len() - i,
{
    if i < 0 || i >= b.len() {
        None
    } else if directive_at(b, i) {
        Some(i)
    } else {
        first_directive(b, i + 1)
    }
}

/// The first position at or after `j` that is not whitespace.
pub open spec fn skip_ws(b: Seq<u8>, j: int) -> int
    decreases b.len() - j,
{
    if 0 <= j < b.len() && is_ws(b[j]) {
        skip_ws(b, j + 1)
    } else {
        j
    }
}

/// The end of the token that starts at `j`.
pub open spec fn token_end(b: Seq<u8>, j: int) -> int
    decreases b.len() - j,
{
    if 0 <= j < b.len() && !is_ws(b[j]) {
        token_end(b, j + 1)
    } else {
        j
    }
}

/// The first include directive of a source: where its `#include` token
/// starts, and where the path token after it starts and ends. None when
/// there is no `#include` token followed by a path.
pub open spec fn include_span(b: Seq<u8>) -> Option<(int, int, int)> {
    match first_directive(b, 0) {
        Some(i) => {
            let ps = skip_ws(b, i + 8);
            let pe = token_end(b, ps);
            if ps < pe {
                Some((i, ps, pe))
            } else {
                None
            }
        },
        None => None,
    }
}

/// An include directive found in a shader source: bytes `start..end` are
/// to be replaced by the contents of the file at `path`, relative to the
/// source's directory.
pub struct IncludeDirective {
    pub start: usize,
    pub end: usize,
    pub path: String,
}

fn is_ws_byte(c: u8) -> (r: bool)
    ensures
        r == is_ws(c),
{
    c == 32 || c == 9 || c == 10 || c == 12 || c == 13
}

fn directive_at_exec(b: &[u8], i: usize) -> (r: bool)
    requires
        i < b@.len(),
    ensures
        r == directive_at(b@, i as int),
{
    if b.len() - i < 8 {
        return false;
    }
    let kw = b[i] == 35 && b[i + 1] == 105 && b[i + 2] == 110 && b[i + 3] == 99 && b[i + 4] == 108
        && b[i + 5] == 117 && b[i + 6] == 100 && b[i + 7] == 101;
    proof {
        let sub = b@.subrange(i as int, i + 8);
        if kw {
            assert(sub =~= include_keyword());
        } else if sub == include_keyword() {
            assert(sub[0] == 35 && sub[1] == 105 && sub[2] == 110 && sub[3] == 99);
            assert(sub[4] == 108 && sub[5] == 117 && sub[6] == 100 && sub[7] == 101);
        }
    }
    kw && (i == 0 || is_ws_byte(b[i - 1])) && (i + 8 == b.len() || is_ws_byte(b[i + 8]))
}

proof fn lemma_skip_ws(b: Seq<u8>, j: int)
    requires
        0 <= j <= b.len(),
    ensures
        j <= skip_ws(b, j) <= b.len(),
        forall|k: int| j <= k < skip_ws(b, j) ==> is_ws(#[trigger] b[k]),
    decreases b.len() - j,
{
    if j < b.len() && is_ws(b[j]) {
        lemma_skip_ws(b, j + 1);
    }
}

proof fn lemma_token_end(b: Seq<u8>, j: int)
    requires
        0 <= j <= b.len(),
    ensures
        j <= token_end(b, j) <= b.len(),
        token_end(b, j) == b.len() || is_ws(b[token_end(b, j)]),
    decreases b.len() - j,
{
    if j < b.len() && !is_ws(b[j]) {
        lemma_token_end(b, j + 1);
    }
}

/// Computes `include_span`.
fn find_include_span(b: &[u8]) -> (r: Option<(usize, usize, usize)>)
    ensures
        match r {
            Some((i, ps, pe)) => {
                &&& include_span(b@) == Some((i as int, ps as int, pe as int))
                &&& i < ps < pe <= b@.len()
                &&& b@[i as int] < 128
                &&& b@[ps - 1] < 128
                &&& pe == b@.len() || b@[pe as int] < 128
            },
            None => include_span(b@) is None,
        },
{
    let ghost p = b@;
    let mut i: usize = 0;
    while i < b.len() && !directive_at_exec(b, i)
        invariant
            i <= p.len(),
            p == b@,
            first_directive(p, i as int) == first_directive(p, 0),
        decreases p.len() - i,
    {
        i = i + 1;
    }
    if i >= b.len() {
        return None;
    }
    let mut ps: usize = i + 8;
    while ps < b.len() && is_ws_byte(b[ps])
        invariant
            i + 8 <= ps <= p.len(),
            p == b@,
            skip_ws(p, ps as int) == skip_ws(p, i + 8),
        decreases p.len() - ps,
    {
        ps = ps + 1;
    }
    let mut pe: usize = ps;
    while pe < b.len() && !is_ws_byte(b[pe])
        invariant
            ps <= pe <= p.len(),
            p == b@,
            token_end(p, pe as int) == token_end(p, ps as int),
        decreases p.len() - pe,
    {
        pe = pe + 1;
    }
    proof {
        lemma_token_end(p, ps as int);
        assert(p.subrange(i as int, i + 8)[0] == p[i as int]);
    }
    if ps < pe {
        proof {
            assert(ps > i + 8) by {
                if ps == i + 8 {
                    assert(is_ws(p[i + 8]));
                }
            }
            assert(is_ws(p[ps - 1])) by {
                lemma_skip_ws(p, i + 8);
                if ps - 1 > i + 8 {
                } else {
                    assert(is_ws(p[i + 8]));
                }
            }
        }
        Some((i, ps, pe))
    } else {
        None
    }
}

/// Finds the first include directive of a shader source.
pub fn find_include(source: &str) -> (r: Option<IncludeDirective>)
    ensures
        match include_span(source.spec_bytes()) {
            Some((i, ps, pe)) => r matches Some(d) && d.start == i && d.end == pe && d.path@
                == decode_utf8(source.spec_bytes().subrange(ps, pe)),
            None => r is None,
        },
{
    match find_include_span(source.as_bytes()) {
        Some((i, ps, pe)) => {
            let path = substring(source, ps, pe);
            Some(IncludeDirective { start: i, end: pe, path })
        },
        None => None,
    }
}

/// The source with its first include directive replaced by `included`, the
/// contents of the file it names. Only that one directive is resolved, and
/// the inserted text is not scanned again, so cyclic includes cannot loop.
/// A source without a directive comes back unchanged.
pub fn resolve_includes(source: &str, included: &str) -> (r: String)
    ensures
        match include_span(source.spec_bytes()) {
            Some((i, ps, pe)) => r@ == decode_utf8(source.spec_bytes().subrange(0, i))
                + included@ + decode_utf8(
                source.spec_bytes().subrange(pe, source.spec_bytes().len() as int),
            ),
            None => r@ == source@,
        },
{
    let bytes = source.as_bytes();
    match find_include_span(bytes) {
        Some((i, _ps, pe)) => {
            let mut r = substring(source, 0, i);
            r.append(included);
            let after = substring(source, pe, bytes.len());
            r.append(after.as_str());
            r
        },
        None => source.to_owned(),
    }
}

/// The name the fallback program goes by.
pub open spec fn fallback_name() -> Seq<char> {
    "fallback.wgsl"@
}

/// A shader program's source: text read from a file, or the embedded
/// fallback program that stands in when reading or compiling failed.
pub enum WgslShaderSource {
    File { name: String, source: String, path: String },
    Fallback,
}

/// What `load` gives for a path and the text read from it (`None` when the
/// read or the include resolution failed).
pub open spec fn loaded(
    r: WgslShaderSource,
    path: Seq<u8>,
    path_chars: Seq<char>,
    text: Option<Seq<char>>,
) -> bool {
    match (text, file_name_span(path)) {
        (Some(t), Some((s, e))) => r matches WgslShaderSource::File { name, source, path: p }
            && name@ == decode_utf8(path.subrange(s, e)) && source@ == t && p@ == path_chars,
        _ => r is Fallback,
    }
}

/// The text of an optional string.
pub open spec fn text_of(s: Option<String>) -> Option<Seq<char>> {
    match s {
        Some(t) => Some(t@),
        None => None,
    }
}

impl WgslShaderSource {
    /// The program at `path` whose text, includes resolved, is `source`; the
    /// fallback program when there is no text or the path names no file.
    /// Never fails.
    pub fn load(path: &str, source: Option<String>) -> (r: Self)
        ensures
            loaded(r, path.spec_bytes(), path@, text_of(source)),
    {
        match source {
            Some(text) => match find_file_name(path.as_bytes()) {
                Some((s, e)) => {
                    let name = substring(path, s, e);
                    WgslShaderSource::File { name, source: text, path: path.to_owned() }
                },
                None => WgslShaderSource::Fallback,
            },
            None => WgslShaderSource::Fallback,
        }
    }

    /// The embedded fallback program.
    pub fn fallback() -> (r: Self)
        ensures
            r is Fallback,
    {
        WgslShaderSource::Fallback
    }

    /// The program's name: its file's name, or `fallback.wgsl`.
    pub open spec fn name_view(&self) -> Seq<char> {
        match self {
            WgslShaderSource::File { name, .. } => name@,
            WgslShaderSource::Fallback => fallback_name(),
        }
    }

    /// The program's text; none for the fallback.
    pub open spec fn text_view(&self) -> Option<Seq<char>> {
        match self {
            WgslShaderSource::File { source, .. } => Some(source@),
            WgslShaderSource::Fallback => None,
        }
    }

    pub fn name(&self) -> (r: &str)
        ensures
            r@ == self.name_view(),
    {
        match self {
            WgslShaderSource::File { name, .. } => name.as_str(),
            WgslShaderSource::Fallback => "fallback.wgsl",
        }
    }

    pub fn is_fallback(&self) -> (r: bool)
        ensures
            r == self is Fallback,
    {
        match self {
            WgslShaderSource::File { .. } => false,
            WgslShaderSource::Fallback => true,
        }
    }

    /// Hot reload: with new text for `path` the program becomes what `load`
    /// gives for it; without text (the read failed) the current program is
    /// kept. Returns whether the program's text changed.
    pub fn reload(&mut self, path: &str, source: Option<String>) -> (changed: bool)
        ensures
            source is None || file_name_span(path.spec_bytes()) is None ==> *final(self)
                == *old(self) && !changed,
            source is Some && file_name_span(path.spec_bytes()) is Some ==> {
                &&& loaded(*final(self), path.spec_bytes(), path@, text_of(source))
                &&& changed == (old(self).text_view() != text_of(source))
            },
    {
        let has_name = find_file_name(path.as_bytes()).is_some();
        if source.is_none() || !has_name {
            return false;
        }
        let unchanged = match &*self {
            WgslShaderSource::File { source: old_text, .. } => match &source {
                Some(text) => <String as PartialEq>::eq(old_text, text),
                None => false,
            },
            WgslShaderSource::Fallback => false,
        };
        *self = WgslShaderSource::load(path, source);
        !unchanged
    }
}

} // verus!
