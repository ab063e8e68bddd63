//! Character-level text helpers: decimal and hexadecimal renderings, ASCII
//! case folding, whitespace trimming and slash-separated path handling.

use vstd::prelude::*;

verus! {

/// `String::push`: appends one character.
#[verifier::external_body]
pub(crate) fn push_char(s: &mut String, c: char)
    ensures
        final(s)@ == old(s)@.push(c),
{
    s.push(c)
}

/// The characters of a string slice.
pub fn chars_of(s: &str) -> (v: Vec<char>)
    ensures
        v@ == s@,
{
    let n: usize = s.unicode_len();
    let mut v: Vec<char> = Vec::new();
    let mut i: usize = 0;
    while i < n
        invariant
            n == s@.len(),
            i <= n,
            v@ =~= s@.subrange(0, i as int),
        decreases n - i,
    {
        let c = s.get_char(i);
        v.push(c);
        i = i + 1;
    }
    v
}

/// A string made of the given characters.
pub fn string_of(cs: &[char]) -> (s: String)
    ensures
        s@ == cs@,
{
    let mut s = String::new();
    let n: usize = cs.len();
    let mut i: usize = 0;
    while i < n
        invariant
            n == cs@.len(),
            i <= n,
            s@ =~= cs@.subrange(0, i as int),
        decreases n - i,
    {
        push_char(&mut s, cs[i]);
        i = i + 1;
    }
    s
}

/// Whether two character sequences are equal.
pub fn chars_eq(a: &[char], b: &[char]) -> (eq: bool)
    ensures
        eq == (a@ == b@),
{
    if a.len() != b.len() {
        return false;
    }
    let n: usize = a.len();
    let mut i: usize = 0;
    while i < n
        invariant
            n == a@.len(),
            n == b@.len(),
            i <= n,
            a@.subrange(0, i as int) =~= b@.subrange(0, i as int),
        decreases n - i,
    {
        if a[i] != b[i] {
            assert(a@[i as int] != b@[i as int]);
            return false;
        }
        i = i + 1;
    }
    assert(a@ =~= a@.subrange(0, n as int));
    assert(b@ =~= b@.subrange(0, n as int));
    true
}

/// Whether two strings are equal.
pub fn str_eq(a: &str, b: &str) -> (eq: bool)
    ensures
        eq == (a@ == b@),
{
    let va = chars_of(a);
    let vb = chars_of(b);
    chars_eq(va.as_slice(), vb.as_slice())
}

/// Decimal digit character.
pub open spec fn digit_char(d: nat) -> char {
    seq!['0', '1', '2', '3', '4', '5', '6', '7', '8', '9'][d as int]
}

/// Decimal rendering of a natural number, without leading zeros.
pub open spec fn dec_text(n: nat) -> Seq<char>
    decreases n,
{
    if n < 10 {
        seq![digit_char(n)]
    } else {
        dec_text(n / 10).push(digit_char(n % 10))
    }
}

fn digit(d: u64) -> (c: char)
    requires
        d < 10,
    ensures
        c == digit_char(d as nat),
{
    if d == 0 { '0' } else if d == 1 { '1' } else if d == 2 { '2' } else if d == 3 { '3' }
    else if d == 4 { '4' } else if d == 5 { '5' } else if d == 6 { '6' } else if d == 7 { '7' }
    else if d == 8 { '8' } else { '9' }
}

/// Appends the decimal rendering of `n`.
pub fn push_decimal(out: &mut String, n: u64)
    ensures
        final(out)@ == old(out)@ + dec_text(n as nat),
    decreases n,
{
    if n >= 10 {
        push_decimal(out, n / 10);
    }
    push_char(out, digit(n % 10));
}

/// Decimal rendering of `n`.
pub fn decimal(n: u64) -> (s: String)
    ensures
        s@ == dec_text(n as nat),
{
    let mut s = String::new();
    push_decimal(&mut s, n);
    assert(s@ =~= dec_text(n as nat));
    s
}

/// Lower-case hexadecimal digit.
pub open spec fn hex_digit(d: nat) -> char {
    seq!['0', '1', '2', '3', '4', '5', '6', '7', '8', '9', 'a', 'b', 'c', 'd', 'e', 'f'][d as int]
}

/// Lower-case hexadecimal rendering of bytes, two digits per byte.
pub open spec fn hex_text(bytes: Seq<u8>) -> Seq<char>
    decreases bytes.len(),
{
    if bytes.len() == 0 {
        Seq::empty()
    } else {
        hex_text(bytes.drop_last()).push(hex_digit((bytes.last() / 16) as nat)).push(
            hex_digit((bytes.last() % 16) as nat),
        )
    }
}

pub(crate) fn hex_char(d: u8) -> (c: char)
    requires
        d < 16,
    ensures
        c == hex_digit(d as nat),
{
    if d < 10 {
        digit(d as u64)
    } else if d == 10 { 'a' } else if d == 11 { 'b' } else if d == 12 { 'c' }
    else if d == 13 { 'd' } else if d == 14 { 'e' } else { 'f' }
}

/// Lower-case hexadecimal rendering of bytes.
pub fn hex_lower(bytes: &[u8]) -> (s: String)
    ensures
        s@ == hex_text(bytes@),
{
    let mut s = String::new();
    let n: usize = bytes.len();
    let mut i: usize = 0;
    while i < n
        invariant
            n == bytes@.len(),
            i <= n,
            s@ == hex_text(bytes@.subrange(0, i as int)),
        decreases n - i,
    {
        let b: u8 = bytes[i];
        push_char(&mut s, hex_char(b / 16));
        push_char(&mut s, hex_char(b % 16));
        assert(bytes@.subrange(0, i + 1).drop_last() =~= bytes@.subrange(0, i as int));
        i = i + 1;
    }
    assert(bytes@.subrange(0, n as int) =~= bytes@);
    s
}

/// ASCII lower-casing of one character.
pub open spec fn lower_char(c: char) -> char {
    if 'A' <= c && c <= 'Z' {
        ((c as u32) + 32) as char
    } else {
        c
    }
}

/// ASCII lower-casing (`str::to_ascii_lowercase`).
pub open spec fn lower_ascii(s: Seq<char>) -> Seq<char> {
    s.map_values(|c: char| lower_char(c))
}

fn lower_one(c: char) -> (r: char)
    ensures
        r == lower_char(c),
{
    if 'A' <= c && c <= 'Z' {
        let u: u32 = c as u32;
        let l: u8 = (u + 32) as u8;
        let r: char = l as char;
        assert(l == u + 32);
        r
    } else {
        c
    }
}

/// ASCII lower-cased characters of a string.
pub fn ascii_lowercase(s: &[char]) -> (r: Vec<char>)
    ensures
        r@ == lower_ascii(s@),
{
    let mut r: Vec<char> = Vec::new();
    let n: usize = s.len();
    let mut i: usize = 0;
    while i < n
        invariant
            n == s@.len(),
            i <= n,
            r@ =~= lower_ascii(s@.subrange(0, i as int)),
        decreases n - i,
    {
        r.push(lower_one(s[i]));
        i = i + 1;
    }
    assert(s@.subrange(0, n as int) =~= s@);
    r
}

} // verus!

verus! {

/// `char::is_whitespace`: the Unicode White_Space characters.
pub open spec fn is_ws(c: char) -> bool {
    ||| ('\t' <= c && c <= '\r')
    ||| c == ' '
    ||| c == '\u{85}'
    ||| c == '\u{a0}'
    ||| c == '\u{1680}'
    ||| ('\u{2000}' <= c && c <= '\u{200a}')
    ||| c == '\u{2028}'
    ||| c == '\u{2029}'
    ||| c == '\u{202f}'
    ||| c == '\u{205f}'
    ||| c == '\u{3000}'
}

fn is_ws_exec(c: char) -> (b: bool)
    ensures
        b == is_ws(c),
{
    ('\t' <= c && c <= '\r') || c == ' ' || c == '\u{85}' || c == '\u{a0}' || c == '\u{1680}'
        || ('\u{2000}' <= c && c <= '\u{200a}') || c == '\u{2028}' || c == '\u{2029}'
        || c == '\u{202f}' || c == '\u{205f}' || c == '\u{3000}'
}

/// Removal of leading whitespace.
pub open spec fn trim_start(s: Seq<char>) -> Seq<char>
    decreases s.len(),
{
    if s.len() > 0 && is_ws(s[0]) {
        trim_start(s.drop_first())
    } else {
        s
    }
}

/// Removal of trailing whitespace.
pub open spec fn trim_end(s: Seq<char>) -> Seq<char>
    decreases s.len(),
{
    if s.len() > 0 && is_ws(s.last()) {
        trim_end(s.drop_last())
    } else {
        s
    }
}

/// `str::trim`: removal of leading and trailing whitespace.
pub open spec fn trim_ws(s: Seq<char>) -> Seq<char> {
    trim_end(trim_start(s))
}

/// The characters of `s` without leading and trailing whitespace.
pub fn trim(s: &[char]) -> (r: Vec<char>)
    ensures
        r@ == trim_ws(s@),
{
    let n: usize = s.len();
    let mut i: usize = 0;
    assert(s@.subrange(0, n as int) =~= s@);
    while i < n && is_ws_exec(s[i])
        invariant
            n == s@.len(),
            i <= n,
            trim_start(s@) == trim_start(s@.subrange(i as int, n as int)),
        decreases n - i,
    {
        assert(s@.subrange(i as int, n as int).drop_first() =~= s@.subrange(i + 1, n as int));
        i = i + 1;
    }
    assert(trim_start(s@.subrange(i as int, n as int)) == s@.subrange(i as int, n as int));
    let mut j: usize = n;
    while j > i && is_ws_exec(s[j - 1])
        invariant
            n == s@.len(),
            i <= j <= n,
            trim_end(s@.subrange(i as int, n as int)) == trim_end(s@.subrange(i as int, j as int)),
        decreases j - i,
    {
        assert(s@.subrange(i as int, j as int).drop_last() =~= s@.subrange(i as int, j - 1));
        j = j - 1;
    }
    assert(trim_end(s@.subrange(i as int, j as int)) == s@.subrange(i as int, j as int));
    vstd::slice::slice_to_vec(vstd::slice::slice_subrange(s, i, j))
}

/// Index of the last occurrence of `c`, or -1.
pub open spec fn rfind(s: Seq<char>, c: char) -> int
    decreases s.len(),
{
    if s.len() == 0 {
        -1
    } else if s.last() == c {
        s.len() - 1
    } else {
        rfind(s.drop_last(), c)
    }
}

pub proof fn lemma_rfind(s: Seq<char>, c: char)
    ensures
        -1 <= rfind(s, c) < s.len(),
        rfind(s, c) >= 0 ==> s[rfind(s, c)] == c,
        forall|i: int| rfind(s, c) < i < s.len() ==> s[i] != c,
    decreases s.len(),
{
    if s.len() > 0 && s.last() != c {
        lemma_rfind(s.drop_last(), c);
        assert forall|i: int| rfind(s, c) < i < s.len() implies s[i] != c by {
            if i < s.len() - 1 {
                assert(s.drop_last()[i] == s[i]);
            }
        }
    }
}

fn rfind_exec(s: &[char], c: char) -> (k: Option<usize>)
    ensures
        match k {
            Some(j) => rfind(s@, c) == j,
            None => rfind(s@, c) == -1,
        },
{
    let mut j: usize = s.len();
    assert(s@.subrange(0, j as int) =~= s@);
    while j > 0 && s[j - 1] != c
        invariant
            j <= s@.len(),
            rfind(s@, c) == rfind(s@.subrange(0, j as int), c),
        decreases j,
    {
        assert(s@.subrange(0, j as int).drop_last() =~= s@.subrange(0, j - 1));
        j = j - 1;
    }
    if j == 0 {
        None
    } else {
        Some(j - 1)
    }
}

/// `PathBuf::join` on slash-separated paths: an absolute component replaces
/// the base; otherwise one separator is put between them unless the base is
/// empty or already ends with one.
pub open spec fn path_join(base: Seq<char>, comp: Seq<char>) -> Seq<char> {
    if comp.len() > 0 && comp[0] == '/' {
        comp
    } else if base.len() == 0 || base.last() == '/' {
        base + comp
    } else {
        base.push('/') + comp
    }
}

/// Joins a path component onto a base path.
pub fn join_path(base: &str, comp: &str) -> (r: String)
    ensures
        r@ == path_join(base@, comp@),
{
    let b = chars_of(base);
    let c = chars_of(comp);
    let mut out = String::from_str(base);
    if c.len() > 0 && c[0] == '/' {
        return String::from_str(comp);
    }
    if b.len() > 0 && b[b.len() - 1] != '/' {
        push_char(&mut out, '/');
    }
    out.append(comp);
    out
}

/// Last component of a slash-separated path (`Path::file_name`): trailing
/// separators and `.` components are skipped; there is none when nothing is
/// left or the last component is `..`.
pub open spec fn file_name(p: Seq<char>) -> Option<Seq<char>>
    decreases p.len(),
{
    let k = rfind(p, '/');
    let seg = p.subrange(k + 1, p.len() as int);
    if seg.len() == 0 || seg == seq!['.'] {
        if k < 0 {
            None
        } else {
            proof {
                lemma_rfind(p, '/');
            }
            file_name(p.subrange(0, k))
        }
    } else if seg == seq!['.', '.'] {
        None
    } else {
        Some(seg)
    }
}

/// `Path::extension` of a file name: the part after the last `.`, when that
/// dot is neither absent nor the first character.
pub open spec fn name_extension(name: Seq<char>) -> Option<Seq<char>> {
    let k = rfind(name, '.');
    if k <= 0 {
        None
    } else {
        Some(name.subrange(k + 1, name.len() as int))
    }
}

/// Extension of the last component of a path.
pub open spec fn path_extension(p: Seq<char>) -> Option<Seq<char>> {
    match file_name(p) {
        Some(name) => name_extension(name),
        None => None,
    }
}

/// The last component of a path.
pub fn file_name_of(p: &[char]) -> (r: Option<Vec<char>>)
    ensures
        match r {
            Some(v) => file_name(p@) == Some(v@),
            None => file_name(p@) is None,
        },
    decreases p@.len(),
{
    proof {
        lemma_rfind(p@, '/');
    }
    let n: usize = p.len();
    let k = rfind_exec(p, '/');
    let start: usize = match k {
        Some(j) => j + 1,
        None => 0,
    };
    let seg = vstd::slice::slice_subrange(p, start, n);
    let dot = ['.'];
    let dotdot = ['.', '.'];
    assert(dot@ =~= seq!['.']);
    assert(dotdot@ =~= seq!['.', '.']);
    if seg.len() == 0 || chars_eq(seg, dot.as_slice()) {
        match k {
            None => None,
            Some(j) => file_name_of(vstd::slice::slice_subrange(p, 0, j)),
        }
    } else if chars_eq(seg, dotdot.as_slice()) {
        None
    } else {
        Some(vstd::slice::slice_to_vec(seg))
    }
}

/// The extension of a file name.
pub fn extension_of(name: &[char]) -> (r: Option<Vec<char>>)
    ensures
        match r {
            Some(v) => name_extension(name@) == Some(v@),
            None => name_extension(name@) is None,
        },
{
    proof {
        lemma_rfind(name@, '.');
    }
    let n: usize = name.len();
    match rfind_exec(name, '.') {
        None => None,
        Some(k) => if k == 0 {
            None
        } else {
            Some(vstd::slice::slice_to_vec(vstd::slice::slice_subrange(name, k + 1, n)))
        },
    }
}

/// The lower-cased extension of a path.
pub fn lower_extension(p: &str) -> (r: Option<Vec<char>>)
    ensures
        match r {
            Some(v) => match path_extension(p@) {
                Some(e) => v@ == lower_ascii(e),
                None => false,
            },
            None => path_extension(p@) is None,
        },
{
    let cs = chars_of(p);
    match file_name_of(cs.as_slice()) {
        None => None,
        Some(name) => match extension_of(name.as_slice()) {
            None => None,
            Some(ext) => Some(ascii_lowercase(ext.as_slice())),
        },
    }
}

} // verus!

verus! {

/// Ten to the power `k`.
pub open spec fn pow10(k: nat) -> nat
    decreases k,
{
    if k == 0 {
        1
    } else {
        10 * pow10((k - 1) as nat)
    }
}

/// A number below `10^k` has at most `k` decimal digits.
pub proof fn lemma_dec_text_len(n: nat, k: nat)
    requires
        k >= 1,
        n < pow10(k),
    ensures
        dec_text(n).len() <= k,
    decreases k,
{
    if n >= 10 {
        assert(k >= 2) by {
            if k == 1 {
                assert(pow10(1) == 10 * pow10(0));
            }
        }
        let p = pow10((k - 1) as nat);
        assert(pow10(k) == 10 * p);
        assert(n / 10 < p) by (nonlinear_arith)
            requires
                n < 10 * p,
        ;
        lemma_dec_text_len(n / 10, (k - 1) as nat);
    }
}

/// A `u64` has at most 20 decimal digits.
pub proof fn lemma_dec_text_len_u64(n: u64)
    ensures
        dec_text(n as nat).len() <= 20,
{
    reveal_with_fuel(pow10, 21);
    assert(pow10(20) == 100000000000000000000);
    lemma_dec_text_len(n as nat, 20);
}

} // verus!

verus! {

/// The path without trailing separators (a lone `/` stays).
pub open spec fn strip_trailing_slashes(p: Seq<char>) -> Seq<char>
    decreases p.len(),
{
    if p.len() > 1 && p.last() == '/' {
        strip_trailing_slashes(p.drop_last())
    } else {
        p
    }
}

/// `Path::parent` on slash-separated paths: what precedes the last component,
/// without trailing separators; `/` for a component under the root, the empty
/// path for a lone relative component, and none for the root or the empty path.
pub open spec fn parent_path(p: Seq<char>) -> Option<Seq<char>> {
    let q = strip_trailing_slashes(p);
    if q.len() == 0 || q == seq!['/'] {
        None
    } else {
        let r = rfind(q, '/');
        if r < 0 {
            Some(Seq::empty())
        } else if r == 0 {
            Some(seq!['/'])
        } else {
            Some(strip_trailing_slashes(q.subrange(0, r)))
        }
    }
}

/// The directory and its ancestors, nearest first, at most `n` of them.
pub open spec fn ancestors(p: Seq<char>, n: nat) -> Seq<Seq<char>>
    decreases n,
{
    if n == 0 {
        Seq::empty()
    } else {
        seq![p] + match parent_path(p) {
            Some(q) => ancestors(q, (n - 1) as nat),
            None => Seq::empty(),
        }
    }
}

fn strip_trailing_exec(cs: &[char], end: usize) -> (k: usize)
    requires
        end <= cs@.len(),
    ensures
        k <= end,
        strip_trailing_slashes(cs@.subrange(0, end as int)) == cs@.subrange(0, k as int),
{
    let mut k: usize = end;
    while k > 1 && cs[k - 1] == '/'
        invariant
            k <= end <= cs@.len(),
            strip_trailing_slashes(cs@.subrange(0, end as int)) == strip_trailing_slashes(cs@.subrange(0, k as int)),
        decreases k,
    {
        assert(cs@.subrange(0, k as int).drop_last() =~= cs@.subrange(0, k - 1));
        k = k - 1;
    }
    k
}

/// The parent of a slash-separated path, if it has one.
pub fn parent_of(p: &str) -> (r: Option<String>)
    ensures
        match r {
            Some(s) => parent_path(p@) == Some(s@),
            None => parent_path(p@) is None,
        },
{
    let cs = chars_of(p);
    let n: usize = cs.len();
    assert(cs@.subrange(0, n as int) =~= cs@);
    let k = strip_trailing_exec(cs.as_slice(), n);
    let q = vstd::slice::slice_subrange(cs.as_slice(), 0, k);
    assert(q@ == strip_trailing_slashes(p@));
    if k == 0 || (k == 1 && cs[0] == '/') {
        assert(k == 1 ==> q@ =~= seq!['/']);
        assert(k == 1 && cs@[0] != '/' ==> q@ != seq!['/']);
        return None;
    }
    assert(q@ != seq!['/']) by {
        if k == 1 {
            assert(q@[0] == cs@[0]);
        }
    }
    proof {
        lemma_rfind(q@, '/');
    }
    match rfind_exec(q, '/') {
        None => Some(String::new()),
        Some(0) => {
            let mut s = String::new();
            push_char(&mut s, '/');
            assert(s@ =~= seq!['/']);
            Some(s)
        },
        Some(r) => {
            assert(q@.subrange(0, r as int) =~= cs@.subrange(0, r as int));
            let k2 = strip_trailing_exec(cs.as_slice(), r);
            Some(string_of(vstd::slice::slice_subrange(cs.as_slice(), 0, k2)))
        },
    }
}

/// The directory and its ancestors, nearest first, at most `n` of them: the
/// directories searched for a file by walking up from `start`.
pub fn ancestor_dirs(start: &str, n: usize) -> (dirs: Vec<String>)
    ensures
        dirs@.map_values(|d: String| d@) == ancestors(start@, n as nat),
{
    let mut dirs: Vec<String> = Vec::new();
    let mut cur: String = String::from_str(start);
    let mut left: usize = n;
    assert(dirs@.map_values(|d: String| d@) + ancestors(cur@, left as nat) =~= ancestors(start@, n as nat));
    loop
        invariant
            dirs@.map_values(|d: String| d@) + ancestors(cur@, left as nat) == ancestors(start@, n as nat),
        decreases left,
    {
        if left == 0 {
            assert(dirs@.map_values(|d: String| d@) =~= ancestors(start@, n as nat));
            return dirs;
        }
        let ghost before = dirs@.map_values(|d: String| d@);
        let ghost c = cur@;
        let next = parent_of(cur.as_str());
        dirs.push(cur);
        assert(dirs@.map_values(|d: String| d@) =~= before.push(c));
        match next {
            Some(q) => {
                assert(before.push(c) + ancestors(q@, (left - 1) as nat) =~= before + ancestors(c, left as nat));
                cur = q;
                left = left - 1;
            },
            None => {
                assert(before.push(c) =~= before + ancestors(c, left as nat));
                assert(dirs@.map_values(|d: String| d@) =~= ancestors(start@, n as nat));
                return dirs;
            },
        }
    }
}

} // verus!
