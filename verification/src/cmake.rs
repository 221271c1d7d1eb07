//! Build-configuration decisions for the bundled espeak-ng library: when
//! a copy command succeeded, CMake's notion of a true boolean, which
//! optional system library a CMake cache says was found, how built
//! libraries are found and linked, and the Android target settings.

use vstd::prelude::*;
use crate::text::{
    chars_of, is_white_space, lemma_line_pieces_nonempty, lemma_line_pieces_step, line_pieces, owned,
    str_eq, string_from_chars, trim, trim_chars, trim_end, trim_start,
};

verus! {

/// Whether a directory copy succeeded, by its exit code: `robocopy` on
/// Windows reports success with any code below 8, `cp` elsewhere only
/// with 0. A copy killed by a signal has no code and failed.
pub fn copy_succeeded(is_windows: bool, exit_code: Option<i32>) -> (r: bool)
    ensures
        r == match exit_code {
            Some(code) => if is_windows { code < 8 } else { code == 0 },
            None => false,
        },
{
    match exit_code {
        Some(code) => if is_windows { code < 8 } else { code == 0 },
        None => false,
    }
}

/// The code of `c` after ASCII upper-casing.
pub open spec fn upper_code(c: char) -> u32 {
    if 97 <= (c as u32) <= 122 {
        ((c as u32) - 32) as u32
    } else {
        c as u32
    }
}

/// `s`, upper-cased in ASCII, is the (upper-case) word `w`.
pub open spec fn is_word(s: Seq<char>, w: Seq<char>) -> bool {
    s.len() == w.len() && forall|i: int| 0 <= i < s.len() ==> upper_code(#[trigger] s[i]) == (w[i] as u32)
}

/// `s`, upper-cased in ASCII, ends with the (upper-case) word `w`.
pub open spec fn ends_with_word(s: Seq<char>, w: Seq<char>) -> bool {
    s.len() >= w.len() && is_word(s.subrange(s.len() - w.len(), s.len() as int), w)
}

fn word_at(s: &[char], start: usize, w: &str) -> (r: bool)
    requires
        start <= s@.len(),
    ensures
        r == (s@.len() - start == w@.len() && is_word(s@.subrange(start as int, s@.len() as int), w@)),
{
    let wc = chars_of(w);
    if s.len() - start != wc.len() {
        return false;
    }
    let n = wc.len();
    let slen = s.len();
    for k in 0..n
        invariant
            n == wc@.len(),
            start + n == s@.len(),
            slen == s@.len(),
            wc@ == w@,
            forall|i: int| 0 <= i < k ==> upper_code(#[trigger] s@[start + i]) == (wc@[i] as u32),
    {
        let c = s[start + k];
        let code = c as u32;
        let up: u32 = if 97 <= code && code <= 122 { code - 32 } else { code };
        if up != (wc[k] as u32) {
            assert(s@.subrange(start as int, s@.len() as int)[k as int] == c);
            return false;
        }
    }
    assert forall|i: int| 0 <= i < s@.len() - start implies upper_code(
        #[trigger] s@.subrange(start as int, s@.len() as int)[i],
    ) == (w@[i] as u32) by {
        assert(s@.subrange(start as int, s@.len() as int)[i] == s@[start + i]);
    }
    true
}

/// The value of a string of decimal digits.
pub open spec fn digits_value(d: Seq<char>) -> int
    decreases d.len(),
{
    if d.len() == 0 {
        0
    } else {
        10 * digits_value(d.drop_last()) + ((d.last() as u32) - 48)
    }
}

/// Whether every character of `d` is an ASCII digit.
pub open spec fn all_digits(d: Seq<char>) -> bool {
    forall|i: int| 0 <= i < d.len() ==> '0' <= #[trigger] d[i] <= '9'
}

/// Whether `s` parses as an `i64` (an optional `+` or `-`, then one or
/// more decimal digits, within range) whose value is not zero.
pub open spec fn is_nonzero_i64(s: Seq<char>) -> bool {
    let negative = s.len() > 0 && s[0] == '-';
    let signed = s.len() > 0 && (s[0] == '-' || s[0] == '+');
    let d = if signed { s.drop_first() } else { s };
    let limit: int = if negative { 0x8000_0000_0000_0000 } else { 0x7fff_ffff_ffff_ffff };
    &&& d.len() > 0
    &&& all_digits(d)
    &&& digits_value(d) <= limit
    &&& digits_value(d) != 0
}

proof fn lemma_digits_grow(d: Seq<char>, k: int)
    requires
        0 <= k <= d.len(),
        all_digits(d),
    ensures
        digits_value(d.take(k)) <= digits_value(d),
        digits_value(d.take(k)) >= 0,
    decreases d.len() - k,
{
    if k < d.len() {
        lemma_digits_grow(d.drop_last(), k);
        assert(d.drop_last().take(k) =~= d.take(k));
        assert('0' <= d[d.len() - 1] <= '9');
        lemma_digits_nonneg(d.drop_last());
    } else {
        assert(d.take(k) =~= d);
        lemma_digits_nonneg(d);
    }
}

proof fn lemma_digits_nonneg(d: Seq<char>)
    requires
        all_digits(d),
    ensures
        digits_value(d) >= 0,
    decreases d.len(),
{
    if d.len() > 0 {
        assert(all_digits(d.drop_last())) by {
            assert forall|i: int| 0 <= i < d.drop_last().len() implies '0' <= #[trigger] d.drop_last()[i] <= '9' by {
                assert(d.drop_last()[i] == d[i]);
            }
        }
        lemma_digits_nonneg(d.drop_last());
        assert('0' <= d[d.len() - 1] <= '9');
    }
}

/// Whether `s` parses as a non-zero `i64`.
fn nonzero_i64(s: &[char]) -> (r: bool)
    ensures
        r == is_nonzero_i64(s@),
{
    let n = s.len();
    if n == 0 {
        return false;
    }
    let negative = s[0] == '-';
    let signed = negative || s[0] == '+';
    let start: usize = if signed { 1 } else { 0 };
    let ghost d = if signed { s@.drop_first() } else { s@ };
    assert(d =~= s@.subrange(start as int, n as int));
    let limit: u128 = if negative { 0x8000_0000_0000_0000 } else { 0x7fff_ffff_ffff_ffff };
    if start == n {
        return false;
    }
    let mut acc: u128 = 0;
    let mut k: usize = start;
    while k < n
        invariant
            start <= k <= n,
            n == s@.len(),
            n > 0,
            negative == (s@[0] == '-'),
            signed == (s@[0] == '-' || s@[0] == '+'),
            start == (if signed { 1usize } else { 0usize }),
            d == (if signed { s@.drop_first() } else { s@ }),
            limit == (if negative { 0x8000_0000_0000_0000u128 } else { 0x7fff_ffff_ffff_ffffu128 }),
            d == s@.subrange(start as int, n as int),
            forall|i: int| 0 <= i < k - start ==> '0' <= #[trigger] d[i] <= '9',
            acc == digits_value(d.take(k - start)),
            acc <= limit,
            limit <= 0x8000_0000_0000_0000,
        decreases n - k,
    {
        let c = s[k];
        assert(d[k - start] == c);
        if !('0' <= c && c <= '9') {
            assert(!all_digits(d));
            assert(!is_nonzero_i64(s@));
            return false;
        }
        let digit = (c as u32 - 48) as u128;
        assert(d.take(k - start + 1).drop_last() =~= d.take(k - start));
        let next = acc * 10 + digit;
        if next > limit {
            proof {
                let j = k - start + 1;
                assert(digits_value(d.take(j)) == next);
                // the rest of the digits, if all digits, only make it larger
                if all_digits(d) {
                    lemma_digits_grow(d, j);
                    assert(digits_value(d) > limit);
                }
                assert(!is_nonzero_i64(s@));
            }
            return false;
        }
        acc = next;
        k = k + 1;
    }
    assert(d.take(n - start) =~= d);
    acc != 0
}

/// Whether CMake reads `value` as true: `ON`, `YES`, `TRUE`, `Y` (in any
/// letter case) or a non-zero integer. `OFF`, `NO`, `FALSE`, `N`,
/// `IGNORE`, `NOTFOUND`, the empty string and anything ending in
/// `-NOTFOUND` are false.
pub open spec fn cmake_true(value: Seq<char>) -> bool {
    if is_word(value, "ON"@) || is_word(value, "YES"@) || is_word(value, "TRUE"@) || is_word(value, "Y"@) {
        true
    } else if is_word(value, "OFF"@) || is_word(value, "NO"@) || is_word(value, "FALSE"@) || is_word(value, "N"@)
        || is_word(value, "IGNORE"@) || is_word(value, "NOTFOUND"@) || value.len() == 0 {
        false
    } else if ends_with_word(value, "-NOTFOUND"@) {
        false
    } else {
        is_nonzero_i64(value)
    }
}

fn is_word_exec(s: &[char], w: &str) -> (r: bool)
    ensures
        r == is_word(s@, w@),
{
    let r = word_at(s, 0, w);
    assert(s@.subrange(0, s@.len() as int) =~= s@);
    r
}

/// CMake's truth value of the characters of a cache entry.
fn cmake_bool_chars(value: &[char]) -> (r: bool)
    ensures
        r == cmake_true(value@),
{
    if is_word_exec(value, "ON") || is_word_exec(value, "YES") || is_word_exec(value, "TRUE") || is_word_exec(value, "Y") {
        return true;
    }
    if is_word_exec(value, "OFF") || is_word_exec(value, "NO") || is_word_exec(value, "FALSE") || is_word_exec(value, "N")
        || is_word_exec(value, "IGNORE") || is_word_exec(value, "NOTFOUND") || value.len() == 0 {
        return false;
    }
    let suffix = chars_of("-NOTFOUND");
    if value.len() >= suffix.len() && word_at(value, value.len() - suffix.len(), "-NOTFOUND") {
        return false;
    }
    nonzero_i64(value)
}


/// CMake's truth value of a cache entry.
pub fn cmake_bool_is_true(value: &str) -> (r: bool)
    ensures
        r == cmake_true(value@),
{
    let chars = chars_of(value);
    cmake_bool_chars(chars.as_slice())
}

/// The lines of `s` as a CMake cache is read: the line-feed pieces, less
/// the empty piece after a final line feed (or of empty text). A carriage
/// return before a line feed stays; trimming removes it.
pub open spec fn cache_lines(s: Seq<char>) -> Seq<Seq<char>> {
    let p = line_pieces(s);
    if p.last().len() == 0 {
        p.drop_last()
    } else {
        p
    }
}

/// Whether `s` begins with `p`.
pub open spec fn has_prefix(s: Seq<char>, p: Seq<char>) -> bool {
    p.len() <= s.len() && s.take(p.len() as int) == p
}

/// What a scan of a CMake cache has found so far: whether the library is
/// enabled, and the last library path and include directory assigned.
pub type CacheScan = (bool, Option<Seq<char>>, Option<Seq<char>>);

/// One line of the scan: the line is trimmed; an assignment to `use_key`
/// sets the switch, otherwise one to `lib_key` the library, otherwise one
/// to `inc_key` the include directory. Other lines change nothing.
pub open spec fn scan_line(
    st: CacheScan,
    line: Seq<char>,
    use_key: Seq<char>,
    lib_key: Seq<char>,
    inc_key: Seq<char>,
) -> CacheScan {
    let t = trim(line);
    if has_prefix(t, use_key) {
        (cmake_true(t.skip(use_key.len() as int)), st.1, st.2)
    } else if has_prefix(t, lib_key) {
        (st.0, Some(t.skip(lib_key.len() as int)), st.2)
    } else if has_prefix(t, inc_key) {
        (st.0, st.1, Some(t.skip(inc_key.len() as int)))
    } else {
        st
    }
}

/// The scan of `lines` in order, from nothing found.
pub open spec fn scan_lines(
    lines: Seq<Seq<char>>,
    use_key: Seq<char>,
    lib_key: Seq<char>,
    inc_key: Seq<char>,
) -> CacheScan
    decreases lines.len(),
{
    if lines.len() == 0 {
        (false, None, None)
    } else {
        scan_line(scan_lines(lines.drop_last(), use_key, lib_key, inc_key), lines.last(), use_key, lib_key, inc_key)
    }
}

/// Whether a cache value names something that was found: present, not
/// empty, and not ending in `-NOTFOUND` (letter case counts here).
pub open spec fn is_resolved(v: Option<Seq<char>>) -> bool {
    match v {
        Some(x) => x.len() > 0 && !(x.len() >= 9 && x.skip(x.len() - 9) == "-NOTFOUND"@),
        None => false,
    }
}

/// The system library that a CMake cache says to link: its path, when
/// the library is enabled and both its path and its include directory
/// were found.
pub open spec fn resolved_lib(
    contents: Seq<char>,
    use_key: Seq<char>,
    lib_key: Seq<char>,
    inc_key: Seq<char>,
) -> Option<Seq<char>> {
    let st = scan_lines(cache_lines(contents), use_key, lib_key, inc_key);
    if st.0 && is_resolved(st.1) && is_resolved(st.2) {
        st.1
    } else {
        None
    }
}

/// The characters of `s` after `p`, when `s` begins with `p`.
fn strip_prefix_chars(s: &[char], p: &[char]) -> (r: Option<Vec<char>>)
    ensures
        has_prefix(s@, p@) ==> (r matches Some(v) && v@ == s@.skip(p@.len() as int)),
        !has_prefix(s@, p@) ==> r is None,
{
    if p.len() > s.len() {
        return None;
    }
    let mut k: usize = 0;
    while k < p.len()
        invariant
            p@.len() <= s@.len(),
            0 <= k <= p@.len(),
            forall|i: int| 0 <= i < k ==> s@[i] == p@[i],
        decreases p@.len() - k,
    {
        if s[k] != p[k] {
            assert(s@.take(p@.len() as int)[k as int] != p@[k as int]);
            return None;
        }
        k = k + 1;
    }
    assert(s@.take(p@.len() as int) =~= p@);
    let mut r: Vec<char> = Vec::new();
    let mut j: usize = p.len();
    while j < s.len()
        invariant
            p@.len() <= j <= s@.len(),
            r@ == s@.subrange(p@.len() as int, j as int),
        decreases s@.len() - j,
    {
        r.push(s[j]);
        assert(r@ =~= s@.subrange(p@.len() as int, j + 1));
        j = j + 1;
    }
    assert(r@ =~= s@.skip(p@.len() as int));
    Some(r)
}

/// `s[from..to]` as a vector.
fn copy_range(s: &[char], from: usize, to: usize) -> (r: Vec<char>)
    requires
        from <= to <= s@.len(),
    ensures
        r@ == s@.subrange(from as int, to as int),
{
    let mut r: Vec<char> = Vec::new();
    let mut j: usize = from;
    while j < to
        invariant
            from <= j <= to <= s@.len(),
            r@ == s@.subrange(from as int, j as int),
        decreases to - j,
    {
        r.push(s[j]);
        assert(r@ =~= s@.subrange(from as int, j + 1));
        j = j + 1;
    }
    r
}

/// Whether `x` ends with `-NOTFOUND`, letter case counting.
fn ends_not_found(x: &[char]) -> (r: bool)
    ensures
        r == (x@.len() >= 9 && x@.skip(x@.len() - 9) == "-NOTFOUND"@),
{
    let suffix = chars_of("-NOTFOUND");
    proof {
        reveal_strlit("-NOTFOUND");
    }
    if x.len() < 9 {
        return false;
    }
    let start = x.len() - 9;
    let mut k: usize = 0;
    while k < 9
        invariant
            suffix@ == "-NOTFOUND"@,
            suffix@.len() == 9,
            start + 9 == x@.len(),
            x@.len() == x.len(),
            0 <= k <= 9,
            forall|i: int| 0 <= i < k ==> x@[start + i] == suffix@[i],
        decreases 9 - k,
    {
        if x[start + k] != suffix[k] {
            assert(x@.skip(start as int)[k as int] != suffix@[k as int]);
            return false;
        }
        k = k + 1;
    }
    assert(x@.skip(start as int) =~= suffix@);
    true
}

spec fn opt_chars(o: Option<Vec<char>>) -> Option<Seq<char>> {
    match o {
        Some(x) => Some(x@),
        None => None,
    }
}

fn resolved_value(v: &Option<Vec<char>>) -> (r: bool)
    ensures
        r == is_resolved(opt_chars(*v)),
{
    match v {
        Some(x) => x.len() > 0 && !ends_not_found(x.as_slice()),
        None => false,
    }
}

/// One step of the scan, on the raw line `raw`.
fn scan_step(
    st: (bool, Option<Vec<char>>, Option<Vec<char>>),
    raw: &[char],
    uk: &Vec<char>,
    lk: &Vec<char>,
    ik: &Vec<char>,
) -> (r: (bool, Option<Vec<char>>, Option<Vec<char>>))
    ensures
        (r.0, opt_chars(r.1), opt_chars(r.2)) == scan_line((st.0, opt_chars(st.1), opt_chars(st.2)), raw@, uk@, lk@, ik@),
{
    let (enabled, lib, inc) = st;
    let line = trim_chars(raw);
    if let Some(v) = strip_prefix_chars(line.as_slice(), uk.as_slice()) {
        (cmake_bool_chars(v.as_slice()), lib, inc)
    } else if let Some(v) = strip_prefix_chars(line.as_slice(), lk.as_slice()) {
        (enabled, Some(v), inc)
    } else if let Some(v) = strip_prefix_chars(line.as_slice(), ik.as_slice()) {
        (enabled, lib, Some(v))
    } else {
        (enabled, lib, inc)
    }
}

/// The system library a CMake cache resolves, for the given keys: see
/// `resolved_lib`.
pub fn resolved_system_lib(cache_contents: &str, use_key: &str, lib_key: &str, inc_key: &str) -> (r: Option<String>)
    ensures
        match r {
            Some(p) => resolved_lib(cache_contents@, use_key@, lib_key@, inc_key@) == Some(p@),
            None => resolved_lib(cache_contents@, use_key@, lib_key@, inc_key@) is None,
        },
{
    let s = chars_of(cache_contents);
    let uk = chars_of(use_key);
    let lk = chars_of(lib_key);
    let ik = chars_of(inc_key);
    let n = s.len();
    let mut enabled = false;
    let mut lib: Option<Vec<char>> = None;
    let mut inc: Option<Vec<char>> = None;
    let mut start: usize = 0;
    let mut i: usize = 0;
    proof {
        assert(s@.take(0) =~= Seq::<char>::empty());
    }
    while i < n
        invariant
            n == s@.len(),
            s@ == cache_contents@,
            uk@ == use_key@,
            lk@ == lib_key@,
            ik@ == inc_key@,
            start <= i <= n,
            line_pieces(s@.take(i as int)).last() == s@.subrange(start as int, i as int),
            (enabled, opt_chars(lib), opt_chars(inc)) == scan_lines(
                line_pieces(s@.take(i as int)).drop_last(),
                use_key@,
                lib_key@,
                inc_key@,
            ),
        decreases n - i,
    {
        proof {
            lemma_line_pieces_nonempty(s@.take(i as int));
            lemma_line_pieces_step(s@, i as int);
        }
        let ghost pieces = line_pieces(s@.take(i as int));
        if s[i] == '\n' {
            let raw = copy_range(s.as_slice(), start, i);
            let (e, l, c) = scan_step((enabled, lib, inc), raw.as_slice(), &uk, &lk, &ik);
            enabled = e;
            lib = l;
            inc = c;
            proof {
                assert(pieces.drop_last().push(pieces.last()) =~= pieces);
                assert(line_pieces(s@.take(i + 1)).drop_last() =~= pieces);
                assert(s@.subrange(i + 1, i + 1) =~= Seq::<char>::empty());
            }
            start = i + 1;
        } else {
            proof {
                assert(line_pieces(s@.take(i + 1)).drop_last() =~= pieces.drop_last());
                assert(s@.subrange(start as int, i + 1) =~= s@.subrange(start as int, i as int).push(s@[i as int]));
            }
        }
        i = i + 1;
    }
    proof {
        lemma_line_pieces_nonempty(s@);
        assert(s@.take(n as int) =~= s@);
    }
    if start < n {
        let ghost pieces = line_pieces(s@);
        let raw = copy_range(s.as_slice(), start, n);
        let (e, l, c) = scan_step((enabled, lib, inc), raw.as_slice(), &uk, &lk, &ik);
        enabled = e;
        lib = l;
        inc = c;
        proof {
            assert(pieces.drop_last().push(pieces.last()) =~= pieces);
        }
    }
    assert((enabled, opt_chars(lib), opt_chars(inc)) == scan_lines(cache_lines(s@), use_key@, lib_key@, inc_key@));
    let lib_ok = resolved_value(&lib);
    let inc_ok = resolved_value(&inc);
    if enabled && lib_ok && inc_ok {
        match lib {
            Some(v) => Some(string_from_chars(v.as_slice())),
            None => None,
        }
    } else {
        None
    }
}

/// The `pcaudio` library a CMake cache resolves.
pub fn resolved_pcaudio_lib(cache_contents: &str) -> (r: Option<String>)
    ensures
        match r {
            Some(p) => resolved_lib(cache_contents@, "USE_LIBPCAUDIO:BOOL="@, "PCAUDIO_LIB:FILEPATH="@, "PCAUDIO_INC:PATH="@) == Some(p@),
            None => resolved_lib(cache_contents@, "USE_LIBPCAUDIO:BOOL="@, "PCAUDIO_LIB:FILEPATH="@, "PCAUDIO_INC:PATH="@) is None,
        },
{
    resolved_system_lib(cache_contents, "USE_LIBPCAUDIO:BOOL=", "PCAUDIO_LIB:FILEPATH=", "PCAUDIO_INC:PATH=")
}

/// The `sonic` library a CMake cache resolves.
pub fn resolved_sonic_lib(cache_contents: &str) -> (r: Option<String>)
    ensures
        match r {
            Some(p) => resolved_lib(cache_contents@, "USE_LIBSONIC:BOOL="@, "SONIC_LIB:FILEPATH="@, "SONIC_INC:PATH="@) == Some(p@),
            None => resolved_lib(cache_contents@, "USE_LIBSONIC:BOOL="@, "SONIC_LIB:FILEPATH="@, "SONIC_INC:PATH="@) is None,
        },
{
    resolved_system_lib(cache_contents, "USE_LIBSONIC:BOOL=", "SONIC_LIB:FILEPATH=", "SONIC_INC:PATH=")
}

proof fn lemma_pieces_of_plain_line(s: Seq<char>, w: Seq<char>)
    requires
        forall|i: int| 0 <= i < w.len() ==> #[trigger] w[i] != '\n',
    ensures
        line_pieces(s + seq!['\n'] + w) == line_pieces(s).push(w),
        line_pieces(w) == seq![w],
    decreases w.len(),
{
    if w.len() == 0 {
        assert(w =~= Seq::<char>::empty());
        let t = s + seq!['\n'];
        assert(s + seq!['\n'] + w =~= t);
        assert(t.drop_last() =~= s);
        assert(t.last() == '\n');
        assert(line_pieces(w) == seq![Seq::<char>::empty()]);
    } else {
        let v = w.drop_last();
        assert forall|i: int| 0 <= i < v.len() implies #[trigger] v[i] != '\n' by {
            assert(v[i] == w[i]);
        }
        lemma_pieces_of_plain_line(s, v);
        assert((s + seq!['\n'] + w).drop_last() =~= s + seq!['\n'] + v);
        assert((s + seq!['\n'] + w).last() == w.last());
        assert(w.last() != '\n');
        assert(v.push(w.last()) =~= w);
        let parts = line_pieces(s).push(v);
        assert(parts.update(parts.len() - 1, parts.last().push(w.last())) =~= line_pieces(s).push(w));
        assert(seq![v].update(0, v.push(w.last())) =~= seq![w]);
    }
}

/// The use switch is obeyed: where the last line of a cache assigns the
/// use key a value that CMake reads as false (`OFF`, for one), no library
/// is resolved, whatever the lines before it say and whether or not a
/// line feed ends the cache; so too for a cache of that line alone.
pub proof fn lemma_switched_off_resolves_nothing(
    before: Seq<char>,
    value: Seq<char>,
    use_key: Seq<char>,
    lib_key: Seq<char>,
    inc_key: Seq<char>,
)
    requires
        use_key.len() > 0,
        !is_white_space(use_key[0]),
        value.len() > 0,
        !is_white_space(value.last()),
        forall|i: int| 0 <= i < use_key.len() ==> #[trigger] use_key[i] != '\n',
        forall|i: int| 0 <= i < value.len() ==> #[trigger] value[i] != '\n',
        !cmake_true(value),
    ensures
        resolved_lib(before + seq!['\n'] + use_key + value, use_key, lib_key, inc_key) is None,
        resolved_lib(before + seq!['\n'] + use_key + value + seq!['\n'], use_key, lib_key, inc_key) is None,
        resolved_lib(use_key + value, use_key, lib_key, inc_key) is None,
{
    let line = use_key + value;
    assert forall|i: int| 0 <= i < line.len() implies #[trigger] line[i] != '\n' by {
        if i < use_key.len() {
            assert(line[i] == use_key[i]);
        } else {
            assert(line[i] == value[i - use_key.len()]);
        }
    }
    assert(line[0] == use_key[0]);
    assert(line.last() == value.last());
    assert(trim_start(line) == line);
    assert(trim_end(line) == line);
    assert(trim(line) == line);
    assert(line.take(use_key.len() as int) =~= use_key);
    assert(line.skip(use_key.len() as int) =~= value);
    assert(has_prefix(trim(line), use_key));
    assert(scan_line((false, None, None), line, use_key, lib_key, inc_key).0 == false);
    lemma_pieces_of_plain_line(before, line);
    let x = before + seq!['\n'] + line;
    assert(before + seq!['\n'] + use_key + value =~= x);
    let pieces = line_pieces(before).push(line);
    assert(cache_lines(x) == pieces);
    assert(pieces.drop_last() =~= line_pieces(before));
    assert(scan_lines(pieces, use_key, lib_key, inc_key).0 == false);
    let y = x + seq!['\n'];
    assert(y.drop_last() =~= x);
    assert(line_pieces(y) == pieces.push(Seq::<char>::empty()));
    assert(pieces.push(Seq::<char>::empty()).drop_last() =~= pieces);
    assert(cache_lines(y) == pieces);
    assert(before + seq!['\n'] + use_key + value + seq!['\n'] =~= y);
    assert(cache_lines(line) == seq![line]);
    assert(seq![line].drop_last() =~= Seq::<Seq<char>>::empty());
    assert(scan_lines(seq![line], use_key, lib_key, inc_key).0 == false);
}

/// A library is only ever resolved where the scan of the cache left its
/// use switch on.
pub proof fn lemma_resolved_needs_switch(
    contents: Seq<char>,
    use_key: Seq<char>,
    lib_key: Seq<char>,
    inc_key: Seq<char>,
)
    ensures
        resolved_lib(contents, use_key, lib_key, inc_key) is Some ==> scan_lines(
            cache_lines(contents),
            use_key,
            lib_key,
            inc_key,
        ).0,
{
}

proof fn lemma_upper_code_fixes_plain(x: char, y: char)
    requires
        upper_code(x) == upper_code(y),
        ('0' <= x <= '9') || x == '+' || x == '-',
    ensures
        x == y,
{
}

proof fn lemma_is_word_ignores_case(a: Seq<char>, b: Seq<char>, w: Seq<char>)
    requires
        a.len() == b.len(),
        forall|i: int| 0 <= i < a.len() ==> upper_code(#[trigger] a[i]) == upper_code(b[i]),
    ensures
        is_word(a, w) == is_word(b, w),
{
    if is_word(a, w) {
        assert forall|i: int| 0 <= i < b.len() implies upper_code(#[trigger] b[i]) == (w[i] as u32) by {
            assert(upper_code(a[i]) == upper_code(b[i]));
        }
    }
    if is_word(b, w) {
        assert forall|i: int| 0 <= i < a.len() implies upper_code(#[trigger] a[i]) == (w[i] as u32) by {
            assert(upper_code(a[i]) == upper_code(b[i]));
        }
    }
}

proof fn lemma_nonzero_i64_ignores_case(a: Seq<char>, b: Seq<char>)
    requires
        a.len() == b.len(),
        forall|i: int| 0 <= i < a.len() ==> upper_code(#[trigger] a[i]) == upper_code(b[i]),
    ensures
        is_nonzero_i64(a) == is_nonzero_i64(b),
{
    if a.len() > 0 {
        assert(upper_code(a[0]) == upper_code(b[0]));
        if a[0] == '-' || a[0] == '+' {
            lemma_upper_code_fixes_plain(a[0], b[0]);
        }
        if b[0] == '-' || b[0] == '+' {
            lemma_upper_code_fixes_plain(b[0], a[0]);
        }
        let signed = a[0] == '-' || a[0] == '+';
        let da = if signed { a.drop_first() } else { a };
        let db = if signed { b.drop_first() } else { b };
        assert forall|i: int| 0 <= i < da.len() implies upper_code(#[trigger] da[i]) == upper_code(db[i]) by {
            if signed {
                assert(da[i] == a[i + 1] && db[i] == b[i + 1]);
                assert(upper_code(a[i + 1]) == upper_code(b[i + 1]));
            } else {
                assert(upper_code(a[i]) == upper_code(b[i]));
            }
        }
        if all_digits(da) {
            assert forall|i: int| 0 <= i < da.len() implies da[i] == db[i] by {
                assert('0' <= da[i] <= '9');
                assert(upper_code(da[i]) == upper_code(db[i]));
                lemma_upper_code_fixes_plain(da[i], db[i]);
            }
            assert(da =~= db);
        }
        if all_digits(db) {
            assert forall|i: int| 0 <= i < db.len() implies da[i] == db[i] by {
                assert('0' <= db[i] <= '9');
                assert(upper_code(da[i]) == upper_code(db[i]));
                lemma_upper_code_fixes_plain(db[i], da[i]);
            }
            assert(da =~= db);
        }
    }
}

/// CMake reads a boolean without regard to letter case: two values that
/// agree once upper-cased (in ASCII) are read alike.
pub proof fn lemma_cmake_true_ignores_case(a: Seq<char>, b: Seq<char>)
    requires
        a.len() == b.len(),
        forall|i: int| 0 <= i < a.len() ==> upper_code(#[trigger] a[i]) == upper_code(b[i]),
    ensures
        cmake_true(a) == cmake_true(b),
{
    lemma_is_word_ignores_case(a, b, "ON"@);
    lemma_is_word_ignores_case(a, b, "YES"@);
    lemma_is_word_ignores_case(a, b, "TRUE"@);
    lemma_is_word_ignores_case(a, b, "Y"@);
    lemma_is_word_ignores_case(a, b, "OFF"@);
    lemma_is_word_ignores_case(a, b, "NO"@);
    lemma_is_word_ignores_case(a, b, "FALSE"@);
    lemma_is_word_ignores_case(a, b, "N"@);
    lemma_is_word_ignores_case(a, b, "IGNORE"@);
    lemma_is_word_ignores_case(a, b, "NOTFOUND"@);
    let w = "-NOTFOUND"@;
    if a.len() >= w.len() {
        let sa = a.subrange(a.len() - w.len(), a.len() as int);
        let sb = b.subrange(b.len() - w.len(), b.len() as int);
        assert forall|i: int| 0 <= i < sa.len() implies upper_code(#[trigger] sa[i]) == upper_code(sb[i]) by {
            assert(sa[i] == a[a.len() - w.len() + i]);
            assert(sb[i] == b[b.len() - w.len() + i]);
            assert(upper_code(a[a.len() - w.len() + i]) == upper_code(b[b.len() - w.len() + i]));
        }
        lemma_is_word_ignores_case(sa, sb, w);
    }
    lemma_nonzero_i64_ignores_case(a, b);
}

/// The Android ABI directory of the Rust target architectures the build
/// supports.
pub open spec fn android_abi_of(target_arch: Seq<char>) -> Option<Seq<char>> {
    if target_arch == "aarch64"@ {
        Some("arm64-v8a"@)
    } else if target_arch == "arm"@ {
        Some("armeabi-v7a"@)
    } else if target_arch == "x86"@ {
        Some("x86"@)
    } else if target_arch == "x86_64"@ {
        Some("x86_64"@)
    } else {
        None
    }
}

/// The Android ABI of a supported target architecture.
pub fn android_abi(target_arch: &str) -> (r: &'static str)
    requires
        android_abi_of(target_arch@) is Some,
    ensures
        android_abi_of(target_arch@) == Some(r@),
{
    if str_eq(target_arch, "aarch64") {
        "arm64-v8a"
    } else if str_eq(target_arch, "arm") {
        "armeabi-v7a"
    } else if str_eq(target_arch, "x86") {
        "x86"
    } else {
        "x86_64"
    }
}

/// The file pattern of the libraries a build leaves to link against.
pub open spec fn library_pattern_of(target_os: Seq<char>, build_shared_libs: bool) -> Seq<char> {
    if target_os == "windows"@ {
        "*.lib"@
    } else if target_os == "macos"@ {
        if build_shared_libs { "*.dylib"@ } else { "*.a"@ }
    } else if build_shared_libs {
        "*.so"@
    } else {
        "*.a"@
    }
}

/// The file pattern of the libraries to link against.
pub fn library_pattern(target_os: &str, build_shared_libs: bool) -> (r: &'static str)
    ensures
        r@ == library_pattern_of(target_os@, build_shared_libs),
{
    if str_eq(target_os, "windows") {
        "*.lib"
    } else if str_eq(target_os, "macos") {
        if build_shared_libs { "*.dylib" } else { "*.a" }
    } else if build_shared_libs {
        "*.so"
    } else {
        "*.a"
    }
}

/// The file pattern of the shared libraries to ship beside a binary.
pub fn shared_library_pattern(target_os: &str) -> (r: &'static str)
    ensures
        r@ == (if target_os@ == "windows"@ {
            "*.dll"@
        } else if target_os@ == "macos"@ {
            "*.dylib"@
        } else {
            "*.so"@
        }),
{
    if str_eq(target_os, "windows") {
        "*.dll"
    } else if str_eq(target_os, "macos") {
        "*.dylib"
    } else {
        "*.so"
    }
}

/// The NDK prebuilt-toolchain directory of a build host's system.
pub fn ndk_host_tag(host_os: &str) -> (r: &'static str)
    ensures
        r@ == (if host_os@ == "macos"@ {
            "darwin-x86_64"@
        } else if host_os@ == "windows"@ {
            "windows-x86_64"@
        } else {
            "linux-x86_64"@
        }),
{
    if str_eq(host_os, "macos") {
        "darwin-x86_64"
    } else if str_eq(host_os, "windows") {
        "windows-x86_64"
    } else {
        "linux-x86_64"
    }
}

/// `s` without a leading `p`, when it has one.
pub open spec fn without_prefix(s: Seq<char>, p: Seq<char>) -> Option<Seq<char>> {
    if has_prefix(s, p) {
        Some(s.skip(p.len() as int))
    } else {
        None
    }
}

/// The name a library file is linked by: its stem without a leading
/// `lib`.
pub fn lib_name_from_stem(stem: &str) -> (r: String)
    ensures
        r@ == (match without_prefix(stem@, "lib"@) {
            Some(rest) => rest,
            None => stem@,
        }),
{
    let chars = chars_of(stem);
    let prefix = chars_of("lib");
    match strip_prefix_chars(chars.as_slice(), prefix.as_slice()) {
        Some(rest) => string_from_chars(rest.as_slice()),
        None => owned(stem),
    }
}

/// How a system library is linked: statically for an `.a` archive,
/// dynamically otherwise.
pub fn link_kind(extension: Option<&str>) -> (r: &'static str)
    ensures
        r@ == (if extension matches Some(e) && e@ == "a"@ {
            "static"@
        } else {
            "dylib"@
        }),
{
    match extension {
        Some(e) => if str_eq(e, "a") { "static" } else { "dylib" },
        None => "dylib",
    }
}

/// The name a system library is linked by: its file stem without the
/// leading `lib`; `default_name` when there is no stem or it does not
/// start with `lib`.
pub fn link_name(stem: Option<&str>, default_name: &str) -> (r: String)
    ensures
        r@ == (match stem {
            Some(s) => match without_prefix(s@, "lib"@) {
                Some(rest) => rest,
                None => default_name@,
            },
            None => default_name@,
        }),
{
    match stem {
        Some(s) => {
            let chars = chars_of(s);
            let prefix = chars_of("lib");
            match strip_prefix_chars(chars.as_slice(), prefix.as_slice()) {
                Some(rest) => string_from_chars(rest.as_slice()),
                None => owned(default_name),
            }
        },
        None => owned(default_name),
    }
}

/// `s` with every leading repetition of `p` removed, as
/// `str::trim_start_matches` does.
pub open spec fn strip_repeated_prefix(s: Seq<char>, p: Seq<char>) -> Seq<char>
    decreases s.len(),
{
    if p.len() > 0 && has_prefix(s, p) {
        strip_repeated_prefix(s.skip(p.len() as int), p)
    } else {
        s
    }
}

/// The value of `s` read as a `u32` the way `str::parse` reads it: an
/// optional `+`, then one or more decimal digits, within range.
pub open spec fn u32_value(s: Seq<char>) -> Option<int> {
    let d = if s.len() > 0 && s[0] == '+' { s.drop_first() } else { s };
    if d.len() > 0 && all_digits(d) && digits_value(d) <= 0xffff_ffff {
        Some(digits_value(d))
    } else {
        None
    }
}

/// The Android API level a build targets: the number in `android-NN`
/// (every leading `android-` removed), or 21 when there is none or it is
/// not a number.
pub open spec fn api_level_of(platform: Option<Seq<char>>) -> int {
    match platform {
        Some(p) => match u32_value(strip_repeated_prefix(p, "android-"@)) {
            Some(v) => v,
            None => 21,
        },
        None => 21,
    }
}

fn strip_repeated(s: &[char], p: &[char]) -> (r: Vec<char>)
    ensures
        r@ == strip_repeated_prefix(s@, p@),
    decreases s@.len(),
{
    if p.len() == 0 {
        let mut r: Vec<char> = Vec::new();
        let mut k: usize = 0;
        while k < s.len()
            invariant
                k <= s@.len(),
                r@ == s@.take(k as int),
            decreases s@.len() - k,
        {
            r.push(s[k]);
            assert(r@ =~= s@.take(k + 1));
            k = k + 1;
        }
        assert(s@.take(s@.len() as int) =~= s@);
        return r;
    }
    match strip_prefix_chars(s, p) {
        Some(rest) => {
            let r = strip_repeated(rest.as_slice(), p);
            r
        },
        None => {
            let r = copy_range(s, 0, s.len());
            assert(s@.subrange(0, s@.len() as int) =~= s@);
            r
        },
    }
}

fn parse_u32(s: &[char]) -> (r: Option<u32>)
    ensures
        match r {
            Some(v) => u32_value(s@) == Some(v as int),
            None => u32_value(s@) is None,
        },
{
    let n = s.len();
    let start: usize = if n > 0 && s[0] == '+' { 1 } else { 0 };
    let ghost d = if n > 0 && s@[0] == '+' { s@.drop_first() } else { s@ };
    assert(d =~= s@.subrange(start as int, n as int));
    if start == n {
        return None;
    }
    let mut acc: u64 = 0;
    let mut k: usize = start;
    while k < n
        invariant
            start <= k <= n,
            n == s@.len(),
            n > 0,
            start == (if s@[0] == '+' { 1usize } else { 0usize }),
            d == (if s@[0] == '+' { s@.drop_first() } else { s@ }),
            d == s@.subrange(start as int, n as int),
            forall|i: int| 0 <= i < k - start ==> '0' <= #[trigger] d[i] <= '9',
            acc == digits_value(d.take(k - start)),
            acc <= 0xffff_ffff,
        decreases n - k,
    {
        let c = s[k];
        assert(d[k - start] == c);
        if !('0' <= c && c <= '9') {
            assert(!all_digits(d));
            return None;
        }
        let digit = (c as u32 - 48) as u64;
        assert(d.take(k - start + 1).drop_last() =~= d.take(k - start));
        let next = acc * 10 + digit;
        if next > 0xffff_ffff {
            proof {
                let j = k - start + 1;
                assert(digits_value(d.take(j)) == next);
                if all_digits(d) {
                    lemma_digits_grow(d, j);
                }
            }
            return None;
        }
        acc = next;
        k = k + 1;
    }
    assert(d.take(n - start) =~= d);
    Some(acc as u32)
}

/// The Android API level a build targets, from the `ANDROID_PLATFORM`
/// setting if there is one.
pub fn android_api_level(platform: Option<&str>) -> (r: u32)
    ensures
        r == api_level_of(match platform {
            Some(p) => Some(p@),
            None => None,
        }),
{
    match platform {
        Some(p) => {
            let chars = chars_of(p);
            let prefix = chars_of("android-");
            let rest = strip_repeated(chars.as_slice(), prefix.as_slice());
            match parse_u32(rest.as_slice()) {
                Some(v) => v,
                None => 21,
            }
        },
        None => 21,
    }
}

} // verus!
