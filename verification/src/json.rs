//! A small JSON codec: scanning string and unsigned-integer fields out of a
//! response body, escaping and unescaping strings, and rendering unsigned
//! integers.
//!
//! Reading is done by a scanner: a field is found at the first occurrence of
//! its quoted key in key position — right after an object opener or a comma —
//! at whatever nesting depth that occurrence lies. The spec functions below
//! state exactly that, and every reader's contract goes through them.
use vstd::prelude::*;
use vstd::string::StrSliceExecFns;
use vstd::string::StringExecFns;

verus! {

pub open spec fn is_ws_char(c: char) -> bool {
    c == ' ' || c == '\t' || c == '\n' || c == '\r'
}

pub open spec fn is_digit_char(c: char) -> bool {
    48 <= (c as u32) <= 57
}

/// The decimal digit (0-9) or lowercase hex digit (10-15) for a nibble.
pub open spec fn digit_char(n: int) -> char {
    if n < 10 {
        (48 + n) as char
    } else {
        (87 + n) as char
    }
}

/// Index of the first non-whitespace character at or after `i`.
pub open spec fn spec_skip_ws(s: Seq<char>, i: int) -> int
    decreases s.len() - i,
{
    if 0 <= i < s.len() && is_ws_char(s[i]) {
        spec_skip_ws(s, i + 1)
    } else {
        i
    }
}

/// Index of the first non-digit character at or after `i`.
pub open spec fn spec_skip_digits(s: Seq<char>, i: int) -> int
    decreases s.len() - i,
{
    if 0 <= i < s.len() && is_digit_char(s[i]) {
        spec_skip_digits(s, i + 1)
    } else {
        i
    }
}

/// The quoted key `"key"` starts exactly at position `i`.
pub open spec fn key_at(s: Seq<char>, key: Seq<char>, i: int) -> bool {
    &&& 0 <= i
    &&& i + key.len() + 2 <= s.len()
    &&& s[i] == '"'
    &&& s.subrange(i + 1, i + 1 + key.len()) == key
    &&& s[i + 1 + key.len()] == '"'
}

/// The position of the last character before `i` that is not whitespace, or -1.
pub open spec fn spec_prev_non_ws(s: Seq<char>, i: int) -> int
    decreases i,
{
    if i <= 0 {
        -1
    } else if is_ws_char(s[i - 1]) {
        spec_prev_non_ws(s, i - 1)
    } else {
        i - 1
    }
}

/// The quoted key stands at `i` in key position: right after an object opener
/// or a separating comma (whitespace aside). A quote inside a string value is
/// always escaped, so its preceding character is a backslash and it never
/// stands in key position.
pub open spec fn key_starts_field(s: Seq<char>, key: Seq<char>, i: int) -> bool {
    &&& key_at(s, key, i)
    &&& spec_prev_non_ws(s, i) >= 0
    &&& (s[spec_prev_non_ws(s, i)] == '{' || s[spec_prev_non_ws(s, i)] == ',')
}

/// Position of the first occurrence of the quoted key in key position, at or
/// after `from`.
pub open spec fn spec_find_key(s: Seq<char>, key: Seq<char>, from: int) -> Option<int>
    decreases s.len() - from,
{
    if from < 0 || from + key.len() + 2 > s.len() {
        None
    } else if key_starts_field(s, key, from) {
        Some(from)
    } else {
        spec_find_key(s, key, from + 1)
    }
}

/// The character written by a backslash escape inside a JSON string literal.
/// Unicode escapes (`\u`) are not read: they yield no value, never a wrong one.
pub open spec fn spec_unescape_char(c: char) -> Option<char> {
    if c == '"' {
        Some('"')
    } else if c == '\\' {
        Some('\\')
    } else if c == '/' {
        Some('/')
    } else if c == 'b' {
        Some('\u{0008}')
    } else if c == 'f' {
        Some('\u{000c}')
    } else if c == 'n' {
        Some('\n')
    } else if c == 'r' {
        Some('\r')
    } else if c == 't' {
        Some('\t')
    } else {
        None
    }
}

/// Reads a JSON string literal whose content starts at `from`: the unescaped
/// content and the position just after the closing quote. A literal that never
/// closes, carries a raw control character, or uses an escape this reader does
/// not know yields no value.
pub open spec fn spec_read_string(s: Seq<char>, from: int) -> Option<(Seq<char>, int)>
    decreases s.len() - from,
{
    if from < 0 || from >= s.len() {
        None
    } else if s[from] == '"' {
        Some((Seq::empty(), from + 1))
    } else if s[from] == '\\' {
        if from + 1 < s.len() {
            match spec_unescape_char(s[from + 1]) {
                None => None,
                Some(c) => match spec_read_string(s, from + 2) {
                    None => None,
                    Some(p) => Some((seq![c] + p.0, p.1)),
                },
            }
        } else {
            None
        }
    } else if (s[from] as u32) < 32 {
        None
    } else {
        match spec_read_string(s, from + 1) {
            None => None,
            Some(p) => Some((seq![s[from]] + p.0, p.1)),
        }
    }
}

/// Position of the first occurrence of `c` at or after `from`.
pub open spec fn spec_find_char(s: Seq<char>, c: char, from: int) -> Option<int>
    decreases s.len() - from,
{
    if from < 0 || from >= s.len() {
        None
    } else if s[from] == c {
        Some(from)
    } else {
        spec_find_char(s, c, from + 1)
    }
}

/// Where the value of `key` starts: after the first occurrence of the quoted
/// key, a possibly space-surrounded colon must follow.
pub open spec fn spec_field_value_start(s: Seq<char>, key: Seq<char>) -> Option<int> {
    match spec_find_key(s, key, 0) {
        None => None,
        Some(i) => {
            let j = spec_skip_ws(s, i + key.len() + 2);
            if j < s.len() && s[j] == ':' {
                Some(spec_skip_ws(s, j + 1))
            } else {
                None
            }
        },
    }
}

/// The content of the string value of `key`: the unescaped characters of the
/// string literal that follows the key's colon.
pub open spec fn spec_json_string_field(s: Seq<char>, key: Seq<char>) -> Option<Seq<char>> {
    match spec_field_value_start(s, key) {
        None => None,
        Some(v) => if v < s.len() && s[v] == '"' {
            match spec_read_string(s, v + 1) {
                None => None,
                Some(p) => Some(p.0),
            }
        } else {
            None
        },
    }
}

/// The value of a run of decimal digits, most significant first.
pub open spec fn spec_dec_value(d: Seq<char>) -> int
    decreases d.len(),
{
    if d.len() == 0 {
        0
    } else {
        spec_dec_value(d.drop_last()) * 10 + ((d.last() as u32) - 48)
    }
}

/// The unsigned-integer value of `key`: a run of one to nineteen decimal
/// digits (so that the value always fits in 64 bits).
pub open spec fn spec_json_u64_field(s: Seq<char>, key: Seq<char>) -> Option<u64> {
    match spec_field_value_start(s, key) {
        None => None,
        Some(v) => {
            let e = spec_skip_digits(s, v);
            if v < e <= v + 19 {
                Some(spec_dec_value(s.subrange(v, e)) as u64)
            } else {
                None
            }
        },
    }
}

pub open spec fn pow10(n: nat) -> int
    decreases n,
{
    if n == 0 {
        1
    } else {
        10 * pow10((n - 1) as nat)
    }
}

proof fn lemma_dec_value_bound(d: Seq<char>)
    requires
        forall|k: int| 0 <= k < d.len() ==> is_digit_char(d[k]),
    ensures
        0 <= spec_dec_value(d) < pow10(d.len()),
    decreases d.len(),
{
    if d.len() > 0 {
        lemma_dec_value_bound(d.drop_last());
    }
}

proof fn lemma_skip_ws_bounds(s: Seq<char>, i: int)
    requires
        0 <= i <= s.len(),
    ensures
        i <= spec_skip_ws(s, i) <= s.len(),
    decreases s.len() - i,
{
    if i < s.len() && is_ws_char(s[i]) {
        lemma_skip_ws_bounds(s, i + 1);
    }
}

proof fn lemma_skip_digits_bounds(s: Seq<char>, i: int)
    requires
        0 <= i <= s.len(),
    ensures
        i <= spec_skip_digits(s, i) <= s.len(),
        forall|k: int| i <= k < spec_skip_digits(s, i) ==> is_digit_char(s[k]),
    decreases s.len() - i,
{
    if i < s.len() && is_digit_char(s[i]) {
        lemma_skip_digits_bounds(s, i + 1);
    }
}

pub(crate) fn skip_ws(s: &str, from: usize, n: usize) -> (r: usize)
    requires
        n == s@.len(),
        from <= n,
    ensures
        r == spec_skip_ws(s@, from as int),
        from <= r <= n,
{
    let mut i = from;
    loop
        invariant
            from <= i <= n,
            n == s@.len(),
            spec_skip_ws(s@, from as int) == spec_skip_ws(s@, i as int),
        decreases n - i,
    {
        if i < n {
            let c = s.get_char(i);
            if c == ' ' || c == '\t' || c == '\n' || c == '\r' {
                i = i + 1;
            } else {
                return i;
            }
        } else {
            return i;
        }
    }
}

pub(crate) fn skip_digits(s: &str, from: usize, n: usize) -> (r: usize)
    requires
        n == s@.len(),
        from <= n,
    ensures
        r == spec_skip_digits(s@, from as int),
        from <= r <= n,
{
    let mut i = from;
    loop
        invariant
            from <= i <= n,
            n == s@.len(),
            spec_skip_digits(s@, from as int) == spec_skip_digits(s@, i as int),
        decreases n - i,
    {
        if i < n {
            let u = s.get_char(i) as u32;
            if 48 <= u && u <= 57 {
                i = i + 1;
            } else {
                return i;
            }
        } else {
            return i;
        }
    }
}

fn key_at_exec(s: &str, key: &str, i: usize, n: usize, kl: usize) -> (b: bool)
    requires
        n == s@.len(),
        kl == key@.len(),
        i <= n,
    ensures
        b == key_at(s@, key@, i as int),
{
    if n < 2 || i > n - 2 || kl > n - 2 - i {
        return false;
    }
    if s.get_char(i) != '"' {
        return false;
    }
    if s.get_char(i + 1 + kl) != '"' {
        return false;
    }
    let mut k: usize = 0;
    while k < kl
        invariant
            n == s@.len(),
            kl == key@.len(),
            i + kl + 2 <= n,
            k <= kl,
            s@[i as int] == '"',
            s@[i + 1 + kl] == '"',
            forall|j: int| 0 <= j < k ==> s@[i + 1 + j] == key@[j],
        decreases kl - k,
    {
        if s.get_char(i + 1 + k) != key.get_char(k) {
            proof {
                if key_at(s@, key@, i as int) {
                    assert(s@.subrange(i + 1, i + 1 + kl as int)[k as int] == key@[k as int]);
                }
            }
            return false;
        }
        k = k + 1;
    }
    proof {
        assert(s@.subrange(i + 1, i + 1 + kl as int) =~= key@);
    }
    true
}

fn prev_is_delimiter(s: &str, i: usize, n: usize) -> (b: bool)
    requires
        n == s@.len(),
        i <= n,
    ensures
        b == ({
            let p = spec_prev_non_ws(s@, i as int);
            p >= 0 && (s@[p] == '{' || s@[p] == ',')
        }),
{
    let mut k = i;
    loop
        invariant
            k <= i <= n,
            n == s@.len(),
            spec_prev_non_ws(s@, i as int) == spec_prev_non_ws(s@, k as int),
        decreases k,
    {
        if k == 0 {
            return false;
        }
        let c = s.get_char(k - 1);
        if c == ' ' || c == '\t' || c == '\n' || c == '\r' {
            k = k - 1;
        } else {
            return c == '{' || c == ',';
        }
    }
}

fn find_key(s: &str, key: &str, n: usize) -> (r: Option<usize>)
    requires
        n == s@.len(),
    ensures
        match r {
            Some(p) => spec_find_key(s@, key@, 0) == Some(p as int) && key_at(s@, key@, p as int),
            None => spec_find_key(s@, key@, 0) is None,
        },
{
    let kl = key.unicode_len();
    let mut i: usize = 0;
    loop
        invariant
            i <= n,
            n == s@.len(),
            kl == key@.len(),
            spec_find_key(s@, key@, 0) == spec_find_key(s@, key@, i as int),
        decreases n - i,
    {
        if n < 2 || i > n - 2 || kl > n - 2 - i {
            return None;
        }
        if key_at_exec(s, key, i, n, kl) && prev_is_delimiter(s, i, n) {
            return Some(i);
        }
        i = i + 1;
    }
}

fn unescape_char(c: char) -> (r: Option<char>)
    ensures
        r == spec_unescape_char(c),
{
    if c == '"' {
        Some('"')
    } else if c == '\\' {
        Some('\\')
    } else if c == '/' {
        Some('/')
    } else if c == 'b' {
        Some('\u{0008}')
    } else if c == 'f' {
        Some('\u{000c}')
    } else if c == 'n' {
        Some('\n')
    } else if c == 'r' {
        Some('\r')
    } else if c == 't' {
        Some('\t')
    } else {
        None
    }
}

/// Reads the string literal whose content starts at `from`, per
/// `spec_read_string`.
fn read_string(s: &str, from: usize, n: usize) -> (r: Option<String>)
    requires
        n == s@.len(),
        from <= n,
    ensures
        (spec_read_string(s@, from as int) matches Some(p) ==> (r matches Some(x) && x@ == p.0)),
        (spec_read_string(s@, from as int) is None ==> r is None),
{
    let mut out = String::new();
    let mut i = from;
    loop
        invariant
            from <= i <= n,
            n == s@.len(),
            (spec_read_string(s@, i as int) matches Some(p) ==> (spec_read_string(
                s@,
                from as int,
            ) matches Some(q) && q.0 == out@ + p.0 && q.1 == p.1)),
            (spec_read_string(s@, i as int) is None ==> spec_read_string(s@, from as int) is None),
        decreases n - i,
    {
        if i >= n {
            return None;
        }
        let c = s.get_char(i);
        if c == '"' {
            proof {
                assert(out@ + Seq::<char>::empty() =~= out@);
            }
            return Some(out);
        }
        if c == '\\' {
            if i + 1 >= n {
                return None;
            }
            match unescape_char(s.get_char(i + 1)) {
                None => {
                    return None;
                },
                Some(u) => {
                    let ghost out_prev = out@;
                    out.push(u);
                    proof {
                        if spec_read_string(s@, i + 2) is Some {
                            let p = spec_read_string(s@, i + 2)->Some_0;
                            assert(out@ + p.0 =~= out_prev + (seq![u] + p.0));
                        }
                    }
                    i = i + 2;
                },
            }
        } else if (c as u32) < 32 {
            return None;
        } else {
            let ghost out_prev = out@;
            out.push(c);
            proof {
                if spec_read_string(s@, i + 1) is Some {
                    let p = spec_read_string(s@, i + 1)->Some_0;
                    assert(out@ + p.0 =~= out_prev + (seq![c] + p.0));
                }
            }
            i = i + 1;
        }
    }
}

pub(crate) fn find_char(s: &str, c: char, from: usize, n: usize) -> (r: Option<usize>)
    requires
        n == s@.len(),
        from <= n,
    ensures
        match r {
            Some(p) => spec_find_char(s@, c, from as int) == Some(p as int) && from <= p < n,
            None => spec_find_char(s@, c, from as int) is None,
        },
{
    let mut i = from;
    loop
        invariant
            from <= i <= n,
            n == s@.len(),
            spec_find_char(s@, c, from as int) == spec_find_char(s@, c, i as int),
        decreases n - i,
    {
        if i >= n {
            return None;
        }
        if s.get_char(i) == c {
            return Some(i);
        }
        i = i + 1;
    }
}

/// Where the value of `key` starts in `s`, per `spec_field_value_start`.
fn field_value_start(s: &str, key: &str, n: usize) -> (r: Option<usize>)
    requires
        n == s@.len(),
    ensures
        match r {
            Some(v) => spec_field_value_start(s@, key@) == Some(v as int) && v <= n,
            None => spec_field_value_start(s@, key@) is None,
        },
{
    let kl = key.unicode_len();
    match find_key(s, key, n) {
        None => None,
        Some(i) => {
            proof {
                lemma_skip_ws_bounds(s@, i + kl + 2);
            }
            let j = skip_ws(s, i + kl + 2, n);
            if j < n && s.get_char(j) == ':' {
                let v = skip_ws(s, j + 1, n);
                Some(v)
            } else {
                None
            }
        },
    }
}

/// Reads the string value of `key` out of `s`, per `spec_json_string_field`.
pub fn json_string_field(s: &str, key: &str) -> (r: Option<String>)
    ensures
        match spec_json_string_field(s@, key@) {
            Some(v) => r matches Some(x) && x@ == v,
            None => r is None,
        },
{
    let n = s.unicode_len();
    match field_value_start(s, key, n) {
        None => None,
        Some(v) => {
            if v < n && s.get_char(v) == '"' {
                read_string(s, v + 1, n)
            } else {
                None
            }
        },
    }
}

/// Reads the unsigned-integer value of `key` out of `s`, per `spec_json_u64_field`.
pub fn json_u64_field(s: &str, key: &str) -> (r: Option<u64>)
    ensures
        r == spec_json_u64_field(s@, key@),
{
    let n = s.unicode_len();
    match field_value_start(s, key, n) {
        None => None,
        Some(v) => {
            let e = skip_digits(s, v, n);
            proof {
                lemma_skip_digits_bounds(s@, v as int);
            }
            if v < e && e - v <= 19 {
                let mut acc: u64 = 0;
                let mut i = v;
                while i < e
                    invariant
                        v <= i <= e <= n,
                        e - v <= 19,
                        n == s@.len(),
                        e == spec_skip_digits(s@, v as int),
                        forall|k: int| v <= k < e ==> is_digit_char(s@[k]),
                        acc == spec_dec_value(s@.subrange(v as int, i as int)),
                    decreases e - i,
                {
                    proof {
                        lemma_dec_value_bound(s@.subrange(v as int, i as int));
                        reveal_with_fuel(pow10, 20);
                        assert(pow10(18) == 1000000000000000000);
                        assert(s@.subrange(v as int, i + 1).drop_last() =~= s@.subrange(
                            v as int,
                            i as int,
                        ));
                    }
                    let u = s.get_char(i) as u32;
                    acc = acc * 10 + ((u - 48) as u64);
                    i = i + 1;
                }
                proof {
                    lemma_dec_value_bound(s@.subrange(v as int, e as int));
                }
                Some(acc)
            } else {
                None
            }
        },
    }
}

/// How a single character is written inside a JSON string literal.
pub open spec fn spec_escape_char(c: char) -> Seq<char> {
    if c == '"' {
        seq!['\\', '"']
    } else if c == '\\' {
        seq!['\\', '\\']
    } else if (c as u32) < 32 {
        seq!['\\', 'u', '0', '0', digit_char((c as u32) as int / 16), digit_char(
            (c as u32) as int % 16,
        )]
    } else {
        seq![c]
    }
}

/// How a whole string is written inside a JSON string literal.
pub open spec fn spec_escape(s: Seq<char>) -> Seq<char>
    decreases s.len(),
{
    if s.len() == 0 {
        Seq::empty()
    } else {
        spec_escape(s.drop_last()) + spec_escape_char(s.last())
    }
}

fn nibble_char(u: u32) -> (c: char)
    requires
        u < 16,
    ensures
        c == digit_char(u as int),
{
    if u == 0 {
        '0'
    } else if u == 1 {
        '1'
    } else if u == 2 {
        '2'
    } else if u == 3 {
        '3'
    } else if u == 4 {
        '4'
    } else if u == 5 {
        '5'
    } else if u == 6 {
        '6'
    } else if u == 7 {
        '7'
    } else if u == 8 {
        '8'
    } else if u == 9 {
        '9'
    } else if u == 10 {
        'a'
    } else if u == 11 {
        'b'
    } else if u == 12 {
        'c'
    } else if u == 13 {
        'd'
    } else if u == 14 {
        'e'
    } else {
        'f'
    }
}

/// Appends `s`, escaped for a JSON string literal, to `out`.
pub(crate) fn push_escaped(out: &mut String, s: &str)
    ensures
        final(out)@ == old(out)@ + spec_escape(s@),
{
    let n = s.unicode_len();
    let mut i: usize = 0;
    while i < n
        invariant
            i <= n,
            n == s@.len(),
            out@ == old(out)@ + spec_escape(s@.take(i as int)),
        decreases n - i,
    {
        let c = s.get_char(i);
        let u = c as u32;
        if c == '"' {
            out.push('\\');
            out.push('"');
        } else if c == '\\' {
            out.push('\\');
            out.push('\\');
        } else if u < 32 {
            out.push('\\');
            out.push('u');
            out.push('0');
            out.push('0');
            out.push(nibble_char(u / 16));
            out.push(nibble_char(u % 16));
        } else {
            out.push(c);
        }
        proof {
            assert(s@.take(i + 1).drop_last() =~= s@.take(i as int));
            assert(s@.take(i + 1).last() == s@[i as int]);
            assert(out@ =~= old(out)@ + spec_escape(s@.take(i + 1)));
        }
        i = i + 1;
    }
    proof {
        assert(s@.take(n as int) =~= s@);
    }
}

/// A character that a JSON string literal carries unchanged: neither quote,
/// backslash, nor a control character.
pub open spec fn plain_char(c: char) -> bool {
    c != '"' && c != '\\' && (c as u32) >= 32
}

pub open spec fn all_plain(s: Seq<char>) -> bool {
    forall|k: int| 0 <= k < s.len() ==> plain_char(s[k])
}

/// Escaping a string of plain characters leaves it unchanged.
pub proof fn lemma_escape_plain(s: Seq<char>)
    requires
        all_plain(s),
    ensures
        spec_escape(s) == s,
    decreases s.len(),
{
    if s.len() > 0 {
        assert(all_plain(s.drop_last()));
        lemma_escape_plain(s.drop_last());
        assert(spec_escape_char(s.last()) =~= seq![s.last()]);
        assert(spec_escape(s) =~= s);
    }
}

/// A string literal whose content up to `end` is plain closes exactly at `end`
/// and reads back as itself.
pub proof fn lemma_read_string_plain(s: Seq<char>, from: int, end: int)
    requires
        0 <= from <= end < s.len(),
        forall|k: int| from <= k < end ==> plain_char(s[k]),
        s[end] == '"',
    ensures
        spec_read_string(s, from) == Some((s.subrange(from, end), end + 1)),
    decreases end - from,
{
    if from < end {
        lemma_read_string_plain(s, from + 1, end);
        assert(seq![s[from]] + s.subrange(from + 1, end) =~= s.subrange(from, end));
    } else {
        assert(s.subrange(from, end) =~= Seq::<char>::empty());
    }
}

/// The decimal rendering of an unsigned integer, without sign or padding.
pub open spec fn spec_u64_string(n: int) -> Seq<char>
    decreases n,
{
    if n < 10 {
        seq![digit_char(n)]
    } else {
        spec_u64_string(n / 10) + seq![digit_char(n % 10)]
    }
}

/// Appends the decimal rendering of `n` to `out`.
pub(crate) fn push_u64(out: &mut String, n: u64)
    ensures
        final(out)@ == old(out)@ + spec_u64_string(n as int),
    decreases n,
{
    if n < 10 {
        out.push(nibble_char(n as u32));
    } else {
        push_u64(out, n / 10);
        out.push(nibble_char((n % 10) as u32));
        proof {
            assert(out@ =~= old(out)@ + spec_u64_string(n as int));
        }
    }
}

} // verus!
