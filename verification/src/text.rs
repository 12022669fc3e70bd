use vstd::prelude::*;
use vstd::string::*;

verus! {

/// The decimal digit character for `d` (0..=9).
pub open spec fn digit_char(d: nat) -> char {
    if d == 0 { '0' }
    else if d == 1 { '1' }
    else if d == 2 { '2' }
    else if d == 3 { '3' }
    else if d == 4 { '4' }
    else if d == 5 { '5' }
    else if d == 6 { '6' }
    else if d == 7 { '7' }
    else if d == 8 { '8' }
    else { '9' }
}

/// The decimal rendering of `n`, without sign or leading zeros.
pub open spec fn decimal(n: nat) -> Seq<char>
    decreases n,
{
    if n < 10 {
        seq![digit_char(n)]
    } else {
        decimal(n / 10) + seq![digit_char(n % 10)]
    }
}

fn digit_str(d: u64) -> (s: &'static str)
    requires
        d < 10,
    ensures
        s@ == seq![digit_char(d as nat)],
{
    proof {
        reveal_strlit("0");
        reveal_strlit("1");
        reveal_strlit("2");
        reveal_strlit("3");
        reveal_strlit("4");
        reveal_strlit("5");
        reveal_strlit("6");
        reveal_strlit("7");
        reveal_strlit("8");
        reveal_strlit("9");
    }
    if d == 0 { "0" }
    else if d == 1 { "1" }
    else if d == 2 { "2" }
    else if d == 3 { "3" }
    else if d == 4 { "4" }
    else if d == 5 { "5" }
    else if d == 6 { "6" }
    else if d == 7 { "7" }
    else if d == 8 { "8" }
    else { "9" }
}

/// Appends the decimal rendering of `n` to `out`.
pub fn push_decimal(out: &mut String, n: u64)
    ensures
        final(out)@ == old(out)@ + decimal(n as nat),
    decreases n,
{
    if n >= 10 {
        push_decimal(out, n / 10);
    }
    out.append(digit_str(n % 10));
    assert(n >= 10 ==> decimal(n as nat) == decimal((n / 10) as nat) + seq![digit_char((n % 10) as nat)]);
}

/// The characters of `s`, one by one.
pub fn chars_of(s: &str) -> (v: Vec<char>)
    ensures
        v@ == s@,
{
    let n = s.unicode_len();
    let mut v: Vec<char> = Vec::new();
    for i in 0..n
        invariant
            n == s@.len(),
            v@ == s@.take(i as int),
    {
        v.push(s.get_char(i));
        assert(v@ =~= s@.take(i + 1));
    }
    assert(s@.take(n as int) =~= s@);
    v
}

/// The string with the characters `s[from..to]`.
pub fn string_of_range(s: &str, from: usize, to: usize) -> (r: String)
    requires
        from <= to <= s@.len(),
    ensures
        r@ == s@.subrange(from as int, to as int),
{
    String::from_str(s.substring_char(from, to))
}

/// Where the path component ending at `end` starts: just after the last
/// `/` before `end`, or 0.
pub open spec fn seg_start(p: Seq<char>, end: int) -> int
    decreases end,
{
    if end <= 0 {
        0
    } else if p[end - 1] == '/' {
        end
    } else {
        seg_start(p, end - 1)
    }
}

/// The position of the last named component of `p[..end]`, after
/// separators and `.` components at the end are passed over; none when
/// nothing is left or the last component is `..`.
pub open spec fn name_range(p: Seq<char>, end: int) -> Option<(int, int)>
    decreases end,
{
    if end <= 0 {
        None
    } else if p[end - 1] == '/' {
        name_range(p, end - 1)
    } else {
        let st = seg_start(p, end);
        if end - st == 1 && p[st] == '.' {
            name_range(p, st)
        } else if end - st == 2 && p[st] == '.' && p[st + 1] == '.' {
            None
        } else {
            Some((st, end))
        }
    }
}

/// The position of the last `.` in `p[a..b]`, or -1.
pub open spec fn last_dot(p: Seq<char>, a: int, b: int) -> int
    decreases b - a,
{
    if b <= a {
        -1
    } else if p[b - 1] == '.' {
        b - 1
    } else {
        last_dot(p, a, b - 1)
    }
}

/// The extension of the path's file name: what follows its last `.`,
/// unless it has none or its only `.` leads.
pub open spec fn extension_range(p: Seq<char>) -> Option<(int, int)> {
    match name_range(p, p.len() as int) {
        None => None,
        Some((a, b)) => {
            let d = last_dot(p, a, b);
            if d < 0 || d == a {
                None
            } else {
                Some((d + 1, b))
            }
        },
    }
}

/// The stem of the path's file name: what precedes its last `.`, or the
/// whole name when it has no `.` or its only `.` leads.
pub open spec fn stem_range(p: Seq<char>) -> Option<(int, int)> {
    match name_range(p, p.len() as int) {
        None => None,
        Some((a, b)) => {
            let d = last_dot(p, a, b);
            if d < 0 || d == a {
                Some((a, b))
            } else {
                Some((a, d))
            }
        },
    }
}

/// The part of `p` at a range.
pub open spec fn range_text(p: Seq<char>, r: Option<(int, int)>) -> Option<Seq<char>> {
    match r {
        None => None,
        Some((a, b)) => Some(p.subrange(a, b)),
    }
}

proof fn lemma_seg_start(p: Seq<char>, end: int)
    requires
        0 <= end <= p.len(),
    ensures
        0 <= seg_start(p, end) <= end,
        forall|i: int| seg_start(p, end) <= i < end ==> p[i] != '/',
        seg_start(p, end) > 0 ==> p[seg_start(p, end) - 1] == '/',
    decreases end,
{
    if end > 0 && p[end - 1] != '/' {
        lemma_seg_start(p, end - 1);
    }
}

fn seg_start_exec(c: &Vec<char>, end: usize) -> (st: usize)
    requires
        end <= c@.len(),
    ensures
        st as int == seg_start(c@, end as int),
{
    let mut i = end;
    while i > 0 && c[i - 1] != '/'
        invariant
            i <= end <= c@.len(),
            seg_start(c@, i as int) == seg_start(c@, end as int),
        decreases i,
    {
        i = i - 1;
    }
    i
}

proof fn lemma_name_range_bounds(p: Seq<char>, end: int)
    requires
        0 <= end <= p.len(),
    ensures
        name_range(p, end) matches Some((a, b)) ==> 0 <= a < b <= end,
    decreases end,
{
    if end > 0 {
        if p[end - 1] == '/' {
            lemma_name_range_bounds(p, end - 1);
        } else {
            lemma_seg_start(p, end);
            let st = seg_start(p, end);
            if end - st == 1 && p[st] == '.' {
                lemma_name_range_bounds(p, st);
            }
        }
    }
}

fn name_range_exec(c: &Vec<char>) -> (r: Option<(usize, usize)>)
    ensures
        r matches Some((a, b)) ==> name_range(c@, c@.len() as int) == Some((a as int, b as int)),
        r is None ==> name_range(c@, c@.len() as int) is None,
{
    let mut end = c.len();
    loop
        invariant
            end <= c@.len(),
            name_range(c@, end as int) == name_range(c@, c@.len() as int),
        decreases end,
    {
        if end == 0 {
            return None;
        }
        if c[end - 1] == '/' {
            end = end - 1;
        } else {
            let st = seg_start_exec(c, end);
            proof {
                lemma_seg_start(c@, end as int);
            }
            if end - st == 1 && c[st] == '.' {
                end = st;
            } else if end - st == 2 && c[st] == '.' && c[st + 1] == '.' {
                return None;
            } else {
                return Some((st, end));
            }
        }
    }
}

fn last_dot_exec(c: &Vec<char>, a: usize, b: usize) -> (d: Option<usize>)
    requires
        a <= b <= c@.len(),
    ensures
        d matches Some(x) ==> last_dot(c@, a as int, b as int) == x as int,
        d is None ==> last_dot(c@, a as int, b as int) == -1,
{
    let mut i = b;
    while i > a
        invariant
            a <= i <= b <= c@.len(),
            last_dot(c@, a as int, i as int) == last_dot(c@, a as int, b as int),
        decreases i,
    {
        if c[i - 1] == '.' {
            return Some(i - 1);
        }
        i = i - 1;
    }
    None
}

proof fn lemma_last_dot_bounds(p: Seq<char>, a: int, b: int)
    ensures
        last_dot(p, a, b) == -1 || a <= last_dot(p, a, b) < b,
    decreases b - a,
{
    if b > a && p[b - 1] != '.' {
        lemma_last_dot_bounds(p, a, b - 1);
    }
}

/// The extension of the path's file name, as written.
pub fn path_extension(path: &str) -> (ext: Option<String>)
    ensures
        match ext {
            Some(e) => range_text(path@, extension_range(path@)) == Some(e@),
            None => extension_range(path@) is None,
        },
{
    let c = chars_of(path);
    match name_range_exec(&c) {
        None => None,
        Some((a, b)) => {
            proof {
                lemma_name_range_bounds(c@, c@.len() as int);
            }
            match last_dot_exec(&c, a, b) {
                None => None,
                Some(d) => {
                    if d == a {
                        None
                    } else {
                        proof {
                            lemma_last_dot_bounds(c@, a as int, b as int);
                        }
                        Some(string_of_range(path, d + 1, b))
                    }
                },
            }
        },
    }
}

/// The stem of the path's file name, as written.
pub fn path_stem(path: &str) -> (stem: Option<String>)
    ensures
        match stem {
            Some(e) => range_text(path@, stem_range(path@)) == Some(e@),
            None => stem_range(path@) is None,
        },
{
    let c = chars_of(path);
    match name_range_exec(&c) {
        None => None,
        Some((a, b)) => {
            proof {
                lemma_name_range_bounds(c@, c@.len() as int);
                lemma_last_dot_bounds(c@, a as int, b as int);
            }
            match last_dot_exec(&c, a, b) {
                None => Some(string_of_range(path, a, b)),
                Some(d) => {
                    if d == a {
                        Some(string_of_range(path, a, b))
                    } else {
                        Some(string_of_range(path, a, d))
                    }
                },
            }
        },
    }
}

/// The lowercase form of a string, as Rust's `str::to_lowercase` gives
/// it.
pub uninterp spec fn lowercase(s: Seq<char>) -> Seq<char>;

/// Calls `str::to_lowercase`. Claimed: the result is the one value that
/// `lowercase` names for the argument; nothing more is stated of it.
#[verifier::external_body]
pub(crate) fn to_lowercase(s: &str) -> (r: String)
    ensures
        r@ == lowercase(s@),
{
    s.to_lowercase()
}

/// Whether two strings hold the same characters.
pub fn str_eq(a: &str, b: &str) -> (r: bool)
    ensures
        r == (a@ == b@),
{
    let x = String::from_str(a);
    let y = String::from_str(b);
    x == y
}

/// The lowercased extension of a file name, when it has one.
pub open spec fn lower_extension(name: Seq<char>) -> Option<Seq<char>> {
    match range_text(name, extension_range(name)) {
        Some(e) => Some(lowercase(e)),
        None => None,
    }
}

/// The extension of a file name, lowercased.
pub fn get_extension(filename: &str) -> (ext: Option<String>)
    ensures
        match ext {
            Some(e) => lower_extension(filename@) == Some(e@),
            None => lower_extension(filename@) is None,
        },
{
    match path_extension(filename) {
        Some(e) => Some(to_lowercase(e.as_str())),
        None => None,
    }
}

/// The decimal value of a string of digits.
pub open spec fn digits_value(s: Seq<char>) -> nat
    decreases s.len(),
{
    if s.len() == 0 {
        0
    } else {
        digits_value(s.drop_last()) * 10 + (s.last() as nat - '0' as nat) as nat
    }
}

/// Every character is an ASCII digit.
pub open spec fn all_digits(s: Seq<char>) -> bool {
    forall|i: int| 0 <= i < s.len() ==> '0' <= #[trigger] s[i] <= '9'
}

/// The text parsed as an unsigned machine word the way Rust's `usize`
/// parser does: an optional `+`, then one or more ASCII digits, and a
/// value that fits.
pub open spec fn parse_usize_spec(s: Seq<char>) -> Option<usize> {
    let body = if s.len() > 0 && s[0] == '+' { s.drop_first() } else { s };
    if body.len() == 0 || !all_digits(body) || digits_value(body) > usize::MAX {
        None
    } else {
        Some(digits_value(body) as usize)
    }
}

proof fn lemma_digits_value_mono(s: Seq<char>, k: int)
    requires
        0 <= k <= s.len(),
        all_digits(s),
    ensures
        digits_value(s.take(k)) <= digits_value(s),
    decreases s.len() - k,
{
    if k < s.len() {
        lemma_digits_value_mono(s, k + 1);
        assert(s.take(k + 1).drop_last() =~= s.take(k));
        assert('0' <= s[k] <= '9');
    } else {
        assert(s.take(k) =~= s);
    }
}

/// Parses an unsigned machine word: an optional `+`, then one or more
/// ASCII digits; `None` for anything else or a value that does not fit.
pub fn parse_usize(s: &str) -> (r: Option<usize>)
    ensures
        r == parse_usize_spec(s@),
{
    let c = chars_of(s);
    let n = c.len();
    let start: usize = if n > 0 && c[0] == '+' { 1 } else { 0 };
    let ghost body = if s@.len() > 0 && s@[0] == '+' { s@.drop_first() } else { s@ };
    assert(body =~= c@.subrange(start as int, n as int));
    if start == n {
        return None;
    }
    let mut v: usize = 0;
    let mut i = start;
    while i < n
        invariant
            start <= i <= n,
            n == c@.len(),
            body == c@.subrange(start as int, n as int),
            c@ == s@,
            body == (if s@.len() > 0 && s@[0] == '+' { s@.drop_first() } else { s@ }),
            all_digits(body.take(i - start)),
            v as nat == digits_value(body.take(i - start)),
        decreases n - i,
    {
        let ch = c[i];
        assert(body.take(i - start + 1).drop_last() =~= body.take(i - start));
        assert(body[i - start] == ch);
        if !('0' <= ch && ch <= '9') {
            assert(!('0' <= body[(i - start) as int] <= '9'));
            assert(!all_digits(body));
            return None;
        }
        let d = (ch as u32 - '0' as u32) as usize;
        assert(body.take(i - start + 1).last() == ch);
        assert(digits_value(body.take(i - start + 1)) == v * 10 + d);
        if v > (usize::MAX - d) / 10 {
            proof {
                assert(digits_value(body.take(i - start + 1)) > usize::MAX) by (nonlinear_arith)
                    requires
                        v > (usize::MAX - d) / 10,
                        digits_value(body.take(i - start + 1)) == v * 10 + d,
                        d <= 9,
                ;
                if all_digits(body) {
                    lemma_digits_value_mono(body, i - start + 1);
                }
            }
            return None;
        }
        assert(v * 10 + d <= usize::MAX) by (nonlinear_arith)
            requires
                v <= (usize::MAX - d) / 10,
                d <= 9,
        ;
        v = v * 10 + d;
        assert(all_digits(body.take(i - start + 1))) by {
            assert forall|j: int| 0 <= j < i - start + 1 implies '0' <= #[trigger] body.take(i - start + 1)[j] <= '9' by {
                if j < i - start {
                    assert(body.take(i - start + 1)[j] == body.take(i - start)[j]);
                }
            }
        }
        i = i + 1;
    }
    assert(body.take(n - start) =~= body);
    Some(v)
}

/// A path followed by another, the way a path is joined on Unix: an
/// absolute second part replaces the first; otherwise a `/` goes between
/// unless the first is empty or already ends with one.
pub open spec fn join_path_spec(base: Seq<char>, rel: Seq<char>) -> Seq<char> {
    if rel.len() > 0 && rel[0] == '/' {
        rel
    } else if base.len() == 0 || base.last() == '/' {
        base + rel
    } else {
        base + seq!['/'] + rel
    }
}

/// Joins a relative file name onto a directory path.
pub fn join_path(base: &str, rel: &str) -> (r: String)
    ensures
        r@ == join_path_spec(base@, rel@),
{
    let rc = chars_of(rel);
    if rc.len() > 0 && rc[0] == '/' {
        return String::from_str(rel);
    }
    let bc = chars_of(base);
    let mut out = String::from_str(base);
    if !(bc.len() == 0 || bc[bc.len() - 1] == '/') {
        proof {
            reveal_strlit("/");
        }
        out.append("/");
    }
    out.append(rel);
    out
}

/// The hexadecimal digit character for `d` (0..=15), lowercase.
pub open spec fn hex_char(d: nat) -> char {
    if d < 10 {
        digit_char(d)
    } else if d == 10 {
        'a'
    } else if d == 11 {
        'b'
    } else if d == 12 {
        'c'
    } else if d == 13 {
        'd'
    } else if d == 14 {
        'e'
    } else {
        'f'
    }
}

/// Hex digit `k` (0 the most significant) of a 128-bit value.
pub open spec fn nibble(id: u128, k: int) -> nat {
    ((id as nat / vstd::arithmetic::power::pow(16, (31 - k) as nat) as nat) % 16) as nat
}

/// The hyphenated lowercase form of a 128-bit identifier: 32 hex digits,
/// most significant first, grouped 8-4-4-4-12.
pub open spec fn uuid_text_spec(id: u128) -> Seq<char> {
    Seq::new(
        36,
        |i: int|
            if i == 8 || i == 13 || i == 18 || i == 23 {
                '-'
            } else {
                let k = if i < 8 {
                    i
                } else if i < 13 {
                    i - 1
                } else if i < 18 {
                    i - 2
                } else if i < 23 {
                    i - 3
                } else {
                    i - 4
                };
                hex_char(nibble(id, k))
            },
    )
}

/// Calls `uuid::Uuid::from_u128` and then `to_string`. Claimed: the
/// identifier's 16 big-endian bytes as 32 lowercase hex digits, with
/// hyphens after digits 8, 12, 16 and 20, as the crate's `Display`
/// writes them.
#[verifier::external_body]
pub(crate) fn uuid_text(id: u128) -> (s: String)
    ensures
        s@ == uuid_text_spec(id),
{
    uuid::Uuid::from_u128(id).to_string()
}

/// The file name of a path, as written.
pub fn path_file_name(path: &str) -> (name: Option<String>)
    ensures
        match name {
            Some(n) => range_text(path@, name_range(path@, path@.len() as int)) == Some(n@),
            None => name_range(path@, path@.len() as int) is None,
        },
{
    let c = chars_of(path);
    match name_range_exec(&c) {
        None => None,
        Some((a, b)) => {
            proof {
                lemma_name_range_bounds(c@, c@.len() as int);
            }
            Some(string_of_range(path, a, b))
        },
    }
}

/// The text with each `"` preceded by a backslash.
pub open spec fn escape_quotes(s: Seq<char>) -> Seq<char>
    decreases s.len(),
{
    if s.len() == 0 {
        seq![]
    } else {
        escape_quotes(s.drop_last()) + (if s.last() == '"' { seq!['\\', '"'] } else { seq![s.last()] })
    }
}

/// The text with each `"` preceded by a backslash.
pub fn escape_quotes_exec(s: &str) -> (r: String)
    ensures
        r@ == escape_quotes(s@),
{
    let c = chars_of(s);
    let n = c.len();
    let mut r = String::new();
    proof {
        reveal_strlit("\\\"");
    }
    for i in 0..n
        invariant
            n == s@.len(),
            c@ == s@,
            r@ == escape_quotes(s@.take(i as int)),
            "\\\""@ == seq!['\\', '"'],
    {
        assert(s@.take(i + 1).drop_last() =~= s@.take(i as int));
        if c[i] == '"' {
            r.append("\\\"");
        } else {
            r.append(s.substring_char(i, i + 1));
            assert(s@.subrange(i as int, i + 1) =~= seq![s@[i as int]]);
        }
    }
    assert(s@.take(n as int) =~= s@);
    r
}

/// The text with leading and trailing white space removed, as Rust's
/// `str::trim` gives it.
pub uninterp spec fn trimmed(s: Seq<char>) -> Seq<char>;

/// Calls `str::trim`. Claimed: the result is the one value that
/// `trimmed` names for the argument; nothing more is stated of it.
#[verifier::external_body]
pub(crate) fn trim(s: &str) -> (r: String)
    ensures
        r@ == trimmed(s@),
{
    s.trim().to_string()
}

/// The pieces of a text between commas, in order (an empty text is one
/// empty piece).
pub open spec fn comma_pieces(s: Seq<char>) -> Seq<Seq<char>>
    decreases s.len(),
{
    if s.len() == 0 {
        seq![seq![]]
    } else {
        let prev = comma_pieces(s.drop_last());
        if s.last() == ',' {
            prev.push(seq![])
        } else {
            prev.update(prev.len() - 1, prev.last().push(s.last()))
        }
    }
}

proof fn lemma_comma_pieces_nonempty(s: Seq<char>)
    ensures
        comma_pieces(s).len() >= 1,
    decreases s.len(),
{
    if s.len() > 0 {
        lemma_comma_pieces_nonempty(s.drop_last());
    }
}

/// The pieces of a text between commas.
pub fn split_commas(s: &str) -> (pieces: Vec<String>)
    ensures
        pieces@.len() == comma_pieces(s@).len(),
        forall|i: int| 0 <= i < pieces@.len() ==> (#[trigger] pieces@[i])@ == comma_pieces(s@)[i],
{
    let c = chars_of(s);
    let n = c.len();
    let mut pieces: Vec<String> = Vec::new();
    let mut start: usize = 0;
    for i in 0..n
        invariant
            n == s@.len(),
            c@ == s@,
            start <= i,
            pieces@.len() + 1 == comma_pieces(s@.take(i as int)).len(),
            forall|k: int| 0 <= k < pieces@.len() ==> (#[trigger] pieces@[k])@ == comma_pieces(s@.take(i as int))[k],
            comma_pieces(s@.take(i as int)).last() == s@.subrange(start as int, i as int),
    {
        proof {
            lemma_comma_pieces_nonempty(s@.take(i as int));
        }
        assert(s@.take(i + 1).drop_last() =~= s@.take(i as int));
        if c[i] == ',' {
            pieces.push(string_of_range(s, start, i));
            start = i + 1;
            assert(s@.subrange(start as int, i + 1) =~= seq![]);
        } else {
            assert(s@.subrange(start as int, i + 1) =~= s@.subrange(start as int, i as int).push(s@[i as int]));
        }
    }
    assert(s@.take(n as int) =~= s@);
    proof {
        lemma_comma_pieces_nonempty(s@);
    }
    pieces.push(string_of_range(s, start, n));
    pieces
}

proof fn lemma_digit_char_value(d: nat)
    requires
        d < 10,
    ensures
        digit_char(d) as nat == '0' as nat + d,
        '0' <= digit_char(d) <= '9',
{
}

proof fn lemma_decimal_digits(n: nat)
    ensures
        decimal(n).len() >= 1,
        all_digits(decimal(n)),
        digits_value(decimal(n)) == n,
        decimal(n)[0] != '+',
    decreases n,
{
    lemma_digit_char_value(n % 10);
    if n < 10 {
        let d = decimal(n);
        assert(d.drop_last() =~= Seq::<char>::empty());
        assert(d.last() == digit_char(n));
        assert(digits_value(d) == digits_value(d.drop_last()) * 10 + (d.last() as nat - '0' as nat) as nat);
    }
    if n >= 10 {
        lemma_decimal_digits(n / 10);
        let p = decimal(n / 10);
        let d = decimal(n);
        assert(d.drop_last() =~= p);
        assert(d.last() == digit_char(n % 10));
        assert(digits_value(d) == digits_value(p) * 10 + (n % 10));
        assert((n / 10) * 10 + n % 10 == n);
        assert forall|i: int| 0 <= i < d.len() implies '0' <= #[trigger] d[i] <= '9' by {
            if i < p.len() {
                assert(d[i] == p[i]);
            }
        }
        assert(d[0] == p[0]);
    }
}

/// Reading back a written number gives the number: the decimal text of
/// any machine word parses to that word.
pub proof fn lemma_parse_usize_of_decimal(n: usize)
    ensures
        parse_usize_spec(decimal(n as nat)) == Some(n),
{
    lemma_decimal_digits(n as nat);
}

} // verus!
