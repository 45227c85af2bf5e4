//! Character and string helpers with exact specifications: Unicode white space,
//! trimming, ASCII case folding, splitting and decimal rendering.

use vstd::prelude::*;

verus! {

/// The characters for which `char::is_whitespace` holds (the Unicode
/// `White_Space` property).
pub open spec fn is_ws(c: char) -> bool {
    ||| ('\u{9}' <= c && c <= '\u{d}')
    ||| c == ' '
    ||| c == '\u{85}'
    ||| c == '\u{a0}'
    ||| c == '\u{1680}'
    ||| ('\u{2000}' <= c && c <= '\u{200a}')
    ||| c == '\u{2028}'
    ||| c == '\u{2029}'
    ||| c == '\u{202f}'
    ||| c == '\u{205f}'
    ||| c == '\u{3000}'
}

/// Executable test for white space.
pub fn char_is_ws(c: char) -> (b: bool)
    ensures
        b == is_ws(c),
{
    ('\u{9}' <= c && c <= '\u{d}') || c == ' ' || c == '\u{85}' || c == '\u{a0}' || c == '\u{1680}'
        || ('\u{2000}' <= c && c <= '\u{200a}') || c == '\u{2028}' || c == '\u{2029}' || c
        == '\u{202f}' || c == '\u{205f}' || c == '\u{3000}'
}

/// `s` with its leading white space removed.
pub open spec fn trim_start(s: Seq<char>) -> Seq<char>
    decreases s.len(),
{
    if s.len() > 0 && is_ws(s[0]) {
        trim_start(s.drop_first())
    } else {
        s
    }
}

/// `s` with its trailing white space removed.
pub open spec fn trim_end(s: Seq<char>) -> Seq<char>
    decreases s.len(),
{
    if s.len() > 0 && is_ws(s.last()) {
        trim_end(s.drop_last())
    } else {
        s
    }
}

/// `s` with white space removed at both ends (what `str::trim` returns).
pub open spec fn trim(s: Seq<char>) -> Seq<char> {
    trim_end(trim_start(s))
}

/// Every character of `s` is white space.
pub open spec fn all_ws(s: Seq<char>) -> bool {
    forall|i: int| 0 <= i < s.len() ==> is_ws(#[trigger] s[i])
}

proof fn lemma_trim_start_skip(s: Seq<char>, i: int)
    requires
        0 <= i < s.len(),
        is_ws(s[i]),
    ensures
        trim_start(s.subrange(i, s.len() as int)) == trim_start(s.subrange(i + 1, s.len() as int)),
{
    let t = s.subrange(i, s.len() as int);
    assert(t.drop_first() =~= s.subrange(i + 1, s.len() as int));
}

proof fn lemma_trim_end_skip(s: Seq<char>, hi: int)
    requires
        0 < hi <= s.len(),
        is_ws(s[hi - 1]),
    ensures
        trim_end(s.subrange(0, hi)) == trim_end(s.subrange(0, hi - 1)),
{
    let t = s.subrange(0, hi);
    assert(t.drop_last() =~= s.subrange(0, hi - 1));
}

/// A trimmed sequence is empty exactly when the untrimmed one is all white space.
pub proof fn lemma_trim_empty_iff_all_ws(s: Seq<char>)
    ensures
        (trim(s).len() == 0) == all_ws(s),
    decreases s.len(),
{
    lemma_trim_start_empty_iff(s);
    if trim_start(s).len() != 0 {
        lemma_trim_start_nonws_head(s);
        lemma_trim_end_keeps_nonws_head(trim_start(s));
    }
}

proof fn lemma_trim_start_empty_iff(s: Seq<char>)
    ensures
        (trim_start(s).len() == 0) == all_ws(s),
    decreases s.len(),
{
    if s.len() > 0 {
        lemma_trim_start_empty_iff(s.drop_first());
        if is_ws(s[0]) {
            assert(all_ws(s) == all_ws(s.drop_first())) by {
                if all_ws(s.drop_first()) {
                    assert forall|i: int| 0 <= i < s.len() implies is_ws(#[trigger] s[i]) by {
                        if i > 0 {
                            assert(s[i] == s.drop_first()[i - 1]);
                        }
                    }
                }
            }
        } else {
            assert(!all_ws(s));
        }
    }
}

proof fn lemma_trim_start_nonws_head(s: Seq<char>)
    requires
        trim_start(s).len() != 0,
    ensures
        !is_ws(trim_start(s)[0]),
    decreases s.len(),
{
    if s.len() > 0 && is_ws(s[0]) {
        lemma_trim_start_nonws_head(s.drop_first());
    }
}

proof fn lemma_trim_end_keeps_nonws_head(s: Seq<char>)
    requires
        s.len() != 0,
        !is_ws(s[0]),
    ensures
        trim_end(s).len() != 0,
    decreases s.len(),
{
    if is_ws(s.last()) {
        lemma_trim_end_keeps_nonws_head(s.drop_last());
    }
}

/// Copies a string slice into an owned `String`.
pub fn own(s: &str) -> (r: String)
    ensures
        r@ == s@,
{
    s.to_owned()
}

/// Concatenates two slices.
pub fn cat(a: &str, b: &str) -> (r: String)
    ensures
        r@ == a@ + b@,
{
    let mut r = own(a);
    r.append(b);
    r
}

/// `str::trim`: the slice without leading and trailing white space.
pub fn trim_str(s: &str) -> (r: String)
    ensures
        r@ == trim(s@),
{
    let n: usize = s.unicode_len();
    let mut lo: usize = 0;
    assert(s@.subrange(0, n as int) =~= s@);
    while lo < n && char_is_ws(s.get_char(lo))
        invariant
            lo <= n,
            n == s@.len(),
            trim_start(s@) == trim_start(s@.subrange(lo as int, n as int)),
        decreases n - lo,
    {
        proof {
            lemma_trim_start_skip(s@, lo as int);
        }
        lo = lo + 1;
    }
    let ghost mid = s@.subrange(lo as int, n as int);
    assert(trim_start(mid) == mid);
    let mut hi: usize = n;
    assert(mid.subrange(0, (hi - lo) as int) =~= mid);
    while hi > lo && char_is_ws(s.get_char(hi - 1))
        invariant
            lo <= hi <= n,
            n == s@.len(),
            mid == s@.subrange(lo as int, n as int),
            trim_end(mid) == trim_end(mid.subrange(0, (hi - lo) as int)),
        decreases hi,
    {
        proof {
            assert(mid[(hi - lo) - 1] == s@[hi - 1]);
            lemma_trim_end_skip(mid, (hi - lo) as int);
        }
        hi = hi - 1;
    }
    let ghost kept = mid.subrange(0, (hi - lo) as int);
    assert(trim_end(kept) == kept);
    assert(kept =~= s@.subrange(lo as int, hi as int));
    own(s.substring_char(lo, hi))
}

/// The trimmed slice is empty (`s.trim().is_empty()`).
pub fn is_blank(s: &str) -> (b: bool)
    ensures
        b == (trim(s@).len() == 0),
        b == all_ws(s@),
{
    proof {
        lemma_trim_empty_iff_all_ws(s@);
    }
    let t = trim_str(s);
    t.as_str().unicode_len() == 0
}


/// Exact equality of two string slices.
pub fn str_eq(a: &str, b: &str) -> (r: bool)
    ensures
        r == (a@ == b@),
{
    let n: usize = a.unicode_len();
    if n != b.unicode_len() {
        return false;
    }
    let mut i: usize = 0;
    while i < n
        invariant
            i <= n,
            n == a@.len(),
            n == b@.len(),
            forall|j: int| 0 <= j < i ==> #[trigger] a@[j] == b@[j],
        decreases n - i,
    {
        if a.get_char(i) != b.get_char(i) {
            return false;
        }
        i = i + 1;
    }
    assert(a@ =~= b@);
    true
}

/// ASCII lower-casing of a character, as a code point.
pub open spec fn ascii_fold(c: char) -> u32 {
    if 'A' <= c && c <= 'Z' {
        (c as u32 + 32) as u32
    } else {
        c as u32
    }
}

/// `str::eq_ignore_ascii_case`, stated over characters.
pub open spec fn eq_ignore_ascii_case(a: Seq<char>, b: Seq<char>) -> bool {
    &&& a.len() == b.len()
    &&& forall|i: int| 0 <= i < a.len() ==> #[trigger] ascii_fold(a[i]) == ascii_fold(b[i])
}

fn fold_exec(c: char) -> (r: u32)
    ensures
        r == ascii_fold(c),
{
    if 'A' <= c && c <= 'Z' {
        (c as u32) + 32
    } else {
        c as u32
    }
}

/// Case-insensitive comparison of ASCII letters, exact for every other character.
pub fn eq_ignore_case(a: &str, b: &str) -> (r: bool)
    ensures
        r == eq_ignore_ascii_case(a@, b@),
{
    let n: usize = a.unicode_len();
    if n != b.unicode_len() {
        return false;
    }
    let mut i: usize = 0;
    while i < n
        invariant
            i <= n,
            n == a@.len(),
            n == b@.len(),
            forall|j: int| 0 <= j < i ==> #[trigger] ascii_fold(a@[j]) == ascii_fold(b@[j]),
        decreases n - i,
    {
        if fold_exec(a.get_char(i)) != fold_exec(b.get_char(i)) {
            return false;
        }
        i = i + 1;
    }
    true
}

/// The pieces of `s` between occurrences of `sep` (what `str::split` yields
/// for a character pattern): one more piece than there are separators.
pub open spec fn split_on(s: Seq<char>, sep: char) -> Seq<Seq<char>>
    decreases s.len(),
{
    if s.len() == 0 {
        seq![Seq::<char>::empty()]
    } else {
        let init = split_on(s.drop_last(), sep);
        if s.last() == sep {
            init.push(Seq::<char>::empty())
        } else {
            init.update(init.len() - 1, init.last().push(s.last()))
        }
    }
}

proof fn lemma_split_on_nonempty(s: Seq<char>, sep: char)
    ensures
        split_on(s, sep).len() >= 1,
    decreases s.len(),
{
    if s.len() > 0 {
        lemma_split_on_nonempty(s.drop_last(), sep);
    }
}

/// Splits `s` at every occurrence of `sep`.
pub fn split_char(s: &str, sep: char) -> (pieces: Vec<String>)
    ensures
        pieces.deep_view() == split_on(s@, sep),
{
    let n: usize = s.unicode_len();
    let mut pieces: Vec<String> = Vec::new();
    let mut start: usize = 0;
    let mut i: usize = 0;
    assert(s@.subrange(0, 0) =~= Seq::<char>::empty());
    assert(split_on(s@.subrange(0, 0), sep) =~= seq![s@.subrange(0, 0)]);
    while i < n
        invariant
            start <= i <= n,
            n == s@.len(),
            split_on(s@.subrange(0, i as int), sep) =~= pieces.deep_view().push(
                s@.subrange(start as int, i as int),
            ),
        decreases n - i,
    {
        let c = s.get_char(i);
        let ghost old_dv = pieces.deep_view();
        let ghost pre = s@.subrange(0, i + 1);
        proof {
            assert(pre.drop_last() =~= s@.subrange(0, i as int));
            assert(pre.last() == c);
        }
        if c == sep {
            let piece = own(s.substring_char(start, i));
            pieces.push(piece);
            assert(pieces.deep_view() =~= old_dv.push(s@.subrange(start as int, i as int)));
            start = i + 1;
            assert(s@.subrange(start as int, i + 1) =~= Seq::<char>::empty());
            assert(split_on(pre, sep) =~= pieces.deep_view().push(s@.subrange(start as int, i + 1)));
        } else {
            assert(s@.subrange(start as int, i + 1) =~= s@.subrange(start as int, i as int).push(c));
            assert(split_on(pre, sep) =~= pieces.deep_view().push(s@.subrange(start as int, i + 1)));
        }
        i = i + 1;
    }
    assert(s@.subrange(0, n as int) =~= s@);
    let last = own(s.substring_char(start, n));
    let ghost old_dv = pieces.deep_view();
    pieces.push(last);
    assert(pieces.deep_view() =~= old_dv.push(s@.subrange(start as int, n as int)));
    pieces
}

/// The pieces of `list`, trimmed, with the blank ones left out.
pub open spec fn trimmed_nonblank(list: Seq<Seq<char>>) -> Seq<Seq<char>>
    decreases list.len(),
{
    if list.len() == 0 {
        Seq::<Seq<char>>::empty()
    } else {
        let init = trimmed_nonblank(list.drop_last());
        if trim(list.last()).len() > 0 {
            init.push(trim(list.last()))
        } else {
            init
        }
    }
}

/// Trims every piece and keeps the ones that are not empty afterwards.
pub fn keep_trimmed_nonblank(list: &Vec<String>) -> (r: Vec<String>)
    ensures
        r.deep_view() == trimmed_nonblank(list.deep_view()),
{
    let mut r: Vec<String> = Vec::new();
    let mut i: usize = 0;
    while i < list.len()
        invariant
            i <= list.len(),
            r.deep_view() == trimmed_nonblank(list.deep_view().subrange(0, i as int)),
        decreases list.len() - i,
    {
        let t = trim_str(list[i].as_str());
        proof {
            let pre = list.deep_view().subrange(0, i + 1);
            assert(pre.drop_last() =~= list.deep_view().subrange(0, i as int));
            assert(pre.last() == list[i as int]@);
        }
        if t.as_str().unicode_len() > 0 {
            r.push(t);
            assert(r.deep_view() =~= trimmed_nonblank(list.deep_view().subrange(0, i + 1)));
        }
        i = i + 1;
    }
    assert(list.deep_view().subrange(0, list.len() as int) =~= list.deep_view());
    r
}

/// The elements of `list` with `sep` between neighbours.
pub open spec fn join(list: Seq<Seq<char>>, sep: Seq<char>) -> Seq<char>
    decreases list.len(),
{
    if list.len() == 0 {
        Seq::<char>::empty()
    } else if list.len() == 1 {
        list[0]
    } else {
        join(list.drop_last(), sep) + sep + list.last()
    }
}

/// `[String]::join`.
pub fn join_with(list: &Vec<String>, sep: &str) -> (r: String)
    ensures
        r@ == join(list.deep_view(), sep@),
{
    let mut r = String::new();
    let mut i: usize = 0;
    while i < list.len()
        invariant
            i <= list.len(),
            r@ == join(list.deep_view().subrange(0, i as int), sep@),
        decreases list.len() - i,
    {
        proof {
            let pre = list.deep_view().subrange(0, i + 1);
            assert(pre.drop_last() =~= list.deep_view().subrange(0, i as int));
        }
        if i > 0 {
            r.append(sep);
        }
        r.append(list[i].as_str());
        i = i + 1;
    }
    assert(list.deep_view().subrange(0, list.len() as int) =~= list.deep_view());
    r
}

/// The decimal digit for `d < 10`.
pub open spec fn digit_char(d: nat) -> char {
    if d == 0 {
        '0'
    } else if d == 1 {
        '1'
    } else if d == 2 {
        '2'
    } else if d == 3 {
        '3'
    } else if d == 4 {
        '4'
    } else if d == 5 {
        '5'
    } else if d == 6 {
        '6'
    } else if d == 7 {
        '7'
    } else if d == 8 {
        '8'
    } else {
        '9'
    }
}

/// The decimal rendering of `n`, without leading zeros (`"0"` for zero).
pub open spec fn decimal(n: nat) -> Seq<char>
    decreases n,
{
    if n < 10 {
        seq![digit_char(n)]
    } else {
        decimal(n / 10).push(digit_char(n % 10))
    }
}

fn digit_str(d: u64) -> (r: &'static str)
    requires
        d < 10,
    ensures
        r@ == seq![digit_char(d as nat)],
{
    if d == 0 {
        proof { reveal_strlit("0"); }
        "0"
    } else if d == 1 {
        proof { reveal_strlit("1"); }
        "1"
    } else if d == 2 {
        proof { reveal_strlit("2"); }
        "2"
    } else if d == 3 {
        proof { reveal_strlit("3"); }
        "3"
    } else if d == 4 {
        proof { reveal_strlit("4"); }
        "4"
    } else if d == 5 {
        proof { reveal_strlit("5"); }
        "5"
    } else if d == 6 {
        proof { reveal_strlit("6"); }
        "6"
    } else if d == 7 {
        proof { reveal_strlit("7"); }
        "7"
    } else if d == 8 {
        proof { reveal_strlit("8"); }
        "8"
    } else {
        proof { reveal_strlit("9"); }
        "9"
    }
}

/// Renders `n` in decimal, as `u64`'s `Display` does.
pub fn u64_to_decimal(n: u64) -> (r: String)
    ensures
        r@ == decimal(n as nat),
{
    let mut m: u64 = n / 10;
    let mut r = own(digit_str(n % 10));
    while m > 0
        invariant
            decimal(n as nat) == (if m == 0 {
                r@
            } else {
                decimal(m as nat) + r@
            }),
        decreases m,
    {
        let d = digit_str(m % 10);
        proof {
            if m >= 10 {
                assert(decimal(m as nat) == decimal((m / 10) as nat).push(digit_char((m % 10) as nat)));
                assert(decimal((m / 10) as nat) + (d@ + r@) =~= decimal(m as nat) + r@);
            } else {
                assert(d@ + r@ =~= decimal(m as nat) + r@);
            }
        }
        let mut t = own(d);
        t.append(r.as_str());
        r = t;
        m = m / 10;
    }
    r
}


proof fn lemma_decimal_len(n: nat)
    ensures
        decimal(n).len() >= 1,
        n >= 10 ==> decimal(n).len() >= 2,
    decreases n,
{
    if n >= 10 {
        lemma_decimal_len(n / 10);
    }
}

/// Different numbers have different decimal renderings.
pub proof fn lemma_decimal_injective(n: nat, m: nat)
    requires
        decimal(n) == decimal(m),
    ensures
        n == m,
    decreases n,
{
    lemma_decimal_len(n);
    lemma_decimal_len(m);
    if n < 10 && m < 10 {
        assert(decimal(n)[0] == digit_char(n));
        assert(decimal(m)[0] == digit_char(m));
    } else if n >= 10 && m >= 10 {
        let a = decimal(n / 10);
        let b = decimal(m / 10);
        assert(decimal(n).last() == digit_char(n % 10));
        assert(decimal(m).last() == digit_char(m % 10));
        assert(decimal(n).drop_last() =~= a);
        assert(decimal(m).drop_last() =~= b);
        lemma_decimal_injective(n / 10, m / 10);
    } else {
        assert(decimal(n).len() != decimal(m).len());
    }
}

} // verus!
