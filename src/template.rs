use crate::date::Date;
use vstd::prelude::*;

verus! {

/// The character of a decimal digit.
pub open spec fn digit_char(d: nat) -> char {
    ((d + '0' as nat) as u8) as char
}

/// The decimal digits of `n`, most significant first, without padding.
pub open spec fn decimal(n: nat) -> Seq<char>
    decreases n,
{
    if n < 10 {
        seq![digit_char(n)]
    } else {
        decimal(n / 10).push(digit_char(n % 10))
    }
}

/// The decimal text of a signed number, with a leading `-` below zero.
pub open spec fn signed_decimal(n: int) -> Seq<char> {
    if n < 0 {
        seq!['-'] + decimal((-n) as nat)
    } else {
        decimal(n as nat)
    }
}

/// Every occurrence of `pat` in `s` replaced by `rep`, scanning from the left
/// without overlaps. An empty pattern leaves `s` as it is.
pub open spec fn replace_all(s: Seq<char>, pat: Seq<char>, rep: Seq<char>) -> Seq<char>
    decreases s.len(),
{
    if s.len() == 0 || pat.len() == 0 {
        s
    } else if pat.len() <= s.len() && s.take(pat.len() as int) == pat {
        rep + replace_all(s.skip(pat.len() as int), pat, rep)
    } else {
        seq![s[0]] + replace_all(s.skip(1), pat, rep)
    }
}

pub open spec fn year_token() -> Seq<char> {
    seq!['{', 'y', 'e', 'a', 'r', '}']
}

pub open spec fn month_token() -> Seq<char> {
    seq!['{', 'm', 'o', 'n', 't', 'h', '}']
}

pub open spec fn day_token() -> Seq<char> {
    seq!['{', 'd', 'a', 'y', '}']
}

/// A file name with `{year}`, `{month}` and `{day}` replaced, in that order,
/// by the date's numbers in plain decimal. Other text passes through.
pub open spec fn render(name: Seq<char>, d: Date) -> Seq<char> {
    replace_all(
        replace_all(
            replace_all(name, year_token(), signed_decimal(d.year as int)),
            month_token(),
            decimal(d.month as nat),
        ),
        day_token(),
        decimal(d.day as nat),
    )
}

/// The index of the last `/` in `s`, or -1 where there is none.
pub open spec fn last_slash(s: Seq<char>) -> int
    decreases s.len(),
{
    if s.len() == 0 {
        -1
    } else if s.last() == '/' {
        s.len() - 1
    } else {
        last_slash(s.drop_last())
    }
}

/// The directory part of a path: what stands before its last `/`.
pub open spec fn dir_of(path: Seq<char>) -> Option<Seq<char>> {
    if last_slash(path) >= 0 {
        Some(path.take(last_slash(path)))
    } else {
        None
    }
}

/// The path with its base name (after the last `/`) rendered for the date;
/// the directory part is kept as it is.
pub open spec fn render_path(path: Seq<char>, d: Date) -> Seq<char> {
    path.take(last_slash(path) + 1) + render(path.skip(last_slash(path) + 1), d)
}

proof fn lemma_last_slash(s: Seq<char>)
    ensures
        -1 <= last_slash(s) < s.len(),
        last_slash(s) >= 0 ==> s[last_slash(s)] == '/',
        forall|j: int| last_slash(s) < j < s.len() ==> s[j] != '/',
    decreases s.len(),
{
    if s.len() > 0 && s.last() != '/' {
        lemma_last_slash(s.drop_last());
        assert forall|j: int| last_slash(s) < j < s.len() implies s[j] != '/' by {
            if j < s.len() - 1 {
                assert(s[j] == s.drop_last()[j]);
            }
        }
    }
}

fn digit_str(d: u64) -> (r: &'static str)
    requires
        d < 10,
    ensures
        r@ == seq![digit_char(d as nat)],
{
    proof {
        reveal_strlit("0");
        reveal_strlit("1");
        reveal_strlit("2");
        reveal_strlit("3");
        reveal_strlit("4");
        reveal_strlit("5");
        reveal_strlit("6");
        reveal_strlit("7");
        reveal_strlit("8");
        reveal_strlit("9");
    }
    let r = if d == 0 {
        "0"
    } else if d == 1 {
        "1"
    } else if d == 2 {
        "2"
    } else if d == 3 {
        "3"
    } else if d == 4 {
        "4"
    } else if d == 5 {
        "5"
    } else if d == 6 {
        "6"
    } else if d == 7 {
        "7"
    } else if d == 8 {
        "8"
    } else {
        "9"
    };
    assert(r@ =~= seq![digit_char(d as nat)]);
    r
}

/// The decimal text of `n`.
pub fn decimal_string(n: u64) -> (r: String)
    ensures
        r@ == decimal(n as nat),
    decreases n,
{
    if n < 10 {
        String::from_str(digit_str(n))
    } else {
        let mut s = decimal_string(n / 10);
        s.append(digit_str(n % 10));
        assert(s@ =~= decimal(n as nat));
        s
    }
}

/// The decimal text of `n`, with a leading `-` below zero.
pub fn signed_decimal_string(n: i32) -> (r: String)
    ensures
        r@ == signed_decimal(n as int),
{
    if n < 0 {
        proof {
            reveal_strlit("-");
        }
        let mut s = String::from_str("-");
        let m = decimal_string((0i64 - n as i64) as u64);
        s.append(m.as_str());
        assert(s@ =~= signed_decimal(n as int));
        s
    } else {
        decimal_string(n as u64)
    }
}

/// Whether `pat` occurs in `s` at position `i`.
fn matches_at(s: &str, pat: &str, i: usize) -> (r: bool)
    requires
        i + pat@.len() <= s@.len(),
        s@.len() <= usize::MAX,
    ensures
        r == (s@.subrange(i as int, i + pat@.len()) == pat@),
{
    let m = pat.unicode_len();
    let mut j: usize = 0;
    while j < m
        invariant
            m == pat@.len(),
            i + m <= s@.len(),
            s@.len() <= usize::MAX,
            j <= m,
            s@.subrange(i as int, i + j) == pat@.take(j as int),
        decreases m - j,
    {
        if s.get_char(i + j) != pat.get_char(j) {
            assert(s@.subrange(i as int, i + m)[j as int] != pat@[j as int]);
            return false;
        }
        assert(s@.subrange(i as int, i + j + 1) =~= pat@.take(j + 1));
        j = j + 1;
    }
    assert(pat@.take(m as int) =~= pat@);
    true
}

/// `s` with every occurrence of `pat` replaced by `rep`, left to right and
/// without overlaps.
pub fn replace_all_str(s: &str, pat: &str, rep: &str) -> (r: String)
    ensures
        r@ == replace_all(s@, pat@, rep@),
{
    let n = s.unicode_len();
    let m = pat.unicode_len();
    if m == 0 {
        return String::from_str(s);
    }
    let mut out = String::new();
    let mut i: usize = 0;
    assert(s@.skip(0) =~= s@);
    while i < n
        invariant
            n == s@.len(),
            m == pat@.len(),
            m > 0,
            i <= n,
            out@ + replace_all(s@.skip(i as int), pat@, rep@) == replace_all(s@, pat@, rep@),
        decreases n - i,
    {
        let ghost rest = s@.skip(i as int);
        if m <= n - i && matches_at(s, pat, i) {
            assert(rest.take(m as int) =~= s@.subrange(i as int, i + m));
            assert(rest.skip(m as int) =~= s@.skip(i + m));
            out.append(rep);
            i = i + m;
        } else {
            assert(rest.take(m as int) =~= s@.subrange(i as int, i + m) || m > n - i);
            assert(rest.skip(1) =~= s@.skip(i + 1));
            let c = s.substring_char(i, i + 1);
            assert(c@ =~= seq![rest[0]]);
            out.append(c);
            i = i + 1;
        }
    }
    assert(out@ =~= replace_all(s@, pat@, rep@));
    out
}

/// A file name with the date's numbers put in for `{year}`, `{month}` and
/// `{day}`.
pub fn render_file_name(name: &str, date: &Date) -> (r: String)
    ensures
        r@ == render(name@, *date),
{
    proof {
        reveal_strlit("{year}");
        reveal_strlit("{month}");
        reveal_strlit("{day}");
    }
    assert("{year}"@ =~= year_token());
    assert("{month}"@ =~= month_token());
    assert("{day}"@ =~= day_token());
    let year = signed_decimal_string(date.year);
    let month = decimal_string(date.month as u64);
    let day = decimal_string(date.day as u64);
    let a = replace_all_str(name, "{year}", year.as_str());
    let b = replace_all_str(a.as_str(), "{month}", month.as_str());
    replace_all_str(b.as_str(), "{day}", day.as_str())
}

/// The index of the last `/` in `path`, if any.
pub fn find_last_slash(path: &str) -> (r: Option<usize>)
    ensures
        match r {
            Some(k) => k as int == last_slash(path@),
            None => last_slash(path@) == -1,
        },
{
    let n = path.unicode_len();
    let mut i: usize = n;
    proof {
        assert(path@.take(n as int) =~= path@);
    }
    while i > 0
        invariant
            i <= n,
            n == path@.len(),
            last_slash(path@) == last_slash(path@.take(i as int)),
        decreases i,
    {
        let ghost pre = path@.take(i as int);
        if path.get_char(i - 1) == '/' {
            return Some(i - 1);
        }
        assert(pre.drop_last() =~= path@.take(i - 1));
        i = i - 1;
    }
    None
}

/// The path with its base name rendered for the date.
pub fn render_path_str(path: &str, date: &Date) -> (r: String)
    ensures
        r@ == render_path(path@, *date),
{
    let n = path.unicode_len();
    proof {
        lemma_last_slash(path@);
    }
    let start: usize = match find_last_slash(path) {
        Some(k) => k + 1,
        None => 0,
    };
    let head = path.substring_char(0, start);
    let name = path.substring_char(start, n);
    let rendered = render_file_name(name, date);
    let mut out = String::from_str(head);
    out.append(rendered.as_str());
    assert(head@ =~= path@.take(start as int));
    assert(name@ =~= path@.skip(start as int));
    out
}

/// The directory part of a path, if it has one.
pub fn dir_of_str(path: &str) -> (r: Option<String>)
    ensures
        match r {
            Some(d) => dir_of(path@) == Some(d@),
            None => dir_of(path@) is None,
        },
{
    proof {
        lemma_last_slash(path@);
    }
    match find_last_slash(path) {
        Some(k) => {
            let d = path.substring_char(0, k);
            assert(d@ =~= path@.take(k as int));
            Some(String::from_str(d))
        },
        None => None,
    }
}

} // verus!
