//! Character-level text helpers with exact contracts: comparison,
//! tokenization by whitespace or by a separator character, prefix and
//! suffix stripping, trimming, and joining.

use vstd::prelude::*;
use vstd::string::StrSliceExecFns;
use vstd::string::StringExecFns;

verus! {

/// Whether `c` separates fields: a space or a tab.
pub open spec fn is_space(c: char) -> bool {
    c == ' ' || c == '\t'
}

/// The views of a sequence of strings.
pub open spec fn views_of(v: Seq<String>) -> Seq<Seq<char>> {
    v.map_values(|s: String| s@)
}

/// One left-to-right pass of the field splitter: `cur` is the token read
/// so far, `acc` the fields already finished.
pub open spec fn fields_helper(
    s: Seq<char>,
    i: int,
    cur: Seq<char>,
    acc: Seq<Seq<char>>,
) -> Seq<Seq<char>>
    decreases s.len() - i,
{
    if i < 0 || i >= s.len() {
        if cur.len() > 0 {
            acc.push(cur)
        } else {
            acc
        }
    } else if is_space(s[i]) {
        if cur.len() > 0 {
            fields_helper(s, i + 1, Seq::empty(), acc.push(cur))
        } else {
            fields_helper(s, i + 1, Seq::empty(), acc)
        }
    } else {
        fields_helper(s, i + 1, cur.push(s[i]), acc)
    }
}

/// The maximal space-free runs of `s`, in order.
pub open spec fn split_ws(s: Seq<char>) -> Seq<Seq<char>> {
    fields_helper(s, 0, Seq::empty(), Seq::empty())
}

/// Split a string into its whitespace-separated fields.
pub fn split_whitespace_fields(s: &str) -> (fields: Vec<String>)
    ensures
        views_of(fields@) == split_ws(s@),
{
    let n = s.unicode_len();
    let mut out: Vec<String> = Vec::new();
    let mut start: usize = 0;
    let mut in_token = false;
    let mut i: usize = 0;
    proof {
        assert(views_of(out@) =~= Seq::<Seq<char>>::empty());
    }
    while i < n
        invariant
            i <= n,
            n == s@.len(),
            in_token ==> start < i,
            fields_helper(
                s@,
                i as int,
                if in_token {
                    s@.subrange(start as int, i as int)
                } else {
                    Seq::empty()
                },
                views_of(out@),
            ) == split_ws(s@),
        decreases n - i,
    {
        let c = s.get_char(i);
        let space = c == ' ' || c == '\t';
        let ghost cur: Seq<char> = if in_token {
            s@.subrange(start as int, i as int)
        } else {
            Seq::empty()
        };
        if space {
            if in_token {
                let ghost outpre = out@;
                out.push(s.substring_char(start, i).to_owned());
                in_token = false;
                proof {
                    assert(views_of(out@) =~= views_of(outpre).push(cur));
                }
            }
        } else {
            if !in_token {
                start = i;
                in_token = true;
            }
            proof {
                assert(s@.subrange(start as int, i + 1) =~= cur.push(s@[i as int]));
            }
        }
        i = i + 1;
    }
    if in_token {
        let ghost outpre = out@;
        let ghost cur: Seq<char> = s@.subrange(start as int, n as int);
        out.push(s.substring_char(start, n).to_owned());
        proof {
            assert(views_of(out@) =~= views_of(outpre).push(cur));
        }
    }
    out
}

/// Whether `prefix` begins `s`.
pub open spec fn starts_with(s: Seq<char>, prefix: Seq<char>) -> bool {
    prefix.len() <= s.len() && s.subrange(0, prefix.len() as int) == prefix
}

/// Whether the string begins with the given prefix.
pub fn str_starts_with(s: &str, prefix: &str) -> (r: bool)
    ensures
        r == starts_with(s@, prefix@),
{
    let n = s.unicode_len();
    let m = prefix.unicode_len();
    if m > n {
        return false;
    }
    let head = s.substring_char(0, m);
    str_eq(head, prefix)
}

/// Whether `suffix` ends `s`.
pub open spec fn ends_with(s: Seq<char>, suffix: Seq<char>) -> bool {
    suffix.len() <= s.len() && s.subrange(s.len() - suffix.len(), s.len() as int) == suffix
}

/// Whether the string ends with the given suffix.
pub fn str_ends_with(s: &str, suffix: &str) -> (r: bool)
    ensures
        r == ends_with(s@, suffix@),
{
    let n = s.unicode_len();
    let m = suffix.unicode_len();
    if m > n {
        return false;
    }
    let tail = s.substring_char(n - m, n);
    str_eq(tail, suffix)
}

/// `s` with every trailing repetition of `suffix` removed (for a nonempty
/// suffix; an empty suffix is left alone).
pub open spec fn strip_suffix_runs(s: Seq<char>, suffix: Seq<char>) -> Seq<char>
    decreases s.len(),
{
    if suffix.len() > 0 && ends_with(s, suffix) {
        strip_suffix_runs(s.subrange(0, s.len() - suffix.len()), suffix)
    } else {
        s
    }
}

/// Remove every trailing repetition of `suffix` from the string.
pub fn str_strip_suffix_runs(s: &str, suffix: &str) -> (r: String)
    ensures
        r@ == strip_suffix_runs(s@, suffix@),
    decreases s@.len(),
{
    let m = suffix.unicode_len();
    if m > 0 && str_ends_with(s, suffix) {
        let n = s.unicode_len();
        str_strip_suffix_runs(s.substring_char(0, n - m), suffix)
    } else {
        s.to_owned()
    }
}

/// One left-to-right pass of the separator splitter: unlike whitespace
/// splitting, empty fields between separators are kept.
pub open spec fn sep_helper(
    s: Seq<char>,
    sep: char,
    i: int,
    cur: Seq<char>,
    acc: Seq<Seq<char>>,
) -> Seq<Seq<char>>
    decreases s.len() - i,
{
    if i < 0 || i >= s.len() {
        acc.push(cur)
    } else if s[i] == sep {
        sep_helper(s, sep, i + 1, Seq::empty(), acc.push(cur))
    } else {
        sep_helper(s, sep, i + 1, cur.push(s[i]), acc)
    }
}

/// The fields of `s` between occurrences of `sep`; always at least one,
/// and empty fields are kept.
pub open spec fn split_sep(s: Seq<char>, sep: char) -> Seq<Seq<char>> {
    sep_helper(s, sep, 0, Seq::empty(), Seq::empty())
}

/// Split a string at every occurrence of a separator character.
pub fn split_on_char(s: &str, sep: char) -> (fields: Vec<String>)
    ensures
        views_of(fields@) == split_sep(s@, sep),
{
    let n = s.unicode_len();
    let mut out: Vec<String> = Vec::new();
    let mut start: usize = 0;
    let mut i: usize = 0;
    proof {
        assert(views_of(out@) =~= Seq::<Seq<char>>::empty());
        assert(s@.subrange(0, 0) =~= Seq::<char>::empty());
    }
    while i < n
        invariant
            start <= i <= n,
            n == s@.len(),
            sep_helper(
                s@,
                sep,
                i as int,
                s@.subrange(start as int, i as int),
                views_of(out@),
            ) == split_sep(s@, sep),
        decreases n - i,
    {
        let c = s.get_char(i);
        let ghost cur: Seq<char> = s@.subrange(start as int, i as int);
        if c == sep {
            let ghost outpre = out@;
            out.push(s.substring_char(start, i).to_owned());
            start = i + 1;
            proof {
                assert(views_of(out@) =~= views_of(outpre).push(cur));
                assert(s@.subrange(start as int, i + 1) =~= Seq::<char>::empty());
            }
        } else {
            proof {
                assert(s@.subrange(start as int, i + 1) =~= cur.push(s@[i as int]));
            }
        }
        i = i + 1;
    }
    let ghost outpre = out@;
    let ghost cur: Seq<char> = s@.subrange(start as int, n as int);
    out.push(s.substring_char(start, n).to_owned());
    proof {
        assert(views_of(out@) =~= views_of(outpre).push(cur));
    }
    out
}

/// `s` with every leading repetition of `prefix` removed (for a nonempty
/// prefix; an empty prefix is left alone).
pub open spec fn strip_prefix_runs(s: Seq<char>, prefix: Seq<char>) -> Seq<char>
    decreases s.len(),
{
    if prefix.len() > 0 && starts_with(s, prefix) {
        strip_prefix_runs(s.subrange(prefix.len() as int, s.len() as int), prefix)
    } else {
        s
    }
}

/// Remove every leading repetition of `prefix` from the string.
pub fn str_strip_prefix_runs(s: &str, prefix: &str) -> (r: String)
    ensures
        r@ == strip_prefix_runs(s@, prefix@),
    decreases s@.len(),
{
    let m = prefix.unicode_len();
    if m > 0 && str_starts_with(s, prefix) {
        let n = s.unicode_len();
        str_strip_prefix_runs(s.substring_char(m, n), prefix)
    } else {
        s.to_owned()
    }
}

/// `s` without its leading run of `c`.
pub open spec fn strip_leading(s: Seq<char>, c: char) -> Seq<char>
    decreases s.len(),
{
    if s.len() > 0 && s.first() == c {
        strip_leading(s.drop_first(), c)
    } else {
        s
    }
}

/// Remove the leading run of one character from the string.
pub fn str_strip_leading(s: &str, c: char) -> (r: String)
    ensures
        r@ == strip_leading(s@, c),
    decreases s@.len(),
{
    let n = s.unicode_len();
    if n > 0 && s.get_char(0) == c {
        let rest = s.substring_char(1, n);
        proof {
            assert(rest@ =~= s@.drop_first());
        }
        str_strip_leading(rest, c)
    } else {
        s.to_owned()
    }
}

/// `s` without its leading run of field separators.
pub open spec fn strip_leading_ws(s: Seq<char>) -> Seq<char>
    decreases s.len(),
{
    if s.len() > 0 && is_space(s.first()) {
        strip_leading_ws(s.drop_first())
    } else {
        s
    }
}

/// `s` without its trailing run of field separators.
pub open spec fn strip_trailing_ws(s: Seq<char>) -> Seq<char>
    decreases s.len(),
{
    if s.len() > 0 && is_space(s.last()) {
        strip_trailing_ws(s.drop_last())
    } else {
        s
    }
}

/// `s` without leading and trailing runs of field separators.
pub open spec fn trim_ws(s: Seq<char>) -> Seq<char> {
    strip_trailing_ws(strip_leading_ws(s))
}

fn str_strip_leading_ws(s: &str) -> (r: String)
    ensures
        r@ == strip_leading_ws(s@),
    decreases s@.len(),
{
    let n = s.unicode_len();
    if n > 0 {
        let c = s.get_char(0);
        if c == ' ' || c == '\t' {
            let rest = s.substring_char(1, n);
            proof {
                assert(rest@ =~= s@.drop_first());
            }
            return str_strip_leading_ws(rest);
        }
    }
    s.to_owned()
}

fn str_strip_trailing_ws(s: &str) -> (r: String)
    ensures
        r@ == strip_trailing_ws(s@),
    decreases s@.len(),
{
    let n = s.unicode_len();
    if n > 0 {
        let c = s.get_char(n - 1);
        if c == ' ' || c == '\t' {
            let rest = s.substring_char(0, n - 1);
            proof {
                assert(rest@ =~= s@.drop_last());
            }
            return str_strip_trailing_ws(rest);
        }
    }
    s.to_owned()
}

/// Remove leading and trailing runs of spaces and tabs from the string.
pub fn str_trim_ws(s: &str) -> (r: String)
    ensures
        r@ == trim_ws(s@),
{
    let lead = str_strip_leading_ws(s);
    str_strip_trailing_ws(lead.as_str())
}

/// The fields joined by single spaces.
pub open spec fn join_spaces(fs: Seq<Seq<char>>) -> Seq<char>
    decreases fs.len(),
{
    if fs.len() == 0 {
        Seq::empty()
    } else if fs.len() == 1 {
        fs[0]
    } else {
        join_spaces(fs.drop_last()) + seq![' '] + fs.last()
    }
}

/// Join strings with single spaces between them.
pub fn join_with_spaces(fields: &Vec<String>, from: usize) -> (r: String)
    requires
        from <= fields@.len(),
    ensures
        r@ == join_spaces(views_of(fields@).skip(from as int)),
{
    proof {
        reveal_strlit(" ");
    }
    let n = fields.len();
    let mut r = String::new();
    let mut i: usize = from;
    while i < n
        invariant
            from <= i <= n,
            n == fields@.len(),
            r@ == join_spaces(views_of(fields@).skip(from as int).take(i - from)),
        decreases n - i,
    {
        let ghost prev = r@;
        if i > from {
            r.append(" ");
        }
        r.append(fields[i].as_str());
        proof {
            reveal_strlit(" ");
            assert(" "@ =~= seq![' ']);
            let ghost rest = views_of(fields@).skip(from as int);
            assert(rest.take(i - from + 1).drop_last() =~= rest.take(i - from));
            assert(rest.take(i - from + 1).last() == fields@[i as int]@);
            if i > from {
                assert(r@ =~= prev + seq![' '] + fields@[i as int]@);
                assert(r@ =~= join_spaces(rest.take(i - from + 1)));
            } else {
                assert(rest.take(1).len() == 1);
                assert(r@ =~= fields@[i as int]@);
                assert(r@ =~= join_spaces(rest.take(1)));
            }
        }
        i = i + 1;
    }
    proof {
        assert(views_of(fields@).skip(from as int).take(n - from) =~= views_of(fields@).skip(
            from as int,
        ));
    }
    r
}

/// Whether two strings hold the same characters.
pub fn str_eq(a: &str, b: &str) -> (r: bool)
    ensures
        r == (a@ == b@),
{
    let la = a.unicode_len();
    let lb = b.unicode_len();
    if la != lb {
        proof {
            assert(a@ != b@) by {
                if a@ == b@ {
                    assert(a@.len() == b@.len());
                }
            };
        }
        return false;
    }
    let mut i: usize = 0;
    while i < la
        invariant
            i <= la,
            la == a@.len(),
            la == b@.len(),
            forall|j: int| 0 <= j < i ==> a@[j] == b@[j],
        decreases la - i,
    {
        let ca = a.get_char(i);
        let cb = b.get_char(i);
        if ca != cb {
            proof {
                assert(a@ != b@) by {
                    if a@ == b@ {
                        assert(a@[i as int] == b@[i as int]);
                    }
                };
            }
            return false;
        }
        i = i + 1;
    }
    proof {
        assert(a@ =~= b@);
    }
    true
}

} // verus!
