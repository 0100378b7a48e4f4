//! Character-level text helpers: splitting on a separator and joining.

use vstd::prelude::*;
use vstd::string::*;

verus! {

/// Whether `pat` occurs in `s` at position `i`.
pub open spec fn matches_at(s: Seq<char>, pat: Seq<char>, i: int) -> bool {
    0 <= i && i + pat.len() <= s.len() && s.subrange(i, i + pat.len()) == pat
}

/// The first position at or after `i` where `pat` occurs in `s`, or -1.
pub open spec fn first_match(s: Seq<char>, pat: Seq<char>, i: int) -> int
    decreases s.len() + 1 - i,
{
    if i < 0 || i + pat.len() > s.len() {
        -1
    } else if matches_at(s, pat, i) {
        i
    } else {
        first_match(s, pat, i + 1)
    }
}

pub proof fn lemma_first_match(s: Seq<char>, pat: Seq<char>, i: int)
    ensures
        first_match(s, pat, i) == -1 || (i <= first_match(s, pat, i) && matches_at(s, pat, first_match(s, pat, i))),
        first_match(s, pat, i) >= 0 ==> forall|k: int| i <= k < first_match(s, pat, i) ==> !matches_at(s, pat, k),
        first_match(s, pat, i) == -1 && i >= 0 ==> forall|k: int| i <= k ==> !matches_at(s, pat, k),
    decreases s.len() + 1 - i,
{
    if i >= 0 && i + pat.len() <= s.len() && !matches_at(s, pat, i) {
        lemma_first_match(s, pat, i + 1);
    }
}

/// The non-empty pieces of `s[pos..]` between occurrences of `pat`, in order
/// (what `split(pat)` followed by dropping empty pieces gives).
pub open spec fn split_from(s: Seq<char>, pat: Seq<char>, pos: int) -> Seq<Seq<char>>
    decreases s.len() - pos,
{
    if pos < 0 || pos > s.len() || pat.len() == 0 {
        Seq::empty()
    } else {
        let m = first_match(s, pat, pos);
        if m < 0 {
            let head = s.subrange(pos, s.len() as int);
            if head.len() > 0 { seq![head] } else { Seq::empty() }
        } else {
            proof {
                lemma_first_match(s, pat, pos);
            }
            let head = s.subrange(pos, m);
            let rest = split_from(s, pat, m + pat.len());
            if head.len() > 0 { seq![head].add(rest) } else { rest }
        }
    }
}

/// The non-empty pieces of `s` between occurrences of `pat`.
pub open spec fn split_nonempty(s: Seq<char>, pat: Seq<char>) -> Seq<Seq<char>> {
    split_from(s, pat, 0)
}

/// The pieces joined with `sep` between consecutive ones.
pub open spec fn join(parts: Seq<Seq<char>>, sep: Seq<char>) -> Seq<char>
    decreases parts.len(),
{
    if parts.len() == 0 {
        Seq::empty()
    } else if parts.len() == 1 {
        parts[0]
    } else {
        join(parts.drop_last(), sep) + sep + parts.last()
    }
}

/// The characters of a string.
pub fn chars_of(s: &str) -> (r: Vec<char>)
    ensures
        r@ == s@,
{
    let n = s.unicode_len();
    let mut r: Vec<char> = Vec::new();
    let mut i: usize = 0;
    while i < n
        invariant
            n == s@.len(),
            i <= n,
            r@ == s@.take(i as int),
        decreases n - i,
    {
        r.push(s.get_char(i));
        i = i + 1;
        proof {
            assert(r@ =~= s@.take(i as int));
        }
    }
    proof {
        assert(s@.take(n as int) =~= s@);
    }
    r
}

/// The character sequences of a list of character vectors.
pub open spec fn views(v: Seq<Vec<char>>) -> Seq<Seq<char>> {
    v.map_values(|x: Vec<char>| x@)
}

/// A copy of `s[from..to]`.
pub fn copy_range(s: &Vec<char>, from: usize, to: usize) -> (r: Vec<char>)
    requires
        from <= to <= s@.len(),
    ensures
        r@ == s@.subrange(from as int, to as int),
{
    let mut r: Vec<char> = Vec::new();
    let mut i = from;
    while i < to
        invariant
            from <= i <= to <= s@.len(),
            r@ == s@.subrange(from as int, i as int),
        decreases to - i,
    {
        r.push(s[i]);
        i = i + 1;
        proof {
            assert(r@ =~= s@.subrange(from as int, i as int));
        }
    }
    r
}

/// Whether `pat` occurs in `s` at position `i`.
pub fn matches_at_exec(s: &Vec<char>, pat: &Vec<char>, i: usize) -> (r: bool)
    ensures
        r == matches_at(s@, pat@, i as int),
{
    if i > s.len() || pat.len() > s.len() - i {
        return false;
    }
    let slen = s.len();
    let mut j: usize = 0;
    while j < pat.len()
        invariant
            slen == s@.len(),
            i + pat@.len() <= s@.len(),
            j <= pat@.len(),
            forall|k: int| 0 <= k < j ==> s@[i + k] == pat@[k],
        decreases pat@.len() - j,
    {
        if s[i + j] != pat[j] {
            proof {
                assert(s@.subrange(i as int, i + pat@.len())[j as int] != pat@[j as int]);
            }
            return false;
        }
        j = j + 1;
    }
    proof {
        assert(s@.subrange(i as int, i + pat@.len()) =~= pat@);
    }
    true
}

/// The first position at or after `from` where `pat` occurs in `s`.
fn find_from(s: &Vec<char>, pat: &Vec<char>, from: usize) -> (r: Option<usize>)
    requires
        from <= s@.len(),
    ensures
        r is None <==> first_match(s@, pat@, from as int) == -1,
        r matches Some(m) ==> m == first_match(s@, pat@, from as int),
{
    let slen = s.len();
    let mut i = from;
    while i <= s.len() && pat.len() <= s.len() - i
        invariant
            slen == s@.len(),
            from <= i,
            i <= s@.len() + 1,
            first_match(s@, pat@, from as int) == first_match(s@, pat@, i as int),
        decreases s@.len() + 1 - i,
    {
        proof {
            if pat@.len() == 0 {
                assert(s@.subrange(i as int, i as int) =~= pat@);
            }
        }
        if matches_at_exec(s, pat, i) {
            return Some(i);
        }
        i = i + 1;
    }
    None
}

/// The non-empty pieces of `s` between occurrences of `pat`.
pub fn split_nonempty_exec(s: &Vec<char>, pat: &Vec<char>) -> (r: Vec<Vec<char>>)
    requires
        pat@.len() > 0,
    ensures
        views(r@) == split_nonempty(s@, pat@),
{
    let mut r: Vec<Vec<char>> = Vec::new();
    let slen = s.len();
    let mut pos: usize = 0;
    loop
        invariant
            slen == s@.len(),
            pat@.len() > 0,
            pos <= s@.len(),
            views(r@) + split_from(s@, pat@, pos as int) == split_from(s@, pat@, 0),
        decreases s@.len() - pos,
    {
        match find_from(s, pat, pos) {
            None => {
                let head = copy_range(s, pos, s.len());
                let ghost old_r = views(r@);
                let ghost old_v = r@;
                if head.len() > 0 {
                    r.push(head);
                    proof {
                        assert(views(r@) =~= old_r.push(head@)) by {
                            assert(r@ =~= old_v.push(head));
                        }
                        assert(views(r@) =~= old_r + split_from(s@, pat@, pos as int));
                    }
                } else {
                    proof {
                        assert(old_r + split_from(s@, pat@, pos as int) =~= old_r);
                    }
                }
                return r;
            },
            Some(m) => {
                proof {
                    lemma_first_match(s@, pat@, pos as int);
                    assert(matches_at(s@, pat@, m as int));
                }
                let head = copy_range(s, pos, m);
                let ghost old_r = views(r@);
                let ghost old_v = r@;
                let ghost rest = split_from(s@, pat@, m + pat@.len());
                if head.len() > 0 {
                    r.push(head);
                    proof {
                        assert(views(r@) =~= old_r.push(head@)) by {
                            assert(r@ =~= old_v.push(head));
                        }
                        assert(views(r@) + rest =~= old_r + split_from(s@, pat@, pos as int));
                    }
                }
                pos = m + pat.len();
            },
        }
    }
}


/// A string holding the given characters.
#[verifier::external_body]
pub(crate) fn string_from_chars(v: &Vec<char>) -> (r: String)
    ensures
        r@ == v@,
{
    String::from_iter(v.iter())
}

/// `a` followed by `b`.
pub fn concat_chars(a: &Vec<char>, b: &Vec<char>) -> (r: Vec<char>)
    ensures
        r@ == a@ + b@,
{
    let mut r = a.clone();
    let mut i: usize = 0;
    while i < b.len()
        invariant
            i <= b@.len(),
            r@ == a@ + b@.take(i as int),
        decreases b@.len() - i,
    {
        r.push(b[i]);
        i = i + 1;
        proof {
            assert(r@ =~= a@ + b@.take(i as int));
        }
    }
    proof {
        assert(b@.take(b@.len() as int) =~= b@);
    }
    r
}

/// The pieces `parts[from..]` joined with `sep`, as in [`join`].
pub fn join_exec(parts: &Vec<Vec<char>>, from: usize, sep: &Vec<char>) -> (r: Vec<char>)
    requires
        from <= parts@.len(),
    ensures
        r@ == join(views(parts@).skip(from as int), sep@),
{
    let mut r: Vec<char> = Vec::new();
    let mut i: usize = from;
    proof {
        assert(views(parts@).skip(from as int).take(0) =~= Seq::<Seq<char>>::empty());
    }
    while i < parts.len()
        invariant
            from <= i <= parts@.len(),
            r@ == join(views(parts@).skip(from as int).take(i - from), sep@),
        decreases parts@.len() - i,
    {
        let ghost all = views(parts@).skip(from as int);
        let ghost next = all.take(i + 1 - from);
        proof {
            assert(next.drop_last() =~= all.take(i - from));
            assert(next.last() == parts@[i as int]@);
        }
        if i > from {
            r = concat_chars(&r, sep);
        }
        r = concat_chars(&r, &parts[i]);
        i = i + 1;
        proof {
            if i - from == 1 {
                assert(all.take(0) =~= Seq::<Seq<char>>::empty());
                assert(next =~= seq![parts@[from as int]@]);
            }
        }
    }
    proof {
        assert(views(parts@).skip(from as int).take(parts@.len() - from) =~= views(parts@).skip(from as int));
    }
    r
}

/// Whether two strings hold the same characters.
pub fn str_eq(a: &str, b: &str) -> (r: bool)
    ensures
        r == (a@ == b@),
{
    a.to_owned() == b.to_owned()
}

/// The character of a decimal digit.
pub open spec fn digit_char(d: int) -> char {
    if d == 0 { '0' } else if d == 1 { '1' } else if d == 2 { '2' } else if d == 3 { '3' } else if d == 4 { '4' }
    else if d == 5 { '5' } else if d == 6 { '6' } else if d == 7 { '7' } else if d == 8 { '8' } else { '9' }
}

/// The decimal digits of a natural number, without leading zeros.
pub open spec fn nat_text(n: nat) -> Seq<char>
    decreases n,
{
    if n < 10 {
        seq![digit_char(n as int)]
    } else {
        nat_text(n / 10).push(digit_char((n % 10) as int))
    }
}

/// The decimal text of an integer, with a `-` before a negative one.
pub open spec fn int_text(n: int) -> Seq<char> {
    if n < 0 { seq!['-'] + nat_text((-n) as nat) } else { nat_text(n as nat) }
}

fn digit_of(d: u64) -> (r: char)
    requires
        d < 10,
    ensures
        r == digit_char(d as int),
{
    if d == 0 { '0' } else if d == 1 { '1' } else if d == 2 { '2' } else if d == 3 { '3' } else if d == 4 { '4' }
    else if d == 5 { '5' } else if d == 6 { '6' } else if d == 7 { '7' } else if d == 8 { '8' } else { '9' }
}

fn push_decimal(n: u64, out: &mut Vec<char>)
    ensures
        final(out)@ == old(out)@ + nat_text(n as nat),
    decreases n,
{
    if n >= 10 {
        push_decimal(n / 10, out);
    }
    out.push(digit_of(n % 10));
    proof {
        if n >= 10 {
            assert(nat_text(n as nat) == nat_text((n / 10) as nat).push(digit_char((n % 10) as int)));
        }
    }
}

/// The decimal text of an integer.
pub fn int_to_text(n: i64) -> (r: String)
    ensures
        r@ == int_text(n as int),
{
    let mut chars: Vec<char> = Vec::new();
    if n < 0 {
        chars.push('-');
        let m: u64 = if n == i64::MIN { 9_223_372_036_854_775_808u64 } else { (-n) as u64 };
        push_decimal(m, &mut chars);
    } else {
        push_decimal(n as u64, &mut chars);
    }
    proof {
        assert(chars@ =~= int_text(n as int));
    }
    string_from_chars(&chars)
}

} // verus!
