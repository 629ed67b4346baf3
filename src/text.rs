use vstd::prelude::*;
use vstd::std_specs::iter::IteratorSpec;

verus! {

/// `q` occurs in `t` as a contiguous run of characters.
pub open spec fn is_infix(q: Seq<char>, t: Seq<char>) -> bool {
    exists|i: int| 0 <= i && i + q.len() <= t.len() && #[trigger] t.subrange(i, i + q.len()) == q
}

/// The characters of `s`, in order.
pub fn chars_of(s: &str) -> (r: Vec<char>)
    ensures
        r@ == s@,
{
    broadcast use vstd::string::group_string_axioms;

    let mut r: Vec<char> = Vec::new();
    for c in it: s.chars()
        invariant
            r@ == it.seq().take(it.index() as int),
    {
        r.push(c);
    }
    assert(r@ =~= s@);
    r
}

/// Whether `t` holds `q` starting at position `i`.
fn occurs_at(t: &Vec<char>, q: &Vec<char>, i: usize) -> (r: bool)
    requires
        i + q@.len() <= t@.len(),
    ensures
        r == (t@.subrange(i as int, i + q@.len()) == q@),
{
    let tl = t.len();
    let mut j: usize = 0;
    while j < q.len()
        invariant
            tl == t@.len(),
            j <= q@.len(),
            i + q@.len() <= t@.len(),
            forall|k: int| 0 <= k < j ==> t@[i + k] == q@[k],
        decreases q@.len() - j,
    {
        if t[i + j] != q[j] {
            assert(t@.subrange(i as int, i + q@.len())[j as int] != q@[j as int]);
            return false;
        }
        j += 1;
    }
    assert(t@.subrange(i as int, i + q@.len()) =~= q@);
    true
}

/// Substring test on characters: whether `q` occurs in `t`.
pub fn contains_chars(t: &Vec<char>, q: &Vec<char>) -> (r: bool)
    ensures
        r == is_infix(q@, t@),
{
    if q.len() == 0 {
        assert(t@.subrange(0, 0 + q@.len() as int) =~= q@);
        return true;
    }
    if q.len() > t.len() {
        return false;
    }
    let last = t.len() - q.len();
    let mut i: usize = 0;
    while i <= last
        invariant
            last + q@.len() == t@.len(),
            t@.len() <= usize::MAX,
            q@.len() > 0,
            i <= last + 1,
            forall|k: int| 0 <= k < i ==> #[trigger] t@.subrange(k, k + q@.len()) != q@,
        decreases last + 1 - i,
    {
        if occurs_at(t, q, i) {
            return true;
        }
        i += 1;
    }
    false
}

/// The text cut at every `'\n'`: always one segment more than newlines.
pub open spec fn segments(t: Seq<char>) -> Seq<Seq<char>>
    decreases t.len(),
{
    if t.len() == 0 {
        seq![Seq::<char>::empty()]
    } else {
        let s = segments(t.drop_last());
        if t.last() == '\n' {
            s.push(Seq::<char>::empty())
        } else {
            s.update(s.len() - 1, s.last().push(t.last()))
        }
    }
}

/// A line ended by `"\r\n"` loses its `'\r'`.
pub open spec fn strip_cr(l: Seq<char>) -> Seq<char> {
    if l.len() > 0 && l.last() == '\r' {
        l.drop_last()
    } else {
        l
    }
}

/// The lines of a text: every segment ended by a newline, without a
/// `'\r'` just before that newline, then the final unterminated segment
/// when it is not empty.
pub open spec fn split_lines(t: Seq<char>) -> Seq<Seq<char>> {
    let s = segments(t);
    let body = s.drop_last().map_values(|l: Seq<char>| strip_cr(l));
    if s.last().len() == 0 {
        body
    } else {
        body.push(s.last())
    }
}

proof fn lemma_segments_nonempty(t: Seq<char>)
    ensures
        segments(t).len() >= 1,
    decreases t.len(),
{
    if t.len() > 0 {
        lemma_segments_nonempty(t.drop_last());
    }
}

fn without_cr(l: &Vec<char>) -> (r: Vec<char>)
    ensures
        r@ == strip_cr(l@),
{
    let mut r = l.clone();
    if r.len() > 0 && r[r.len() - 1] == '\r' {
        r.pop();
    }
    r
}

/// Cuts `t` into its lines.
pub fn lines_of(t: &Vec<char>) -> (r: Vec<Vec<char>>)
    ensures
        views(r@) == split_lines(t@),
{
    let mut done: Vec<Vec<char>> = Vec::new();
    let mut cur: Vec<char> = Vec::new();
    let mut k: usize = 0;
    proof {
        assert(t@.subrange(0, 0) =~= Seq::<char>::empty());
    }
    while k < t.len()
        invariant
            k <= t@.len(),
            segments(t@.subrange(0, k as int)).len() >= 1,
            views(done@) == segments(t@.subrange(0, k as int)).drop_last().map_values(
                |l: Seq<char>| strip_cr(l),
            ),
            cur@ == segments(t@.subrange(0, k as int)).last(),
        decreases t@.len() - k,
    {
        let ghost pre = t@.subrange(0, k as int);
        let ghost next = t@.subrange(0, k + 1);
        let c = t[k];
        assert(next.drop_last() =~= pre);
        proof {
            lemma_segments_nonempty(next);
        }
        let ghost before = views(done@);
        assert(next.last() == c);
        if c == '\n' {
            let line = without_cr(&cur);
            done.push(line);
            assert(views(done@) =~= before.push(strip_cr(cur@)));
            assert(segments(next).drop_last() =~= segments(pre));
            cur = Vec::new();
            assert(views(done@) =~= segments(next).drop_last().map_values(
                |l: Seq<char>| strip_cr(l),
            ));
            assert(cur@ =~= segments(next).last());
        } else {
            cur.push(c);
            assert(views(done@) =~= segments(next).drop_last().map_values(
                |l: Seq<char>| strip_cr(l),
            ));
        }
        k += 1;
    }
    assert(t@.subrange(0, k as int) =~= t@);
    let ghost before = views(done@);
    if cur.len() > 0 {
        done.push(cur);
        assert(views(done@) =~= before.push(segments(t@).last()));
        assert(views(done@) =~= split_lines(t@));
    }
    done
}

/// The character sequences held by a sequence of vectors.
pub open spec fn views(v: Seq<Vec<char>>) -> Seq<Seq<char>> {
    v.map_values(|x: Vec<char>| x@)
}

/// The decimal digit for `d < 10`.
pub open spec fn digit_char(d: nat) -> char {
    (('0' as u8) + d) as char
}

/// The decimal numeral of `n`, without leading zeros.
pub open spec fn decimal(n: nat) -> Seq<char>
    decreases n,
{
    if n < 10 {
        seq![digit_char(n)]
    } else {
        decimal(n / 10).push(digit_char(n % 10))
    }
}

/// The decimal numeral of `n`.
pub fn decimal_chars(n: usize) -> (r: Vec<char>)
    ensures
        r@ == decimal(n as nat),
    decreases n,
{
    let d = (n % 10) as u8;
    let c = (48u8 + d) as char;
    if n < 10 {
        let r = vec![c];
        assert(r@ =~= decimal(n as nat));
        r
    } else {
        let mut r = decimal_chars(n / 10);
        r.push(c);
        r
    }
}

/// Relies on `String`'s `FromIterator<&char>`: the string holds the
/// given characters in order.
#[verifier::external_body]
pub(crate) fn string_of(v: &Vec<char>) -> (r: String)
    ensures
        r@ == v@,
{
    v.iter().collect()
}

/// What `str::to_lowercase` returns for a string of these characters.
pub uninterp spec fn lower_of(s: Seq<char>) -> Seq<char>;

/// Relies on `str::to_lowercase`: its result depends on the characters
/// alone, and an empty string stays empty.
#[verifier::external_body]
pub(crate) fn lowercase(s: &str) -> (r: String)
    ensures
        r@ == lower_of(s@),
        s@.len() == 0 ==> r@.len() == 0,
{
    s.to_lowercase()
}

} // verus!
