use vstd::prelude::*;

verus! {

/// The characters that carry the Unicode `White_Space` property.
pub open spec fn is_white_space(c: char) -> bool {
    let u = c as u32;
    (0x9 <= u <= 0xD) || u == 0x20 || u == 0x85 || u == 0xA0 || u == 0x1680 || (0x2000 <= u
        <= 0x200A) || u == 0x2028 || u == 0x2029 || u == 0x202F || u == 0x205F || u == 0x3000
}

/// Relies on `char::is_whitespace`, which tests the Unicode `White_Space` property.
#[verifier::external_body]
fn char_is_whitespace(c: char) -> (r: bool)
    ensures
        r == is_white_space(c),
{
    c.is_whitespace()
}

/// The first position at or after `i` that holds no whitespace (the length if none).
pub open spec fn skip_space(s: Seq<char>, i: int) -> int
    decreases s.len() - i,
{
    if i >= s.len() {
        s.len() as int
    } else if is_white_space(s[i]) {
        skip_space(s, i + 1)
    } else {
        i
    }
}

/// The first position at or after `i` that holds whitespace (the length if none).
pub open spec fn token_end(s: Seq<char>, i: int) -> int
    decreases s.len() - i,
{
    if i >= s.len() {
        s.len() as int
    } else if is_white_space(s[i]) {
        i
    } else {
        token_end(s, i + 1)
    }
}

/// The maximal runs of non-whitespace characters of `s` from position `i` on.
pub open spec fn tokens_from(s: Seq<char>, i: int) -> Seq<Seq<char>>
    decreases s.len() - i,
{
    if 0 <= i <= s.len() {
        let j = skip_space(s, i);
        if j >= s.len() {
            Seq::empty()
        } else {
            proof {
                lemma_skip_space_bounds(s, i);
                lemma_token_end_bounds(s, j);
            }
            let k = token_end(s, j);
            seq![s.subrange(j, k)] + tokens_from(s, k)
        }
    } else {
        Seq::empty()
    }
}

/// The words of `s`: its maximal runs of non-whitespace characters, in order.
pub open spec fn tokens(s: Seq<char>) -> Seq<Seq<char>> {
    tokens_from(s, 0)
}

/// Two texts are equal up to whitespace when they hold the same words in the same order.
pub open spec fn same_tokens(a: Seq<char>, b: Seq<char>) -> bool {
    tokens(a) == tokens(b)
}

pub proof fn lemma_skip_space_bounds(s: Seq<char>, i: int)
    requires
        0 <= i <= s.len(),
    ensures
        i <= skip_space(s, i) <= s.len(),
        skip_space(s, i) < s.len() ==> !is_white_space(s[skip_space(s, i)]),
    decreases s.len() - i,
{
    if i < s.len() && is_white_space(s[i]) {
        lemma_skip_space_bounds(s, i + 1);
    }
}

pub proof fn lemma_token_end_bounds(s: Seq<char>, i: int)
    requires
        0 <= i <= s.len(),
    ensures
        i <= token_end(s, i) <= s.len(),
        i < s.len() && !is_white_space(s[i]) ==> i < token_end(s, i),
        forall|k: int| i <= k < token_end(s, i) ==> !is_white_space(#[trigger] s[k]),
    decreases s.len() - i,
{
    if i < s.len() && !is_white_space(s[i]) {
        lemma_token_end_bounds(s, i + 1);
    }
}

proof fn lemma_cons_eq<A>(x: A, r1: Seq<A>, y: A, r2: Seq<A>)
    ensures
        (seq![x] + r1 == seq![y] + r2) <==> (x == y && r1 == r2),
{
    if seq![x] + r1 == seq![y] + r2 {
        assert((seq![x] + r1)[0] == x);
        assert((seq![y] + r2)[0] == y);
        assert(r1 =~= (seq![x] + r1).subrange(1, (r1.len() + 1) as int));
        assert(r2 =~= (seq![y] + r2).subrange(1, (r2.len() + 1) as int));
    }
}

/// The characters of `s`, in order.
pub fn chars_of(s: &str) -> (r: Vec<char>)
    ensures
        r@ == s@,
{
    let mut r: Vec<char> = Vec::new();
    for c in it: s.chars()
        invariant
            it.seq() == s@,
            r@ == it.seq().take(it.index() as int),
    {
        r.push(c);
    }
    assert(r@ =~= s@);
    r
}

/// Whether `a` and `b` hold the same words in the same order, whatever whitespace
/// stands between, before or after them.
pub fn same_tokens_chars(a: &Vec<char>, b: &Vec<char>) -> (r: bool)
    ensures
        r == same_tokens(a@, b@),
{
    let mut i: usize = 0;
    let mut j: usize = 0;
    loop
        invariant
            0 <= i <= a.len(),
            0 <= j <= b.len(),
            same_tokens(a@, b@) == (tokens_from(a@, i as int) == tokens_from(b@, j as int)),
        decreases a.len() - i,
    {
        let ghost i0 = i as int;
        let ghost j0 = j as int;
        while i < a.len() && char_is_whitespace(a[i])
            invariant
                i0 <= i <= a.len(),
                skip_space(a@, i0) == skip_space(a@, i as int),
            decreases a.len() - i,
        {
            i = i + 1;
        }
        while j < b.len() && char_is_whitespace(b[j])
            invariant
                j0 <= j <= b.len(),
                skip_space(b@, j0) == skip_space(b@, j as int),
            decreases b.len() - j,
        {
            j = j + 1;
        }
        assert(skip_space(a@, i0) == i);
        assert(skip_space(b@, j0) == j);
        if i == a.len() && j == b.len() {
            return true;
        }
        if i == a.len() || j == b.len() {
            proof {
                if i < a.len() {
                    assert(tokens_from(a@, i0).len() > 0);
                } else {
                    assert(tokens_from(b@, j0).len() > 0);
                }
            }
            return false;
        }
        let mut p: usize = i;
        let mut q: usize = j;
        while p < a.len() && q < b.len() && !char_is_whitespace(a[p]) && !char_is_whitespace(b[q])
            && a[p] == b[q]
            invariant
                i <= p <= a.len(),
                j <= q <= b.len(),
                p - i == q - j,
                token_end(a@, i as int) == token_end(a@, p as int),
                token_end(b@, j as int) == token_end(b@, q as int),
                a@.subrange(i as int, p as int) =~= b@.subrange(j as int, q as int),
            decreases a.len() - p,
        {
            p = p + 1;
            q = q + 1;
        }
        let a_ends = p == a.len() || char_is_whitespace(a[p]);
        let b_ends = q == b.len() || char_is_whitespace(b[q]);
        proof {
            lemma_token_end_bounds(a@, p as int);
            lemma_token_end_bounds(b@, q as int);
            lemma_token_end_bounds(a@, i as int);
            lemma_token_end_bounds(b@, j as int);
            let ta = a@.subrange(i as int, token_end(a@, i as int));
            let tb = b@.subrange(j as int, token_end(b@, j as int));
            assert(tokens_from(a@, i0) == seq![ta] + tokens_from(a@, token_end(a@, i as int)));
            assert(tokens_from(b@, j0) == seq![tb] + tokens_from(b@, token_end(b@, j as int)));
            lemma_cons_eq(
                ta,
                tokens_from(a@, token_end(a@, i as int)),
                tb,
                tokens_from(b@, token_end(b@, j as int)),
            );
            if a_ends && b_ends {
                assert(ta =~= tb);
            } else if a_ends || b_ends {
                assert(ta.len() != tb.len());
            } else {
                assert(ta[p - i] != tb[p - i]);
            }
        }
        if !(a_ends && b_ends) {
            return false;
        }
        i = p;
        j = q;
    }
}

/// Comparison of two texts that ignores whitespace between, before and after their words.
pub trait EqualIgnoreWhitespace {
    spec fn text(&self) -> Seq<char>;

    fn eq_ignore_whitespace(&self, other: &str) -> (r: bool)
        ensures
            r == same_tokens(self.text(), other@),
    ;
}

impl<'a> EqualIgnoreWhitespace for &'a str {
    open spec fn text(&self) -> Seq<char> {
        (*self)@
    }

    fn eq_ignore_whitespace(&self, other: &str) -> (r: bool) {
        let a = chars_of(*self);
        let b = chars_of(other);
        same_tokens_chars(&a, &b)
    }
}

} // verus!
