use vstd::prelude::*;

verus! {

// ---------------------------------------------------------------------------
// Character classes
// ---------------------------------------------------------------------------

/// Whitespace as the markup grammar understands it.
pub open spec fn is_ws(c: char) -> bool {
    c == ' ' || c == '\t' || c == '\n' || c == '\r'
}

/// Characters allowed in tag and attribute names: anything that is not
/// whitespace and not part of the tag punctuation.
pub open spec fn is_name_char(c: char) -> bool {
    !is_ws(c) && c != '<' && c != '>' && c != '/' && c != '=' && c != '"' && c != '\''
}

/// Decimal digits.
pub open spec fn is_digit(c: char) -> bool {
    48 <= (c as u32) <= 57
}

/// The numeric value of a digit character.
pub open spec fn digit_val(c: char) -> int {
    (c as u32) - 48
}

/// The character's code with ASCII upper-case letters folded to lower case.
pub open spec fn lower_code(c: char) -> int {
    if 65 <= (c as u32) <= 90 {
        (c as u32) + 32
    } else {
        (c as u32) as int
    }
}

/// Case-insensitive equality of two character sequences (ASCII folding).
pub open spec fn seq_eq_nocase(a: Seq<char>, b: Seq<char>) -> bool {
    a.len() == b.len() && forall|i: int| 0 <= i < a.len() ==> lower_code(a[i]) == lower_code(b[i])
}

pub fn ws_char(c: char) -> (r: bool)
    ensures
        r == is_ws(c),
{
    c == ' ' || c == '\t' || c == '\n' || c == '\r'
}

pub fn name_char(c: char) -> (r: bool)
    ensures
        r == is_name_char(c),
{
    !ws_char(c) && c != '<' && c != '>' && c != '/' && c != '=' && c != '"' && c != '\''
}

pub fn digit_char(c: char) -> (r: bool)
    ensures
        r == is_digit(c),
{
    let u = c as u32;
    48 <= u && u <= 57
}

pub fn low_code(c: char) -> (r: u32)
    ensures
        r as int == lower_code(c),
{
    let u = c as u32;
    if 65 <= u && u <= 90 {
        u + 32
    } else {
        u
    }
}

// ---------------------------------------------------------------------------
// Runs of characters
// ---------------------------------------------------------------------------

/// Length of the run of whitespace characters starting at `i`.
pub open spec fn ws_run(s: Seq<char>, i: int) -> nat
    decreases s.len() - i,
{
    if i < 0 || i >= s.len() || !is_ws(s[i]) {
        0
    } else {
        (1 + ws_run(s, i + 1)) as nat
    }
}

/// Length of the run of name characters starting at `i`.
pub open spec fn name_run(s: Seq<char>, i: int) -> nat
    decreases s.len() - i,
{
    if i < 0 || i >= s.len() || !is_name_char(s[i]) {
        0
    } else {
        (1 + name_run(s, i + 1)) as nat
    }
}

/// Length of the run of digit characters starting at `i`.
pub open spec fn digit_run(s: Seq<char>, i: int) -> nat
    decreases s.len() - i,
{
    if i < 0 || i >= s.len() || !is_digit(s[i]) {
        0
    } else {
        (1 + digit_run(s, i + 1)) as nat
    }
}

/// Length of the run of characters other than `stop` starting at `i`.
pub open spec fn run_to(s: Seq<char>, i: int, stop: char) -> nat
    decreases s.len() - i,
{
    if i < 0 || i >= s.len() || s[i] == stop {
        0
    } else {
        (1 + run_to(s, i + 1, stop)) as nat
    }
}

/// A run starting inside the sequence ends inside it.
pub proof fn lemma_run_to_bound(s: Seq<char>, i: int, stop: char)
    requires
        0 <= i <= s.len(),
    ensures
        i + run_to(s, i, stop) <= s.len(),
    decreases s.len() - i,
{
    if !(i >= s.len() || s[i] == stop) {
        lemma_run_to_bound(s, i + 1, stop);
    }
}

/// Length of the run of whitespace characters ending just before `i`,
/// counted leftwards.
pub open spec fn back_ws(s: Seq<char>, i: int) -> nat
    decreases i,
{
    if i <= 0 || i > s.len() || !is_ws(s[i - 1]) {
        0
    } else {
        (1 + back_ws(s, i - 1)) as nat
    }
}

pub fn scan_ws(s: &str, n: usize, i: usize) -> (j: usize)
    requires
        n == s@.len(),
        i <= n,
    ensures
        i <= j <= n,
        j == i + ws_run(s@, i as int),
{
    let mut j = i;
    while j < n && ws_char(s.get_char(j))
        invariant
            i <= j <= n,
            n == s@.len(),
            ws_run(s@, i as int) == (j - i) + ws_run(s@, j as int),
        decreases n - j,
    {
        j = j + 1;
    }
    j
}

pub fn scan_name(s: &str, n: usize, i: usize) -> (j: usize)
    requires
        n == s@.len(),
        i <= n,
    ensures
        i <= j <= n,
        j == i + name_run(s@, i as int),
{
    let mut j = i;
    while j < n && name_char(s.get_char(j))
        invariant
            i <= j <= n,
            n == s@.len(),
            name_run(s@, i as int) == (j - i) + name_run(s@, j as int),
        decreases n - j,
    {
        j = j + 1;
    }
    j
}

pub fn scan_digits(s: &str, n: usize, i: usize) -> (j: usize)
    requires
        n == s@.len(),
        i <= n,
    ensures
        i <= j <= n,
        j == i + digit_run(s@, i as int),
{
    let mut j = i;
    while j < n && digit_char(s.get_char(j))
        invariant
            i <= j <= n,
            n == s@.len(),
            digit_run(s@, i as int) == (j - i) + digit_run(s@, j as int),
        decreases n - j,
    {
        j = j + 1;
    }
    j
}

pub fn scan_to(s: &str, n: usize, i: usize, stop: char) -> (j: usize)
    requires
        n == s@.len(),
        i <= n,
    ensures
        i <= j <= n,
        j == i + run_to(s@, i as int, stop),
{
    let mut j = i;
    while j < n && s.get_char(j) != stop
        invariant
            i <= j <= n,
            n == s@.len(),
            run_to(s@, i as int, stop) == (j - i) + run_to(s@, j as int, stop),
        decreases n - j,
    {
        j = j + 1;
    }
    j
}

// ---------------------------------------------------------------------------
// Trimming
// ---------------------------------------------------------------------------

/// The sequence with leading and trailing whitespace removed.
pub open spec fn trimmed(s: Seq<char>) -> Seq<char> {
    let a = ws_run(s, 0) as int;
    let b = s.len() - back_ws(s, s.len() as int);
    if a >= b {
        Seq::empty()
    } else {
        s.subrange(a, b)
    }
}

pub fn trim_str<'a>(s: &'a str, n: usize) -> (r: &'a str)
    requires
        n == s@.len(),
    ensures
        r@ == trimmed(s@),
{
    let a = scan_ws(s, n, 0);
    let mut b = n;
    while b > 0 && ws_char(s.get_char(b - 1))
        invariant
            0 <= b <= n,
            n == s@.len(),
            back_ws(s@, n as int) == (n - b) + back_ws(s@, b as int),
        decreases b,
    {
        b = b - 1;
    }
    if a >= b {
        let r = s.substring_char(0, 0);
        proof {
            assert(r@ =~= trimmed(s@));
        }
        r
    } else {
        let r = s.substring_char(a, b);
        proof {
            assert(r@ =~= trimmed(s@));
        }
        r
    }
}

/// Exact equality of two pieces of text.
pub fn str_is(a: &str, b: &str) -> (r: bool)
    ensures
        r == (a@ == b@),
{
    let owned = String::from_str(a);
    owned.eq(&String::from_str(b))
}

/// A sequence of whitespace alone.
pub open spec fn all_ws(s: Seq<char>) -> bool {
    forall|i: int| 0 <= i < s.len() ==> is_ws(#[trigger] s[i])
}

pub proof fn lemma_ws_run_spec(s: Seq<char>, i: int)
    requires
        0 <= i <= s.len(),
    ensures
        i + ws_run(s, i) <= s.len(),
        forall|j: int| i <= j < i + ws_run(s, i) ==> is_ws(#[trigger] s[j]),
        i + ws_run(s, i) == s.len() || !is_ws(s[i + ws_run(s, i)]),
    decreases s.len() - i,
{
    if !(i >= s.len() || !is_ws(s[i])) {
        lemma_ws_run_spec(s, i + 1);
    }
}

pub proof fn lemma_ws_run_exact(s: Seq<char>, i: int, k: int)
    requires
        0 <= i,
        0 <= k,
        i + k <= s.len(),
        forall|j: int| i <= j < i + k ==> is_ws(#[trigger] s[j]),
        i + k == s.len() || !is_ws(s[i + k]),
    ensures
        ws_run(s, i) == k,
    decreases k,
{
    if k > 0 {
        lemma_ws_run_exact(s, i + 1, k - 1);
    }
}

pub proof fn lemma_back_ws_spec(s: Seq<char>, i: int)
    requires
        0 <= i <= s.len(),
    ensures
        back_ws(s, i) <= i,
        forall|j: int| i - back_ws(s, i) <= j < i ==> is_ws(#[trigger] s[j]),
        i - back_ws(s, i) == 0 || !is_ws(s[i - back_ws(s, i) - 1]),
    decreases i,
{
    if !(i <= 0 || !is_ws(s[i - 1])) {
        lemma_back_ws_spec(s, i - 1);
    }
}

pub proof fn lemma_back_ws_exact(s: Seq<char>, i: int, k: int)
    requires
        0 <= k <= i <= s.len(),
        forall|j: int| i - k <= j < i ==> is_ws(#[trigger] s[j]),
        i - k == 0 || !is_ws(s[i - k - 1]),
    ensures
        back_ws(s, i) == k,
    decreases k,
{
    if k > 0 {
        lemma_back_ws_exact(s, i - 1, k - 1);
    }
}

/// Whitespace alone trims to nothing.
pub proof fn lemma_trimmed_all_ws(s: Seq<char>)
    requires
        all_ws(s),
    ensures
        trimmed(s) == Seq::<char>::empty(),
{
    lemma_ws_run_exact(s, 0, s.len() as int);
}

/// Surrounding whitespace does not change what a text trims to.
pub proof fn lemma_trimmed_pad(p1: Seq<char>, v: Seq<char>, p2: Seq<char>)
    requires
        all_ws(p1),
        all_ws(p2),
    ensures
        trimmed(p1 + v + p2) == trimmed(v),
{
    let s = p1 + v + p2;
    if all_ws(v) {
        assert(all_ws(s)) by {
            assert forall|j: int| 0 <= j < s.len() implies is_ws(#[trigger] s[j]) by {
                if j < p1.len() {
                    assert(s[j] == p1[j]);
                } else if j < p1.len() + v.len() {
                    assert(s[j] == v[j - p1.len()]);
                } else {
                    assert(s[j] == p2[j - p1.len() - v.len()]);
                }
            }
        }
        lemma_trimmed_all_ws(s);
        lemma_trimmed_all_ws(v);
    } else {
        let w = choose|j: int| 0 <= j < v.len() && !is_ws(v[j]);
        let f = ws_run(v, 0) as int;
        lemma_ws_run_spec(v, 0);
        assert(f < v.len());
        let bk = back_ws(v, v.len() as int) as int;
        lemma_back_ws_spec(v, v.len() as int);
        let l = v.len() - bk;
        assert(l > 0);
        assert(!is_ws(v[l - 1]));
        assert(f < l) by {
            if f >= l {
                assert(is_ws(v[f]));
            }
        }
        assert(ws_run(s, 0) == p1.len() + f) by {
            assert forall|j: int| 0 <= j < p1.len() + f implies is_ws(#[trigger] s[j]) by {
                if j < p1.len() {
                    assert(s[j] == p1[j]);
                } else {
                    assert(s[j] == v[j - p1.len()]);
                }
            }
            assert(s[p1.len() + f] == v[f]);
            lemma_ws_run_exact(s, 0, p1.len() + f);
        }
        assert(back_ws(s, s.len() as int) == p2.len() + bk) by {
            assert forall|j: int| s.len() - (p2.len() + bk) <= j < s.len() implies is_ws(
                #[trigger] s[j],
            ) by {
                if j >= p1.len() + v.len() {
                    assert(s[j] == p2[j - p1.len() - v.len()]);
                } else {
                    assert(s[j] == v[j - p1.len()]);
                }
            }
            assert(s[p1.len() + l - 1] == v[l - 1]);
            lemma_back_ws_exact(s, s.len() as int, p2.len() + bk);
        }
        assert(trimmed(s) == s.subrange(p1.len() + f, p1.len() + l));
        assert(trimmed(v) == v.subrange(f, l));
        assert(s.subrange(p1.len() + f, p1.len() + l) =~= v.subrange(f, l)) by {
            assert forall|j: int| 0 <= j < l - f implies s.subrange(p1.len() + f, p1.len() + l)[j]
                == v.subrange(f, l)[j] by {
                assert(s[p1.len() + f + j] == v[f + j]);
            }
        }
    }
}

// ---------------------------------------------------------------------------
// Case-insensitive comparison
// ---------------------------------------------------------------------------

pub fn eq_nocase(a: &str, b: &str) -> (r: bool)
    ensures
        r == seq_eq_nocase(a@, b@),
{
    let na = a.unicode_len();
    let nb = b.unicode_len();
    if na != nb {
        return false;
    }
    let mut i: usize = 0;
    while i < na
        invariant
            0 <= i <= na,
            na == a@.len(),
            na == b@.len(),
            forall|k: int| 0 <= k < i ==> lower_code(a@[k]) == lower_code(b@[k]),
        decreases na - i,
    {
        if low_code(a.get_char(i)) != low_code(b.get_char(i)) {
            return false;
        }
        i = i + 1;
    }
    true
}

} // verus!
