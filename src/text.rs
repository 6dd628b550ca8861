use vstd::prelude::*;
use crate::primitive::{parse_decimal, parsed_decimal, render, rendered, sci_char};
use crate::uncertain::{UncertainDecimal, UncertainError};

verus! {

/// The characters with the Unicode `White_Space` property.
pub open spec fn is_space(c: char) -> bool {
    let n = c as u32;
    (0x9 <= n && n <= 0xd) || n == 0x20 || n == 0x85 || n == 0xa0 || n == 0x1680 || (0x2000 <= n
        && n <= 0x200a) || n == 0x2028 || n == 0x2029 || n == 0x202f || n == 0x205f || n == 0x3000
}

/// The plus-minus sign that separates value and uncertainty.
pub open spec fn is_separator(c: char) -> bool {
    c as u32 == 0xb1
}

/// The first index at or after `i` that does not hold white space (or the length).
pub open spec fn lead(s: Seq<char>, i: int) -> int
    decreases s.len() - i,
{
    if i < 0 || i >= s.len() {
        s.len() as int
    } else if is_space(s[i]) {
        lead(s, i + 1)
    } else {
        i
    }
}

/// One past the last index before `j` that does not hold white space (or zero).
pub open spec fn trail(s: Seq<char>, j: int) -> int
    decreases j,
{
    if j <= 0 || j > s.len() {
        0
    } else if is_space(s[j - 1]) {
        trail(s, j - 1)
    } else {
        j
    }
}

/// `s` without white space at either end.
pub open spec fn trimmed(s: Seq<char>) -> Seq<char> {
    if lead(s, 0) < trail(s, s.len() as int) {
        s.subrange(lead(s, 0), trail(s, s.len() as int))
    } else {
        Seq::empty()
    }
}

/// The first index at or after `i` that holds the separator, or -1.
pub open spec fn separator_from(s: Seq<char>, i: int) -> int
    decreases s.len() - i,
{
    if i < 0 || i >= s.len() {
        -1
    } else if is_separator(s[i]) {
        i
    } else {
        separator_from(s, i + 1)
    }
}

/// `<value> ± <uncertainty>`, split at the first separator, each side trimmed.
pub open spec fn spec_parse(s: Seq<char>) -> Option<UncertainDecimal> {
    let k = separator_from(s, 0);
    if k < 0 {
        None
    } else {
        match (
            parsed_decimal(trimmed(s.subrange(0, k))),
            parsed_decimal(trimmed(s.subrange(k + 1, s.len() as int))),
        ) {
            (Some(v), Some(u)) => Some(UncertainDecimal { value: v, uncertainty: u }),
            _ => None,
        }
    }
}

pub open spec fn separator_text() -> Seq<char> {
    seq![' ', '\u{b1}', ' ']
}

pub open spec fn spec_format(x: UncertainDecimal) -> Seq<char> {
    rendered(x.value) + separator_text() + rendered(x.uncertainty)
}

/// Relies on `str::chars` collected into a `Vec`: the characters in order.
#[verifier::external_body]
fn chars_of(s: &str) -> (r: Vec<char>)
    ensures
        r@ == s@,
{
    s.chars().collect()
}

/// Relies on `String: FromIterator<char>`: the characters in order.
#[verifier::external_body]
fn string_of(v: &[char]) -> (r: String)
    ensures
        r@ == v@,
{
    v.iter().collect()
}

fn is_space_exec(c: char) -> (r: bool)
    ensures
        r == is_space(c),
{
    let n = c as u32;
    (0x9 <= n && n <= 0xd) || n == 0x20 || n == 0x85 || n == 0xa0 || n == 0x1680 || (0x2000 <= n
        && n <= 0x200a) || n == 0x2028 || n == 0x2029 || n == 0x202f || n == 0x205f || n == 0x3000
}

fn slice_chars(v: &Vec<char>, start: usize, end: usize) -> (r: Vec<char>)
    requires
        start <= end <= v@.len(),
    ensures
        r@ == v@.subrange(start as int, end as int),
{
    let mut r: Vec<char> = Vec::new();
    let mut i: usize = start;
    while i < end
        invariant
            start <= i <= end <= v@.len(),
            r@ == v@.subrange(start as int, i as int),
        decreases end - i,
    {
        r.push(v[i]);
        i = i + 1;
    }
    r
}

fn trim_chars(v: &Vec<char>) -> (r: Vec<char>)
    ensures
        r@ == trimmed(v@),
{
    let n = v.len();
    let mut a: usize = 0;
    while a < n && is_space_exec(v[a])
        invariant
            a <= n == v@.len(),
            lead(v@, a as int) == lead(v@, 0),
        decreases n - a,
    {
        a = a + 1;
    }
    let mut b: usize = n;
    while b > 0 && is_space_exec(v[b - 1])
        invariant
            b <= n == v@.len(),
            trail(v@, b as int) == trail(v@, n as int),
        decreases b,
    {
        b = b - 1;
    }
    if a < b {
        slice_chars(v, a, b)
    } else {
        Vec::new()
    }
}

fn parse_side(v: &Vec<char>, start: usize, end: usize) -> (r: Option<crate::decimal::Decimal>)
    requires
        start <= end <= v@.len(),
    ensures
        r == parsed_decimal(trimmed(v@.subrange(start as int, end as int))),
        r matches Some(x) ==> x.wf(),
{
    let t = trim_chars(&slice_chars(v, start, end));
    let s = string_of(t.as_slice());
    parse_decimal(s.as_str())
}

proof fn lemma_separator_at(s: Seq<char>, i: int, k: int)
    requires
        0 <= i <= k < s.len(),
        is_separator(s[k]),
        forall|j: int| i <= j < k ==> !is_separator(#[trigger] s[j]),
    ensures
        separator_from(s, i) == k,
    decreases k - i,
{
    if i < k {
        lemma_separator_at(s, i + 1, k);
    }
}

proof fn lemma_sci_char(c: char)
    requires
        sci_char(c),
    ensures
        !is_space(c),
        !is_separator(c),
{
}

impl UncertainDecimal {
    /// Reads `<value> ± <uncertainty>`: split at the first `±`, white space trimmed on
    /// each side, each side a decimal number; anything else is `Malformed`.
    pub fn from_str(s: &str) -> (r: Result<UncertainDecimal, UncertainError>)
        ensures
            r == match spec_parse(s@) {
                Some(x) => Ok::<UncertainDecimal, UncertainError>(x),
                None => Err(UncertainError::Malformed),
            },
            r matches Ok(x) ==> x.wf(),
    {
        let v = chars_of(s);
        let n = v.len();
        let mut k: usize = 0;
        while k < n && (v[k] as u32) != 0xb1
            invariant
                k <= n == v@.len(),
                separator_from(v@, k as int) == separator_from(v@, 0),
            decreases n - k,
        {
            k = k + 1;
        }
        if k == n {
            return Err(UncertainError::Malformed);
        }
        let value = parse_side(&v, 0, k);
        let uncertainty = parse_side(&v, k + 1, n);
        match (value, uncertainty) {
            (Some(value), Some(uncertainty)) => Ok(UncertainDecimal { value, uncertainty }),
            _ => Err(UncertainError::Malformed),
        }
    }

    /// Writes `<value> ± <uncertainty>`, each side in the decimal's scientific form;
    /// reading the text back gives the same pair.
    pub fn to_string(&self) -> (r: String)
        requires
            self.wf(),
        ensures
            r@ == spec_format(*self),
            spec_parse(r@) == Some(*self),
    {
        let a = render(self.value);
        let b = render(self.uncertainty);
        let mut v = chars_of(a.as_str());
        v.push(' ');
        v.push('\u{b1}');
        v.push(' ');
        let w = chars_of(b.as_str());
        let mut i: usize = 0;
        while i < w.len()
            invariant
                i <= w@.len(),
                v@ == a@ + separator_text() + w@.subrange(0, i as int),
            decreases w@.len() - i,
        {
            v.push(w[i]);
            i = i + 1;
        }
        let r = string_of(v.as_slice());
        proof {
            let s = r@;
            let ra = a@;
            let rb = b@;
            let k = ra.len() as int;
            assert(w@.subrange(0, w@.len() as int) =~= w@);
            assert(s =~= ra + separator_text() + rb);
            assert forall|j: int| 0 <= j < k implies !is_separator(#[trigger] s[j]) by {
                assert(s[j] == ra[j]);
                lemma_sci_char(ra[j]);
            }
            assert(s[k] == ' ');
            assert(s[k + 1] == '\u{b1}');
            lemma_separator_at(s, 0, k + 1);
            let left = s.subrange(0, k + 1);
            let right = s.subrange(k + 2, s.len() as int);
            assert(left =~= ra.push(' '));
            assert(right =~= seq![' '] + rb);
            lemma_sci_char(ra[0]);
            lemma_sci_char(ra[k - 1]);
            lemma_sci_char(rb[0]);
            lemma_sci_char(rb[rb.len() - 1]);
            assert(left[0] == ra[0]);
            assert(left[k - 1] == ra[k - 1]);
            assert(lead(left, 0) == 0);
            assert(trail(left, k) == k);
            assert(trail(left, k + 1) == k);
            assert(trimmed(left) =~= ra);
            assert(right[1] == rb[0]);
            assert(right[right.len() - 1] == rb[rb.len() - 1]);
            assert(lead(right, 1) == 1);
            assert(lead(right, 0) == 1);
            assert(trail(right, right.len() as int) == right.len());
            assert(trimmed(right) =~= rb);
            assert(s.subrange(k + 2, s.len() as int) == right);
        }
        r
    }
}

} // verus!
