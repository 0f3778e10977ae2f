//! The development-only credential fallback: a local file of `KEY=value`
//! lines. The credential line is `DJI_API_KEY=value`; the value is taken with
//! surrounding whitespace trimmed and one pair of surrounding quotes
//! stripped, and is ignored when empty or when it is the documentation
//! placeholder.

use vstd::prelude::*;
use vstd::slice::slice_subrange;
use vstd::slice::slice_to_vec;

verus! {

/// Horizontal whitespace that is trimmed around a value.
pub open spec fn is_ws(b: u8) -> bool {
    b == 32 || b == 9 || b == 13
}

/// A quote character that may surround a value.
pub open spec fn is_quote(b: u8) -> bool {
    b == 34 || b == 39
}

/// The line prefix `DJI_API_KEY=`, byte by byte.
pub open spec fn starts_with_key_prefix(line: Seq<u8>) -> bool {
    &&& line.len() >= 12
    &&& line[0] == 68
    &&& line[1] == 74
    &&& line[2] == 73
    &&& line[3] == 95
    &&& line[4] == 65
    &&& line[5] == 80
    &&& line[6] == 73
    &&& line[7] == 95
    &&& line[8] == 75
    &&& line[9] == 69
    &&& line[10] == 89
    &&& line[11] == 61
}

/// The documentation placeholder `your_api_key_here`, byte by byte.
pub open spec fn is_placeholder(v: Seq<u8>) -> bool {
    &&& v.len() == 17
    &&& v[0] == 121
    &&& v[1] == 111
    &&& v[2] == 117
    &&& v[3] == 114
    &&& v[4] == 95
    &&& v[5] == 97
    &&& v[6] == 112
    &&& v[7] == 105
    &&& v[8] == 95
    &&& v[9] == 107
    &&& v[10] == 101
    &&& v[11] == 121
    &&& v[12] == 95
    &&& v[13] == 104
    &&& v[14] == 101
    &&& v[15] == 114
    &&& v[16] == 101
}

/// Drop leading whitespace.
pub open spec fn trim_front(s: Seq<u8>) -> Seq<u8>
    decreases s.len(),
{
    if s.len() > 0 && is_ws(s[0]) {
        trim_front(s.skip(1))
    } else {
        s
    }
}

/// Drop trailing whitespace.
pub open spec fn trim_back(s: Seq<u8>) -> Seq<u8>
    decreases s.len(),
{
    if s.len() > 0 && is_ws(s[s.len() - 1]) {
        trim_back(s.take(s.len() - 1))
    } else {
        s
    }
}

/// Strip one pair of surrounding quotes of the same kind.
pub open spec fn unquote(s: Seq<u8>) -> Seq<u8> {
    if s.len() >= 2 && s[0] == s[s.len() - 1] && is_quote(s[0]) {
        s.subrange(1, s.len() - 1)
    } else {
        s
    }
}

/// Whether a trimmed, unquoted value counts as a credential.
pub open spec fn value_ok(v: Seq<u8>) -> bool {
    v.len() > 0 && !is_placeholder(v)
}

/// What one line contributes: the credential value, when the line is a
/// `DJI_API_KEY=` line with a usable value.
pub open spec fn parse_env_line(line: Seq<u8>) -> Option<Seq<u8>> {
    if starts_with_key_prefix(line) {
        let v = unquote(trim_back(trim_front(line.skip(12))));
        if value_ok(v) {
            Some(v)
        } else {
            None
        }
    } else {
        None
    }
}

/// Length of the first line: the index of the first newline, or the whole
/// sequence when there is none.
pub open spec fn line_len(s: Seq<u8>) -> nat
    decreases s.len(),
{
    if s.len() == 0 {
        0
    } else if s[0] == 10 {
        0
    } else {
        1 + line_len(s.skip(1))
    }
}

/// What a whole file contributes: the value of the first usable
/// `DJI_API_KEY=` line, scanning line by line.
pub open spec fn spec_dotenv(s: Seq<u8>) -> Option<Seq<u8>>
    decreases s.len(),
{
    let l = line_len_clipped(s);
    match parse_env_line(s.take(l)) {
        Some(v) => Some(v),
        None => if l == s.len() {
            None
        } else {
            spec_dotenv(s.skip(l + 1))
        },
    }
}

/// `line_len`, bounded into the sequence so that recursion on the rest of the
/// file terminates.
pub open spec fn line_len_clipped(s: Seq<u8>) -> int {
    if line_len(s) <= s.len() {
        line_len(s) as int
    } else {
        s.len() as int
    }
}

/// `line_len` points at the first newline.
pub proof fn lemma_line_len(s: Seq<u8>)
    ensures
        0 <= line_len(s) <= s.len(),
        line_len(s) == s.len() || s[line_len(s) as int] == 10,
        forall|k: int| 0 <= k < line_len(s) ==> s[k] != 10,
        line_len_clipped(s) == line_len(s),
    decreases s.len(),
{
    if s.len() == 0 {
    } else if s[0] == 10 {
    } else {
        lemma_line_len(s.skip(1));
        assert forall|k: int| 0 <= k < line_len(s) implies s[k] != 10 by {
            if k > 0 {
                assert(s.skip(1)[k - 1] == s[k]);
            }
        }
        assert(line_len(s) == s.len() || s[line_len(s) as int] == s.skip(1)[line_len(s) - 1]);
    }
}

/// A scan that saw no newline before `m`, and a newline or the end at `m`,
/// found the first line.
pub proof fn lemma_line_len_determined(s: Seq<u8>, m: int)
    requires
        0 <= m <= s.len(),
        forall|k: int| 0 <= k < m ==> s[k] != 10,
        m == s.len() || s[m] == 10,
    ensures
        line_len(s) == m,
    decreases m,
{
    if m == 0 {
        if s.len() > 0 {
            assert(s[0] == 10);
        }
    } else {
        assert(s[0] != 10);
        assert forall|k: int| 0 <= k < m - 1 implies s.skip(1)[k] != 10 by {
            assert(s.skip(1)[k] == s[k + 1]);
        }
        assert(m - 1 == s.skip(1).len() || s.skip(1)[m - 1] == 10);
        lemma_line_len_determined(s.skip(1), m - 1);
    }
}

/// A scan that consumed exactly the leading whitespace did the front trim.
pub proof fn lemma_trim_front_window(s: Seq<u8>, k: int)
    requires
        0 <= k <= s.len(),
        forall|m: int| 0 <= m < k ==> is_ws(s[m]),
        k == s.len() || !is_ws(s[k]),
    ensures
        trim_front(s) =~= s.skip(k),
    decreases k,
{
    if k == 0 {
        if s.len() > 0 && is_ws(s[0]) {
            assert(false);
        }
        assert(s.skip(0) =~= s);
    } else {
        assert(is_ws(s[0]));
        assert forall|m: int| 0 <= m < k - 1 implies is_ws(s.skip(1)[m]) by {
            assert(s.skip(1)[m] == s[m + 1]);
        }
        assert(k - 1 == s.skip(1).len() || !is_ws(s.skip(1)[k - 1]));
        lemma_trim_front_window(s.skip(1), k - 1);
        assert(s.skip(1).skip(k - 1) =~= s.skip(k));
    }
}

/// A scan that consumed exactly the trailing whitespace did the back trim.
pub proof fn lemma_trim_back_window(s: Seq<u8>, k: int)
    requires
        0 <= k <= s.len(),
        forall|m: int| k <= m < s.len() ==> is_ws(s[m]),
        k == 0 || !is_ws(s[k - 1]),
    ensures
        trim_back(s) =~= s.take(k),
    decreases s.len() - k,
{
    if k == s.len() {
        if s.len() > 0 && is_ws(s[s.len() - 1]) {
            assert(false);
        }
        assert(s.take(k) =~= s);
    } else {
        assert(is_ws(s[s.len() - 1]));
        let t = s.take(s.len() - 1);
        assert forall|m: int| k <= m < t.len() implies is_ws(t[m]) by {
            assert(t[m] == s[m]);
        }
        lemma_trim_back_window(t, k);
        assert(t.take(k) =~= s.take(k));
    }
}

/// Whether a byte is trimmed whitespace.
fn ws(b: u8) -> (r: bool)
    ensures
        r == is_ws(b),
{
    b == 32 || b == 9 || b == 13
}

/// Parse one line of the file, given as the window `[i, j)`: when it is a
/// usable `DJI_API_KEY=` line, the window of its value.
#[verifier::rlimit(100)]
fn parse_line_window(content: &[u8], i: usize, j: usize) -> (r: Option<(usize, usize)>)
    requires
        i <= j <= content@.len(),
    ensures
        match r {
            Some((a, b)) => i <= a <= b <= j && parse_env_line(
                content@.subrange(i as int, j as int),
            ) == Some(content@.subrange(a as int, b as int)),
            None => parse_env_line(content@.subrange(i as int, j as int)) is None,
        },
{
    let ghost line = content@.subrange(i as int, j as int);
    // does the line carry the credential key?
    let has_prefix = j - i >= 12 && content[i] == 68 && content[i + 1] == 74 && content[i + 2]
        == 73 && content[i + 3] == 95 && content[i + 4] == 65 && content[i + 5] == 80
        && content[i + 6] == 73 && content[i + 7] == 95 && content[i + 8] == 75 && content[i
        + 9] == 69 && content[i + 10] == 89 && content[i + 11] == 61;
    proof {
        assert(has_prefix == starts_with_key_prefix(line));
    }
    if !has_prefix {
        return None;
    }
    // trim whitespace around the value
    let mut a: usize = i + 12;
    let mut b: usize = j;
    while a < b && ws(content[a])
        invariant
            i + 12 <= a <= b <= content@.len(),
            b == j,
            forall|m: int| i + 12 <= m < a ==> is_ws(content@[m]),
        decreases b - a,
    {
        a = a + 1;
    }
    while b > a && ws(content[b - 1])
        invariant
            a <= b <= j <= content@.len(),
            forall|m: int| b <= m < j ==> is_ws(content@[m]),
        decreases b,
    {
        b = b - 1;
    }
    let ghost value_rest = line.skip(12);
    proof {
        assert(value_rest =~= content@.subrange(i + 12, j as int));
        assert forall|m: int| 0 <= m < a - (i + 12) implies is_ws(value_rest[m]) by {
            assert(value_rest[m] == content@[i + 12 + m]);
        }
        if a - (i + 12) < value_rest.len() {
            assert(value_rest[a - (i + 12)] == content@[a as int]);
        }
        lemma_trim_front_window(value_rest, a - (i + 12));
        let front = value_rest.skip(a - (i + 12));
        assert(front =~= content@.subrange(a as int, j as int));
        assert forall|m: int| b - a <= m < front.len() implies is_ws(front[m]) by {
            assert(front[m] == content@[a + m]);
        }
        if b > a {
            assert(front[b - a - 1] == content@[b - 1]);
        }
        lemma_trim_back_window(front, b - a);
        assert(front.take(b - a) =~= content@.subrange(a as int, b as int));
    }
    let ghost trimmed = content@.subrange(a as int, b as int);
    // strip one pair of surrounding quotes of the same kind
    if b - a >= 2 && content[a] == content[b - 1] && (content[a] == 34 || content[a] == 39) {
        proof {
            assert(unquote(trimmed) =~= content@.subrange(a + 1, b - 1));
        }
        a = a + 1;
        b = b - 1;
    } else {
        proof {
            assert(unquote(trimmed) =~= content@.subrange(a as int, b as int));
        }
    }
    let ghost value = content@.subrange(a as int, b as int);
    proof {
        assert(value == unquote(trim_back(trim_front(line.skip(12)))));
    }
    // reject empty values and the documentation placeholder
    let is_ph = b - a == 17 && content[a] == 121 && content[a + 1] == 111 && content[a + 2]
        == 117 && content[a + 3] == 114 && content[a + 4] == 95 && content[a + 5] == 97
        && content[a + 6] == 112 && content[a + 7] == 105 && content[a + 8] == 95 && content[a
        + 9] == 107 && content[a + 10] == 101 && content[a + 11] == 121 && content[a + 12]
        == 95 && content[a + 13] == 104 && content[a + 14] == 101 && content[a + 15] == 114
        && content[a + 16] == 101;
    proof {
        assert(is_ph == is_placeholder(value));
    }
    if b > a && !is_ph {
        Some((a, b))
    } else {
        None
    }
}

/// Extract the credential from the contents of a development `.env` file.
///
/// Scans line by line for `DJI_API_KEY=`; the first line whose value survives
/// trimming, unquoting and the placeholder check wins.
#[verifier::rlimit(100)]
pub fn dotenv_api_key(content: &[u8]) -> (r: Option<Vec<u8>>)
    ensures
        match r {
            Some(v) => spec_dotenv(content@) == Some(v@),
            None => spec_dotenv(content@) is None,
        },
{
    let n = content.len();
    let mut i: usize = 0;
    proof {
        assert(content@.skip(0) =~= content@);
    }
    loop
        invariant
            0 <= i <= n,
            n == content@.len(),
            spec_dotenv(content@) == spec_dotenv(content@.skip(i as int)),
        decreases n - i,
    {
        if i >= n {
            proof {
                assert(content@.skip(n as int) =~= Seq::<u8>::empty());
                reveal_with_fuel(spec_dotenv, 1);
            }
            return None;
        }
        // find the end of the current line
        let mut j: usize = i;
        while j < n && content[j] != 10
            invariant
                i <= j <= n,
                n == content@.len(),
                forall|k: int| i <= k < j ==> content@[k] != 10,
            decreases n - j,
        {
            j = j + 1;
        }
        let ghost rest = content@.skip(i as int);
        proof {
            assert forall|k: int| 0 <= k < j - i implies rest[k] != 10 by {
                assert(rest[k] == content@[i + k]);
            }
            if (j - i) < rest.len() {
                assert(rest[j - i] == content@[j as int]);
            }
            lemma_line_len_determined(rest, j - i);
            lemma_line_len(rest);
            assert(rest.take(j - i) =~= content@.subrange(i as int, j as int));
        }
        match parse_line_window(content, i, j) {
            Some((a, b)) => {
                proof {
                    reveal_with_fuel(spec_dotenv, 1);
                    assert(spec_dotenv(rest) == Some(content@.subrange(a as int, b as int)));
                }
                return Some(slice_to_vec(slice_subrange(content, a, b)));
            },
            None => {},
        }
        // this line contributed nothing; move past it
        proof {
            reveal_with_fuel(spec_dotenv, 1);
            if j == n {
                assert(line_len_clipped(rest) == rest.len());
                assert(spec_dotenv(rest) is None);
                assert(spec_dotenv(content@.skip(n as int)) is None ==> spec_dotenv(content@)
                    is None);
            } else {
                assert(rest.skip(j - i + 1) =~= content@.skip(j + 1));
                assert(spec_dotenv(rest) == spec_dotenv(content@.skip(j + 1)));
            }
        }
        if j == n {
            return None;
        }
        i = j + 1;
    }
}

} // verus!
