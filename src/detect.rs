//! Finding an HTTP status code in a line of text.
use vstd::prelude::*;

verus! {

pub open spec fn is_digit(b: u8) -> bool {
    48 <= b <= 57
}

/// ASCII letters, digits and underscore: the characters that do not form a
/// word boundary next to a digit.
pub open spec fn is_word_byte(b: u8) -> bool {
    is_digit(b) || (65 <= b <= 90) || (97 <= b <= 122) || b == 95
}

/// A run of exactly three ASCII digits starts at `i`, with no word
/// character on either side.
pub open spec fn bounded_run_at(s: Seq<u8>, i: int) -> bool {
    &&& 0 <= i
    &&& i + 3 <= s.len()
    &&& is_digit(s[i])
    &&& is_digit(s[i + 1])
    &&& is_digit(s[i + 2])
    &&& (i == 0 || !is_word_byte(s[i - 1]))
    &&& (i + 3 == s.len() || !is_word_byte(s[i + 3]))
}

/// The decimal value of the three digits at `i`.
pub open spec fn run_value(s: Seq<u8>, i: int) -> int {
    (s[i] - 48) * 100 + (s[i + 1] - 48) * 10 + (s[i + 2] - 48)
}

/// A bounded run at `i` whose value is a status code, in [100, 599].
pub open spec fn status_at(s: Seq<u8>, i: int) -> bool {
    bounded_run_at(s, i) && 100 <= run_value(s, i) <= 599
}

/// The status code at `i` is the first one in the line.
pub open spec fn first_status_at(s: Seq<u8>, i: int) -> bool {
    status_at(s, i) && forall|j: int| 0 <= j < i ==> !#[trigger] status_at(s, j)
}

/// The status code a line mentions: the value of its first status run, if any.
pub open spec fn detected(s: Seq<u8>) -> Option<u16> {
    if exists|i: int| first_status_at(s, i) {
        Some(run_value(s, choose|i: int| first_status_at(s, i)) as u16)
    } else {
        None
    }
}

pub proof fn lemma_first_status_unique(s: Seq<u8>, i: int, k: int)
    requires
        first_status_at(s, i),
        first_status_at(s, k),
    ensures
        i == k,
{
    if i < k {
        assert(!status_at(s, i));
    } else if k < i {
        assert(!status_at(s, k));
    }
}

/// Where the first status run of a line stands, the line mentions its value.
pub proof fn lemma_detected_at(s: Seq<u8>, i: int)
    requires
        first_status_at(s, i),
    ensures
        detected(s) == Some(run_value(s, i) as u16),
{
    let k = choose|k: int| first_status_at(s, k);
    lemma_first_status_unique(s, i, k);
}

/// A line with no status run mentions no code.
pub proof fn lemma_detected_none(s: Seq<u8>)
    requires
        forall|i: int| !#[trigger] status_at(s, i),
    ensures
        detected(s) == None::<u16>,
{
}

/// A line without any three-digit, word-bounded run of digits mentions no
/// status code.
pub proof fn lemma_no_run_no_code(s: Seq<u8>)
    requires
        forall|i: int| !#[trigger] bounded_run_at(s, i),
    ensures
        detected(s) == None::<u16>,
{
    assert forall|i: int| !#[trigger] status_at(s, i) by {
        assert(!bounded_run_at(s, i));
    }
}

/// A line where a word-bounded `404` stands before any other status code
/// mentions 404.
pub proof fn lemma_bounded_404_detected(s: Seq<u8>, i: int)
    requires
        0 <= i,
        i + 3 <= s.len(),
        s[i] == 52u8,
        s[i + 1] == 48u8,
        s[i + 2] == 52u8,
        i == 0 || !is_word_byte(s[i - 1]),
        i + 3 == s.len() || !is_word_byte(s[i + 3]),
        forall|j: int| 0 <= j < i ==> !#[trigger] status_at(s, j),
    ensures
        detected(s) == Some(404u16),
{
    assert(first_status_at(s, i));
    lemma_detected_at(s, i);
}

fn is_digit_byte(b: u8) -> (r: bool)
    ensures
        r == is_digit(b),
{
    48 <= b && b <= 57
}

fn is_word(b: u8) -> (r: bool)
    ensures
        r == is_word_byte(b),
{
    is_digit_byte(b) || (65 <= b && b <= 90) || (97 <= b && b <= 122) || b == 95
}

/// The first three-digit, word-bounded run of the line whose value lies in
/// [100, 599]. Runs of other lengths, and values outside that range, are
/// passed over.
pub fn detect_status(line: &[u8]) -> (r: Option<u16>)
    ensures
        r == detected(line@),
        r is Some ==> 100 <= r->0 <= 599,
{
    let n = line.len();
    let mut i: usize = 0;
    while n - i >= 3
        invariant
            n == line@.len(),
            i <= n,
            forall|j: int| 0 <= j < i ==> !#[trigger] status_at(line@, j),
        decreases n - i,
    {
        let a = line[i];
        let b = line[i + 1];
        let c = line[i + 2];
        if is_digit_byte(a) && is_digit_byte(b) && is_digit_byte(c) && (i == 0 || !is_word(
            line[i - 1],
        )) && (i + 3 == n || !is_word(line[i + 3])) {
            let v: u16 = (a - 48) as u16 * 100 + (b - 48) as u16 * 10 + (c - 48) as u16;
            if 100 <= v && v <= 599 {
                proof {
                    assert(first_status_at(line@, i as int));
                    lemma_detected_at(line@, i as int);
                }
                return Some(v);
            }
        }
        i += 1;
    }
    proof {
        assert forall|j: int| !#[trigger] status_at(line@, j) by {
            if 0 <= j < i {
            }
        }
        lemma_detected_none(line@);
    }
    None
}

} // verus!
