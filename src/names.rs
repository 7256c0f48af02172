//! Names of sealed batch files: `data-{first}-{last}.json`, or
//! `data-{first}-{last}-{n}.json` when the plain name is taken.

use core::cmp::Ordering;
use vstd::prelude::*;
use vstd::string::*;
use crate::text::{chars_of, decimal, lemma_decimal_injective, lemma_decimal_len, u64_decimal};

verus! {

pub open spec fn name_prefix(first: Seq<char>, last: Seq<char>) -> Seq<char> {
    seq!['d', 'a', 't', 'a', '-'] + first + seq!['-'] + last
}

pub open spec fn json_suffix() -> Seq<char> {
    seq!['.', 'j', 's', 'o', 'n']
}

/// The `k`-th name tried for a batch whose first and last days are `first` and `last`:
/// the plain name first, then the names with suffix `-0`, `-1`, ...
pub open spec fn candidate_name(first: Seq<char>, last: Seq<char>, k: nat) -> Seq<char> {
    if k == 0 {
        name_prefix(first, last) + json_suffix()
    } else {
        name_prefix(first, last) + seq!['-'] + decimal((k - 1) as nat) + json_suffix()
    }
}

/// `k` is the first candidate that `taken` does not hold.
pub open spec fn first_free(first: Seq<char>, last: Seq<char>, taken: Seq<Seq<char>>, k: nat) -> bool {
    &&& !taken.contains(candidate_name(first, last, k))
    &&& forall|j: nat| j < k ==> taken.contains(#[trigger] candidate_name(first, last, j))
}

pub open spec fn views(names: Seq<String>) -> Seq<Seq<char>> {
    names.map_values(|s: String| s@)
}

/// Different attempts give different names.
pub proof fn lemma_candidates_distinct(first: Seq<char>, last: Seq<char>, j: nat, k: nat)
    requires
        j != k,
    ensures
        candidate_name(first, last, j) != candidate_name(first, last, k),
{
    let p = name_prefix(first, last);
    let cj = candidate_name(first, last, j);
    let ck = candidate_name(first, last, k);
    if j > 0 && k > 0 {
        lemma_decimal_len((j - 1) as nat);
        lemma_decimal_len((k - 1) as nat);
        if cj == ck {
            let dj = decimal((j - 1) as nat);
            let dk = decimal((k - 1) as nat);
            assert(cj.len() == ck.len());
            assert(dj.len() == dk.len());
            assert(cj.subrange((p.len() + 1) as int, (p.len() + 1 + dj.len()) as int) =~= dj);
            assert(ck.subrange((p.len() + 1) as int, (p.len() + 1 + dk.len()) as int) =~= dk);
            lemma_decimal_injective((j - 1) as nat, (k - 1) as nat);
        }
    } else if j == 0 {
        lemma_decimal_len((k - 1) as nat);
        assert(cj.len() < ck.len());
    } else {
        lemma_decimal_len((j - 1) as nat);
        assert(cj.len() > ck.len());
    }
}

/// Every candidate below `k` is among `taken`, so `k` cannot exceed its length.
proof fn lemma_tried_fit(first: Seq<char>, last: Seq<char>, taken: Seq<Seq<char>>, k: nat)
    requires
        forall|j: nat| j < k ==> taken.contains(#[trigger] candidate_name(first, last, j)),
    ensures
        k <= taken.len(),
{
    let tried = Seq::new(k, |j: int| candidate_name(first, last, j as nat));
    assert forall|a: int, b: int| 0 <= a < tried.len() && 0 <= b < tried.len() && a != b implies tried[a]
        != tried[b] by {
        lemma_candidates_distinct(first, last, a as nat, b as nat);
    }
    tried.unique_seq_to_set();
    assert forall|x: Seq<char>| tried.to_set().contains(x) implies taken.to_set().contains(x) by {
        let a = choose|a: int| 0 <= a < tried.len() && tried[a] == x;
        assert(taken.contains(candidate_name(first, last, a as nat)));
    }
    vstd::set_lib::lemma_len_subset(tried.to_set(), taken.to_set());
    taken.lemma_cardinality_of_set();
}

/// The candidate name number `k`.
pub fn candidate(first: &str, last: &str, k: u64) -> (r: String)
    ensures
        r@ == candidate_name(first@, last@, k as nat),
{
    proof {
        reveal_strlit("data-");
        reveal_strlit("-");
        reveal_strlit(".json");
    }
    let mut r = String::from_str("data-");
    r.append(first);
    r.append("-");
    r.append(last);
    if k > 0 {
        r.append("-");
        let n = u64_decimal(k - 1);
        r.append(n.as_str());
    }
    r.append(".json");
    r
}

fn holds_name(names: &Vec<String>, name: &String) -> (r: bool)
    ensures
        r == views(names@).contains(name@),
{
    let mut i: usize = 0;
    while i < names.len()
        invariant
            i <= names.len(),
            forall|j: int| 0 <= j < i ==> names@[j]@ != name@,
        decreases names.len() - i,
    {
        if names[i] == *name {
            assert(views(names@)[i as int] == name@);
            return true;
        }
        i = i + 1;
    }
    assert(!views(names@).contains(name@)) by {
        if views(names@).contains(name@) {
            let j = choose|j: int| 0 <= j < views(names@).len() && views(names@)[j] == name@;
            assert(names@[j]@ == name@);
        }
    }
    false
}

/// The name for a new batch file: the first candidate that none of `taken` holds,
/// so that an existing file is never overwritten.
pub fn choose_batch_name(first: &str, last: &str, taken: &Vec<String>) -> (r: String)
    ensures
        exists|k: nat| first_free(first@, last@, views(taken@), k) && r@ == candidate_name(first@, last@, k),
        !views(taken@).contains(r@),
{
    let mut k: u64 = 0;
    loop
        invariant
            k <= taken.len(),
            forall|j: nat| j < k ==> views(taken@).contains(#[trigger] candidate_name(first@, last@, j)),
        decreases taken.len() - k,
    {
        let name = candidate(first, last, k);
        if !holds_name(taken, &name) {
            assert(first_free(first@, last@, views(taken@), k as nat));
            return name;
        }
        proof {
            assert forall|j: nat| j < k + 1 implies views(taken@).contains(
                #[trigger] candidate_name(first@, last@, j),
            ) by {}
            lemma_tried_fit(first@, last@, views(taken@), (k + 1) as nat);
        }
        k = k + 1;
    }
}

/// Two flushes of batches with the same first and last days, into a directory that
/// holds neither name yet: the first is written under the plain name, the second under
/// the name with suffix `-0`, and the two differ.
pub proof fn lemma_colliding_batches_get_distinct_names(
    first: Seq<char>,
    last: Seq<char>,
    taken: Seq<Seq<char>>,
)
    requires
        !taken.contains(name_prefix(first, last) + json_suffix()),
        !taken.contains(name_prefix(first, last) + seq!['-', '0'] + json_suffix()),
    ensures
        first_free(first, last, taken, 0),
        candidate_name(first, last, 0) == name_prefix(first, last) + json_suffix(),
        first_free(first, last, taken.push(candidate_name(first, last, 0)), 1),
        candidate_name(first, last, 1) == name_prefix(first, last) + seq!['-', '0'] + json_suffix(),
        candidate_name(first, last, 0) != candidate_name(first, last, 1),
        forall|k: nat| #[trigger]
            first_free(first, last, taken, k) ==> k == 0,
        forall|k: nat| #[trigger]
            first_free(first, last, taken.push(candidate_name(first, last, 0)), k) ==> k == 1,
{
    assert(decimal(0) == seq!['0']);
    assert(name_prefix(first, last) + seq!['-'] + seq!['0'] =~= name_prefix(first, last) + seq!['-', '0']);
    lemma_candidates_distinct(first, last, 0, 1);
    let t2 = taken.push(candidate_name(first, last, 0));
    assert(t2.contains(candidate_name(first, last, 0))) by {
        assert(t2[taken.len() as int] == candidate_name(first, last, 0));
    }
    assert(!t2.contains(candidate_name(first, last, 1))) by {
        if t2.contains(candidate_name(first, last, 1)) {
            let i = choose|i: int| 0 <= i < t2.len() && t2[i] == candidate_name(first, last, 1);
            if i < taken.len() {
                assert(taken[i] == candidate_name(first, last, 1));
            }
        }
    }
    assert forall|k: nat| #[trigger] first_free(first, last, taken, k) implies k == 0 by {
        if k > 0 {
            assert(taken.contains(candidate_name(first, last, 0)));
        }
    }
    assert forall|k: nat| #[trigger] first_free(first, last, t2, k) implies k == 1 by {
        if k > 1 {
            assert(t2.contains(candidate_name(first, last, 1)));
        }
    }
}


pub open spec fn is_digit(c: char) -> bool {
    '0' <= c && c <= '9'
}

pub open spec fn all_digits(s: Seq<char>) -> bool {
    forall|i: int| 0 <= i < s.len() ==> is_digit(#[trigger] s[i])
}

/// The number that a string of decimal digits writes.
pub open spec fn digits_value(s: Seq<char>) -> nat
    decreases s.len(),
{
    if s.len() == 0 {
        0
    } else {
        digits_value(s.drop_last()) * 10 + (s.last() as nat - '0' as nat) as nat
    }
}

/// `n` has the shape of a batch file name, `data-DDDDDDDD-DDDDDDDD.json` or
/// `data-DDDDDDDD-DDDDDDDD-N.json`, where `N` is one or more digits whose value fits 64 bits.
pub open spec fn is_batch_name(n: Seq<char>) -> bool {
    &&& n.len() >= 27
    &&& n.subrange(0, 5) == seq!['d', 'a', 't', 'a', '-']
    &&& all_digits(n.subrange(5, 13))
    &&& n[13] == '-'
    &&& all_digits(n.subrange(14, 22))
    &&& n.subrange(n.len() - 5, n.len() as int) == json_suffix()
    &&& (n.len() == 27 || (n.len() >= 29 && n[22] == '-' && all_digits(n.subrange(23, n.len() - 5))
        && digits_value(n.subrange(23, n.len() - 5)) <= u64::MAX))
}

/// The last day written in a batch name, as the number `YYYYMMDD`.
pub open spec fn last_day_of(n: Seq<char>) -> nat {
    digits_value(n.subrange(14, 22))
}

/// The suffix number of a batch name; 0 where it has none.
pub open spec fn shift_of(n: Seq<char>) -> nat {
    if n.len() == 27 {
        0
    } else {
        digits_value(n.subrange(23, n.len() - 5))
    }
}

pub open spec fn cmp_nat(a: nat, b: nat) -> Ordering {
    if a < b {
        Ordering::Less
    } else if a > b {
        Ordering::Greater
    } else {
        Ordering::Equal
    }
}

/// Batch names order by their last day, then by their suffix number.
pub open spec fn name_order(a: Seq<char>, b: Seq<char>) -> Ordering {
    if last_day_of(a) != last_day_of(b) {
        cmp_nat(last_day_of(a), last_day_of(b))
    } else {
        cmp_nat(shift_of(a), shift_of(b))
    }
}

/// The value of the digits `c[from..to]`, where all are digits and the value fits 64 bits.
fn digits_in(c: &Vec<char>, from: usize, to: usize) -> (r: Option<u64>)
    requires
        from <= to <= c.len(),
    ensures
        r is Some <==> (all_digits(c@.subrange(from as int, to as int)) && digits_value(
            c@.subrange(from as int, to as int),
        ) <= u64::MAX),
        r is Some ==> r->0 == digits_value(c@.subrange(from as int, to as int)),
{
    let mut v: u64 = 0;
    let mut i: usize = from;
    while i < to
        invariant
            from <= i <= to <= c.len(),
            all_digits(c@.subrange(from as int, i as int)),
            v == digits_value(c@.subrange(from as int, i as int)),
        decreases to - i,
    {
        let ch = c[i];
        assert(c@.subrange(from as int, i as int + 1).drop_last() =~= c@.subrange(from as int, i as int));
        if !('0' <= ch && ch <= '9') {
            assert(c@.subrange(from as int, to as int)[i - from] == ch);
            return None;
        }
        let d = (ch as u32 - '0' as u32) as u64;
        if v > (u64::MAX - d) / 10 {
            proof {
                if all_digits(c@.subrange(from as int, to as int)) {
                    lemma_digits_value_prefix(c@.subrange(from as int, to as int), (i + 1 - from) as nat);
                }
                assert(c@.subrange(from as int, to as int).subrange(0, (i + 1 - from) as int) =~= c@.subrange(
                    from as int,
                    i as int + 1,
                ));
            }
            return None;
        }
        v = v * 10 + d;
        i = i + 1;
        assert(all_digits(c@.subrange(from as int, i as int))) by {
            assert forall|j: int| 0 <= j < i - from implies is_digit(
                #[trigger] c@.subrange(from as int, i as int)[j],
            ) by {
                if j < i - 1 - from {
                    assert(c@.subrange(from as int, i as int)[j] == c@.subrange(from as int, i - 1)[j]);
                }
            }
        }
    }
    Some(v)
}

pub open spec fn pow10(n: nat) -> nat
    decreases n,
{
    if n == 0 {
        1
    } else {
        10 * pow10((n - 1) as nat)
    }
}

proof fn lemma_pow10_8()
    ensures
        pow10(8) == 100000000,
{
    reveal_with_fuel(pow10, 9);
}

/// `n` digits write a number below `10^n`.
proof fn lemma_digits_value_bound(s: Seq<char>)
    requires
        all_digits(s),
    ensures
        digits_value(s) < pow10(s.len()),
    decreases s.len(),
{
    if s.len() > 0 {
        assert(all_digits(s.drop_last())) by {
            assert forall|i: int| 0 <= i < s.drop_last().len() implies is_digit(#[trigger] s.drop_last()[i]) by {
                assert(s.drop_last()[i] == s[i]);
            }
        }
        lemma_digits_value_bound(s.drop_last());
        assert(is_digit(s[s.len() - 1]));
        let v = digits_value(s.drop_last());
        let p = pow10(s.drop_last().len());
        let d = (s.last() as nat - '0' as nat) as nat;
        assert(d <= 9);
        assert(v * 10 + d < 10 * p) by (nonlinear_arith)
            requires
                v < p,
                d <= 9,
        ;
    }
}

/// A prefix of a digit string never writes a larger number.
pub proof fn lemma_digits_value_prefix(s: Seq<char>, k: nat)
    requires
        k <= s.len(),
        all_digits(s),
    ensures
        digits_value(s.subrange(0, k as int)) <= digits_value(s),
    decreases s.len(),
{
    if k < s.len() {
        assert(s.drop_last().subrange(0, k as int) =~= s.subrange(0, k as int));
        assert(all_digits(s.drop_last())) by {
            assert forall|i: int| 0 <= i < s.drop_last().len() implies is_digit(#[trigger] s.drop_last()[i]) by {
                assert(s.drop_last()[i] == s[i]);
            }
        }
        lemma_digits_value_prefix(s.drop_last(), k);
    } else {
        assert(s.subrange(0, k as int) =~= s);
    }
}

fn chars_equal(c: &Vec<char>, from: usize, expected: &str) -> (r: bool)
    requires
        from <= c.len(),
    ensures
        r == (from + expected@.len() <= c.len() && c@.subrange(from as int, from + expected@.len()) == expected@),
{
    let m = expected.unicode_len();
    if m > c.len() - from {
        return false;
    }
    let mut i: usize = 0;
    while i < m
        invariant
            m == expected@.len(),
            from + m <= c.len(),
            i <= m,
            forall|j: int| 0 <= j < i ==> c@[from + j] == expected@[j],
        decreases m - i,
    {
        if c[from + i] != expected.get_char(i) {
            assert(c@.subrange(from as int, from + m)[i as int] != expected@[i as int]);
            return false;
        }
        i = i + 1;
    }
    assert(c@.subrange(from as int, from + m) =~= expected@);
    true
}

/// The last day and suffix number of a batch name; `None` for any other name.
pub fn parse_batch_name(name: &str) -> (r: Option<(u64, u64)>)
    ensures
        r is Some <==> is_batch_name(name@),
        r matches Some((d, s)) ==> d == last_day_of(name@) && s == shift_of(name@),
{
    proof {
        reveal_strlit("data-");
        reveal_strlit(".json");
        assert("data-"@ =~= seq!['d', 'a', 't', 'a', '-']);
        assert(".json"@ =~= json_suffix());
    }
    let c = chars_of(name);
    let n = c.len();
    if n < 27 {
        return None;
    }
    if !chars_equal(&c, 0, "data-") || c[13] != '-' || !chars_equal(&c, n - 5, ".json") {
        return None;
    }
    let first = digits_in(&c, 5, 13);
    let last = digits_in(&c, 14, 22);
    if first.is_none() || last.is_none() {
        proof {
            if all_digits(c@.subrange(5, 13)) {
                lemma_digits_value_bound(c@.subrange(5, 13));
                lemma_pow10_8();
            }
            if all_digits(c@.subrange(14, 22)) {
                lemma_digits_value_bound(c@.subrange(14, 22));
                lemma_pow10_8();
            }
        }
        return None;
    }
    let day = match last {
        Some(d) => d,
        None => 0,
    };
    if n == 27 {
        return Some((day, 0));
    }
    if n < 29 || c[22] != '-' {
        return None;
    }
    match digits_in(&c, 23, n - 5) {
        Some(shift) => Some((day, shift)),
        None => None,
    }
}

fn cmp_u64(a: u64, b: u64) -> (r: Ordering)
    ensures
        r == cmp_nat(a as nat, b as nat),
{
    if a < b {
        Ordering::Less
    } else if a > b {
        Ordering::Greater
    } else {
        Ordering::Equal
    }
}

/// Orders two batch names by their last day, then by their suffix number (none counts as 0).
pub fn compare_by_names(first_name: &str, second_name: &str) -> (r: Ordering)
    requires
        is_batch_name(first_name@),
        is_batch_name(second_name@),
    ensures
        r == name_order(first_name@, second_name@),
{
    let a = parse_batch_name(first_name);
    let b = parse_batch_name(second_name);
    match (a, b) {
        (Some((da, sa)), Some((db, sb))) => {
            if da != db {
                cmp_u64(da, db)
            } else {
                cmp_u64(sa, sb)
            }
        },
        _ => Ordering::Equal,
    }
}

/// The position of the latest batch name among `names` by `name_order`; other names
/// are passed over. `None` where no name is a batch name.
pub fn latest_batch_name(names: &Vec<String>) -> (r: Option<usize>)
    ensures
        r is None <==> forall|i: int| 0 <= i < names.len() ==> !is_batch_name(#[trigger] names@[i]@),
        r matches Some(i) ==> i < names.len() && is_batch_name(names@[i as int]@) && forall|j: int|
            0 <= j < names.len() && is_batch_name(#[trigger] names@[j]@) ==> name_order(names@[j]@, names@[i as int]@)
                != Ordering::Greater,
{
    let mut best: Option<usize> = None;
    let mut i: usize = 0;
    while i < names.len()
        invariant
            i <= names.len(),
            best is None <==> forall|j: int| 0 <= j < i ==> !is_batch_name(#[trigger] names@[j]@),
            best matches Some(b) ==> b < i && is_batch_name(names@[b as int]@) && forall|j: int|
                0 <= j < i && is_batch_name(#[trigger] names@[j]@) ==> name_order(names@[j]@, names@[b as int]@)
                    != Ordering::Greater,
        decreases names.len() - i,
    {
        if parse_batch_name(names[i].as_str()).is_some() {
            match best {
                None => {
                    best = Some(i);
                },
                Some(b) => {
                    if let Ordering::Greater = compare_by_names(names[i].as_str(), names[b].as_str()) {
                        best = Some(i);
                    }
                },
            }
        }
        i = i + 1;
    }
    best
}

} // verus!
