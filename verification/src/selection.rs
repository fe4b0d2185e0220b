//! The selection flow: entities are presented as `"{id} - {title}"` labels,
//! and a choice is resolved back to its entity by parsing the leading
//! numeric token of the chosen label. This module holds the label
//! rendering, the decimal parsing, the id-ordered listing, the conjunctive
//! task filter and the delayed-task report, all verified.

use vstd::prelude::*;
use vstd::string::StringExecFns;

use crate::datetime::overdue_spec;
use crate::domain::{Board, Comment, Task};

verus! {

/// Every element of a filtered sequence is an element of the unfiltered
/// sequence.
pub proof fn lemma_filter_elems<A>(s: Seq<A>, pred: spec_fn(A) -> bool)
    ensures
        forall|p: int|
            0 <= p < s.filter(pred).len() ==> s.contains(#[trigger] s.filter(pred)[p]),
    decreases s.len(),
{
    reveal(Seq::filter);
    if s.len() != 0 {
        let s0 = s.drop_last();
        lemma_filter_elems(s0, pred);
        let f = s.filter(pred);
        let f0 = s0.filter(pred);
        assert forall|p: int| 0 <= p < f.len() implies s.contains(f[p]) by {
            if pred(s.last()) && p == f.len() - 1 {
                assert(f[p] == s.last());
                assert(s[s.len() - 1] == s.last());
            } else {
                assert(s0.contains(f0[p]));
                let q = choose|q: int| 0 <= q < s0.len() && s0[q] == f0[p];
                assert(s[q] == f[p]);
            }
        }
    }
}

/// Filtering keeps keys pairwise distinct: when no two elements of the
/// unfiltered sequence share a key, no two elements of the filtered
/// sequence do.
pub proof fn lemma_filter_keeps_distinct<A>(
    s: Seq<A>,
    pred: spec_fn(A) -> bool,
    key: spec_fn(A) -> int,
)
    requires
        forall|i: int, j: int| 0 <= i < j < s.len() ==> key(s[i]) != key(s[j]),
    ensures
        forall|p: int, q: int|
            0 <= p < q < s.filter(pred).len() ==> key(#[trigger] s.filter(pred)[p]) != key(
                #[trigger] s.filter(pred)[q],
            ),
    decreases s.len(),
{
    reveal(Seq::filter);
    if s.len() != 0 {
        let s0 = s.drop_last();
        lemma_filter_keeps_distinct(s0, pred, key);
        lemma_filter_elems(s0, pred);
        let f = s.filter(pred);
        let f0 = s0.filter(pred);
        assert forall|p: int, q: int| 0 <= p < q < f.len() implies key(f[p]) != key(f[q]) by {
            if pred(s.last()) && q == f.len() - 1 {
                assert(f[q] == s.last());
                assert(s0.contains(f0[p]));
                let w = choose|w: int| 0 <= w < s0.len() && s0[w] == f0[p];
                assert(key(s[w]) != key(s[s.len() - 1]));
            } else {
                assert(f0[p] == f[p] && f0[q] == f[q]);
            }
        }
    }
}

/// Pushing one element extends the filtered sequence by that element
/// exactly when it passes the predicate.
pub proof fn lemma_filter_push<A>(s: Seq<A>, x: A, pred: spec_fn(A) -> bool)
    ensures
        s.push(x).filter(pred) == (if pred(x) {
            s.filter(pred).push(x)
        } else {
            s.filter(pred)
        }),
{
    reveal(Seq::filter);
    assert(s.push(x).drop_last() =~= s);
    assert(s.push(x).last() == x);
}

/// The character that renders one decimal digit.
pub open spec fn digit_char(d: nat) -> char {
    if d == 0 {
        '0'
    } else if d == 1 {
        '1'
    } else if d == 2 {
        '2'
    } else if d == 3 {
        '3'
    } else if d == 4 {
        '4'
    } else if d == 5 {
        '5'
    } else if d == 6 {
        '6'
    } else if d == 7 {
        '7'
    } else if d == 8 {
        '8'
    } else {
        '9'
    }
}

/// The decimal rendering of a number, most significant digit first, without
/// leading zeros (a single `'0'` for zero).
pub open spec fn digits_of(n: nat) -> Seq<char>
    decreases n,
{
    if n < 10 {
        seq![digit_char(n)]
    } else {
        digits_of(n / 10).push(digit_char(n % 10))
    }
}

/// Whether a character is a decimal digit.
pub open spec fn is_digit(c: char) -> bool {
    ||| c == '0'
    ||| c == '1'
    ||| c == '2'
    ||| c == '3'
    ||| c == '4'
    ||| c == '5'
    ||| c == '6'
    ||| c == '7'
    ||| c == '8'
    ||| c == '9'
}

/// The value of one digit character (0 for any non-digit).
pub open spec fn digit_val(c: char) -> nat {
    if c == '1' {
        1
    } else if c == '2' {
        2
    } else if c == '3' {
        3
    } else if c == '4' {
        4
    } else if c == '5' {
        5
    } else if c == '6' {
        6
    } else if c == '7' {
        7
    } else if c == '8' {
        8
    } else if c == '9' {
        9
    } else {
        0
    }
}

/// Whether every character of the sequence is a decimal digit.
pub open spec fn all_digits(s: Seq<char>) -> bool {
    forall|i: int| 0 <= i < s.len() ==> is_digit(#[trigger] s[i])
}

/// The value of a sequence of digit characters read as a decimal number.
pub open spec fn dec_value(s: Seq<char>) -> nat
    decreases s.len(),
{
    if s.len() == 0 {
        0
    } else {
        dec_value(s.drop_last()) * 10 + digit_val(s.last())
    }
}

/// The length of the prefix of `s` before its first space (the whole of `s`
/// when it holds no space).
pub open spec fn token_len(s: Seq<char>) -> nat
    decreases s.len(),
{
    if s.len() == 0 || s[0] == ' ' {
        0
    } else {
        1 + token_len(s.drop_first())
    }
}

/// The leading token of a label: its prefix before the first space.
pub open spec fn leading_token(s: Seq<char>) -> Seq<char> {
    s.subrange(0, token_len(s) as int)
}

/// The length of the leading token never exceeds the string's length.
pub proof fn lemma_token_len_le(s: Seq<char>)
    ensures
        token_len(s) <= s.len(),
    decreases s.len(),
{
    if !(s.len() == 0 || s[0] == ' ') {
        lemma_token_len_le(s.drop_first());
    }
}

/// The leading token ends exactly at the first space: when the first `i`
/// characters are not spaces and the character at `i` (if any) is a space,
/// the token is `i` characters long.
pub proof fn lemma_token_len_at(s: Seq<char>, i: int)
    requires
        0 <= i <= s.len(),
        forall|j: int| 0 <= j < i ==> s[j] != ' ',
        i < s.len() ==> s[i] == ' ',
    ensures
        token_len(s) == i,
    decreases i,
{
    if i == 0 {
    } else {
        lemma_token_len_at(s.drop_first(), i - 1);
    }
}

/// The decimal rendering of a number is a non-empty all-digit sequence that
/// reads back as that number.
pub proof fn lemma_digits_of_value(n: nat)
    ensures
        digits_of(n).len() >= 1,
        all_digits(digits_of(n)),
        dec_value(digits_of(n)) == n,
    decreases n,
{
    if n < 10 {
        let d = digits_of(n);
        assert(d.drop_last() =~= Seq::<char>::empty());
        assert(dec_value(Seq::<char>::empty()) == 0);
        assert(dec_value(d) == digit_val(digit_char(n)));
    } else {
        lemma_digits_of_value(n / 10);
        let d = digits_of(n);
        let d0 = digits_of(n / 10);
        assert(d == d0.push(digit_char(n % 10)));
        assert(d.drop_last() =~= d0);
        assert(d.last() == digit_char(n % 10));
        assert(digit_val(digit_char(n % 10)) == n % 10);
        assert(dec_value(d) == dec_value(d0) * 10 + n % 10);
        assert(n / 10 * 10 + n % 10 == n) by {
            vstd::arithmetic::div_mod::lemma_fundamental_div_mod(n as int, 10);
        }
        assert forall|i: int| 0 <= i < d.len() implies is_digit(d[i]) by {
            if i < d0.len() {
                assert(d[i] == d0[i]);
            } else {
                assert(d[i] == digit_char(n % 10));
            }
        }
    }
}

/// A label built from digits followed by a space-led rest has the digits as
/// its leading token.
pub proof fn lemma_token_of_digits(d: Seq<char>, rest: Seq<char>)
    requires
        all_digits(d),
        rest.len() > 0,
        rest[0] == ' ',
    ensures
        token_len(d + rest) == d.len(),
        leading_token(d + rest) == d,
{
    let s = d + rest;
    assert forall|j: int| 0 <= j < d.len() implies s[j] != ' ' by {
        assert(s[j] == d[j]);
        assert(is_digit(d[j]));
    }
    assert(s[d.len() as int] == rest[0]);
    lemma_token_len_at(s, d.len() as int);
    assert(s.subrange(0, d.len() as int) =~= d);
}

/// Resolving a rendered label recovers exactly the id it was rendered
/// from: the leading token of `"{id}" + rest` (for any rest opening with a
/// space) is the rendering of `id` and reads back as `id`.
pub proof fn lemma_label_round_trip(id: u16, rest: Seq<char>)
    requires
        rest.len() > 0,
        rest[0] == ' ',
    ensures
        leading_token(digits_of(id as nat) + rest) == digits_of(id as nat),
        all_digits(digits_of(id as nat)),
        dec_value(leading_token(digits_of(id as nat) + rest)) == id as nat,
{
    lemma_digits_of_value(id as nat);
    lemma_token_of_digits(digits_of(id as nat), rest);
}

/// The one-character string of one decimal digit.
fn digit_str(d: u16) -> (r: &'static str)
    requires
        d < 10,
    ensures
        r@ == seq![digit_char(d as nat)],
{
    let r: &'static str = match d {
        0 => "0",
        1 => "1",
        2 => "2",
        3 => "3",
        4 => "4",
        5 => "5",
        6 => "6",
        7 => "7",
        8 => "8",
        _ => "9",
    };
    proof {
        reveal_strlit("0");
        reveal_strlit("1");
        reveal_strlit("2");
        reveal_strlit("3");
        reveal_strlit("4");
        reveal_strlit("5");
        reveal_strlit("6");
        reveal_strlit("7");
        reveal_strlit("8");
        reveal_strlit("9");
        assert(r@ =~= seq![digit_char(d as nat)]);
    }
    r
}

/// Renders an id in decimal, exactly as `digits_of` reads.
pub fn u16_to_string(n: u16) -> (s: String)
    ensures
        s@ == digits_of(n as nat),
    decreases n,
{
    if n < 10 {
        String::from_str(digit_str(n))
    } else {
        let mut s = u16_to_string(n / 10);
        s.append(digit_str(n % 10));
        proof {
            assert(s@ =~= digits_of(n as nat));
        }
        s
    }
}

/// The digit value of one character, `None` for a non-digit.
fn char_digit(c: char) -> (r: Option<u16>)
    ensures
        r matches Some(d) ==> is_digit(c) && digit_val(c) == d as nat && d < 10,
        r is None ==> !is_digit(c),
{
    match c {
        '0' => Some(0),
        '1' => Some(1),
        '2' => Some(2),
        '3' => Some(3),
        '4' => Some(4),
        '5' => Some(5),
        '6' => Some(6),
        '7' => Some(7),
        '8' => Some(8),
        '9' => Some(9),
        _ => None,
    }
}

/// Parses the leading numeric token of a label such as `"12 - title"`: the
/// characters before the first space, which must be all digits and fit a
/// `u16`; anything else resolves to `None`.
pub fn parse_leading_id(label: &str) -> (r: Option<u16>)
    ensures
        ({
            let tok = leading_token(label@);
            match r {
                Some(id) => tok.len() > 0 && all_digits(tok) && dec_value(tok) == id as nat,
                None => tok.len() == 0 || !all_digits(tok) || dec_value(tok) > u16::MAX,
            }
        }),
{
    proof {
        lemma_token_len_le(label@);
    }
    let n = label.unicode_len();
    let mut i: usize = 0;
    let mut val: u64 = 0;
    let mut stopped: bool = false;
    while i < n && !stopped
        invariant
            n == label@.len(),
            0 <= i <= n,
            forall|j: int| 0 <= j < i ==> label@[j] != ' ' && is_digit(#[trigger] label@[j]),
            ({
                let pre = label@.subrange(0, i as int);
                (val <= 65535 && val as nat == dec_value(pre)) || (val == 65536 && dec_value(pre)
                    > 65535)
            }),
            stopped ==> i < n && label@[i as int] == ' ',
        decreases n - i + (if stopped {
            0int
        } else {
            1int
        }),
    {
        let c = label.get_char(i);
        if c == ' ' {
            stopped = true;
        } else {
            let d = match char_digit(c) {
                Some(d) => d,
                None => {
                    proof {
                        lemma_token_len_le(label@);
                        assert(label@[i as int] != ' ');
                        lemma_token_len_at_least(label@, i as int);
                        let tok = leading_token(label@);
                        assert(tok[i as int] == label@[i as int]);
                        assert(!is_digit(tok[i as int]));
                        assert(!all_digits(tok));
                    }
                    return None;
                },
            };
            proof {
                let pre = label@.subrange(0, i as int);
                let pre1 = label@.subrange(0, i as int + 1);
                assert(pre1.drop_last() =~= pre);
                assert(pre1.last() == label@[i as int]);
            }
            val = val * 10 + (d as u64);
            if val > 65535 {
                val = 65536;
            }
            i += 1;
        }
    }
    proof {
        lemma_token_len_at(label@, i as int);
        assert(leading_token(label@) =~= label@.subrange(0, i as int));
    }
    if i == 0 {
        return None;
    }
    if val <= 65535 {
        Some(val as u16)
    } else {
        None
    }
}

/// A sequence whose first `i + 1` characters are not spaces has a leading
/// token longer than `i`.
pub proof fn lemma_token_len_at_least(s: Seq<char>, i: int)
    requires
        0 <= i < s.len(),
        forall|j: int| 0 <= j <= i ==> s[j] != ' ',
    ensures
        token_len(s) > i,
    decreases i,
{
    if i == 0 {
    } else {
        lemma_token_len_at_least(s.drop_first(), i - 1);
    }
}

/// The display label of an entity: its id in decimal, a separator, and its
/// title.
pub open spec fn label_seq(id: nat, title: Seq<char>) -> Seq<char> {
    digits_of(id) + " - "@ + title
}

/// The display label of a comment: id, separator, title, and the creation
/// time in brackets.
pub open spec fn comment_label_seq(id: nat, title: Seq<char>, created_at: Seq<char>) -> Seq<char> {
    digits_of(id) + " - "@ + title + " ["@ + created_at + "]"@
}

/// Renders the `"{id} - {title}"` label of a task.
pub fn task_label(t: &Task) -> (r: String)
    ensures
        r@ == label_seq(t.id as nat, t.title@),
{
    let mut s = u16_to_string(t.id);
    s.append(" - ");
    s.append(t.title.as_str());
    s
}

/// Renders the `"{id} - {title}"` label of a board.
pub fn board_label(b: &Board) -> (r: String)
    ensures
        r@ == label_seq(b.id as nat, b.title@),
{
    let mut s = u16_to_string(b.id);
    s.append(" - ");
    s.append(b.title.as_str());
    s
}

/// Renders the `"{id} - {title} [{created_at}]"` label of a comment.
pub fn comment_label(c: &Comment) -> (r: String)
    ensures
        r@ == comment_label_seq(c.id as nat, c.title@, c.created_at@),
{
    let mut s = u16_to_string(c.id);
    s.append(" - ");
    s.append(c.title.as_str());
    s.append(" [");
    s.append(c.created_at.as_str());
    s.append("]");
    s
}

/// An entity that is listed and chosen by its numeric id.
pub trait SortId {
    /// The id the entity is ordered and resolved by.
    spec fn sort_key(&self) -> u16;

    /// Reads the id out of the entity.
    fn key(&self) -> (r: u16)
        ensures
            r == self.sort_key(),
    ;
}

impl SortId for Task {
    open spec fn sort_key(&self) -> u16 {
        self.id
    }

    fn key(&self) -> (r: u16)
        ensures
            r == self.sort_key(),
    {
        self.id
    }
}

impl SortId for Board {
    open spec fn sort_key(&self) -> u16 {
        self.id
    }

    fn key(&self) -> (r: u16)
        ensures
            r == self.sort_key(),
    {
        self.id
    }
}

impl SortId for Comment {
    open spec fn sort_key(&self) -> u16 {
        self.id
    }

    fn key(&self) -> (r: u16)
        ensures
            r == self.sort_key(),
    {
        self.id
    }
}

/// Orders entities by ascending numeric id (a selection sort): the result
/// holds exactly the given entities and its ids never decrease. Listing
/// choices this way keeps `2` before `10`, where a lexical sort of the
/// rendered labels would not.
pub fn sort_by_id<T: SortId>(v: Vec<T>) -> (r: Vec<T>)
    ensures
        r@.to_multiset() == v@.to_multiset(),
        forall|p: int, q: int|
            0 <= p < q < r@.len() ==> (#[trigger] r@[p]).sort_key() <= (#[trigger] r@[q]).sort_key(),
{
    broadcast use vstd::seq_lib::group_to_multiset_ensures;

    let mut rest = v;
    let mut out: Vec<T> = Vec::new();
    while rest.len() > 0
        invariant
            out@.to_multiset().add(rest@.to_multiset()) == v@.to_multiset(),
            forall|p: int, q: int|
                0 <= p < q < out@.len() ==> (#[trigger] out@[p]).sort_key() <= (
                #[trigger] out@[q]).sort_key(),
            forall|p: int, q: int|
                0 <= p < out@.len() && 0 <= q < rest@.len() ==> (#[trigger] out@[p]).sort_key()
                    <= (#[trigger] rest@[q]).sort_key(),
        decreases rest@.len(),
    {
        let mut m: usize = 0;
        let mut j: usize = 1;
        while j < rest.len()
            invariant
                rest@.len() > 0,
                0 <= m < j <= rest@.len(),
                forall|q: int| 0 <= q < j ==> rest@[m as int].sort_key() <= (
                #[trigger] rest@[q]).sort_key(),
            decreases rest@.len() - j,
        {
            if rest[j].key() < rest[m].key() {
                m = j;
            }
            j += 1;
        }
        let ghost rest0 = rest@;
        let ghost out0 = out@;
        let x = rest.remove(m);
        out.push(x);
        proof {
            broadcast use vstd::multiset::group_multiset_axioms;

            out0.to_multiset_ensures();
            rest0.to_multiset_ensures();
            let e = rest0[m as int];
            assert(rest0.contains(e));
            assert(rest0.to_multiset().count(e) > 0);
            assert(out@ == out0.push(e));
            assert(out0.push(e).to_multiset() =~= out0.to_multiset().insert(e));
            assert(rest@ == rest0.remove(m as int));
            assert(rest0.remove(m as int).to_multiset() =~= rest0.to_multiset().remove(e));
            assert forall|y: T|
                out@.to_multiset().add(rest@.to_multiset()).count(y) == out0.to_multiset().add(
                    rest0.to_multiset(),
                ).count(y) by {
                assert(out@.to_multiset().count(y) == out0.to_multiset().insert(e).count(y));
                assert(rest@.to_multiset().count(y) == rest0.to_multiset().remove(e).count(y));
            }
            assert(out@.to_multiset().add(rest@.to_multiset()) =~= out0.to_multiset().add(
                rest0.to_multiset(),
            ));
        }
    }
    out
}

/// Resolves a chosen label among candidate tasks: the label's leading
/// numeric token names the id, and the first candidate carrying that id is
/// returned as `(title, id)`. `None` when the token does not name an id or
/// no candidate carries it.
#[verifier::loop_isolation(false)]
pub fn select_task(tasks: &Vec<Task>, label: &str) -> (r: Option<(String, u16)>)
    ensures
        ({
            let tok = leading_token(label@);
            match r {
                Some(pair) => {
                    &&& tok.len() > 0 && all_digits(tok) && dec_value(tok) == pair.1 as nat
                    &&& exists|i: int|
                        0 <= i < tasks@.len() && (#[trigger] tasks@[i]).id == pair.1 && pair.0@
                            == tasks@[i].title@ && (forall|j: int|
                            0 <= j < i ==> tasks@[j].id != pair.1)
                },
                None => tok.len() == 0 || !all_digits(tok) || dec_value(tok) > u16::MAX || (forall|
                    i: int,
                |
                    0 <= i < tasks@.len() ==> (#[trigger] tasks@[i]).id as nat != dec_value(tok)),
            }
        }),
{
    let id = match parse_leading_id(label) {
        Some(id) => id,
        None => {
            return None;
        },
    };
    let mut i: usize = 0;
    while i < tasks.len()
        invariant
            0 <= i <= tasks@.len(),
            forall|j: int| 0 <= j < i ==> (#[trigger] tasks@[j]).id != id,
        decreases tasks@.len() - i,
    {
        if tasks[i].id == id {
            proof {
                let gi = i as int;
                assert(0 <= gi < tasks@.len() && (#[trigger] tasks@[gi]).id == id && (forall|
                    j: int,
                | 0 <= j < gi ==> tasks@[j].id != id));
            }
            return Some((tasks[i].title.clone(), id));
        }
        i += 1;
    }
    None
}

/// Resolves a chosen label among candidate boards, as `select_task` does
/// for tasks.
#[verifier::loop_isolation(false)]
pub fn select_board(boards: &Vec<Board>, label: &str) -> (r: Option<(String, u16)>)
    ensures
        ({
            let tok = leading_token(label@);
            match r {
                Some(pair) => {
                    &&& tok.len() > 0 && all_digits(tok) && dec_value(tok) == pair.1 as nat
                    &&& exists|i: int|
                        0 <= i < boards@.len() && (#[trigger] boards@[i]).id == pair.1 && pair.0@
                            == boards@[i].title@ && (forall|j: int|
                            0 <= j < i ==> boards@[j].id != pair.1)
                },
                None => tok.len() == 0 || !all_digits(tok) || dec_value(tok) > u16::MAX || (forall|
                    i: int,
                |
                    0 <= i < boards@.len() ==> (#[trigger] boards@[i]).id as nat != dec_value(tok)),
            }
        }),
{
    let id = match parse_leading_id(label) {
        Some(id) => id,
        None => {
            return None;
        },
    };
    let mut i: usize = 0;
    while i < boards.len()
        invariant
            0 <= i <= boards@.len(),
            forall|j: int| 0 <= j < i ==> (#[trigger] boards@[j]).id != id,
        decreases boards@.len() - i,
    {
        if boards[i].id == id {
            proof {
                let gi = i as int;
                assert(0 <= gi < boards@.len() && (#[trigger] boards@[gi]).id == id && (forall|
                    j: int,
                | 0 <= j < gi ==> boards@[j].id != id));
            }
            return Some((boards[i].title.clone(), id));
        }
        i += 1;
    }
    None
}

/// Resolves a chosen label among candidate comments, as `select_task` does
/// for tasks.
#[verifier::loop_isolation(false)]
pub fn select_comment(comments: &Vec<Comment>, label: &str) -> (r: Option<(String, u16)>)
    ensures
        ({
            let tok = leading_token(label@);
            match r {
                Some(pair) => {
                    &&& tok.len() > 0 && all_digits(tok) && dec_value(tok) == pair.1 as nat
                    &&& exists|i: int|
                        0 <= i < comments@.len() && (#[trigger] comments@[i]).id == pair.1
                            && pair.0@ == comments@[i].title@ && (forall|j: int|
                            0 <= j < i ==> comments@[j].id != pair.1)
                },
                None => tok.len() == 0 || !all_digits(tok) || dec_value(tok) > u16::MAX || (forall|
                    i: int,
                |
                    0 <= i < comments@.len() ==> (#[trigger] comments@[i]).id as nat != dec_value(
                        tok,
                    )),
            }
        }),
{
    let id = match parse_leading_id(label) {
        Some(id) => id,
        None => {
            return None;
        },
    };
    let mut i: usize = 0;
    while i < comments.len()
        invariant
            0 <= i <= comments@.len(),
            forall|j: int| 0 <= j < i ==> (#[trigger] comments@[j]).id != id,
        decreases comments@.len() - i,
    {
        if comments[i].id == id {
            proof {
                let gi = i as int;
                assert(0 <= gi < comments@.len() && (#[trigger] comments@[gi]).id == id && (forall|
                    j: int,
                | 0 <= j < gi ==> comments@[j].id != id));
            }
            return Some((comments[i].title.clone(), id));
        }
        i += 1;
    }
    None
}

/// Whether a task belongs in the delayed-task report: it is still pending
/// and its reminder lies strictly before `now`. Done tasks are never
/// reported; empty or malformed reminders never count as overdue.
pub open spec fn delayed(t: Task, now: int) -> bool {
    !t.done && overdue_spec(t.reminder@, now)
}

/// The delayed tasks among the given ones, in their given order: exactly
/// the pending tasks whose reminder timestamp has passed.
pub fn list_delayed_tasks(tasks: &Vec<Task>, now: i64) -> (r: Vec<Task>)
    ensures
        r@ == tasks@.filter(|t: Task| delayed(t, now as int)),
{
    let ghost sel = |t: Task| delayed(t, now as int);
    let mut out: Vec<Task> = Vec::new();
    let mut i: usize = 0;
    while i < tasks.len()
        invariant
            0 <= i <= tasks@.len(),
            sel == (|t: Task| delayed(t, now as int)),
            out@ == tasks@.subrange(0, i as int).filter(sel),
        decreases tasks@.len() - i,
    {
        let t = &tasks[i];
        let overdue = if t.done {
            false
        } else {
            crate::datetime::datetime_str_is_past(t.reminder.as_str(), now)
        };
        proof {
            let gi = i as int;
            assert(tasks@.subrange(0, gi + 1) =~= tasks@.subrange(0, gi).push(tasks@[gi]));
            lemma_filter_push(tasks@.subrange(0, gi), tasks@[gi], sel);
            assert(overdue == sel(tasks@[gi]));
        }
        if overdue {
            out.push(t.clone());
        }
        i += 1;
    }
    proof {
        assert(tasks@.subrange(0, tasks@.len() as int) =~= tasks@);
    }
    out
}

/// A pending task whose reminder timestamp has passed appears in the
/// delayed report built from any task list holding it; the same task
/// marked done never appears, whatever its reminder says.
pub proof fn lemma_delayed_report_membership(tasks: Seq<Task>, i: int, now: int)
    requires
        0 <= i < tasks.len(),
    ensures
        !tasks[i].done && overdue_spec(tasks[i].reminder@, now) ==> tasks.filter(
            (|t: Task| delayed(t, now)),
        ).contains(tasks[i]),
        tasks[i].done ==> !tasks.filter((|t: Task| delayed(t, now))).contains(tasks[i]),
{
    let sel = |t: Task| delayed(t, now);
    if !tasks[i].done && overdue_spec(tasks[i].reminder@, now) {
        tasks.lemma_filter_contains(sel, i);
    }
    if tasks[i].done && tasks.filter(sel).contains(tasks[i]) {
        let p = choose|p: int| 0 <= p < tasks.filter(sel).len() && tasks.filter(sel)[p] == tasks[i];
        tasks.lemma_filter_pred(sel, p);
        assert(false);
    }
}

} // verus!
