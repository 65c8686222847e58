//! The canonical JSON form of the persisted ledger: a serializer, a strict
//! parser, and the proof that parsing undoes serializing.
//!
//! The file holds one JSON array of objects, each with the fields
//! `id`, `item`, `money`, `description`, `created_at`, `update_at`, in that
//! order, with no whitespace between tokens. Strings escape the quote, the
//! backslash, newline, carriage return and tab; numbers are unsigned decimal.

use vstd::prelude::*;

use crate::item::{Item, ItemModel};

verus! {

// ---------------------------------------------------------------------------
// Digits
// ---------------------------------------------------------------------------

pub open spec fn is_digit(c: char) -> bool {
    c == '0' || c == '1' || c == '2' || c == '3' || c == '4' || c == '5' || c == '6' || c == '7'
        || c == '8' || c == '9'
}

pub open spec fn digit_val(c: char) -> int {
    if c == '0' {
        0
    } else if c == '1' {
        1
    } else if c == '2' {
        2
    } else if c == '3' {
        3
    } else if c == '4' {
        4
    } else if c == '5' {
        5
    } else if c == '6' {
        6
    } else if c == '7' {
        7
    } else if c == '8' {
        8
    } else {
        9
    }
}

pub open spec fn digit_char(d: int) -> char {
    if d == 0 {
        '0'
    } else if d == 1 {
        '1'
    } else if d == 2 {
        '2'
    } else if d == 3 {
        '3'
    } else if d == 4 {
        '4'
    } else if d == 5 {
        '5'
    } else if d == 6 {
        '6'
    } else if d == 7 {
        '7'
    } else if d == 8 {
        '8'
    } else {
        '9'
    }
}

/// The decimal digits of `n`, most significant first.
pub open spec fn ser_nat(n: int) -> Seq<char>
    decreases n,
{
    if n < 10 {
        seq![digit_char(n)]
    } else {
        ser_nat(n / 10).push(digit_char(n % 10))
    }
}

// ---------------------------------------------------------------------------
// String escaping
// ---------------------------------------------------------------------------

/// How one character appears inside a JSON string.
pub open spec fn esc_char(c: char) -> Seq<char> {
    if c == '"' {
        seq!['\\', '"']
    } else if c == '\\' {
        seq!['\\', '\\']
    } else if c == '\n' {
        seq!['\\', 'n']
    } else if c == '\r' {
        seq!['\\', 'r']
    } else if c == '\t' {
        seq!['\\', 't']
    } else {
        seq![c]
    }
}

/// The body of a JSON string: every character escaped, no surrounding quotes.
pub open spec fn esc(s: Seq<char>) -> Seq<char>
    decreases s.len(),
{
    if s.len() == 0 {
        Seq::empty()
    } else {
        esc_char(s[0]) + esc(s.drop_first())
    }
}

// ---------------------------------------------------------------------------
// Record and document serialization
// ---------------------------------------------------------------------------

/// One record as a JSON object, fields in canonical order.
pub open spec fn ser_item(v: ItemModel) -> Seq<char> {
    "{\"id\":"@ + ser_nat(v.id) + ",\"item\":\""@ + esc(v.item) + "\""@ + ",\"money\":"@
        + ser_nat(v.money) + ",\"description\":\""@ + esc(v.description) + "\""@
        + ",\"created_at\":"@ + ser_nat(v.created_at) + ",\"update_at\":"@ + ser_nat(v.update_at)
        + "}"@
}

/// The rest of the array after the record at position `k - 1`: either the
/// closing bracket, or a comma, the record at `k`, and the rest again.
pub open spec fn ser_tail(s: Seq<ItemModel>, k: int) -> Seq<char>
    decreases s.len() - k,
{
    if k < 0 || k >= s.len() {
        seq![']']
    } else {
        seq![','] + (ser_item(s[k]) + ser_tail(s, k + 1))
    }
}

/// The whole document: a JSON array of the records.
pub open spec fn ser_items(s: Seq<ItemModel>) -> Seq<char> {
    if s.len() == 0 {
        "[]"@
    } else {
        seq!['['] + (ser_item(s[0]) + ser_tail(s, 1))
    }
}

// ---------------------------------------------------------------------------
// The strict parser, at the specification level
// ---------------------------------------------------------------------------

/// Consume decimal digits from position `i`, extending the value `acc`;
/// stop at the first non-digit. `None` when the value would pass `max`.
pub open spec fn parse_num_rec(s: Seq<char>, i: int, acc: int, max: int) -> Option<(int, int)>
    decreases s.len() - i,
{
    if 0 <= i < s.len() && is_digit(s[i]) {
        if acc * 10 + digit_val(s[i]) > max {
            None
        } else {
            parse_num_rec(s, i + 1, acc * 10 + digit_val(s[i]), max)
        }
    } else {
        Some((acc, i))
    }
}

/// A number: at least one digit, value at most `max`.
pub open spec fn parse_num(s: Seq<char>, i: int, max: int) -> Option<(int, int)> {
    if 0 <= i < s.len() && is_digit(s[i]) {
        parse_num_rec(s, i, 0, max)
    } else {
        None
    }
}

/// The character named by a backslash escape, if the escape is recognized.
pub open spec fn unesc_char(c: char) -> Option<char> {
    if c == '"' {
        Some('"')
    } else if c == '\\' {
        Some('\\')
    } else if c == 'n' {
        Some('\n')
    } else if c == 'r' {
        Some('\r')
    } else if c == 't' {
        Some('\t')
    } else {
        None
    }
}

/// The body of a JSON string from position `i` up to and past the closing
/// quote, accumulated into `acc`.
pub open spec fn parse_str_rec(s: Seq<char>, i: int, acc: Seq<char>) -> Option<(Seq<char>, int)>
    decreases s.len() - i,
{
    if i < 0 || i >= s.len() {
        None
    } else if s[i] == '"' {
        Some((acc, i + 1))
    } else if s[i] == '\\' {
        if i + 1 < s.len() {
            match unesc_char(s[i + 1]) {
                Some(c) => parse_str_rec(s, i + 2, acc.push(c)),
                None => None,
            }
        } else {
            None
        }
    } else {
        parse_str_rec(s, i + 1, acc.push(s[i]))
    }
}

/// The exact characters of `lit` at position `i`.
pub open spec fn parse_lit(s: Seq<char>, i: int, lit: Seq<char>) -> Option<int>
    decreases lit.len(),
{
    if lit.len() == 0 {
        Some(i)
    } else if 0 <= i < s.len() && s[i] == lit[0] {
        parse_lit(s, i + 1, lit.drop_first())
    } else {
        None
    }
}

/// One record object, fields in canonical order.
pub open spec fn parse_item(s: Seq<char>, i: int) -> Option<(ItemModel, int)> {
    match parse_lit(s, i, "{\"id\":"@) {
        None => None,
        Some(j1) => match parse_num(s, j1, usize::MAX as int) {
            None => None,
            Some((id, j2)) => match parse_lit(s, j2, ",\"item\":\""@) {
                None => None,
                Some(j3) => match parse_str_rec(s, j3, Seq::empty()) {
                    None => None,
                    Some((label, j4)) => match parse_lit(s, j4, ",\"money\":"@) {
                        None => None,
                        Some(j5) => match parse_num(s, j5, usize::MAX as int) {
                            None => None,
                            Some((money, j6)) => match parse_lit(s, j6, ",\"description\":\""@) {
                                None => None,
                                Some(j7) => match parse_str_rec(s, j7, Seq::empty()) {
                                    None => None,
                                    Some((desc, j8)) => match parse_lit(
                                        s,
                                        j8,
                                        ",\"created_at\":"@,
                                    ) {
                                        None => None,
                                        Some(j9) => match parse_num(s, j9, u64::MAX as int) {
                                            None => None,
                                            Some((created, j10)) => match parse_lit(
                                                s,
                                                j10,
                                                ",\"update_at\":"@,
                                            ) {
                                                None => None,
                                                Some(j11) => match parse_num(
                                                    s,
                                                    j11,
                                                    u64::MAX as int,
                                                ) {
                                                    None => None,
                                                    Some((updated, j12)) => match parse_lit(
                                                        s,
                                                        j12,
                                                        "}"@,
                                                    ) {
                                                        None => None,
                                                        Some(j13) => Some(
                                                            (
                                                                ItemModel {
                                                                    id: id,
                                                                    item: label,
                                                                    money: money,
                                                                    description: desc,
                                                                    created_at: created,
                                                                    update_at: updated,
                                                                },
                                                                j13,
                                                            ),
                                                        ),
                                                    },
                                                },
                                            },
                                        },
                                    },
                                },
                            },
                        },
                    },
                },
            },
        },
    }
}

/// One or more records separated by commas, then the closing bracket.
pub open spec fn parse_items_rec(s: Seq<char>, i: int, acc: Seq<ItemModel>) -> Option<
    (Seq<ItemModel>, int),
>
    decreases s.len() - i,
{
    match parse_item(s, i) {
        None => None,
        Some((v, j)) => if !(i < j && j < s.len()) {
            None
        } else if s[j] == ',' {
            parse_items_rec(s, j + 1, acc.push(v))
        } else if s[j] == ']' {
            Some((acc.push(v), j + 1))
        } else {
            None
        },
    }
}

/// A whole document: the array, with nothing before or after it.
pub open spec fn parse_doc(s: Seq<char>) -> Option<Seq<ItemModel>> {
    if 0 < s.len() && s[0] == '[' {
        if 1 < s.len() && s[1] == ']' {
            if s.len() == 2 {
                Some(Seq::empty())
            } else {
                None
            }
        } else {
            match parse_items_rec(s, 1, Seq::empty()) {
                None => None,
                Some((vs, j)) => if j == s.len() {
                    Some(vs)
                } else {
                    None
                },
            }
        }
    } else {
        None
    }
}

/// What loading file content yields: an empty file is an empty ledger,
/// anything else must be a canonical document.
pub open spec fn spec_load(s: Seq<char>) -> Option<Seq<ItemModel>> {
    if s.len() == 0 {
        Some(Seq::empty())
    } else {
        parse_doc(s)
    }
}

/// A record whose numbers fit the machine types they are stored in.
pub open spec fn wf_item(v: ItemModel) -> bool {
    &&& 0 <= v.id <= usize::MAX
    &&& 0 <= v.money <= usize::MAX
    &&& 0 <= v.created_at <= u64::MAX
    &&& 0 <= v.update_at <= u64::MAX
}

pub open spec fn wf_items(s: Seq<ItemModel>) -> bool {
    forall|j: int| 0 <= j < s.len() ==> wf_item(#[trigger] s[j])
}

// ---------------------------------------------------------------------------
// Round trip: parsing undoes serializing
// ---------------------------------------------------------------------------

/// A window of `s` that holds `a + b` splits into one that holds `a` and one
/// that holds `b`.
proof fn lemma_peel(s: Seq<char>, i: int, a: Seq<char>, b: Seq<char>)
    requires
        0 <= i,
        i + a.len() + b.len() <= s.len(),
        s.subrange(i, i + a.len() + b.len()) == a + b,
    ensures
        s.subrange(i, i + a.len()) == a,
        s.subrange(i + a.len(), i + a.len() + b.len()) == b,
{
    assert forall|k: int| 0 <= k < a.len() implies s.subrange(i, i + a.len())[k] == a[k] by {
        assert(s.subrange(i, i + a.len() + b.len())[k] == (a + b)[k]);
    }
    assert(s.subrange(i, i + a.len()) =~= a);
    assert forall|k: int|
        0 <= k < b.len() implies s.subrange(i + a.len(), i + a.len() + b.len())[k] == b[k] by {
        assert(s.subrange(i, i + a.len() + b.len())[a.len() + k] == (a + b)[a.len() + k]);
        assert((a + b)[a.len() + k] == b[k]);
        assert(s.subrange(i, i + a.len() + b.len())[a.len() + k] == s[i + a.len() + k]);
        assert(s.subrange(i + a.len(), i + a.len() + b.len())[k] == s[i + a.len() + k]);
    }
    assert(s.subrange(i + a.len(), i + a.len() + b.len()) =~= b);
}

proof fn lemma_parse_lit_exact(s: Seq<char>, i: int, lit: Seq<char>)
    requires
        0 <= i,
        i + lit.len() <= s.len(),
        s.subrange(i, i + lit.len()) == lit,
    ensures
        parse_lit(s, i, lit) == Some(i + lit.len()),
    decreases lit.len(),
{
    if lit.len() == 0 {
    } else {
        assert(s[i] == lit[0]);
        assert(s.subrange(i + 1, i + lit.len()) =~= lit.drop_first());
        lemma_parse_lit_exact(s, i + 1, lit.drop_first());
    }
}

pub open spec fn all_digits(ds: Seq<char>) -> bool {
    forall|k: int| 0 <= k < ds.len() ==> is_digit(#[trigger] ds[k])
}

/// The value of a digit run, read left to right on top of `acc`.
pub open spec fn fold_digits(acc: int, ds: Seq<char>) -> int
    decreases ds.len(),
{
    if ds.len() == 0 {
        acc
    } else {
        fold_digits(acc * 10 + digit_val(ds[0]), ds.drop_first())
    }
}

proof fn lemma_fold_push(acc: int, ds: Seq<char>, c: char)
    ensures
        fold_digits(acc, ds.push(c)) == fold_digits(acc, ds) * 10 + digit_val(c),
    decreases ds.len(),
{
    if ds.len() == 0 {
        assert(ds.push(c).drop_first() =~= Seq::<char>::empty());
        assert(ds.push(c)[0] == c);
        assert(fold_digits(acc, ds.push(c)) == fold_digits(
            acc * 10 + digit_val(c),
            Seq::<char>::empty(),
        ));
    } else {
        let acc2 = acc * 10 + digit_val(ds[0]);
        assert(ds.push(c).drop_first() =~= ds.drop_first().push(c));
        assert(ds.push(c)[0] == ds[0]);
        assert(fold_digits(acc, ds.push(c)) == fold_digits(acc2, ds.drop_first().push(c)));
        assert(fold_digits(acc, ds) == fold_digits(acc2, ds.drop_first()));
        lemma_fold_push(acc2, ds.drop_first(), c);
    }
}

proof fn lemma_ser_nat_digits(n: int)
    requires
        0 <= n,
    ensures
        ser_nat(n).len() >= 1,
        all_digits(ser_nat(n)),
    decreases n,
{
    if n < 10 {
    } else {
        lemma_ser_nat_digits(n / 10);
        assert forall|k: int| 0 <= k < ser_nat(n).len() implies is_digit(#[trigger] ser_nat(n)[k]) by {
            if k < ser_nat(n / 10).len() {
                assert(ser_nat(n)[k] == ser_nat(n / 10)[k]);
            } else {
                assert(ser_nat(n)[k] == digit_char(n % 10));
            }
        }
    }
}

proof fn lemma_fold_ser_val(n: int)
    requires
        0 <= n,
    ensures
        fold_digits(0, ser_nat(n)) == n,
    decreases n,
{
    if n < 10 {
        assert(ser_nat(n) == seq![digit_char(n)]);
        assert(ser_nat(n).drop_first() =~= Seq::<char>::empty());
        assert(ser_nat(n)[0] == digit_char(n));
        assert(digit_val(digit_char(n)) == n);
        assert(fold_digits(0, ser_nat(n)) == fold_digits(
            0 * 10 + digit_val(digit_char(n)),
            ser_nat(n).drop_first(),
        ));
    } else {
        lemma_fold_ser_val(n / 10);
        lemma_fold_push(0, ser_nat(n / 10), digit_char(n % 10));
        assert(digit_val(digit_char(n % 10)) == n % 10);
        assert((n / 10) * 10 + n % 10 == n);
    }
}

proof fn lemma_fold_ge(acc: int, ds: Seq<char>)
    requires
        0 <= acc,
        all_digits(ds),
    ensures
        fold_digits(acc, ds) >= acc,
    decreases ds.len(),
{
    if ds.len() == 0 {
    } else {
        assert(is_digit(ds[0]));
        assert(digit_val(ds[0]) >= 0);
        assert(all_digits(ds.drop_first())) by {
            assert forall|k: int| 0 <= k < ds.drop_first().len() implies is_digit(
                #[trigger] ds.drop_first()[k],
            ) by {
                assert(ds.drop_first()[k] == ds[k + 1]);
            }
        }
        lemma_fold_ge(acc * 10 + digit_val(ds[0]), ds.drop_first());
    }
}

proof fn lemma_parse_num_rec_digits(s: Seq<char>, i: int, ds: Seq<char>, acc: int, max: int)
    requires
        0 <= i,
        0 <= acc,
        i + ds.len() <= s.len(),
        s.subrange(i, i + ds.len()) == ds,
        all_digits(ds),
        i + ds.len() == s.len() || !is_digit(s[i + ds.len()]),
        fold_digits(acc, ds) <= max,
    ensures
        parse_num_rec(s, i, acc, max) == Some((fold_digits(acc, ds), i + ds.len())),
    decreases ds.len(),
{
    if ds.len() == 0 {
    } else {
        assert(s[i] == ds[0]);
        let acc2 = acc * 10 + digit_val(ds[0]);
        assert(all_digits(ds.drop_first())) by {
            assert forall|k: int| 0 <= k < ds.drop_first().len() implies is_digit(
                #[trigger] ds.drop_first()[k],
            ) by {
                assert(ds.drop_first()[k] == ds[k + 1]);
            }
        }
        lemma_fold_ge(acc2, ds.drop_first());
        assert(s.subrange(i + 1, i + ds.len()) =~= ds.drop_first());
        lemma_parse_num_rec_digits(s, i + 1, ds.drop_first(), acc2, max);
    }
}

proof fn lemma_parse_num_ser(s: Seq<char>, i: int, n: int, max: int)
    requires
        0 <= i,
        0 <= n <= max,
        i + ser_nat(n).len() <= s.len(),
        s.subrange(i, i + ser_nat(n).len()) == ser_nat(n),
        i + ser_nat(n).len() == s.len() || !is_digit(s[i + ser_nat(n).len()]),
    ensures
        parse_num(s, i, max) == Some((n, i + ser_nat(n).len())),
{
    lemma_ser_nat_digits(n);
    assert(s[i] == ser_nat(n)[0]);
    lemma_fold_ser_val(n);
    lemma_parse_num_rec_digits(s, i, ser_nat(n), 0, max);
}

proof fn lemma_parse_str_esc(s: Seq<char>, i: int, t: Seq<char>, acc: Seq<char>)
    requires
        0 <= i,
        i + esc(t).len() + 1 <= s.len(),
        s.subrange(i, i + esc(t).len()) == esc(t),
        s[i + esc(t).len()] == '"',
    ensures
        parse_str_rec(s, i, acc) == Some((acc + t, i + esc(t).len() + 1)),
    decreases t.len(),
{
    if t.len() == 0 {
        assert(acc + t =~= acc);
    } else {
        let c = t[0];
        let e1 = esc_char(c);
        let t2 = t.drop_first();
        assert(esc(t) == e1 + esc(t2));
        lemma_peel(s, i, e1, esc(t2));
        if c == '"' || c == '\\' || c == '\n' || c == '\r' || c == '\t' {
            assert(e1.len() == 2);
            assert(s[i] == e1[0] && e1[0] == '\\');
            assert(s[i + 1] == e1[1]);
            assert(unesc_char(e1[1]) == Some(c));
            assert(s.subrange(i + 2, i + 2 + esc(t2).len()) =~= esc(t2));
            lemma_parse_str_esc(s, i + 2, t2, acc.push(c));
            assert(acc.push(c) + t2 =~= acc + t);
        } else {
            assert(e1.len() == 1);
            assert(s.subrange(i, i + e1.len())[0] == e1[0]);
            assert(s[i] == c);
            assert(s.subrange(i + 1, i + 1 + esc(t2).len()) =~= esc(t2));
            lemma_parse_str_esc(s, i + 1, t2, acc.push(c));
            assert(acc.push(c) + t2 =~= acc + t);
        }
    }
}

proof fn lemma_ser_item_shape(v: ItemModel)
    ensures
        ser_item(v).len() >= 1,
        ser_item(v)[0] == '{',
{
    reveal_strlit("{\"id\":");
    assert(ser_item(v)[0] == ("{\"id\":"@)[0]);
}

proof fn lemma_parse_item_ser(s: Seq<char>, i: int, v: ItemModel)
    requires
        wf_item(v),
        0 <= i,
        i + ser_item(v).len() <= s.len(),
        s.subrange(i, i + ser_item(v).len()) == ser_item(v),
    ensures
        parse_item(s, i) == Some((v, i + ser_item(v).len())),
{
    reveal_strlit("{\"id\":");
    reveal_strlit(",\"item\":\"");
    reveal_strlit("\"");
    reveal_strlit(",\"money\":");
    reveal_strlit(",\"description\":\"");
    reveal_strlit(",\"created_at\":");
    reveal_strlit(",\"update_at\":");
    reveal_strlit("}");
    let p1 = "{\"id\":"@;
    let n1 = ser_nat(v.id);
    let p2 = ",\"item\":\""@;
    let e1 = esc(v.item);
    let q = "\""@;
    let p3 = ",\"money\":"@;
    let n2 = ser_nat(v.money);
    let p4 = ",\"description\":\""@;
    let e2 = esc(v.description);
    let p5 = ",\"created_at\":"@;
    let n3 = ser_nat(v.created_at);
    let p6 = ",\"update_at\":"@;
    let n4 = ser_nat(v.update_at);
    let p7 = "}"@;

    let l2 = p1 + n1;
    let l3 = l2 + p2;
    let l4 = l3 + e1;
    let l5 = l4 + q;
    let l6 = l5 + p3;
    let l7 = l6 + n2;
    let l8 = l7 + p4;
    let l9 = l8 + e2;
    let l10 = l9 + q;
    let l11 = l10 + p5;
    let l12 = l11 + n3;
    let l13 = l12 + p6;
    let l14 = l13 + n4;
    assert(ser_item(v) == l14 + p7);

    lemma_peel(s, i, l14, p7);
    lemma_peel(s, i, l13, n4);
    lemma_peel(s, i, l12, p6);
    lemma_peel(s, i, l11, n3);
    lemma_peel(s, i, l10, p5);
    lemma_peel(s, i, l9, q);
    lemma_peel(s, i, l8, e2);
    lemma_peel(s, i, l7, p4);
    lemma_peel(s, i, l6, n2);
    lemma_peel(s, i, l5, p3);
    lemma_peel(s, i, l4, q);
    lemma_peel(s, i, l3, e1);
    lemma_peel(s, i, l2, p2);
    lemma_peel(s, i, p1, n1);

    let j1 = i + p1.len();
    let j2 = i + l2.len();
    let j3 = i + l3.len();
    let j4 = i + l4.len();
    let j5 = i + l5.len();
    let j6 = i + l6.len();
    let j7 = i + l7.len();
    let j8 = i + l8.len();
    let j9 = i + l9.len();
    let j10 = i + l10.len();
    let j11 = i + l11.len();
    let j12 = i + l12.len();
    let j13 = i + l13.len();
    let j14 = i + l14.len();
    let j15 = i + ser_item(v).len();

    lemma_parse_lit_exact(s, i, p1);
    assert(s[j2] == ',') by {
        assert(s.subrange(j2, j2 + p2.len())[0] == s[j2]);
    }
    lemma_parse_num_ser(s, j1, v.id, usize::MAX as int);
    lemma_parse_lit_exact(s, j2, p2);
    assert(s[j4] == '"') by {
        assert(s.subrange(j4, j4 + q.len())[0] == s[j4]);
    }
    lemma_parse_str_esc(s, j3, v.item, Seq::empty());
    assert(Seq::empty() + v.item =~= v.item);
    lemma_parse_lit_exact(s, j5, p3);
    assert(s[j7] == ',') by {
        assert(s.subrange(j7, j7 + p4.len())[0] == s[j7]);
    }
    lemma_parse_num_ser(s, j6, v.money, usize::MAX as int);
    lemma_parse_lit_exact(s, j7, p4);
    assert(s[j9] == '"') by {
        assert(s.subrange(j9, j9 + q.len())[0] == s[j9]);
    }
    lemma_parse_str_esc(s, j8, v.description, Seq::empty());
    assert(Seq::empty() + v.description =~= v.description);
    lemma_parse_lit_exact(s, j10, p5);
    assert(s[j12] == ',') by {
        assert(s.subrange(j12, j12 + p6.len())[0] == s[j12]);
    }
    lemma_parse_num_ser(s, j11, v.created_at, u64::MAX as int);
    lemma_parse_lit_exact(s, j12, p6);
    assert(s[j14] == '}') by {
        assert(s.subrange(j14, j14 + p7.len())[0] == s[j14]);
    }
    lemma_parse_num_ser(s, j13, v.update_at, u64::MAX as int);
    lemma_parse_lit_exact(s, j14, p7);

    assert(parse_item(s, i) == Some(
        (
            ItemModel {
                id: v.id,
                item: v.item,
                money: v.money,
                description: v.description,
                created_at: v.created_at,
                update_at: v.update_at,
            },
            j15,
        ),
    ));
    assert(ItemModel {
        id: v.id,
        item: v.item,
        money: v.money,
        description: v.description,
        created_at: v.created_at,
        update_at: v.update_at,
    } =~= v);
}

proof fn lemma_parse_items_tail(s: Seq<char>, i: int, vs: Seq<ItemModel>, k: int, acc: Seq<
    ItemModel,
>)
    requires
        wf_items(vs),
        0 <= k < vs.len(),
        0 <= i,
        i + ser_item(vs[k]).len() + ser_tail(vs, k + 1).len() == s.len(),
        s.subrange(i, s.len() as int) == ser_item(vs[k]) + ser_tail(vs, k + 1),
    ensures
        parse_items_rec(s, i, acc) == Some((acc + vs.skip(k), s.len() as int)),
    decreases vs.len() - k,
{
    lemma_peel(s, i, ser_item(vs[k]), ser_tail(vs, k + 1));
    assert(wf_item(vs[k]));
    lemma_parse_item_ser(s, i, vs[k]);
    lemma_ser_item_shape(vs[k]);
    let j = i + ser_item(vs[k]).len();
    if k + 1 >= vs.len() {
        assert(ser_tail(vs, k + 1) == seq![']']);
        assert(s[j] == ']') by {
            assert(s.subrange(j, j + 1)[0] == s[j]);
        }
        assert(acc.push(vs[k]) =~= acc + vs.skip(k));
    } else {
        let rest = ser_item(vs[k + 1]) + ser_tail(vs, k + 2);
        assert(ser_tail(vs, k + 1) == seq![','] + rest);
        lemma_peel(s, j, seq![','], rest);
        assert(s[j] == ',') by {
            assert(s.subrange(j, j + 1)[0] == s[j]);
        }
        assert(s.subrange(j + 1, s.len() as int) == rest);
        lemma_parse_items_tail(s, j + 1, vs, k + 1, acc.push(vs[k]));
        assert(acc.push(vs[k]) + vs.skip(k + 1) =~= acc + vs.skip(k));
    }
}

/// Parsing undoes serializing: the canonical document of any well-formed
/// record sequence loads back as exactly that sequence.
pub proof fn lemma_round_trip(vs: Seq<ItemModel>)
    requires
        wf_items(vs),
    ensures
        spec_load(ser_items(vs)) == Some(vs),
{
    let s = ser_items(vs);
    if vs.len() == 0 {
        reveal_strlit("[]");
        assert(s.len() == 2 && s[0] == '[' && s[1] == ']');
        assert(Seq::<ItemModel>::empty() =~= vs);
    } else {
        let body = ser_item(vs[0]) + ser_tail(vs, 1);
        assert(s == seq!['['] + body);
        assert(s[0] == '[');
        lemma_ser_item_shape(vs[0]);
        assert(s[1] == ser_item(vs[0])[0]);
        assert(s[1] == '{');
        assert(s.subrange(1, s.len() as int) =~= body);
        lemma_parse_items_tail(s, 1, vs, 0, Seq::empty());
        assert(Seq::<ItemModel>::empty() + vs.skip(0) =~= vs);
    }
}

// ---------------------------------------------------------------------------
// Executable serializer
// ---------------------------------------------------------------------------

/// The characters of a `&str`, as a vector.
pub fn str_to_chars(s: &str) -> (v: Vec<char>)
    ensures
        v@ == s@,
{
    let n = s.unicode_len();
    let mut v: Vec<char> = Vec::new();
    let mut i: usize = 0;
    while i < n
        invariant
            n == s@.len(),
            i <= n,
            v@ == s@.take(i as int),
        decreases n - i,
    {
        v.push(s.get_char(i));
        i = i + 1;
        assert(v@ =~= s@.take(i as int));
    }
    assert(v@ =~= s@);
    v
}

/// Relies on `String: FromIterator<char>`: collecting characters yields the
/// string of exactly those characters in order.
#[verifier::external_body]
pub fn chars_to_string(v: &Vec<char>) -> (s: String)
    ensures
        s@ == v@,
{
    v.iter().collect()
}

/// Append the characters of `lit` to `out`.
pub(crate) fn push_str_chars(out: &mut Vec<char>, lit: &str)
    ensures
        final(out)@ == old(out)@ + lit@,
{
    let n = lit.unicode_len();
    let mut i: usize = 0;
    while i < n
        invariant
            n == lit@.len(),
            i <= n,
            out@ == old(out)@ + lit@.take(i as int),
        decreases n - i,
    {
        out.push(lit.get_char(i));
        i = i + 1;
        assert(out@ =~= old(out)@ + lit@.take(i as int));
    }
    assert(out@ =~= old(out)@ + lit@);
}

fn digit_char_exec(d: u64) -> (c: char)
    requires
        d < 10,
    ensures
        c == digit_char(d as int),
{
    if d == 0 {
        '0'
    } else if d == 1 {
        '1'
    } else if d == 2 {
        '2'
    } else if d == 3 {
        '3'
    } else if d == 4 {
        '4'
    } else if d == 5 {
        '5'
    } else if d == 6 {
        '6'
    } else if d == 7 {
        '7'
    } else if d == 8 {
        '8'
    } else {
        '9'
    }
}

/// Append the decimal digits of `n` to `out`.
pub(crate) fn push_nat(out: &mut Vec<char>, n: u64)
    ensures
        final(out)@ == old(out)@ + ser_nat(n as int),
    decreases n,
{
    if n < 10 {
        out.push(digit_char_exec(n));
        assert(out@ =~= old(out)@ + ser_nat(n as int));
    } else {
        push_nat(out, n / 10);
        out.push(digit_char_exec(n % 10));
        assert(out@ =~= old(out)@ + ser_nat(n as int));
    }
}

proof fn lemma_esc_push(t: Seq<char>, c: char)
    ensures
        esc(t.push(c)) == esc(t) + esc_char(c),
    decreases t.len(),
{
    if t.len() == 0 {
        assert(t.push(c).drop_first() =~= Seq::<char>::empty());
        assert(t.push(c)[0] == c);
        assert(esc(t.push(c)) == esc_char(c) + esc(Seq::<char>::empty()));
        assert(esc(Seq::<char>::empty()) == Seq::<char>::empty());
        assert(esc(t) == Seq::<char>::empty());
        assert(esc_char(c) + Seq::<char>::empty() =~= Seq::<char>::empty() + esc_char(c));
    } else {
        assert(t.push(c).drop_first() =~= t.drop_first().push(c));
        assert(t.push(c)[0] == t[0]);
        lemma_esc_push(t.drop_first(), c);
        assert(esc(t.push(c)) == esc_char(t[0]) + esc(t.drop_first().push(c)));
        assert(esc(t.push(c)) == esc_char(t[0]) + (esc(t.drop_first()) + esc_char(c)));
        assert(esc(t) == esc_char(t[0]) + esc(t.drop_first()));
        assert(esc_char(t[0]) + (esc(t.drop_first()) + esc_char(c)) =~= (esc_char(t[0]) + esc(
            t.drop_first(),
        )) + esc_char(c));
    }
}

/// Append the escaped body of `s` to `out`.
fn push_esc(out: &mut Vec<char>, s: &str)
    ensures
        final(out)@ == old(out)@ + esc(s@),
{
    let n = s.unicode_len();
    let mut i: usize = 0;
    while i < n
        invariant
            n == s@.len(),
            i <= n,
            out@ == old(out)@ + esc(s@.take(i as int)),
        decreases n - i,
    {
        let c = s.get_char(i);
        if c == '"' {
            out.push('\\');
            out.push('"');
        } else if c == '\\' {
            out.push('\\');
            out.push('\\');
        } else if c == '\n' {
            out.push('\\');
            out.push('n');
        } else if c == '\r' {
            out.push('\\');
            out.push('r');
        } else if c == '\t' {
            out.push('\\');
            out.push('t');
        } else {
            out.push(c);
        }
        proof {
            lemma_esc_push(s@.take(i as int), c);
            assert(s@.take(i + 1) =~= s@.take(i as int).push(c));
        }
        i = i + 1;
        assert(out@ =~= old(out)@ + esc(s@.take(i as int)));
    }
    assert(s@.take(n as int) =~= s@);
}

/// Append the canonical object form of `it` to `out`.
#[verifier::rlimit(100)]
fn push_item(out: &mut Vec<char>, it: &Item)
    ensures
        final(out)@ == old(out)@ + ser_item(it@),
{
    let ghost o = old(out)@;
    push_str_chars(out, "{\"id\":");
    push_nat(out, it.id as u64);
    assert(out@ =~= o + ("{\"id\":"@ + ser_nat(it@.id)));
    push_str_chars(out, ",\"item\":\"");
    assert(out@ =~= o + ("{\"id\":"@ + ser_nat(it@.id) + ",\"item\":\""@));
    push_esc(out, it.item.as_str());
    assert(out@ =~= o + ("{\"id\":"@ + ser_nat(it@.id) + ",\"item\":\""@ + esc(it@.item)));
    push_str_chars(out, "\"");
    assert(out@ =~= o + ("{\"id\":"@ + ser_nat(it@.id) + ",\"item\":\""@ + esc(it@.item)
        + "\""@));
    push_str_chars(out, ",\"money\":");
    assert(out@ =~= o + ("{\"id\":"@ + ser_nat(it@.id) + ",\"item\":\""@ + esc(it@.item)
        + "\""@ + ",\"money\":"@));
    push_nat(out, it.money as u64);
    assert(out@ =~= o + ("{\"id\":"@ + ser_nat(it@.id) + ",\"item\":\""@ + esc(it@.item)
        + "\""@ + ",\"money\":"@ + ser_nat(it@.money)));
    push_str_chars(out, ",\"description\":\"");
    assert(out@ =~= o + ("{\"id\":"@ + ser_nat(it@.id) + ",\"item\":\""@ + esc(it@.item)
        + "\""@ + ",\"money\":"@ + ser_nat(it@.money) + ",\"description\":\""@));
    push_esc(out, it.description.as_str());
    assert(out@ =~= o + ("{\"id\":"@ + ser_nat(it@.id) + ",\"item\":\""@ + esc(it@.item)
        + "\""@ + ",\"money\":"@ + ser_nat(it@.money) + ",\"description\":\""@ + esc(
        it@.description,
    )));
    push_str_chars(out, "\"");
    assert(out@ =~= o + ("{\"id\":"@ + ser_nat(it@.id) + ",\"item\":\""@ + esc(it@.item)
        + "\""@ + ",\"money\":"@ + ser_nat(it@.money) + ",\"description\":\""@ + esc(
        it@.description,
    ) + "\""@));
    push_str_chars(out, ",\"created_at\":");
    assert(out@ =~= o + ("{\"id\":"@ + ser_nat(it@.id) + ",\"item\":\""@ + esc(it@.item)
        + "\""@ + ",\"money\":"@ + ser_nat(it@.money) + ",\"description\":\""@ + esc(
        it@.description,
    ) + "\""@ + ",\"created_at\":"@));
    push_nat(out, it.created_at);
    assert(out@ =~= o + ("{\"id\":"@ + ser_nat(it@.id) + ",\"item\":\""@ + esc(it@.item)
        + "\""@ + ",\"money\":"@ + ser_nat(it@.money) + ",\"description\":\""@ + esc(
        it@.description,
    ) + "\""@ + ",\"created_at\":"@ + ser_nat(it@.created_at)));
    push_str_chars(out, ",\"update_at\":");
    assert(out@ =~= o + ("{\"id\":"@ + ser_nat(it@.id) + ",\"item\":\""@ + esc(it@.item)
        + "\""@ + ",\"money\":"@ + ser_nat(it@.money) + ",\"description\":\""@ + esc(
        it@.description,
    ) + "\""@ + ",\"created_at\":"@ + ser_nat(it@.created_at) + ",\"update_at\":"@));
    push_nat(out, it.update_at);
    assert(out@ =~= o + ("{\"id\":"@ + ser_nat(it@.id) + ",\"item\":\""@ + esc(it@.item)
        + "\""@ + ",\"money\":"@ + ser_nat(it@.money) + ",\"description\":\""@ + esc(
        it@.description,
    ) + "\""@ + ",\"created_at\":"@ + ser_nat(it@.created_at) + ",\"update_at\":"@ + ser_nat(
        it@.update_at,
    )));
    push_str_chars(out, "}");
    assert(out@ =~= o + ser_item(it@));
}

/// The canonical document of `items`, as a string.
pub fn to_json(items: &Vec<Item>) -> (r: String)
    ensures
        r@ == ser_items(crate::item::views(items@)),
{
    let ghost vs = crate::item::views(items@);
    let mut out: Vec<char> = Vec::new();
    if items.len() == 0 {
        push_str_chars(&mut out, "[]");
        assert(out@ =~= ser_items(vs));
    } else {
        push_str_chars(&mut out, "[");
        proof {
            reveal_strlit("[");
            assert(vs[0] == items@[0]@);
        }
        push_item(&mut out, &items[0]);
        let mut i: usize = 1;
        proof {
            assert(out@ + ser_tail(vs, 1) =~= seq!['['] + (ser_item(vs[0]) + ser_tail(vs, 1)));
        }
        while i < items.len()
            invariant
                1 <= i <= items@.len(),
                vs == crate::item::views(items@),
                vs.len() == items@.len(),
                out@ + ser_tail(vs, i as int) == ser_items(vs),
            decreases items@.len() - i,
        {
            push_str_chars(&mut out, ",");
            proof {
                reveal_strlit(",");
                assert(vs[i as int] == items@[i as int]@);
            }
            push_item(&mut out, &items[i]);
            proof {
                assert(ser_tail(vs, i as int) == seq![','] + (ser_item(vs[i as int]) + ser_tail(
                    vs,
                    i + 1,
                )));
                assert(out@ + ser_tail(vs, i + 1) =~= ser_items(vs));
            }
            i = i + 1;
        }
        push_str_chars(&mut out, "]");
        proof {
            reveal_strlit("]");
            assert(ser_tail(vs, i as int) == seq![']']);
            assert(out@ =~= ser_items(vs));
        }
    }
    chars_to_string(&out)
}

// ---------------------------------------------------------------------------
// Executable parser
// ---------------------------------------------------------------------------

fn is_digit_exec(c: char) -> (r: bool)
    ensures
        r == is_digit(c),
{
    c == '0' || c == '1' || c == '2' || c == '3' || c == '4' || c == '5' || c == '6' || c == '7'
        || c == '8' || c == '9'
}

fn digit_val_exec(c: char) -> (d: u64)
    requires
        is_digit(c),
    ensures
        d as int == digit_val(c),
        d < 10,
{
    if c == '0' {
        0
    } else if c == '1' {
        1
    } else if c == '2' {
        2
    } else if c == '3' {
        3
    } else if c == '4' {
        4
    } else if c == '5' {
        5
    } else if c == '6' {
        6
    } else if c == '7' {
        7
    } else if c == '8' {
        8
    } else {
        9
    }
}

fn parse_num_exec(s: &Vec<char>, start: usize, max: u64) -> (r: Option<(u64, usize)>)
    requires
        start <= s@.len(),
    ensures
        r is Some <==> parse_num(s@, start as int, max as int) is Some,
        r matches Some(q) ==> parse_num(s@, start as int, max as int) == Some(
            (q.0 as int, q.1 as int),
        ) && q.0 <= max && start <= q.1 <= s@.len(),
{
    let n = s.len();
    if start >= n || !is_digit_exec(s[start]) {
        return None;
    }
    let mut i: usize = start;
    let mut acc: u64 = 0;
    while i < n && is_digit_exec(s[i])
        invariant
            start <= i <= n,
            n == s@.len(),
            acc <= max,
            parse_num(s@, start as int, max as int) == parse_num_rec(
                s@,
                i as int,
                acc as int,
                max as int,
            ),
        decreases n - i,
    {
        let d = digit_val_exec(s[i]);
        let a2: Option<u64> = match acc.checked_mul(10) {
            Some(m) => m.checked_add(d),
            None => None,
        };
        match a2 {
            Some(a) => {
                if a > max {
                    return None;
                }
                acc = a;
                i = i + 1;
            },
            None => {
                assert(acc * 10 + digit_val(s@[i as int]) > u64::MAX);
                return None;
            },
        }
    }
    Some((acc, i))
}

fn parse_lit_exec(s: &Vec<char>, start: usize, lit: &str) -> (r: Option<usize>)
    requires
        start <= s@.len(),
    ensures
        r is Some <==> parse_lit(s@, start as int, lit@) is Some,
        r matches Some(j) ==> parse_lit(s@, start as int, lit@) == Some(j as int) && start <= j
            <= s@.len(),
{
    let m = lit.unicode_len();
    let n = s.len();
    let mut k: usize = 0;
    let mut i: usize = start;
    proof {
        assert(lit@.skip(0) =~= lit@);
    }
    while k < m
        invariant
            k <= m,
            m == lit@.len(),
            n == s@.len(),
            i == start + k,
            i <= n,
            parse_lit(s@, start as int, lit@) == parse_lit(s@, i as int, lit@.skip(k as int)),
        decreases m - k,
    {
        proof {
            assert(lit@.skip(k as int)[0] == lit@[k as int]);
        }
        if i >= n {
            return None;
        }
        if s[i] != lit.get_char(k) {
            return None;
        }
        proof {
            assert(lit@.skip(k as int).drop_first() =~= lit@.skip(k as int + 1));
        }
        i = i + 1;
        k = k + 1;
    }
    proof {
        assert(lit@.skip(m as int) =~= Seq::<char>::empty());
    }
    Some(i)
}

fn parse_str_exec(s: &Vec<char>, start: usize) -> (r: Option<(Vec<char>, usize)>)
    requires
        start <= s@.len(),
    ensures
        r is Some <==> parse_str_rec(s@, start as int, Seq::empty()) is Some,
        r matches Some(q) ==> parse_str_rec(s@, start as int, Seq::empty()) == Some(
            (q.0@, q.1 as int),
        ) && start <= q.1 <= s@.len(),
{
    let n = s.len();
    let mut i: usize = start;
    let mut acc: Vec<char> = Vec::new();
    while i < n
        invariant
            start <= i <= n,
            n == s@.len(),
            parse_str_rec(s@, start as int, Seq::empty()) == parse_str_rec(s@, i as int, acc@),
        decreases n - i,
    {
        let c = s[i];
        if c == '"' {
            return Some((acc, i + 1));
        }
        if c == '\\' {
            if i + 1 >= n {
                return None;
            }
            let e = s[i + 1];
            if e == '"' {
                acc.push('"');
            } else if e == '\\' {
                acc.push('\\');
            } else if e == 'n' {
                acc.push('\n');
            } else if e == 'r' {
                acc.push('\r');
            } else if e == 't' {
                acc.push('\t');
            } else {
                return None;
            }
            i = i + 2;
        } else {
            acc.push(c);
            i = i + 1;
        }
    }
    None
}

#[verifier::rlimit(100)]
fn parse_item_exec(s: &Vec<char>, start: usize) -> (r: Option<(Item, usize)>)
    requires
        start <= s@.len(),
    ensures
        r is Some <==> parse_item(s@, start as int) is Some,
        r matches Some(q) ==> parse_item(s@, start as int) == Some((q.0@, q.1 as int)) && start
            <= q.1 <= s@.len(),
{
    let j1 = match parse_lit_exec(s, start, "{\"id\":") {
        Some(j) => j,
        None => {
            return None;
        },
    };
    let (id64, j2) = match parse_num_exec(s, j1, usize::MAX as u64) {
        Some(q) => q,
        None => {
            return None;
        },
    };
    let j3 = match parse_lit_exec(s, j2, ",\"item\":\"") {
        Some(j) => j,
        None => {
            return None;
        },
    };
    let (label, j4) = match parse_str_exec(s, j3) {
        Some(q) => q,
        None => {
            return None;
        },
    };
    let j5 = match parse_lit_exec(s, j4, ",\"money\":") {
        Some(j) => j,
        None => {
            return None;
        },
    };
    let (money64, j6) = match parse_num_exec(s, j5, usize::MAX as u64) {
        Some(q) => q,
        None => {
            return None;
        },
    };
    let j7 = match parse_lit_exec(s, j6, ",\"description\":\"") {
        Some(j) => j,
        None => {
            return None;
        },
    };
    let (desc, j8) = match parse_str_exec(s, j7) {
        Some(q) => q,
        None => {
            return None;
        },
    };
    let j9 = match parse_lit_exec(s, j8, ",\"created_at\":") {
        Some(j) => j,
        None => {
            return None;
        },
    };
    let (created, j10) = match parse_num_exec(s, j9, u64::MAX) {
        Some(q) => q,
        None => {
            return None;
        },
    };
    let j11 = match parse_lit_exec(s, j10, ",\"update_at\":") {
        Some(j) => j,
        None => {
            return None;
        },
    };
    let (updated, j12) = match parse_num_exec(s, j11, u64::MAX) {
        Some(q) => q,
        None => {
            return None;
        },
    };
    let j13 = match parse_lit_exec(s, j12, "}") {
        Some(j) => j,
        None => {
            return None;
        },
    };
    let it = Item {
        id: id64 as usize,
        item: chars_to_string(&label),
        money: money64 as usize,
        description: chars_to_string(&desc),
        created_at: created,
        update_at: updated,
    };
    assert(it@ =~= parse_item(s@, start as int)->Some_0.0);
    Some((it, j13))
}

/// The records of a whole document, per [`spec_load`]: `None` where the
/// content is neither empty nor a canonical document.
pub fn from_json(content: &str) -> (r: Option<Vec<Item>>)
    ensures
        r is Some <==> spec_load(content@) is Some,
        r matches Some(v) ==> spec_load(content@) == Some(crate::item::views(v@)) && v@.len()
            < usize::MAX,
{
    let cs = str_to_chars(content);
    let n = cs.len();
    if n == 0 {
        let v: Vec<Item> = Vec::new();
        assert(crate::item::views(v@) =~= Seq::<ItemModel>::empty());
        return Some(v);
    }
    if cs[0] != '[' {
        return None;
    }
    if n > 1 && cs[1] == ']' {
        if n == 2 {
            let v: Vec<Item> = Vec::new();
            assert(crate::item::views(v@) =~= Seq::<ItemModel>::empty());
            return Some(v);
        } else {
            return None;
        }
    }
    let mut i: usize = 1;
    let mut acc: Vec<Item> = Vec::new();
    proof {
        assert(crate::item::views(acc@) =~= Seq::<ItemModel>::empty());
    }
    loop
        invariant
            1 <= i <= n,
            n == cs@.len(),
            cs@ == content@,
            acc@.len() < i,
            parse_items_rec(cs@, 1, Seq::empty()) == parse_items_rec(
                cs@,
                i as int,
                crate::item::views(acc@),
            ),
            parse_doc(content@) == (match parse_items_rec(cs@, 1, Seq::empty()) {
                None => None::<Seq<ItemModel>>,
                Some((vs, j)) => if j == content@.len() {
                    Some(vs)
                } else {
                    None
                },
            }),
        decreases n - i,
    {
        let step = parse_item_exec(&cs, i);
        match step {
            None => {
                return None;
            },
            Some((it, j)) => {
                if !(i < j && j < n) {
                    return None;
                }
                let c = cs[j];
                if c == ',' {
                    let ghost acc_old = acc@;
                    acc.push(it);
                    proof {
                        assert(crate::item::views(acc@) =~= crate::item::views(acc_old).push(it@));
                    }
                    i = j + 1;
                } else if c == ']' {
                    let ghost acc_old = acc@;
                    acc.push(it);
                    proof {
                        assert(crate::item::views(acc@) =~= crate::item::views(acc_old).push(it@));
                    }
                    if j + 1 == n {
                        return Some(acc);
                    } else {
                        return None;
                    }
                } else {
                    return None;
                }
            },
        }
    }
}

} // verus!
