//! Rendering of the listing and detail reports: left-justified columns, as
//! a plain text table.

use vstd::prelude::*;

use crate::codec::{push_nat, push_str_chars, ser_nat, str_to_chars};
use crate::item::{views, Item, ItemModel};

verus! {

/// `n` spaces (none for a non-positive `n`).
pub open spec fn spaces(n: int) -> Seq<char>
    decreases n,
{
    if n <= 0 {
        Seq::empty()
    } else {
        spaces(n - 1).push(' ')
    }
}

/// `t` left-justified in a column of width `w`.
pub open spec fn pad_to(t: Seq<char>, w: int) -> Seq<char> {
    t + spaces(w - t.len())
}

/// The header line of the listing.
pub open spec fn listing_header() -> Seq<char> {
    pad_to("ID"@, 5) + " "@ + pad_to("item"@, 20) + " "@ + pad_to("money"@, 20) + "\n"@
}

/// One listing line: id, label and amount.
pub open spec fn render_row(v: ItemModel) -> Seq<char> {
    pad_to(ser_nat(v.id), 5) + " "@ + pad_to(v.item, 20) + " "@ + pad_to(ser_nat(v.money), 20)
        + "\n"@
}

/// The listing lines of the records from position `k` on.
pub open spec fn render_rows(s: Seq<ItemModel>, k: int) -> Seq<char>
    decreases s.len() - k,
{
    if k < 0 || k >= s.len() {
        Seq::empty()
    } else {
        render_row(s[k]) + render_rows(s, k + 1)
    }
}

/// The whole listing: the header, then one line per record, or a notice for
/// an empty ledger.
pub open spec fn render_listing(s: Seq<ItemModel>) -> Seq<char> {
    if s.len() == 0 {
        listing_header() + "no items\n"@
    } else {
        listing_header() + render_rows(s, 0)
    }
}

/// What chrono displays for a `DateTime<Utc>` built from the given Unix
/// epoch seconds: a function of the timestamp alone.
pub uninterp spec fn date_display_of(t: int) -> Seq<char>;

/// Relies on chrono's `DateTime::<Utc>::from_timestamp` and the `Display`
/// impl of `DateTime<Utc>`: the rendering (such as "2015-05-15 00:00:00
/// UTC") depends on the timestamp alone; a timestamp chrono cannot
/// represent renders as the empty string.
#[verifier::external_body]
fn format_epoch_date(t: u64) -> (r: String)
    ensures
        r@ == date_display_of(t as int),
{
    match chrono::DateTime::<chrono::Utc>::from_timestamp(t as i64, 0) {
        Some(dt) => dt.to_string(),
        None => String::new(),
    }
}

/// The header line of the detail report.
pub open spec fn detail_header() -> Seq<char> {
    pad_to("ID"@, 5) + " "@ + pad_to("item"@, 20) + " "@ + pad_to("money"@, 20) + " "@ + pad_to(
        "description"@,
        20,
    ) + " "@ + pad_to("created_at"@, 20) + " "@ + pad_to("update_at"@, 20) + "\n"@
}

/// The detail report of one record: every field, dates rendered by chrono.
pub open spec fn render_detail(v: ItemModel) -> Seq<char> {
    detail_header() + pad_to(ser_nat(v.id), 5) + " "@ + pad_to(v.item, 20) + " "@ + pad_to(
        ser_nat(v.money),
        20,
    ) + " "@ + pad_to(v.description, 20) + " "@ + pad_to(date_display_of(v.created_at), 20) + " "@
        + pad_to(date_display_of(v.update_at), 20) + "\n"@
}

/// Append `t` left-justified in a column of width `w`.
fn push_padded(out: &mut Vec<char>, t: &Vec<char>, w: usize)
    ensures
        final(out)@ == old(out)@ + pad_to(t@, w as int),
{
    let ghost o = old(out)@;
    let n = t.len();
    let mut k: usize = 0;
    while k < n
        invariant
            k <= n,
            n == t@.len(),
            out@ == o + t@.take(k as int),
        decreases n - k,
    {
        out.push(t[k]);
        k = k + 1;
        assert(out@ =~= o + t@.take(k as int));
    }
    assert(t@.take(n as int) =~= t@);
    let mut c: usize = n;
    proof {
        assert(out@ =~= o + (t@ + spaces(0)));
    }
    while c < w
        invariant
            n <= c,
            c <= w || c == n,
            out@ == o + (t@ + spaces(c - n)),
        decreases w - c,
    {
        out.push(' ');
        c = c + 1;
        assert(out@ =~= o + (t@ + spaces(c - n)));
    }
    assert(t@ + spaces(c - n) =~= pad_to(t@, w as int));
}

/// Append the listing header.
fn push_listing_header(out: &mut Vec<char>)
    ensures
        final(out)@ == old(out)@ + listing_header(),
{
    let ghost o = old(out)@;
    let idh = str_to_chars("ID");
    push_padded(out, &idh, 5);
    assert(out@ =~= o + pad_to("ID"@, 5));
    push_str_chars(out, " ");
    let ith = str_to_chars("item");
    push_padded(out, &ith, 20);
    assert(out@ =~= o + (pad_to("ID"@, 5) + " "@ + pad_to("item"@, 20)));
    push_str_chars(out, " ");
    let moh = str_to_chars("money");
    push_padded(out, &moh, 20);
    assert(out@ =~= o + (pad_to("ID"@, 5) + " "@ + pad_to("item"@, 20) + " "@ + pad_to(
        "money"@,
        20,
    )));
    push_str_chars(out, "\n");
    assert(out@ =~= o + listing_header());
}

/// Append one listing line.
fn push_row(out: &mut Vec<char>, it: &Item)
    ensures
        final(out)@ == old(out)@ + render_row(it@),
{
    let ghost o = old(out)@;
    let mut idc: Vec<char> = Vec::new();
    push_nat(&mut idc, it.id as u64);
    push_padded(out, &idc, 5);
    assert(out@ =~= o + pad_to(ser_nat(it@.id), 5));
    push_str_chars(out, " ");
    let lc = str_to_chars(it.item.as_str());
    push_padded(out, &lc, 20);
    assert(out@ =~= o + (pad_to(ser_nat(it@.id), 5) + " "@ + pad_to(it@.item, 20)));
    push_str_chars(out, " ");
    let mut mc: Vec<char> = Vec::new();
    push_nat(&mut mc, it.money as u64);
    push_padded(out, &mc, 20);
    assert(out@ =~= o + (pad_to(ser_nat(it@.id), 5) + " "@ + pad_to(it@.item, 20) + " "@ + pad_to(
        ser_nat(it@.money),
        20,
    )));
    push_str_chars(out, "\n");
    assert(out@ =~= o + render_row(it@));
}

/// The listing of all records, as [`render_listing`] describes it.
pub(crate) fn render_listing_exec(items: &Vec<Item>) -> (r: String)
    ensures
        r@ == render_listing(views(items@)),
{
    let ghost vs = views(items@);
    let mut out: Vec<char> = Vec::new();
    push_listing_header(&mut out);
    if items.len() == 0 {
        push_str_chars(&mut out, "no items\n");
        assert(out@ =~= render_listing(vs));
    } else {
        let mut i: usize = 0;
        while i < items.len()
            invariant
                i <= items@.len(),
                vs == views(items@),
                0 < vs.len(),
                out@ + render_rows(vs, i as int) == render_listing(vs),
            decreases items@.len() - i,
        {
            proof {
                assert(vs[i as int] == items@[i as int]@);
            }
            push_row(&mut out, &items[i]);
            proof {
                assert(render_rows(vs, i as int) == render_row(vs[i as int]) + render_rows(
                    vs,
                    i + 1,
                ));
                assert(out@ + render_rows(vs, i + 1) =~= render_listing(vs));
            }
            i = i + 1;
        }
        assert(out@ =~= render_listing(vs));
    }
    crate::codec::chars_to_string(&out)
}

/// The detail report of one record, as [`render_detail`] describes it.
pub(crate) fn render_detail_exec(it: &Item) -> (r: String)
    ensures
        r@ == render_detail(it@),
{
    let mut out: Vec<char> = Vec::new();
    let ghost o = out@;
    let idh = str_to_chars("ID");
    push_padded(&mut out, &idh, 5);
    push_str_chars(&mut out, " ");
    assert(out@ =~= pad_to("ID"@, 5) + " "@);
    let ith = str_to_chars("item");
    push_padded(&mut out, &ith, 20);
    push_str_chars(&mut out, " ");
    assert(out@ =~= pad_to("ID"@, 5) + " "@ + pad_to("item"@, 20) + " "@);
    let moh = str_to_chars("money");
    push_padded(&mut out, &moh, 20);
    push_str_chars(&mut out, " ");
    assert(out@ =~= pad_to("ID"@, 5) + " "@ + pad_to("item"@, 20) + " "@ + pad_to("money"@, 20)
        + " "@);
    let deh = str_to_chars("description");
    push_padded(&mut out, &deh, 20);
    push_str_chars(&mut out, " ");
    assert(out@ =~= pad_to("ID"@, 5) + " "@ + pad_to("item"@, 20) + " "@ + pad_to("money"@, 20)
        + " "@ + pad_to("description"@, 20) + " "@);
    let crh = str_to_chars("created_at");
    push_padded(&mut out, &crh, 20);
    push_str_chars(&mut out, " ");
    assert(out@ =~= pad_to("ID"@, 5) + " "@ + pad_to("item"@, 20) + " "@ + pad_to("money"@, 20)
        + " "@ + pad_to("description"@, 20) + " "@ + pad_to("created_at"@, 20) + " "@);
    let uph = str_to_chars("update_at");
    push_padded(&mut out, &uph, 20);
    push_str_chars(&mut out, "\n");
    assert(out@ =~= detail_header());

    let mut idc: Vec<char> = Vec::new();
    push_nat(&mut idc, it.id as u64);
    push_padded(&mut out, &idc, 5);
    push_str_chars(&mut out, " ");
    assert(out@ =~= detail_header() + pad_to(ser_nat(it@.id), 5) + " "@);
    let lc = str_to_chars(it.item.as_str());
    push_padded(&mut out, &lc, 20);
    push_str_chars(&mut out, " ");
    assert(out@ =~= detail_header() + pad_to(ser_nat(it@.id), 5) + " "@ + pad_to(it@.item, 20)
        + " "@);
    let mut mc: Vec<char> = Vec::new();
    push_nat(&mut mc, it.money as u64);
    push_padded(&mut out, &mc, 20);
    push_str_chars(&mut out, " ");
    assert(out@ =~= detail_header() + pad_to(ser_nat(it@.id), 5) + " "@ + pad_to(it@.item, 20)
        + " "@ + pad_to(ser_nat(it@.money), 20) + " "@);
    let dc = str_to_chars(it.description.as_str());
    push_padded(&mut out, &dc, 20);
    push_str_chars(&mut out, " ");
    assert(out@ =~= detail_header() + pad_to(ser_nat(it@.id), 5) + " "@ + pad_to(it@.item, 20)
        + " "@ + pad_to(ser_nat(it@.money), 20) + " "@ + pad_to(it@.description, 20) + " "@);
    let cd = format_epoch_date(it.created_at);
    let cdc = str_to_chars(cd.as_str());
    push_padded(&mut out, &cdc, 20);
    push_str_chars(&mut out, " ");
    assert(out@ =~= detail_header() + pad_to(ser_nat(it@.id), 5) + " "@ + pad_to(it@.item, 20)
        + " "@ + pad_to(ser_nat(it@.money), 20) + " "@ + pad_to(it@.description, 20) + " "@
        + pad_to(date_display_of(it@.created_at), 20) + " "@);
    let ud = format_epoch_date(it.update_at);
    let udc = str_to_chars(ud.as_str());
    push_padded(&mut out, &udc, 20);
    push_str_chars(&mut out, "\n");
    assert(out@ =~= render_detail(it@));
    crate::codec::chars_to_string(&out)
}

} // verus!
