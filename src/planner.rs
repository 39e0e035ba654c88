use vstd::prelude::*;
use crate::calendar::{Date, month_name, month_name_text};
use crate::text::{
    decimal, decimal_text, lemma_decimal_chars, lemma_decimal_injective, lemma_signed_decimal,
    no_slash, signed_decimal, signed_decimal_text,
};

verus! {

/// `base` followed by the path component `part`, with one `/` between them
/// unless `base` is empty or already ends in `/`.
pub open spec fn join(base: Seq<char>, part: Seq<char>) -> Seq<char> {
    if base.len() == 0 || base.last() == '/' {
        base + part
    } else {
        base + seq!['/'] + part
    }
}

/// Where a file named `name` with date `d` goes under `root`:
/// `root/YYYY/MonthName/D/name`, with year and day in plain decimal.
pub open spec fn destination(root: Seq<char>, d: Date, name: Seq<char>) -> Seq<char> {
    join(
        join(join(join(root, signed_decimal(d.year as int)), month_name(d.month as int)), decimal(d.day as nat)),
        name,
    )
}

/// Appends the path component `part` to `path`.
fn push_component(path: &mut String, part: &str)
    ensures
        final(path)@ == join(old(path)@, part@),
{
    let n = path.as_str().unicode_len();
    if n == 0 || path.as_str().get_char(n - 1) == '/' {
        path.append(part);
    } else {
        path.append("/");
        proof {
            reveal_strlit("/");
        }
        path.append(part);
        assert(final(path)@ =~= join(old(path)@, part@));
    }
}

/// The destination of a file named `file_name` with date `date` under
/// `target_root`.
pub fn target_path(target_root: &str, date: Date, file_name: &str) -> (r: String)
    requires
        date.valid(),
    ensures
        r@ == destination(target_root@, date, file_name@),
{
    let mut path = String::from_str(target_root);
    let year = signed_decimal_text(date.year as i64);
    push_component(&mut path, year.as_str());
    push_component(&mut path, month_name_text(date.month));
    let day = decimal_text(date.day as u64);
    push_component(&mut path, day.as_str());
    push_component(&mut path, file_name);
    path
}

/// Month names are never empty, hold no `/`, and tell months apart.
proof fn lemma_month_name(a: int, b: int)
    requires
        1 <= a <= 12,
        1 <= b <= 12,
    ensures
        month_name(a).len() >= 3,
        no_slash(month_name(a)),
        month_name(a) == month_name(b) ==> a == b,
{
    reveal_strlit("January");
    reveal_strlit("February");
    reveal_strlit("March");
    reveal_strlit("April");
    reveal_strlit("May");
    reveal_strlit("June");
    reveal_strlit("July");
    reveal_strlit("August");
    reveal_strlit("September");
    reveal_strlit("October");
    reveal_strlit("November");
    reveal_strlit("December");
    if month_name(a) == month_name(b) {
        assert(month_name(a)[0] == month_name(b)[0]);
        assert(month_name(a)[1] == month_name(b)[1]);
        assert(month_name(a)[2] == month_name(b)[2]);
    }
}

/// Two paths that agree up to a `/` after components without `/` have the
/// same first component and the same rest.
proof fn lemma_split_at_slash(a1: Seq<char>, r1: Seq<char>, a2: Seq<char>, r2: Seq<char>)
    requires
        no_slash(a1),
        no_slash(a2),
        a1 + seq!['/'] + r1 == a2 + seq!['/'] + r2,
    ensures
        a1 == a2,
        r1 == r2,
{
    let s = a1 + seq!['/'] + r1;
    if a1.len() < a2.len() {
        assert(s[a1.len() as int] == '/');
        assert(s[a1.len() as int] == a2[a1.len() as int]);
    } else if a2.len() < a1.len() {
        assert(s[a2.len() as int] == '/');
        assert(s[a2.len() as int] == a1[a2.len() as int]);
    }
    assert(a1 =~= s.subrange(0, a1.len() as int));
    assert(a2 =~= s.subrange(0, a2.len() as int));
    assert(r1 =~= s.subrange(a1.len() as int + 1, s.len() as int));
    assert(r2 =~= (a2 + seq!['/'] + r2).subrange(a2.len() as int + 1, s.len() as int));
}

/// What `root` contributes to every path joined onto it.
pub open spec fn root_prefix(root: Seq<char>) -> Seq<char> {
    if root.len() == 0 || root.last() == '/' {
        root
    } else {
        root + seq!['/']
    }
}

proof fn lemma_destination_shape(root: Seq<char>, d: Date, name: Seq<char>)
    requires
        d.valid(),
    ensures
        destination(root, d, name) == root_prefix(root) + (signed_decimal(d.year as int) + seq!['/']
            + (month_name(d.month as int) + seq!['/'] + (decimal(d.day as nat) + seq!['/'] + name))),
{
    let y = signed_decimal(d.year as int);
    let m = month_name(d.month as int);
    let dd = decimal(d.day as nat);
    lemma_signed_decimal(d.year as int, 0);
    lemma_month_name(d.month as int, 1);
    lemma_decimal_chars(d.day as nat);
    let p1 = join(root, y);
    assert(p1 =~= root_prefix(root) + y);
    assert(p1.last() == y.last());
    let p2 = join(p1, m);
    assert(p2 =~= root_prefix(root) + y + seq!['/'] + m);
    assert(p2.last() == m.last());
    let p3 = join(p2, dd);
    assert(p3 =~= root_prefix(root) + y + seq!['/'] + m + seq!['/'] + dd);
    assert(p3.last() == dd.last());
    assert(join(p3, name) =~= root_prefix(root) + (y + seq!['/'] + (m + seq!['/'] + (dd + seq!['/']
        + name))));
}

/// Under one root, the destination is determined by the date and the name,
/// and distinct dates or distinct names give distinct destinations.
pub proof fn lemma_destination_injective(
    root: Seq<char>,
    d1: Date,
    name1: Seq<char>,
    d2: Date,
    name2: Seq<char>,
)
    requires
        d1.valid(),
        d2.valid(),
    ensures
        destination(root, d1, name1) == destination(root, d2, name2) <==> (d1 == d2 && name1
            == name2),
{
    if destination(root, d1, name1) == destination(root, d2, name2) {
        lemma_destination_shape(root, d1, name1);
        lemma_destination_shape(root, d2, name2);
        let pre = root_prefix(root);
        let t1 = signed_decimal(d1.year as int) + seq!['/'] + (month_name(d1.month as int) + seq!['/']
            + (decimal(d1.day as nat) + seq!['/'] + name1));
        let t2 = signed_decimal(d2.year as int) + seq!['/'] + (month_name(d2.month as int) + seq!['/']
            + (decimal(d2.day as nat) + seq!['/'] + name2));
        assert(t1 =~= (pre + t1).subrange(pre.len() as int, (pre + t1).len() as int));
        assert(t2 =~= (pre + t2).subrange(pre.len() as int, (pre + t2).len() as int));
        lemma_signed_decimal(d1.year as int, d2.year as int);
        lemma_signed_decimal(d2.year as int, d1.year as int);
        lemma_split_at_slash(
            signed_decimal(d1.year as int),
            month_name(d1.month as int) + seq!['/'] + (decimal(d1.day as nat) + seq!['/'] + name1),
            signed_decimal(d2.year as int),
            month_name(d2.month as int) + seq!['/'] + (decimal(d2.day as nat) + seq!['/'] + name2),
        );
        lemma_month_name(d1.month as int, d2.month as int);
        lemma_month_name(d2.month as int, d1.month as int);
        lemma_split_at_slash(
            month_name(d1.month as int),
            decimal(d1.day as nat) + seq!['/'] + name1,
            month_name(d2.month as int),
            decimal(d2.day as nat) + seq!['/'] + name2,
        );
        lemma_decimal_chars(d1.day as nat);
        lemma_decimal_chars(d2.day as nat);
        lemma_split_at_slash(decimal(d1.day as nat), name1, decimal(d2.day as nat), name2);
        lemma_decimal_injective(d1.day as nat, d2.day as nat);
    }
}

} // verus!
