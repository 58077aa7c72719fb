use vstd::prelude::*;

verus! {

pub open spec fn digit_char(d: nat) -> char {
    if d == 0 { '0' }
    else if d == 1 { '1' }
    else if d == 2 { '2' }
    else if d == 3 { '3' }
    else if d == 4 { '4' }
    else if d == 5 { '5' }
    else if d == 6 { '6' }
    else if d == 7 { '7' }
    else if d == 8 { '8' }
    else { '9' }
}

/// Decimal notation of `n`, without sign or leading zeros.
pub open spec fn decimal(n: nat) -> Seq<char>
    decreases n,
{
    if n < 10 {
        seq![digit_char(n)]
    } else {
        decimal(n / 10).push(digit_char(n % 10))
    }
}

fn digit_str(d: usize) -> (r: &'static str)
    requires
        d < 10,
    ensures
        r@ == seq![digit_char(d as nat)],
{
    proof {
        reveal_strlit("0");
        reveal_strlit("1");
        reveal_strlit("2");
        reveal_strlit("3");
        reveal_strlit("4");
        reveal_strlit("5");
        reveal_strlit("6");
        reveal_strlit("7");
        reveal_strlit("8");
        reveal_strlit("9");
    }
    let r = if d == 0 { "0" }
    else if d == 1 { "1" }
    else if d == 2 { "2" }
    else if d == 3 { "3" }
    else if d == 4 { "4" }
    else if d == 5 { "5" }
    else if d == 6 { "6" }
    else if d == 7 { "7" }
    else if d == 8 { "8" }
    else { "9" };
    assert(r@ =~= seq![digit_char(d as nat)]);
    r
}

/// Decimal notation of `n`.
pub fn decimal_string(n: usize) -> (r: String)
    ensures
        r@ == decimal(n as nat),
    decreases n,
{
    if n < 10 {
        String::from_str(digit_str(n))
    } else {
        let mut s = decimal_string(n / 10);
        s.append(digit_str(n % 10));
        s
    }
}

pub open spec fn opt_clause(keyword: Seq<char>, value: Option<Seq<char>>) -> Seq<char> {
    match value {
        Some(v) => keyword + v,
        None => Seq::empty(),
    }
}

pub open spec fn opt_number(n: Option<usize>) -> Option<Seq<char>> {
    match n {
        Some(v) => Some(decimal(v as nat)),
        None => None,
    }
}

/// The retrieval query, clauses in fixed order: predicate, order (newest
/// first by `id` when none is given), limit, offset; each optional clause
/// present exactly when its input is.
pub open spec fn select_text(
    limit: Option<usize>,
    offset: Option<usize>,
    order: Option<Seq<char>>,
    predicate: Option<Seq<char>>,
) -> Seq<char> {
    "SELECT * FROM weather_reports"@
        + opt_clause(" WHERE "@, predicate)
        + " ORDER BY "@
        + (match order { Some(o) => o, None => "id DESC"@ })
        + opt_clause(" LIMIT "@, opt_number(limit))
        + opt_clause(" OFFSET "@, opt_number(offset))
}

pub open spec fn opt_view(s: Option<String>) -> Option<Seq<char>> {
    match s {
        Some(v) => Some(v@),
        None => None,
    }
}

/// Assembles the retrieval query for the readings table. `order` and
/// `predicate` are pasted in verbatim: they must never carry untrusted text.
pub fn build_select(
    limit: Option<usize>,
    offset: Option<usize>,
    order: Option<String>,
    predicate: Option<String>,
) -> (r: String)
    ensures
        r@ == select_text(limit, offset, opt_view(order), opt_view(predicate)),
{
    let mut q = String::from_str("SELECT * FROM weather_reports");
    match &predicate {
        Some(p) => {
            q.append(" WHERE ");
            q.append(p.as_str());
        },
        None => {},
    }
    q.append(" ORDER BY ");
    match &order {
        Some(o) => q.append(o.as_str()),
        None => q.append("id DESC"),
    }
    match limit {
        Some(l) => {
            q.append(" LIMIT ");
            let d = decimal_string(l);
            q.append(d.as_str());
        },
        None => {},
    }
    match offset {
        Some(o) => {
            q.append(" OFFSET ");
            let d = decimal_string(o);
            q.append(d.as_str());
        },
        None => {},
    }
    assert(q@ =~= select_text(limit, offset, opt_view(order), opt_view(predicate)));
    q
}

} // verus!
