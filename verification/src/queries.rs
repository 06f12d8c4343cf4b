//! The statements and keys by which reference data and quotes are looked
//! up: the filters of a listing become conditions of a `SELECT`, the
//! parameters of a trade become a cache key.

use vstd::prelude::*;
use vstd::string::StringExecFns;
use crate::text::expanded;
use crate::text::replace_char;
use crate::text::same_text;

verus! {

/// The filters of a listing of currencies.
pub struct CurrenciesQuery {
    pub ticker: Option<String>,
    pub network: Option<String>,
    pub memo: Option<bool>,
}

/// The filters and the order of a listing of providers.
pub struct ProvidersQuery {
    pub rating: Option<String>,
    pub markup_enabled: Option<bool>,
    pub sort: Option<String>,
}

/// A text as it stands between single quotes in a statement: each single
/// quote is doubled.
pub open spec fn quoted(value: Seq<char>) -> Seq<char> {
    expanded(value, '\'', "''"@)
}

/// `true` or `false`.
pub open spec fn bool_text(b: bool) -> Seq<char> {
    if b {
        "true"@
    } else {
        "false"@
    }
}

/// The listing of all active currencies, without an order.
pub open spec fn currencies_base() -> Seq<char> {
    "SELECT id, symbol, name, network, is_active, logo_url, contract_address, decimals, requires_extra_id, extra_id_name, min_amount, max_amount, last_synced_at, created_at, updated_at FROM currencies WHERE is_active = TRUE"@
}

/// The listing of all active providers, without an order.
pub open spec fn providers_base() -> Seq<char> {
    "SELECT id, name, slug, is_active, kyc_rating, insurance_percentage, eta_minutes, markup_enabled, api_url, logo_url, website_url, last_synced_at, created_at, updated_at FROM providers WHERE is_active = TRUE"@
}

/// `sql` narrowed to the rows whose symbol is `ticker`, whatever the case
/// of its letters.
pub open spec fn with_ticker(sql: Seq<char>, ticker: Option<Seq<char>>) -> Seq<char> {
    match ticker {
        Some(t) => sql + " AND LOWER(symbol) = LOWER('"@ + quoted(t) + "')"@,
        None => sql,
    }
}

/// `sql` narrowed to the rows of `network`.
pub open spec fn with_network(sql: Seq<char>, network: Option<Seq<char>>) -> Seq<char> {
    match network {
        Some(n) => sql + " AND network = '"@ + quoted(n) + "'"@,
        None => sql,
    }
}

/// `sql` narrowed to the rows that do, or do not, need a memo.
pub open spec fn with_memo(sql: Seq<char>, memo: Option<bool>) -> Seq<char> {
    match memo {
        Some(m) => sql + " AND requires_extra_id = "@ + bool_text(m),
        None => sql,
    }
}

/// `sql` narrowed to the rows of the rating `rating`.
pub open spec fn with_rating(sql: Seq<char>, rating: Option<Seq<char>>) -> Seq<char> {
    match rating {
        Some(r) => sql + " AND kyc_rating = '"@ + quoted(r) + "'"@,
        None => sql,
    }
}

/// `sql` narrowed to the rows with, or without, a markup.
pub open spec fn with_markup(sql: Seq<char>, markup_enabled: Option<bool>) -> Seq<char> {
    match markup_enabled {
        Some(m) => sql + " AND markup_enabled = "@ + bool_text(m),
        None => sql,
    }
}

/// The order of a listing of providers: by rating then name, by time of
/// arrival, or, for any other wish and for none, by name.
pub open spec fn provider_order(sort: Option<Seq<char>>) -> Seq<char> {
    if sort == Some("rating"@) {
        " ORDER BY kyc_rating ASC, name ASC"@
    } else if sort == Some("eta"@) {
        " ORDER BY eta_minutes ASC"@
    } else {
        " ORDER BY name ASC"@
    }
}

/// The statement that lists the active currencies that pass the filters,
/// ordered by symbol and then network.
pub open spec fn currencies_sql_of(
    ticker: Option<Seq<char>>,
    network: Option<Seq<char>>,
    memo: Option<bool>,
) -> Seq<char> {
    with_memo(with_network(with_ticker(currencies_base(), ticker), network), memo)
        + " ORDER BY symbol, network"@
}

/// The statement that lists the active providers that pass the filters, in
/// the order asked for.
pub open spec fn providers_sql_of(
    rating: Option<Seq<char>>,
    markup_enabled: Option<bool>,
    sort: Option<Seq<char>>,
) -> Seq<char> {
    with_markup(with_rating(providers_base(), rating), markup_enabled) + provider_order(sort)
}

/// How one character of a part stands in a cache key: a colon, which
/// parts the key, and the percent sign, which marks what was replaced, are
/// written as two characters that end in a percent sign; every other
/// character stands for itself.
pub open spec fn code_of(c: char) -> Seq<char> {
    if c == '%' {
        seq!['%', '%']
    } else if c == ':' {
        seq![';', '%']
    } else {
        seq![c]
    }
}

/// A part as it stands in a cache key: character by character by its code.
pub open spec fn escaped(part: Seq<char>) -> Seq<char>
    decreases part.len(),
{
    if part.len() == 0 {
        Seq::<char>::empty()
    } else {
        escaped(part.drop_last()) + code_of(part.last())
    }
}

/// Whether a text holds no colon.
pub open spec fn colon_free(text: Seq<char>) -> bool {
    forall|i: int| 0 <= i < text.len() ==> #[trigger] text[i] != ':'
}

/// The cache key of the quotes of a trade: the five parameters, each as it
/// stands in a key, parted by colons. The amount is given as the decimal
/// text it is written with.
pub open spec fn rates_key_of(
    from: Seq<char>,
    to: Seq<char>,
    network_from: Seq<char>,
    network_to: Seq<char>,
    amount: Seq<char>,
) -> Seq<char> {
    "rates:"@ + escaped(from) + ":"@ + escaped(to) + ":"@ + escaped(network_from) + ":"@ + escaped(
        network_to,
    ) + ":"@ + escaped(amount)
}

/// The view of an optional text.
pub open spec fn text_of(value: Option<String>) -> Option<Seq<char>> {
    match value {
        Some(s) => Some(s@),
        None => None,
    }
}

fn bool_str(b: bool) -> (text: &'static str)
    ensures
        text@ == bool_text(b),
{
    if b {
        "true"
    } else {
        "false"
    }
}

impl CurrenciesQuery {
    /// The statement that lists the currencies that pass this query.
    pub fn to_sql(&self) -> (sql: String)
        ensures
            sql@ == currencies_sql_of(text_of(self.ticker), text_of(self.network), self.memo),
    {
        let mut sql = String::from_str(
            "SELECT id, symbol, name, network, is_active, logo_url, contract_address, decimals, requires_extra_id, extra_id_name, min_amount, max_amount, last_synced_at, created_at, updated_at FROM currencies WHERE is_active = TRUE",
        );
        if let Some(ticker) = &self.ticker {
            let value = replace_char(ticker.as_str(), '\'', "''");
            sql.append(" AND LOWER(symbol) = LOWER('");
            sql.append(value.as_str());
            sql.append("')");
        }
        if let Some(network) = &self.network {
            let value = replace_char(network.as_str(), '\'', "''");
            sql.append(" AND network = '");
            sql.append(value.as_str());
            sql.append("'");
        }
        if let Some(memo) = self.memo {
            sql.append(" AND requires_extra_id = ");
            sql.append(bool_str(memo));
        }
        sql.append(" ORDER BY symbol, network");
        sql
    }
}

impl ProvidersQuery {
    /// The statement that lists the providers that pass this query.
    pub fn to_sql(&self) -> (sql: String)
        ensures
            sql@ == providers_sql_of(
                text_of(self.rating),
                self.markup_enabled,
                text_of(self.sort),
            ),
    {
        let mut sql = String::from_str(
            "SELECT id, name, slug, is_active, kyc_rating, insurance_percentage, eta_minutes, markup_enabled, api_url, logo_url, website_url, last_synced_at, created_at, updated_at FROM providers WHERE is_active = TRUE",
        );
        if let Some(rating) = &self.rating {
            let value = replace_char(rating.as_str(), '\'', "''");
            sql.append(" AND kyc_rating = '");
            sql.append(value.as_str());
            sql.append("'");
        }
        if let Some(markup_enabled) = self.markup_enabled {
            sql.append(" AND markup_enabled = ");
            sql.append(bool_str(markup_enabled));
        }
        match &self.sort {
            Some(sort) => {
                if same_text(sort.as_str(), "rating") {
                    sql.append(" ORDER BY kyc_rating ASC, name ASC");
                } else if same_text(sort.as_str(), "eta") {
                    sql.append(" ORDER BY eta_minutes ASC");
                } else {
                    sql.append(" ORDER BY name ASC");
                }
            },
            None => {
                sql.append(" ORDER BY name ASC");
            },
        }
        sql
    }
}

/// Replacing in two texts joined is replacing in each.
proof fn lemma_expanded_concat(a: Seq<char>, b: Seq<char>, from: char, to: Seq<char>)
    ensures
        expanded(a + b, from, to) == expanded(a, from, to) + expanded(b, from, to),
    decreases b.len(),
{
    if b.len() == 0 {
        assert(a + b =~= a);
        assert(expanded(a, from, to) + expanded(b, from, to) =~= expanded(a, from, to));
    } else {
        lemma_expanded_concat(a, b.drop_last(), from, to);
        assert((a + b).drop_last() =~= a + b.drop_last());
        assert((a + b).last() == b.last());
        let tail = if b.last() == from {
            to
        } else {
            seq![b.last()]
        };
        assert(expanded(a + b, from, to) == expanded(a + b.drop_last(), from, to) + tail);
        assert(expanded(b, from, to) == expanded(b.drop_last(), from, to) + tail);
        assert((expanded(a, from, to) + expanded(b.drop_last(), from, to)) + tail =~= expanded(
            a,
            from,
            to,
        ) + (expanded(b.drop_last(), from, to) + tail));
    }
}

/// Doubling the percent signs of a part and then writing each colon as a
/// semicolon and a percent sign gives the part as it stands in a key.
proof fn lemma_escaped_in_two_steps(part: Seq<char>)
    ensures
        expanded(expanded(part, '%', "%%"@), ':', ";%"@) == escaped(part),
    decreases part.len(),
{
    reveal_strlit("%%");
    reveal_strlit(";%");
    assert("%%"@ =~= seq!['%', '%']);
    assert(";%"@ =~= seq![';', '%']);
    if part.len() > 0 {
        let c = part.last();
        let before = expanded(part.drop_last(), '%', "%%"@);
        let tail = if c == '%' {
            "%%"@
        } else {
            seq![c]
        };
        lemma_escaped_in_two_steps(part.drop_last());
        assert(expanded(part, '%', "%%"@) == before + tail);
        lemma_expanded_concat(before, tail, ':', ";%"@);
        assert(expanded(tail, ':', ";%"@) =~= code_of(c)) by {
            reveal_with_fuel(expanded, 3);
            if c == '%' {
                assert(tail.drop_last() =~= seq!['%']);
                assert(tail.drop_last().drop_last() =~= Seq::<char>::empty());
            } else {
                assert(tail.drop_last() =~= Seq::<char>::empty());
            }
        }
    }
}

/// A part as it stands in a key holds no colon, and is empty only where the
/// part is.
pub proof fn lemma_escaped_is_colon_free(part: Seq<char>)
    ensures
        colon_free(escaped(part)),
        escaped(part).len() >= part.len(),
    decreases part.len(),
{
    if part.len() > 0 {
        lemma_escaped_is_colon_free(part.drop_last());
        let before = escaped(part.drop_last());
        let code = code_of(part.last());
        assert forall|i: int| 0 <= i < escaped(part).len() implies #[trigger] escaped(part)[i]
            != ':' by {
            if i < before.len() {
                assert(escaped(part)[i] == before[i]);
            } else {
                assert(escaped(part)[i] == code[i - before.len()]);
            }
        }
    }
}

/// Two parts that stand alike in a key are one part.
pub proof fn lemma_escaped_is_injective(a: Seq<char>, b: Seq<char>)
    requires
        escaped(a) == escaped(b),
    ensures
        a == b,
    decreases a.len(),
{
    lemma_escaped_is_colon_free(a);
    lemma_escaped_is_colon_free(b);
    if a.len() == 0 || b.len() == 0 {
        assert(a =~= b);
    } else {
        let c = a.last();
        let d = b.last();
        let ea = escaped(a.drop_last());
        let eb = escaped(b.drop_last());
        let whole = escaped(a);
        let n = whole.len() as int;
        assert(whole == ea + code_of(c));
        assert(whole == eb + code_of(d));
        assert(whole[n - 1] == code_of(c)[code_of(c).len() - 1]);
        assert(whole[n - 1] == code_of(d)[code_of(d).len() - 1]);
        if c == '%' || c == ':' {
            assert(whole[n - 1] == '%');
            assert(d == '%' || d == ':');
            assert(whole[n - 2] == code_of(c)[0]);
            assert(whole[n - 2] == code_of(d)[0]);
            assert(c == d);
            assert(ea =~= whole.subrange(0, n - 2));
            assert(eb =~= whole.subrange(0, n - 2));
        } else {
            assert(whole[n - 1] == c);
            assert(d == c);
            assert(ea =~= whole.subrange(0, n - 1));
            assert(eb =~= whole.subrange(0, n - 1));
        }
        lemma_escaped_is_injective(a.drop_last(), b.drop_last());
        assert(a =~= a.drop_last().push(c));
        assert(b =~= b.drop_last().push(d));
    }
}

/// Two texts that each end in a colon and a part without colons are equal
/// only where the parts are equal, and what stands before the colons.
proof fn lemma_split_at_last_colon(x: Seq<char>, e: Seq<char>, y: Seq<char>, f: Seq<char>)
    requires
        x + ":"@ + e == y + ":"@ + f,
        colon_free(e),
        colon_free(f),
    ensures
        x == y,
        e == f,
{
    reveal_strlit(":");
    let sep = ":"@;
    assert(sep.len() == 1 && sep[0] == ':');
    let left = x + sep + e;
    let right = y + sep + f;
    assert(left.len() == x.len() + 1 + e.len());
    assert(right.len() == y.len() + 1 + f.len());
    assert(left[x.len() as int] == ':');
    assert(right[y.len() as int] == ':');
    if x.len() > y.len() {
        assert(right[x.len() as int] == f[x.len() - y.len() - 1]);
        assert(false);
    }
    if y.len() > x.len() {
        assert(left[y.len() as int] == e[y.len() - x.len() - 1]);
        assert(false);
    }
    assert forall|i: int| 0 <= i < x.len() implies x[i] == y[i] by {
        assert(left[i] == x[i]);
        assert(right[i] == y[i]);
    }
    assert(x =~= y);
    assert forall|i: int| 0 <= i < e.len() implies e[i] == f[i] by {
        assert(left[x.len() + 1 + i] == e[i]);
        assert(right[y.len() + 1 + i] == f[i]);
    }
    assert(e =~= f);
}

/// Two trades have one cache key only where they agree in all five
/// parameters: what is cached for a trade is never served for another.
pub proof fn lemma_rates_key_tells_trades_apart(
    from: Seq<char>,
    to: Seq<char>,
    network_from: Seq<char>,
    network_to: Seq<char>,
    amount: Seq<char>,
    other_from: Seq<char>,
    other_to: Seq<char>,
    other_network_from: Seq<char>,
    other_network_to: Seq<char>,
    other_amount: Seq<char>,
)
    requires
        rates_key_of(from, to, network_from, network_to, amount) == rates_key_of(
            other_from,
            other_to,
            other_network_from,
            other_network_to,
            other_amount,
        ),
    ensures
        from == other_from,
        to == other_to,
        network_from == other_network_from,
        network_to == other_network_to,
        amount == other_amount,
{
    lemma_escaped_is_colon_free(to);
    lemma_escaped_is_colon_free(network_from);
    lemma_escaped_is_colon_free(network_to);
    lemma_escaped_is_colon_free(amount);
    lemma_escaped_is_colon_free(other_to);
    lemma_escaped_is_colon_free(other_network_from);
    lemma_escaped_is_colon_free(other_network_to);
    lemma_escaped_is_colon_free(other_amount);
    let k1 = "rates:"@ + escaped(from);
    let k2 = k1 + ":"@ + escaped(to);
    let k3 = k2 + ":"@ + escaped(network_from);
    let k4 = k3 + ":"@ + escaped(network_to);
    let o1 = "rates:"@ + escaped(other_from);
    let o2 = o1 + ":"@ + escaped(other_to);
    let o3 = o2 + ":"@ + escaped(other_network_from);
    let o4 = o3 + ":"@ + escaped(other_network_to);
    lemma_split_at_last_colon(k4, escaped(amount), o4, escaped(other_amount));
    lemma_split_at_last_colon(k3, escaped(network_to), o3, escaped(other_network_to));
    lemma_split_at_last_colon(k2, escaped(network_from), o2, escaped(other_network_from));
    lemma_split_at_last_colon(k1, escaped(to), o1, escaped(other_to));
    assert(escaped(from) =~= k1.subrange("rates:"@.len() as int, k1.len() as int));
    assert(escaped(other_from) =~= o1.subrange("rates:"@.len() as int, o1.len() as int));
    lemma_escaped_is_injective(from, other_from);
    lemma_escaped_is_injective(to, other_to);
    lemma_escaped_is_injective(network_from, other_network_from);
    lemma_escaped_is_injective(network_to, other_network_to);
    lemma_escaped_is_injective(amount, other_amount);
}

/// A part as it stands in a cache key.
pub fn escape(part: &str) -> (out: String)
    ensures
        out@ == escaped(part@),
{
    let doubled = replace_char(part, '%', "%%");
    let out = replace_char(doubled.as_str(), ':', ";%");
    proof {
        lemma_escaped_in_two_steps(part@);
    }
    out
}

/// The cache key of the quotes of a trade. Two trades have one key only
/// where their five parameters agree; the amount is given as the decimal
/// text it is written with.
pub fn rates_cache_key(from: &str, to: &str, network_from: &str, network_to: &str, amount: &str)
    -> (key: String)
    ensures
        key@ == rates_key_of(from@, to@, network_from@, network_to@, amount@),
{
    let mut key = String::from_str("rates:");
    key.append(escape(from).as_str());
    key.append(":");
    key.append(escape(to).as_str());
    key.append(":");
    key.append(escape(network_from).as_str());
    key.append(":");
    key.append(escape(network_to).as_str());
    key.append(":");
    key.append(escape(amount).as_str());
    key
}

} // verus!
