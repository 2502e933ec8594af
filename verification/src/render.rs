//! Rendering a license template: the template sees the user's variables
//! under `var`, together with the special variables `YEAR`, `MONTH` and
//! `DAY` of the current date.
use vstd::prelude::*;
use chrono::Datelike;
use vstd::string::{StrSliceExecFns, StringExecFns};
use std::time::{SystemTime, UNIX_EPOCH};
use crate::variable::{Variable, VariableView};

verus! {

/// Why a template could not be rendered.
#[derive(Debug)]
pub enum RenderError {
    /// The template engine rejected the template or failed to render it.
    Template(minijinja::Error),
    /// The system clock gave no date: it reads before 1970, or beyond the
    /// dates that can be represented.
    Clock,
}

/// The error type of `minijinja`.
#[verifier::external_type_specification]
#[verifier::external_body]
pub struct ExMinijinjaError(minijinja::Error);

/// A reading of the system clock.
#[verifier::external_type_specification]
#[verifier::external_body]
pub struct ExSystemTime(SystemTime);

/// The name under which templates see the values they are rendered with.
pub open spec fn context_key() -> Seq<char> {
    "var"@
}

/// What a default `minijinja` environment renders for the template text
/// `source`, compiled under the template name `name`, when the context
/// holds the map `vars` under the name `key`; `None` where it reports an
/// error.
pub uninterp spec fn rendered(
    name: Seq<char>,
    source: Seq<char>,
    key: Seq<char>,
    vars: Map<Seq<char>, Seq<char>>,
) -> Option<Seq<char>>;

/// The UTC calendar date (year, month, day) that
/// `chrono::DateTime::from_timestamp(secs, nanos)` gives, or `None` where
/// the timestamp is out of its range.
pub uninterp spec fn utc_date(secs: int, nanos: int) -> Option<(int, int, int)>;

/// The decimal digit `d` (`0 <= d < 10`).
pub open spec fn digit_char(d: int) -> char {
    "0123456789"@[d]
}

/// The decimal notation of a natural number, without leading zeros.
pub open spec fn decimal_nat(n: nat) -> Seq<char>
    decreases n,
{
    if n < 10 {
        seq![digit_char(n as int)]
    } else {
        decimal_nat(n / 10).push(digit_char((n % 10) as int))
    }
}

/// The decimal notation of an integer, as `format!("{}", n)` writes it.
pub open spec fn decimal(n: int) -> Seq<char> {
    if n < 0 {
        seq!['-'] + decimal_nat((-n) as nat)
    } else {
        decimal_nat(n as nat)
    }
}

/// The map that a list of key/value pairs gives when they are inserted in
/// order: a later pair overrides an earlier one with the same key.
pub open spec fn pairs_map(p: Seq<(Seq<char>, Seq<char>)>) -> Map<Seq<char>, Seq<char>>
    decreases p.len(),
{
    if p.len() == 0 {
        Map::empty()
    } else {
        pairs_map(p.drop_last()).insert(p.last().0, p.last().1)
    }
}

/// The key/value pairs of the user's variables, in order.
pub open spec fn variable_pairs_of(vars: Seq<VariableView>) -> Seq<(Seq<char>, Seq<char>)> {
    vars.map_values(|v: VariableView| (v.key, v.value))
}

/// The values that a template is rendered with: the user's variables (a
/// later one overriding an earlier one with the same key), then `YEAR`,
/// `MONTH` and `DAY` of the given date, which override user variables of
/// the same names.
pub open spec fn template_context(
    vars: Seq<VariableView>,
    year: int,
    month: int,
    day: int,
) -> Map<Seq<char>, Seq<char>> {
    pairs_map(variable_pairs_of(vars)).insert("YEAR"@, decimal(year)).insert(
        "MONTH"@,
        decimal(month),
    ).insert("DAY"@, decimal(day))
}

/// The values of a list of variables.
pub open spec fn variable_views(vars: Seq<Variable>) -> Seq<VariableView> {
    vars.map_values(|v: Variable| v@)
}

/// The views of a list of string pairs.
pub open spec fn pair_views(p: Seq<(String, String)>) -> Seq<(Seq<char>, Seq<char>)> {
    p.map_values(|q: (String, String)| (q.0@, q.1@))
}

/// No key occurs twice.
pub open spec fn keys_distinct(p: Seq<(Seq<char>, Seq<char>)>) -> bool {
    forall|i: int, j: int| 0 <= i < j < p.len() ==> p[i].0 != p[j].0
}

/// The outcome of rendering `source` under `name` with `vars`.
pub open spec fn render_outcome(
    r: Result<String, RenderError>,
    name: Seq<char>,
    source: Seq<char>,
    vars: Map<Seq<char>, Seq<char>>,
) -> bool {
    match rendered(name, source, context_key(), vars) {
        Some(text) => r matches Ok(s) && s@ == text,
        None => r matches Err(RenderError::Template(_)),
    }
}

/// `SystemTime::now()`.  Nothing is stated of the reading: it depends on
/// the clock.
#[verifier::external_body]
fn clock_now() -> (r: SystemTime) {
    SystemTime::now()
}

/// `SystemTime::duration_since(UNIX_EPOCH)`, as whole seconds and the
/// nanoseconds of the last second; `None` where the reading is earlier than
/// the epoch.
#[verifier::external_body]
fn since_unix_epoch(t: SystemTime) -> (r: Option<(u64, u32)>)
    ensures
        r matches Some(d) ==> d.1 < 1_000_000_000,
{
    match t.duration_since(UNIX_EPOCH) {
        Ok(d) => Some((d.as_secs(), d.subsec_nanos())),
        Err(_) => None,
    }
}

/// `chrono::DateTime::from_timestamp`, read as year, month and day.
#[verifier::external_body]
fn date_of_timestamp(secs: i64, nanos: u32) -> (r: Option<(i32, u32, u32)>)
    ensures
        match r {
            Some(d) => utc_date(secs as int, nanos as int) == Some((d.0 as int, d.1 as int, d.2 as int))
                && 1 <= d.1 <= 12 && 1 <= d.2 <= 31,
            None => utc_date(secs as int, nanos as int) is None,
        },
{
    match chrono::DateTime::from_timestamp(secs, nanos) {
        Some(t) => Some((t.year(), t.month(), t.day())),
        None => None,
    }
}

/// `Environment::render_named_str` on a fresh default `minijinja`
/// environment, with the context `{key: {k: v, ..}}` made of the pairs.
/// The keys of the pairs are distinct, so the map that the context holds
/// has exactly these pairs.
#[verifier::external_body]
fn render_named(name: &str, source: &str, key: &str, vars: &Vec<(String, String)>) -> (r: Result<
    String,
    minijinja::Error,
>)
    requires
        keys_distinct(pair_views(vars@)),
    ensures
        match r {
            Ok(text) => rendered(name@, source@, key@, pairs_map(pair_views(vars@))) == Some(text@),
            Err(_) => rendered(name@, source@, key@, pairs_map(pair_views(vars@))) is None,
        },
{
    let map: std::collections::BTreeMap<String, String> = vars.iter().cloned().collect();
    let ctx = std::collections::BTreeMap::from([(key.to_owned(), minijinja::Value::from(map))]);
    minijinja::Environment::new().render_named_str(name, source, ctx)
}

/// The UTC date of a clock reading given as seconds and nanoseconds since
/// the epoch: `None` where there is no reading, or the seconds do not fit an
/// `i64`, or the date is out of range.
pub open spec fn reading_date(reading: Option<(u64, u32)>) -> Option<(int, int, int)> {
    match reading {
        Some((secs, nanos)) => if secs <= i64::MAX {
            utc_date(secs as int, nanos as int)
        } else {
            None
        },
        None => None,
    }
}

/// The UTC date of a clock reading (see `reading_date`).
pub fn date_of_reading(reading: Option<(u64, u32)>) -> (r: Option<(i32, u32, u32)>)
    ensures
        match r {
            Some(d) => reading_date(reading) == Some((d.0 as int, d.1 as int, d.2 as int))
                && 1 <= d.1 <= 12 && 1 <= d.2 <= 31,
            None => reading_date(reading) is None,
        },
{
    match reading {
        Some((secs, nanos)) => if secs <= i64::MAX as u64 {
            date_of_timestamp(secs as i64, nanos)
        } else {
            None
        },
        None => None,
    }
}

/// Replacing the value of an existing key is inserting it again.
proof fn lemma_pairs_map_update(p: Seq<(Seq<char>, Seq<char>)>, i: int, v: Seq<char>)
    requires
        keys_distinct(p),
        0 <= i < p.len(),
    ensures
        pairs_map(p.update(i, (p[i].0, v))) == pairs_map(p).insert(p[i].0, v),
    decreases p.len(),
{
    let q = p.update(i, (p[i].0, v));
    if i == p.len() - 1 {
        assert(q.drop_last() == p.drop_last());
        assert(pairs_map(q) =~= pairs_map(p).insert(p[i].0, v));
    } else {
        let d = p.drop_last();
        assert(q.drop_last() == d.update(i, (d[i].0, v)));
        lemma_pairs_map_update(d, i, v);
        assert(p.last().0 != p[i].0);
        assert(pairs_map(q) =~= pairs_map(p).insert(p[i].0, v));
    }
}

/// Sets `key` to `value` in a list of pairs with distinct keys: the value
/// of an existing pair is replaced, or the pair is added at the end.
fn set_pair(p: &mut Vec<(String, String)>, key: String, value: String)
    requires
        keys_distinct(pair_views(old(p)@)),
    ensures
        keys_distinct(pair_views(final(p)@)),
        pairs_map(pair_views(final(p)@)) == pairs_map(pair_views(old(p)@)).insert(key@, value@),
{
    let ghost before = pair_views(p@);
    let mut i: usize = 0;
    while i < p.len()
        invariant
            i <= p@.len(),
            before == pair_views(p@),
            before == pair_views(old(p)@),
            keys_distinct(before),
            forall|j: int| 0 <= j < i ==> before[j].0 != key@,
        decreases p@.len() - i,
    {
        if p[i].0 == key {
            let ghost k = key@;
            let ghost vv = value@;
            p.set(i, (key, value));
            proof {
                assert(before[i as int].0 == k);
                assert(pair_views(p@) =~= before.update(i as int, (before[i as int].0, vv)));
                lemma_pairs_map_update(before, i as int, vv);
                assert(pairs_map(pair_views(p@)) == pairs_map(before).insert(k, vv));
            }
            return;
        }
        i = i + 1;
    }
    let ghost k = key@;
    let ghost vv = value@;
    p.push((key, value));
    proof {
        assert(pair_views(p@) =~= before.push((k, vv)));
        assert(pair_views(p@).drop_last() == before);
    }
}

/// Appends the decimal digits of `n` to `out`.
fn push_decimal(out: &mut String, n: u64)
    ensures
        final(out)@ == old(out)@ + decimal_nat(n as nat),
    decreases n,
{
    if n >= 10 {
        push_decimal(out, n / 10);
    }
    let d = (n % 10) as usize;
    proof {
        reveal_strlit("0123456789");
    }
    let digit = "0123456789".substring_char(d, d + 1);
    out.append(digit);
    proof {
        assert(digit@ =~= seq![digit_char(d as int)]);
        if n >= 10 {
            assert(decimal_nat(n as nat) == decimal_nat((n / 10) as nat).push(digit_char((n % 10) as int)));
        }
    }
}

/// The decimal notation of `n`, as `format!("{}", n)` writes it.
pub fn decimal_string(n: i64) -> (r: String)
    ensures
        r@ == decimal(n as int),
{
    let mut out = String::new();
    if n < 0 {
        out.append("-");
        proof {
            reveal_strlit("-");
        }
        let m: u64 = if n == i64::MIN {
            9223372036854775808u64
        } else {
            (-n) as u64
        };
        push_decimal(&mut out, m);
    } else {
        push_decimal(&mut out, n as u64);
    }
    out
}

/// The values a template is rendered with, as a list of pairs with distinct
/// keys: the user's variables, then `YEAR`, `MONTH` and `DAY`.
pub fn template_variables(vars: &Vec<Variable>, year: i32, month: u32, day: u32) -> (r: Vec<
    (String, String),
>)
    ensures
        keys_distinct(pair_views(r@)),
        pairs_map(pair_views(r@)) == template_context(
            variable_views(vars@),
            year as int,
            month as int,
            day as int,
        ),
{
    let ghost views = variable_views(vars@);
    let mut p: Vec<(String, String)> = Vec::new();
    let mut i: usize = 0;
    while i < vars.len()
        invariant
            i <= vars@.len(),
            views == variable_views(vars@),
            keys_distinct(pair_views(p@)),
            pairs_map(pair_views(p@)) == pairs_map(variable_pairs_of(views.take(i as int))),
        decreases vars@.len() - i,
    {
        set_pair(&mut p, vars[i].key.clone(), vars[i].value.clone());
        proof {
            let s = variable_pairs_of(views.take(i + 1));
            assert(s.drop_last() =~= variable_pairs_of(views.take(i as int)));
            assert(s.last() == (vars@[i as int].key@, vars@[i as int].value@));
        }
        i = i + 1;
    }
    assert(views.take(vars@.len() as int) =~= views);
    set_pair(&mut p, "YEAR".to_owned(), decimal_string(year as i64));
    set_pair(&mut p, "MONTH".to_owned(), decimal_string(month as i64));
    set_pair(&mut p, "DAY".to_owned(), decimal_string(day as i64));
    p
}

/// Renders `jinja_content`, compiled under the name `jinja_file`, with the
/// user's variables and the given date; the template sees them under
/// `var`.
pub fn render_with_date(
    vars: &Vec<Variable>,
    jinja_file: &str,
    jinja_content: &str,
    year: i32,
    month: u32,
    day: u32,
) -> (r: Result<String, RenderError>)
    ensures
        render_outcome(
            r,
            jinja_file@,
            jinja_content@,
            template_context(variable_views(vars@), year as int, month as int, day as int),
        ),
{
    let context = template_variables(vars, year, month, day);
    proof {
        reveal_strlit("var");
    }
    match render_named(jinja_file, jinja_content, "var", &context) {
        Ok(text) => Ok(text),
        Err(e) => Err(RenderError::Template(e)),
    }
}

/// Renders `jinja_content`, compiled under the name `jinja_file`, with the
/// user's variables and today's date (UTC) as the system clock gives it;
/// `RenderError::Clock` where the clock gives no date.
pub fn reder_template(vars: &Vec<Variable>, jinja_file: &str, jinja_content: &str) -> (r: Result<
    String,
    RenderError,
>)
    ensures
        exists|reading: Option<(u64, u32)>|
            #![trigger reading_date(reading)]
            match reading_date(reading) {
                Some(d) => 1 <= d.1 <= 12 && 1 <= d.2 <= 31 && render_outcome(
                    r,
                    jinja_file@,
                    jinja_content@,
                    template_context(variable_views(vars@), d.0, d.1, d.2),
                ),
                None => r matches Err(RenderError::Clock),
            },
{
    let reading = since_unix_epoch(clock_now());
    let r = match date_of_reading(reading) {
        Some((year, month, day)) => render_with_date(vars, jinja_file, jinja_content, year, month, day),
        None => Err(RenderError::Clock),
    };
    assert(match reading_date(reading) {
        Some(d) => 1 <= d.1 <= 12 && 1 <= d.2 <= 31 && render_outcome(
            r,
            jinja_file@,
            jinja_content@,
            template_context(variable_views(vars@), d.0, d.1, d.2),
        ),
        None => r matches Err(RenderError::Clock),
    });
    r
}

/// The value under `k` is that of the last pair with key `k`.
pub proof fn lemma_pairs_map_last(p: Seq<(Seq<char>, Seq<char>)>, k: Seq<char>, i: int)
    requires
        0 <= i < p.len(),
        p[i].0 == k,
        forall|j: int| i < j < p.len() ==> p[j].0 != k,
    ensures
        pairs_map(p).contains_key(k),
        pairs_map(p)[k] == p[i].1,
    decreases p.len(),
{
    if i < p.len() - 1 {
        let d = p.drop_last();
        assert forall|j: int| i < j < d.len() implies d[j].0 != k by {
            assert(d[j] == p[j]);
        }
        lemma_pairs_map_last(d, k, i);
    }
}

/// A key that no pair holds is not in the map.
pub proof fn lemma_pairs_map_absent(p: Seq<(Seq<char>, Seq<char>)>, k: Seq<char>)
    requires
        forall|j: int| 0 <= j < p.len() ==> p[j].0 != k,
    ensures
        !pairs_map(p).contains_key(k),
    decreases p.len(),
{
    if p.len() > 0 {
        let d = p.drop_last();
        assert forall|j: int| 0 <= j < d.len() implies d[j].0 != k by {
            assert(d[j] == p[j]);
        }
        lemma_pairs_map_absent(d, k);
    }
}

/// `k` is none of the names set from the date.
pub open spec fn is_date_key(k: Seq<char>) -> bool {
    k == "YEAR"@ || k == "MONTH"@ || k == "DAY"@
}

/// The date variables are always set: `YEAR`, `MONTH` and `DAY` hold the
/// decimal numbers of the date, whatever the user's variables say.
pub proof fn lemma_date_variables(vars: Seq<VariableView>, year: int, month: int, day: int)
    ensures
        template_context(vars, year, month, day).contains_key("YEAR"@),
        template_context(vars, year, month, day).contains_key("MONTH"@),
        template_context(vars, year, month, day).contains_key("DAY"@),
        template_context(vars, year, month, day)["YEAR"@] == decimal(year),
        template_context(vars, year, month, day)["MONTH"@] == decimal(month),
        template_context(vars, year, month, day)["DAY"@] == decimal(day),
{
    reveal_strlit("YEAR");
    reveal_strlit("MONTH");
    reveal_strlit("DAY");
    assert("YEAR"@.len() != "MONTH"@.len());
    assert("YEAR"@[0] != "DAY"@[0]);
    assert("MONTH"@.len() != "DAY"@.len());
}

/// A user variable whose key is no date name is seen with the value of its
/// last occurrence in the configuration.
pub proof fn lemma_user_variable(
    vars: Seq<VariableView>,
    year: int,
    month: int,
    day: int,
    i: int,
)
    requires
        0 <= i < vars.len(),
        !is_date_key(vars[i].key),
        forall|j: int| i < j < vars.len() ==> vars[j].key != vars[i].key,
    ensures
        template_context(vars, year, month, day).contains_key(vars[i].key),
        template_context(vars, year, month, day)[vars[i].key] == vars[i].value,
{
    let p = variable_pairs_of(vars);
    assert forall|j: int| i < j < p.len() implies p[j].0 != vars[i].key by {
        assert(p[j].0 == vars[j].key);
    }
    lemma_pairs_map_last(p, vars[i].key, i);
}

/// A name that is no date name and no key of a user variable is not set.
pub proof fn lemma_unset_variable(
    vars: Seq<VariableView>,
    year: int,
    month: int,
    day: int,
    k: Seq<char>,
)
    requires
        !is_date_key(k),
        forall|j: int| 0 <= j < vars.len() ==> vars[j].key != k,
    ensures
        !template_context(vars, year, month, day).contains_key(k),
{
    let p = variable_pairs_of(vars);
    assert forall|j: int| 0 <= j < p.len() implies p[j].0 != k by {
        assert(p[j].0 == vars[j].key);
    }
    lemma_pairs_map_absent(p, k);
}

/// The keys of the variables are distinct.
pub open spec fn variable_keys_distinct(vars: Seq<VariableView>) -> bool {
    forall|i: int, j: int| 0 <= i < j < vars.len() ==> vars[i].key != vars[j].key
}

/// Among variables with distinct keys, `k` is set exactly when a variable
/// has it, and then to that variable's value.
proof fn lemma_distinct_context_entry(vars: Seq<VariableView>, k: Seq<char>)
    requires
        variable_keys_distinct(vars),
    ensures
        pairs_map(variable_pairs_of(vars)).contains_key(k) <==> exists|i: int|
            0 <= i < vars.len() && vars[i].key == k,
        forall|i: int|
            0 <= i < vars.len() && vars[i].key == k ==> pairs_map(variable_pairs_of(vars))[k]
                == vars[i].value,
{
    let p = variable_pairs_of(vars);
    if exists|i: int| 0 <= i < vars.len() && vars[i].key == k {
        let i = choose|i: int| 0 <= i < vars.len() && vars[i].key == k;
        assert forall|j: int| i < j < p.len() implies p[j].0 != k by {
            assert(p[j].0 == vars[j].key);
        }
        assert(p[i].0 == k);
        lemma_pairs_map_last(p, k, i);
        assert forall|j: int| 0 <= j < vars.len() && vars[j].key == k implies pairs_map(p)[k]
            == vars[j].value by {
            assert(j == i);
        }
    } else {
        assert forall|j: int| 0 <= j < p.len() implies p[j].0 != k by {
            assert(p[j].0 == vars[j].key);
        }
        lemma_pairs_map_absent(p, k);
    }
}

/// The order of the user's variables does not matter when their keys are
/// distinct: any reordering renders with the same values.
pub proof fn lemma_variable_order_irrelevant(
    v1: Seq<VariableView>,
    v2: Seq<VariableView>,
    year: int,
    month: int,
    day: int,
)
    requires
        variable_keys_distinct(v1),
        v1.to_multiset() == v2.to_multiset(),
    ensures
        template_context(v1, year, month, day) == template_context(v2, year, month, day),
{
    broadcast use vstd::seq_lib::group_to_multiset_ensures;

    assert(v1.no_duplicates());
    v1.lemma_multiset_has_no_duplicates();
    v2.lemma_multiset_has_no_duplicates_conv();
    assert forall|x: VariableView| v2.contains(x) implies v1.contains(x) by {
        assert(v2.to_multiset().count(x) > 0);
    }
    assert forall|x: VariableView| v1.contains(x) implies v2.contains(x) by {
        assert(v1.to_multiset().count(x) > 0);
    }
    assert forall|i: int, j: int| 0 <= i < j < v2.len() implies v2[i].key != v2[j].key by {
        if v2[i].key == v2[j].key {
            assert(v2[i] != v2[j]);
            assert(v2.contains(v2[i]));
            assert(v2.contains(v2[j]));
            let a = choose|a: int| 0 <= a < v1.len() && v1[a] == v2[i];
            let b = choose|b: int| 0 <= b < v1.len() && v1[b] == v2[j];
            assert(a != b);
            if a < b {
                assert(v1[a].key != v1[b].key);
            } else {
                assert(v1[b].key != v1[a].key);
            }
        }
    }
    let m1 = pairs_map(variable_pairs_of(v1));
    let m2 = pairs_map(variable_pairs_of(v2));
    assert forall|k: Seq<char>| #[trigger] m1.contains_key(k) == m2.contains_key(k) && (m1.contains_key(k)
        ==> m1[k] == m2[k]) by {
        lemma_distinct_context_entry(v1, k);
        lemma_distinct_context_entry(v2, k);
        if m1.contains_key(k) {
            let i = choose|i: int| 0 <= i < v1.len() && v1[i].key == k;
            assert(v1.contains(v1[i]));
            let j = choose|j: int| 0 <= j < v2.len() && v2[j] == v1[i];
            assert(m1[k] == v1[i].value);
            assert(m2[k] == v2[j].value);
        }
        if m2.contains_key(k) {
            let j = choose|j: int| 0 <= j < v2.len() && v2[j].key == k;
            assert(v2.contains(v2[j]));
            let i = choose|i: int| 0 <= i < v1.len() && v1[i] == v2[j];
            assert(v1[i].key == k);
        }
    }
    assert(m1 =~= m2);
}

} // verus!
