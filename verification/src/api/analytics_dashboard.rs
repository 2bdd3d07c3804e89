use vstd::prelude::*;
use vstd::string::*;

verus! {

// ---------------------------------------------------------------------------
// Asset identifiers for the price feed
// ---------------------------------------------------------------------------

/// The text of an optional string, or `default` when it is absent.
pub open spec fn text_or(text: Option<Seq<char>>, default: Seq<char>) -> Seq<char> {
    match text {
        Some(t) => t,
        None => default,
    }
}

/// The characters of an optional string slice.
pub open spec fn str_text(text: Option<&str>) -> Option<Seq<char>> {
    match text {
        Some(t) => Some(t@),
        None => None,
    }
}

/// The characters of an optional owned string.
pub open spec fn string_text(text: Option<String>) -> Option<Seq<char>> {
    match text {
        Some(t) => Some(t@),
        None => None,
    }
}

/// The price-feed identifier of an asset: `XLM:native` for the native
/// asset, otherwise `code:issuer` with `UNKNOWN` / `unknown` standing in
/// for a missing code / issuer.
pub open spec fn spec_asset_identifier(
    asset_type: Seq<char>,
    code: Option<Seq<char>>,
    issuer: Option<Seq<char>>,
) -> Seq<char> {
    if asset_type == "native"@ {
        "XLM:native"@
    } else {
        text_or(code, "UNKNOWN"@) + ":"@ + text_or(issuer, "unknown"@)
    }
}

/// A non-native asset's identifier is its whole code, a colon, and its whole
/// issuer, with `UNKNOWN` / `unknown` for whichever is missing; the native
/// asset's identifier is `XLM:native` whatever its code and issuer.
pub proof fn lemma_asset_identifier_parts(
    asset_type: Seq<char>,
    code: Option<Seq<char>>,
    issuer: Option<Seq<char>>,
)
    ensures
        asset_type == "native"@ ==> spec_asset_identifier(asset_type, code, issuer)
            == "XLM:native"@,
        asset_type != "native"@ ==> (code is Some && issuer is Some
            ==> spec_asset_identifier(asset_type, code, issuer) == code->0 + ":"@ + issuer->0),
        asset_type != "native"@ ==> (code is None && issuer is Some
            ==> spec_asset_identifier(asset_type, code, issuer) == "UNKNOWN"@ + ":"@ + issuer->0),
        asset_type != "native"@ ==> (code is Some && issuer is None
            ==> spec_asset_identifier(asset_type, code, issuer) == code->0 + ":"@ + "unknown"@),
        asset_type != "native"@ ==> (code is None && issuer is None ==> spec_asset_identifier(
            asset_type,
            code,
            issuer,
        ) == "UNKNOWN"@ + ":"@ + "unknown"@),
{
}

/// Which non-native asset type an asset has does not change its identifier.
pub proof fn lemma_asset_identifier_ignores_non_native_type(
    type1: Seq<char>,
    type2: Seq<char>,
    code: Option<Seq<char>>,
    issuer: Option<Seq<char>>,
)
    requires
        type1 != "native"@,
        type2 != "native"@,
    ensures
        spec_asset_identifier(type1, code, issuer) == spec_asset_identifier(type2, code, issuer),
{
}

/// A non-native asset's identifier begins with its whole code and a colon,
/// and ends with its whole issuer after that colon.
pub proof fn lemma_asset_identifier_code_and_issuer_whole(
    asset_type: Seq<char>,
    code: Seq<char>,
    issuer: Seq<char>,
)
    requires
        asset_type != "native"@,
    ensures
        spec_asset_identifier(asset_type, Some(code), Some(issuer)).len() == code.len() + 1
            + issuer.len(),
        spec_asset_identifier(asset_type, Some(code), Some(issuer)).subrange(0, code.len() as int)
            == code,
        spec_asset_identifier(asset_type, Some(code), Some(issuer))[code.len() as int] == ':',
        spec_asset_identifier(asset_type, Some(code), Some(issuer)).subrange(
            code.len() + 1int,
            code.len() + 1int + issuer.len(),
        ) == issuer,
{
    reveal_strlit(":");
    let id = spec_asset_identifier(asset_type, Some(code), Some(issuer));
    assert(id == code + ":"@ + issuer);
    assert(id.subrange(0, code.len() as int) =~= code);
    assert(id.subrange(code.len() + 1int, code.len() + 1int + issuer.len()) =~= issuer);
}

/// The price-feed identifier of an asset (see [`spec_asset_identifier`]).
pub fn asset_identifier(asset_type: &str, code: Option<&str>, issuer: Option<&str>) -> (id: String)
    ensures
        id@ == spec_asset_identifier(asset_type@, str_text(code), str_text(issuer)),
        asset_type@ == "native"@ ==> id@ == "XLM:native"@,
        asset_type@ != "native"@ ==> (code is Some && issuer is Some ==> id@ == code->0@
            + ":"@ + issuer->0@),
        asset_type@ != "native"@ ==> (code is None && issuer is Some ==> id@ == "UNKNOWN"@
            + ":"@ + issuer->0@),
        asset_type@ != "native"@ ==> (code is Some && issuer is None ==> id@ == code->0@ + ":"@
            + "unknown"@),
        asset_type@ != "native"@ ==> (code is None && issuer is None ==> id@ == "UNKNOWN"@ + ":"@
            + "unknown"@),
{
    let native = String::from_str("native");
    let kind = asset_type.to_owned();
    if kind == native {
        return String::from_str("XLM:native");
    }
    let code_text: &str = match code {
        Some(c) => c,
        None => "UNKNOWN",
    };
    let issuer_text: &str = match issuer {
        Some(i) => i,
        None => "unknown",
    };
    let mut id = String::from_str(code_text);
    id.append(":");
    id.append(issuer_text);
    id
}

/// The asset columns of one row of a day's per-asset payment totals.
#[derive(Debug, Clone)]
pub struct AssetKey {
    pub asset_type: String,
    pub asset_code: Option<String>,
    pub asset_issuer: Option<String>,
}

/// The price-feed identifier of an asset row.
pub open spec fn key_identifier(key: AssetKey) -> Seq<char> {
    spec_asset_identifier(key.asset_type@, string_text(key.asset_code), string_text(key.asset_issuer))
}

/// An asset row's identifier is what `asset_identifier` gives on the row's
/// own columns: `XLM:native` for the native asset, otherwise the row's whole
/// code and whole issuer joined by a colon, with `UNKNOWN` / `unknown` for a
/// missing column.
pub proof fn lemma_key_identifier_parts(key: AssetKey)
    ensures
        key.asset_type@ == "native"@ ==> key_identifier(key) == "XLM:native"@,
        key.asset_type@ != "native"@ ==> (key.asset_code is Some && key.asset_issuer is Some ==> key_identifier(key) == key.asset_code->0@ + ":"@ + key.asset_issuer->0@),
        key.asset_type@ != "native"@ ==> (key.asset_code is None && key.asset_issuer is Some
            ==> key_identifier(key) == "UNKNOWN"@ + ":"@ + key.asset_issuer->0@),
        key.asset_type@ != "native"@ ==> (key.asset_code is Some && key.asset_issuer is None
            ==> key_identifier(key) == key.asset_code->0@ + ":"@ + "unknown"@),
        key.asset_type@ != "native"@ ==> (key.asset_code is None && key.asset_issuer is None
            ==> key_identifier(key) == "UNKNOWN"@ + ":"@ + "unknown"@),
{
}

/// The identifiers of a sequence of asset rows, in order.
pub open spec fn key_identifiers(keys: Seq<AssetKey>) -> Seq<Seq<char>> {
    keys.map_values(|k: AssetKey| key_identifier(k))
}

/// The characters of each string of a sequence.
pub open spec fn string_texts(strings: Seq<String>) -> Seq<Seq<char>> {
    strings.map_values(|s: String| s@)
}

/// Each element of `s` that did not occur earlier in `s`, in order.
pub open spec fn first_occurrences<A>(s: Seq<A>) -> Seq<A>
    decreases s.len(),
{
    if s.len() == 0 {
        Seq::empty()
    } else {
        let kept = first_occurrences(s.drop_last());
        if s.drop_last().contains(s.last()) {
            kept
        } else {
            kept.push(s.last())
        }
    }
}

/// Keeping first occurrences keeps exactly the elements that occur.
pub proof fn lemma_first_occurrences_contains<A>(s: Seq<A>, x: A)
    ensures
        first_occurrences(s).contains(x) <==> s.contains(x),
    decreases s.len(),
{
    if s.len() > 0 {
        let p = s.drop_last();
        lemma_first_occurrences_contains(p, x);
        lemma_first_occurrences_contains(p, s.last());
        if s.contains(x) {
            let i = choose|i: int| 0 <= i < s.len() && s[i] == x;
            if i < s.len() - 1 {
                assert(p[i] == x);
            }
        }
        if p.contains(x) {
            let i = choose|i: int| 0 <= i < p.len() && p[i] == x;
            assert(s[i] == x);
        }
        let kept = first_occurrences(p);
        if !p.contains(s.last()) {
            assert(kept.push(s.last())[kept.len() as int] == s.last());
            if kept.contains(x) {
                let i = choose|i: int| 0 <= i < kept.len() && kept[i] == x;
                assert(kept.push(s.last())[i] == x);
            }
            if kept.push(s.last()).contains(x) && x != s.last() {
                let i = choose|i: int| 0 <= i < kept.len() + 1 && kept.push(s.last())[i] == x;
                assert(kept[i] == x);
            }
        }
    }
}

/// Keeping first occurrences leaves no element twice.
pub proof fn lemma_first_occurrences_distinct<A>(s: Seq<A>)
    ensures
        first_occurrences(s).no_duplicates(),
    decreases s.len(),
{
    if s.len() > 0 {
        let p = s.drop_last();
        lemma_first_occurrences_distinct(p);
        lemma_first_occurrences_contains(p, s.last());
        let kept = first_occurrences(p);
        if !p.contains(s.last()) {
            let q = kept.push(s.last());
            assert forall|i: int, j: int| 0 <= i < q.len() && 0 <= j < q.len() && i != j implies q[i]
                != q[j] by {
                if i < kept.len() && j < kept.len() {
                    assert(q[i] == kept[i] && q[j] == kept[j]);
                } else if i < kept.len() {
                    assert(q[i] == kept[i]);
                    assert(kept.contains(q[i]));
                } else if j < kept.len() {
                    assert(q[j] == kept[j]);
                    assert(kept.contains(q[j]));
                }
            }
        }
    }
}

/// Whether `ids` holds a string with the characters of `id`.
fn contains_id(ids: &Vec<String>, id: &String) -> (found: bool)
    ensures
        found == string_texts(ids@).contains(id@),
{
    let mut i: usize = 0;
    while i < ids.len()
        invariant
            0 <= i <= ids.len(),
            forall|j: int| 0 <= j < i ==> ids@[j]@ != id@,
        decreases ids.len() - i,
    {
        if ids[i] == *id {
            assert(string_texts(ids@)[i as int] == id@);
            return true;
        }
        i = i + 1;
    }
    assert forall|j: int| 0 <= j < string_texts(ids@).len() implies string_texts(ids@)[j] != id@ by {
        assert(string_texts(ids@)[j] == ids@[j]@);
    }
    false
}

/// The price-feed identifiers of a day's asset rows, each once, in the order
/// in which they first occur: the assets whose prices are asked for.
pub fn distinct_asset_identifiers(rows: &Vec<AssetKey>) -> (ids: Vec<String>)
    ensures
        string_texts(ids@) == first_occurrences(key_identifiers(rows@)),
        string_texts(ids@).no_duplicates(),
        forall|id: Seq<char>|
            string_texts(ids@).contains(id) <==> key_identifiers(rows@).contains(id),
        forall|j: int|
            0 <= j < rows@.len() && rows@[j].asset_type@ != "native"@ ==> (
            #[trigger] rows@[j].asset_code is Some && rows@[j].asset_issuer is Some
                ==> string_texts(ids@).contains(rows@[j].asset_code->0@ + ":"@ + rows@[j].asset_issuer->0@)),
        forall|j: int|
            0 <= j < rows@.len() && #[trigger] rows@[j].asset_type@ == "native"@
                ==> string_texts(ids@).contains("XLM:native"@),
{
    let mut ids: Vec<String> = Vec::new();
    let mut i: usize = 0;
    while i < rows.len()
        invariant
            0 <= i <= rows.len(),
            string_texts(ids@) == first_occurrences(key_identifiers(rows@.subrange(0, i as int))),
        decreases rows.len() - i,
    {
        let row = &rows[i];
        let code: Option<&str> = match &row.asset_code {
            Some(c) => Some(c.as_str()),
            None => None,
        };
        let issuer: Option<&str> = match &row.asset_issuer {
            Some(c) => Some(c.as_str()),
            None => None,
        };
        let id = asset_identifier(row.asset_type.as_str(), code, issuer);
        let ghost prefix = key_identifiers(rows@.subrange(0, i as int));
        let ghost next = key_identifiers(rows@.subrange(0, i + 1));
        proof {
            assert(next.drop_last() =~= prefix);
            assert(next.last() == id@);
            lemma_first_occurrences_contains(prefix, id@);
        }
        if !contains_id(&ids, &id) {
            ids.push(id);
            assert(string_texts(ids@) =~= first_occurrences(prefix).push(next.last()));
        }
        i = i + 1;
    }
    assert(rows@.subrange(0, rows.len() as int) =~= rows@);
    proof {
        lemma_first_occurrences_distinct(key_identifiers(rows@));
        assert forall|id: Seq<char>|
            string_texts(ids@).contains(id) <==> key_identifiers(rows@).contains(id) by {
            lemma_first_occurrences_contains(key_identifiers(rows@), id);
        }
        assert forall|j: int| 0 <= j < rows@.len() implies string_texts(ids@).contains(
            key_identifier(#[trigger] rows@[j]),
        ) by {
            assert(key_identifiers(rows@)[j] == key_identifier(rows@[j]));
            lemma_first_occurrences_contains(key_identifiers(rows@), key_identifier(rows@[j]));
            lemma_key_identifier_parts(rows@[j]);
        }
    }
    ids
}

// ---------------------------------------------------------------------------
// Prior-day baselines of the stat-tile summary
// ---------------------------------------------------------------------------

/// A UTC calendar day's activity counters: distinct active accounts,
/// payments, and distinct Soroban contracts that emitted events.
#[derive(Debug, Clone, Copy, PartialEq, Eq)]
pub struct DailyFigures {
    pub daa: i64,
    pub tx_count: i64,
    pub active_contracts: i64,
}

impl Default for DailyFigures {
    /// A day with no activity.
    fn default() -> (figures: Self)
        ensures
            figures.daa == 0,
            figures.tx_count == 0,
            figures.active_contracts == 0,
    {
        DailyFigures { daa: 0, tx_count: 0, active_contracts: 0 }
    }
}

/// The prior-day value that a counter's "vs yesterday" delta is computed
/// against: none when both days read zero (a cold start and a genuinely idle
/// day look the same, and neither has a meaningful delta), otherwise
/// yesterday's value.
pub open spec fn spec_prior_day_baseline(today: i64, yesterday: i64) -> Option<i64> {
    if today == 0 && yesterday == 0 {
        None
    } else {
        Some(yesterday)
    }
}

/// A counter has a baseline unless both days read zero, and a baseline is
/// always yesterday's value itself (so equal days give a baseline too).
pub proof fn lemma_prior_day_baseline(today: i64, yesterday: i64)
    ensures
        today != 0 || yesterday != 0 ==> spec_prior_day_baseline(today, yesterday) == Some(
            yesterday,
        ),
        today == 0 && yesterday == 0 ==> spec_prior_day_baseline(today, yesterday) is None,
        spec_prior_day_baseline(today, yesterday) matches Some(b) ==> b == yesterday,
        spec_prior_day_baseline(yesterday, yesterday) is Some <==> yesterday != 0,
{
}

/// The prior-day value of one counter (see [`spec_prior_day_baseline`]).
pub fn prior_day_baseline(today: i64, yesterday: i64) -> (baseline: Option<i64>)
    ensures
        baseline == spec_prior_day_baseline(today, yesterday),
        today != 0 || yesterday != 0 ==> baseline == Some(yesterday),
        today == 0 && yesterday == 0 ==> baseline is None,
{
    if today == 0 && yesterday == 0 {
        None
    } else {
        Some(yesterday)
    }
}

/// The prior-day values that each counter of the summary is diffed against.
#[derive(Debug, Clone, Copy, PartialEq, Eq)]
pub struct PriorDayBaselines {
    pub daa: Option<i64>,
    pub tx_count: Option<i64>,
    pub active_contracts: Option<i64>,
}

/// The prior-day baselines of every counter of the summary.
pub fn prior_day_baselines(today: &DailyFigures, yesterday: &DailyFigures) -> (baselines:
    PriorDayBaselines)
    ensures
        baselines.daa == spec_prior_day_baseline(today.daa, yesterday.daa),
        baselines.tx_count == spec_prior_day_baseline(today.tx_count, yesterday.tx_count),
        baselines.active_contracts == spec_prior_day_baseline(
            today.active_contracts,
            yesterday.active_contracts,
        ),
        today.daa != 0 || yesterday.daa != 0 ==> baselines.daa == Some(yesterday.daa),
        today.daa == 0 && yesterday.daa == 0 ==> baselines.daa is None,
        today.tx_count != 0 || yesterday.tx_count != 0 ==> baselines.tx_count == Some(
            yesterday.tx_count,
        ),
        today.tx_count == 0 && yesterday.tx_count == 0 ==> baselines.tx_count is None,
        today.active_contracts != 0 || yesterday.active_contracts != 0 ==> baselines.active_contracts
            == Some(yesterday.active_contracts),
        today.active_contracts == 0 && yesterday.active_contracts == 0
            ==> baselines.active_contracts is None,
{
    PriorDayBaselines {
        daa: prior_day_baseline(today.daa, yesterday.daa),
        tx_count: prior_day_baseline(today.tx_count, yesterday.tx_count),
        active_contracts: prior_day_baseline(today.active_contracts, yesterday.active_contracts),
    }
}

} // verus!
