//! Asset registry entries and the lookups that the checks make in them.
use vstd::prelude::*;

use crate::text::{contains, contains_spec, starts_with, str_eq};

verus! {

/// A registry entry for one asset of a chain.
#[derive(Clone, Debug, PartialEq, Eq, Default)]
pub struct AssetInfo {
    pub name: String,
    pub description: String,
    pub symbol: String,
    pub denom: String,
    pub decimals: u8,
    pub coingecko_id: String,
    pub base: String,
    pub display: String,
    pub denom_units: Vec<DenomUnit>,
    pub logo_uris: LogoURIs,
}

/// One unit of an asset: its denom, its exponent, and other names for it.
#[derive(Clone, Debug, PartialEq, Eq, Default)]
pub struct DenomUnit {
    pub denom: String,
    pub exponent: u16,
    pub aliases: Option<Vec<String>>,
}

/// Where an asset's logos are.
#[derive(Clone, Debug, PartialEq, Eq, Default)]
pub struct LogoURIs {
    pub png: String,
    pub svg: String,
}

/// A chain's own token, as its registry entry gives it.
#[derive(Clone, Debug, PartialEq, Eq, Default)]
pub struct ChainDenomInfo {
    pub denom: String,
    pub decimals: u8,
    pub display: String,
}

/// The mark of a retired asset.
pub const RETIRED_MARK: &'static str = "(old)";

/// An asset answers to `q` by any of its names and is not retired.
pub open spec fn asset_matches(a: AssetInfo, q: Seq<char>) -> bool {
    &&& (a.name@ == q || a.symbol@ == q || a.denom@ == q || a.display@ == q || a.base@ == q)
    &&& !(contains_spec(a.name@, RETIRED_MARK@) || contains_spec(a.symbol@, RETIRED_MARK@))
}

/// The position of the first asset that answers to `q`.
pub open spec fn find_asset_spec(s: Seq<AssetInfo>, q: Seq<char>) -> Option<int>
    decreases s.len(),
{
    if s.len() == 0 {
        None
    } else if asset_matches(s[0], q) {
        Some(0)
    } else {
        match find_asset_spec(s.drop_first(), q) {
            Some(i) => Some(i + 1),
            None => None,
        }
    }
}

proof fn lemma_find_asset_first(s: Seq<AssetInfo>, q: Seq<char>, i: int)
    requires
        0 <= i <= s.len(),
        forall|k: int| 0 <= k < i ==> !asset_matches(#[trigger] s[k], q),
    ensures
        find_asset_spec(s, q) == (match find_asset_spec(s.subrange(i, s.len() as int), q) {
            Some(j) => Some(j + i),
            None => None::<int>,
        }),
    decreases i,
{
    if i == 0 {
        assert(s.subrange(0, s.len() as int) =~= s);
        match find_asset_spec(s, q) {
            Some(j) => {},
            None => {},
        }
    } else {
        assert(!asset_matches(s[0], q));
        let t = s.drop_first();
        assert forall|k: int| 0 <= k < i - 1 implies !asset_matches(#[trigger] t[k], q) by {
            assert(t[k] == s[k + 1]);
        }
        lemma_find_asset_first(t, q, i - 1);
        assert(t.subrange(i - 1, t.len() as int) =~= s.subrange(i, s.len() as int));
    }
}

fn asset_matches_exec(a: &AssetInfo, q: &str) -> (r: bool)
    ensures
        r == asset_matches(*a, q@),
{
    let named = str_eq(a.name.as_str(), q) || str_eq(a.symbol.as_str(), q) || str_eq(a.denom.as_str(), q)
        || str_eq(a.display.as_str(), q) || str_eq(a.base.as_str(), q);
    named && !(contains(a.name.as_str(), RETIRED_MARK) || contains(a.symbol.as_str(), RETIRED_MARK))
}

/// The position of the first asset that answers to `asset_name` by its
/// name, symbol, denom, display name or base denom, leaving out retired ones.
pub fn find_asset(assets: &Vec<AssetInfo>, asset_name: &str) -> (r: Option<usize>)
    ensures
        match r {
            Some(i) => find_asset_spec(assets@, asset_name@) == Some(i as int) && i < assets@.len()
                && asset_matches(assets@[i as int], asset_name@),
            None => find_asset_spec(assets@, asset_name@) is None,
        },
{
    let n = assets.len();
    let mut i: usize = 0;
    while i < n
        invariant
            n == assets@.len(),
            i <= n,
            forall|k: int| 0 <= k < i ==> !asset_matches(#[trigger] assets@[k], asset_name@),
        decreases n - i,
    {
        if asset_matches_exec(&assets[i], asset_name) {
            proof {
                lemma_find_asset_first(assets@, asset_name@, i as int);
                assert(assets@.subrange(i as int, n as int)[0] == assets@[i as int]);
            }
            return Some(i);
        }
        i = i + 1;
    }
    proof {
        lemma_find_asset_first(assets@, asset_name@, n as int);
    }
    None
}

/// The first alias that begins with `u`.
pub open spec fn first_micro_alias(s: Seq<String>) -> Option<Seq<char>>
    decreases s.len(),
{
    if s.len() == 0 {
        None
    } else if s[0]@.len() > 0 && s[0]@[0] == 'u' {
        Some(s[0]@)
    } else {
        first_micro_alias(s.drop_first())
    }
}

/// The micro alias that a unit offers: one of an exponent-0 unit's aliases.
pub open spec fn unit_micro_alias(u: DenomUnit) -> Option<Seq<char>> {
    if u.exponent == 0 {
        match u.aliases {
            Some(a) => first_micro_alias(a@),
            None => None,
        }
    } else {
        None
    }
}

/// The first micro alias that the units offer.
pub open spec fn micro_alias_of_units(s: Seq<DenomUnit>) -> Option<Seq<char>>
    decreases s.len(),
{
    if s.len() == 0 {
        None
    } else {
        match unit_micro_alias(s[0]) {
            Some(a) => Some(a),
            None => micro_alias_of_units(s.drop_first()),
        }
    }
}

/// The base denom that a transfer of this asset carries: the first micro
/// alias of an exponent-0 unit, else the registry's base denom.
pub open spec fn transfer_base_denom(a: AssetInfo) -> Seq<char> {
    match micro_alias_of_units(a.denom_units@) {
        Some(x) => x,
        None => a.base@,
    }
}

fn first_micro_alias_exec(s: &Vec<String>) -> (r: Option<String>)
    ensures
        match r {
            Some(x) => first_micro_alias(s@) == Some(x@),
            None => first_micro_alias(s@) is None,
        },
{
    let n = s.len();
    let mut i: usize = 0;
    assert(s@.subrange(0, n as int) =~= s@);
    while i < n
        invariant
            n == s@.len(),
            i <= n,
            first_micro_alias(s@) == first_micro_alias(s@.subrange(i as int, n as int)),
        decreases n - i,
    {
        assert(s@.subrange(i as int, n as int).drop_first() =~= s@.subrange(i + 1, n as int));
        assert(s@.subrange(i as int, n as int)[0] == s@[i as int]);
        proof {
            reveal_strlit("u");
            assert("u"@ =~= seq!['u']);
        }
        if starts_with(s[i].as_str(), "u") {
            assert(s[i as int]@.subrange(0, 1) == seq!['u']);
            assert(s[i as int]@.subrange(0, 1)[0] == s[i as int]@[0]);
            return Some(s[i].clone());
        }
        proof {
            if s[i as int]@.len() > 0 && s[i as int]@[0] == 'u' {
                assert(s[i as int]@.subrange(0, 1) =~= seq!['u']);
            }
        }
        i = i + 1;
    }
    None
}

/// The base denom that a transfer of `asset` carries.
pub fn transfer_base_denom_of(asset: &AssetInfo) -> (r: String)
    ensures
        r@ == transfer_base_denom(*asset),
{
    let units = &asset.denom_units;
    let n = units.len();
    let mut i: usize = 0;
    assert(units@.subrange(0, n as int) =~= units@);
    while i < n
        invariant
            n == units@.len(),
            i <= n,
            units@ == asset.denom_units@,
            micro_alias_of_units(units@) == micro_alias_of_units(units@.subrange(i as int, n as int)),
        decreases n - i,
    {
        assert(units@.subrange(i as int, n as int).drop_first() =~= units@.subrange(i + 1, n as int));
        assert(units@.subrange(i as int, n as int)[0] == units@[i as int]);
        let u = &units[i];
        if u.exponent == 0 {
            match &u.aliases {
                Some(a) => {
                    match first_micro_alias_exec(a) {
                        Some(x) => {
                            assert(unit_micro_alias(units@[i as int]) == Some(x@));
                            assert(micro_alias_of_units(units@.subrange(i as int, n as int)) == Some(x@));
                            assert(micro_alias_of_units(asset.denom_units@) == Some(x@));
                            assert(transfer_base_denom(*asset) == x@);
                            return x;
                        },
                        None => {},
                    }
                },
                None => {},
            }
        }
        i = i + 1;
    }
    asset.base.clone()
}

} // verus!
