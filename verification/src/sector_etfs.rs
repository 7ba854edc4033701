//! The standard SPDR sector ETFs.
use crate::text::str_equal;
use vstd::prelude::*;

verus! {

/// A sector ETF: its ticker, fund name and the sector it tracks. (Its
/// expense ratio is a float and is kept by the caller.)
#[derive(Debug)]
pub struct SectorEtfInfo {
    pub symbol: String,
    pub name: String,
    pub sector: String,
}

/// The standard SPDR sector ETFs, in order: (symbol, name, sector).
pub open spec fn standard_sector_table() -> Seq<(Seq<char>, Seq<char>, Seq<char>)> {
    seq![
        ("XLK"@, "Technology Select Sector"@, "Technology"@),
        ("XLF"@, "Financial Select Sector"@, "Financials"@),
        ("XLV"@, "Health Care Select Sector"@, "Healthcare"@),
        ("XLE"@, "Energy Select Sector"@, "Energy"@),
        ("XLY"@, "Consumer Discretionary Select Sector"@, "Consumer Discretionary"@),
        ("XLP"@, "Consumer Staples Select Sector"@, "Consumer Staples"@),
        ("XLI"@, "Industrial Select Sector"@, "Industrials"@),
        ("XLB"@, "Materials Select Sector"@, "Materials"@),
        ("XLU"@, "Utilities Select Sector"@, "Utilities"@),
        ("XLRE"@, "Real Estate Select Sector"@, "Real Estate"@),
        ("XLC"@, "Communication Services Select Sector"@, "Communication Services"@),
    ]
}

pub open spec fn etf_view(e: SectorEtfInfo) -> (Seq<char>, Seq<char>, Seq<char>) {
    (e.symbol@, e.name@, e.sector@)
}

fn push_etf(v: &mut Vec<SectorEtfInfo>, symbol: &str, name: &str, sector: &str)
    ensures
        final(v)@.len() == old(v)@.len() + 1,
        final(v)@.drop_last() == old(v)@,
        etf_view(final(v)@.last()) == (symbol@, name@, sector@),
{
    v.push(SectorEtfInfo { symbol: symbol.to_owned(), name: name.to_owned(), sector: sector.to_owned() });
    proof {
        assert(final(v)@.drop_last() =~= old(v)@);
    }
}

/// The eleven standard SPDR sector ETFs, from XLK (Technology) to XLC
/// (Communication Services).
pub fn standard_sectors() -> (r: Vec<SectorEtfInfo>)
    ensures
        r@.map_values(|e: SectorEtfInfo| etf_view(e)) == standard_sector_table(),
{
    let mut v: Vec<SectorEtfInfo> = Vec::new();
    push_etf(&mut v, "XLK", "Technology Select Sector", "Technology");
    push_etf(&mut v, "XLF", "Financial Select Sector", "Financials");
    push_etf(&mut v, "XLV", "Health Care Select Sector", "Healthcare");
    push_etf(&mut v, "XLE", "Energy Select Sector", "Energy");
    push_etf(&mut v, "XLY", "Consumer Discretionary Select Sector", "Consumer Discretionary");
    push_etf(&mut v, "XLP", "Consumer Staples Select Sector", "Consumer Staples");
    push_etf(&mut v, "XLI", "Industrial Select Sector", "Industrials");
    push_etf(&mut v, "XLB", "Materials Select Sector", "Materials");
    push_etf(&mut v, "XLU", "Utilities Select Sector", "Utilities");
    push_etf(&mut v, "XLRE", "Real Estate Select Sector", "Real Estate");
    push_etf(&mut v, "XLC", "Communication Services Select Sector", "Communication Services");
    proof {
        assert(v@.map_values(|e: SectorEtfInfo| etf_view(e)) =~= standard_sector_table());
    }
    v
}

/// The sector tracked by the ETF with ticker `symbol`, the first such ETF
/// when several share it.
pub fn sector_of(etfs: &Vec<SectorEtfInfo>, symbol: &str) -> (r: Option<String>)
    ensures
        match r {
            Some(sec) => exists|i: int|
                0 <= i < etfs@.len() && etfs@[i].symbol@ == symbol@ && sec@ == etfs@[i].sector@
                    && forall|j: int| 0 <= j < i ==> etfs@[j].symbol@ != symbol@,
            None => forall|i: int| 0 <= i < etfs@.len() ==> etfs@[i].symbol@ != symbol@,
        },
{
    let mut i: usize = 0;
    while i < etfs.len()
        invariant
            i <= etfs@.len(),
            forall|j: int| 0 <= j < i ==> etfs@[j].symbol@ != symbol@,
        decreases etfs@.len() - i,
    {
        if str_equal(etfs[i].symbol.as_str(), symbol) {
            return Some(etfs[i].sector.clone());
        }
        i = i + 1;
    }
    None
}

} // verus!
