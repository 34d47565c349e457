//! The tables that say which tag fills which field of a statement.
//!
//! A table is data: a fact is recognised by adding an entry, and the resolver
//! never names a tag.

use crate::models::financial_statements::{BalanceField, IncomeField};
use crate::text::str_equal;
use vstd::prelude::*;

verus! {

/// The field that a table gives for a name: that of the first entry with the
/// name.
pub open spec fn field_of<F>(entries: Seq<(Seq<char>, F)>, name: Seq<char>) -> Option<F>
    decreases entries.len(),
{
    if entries.len() == 0 {
        None
    } else if entries.first().0 == name {
        Some(entries.first().1)
    } else {
        field_of(entries.drop_first(), name)
    }
}

/// An association of qualified tag names with the fields of one kind of
/// statement.
pub struct MappingTable<F> {
    entries: Vec<(String, F)>,
}

impl<F> View for MappingTable<F> {
    type V = Seq<(Seq<char>, F)>;

    closed spec fn view(&self) -> Seq<(Seq<char>, F)> {
        self.entries@.map_values(|entry: (String, F)| (entry.0@, entry.1))
    }
}

impl<F: Copy> MappingTable<F> {
    /// The table without entries.
    pub fn new() -> (table: MappingTable<F>)
        ensures
            table@ == Seq::<(Seq<char>, F)>::empty(),
    {
        let table = MappingTable { entries: Vec::new() };
        assert(table@ =~= Seq::<(Seq<char>, F)>::empty());
        table
    }

    /// Adds an entry after those that the table has.
    pub fn add(&mut self, name: &str, field: F)
        ensures
            final(self)@ == old(self)@.push((name@, field)),
    {
        self.entries.push((name.to_owned(), field));
        assert(self@ =~= old(self)@.push((name@, field)));
    }

    /// The number of entries.
    pub fn len(&self) -> (n: usize)
        ensures
            n == self@.len(),
    {
        self.entries.len()
    }

    /// The field that the table gives for a name.
    pub fn lookup(&self, name: &str) -> (field: Option<F>)
        ensures
            field == field_of(self@, name@),
    {
        let mut i: usize = 0;
        assert(self@.skip(0) =~= self@);
        while i < self.entries.len()
            invariant
                i <= self.entries@.len(),
                self@.len() == self.entries@.len(),
                field_of(self@, name@) == field_of(self@.skip(i as int), name@),
            decreases self.entries@.len() - i,
        {
            proof {
                assert(self@.skip(i as int).first() == self@[i as int]);
                assert(self@.skip(i as int).drop_first() =~= self@.skip(i + 1));
            }
            if str_equal(self.entries[i].0.as_str(), name) {
                return Some(self.entries[i].1);
            }
            i += 1;
        }
        None
    }
}

/// The context of the facts of an income statement: the year to date.
pub const INCOME_CONTEXT: &'static str = "CurrentYTDDuration";

/// The context of the facts of a balance sheet: the end of the quarter.
pub const BALANCE_CONTEXT: &'static str = "CurrentQuarterInstant";

/// The tags of an income statement and the fields that they fill.
pub open spec fn income_entries() -> Seq<(Seq<char>, IncomeField)> {
    seq![
        ("jppfs_cor:NetSales"@, IncomeField::NetSales),
        ("jppfs_cor:CostOfSales"@, IncomeField::CostOfSales),
        ("jppfs_cor:GrossProfit"@, IncomeField::GrossProfit),
        ("jppfs_cor:SellingGeneralAndAdministrativeExpenses"@, IncomeField::SellingGeneralAdmin),
        ("jppfs_cor:OperatingIncome"@, IncomeField::OperatingIncome),
        ("jppfs_cor:InterestIncomeNOI"@, IncomeField::InterestIncomeNoi),
        ("jppfs_cor:DividendsIncomeNOI"@, IncomeField::DividendsIncomeNoi),
        ("jppfs_cor:InterestAndDividendsIncomeNOI"@, IncomeField::InterestAndDividendsIncomeNoi),
        ("jppfs_cor:PurchaseDiscountsNOI"@, IncomeField::PurchaseDiscountsNoi),
        ("jppfs_cor:RentIncomeNOI"@, IncomeField::RentIncomeNoi),
        ("jppfs_cor:HouseRentIncomeNOI"@, IncomeField::HouseRentIncomeNoi),
        ("jppfs_cor:OtherNOI"@, IncomeField::OtherNoi),
        ("jppfs_cor:NonOperatingIncome"@, IncomeField::NonOperatingIncome),
        ("jppfs_cor:SalesDiscountsNOE"@, IncomeField::SalesDiscountsNoe),
        ("jppfs_cor:RentCostOfRealEstateNOE"@, IncomeField::RentCostRealEstateNoe),
        ("jppfs_cor:OtherNOE"@, IncomeField::OtherNoe),
        ("jppfs_cor:NonOperatingExpenses"@, IncomeField::NonOperatingExpenses),
        ("jppfs_cor:OrdinaryIncome"@, IncomeField::OrdinaryIncome),
        (
            "jppfs_cor:GainOnSalesOfNoncurrentAssetsEI"@,
            IncomeField::GainOnSalesOfNoncurrentAssetsEi,
        ),
        ("jppfs_cor:ExtraordinaryIncome"@, IncomeField::ExtraordinaryIncome),
        ("jppfs_cor:IncomeBeforeIncomeTaxes"@, IncomeField::IncomeBeforeIncomeTaxes),
        ("jppfs_cor:IncomeTaxesCurrent"@, IncomeField::IncomeTaxesCurrent),
        ("jppfs_cor:IncomeTaxesDeferred"@, IncomeField::IncomeTaxesDeferred),
        ("jppfs_cor:IncomeTaxes"@, IncomeField::IncomeTaxes),
        ("jppfs_cor:IncomeBeforeMinorityInterests"@, IncomeField::IncomeBeforeMinorityInterests),
        ("jppfs_cor:NetIncome"@, IncomeField::NetIncome),
    ]
}

/// The tags of a balance sheet and the fields that they fill.
pub open spec fn balance_entries() -> Seq<(Seq<char>, BalanceField)> {
    seq![
        ("jppfs_cor:CashAndDeposits"@, BalanceField::CashAndDeposits),
        (
            "jppfs_cor:NotesAndAccountsReceivableTrade"@,
            BalanceField::NotesAndAccountsReceivableTrade,
        ),
        ("jppfs_cor:ShortTermInvestmentSecurities"@, BalanceField::ShortTermInvestmentSecurities),
        ("jppfs_cor:Merchandise"@, BalanceField::Merchandise),
        ("jppfs_cor:PropertyPlantAndEquipment"@, BalanceField::PropertyPlantAndEquipment),
        ("jppfs_cor:IntangibleAssets"@, BalanceField::IntangibleAssets),
        ("jppfs_cor:InvestmentsAndOtherAssets"@, BalanceField::InvestmentsAndOtherAssets),
        ("jppfs_cor:Assets"@, BalanceField::TotalAssets),
        ("jppfs_cor:CurrentLiabilities"@, BalanceField::CurrentLiabilities),
        ("jppfs_cor:NoncurrentLiabilities"@, BalanceField::NoncurrentLiabilities),
        ("jppfs_cor:Liabilities"@, BalanceField::TotalLiabilities),
        ("jppfs_cor:ShareholdersEquity"@, BalanceField::ShareholdersEquity),
        (
            "jppfs_cor:ValuationAndTranslationAdjustments"@,
            BalanceField::ValuationAndTranslationAdjustments,
        ),
        ("jppfs_cor:NetAssets"@, BalanceField::TotalEquity),
    ]
}

/// The table of an income statement.
pub fn income_mapping() -> (table: MappingTable<IncomeField>)
    ensures
        table@ == income_entries(),
{
    let mut table = MappingTable::new();
    table.add("jppfs_cor:NetSales", IncomeField::NetSales);
    table.add("jppfs_cor:CostOfSales", IncomeField::CostOfSales);
    table.add("jppfs_cor:GrossProfit", IncomeField::GrossProfit);
    table.add(
        "jppfs_cor:SellingGeneralAndAdministrativeExpenses",
        IncomeField::SellingGeneralAdmin,
    );
    table.add("jppfs_cor:OperatingIncome", IncomeField::OperatingIncome);
    table.add("jppfs_cor:InterestIncomeNOI", IncomeField::InterestIncomeNoi);
    table.add("jppfs_cor:DividendsIncomeNOI", IncomeField::DividendsIncomeNoi);
    table.add(
        "jppfs_cor:InterestAndDividendsIncomeNOI",
        IncomeField::InterestAndDividendsIncomeNoi,
    );
    table.add("jppfs_cor:PurchaseDiscountsNOI", IncomeField::PurchaseDiscountsNoi);
    table.add("jppfs_cor:RentIncomeNOI", IncomeField::RentIncomeNoi);
    table.add("jppfs_cor:HouseRentIncomeNOI", IncomeField::HouseRentIncomeNoi);
    table.add("jppfs_cor:OtherNOI", IncomeField::OtherNoi);
    table.add("jppfs_cor:NonOperatingIncome", IncomeField::NonOperatingIncome);
    table.add("jppfs_cor:SalesDiscountsNOE", IncomeField::SalesDiscountsNoe);
    table.add("jppfs_cor:RentCostOfRealEstateNOE", IncomeField::RentCostRealEstateNoe);
    table.add("jppfs_cor:OtherNOE", IncomeField::OtherNoe);
    table.add("jppfs_cor:NonOperatingExpenses", IncomeField::NonOperatingExpenses);
    table.add("jppfs_cor:OrdinaryIncome", IncomeField::OrdinaryIncome);
    table.add(
        "jppfs_cor:GainOnSalesOfNoncurrentAssetsEI",
        IncomeField::GainOnSalesOfNoncurrentAssetsEi,
    );
    table.add("jppfs_cor:ExtraordinaryIncome", IncomeField::ExtraordinaryIncome);
    table.add("jppfs_cor:IncomeBeforeIncomeTaxes", IncomeField::IncomeBeforeIncomeTaxes);
    table.add("jppfs_cor:IncomeTaxesCurrent", IncomeField::IncomeTaxesCurrent);
    table.add("jppfs_cor:IncomeTaxesDeferred", IncomeField::IncomeTaxesDeferred);
    table.add("jppfs_cor:IncomeTaxes", IncomeField::IncomeTaxes);
    table.add(
        "jppfs_cor:IncomeBeforeMinorityInterests",
        IncomeField::IncomeBeforeMinorityInterests,
    );
    table.add("jppfs_cor:NetIncome", IncomeField::NetIncome);
    assert(table@ =~= income_entries());
    table
}

/// The table of a balance sheet.
pub fn balance_mapping() -> (table: MappingTable<BalanceField>)
    ensures
        table@ == balance_entries(),
{
    let mut table = MappingTable::new();
    table.add("jppfs_cor:CashAndDeposits", BalanceField::CashAndDeposits);
    table.add(
        "jppfs_cor:NotesAndAccountsReceivableTrade",
        BalanceField::NotesAndAccountsReceivableTrade,
    );
    table.add(
        "jppfs_cor:ShortTermInvestmentSecurities",
        BalanceField::ShortTermInvestmentSecurities,
    );
    table.add("jppfs_cor:Merchandise", BalanceField::Merchandise);
    table.add("jppfs_cor:PropertyPlantAndEquipment", BalanceField::PropertyPlantAndEquipment);
    table.add("jppfs_cor:IntangibleAssets", BalanceField::IntangibleAssets);
    table.add("jppfs_cor:InvestmentsAndOtherAssets", BalanceField::InvestmentsAndOtherAssets);
    table.add("jppfs_cor:Assets", BalanceField::TotalAssets);
    table.add("jppfs_cor:CurrentLiabilities", BalanceField::CurrentLiabilities);
    table.add("jppfs_cor:NoncurrentLiabilities", BalanceField::NoncurrentLiabilities);
    table.add("jppfs_cor:Liabilities", BalanceField::TotalLiabilities);
    table.add("jppfs_cor:ShareholdersEquity", BalanceField::ShareholdersEquity);
    table.add(
        "jppfs_cor:ValuationAndTranslationAdjustments",
        BalanceField::ValuationAndTranslationAdjustments,
    );
    table.add("jppfs_cor:NetAssets", BalanceField::TotalEquity);
    assert(table@ =~= balance_entries());
    table
}

} // verus!
