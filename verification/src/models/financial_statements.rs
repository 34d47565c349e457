//! The statement records that facts are resolved into.
//!
//! A field of a record holds the text of the number that was reported for
//! it, exactly as the filing writes it, or nothing where the filing reports
//! none. The resolver fills a field only with a decimal floating-point
//! literal.

use crate::models::xbrl::text_of;
use vstd::prelude::*;

verus! {

/// A statement record: a set of fields, each of which holds the text of a
/// number or nothing.
pub trait StatementRecord: Sized {
    /// The names of the fields.
    type Field: Copy;

    /// What the record holds for a field.
    spec fn held(&self, field: Self::Field) -> Option<Seq<char>>;

    /// The record in which every field is absent.
    fn blank() -> (record: Self)
        ensures
            forall|field: Self::Field| (#[trigger] record.held(field)) is None,
    ;

    /// Puts `value` into one field and leaves the others as they are.
    fn fill(&mut self, field: Self::Field, value: String)
        ensures
            final(self).held(field) == Some(value@),
            forall|other: Self::Field|
                other != field ==> final(self).held(other) == old(self).held(other),
    ;
}

/// The fields of an income statement.
#[derive(Clone, Copy, Debug, PartialEq, Eq, Structural)]
pub enum IncomeField {
    NetSales,
    CostOfSales,
    GrossProfit,
    SellingGeneralAdmin,
    OperatingIncome,
    InterestIncomeNoi,
    DividendsIncomeNoi,
    InterestAndDividendsIncomeNoi,
    PurchaseDiscountsNoi,
    RentIncomeNoi,
    HouseRentIncomeNoi,
    OtherNoi,
    NonOperatingIncome,
    SalesDiscountsNoe,
    RentCostRealEstateNoe,
    OtherNoe,
    NonOperatingExpenses,
    OrdinaryIncome,
    GainOnSalesOfNoncurrentAssetsEi,
    ExtraordinaryIncome,
    IncomeBeforeIncomeTaxes,
    IncomeTaxesCurrent,
    IncomeTaxesDeferred,
    IncomeTaxes,
    IncomeBeforeMinorityInterests,
    NetIncome,
}

/// The facts of an income statement over the year to date.
#[derive(Debug, PartialEq, Eq)]
pub struct IncomeStatement {
    pub net_sales: Option<String>,
    pub cost_of_sales: Option<String>,
    pub gross_profit: Option<String>,
    pub selling_general_admin: Option<String>,
    pub operating_income: Option<String>,
    pub interest_income_noi: Option<String>,
    pub dividends_income_noi: Option<String>,
    pub interest_and_dividends_income_noi: Option<String>,
    pub purchase_discounts_noi: Option<String>,
    pub rent_income_noi: Option<String>,
    pub house_rent_income_noi: Option<String>,
    pub other_noi: Option<String>,
    pub non_operating_income: Option<String>,
    pub sales_discounts_noe: Option<String>,
    pub rent_cost_real_estate_noe: Option<String>,
    pub other_noe: Option<String>,
    pub non_operating_expenses: Option<String>,
    pub ordinary_income: Option<String>,
    pub gain_on_sales_of_noncurrent_assets_ei: Option<String>,
    pub extraordinary_income: Option<String>,
    pub income_before_income_taxes: Option<String>,
    pub income_taxes_current: Option<String>,
    pub income_taxes_deferred: Option<String>,
    pub income_taxes: Option<String>,
    pub income_before_minority_interests: Option<String>,
    pub net_income: Option<String>,
}

impl IncomeStatement {
    /// What the record holds for a field.
    pub open spec fn field(&self, field: IncomeField) -> Option<Seq<char>> {
        match field {
            IncomeField::NetSales => text_of(self.net_sales),
            IncomeField::CostOfSales => text_of(self.cost_of_sales),
            IncomeField::GrossProfit => text_of(self.gross_profit),
            IncomeField::SellingGeneralAdmin => text_of(self.selling_general_admin),
            IncomeField::OperatingIncome => text_of(self.operating_income),
            IncomeField::InterestIncomeNoi => text_of(self.interest_income_noi),
            IncomeField::DividendsIncomeNoi => text_of(self.dividends_income_noi),
            IncomeField::InterestAndDividendsIncomeNoi => {
                text_of(self.interest_and_dividends_income_noi)
            },
            IncomeField::PurchaseDiscountsNoi => text_of(self.purchase_discounts_noi),
            IncomeField::RentIncomeNoi => text_of(self.rent_income_noi),
            IncomeField::HouseRentIncomeNoi => text_of(self.house_rent_income_noi),
            IncomeField::OtherNoi => text_of(self.other_noi),
            IncomeField::NonOperatingIncome => text_of(self.non_operating_income),
            IncomeField::SalesDiscountsNoe => text_of(self.sales_discounts_noe),
            IncomeField::RentCostRealEstateNoe => text_of(self.rent_cost_real_estate_noe),
            IncomeField::OtherNoe => text_of(self.other_noe),
            IncomeField::NonOperatingExpenses => text_of(self.non_operating_expenses),
            IncomeField::OrdinaryIncome => text_of(self.ordinary_income),
            IncomeField::GainOnSalesOfNoncurrentAssetsEi => {
                text_of(self.gain_on_sales_of_noncurrent_assets_ei)
            },
            IncomeField::ExtraordinaryIncome => text_of(self.extraordinary_income),
            IncomeField::IncomeBeforeIncomeTaxes => text_of(self.income_before_income_taxes),
            IncomeField::IncomeTaxesCurrent => text_of(self.income_taxes_current),
            IncomeField::IncomeTaxesDeferred => text_of(self.income_taxes_deferred),
            IncomeField::IncomeTaxes => text_of(self.income_taxes),
            IncomeField::IncomeBeforeMinorityInterests => {
                text_of(self.income_before_minority_interests)
            },
            IncomeField::NetIncome => text_of(self.net_income),
        }
    }

    /// No field holds anything.
    pub open spec fn all_absent(&self) -> bool {
        forall|field: IncomeField| self.field(field) is None
    }

    /// The record in which every field is absent.
    pub fn new() -> (statement: IncomeStatement)
        ensures
            statement.all_absent(),
    {
        IncomeStatement {
            net_sales: None,
            cost_of_sales: None,
            gross_profit: None,
            selling_general_admin: None,
            operating_income: None,
            interest_income_noi: None,
            dividends_income_noi: None,
            interest_and_dividends_income_noi: None,
            purchase_discounts_noi: None,
            rent_income_noi: None,
            house_rent_income_noi: None,
            other_noi: None,
            non_operating_income: None,
            sales_discounts_noe: None,
            rent_cost_real_estate_noe: None,
            other_noe: None,
            non_operating_expenses: None,
            ordinary_income: None,
            gain_on_sales_of_noncurrent_assets_ei: None,
            extraordinary_income: None,
            income_before_income_taxes: None,
            income_taxes_current: None,
            income_taxes_deferred: None,
            income_taxes: None,
            income_before_minority_interests: None,
            net_income: None,
        }
    }

    /// Puts `value` into one field and leaves the others as they are.
    pub fn set(&mut self, field: IncomeField, value: String)
        ensures
            final(self).field(field) == Some(value@),
            forall|other: IncomeField|
                other != field ==> final(self).field(other) == old(self).field(other),
    {
        match field {
            IncomeField::NetSales => self.net_sales = Some(value),
            IncomeField::CostOfSales => self.cost_of_sales = Some(value),
            IncomeField::GrossProfit => self.gross_profit = Some(value),
            IncomeField::SellingGeneralAdmin => self.selling_general_admin = Some(value),
            IncomeField::OperatingIncome => self.operating_income = Some(value),
            IncomeField::InterestIncomeNoi => self.interest_income_noi = Some(value),
            IncomeField::DividendsIncomeNoi => self.dividends_income_noi = Some(value),
            IncomeField::InterestAndDividendsIncomeNoi => {
                self.interest_and_dividends_income_noi = Some(value)
            },
            IncomeField::PurchaseDiscountsNoi => self.purchase_discounts_noi = Some(value),
            IncomeField::RentIncomeNoi => self.rent_income_noi = Some(value),
            IncomeField::HouseRentIncomeNoi => self.house_rent_income_noi = Some(value),
            IncomeField::OtherNoi => self.other_noi = Some(value),
            IncomeField::NonOperatingIncome => self.non_operating_income = Some(value),
            IncomeField::SalesDiscountsNoe => self.sales_discounts_noe = Some(value),
            IncomeField::RentCostRealEstateNoe => self.rent_cost_real_estate_noe = Some(value),
            IncomeField::OtherNoe => self.other_noe = Some(value),
            IncomeField::NonOperatingExpenses => self.non_operating_expenses = Some(value),
            IncomeField::OrdinaryIncome => self.ordinary_income = Some(value),
            IncomeField::GainOnSalesOfNoncurrentAssetsEi => {
                self.gain_on_sales_of_noncurrent_assets_ei = Some(value)
            },
            IncomeField::ExtraordinaryIncome => self.extraordinary_income = Some(value),
            IncomeField::IncomeBeforeIncomeTaxes => self.income_before_income_taxes = Some(value),
            IncomeField::IncomeTaxesCurrent => self.income_taxes_current = Some(value),
            IncomeField::IncomeTaxesDeferred => self.income_taxes_deferred = Some(value),
            IncomeField::IncomeTaxes => self.income_taxes = Some(value),
            IncomeField::IncomeBeforeMinorityInterests => {
                self.income_before_minority_interests = Some(value)
            },
            IncomeField::NetIncome => self.net_income = Some(value),
        }
    }

    /// What the record holds for a field.
    pub fn get(&self, field: IncomeField) -> (value: Option<&String>)
        ensures
            match value {
                Some(text) => self.field(field) == Some(text@),
                None => self.field(field) is None,
            },
    {
        match field {
            IncomeField::NetSales => self.net_sales.as_ref(),
            IncomeField::CostOfSales => self.cost_of_sales.as_ref(),
            IncomeField::GrossProfit => self.gross_profit.as_ref(),
            IncomeField::SellingGeneralAdmin => self.selling_general_admin.as_ref(),
            IncomeField::OperatingIncome => self.operating_income.as_ref(),
            IncomeField::InterestIncomeNoi => self.interest_income_noi.as_ref(),
            IncomeField::DividendsIncomeNoi => self.dividends_income_noi.as_ref(),
            IncomeField::InterestAndDividendsIncomeNoi => {
                self.interest_and_dividends_income_noi.as_ref()
            },
            IncomeField::PurchaseDiscountsNoi => self.purchase_discounts_noi.as_ref(),
            IncomeField::RentIncomeNoi => self.rent_income_noi.as_ref(),
            IncomeField::HouseRentIncomeNoi => self.house_rent_income_noi.as_ref(),
            IncomeField::OtherNoi => self.other_noi.as_ref(),
            IncomeField::NonOperatingIncome => self.non_operating_income.as_ref(),
            IncomeField::SalesDiscountsNoe => self.sales_discounts_noe.as_ref(),
            IncomeField::RentCostRealEstateNoe => self.rent_cost_real_estate_noe.as_ref(),
            IncomeField::OtherNoe => self.other_noe.as_ref(),
            IncomeField::NonOperatingExpenses => self.non_operating_expenses.as_ref(),
            IncomeField::OrdinaryIncome => self.ordinary_income.as_ref(),
            IncomeField::GainOnSalesOfNoncurrentAssetsEi => {
                self.gain_on_sales_of_noncurrent_assets_ei.as_ref()
            },
            IncomeField::ExtraordinaryIncome => self.extraordinary_income.as_ref(),
            IncomeField::IncomeBeforeIncomeTaxes => self.income_before_income_taxes.as_ref(),
            IncomeField::IncomeTaxesCurrent => self.income_taxes_current.as_ref(),
            IncomeField::IncomeTaxesDeferred => self.income_taxes_deferred.as_ref(),
            IncomeField::IncomeTaxes => self.income_taxes.as_ref(),
            IncomeField::IncomeBeforeMinorityInterests => {
                self.income_before_minority_interests.as_ref()
            },
            IncomeField::NetIncome => self.net_income.as_ref(),
        }
    }

    /// Whether no field holds anything.
    pub fn is_empty(&self) -> (empty: bool)
        ensures
            empty == self.all_absent(),
    {
        let empty = self.net_sales.is_none()
            && self.cost_of_sales.is_none()
            && self.gross_profit.is_none()
            && self.selling_general_admin.is_none()
            && self.operating_income.is_none()
            && self.interest_income_noi.is_none()
            && self.dividends_income_noi.is_none()
            && self.interest_and_dividends_income_noi.is_none()
            && self.purchase_discounts_noi.is_none()
            && self.rent_income_noi.is_none()
            && self.house_rent_income_noi.is_none()
            && self.other_noi.is_none()
            && self.non_operating_income.is_none()
            && self.sales_discounts_noe.is_none()
            && self.rent_cost_real_estate_noe.is_none()
            && self.other_noe.is_none()
            && self.non_operating_expenses.is_none()
            && self.ordinary_income.is_none()
            && self.gain_on_sales_of_noncurrent_assets_ei.is_none()
            && self.extraordinary_income.is_none()
            && self.income_before_income_taxes.is_none()
            && self.income_taxes_current.is_none()
            && self.income_taxes_deferred.is_none()
            && self.income_taxes.is_none()
            && self.income_before_minority_interests.is_none()
            && self.net_income.is_none();
        proof {
            if !empty {
                if self.net_sales.is_some() {
                    assert(self.field(IncomeField::NetSales) is Some);
                }
                if self.cost_of_sales.is_some() {
                    assert(self.field(IncomeField::CostOfSales) is Some);
                }
                if self.gross_profit.is_some() {
                    assert(self.field(IncomeField::GrossProfit) is Some);
                }
                if self.selling_general_admin.is_some() {
                    assert(self.field(IncomeField::SellingGeneralAdmin) is Some);
                }
                if self.operating_income.is_some() {
                    assert(self.field(IncomeField::OperatingIncome) is Some);
                }
                if self.interest_income_noi.is_some() {
                    assert(self.field(IncomeField::InterestIncomeNoi) is Some);
                }
                if self.dividends_income_noi.is_some() {
                    assert(self.field(IncomeField::DividendsIncomeNoi) is Some);
                }
                if self.interest_and_dividends_income_noi.is_some() {
                    assert(self.field(IncomeField::InterestAndDividendsIncomeNoi) is Some);
                }
                if self.purchase_discounts_noi.is_some() {
                    assert(self.field(IncomeField::PurchaseDiscountsNoi) is Some);
                }
                if self.rent_income_noi.is_some() {
                    assert(self.field(IncomeField::RentIncomeNoi) is Some);
                }
                if self.house_rent_income_noi.is_some() {
                    assert(self.field(IncomeField::HouseRentIncomeNoi) is Some);
                }
                if self.other_noi.is_some() {
                    assert(self.field(IncomeField::OtherNoi) is Some);
                }
                if self.non_operating_income.is_some() {
                    assert(self.field(IncomeField::NonOperatingIncome) is Some);
                }
                if self.sales_discounts_noe.is_some() {
                    assert(self.field(IncomeField::SalesDiscountsNoe) is Some);
                }
                if self.rent_cost_real_estate_noe.is_some() {
                    assert(self.field(IncomeField::RentCostRealEstateNoe) is Some);
                }
                if self.other_noe.is_some() {
                    assert(self.field(IncomeField::OtherNoe) is Some);
                }
                if self.non_operating_expenses.is_some() {
                    assert(self.field(IncomeField::NonOperatingExpenses) is Some);
                }
                if self.ordinary_income.is_some() {
                    assert(self.field(IncomeField::OrdinaryIncome) is Some);
                }
                if self.gain_on_sales_of_noncurrent_assets_ei.is_some() {
                    assert(self.field(IncomeField::GainOnSalesOfNoncurrentAssetsEi) is Some);
                }
                if self.extraordinary_income.is_some() {
                    assert(self.field(IncomeField::ExtraordinaryIncome) is Some);
                }
                if self.income_before_income_taxes.is_some() {
                    assert(self.field(IncomeField::IncomeBeforeIncomeTaxes) is Some);
                }
                if self.income_taxes_current.is_some() {
                    assert(self.field(IncomeField::IncomeTaxesCurrent) is Some);
                }
                if self.income_taxes_deferred.is_some() {
                    assert(self.field(IncomeField::IncomeTaxesDeferred) is Some);
                }
                if self.income_taxes.is_some() {
                    assert(self.field(IncomeField::IncomeTaxes) is Some);
                }
                if self.income_before_minority_interests.is_some() {
                    assert(self.field(IncomeField::IncomeBeforeMinorityInterests) is Some);
                }
                if self.net_income.is_some() {
                    assert(self.field(IncomeField::NetIncome) is Some);
                }
            }
        }
        empty
    }
}

impl StatementRecord for IncomeStatement {
    type Field = IncomeField;

    open spec fn held(&self, field: IncomeField) -> Option<Seq<char>> {
        self.field(field)
    }

    fn blank() -> (record: IncomeStatement) {
        IncomeStatement::new()
    }

    fn fill(&mut self, field: IncomeField, value: String) {
        self.set(field, value)
    }
}

impl Default for IncomeStatement {
    fn default() -> (statement: IncomeStatement)
        ensures
            statement.all_absent(),
    {
        IncomeStatement::new()
    }
}

/// The fields of a balance sheet.
#[derive(Clone, Copy, Debug, PartialEq, Eq, Structural)]
pub enum BalanceField {
    CashAndDeposits,
    NotesAndAccountsReceivableTrade,
    ShortTermInvestmentSecurities,
    Merchandise,
    PropertyPlantAndEquipment,
    IntangibleAssets,
    InvestmentsAndOtherAssets,
    TotalAssets,
    CurrentLiabilities,
    NoncurrentLiabilities,
    TotalLiabilities,
    ShareholdersEquity,
    ValuationAndTranslationAdjustments,
    TotalEquity,
}

/// What the filer owns.
#[derive(Debug, PartialEq, Eq)]
pub struct Assets {
    pub cash_and_deposits: Option<String>,
    pub notes_and_accounts_receivable_trade: Option<String>,
    pub short_term_investment_securities: Option<String>,
    pub merchandise: Option<String>,
    pub property_plant_and_equipment: Option<String>,
    pub intangible_assets: Option<String>,
    pub investments_and_other_assets: Option<String>,
    pub total_assets: Option<String>,
}

impl Assets {
    /// The group in which every field is absent.
    pub fn new() -> (group: Assets)
        ensures
            group.cash_and_deposits is None,
            group.notes_and_accounts_receivable_trade is None,
            group.short_term_investment_securities is None,
            group.merchandise is None,
            group.property_plant_and_equipment is None,
            group.intangible_assets is None,
            group.investments_and_other_assets is None,
            group.total_assets is None,
    {
        Assets {
            cash_and_deposits: None,
            notes_and_accounts_receivable_trade: None,
            short_term_investment_securities: None,
            merchandise: None,
            property_plant_and_equipment: None,
            intangible_assets: None,
            investments_and_other_assets: None,
            total_assets: None,
        }
    }
}

impl Default for Assets {
    fn default() -> (group: Assets)
        ensures
            group.cash_and_deposits is None,
            group.notes_and_accounts_receivable_trade is None,
            group.short_term_investment_securities is None,
            group.merchandise is None,
            group.property_plant_and_equipment is None,
            group.intangible_assets is None,
            group.investments_and_other_assets is None,
            group.total_assets is None,
    {
        Assets::new()
    }
}

/// What the filer owes.
#[derive(Debug, PartialEq, Eq)]
pub struct Liabilities {
    pub current_liabilities: Option<String>,
    pub noncurrent_liabilities: Option<String>,
    pub total_liabilities: Option<String>,
}

impl Liabilities {
    /// The group in which every field is absent.
    pub fn new() -> (group: Liabilities)
        ensures
            group.current_liabilities is None,
            group.noncurrent_liabilities is None,
            group.total_liabilities is None,
    {
        Liabilities {
            current_liabilities: None,
            noncurrent_liabilities: None,
            total_liabilities: None,
        }
    }
}

impl Default for Liabilities {
    fn default() -> (group: Liabilities)
        ensures
            group.current_liabilities is None,
            group.noncurrent_liabilities is None,
            group.total_liabilities is None,
    {
        Liabilities::new()
    }
}

/// What is left to the owners.
#[derive(Debug, PartialEq, Eq)]
pub struct Equity {
    pub shareholders_equity: Option<String>,
    pub valuation_and_translation_adjustments: Option<String>,
    pub total_equity: Option<String>,
}

impl Equity {
    /// The group in which every field is absent.
    pub fn new() -> (group: Equity)
        ensures
            group.shareholders_equity is None,
            group.valuation_and_translation_adjustments is None,
            group.total_equity is None,
    {
        Equity {
            shareholders_equity: None,
            valuation_and_translation_adjustments: None,
            total_equity: None,
        }
    }
}

impl Default for Equity {
    fn default() -> (group: Equity)
        ensures
            group.shareholders_equity is None,
            group.valuation_and_translation_adjustments is None,
            group.total_equity is None,
    {
        Equity::new()
    }
}

/// The facts of a balance sheet at the end of the quarter.
#[derive(Debug, PartialEq, Eq)]
pub struct BalanceSheet {
    pub assets: Assets,
    pub liabilities: Liabilities,
    pub equity: Equity,
}

impl BalanceSheet {
    /// What the record holds for a field.
    pub open spec fn field(&self, field: BalanceField) -> Option<Seq<char>> {
        match field {
            BalanceField::CashAndDeposits => text_of(self.assets.cash_and_deposits),
            BalanceField::NotesAndAccountsReceivableTrade => {
                text_of(self.assets.notes_and_accounts_receivable_trade)
            },
            BalanceField::ShortTermInvestmentSecurities => {
                text_of(self.assets.short_term_investment_securities)
            },
            BalanceField::Merchandise => text_of(self.assets.merchandise),
            BalanceField::PropertyPlantAndEquipment => {
                text_of(self.assets.property_plant_and_equipment)
            },
            BalanceField::IntangibleAssets => text_of(self.assets.intangible_assets),
            BalanceField::InvestmentsAndOtherAssets => {
                text_of(self.assets.investments_and_other_assets)
            },
            BalanceField::TotalAssets => text_of(self.assets.total_assets),
            BalanceField::CurrentLiabilities => text_of(self.liabilities.current_liabilities),
            BalanceField::NoncurrentLiabilities => text_of(self.liabilities.noncurrent_liabilities),
            BalanceField::TotalLiabilities => text_of(self.liabilities.total_liabilities),
            BalanceField::ShareholdersEquity => text_of(self.equity.shareholders_equity),
            BalanceField::ValuationAndTranslationAdjustments => {
                text_of(self.equity.valuation_and_translation_adjustments)
            },
            BalanceField::TotalEquity => text_of(self.equity.total_equity),
        }
    }

    /// No field holds anything.
    pub open spec fn all_absent(&self) -> bool {
        forall|field: BalanceField| self.field(field) is None
    }

    /// The record in which every field is absent.
    pub fn new() -> (sheet: BalanceSheet)
        ensures
            sheet.all_absent(),
    {
        BalanceSheet {
            assets: Assets::new(),
            liabilities: Liabilities::new(),
            equity: Equity::new(),
        }
    }

    /// Puts `value` into one field and leaves the others as they are.
    pub fn set(&mut self, field: BalanceField, value: String)
        ensures
            final(self).field(field) == Some(value@),
            forall|other: BalanceField|
                other != field ==> final(self).field(other) == old(self).field(other),
    {
        match field {
            BalanceField::CashAndDeposits => self.assets.cash_and_deposits = Some(value),
            BalanceField::NotesAndAccountsReceivableTrade => {
                self.assets.notes_and_accounts_receivable_trade = Some(value)
            },
            BalanceField::ShortTermInvestmentSecurities => {
                self.assets.short_term_investment_securities = Some(value)
            },
            BalanceField::Merchandise => self.assets.merchandise = Some(value),
            BalanceField::PropertyPlantAndEquipment => {
                self.assets.property_plant_and_equipment = Some(value)
            },
            BalanceField::IntangibleAssets => self.assets.intangible_assets = Some(value),
            BalanceField::InvestmentsAndOtherAssets => {
                self.assets.investments_and_other_assets = Some(value)
            },
            BalanceField::TotalAssets => self.assets.total_assets = Some(value),
            BalanceField::CurrentLiabilities => self.liabilities.current_liabilities = Some(value),
            BalanceField::NoncurrentLiabilities => {
                self.liabilities.noncurrent_liabilities = Some(value)
            },
            BalanceField::TotalLiabilities => self.liabilities.total_liabilities = Some(value),
            BalanceField::ShareholdersEquity => self.equity.shareholders_equity = Some(value),
            BalanceField::ValuationAndTranslationAdjustments => {
                self.equity.valuation_and_translation_adjustments = Some(value)
            },
            BalanceField::TotalEquity => self.equity.total_equity = Some(value),
        }
    }

    /// What the record holds for a field.
    pub fn get(&self, field: BalanceField) -> (value: Option<&String>)
        ensures
            match value {
                Some(text) => self.field(field) == Some(text@),
                None => self.field(field) is None,
            },
    {
        match field {
            BalanceField::CashAndDeposits => self.assets.cash_and_deposits.as_ref(),
            BalanceField::NotesAndAccountsReceivableTrade => {
                self.assets.notes_and_accounts_receivable_trade.as_ref()
            },
            BalanceField::ShortTermInvestmentSecurities => {
                self.assets.short_term_investment_securities.as_ref()
            },
            BalanceField::Merchandise => self.assets.merchandise.as_ref(),
            BalanceField::PropertyPlantAndEquipment => {
                self.assets.property_plant_and_equipment.as_ref()
            },
            BalanceField::IntangibleAssets => self.assets.intangible_assets.as_ref(),
            BalanceField::InvestmentsAndOtherAssets => {
                self.assets.investments_and_other_assets.as_ref()
            },
            BalanceField::TotalAssets => self.assets.total_assets.as_ref(),
            BalanceField::CurrentLiabilities => self.liabilities.current_liabilities.as_ref(),
            BalanceField::NoncurrentLiabilities => self.liabilities.noncurrent_liabilities.as_ref(),
            BalanceField::TotalLiabilities => self.liabilities.total_liabilities.as_ref(),
            BalanceField::ShareholdersEquity => self.equity.shareholders_equity.as_ref(),
            BalanceField::ValuationAndTranslationAdjustments => {
                self.equity.valuation_and_translation_adjustments.as_ref()
            },
            BalanceField::TotalEquity => self.equity.total_equity.as_ref(),
        }
    }

    /// Whether no field holds anything.
    pub fn is_empty(&self) -> (empty: bool)
        ensures
            empty == self.all_absent(),
    {
        let empty = self.assets.cash_and_deposits.is_none()
            && self.assets.notes_and_accounts_receivable_trade.is_none()
            && self.assets.short_term_investment_securities.is_none()
            && self.assets.merchandise.is_none()
            && self.assets.property_plant_and_equipment.is_none()
            && self.assets.intangible_assets.is_none()
            && self.assets.investments_and_other_assets.is_none()
            && self.assets.total_assets.is_none()
            && self.liabilities.current_liabilities.is_none()
            && self.liabilities.noncurrent_liabilities.is_none()
            && self.liabilities.total_liabilities.is_none()
            && self.equity.shareholders_equity.is_none()
            && self.equity.valuation_and_translation_adjustments.is_none()
            && self.equity.total_equity.is_none();
        proof {
            if !empty {
                if self.assets.cash_and_deposits.is_some() {
                    assert(self.field(BalanceField::CashAndDeposits) is Some);
                }
                if self.assets.notes_and_accounts_receivable_trade.is_some() {
                    assert(self.field(BalanceField::NotesAndAccountsReceivableTrade) is Some);
                }
                if self.assets.short_term_investment_securities.is_some() {
                    assert(self.field(BalanceField::ShortTermInvestmentSecurities) is Some);
                }
                if self.assets.merchandise.is_some() {
                    assert(self.field(BalanceField::Merchandise) is Some);
                }
                if self.assets.property_plant_and_equipment.is_some() {
                    assert(self.field(BalanceField::PropertyPlantAndEquipment) is Some);
                }
                if self.assets.intangible_assets.is_some() {
                    assert(self.field(BalanceField::IntangibleAssets) is Some);
                }
                if self.assets.investments_and_other_assets.is_some() {
                    assert(self.field(BalanceField::InvestmentsAndOtherAssets) is Some);
                }
                if self.assets.total_assets.is_some() {
                    assert(self.field(BalanceField::TotalAssets) is Some);
                }
                if self.liabilities.current_liabilities.is_some() {
                    assert(self.field(BalanceField::CurrentLiabilities) is Some);
                }
                if self.liabilities.noncurrent_liabilities.is_some() {
                    assert(self.field(BalanceField::NoncurrentLiabilities) is Some);
                }
                if self.liabilities.total_liabilities.is_some() {
                    assert(self.field(BalanceField::TotalLiabilities) is Some);
                }
                if self.equity.shareholders_equity.is_some() {
                    assert(self.field(BalanceField::ShareholdersEquity) is Some);
                }
                if self.equity.valuation_and_translation_adjustments.is_some() {
                    assert(self.field(BalanceField::ValuationAndTranslationAdjustments) is Some);
                }
                if self.equity.total_equity.is_some() {
                    assert(self.field(BalanceField::TotalEquity) is Some);
                }
            }
        }
        empty
    }
}

impl StatementRecord for BalanceSheet {
    type Field = BalanceField;

    open spec fn held(&self, field: BalanceField) -> Option<Seq<char>> {
        self.field(field)
    }

    fn blank() -> (record: BalanceSheet) {
        BalanceSheet::new()
    }

    fn fill(&mut self, field: BalanceField, value: String) {
        self.set(field, value)
    }
}

impl Default for BalanceSheet {
    fn default() -> (sheet: BalanceSheet)
        ensures
            sheet.all_absent(),
    {
        BalanceSheet::new()
    }
}

} // verus!
