//! The data model: one lookup request, one published rate, one response.

use vstd::prelude::*;
use crate::date::{Date, date_wf};
use crate::dec::{Dec, dec_wf};

verus! {

/// Identifies one lookup attempt: which rate table, which currency, which
/// exact calendar day.
pub struct RatesRequest {
    pub table_name: String,
    pub currency_code: String,
    pub date: Date,
}

/// One published rate: its series identifier, the day it was published for,
/// and the mid rate against the local currency.
pub struct RatesRateEntry {
    pub no: String,
    pub effective_date: Date,
    pub mid: Dec,
}

/// The upstream response for one exact-date query. The service guarantees at
/// least one rate entry; an empty list is a contract violation and is
/// rejected by the parser.
pub struct RatesResponse {
    pub table: String,
    pub currency: String,
    pub code: String,
    pub rates: Vec<RatesRateEntry>,
}

/// The mathematical content of a rate entry.
pub struct EntryModel {
    pub no: Seq<char>,
    pub effective_date: Date,
    pub mid: Dec,
}

/// The mathematical content of a response.
pub struct ResponseModel {
    pub table: Seq<char>,
    pub currency: Seq<char>,
    pub code: Seq<char>,
    pub rates: Seq<EntryModel>,
}

impl View for RatesRateEntry {
    type V = EntryModel;

    open spec fn view(&self) -> EntryModel {
        EntryModel { no: self.no@, effective_date: self.effective_date, mid: self.mid }
    }
}

/// The mathematical content of a list of rate entries.
pub open spec fn entry_views(rs: Seq<RatesRateEntry>) -> Seq<EntryModel> {
    rs.map_values(|x: RatesRateEntry| x@)
}

impl View for RatesResponse {
    type V = ResponseModel;

    open spec fn view(&self) -> ResponseModel {
        ResponseModel {
            table: self.table@,
            currency: self.currency@,
            code: self.code@,
            rates: entry_views(self.rates@),
        }
    }
}

pub open spec fn entry_wf(e: EntryModel) -> bool {
    date_wf(e.effective_date) && dec_wf(e.mid)
}

pub open spec fn entries_wf(rs: Seq<EntryModel>) -> bool {
    forall|i: int| 0 <= i < rs.len() ==> entry_wf(#[trigger] rs[i])
}

/// A response is well formed when every entry is and the rate list is
/// non-empty, as the upstream contract promises.
pub open spec fn response_wf(r: ResponseModel) -> bool {
    &&& r.rates.len() >= 1
    &&& entries_wf(r.rates)
}

impl RatesRequest {
    pub fn new(table_name: String, currency_code: String, date: Date) -> (r: RatesRequest)
        ensures
            r.table_name@ == table_name@,
            r.currency_code@ == currency_code@,
            r.date == date,
    {
        RatesRequest { table_name, currency_code, date }
    }
}

impl RatesRateEntry {
    /// A copy of this entry.
    pub fn duplicate(&self) -> (r: RatesRateEntry)
        ensures
            r@ == self@,
    {
        RatesRateEntry {
            no: self.no.clone(),
            effective_date: self.effective_date,
            mid: self.mid,
        }
    }
}

impl RatesResponse {
    /// The first (and for an exact-date query, the only) rate entry.
    pub fn first(&self) -> (r: &RatesRateEntry)
        requires
            self@.rates.len() >= 1,
        ensures
            r@ == self@.rates[0],
    {
        &self.rates[0]
    }
}

} // verus!
