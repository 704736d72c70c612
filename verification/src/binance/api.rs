//! The venue's endpoints.

use vstd::prelude::*;
use vstd::string::StringExecFns;

verus! {

/// Binance USD-Margin API
pub struct UM;

impl UM {
    pub fn rest_url(&self) -> (url: &str)
        ensures
            url@ == "https://fapi.binance.com"@,
    {
        "https://fapi.binance.com"
    }

    pub fn ws_url(&self) -> (url: &str)
        ensures
            url@ == "wss://fstream.binance.com"@,
    {
        "wss://fstream.binance.com"
    }

    /// The address that the depth snapshot of a symbol is asked from.
    pub fn depth_url(&self) -> (url: String)
        ensures
            url@ == "https://fapi.binance.com"@ + "/fapi/v1/depth"@,
    {
        String::from_str(self.rest_url()).concat("/fapi/v1/depth")
    }

    /// The query that asks for the depth snapshot of `symbol`: the symbol,
    /// and the largest number of levels that the venue hands out.
    pub fn depth_query(&self, symbol: &str) -> (query: Vec<(String, String)>)
        ensures
            query@.len() == 2,
            query@[0].0@ == "symbol"@,
            query@[0].1@ == symbol@,
            query@[1].0@ == "limit"@,
            query@[1].1@ == "1000"@,
    {
        let mut query: Vec<(String, String)> = Vec::new();
        query.push((String::from_str("symbol"), String::from_str(symbol)));
        query.push((String::from_str("limit"), String::from_str("1000")));
        query
    }
}

} // verus!
