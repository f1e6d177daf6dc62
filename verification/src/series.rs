//! The price series: ordered OHLCV observations for one symbol.
//!
//! Prices are held in integer cents and timestamps as Unix seconds, so the
//! series carries plain values only; whatever fetched and decoded the raw
//! data converts into this form before the core sees it.

use vstd::prelude::*;

verus! {

/// One OHLCV observation. Prices are in integer cents.
#[derive(Debug, Clone, Copy, PartialEq, Eq, Structural)]
pub struct StockData {
    pub timestamp: i64,
    pub open: u64,
    pub high: u64,
    pub low: u64,
    pub close: u64,
    pub volume: u64,
}

/// The close prices of a series, in order.
pub open spec fn closes_of(s: Seq<StockData>) -> Seq<u64> {
    s.map(|i: int, d: StockData| d.close)
}

/// A decoded candle response, one optional array per field plus the
/// upstream status marker, exactly as the data source reports them.
/// Prices are already converted to integer cents.
pub struct CandleResponse {
    pub status: String,
    pub opens: Option<Vec<u64>>,
    pub highs: Option<Vec<u64>>,
    pub lows: Option<Vec<u64>>,
    pub closes: Option<Vec<u64>>,
    pub timestamps: Option<Vec<i64>>,
    pub volumes: Option<Vec<u64>>,
}

/// Why a candle response yielded no series.
#[derive(Debug, Clone, Copy, PartialEq, Eq, Structural)]
pub enum DataError {
    /// The upstream status marker was not the success marker.
    NonSuccessStatus,
    /// A field array was missing, or the arrays disagree in length.
    IncompleteData,
}

/// All six field arrays are present and of equal length.
pub open spec fn complete(resp: CandleResponse) -> bool {
    &&& resp.opens is Some
    &&& resp.highs is Some
    &&& resp.lows is Some
    &&& resp.closes is Some
    &&& resp.timestamps is Some
    &&& resp.volumes is Some
    &&& (resp.opens->0)@.len() == (resp.timestamps->0)@.len()
    &&& (resp.highs->0)@.len() == (resp.timestamps->0)@.len()
    &&& (resp.lows->0)@.len() == (resp.timestamps->0)@.len()
    &&& (resp.closes->0)@.len() == (resp.timestamps->0)@.len()
    &&& (resp.volumes->0)@.len() == (resp.timestamps->0)@.len()
}

/// The observation at index `i` of a complete response.
pub open spec fn observation_at(resp: CandleResponse, i: int) -> StockData {
    StockData {
        timestamp: (resp.timestamps->0)@[i],
        open: (resp.opens->0)@[i],
        high: (resp.highs->0)@[i],
        low: (resp.lows->0)@[i],
        close: (resp.closes->0)@[i],
        volume: (resp.volumes->0)@[i],
    }
}

/// Validates a candle response into a price series.
///
/// A response whose status is not the success marker `"ok"`, or whose
/// field arrays are not all present with equal lengths, yields an error
/// rather than a series, so the caller can report it and carry on with an
/// empty series; one symbol's bad data never aborts a poll cycle. A valid
/// response yields one observation per index, in upstream order.
pub fn build_series(resp: &CandleResponse) -> (r: Result<Vec<StockData>, DataError>)
    ensures
        r is Err <==> !(resp.status@ == "ok"@ && complete(*resp)),
        r == Result::<Vec<StockData>, DataError>::Err(DataError::NonSuccessStatus) <==> resp.status@
            != "ok"@,
        r == Result::<Vec<StockData>, DataError>::Err(DataError::IncompleteData) <==> resp.status@
            == "ok"@ && !complete(*resp),
        r matches Ok(s) ==> {
            &&& s@.len() == (resp.timestamps->0)@.len()
            &&& forall|i: int| 0 <= i < s@.len() ==> s@[i] == observation_at(*resp, i)
        },
{
    let ok_marker: String = "ok".to_owned();
    if !(resp.status == ok_marker) {
        return Err(DataError::NonSuccessStatus);
    }
    match (&resp.opens, &resp.highs, &resp.lows, &resp.closes, &resp.timestamps, &resp.volumes) {
        (Some(o), Some(h), Some(l), Some(c), Some(t), Some(v)) => {
            if o.len() != t.len() || h.len() != t.len() || l.len() != t.len() || c.len() != t.len()
                || v.len() != t.len() {
                return Err(DataError::IncompleteData);
            }
            let mut series: Vec<StockData> = Vec::new();
            let mut i: usize = 0;
            while i < t.len()
                invariant
                    0 <= i <= t@.len(),
                    series@.len() == i,
                    resp.opens matches Some(oo) && oo == o,
                    resp.highs matches Some(hh) && hh == h,
                    resp.lows matches Some(ll) && ll == l,
                    resp.closes matches Some(cc) && cc == c,
                    resp.timestamps matches Some(tt) && tt == t,
                    resp.volumes matches Some(vv) && vv == v,
                    o@.len() == t@.len(),
                    h@.len() == t@.len(),
                    l@.len() == t@.len(),
                    c@.len() == t@.len(),
                    v@.len() == t@.len(),
                    forall|j: int| 0 <= j < i ==> series@[j] == observation_at(*resp, j),
                decreases t@.len() - i,
            {
                series.push(
                    StockData {
                        timestamp: t[i],
                        open: o[i],
                        high: h[i],
                        low: l[i],
                        close: c[i],
                        volume: v[i],
                    },
                );
                i = i + 1;
            }
            Ok(series)
        },
        _ => Err(DataError::IncompleteData),
    }
}

} // verus!
