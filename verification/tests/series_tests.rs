use stock_tracker::series::CandleResponse;
use stock_tracker::series::DataError;
use stock_tracker::series::build_series;

fn complete_response() -> CandleResponse {
    CandleResponse {
        status: "ok".to_string(),
        opens: Some(vec![100, 110]),
        highs: Some(vec![105, 115]),
        lows: Some(vec![95, 108]),
        closes: Some(vec![102, 112]),
        timestamps: Some(vec![1_700_000_000, 1_700_000_060]),
        volumes: Some(vec![500, 600]),
    }
}

#[test]
fn build_series_keeps_every_field_in_order() {
    let series = build_series(&complete_response()).expect("a complete response must parse");
    assert_eq!(series.len(), 2);
    assert_eq!(series[0].timestamp, 1_700_000_000);
    assert_eq!(series[0].open, 100);
    assert_eq!(series[0].high, 105);
    assert_eq!(series[0].low, 95);
    assert_eq!(series[0].close, 102);
    assert_eq!(series[0].volume, 500);
    assert_eq!(series[1].close, 112);
    assert_eq!(series[1].timestamp, 1_700_000_060);
}

#[test]
fn build_series_rejects_a_non_success_status() {
    let mut resp = complete_response();
    resp.status = "no_data".to_string();
    assert_eq!(build_series(&resp), Err(DataError::NonSuccessStatus));
}

#[test]
fn build_series_rejects_a_missing_field() {
    let mut resp = complete_response();
    resp.closes = None;
    assert_eq!(build_series(&resp), Err(DataError::IncompleteData));
}

#[test]
fn build_series_rejects_mismatched_lengths() {
    let mut resp = complete_response();
    resp.volumes = Some(vec![500]);
    assert_eq!(build_series(&resp), Err(DataError::IncompleteData));
}

#[test]
fn build_series_accepts_an_empty_response() {
    let resp = CandleResponse {
        status: "ok".to_string(),
        opens: Some(Vec::new()),
        highs: Some(Vec::new()),
        lows: Some(Vec::new()),
        closes: Some(Vec::new()),
        timestamps: Some(Vec::new()),
        volumes: Some(Vec::new()),
    };
    let series = build_series(&resp).expect("an empty but complete response parses");
    assert!(series.is_empty());
}
