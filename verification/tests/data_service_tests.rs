use state_store::data_service::{
    build_protobuf_encoded_transaction_wrappers, data_fetch_from_cache,
    data_fetch_from_file_store, get_request_metadata, next_step, raw_datastream_response_builder,
    request_metadata, starting_version_of, stream_status_response, CacheBatchGetStatus,
    CacheFetchStep, DatastreamProtoResponse, RawDatastreamResponse, RequestMetadata,
    RequestRejected, StreamAction, StreamEvent, StreamStatus, TransactionOutput,
    TransactionsDataStatus, AHEAD_OF_CACHE_RETRY_SLEEP_DURATION_MS, MAX_RESPONSE_CHANNEL_SIZE,
    MOVING_AVERAGE_WINDOW_SIZE, RESPONSE_CHANNEL_FULL_BACKOFF_DURATION_MS,
    TRANSIENT_DATA_ERROR_RETRY_SLEEP_DURATION_MS,
};

fn text(s: &str) -> Option<String> {
    Some(s.to_string())
}

fn batch() -> Vec<(String, u64)> {
    vec![("t7".to_string(), 7), ("t8".to_string(), 8), ("t9".to_string(), 9)]
}

fn outputs() -> Vec<TransactionOutput> {
    vec![
        TransactionOutput { encoded_proto_data: "t7".to_string(), version: 7 },
        TransactionOutput { encoded_proto_data: "t8".to_string(), version: 8 },
        TransactionOutput { encoded_proto_data: "t9".to_string(), version: 9 },
    ]
}

#[test]
fn a_request_needs_a_token_and_an_address() {
    assert_eq!(
        get_request_metadata(None, text("10.0.0.1:80"), text("name")),
        Err(RequestRejected::InvalidRequestToken)
    );
    assert_eq!(
        get_request_metadata(text("token"), None, text("name")),
        Err(RequestRejected::InvalidRemoteAddress)
    );
    assert_eq!(get_request_metadata(None, None, None), Err(RequestRejected::InvalidRequestToken));
}

#[test]
fn a_request_gets_a_fresh_identifier() {
    let first = get_request_metadata(text("token"), text("10.0.0.1:80"), text("name")).unwrap();
    let second = get_request_metadata(text("token"), text("10.0.0.1:80"), None).unwrap();
    assert_eq!(first.request_id.len(), 36);
    assert_eq!(second.request_id.len(), 36);
    assert_ne!(first.request_id, second.request_id);
    assert_eq!(first.request_token, "token");
    assert_eq!(first.request_remote_addr, "10.0.0.1:80");
    assert_eq!(first.request_name, "name");
    assert_eq!(second.request_name, "unknown");
    assert_eq!(first.request_source, "testing_v1");
}

#[test]
fn the_metadata_of_a_request_with_a_given_identifier() {
    assert_eq!(
        request_metadata("id-1".to_string(), text("token"), text("addr"), None),
        Ok(RequestMetadata {
            request_id: "id-1".to_string(),
            request_remote_addr: "addr".to_string(),
            request_token: "token".to_string(),
            request_name: "unknown".to_string(),
            request_source: "testing_v1".to_string(),
        })
    );
}

#[test]
fn a_stream_needs_a_starting_version() {
    assert_eq!(starting_version_of(Some(0)), Ok(0));
    assert_eq!(starting_version_of(None), Err(RequestRejected::StartingVersionNotSet));
    assert_eq!(
        stream_status_response(4, 17),
        RawDatastreamResponse {
            chain_id: 4,
            response: DatastreamProtoResponse::Status(StreamStatus {
                status_type: 1,
                start_version: 17,
            }),
        }
    );
}

#[test]
fn transactions_get_their_versions_in_order() {
    assert_eq!(
        build_protobuf_encoded_transaction_wrappers(
            vec!["t7".to_string(), "t8".to_string(), "t9".to_string()],
            7
        ),
        batch()
    );
    assert_eq!(build_protobuf_encoded_transaction_wrappers(vec![], 7), vec![]);
    assert_eq!(
        build_protobuf_encoded_transaction_wrappers(vec!["last".to_string()], u64::MAX - 1),
        vec![("last".to_string(), u64::MAX - 1)]
    );
}

#[test]
fn a_response_streams_a_batch() {
    assert_eq!(
        raw_datastream_response_builder(batch(), 2),
        RawDatastreamResponse { chain_id: 2, response: DatastreamProtoResponse::Data(outputs()) }
    );
    assert_eq!(
        raw_datastream_response_builder(vec![], 2),
        RawDatastreamResponse { chain_id: 2, response: DatastreamProtoResponse::Data(vec![]) }
    );
}

#[test]
fn the_answer_of_the_cache_decides_the_fetch() {
    assert_eq!(
        data_fetch_from_cache(CacheBatchGetStatus::NotReady, 7),
        CacheFetchStep::Done(TransactionsDataStatus::AheadOfCache)
    );
    assert_eq!(
        data_fetch_from_cache(
            CacheBatchGetStatus::Found(vec!["t7".to_string(), "t8".to_string(), "t9".to_string()]),
            7
        ),
        CacheFetchStep::Done(TransactionsDataStatus::Success(batch()))
    );
    assert_eq!(
        data_fetch_from_cache(CacheBatchGetStatus::EvictedFromCache, 7),
        CacheFetchStep::AskFileStore
    );
}

#[test]
fn the_answer_of_the_file_store_decides_the_fetch() {
    assert_eq!(
        data_fetch_from_file_store(
            Ok(vec!["t7".to_string(), "t8".to_string(), "t9".to_string()]),
            7
        ),
        Ok(TransactionsDataStatus::Success(batch()))
    );
    assert_eq!(
        data_fetch_from_file_store(
            Err("[Indexer File] Transactions file not found. Gap might happen.".to_string()),
            7
        ),
        Ok(TransactionsDataStatus::DataGap)
    );
    assert_eq!(
        data_fetch_from_file_store(Err("Transactions file not found".to_string()), 7),
        Ok(TransactionsDataStatus::DataGap)
    );
    assert_eq!(
        data_fetch_from_file_store(Err("transactions file not found".to_string()), 7),
        Err("transactions file not found".to_string())
    );
    assert_eq!(
        data_fetch_from_file_store(Err("connection reset".to_string()), 7),
        Err("connection reset".to_string())
    );
    assert_eq!(data_fetch_from_file_store(Err(String::new()), 7), Err(String::new()));
}

#[test]
fn a_fetched_batch_is_sent() {
    assert_eq!(
        next_step(7, 2, StreamEvent::Fetched(TransactionsDataStatus::Success(batch()))),
        (
            7,
            StreamAction::Send {
                response: RawDatastreamResponse {
                    chain_id: 2,
                    response: DatastreamProtoResponse::Data(outputs()),
                },
                batch_size: 3,
                end_of_batch_version: 9,
            }
        )
    );
}

#[test]
fn a_batch_that_went_out_moves_the_stream_on() {
    assert_eq!(next_step(7, 2, StreamEvent::Sent { end_of_batch_version: 9 }), (10, StreamAction::Publish));
    assert_eq!(
        next_step(7, 2, StreamEvent::Sent { end_of_batch_version: u64::MAX }),
        (7, StreamAction::Stop)
    );
}

#[test]
fn the_stream_waits_and_retries() {
    assert_eq!(
        (
            MOVING_AVERAGE_WINDOW_SIZE,
            AHEAD_OF_CACHE_RETRY_SLEEP_DURATION_MS,
            TRANSIENT_DATA_ERROR_RETRY_SLEEP_DURATION_MS,
            RESPONSE_CHANNEL_FULL_BACKOFF_DURATION_MS,
            MAX_RESPONSE_CHANNEL_SIZE
        ),
        (10_000, 50, 1000, 1000, 40)
    );
    assert_eq!(
        next_step(7, 2, StreamEvent::Fetched(TransactionsDataStatus::AheadOfCache)),
        (7, StreamAction::Fetch { after_millis: 50 })
    );
    assert_eq!(next_step(7, 2, StreamEvent::FetchFailed), (7, StreamAction::Fetch { after_millis: 1000 }));
    assert_eq!(next_step(7, 2, StreamEvent::ChannelFull), (7, StreamAction::Fetch { after_millis: 1000 }));
}

#[test]
fn the_stream_stops() {
    assert_eq!(
        next_step(7, 2, StreamEvent::Fetched(TransactionsDataStatus::DataGap)),
        (7, StreamAction::Stop)
    );
    assert_eq!(next_step(7, 2, StreamEvent::ChannelClosed), (7, StreamAction::Stop));
    assert_eq!(next_step(7, 2, StreamEvent::WatchClosed), (7, StreamAction::Stop));
}
