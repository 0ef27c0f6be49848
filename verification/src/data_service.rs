//! The decisions of the service that streams committed transactions to its
//! clients: what to make of a fetch, what to send, and when to wait, retry
//! or stop. The caller runs the loop: it fetches, sends and sleeps, and
//! reports each outcome here.

use vstd::prelude::*;

verus! {

/// The number of transactions that the moving average of the rate spans.
pub const MOVING_AVERAGE_WINDOW_SIZE: u64 = 10_000;

/// How long to wait, in milliseconds, before asking again for data beyond
/// the head of the cache.
pub const AHEAD_OF_CACHE_RETRY_SLEEP_DURATION_MS: u64 = 50;

/// How long to wait, in milliseconds, before asking again after a failed
/// fetch.
pub const TRANSIENT_DATA_ERROR_RETRY_SLEEP_DURATION_MS: u64 = 1000;

/// How long to wait, in milliseconds, while the client's channel is full.
pub const RESPONSE_CHANNEL_FULL_BACKOFF_DURATION_MS: u64 = 1000;

/// The number of responses that may wait for a client.
pub const MAX_RESPONSE_CHANNEL_SIZE: usize = 40;

/// The type of the status that opens a stream.
pub const STREAM_STATUS_INIT: i32 = 1;

/// The message of the file store for a batch that it does not hold.
pub open spec fn file_not_found_message() -> Seq<char> {
    "Transactions file not found"@
}

/// An encoded transaction with its version.
pub type EncodedTransactionWithVersion = (String, u64);

/// What a request says of itself.
#[derive(Clone, Debug, PartialEq, Eq)]
pub struct RequestMetadata {
    pub request_id: String,
    pub request_remote_addr: String,
    pub request_token: String,
    pub request_name: String,
    pub request_source: String,
}

/// Why a request is turned away.
#[derive(Clone, Copy, Debug, PartialEq, Eq, Structural)]
pub enum RequestRejected {
    /// The request carries no token, or one that is no text.
    InvalidRequestToken,
    /// The request has no remote address.
    InvalidRemoteAddress,
    /// The request names no version to start from.
    StartingVersionNotSet,
}

/// Where the data of a fetch stands.
#[derive(Debug, PartialEq, Eq)]
pub enum TransactionsDataStatus {
    /// The transactions, each with its version.
    Success(Vec<EncodedTransactionWithVersion>),
    /// The version lies beyond the head of the cache.
    AheadOfCache,
    /// Neither the cache nor the file store holds the version.
    DataGap,
}

/// What the cache answers to a request for a batch.
#[derive(Debug, PartialEq, Eq)]
pub enum CacheBatchGetStatus {
    /// The encoded transactions from the version asked for on.
    Found(Vec<String>),
    /// The version is not in the cache yet.
    NotReady,
    /// The version has left the cache.
    EvictedFromCache,
}

/// A transaction as it is streamed.
#[derive(Clone, Debug, PartialEq, Eq)]
pub struct TransactionOutput {
    pub encoded_proto_data: String,
    pub version: u64,
}

/// The first message of a stream: where it starts.
#[derive(Clone, Copy, Debug, PartialEq, Eq, Structural)]
pub struct StreamStatus {
    /// What the status tells: `STREAM_STATUS_INIT` at the start of a stream.
    pub status_type: i32,
    pub start_version: u64,
}

/// What a response carries.
#[derive(Debug, PartialEq, Eq)]
pub enum DatastreamProtoResponse {
    Status(StreamStatus),
    Data(Vec<TransactionOutput>),
}

/// A message of the stream.
#[derive(Debug, PartialEq, Eq)]
pub struct RawDatastreamResponse {
    pub chain_id: u32,
    pub response: DatastreamProtoResponse,
}

/// `uuid::Uuid::new_v4`, written out hyphenated: a fresh random identifier
/// of 36 characters. Nothing is claimed of which.
#[verifier::external_body]
fn new_request_id() -> (id: String)
    ensures
        id@.len() == 36,
{
    uuid::Uuid::new_v4().to_string()
}

/// Whether `needle` occurs in `text` at `at`.
pub open spec fn occurs_at(text: Seq<char>, needle: Seq<char>, at: int) -> bool {
    0 <= at && at + needle.len() <= text.len() && text.subrange(at, at + needle.len()) == needle
}

/// Whether `needle` occurs in `text`.
pub open spec fn occurs_in(text: Seq<char>, needle: Seq<char>) -> bool {
    exists|at: int| occurs_at(text, needle, at)
}

/// `str::contains` with a string as the pattern: whether the pattern is a
/// substring of the text.
#[verifier::external_body]
fn text_contains(text: &str, needle: &str) -> (found: bool)
    ensures
        found == occurs_in(text@, needle@),
{
    text.contains(needle)
}

/// The metadata of a request, given the identifier made for it: the token
/// must be there and the remote address too; a request without a name is
/// called "unknown".
pub fn request_metadata(
    request_id: String,
    request_token: Option<String>,
    request_remote_addr: Option<String>,
    request_name: Option<String>,
) -> (metadata: Result<RequestMetadata, RequestRejected>)
    ensures
        match (request_token, request_remote_addr) {
            (None, _) => metadata == Err::<RequestMetadata, RequestRejected>(
                RequestRejected::InvalidRequestToken,
            ),
            (Some(_), None) => metadata == Err::<RequestMetadata, RequestRejected>(
                RequestRejected::InvalidRemoteAddress,
            ),
            (Some(token), Some(addr)) => {
                &&& metadata matches Ok(found)
                &&& found.request_id == request_id
                &&& found.request_token == token
                &&& found.request_remote_addr == addr
                &&& found.request_name@ == match request_name {
                    Some(name) => name@,
                    None => "unknown"@,
                }
                &&& found.request_source@ == "testing_v1"@
            },
        },
{
    let request_token = match request_token {
        Some(token) => token,
        // A request must carry a valid token.
        None => {
            return Err(RequestRejected::InvalidRequestToken);
        },
    };
    let request_remote_addr = match request_remote_addr {
        Some(addr) => addr,
        None => {
            return Err(RequestRejected::InvalidRemoteAddress);
        },
    };
    let request_name = match request_name {
        Some(name) => name,
        None => "unknown".to_string(),
    };
    Ok(
        RequestMetadata {
            request_id,
            request_remote_addr,
            request_token,
            request_name,
            request_source: "testing_v1".to_string(),
        },
    )
}

/// The metadata of a request, under a fresh identifier. `request_token` and
/// `request_name` are the headers of those names where they are there and
/// are text.
pub fn get_request_metadata(
    request_token: Option<String>,
    request_remote_addr: Option<String>,
    request_name: Option<String>,
) -> (metadata: Result<RequestMetadata, RequestRejected>)
    ensures
        match (request_token, request_remote_addr) {
            (None, _) => metadata == Err::<RequestMetadata, RequestRejected>(
                RequestRejected::InvalidRequestToken,
            ),
            (Some(_), None) => metadata == Err::<RequestMetadata, RequestRejected>(
                RequestRejected::InvalidRemoteAddress,
            ),
            (Some(token), Some(addr)) => {
                &&& metadata matches Ok(found)
                &&& found.request_id@.len() == 36
                &&& found.request_token == token
                &&& found.request_remote_addr == addr
                &&& found.request_name@ == match request_name {
                    Some(name) => name@,
                    None => "unknown"@,
                }
                &&& found.request_source@ == "testing_v1"@
            },
        },
{
    let request_id = new_request_id();
    request_metadata(request_id, request_token, request_remote_addr, request_name)
}

/// The encoded transactions with their versions, counted up from
/// `starting_version`.
pub open spec fn with_versions(encoded: Seq<String>, starting_version: u64) -> Seq<
    EncodedTransactionWithVersion,
> {
    Seq::new(encoded.len(), |i: int| (encoded[i], (starting_version + i) as u64))
}

/// Gives each encoded transaction its version, counting up from
/// `starting_version`.
pub fn build_protobuf_encoded_transaction_wrappers(
    encoded: Vec<String>,
    starting_version: u64,
) -> (transactions: Vec<EncodedTransactionWithVersion>)
    requires
        starting_version + encoded@.len() <= u64::MAX,
    ensures
        transactions@ == with_versions(encoded@, starting_version),
{
    let mut encoded = encoded;
    let ghost all = encoded@;
    let mut transactions: Vec<EncodedTransactionWithVersion> = Vec::new();
    let total = encoded.len();
    let mut reversed: Vec<EncodedTransactionWithVersion> = Vec::new();
    while encoded.len() > 0
        invariant
            encoded@.len() <= total == all.len(),
            starting_version + all.len() <= u64::MAX,
            encoded@ == all.take(encoded@.len() as int),
            reversed@.len() == total - encoded@.len(),
            forall|i: int|
                0 <= i < reversed@.len() ==> reversed@[i] == (
                    all[total - 1 - i],
                    (starting_version + total - 1 - i) as u64,
                ),
        decreases encoded@.len(),
    {
        let index = encoded.len() - 1;
        let ghost before = encoded@;
        let transaction = encoded.pop().unwrap();
        proof {
            assert(encoded@ =~= all.take(index as int));
            assert(transaction == all[index as int]);
        }
        reversed.push((transaction, starting_version + index as u64));
    }
    while reversed.len() > 0
        invariant
            reversed@.len() + transactions@.len() == total == all.len(),
            forall|i: int|
                0 <= i < reversed@.len() ==> reversed@[i] == (
                    all[total - 1 - i],
                    (starting_version + total - 1 - i) as u64,
                ),
            forall|i: int|
                0 <= i < transactions@.len() ==> transactions@[i] == (
                    all[i],
                    (starting_version + i) as u64,
                ),
        decreases reversed@.len(),
    {
        let transaction = reversed.pop().unwrap();
        transactions.push(transaction);
    }
    proof {
        assert(transactions@ =~= with_versions(all, starting_version));
    }
    transactions
}

/// The response that streams a batch. A batch may be short.
pub fn raw_datastream_response_builder(
    data: Vec<EncodedTransactionWithVersion>,
    chain_id: u32,
) -> (response: RawDatastreamResponse)
    ensures
        response.chain_id == chain_id,
        response.response matches DatastreamProtoResponse::Data(transactions)
            && transactions@.len() == data@.len() && forall|i: int|
            0 <= i < data@.len() ==> transactions@[i] == (TransactionOutput {
                encoded_proto_data: data@[i].0,
                version: data@[i].1,
            }),
{
    let mut data = data;
    let ghost all = data@;
    let total = data.len();
    let mut reversed: Vec<TransactionOutput> = Vec::new();
    while data.len() > 0
        invariant
            data@.len() <= total == all.len(),
            data@ == all.take(data@.len() as int),
            reversed@.len() == total - data@.len(),
            forall|i: int|
                0 <= i < reversed@.len() ==> reversed@[i] == (TransactionOutput {
                    encoded_proto_data: all[total - 1 - i].0,
                    version: all[total - 1 - i].1,
                }),
        decreases data@.len(),
    {
        let index = data.len() - 1;
        let (encoded, version) = data.pop().unwrap();
        proof {
            assert(data@ =~= all.take(index as int));
        }
        reversed.push(TransactionOutput { encoded_proto_data: encoded, version });
    }
    let mut transactions: Vec<TransactionOutput> = Vec::new();
    while reversed.len() > 0
        invariant
            reversed@.len() + transactions@.len() == total == all.len(),
            forall|i: int|
                0 <= i < reversed@.len() ==> reversed@[i] == (TransactionOutput {
                    encoded_proto_data: all[total - 1 - i].0,
                    version: all[total - 1 - i].1,
                }),
            forall|i: int|
                0 <= i < transactions@.len() ==> transactions@[i] == (TransactionOutput {
                    encoded_proto_data: all[i].0,
                    version: all[i].1,
                }),
        decreases reversed@.len(),
    {
        let transaction = reversed.pop().unwrap();
        transactions.push(transaction);
    }
    RawDatastreamResponse { chain_id, response: DatastreamProtoResponse::Data(transactions) }
}

/// The response that opens a stream at `start_version`.
pub fn stream_status_response(chain_id: u32, start_version: u64) -> (response:
    RawDatastreamResponse)
    ensures
        response.chain_id == chain_id,
        response.response == DatastreamProtoResponse::Status(
            StreamStatus { status_type: STREAM_STATUS_INIT, start_version },
        ),
{
    RawDatastreamResponse {
        chain_id,
        response: DatastreamProtoResponse::Status(
            StreamStatus { status_type: STREAM_STATUS_INIT, start_version },
        ),
    }
}

/// The version that a request starts from, which it must name.
pub fn starting_version_of(starting_version: Option<u64>) -> (version: Result<u64, RequestRejected>)
    ensures
        version == match starting_version {
            Some(version) => Ok::<u64, RequestRejected>(version),
            None => Err(RequestRejected::StartingVersionNotSet),
        },
{
    match starting_version {
        Some(version) => Ok(version),
        None => Err(RequestRejected::StartingVersionNotSet),
    }
}

/// What follows the cache's answer to a fetch.
#[derive(Debug, PartialEq, Eq)]
pub enum CacheFetchStep {
    /// The fetch is done, with this status.
    Done(TransactionsDataStatus),
    /// The data has left the cache: the file store is to be asked.
    AskFileStore,
}

/// What to make of the cache's answer for the batch at `starting_version`:
/// its transactions with their versions, the word that the version is ahead
/// of the cache, or the turn to the file store.
pub fn data_fetch_from_cache(status: CacheBatchGetStatus, starting_version: u64) -> (step:
    CacheFetchStep)
    requires
        status matches CacheBatchGetStatus::Found(encoded) ==> starting_version + encoded@.len()
            <= u64::MAX,
    ensures
        match status {
            CacheBatchGetStatus::NotReady => step == CacheFetchStep::Done(
                TransactionsDataStatus::AheadOfCache,
            ),
            CacheBatchGetStatus::Found(encoded) => step matches CacheFetchStep::Done(
                TransactionsDataStatus::Success(transactions),
            ) && transactions@ == with_versions(encoded@, starting_version),
            CacheBatchGetStatus::EvictedFromCache => step == CacheFetchStep::AskFileStore,
        },
{
    match status {
        // The data is not in the cache yet.
        CacheBatchGetStatus::NotReady => CacheFetchStep::Done(TransactionsDataStatus::AheadOfCache),
        CacheBatchGetStatus::Found(encoded) => CacheFetchStep::Done(
            TransactionsDataStatus::Success(
                build_protobuf_encoded_transaction_wrappers(encoded, starting_version),
            ),
        ),
        CacheBatchGetStatus::EvictedFromCache => CacheFetchStep::AskFileStore,
    }
}

/// What to make of the file store's answer for the batch at
/// `starting_version`: its transactions with their versions; a gap in the
/// data where its error says that the file was not found; and otherwise its
/// error.
pub fn data_fetch_from_file_store(
    answer: Result<Vec<String>, String>,
    starting_version: u64,
) -> (status: Result<TransactionsDataStatus, String>)
    requires
        answer matches Ok(encoded) ==> starting_version + encoded@.len() <= u64::MAX,
    ensures
        match answer {
            Ok(encoded) => status matches Ok(TransactionsDataStatus::Success(transactions))
                && transactions@ == with_versions(encoded@, starting_version),
            Err(message) => if occurs_in(message@, file_not_found_message()) {
                status == Ok::<TransactionsDataStatus, String>(TransactionsDataStatus::DataGap)
            } else {
                status == Err::<TransactionsDataStatus, String>(message)
            },
        },
{
    match answer {
        Ok(encoded) => Ok(
            TransactionsDataStatus::Success(
                build_protobuf_encoded_transaction_wrappers(encoded, starting_version),
            ),
        ),
        Err(message) => {
            if text_contains(message.as_str(), "Transactions file not found") {
                Ok(TransactionsDataStatus::DataGap)
            } else {
                Err(message)
            }
        },
    }
}

/// What happened since the stream's last step.
#[derive(Debug, PartialEq, Eq)]
pub enum StreamEvent {
    /// The fetch at the current version came out with this status.
    Fetched(TransactionsDataStatus),
    /// The fetch at the current version failed.
    FetchFailed,
    /// The batch that ends at `end_of_batch_version` went into the client's
    /// channel.
    Sent { end_of_batch_version: u64 },
    /// The client's channel was full.
    ChannelFull,
    /// The client's channel is closed.
    ChannelClosed,
    /// The watcher of the current version is gone.
    WatchClosed,
}

/// What the stream does next.
#[derive(Debug, PartialEq, Eq)]
pub enum StreamAction {
    /// Fetch at the current version, after waiting `after_millis`.
    Fetch { after_millis: u64 },
    /// Try to send `response`, the batch of `batch_size` transactions that
    /// ends at `end_of_batch_version`.
    Send { response: RawDatastreamResponse, batch_size: usize, end_of_batch_version: u64 },
    /// Tell the watcher the current version, then fetch there.
    Publish,
    /// End the stream.
    Stop,
}

/// The last version of a batch that holds a transaction.
pub open spec fn last_version(transactions: Seq<EncodedTransactionWithVersion>) -> u64 {
    transactions.last().1
}

/// One step of a stream that stands at `current_version` for the chain
/// `chain_id`: the version it stands at next and what it does next.
///
/// A fetched batch is sent. Data ahead of the cache is fetched again after
/// a short wait, and so is a failed fetch and a batch that found the
/// channel full, each after its own wait. A batch that went out moves the
/// stream past its last version. A gap in the data, a closed channel, a
/// watcher gone and a last version past which there is none end the stream.
pub fn next_step(current_version: u64, chain_id: u32, event: StreamEvent) -> (next: (
    u64,
    StreamAction,
))
    requires
        event matches StreamEvent::Fetched(TransactionsDataStatus::Success(transactions))
            ==> transactions@.len() > 0,
    ensures
        match event {
            StreamEvent::Fetched(TransactionsDataStatus::Success(transactions)) => {
                &&& next.0 == current_version
                &&& next.1 matches StreamAction::Send { response, batch_size, end_of_batch_version }
                &&& batch_size == transactions@.len()
                &&& end_of_batch_version == last_version(transactions@)
                &&& response.chain_id == chain_id
                &&& response.response matches DatastreamProtoResponse::Data(outputs)
                &&& outputs@.len() == transactions@.len()
                &&& forall|i: int|
                    0 <= i < transactions@.len() ==> outputs@[i] == (TransactionOutput {
                        encoded_proto_data: transactions@[i].0,
                        version: transactions@[i].1,
                    })
            },
            StreamEvent::Fetched(TransactionsDataStatus::AheadOfCache) => next == (
                current_version,
                StreamAction::Fetch { after_millis: AHEAD_OF_CACHE_RETRY_SLEEP_DURATION_MS },
            ),
            StreamEvent::Fetched(TransactionsDataStatus::DataGap) => next == (
                current_version,
                StreamAction::Stop,
            ),
            StreamEvent::FetchFailed => next == (
                current_version,
                StreamAction::Fetch { after_millis: TRANSIENT_DATA_ERROR_RETRY_SLEEP_DURATION_MS },
            ),
            StreamEvent::Sent { end_of_batch_version } => if end_of_batch_version < u64::MAX {
                next == (((end_of_batch_version + 1) as u64), StreamAction::Publish)
            } else {
                next == (current_version, StreamAction::Stop)
            },
            StreamEvent::ChannelFull => next == (
                current_version,
                StreamAction::Fetch { after_millis: RESPONSE_CHANNEL_FULL_BACKOFF_DURATION_MS },
            ),
            StreamEvent::ChannelClosed => next == (current_version, StreamAction::Stop),
            StreamEvent::WatchClosed => next == (current_version, StreamAction::Stop),
        },
{
    match event {
        StreamEvent::Fetched(TransactionsDataStatus::Success(transactions)) => {
            let batch_size = transactions.len();
            let end_of_batch_version = transactions[batch_size - 1].1;
            let response = raw_datastream_response_builder(transactions, chain_id);
            (current_version, StreamAction::Send { response, batch_size, end_of_batch_version })
        },
        StreamEvent::Fetched(TransactionsDataStatus::AheadOfCache) => (
            current_version,
            StreamAction::Fetch { after_millis: AHEAD_OF_CACHE_RETRY_SLEEP_DURATION_MS },
        ),
        StreamEvent::Fetched(TransactionsDataStatus::DataGap) => (current_version, StreamAction::Stop),
        StreamEvent::FetchFailed => (
            current_version,
            StreamAction::Fetch { after_millis: TRANSIENT_DATA_ERROR_RETRY_SLEEP_DURATION_MS },
        ),
        StreamEvent::Sent { end_of_batch_version } => {
            if end_of_batch_version < u64::MAX {
                (end_of_batch_version + 1, StreamAction::Publish)
            } else {
                (current_version, StreamAction::Stop)
            }
        },
        StreamEvent::ChannelFull => (
            current_version,
            StreamAction::Fetch { after_millis: RESPONSE_CHANNEL_FULL_BACKOFF_DURATION_MS },
        ),
        StreamEvent::ChannelClosed => (current_version, StreamAction::Stop),
        StreamEvent::WatchClosed => (current_version, StreamAction::Stop),
    }
}

} // verus!
