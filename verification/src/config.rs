//! The settings of the relay, as plain values. Reading them from files and
//! from the environment is the caller's business.
use crate::consumer::Dispatcher;
use crate::data::readable;
use crate::types::event::HistoryEventKind;
use crate::types::principal::PrincipalId;
use vstd::prelude::*;
use vstd::string::*;

verus! {

/// The settings of the relay.
#[derive(Debug, PartialEq, Eq)]
pub struct Config {
    /// The filter for the log.
    pub log_filter: String,
    /// The milliseconds to sleep when the log or a queue has nothing new.
    pub interval: u64,
    /// The largest number of events to fetch or read at once.
    pub limit: u64,
    /// The address of the network on which the event log runs.
    pub ic_url: String,
    /// The identity of the service that knows the groups.
    pub proxy_id: PrincipalId,
    /// The identity of the event log.
    pub history_id: PrincipalId,
    /// The address of the durable store.
    pub redis_url: String,
    /// The address of the home server of the chat platform.
    pub matrix_url: String,
    /// Whether to begin at the head of the log instead of catching up.
    pub skip_catchup: bool,
    /// The password of the relay's user on the chat platform.
    pub password: String,
}

/// The log filter where none is configured.
pub fn default_log_filter() -> (out: String)
    ensures
        out@ == "debug,reqwest=info,rustls=info,hyper_util=info,hyper=info,h2=info,matrix_sdk=info,eyeball=info"@,
{
    String::from_str(
        "debug,reqwest=info,rustls=info,hyper_util=info,hyper=info,h2=info,matrix_sdk=info,eyeball=info",
    )
}

/// The interval where none is configured: 300 milliseconds.
pub fn default_interval() -> (out: u64)
    ensures
        out == 300,
{
    300
}

/// The limit where none is configured: 100 events.
pub fn default_limit() -> (out: u64)
    ensures
        out == 100,
{
    100
}

/// The address of the network where none is configured.
pub fn default_ic_url() -> (out: String)
    ensures
        out@ == "https://icp0.io"@,
{
    String::from_str("https://icp0.io")
}

impl Config {
    /// The settings with every optional one at its default: the relay catches
    /// up, sleeps 300 milliseconds, and takes up to 100 events at once.
    pub fn new(
        proxy_id: PrincipalId,
        history_id: PrincipalId,
        redis_url: String,
        matrix_url: String,
        password: String,
    ) -> (out: Config)
        ensures
            out.log_filter@ == "debug,reqwest=info,rustls=info,hyper_util=info,hyper=info,h2=info,matrix_sdk=info,eyeball=info"@,
            out.interval == 300,
            out.limit == 100,
            out.ic_url@ == "https://icp0.io"@,
            out.proxy_id == proxy_id,
            out.history_id == history_id,
            out.redis_url == redis_url,
            out.matrix_url == matrix_url,
            !out.skip_catchup,
            out.password == password,
    {
        Config {
            log_filter: default_log_filter(),
            interval: default_interval(),
            limit: default_limit(),
            ic_url: default_ic_url(),
            proxy_id,
            history_id,
            redis_url,
            matrix_url,
            skip_catchup: false,
            password,
        }
    }

    /// The dispatcher for one kind of event under these settings; none where
    /// the limit is zero or too large for the store.
    pub fn dispatcher(&self, kind: HistoryEventKind) -> (out: Option<Dispatcher>)
        ensures
            readable(self.limit) <==> out is Some,
            out matches Some(dispatcher) ==> dispatcher.kind() == kind && dispatcher.batch_size()
                == self.limit,
    {
        Dispatcher::new(kind, self.limit)
    }
}

} // verus!
